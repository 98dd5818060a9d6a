//! The reader: consumes the token stream and recursively builds syntax
//! trees ([`SchemeObject`]), handling nested combinations, quoting and
//! vector literals.
//!
//! The grammar is specified by [`parse_tok_spec`] and its helpers; each
//! executable parsing function is proved to return exactly what the
//! specification assigns to its position in the token sequence.

use vstd::prelude::*;
use vstd::string::StringExecFns;

use crate::scm_static::{
    debug_render, so_seq_view, so_view, ScmExpr, SchemeObject, SymFrom,
};
use crate::str_eq;
use crate::tokenise::TokenInterator;
use crate::ParseErrView;
use crate::ParseError;

verus! {

/// Controls which error the end of the token stream raises: at the top
/// level a missing token just means "no more forms"; nested inside an open
/// form it is fatal.
enum ParseMode {
    TokenOptional,
    TokenRequired,
}

/// Whether this mode makes a token mandatory.
spec fn mode_required(m: ParseMode) -> bool {
    m is TokenRequired
}

/// A parse result, seen at the model level.
pub open spec fn pres_view(r: Result<SchemeObject, ParseError>) -> Result<ScmExpr, ParseErrView> {
    match r {
        Ok(o) => Ok(so_view(o)),
        Err(e) => Err(e@),
    }
}

/// The next position after a sub-parse that started at `i` and reported
/// position `p`; out-of-range reports are pulled back into range. Every
/// parse in fact reports a position in range (see [`parse_spec_bounds`]),
/// so this changes nothing.
pub open spec fn next_pos(toks_len: int, i: int, p: int) -> int {
    if i + 1 <= p <= toks_len {
        p
    } else {
        i + 1
    }
}

/// What one form starting at position `i` parses to, and the position just
/// past it. A missing token is `EmptyStream` or `MissingToken` according to
/// `required`; otherwise the first token of the form decides: `(` opens a
/// combination, `)` signals the end of the enclosing combination, `'`
/// quotes the next form, `#` builds a boolean or a vector from the next
/// form, and any other token is a string literal or a symbol on its own.
pub open spec fn parse_tok_spec(toks: Seq<Seq<char>>, i: int, required: bool) -> (Result<
    ScmExpr,
    ParseErrView,
>, int)
    decreases toks.len() - i, 0nat,
{
    if i < 0 || i >= toks.len() {
        (
            Err(
                if required {
                    ParseErrView::MissingToken
                } else {
                    ParseErrView::EmptyStream
                },
            ),
            i,
        )
    } else {
        let t = toks[i];
        if t == "("@ {
            let r = parse_form_spec(toks, i + 1);
            (
                match r.0 {
                    Ok(es) => Ok(ScmExpr::CodeList(es)),
                    Err(e) => Err(e),
                },
                r.1,
            )
        } else if t == ")"@ {
            (Err(ParseErrView::ClosingBracket), i + 1)
        } else if t == "'"@ {
            parse_quoted_spec(toks, i + 1)
        } else if t == "#"@ {
            parse_hash_spec(toks, i + 1)
        } else {
            (parse_other_spec(t), i + 1)
        }
    }
}

/// The elements of a combination read from position `i` up to the matching
/// `)`, and the position just past that bracket.
pub open spec fn parse_form_spec(toks: Seq<Seq<char>>, i: int) -> (Result<
    Seq<ScmExpr>,
    ParseErrView,
>, int)
    decreases toks.len() - i, 1nat,
{
    let r = parse_tok_spec(toks, i, true);
    match r.0 {
        Err(ParseErrView::ClosingBracket) => (Ok(Seq::empty()), r.1),
        Err(e) => (Err(e), r.1),
        Ok(e) => if 0 <= i && i < toks.len() {
            let rest = parse_form_spec(toks, next_pos(toks.len() as int, i, r.1));
            (
                match rest.0 {
                    Ok(es) => Ok(seq![e] + es),
                    Err(e2) => Err(e2),
                },
                rest.1,
            )
        } else {
            (Err(ParseErrView::MissingToken), r.1)
        },
    }
}

/// What `'` followed by the form at position `i` parses to: a combination
/// becomes a quoted form; quoting any other object is transparent.
pub open spec fn parse_quoted_spec(toks: Seq<Seq<char>>, i: int) -> (Result<
    ScmExpr,
    ParseErrView,
>, int)
    decreases toks.len() - i, 1nat,
{
    let r = parse_tok_spec(toks, i, true);
    (
        match r.0 {
            Ok(ScmExpr::CodeList(items)) => Ok(ScmExpr::QuotedList(items)),
            Ok(e) => Ok(e),
            Err(e) => Err(e),
        },
        r.1,
    )
}

/// The message of the syntax error raised when `#` precedes something
/// other than `t`, `f` or a combination.
pub open spec fn hash_err_msg(rendered: Seq<char>) -> Seq<char> {
    "Syntax error: # followed by "@ + rendered
}

/// What `#` followed by the form at position `i` parses to: the symbols
/// `t` and `f` become booleans, a combination becomes a vector, and
/// anything else is a syntax error naming what followed the `#`.
pub open spec fn parse_hash_spec(toks: Seq<Seq<char>>, i: int) -> (Result<
    ScmExpr,
    ParseErrView,
>, int)
    decreases toks.len() - i, 1nat,
{
    let r = parse_tok_spec(toks, i, true);
    (
        match r.0 {
            Ok(ScmExpr::Symbol(s)) => if s == "t"@ {
                Ok(ScmExpr::Bool(true))
            } else if s == "f"@ {
                Ok(ScmExpr::Bool(false))
            } else {
                Err(ParseErrView::SyntaxError(hash_err_msg(debug_render(ScmExpr::Str(s)))))
            },
            Ok(ScmExpr::CodeList(items)) => Ok(ScmExpr::Vector(items)),
            Ok(e) => Err(ParseErrView::SyntaxError(hash_err_msg(debug_render(e)))),
            Err(e) => Err(e),
        },
        r.1,
    )
}

/// What a token that is not a delimiter parses to: a token opening with
/// `"` is a string literal whose first and last characters are stripped (a
/// lone `"` never closed, a fatal partial-stream error); an empty token is
/// defended against as the same error; anything else is a symbol.
pub open spec fn parse_other_spec(t: Seq<char>) -> Result<ScmExpr, ParseErrView> {
    if t.len() > 0 && t[0] == '"' {
        if t.len() > 1 {
            Ok(ScmExpr::Str(t.subrange(1, t.len() - 1)))
        } else {
            Err(ParseErrView::PartialStream)
        }
    } else if t.len() == 0 {
        Err(ParseErrView::PartialStream)
    } else {
        Ok(ScmExpr::Symbol(t))
    }
}

/// A whole program: every top-level form from position `i` to the end of
/// the token sequence, or the first error among them.
pub open spec fn parse_program_spec(toks: Seq<Seq<char>>, i: int) -> (Result<
    Seq<ScmExpr>,
    ParseErrView,
>, int)
    decreases toks.len() - i, 2nat,
{
    let r = parse_tok_spec(toks, i, false);
    match r.0 {
        Err(ParseErrView::EmptyStream) => (Ok(Seq::empty()), r.1),
        Err(e) => (Err(e), r.1),
        Ok(e) => if 0 <= i && i < toks.len() {
            let rest = parse_program_spec(toks, next_pos(toks.len() as int, i, r.1));
            (
                match rest.0 {
                    Ok(es) => Ok(seq![e] + es),
                    Err(e2) => Err(e2),
                },
                rest.1,
            )
        } else {
            (Err(ParseErrView::MissingToken), r.1)
        },
    }
}

/// Every parse that starts in range reports a position in range, and one
/// that consumed a token reports a strictly later position.
pub proof fn parse_spec_bounds(toks: Seq<Seq<char>>, i: int, required: bool)
    requires
        0 <= i <= toks.len(),
    ensures
        ({
            let r = parse_tok_spec(toks, i, required);
            &&& i <= r.1 <= toks.len()
            &&& (i < toks.len() ==> i + 1 <= r.1)
            &&& (r.0 is Ok ==> i < toks.len())
        }),
    decreases toks.len() - i, 0nat,
{
    if 0 <= i && i < toks.len() {
        let t = toks[i];
        if t == "("@ {
            parse_form_spec_bounds(toks, i + 1);
        } else if t == ")"@ {
        } else if t == "'"@ {
            parse_spec_bounds(toks, i + 1, true);
        } else if t == "#"@ {
            parse_spec_bounds(toks, i + 1, true);
        }
    }
}

pub proof fn parse_form_spec_bounds(toks: Seq<Seq<char>>, i: int)
    requires
        0 <= i <= toks.len(),
    ensures
        ({
            let r = parse_form_spec(toks, i);
            i <= r.1 <= toks.len()
        }),
    decreases toks.len() - i, 1nat,
{
    parse_spec_bounds(toks, i, true);
    let r = parse_tok_spec(toks, i, true);
    match r.0 {
        Ok(_) => {
            parse_form_spec_bounds(toks, next_pos(toks.len() as int, i, r.1));
        },
        Err(_) => {},
    }
}

pub proof fn parse_program_spec_bounds(toks: Seq<Seq<char>>, i: int)
    requires
        0 <= i <= toks.len(),
    ensures
        ({
            let r = parse_program_spec(toks, i);
            i <= r.1 <= toks.len()
        }),
    decreases toks.len() - i, 2nat,
{
    parse_spec_bounds(toks, i, false);
    let r = parse_tok_spec(toks, i, false);
    match r.0 {
        Ok(_) => {
            parse_program_spec_bounds(toks, next_pos(toks.len() as int, i, r.1));
        },
        Err(_) => {},
    }
}

/// Consume a stream of tokens and build the first object it holds.
/// This function just dispatches to the right helper function.
fn parse_token(token_iter: &mut TokenInterator, mode: &ParseMode) -> (r: Result<
    SchemeObject,
    ParseError,
>)
    requires
        old(token_iter).wf(),
    ensures
        final(token_iter).wf(),
        final(token_iter).toks() == old(token_iter).toks(),
        ({
            let s = parse_tok_spec(
                old(token_iter).toks(),
                old(token_iter).cursor(),
                mode_required(*mode),
            );
            pres_view(r) == s.0 && final(token_iter).cursor() == s.1
        }),
    decreases old(token_iter).toks().len() - old(token_iter).cursor(), 0nat,
{
    let ghost toks = token_iter.toks();
    let ghost i = token_iter.cursor();
    proof {
        token_iter.wf_bounds();
    }
    let tok = match token_iter.next_token() {
        None => {
            return match mode {
                ParseMode::TokenOptional => Err(ParseError::EmptyStream),
                ParseMode::TokenRequired => Err(ParseError::MissingToken),
            };
        },
        Some(t) => t,
    };

    if str_eq(tok.as_str(), "(") {
        let r = parse_token_form(token_iter);
        proof {
            parse_form_spec_bounds(toks, i + 1);
        }
        r
    } else if str_eq(tok.as_str(), ")") {
        Err(ParseError::ClosingBracket)
    } else if str_eq(tok.as_str(), "'") {
        parse_token_quoted(token_iter)
    } else if str_eq(tok.as_str(), "#") {
        parse_token_hash(token_iter)
    } else {
        parse_token_other(&tok)
    }
}

/// Combines the forms already read with what the rest of the combination
/// parses to.
pub open spec fn prepend_form(pre: Seq<ScmExpr>, r: (Result<Seq<ScmExpr>, ParseErrView>, int)) -> (
    Result<Seq<ScmExpr>, ParseErrView>,
    int,
)
{
    match r.0 {
        Ok(es) => (Ok(pre + es), r.1),
        Err(e) => r,
    }
}

/// Recursively parses a form `( ... )`.
#[verifier::loop_isolation(false)]
fn parse_token_form(token_iter: &mut TokenInterator) -> (r: Result<SchemeObject, ParseError>)
    requires
        old(token_iter).wf(),
    ensures
        final(token_iter).wf(),
        final(token_iter).toks() == old(token_iter).toks(),
        ({
            let s = parse_form_spec(old(token_iter).toks(), old(token_iter).cursor());
            &&& (match s.0 {
                Ok(es) => pres_view(r) == Ok::<ScmExpr, ParseErrView>(ScmExpr::CodeList(es)),
                Err(e) => pres_view(r) == Err::<ScmExpr, ParseErrView>(e),
            })
            &&& final(token_iter).cursor() == s.1
        }),
    decreases old(token_iter).toks().len() - old(token_iter).cursor(), 1nat,
{
    let ghost toks = token_iter.toks();
    let ghost i0 = token_iter.cursor();
    proof {
        token_iter.wf_bounds();
    }
    let mut lst: Vec<SchemeObject> = Vec::new();

    loop
        invariant
            token_iter.wf(),
            token_iter.toks() == toks,
            0 <= i0 <= token_iter.cursor() <= toks.len(),
            parse_form_spec(toks, i0) == prepend_form(
                so_seq_view(lst@),
                parse_form_spec(toks, token_iter.cursor()),
            ),
        decreases toks.len() - token_iter.cursor(),
    {
        let ghost cur = token_iter.cursor();
        proof {
            parse_spec_bounds(toks, cur, true);
        }
        let obj = match parse_token(token_iter, &ParseMode::TokenRequired) {
            Ok(o) => o,
            Err(e) => {
                match e {
                    ParseError::ClosingBracket => {
                        proof {
                            let s = parse_tok_spec(toks, cur, true);
                            assert(parse_form_spec(toks, cur) == (
                                Ok::<Seq<ScmExpr>, ParseErrView>(Seq::empty()),
                                s.1,
                            ));
                            assert(so_seq_view(lst@) + Seq::<ScmExpr>::empty() =~= so_seq_view(
                                lst@,
                            ));
                        }
                        return Ok(SchemeObject::CodeList(lst));
                    },
                    _ => {
                        return Err(e);
                    },
                }
            },
        };
        let ghost prev = lst@;
        lst.push(obj);
        proof {
            broadcast use crate::scm_static::so_seq_view_push;

            let s = parse_tok_spec(toks, cur, true);
            let e = s.0->Ok_0;
            assert(next_pos(toks.len() as int, cur, s.1) == s.1);
            let rest = parse_form_spec(toks, s.1);
            assert(so_seq_view(lst@) =~= so_seq_view(prev).push(e));
            match rest.0 {
                Ok(es) => {
                    assert(so_seq_view(prev) + (seq![e] + es) =~= so_seq_view(prev).push(e) + es);
                },
                Err(_) => {},
            }
        }
    }
}

/// Parse a quoted form: the quote marker has been consumed already.
fn parse_token_quoted(token_iter: &mut TokenInterator) -> (r: Result<SchemeObject, ParseError>)
    requires
        old(token_iter).wf(),
    ensures
        final(token_iter).wf(),
        final(token_iter).toks() == old(token_iter).toks(),
        ({
            let s = parse_quoted_spec(old(token_iter).toks(), old(token_iter).cursor());
            pres_view(r) == s.0 && final(token_iter).cursor() == s.1
        }),
    decreases old(token_iter).toks().len() - old(token_iter).cursor(), 1nat,
{
    match parse_token(token_iter, &ParseMode::TokenRequired) {
        Ok(SchemeObject::CodeList(items)) => Ok(SchemeObject::QuotedList(items)),
        Ok(o) => Ok(o),
        Err(e) => Err(e),
    }
}

/// Parse a hash form: the `#` has been consumed already.
fn parse_token_hash(token_iter: &mut TokenInterator) -> (r: Result<SchemeObject, ParseError>)
    requires
        old(token_iter).wf(),
    ensures
        final(token_iter).wf(),
        final(token_iter).toks() == old(token_iter).toks(),
        ({
            let s = parse_hash_spec(old(token_iter).toks(), old(token_iter).cursor());
            pres_view(r) == s.0 && final(token_iter).cursor() == s.1
        }),
    decreases old(token_iter).toks().len() - old(token_iter).cursor(), 1nat,
{
    match parse_token(token_iter, &ParseMode::TokenRequired) {
        Ok(SchemeObject::Symbol(s)) => string_to_bool(s),
        Ok(SchemeObject::CodeList(items)) => Ok(SchemeObject::Vector(items)),
        Ok(o) => {
            let rendered = o.to_debug_string();
            let mut msg = "Syntax error: # followed by ".to_owned();
            msg.append(rendered.as_str());
            Err(ParseError::SyntaxError(msg))
        },
        Err(e) => Err(e),
    }
}

/// Helper function for `parse_token_hash`: `t` is true, `f` is false, and
/// anything else is a syntax error quoting the offending text.
fn string_to_bool(s: String) -> (r: Result<SchemeObject, ParseError>)
    ensures
        pres_view(r) == (if s@ == "t"@ {
            Ok::<ScmExpr, ParseErrView>(ScmExpr::Bool(true))
        } else if s@ == "f"@ {
            Ok::<ScmExpr, ParseErrView>(ScmExpr::Bool(false))
        } else {
            Err::<ScmExpr, ParseErrView>(
                ParseErrView::SyntaxError(hash_err_msg(debug_render(ScmExpr::Str(s@)))),
            )
        }),
{
    if str_eq(s.as_str(), "t") {
        Ok(SchemeObject::Bool(true))
    } else if str_eq(s.as_str(), "f") {
        Ok(SchemeObject::Bool(false))
    } else {
        let rendered = SchemeObject::String(s).to_debug_string();
        let mut msg = "Syntax error: # followed by ".to_owned();
        msg.append(rendered.as_str());
        Err(ParseError::SyntaxError(msg))
    }
}

/// Parse a token that is not preceded by some kind of modifier token.
fn parse_token_other(token: &String) -> (r: Result<SchemeObject, ParseError>)
    ensures
        pres_view(r) == parse_other_spec(token@),
{
    let n = token.as_str().unicode_len();
    if n > 0 && token.as_str().get_char(0) == '"' {
        if n > 1 {
            let inner = token.as_str().substring_char(1, n - 1).to_owned();
            Ok(SchemeObject::String(inner))
        } else {
            Err(ParseError::PartialStream)
        }
    } else if n == 0 {
        Err(ParseError::PartialStream)
    } else {
        Ok(SchemeObject::sym_from(token))
    }
}

/// Hands out the objects of a token stream one at a time.
pub struct ObjectIterator {
    source: TokenInterator,
}

impl ObjectIterator {
    /// The token sequence being read.
    pub closed spec fn toks(&self) -> Seq<Seq<char>> {
        self.source.toks()
    }

    /// The current position in the token sequence.
    pub closed spec fn cursor(&self) -> int {
        self.source.cursor()
    }

    /// The position is in range.
    pub closed spec fn wf(&self) -> bool {
        self.source.wf()
    }

    /// A well-formed stream's cursor lies within its token sequence.
    pub proof fn wf_bounds(&self)
        requires
            self.wf(),
        ensures
            0 <= self.cursor() <= self.toks().len(),
    {
        self.source.wf_bounds();
    }

    /// Create a new instance of `ObjectIterator`.
    pub fn new(source: TokenInterator) -> (r: Self)
        ensures
            r.toks() == source.toks(),
            r.cursor() == source.cursor(),
            r.wf() == source.wf(),
    {
        Self { source }
    }

    /// The next object of the stream: `None` once the tokens are spent,
    /// otherwise the parse of the form that starts at the cursor.
    pub fn next_object(&mut self) -> (r: Option<Result<SchemeObject, ParseError>>)
        requires
            old(self).wf(),
        ensures
            final(self).wf(),
            final(self).toks() == old(self).toks(),
            ({
                let s = parse_tok_spec(old(self).toks(), old(self).cursor(), false);
                match r {
                    None => s.0 == Err::<ScmExpr, ParseErrView>(ParseErrView::EmptyStream)
                        && final(self).cursor() == s.1,
                    Some(res) => pres_view(res) == s.0 && s.0 != Err::<ScmExpr, ParseErrView>(
                        ParseErrView::EmptyStream,
                    ) && final(self).cursor() == s.1,
                }
            }),
    {
        match parse_token(&mut self.source, &ParseMode::TokenOptional) {
            Err(ParseError::EmptyStream) => None,
            res => Some(res),
        }
    }
}

/// Combines the forms already read with what the rest of the program
/// parses to.
pub open spec fn prepend_program(
    pre: Seq<ScmExpr>,
    r: (Result<Seq<ScmExpr>, ParseErrView>, int),
) -> (Result<Seq<ScmExpr>, ParseErrView>, int) {
    match r.0 {
        Ok(es) => (Ok(pre + es), r.1),
        Err(e) => r,
    }
}

/// Fully consume a token stream to produce the vector of every top-level
/// object in it, or the first parse error.
#[verifier::loop_isolation(false)]
pub fn parse_tokens(to_object_iter: ObjectIterator) -> (r: Result<Vec<SchemeObject>, ParseError>)
    requires
        to_object_iter.wf(),
    ensures
        ({
            let s = parse_program_spec(to_object_iter.toks(), to_object_iter.cursor());
            match s.0 {
                Ok(es) => r is Ok && so_seq_view(r->Ok_0@) == es,
                Err(e) => r is Err && (r->Err_0)@ == e,
            }
        }),
{
    let mut iter = to_object_iter;
    let ghost toks = iter.toks();
    let ghost i0 = iter.cursor();
    proof {
        iter.wf_bounds();
    }
    let mut objs: Vec<SchemeObject> = Vec::new();

    loop
        invariant
            iter.wf(),
            iter.toks() == toks,
            0 <= i0 <= iter.cursor() <= toks.len(),
            parse_program_spec(toks, i0) == prepend_program(
                so_seq_view(objs@),
                parse_program_spec(toks, iter.cursor()),
            ),
        decreases toks.len() - iter.cursor(),
    {
        let ghost cur = iter.cursor();
        proof {
            parse_spec_bounds(toks, cur, false);
        }
        match iter.next_object() {
            None => {
                proof {
                    let s = parse_tok_spec(toks, cur, false);
                    assert(parse_program_spec(toks, cur) == (
                        Ok::<Seq<ScmExpr>, ParseErrView>(Seq::empty()),
                        s.1,
                    ));
                    assert(so_seq_view(objs@) + Seq::<ScmExpr>::empty() =~= so_seq_view(objs@));
                }
                return Ok(objs);
            },
            Some(res) => {
                let obj = match res {
                    Ok(o) => o,
                    Err(e) => {
                        return Err(e);
                    },
                };
                let ghost prev = objs@;
                objs.push(obj);
                proof {
                    broadcast use crate::scm_static::so_seq_view_push;

                    let s = parse_tok_spec(toks, cur, false);
                    let e = s.0->Ok_0;
                    assert(next_pos(toks.len() as int, cur, s.1) == s.1);
                    let rest = parse_program_spec(toks, s.1);
                    assert(so_seq_view(objs@) =~= so_seq_view(prev).push(e));
                    match rest.0 {
                        Ok(es) => {
                            assert(so_seq_view(prev) + (seq![e] + es) =~= so_seq_view(prev).push(e)
                                + es);
                        },
                        Err(_) => {},
                    }
                }
            },
        }
    }
}

} // verus!
