//! The lexer: turns a sequence of characters into a sequence of string
//! tokens, handling string literals, escape sequences, line comments and
//! single-character delimiters.
//!
//! The token sequence is specified by the state machine [`lex_spec`]; the
//! executable [`tokenise`] is proved to produce exactly that sequence.

use vstd::prelude::*;

verus! {

/// The lexer's state between two characters: whether the next character is
/// escaped, whether a string literal or a comment is open, and the pending
/// (not yet emitted) token text.
pub struct LexState {
    pub escaped: bool,
    pub in_string: bool,
    pub in_comment: bool,
    pub cur: Seq<char>,
}

/// Characters that are tokens of their own (other than whitespace).
pub open spec fn is_special_char(c: char) -> bool {
    c == '(' || c == ')' || c == '\'' || c == '#'
}

/// The whitespace characters on which tokens split: the Unicode
/// `White_Space` set.
pub open spec fn is_space_char(c: char) -> bool {
    c == ' ' || c == '\u{9}' || c == '\u{a}' || c == '\u{b}' || c == '\u{c}' || c == '\u{d}'
        || c == '\u{85}' || c == '\u{a0}' || c == '\u{1680}' || c == '\u{2000}' || c == '\u{2001}'
        || c == '\u{2002}' || c == '\u{2003}' || c == '\u{2004}' || c == '\u{2005}'
        || c == '\u{2006}' || c == '\u{2007}' || c == '\u{2008}' || c == '\u{2009}'
        || c == '\u{200a}' || c == '\u{2028}' || c == '\u{2029}' || c == '\u{202f}'
        || c == '\u{205f}' || c == '\u{3000}'
}

/// One step of the lexer: from a state and the next character to the next
/// state and the tokens emitted by that character, in priority order:
/// comments swallow text to the end of the line, an escaped character is
/// taken verbatim, `\` escapes the next character, a string literal runs to
/// its closing quote, `"` opens a string literal, `;` opens a comment, the
/// special delimiters are tokens of their own, and whitespace flushes the
/// pending token.
pub open spec fn lex_step(st: LexState, c: char) -> (LexState, Seq<Seq<char>>) {
    if st.in_comment {
        (
            LexState { in_comment: c != '\n', ..st },
            Seq::empty(),
        )
    } else if st.escaped {
        (LexState { escaped: false, cur: st.cur.push(c), ..st }, Seq::empty())
    } else if c == '\\' {
        (LexState { escaped: true, ..st }, Seq::empty())
    } else if st.in_string {
        if c == '"' {
            (
                LexState { in_string: false, cur: Seq::empty(), ..st },
                seq![st.cur.push(c)],
            )
        } else {
            (LexState { cur: st.cur.push(c), ..st }, Seq::empty())
        }
    } else if c == '"' {
        (
            LexState { in_string: true, cur: seq!['"'], ..st },
            if st.cur.len() > 0 {
                seq![st.cur]
            } else {
                Seq::empty()
            },
        )
    } else if c == ';' {
        (
            LexState { in_comment: true, cur: Seq::empty(), ..st },
            if st.cur.len() > 0 {
                seq![st.cur]
            } else {
                Seq::empty()
            },
        )
    } else if is_special_char(c) {
        (
            LexState { cur: Seq::empty(), ..st },
            if st.cur.len() > 0 {
                seq![st.cur, seq![c]]
            } else {
                seq![seq![c]]
            },
        )
    } else if is_space_char(c) {
        (
            LexState { cur: Seq::empty(), ..st },
            if st.cur.len() > 0 {
                seq![st.cur]
            } else {
                Seq::empty()
            },
        )
    } else {
        (LexState { cur: st.cur.push(c), ..st }, Seq::empty())
    }
}

/// The tokens emitted from position `i` of `src` onward, starting in state
/// `st`; any pending token is flushed at the end of the input.
pub open spec fn lex_from(src: Seq<char>, i: int, st: LexState) -> Seq<Seq<char>>
    decreases src.len() - i,
{
    if i < 0 || i >= src.len() {
        if st.cur.len() > 0 {
            seq![st.cur]
        } else {
            Seq::empty()
        }
    } else {
        let step = lex_step(st, src[i]);
        step.1 + lex_from(src, i + 1, step.0)
    }
}

/// The lexer's starting state: no flag set, no pending token.
pub open spec fn lex_init() -> LexState {
    LexState { escaped: false, in_string: false, in_comment: false, cur: Seq::empty() }
}

/// The token sequence of a whole source text.
pub open spec fn lex_spec(src: Seq<char>) -> Seq<Seq<char>> {
    lex_from(src, 0, lex_init())
}

/// A sequence of strings, seen as a sequence of character sequences.
pub open spec fn toks_view(toks: Seq<String>) -> Seq<Seq<char>> {
    Seq::new(toks.len(), |i: int| toks[i]@)
}

pub broadcast proof fn toks_view_push(toks: Seq<String>, t: String)
    ensures
        #[trigger] toks_view(toks.push(t)) == toks_view(toks).push(t@),
{
    assert(toks_view(toks.push(t)) =~= toks_view(toks).push(t@));
}

/// Relies on String::push: appends one character to the string.
#[verifier::external_body]
pub(crate) fn push_char(s: &mut String, c: char)
    ensures
        final(s)@ == old(s)@.push(c),
{
    s.push(c)
}

/// Predicate used by the lexer: the characters on which tokens split
/// (other than whitespace), each a token by itself.
fn is_special(c: char) -> (r: bool)
    ensures
        r == is_special_char(c),
{
    c == '(' || c == ')' || c == '\'' || c == '#'
}

/// Whether `c` is whitespace (the Unicode `White_Space` set).
fn is_space(c: char) -> (r: bool)
    ensures
        r == is_space_char(c),
{
    c == ' ' || c == '\u{9}' || c == '\u{a}' || c == '\u{b}' || c == '\u{c}' || c == '\u{d}'
        || c == '\u{85}' || c == '\u{a0}' || c == '\u{1680}' || c == '\u{2000}' || c == '\u{2001}'
        || c == '\u{2002}' || c == '\u{2003}' || c == '\u{2004}' || c == '\u{2005}'
        || c == '\u{2006}' || c == '\u{2007}' || c == '\u{2008}' || c == '\u{2009}'
        || c == '\u{200a}' || c == '\u{2028}' || c == '\u{2029}' || c == '\u{202f}'
        || c == '\u{205f}' || c == '\u{3000}'
}

/// Turn source text into the vector of its tokens: exactly the sequence
/// [`lex_spec`] assigns to the text.
pub fn tokenise(source: &Vec<char>) -> (r: Vec<String>)
    ensures
        toks_view(r@) == lex_spec(source@),
{
    broadcast use toks_view_push;

    let mut res: Vec<String> = Vec::new();
    let mut cur: String = String::new();
    let mut escaped: bool = false;
    let mut in_string: bool = false;
    let mut in_comment: bool = false;
    let mut i: usize = 0;

    while i < source.len()
        invariant
            i <= source@.len(),
            toks_view(res@) + lex_from(
                source@,
                i as int,
                LexState { escaped, in_string, in_comment, cur: cur@ },
            ) == lex_spec(source@),
        decreases source@.len() - i,
    {
        let ghost prev = LexState { escaped, in_string, in_comment, cur: cur@ };
        let ghost old_res = res@;
        let c = source[i];

        if in_comment {
            if c == '\n' {
                in_comment = false;
            }
        } else if escaped {
            escaped = false;
            push_char(&mut cur, c);
        } else if c == '\\' {
            escaped = true;
        } else if in_string {
            push_char(&mut cur, c);
            if c == '"' {
                res.push(cur);
                cur = String::new();
                in_string = false;
            }
        } else if c == '"' {
            if !cur.as_str().is_empty() {
                res.push(cur);
                cur = String::new();
            }
            push_char(&mut cur, c);
            in_string = true;
        } else if c == ';' {
            if !cur.as_str().is_empty() {
                res.push(cur);
                cur = String::new();
            }
            in_comment = true;
        } else if is_special(c) {
            if !cur.as_str().is_empty() {
                res.push(cur);
                cur = String::new();
            }
            let mut tok = String::new();
            push_char(&mut tok, c);
            res.push(tok);
        } else if is_space(c) {
            if !cur.as_str().is_empty() {
                res.push(cur);
                cur = String::new();
            }
        } else {
            push_char(&mut cur, c);
        }

        proof {
            let step = lex_step(prev, source@[i as int]);
            let now = LexState { escaped, in_string, in_comment, cur: cur@ };
            assert(now.cur =~= step.0.cur);
            assert(now == step.0);
            assert(toks_view(res@) =~= toks_view(old_res) + step.1);
            assert(lex_from(source@, i as int, prev) == step.1 + lex_from(
                source@,
                i + 1,
                step.0,
            ));
            assert(toks_view(res@) + lex_from(source@, i + 1, now) =~= toks_view(old_res)
                + lex_from(source@, i as int, prev));
        }

        i = i + 1;
    }

    if !cur.as_str().is_empty() {
        res.push(cur);
    }
    res
}

/// Hands out the tokens of a source text one at a time, for the reader.
pub struct TokenInterator {
    tokens: Vec<String>,
    pos: usize,
}

impl TokenInterator {
    /// The token sequence this stream was built from.
    pub closed spec fn toks(&self) -> Seq<Seq<char>> {
        toks_view(self.tokens@)
    }

    /// How many tokens have been handed out already.
    pub closed spec fn cursor(&self) -> int {
        self.pos as int
    }

    /// The cursor never passes the end of the token sequence.
    pub closed spec fn wf(&self) -> bool {
        self.pos <= self.tokens.len()
    }

    /// A well-formed stream's cursor lies within its token sequence.
    pub proof fn wf_bounds(&self)
        requires
            self.wf(),
        ensures
            0 <= self.cursor() <= self.toks().len(),
    {
    }

    /// Create a new token stream over the tokens of `source`.
    pub fn new(source: &Vec<char>) -> (r: Self)
        ensures
            r.toks() == lex_spec(source@),
            r.cursor() == 0,
            r.wf(),
    {
        TokenInterator { tokens: tokenise(source), pos: 0 }
    }

    /// The next token, if one is left; the cursor moves past it.
    pub fn next_token(&mut self) -> (r: Option<String>)
        requires
            old(self).wf(),
        ensures
            final(self).toks() == old(self).toks(),
            final(self).wf(),
            match r {
                Some(t) => old(self).cursor() < old(self).toks().len() && t@ == old(
                    self,
                ).toks()[old(self).cursor()] && final(self).cursor() == old(self).cursor() + 1,
                None => old(self).cursor() >= old(self).toks().len() && final(self).cursor()
                    == old(self).cursor(),
            },
    {
        if self.pos < self.tokens.len() {
            let t = self.tokens[self.pos].clone();
            self.pos = self.pos + 1;
            Some(t)
        } else {
            None
        }
    }
}

} // verus!
