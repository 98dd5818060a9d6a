//! A small Scheme-flavoured interpreter: a lexer that splits source text
//! into tokens, a recursive-descent reader that builds syntax trees, and an
//! evaluator over a chain of lexical scopes, with closures as first-class
//! values.

use vstd::prelude::*;

pub mod ast;
pub mod env;
pub mod exec;
pub mod exec_args;
pub mod laws;
pub mod runtime;
pub mod semantics;
pub mod stdlib;
pub mod scm_static;
pub mod tokenise;

verus! {

/// Possible parse errors.
#[derive(Debug, PartialEq)]
pub enum ParseError {
    /// The token stream was empty (not fatal).
    EmptyStream,
    /// Expected a token but the stream was empty (fatal).
    MissingToken,
    /// Encountered the end of the token stream before a form was complete.
    PartialStream,
    /// Found an unexpected `)`.
    ClosingBracket,
    /// Syntax error, e.g. `#a`; the message names the offending construct.
    SyntaxError(String),
}

/// Mathematical model of a [`ParseError`]: the same shape, with the
/// syntax-error message as a sequence of characters.
pub enum ParseErrView {
    EmptyStream,
    MissingToken,
    PartialStream,
    ClosingBracket,
    SyntaxError(Seq<char>),
}

/// Relies on str's `==`: character-for-character comparison of two strings.
#[verifier::external_body]
pub(crate) fn str_eq(a: &str, b: &str) -> (r: bool)
    ensures
        r == (a@ == b@),
{
    a == b
}

impl View for ParseError {
    type V = ParseErrView;

    open spec fn view(&self) -> ParseErrView {
        match self {
            ParseError::EmptyStream => ParseErrView::EmptyStream,
            ParseError::MissingToken => ParseErrView::MissingToken,
            ParseError::PartialStream => ParseErrView::PartialStream,
            ParseError::ClosingBracket => ParseErrView::ClosingBracket,
            ParseError::SyntaxError(s) => ParseErrView::SyntaxError(s@),
        }
    }
}

} // verus!
