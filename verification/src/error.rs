//! Source locations, spans, and the language's error codes.

use vstd::prelude::*;
use crate::text::{nat_text, push_usize};

verus! {

/// Source location in the input stream.
#[derive(Debug, Clone, Copy, PartialEq, Eq, Hash, Structural)]
pub struct Location {
    pub line: usize,
    pub col: usize,
}

impl Location {
    /// The text form `line:col`.
    pub open spec fn text(self) -> Seq<char> {
        nat_text(self.line as nat) + seq![':'] + nat_text(self.col as nat)
    }

    /// Renders the location as `line:col`.
    pub fn to_text(&self) -> (s: String)
        ensures
            s@ == self.text(),
    {
        let mut s = String::new();
        push_usize(&mut s, self.line);
        crate::text::push_char(&mut s, ':');
        push_usize(&mut s, self.col);
        assert(s@ =~= self.text());
        s
    }
}

/// A span covering a range of source text.
#[derive(Debug, Clone, Copy, PartialEq, Eq, Structural)]
pub struct Span {
    pub start: Location,
    pub end: Location,
}

impl Span {
    /// The text form `start-end`.
    pub open spec fn text(self) -> Seq<char> {
        self.start.text() + seq!['-'] + self.end.text()
    }

    /// Renders the span as `line:col-line:col`.
    pub fn to_text(&self) -> (s: String)
        ensures
            s@ == self.text(),
    {
        let mut s = self.start.to_text();
        crate::text::push_char(&mut s, '-');
        let e = self.end.to_text();
        s.append(e.as_str());
        assert(s@ =~= self.text());
        s
    }
}

impl Default for Span {
    /// The span at line 0, column 0.
    fn default() -> (s: Self)
        ensures
            s.start == (Location { line: 0, col: 0 }),
            s.end == (Location { line: 0, col: 0 }),
    {
        Span { start: Location { line: 0, col: 0 }, end: Location { line: 0, col: 0 } }
    }
}

/// All error codes of the language.
#[allow(non_camel_case_types)]
#[derive(Debug, Clone, PartialEq, Eq)]
pub enum ZylError {
    // Lexer errors.
    E_UNTERMINATED_STRING(Span),
    E_INVALID_CHAR(Location, char),
    E_INTEGER_OVERFLOW(Span, String),
    E_FLOAT_OVERFLOW(Span, String),
    E_UNEXPECTED_EOF(Location, &'static str),
    // Parser errors.
    E_EXPECTED_RPAREN(Span, String),
    E_EXPECTED_RBRACKET(Span, String),
    E_EXPECTED_RCURLY(Span, String),
    E_UNEXPECTED_TOKEN_IN_EXPR(Span, String),
    E_EXPECTED_EXPRESSION(Span, String),
    E_EMPTY_LIST(Span),
    E_ATOM_AS_OPERATOR(Span),
    // General errors.
    E_USER_ERROR(Span, String),
    E_MUT_CONFLICT(Span),
    E_ASSERT_FAIL(Span, Option<String>),
    E_FFI_TIMEOUT(Span, u64),
    E_REGION_ESCAPE(Span),
    E_MACRO_NON_TERMINATION,
    E_MATCH_NONEXHAUSTIVE(Span, String),
    E_UNINITIALIZED_USE(Span, String),
    E_CAPABILITY_LEAK(Span),
    E_TRAIT_NOT_FOUND(Span, String),
    E_DUPLICATE_IMPL(Span, String, String),
    E_MACRO_ILLEGAL_ACCESS,
    E_CONTRACT_VIOLATION(Span, String),
    E_OVERFLOW(Span),
    E_DIVISION_BY_ZERO(Span),
    E_TEST_FAILURE(String),
    E_TEST_RUNNER_ERROR(String),
    E_TRAIT_NOT_DERIVABLE(Span, String, String),
    // Reserved keyword errors.
    E_RESERVED_KEYWORD(Span, String),
}

} // verus!
