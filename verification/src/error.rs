//! Parse failures.
//!
//! The first failure aborts the parse; no partial result is produced.
//! Offsets count characters from the start of the source, not bytes, so
//! they diverge from byte positions on text with multi-byte characters.
//! Syntax errors carry the set of token kinds that the parser would have
//! accepted at that point.

use vstd::prelude::*;

use crate::token::TokKind;

verus! {

/// Why a parse failed.
#[derive(PartialEq, Eq, Debug)]
pub enum ParseError {
    /// No token pattern matches at `offset` (an unterminated string or
    /// comment-free region, a stray character, or an integer literal too
    /// large for its machine representation).
    LexError { offset: usize },
    /// The token at `start..end` is not valid in the current parser state.
    UnrecognizedToken { start: usize, end: usize, kind: TokKind, expected: Vec<TokKind> },
    /// Input ended while the parser still expected more tokens.
    UnrecognizedEof { offset: usize, expected: Vec<TokKind> },
    /// A complete problem was parsed but input remains.
    ExtraToken { start: usize, end: usize, kind: TokKind },
}

impl ParseError {
    /// A lexical failure at the given offset.
    pub fn lex(offset: usize) -> (e: ParseError)
        ensures
            e == (ParseError::LexError { offset }),
    {
        ParseError::LexError { offset }
    }

    /// A syntax error at a present token.
    pub fn unrecognized(start: usize, end: usize, kind: TokKind, expected: Vec<TokKind>) -> (e:
        ParseError)
        ensures
            e == (ParseError::UnrecognizedToken { start, end, kind, expected }),
    {
        ParseError::UnrecognizedToken { start, end, kind, expected }
    }

    /// A syntax error at the end of input.
    pub fn eof(offset: usize, expected: Vec<TokKind>) -> (e: ParseError)
        ensures
            e == (ParseError::UnrecognizedEof { offset, expected }),
    {
        ParseError::UnrecognizedEof { offset, expected }
    }

    /// Trailing input after a complete parse.
    pub fn extra(start: usize, end: usize, kind: TokKind) -> (e: ParseError)
        ensures
            e == (ParseError::ExtraToken { start, end, kind }),
    {
        ParseError::ExtraToken { start, end, kind }
    }

    /// The source offset an error points at: the failing position for a
    /// lexical error, the offending token's start for a syntax error, the
    /// end of input for an unexpected end.
    pub open spec fn spec_offset(self) -> int {
        match self {
            ParseError::LexError { offset } => offset as int,
            ParseError::UnrecognizedToken { start, .. } => start as int,
            ParseError::UnrecognizedEof { offset, .. } => offset as int,
            ParseError::ExtraToken { start, .. } => start as int,
        }
    }

    /// The character offset this error points at.
    pub fn offset(&self) -> (o: usize)
        ensures
            o == self.spec_offset(),
    {
        match self {
            ParseError::LexError { offset } => *offset,
            ParseError::UnrecognizedToken { start, .. } => *start,
            ParseError::UnrecognizedEof { offset, .. } => *offset,
            ParseError::ExtraToken { start, .. } => *start,
        }
    }

    /// The token kinds that would have been accepted, for the two syntax
    /// errors that carry them.
    pub fn expected_kinds(&self) -> (r: Option<&Vec<TokKind>>)
        ensures
            match *self {
                ParseError::UnrecognizedToken { ref expected, .. } => r matches Some(v) && v
                    == expected,
                ParseError::UnrecognizedEof { ref expected, .. } => r matches Some(v) && v
                    == expected,
                _ => r is None,
            },
    {
        match self {
            ParseError::UnrecognizedToken { expected, .. } => Some(expected),
            ParseError::UnrecognizedEof { expected, .. } => Some(expected),
            _ => None,
        }
    }

    /// Whether this error is a lexical failure.
    pub fn is_lex_error(&self) -> (r: bool)
        ensures
            r == (*self is LexError),
    {
        match self {
            ParseError::LexError { .. } => true,
            _ => false,
        }
    }
}

} // verus!
