//! Tokens of the surface language.

use vstd::prelude::*;

verus! {

/// Every token kind the lexer can produce: punctuation, the reserved
/// keywords, and the four literal classes.
#[derive(Clone, Copy, PartialEq, Eq, Structural, Debug)]
pub enum TokKind {
    NotEq,
    LParen,
    UnitParen,
    RParen,
    Star,
    Comma,
    Arrow,
    Dot,
    Colon,
    SemiSemi,
    Equal,
    EqualEqual,
    LBrack,
    RBrack,
    Underscore,
    Pipe,
    KwBinding,
    KwEquiv,
    KwFix,
    KwFun,
    KwInclude,
    KwLet,
    KwMatch,
    KwMu,
    KwOf,
    KwSatisfying,
    KwSynth,
    KwType,
    KwUnit,
    KwVal,
    KwWith,
    StrLit,
    IntLit,
    Lid,
    Uid,
}

/// One lexed token. `text` carries the lexeme of identifier and string
/// tokens (a string keeps its quotes); `val` carries the value of an
/// integer literal; `start` and `end` are character offsets into the
/// source, with `end` one past the last character.
#[derive(PartialEq, Eq, Debug)]
pub struct Token {
    pub kind: TokKind,
    pub text: String,
    pub val: u64,
    pub start: usize,
    pub end: usize,
}

impl Token {
    /// Offsets are ordered and lie within a source of `n` characters.
    pub open spec fn wf(self, n: int) -> bool {
        self.start < self.end <= n
    }
}

} // verus!
