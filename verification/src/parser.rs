//! The parser: tokens to a `SynthProblem`.
//!
//! A hand-written, single-pass recursive-descent parser with one token of
//! lookahead, one function per grammar production. Every `Type` and `Exp`
//! construction goes through the session's [`Interner`]. The first failure
//! aborts the parse; errors carry the offending position and the token
//! kinds that would have been accepted.

use vstd::prelude::*;

use crate::error::ParseError;
use crate::intern::Interner;
use crate::lang::{pat_v, Declaration, Example, Exp, Param, Pattern, Problem, SynthProblem, Type};
use crate::model::{ExpV, PatternV, TypeV};
use crate::lexer::{lex_stuck_at, new_builder, token_matches, tokenize, tokens_tile, MatcherBuilder};
use crate::token::{TokKind, Token};

verus! {

broadcast use vstd::seq::group_seq_axioms, vstd::std_specs::vec::group_vec_axioms;

/// A read-only token stream with one moving position. `eof` is the
/// character offset just past the source, reported by end-of-input errors.
pub struct Cursor {
    pub toks: Vec<Token>,
    pub eof: usize,
    pub pos: usize,
}

impl Cursor {
    /// The position never runs past the token list, and every token's span
    /// lies within the source, whose length is `eof`.
    pub open spec fn wf(self) -> bool {
        &&& self.pos <= self.toks@.len()
        &&& forall|k: int| 0 <= k < self.toks@.len() ==> (#[trigger] self.toks@[k]).wf(
            self.eof as int,
        )
    }

    pub open spec fn len(self) -> int {
        self.toks@.len() as int
    }

    /// The kind of the token under the position.
    pub open spec fn kind_at(self, i: int) -> TokKind {
        self.toks@[i].kind
    }

    /// The position moved forward over the same token list.
    pub open spec fn advanced(self, pre: Cursor) -> bool {
        &&& self.toks == pre.toks
        &&& self.eof == pre.eof
        &&& pre.pos <= self.pos <= self.toks@.len()
    }

    /// A cursor at the front of a token list.
    pub fn new(toks: Vec<Token>, eof: usize) -> (c: Cursor)
        requires
            forall|k: int| 0 <= k < toks@.len() ==> (#[trigger] toks@[k]).wf(eof as int),
        ensures
            c.wf(),
            c.pos == 0,
            c.toks == toks,
            c.eof == eof,
    {
        Cursor { toks, eof, pos: 0 }
    }

    /// Whether all tokens are consumed.
    pub fn at_end(&self) -> (r: bool)
        requires
            self.wf(),
        ensures
            r == (self.pos == self.len()),
    {
        self.pos == self.toks.len()
    }

    /// Whether the next token has the given kind.
    pub fn peek_is(&self, k: TokKind) -> (r: bool)
        requires
            self.wf(),
        ensures
            r == (self.pos < self.len() && self.kind_at(self.pos as int) == k),
    {
        self.pos < self.toks.len() && self.toks[self.pos].kind == k
    }

    /// The kind of the next token.
    pub fn peek_kind(&self) -> (k: TokKind)
        requires
            self.wf(),
            self.pos < self.len(),
        ensures
            k == self.kind_at(self.pos as int),
    {
        self.toks[self.pos].kind
    }

    /// The lexeme of the next token.
    pub fn peek_text(&self) -> (t: String)
        requires
            self.wf(),
            self.pos < self.len(),
        ensures
            t@ == self.toks@[self.pos as int].text@,
    {
        self.toks[self.pos].text.clone()
    }

    /// The integer value of the next token.
    pub fn peek_val(&self) -> (v: u64)
        requires
            self.wf(),
            self.pos < self.len(),
        ensures
            v == self.toks@[self.pos as int].val,
    {
        self.toks[self.pos].val
    }

    /// Start offset of the next token.
    pub fn peek_start(&self) -> (o: usize)
        requires
            self.wf(),
            self.pos < self.len(),
        ensures
            o == self.toks@[self.pos as int].start,
    {
        self.toks[self.pos].start
    }

    /// End offset of the next token.
    pub fn peek_end(&self) -> (o: usize)
        requires
            self.wf(),
            self.pos < self.len(),
        ensures
            o == self.toks@[self.pos as int].end,
    {
        self.toks[self.pos].end
    }

    /// Consumes one token.
    pub fn bump(&mut self)
        requires
            old(self).wf(),
            old(self).pos < old(self).len(),
        ensures
            final(self).wf(),
            final(self).toks == old(self).toks,
            final(self).eof == old(self).eof,
            final(self).pos == old(self).pos + 1,
    {
        let n = self.toks.len();
        self.pos = self.pos + 1;
    }

    /// The syntax error for the current position: the present token is not
    /// among the expected kinds, or input ended while more was expected.
    pub fn err_here(&self, expected: Vec<TokKind>) -> (e: ParseError)
        requires
            self.wf(),
            expected@.len() >= 1,
        ensures
            self.pos < self.len() ==> e == (ParseError::UnrecognizedToken {
                start: self.toks@[self.pos as int].start,
                end: self.toks@[self.pos as int].end,
                kind: self.toks@[self.pos as int].kind,
                expected,
            }),
            self.pos == self.len() ==> e == (ParseError::UnrecognizedEof {
                offset: self.eof,
                expected,
            }),
    {
        if self.pos < self.toks.len() {
            let t = &self.toks[self.pos];
            ParseError::unrecognized(t.start, t.end, t.kind, expected)
        } else {
            ParseError::eof(self.eof, expected)
        }
    }

    /// Consumes the next token when it has the given kind; any other
    /// situation is the syntax error expecting exactly that kind.
    pub fn expect(&mut self, k: TokKind) -> (r: Result<(), ParseError>)
        requires
            old(self).wf(),
        ensures
            final(self).toks == old(self).toks,
            final(self).eof == old(self).eof,
            final(self).wf(),
            match r {
                Ok(()) => {
                    &&& old(self).pos < old(self).len()
                    &&& old(self).kind_at(old(self).pos as int) == k
                    &&& final(self).pos == old(self).pos + 1
                },
                Err(e) => {
                    &&& final(self).pos == old(self).pos
                    &&& !(old(self).pos < old(self).len() && old(self).kind_at(
                        old(self).pos as int,
                    ) == k)
                    &&& (old(self).pos < old(self).len() ==> (e matches
                    ParseError::UnrecognizedToken { start, end, kind, expected } && start == old(
                        self,
                    ).toks@[old(self).pos as int].start && end == old(self).toks@[old(
                        self,
                    ).pos as int].end && kind == old(self).toks@[old(self).pos as int].kind
                        && expected@ == seq![k]))
                    &&& (old(self).pos == old(self).len() ==> (e matches
                    ParseError::UnrecognizedEof { offset, expected } && offset == old(self).eof
                        && expected@ == seq![k]))
                },
            },
    {
        if self.peek_is(k) {
            self.bump();
            Ok(())
        } else {
            let mut expected: Vec<TokKind> = Vec::new();
            expected.push(k);
            proof {
                assert(expected@ =~= seq![k]);
            }
            Err(self.err_here(expected))
        }
    }
}

/// Every syntax error points into the source (its offset is at most `eof`)
/// and carries at least one expected token kind.
pub open spec fn syntax_err(e: ParseError, eof: int) -> bool {
    &&& e is UnrecognizedToken || e is UnrecognizedEof
    &&& 0 <= e.spec_offset() <= eof
    &&& (e matches ParseError::UnrecognizedToken { expected, .. } ==> expected@.len() >= 1)
    &&& (e matches ParseError::UnrecognizedEof { expected, .. } ==> expected@.len() >= 1)
}

/// The token kinds that can begin an expression.
pub open spec fn exp_start(k: TokKind) -> bool {
    k == TokKind::KwFix || k == TokKind::KwFun || k == TokKind::KwMatch || k == TokKind::IntLit
        || k == TokKind::Uid || k == TokKind::Lid || k == TokKind::LParen || k
        == TokKind::UnitParen
}

/// Decides `exp_start`.
pub fn starts_exp(k: TokKind) -> (r: bool)
    ensures
        r == exp_start(k),
{
    match k {
        TokKind::KwFix | TokKind::KwFun | TokKind::KwMatch | TokKind::IntLit | TokKind::Uid
            | TokKind::Lid | TokKind::LParen | TokKind::UnitParen => true,
        _ => false,
    }
}

/// The token kinds that can begin a pattern.
pub open spec fn pattern_start(k: TokKind) -> bool {
    k == TokKind::Uid || k == TokKind::Lid || k == TokKind::Underscore || k == TokKind::LParen
}

/// Decides `pattern_start`.
pub fn starts_pattern(k: TokKind) -> (r: bool)
    ensures
        r == pattern_start(k),
{
    match k {
        TokKind::Uid | TokKind::Lid | TokKind::Underscore | TokKind::LParen => true,
        _ => false,
    }
}

/// The token kinds that can begin a declaration.
pub open spec fn decl_start(k: TokKind) -> bool {
    k == TokKind::KwType || k == TokKind::KwLet
}

/// Decides `decl_start`.
pub fn starts_decl(k: TokKind) -> (r: bool)
    ensures
        r == decl_start(k),
{
    match k {
        TokKind::KwType | TokKind::KwLet => true,
        _ => false,
    }
}

/// What a base type may begin with.
pub fn expected_base_typ() -> (r: Vec<TokKind>)
    ensures
        r@ == seq![TokKind::Lid, TokKind::LParen, TokKind::UnitParen],
{
    let mut v: Vec<TokKind> = Vec::new();
    v.push(TokKind::Lid);
    v.push(TokKind::LParen);
    v.push(TokKind::UnitParen);
    proof {
        assert(v@ =~= seq![TokKind::Lid, TokKind::LParen, TokKind::UnitParen]);
    }
    v
}

/// What a type may begin with.
pub fn expected_typ() -> (r: Vec<TokKind>)
    ensures
        r@ == seq![TokKind::Lid, TokKind::LParen, TokKind::UnitParen, TokKind::Pipe],
{
    let mut v = expected_base_typ();
    v.push(TokKind::Pipe);
    proof {
        assert(v@ =~= seq![TokKind::Lid, TokKind::LParen, TokKind::UnitParen, TokKind::Pipe]);
    }
    v
}

/// What an expression may begin with.
pub fn expected_exp() -> (r: Vec<TokKind>)
    ensures
        r@ == seq![
            TokKind::KwFix,
            TokKind::KwFun,
            TokKind::KwMatch,
            TokKind::IntLit,
            TokKind::Uid,
            TokKind::Lid,
            TokKind::LParen,
            TokKind::UnitParen,
        ],
{
    let mut v: Vec<TokKind> = Vec::new();
    v.push(TokKind::KwFix);
    v.push(TokKind::KwFun);
    v.push(TokKind::KwMatch);
    v.push(TokKind::IntLit);
    v.push(TokKind::Uid);
    v.push(TokKind::Lid);
    v.push(TokKind::LParen);
    v.push(TokKind::UnitParen);
    proof {
        assert(v@ =~= seq![
            TokKind::KwFix,
            TokKind::KwFun,
            TokKind::KwMatch,
            TokKind::IntLit,
            TokKind::Uid,
            TokKind::Lid,
            TokKind::LParen,
            TokKind::UnitParen,
        ]);
    }
    v
}

/// What a pattern may begin with.
pub fn expected_pattern() -> (r: Vec<TokKind>)
    ensures
        r@ == seq![TokKind::Uid, TokKind::Lid, TokKind::Underscore, TokKind::LParen],
{
    let mut v: Vec<TokKind> = Vec::new();
    v.push(TokKind::Uid);
    v.push(TokKind::Lid);
    v.push(TokKind::Underscore);
    v.push(TokKind::LParen);
    proof {
        assert(v@ =~= seq![TokKind::Uid, TokKind::Lid, TokKind::Underscore, TokKind::LParen]);
    }
    v
}

/// What a specification clause may begin with.
pub fn expected_spec() -> (r: Vec<TokKind>)
    ensures
        r@ == seq![
            TokKind::LBrack,
            TokKind::KwEquiv,
            TokKind::KwFix,
            TokKind::KwFun,
            TokKind::KwMatch,
            TokKind::IntLit,
            TokKind::Uid,
            TokKind::Lid,
            TokKind::LParen,
            TokKind::UnitParen,
        ],
{
    let mut v: Vec<TokKind> = Vec::new();
    v.push(TokKind::LBrack);
    v.push(TokKind::KwEquiv);
    v.push(TokKind::KwFix);
    v.push(TokKind::KwFun);
    v.push(TokKind::KwMatch);
    v.push(TokKind::IntLit);
    v.push(TokKind::Uid);
    v.push(TokKind::Lid);
    v.push(TokKind::LParen);
    v.push(TokKind::UnitParen);
    proof {
        assert(v@ =~= seq![
            TokKind::LBrack,
            TokKind::KwEquiv,
            TokKind::KwFix,
            TokKind::KwFun,
            TokKind::KwMatch,
            TokKind::IntLit,
            TokKind::Uid,
            TokKind::Lid,
            TokKind::LParen,
            TokKind::UnitParen,
        ]);
    }
    v
}

/// A type name stands at `i` with no `*` continuing a tuple level after
/// it.
pub open spec fn plain_name_at(cs: Cursor, i: int) -> bool {
    &&& 0 <= i < cs.len()
    &&& cs.kind_at(i) == TokKind::Lid
    &&& !(i + 1 < cs.len() && cs.kind_at(i + 1) == TokKind::Star)
}

/// A type name stands alone at `i`: neither `*` nor `->` follows it.
pub open spec fn lone_name_at(cs: Cursor, i: int) -> bool {
    &&& plain_name_at(cs, i)
    &&& !(i + 1 < cs.len() && cs.kind_at(i + 1) == TokKind::Arrow)
}

/// `a -> b` of bare type names stands at `i` and ends the type there.
pub open spec fn arrow2_at(cs: Cursor, i: int) -> bool {
    &&& 0 <= i && i + 2 < cs.len()
    &&& cs.kind_at(i) == TokKind::Lid
    &&& cs.kind_at(i + 1) == TokKind::Arrow
    &&& lone_name_at(cs, i + 2)
}

/// `a -> b -> c` of bare type names stands at `i` and ends the type there.
pub open spec fn arrow3_at(cs: Cursor, i: int) -> bool {
    &&& 0 <= i && i + 1 < cs.len()
    &&& cs.kind_at(i) == TokKind::Lid
    &&& cs.kind_at(i + 1) == TokKind::Arrow
    &&& arrow2_at(cs, i + 2)
}

/// Parses a type: tuple levels joined by `->`, which associates to the
/// right, so `a -> b -> c` is `a -> (b -> c)`.
pub fn parse_typ(it: &mut Interner, cs: &mut Cursor) -> (r: Result<Type, ParseError>)
    requires
        old(it).inv(),
        old(cs).wf(),
    ensures
        final(it).inv(),
        final(it).extends(*old(it)),
        final(cs).advanced(*old(cs)),
        match r {
            Ok(t) => final(it).ty_wf(t) && old(cs).pos < final(cs).pos,
            Err(e) => syntax_err(e, old(cs).eof as int),
        },
        lone_name_at(*old(cs), old(cs).pos as int) ==> (r matches Ok(t) && final(it).ty_denot(t)
            == TypeV::Named(old(cs).toks@[old(cs).pos as int].text@) && final(cs).pos == old(cs).pos + 1),
        arrow2_at(*old(cs), old(cs).pos as int) ==> (r matches Ok(t) && final(it).ty_denot(t)
            == TypeV::Arrow(
            Box::new(TypeV::Named(old(cs).toks@[old(cs).pos as int].text@)),
            Box::new(TypeV::Named(old(cs).toks@[old(cs).pos + 2].text@)),
        ) && final(cs).pos == old(cs).pos + 3),
        arrow3_at(*old(cs), old(cs).pos as int) ==> (r matches Ok(t) && final(it).ty_denot(t)
            == TypeV::Arrow(
            Box::new(TypeV::Named(old(cs).toks@[old(cs).pos as int].text@)),
            Box::new(
                TypeV::Arrow(
                    Box::new(TypeV::Named(old(cs).toks@[old(cs).pos + 2].text@)),
                    Box::new(TypeV::Named(old(cs).toks@[old(cs).pos + 4].text@)),
                ),
            ),
        ) && final(cs).pos == old(cs).pos + 5),
    decreases old(cs).len() - old(cs).pos, 4int,
{
    let ghost pre_it = *it;
    let first = parse_typ0(it, cs);
    let t0 = match first {
        Ok(t) => t,
        Err(e) => {
            return Err(e);
        },
    };
    if cs.peek_is(TokKind::Arrow) {
        cs.bump();
        let ghost mid_it = *it;
        let rest = parse_typ(it, cs);
        let t1 = match rest {
            Ok(t) => t,
            Err(e) => {
                proof {
                    crate::intern::lemma_extends_trans(pre_it, mid_it, *it);
                }
                return Err(e);
            },
        };
        let ghost late_it = *it;
        let arrow = it.ty_arrow(t0, t1);
        proof {
            crate::intern::lemma_extends_denots(mid_it, late_it);
            crate::intern::lemma_extends_denots(late_it, *it);
            crate::intern::lemma_extends_trans(pre_it, mid_it, late_it);
            crate::intern::lemma_extends_trans(pre_it, late_it, *it);
        }
        Ok(arrow)
    } else {
        Ok(t0)
    }
}

/// Parses one precedence level below the arrow: a variant type where a
/// `|` leads, otherwise a `*`-separated tuple level.
pub fn parse_typ0(it: &mut Interner, cs: &mut Cursor) -> (r: Result<Type, ParseError>)
    requires
        old(it).inv(),
        old(cs).wf(),
    ensures
        final(it).inv(),
        final(it).extends(*old(it)),
        final(cs).advanced(*old(cs)),
        match r {
            Ok(t) => final(it).ty_wf(t) && old(cs).pos < final(cs).pos,
            Err(e) => syntax_err(e, old(cs).eof as int),
        },
        plain_name_at(*old(cs), old(cs).pos as int) ==> (r matches Ok(t) && final(it).ty_denot(t)
            == TypeV::Named(old(cs).toks@[old(cs).pos as int].text@) && final(cs).pos == old(cs).pos + 1),
    decreases old(cs).len() - old(cs).pos, 3int,
{
    if cs.peek_is(TokKind::Pipe) {
        parse_variants(it, cs)
    } else if cs.peek_is(TokKind::Lid) || cs.peek_is(TokKind::LParen) || cs.peek_is(
        TokKind::UnitParen,
    ) {
        parse_star_list(it, cs)
    } else {
        Err(cs.err_here(expected_typ()))
    }
}

/// Parses `base_typ (* base_typ)*`; a single element stands for itself,
/// several make a tuple type.
#[verifier::loop_isolation(false)]
pub fn parse_star_list(it: &mut Interner, cs: &mut Cursor) -> (r: Result<Type, ParseError>)
    requires
        old(it).inv(),
        old(cs).wf(),
    ensures
        final(it).inv(),
        final(it).extends(*old(it)),
        final(cs).advanced(*old(cs)),
        match r {
            Ok(t) => final(it).ty_wf(t) && old(cs).pos < final(cs).pos,
            Err(e) => syntax_err(e, old(cs).eof as int),
        },
        plain_name_at(*old(cs), old(cs).pos as int) ==> (r matches Ok(t) && final(it).ty_denot(t)
            == TypeV::Named(old(cs).toks@[old(cs).pos as int].text@) && final(cs).pos == old(cs).pos + 1),
    decreases old(cs).len() - old(cs).pos, 2int,
{
    let ghost pre_it = *it;
    let ghost pre_cs = *cs;
    let first = parse_base_typ(it, cs);
    let t0 = match first {
        Ok(t) => t,
        Err(e) => {
            return Err(e);
        },
    };
    let mut items: Vec<Type> = Vec::new();
    items.push(t0);
    while cs.peek_is(TokKind::Star)
        invariant
            it.inv(),
            it.extends(pre_it),
            cs.wf(),
            cs.advanced(pre_cs),
            pre_cs.pos < cs.pos,
            it.ty_list_wf(items@),
            items@.len() >= 1,
            plain_name_at(pre_cs, pre_cs.pos as int) ==> cs.pos == pre_cs.pos + 1 && items@
                =~= seq![t0] && it.ty_denot(t0) == TypeV::Named(
                pre_cs.toks@[pre_cs.pos as int].text@,
            ),
        decreases cs.len() - cs.pos,
    {
        cs.bump();
        let ghost mid_it = *it;
        let next = parse_base_typ(it, cs);
        match next {
            Ok(t) => {
                items.push(t);
                proof {
                    crate::intern::lemma_extends_trans(pre_it, mid_it, *it);
                }
            },
            Err(e) => {
                proof {
                    crate::intern::lemma_extends_trans(pre_it, mid_it, *it);
                }
                return Err(e);
            },
        }
    }
    let ghost mid_it = *it;
    let t = it.ty_tuple_collapsed(items);
    proof {
        crate::intern::lemma_extends_trans(pre_it, mid_it, *it);
    }
    Ok(t)
}

/// Parses a base type: a type name, a parenthesized type, or the unit
/// type `()`.
pub fn parse_base_typ(it: &mut Interner, cs: &mut Cursor) -> (r: Result<Type, ParseError>)
    requires
        old(it).inv(),
        old(cs).wf(),
    ensures
        final(it).inv(),
        final(it).extends(*old(it)),
        final(cs).advanced(*old(cs)),
        match r {
            Ok(t) => final(it).ty_wf(t) && old(cs).pos < final(cs).pos,
            Err(e) => syntax_err(e, old(cs).eof as int),
        },
        old(cs).pos < old(cs).len() && old(cs).kind_at(old(cs).pos as int) == TokKind::Lid
            ==> (r matches Ok(t) && final(it).ty_denot(t) == TypeV::Named(
            old(cs).toks@[old(cs).pos as int].text@,
        ) && final(cs).pos == old(cs).pos + 1),
        old(cs).pos < old(cs).len() && old(cs).kind_at(old(cs).pos as int) == TokKind::UnitParen
            ==> (r matches Ok(t) && final(it).ty_denot(t) == TypeV::Tuple(Seq::empty())
            && final(cs).pos == old(cs).pos + 1),
    decreases old(cs).len() - old(cs).pos, 1int,
{
    if cs.peek_is(TokKind::Lid) {
        let name = cs.peek_text();
        cs.bump();
        let t = it.ty_named(name);
        Ok(t)
    } else if cs.peek_is(TokKind::UnitParen) {
        cs.bump();
        let t = it.ty_unit();
        Ok(t)
    } else if cs.peek_is(TokKind::LParen) {
        cs.bump();
        let inner = parse_typ(it, cs);
        let t = match inner {
            Ok(t) => t,
            Err(e) => {
                return Err(e);
            },
        };
        let closed = cs.expect(TokKind::RParen);
        match closed {
            Ok(()) => Ok(t),
            Err(e) => Err(e),
        }
    } else {
        Err(cs.err_here(expected_base_typ()))
    }
}

/// Parses `("|" UID (OF star-list)?)+` into a variant type; a constructor
/// without `of` carries the unit type.
#[verifier::loop_isolation(false)]
pub fn parse_variants(it: &mut Interner, cs: &mut Cursor) -> (r: Result<Type, ParseError>)
    requires
        old(it).inv(),
        old(cs).wf(),
        old(cs).pos < old(cs).len(),
        old(cs).kind_at(old(cs).pos as int) == TokKind::Pipe,
    ensures
        final(it).inv(),
        final(it).extends(*old(it)),
        final(cs).advanced(*old(cs)),
        match r {
            Ok(t) => final(it).ty_wf(t) && old(cs).pos < final(cs).pos,
            Err(e) => syntax_err(e, old(cs).eof as int),
        },
        old(cs).pos + 1 < old(cs).len() && old(cs).kind_at(old(cs).pos + 1) == TokKind::Uid && !(
        old(cs).pos + 2 < old(cs).len() && (old(cs).kind_at(old(cs).pos + 2) == TokKind::KwOf
            || old(cs).kind_at(old(cs).pos + 2) == TokKind::Pipe)) ==> (r matches Ok(t) && final(it).ty_denot(t) == TypeV::Variant(
            seq![(old(cs).toks@[old(cs).pos + 1].text@, TypeV::Tuple(Seq::empty()))],
        ) && final(cs).pos == old(cs).pos + 2),
    decreases old(cs).len() - old(cs).pos, 2int,
{
    let ghost pre_it = *it;
    let ghost pre_cs = *cs;
    let mut ctors: Vec<(String, Type)> = Vec::new();
    let first = parse_variant(it, cs);
    match first {
        Ok(c) => ctors.push(c),
        Err(e) => {
            return Err(e);
        },
    }
    while cs.peek_is(TokKind::Pipe)
        invariant
            it.inv(),
            it.extends(pre_it),
            cs.wf(),
            cs.advanced(pre_cs),
            pre_cs.pos < cs.pos,
            it.named_list_wf(ctors@),
            pre_cs.pos + 1 < pre_cs.len() && pre_cs.kind_at(pre_cs.pos + 1) == TokKind::Uid && !(
            pre_cs.pos + 2 < pre_cs.len() && (pre_cs.kind_at(pre_cs.pos + 2) == TokKind::KwOf
                || pre_cs.kind_at(pre_cs.pos + 2) == TokKind::Pipe)) ==> cs.pos == pre_cs.pos + 2
                && ctors@.len() == 1 && ctors@[0].0@ == pre_cs.toks@[pre_cs.pos + 1].text@
                && it.ty_denot(ctors@[0].1) == TypeV::Tuple(Seq::empty()),
        decreases cs.len() - cs.pos,
    {
        let ghost mid_it = *it;
        let next = parse_variant(it, cs);
        match next {
            Ok(c) => {
                ctors.push(c);
                proof {
                    crate::intern::lemma_extends_trans(pre_it, mid_it, *it);
                }
            },
            Err(e) => {
                proof {
                    crate::intern::lemma_extends_trans(pre_it, mid_it, *it);
                }
                return Err(e);
            },
        }
    }
    let ghost mid_it = *it;
    let ghost ctors_view = ctors@;
    let t = it.ty_variant(ctors);
    proof {
        crate::intern::lemma_extends_denots(mid_it, *it);
        crate::intern::lemma_extends_trans(pre_it, mid_it, *it);
        if ctors_view.len() == 1 {
            assert(ctors_view.map_values(
                |c: (String, Type)| (c.0@, it.ty_denot(c.1)),
            ) =~= seq![(ctors_view[0].0@, it.ty_denot(ctors_view[0].1))]);
        }
    }
    Ok(t)
}

/// Parses one variant alternative `"|" UID (OF base_typ (* base_typ)*)?`.
pub fn parse_variant(it: &mut Interner, cs: &mut Cursor) -> (r: Result<(String, Type), ParseError>)
    requires
        old(it).inv(),
        old(cs).wf(),
        old(cs).pos < old(cs).len(),
        old(cs).kind_at(old(cs).pos as int) == TokKind::Pipe,
    ensures
        final(it).inv(),
        final(it).extends(*old(it)),
        final(cs).advanced(*old(cs)),
        match r {
            Ok(c) => final(it).ty_wf(c.1) && old(cs).pos < final(cs).pos,
            Err(e) => syntax_err(e, old(cs).eof as int),
        },
        old(cs).pos + 1 < old(cs).len() && old(cs).kind_at(old(cs).pos + 1) == TokKind::Uid && !(
        old(cs).pos + 2 < old(cs).len() && old(cs).kind_at(old(cs).pos + 2) == TokKind::KwOf)
            ==> (r matches Ok(c) && c.0@ == old(cs).toks@[old(cs).pos + 1].text@
            && final(it).ty_denot(c.1) == TypeV::Tuple(Seq::empty()) && final(cs).pos == old(cs).pos + 2),
        old(cs).pos + 2 < old(cs).len() && old(cs).kind_at(old(cs).pos + 1) == TokKind::Uid
            && old(cs).kind_at(old(cs).pos + 2) == TokKind::KwOf && plain_name_at(*old(cs), old(cs).pos + 3) ==> (r matches Ok(c) && c.0@ == old(cs).toks@[old(cs).pos + 1].text@
            && final(it).ty_denot(c.1) == TypeV::Named(old(cs).toks@[old(cs).pos + 3].text@)
            && final(cs).pos == old(cs).pos + 4),
    decreases old(cs).len() - old(cs).pos, 1int,
{
    cs.bump();
    if !cs.peek_is(TokKind::Uid) {
        let mut expected: Vec<TokKind> = Vec::new();
        expected.push(TokKind::Uid);
        return Err(cs.err_here(expected));
    }
    let name = cs.peek_text();
    cs.bump();
    if cs.peek_is(TokKind::KwOf) {
        cs.bump();
        let arg = parse_star_list(it, cs);
        match arg {
            Ok(t) => Ok((name, t)),
            Err(e) => Err(e),
        }
    } else {
        let t = it.ty_unit();
        Ok((name, t))
    }
}

/// Parses a match pattern. A constructor name takes a nested pattern
/// exactly when one can begin at the next token; without one its argument
/// is the wildcard. A parenthesized list of one pattern collapses to that
/// pattern.
pub fn parse_pattern(cs: &mut Cursor) -> (r: Result<Pattern, ParseError>)
    requires
        old(cs).wf(),
    ensures
        final(cs).advanced(*old(cs)),
        match r {
            Ok(p) => old(cs).pos < final(cs).pos,
            Err(e) => syntax_err(e, old(cs).eof as int),
        },
        old(cs).pos < old(cs).len() && old(cs).kind_at(old(cs).pos as int) == TokKind::Underscore
            ==> (r matches Ok(p) && pat_v(p) == PatternV::Wildcard && final(cs).pos == old(cs).pos + 1),
        old(cs).pos < old(cs).len() && old(cs).kind_at(old(cs).pos as int) == TokKind::Lid ==> (
        r matches Ok(p) && pat_v(p) == PatternV::Var(old(cs).toks@[old(cs).pos as int].text@)
            && final(cs).pos == old(cs).pos + 1),
        old(cs).pos < old(cs).len() && old(cs).kind_at(old(cs).pos as int) == TokKind::Uid && !(
        old(cs).pos + 1 < old(cs).len() && pattern_start(old(cs).kind_at(old(cs).pos + 1))) ==> (
        r matches Ok(p) && pat_v(p) == PatternV::Ctor(
            old(cs).toks@[old(cs).pos as int].text@,
            Box::new(PatternV::Wildcard),
        ) && final(cs).pos == old(cs).pos + 1),
        old(cs).pos + 2 < old(cs).len() && old(cs).kind_at(old(cs).pos as int) == TokKind::LParen
            && old(cs).kind_at(old(cs).pos + 1) == TokKind::Lid && old(cs).kind_at(
            old(cs).pos + 2,
        ) == TokKind::RParen ==> (r matches Ok(p) && pat_v(p) == PatternV::Var(
            old(cs).toks@[old(cs).pos + 1].text@,
        ) && final(cs).pos == old(cs).pos + 3),
    decreases old(cs).len() - old(cs).pos, 1int,
{
    if cs.peek_is(TokKind::Uid) {
        let name = cs.peek_text();
        cs.bump();
        let nested = if cs.at_end() {
            false
        } else {
            starts_pattern(cs.peek_kind())
        };
        if nested {
            let sub = parse_pattern(cs);
            match sub {
                Ok(p) => Ok(Pattern::Ctor(name, Box::new(p))),
                Err(e) => Err(e),
            }
        } else {
            let p = Pattern::Ctor(name, Box::new(Pattern::Wildcard));
            proof {
                assert(pat_v(Pattern::Wildcard) == PatternV::Wildcard);
            }
            Ok(p)
        }
    } else if cs.peek_is(TokKind::Lid) {
        let name = cs.peek_text();
        cs.bump();
        Ok(Pattern::Var(name))
    } else if cs.peek_is(TokKind::Underscore) {
        cs.bump();
        Ok(Pattern::Wildcard)
    } else if cs.peek_is(TokKind::LParen) {
        cs.bump();
        let inner = parse_pattern_list(cs);
        let mut items = match inner {
            Ok(v) => v,
            Err(e) => {
                return Err(e);
            },
        };
        let closed = cs.expect(TokKind::RParen);
        match closed {
            Ok(()) => {
                if items.len() == 1 {
                    match items.pop() {
                        Some(p) => Ok(p),
                        None => Ok(Pattern::Tuple(items)),
                    }
                } else {
                    Ok(Pattern::Tuple(items))
                }
            },
            Err(e) => Err(e),
        }
    } else {
        Err(cs.err_here(expected_pattern()))
    }
}

/// Parses a possibly empty comma-separated pattern list; a trailing comma
/// is consumed.
#[verifier::loop_isolation(false)]
pub fn parse_pattern_list(cs: &mut Cursor) -> (r: Result<Vec<Pattern>, ParseError>)
    requires
        old(cs).wf(),
    ensures
        final(cs).advanced(*old(cs)),
        r matches Err(e) ==> syntax_err(e, old(cs).eof as int),
        !(old(cs).pos < old(cs).len() && pattern_start(old(cs).kind_at(old(cs).pos as int)))
            ==> (r matches Ok(v) && v@.len() == 0 && final(cs).pos == old(cs).pos),
        old(cs).pos < old(cs).len() && old(cs).kind_at(old(cs).pos as int) == TokKind::Lid && !(
        old(cs).pos + 1 < old(cs).len() && old(cs).kind_at(old(cs).pos + 1) == TokKind::Comma)
            ==> (r matches Ok(v) && v@.len() == 1 && pat_v(v@[0]) == PatternV::Var(
            old(cs).toks@[old(cs).pos as int].text@,
        ) && final(cs).pos == old(cs).pos + 1),
    decreases old(cs).len() - old(cs).pos, 2int,
{
    let mut items: Vec<Pattern> = Vec::new();
    let begins = !cs.at_end() && starts_pattern(cs.peek_kind());
    if !begins {
        return Ok(items);
    }
    let first = parse_pattern(cs);
    match first {
        Ok(p) => items.push(p),
        Err(e) => {
            return Err(e);
        },
    }
    while cs.peek_is(TokKind::Comma)
        invariant
            cs.wf(),
            cs.advanced(*old(cs)),
            old(cs).pos < cs.pos,
            old(cs).pos < old(cs).len() && old(cs).kind_at(old(cs).pos as int) == TokKind::Lid
                && !(old(cs).pos + 1 < old(cs).len() && old(cs).kind_at(old(cs).pos + 1)
                == TokKind::Comma) ==> cs.pos == old(cs).pos + 1 && items@.len() == 1 && pat_v(
                items@[0],
            ) == PatternV::Var(old(cs).toks@[old(cs).pos as int].text@),
        decreases cs.len() - cs.pos,
    {
        cs.bump();
        let more = !cs.at_end() && starts_pattern(cs.peek_kind());
        if !more {
            break;
        }
        let next = parse_pattern(cs);
        match next {
            Ok(p) => items.push(p),
            Err(e) => {
                return Err(e);
            },
        }
    }
    Ok(items)
}

/// What an atom-level expression may begin with.
pub fn expected_atom() -> (r: Vec<TokKind>)
    ensures
        r@ == seq![TokKind::IntLit, TokKind::Uid, TokKind::Lid, TokKind::LParen, TokKind::UnitParen],
{
    let mut v: Vec<TokKind> = Vec::new();
    v.push(TokKind::IntLit);
    v.push(TokKind::Uid);
    v.push(TokKind::Lid);
    v.push(TokKind::LParen);
    v.push(TokKind::UnitParen);
    proof {
        assert(v@ =~= seq![
            TokKind::IntLit,
            TokKind::Uid,
            TokKind::Lid,
            TokKind::LParen,
            TokKind::UnitParen,
        ]);
    }
    v
}

/// Parses an expression: a `fix`, `fun` or `match` binder form, otherwise
/// an equality-level expression.
pub fn parse_exp(it: &mut Interner, cs: &mut Cursor) -> (r: Result<Exp, ParseError>)
    requires
        old(it).inv(),
        old(cs).wf(),
    ensures
        final(it).inv(),
        final(it).extends(*old(it)),
        final(cs).advanced(*old(cs)),
        match r {
            Ok(e) => final(it).exp_wf(e) && old(cs).pos < final(cs).pos,
            Err(e) => syntax_err(e, old(cs).eof as int),
        },
        old(cs).pos < old(cs).len() && old(cs).kind_at(old(cs).pos as int) == TokKind::KwFix ==> (
        r matches Ok(e) ==> final(it).exp_denot(e) is Fix),
        old(cs).pos < old(cs).len() && old(cs).kind_at(old(cs).pos as int) == TokKind::KwFun ==> (
        r matches Ok(e) ==> final(it).exp_denot(e) is Func),
        old(cs).pos < old(cs).len() && old(cs).kind_at(old(cs).pos as int) == TokKind::KwMatch
            ==> (r matches Ok(e) ==> final(it).exp_denot(e) is Match),
        lone_int_at(*old(cs), old(cs).pos as int) ==> (r matches Ok(e) && final(it).exp_denot(e)
            == crate::intern::peano_v(old(cs).toks@[old(cs).pos as int].val as nat)
            && final(cs).pos == old(cs).pos + 1),
        lone_unit_at(*old(cs), old(cs).pos as int) ==> (r matches Ok(e) && final(it).exp_denot(e)
            == ExpV::Tuple(Seq::empty()) && final(cs).pos == old(cs).pos + 1),
        forall|j: int|
            lone_app_at(*old(cs), old(cs).pos as int, j) ==> (r matches Ok(e) && final(cs).pos
                == j && final(it).exp_denot(e) == app_denot(*old(cs), old(cs).pos as int, j)),
        lone_ctor1_at(*old(cs), old(cs).pos as int) ==> (r matches Ok(e) && final(it).exp_denot(e) == ctor1_v(*old(cs), old(cs).pos as int) && final(cs).pos == old(cs).pos + 1),
        lone_ctor2_at(*old(cs), old(cs).pos as int) ==> (r matches Ok(e) && final(it).exp_denot(e) == ctor2_v(*old(cs), old(cs).pos as int) && final(cs).pos == old(cs).pos + 2),
        old(cs).pos < old(cs).len() && old(cs).kind_at(old(cs).pos as int) == TokKind::KwMatch
            && lone_int_at(*old(cs), old(cs).pos + 1) && old(cs).pos + 2 < old(cs).len() && old(
            cs,
        ).kind_at(old(cs).pos + 2) == TokKind::KwWith && branch_paren_shape(
            *old(cs),
            old(cs).pos + 3,
        ) && !(old(cs).pos + 9 < old(cs).len() && old(cs).kind_at(old(cs).pos + 9)
            == TokKind::Pipe) ==> (r matches Ok(e) && final(it).exp_denot(e) == ExpV::Match(
            Box::new(crate::intern::peano_v(old(cs).toks@[old(cs).pos + 1].val as nat)),
            seq![
                (
                    PatternV::Var(old(cs).toks@[old(cs).pos + 5].text@),
                    crate::intern::peano_v(old(cs).toks@[old(cs).pos + 8].val as nat),
                ),
            ],
        ) && final(cs).pos == old(cs).pos + 9),
    decreases old(cs).len() - old(cs).pos, 5int,
{
    if cs.peek_is(TokKind::KwFix) {
        parse_fix(it, cs)
    } else if cs.peek_is(TokKind::KwFun) {
        parse_fun(it, cs)
    } else if cs.peek_is(TokKind::KwMatch) {
        parse_match(it, cs)
    } else if !cs.at_end() && starts_exp(cs.peek_kind()) {
        parse_inner_exp(it, cs)
    } else {
        Err(cs.err_here(expected_exp()))
    }
}

/// A wildcard branch with an integer body, `"|" _ -> <literal>`, stands
/// at `i`.
pub open spec fn branch_shape(cs: Cursor, i: int) -> bool {
    &&& 0 <= i && i + 3 < cs.len()
    &&& cs.kind_at(i) == TokKind::Pipe
    &&& cs.kind_at(i + 1) == TokKind::Underscore
    &&& cs.kind_at(i + 2) == TokKind::Arrow
    &&& lone_int_at(cs, i + 3)
}

/// A branch whose pattern is a parenthesized single variable,
/// `"|" ( x ) -> <literal>`, stands at `i`: the parentheses collapse, so
/// the pattern is the variable itself.
pub open spec fn branch_paren_shape(cs: Cursor, i: int) -> bool {
    &&& 0 <= i && i + 5 < cs.len()
    &&& cs.kind_at(i) == TokKind::Pipe
    &&& cs.kind_at(i + 1) == TokKind::LParen
    &&& cs.kind_at(i + 2) == TokKind::Lid
    &&& cs.kind_at(i + 3) == TokKind::RParen
    &&& cs.kind_at(i + 4) == TokKind::Arrow
    &&& lone_int_at(cs, i + 5)
}

/// Parses `fix ( LID : typ ) = Exp`.
pub fn parse_fix(it: &mut Interner, cs: &mut Cursor) -> (r: Result<Exp, ParseError>)
    requires
        old(it).inv(),
        old(cs).wf(),
        old(cs).pos < old(cs).len(),
        old(cs).kind_at(old(cs).pos as int) == TokKind::KwFix,
    ensures
        final(it).inv(),
        final(it).extends(*old(it)),
        final(cs).advanced(*old(cs)),
        match r {
            Ok(e) => final(it).exp_wf(e) && old(cs).pos < final(cs).pos && final(it).exp_denot(e)
                is Fix,
            Err(e) => syntax_err(e, old(cs).eof as int),
        },
        old(cs).kind_at(old(cs).pos as int) == TokKind::KwFix && arg_shape(
            *old(cs),
            old(cs).pos + 1,
        ) && old(cs).pos + 6 < old(cs).len() && old(cs).kind_at(old(cs).pos + 6) == TokKind::Equal
            && lone_int_at(*old(cs), old(cs).pos + 7) ==> (r matches Ok(e) && final(it).exp_denot(e) == ExpV::Fix(
            old(cs).toks@[old(cs).pos + 2].text@,
            TypeV::Named(old(cs).toks@[old(cs).pos + 4].text@),
            Box::new(crate::intern::peano_v(old(cs).toks@[old(cs).pos + 7].val as nat)),
        ) && final(cs).pos == old(cs).pos + 8),
    decreases old(cs).len() - old(cs).pos, 1int,
{
    let ghost pre_it = *it;
    cs.bump();
    let bound = parse_arg(it, cs);
    let (name, ty) = match bound {
        Ok(b) => b,
        Err(e) => {
            return Err(e);
        },
    };
    let eq = cs.expect(TokKind::Equal);
    match eq {
        Ok(()) => {},
        Err(e) => {
            return Err(e);
        },
    }
    let ghost mid_it = *it;
    let body = parse_exp(it, cs);
    let b = match body {
        Ok(b) => b,
        Err(e) => {
            proof {
                crate::intern::lemma_extends_trans(pre_it, mid_it, *it);
            }
            return Err(e);
        },
    };
    let ghost late_it = *it;
    let e = it.exp_fix(name, ty, b);
    proof {
        crate::intern::lemma_extends_denots(mid_it, late_it);
        crate::intern::lemma_extends_denots(late_it, *it);
        crate::intern::lemma_extends_trans(pre_it, mid_it, late_it);
        crate::intern::lemma_extends_trans(pre_it, late_it, *it);
    }
    Ok(e)
}

/// Parses `fun ( LID : typ ) -> Exp`.
pub fn parse_fun(it: &mut Interner, cs: &mut Cursor) -> (r: Result<Exp, ParseError>)
    requires
        old(it).inv(),
        old(cs).wf(),
        old(cs).pos < old(cs).len(),
        old(cs).kind_at(old(cs).pos as int) == TokKind::KwFun,
    ensures
        final(it).inv(),
        final(it).extends(*old(it)),
        final(cs).advanced(*old(cs)),
        match r {
            Ok(e) => final(it).exp_wf(e) && old(cs).pos < final(cs).pos && final(it).exp_denot(e)
                is Func,
            Err(e) => syntax_err(e, old(cs).eof as int),
        },
        old(cs).kind_at(old(cs).pos as int) == TokKind::KwFun && arg_shape(
            *old(cs),
            old(cs).pos + 1,
        ) && old(cs).pos + 6 < old(cs).len() && old(cs).kind_at(old(cs).pos + 6) == TokKind::Arrow
            && lone_int_at(*old(cs), old(cs).pos + 7) ==> (r matches Ok(e) && final(it).exp_denot(e) == ExpV::Func(
            old(cs).toks@[old(cs).pos + 2].text@,
            TypeV::Named(old(cs).toks@[old(cs).pos + 4].text@),
            Box::new(crate::intern::peano_v(old(cs).toks@[old(cs).pos + 7].val as nat)),
        ) && final(cs).pos == old(cs).pos + 8),
    decreases old(cs).len() - old(cs).pos, 1int,
{
    let ghost pre_it = *it;
    cs.bump();
    let bound = parse_arg(it, cs);
    let (name, ty) = match bound {
        Ok(b) => b,
        Err(e) => {
            return Err(e);
        },
    };
    let arrow = cs.expect(TokKind::Arrow);
    match arrow {
        Ok(()) => {},
        Err(e) => {
            return Err(e);
        },
    }
    let ghost mid_it = *it;
    let body = parse_exp(it, cs);
    let b = match body {
        Ok(b) => b,
        Err(e) => {
            proof {
                crate::intern::lemma_extends_trans(pre_it, mid_it, *it);
            }
            return Err(e);
        },
    };
    let ghost late_it = *it;
    let e = it.exp_func(Param { name, ty }, b);
    proof {
        crate::intern::lemma_extends_denots(mid_it, late_it);
        crate::intern::lemma_extends_denots(late_it, *it);
        crate::intern::lemma_extends_trans(pre_it, mid_it, late_it);
        crate::intern::lemma_extends_trans(pre_it, late_it, *it);
    }
    Ok(e)
}

/// Parses a binder `( LID : typ )`, shared by `fix` and `fun`.
pub fn parse_arg(it: &mut Interner, cs: &mut Cursor) -> (r: Result<(String, Type), ParseError>)
    requires
        old(it).inv(),
        old(cs).wf(),
    ensures
        final(it).inv(),
        final(it).extends(*old(it)),
        final(cs).advanced(*old(cs)),
        match r {
            Ok(b) => final(it).ty_wf(b.1) && old(cs).pos < final(cs).pos,
            Err(e) => syntax_err(e, old(cs).eof as int),
        },
        arg_shape(*old(cs), old(cs).pos as int) ==> (r matches Ok(b) && b.0@ == old(cs).toks@[old(cs).pos + 1].text@ && final(it).ty_denot(b.1) == TypeV::Named(
            old(cs).toks@[old(cs).pos + 3].text@,
        ) && final(cs).pos == old(cs).pos + 5),
    decreases old(cs).len() - old(cs).pos, 1int,
{
    let opened = cs.expect(TokKind::LParen);
    match opened {
        Ok(()) => {},
        Err(e) => {
            return Err(e);
        },
    }
    if !cs.peek_is(TokKind::Lid) {
        let mut expected: Vec<TokKind> = Vec::new();
        expected.push(TokKind::Lid);
        return Err(cs.err_here(expected));
    }
    let name = cs.peek_text();
    cs.bump();
    let colon = cs.expect(TokKind::Colon);
    match colon {
        Ok(()) => {},
        Err(e) => {
            return Err(e);
        },
    }
    let ty = parse_typ(it, cs);
    let t = match ty {
        Ok(t) => t,
        Err(e) => {
            return Err(e);
        },
    };
    let closed = cs.expect(TokKind::RParen);
    match closed {
        Ok(()) => Ok((name, t)),
        Err(e) => Err(e),
    }
}

/// Parses `match Exp with ("|" Pattern "->" InnerExp)+`.
pub fn parse_match(it: &mut Interner, cs: &mut Cursor) -> (r: Result<Exp, ParseError>)
    requires
        old(it).inv(),
        old(cs).wf(),
        old(cs).pos < old(cs).len(),
        old(cs).kind_at(old(cs).pos as int) == TokKind::KwMatch,
    ensures
        final(it).inv(),
        final(it).extends(*old(it)),
        final(cs).advanced(*old(cs)),
        match r {
            Ok(e) => final(it).exp_wf(e) && old(cs).pos < final(cs).pos && final(it).exp_denot(e)
                is Match,
            Err(e) => syntax_err(e, old(cs).eof as int),
        },
        old(cs).kind_at(old(cs).pos as int) == TokKind::KwMatch && lone_int_at(
            *old(cs),
            old(cs).pos + 1,
        ) && old(cs).pos + 2 < old(cs).len() && old(cs).kind_at(old(cs).pos + 2) == TokKind::KwWith
            && branch_shape(*old(cs), old(cs).pos + 3) && !(old(cs).pos + 7 < old(cs).len()
            && old(cs).kind_at(old(cs).pos + 7) == TokKind::Pipe) ==> (r matches Ok(e)
            && final(it).exp_denot(e) == ExpV::Match(
            Box::new(crate::intern::peano_v(old(cs).toks@[old(cs).pos + 1].val as nat)),
            seq![
                (
                    PatternV::Wildcard,
                    crate::intern::peano_v(old(cs).toks@[old(cs).pos + 6].val as nat),
                ),
            ],
        ) && final(cs).pos == old(cs).pos + 7),
        old(cs).kind_at(old(cs).pos as int) == TokKind::KwMatch && lone_int_at(
            *old(cs),
            old(cs).pos + 1,
        ) && old(cs).pos + 2 < old(cs).len() && old(cs).kind_at(old(cs).pos + 2) == TokKind::KwWith
            && branch_paren_shape(*old(cs), old(cs).pos + 3) && !(old(cs).pos + 9 < old(cs).len()
            && old(cs).kind_at(old(cs).pos + 9) == TokKind::Pipe) ==> (r matches Ok(e)
            && final(it).exp_denot(e) == ExpV::Match(
            Box::new(crate::intern::peano_v(old(cs).toks@[old(cs).pos + 1].val as nat)),
            seq![
                (
                    PatternV::Var(old(cs).toks@[old(cs).pos + 5].text@),
                    crate::intern::peano_v(old(cs).toks@[old(cs).pos + 8].val as nat),
                ),
            ],
        ) && final(cs).pos == old(cs).pos + 9),
    decreases old(cs).len() - old(cs).pos, 1int,
{
    let ghost pre_it = *it;
    cs.bump();
    let scrutinee = parse_exp(it, cs);
    let s = match scrutinee {
        Ok(s) => s,
        Err(e) => {
            return Err(e);
        },
    };
    let with = cs.expect(TokKind::KwWith);
    match with {
        Ok(()) => {},
        Err(e) => {
            return Err(e);
        },
    }
    let ghost mid_it = *it;
    let branches = parse_branches(it, cs);
    let bs = match branches {
        Ok(bs) => bs,
        Err(e) => {
            proof {
                crate::intern::lemma_extends_trans(pre_it, mid_it, *it);
            }
            return Err(e);
        },
    };
    let ghost late_it = *it;
    let ghost bs_view = bs@;
    let e = it.exp_match(s, bs);
    proof {
        crate::intern::lemma_extends_denots(mid_it, late_it);
        crate::intern::lemma_extends_denots(late_it, *it);
        crate::intern::lemma_extends_trans(pre_it, mid_it, late_it);
        crate::intern::lemma_extends_trans(pre_it, late_it, *it);
        if bs_view.len() == 1 {
            assert(bs_view.map_values(
                |c: (Pattern, Exp)| (pat_v(c.0), it.exp_denot(c.1)),
            ) =~= seq![(pat_v(bs_view[0].0), it.exp_denot(bs_view[0].1))]);
        }
    }
    Ok(e)
}

/// Parses one or more match branches, each led by `|`.
#[verifier::loop_isolation(false)]
pub fn parse_branches(it: &mut Interner, cs: &mut Cursor) -> (r: Result<
    Vec<(Pattern, Exp)>,
    ParseError,
>)
    requires
        old(it).inv(),
        old(cs).wf(),
    ensures
        final(it).inv(),
        final(it).extends(*old(it)),
        final(cs).advanced(*old(cs)),
        match r {
            Ok(bs) => final(it).branch_list_wf(bs@) && bs@.len() >= 1 && old(cs).pos
                < final(cs).pos,
            Err(e) => syntax_err(e, old(cs).eof as int),
        },
        branch_shape(*old(cs), old(cs).pos as int) && !(old(cs).pos + 4 < old(cs).len() && old(cs).kind_at(old(cs).pos + 4) == TokKind::Pipe) ==> (r matches Ok(bs) && bs@.len() == 1
            && pat_v(bs@[0].0) == PatternV::Wildcard && final(it).exp_denot(bs@[0].1)
            == crate::intern::peano_v(old(cs).toks@[old(cs).pos + 3].val as nat) && final(cs).pos
            == old(cs).pos + 4),
        branch_paren_shape(*old(cs), old(cs).pos as int) && !(old(cs).pos + 6 < old(cs).len()
            && old(cs).kind_at(old(cs).pos + 6) == TokKind::Pipe) ==> (r matches Ok(bs) && bs@
            .len() == 1 && pat_v(bs@[0].0) == PatternV::Var(old(cs).toks@[old(cs).pos + 2].text@)
            && final(it).exp_denot(bs@[0].1) == crate::intern::peano_v(
            old(cs).toks@[old(cs).pos + 5].val as nat,
        ) && final(cs).pos == old(cs).pos + 6),
    decreases old(cs).len() - old(cs).pos, 2int,
{
    let ghost pre_it = *it;
    if !cs.peek_is(TokKind::Pipe) {
        let mut expected: Vec<TokKind> = Vec::new();
        expected.push(TokKind::Pipe);
        return Err(cs.err_here(expected));
    }
    let mut branches: Vec<(Pattern, Exp)> = Vec::new();
    let first = parse_branch(it, cs);
    match first {
        Ok(b) => branches.push(b),
        Err(e) => {
            return Err(e);
        },
    }
    while cs.peek_is(TokKind::Pipe)
        invariant
            it.inv(),
            it.extends(pre_it),
            cs.wf(),
            cs.advanced(*old(cs)),
            old(cs).pos < cs.pos,
            it.branch_list_wf(branches@),
            branches@.len() >= 1,
            branch_shape(*old(cs), old(cs).pos as int) && !(old(cs).pos + 4 < old(cs).len()
                && old(cs).kind_at(old(cs).pos + 4) == TokKind::Pipe) ==> cs.pos == old(cs).pos
                + 4 && branches@.len() == 1 && pat_v(branches@[0].0) == PatternV::Wildcard
                && it.exp_denot(branches@[0].1) == crate::intern::peano_v(
                old(cs).toks@[old(cs).pos + 3].val as nat,
            ),
            branch_paren_shape(*old(cs), old(cs).pos as int) && !(old(cs).pos + 6 < old(cs).len()
                && old(cs).kind_at(old(cs).pos + 6) == TokKind::Pipe) ==> cs.pos == old(cs).pos
                + 6 && branches@.len() == 1 && pat_v(branches@[0].0) == PatternV::Var(
                old(cs).toks@[old(cs).pos + 2].text@,
            ) && it.exp_denot(branches@[0].1) == crate::intern::peano_v(
                old(cs).toks@[old(cs).pos + 5].val as nat,
            ),
        decreases cs.len() - cs.pos,
    {
        let ghost mid_it = *it;
        let next = parse_branch(it, cs);
        match next {
            Ok(b) => {
                branches.push(b);
                proof {
                    crate::intern::lemma_extends_trans(pre_it, mid_it, *it);
                }
            },
            Err(e) => {
                proof {
                    crate::intern::lemma_extends_trans(pre_it, mid_it, *it);
                }
                return Err(e);
            },
        }
    }
    Ok(branches)
}

/// Parses one branch `"|" Pattern "->" InnerExp`.
pub fn parse_branch(it: &mut Interner, cs: &mut Cursor) -> (r: Result<(Pattern, Exp), ParseError>)
    requires
        old(it).inv(),
        old(cs).wf(),
        old(cs).pos < old(cs).len(),
        old(cs).kind_at(old(cs).pos as int) == TokKind::Pipe,
    ensures
        final(it).inv(),
        final(it).extends(*old(it)),
        final(cs).advanced(*old(cs)),
        match r {
            Ok(b) => final(it).exp_wf(b.1) && old(cs).pos < final(cs).pos,
            Err(e) => syntax_err(e, old(cs).eof as int),
        },
        branch_shape(*old(cs), old(cs).pos as int) ==> (r matches Ok(b) && pat_v(b.0)
            == PatternV::Wildcard && final(it).exp_denot(b.1) == crate::intern::peano_v(
            old(cs).toks@[old(cs).pos + 3].val as nat,
        ) && final(cs).pos == old(cs).pos + 4),
        branch_paren_shape(*old(cs), old(cs).pos as int) ==> (r matches Ok(b) && pat_v(b.0)
            == PatternV::Var(old(cs).toks@[old(cs).pos + 2].text@) && final(it).exp_denot(b.1)
            == crate::intern::peano_v(old(cs).toks@[old(cs).pos + 5].val as nat)
            && final(cs).pos == old(cs).pos + 6),
    decreases old(cs).len() - old(cs).pos, 1int,
{
    cs.bump();
    let pat = parse_pattern(cs);
    let p = match pat {
        Ok(p) => p,
        Err(e) => {
            return Err(e);
        },
    };
    let arrow = cs.expect(TokKind::Arrow);
    match arrow {
        Ok(()) => {},
        Err(e) => {
            return Err(e);
        },
    }
    let body = parse_inner_exp(it, cs);
    match body {
        Ok(b) => Ok((p, b)),
        Err(e) => Err(e),
    }
}

/// Tokens `[i, j)` form a variable applied to zero or more bare-variable
/// arguments, `f a b`, with nothing at `j` that could extend the
/// application.
pub open spec fn app_shape(cs: Cursor, i: int, j: int) -> bool {
    &&& 0 <= i < j <= cs.len()
    &&& cs.kind_at(i) == TokKind::Lid
    &&& forall|k: int| i < k < j ==> cs.kind_at(k) == TokKind::Lid
    &&& (j == cs.len() || (cs.kind_at(j) != TokKind::Lid && cs.kind_at(j) != TokKind::LParen))
}

/// Every token in `[a, b)` is a variable name.
pub open spec fn all_lid(cs: Cursor, a: int, b: int) -> bool {
    forall|k: int| a <= k < b ==> cs.kind_at(k) == TokKind::Lid
}

/// The denotations of the argument run `[a, b)`: one variable per token.
pub open spec fn var_args(cs: Cursor, a: int, b: int) -> Seq<ExpV>
    decreases b - a,
{
    if a >= b {
        Seq::empty()
    } else {
        var_args(cs, a, b - 1).push(ExpV::Var(cs.toks@[b - 1].text@))
    }
}

/// The whole denotation of an application run: the head variable applied
/// to its arguments, folded to the left.
pub open spec fn app_denot(cs: Cursor, i: int, j: int) -> ExpV {
    crate::intern::fold_app_v(ExpV::Var(cs.toks@[i].text@), var_args(cs, i + 1, j))
}

/// An application run whose end could not continue with a projection dot.
pub open spec fn plain_app_at(cs: Cursor, i: int, j: int) -> bool {
    app_shape(cs, i, j) && (j == cs.len() || cs.kind_at(j) != TokKind::Dot)
}

/// An application run that stands alone: neither a projection dot nor an
/// equality operator follows it.
pub open spec fn lone_app_at(cs: Cursor, i: int, j: int) -> bool {
    plain_app_at(cs, i, j) && (j == cs.len() || (cs.kind_at(j) != TokKind::EqualEqual
        && cs.kind_at(j) != TokKind::NotEq))
}

/// The unit expression stands at `i` with no projection dot after it.
pub open spec fn plain_unit_at(cs: Cursor, i: int) -> bool {
    &&& 0 <= i < cs.len()
    &&& cs.kind_at(i) == TokKind::UnitParen
    &&& !(i + 1 < cs.len() && cs.kind_at(i + 1) == TokKind::Dot)
}

/// The unit expression stands alone at `i`: no projection dot and no
/// equality operator follows it.
pub open spec fn lone_unit_at(cs: Cursor, i: int) -> bool {
    &&& plain_unit_at(cs, i)
    &&& !(i + 1 < cs.len() && (cs.kind_at(i + 1) == TokKind::EqualEqual || cs.kind_at(i + 1)
        == TokKind::NotEq))
}

/// A bare constructor name stands alone at `i`: nothing follows that
/// could extend the atom, project from it, or compare it.
pub open spec fn lone_ctor1_at(cs: Cursor, i: int) -> bool {
    &&& 0 <= i < cs.len()
    &&& cs.kind_at(i) == TokKind::Uid
    &&& !(i + 1 < cs.len() && (cs.kind_at(i + 1) == TokKind::Uid || cs.kind_at(i + 1)
        == TokKind::Lid || cs.kind_at(i + 1) == TokKind::LParen || cs.kind_at(i + 1)
        == TokKind::Dot || cs.kind_at(i + 1) == TokKind::EqualEqual || cs.kind_at(i + 1)
        == TokKind::NotEq))
}

/// What a bare constructor name denotes: the name applied to unit, under
/// the destructor-prefix rule.
pub open spec fn ctor1_v(cs: Cursor, i: int) -> ExpV {
    crate::intern::ctor_or_unctor_v(cs.toks@[i].text@, ExpV::Tuple(Seq::empty()))
}

/// A constructor name applied to a nullary constructor, `S O`, standing
/// alone at `i`.
pub open spec fn lone_ctor2_at(cs: Cursor, i: int) -> bool {
    &&& 0 <= i && i + 1 < cs.len()
    &&& cs.kind_at(i) == TokKind::Uid
    &&& cs.kind_at(i + 1) == TokKind::Uid
    &&& !(i + 2 < cs.len() && (cs.kind_at(i + 2) == TokKind::Dot || cs.kind_at(i + 2)
        == TokKind::EqualEqual || cs.kind_at(i + 2) == TokKind::NotEq))
}

pub open spec fn ctor2_v(cs: Cursor, i: int) -> ExpV {
    crate::intern::ctor_or_unctor_v(cs.toks@[i].text@, ctor1_v(cs, i + 1))
}

/// An integer literal stands at `i` and is not followed by a projection
/// dot, so the atom it desugars to is the whole expression at that level.
pub open spec fn plain_int_at(cs: Cursor, i: int) -> bool {
    &&& 0 <= i < cs.len()
    &&& cs.kind_at(i) == TokKind::IntLit
    &&& !(i + 1 < cs.len() && cs.kind_at(i + 1) == TokKind::Dot)
}

/// An integer literal stands alone at `i`: no projection dot and no
/// equality operator follows it.
pub open spec fn lone_int_at(cs: Cursor, i: int) -> bool {
    &&& plain_int_at(cs, i)
    &&& !(i + 1 < cs.len() && (cs.kind_at(i + 1) == TokKind::EqualEqual || cs.kind_at(i + 1)
        == TokKind::NotEq))
}

/// Parses the equality level: an atom-level expression, optionally
/// compared once with `==` or `!=`. The comparison does not associate:
/// a chain of two comparisons is a syntax error at the second operator.
pub fn parse_inner_exp(it: &mut Interner, cs: &mut Cursor) -> (r: Result<Exp, ParseError>)
    requires
        old(it).inv(),
        old(cs).wf(),
    ensures
        final(it).inv(),
        final(it).extends(*old(it)),
        final(cs).advanced(*old(cs)),
        match r {
            Ok(e) => final(it).exp_wf(e) && old(cs).pos < final(cs).pos,
            Err(e) => syntax_err(e, old(cs).eof as int),
        },
        lone_int_at(*old(cs), old(cs).pos as int) ==> (r matches Ok(e) && final(it).exp_denot(e)
            == crate::intern::peano_v(old(cs).toks@[old(cs).pos as int].val as nat)
            && final(cs).pos == old(cs).pos + 1),
        lone_unit_at(*old(cs), old(cs).pos as int) ==> (r matches Ok(e) && final(it).exp_denot(e)
            == ExpV::Tuple(Seq::empty()) && final(cs).pos == old(cs).pos + 1),
        forall|j: int|
            lone_app_at(*old(cs), old(cs).pos as int, j) ==> (r matches Ok(e) && final(cs).pos
                == j && final(it).exp_denot(e) == app_denot(*old(cs), old(cs).pos as int, j)),
        lone_ctor1_at(*old(cs), old(cs).pos as int) ==> (r matches Ok(e) && final(it).exp_denot(e) == ctor1_v(*old(cs), old(cs).pos as int) && final(cs).pos == old(cs).pos + 1),
        lone_ctor2_at(*old(cs), old(cs).pos as int) ==> (r matches Ok(e) && final(it).exp_denot(e) == ctor2_v(*old(cs), old(cs).pos as int) && final(cs).pos == old(cs).pos + 2),
    decreases old(cs).len() - old(cs).pos, 4int,
{
    let ghost pre_it = *it;
    let first = parse_inner_exp0(it, cs);
    let a = match first {
        Ok(a) => a,
        Err(e) => {
            return Err(e);
        },
    };
    let positive: bool;
    if cs.peek_is(TokKind::EqualEqual) {
        positive = true;
    } else if cs.peek_is(TokKind::NotEq) {
        positive = false;
    } else {
        return Ok(a);
    }
    cs.bump();
    let ghost mid_it = *it;
    let second = parse_inner_exp0(it, cs);
    let b = match second {
        Ok(b) => b,
        Err(e) => {
            proof {
                crate::intern::lemma_extends_trans(pre_it, mid_it, *it);
            }
            return Err(e);
        },
    };
    let ghost late_it = *it;
    let e = it.exp_eq(positive, a, b);
    proof {
        crate::intern::lemma_extends_trans(pre_it, mid_it, late_it);
        crate::intern::lemma_extends_trans(pre_it, late_it, *it);
    }
    Ok(e)
}

/// Parses the projection level: an atom followed by zero or more `. INT`
/// suffixes, each wrapping the expression so far.
#[verifier::loop_isolation(false)]
pub fn parse_inner_exp0(it: &mut Interner, cs: &mut Cursor) -> (r: Result<Exp, ParseError>)
    requires
        old(it).inv(),
        old(cs).wf(),
    ensures
        final(it).inv(),
        final(it).extends(*old(it)),
        final(cs).advanced(*old(cs)),
        match r {
            Ok(e) => final(it).exp_wf(e) && old(cs).pos < final(cs).pos,
            Err(e) => syntax_err(e, old(cs).eof as int),
        },
        plain_int_at(*old(cs), old(cs).pos as int) ==> (r matches Ok(e) && final(it).exp_denot(e)
            == crate::intern::peano_v(old(cs).toks@[old(cs).pos as int].val as nat)
            && final(cs).pos == old(cs).pos + 1),
        plain_unit_at(*old(cs), old(cs).pos as int) ==> (r matches Ok(e) && final(it).exp_denot(e)
            == ExpV::Tuple(Seq::empty()) && final(cs).pos == old(cs).pos + 1),
        forall|j: int|
            plain_app_at(*old(cs), old(cs).pos as int, j) ==> (r matches Ok(e) && final(cs).pos
                == j && final(it).exp_denot(e) == app_denot(*old(cs), old(cs).pos as int, j)),
        lone_ctor1_at(*old(cs), old(cs).pos as int) ==> (r matches Ok(e) && final(it).exp_denot(e) == ctor1_v(*old(cs), old(cs).pos as int) && final(cs).pos == old(cs).pos + 1),
        lone_ctor2_at(*old(cs), old(cs).pos as int) ==> (r matches Ok(e) && final(it).exp_denot(e) == ctor2_v(*old(cs), old(cs).pos as int) && final(cs).pos == old(cs).pos + 2),
    decreases old(cs).len() - old(cs).pos, 3int,
{
    let ghost pre_it = *it;
    let head = parse_atom(it, cs);
    let mut e = match head {
        Ok(e) => e,
        Err(err) => {
            return Err(err);
        },
    };
    while cs.peek_is(TokKind::Dot)
        invariant
            it.inv(),
            it.extends(pre_it),
            cs.wf(),
            cs.advanced(*old(cs)),
            old(cs).pos < cs.pos,
            it.exp_wf(e),
            plain_int_at(*old(cs), old(cs).pos as int) ==> cs.pos == old(cs).pos + 1,
            plain_int_at(*old(cs), old(cs).pos as int) && cs.pos == old(cs).pos + 1
                ==> it.exp_denot(e) == crate::intern::peano_v(
                old(cs).toks@[old(cs).pos as int].val as nat,
            ),
            plain_unit_at(*old(cs), old(cs).pos as int) ==> cs.pos == old(cs).pos + 1
                && it.exp_denot(e) == ExpV::Tuple(Seq::empty()),
            forall|j: int|
                plain_app_at(*old(cs), old(cs).pos as int, j) ==> cs.pos == j && it.exp_denot(e)
                    == app_denot(*old(cs), old(cs).pos as int, j),
            lone_ctor1_at(*old(cs), old(cs).pos as int) ==> cs.pos == old(cs).pos + 1
                && it.exp_denot(e) == ctor1_v(*old(cs), old(cs).pos as int),
            lone_ctor2_at(*old(cs), old(cs).pos as int) ==> cs.pos == old(cs).pos + 2
                && it.exp_denot(e) == ctor2_v(*old(cs), old(cs).pos as int),
        decreases cs.len() - cs.pos,
    {
        cs.bump();
        if !cs.peek_is(TokKind::IntLit) {
            let mut expected: Vec<TokKind> = Vec::new();
            expected.push(TokKind::IntLit);
            return Err(cs.err_here(expected));
        }
        let index = cs.peek_val();
        cs.bump();
        let ghost mid_it = *it;
        e = it.exp_proj(index, e);
        proof {
            crate::intern::lemma_extends_trans(pre_it, mid_it, *it);
        }
    }
    Ok(e)
}

/// Parses one atom: an integer literal, a constructor form, a variable or
/// application, a parenthesized expression list, or the unit value.
pub fn parse_atom(it: &mut Interner, cs: &mut Cursor) -> (r: Result<Exp, ParseError>)
    requires
        old(it).inv(),
        old(cs).wf(),
    ensures
        final(it).inv(),
        final(it).extends(*old(it)),
        final(cs).advanced(*old(cs)),
        match r {
            Ok(e) => final(it).exp_wf(e) && old(cs).pos < final(cs).pos,
            Err(e) => syntax_err(e, old(cs).eof as int),
        },
        old(cs).pos < old(cs).len() && old(cs).kind_at(old(cs).pos as int) == TokKind::IntLit
            ==> (r matches Ok(e) && final(it).exp_denot(e) == crate::intern::peano_v(
            old(cs).toks@[old(cs).pos as int].val as nat,
        ) && final(cs).pos == old(cs).pos + 1),
        old(cs).pos < old(cs).len() && old(cs).kind_at(old(cs).pos as int) == TokKind::UnitParen
            ==> (r matches Ok(e) && final(it).exp_denot(e) == ExpV::Tuple(Seq::empty())
            && final(cs).pos == old(cs).pos + 1),
        forall|j: int|
            app_shape(*old(cs), old(cs).pos as int, j) ==> (r matches Ok(e) && final(cs).pos == j
                && final(it).exp_denot(e) == app_denot(*old(cs), old(cs).pos as int, j)),
        old(cs).pos < old(cs).len() && old(cs).kind_at(old(cs).pos as int) == TokKind::Uid && !(
        old(cs).pos + 1 < old(cs).len() && (old(cs).kind_at(old(cs).pos + 1) == TokKind::Uid
            || old(cs).kind_at(old(cs).pos + 1) == TokKind::Lid || old(cs).kind_at(
            old(cs).pos + 1,
        ) == TokKind::LParen)) ==> (r matches Ok(e) && final(it).exp_denot(e) == ctor1_v(
            *old(cs),
            old(cs).pos as int,
        ) && final(cs).pos == old(cs).pos + 1),
        old(cs).pos + 1 < old(cs).len() && old(cs).kind_at(old(cs).pos as int) == TokKind::Uid
            && old(cs).kind_at(old(cs).pos + 1) == TokKind::Uid ==> (r matches Ok(e) && final(it).exp_denot(e) == ctor2_v(*old(cs), old(cs).pos as int) && final(cs).pos == old(cs).pos
            + 2),
    decreases old(cs).len() - old(cs).pos, 2int,
{
    if cs.peek_is(TokKind::IntLit) {
        let e = parse_int_atom(it, cs);
        Ok(e)
    } else if cs.peek_is(TokKind::Uid) {
        parse_uid_atom(it, cs)
    } else if cs.peek_is(TokKind::Lid) {
        parse_lid_atom(it, cs)
    } else if cs.peek_is(TokKind::LParen) {
        parse_paren_exp(it, cs)
    } else if cs.peek_is(TokKind::UnitParen) {
        cs.bump();
        let e = Exp::Unit(it);
        Ok(e)
    } else {
        Err(cs.err_here(expected_atom()))
    }
}

/// Desugars an integer literal atom into its Peano expression.
pub fn parse_int_atom(it: &mut Interner, cs: &mut Cursor) -> (e: Exp)
    requires
        old(it).inv(),
        old(cs).wf(),
        old(cs).pos < old(cs).len(),
        old(cs).kind_at(old(cs).pos as int) == TokKind::IntLit,
    ensures
        final(it).inv(),
        final(it).extends(*old(it)),
        final(cs).advanced(*old(cs)),
        final(cs).pos == old(cs).pos + 1,
        final(it).exp_wf(e),
        final(it).exp_denot(e) == crate::intern::peano_v(
            old(cs).toks@[old(cs).pos as int].val as nat,
        ),
    decreases old(cs).len() - old(cs).pos, 1int,
{
    let value = cs.peek_val();
    cs.bump();
    Exp::from_u64(it, value)
}

/// Parses an atom led by a constructor name: the name alone wraps the
/// unit value; a following constructor name or variable becomes its
/// argument; a parenthesized list becomes its argument tuple, one element
/// collapsing to itself. The `Un_` naming rule picks constructor or
/// destructor.
pub fn parse_uid_atom(it: &mut Interner, cs: &mut Cursor) -> (r: Result<Exp, ParseError>)
    requires
        old(it).inv(),
        old(cs).wf(),
        old(cs).pos < old(cs).len(),
        old(cs).kind_at(old(cs).pos as int) == TokKind::Uid,
    ensures
        final(it).inv(),
        final(it).extends(*old(it)),
        final(cs).advanced(*old(cs)),
        match r {
            Ok(e) => final(it).exp_wf(e) && old(cs).pos < final(cs).pos,
            Err(e) => syntax_err(e, old(cs).eof as int),
        },
        !(old(cs).pos + 1 < old(cs).len() && (old(cs).kind_at(old(cs).pos + 1) == TokKind::Uid
            || old(cs).kind_at(old(cs).pos + 1) == TokKind::Lid || old(cs).kind_at(
            old(cs).pos + 1,
        ) == TokKind::LParen)) ==> (r matches Ok(e) && final(it).exp_denot(e)
            == crate::intern::ctor_or_unctor_v(
            old(cs).toks@[old(cs).pos as int].text@,
            ExpV::Tuple(Seq::empty()),
        ) && final(cs).pos == old(cs).pos + 1),
        old(cs).pos + 1 < old(cs).len() && old(cs).kind_at(old(cs).pos + 1) == TokKind::Uid ==> (
        r matches Ok(e) && final(it).exp_denot(e) == crate::intern::ctor_or_unctor_v(
            old(cs).toks@[old(cs).pos as int].text@,
            crate::intern::ctor_or_unctor_v(
                old(cs).toks@[old(cs).pos + 1].text@,
                ExpV::Tuple(Seq::empty()),
            ),
        ) && final(cs).pos == old(cs).pos + 2),
        old(cs).pos + 1 < old(cs).len() && old(cs).kind_at(old(cs).pos + 1) == TokKind::Lid ==> (
        r matches Ok(e) && final(it).exp_denot(e) == crate::intern::ctor_or_unctor_v(
            old(cs).toks@[old(cs).pos as int].text@,
            ExpV::Var(old(cs).toks@[old(cs).pos + 1].text@),
        ) && final(cs).pos == old(cs).pos + 2),
    decreases old(cs).len() - old(cs).pos, 1int,
{
    let ghost pre_it = *it;
    let name = cs.peek_text();
    cs.bump();
    if cs.peek_is(TokKind::Uid) {
        let inner = cs.peek_text();
        cs.bump();
        let unit = Exp::Unit(it);
        let ghost s1 = *it;
        let arg = Exp::mk_unctor_or_ctor_by_name(it, inner.as_str(), unit);
        let ghost s2 = *it;
        let e = Exp::mk_unctor_or_ctor_by_name(it, name.as_str(), arg);
        proof {
            crate::intern::lemma_extends_denots(s1, s2);
            crate::intern::lemma_extends_denots(s2, *it);
            crate::intern::lemma_extends_trans(pre_it, s1, s2);
            crate::intern::lemma_extends_trans(pre_it, s2, *it);
        }
        Ok(e)
    } else if cs.peek_is(TokKind::Lid) {
        let inner = cs.peek_text();
        cs.bump();
        let v = it.exp_var(inner);
        let ghost s1 = *it;
        let e = Exp::mk_unctor_or_ctor_by_name(it, name.as_str(), v);
        proof {
            crate::intern::lemma_extends_denots(s1, *it);
            crate::intern::lemma_extends_trans(pre_it, s1, *it);
        }
        Ok(e)
    } else if cs.peek_is(TokKind::LParen) {
        cs.bump();
        let items = parse_exp_list(it, cs);
        let args = match items {
            Ok(v) => v,
            Err(e) => {
                return Err(e);
            },
        };
        let closed = cs.expect(TokKind::RParen);
        match closed {
            Ok(()) => {},
            Err(e) => {
                return Err(e);
            },
        }
        let ghost s1 = *it;
        let tup = it.exp_tuple_collapsed(args);
        let ghost s2 = *it;
        let e = Exp::mk_unctor_or_ctor_by_name(it, name.as_str(), tup);
        proof {
            crate::intern::lemma_extends_trans(pre_it, s1, s2);
            crate::intern::lemma_extends_trans(pre_it, s2, *it);
        }
        Ok(e)
    } else {
        let unit = Exp::Unit(it);
        let ghost s1 = *it;
        let e = Exp::mk_unctor_or_ctor_by_name(it, name.as_str(), unit);
        proof {
            crate::intern::lemma_extends_denots(s1, *it);
            crate::intern::lemma_extends_trans(pre_it, s1, *it);
        }
        Ok(e)
    }
}

/// Parses an atom led by a variable name: the name alone, or the name
/// applied to one or more arguments, folded to the left, so `f a b` is
/// `App(App(f, a), b)`.
#[verifier::loop_isolation(false)]
pub fn parse_lid_atom(it: &mut Interner, cs: &mut Cursor) -> (r: Result<Exp, ParseError>)
    requires
        old(it).inv(),
        old(cs).wf(),
        old(cs).pos < old(cs).len(),
        old(cs).kind_at(old(cs).pos as int) == TokKind::Lid,
    ensures
        final(it).inv(),
        final(it).extends(*old(it)),
        final(cs).advanced(*old(cs)),
        match r {
            Ok(e) => final(it).exp_wf(e) && old(cs).pos < final(cs).pos && (exists|
                args: Seq<ExpV>,
            |
                final(it).exp_denot(e) == crate::intern::fold_app_v(
                    ExpV::Var(old(cs).toks@[old(cs).pos as int].text@),
                    args,
                )),
            Err(e) => syntax_err(e, old(cs).eof as int),
        },
        !(old(cs).pos + 1 < old(cs).len() && (old(cs).kind_at(old(cs).pos + 1) == TokKind::Lid
            || old(cs).kind_at(old(cs).pos + 1) == TokKind::LParen)) ==> (r matches Ok(e)
            && final(it).exp_denot(e) == ExpV::Var(old(cs).toks@[old(cs).pos as int].text@)
            && final(cs).pos == old(cs).pos + 1),
        forall|j: int|
            app_shape(*old(cs), old(cs).pos as int, j) ==> (r matches Ok(e) && final(cs).pos == j
                && final(it).exp_denot(e) == app_denot(*old(cs), old(cs).pos as int, j)),
    decreases old(cs).len() - old(cs).pos, 1int,
{
    let ghost pre_it = *it;
    let name = cs.peek_text();
    cs.bump();
    let mut e = it.exp_var(name);
    let ghost mut args: Seq<ExpV> = Seq::empty();
    proof {
        assert(it.exp_denot(e) == crate::intern::fold_app_v(
            ExpV::Var(old(cs).toks@[old(cs).pos as int].text@),
            args,
        ));
    }
    while cs.peek_is(TokKind::Lid) || cs.peek_is(TokKind::LParen)
        invariant
            it.inv(),
            it.extends(pre_it),
            cs.wf(),
            cs.advanced(*old(cs)),
            old(cs).pos < cs.pos,
            it.exp_wf(e),
            it.exp_denot(e) == crate::intern::fold_app_v(
                ExpV::Var(old(cs).toks@[old(cs).pos as int].text@),
                args,
            ),
            cs.pos == old(cs).pos + 1 ==> it.exp_denot(e) == ExpV::Var(
                old(cs).toks@[old(cs).pos as int].text@,
            ),
            cs.pos > old(cs).pos + 1 ==> old(cs).pos + 1 < cs.toks@.len() && (cs.kind_at(
                old(cs).pos + 1,
            ) == TokKind::Lid || cs.kind_at(old(cs).pos + 1) == TokKind::LParen),
            forall|j: int| app_shape(*old(cs), old(cs).pos as int, j) ==> cs.pos <= j,
            all_lid(*old(cs), old(cs).pos + 1, cs.pos as int) ==> args =~= var_args(
                *old(cs),
                old(cs).pos + 1,
                cs.pos as int,
            ),
        decreases cs.len() - cs.pos,
    {
        let ghost mid_it = *it;
        let ghost cpos = cs.pos as int;
        let ghost pos0 = old(cs).pos as int;
        let next = parse_exp_arg(it, cs);
        let a = match next {
            Ok(a) => a,
            Err(err) => {
                proof {
                    crate::intern::lemma_extends_trans(pre_it, mid_it, *it);
                    assert forall|j: int| !app_shape(*old(cs), pos0, j) by {
                        if app_shape(*old(cs), pos0, j) {
                            assert(cpos <= j);
                            if cpos < j {
                                assert(old(cs).kind_at(cpos) == TokKind::Lid);
                            }
                        }
                    }
                }
                return Err(err);
            },
        };
        let ghost s1 = *it;
        let ghost a_denot = it.exp_denot(a);
        e = it.exp_app(e, a);
        proof {
            crate::intern::lemma_extends_denots(mid_it, s1);
            crate::intern::lemma_extends_denots(s1, *it);
            crate::intern::lemma_extends_trans(pre_it, mid_it, s1);
            crate::intern::lemma_extends_trans(pre_it, s1, *it);
            let args2 = args.push(a_denot);
            assert(args2.drop_last() =~= args);
            assert(args2.last() == a_denot);
            let ghost old_args = args;
            args = args2;
            assert forall|j: int| app_shape(*old(cs), pos0, j) implies cs.pos <= j by {
                if cpos < j {
                    if old(cs).kind_at(cpos) == TokKind::Lid {
                        assert(cs.pos == cpos + 1);
                    } else {
                        assert(old(cs).kind_at(cpos) == TokKind::Lid);
                    }
                } else {
                    assert(cpos == j);
                }
            }
            if all_lid(*old(cs), pos0 + 1, cs.pos as int) {
                assert(old(cs).kind_at(cpos) == TokKind::Lid);
                assert(cs.pos == cpos + 1);
                assert(all_lid(*old(cs), pos0 + 1, cpos));
                assert(a_denot == ExpV::Var(old(cs).toks@[cpos].text@));
                assert(var_args(*old(cs), pos0 + 1, cs.pos as int) =~= var_args(
                    *old(cs),
                    pos0 + 1,
                    cpos,
                ).push(ExpV::Var(old(cs).toks@[cpos].text@)));
                assert(args =~= var_args(*old(cs), pos0 + 1, cs.pos as int));
            }
        }
    }
    proof {
        let ghost pos0 = old(cs).pos as int;
        assert forall|j: int| app_shape(*old(cs), pos0, j) implies cs.pos == j && it.exp_denot(e)
            == app_denot(*old(cs), pos0, j) by {
            assert(cs.pos <= j);
            if cs.pos < j {
                assert(old(cs).kind_at(cs.pos as int) == TokKind::Lid);
            }
            assert(cs.pos == j);
            assert(all_lid(*old(cs), pos0 + 1, j));
            assert(args =~= var_args(*old(cs), pos0 + 1, j));
        }
    }
    Ok(e)
}

/// Parses one application argument: a variable, or a parenthesized
/// equality-level expression.
pub fn parse_exp_arg(it: &mut Interner, cs: &mut Cursor) -> (r: Result<Exp, ParseError>)
    requires
        old(it).inv(),
        old(cs).wf(),
        old(cs).pos < old(cs).len(),
        old(cs).kind_at(old(cs).pos as int) == TokKind::Lid || old(cs).kind_at(
            old(cs).pos as int,
        ) == TokKind::LParen,
    ensures
        final(it).inv(),
        final(it).extends(*old(it)),
        final(cs).advanced(*old(cs)),
        match r {
            Ok(e) => final(it).exp_wf(e) && old(cs).pos < final(cs).pos,
            Err(e) => syntax_err(e, old(cs).eof as int),
        },
        old(cs).kind_at(old(cs).pos as int) == TokKind::Lid ==> (r matches Ok(e)
            && final(it).exp_denot(e) == ExpV::Var(old(cs).toks@[old(cs).pos as int].text@)
            && final(cs).pos == old(cs).pos + 1),
    decreases old(cs).len() - old(cs).pos, 0int,
{
    if cs.peek_is(TokKind::Lid) {
        let name = cs.peek_text();
        cs.bump();
        let e = it.exp_var(name);
        Ok(e)
    } else {
        cs.bump();
        let inner = parse_inner_exp(it, cs);
        let e = match inner {
            Ok(e) => e,
            Err(err) => {
                return Err(err);
            },
        };
        let closed = cs.expect(TokKind::RParen);
        match closed {
            Ok(()) => Ok(e),
            Err(err) => Err(err),
        }
    }
}

/// Parses `( Exp ("," Exp)* )`: one element stands for itself, several
/// make a tuple; the list may not be empty and takes no trailing comma.
pub fn parse_paren_exp(it: &mut Interner, cs: &mut Cursor) -> (r: Result<Exp, ParseError>)
    requires
        old(it).inv(),
        old(cs).wf(),
        old(cs).pos < old(cs).len(),
        old(cs).kind_at(old(cs).pos as int) == TokKind::LParen,
    ensures
        final(it).inv(),
        final(it).extends(*old(it)),
        final(cs).advanced(*old(cs)),
        match r {
            Ok(e) => final(it).exp_wf(e) && old(cs).pos < final(cs).pos,
            Err(e) => syntax_err(e, old(cs).eof as int),
        },
        old(cs).kind_at(old(cs).pos as int) == TokKind::LParen && lone_int_at(
            *old(cs),
            old(cs).pos + 1,
        ) && old(cs).pos + 2 < old(cs).len() && old(cs).kind_at(old(cs).pos + 2)
            == TokKind::RParen ==> (r matches Ok(e) && final(it).exp_denot(e)
            == crate::intern::peano_v(old(cs).toks@[old(cs).pos + 1].val as nat) && final(cs).pos
            == old(cs).pos + 3),
    decreases old(cs).len() - old(cs).pos, 1int,
{
    let ghost pre_it = *it;
    cs.bump();
    let items = parse_exp_list_nonempty(it, cs);
    let args = match items {
        Ok(v) => v,
        Err(e) => {
            return Err(e);
        },
    };
    let closed = cs.expect(TokKind::RParen);
    match closed {
        Ok(()) => {},
        Err(e) => {
            return Err(e);
        },
    }
    let ghost s1 = *it;
    let e = it.exp_tuple_collapsed(args);
    proof {
        crate::intern::lemma_extends_trans(pre_it, s1, *it);
    }
    Ok(e)
}

/// Parses a possibly empty comma-separated expression list; a trailing
/// comma is consumed.
#[verifier::loop_isolation(false)]
pub fn parse_exp_list(it: &mut Interner, cs: &mut Cursor) -> (r: Result<Vec<Exp>, ParseError>)
    requires
        old(it).inv(),
        old(cs).wf(),
    ensures
        final(it).inv(),
        final(it).extends(*old(it)),
        final(cs).advanced(*old(cs)),
        match r {
            Ok(v) => final(it).exp_list_wf(v@),
            Err(e) => syntax_err(e, old(cs).eof as int),
        },
        !(old(cs).pos < old(cs).len() && exp_start(old(cs).kind_at(old(cs).pos as int))) ==> (
        r matches Ok(v) && v@.len() == 0 && final(cs).pos == old(cs).pos && *final(it) == *old(
            it,
        )),
        lone_int_at(*old(cs), old(cs).pos as int) && !(old(cs).pos + 1 < old(cs).len() && old(cs).kind_at(old(cs).pos + 1) == TokKind::Comma) ==> (r matches Ok(v) && v@.len() == 1
            && final(it).exp_denot(v@[0]) == crate::intern::peano_v(
            old(cs).toks@[old(cs).pos as int].val as nat,
        ) && final(cs).pos == old(cs).pos + 1),
        lone_ctor1_at(*old(cs), old(cs).pos as int) && !(old(cs).pos + 1 < old(cs).len()
            && old(cs).kind_at(old(cs).pos + 1) == TokKind::Comma) ==> (r matches Ok(v) && v@
            .len() == 1 && final(it).exp_denot(v@[0]) == ctor1_v(*old(cs), old(cs).pos as int)
            && final(cs).pos == old(cs).pos + 1),
        lone_ctor2_at(*old(cs), old(cs).pos as int) && !(old(cs).pos + 2 < old(cs).len()
            && old(cs).kind_at(old(cs).pos + 2) == TokKind::Comma) ==> (r matches Ok(v) && v@
            .len() == 1 && final(it).exp_denot(v@[0]) == ctor2_v(*old(cs), old(cs).pos as int)
            && final(cs).pos == old(cs).pos + 2),
    decreases old(cs).len() - old(cs).pos, 6int,
{
    let ghost pre_it = *it;
    let mut items: Vec<Exp> = Vec::new();
    let begins = !cs.at_end() && starts_exp(cs.peek_kind());
    if !begins {
        proof {
            assert(it.ty_nodes().subrange(0, it.ty_nodes().len() as int) =~= it.ty_nodes());
            assert(it.exp_nodes().subrange(0, it.exp_nodes().len() as int) =~= it.exp_nodes());
        }
        return Ok(items);
    }
    let first = parse_exp(it, cs);
    match first {
        Ok(e) => items.push(e),
        Err(e) => {
            return Err(e);
        },
    }
    while cs.peek_is(TokKind::Comma)
        invariant
            it.inv(),
            it.extends(pre_it),
            cs.wf(),
            cs.advanced(*old(cs)),
            old(cs).pos < cs.pos,
            it.exp_list_wf(items@),
            lone_int_at(*old(cs), old(cs).pos as int) && !(old(cs).pos + 1 < old(cs).len()
                && old(cs).kind_at(old(cs).pos + 1) == TokKind::Comma) ==> cs.pos == old(cs).pos
                + 1 && items@.len() == 1 && it.exp_denot(items@[0]) == crate::intern::peano_v(
                old(cs).toks@[old(cs).pos as int].val as nat,
            ),
            lone_ctor1_at(*old(cs), old(cs).pos as int) && !(old(cs).pos + 1 < old(cs).len()
                && old(cs).kind_at(old(cs).pos + 1) == TokKind::Comma) ==> cs.pos == old(cs).pos
                + 1 && items@.len() == 1 && it.exp_denot(items@[0]) == ctor1_v(
                *old(cs),
                old(cs).pos as int,
            ),
            lone_ctor2_at(*old(cs), old(cs).pos as int) && !(old(cs).pos + 2 < old(cs).len()
                && old(cs).kind_at(old(cs).pos + 2) == TokKind::Comma) ==> cs.pos == old(cs).pos
                + 2 && items@.len() == 1 && it.exp_denot(items@[0]) == ctor2_v(
                *old(cs),
                old(cs).pos as int,
            ),
        decreases cs.len() - cs.pos,
    {
        cs.bump();
        let more = !cs.at_end() && starts_exp(cs.peek_kind());
        if !more {
            break;
        }
        let ghost mid_it = *it;
        let next = parse_exp(it, cs);
        match next {
            Ok(e) => {
                items.push(e);
                proof {
                    crate::intern::lemma_extends_trans(pre_it, mid_it, *it);
                }
            },
            Err(e) => {
                proof {
                    crate::intern::lemma_extends_trans(pre_it, mid_it, *it);
                }
                return Err(e);
            },
        }
    }
    Ok(items)
}

/// Parses `Exp ("," Exp)*`: at least one element, no trailing comma.
#[verifier::loop_isolation(false)]
pub fn parse_exp_list_nonempty(it: &mut Interner, cs: &mut Cursor) -> (r: Result<
    Vec<Exp>,
    ParseError,
>)
    requires
        old(it).inv(),
        old(cs).wf(),
    ensures
        final(it).inv(),
        final(it).extends(*old(it)),
        final(cs).advanced(*old(cs)),
        match r {
            Ok(v) => final(it).exp_list_wf(v@) && v@.len() >= 1 && old(cs).pos < final(cs).pos,
            Err(e) => syntax_err(e, old(cs).eof as int),
        },
        lone_int_at(*old(cs), old(cs).pos as int) && !(old(cs).pos + 1 < old(cs).len() && old(cs).kind_at(old(cs).pos + 1) == TokKind::Comma) ==> (r matches Ok(v) && v@.len() == 1
            && final(it).exp_denot(v@[0]) == crate::intern::peano_v(
            old(cs).toks@[old(cs).pos as int].val as nat,
        ) && final(cs).pos == old(cs).pos + 1),
        lone_ctor1_at(*old(cs), old(cs).pos as int) && !(old(cs).pos + 1 < old(cs).len()
            && old(cs).kind_at(old(cs).pos + 1) == TokKind::Comma) ==> (r matches Ok(v) && v@
            .len() == 1 && final(it).exp_denot(v@[0]) == ctor1_v(*old(cs), old(cs).pos as int)
            && final(cs).pos == old(cs).pos + 1),
        lone_ctor2_at(*old(cs), old(cs).pos as int) && !(old(cs).pos + 2 < old(cs).len()
            && old(cs).kind_at(old(cs).pos + 2) == TokKind::Comma) ==> (r matches Ok(v) && v@
            .len() == 1 && final(it).exp_denot(v@[0]) == ctor2_v(*old(cs), old(cs).pos as int)
            && final(cs).pos == old(cs).pos + 2),
    decreases old(cs).len() - old(cs).pos, 6int,
{
    let ghost pre_it = *it;
    let mut items: Vec<Exp> = Vec::new();
    let first = parse_exp(it, cs);
    match first {
        Ok(e) => items.push(e),
        Err(e) => {
            return Err(e);
        },
    }
    while cs.peek_is(TokKind::Comma)
        invariant
            it.inv(),
            it.extends(pre_it),
            cs.wf(),
            cs.advanced(*old(cs)),
            old(cs).pos < cs.pos,
            it.exp_list_wf(items@),
            items@.len() >= 1,
            lone_int_at(*old(cs), old(cs).pos as int) && !(old(cs).pos + 1 < old(cs).len()
                && old(cs).kind_at(old(cs).pos + 1) == TokKind::Comma) ==> cs.pos == old(cs).pos
                + 1 && items@.len() == 1 && it.exp_denot(items@[0]) == crate::intern::peano_v(
                old(cs).toks@[old(cs).pos as int].val as nat,
            ),
            lone_ctor1_at(*old(cs), old(cs).pos as int) && !(old(cs).pos + 1 < old(cs).len()
                && old(cs).kind_at(old(cs).pos + 1) == TokKind::Comma) ==> cs.pos == old(cs).pos
                + 1 && items@.len() == 1 && it.exp_denot(items@[0]) == ctor1_v(
                *old(cs),
                old(cs).pos as int,
            ),
            lone_ctor2_at(*old(cs), old(cs).pos as int) && !(old(cs).pos + 2 < old(cs).len()
                && old(cs).kind_at(old(cs).pos + 2) == TokKind::Comma) ==> cs.pos == old(cs).pos
                + 2 && items@.len() == 1 && it.exp_denot(items@[0]) == ctor2_v(
                *old(cs),
                old(cs).pos as int,
            ),
        decreases cs.len() - cs.pos,
    {
        cs.bump();
        let ghost mid_it = *it;
        let next = parse_exp(it, cs);
        match next {
            Ok(e) => {
                items.push(e);
                proof {
                    crate::intern::lemma_extends_trans(pre_it, mid_it, *it);
                }
            },
            Err(e) => {
                proof {
                    crate::intern::lemma_extends_trans(pre_it, mid_it, *it);
                }
                return Err(e);
            },
        }
    }
    Ok(items)
}

/// A binder `( LID : <lone type name> )` stands at `i`.
pub open spec fn arg_shape(cs: Cursor, i: int) -> bool {
    &&& 0 <= i && i + 4 < cs.len()
    &&& cs.kind_at(i) == TokKind::LParen
    &&& cs.kind_at(i + 1) == TokKind::Lid
    &&& cs.kind_at(i + 2) == TokKind::Colon
    &&& lone_name_at(cs, i + 3)
    &&& cs.kind_at(i + 4) == TokKind::RParen
}

/// `type LID = <lone type name>` stands at `i`.
pub open spec fn type_decl_shape(cs: Cursor, i: int) -> bool {
    &&& 0 <= i && i + 3 < cs.len()
    &&& cs.kind_at(i) == TokKind::KwType
    &&& cs.kind_at(i + 1) == TokKind::Lid
    &&& cs.kind_at(i + 2) == TokKind::Equal
    &&& lone_name_at(cs, i + 3)
}

/// `let LID = <integer literal> ;;` stands at `i`.
pub open spec fn let_decl_shape(cs: Cursor, i: int) -> bool {
    &&& 0 <= i && i + 4 < cs.len()
    &&& cs.kind_at(i) == TokKind::KwLet
    &&& cs.kind_at(i + 1) == TokKind::Lid
    &&& cs.kind_at(i + 2) == TokKind::Equal
    &&& lone_int_at(cs, i + 3)
    &&& cs.kind_at(i + 4) == TokKind::SemiSemi
}

/// End of the run of `include "<path>"` pairs that starts at `i`.
pub open spec fn include_run_end(cs: Cursor, i: int) -> int
    decreases cs.len() - i,
{
    if 0 <= i && i + 1 < cs.len() && cs.kind_at(i) == TokKind::KwInclude && cs.kind_at(i + 1)
        == TokKind::StrLit {
        include_run_end(cs, i + 2)
    } else {
        i
    }
}

/// The quoted lexemes of that run, in order.
pub open spec fn include_texts(cs: Cursor, i: int) -> Seq<Seq<char>>
    decreases cs.len() - i,
{
    if 0 <= i && i + 1 < cs.len() && cs.kind_at(i) == TokKind::KwInclude && cs.kind_at(i + 1)
        == TokKind::StrLit {
        seq![cs.toks@[i + 1].text@] + include_texts(cs, i + 2)
    } else {
        Seq::empty()
    }
}

/// Parses the leading `include "<path>"` clauses; each import keeps its
/// quoted lexeme: exactly the string lexemes of the leading run of import
/// pairs, with the cursor stopped at the first token after the run.
#[verifier::loop_isolation(false)]
pub fn parse_includes(cs: &mut Cursor) -> (r: Result<Vec<String>, ParseError>)
    requires
        old(cs).wf(),
    ensures
        final(cs).advanced(*old(cs)),
        r matches Err(e) ==> syntax_err(e, old(cs).eof as int),
        !(old(cs).pos < old(cs).len() && old(cs).kind_at(old(cs).pos as int)
            == TokKind::KwInclude) ==> (r matches Ok(v) && v@.len() == 0 && final(cs).pos == old(cs).pos),
        ({
            let j = include_run_end(*old(cs), old(cs).pos as int);
            !(j < old(cs).len() && old(cs).kind_at(j) == TokKind::KwInclude)
        }) ==> (r matches Ok(v) && v@.map_values(|t: String| t@) == include_texts(
            *old(cs),
            old(cs).pos as int,
        ) && final(cs).pos == include_run_end(*old(cs), old(cs).pos as int)),
        ({
            let j = include_run_end(*old(cs), old(cs).pos as int);
            j < old(cs).len() && old(cs).kind_at(j) == TokKind::KwInclude
        }) ==> (r matches Err(e) && ({
            let j = include_run_end(*old(cs), old(cs).pos as int);
            if j + 1 < old(cs).len() {
                e matches ParseError::UnrecognizedToken { start, end, kind, expected } && start
                    == old(cs).toks@[j + 1].start && end == old(cs).toks@[j + 1].end && kind
                    == old(cs).toks@[j + 1].kind && expected@ == seq![TokKind::StrLit]
            } else {
                e matches ParseError::UnrecognizedEof { offset, expected } && offset == old(cs).eof && expected@ == seq![TokKind::StrLit]
            }
        })),
    decreases old(cs).len() - old(cs).pos, 1int,
{
    let ghost pos0 = old(cs).pos as int;
    let mut imports: Vec<String> = Vec::new();
    proof {
        assert(imports@.map_values(|t: String| t@) + include_texts(*old(cs), pos0)
            =~= include_texts(*old(cs), pos0));
    }
    while cs.peek_is(TokKind::KwInclude)
        invariant
            cs.wf(),
            cs.advanced(*old(cs)),
            !(old(cs).pos < old(cs).len() && old(cs).kind_at(old(cs).pos as int)
                == TokKind::KwInclude) ==> cs.pos == old(cs).pos && imports@.len() == 0,
            imports@.map_values(|t: String| t@) + include_texts(*old(cs), cs.pos as int)
                == include_texts(*old(cs), pos0),
            include_run_end(*old(cs), cs.pos as int) == include_run_end(*old(cs), pos0),
        decreases cs.len() - cs.pos,
    {
        let ghost cpos = cs.pos as int;
        cs.bump();
        if !cs.peek_is(TokKind::StrLit) {
            let mut expected: Vec<TokKind> = Vec::new();
            expected.push(TokKind::StrLit);
            proof {
                assert(expected@ =~= seq![TokKind::StrLit]);
                assert(include_run_end(*old(cs), cpos) == cpos);
            }
            return Err(cs.err_here(expected));
        }
        let path = cs.peek_text();
        cs.bump();
        let ghost pre_imports = imports@;
        imports.push(path);
        proof {
            assert(imports@ =~= pre_imports.push(path));
            assert(include_texts(*old(cs), cpos) == seq![old(cs).toks@[cpos + 1].text@]
                + include_texts(*old(cs), cpos + 2));
            assert(imports@.map_values(|t: String| t@) =~= pre_imports.map_values(
                |t: String| t@,
            ).push(path@));
            assert(imports@.map_values(|t: String| t@) + include_texts(*old(cs), cs.pos as int)
                =~= pre_imports.map_values(|t: String| t@) + include_texts(*old(cs), cpos));
        }
    }
    proof {
        assert(include_run_end(*old(cs), cs.pos as int) == cs.pos as int);
        assert(include_texts(*old(cs), cs.pos as int) =~= Seq::<Seq<char>>::empty());
        assert(imports@.map_values(|t: String| t@) + include_texts(*old(cs), cs.pos as int)
            =~= imports@.map_values(|t: String| t@));
    }
    Ok(imports)
}

/// Parses the run of top-level declarations that follows the imports.
#[verifier::loop_isolation(false)]
pub fn parse_decls(it: &mut Interner, cs: &mut Cursor) -> (r: Result<Vec<Declaration>, ParseError>)
    requires
        old(it).inv(),
        old(cs).wf(),
    ensures
        final(it).inv(),
        final(it).extends(*old(it)),
        final(cs).advanced(*old(cs)),
        match r {
            Ok(ds) => final(it).decls_wf(ds@),
            Err(e) => syntax_err(e, old(cs).eof as int),
        },
        !(old(cs).pos < old(cs).len() && (old(cs).kind_at(old(cs).pos as int) == TokKind::KwType
            || old(cs).kind_at(old(cs).pos as int) == TokKind::KwLet)) ==> (r matches Ok(v) && v@
            .len() == 0 && final(cs).pos == old(cs).pos && *final(it) == *old(it)),
        old(cs).pos < old(cs).len() && decl_start(old(cs).kind_at(old(cs).pos as int)) ==> (
        r matches Ok(ds) ==> ds@.len() >= 1 && old(cs).pos < final(cs).pos),
        type_decl_shape(*old(cs), old(cs).pos as int) && !(old(cs).pos + 4 < old(cs).len()
            && decl_start(old(cs).kind_at(old(cs).pos + 4))) ==> (r matches Ok(ds) && ds@.len()
            == 1 && (ds@[0] matches Declaration::TypeDecl(nm, t) && nm@ == old(cs).toks@[old(cs).pos + 1].text@ && final(it).ty_denot(t) == TypeV::Named(
            old(cs).toks@[old(cs).pos + 3].text@,
        )) && final(cs).pos == old(cs).pos + 4),
    decreases old(cs).len() - old(cs).pos, 2int,
{
    let ghost pre_it = *it;
    let mut decls: Vec<Declaration> = Vec::new();
    while !cs.at_end() && starts_decl(cs.peek_kind())
        invariant
            it.inv(),
            it.extends(pre_it),
            cs.wf(),
            cs.advanced(*old(cs)),
            it.decls_wf(decls@),
            !(old(cs).pos < old(cs).len() && (old(cs).kind_at(old(cs).pos as int)
                == TokKind::KwType || old(cs).kind_at(old(cs).pos as int) == TokKind::KwLet))
                ==> cs.pos == old(cs).pos && decls@.len() == 0 && *it == pre_it,
            cs.pos > old(cs).pos ==> decls@.len() >= 1,
            type_decl_shape(*old(cs), old(cs).pos as int) && !(old(cs).pos + 4 < old(cs).len()
                && decl_start(old(cs).kind_at(old(cs).pos + 4))) ==> ((cs.pos == old(cs).pos
                && decls@.len() == 0) || (cs.pos == old(cs).pos + 4 && decls@.len() == 1 && (
            decls@[0] matches Declaration::TypeDecl(nm, t) && nm@ == old(cs).toks@[old(cs).pos
                + 1].text@ && it.ty_denot(t) == TypeV::Named(
                old(cs).toks@[old(cs).pos + 3].text@,
            )))),
        decreases cs.len() - cs.pos,
    {
        let ghost mid_it = *it;
        let ghost entry_pos = cs.pos as int;
        let ghost pre_decls = decls@;
        let next = parse_decl(it, cs);
        match next {
            Ok(d) => {
                decls.push(d);
                proof {
                    assert(decls@ =~= pre_decls.push(d));
                    crate::intern::lemma_extends_trans(pre_it, mid_it, *it);
                    if type_decl_shape(*old(cs), old(cs).pos as int) && !(old(cs).pos + 4 < old(cs).len() && decl_start(old(cs).kind_at(old(cs).pos + 4))) {
                        if entry_pos != old(cs).pos as int {
                            assert(entry_pos == old(cs).pos + 4);
                            assert(decl_start(old(cs).kind_at(entry_pos)));
                            assert(false);
                        }
                        assert(pre_decls.len() == 0);
                        assert(type_decl_shape(*old(cs), entry_pos));
                        assert(decls@[0] == d);
                    }
                }
            },
            Err(e) => {
                proof {
                    crate::intern::lemma_extends_trans(pre_it, mid_it, *it);
                }
                return Err(e);
            },
        }
    }
    Ok(decls)
}

/// Parses one declaration: a type alias or a value binding.
pub fn parse_decl(it: &mut Interner, cs: &mut Cursor) -> (r: Result<Declaration, ParseError>)
    requires
        old(it).inv(),
        old(cs).wf(),
        old(cs).pos < old(cs).len(),
        old(cs).kind_at(old(cs).pos as int) == TokKind::KwType || old(cs).kind_at(
            old(cs).pos as int,
        ) == TokKind::KwLet,
    ensures
        final(it).inv(),
        final(it).extends(*old(it)),
        final(cs).advanced(*old(cs)),
        match r {
            Ok(d) => final(it).decl_wf(d) && old(cs).pos < final(cs).pos,
            Err(e) => syntax_err(e, old(cs).eof as int),
        },
        old(cs).kind_at(old(cs).pos as int) == TokKind::KwType ==> (r matches Ok(d) ==> d
            is TypeDecl),
        old(cs).kind_at(old(cs).pos as int) == TokKind::KwLet ==> (r matches Ok(d) ==> d
            is ExpDecl),
        type_decl_shape(*old(cs), old(cs).pos as int) ==> (r matches Ok(d) && (d matches
        Declaration::TypeDecl(nm, t) && nm@ == old(cs).toks@[old(cs).pos + 1].text@ && final(it).ty_denot(t) == TypeV::Named(old(cs).toks@[old(cs).pos + 3].text@)) && final(cs).pos
            == old(cs).pos + 4),
        let_decl_shape(*old(cs), old(cs).pos as int) ==> (r matches Ok(d) && (d matches
        Declaration::ExpDecl(nm, e) && nm@ == old(cs).toks@[old(cs).pos + 1].text@ && final(it).exp_denot(e) == crate::intern::peano_v(old(cs).toks@[old(cs).pos + 3].val as nat))
            && final(cs).pos == old(cs).pos + 5),
    decreases old(cs).len() - old(cs).pos, 1int,
{
    if cs.peek_is(TokKind::KwType) {
        parse_type_decl(it, cs)
    } else {
        parse_let_decl(it, cs)
    }
}

/// Parses `type LID = typ`.
pub fn parse_type_decl(it: &mut Interner, cs: &mut Cursor) -> (r: Result<Declaration, ParseError>)
    requires
        old(it).inv(),
        old(cs).wf(),
        old(cs).pos < old(cs).len(),
        old(cs).kind_at(old(cs).pos as int) == TokKind::KwType,
    ensures
        final(it).inv(),
        final(it).extends(*old(it)),
        final(cs).advanced(*old(cs)),
        match r {
            Ok(d) => final(it).decl_wf(d) && old(cs).pos < final(cs).pos && d is TypeDecl,
            Err(e) => syntax_err(e, old(cs).eof as int),
        },
        type_decl_shape(*old(cs), old(cs).pos as int) ==> (r matches Ok(d) && (d matches
        Declaration::TypeDecl(nm, t) && nm@ == old(cs).toks@[old(cs).pos + 1].text@ && final(it).ty_denot(t) == TypeV::Named(old(cs).toks@[old(cs).pos + 3].text@)) && final(cs).pos
            == old(cs).pos + 4),
    decreases old(cs).len() - old(cs).pos, 0int,
{
    cs.bump();
    if !cs.peek_is(TokKind::Lid) {
        let mut expected: Vec<TokKind> = Vec::new();
        expected.push(TokKind::Lid);
        return Err(cs.err_here(expected));
    }
    let name = cs.peek_text();
    cs.bump();
    let eq = cs.expect(TokKind::Equal);
    match eq {
        Ok(()) => {},
        Err(e) => {
            return Err(e);
        },
    }
    let ty = parse_typ(it, cs);
    match ty {
        Ok(t) => Ok(Declaration::TypeDecl(name, t)),
        Err(e) => Err(e),
    }
}

/// Parses `let LID = Exp ;;`.
pub fn parse_let_decl(it: &mut Interner, cs: &mut Cursor) -> (r: Result<Declaration, ParseError>)
    requires
        old(it).inv(),
        old(cs).wf(),
        old(cs).pos < old(cs).len(),
        old(cs).kind_at(old(cs).pos as int) == TokKind::KwLet,
    ensures
        final(it).inv(),
        final(it).extends(*old(it)),
        final(cs).advanced(*old(cs)),
        match r {
            Ok(d) => final(it).decl_wf(d) && old(cs).pos < final(cs).pos && d is ExpDecl,
            Err(e) => syntax_err(e, old(cs).eof as int),
        },
        let_decl_shape(*old(cs), old(cs).pos as int) ==> (r matches Ok(d) && (d matches
        Declaration::ExpDecl(nm, e) && nm@ == old(cs).toks@[old(cs).pos + 1].text@ && final(it).exp_denot(e) == crate::intern::peano_v(old(cs).toks@[old(cs).pos + 3].val as nat))
            && final(cs).pos == old(cs).pos + 5),
    decreases old(cs).len() - old(cs).pos, 0int,
{
    cs.bump();
    if !cs.peek_is(TokKind::Lid) {
        let mut expected: Vec<TokKind> = Vec::new();
        expected.push(TokKind::Lid);
        return Err(cs.err_here(expected));
    }
    let name = cs.peek_text();
    cs.bump();
    let eq = cs.expect(TokKind::Equal);
    match eq {
        Ok(()) => {},
        Err(e) => {
            return Err(e);
        },
    }
    let body = parse_exp(it, cs);
    let b = match body {
        Ok(b) => b,
        Err(e) => {
            return Err(e);
        },
    };
    let terminated = cs.expect(TokKind::SemiSemi);
    match terminated {
        Ok(()) => Ok(Declaration::ExpDecl(name, b)),
        Err(e) => Err(e),
    }
}

/// `[ C ] -> C'` stands at `i`: one bare-constructor input and a
/// bare-constructor output, five tokens.
pub open spec fn example1_shape(cs: Cursor, i: int) -> bool {
    &&& 0 <= i && i + 4 < cs.len()
    &&& cs.kind_at(i) == TokKind::LBrack
    &&& lone_ctor1_at(cs, i + 1)
    &&& cs.kind_at(i + 2) == TokKind::RBrack
    &&& cs.kind_at(i + 3) == TokKind::Arrow
    &&& lone_ctor1_at(cs, i + 4)
}

/// `[ C D ] -> C' D'` stands at `i`: one two-constructor input and a
/// two-constructor output, seven tokens.
pub open spec fn example2_shape(cs: Cursor, i: int) -> bool {
    &&& 0 <= i && i + 6 < cs.len()
    &&& cs.kind_at(i) == TokKind::LBrack
    &&& lone_ctor2_at(cs, i + 1)
    &&& cs.kind_at(i + 3) == TokKind::RBrack
    &&& cs.kind_at(i + 4) == TokKind::Arrow
    &&& lone_ctor2_at(cs, i + 5)
}

/// `[ ] -> <integer literal>` stands at `i`: the empty-input example.
pub open spec fn example_shape(cs: Cursor, i: int) -> bool {
    &&& 0 <= i && i + 3 < cs.len()
    &&& cs.kind_at(i) == TokKind::LBrack
    &&& cs.kind_at(i + 1) == TokKind::RBrack
    &&& cs.kind_at(i + 2) == TokKind::Arrow
    &&& lone_int_at(cs, i + 3)
}

/// Parses one example `[ Exp-list ] -> Exp`.
pub fn parse_example(it: &mut Interner, cs: &mut Cursor) -> (r: Result<Example, ParseError>)
    requires
        old(it).inv(),
        old(cs).wf(),
        old(cs).pos < old(cs).len(),
        old(cs).kind_at(old(cs).pos as int) == TokKind::LBrack,
    ensures
        final(it).inv(),
        final(it).extends(*old(it)),
        final(cs).advanced(*old(cs)),
        match r {
            Ok(x) => final(it).example_wf(x) && old(cs).pos < final(cs).pos,
            Err(e) => syntax_err(e, old(cs).eof as int),
        },
        example_shape(*old(cs), old(cs).pos as int) ==> (r matches Ok(x) && x.input@.len() == 0
            && final(it).exp_denot(x.output) == crate::intern::peano_v(
            old(cs).toks@[old(cs).pos + 3].val as nat,
        ) && final(cs).pos == old(cs).pos + 4),
        example1_shape(*old(cs), old(cs).pos as int) ==> (r matches Ok(x) && x.input@.len() == 1
            && final(it).exp_denot(x.input@[0]) == ctor1_v(*old(cs), old(cs).pos + 1)
            && final(it).exp_denot(x.output) == ctor1_v(*old(cs), old(cs).pos + 4)
            && final(cs).pos == old(cs).pos + 5),
        example2_shape(*old(cs), old(cs).pos as int) ==> (r matches Ok(x) && x.input@.len() == 1
            && final(it).exp_denot(x.input@[0]) == ctor2_v(*old(cs), old(cs).pos + 1)
            && final(it).exp_denot(x.output) == ctor2_v(*old(cs), old(cs).pos + 5)
            && final(cs).pos == old(cs).pos + 7),
    decreases old(cs).len() - old(cs).pos, 1int,
{
    let ghost pre_it = *it;
    cs.bump();
    let items = parse_exp_list(it, cs);
    let input = match items {
        Ok(v) => v,
        Err(e) => {
            return Err(e);
        },
    };
    let closed = cs.expect(TokKind::RBrack);
    match closed {
        Ok(()) => {},
        Err(e) => {
            return Err(e);
        },
    }
    let arrow = cs.expect(TokKind::Arrow);
    match arrow {
        Ok(()) => {},
        Err(e) => {
            return Err(e);
        },
    }
    let ghost mid_it = *it;
    let output = parse_exp(it, cs);
    match output {
        Ok(out) => {
            proof {
                crate::intern::lemma_extends_denots(mid_it, *it);
                crate::intern::lemma_extends_trans(pre_it, mid_it, *it);
            }
            Ok(Example { input, output: out })
        },
        Err(e) => {
            proof {
                crate::intern::lemma_extends_trans(pre_it, mid_it, *it);
            }
            Err(e)
        },
    }
}

/// Parses one or more comma-separated examples; a trailing comma is
/// consumed, so `equiv` may follow it.
#[verifier::loop_isolation(false)]
pub fn parse_example_list(it: &mut Interner, cs: &mut Cursor) -> (r: Result<
    Vec<Example>,
    ParseError,
>)
    requires
        old(it).inv(),
        old(cs).wf(),
        old(cs).pos < old(cs).len(),
        old(cs).kind_at(old(cs).pos as int) == TokKind::LBrack,
    ensures
        final(it).inv(),
        final(it).extends(*old(it)),
        final(cs).advanced(*old(cs)),
        match r {
            Ok(xs) => final(it).examples_wf(xs@) && xs@.len() >= 1 && old(cs).pos
                < final(cs).pos,
            Err(e) => syntax_err(e, old(cs).eof as int),
        },
        example_shape(*old(cs), old(cs).pos as int) && !(old(cs).pos + 4 < old(cs).len() && old(cs).kind_at(old(cs).pos + 4) == TokKind::Comma) ==> (r matches Ok(xs) && xs@.len() == 1
            && xs@[0].input@.len() == 0 && final(it).exp_denot(xs@[0].output)
            == crate::intern::peano_v(old(cs).toks@[old(cs).pos + 3].val as nat)
            && final(cs).pos == old(cs).pos + 4),
        example1_shape(*old(cs), old(cs).pos as int) && !(old(cs).pos + 5 < old(cs).len() && old(cs).kind_at(old(cs).pos + 5) == TokKind::Comma) ==> (r matches Ok(xs) && xs@.len() == 1
            && xs@[0].input@.len() == 1 && final(it).exp_denot(xs@[0].input@[0]) == ctor1_v(
            *old(cs),
            old(cs).pos + 1,
        ) && final(it).exp_denot(xs@[0].output) == ctor1_v(*old(cs), old(cs).pos + 4)
            && final(cs).pos == old(cs).pos + 5),
        example1_shape(*old(cs), old(cs).pos as int) && old(cs).pos + 5 < old(cs).len() && old(cs).kind_at(old(cs).pos + 5) == TokKind::Comma && example2_shape(*old(cs), old(cs).pos + 6)
            && !(old(cs).pos + 13 < old(cs).len() && old(cs).kind_at(old(cs).pos + 13)
            == TokKind::Comma) ==> (r matches Ok(xs) && xs@.len() == 2 && xs@[0].input@.len()
            == 1 && final(it).exp_denot(xs@[0].input@[0]) == ctor1_v(*old(cs), old(cs).pos + 1)
            && final(it).exp_denot(xs@[0].output) == ctor1_v(*old(cs), old(cs).pos + 4)
            && xs@[1].input@.len() == 1 && final(it).exp_denot(xs@[1].input@[0]) == ctor2_v(
            *old(cs),
            old(cs).pos + 7,
        ) && final(it).exp_denot(xs@[1].output) == ctor2_v(*old(cs), old(cs).pos + 11)
            && final(cs).pos == old(cs).pos + 13),
    decreases old(cs).len() - old(cs).pos, 2int,
{
    let ghost pre_it = *it;
    let mut examples: Vec<Example> = Vec::new();
    let first = parse_example(it, cs);
    match first {
        Ok(x) => examples.push(x),
        Err(e) => {
            return Err(e);
        },
    }
    while cs.peek_is(TokKind::Comma)
        invariant
            it.inv(),
            it.extends(pre_it),
            cs.wf(),
            cs.advanced(*old(cs)),
            old(cs).pos < cs.pos,
            it.examples_wf(examples@),
            examples@.len() >= 1,
            example_shape(*old(cs), old(cs).pos as int) && !(old(cs).pos + 4 < old(cs).len()
                && old(cs).kind_at(old(cs).pos + 4) == TokKind::Comma) ==> cs.pos == old(cs).pos
                + 4 && examples@.len() == 1 && examples@[0].input@.len() == 0 && it.exp_denot(
                examples@[0].output,
            ) == crate::intern::peano_v(old(cs).toks@[old(cs).pos + 3].val as nat),
            example1_shape(*old(cs), old(cs).pos as int) && !(old(cs).pos + 5 < old(cs).len()
                && old(cs).kind_at(old(cs).pos + 5) == TokKind::Comma) ==> cs.pos == old(cs).pos
                + 5 && examples@.len() == 1 && examples@[0].input@.len() == 1 && it.exp_denot(
                examples@[0].input@[0],
            ) == ctor1_v(*old(cs), old(cs).pos + 1) && it.exp_denot(examples@[0].output)
                == ctor1_v(*old(cs), old(cs).pos + 4),
            example1_shape(*old(cs), old(cs).pos as int) && old(cs).pos + 5 < old(cs).len()
                && old(cs).kind_at(old(cs).pos + 5) == TokKind::Comma && example2_shape(
                *old(cs),
                old(cs).pos + 6,
            ) && !(old(cs).pos + 13 < old(cs).len() && old(cs).kind_at(old(cs).pos + 13)
                == TokKind::Comma) ==> ((cs.pos == old(cs).pos + 5 && examples@.len() == 1
                && examples@[0].input@.len() == 1 && it.exp_denot(examples@[0].input@[0])
                == ctor1_v(*old(cs), old(cs).pos + 1) && it.exp_denot(examples@[0].output)
                == ctor1_v(*old(cs), old(cs).pos + 4)) || (cs.pos == old(cs).pos + 13
                && examples@.len() == 2 && examples@[0].input@.len() == 1 && it.exp_denot(
                examples@[0].input@[0],
            ) == ctor1_v(*old(cs), old(cs).pos + 1) && it.exp_denot(examples@[0].output)
                == ctor1_v(*old(cs), old(cs).pos + 4) && examples@[1].input@.len() == 1
                && it.exp_denot(examples@[1].input@[0]) == ctor2_v(*old(cs), old(cs).pos + 7)
                && it.exp_denot(examples@[1].output) == ctor2_v(*old(cs), old(cs).pos + 11))),
        decreases cs.len() - cs.pos,
    {
        cs.bump();
        if !cs.peek_is(TokKind::LBrack) {
            break;
        }
        let ghost mid_it = *it;
        let next = parse_example(it, cs);
        match next {
            Ok(x) => {
                examples.push(x);
                proof {
                    crate::intern::lemma_extends_denots(mid_it, *it);
                    crate::intern::lemma_extends_trans(pre_it, mid_it, *it);
                }
            },
            Err(e) => {
                proof {
                    crate::intern::lemma_extends_trans(pre_it, mid_it, *it);
                }
                return Err(e);
            },
        }
    }
    Ok(examples)
}

/// Parses the specification clause: a list of examples, optionally
/// followed by `equiv Exp`; with no examples, either a bare `equiv Exp`
/// or a single postcondition expression; an empty clause is the empty
/// example list.
pub fn parse_spec_clause(it: &mut Interner, cs: &mut Cursor) -> (r: Result<Problem, ParseError>)
    requires
        old(it).inv(),
        old(cs).wf(),
    ensures
        final(it).inv(),
        final(it).extends(*old(it)),
        final(cs).advanced(*old(cs)),
        match r {
            Ok(p) => final(it).problem_wf(p),
            Err(e) => syntax_err(e, old(cs).eof as int),
        },
        old(cs).pos == old(cs).len() ==> (r matches Ok(p) && p matches Problem::UIOEs(xs)
            && xs@.len() == 0),
        old(cs).pos < old(cs).len() && old(cs).kind_at(old(cs).pos as int) == TokKind::KwEquiv
            ==> (r matches Ok(p) ==> p is UEquiv),
        old(cs).pos < old(cs).len() && old(cs).kind_at(old(cs).pos as int) == TokKind::LBrack
            ==> (r matches Ok(p) ==> (p is UIOEs || p is UEquiv)),
        old(cs).pos < old(cs).len() && old(cs).kind_at(old(cs).pos as int) != TokKind::KwEquiv
            && old(cs).kind_at(old(cs).pos as int) != TokKind::LBrack ==> (r matches Ok(p) ==> p
            is UPost),
        lone_int_at(*old(cs), old(cs).pos as int) && old(cs).pos + 1 == old(cs).len() ==> (
        r matches Ok(p) && (p matches Problem::UPost(e) && final(it).exp_denot(e)
            == crate::intern::peano_v(old(cs).toks@[old(cs).pos as int].val as nat))
            && final(cs).pos == old(cs).pos + 1),
        lone_unit_at(*old(cs), old(cs).pos as int) && old(cs).pos + 1 == old(cs).len() ==> (
        r matches Ok(p) && (p matches Problem::UPost(e) && final(it).exp_denot(e) == ExpV::Tuple(
            Seq::empty(),
        )) && final(cs).pos == old(cs).pos + 1),
        forall|j: int|
            lone_app_at(*old(cs), old(cs).pos as int, j) && j == old(cs).len() ==> (r matches Ok(
                p,
            ) && (p matches Problem::UPost(e) && final(it).exp_denot(e) == app_denot(
                *old(cs),
                old(cs).pos as int,
                j,
            )) && final(cs).pos == j),
        example1_shape(*old(cs), old(cs).pos as int) && old(cs).pos + 5 < old(cs).len() && old(cs).kind_at(old(cs).pos + 5) == TokKind::Comma && example2_shape(*old(cs), old(cs).pos + 6)
            && old(cs).pos + 13 == old(cs).len() ==> (r matches Ok(p) && (p matches
        Problem::UIOEs(xs) && xs@.len() == 2 && xs@[0].input@.len() == 1 && final(it).exp_denot(
            xs@[0].input@[0],
        ) == ctor1_v(*old(cs), old(cs).pos + 1) && final(it).exp_denot(xs@[0].output) == ctor1_v(
            *old(cs),
            old(cs).pos + 4,
        ) && xs@[1].input@.len() == 1 && final(it).exp_denot(xs@[1].input@[0]) == ctor2_v(
            *old(cs),
            old(cs).pos + 7,
        ) && final(it).exp_denot(xs@[1].output) == ctor2_v(*old(cs), old(cs).pos + 11))
            && final(cs).pos == old(cs).pos + 13),
        example1_shape(*old(cs), old(cs).pos as int) && old(cs).pos + 6 < old(cs).len() && old(cs).kind_at(old(cs).pos + 5) == TokKind::KwEquiv && old(cs).kind_at(old(cs).pos + 6)
            == TokKind::Lid && old(cs).pos + 7 == old(cs).len() ==> (r matches Ok(p) && (
        p matches Problem::UEquiv(xs, e) && xs@.len() == 1 && xs@[0].input@.len() == 1 && final(it).exp_denot(xs@[0].input@[0]) == ctor1_v(*old(cs), old(cs).pos + 1) && final(it).exp_denot(xs@[0].output) == ctor1_v(*old(cs), old(cs).pos + 4) && final(it).exp_denot(e) == ExpV::Var(old(cs).toks@[old(cs).pos + 6].text@)) && final(cs).pos == old(cs).pos
            + 7),
        old(cs).pos < old(cs).len() && old(cs).kind_at(old(cs).pos as int) == TokKind::KwMatch
            && lone_int_at(*old(cs), old(cs).pos + 1) && old(cs).pos + 2 < old(cs).len() && old(
            cs,
        ).kind_at(old(cs).pos + 2) == TokKind::KwWith && branch_paren_shape(
            *old(cs),
            old(cs).pos + 3,
        ) && old(cs).pos + 9 == old(cs).len() ==> (r matches Ok(p) && (p matches Problem::UPost(
            e,
        ) && final(it).exp_denot(e) == ExpV::Match(
            Box::new(crate::intern::peano_v(old(cs).toks@[old(cs).pos + 1].val as nat)),
            seq![
                (
                    PatternV::Var(old(cs).toks@[old(cs).pos + 5].text@),
                    crate::intern::peano_v(old(cs).toks@[old(cs).pos + 8].val as nat),
                ),
            ],
        )) && final(cs).pos == old(cs).pos + 9),
    decreases old(cs).len() - old(cs).pos, 8int,
{
    let ghost pre_it = *it;
    if cs.at_end() {
        let examples: Vec<Example> = Vec::new();
        return Ok(Problem::UIOEs(examples));
    }
    if cs.peek_is(TokKind::KwEquiv) {
        cs.bump();
        let reference = parse_exp(it, cs);
        let examples: Vec<Example> = Vec::new();
        return match reference {
            Ok(e) => Ok(Problem::UEquiv(examples, e)),
            Err(e) => Err(e),
        };
    }
    if cs.peek_is(TokKind::LBrack) {
        let examples = parse_example_list(it, cs);
        let xs = match examples {
            Ok(xs) => xs,
            Err(e) => {
                return Err(e);
            },
        };
        if cs.peek_is(TokKind::KwEquiv) {
            cs.bump();
            let ghost mid_it = *it;
            let ghost eq_cs = *cs;
            proof {
                lemma_shapes_same_toks(*old(cs), eq_cs, old(cs).pos + 6, old(cs).pos + 7);
                assert(var_args(*old(cs), old(cs).pos + 7, old(cs).pos + 7)
                    =~= Seq::<ExpV>::empty());
            }
            let reference = parse_exp(it, cs);
            return match reference {
                Ok(e) => {
                    proof {
                        crate::intern::lemma_extends_denots(mid_it, *it);
                        crate::intern::lemma_extends_trans(pre_it, mid_it, *it);
                    }
                    Ok(Problem::UEquiv(xs, e))
                },
                Err(e) => {
                    proof {
                        crate::intern::lemma_extends_trans(pre_it, mid_it, *it);
                    }
                    Err(e)
                },
            };
        }
        return Ok(Problem::UIOEs(xs));
    }
    if !starts_exp(cs.peek_kind()) {
        return Err(cs.err_here(expected_spec()));
    }
    let post = parse_exp(it, cs);
    match post {
        Ok(e) => Ok(Problem::UPost(e)),
        Err(e) => Err(e),
    }
}

/// The cursor stands at the start of `synth <name> <tok>` where `<name>`
/// is a bare type name and `<tok>` is not the keyword that must follow the
/// goal type: the parse is owed the syntax error at `<tok>` expecting
/// exactly that keyword.
pub open spec fn missing_satisfying_shape(cs: Cursor) -> bool {
    &&& cs.pos == 0
    &&& cs.len() >= 3
    &&& cs.kind_at(0) == TokKind::KwSynth
    &&& lone_name_at(cs, 1)
    &&& cs.kind_at(2) != TokKind::KwSatisfying
}

/// Every token-shape predicate reads only the token list, so it carries
/// over between cursors that share one.
pub proof fn lemma_shapes_same_toks(a: Cursor, b: Cursor, i: int, j: int)
    requires
        a.toks == b.toks,
    ensures
        app_shape(a, i, j) == app_shape(b, i, j),
        lone_app_at(a, i, j) == lone_app_at(b, i, j),
        plain_app_at(a, i, j) == plain_app_at(b, i, j),
        lone_int_at(a, i) == lone_int_at(b, i),
        lone_unit_at(a, i) == lone_unit_at(b, i),
        lone_name_at(a, i) == lone_name_at(b, i),
        arrow2_at(a, i) == arrow2_at(b, i),
        arrow3_at(a, i) == arrow3_at(b, i),
        app_denot(a, i, j) == app_denot(b, i, j),
{
    assert(app_shape(a, i, j) == app_shape(b, i, j)) by {
        if app_shape(a, i, j) {
            assert forall|k: int| i < k < j implies b.kind_at(k) == TokKind::Lid by {
                assert(a.kind_at(k) == TokKind::Lid);
            }
        }
        if app_shape(b, i, j) {
            assert forall|k: int| i < k < j implies a.kind_at(k) == TokKind::Lid by {
                assert(b.kind_at(k) == TokKind::Lid);
            }
        }
    }
    lemma_var_args_same_toks(a, b, i + 1, j);
}

pub proof fn lemma_var_args_same_toks(a: Cursor, b: Cursor, i: int, j: int)
    requires
        a.toks == b.toks,
    ensures
        var_args(a, i, j) == var_args(b, i, j),
    decreases j - i,
{
    if i < j {
        lemma_var_args_same_toks(a, b, i, j - 1);
    }
}

/// What a whole-problem parse owes on a token list, read from its front.
/// Over the covered token shapes the result is pinned exactly: a bare
/// goal type with an empty clause, with a postcondition variable
/// application, an integer literal or the unit value, a right-nested
/// arrow goal type, an example list with and without a trailing `equiv`
/// reference (examples and their inputs in source order), a match whose
/// parenthesized single-variable pattern collapses to the variable, the
/// clause kind by its leading token, the imports as exactly the leading
/// quoted import run, the missing-`satisfying` syntax error, and the
/// error classification in general.
pub open spec fn problem_outcome(
    cs0: Cursor,
    post: Interner,
    r: Result<SynthProblem, ParseError>,
) -> bool {
    &&& (r matches Err(e) ==> (e is ExtraToken || syntax_err(e, cs0.eof as int)) && 0 <= e
        .spec_offset() <= cs0.eof)
    &&& (cs0.len() > 0 && cs0.kind_at(0) == TokKind::KwSynth ==> (r matches Ok(sp) ==> sp
        .imports@.len() == 0 && sp.decls@.len() == 0))
    &&& (({
        let j = include_run_end(cs0, 0);
        !(j < cs0.len() && cs0.kind_at(j) == TokKind::KwInclude)
    }) ==> (r matches Ok(sp) ==> sp.imports@.map_values(|t: String| t@) == include_texts(
        cs0,
        0,
    )))
    &&& (cs0.len() == 3 && cs0.kind_at(0) == TokKind::KwSynth && cs0.kind_at(1) == TokKind::Lid
        && cs0.kind_at(2) == TokKind::KwSatisfying ==> (r matches Ok(sp) && post.ty_denot(
        sp.synth_type,
    ) == TypeV::Named(cs0.toks@[1].text@) && (sp.spec_clause matches Problem::UIOEs(xs) && xs@
        .len() == 0) && sp.imports@.len() == 0 && sp.decls@.len() == 0))
    &&& (missing_satisfying_shape(cs0) ==> (r matches Err(e) && (e matches
    ParseError::UnrecognizedToken { start, end, kind, expected } && start == cs0.toks@[2].start
        && end == cs0.toks@[2].end && kind == cs0.toks@[2].kind && expected@ == seq![
        TokKind::KwSatisfying,
    ])))
    &&& (cs0.len() == 6 && cs0.kind_at(0) == TokKind::KwSynth && lone_name_at(cs0, 1)
        && cs0.kind_at(2) == TokKind::KwSatisfying && cs0.kind_at(3) == TokKind::Lid
        && cs0.kind_at(4) == TokKind::Lid && cs0.kind_at(5) == TokKind::Lid ==> (r matches Ok(sp)
        && post.ty_denot(sp.synth_type) == TypeV::Named(cs0.toks@[1].text@) && (sp.spec_clause
        matches Problem::UPost(e) && post.exp_denot(e) == app_denot(cs0, 3, 6))))
    &&& (cs0.len() == 4 && cs0.kind_at(0) == TokKind::KwSynth && lone_name_at(cs0, 1)
        && cs0.kind_at(2) == TokKind::KwSatisfying && lone_int_at(cs0, 3) ==> (r matches Ok(sp)
        && post.ty_denot(sp.synth_type) == TypeV::Named(cs0.toks@[1].text@) && (sp.spec_clause
        matches Problem::UPost(e) && post.exp_denot(e) == crate::intern::peano_v(
        cs0.toks@[3].val as nat,
    ))))
    &&& (cs0.len() == 4 && cs0.kind_at(0) == TokKind::KwSynth && lone_name_at(cs0, 1)
        && cs0.kind_at(2) == TokKind::KwSatisfying && lone_unit_at(cs0, 3) ==> (r matches Ok(sp)
        && post.ty_denot(sp.synth_type) == TypeV::Named(cs0.toks@[1].text@) && (sp.spec_clause
        matches Problem::UPost(e) && post.exp_denot(e) == ExpV::Tuple(Seq::empty()))))
    &&& (cs0.len() == 18 && cs0.kind_at(0) == TokKind::KwSynth && arrow2_at(cs0, 1)
        && cs0.kind_at(4) == TokKind::KwSatisfying && example1_shape(cs0, 5) && cs0.kind_at(10)
        == TokKind::Comma && example2_shape(cs0, 11) ==> (r matches Ok(sp) && post.ty_denot(
        sp.synth_type,
    ) == TypeV::Arrow(
        Box::new(TypeV::Named(cs0.toks@[1].text@)),
        Box::new(TypeV::Named(cs0.toks@[3].text@)),
    ) && (sp.spec_clause matches Problem::UIOEs(xs) && xs@.len() == 2 && xs@[0].input@.len() == 1
        && post.exp_denot(xs@[0].input@[0]) == ctor1_v(cs0, 6) && post.exp_denot(xs@[0].output)
        == ctor1_v(cs0, 9) && xs@[1].input@.len() == 1 && post.exp_denot(xs@[1].input@[0])
        == ctor2_v(cs0, 12) && post.exp_denot(xs@[1].output) == ctor2_v(cs0, 16)) && sp
        .imports@.len() == 0 && sp.decls@.len() == 0))
    &&& (cs0.len() == 10 && cs0.kind_at(0) == TokKind::KwSynth && lone_name_at(cs0, 1)
        && cs0.kind_at(2) == TokKind::KwSatisfying && example1_shape(cs0, 3) && cs0.kind_at(8)
        == TokKind::KwEquiv && cs0.kind_at(9) == TokKind::Lid ==> (r matches Ok(sp) && post
        .ty_denot(sp.synth_type) == TypeV::Named(cs0.toks@[1].text@) && (sp.spec_clause matches
    Problem::UEquiv(xs, e) && xs@.len() == 1 && xs@[0].input@.len() == 1 && post.exp_denot(
        xs@[0].input@[0],
    ) == ctor1_v(cs0, 4) && post.exp_denot(xs@[0].output) == ctor1_v(cs0, 7) && post.exp_denot(e)
        == ExpV::Var(cs0.toks@[9].text@)) && sp.imports@.len() == 0 && sp.decls@.len() == 0))
    &&& (cs0.len() > 3 && cs0.kind_at(0) == TokKind::KwSynth && lone_name_at(cs0, 1)
        && cs0.kind_at(2) == TokKind::KwSatisfying ==> (r matches Ok(sp) ==> {
        &&& (cs0.kind_at(3) == TokKind::LBrack ==> (sp.spec_clause is UIOEs || sp.spec_clause
            is UEquiv))
        &&& (cs0.kind_at(3) == TokKind::KwEquiv ==> sp.spec_clause is UEquiv)
        &&& (cs0.kind_at(3) != TokKind::LBrack && cs0.kind_at(3) != TokKind::KwEquiv ==> sp
            .spec_clause is UPost)
    }))
    &&& (cs0.len() == 12 && cs0.kind_at(0) == TokKind::KwSynth && lone_name_at(cs0, 1)
        && cs0.kind_at(2) == TokKind::KwSatisfying && cs0.kind_at(3) == TokKind::KwMatch
        && lone_int_at(cs0, 4) && cs0.kind_at(5) == TokKind::KwWith && branch_paren_shape(cs0, 6)
        ==> (r matches Ok(sp) && post.ty_denot(sp.synth_type) == TypeV::Named(cs0.toks@[1].text@)
        && (sp.spec_clause matches Problem::UPost(e) && post.exp_denot(e) == ExpV::Match(
        Box::new(crate::intern::peano_v(cs0.toks@[4].val as nat)),
        seq![
            (
                PatternV::Var(cs0.toks@[8].text@),
                crate::intern::peano_v(cs0.toks@[11].val as nat),
            ),
        ],
    ))))
    &&& (cs0.len() == 8 && cs0.kind_at(0) == TokKind::KwSynth && arrow3_at(cs0, 1)
        && cs0.kind_at(6) == TokKind::KwSatisfying && cs0.kind_at(7) == TokKind::Lid ==> (
    r matches Ok(sp) && post.ty_denot(sp.synth_type) == TypeV::Arrow(
        Box::new(TypeV::Named(cs0.toks@[1].text@)),
        Box::new(
            TypeV::Arrow(
                Box::new(TypeV::Named(cs0.toks@[3].text@)),
                Box::new(TypeV::Named(cs0.toks@[5].text@)),
            ),
        ),
    ) && (sp.spec_clause matches Problem::UPost(e) && post.exp_denot(e) == app_denot(cs0, 7, 8))))
}

/// The result of lexing a source text failed.
pub open spec fn lex_failed<T>(r: Result<T, ParseError>) -> bool {
    match r {
        Err(e) => e is LexError,
        _ => false,
    }
}

/// The cursor holds the complete tokenization of `s` and the result obeys
/// `problem_outcome` over it.
pub open spec fn lexed_outcome(
    cs0: Cursor,
    s: Seq<char>,
    post: Interner,
    r: Result<SynthProblem, ParseError>,
) -> bool {
    &&& cs0.pos == 0
    &&& cs0.eof as int == s.len() as int
    &&& tokens_tile(s, cs0.toks@, s.len() as int)
    &&& problem_outcome(cs0, post, r)
}

/// Parses a whole problem: imports, declarations, `synth` with the goal
/// type, and `satisfying` with the specification clause; any input left
/// after that is an `ExtraToken` error.
#[verifier::rlimit(100)]
pub fn parse_problem(it: &mut Interner, cs: &mut Cursor) -> (r: Result<SynthProblem, ParseError>)
    requires
        old(it).inv(),
        old(cs).wf(),
    ensures
        final(it).inv(),
        final(it).extends(*old(it)),
        final(cs).advanced(*old(cs)),
        match r {
            Ok(sp) => final(it).synth_problem_wf(sp) && final(cs).pos == final(cs).len(),
            Err(e) => (e is ExtraToken || syntax_err(e, old(cs).eof as int)) && 0 <= e
                .spec_offset() <= old(cs).eof,
        },
        old(cs).pos == 0 ==> problem_outcome(*old(cs), *final(it), r),
        old(cs).pos < old(cs).len() && old(cs).kind_at(old(cs).pos as int) == TokKind::KwSynth
            ==> (r matches Ok(sp) ==> sp.imports@.len() == 0 && sp.decls@.len() == 0),
    decreases old(cs).len() - old(cs).pos, 9int,
{
    let ghost pre_it = *it;
    let includes = parse_includes(cs);
    let imports = match includes {
        Ok(v) => v,
        Err(e) => {
            return Err(e);
        },
    };
    let declarations = parse_decls(it, cs);
    let decls = match declarations {
        Ok(v) => v,
        Err(e) => {
            return Err(e);
        },
    };
    let synth = cs.expect(TokKind::KwSynth);
    match synth {
        Ok(()) => {},
        Err(e) => {
            return Err(e);
        },
    }
    let ghost s1 = *it;
    let goal = parse_typ(it, cs);
    let synth_type = match goal {
        Ok(t) => t,
        Err(e) => {
            proof {
                crate::intern::lemma_extends_trans(pre_it, s1, *it);
            }
            return Err(e);
        },
    };
    proof {
        crate::intern::lemma_extends_trans(pre_it, s1, *it);
    }
    let satisfying = cs.expect(TokKind::KwSatisfying);
    match satisfying {
        Ok(()) => {},
        Err(e) => {
            return Err(e);
        },
    }
    let ghost s2 = *it;
    let ghost spec_cs = *cs;
    proof {
        if old(cs).pos == 0 {
            lemma_shapes_same_toks(*old(cs), spec_cs, 3, 6);
            lemma_shapes_same_toks(*old(cs), spec_cs, 7, 8);
            lemma_shapes_same_toks(*old(cs), spec_cs, 3, 4);
        }
    }
    let clause = parse_spec_clause(it, cs);
    let spec_clause = match clause {
        Ok(p) => p,
        Err(e) => {
            proof {
                crate::intern::lemma_extends_trans(pre_it, s2, *it);
            }
            return Err(e);
        },
    };
    proof {
        crate::intern::lemma_extends_denots(s2, *it);
        crate::intern::lemma_extends_trans(pre_it, s2, *it);
    }
    if !cs.at_end() {
        let start = cs.peek_start();
        let end = cs.peek_end();
        let kind = cs.peek_kind();
        return Err(ParseError::extra(start, end, kind));
    }
    Ok(SynthProblem { imports, decls, synth_type, spec_clause })
}

/// Parses a standalone run of declarations: the form in which the
/// include-resolution collaborator hands back the content of an imported
/// file, to be interned in the same session. Input after the last
/// declaration is an `ExtraToken` error.
/// Lexes a whole source into a fresh cursor over its complete token
/// sequence.
fn lex_to_cursor(input: &str) -> (r: Result<Cursor, ParseError>)
    ensures
        match r {
            Ok(cs0) => cs0.wf() && cs0.pos == 0 && cs0.eof as int == input@.len() as int
                && tokens_tile(input@, cs0.toks@, input@.len() as int),
            Err(e) => lex_stuck_at(input@, e),
        },
{
    let lexed = tokenize(input);
    match lexed {
        Ok(toks) => {
            let n = input.unicode_len();
            proof {
                assert forall|k: int| 0 <= k < toks@.len() implies (#[trigger] toks@[k]).wf(
                    n as int,
                ) by {
                    assert(token_matches(input@, toks@[k]));
                }
            }
            Ok(Cursor::new(toks, n))
        },
        Err(e) => Err(e),
    }
}

/// Parses a standalone run of declarations from source text. Input that is
/// only trivia yields the empty list; anything after the run is an
/// `ExtraToken` error; unless lexing itself failed, the whole input lexes.
#[verifier::rlimit(60)]
pub fn parse_decls_text(it: &mut Interner, input: &str) -> (r: Result<
    Vec<Declaration>,
    ParseError,
>)
    requires
        old(it).inv(),
    ensures
        final(it).inv(),
        final(it).extends(*old(it)),
        r matches Ok(ds) ==> final(it).decls_wf(ds@),
        lex_failed(r) ==> (r matches Err(e) && lex_stuck_at(input@, e)),
        !lex_failed(r) ==> exists|toks: Seq<Token>|
            tokens_tile(input@, toks, input@.len() as int),
        input@.len() == 0 ==> (r matches Ok(ds) && ds@.len() == 0),
{
    let lexed = lex_to_cursor(input);
    let mut cs = match lexed {
        Ok(cs0) => cs0,
        Err(e) => {
            proof {
                assert(it.ty_nodes().subrange(0, it.ty_nodes().len() as int) =~= it.ty_nodes());
                assert(it.exp_nodes().subrange(0, it.exp_nodes().len() as int) =~= it
                    .exp_nodes());
            }
            return Err(e);
        },
    };
    proof {
        if cs.toks@.len() > 0 {
            assert(token_matches(input@, cs.toks@[0]));
        }
    }
    let parsed = parse_decls(it, &mut cs);
    let decls = match parsed {
        Ok(ds) => ds,
        Err(e) => {
            return Err(e);
        },
    };
    if !cs.at_end() {
        let t = &cs.toks[cs.pos];
        return Err(ParseError::extra(t.start, t.end, t.kind));
    }
    Ok(decls)
}

/// The parser for whole problems; it owns the token matcher and is reused
/// across inputs.
pub struct ProblemParser {
    pub builder: MatcherBuilder,
}

impl ProblemParser {
    /// A fresh problem parser. Parsers hold no state of their own, so any
    /// two are equal and interchangeable.
    pub fn new() -> (p: ProblemParser)
        ensures
            p == (ProblemParser { builder: MatcherBuilder {  } }),
    {
        ProblemParser { builder: new_builder() }
    }

    /// Parses source text into a `SynthProblem`, interning every type and
    /// expression in the given session. On failure the first error is
    /// returned and no problem is produced. A lexical failure points at
    /// the first offset where no token pattern matches; otherwise the
    /// input lexes completely to one token sequence over which the result
    /// obeys `problem_outcome`, which pins the result exactly on the
    /// covered token shapes and classifies every error.
    pub fn parse(&self, it: &mut Interner, input: &str) -> (r: Result<SynthProblem, ParseError>)
        requires
            old(it).inv(),
        ensures
            final(it).inv(),
            final(it).extends(*old(it)),
            r matches Ok(sp) ==> final(it).synth_problem_wf(sp),
            lex_failed(r) ==> (r matches Err(e) && lex_stuck_at(input@, e)),
            !lex_failed(r) ==> exists|cs0: Cursor| lexed_outcome(cs0, input@, *final(it), r),
    {
        let lexed = lex_to_cursor(input);
        match lexed {
            Ok(cs0) => {
                let ghost start = cs0;
                let mut cs = cs0;
                let out = parse_problem(it, &mut cs);
                proof {
                    assert(lexed_outcome(start, input@, *it, out));
                }
                out
            },
            Err(e) => {
                proof {
                    assert(it.ty_nodes().subrange(0, it.ty_nodes().len() as int) =~= it
                        .ty_nodes());
                    assert(it.exp_nodes().subrange(0, it.exp_nodes().len() as int) =~= it
                        .exp_nodes());
                }
                Err(e)
            },
        }
    }
}

} // verus!
