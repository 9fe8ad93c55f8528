//! The abstract syntax produced by the parser.
//!
//! `Type` and `Exp` are interned handles: indices into the arenas of an
//! [`crate::intern::Interner`]. `ActualType` and `ActualExp` are the nodes
//! those handles refer to; their children are again handles. Patterns,
//! declarations, examples and problems are plain trees.

use vstd::prelude::*;
use vstd::string::*;

use crate::model::{ExpNodeV, PatternV, TyNodeV};

verus! {

broadcast use vstd::seq::group_seq_axioms, vstd::std_specs::vec::group_vec_axioms;

/// Canonical handle of an interned type; equal handles denote structurally
/// equal types.
#[derive(Clone, Copy, PartialEq, Eq, Structural, PartialOrd, Ord, Hash, Debug)]
pub struct Type {
    pub id: usize,
}

/// Canonical handle of an interned expression.
#[derive(Clone, Copy, PartialEq, Eq, Structural, PartialOrd, Ord, Hash, Debug)]
pub struct Exp {
    pub id: usize,
}

impl View for Type {
    type V = int;

    open spec fn view(&self) -> int {
        self.id as int
    }
}

impl View for Exp {
    type V = int;

    open spec fn view(&self) -> int {
        self.id as int
    }
}

/// A type node; the parser routes every construction through the interner.
#[derive(PartialEq, Eq, PartialOrd, Ord, Hash, Clone, Debug)]
pub enum ActualType {
    Named(String),
    Arrow(Type, Type),
    Tuple(Vec<Type>),
    Mu(String, Type),
    Variant(Vec<(String, Type)>),
}

/// A function or fix-point binder: a name together with its type.
#[derive(PartialEq, Eq, PartialOrd, Ord, Hash, Clone, Debug)]
pub struct Param {
    pub name: String,
    pub ty: Type,
}

/// A match pattern: a plain, non-interned tree.
#[derive(PartialEq, Eq, PartialOrd, Ord, Hash, Debug)]
pub enum Pattern {
    Tuple(Vec<Pattern>),
    Ctor(String, Box<Pattern>),
    Var(String),
    Wildcard,
}

/// An expression node.
#[derive(PartialEq, Eq, PartialOrd, Ord, Hash, Debug)]
pub enum ActualExp {
    Var(String),
    Wildcard,
    App(Exp, Exp),
    Func(Param, Exp),
    CTor(String, Exp),
    Unctor(String, Exp),
    Eq(bool, Exp, Exp),
    Match(Exp, Vec<(Pattern, Exp)>),
    Fix(String, Type, Exp),
    Tuple(Vec<Exp>),
    Proj(u64, Exp),
}

/// A top-level binding: a type alias or a value definition.
#[derive(PartialEq, Eq, Debug)]
pub enum Declaration {
    TypeDecl(String, Type),
    ExpDecl(String, Exp),
}

/// One input/output pair of the specification clause.
#[derive(PartialEq, Eq, Debug)]
pub struct Example {
    pub input: Vec<Exp>,
    pub output: Exp,
}

/// The specification clause: pure examples, examples plus a reference
/// implementation, or a single postcondition expression.
#[derive(PartialEq, Eq, Debug)]
pub enum Problem {
    UIOEs(Vec<Example>),
    UEquiv(Vec<Example>, Exp),
    UPost(Exp),
}

/// The parse result: imports, declarations, the type to synthesize, and
/// the specification clause.
#[derive(PartialEq, Eq, Debug)]
pub struct SynthProblem {
    pub imports: Vec<String>,
    pub decls: Vec<Declaration>,
    pub synth_type: Type,
    pub spec_clause: Problem,
}

pub open spec fn ty_ids(v: Seq<Type>) -> Seq<int> {
    v.map_values(|t: Type| t.id as int)
}

pub open spec fn exp_ids(v: Seq<Exp>) -> Seq<int> {
    v.map_values(|e: Exp| e.id as int)
}

pub open spec fn named_ty_ids(v: Seq<(String, Type)>) -> Seq<(Seq<char>, int)> {
    v.map_values(|c: (String, Type)| (c.0@, c.1.id as int))
}

impl View for ActualType {
    type V = TyNodeV;

    open spec fn view(&self) -> TyNodeV {
        match *self {
            ActualType::Named(ref s) => TyNodeV::Named(s@),
            ActualType::Arrow(a, r) => TyNodeV::Arrow(a.id as int, r.id as int),
            ActualType::Tuple(ref v) => TyNodeV::Tuple(ty_ids(v@)),
            ActualType::Mu(ref x, t) => TyNodeV::Mu(x@, t.id as int),
            ActualType::Variant(ref cs) => TyNodeV::Variant(named_ty_ids(cs@)),
        }
    }
}

/// Deep structural value of a pattern.
pub open spec fn pat_v(p: Pattern) -> PatternV
    decreases p,
{
    match p {
        Pattern::Tuple(v) => PatternV::Tuple(pats_v(v@)),
        Pattern::Ctor(c, q) => PatternV::Ctor(c@, Box::new(pat_v(*q))),
        Pattern::Var(x) => PatternV::Var(x@),
        Pattern::Wildcard => PatternV::Wildcard,
    }
}

pub open spec fn pats_v(s: Seq<Pattern>) -> Seq<PatternV>
    decreases s,
{
    if s.len() == 0 {
        Seq::empty()
    } else {
        pats_v(s.drop_last()).push(pat_v(s.last()))
    }
}

impl View for Pattern {
    type V = PatternV;

    open spec fn view(&self) -> PatternV {
        pat_v(*self)
    }
}

pub open spec fn branches_v(bs: Seq<(Pattern, Exp)>) -> Seq<(PatternV, int)> {
    bs.map_values(|b: (Pattern, Exp)| (pat_v(b.0), b.1.id as int))
}

impl View for ActualExp {
    type V = ExpNodeV;

    open spec fn view(&self) -> ExpNodeV {
        match *self {
            ActualExp::Var(ref s) => ExpNodeV::Var(s@),
            ActualExp::Wildcard => ExpNodeV::Wildcard,
            ActualExp::App(f, a) => ExpNodeV::App(f.id as int, a.id as int),
            ActualExp::Func(ref p, e) => ExpNodeV::Func(p.name@, p.ty.id as int, e.id as int),
            ActualExp::CTor(ref c, e) => ExpNodeV::CTor(c@, e.id as int),
            ActualExp::Unctor(ref c, e) => ExpNodeV::Unctor(c@, e.id as int),
            ActualExp::Eq(pos, a, b) => ExpNodeV::Eq(pos, a.id as int, b.id as int),
            ActualExp::Match(e, ref bs) => ExpNodeV::Match(e.id as int, branches_v(bs@)),
            ActualExp::Fix(ref x, t, e) => ExpNodeV::Fix(x@, t.id as int, e.id as int),
            ActualExp::Tuple(ref v) => ExpNodeV::Tuple(exp_ids(v@)),
            ActualExp::Proj(n, e) => ExpNodeV::Proj(n as int, e.id as int),
        }
    }
}

impl Pattern {
    /// Whether the variable `id` is bound anywhere in this pattern.
    pub open spec fn spec_contains_var(self, id: Seq<char>) -> bool
        decreases self,
    {
        match self {
            Pattern::Tuple(v) => exists|k: int|
                0 <= k < v@.len() && (#[trigger] v@[k]).spec_contains_var(id),
            Pattern::Ctor(_, q) => q.spec_contains_var(id),
            Pattern::Var(x) => x@ == id,
            Pattern::Wildcard => false,
        }
    }

    /// Reports whether the variable `id` occurs in this pattern.
    pub fn contains_var(&self, id: &str) -> (b: bool)
        ensures
            b == self.spec_contains_var(id@),
        decreases *self,
    {
        match self {
            Pattern::Tuple(v) => patterns_contain_var(v, id),
            Pattern::Ctor(_, q) => q.contains_var(id),
            Pattern::Var(x) => {
                let other = id.to_owned();
                *x == other
            },
            Pattern::Wildcard => false,
        }
    }
}

/// Reports whether the variable `id` occurs in any pattern of the list.
pub fn patterns_contain_var(v: &Vec<Pattern>, id: &str) -> (b: bool)
    ensures
        b == exists|k: int| 0 <= k < v@.len() && (#[trigger] v@[k]).spec_contains_var(id@),
    decreases *v,
{
    let n = v.len();
    for k in 0..n
        invariant
            n == v@.len(),
            forall|m: int| 0 <= m < k ==> !(#[trigger] v@[m]).spec_contains_var(id@),
    {
        proof {
            assert(decreases_to!(*v => v@[k as int]));
        }
        if v[k].contains_var(id) {
            proof {
                assert(v@[k as int].spec_contains_var(id@));
            }
            return true;
        }
    }
    false
}

/// Rendering of a pattern: elements of a tuple joined by a comma and a
/// space, a constructor and its argument joined by a space, a variable as
/// its name, a wildcard as an underscore.
pub open spec fn pattern_text(p: Pattern) -> Seq<char>
    decreases p,
{
    match p {
        Pattern::Tuple(v) => patterns_text(v@),
        Pattern::Ctor(c, q) => c@ + " "@ + pattern_text(*q),
        Pattern::Var(x) => x@,
        Pattern::Wildcard => "_"@,
    }
}

pub open spec fn patterns_text(s: Seq<Pattern>) -> Seq<char>
    decreases s,
{
    if s.len() == 0 {
        Seq::empty()
    } else if s.len() == 1 {
        pattern_text(s.last())
    } else {
        patterns_text(s.drop_last()) + ", "@ + pattern_text(s.last())
    }
}

impl Pattern {
    /// Renders the pattern as text.
    pub fn to_text(&self) -> (r: String)
        ensures
            r@ == pattern_text(*self),
        decreases *self,
    {
        match self {
            Pattern::Tuple(v) => patterns_to_text(v),
            Pattern::Ctor(c, q) => {
                let mut s = c.clone();
                s.append(" ");
                let sub = q.to_text();
                s.append(sub.as_str());
                proof {
                    assert(s@ =~= c@ + " "@ + pattern_text(*(*q)));
                }
                s
            },
            Pattern::Var(x) => x.clone(),
            Pattern::Wildcard => String::from_str("_"),
        }
    }
}

/// Renders a pattern list as text, the elements joined by a comma and a
/// space.
#[verifier::loop_isolation(false)]
pub fn patterns_to_text(v: &Vec<Pattern>) -> (r: String)
    ensures
        r@ == patterns_text(v@),
    decreases *v,
{
    let mut s = String::new();
    let n = v.len();
    proof {
        assert(v@.subrange(0, 0) =~= Seq::<Pattern>::empty());
    }
    for i in 0..n
        invariant
            n == v@.len(),
            s@ == patterns_text(v@.subrange(0, i as int)),
    {
        if i > 0 {
            s.append(", ");
        }
        proof {
            assert(decreases_to!(*v => v@[i as int]));
        }
        let t = v[i].to_text();
        s.append(t.as_str());
        proof {
            let pre = v@.subrange(0, i as int);
            let cur = v@.subrange(0, i + 1 as int);
            assert(cur.drop_last() =~= pre);
            assert(cur.last() == v@[i as int]);
            if i == 0 {
                assert(s@ =~= patterns_text(cur));
            } else {
                assert(s@ =~= patterns_text(pre) + ", "@ + pattern_text(v@[i as int]));
            }
        }
    }
    proof {
        assert(v@.subrange(0, n as int) =~= v@);
    }
    s
}

impl ActualType {
    /// Whether this node is a bare type name.
    pub fn is_named(&self) -> (b: bool)
        ensures
            b == (self@ is Named),
    {
        match self {
            Self::Named(_) => true,
            _ => false,
        }
    }
}

} // verus!
