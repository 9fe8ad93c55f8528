//! Mathematical model of the abstract syntax.
//!
//! `TypeV`, `ExpV` and `PatternV` are the structural values that interned
//! handles denote. `TyNodeV` and `ExpNodeV` are single arena nodes whose
//! children are arena indices; `ty_denot_at` and `exp_denot_at` unfold a
//! node of a well-formed arena into its structural value.

use vstd::prelude::*;

verus! {

broadcast use vstd::seq::group_seq_axioms;

/// Structural value of a type: what a `Type` handle stands for.
pub enum TypeV {
    Named(Seq<char>),
    Arrow(Box<TypeV>, Box<TypeV>),
    Tuple(Seq<TypeV>),
    Mu(Seq<char>, Box<TypeV>),
    Variant(Seq<(Seq<char>, TypeV)>),
}

/// Structural value of a match pattern.
pub enum PatternV {
    Tuple(Seq<PatternV>),
    Ctor(Seq<char>, Box<PatternV>),
    Var(Seq<char>),
    Wildcard,
}

/// Structural value of an expression: what an `Exp` handle stands for.
pub enum ExpV {
    Var(Seq<char>),
    Wildcard,
    App(Box<ExpV>, Box<ExpV>),
    Func(Seq<char>, TypeV, Box<ExpV>),
    CTor(Seq<char>, Box<ExpV>),
    Unctor(Seq<char>, Box<ExpV>),
    Eq(bool, Box<ExpV>, Box<ExpV>),
    Match(Box<ExpV>, Seq<(PatternV, ExpV)>),
    Fix(Seq<char>, TypeV, Box<ExpV>),
    Tuple(Seq<ExpV>),
    Proj(int, Box<ExpV>),
}

/// One type node of the arena; children are indices of earlier nodes.
pub enum TyNodeV {
    Named(Seq<char>),
    Arrow(int, int),
    Tuple(Seq<int>),
    Mu(Seq<char>, int),
    Variant(Seq<(Seq<char>, int)>),
}

/// One expression node of the arena; expression children are indices of
/// earlier expression nodes, type children are indices into the type arena.
pub enum ExpNodeV {
    Var(Seq<char>),
    Wildcard,
    App(int, int),
    Func(Seq<char>, int, int),
    CTor(Seq<char>, int),
    Unctor(Seq<char>, int),
    Eq(bool, int, int),
    Match(int, Seq<(PatternV, int)>),
    Fix(Seq<char>, int, int),
    Tuple(Seq<int>),
    Proj(int, int),
}

pub open spec fn ids_ok(ids: Seq<int>, b: int) -> bool {
    forall|k: int| 0 <= k < ids.len() ==> 0 <= #[trigger] ids[k] < b
}

pub open spec fn named_ids_ok(cs: Seq<(Seq<char>, int)>, b: int) -> bool {
    forall|k: int| 0 <= k < cs.len() ==> 0 <= (#[trigger] cs[k]).1 < b
}

pub open spec fn branch_ids_ok(bs: Seq<(PatternV, int)>, b: int) -> bool {
    forall|k: int| 0 <= k < bs.len() ==> 0 <= (#[trigger] bs[k]).1 < b
}

/// All children of a type node lie below the bound `b`.
pub open spec fn ty_node_wf(n: TyNodeV, b: int) -> bool {
    match n {
        TyNodeV::Named(_) => true,
        TyNodeV::Arrow(a, r) => 0 <= a < b && 0 <= r < b,
        TyNodeV::Tuple(ids) => ids_ok(ids, b),
        TyNodeV::Mu(_, t) => 0 <= t < b,
        TyNodeV::Variant(cs) => named_ids_ok(cs, b),
    }
}

/// All children of an expression node lie below `eb` (expressions) and
/// `tb` (types).
pub open spec fn exp_node_wf(n: ExpNodeV, eb: int, tb: int) -> bool {
    match n {
        ExpNodeV::Var(_) => true,
        ExpNodeV::Wildcard => true,
        ExpNodeV::App(f, a) => 0 <= f < eb && 0 <= a < eb,
        ExpNodeV::Func(_, t, e) => 0 <= t < tb && 0 <= e < eb,
        ExpNodeV::CTor(_, e) => 0 <= e < eb,
        ExpNodeV::Unctor(_, e) => 0 <= e < eb,
        ExpNodeV::Eq(_, a, c) => 0 <= a < eb && 0 <= c < eb,
        ExpNodeV::Match(e, bs) => 0 <= e < eb && branch_ids_ok(bs, eb),
        ExpNodeV::Fix(_, t, e) => 0 <= t < tb && 0 <= e < eb,
        ExpNodeV::Tuple(ids) => ids_ok(ids, eb),
        ExpNodeV::Proj(_, e) => 0 <= e < eb,
    }
}

/// Every node's children stand strictly earlier in the arena.
pub open spec fn ty_arena_wf(ns: Seq<TyNodeV>) -> bool {
    forall|i: int| 0 <= i < ns.len() ==> ty_node_wf(#[trigger] ns[i], i)
}

/// No two arena slots hold the same node: the heart of hash-consing.
pub open spec fn ty_arena_dedup(ns: Seq<TyNodeV>) -> bool {
    forall|i: int, j: int|
        0 <= i < ns.len() && 0 <= j < ns.len() && #[trigger] ns[i] == #[trigger] ns[j] ==> i == j
}

/// Expression children below the node's own index; type children anywhere
/// in the type arena of length `tb`.
pub open spec fn exp_arena_wf(ns: Seq<ExpNodeV>, tb: int) -> bool {
    forall|i: int| 0 <= i < ns.len() ==> exp_node_wf(#[trigger] ns[i], i, tb)
}

pub open spec fn exp_arena_dedup(ns: Seq<ExpNodeV>) -> bool {
    forall|i: int, j: int|
        0 <= i < ns.len() && 0 <= j < ns.len() && #[trigger] ns[i] == #[trigger] ns[j] ==> i == j
}

/// Structural value denoted by arena slot `i`; a filler value is returned
/// outside the well-formed range, which the invariant rules out.
pub open spec fn ty_denot_at(ns: Seq<TyNodeV>, i: int) -> TypeV
    decreases i, 1int, 0int,
{
    if 0 <= i < ns.len() {
        match ns[i] {
            TyNodeV::Named(s) => TypeV::Named(s),
            TyNodeV::Arrow(a, r) => if 0 <= a < i && 0 <= r < i {
                TypeV::Arrow(Box::new(ty_denot_at(ns, a)), Box::new(ty_denot_at(ns, r)))
            } else {
                TypeV::Named(Seq::empty())
            },
            TyNodeV::Tuple(ids) => TypeV::Tuple(ty_denot_list(ns, ids, i)),
            TyNodeV::Mu(x, t) => if 0 <= t < i {
                TypeV::Mu(x, Box::new(ty_denot_at(ns, t)))
            } else {
                TypeV::Named(Seq::empty())
            },
            TyNodeV::Variant(cs) => TypeV::Variant(ty_denot_named(ns, cs, i)),
        }
    } else {
        TypeV::Named(Seq::empty())
    }
}

pub open spec fn ty_denot_list(ns: Seq<TyNodeV>, ids: Seq<int>, b: int) -> Seq<TypeV>
    decreases b, 0int, ids.len(),
{
    if ids.len() == 0 {
        Seq::empty()
    } else {
        ty_denot_list(ns, ids.drop_last(), b).push(
            if 0 <= ids.last() < b {
                ty_denot_at(ns, ids.last())
            } else {
                TypeV::Named(Seq::empty())
            },
        )
    }
}

pub open spec fn ty_denot_named(ns: Seq<TyNodeV>, cs: Seq<(Seq<char>, int)>, b: int) -> Seq<
    (Seq<char>, TypeV),
>
    decreases b, 0int, cs.len(),
{
    if cs.len() == 0 {
        Seq::empty()
    } else {
        ty_denot_named(ns, cs.drop_last(), b).push(
            (
                cs.last().0,
                if 0 <= cs.last().1 < b {
                    ty_denot_at(ns, cs.last().1)
                } else {
                    TypeV::Named(Seq::empty())
                },
            ),
        )
    }
}

/// Structural value denoted by expression slot `i`, reading type children
/// out of `ts`.
pub open spec fn exp_denot_at(ns: Seq<ExpNodeV>, ts: Seq<TyNodeV>, i: int) -> ExpV
    decreases i, 1int, 0int,
{
    if 0 <= i < ns.len() {
        match ns[i] {
            ExpNodeV::Var(s) => ExpV::Var(s),
            ExpNodeV::Wildcard => ExpV::Wildcard,
            ExpNodeV::App(f, a) => if 0 <= f < i && 0 <= a < i {
                ExpV::App(Box::new(exp_denot_at(ns, ts, f)), Box::new(exp_denot_at(ns, ts, a)))
            } else {
                ExpV::Wildcard
            },
            ExpNodeV::Func(x, t, e) => if 0 <= e < i {
                ExpV::Func(x, ty_denot_at(ts, t), Box::new(exp_denot_at(ns, ts, e)))
            } else {
                ExpV::Wildcard
            },
            ExpNodeV::CTor(c, e) => if 0 <= e < i {
                ExpV::CTor(c, Box::new(exp_denot_at(ns, ts, e)))
            } else {
                ExpV::Wildcard
            },
            ExpNodeV::Unctor(c, e) => if 0 <= e < i {
                ExpV::Unctor(c, Box::new(exp_denot_at(ns, ts, e)))
            } else {
                ExpV::Wildcard
            },
            ExpNodeV::Eq(pos, a, c) => if 0 <= a < i && 0 <= c < i {
                ExpV::Eq(pos, Box::new(exp_denot_at(ns, ts, a)), Box::new(exp_denot_at(ns, ts, c)))
            } else {
                ExpV::Wildcard
            },
            ExpNodeV::Match(e, bs) => if 0 <= e < i {
                ExpV::Match(Box::new(exp_denot_at(ns, ts, e)), exp_denot_branches(ns, ts, bs, i))
            } else {
                ExpV::Wildcard
            },
            ExpNodeV::Fix(x, t, e) => if 0 <= e < i {
                ExpV::Fix(x, ty_denot_at(ts, t), Box::new(exp_denot_at(ns, ts, e)))
            } else {
                ExpV::Wildcard
            },
            ExpNodeV::Tuple(ids) => ExpV::Tuple(exp_denot_list(ns, ts, ids, i)),
            ExpNodeV::Proj(n, e) => if 0 <= e < i {
                ExpV::Proj(n, Box::new(exp_denot_at(ns, ts, e)))
            } else {
                ExpV::Wildcard
            },
        }
    } else {
        ExpV::Wildcard
    }
}

pub open spec fn exp_denot_list(ns: Seq<ExpNodeV>, ts: Seq<TyNodeV>, ids: Seq<int>, b: int) -> Seq<
    ExpV,
>
    decreases b, 0int, ids.len(),
{
    if ids.len() == 0 {
        Seq::empty()
    } else {
        exp_denot_list(ns, ts, ids.drop_last(), b).push(
            if 0 <= ids.last() < b {
                exp_denot_at(ns, ts, ids.last())
            } else {
                ExpV::Wildcard
            },
        )
    }
}

pub open spec fn exp_denot_branches(
    ns: Seq<ExpNodeV>,
    ts: Seq<TyNodeV>,
    bs: Seq<(PatternV, int)>,
    b: int,
) -> Seq<(PatternV, ExpV)>
    decreases b, 0int, bs.len(),
{
    if bs.len() == 0 {
        Seq::empty()
    } else {
        exp_denot_branches(ns, ts, bs.drop_last(), b).push(
            (
                bs.last().0,
                if 0 <= bs.last().1 < b {
                    exp_denot_at(ns, ts, bs.last().1)
                } else {
                    ExpV::Wildcard
                },
            ),
        )
    }
}

/// Growing the arena never changes what an existing slot denotes.
pub proof fn lemma_ty_denot_prefix(ns1: Seq<TyNodeV>, ns2: Seq<TyNodeV>, i: int)
    requires
        ns1.is_prefix_of(ns2),
        0 <= i < ns1.len(),
    ensures
        ty_denot_at(ns2, i) == ty_denot_at(ns1, i),
    decreases i, 1int, 0int,
{
    assert(ns1[i] == ns2[i]);
    match ns1[i] {
        TyNodeV::Named(_) => {},
        TyNodeV::Arrow(a, r) => {
            if 0 <= a < i && 0 <= r < i {
                lemma_ty_denot_prefix(ns1, ns2, a);
                lemma_ty_denot_prefix(ns1, ns2, r);
            }
        },
        TyNodeV::Tuple(ids) => {
            lemma_ty_denot_list_prefix(ns1, ns2, ids, i);
        },
        TyNodeV::Mu(_, t) => {
            if 0 <= t < i {
                lemma_ty_denot_prefix(ns1, ns2, t);
            }
        },
        TyNodeV::Variant(cs) => {
            lemma_ty_denot_named_prefix(ns1, ns2, cs, i);
        },
    }
}

pub proof fn lemma_ty_denot_list_prefix(
    ns1: Seq<TyNodeV>,
    ns2: Seq<TyNodeV>,
    ids: Seq<int>,
    b: int,
)
    requires
        ns1.is_prefix_of(ns2),
        0 <= b <= ns1.len(),
    ensures
        ty_denot_list(ns2, ids, b) == ty_denot_list(ns1, ids, b),
    decreases b, 0int, ids.len(),
{
    if ids.len() > 0 {
        lemma_ty_denot_list_prefix(ns1, ns2, ids.drop_last(), b);
        if 0 <= ids.last() < b {
            lemma_ty_denot_prefix(ns1, ns2, ids.last());
        }
    }
}

pub proof fn lemma_ty_denot_named_prefix(
    ns1: Seq<TyNodeV>,
    ns2: Seq<TyNodeV>,
    cs: Seq<(Seq<char>, int)>,
    b: int,
)
    requires
        ns1.is_prefix_of(ns2),
        0 <= b <= ns1.len(),
    ensures
        ty_denot_named(ns2, cs, b) == ty_denot_named(ns1, cs, b),
    decreases b, 0int, cs.len(),
{
    if cs.len() > 0 {
        lemma_ty_denot_named_prefix(ns1, ns2, cs.drop_last(), b);
        if 0 <= cs.last().1 < b {
            lemma_ty_denot_prefix(ns1, ns2, cs.last().1);
        }
    }
}

/// Growing either arena never changes what an existing expression slot
/// denotes.
pub proof fn lemma_exp_denot_prefix(
    ns1: Seq<ExpNodeV>,
    ns2: Seq<ExpNodeV>,
    ts1: Seq<TyNodeV>,
    ts2: Seq<TyNodeV>,
    i: int,
)
    requires
        ns1.is_prefix_of(ns2),
        ts1.is_prefix_of(ts2),
        0 <= i < ns1.len(),
        exp_arena_wf(ns1, ts1.len() as int),
    ensures
        exp_denot_at(ns2, ts2, i) == exp_denot_at(ns1, ts1, i),
    decreases i, 1int, 0int,
{
    assert(ns1[i] == ns2[i]);
    assert(exp_node_wf(ns1[i], i, ts1.len() as int));
    match ns1[i] {
        ExpNodeV::Var(_) => {},
        ExpNodeV::Wildcard => {},
        ExpNodeV::App(f, a) => {
            if 0 <= f < i && 0 <= a < i {
                lemma_exp_denot_prefix(ns1, ns2, ts1, ts2, f);
                lemma_exp_denot_prefix(ns1, ns2, ts1, ts2, a);
            }
        },
        ExpNodeV::Func(_, t, e) => {
            if 0 <= e < i {
                lemma_ty_denot_prefix(ts1, ts2, t);
                lemma_exp_denot_prefix(ns1, ns2, ts1, ts2, e);
            }
        },
        ExpNodeV::CTor(_, e) => {
            if 0 <= e < i {
                lemma_exp_denot_prefix(ns1, ns2, ts1, ts2, e);
            }
        },
        ExpNodeV::Unctor(_, e) => {
            if 0 <= e < i {
                lemma_exp_denot_prefix(ns1, ns2, ts1, ts2, e);
            }
        },
        ExpNodeV::Eq(_, a, c) => {
            if 0 <= a < i && 0 <= c < i {
                lemma_exp_denot_prefix(ns1, ns2, ts1, ts2, a);
                lemma_exp_denot_prefix(ns1, ns2, ts1, ts2, c);
            }
        },
        ExpNodeV::Match(e, bs) => {
            if 0 <= e < i {
                lemma_exp_denot_prefix(ns1, ns2, ts1, ts2, e);
                lemma_exp_denot_branches_prefix(ns1, ns2, ts1, ts2, bs, i);
            }
        },
        ExpNodeV::Fix(_, t, e) => {
            if 0 <= e < i {
                lemma_ty_denot_prefix(ts1, ts2, t);
                lemma_exp_denot_prefix(ns1, ns2, ts1, ts2, e);
            }
        },
        ExpNodeV::Tuple(ids) => {
            lemma_exp_denot_list_prefix(ns1, ns2, ts1, ts2, ids, i);
        },
        ExpNodeV::Proj(_, e) => {
            if 0 <= e < i {
                lemma_exp_denot_prefix(ns1, ns2, ts1, ts2, e);
            }
        },
    }
}

pub proof fn lemma_exp_denot_list_prefix(
    ns1: Seq<ExpNodeV>,
    ns2: Seq<ExpNodeV>,
    ts1: Seq<TyNodeV>,
    ts2: Seq<TyNodeV>,
    ids: Seq<int>,
    b: int,
)
    requires
        ns1.is_prefix_of(ns2),
        ts1.is_prefix_of(ts2),
        0 <= b <= ns1.len(),
        exp_arena_wf(ns1, ts1.len() as int),
    ensures
        exp_denot_list(ns2, ts2, ids, b) == exp_denot_list(ns1, ts1, ids, b),
    decreases b, 0int, ids.len(),
{
    if ids.len() > 0 {
        lemma_exp_denot_list_prefix(ns1, ns2, ts1, ts2, ids.drop_last(), b);
        if 0 <= ids.last() < b {
            lemma_exp_denot_prefix(ns1, ns2, ts1, ts2, ids.last());
        }
    }
}

pub proof fn lemma_exp_denot_branches_prefix(
    ns1: Seq<ExpNodeV>,
    ns2: Seq<ExpNodeV>,
    ts1: Seq<TyNodeV>,
    ts2: Seq<TyNodeV>,
    bs: Seq<(PatternV, int)>,
    b: int,
)
    requires
        ns1.is_prefix_of(ns2),
        ts1.is_prefix_of(ts2),
        0 <= b <= ns1.len(),
        exp_arena_wf(ns1, ts1.len() as int),
    ensures
        exp_denot_branches(ns2, ts2, bs, b) == exp_denot_branches(ns1, ts1, bs, b),
    decreases b, 0int, bs.len(),
{
    if bs.len() > 0 {
        lemma_exp_denot_branches_prefix(ns1, ns2, ts1, ts2, bs.drop_last(), b);
        if 0 <= bs.last().1 < b {
            lemma_exp_denot_prefix(ns1, ns2, ts1, ts2, bs.last().1);
        }
    }
}

/// With all indices in range, the list denotation is the elementwise one.
pub proof fn lemma_ty_denot_list_map(ns: Seq<TyNodeV>, ids: Seq<int>, b: int)
    requires
        ids_ok(ids, b),
    ensures
        ty_denot_list(ns, ids, b) == ids.map_values(|c: int| ty_denot_at(ns, c)),
    decreases ids.len(),
{
    if ids.len() == 0 {
        assert(ty_denot_list(ns, ids, b) =~= ids.map_values(|c: int| ty_denot_at(ns, c)));
    } else {
        assert(ids_ok(ids.drop_last(), b));
        lemma_ty_denot_list_map(ns, ids.drop_last(), b);
        assert(ids[ids.len() - 1] == ids.last());
        assert(ty_denot_list(ns, ids, b) =~= ids.map_values(|c: int| ty_denot_at(ns, c)));
    }
}

pub proof fn lemma_ty_denot_named_map(ns: Seq<TyNodeV>, cs: Seq<(Seq<char>, int)>, b: int)
    requires
        named_ids_ok(cs, b),
    ensures
        ty_denot_named(ns, cs, b) == cs.map_values(
            |c: (Seq<char>, int)| (c.0, ty_denot_at(ns, c.1)),
        ),
    decreases cs.len(),
{
    let f = |c: (Seq<char>, int)| (c.0, ty_denot_at(ns, c.1));
    if cs.len() == 0 {
        assert(ty_denot_named(ns, cs, b) =~= cs.map_values(f));
    } else {
        assert(named_ids_ok(cs.drop_last(), b));
        lemma_ty_denot_named_map(ns, cs.drop_last(), b);
        assert(cs[cs.len() - 1] == cs.last());
        assert(ty_denot_named(ns, cs, b) =~= cs.map_values(f));
    }
}

pub proof fn lemma_exp_denot_list_map(ns: Seq<ExpNodeV>, ts: Seq<TyNodeV>, ids: Seq<int>, b: int)
    requires
        ids_ok(ids, b),
    ensures
        exp_denot_list(ns, ts, ids, b) == ids.map_values(|c: int| exp_denot_at(ns, ts, c)),
    decreases ids.len(),
{
    if ids.len() == 0 {
        assert(exp_denot_list(ns, ts, ids, b) =~= ids.map_values(
            |c: int| exp_denot_at(ns, ts, c),
        ));
    } else {
        assert(ids_ok(ids.drop_last(), b));
        lemma_exp_denot_list_map(ns, ts, ids.drop_last(), b);
        assert(ids[ids.len() - 1] == ids.last());
        assert(exp_denot_list(ns, ts, ids, b) =~= ids.map_values(
            |c: int| exp_denot_at(ns, ts, c),
        ));
    }
}

pub proof fn lemma_exp_denot_branches_map(
    ns: Seq<ExpNodeV>,
    ts: Seq<TyNodeV>,
    bs: Seq<(PatternV, int)>,
    b: int,
)
    requires
        branch_ids_ok(bs, b),
    ensures
        exp_denot_branches(ns, ts, bs, b) == bs.map_values(
            |c: (PatternV, int)| (c.0, exp_denot_at(ns, ts, c.1)),
        ),
    decreases bs.len(),
{
    let f = |c: (PatternV, int)| (c.0, exp_denot_at(ns, ts, c.1));
    if bs.len() == 0 {
        assert(exp_denot_branches(ns, ts, bs, b) =~= bs.map_values(f));
    } else {
        assert(branch_ids_ok(bs.drop_last(), b));
        lemma_exp_denot_branches_map(ns, ts, bs.drop_last(), b);
        assert(bs[bs.len() - 1] == bs.last());
        assert(exp_denot_branches(ns, ts, bs, b) =~= bs.map_values(f));
    }
}

/// In a well-formed, duplicate-free arena, slots with equal structural
/// values are the same slot: hash-consing makes handle equality coincide
/// with structural equality.
pub proof fn lemma_ty_denot_injective(ns: Seq<TyNodeV>, i: int, j: int)
    requires
        ty_arena_wf(ns),
        ty_arena_dedup(ns),
        0 <= i < ns.len(),
        0 <= j < ns.len(),
        ty_denot_at(ns, i) == ty_denot_at(ns, j),
    ensures
        i == j,
    decreases i + j, 1int, 0int,
{
    assert(ty_node_wf(ns[i], i));
    assert(ty_node_wf(ns[j], j));
    match (ns[i], ns[j]) {
        (TyNodeV::Named(s1), TyNodeV::Named(s2)) => {
            assert(ns[i] == ns[j]);
        },
        (TyNodeV::Arrow(a1, r1), TyNodeV::Arrow(a2, r2)) => {
            lemma_ty_denot_injective(ns, a1, a2);
            lemma_ty_denot_injective(ns, r1, r2);
            assert(ns[i] == ns[j]);
        },
        (TyNodeV::Tuple(ids1), TyNodeV::Tuple(ids2)) => {
            lemma_ty_denot_list_injective(ns, ids1, i, ids2, j);
            assert(ns[i] == ns[j]);
        },
        (TyNodeV::Mu(x1, t1), TyNodeV::Mu(x2, t2)) => {
            lemma_ty_denot_injective(ns, t1, t2);
            assert(ns[i] == ns[j]);
        },
        (TyNodeV::Variant(cs1), TyNodeV::Variant(cs2)) => {
            lemma_ty_denot_named_injective(ns, cs1, i, cs2, j);
            assert(ns[i] == ns[j]);
        },
        _ => {},
    }
}

pub proof fn lemma_ty_denot_list_injective(
    ns: Seq<TyNodeV>,
    ids1: Seq<int>,
    b1: int,
    ids2: Seq<int>,
    b2: int,
)
    requires
        ty_arena_wf(ns),
        ty_arena_dedup(ns),
        0 <= b1 <= ns.len(),
        0 <= b2 <= ns.len(),
        ids_ok(ids1, b1),
        ids_ok(ids2, b2),
        ty_denot_list(ns, ids1, b1) == ty_denot_list(ns, ids2, b2),
    ensures
        ids1 == ids2,
    decreases b1 + b2, 0int, ids1.len(),
{
    let l1 = ty_denot_list(ns, ids1, b1);
    let l2 = ty_denot_list(ns, ids2, b2);
    lemma_ty_denot_list_len(ns, ids1, b1);
    lemma_ty_denot_list_len(ns, ids2, b2);
    if ids1.len() == 0 {
        assert(ids1 =~= ids2);
    } else {
        assert(ids1[ids1.len() - 1] == ids1.last());
        assert(ids2[ids2.len() - 1] == ids2.last());
        assert(l1.last() == l2.last());
        lemma_ty_denot_injective(ns, ids1.last(), ids2.last());
        assert(l1.drop_last() =~= ty_denot_list(ns, ids1.drop_last(), b1));
        assert(l2.drop_last() =~= ty_denot_list(ns, ids2.drop_last(), b2));
        assert(ids_ok(ids1.drop_last(), b1));
        assert(ids_ok(ids2.drop_last(), b2));
        lemma_ty_denot_list_injective(ns, ids1.drop_last(), b1, ids2.drop_last(), b2);
        assert forall|k: int| 0 <= k < ids1.len() implies ids1[k] == ids2[k] by {
            if k < ids1.len() - 1 {
                assert(ids1.drop_last()[k] == ids1[k]);
                assert(ids2.drop_last()[k] == ids2[k]);
            }
        }
        assert(ids1 =~= ids2);
    }
}

pub proof fn lemma_ty_denot_list_len(ns: Seq<TyNodeV>, ids: Seq<int>, b: int)
    ensures
        ty_denot_list(ns, ids, b).len() == ids.len(),
    decreases ids.len(),
{
    if ids.len() > 0 {
        lemma_ty_denot_list_len(ns, ids.drop_last(), b);
    }
}

pub proof fn lemma_ty_denot_named_injective(
    ns: Seq<TyNodeV>,
    cs1: Seq<(Seq<char>, int)>,
    b1: int,
    cs2: Seq<(Seq<char>, int)>,
    b2: int,
)
    requires
        ty_arena_wf(ns),
        ty_arena_dedup(ns),
        0 <= b1 <= ns.len(),
        0 <= b2 <= ns.len(),
        named_ids_ok(cs1, b1),
        named_ids_ok(cs2, b2),
        ty_denot_named(ns, cs1, b1) == ty_denot_named(ns, cs2, b2),
    ensures
        cs1 == cs2,
    decreases b1 + b2, 0int, cs1.len(),
{
    let l1 = ty_denot_named(ns, cs1, b1);
    let l2 = ty_denot_named(ns, cs2, b2);
    lemma_ty_denot_named_len(ns, cs1, b1);
    lemma_ty_denot_named_len(ns, cs2, b2);
    if cs1.len() == 0 {
        assert(cs1 =~= cs2);
    } else {
        assert(cs1[cs1.len() - 1] == cs1.last());
        assert(cs2[cs2.len() - 1] == cs2.last());
        assert(l1.last() == l2.last());
        lemma_ty_denot_injective(ns, cs1.last().1, cs2.last().1);
        assert(cs1.last() == cs2.last());
        assert(l1.drop_last() =~= ty_denot_named(ns, cs1.drop_last(), b1));
        assert(l2.drop_last() =~= ty_denot_named(ns, cs2.drop_last(), b2));
        assert(named_ids_ok(cs1.drop_last(), b1));
        assert(named_ids_ok(cs2.drop_last(), b2));
        lemma_ty_denot_named_injective(ns, cs1.drop_last(), b1, cs2.drop_last(), b2);
        assert forall|k: int| 0 <= k < cs1.len() implies cs1[k] == cs2[k] by {
            if k < cs1.len() - 1 {
                assert(cs1.drop_last()[k] == cs1[k]);
                assert(cs2.drop_last()[k] == cs2[k]);
            }
        }
        assert(cs1 =~= cs2);
    }
}

pub proof fn lemma_ty_denot_named_len(ns: Seq<TyNodeV>, cs: Seq<(Seq<char>, int)>, b: int)
    ensures
        ty_denot_named(ns, cs, b).len() == cs.len(),
    decreases cs.len(),
{
    if cs.len() > 0 {
        lemma_ty_denot_named_len(ns, cs.drop_last(), b);
    }
}

/// Expression-side counterpart of `lemma_ty_denot_injective`.
pub proof fn lemma_exp_denot_injective(ns: Seq<ExpNodeV>, ts: Seq<TyNodeV>, i: int, j: int)
    requires
        exp_arena_wf(ns, ts.len() as int),
        exp_arena_dedup(ns),
        ty_arena_wf(ts),
        ty_arena_dedup(ts),
        0 <= i < ns.len(),
        0 <= j < ns.len(),
        exp_denot_at(ns, ts, i) == exp_denot_at(ns, ts, j),
    ensures
        i == j,
    decreases i + j, 1int, 0int,
{
    assert(exp_node_wf(ns[i], i, ts.len() as int));
    assert(exp_node_wf(ns[j], j, ts.len() as int));
    match (ns[i], ns[j]) {
        (ExpNodeV::Var(s1), ExpNodeV::Var(s2)) => {
            assert(ns[i] == ns[j]);
        },
        (ExpNodeV::Wildcard, ExpNodeV::Wildcard) => {
            assert(ns[i] == ns[j]);
        },
        (ExpNodeV::App(f1, a1), ExpNodeV::App(f2, a2)) => {
            lemma_exp_denot_injective(ns, ts, f1, f2);
            lemma_exp_denot_injective(ns, ts, a1, a2);
            assert(ns[i] == ns[j]);
        },
        (ExpNodeV::Func(x1, t1, e1), ExpNodeV::Func(x2, t2, e2)) => {
            lemma_ty_denot_injective(ts, t1, t2);
            lemma_exp_denot_injective(ns, ts, e1, e2);
            assert(ns[i] == ns[j]);
        },
        (ExpNodeV::CTor(c1, e1), ExpNodeV::CTor(c2, e2)) => {
            lemma_exp_denot_injective(ns, ts, e1, e2);
            assert(ns[i] == ns[j]);
        },
        (ExpNodeV::Unctor(c1, e1), ExpNodeV::Unctor(c2, e2)) => {
            lemma_exp_denot_injective(ns, ts, e1, e2);
            assert(ns[i] == ns[j]);
        },
        (ExpNodeV::Eq(p1, a1, c1), ExpNodeV::Eq(p2, a2, c2)) => {
            lemma_exp_denot_injective(ns, ts, a1, a2);
            lemma_exp_denot_injective(ns, ts, c1, c2);
            assert(ns[i] == ns[j]);
        },
        (ExpNodeV::Match(e1, bs1), ExpNodeV::Match(e2, bs2)) => {
            lemma_exp_denot_injective(ns, ts, e1, e2);
            lemma_exp_denot_branches_injective(ns, ts, bs1, i, bs2, j);
            assert(ns[i] == ns[j]);
        },
        (ExpNodeV::Fix(x1, t1, e1), ExpNodeV::Fix(x2, t2, e2)) => {
            lemma_ty_denot_injective(ts, t1, t2);
            lemma_exp_denot_injective(ns, ts, e1, e2);
            assert(ns[i] == ns[j]);
        },
        (ExpNodeV::Tuple(ids1), ExpNodeV::Tuple(ids2)) => {
            lemma_exp_denot_list_injective(ns, ts, ids1, i, ids2, j);
            assert(ns[i] == ns[j]);
        },
        (ExpNodeV::Proj(n1, e1), ExpNodeV::Proj(n2, e2)) => {
            lemma_exp_denot_injective(ns, ts, e1, e2);
            assert(ns[i] == ns[j]);
        },
        _ => {},
    }
}

pub proof fn lemma_exp_denot_list_injective(
    ns: Seq<ExpNodeV>,
    ts: Seq<TyNodeV>,
    ids1: Seq<int>,
    b1: int,
    ids2: Seq<int>,
    b2: int,
)
    requires
        exp_arena_wf(ns, ts.len() as int),
        exp_arena_dedup(ns),
        ty_arena_wf(ts),
        ty_arena_dedup(ts),
        0 <= b1 <= ns.len(),
        0 <= b2 <= ns.len(),
        ids_ok(ids1, b1),
        ids_ok(ids2, b2),
        exp_denot_list(ns, ts, ids1, b1) == exp_denot_list(ns, ts, ids2, b2),
    ensures
        ids1 == ids2,
    decreases b1 + b2, 0int, ids1.len(),
{
    let l1 = exp_denot_list(ns, ts, ids1, b1);
    let l2 = exp_denot_list(ns, ts, ids2, b2);
    lemma_exp_denot_list_len(ns, ts, ids1, b1);
    lemma_exp_denot_list_len(ns, ts, ids2, b2);
    if ids1.len() == 0 {
        assert(ids1 =~= ids2);
    } else {
        assert(ids1[ids1.len() - 1] == ids1.last());
        assert(ids2[ids2.len() - 1] == ids2.last());
        assert(l1.last() == l2.last());
        lemma_exp_denot_injective(ns, ts, ids1.last(), ids2.last());
        assert(l1.drop_last() =~= exp_denot_list(ns, ts, ids1.drop_last(), b1));
        assert(l2.drop_last() =~= exp_denot_list(ns, ts, ids2.drop_last(), b2));
        assert(ids_ok(ids1.drop_last(), b1));
        assert(ids_ok(ids2.drop_last(), b2));
        lemma_exp_denot_list_injective(ns, ts, ids1.drop_last(), b1, ids2.drop_last(), b2);
        assert forall|k: int| 0 <= k < ids1.len() implies ids1[k] == ids2[k] by {
            if k < ids1.len() - 1 {
                assert(ids1.drop_last()[k] == ids1[k]);
                assert(ids2.drop_last()[k] == ids2[k]);
            }
        }
        assert(ids1 =~= ids2);
    }
}

pub proof fn lemma_exp_denot_list_len(
    ns: Seq<ExpNodeV>,
    ts: Seq<TyNodeV>,
    ids: Seq<int>,
    b: int,
)
    ensures
        exp_denot_list(ns, ts, ids, b).len() == ids.len(),
    decreases ids.len(),
{
    if ids.len() > 0 {
        lemma_exp_denot_list_len(ns, ts, ids.drop_last(), b);
    }
}

pub proof fn lemma_exp_denot_branches_injective(
    ns: Seq<ExpNodeV>,
    ts: Seq<TyNodeV>,
    bs1: Seq<(PatternV, int)>,
    b1: int,
    bs2: Seq<(PatternV, int)>,
    b2: int,
)
    requires
        exp_arena_wf(ns, ts.len() as int),
        exp_arena_dedup(ns),
        ty_arena_wf(ts),
        ty_arena_dedup(ts),
        0 <= b1 <= ns.len(),
        0 <= b2 <= ns.len(),
        branch_ids_ok(bs1, b1),
        branch_ids_ok(bs2, b2),
        exp_denot_branches(ns, ts, bs1, b1) == exp_denot_branches(ns, ts, bs2, b2),
    ensures
        bs1 == bs2,
    decreases b1 + b2, 0int, bs1.len(),
{
    let l1 = exp_denot_branches(ns, ts, bs1, b1);
    let l2 = exp_denot_branches(ns, ts, bs2, b2);
    lemma_exp_denot_branches_len(ns, ts, bs1, b1);
    lemma_exp_denot_branches_len(ns, ts, bs2, b2);
    if bs1.len() == 0 {
        assert(bs1 =~= bs2);
    } else {
        assert(bs1[bs1.len() - 1] == bs1.last());
        assert(bs2[bs2.len() - 1] == bs2.last());
        assert(l1.last() == l2.last());
        lemma_exp_denot_injective(ns, ts, bs1.last().1, bs2.last().1);
        assert(bs1.last() == bs2.last());
        assert(l1.drop_last() =~= exp_denot_branches(ns, ts, bs1.drop_last(), b1));
        assert(l2.drop_last() =~= exp_denot_branches(ns, ts, bs2.drop_last(), b2));
        assert(branch_ids_ok(bs1.drop_last(), b1));
        assert(branch_ids_ok(bs2.drop_last(), b2));
        lemma_exp_denot_branches_injective(ns, ts, bs1.drop_last(), b1, bs2.drop_last(), b2);
        assert forall|k: int| 0 <= k < bs1.len() implies bs1[k] == bs2[k] by {
            if k < bs1.len() - 1 {
                assert(bs1.drop_last()[k] == bs1[k]);
                assert(bs2.drop_last()[k] == bs2[k]);
            }
        }
        assert(bs1 =~= bs2);
    }
}

pub proof fn lemma_exp_denot_branches_len(
    ns: Seq<ExpNodeV>,
    ts: Seq<TyNodeV>,
    bs: Seq<(PatternV, int)>,
    b: int,
)
    ensures
        exp_denot_branches(ns, ts, bs, b).len() == bs.len(),
    decreases bs.len(),
{
    if bs.len() > 0 {
        lemma_exp_denot_branches_len(ns, ts, bs.drop_last(), b);
    }
}

} // verus!
