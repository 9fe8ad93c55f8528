//! The session-scoped interner.
//!
//! Every `Type` and `Exp` node is built through [`Interner`]: a candidate
//! node is looked up in the arena and, when a structurally equal node is
//! already present, its existing handle is returned, so at most one arena
//! slot ever holds a given structural value. Handle equality is therefore a
//! constant-time substitute for structural equality
//! ([`lemma_type_interning_dedup`], [`lemma_exp_interning_dedup`]), and the
//! indices give the handles a total, deterministic order.

use vstd::prelude::*;
use vstd::string::*;

use crate::lang::{branches_v, exp_ids, named_ty_ids, pat_v, pats_v, ty_ids, ActualExp, ActualType, Declaration, Example, Exp, Param, Pattern, Problem, SynthProblem, Type};
use crate::model::{
    exp_arena_dedup, exp_arena_wf, exp_denot_at, exp_node_wf, lemma_exp_denot_branches_map,
    lemma_exp_denot_injective, lemma_exp_denot_list_map, lemma_exp_denot_prefix,
    lemma_ty_denot_injective, lemma_ty_denot_list_map, lemma_ty_denot_named_map,
    lemma_ty_denot_prefix, ty_arena_dedup, ty_arena_wf, ty_denot_at, ty_node_wf, ExpNodeV, ExpV,
    PatternV, TyNodeV, TypeV,
};

verus! {

broadcast use vstd::seq::group_seq_axioms, vstd::std_specs::vec::group_vec_axioms;

/// The mutable store shared by all constructions of one parse session.
pub struct Interner {
    tys: Vec<ActualType>,
    exps: Vec<ActualExp>,
}

impl Interner {
    /// The type arena, one shallow node per slot.
    pub closed spec fn ty_nodes(self) -> Seq<TyNodeV> {
        self.tys@.map_values(|n: ActualType| n@)
    }

    /// The expression arena, one shallow node per slot.
    pub closed spec fn exp_nodes(self) -> Seq<ExpNodeV> {
        self.exps@.map_values(|n: ActualExp| n@)
    }

    /// Children always stand earlier in the arena, and no structural value
    /// occupies two slots.
    pub open spec fn inv(self) -> bool {
        &&& ty_arena_wf(self.ty_nodes())
        &&& ty_arena_dedup(self.ty_nodes())
        &&& exp_arena_wf(self.exp_nodes(), self.ty_nodes().len() as int)
        &&& exp_arena_dedup(self.exp_nodes())
    }

    /// The handle points into this interner's type arena.
    pub open spec fn ty_wf(self, t: Type) -> bool {
        t.id < self.ty_nodes().len()
    }

    pub open spec fn exp_wf(self, e: Exp) -> bool {
        e.id < self.exp_nodes().len()
    }

    /// The structural value a type handle stands for.
    pub open spec fn ty_denot(self, t: Type) -> TypeV {
        ty_denot_at(self.ty_nodes(), t.id as int)
    }

    /// The structural value an expression handle stands for.
    pub open spec fn exp_denot(self, e: Exp) -> ExpV {
        exp_denot_at(self.exp_nodes(), self.ty_nodes(), e.id as int)
    }

    /// Both arenas of `pre` survive unchanged at the front of `self`:
    /// interning only appends, so old handles keep their meaning.
    pub open spec fn extends(self, pre: Interner) -> bool {
        &&& pre.ty_nodes().is_prefix_of(self.ty_nodes())
        &&& pre.exp_nodes().is_prefix_of(self.exp_nodes())
    }

    /// A fresh interner with empty arenas.
    pub fn new() -> (it: Interner)
        ensures
            it.inv(),
            it.ty_nodes().len() == 0,
            it.exp_nodes().len() == 0,
    {
        let it = Interner { tys: Vec::new(), exps: Vec::new() };
        proof {
            assert(it.ty_nodes() =~= Seq::empty());
            assert(it.exp_nodes() =~= Seq::empty());
        }
        it
    }

    /// The node a type handle refers to.
    pub fn get_ty(&self, t: Type) -> (n: &ActualType)
        requires
            self.ty_wf(t),
        ensures
            n@ == self.ty_nodes()[t.id as int],
    {
        &self.tys[t.id]
    }

    /// The node an expression handle refers to.
    pub fn get_exp(&self, e: Exp) -> (n: &ActualExp)
        requires
            self.exp_wf(e),
        ensures
            n@ == self.exp_nodes()[e.id as int],
    {
        &self.exps[e.id]
    }

    /// How many distinct types this session has interned.
    pub fn ty_count(&self) -> (n: usize)
        ensures
            n == self.ty_nodes().len(),
    {
        self.tys.len()
    }

    /// How many distinct expressions this session has interned.
    pub fn exp_count(&self) -> (n: usize)
        ensures
            n == self.exp_nodes().len(),
    {
        self.exps.len()
    }

    fn find_ty(&self, n: &ActualType) -> (r: Option<usize>)
        ensures
            match r {
                Some(j) => j < self.ty_nodes().len() && self.ty_nodes()[j as int] == n@,
                None => forall|k: int|
                    0 <= k < self.ty_nodes().len() ==> #[trigger] self.ty_nodes()[k] != n@,
            },
    {
        let len = self.tys.len();
        for i in 0..len
            invariant
                len == self.tys@.len(),
                forall|k: int| 0 <= k < i ==> #[trigger] self.ty_nodes()[k] != n@,
        {
            if ty_node_eq(&self.tys[i], n) {
                return Some(i);
            }
        }
        None
    }

    fn find_exp(&self, n: &ActualExp) -> (r: Option<usize>)
        ensures
            match r {
                Some(j) => j < self.exp_nodes().len() && self.exp_nodes()[j as int] == n@,
                None => forall|k: int|
                    0 <= k < self.exp_nodes().len() ==> #[trigger] self.exp_nodes()[k] != n@,
            },
    {
        let len = self.exps.len();
        for i in 0..len
            invariant
                len == self.exps@.len(),
                forall|k: int| 0 <= k < i ==> #[trigger] self.exp_nodes()[k] != n@,
        {
            if exp_node_eq(&self.exps[i], n) {
                return Some(i);
            }
        }
        None
    }

    /// Looks the candidate node up and returns its canonical handle,
    /// appending the node only when it is new.
    pub fn intern_ty(&mut self, n: ActualType) -> (t: Type)
        requires
            old(self).inv(),
            ty_node_wf(n@, old(self).ty_nodes().len() as int),
        ensures
            final(self).inv(),
            interned_ty(*old(self), *final(self), n@, t),
    {
        let found = self.find_ty(&n);
        match found {
            Some(j) => Type { id: j },
            None => {
                let ghost pre = self.ty_nodes();
                let id = self.tys.len();
                self.tys.push(n);
                proof {
                    assert(self.ty_nodes() =~= pre.push(n@));
                }
                Type { id }
            },
        }
    }

    /// Expression-side counterpart of `intern_ty`.
    pub fn intern_exp(&mut self, n: ActualExp) -> (e: Exp)
        requires
            old(self).inv(),
            exp_node_wf(
                n@,
                old(self).exp_nodes().len() as int,
                old(self).ty_nodes().len() as int,
            ),
        ensures
            final(self).inv(),
            interned_exp(*old(self), *final(self), n@, e),
    {
        let found = self.find_exp(&n);
        match found {
            Some(j) => Exp { id: j },
            None => {
                let ghost pre = self.exp_nodes();
                let id = self.exps.len();
                self.exps.push(n);
                proof {
                    assert(self.exp_nodes() =~= pre.push(n@));
                }
                Exp { id }
            },
        }
    }
}

impl Interner {
    /// Every handle of the list points into the type arena.
    pub open spec fn ty_list_wf(self, v: Seq<Type>) -> bool {
        forall|k: int| 0 <= k < v.len() ==> (#[trigger] v[k]).id < self.ty_nodes().len()
    }

    pub open spec fn exp_list_wf(self, v: Seq<Exp>) -> bool {
        forall|k: int| 0 <= k < v.len() ==> (#[trigger] v[k]).id < self.exp_nodes().len()
    }

    pub open spec fn named_list_wf(self, v: Seq<(String, Type)>) -> bool {
        forall|k: int| 0 <= k < v.len() ==> (#[trigger] v[k]).1.id < self.ty_nodes().len()
    }

    pub open spec fn branch_list_wf(self, v: Seq<(Pattern, Exp)>) -> bool {
        forall|k: int| 0 <= k < v.len() ==> (#[trigger] v[k]).1.id < self.exp_nodes().len()
    }

    /// Interned `Named` type.
    pub fn ty_named(&mut self, s: String) -> (t: Type)
        requires
            old(self).inv(),
        ensures
            final(self).inv(),
            final(self).extends(*old(self)),
            interned_ty(*old(self), *final(self), TyNodeV::Named(s@), t),
            final(self).ty_denot(t) == TypeV::Named(s@),
    {
        let ghost pre = *self;
        let t = self.intern_ty(ActualType::Named(s));
        proof {
            lemma_interned_ty_extends(pre, *self, TyNodeV::Named(s@), t);
        }
        t
    }

    /// Interned function type `a -> r`.
    pub fn ty_arrow(&mut self, a: Type, r: Type) -> (t: Type)
        requires
            old(self).inv(),
            old(self).ty_wf(a),
            old(self).ty_wf(r),
        ensures
            final(self).inv(),
            final(self).extends(*old(self)),
            interned_ty(*old(self), *final(self), TyNodeV::Arrow(a.id as int, r.id as int), t),
            final(self).ty_denot(t) == TypeV::Arrow(
                Box::new(final(self).ty_denot(a)),
                Box::new(final(self).ty_denot(r)),
            ),
    {
        let ghost pre = *self;
        let ghost nv = TyNodeV::Arrow(a.id as int, r.id as int);
        let t = self.intern_ty(ActualType::Arrow(a, r));
        proof {
            lemma_interned_ty_extends(pre, *self, nv, t);
            assert(ty_node_wf(self.ty_nodes()[t.id as int], t.id as int));
        }
        t
    }

    /// Interned tuple type; the empty list is the unit type.
    pub fn ty_tuple(&mut self, v: Vec<Type>) -> (t: Type)
        requires
            old(self).inv(),
            old(self).ty_list_wf(v@),
        ensures
            final(self).inv(),
            final(self).extends(*old(self)),
            interned_ty(*old(self), *final(self), TyNodeV::Tuple(ty_ids(v@)), t),
            final(self).ty_denot(t) == TypeV::Tuple(
                v@.map_values(|x: Type| final(self).ty_denot(x)),
            ),
    {
        let ghost pre = *self;
        let ghost nv = TyNodeV::Tuple(ty_ids(v@));
        let ghost vs = v@;
        let t = self.intern_ty(ActualType::Tuple(v));
        proof {
            lemma_interned_ty_extends(pre, *self, nv, t);
            assert(ty_node_wf(self.ty_nodes()[t.id as int], t.id as int));
            lemma_ty_denot_list_map(self.ty_nodes(), ty_ids(vs), t.id as int);
            assert(ty_ids(vs).map_values(|c: int| ty_denot_at(self.ty_nodes(), c)) =~= vs
                .map_values(|x: Type| self.ty_denot(x)));
        }
        t
    }

    /// Interned recursive type `mu x . b`.
    pub fn ty_mu(&mut self, x: String, b: Type) -> (t: Type)
        requires
            old(self).inv(),
            old(self).ty_wf(b),
        ensures
            final(self).inv(),
            final(self).extends(*old(self)),
            interned_ty(*old(self), *final(self), TyNodeV::Mu(x@, b.id as int), t),
            final(self).ty_denot(t) == TypeV::Mu(x@, Box::new(final(self).ty_denot(b))),
    {
        let ghost pre = *self;
        let ghost nv = TyNodeV::Mu(x@, b.id as int);
        let t = self.intern_ty(ActualType::Mu(x, b));
        proof {
            lemma_interned_ty_extends(pre, *self, nv, t);
            assert(ty_node_wf(self.ty_nodes()[t.id as int], t.id as int));
        }
        t
    }

    /// Interned variant type: an ordered list of constructors with their
    /// argument types.
    pub fn ty_variant(&mut self, cs: Vec<(String, Type)>) -> (t: Type)
        requires
            old(self).inv(),
            old(self).named_list_wf(cs@),
        ensures
            final(self).inv(),
            final(self).extends(*old(self)),
            interned_ty(*old(self), *final(self), TyNodeV::Variant(named_ty_ids(cs@)), t),
            final(self).ty_denot(t) == TypeV::Variant(
                cs@.map_values(|c: (String, Type)| (c.0@, final(self).ty_denot(c.1))),
            ),
    {
        let ghost pre = *self;
        let ghost nv = TyNodeV::Variant(named_ty_ids(cs@));
        let ghost vs = cs@;
        let t = self.intern_ty(ActualType::Variant(cs));
        proof {
            lemma_interned_ty_extends(pre, *self, nv, t);
            assert(ty_node_wf(self.ty_nodes()[t.id as int], t.id as int));
            lemma_ty_denot_named_map(self.ty_nodes(), named_ty_ids(vs), t.id as int);
            assert(named_ty_ids(vs).map_values(
                |c: (Seq<char>, int)| (c.0, ty_denot_at(self.ty_nodes(), c.1)),
            ) =~= vs.map_values(|c: (String, Type)| (c.0@, self.ty_denot(c.1))));
        }
        t
    }

    /// The unit type: the empty tuple.
    pub fn ty_unit(&mut self) -> (t: Type)
        requires
            old(self).inv(),
        ensures
            final(self).inv(),
            final(self).extends(*old(self)),
            interned_ty(*old(self), *final(self), TyNodeV::Tuple(Seq::empty()), t),
            final(self).ty_denot(t) == TypeV::Tuple(Seq::empty()),
    {
        let v: Vec<Type> = Vec::new();
        proof {
            assert(ty_ids(v@) =~= Seq::<int>::empty());
            assert(v@.map_values(|x: Type| final(self).ty_denot(x)) =~= Seq::<TypeV>::empty());
        }
        self.ty_tuple(v)
    }

    /// A parenthesized type list: one element stands for itself, any other
    /// number makes a tuple type.
    pub fn ty_tuple_collapsed(&mut self, v: Vec<Type>) -> (t: Type)
        requires
            old(self).inv(),
            old(self).ty_list_wf(v@),
        ensures
            final(self).inv(),
            final(self).extends(*old(self)),
            v@.len() == 1 ==> *final(self) == *old(self) && t == v@[0],
            v@.len() != 1 ==> interned_ty(
                *old(self),
                *final(self),
                TyNodeV::Tuple(ty_ids(v@)),
                t,
            ),
    {
        if v.len() == 1 {
            proof {
                assert(self.ty_nodes().subrange(0, self.ty_nodes().len() as int) =~= self
                    .ty_nodes());
                assert(self.exp_nodes().subrange(0, self.exp_nodes().len() as int) =~= self
                    .exp_nodes());
            }
            v[0]
        } else {
            self.ty_tuple(v)
        }
    }
}

impl Interner {
    /// Interned variable reference.
    pub fn exp_var(&mut self, s: String) -> (e: Exp)
        requires
            old(self).inv(),
        ensures
            final(self).inv(),
            final(self).extends(*old(self)),
            interned_exp(*old(self), *final(self), ExpNodeV::Var(s@), e),
            final(self).exp_denot(e) == ExpV::Var(s@),
    {
        let ghost pre = *self;
        let e = self.intern_exp(ActualExp::Var(s));
        proof {
            lemma_interned_exp_extends(pre, *self, ExpNodeV::Var(s@), e);
        }
        e
    }

    /// Interned wildcard expression.
    pub fn exp_wildcard(&mut self) -> (e: Exp)
        requires
            old(self).inv(),
        ensures
            final(self).inv(),
            final(self).extends(*old(self)),
            interned_exp(*old(self), *final(self), ExpNodeV::Wildcard, e),
            final(self).exp_denot(e) == ExpV::Wildcard,
    {
        let ghost pre = *self;
        let e = self.intern_exp(ActualExp::Wildcard);
        proof {
            lemma_interned_exp_extends(pre, *self, ExpNodeV::Wildcard, e);
        }
        e
    }

    /// Interned application `f a`.
    pub fn exp_app(&mut self, f: Exp, a: Exp) -> (e: Exp)
        requires
            old(self).inv(),
            old(self).exp_wf(f),
            old(self).exp_wf(a),
        ensures
            final(self).inv(),
            final(self).extends(*old(self)),
            interned_exp(*old(self), *final(self), ExpNodeV::App(f.id as int, a.id as int), e),
            final(self).exp_denot(e) == ExpV::App(
                Box::new(final(self).exp_denot(f)),
                Box::new(final(self).exp_denot(a)),
            ),
    {
        let ghost pre = *self;
        let ghost nv = ExpNodeV::App(f.id as int, a.id as int);
        let e = self.intern_exp(ActualExp::App(f, a));
        proof {
            lemma_interned_exp_extends(pre, *self, nv, e);
            assert(exp_node_wf(
                self.exp_nodes()[e.id as int],
                e.id as int,
                self.ty_nodes().len() as int,
            ));
        }
        e
    }

    /// Interned function literal with its binder.
    pub fn exp_func(&mut self, p: Param, body: Exp) -> (e: Exp)
        requires
            old(self).inv(),
            old(self).ty_wf(p.ty),
            old(self).exp_wf(body),
        ensures
            final(self).inv(),
            final(self).extends(*old(self)),
            interned_exp(
                *old(self),
                *final(self),
                ExpNodeV::Func(p.name@, p.ty.id as int, body.id as int),
                e,
            ),
            final(self).exp_denot(e) == ExpV::Func(
                p.name@,
                final(self).ty_denot(p.ty),
                Box::new(final(self).exp_denot(body)),
            ),
    {
        let ghost pre = *self;
        let ghost nv = ExpNodeV::Func(p.name@, p.ty.id as int, body.id as int);
        let e = self.intern_exp(ActualExp::Func(p, body));
        proof {
            lemma_interned_exp_extends(pre, *self, nv, e);
            assert(exp_node_wf(
                self.exp_nodes()[e.id as int],
                e.id as int,
                self.ty_nodes().len() as int,
            ));
        }
        e
    }

    /// Interned constructor application.
    pub fn exp_ctor(&mut self, c: String, arg: Exp) -> (e: Exp)
        requires
            old(self).inv(),
            old(self).exp_wf(arg),
        ensures
            final(self).inv(),
            final(self).extends(*old(self)),
            interned_exp(*old(self), *final(self), ExpNodeV::CTor(c@, arg.id as int), e),
            final(self).exp_denot(e) == ExpV::CTor(c@, Box::new(final(self).exp_denot(arg))),
    {
        let ghost pre = *self;
        let ghost nv = ExpNodeV::CTor(c@, arg.id as int);
        let e = self.intern_exp(ActualExp::CTor(c, arg));
        proof {
            lemma_interned_exp_extends(pre, *self, nv, e);
            assert(exp_node_wf(
                self.exp_nodes()[e.id as int],
                e.id as int,
                self.ty_nodes().len() as int,
            ));
        }
        e
    }

    /// Interned destructor application.
    pub fn exp_unctor(&mut self, c: String, arg: Exp) -> (e: Exp)
        requires
            old(self).inv(),
            old(self).exp_wf(arg),
        ensures
            final(self).inv(),
            final(self).extends(*old(self)),
            interned_exp(*old(self), *final(self), ExpNodeV::Unctor(c@, arg.id as int), e),
            final(self).exp_denot(e) == ExpV::Unctor(c@, Box::new(final(self).exp_denot(arg))),
    {
        let ghost pre = *self;
        let ghost nv = ExpNodeV::Unctor(c@, arg.id as int);
        let e = self.intern_exp(ActualExp::Unctor(c, arg));
        proof {
            lemma_interned_exp_extends(pre, *self, nv, e);
            assert(exp_node_wf(
                self.exp_nodes()[e.id as int],
                e.id as int,
                self.ty_nodes().len() as int,
            ));
        }
        e
    }

    /// Interned equality or inequality test; `pos` is true for `==`.
    pub fn exp_eq(&mut self, pos: bool, a: Exp, b: Exp) -> (e: Exp)
        requires
            old(self).inv(),
            old(self).exp_wf(a),
            old(self).exp_wf(b),
        ensures
            final(self).inv(),
            final(self).extends(*old(self)),
            interned_exp(
                *old(self),
                *final(self),
                ExpNodeV::Eq(pos, a.id as int, b.id as int),
                e,
            ),
            final(self).exp_denot(e) == ExpV::Eq(
                pos,
                Box::new(final(self).exp_denot(a)),
                Box::new(final(self).exp_denot(b)),
            ),
    {
        let ghost pre = *self;
        let ghost nv = ExpNodeV::Eq(pos, a.id as int, b.id as int);
        let e = self.intern_exp(ActualExp::Eq(pos, a, b));
        proof {
            lemma_interned_exp_extends(pre, *self, nv, e);
            assert(exp_node_wf(
                self.exp_nodes()[e.id as int],
                e.id as int,
                self.ty_nodes().len() as int,
            ));
        }
        e
    }

    /// Interned match expression over its ordered branches.
    pub fn exp_match(&mut self, scrut: Exp, bs: Vec<(Pattern, Exp)>) -> (e: Exp)
        requires
            old(self).inv(),
            old(self).exp_wf(scrut),
            old(self).branch_list_wf(bs@),
        ensures
            final(self).inv(),
            final(self).extends(*old(self)),
            interned_exp(
                *old(self),
                *final(self),
                ExpNodeV::Match(scrut.id as int, branches_v(bs@)),
                e,
            ),
            final(self).exp_denot(e) == ExpV::Match(
                Box::new(final(self).exp_denot(scrut)),
                bs@.map_values(|c: (Pattern, Exp)| (pat_v(c.0), final(self).exp_denot(c.1))),
            ),
    {
        let ghost pre = *self;
        let ghost nv = ExpNodeV::Match(scrut.id as int, branches_v(bs@));
        let ghost vs = bs@;
        let e = self.intern_exp(ActualExp::Match(scrut, bs));
        proof {
            lemma_interned_exp_extends(pre, *self, nv, e);
            assert(exp_node_wf(
                self.exp_nodes()[e.id as int],
                e.id as int,
                self.ty_nodes().len() as int,
            ));
            lemma_exp_denot_branches_map(
                self.exp_nodes(),
                self.ty_nodes(),
                branches_v(vs),
                e.id as int,
            );
            assert(branches_v(vs).map_values(
                |c: (PatternV, int)| (c.0, exp_denot_at(self.exp_nodes(), self.ty_nodes(), c.1)),
            ) =~= vs.map_values(|c: (Pattern, Exp)| (pat_v(c.0), self.exp_denot(c.1))));
        }
        e
    }

    /// Interned fix-point expression.
    pub fn exp_fix(&mut self, x: String, t: Type, body: Exp) -> (e: Exp)
        requires
            old(self).inv(),
            old(self).ty_wf(t),
            old(self).exp_wf(body),
        ensures
            final(self).inv(),
            final(self).extends(*old(self)),
            interned_exp(
                *old(self),
                *final(self),
                ExpNodeV::Fix(x@, t.id as int, body.id as int),
                e,
            ),
            final(self).exp_denot(e) == ExpV::Fix(
                x@,
                final(self).ty_denot(t),
                Box::new(final(self).exp_denot(body)),
            ),
    {
        let ghost pre = *self;
        let ghost nv = ExpNodeV::Fix(x@, t.id as int, body.id as int);
        let e = self.intern_exp(ActualExp::Fix(x, t, body));
        proof {
            lemma_interned_exp_extends(pre, *self, nv, e);
            assert(exp_node_wf(
                self.exp_nodes()[e.id as int],
                e.id as int,
                self.ty_nodes().len() as int,
            ));
        }
        e
    }

    /// Interned tuple expression; the empty list is the unit value.
    pub fn exp_tuple(&mut self, v: Vec<Exp>) -> (e: Exp)
        requires
            old(self).inv(),
            old(self).exp_list_wf(v@),
        ensures
            final(self).inv(),
            final(self).extends(*old(self)),
            interned_exp(*old(self), *final(self), ExpNodeV::Tuple(exp_ids(v@)), e),
            final(self).exp_denot(e) == ExpV::Tuple(
                v@.map_values(|x: Exp| final(self).exp_denot(x)),
            ),
    {
        let ghost pre = *self;
        let ghost nv = ExpNodeV::Tuple(exp_ids(v@));
        let ghost vs = v@;
        let e = self.intern_exp(ActualExp::Tuple(v));
        proof {
            lemma_interned_exp_extends(pre, *self, nv, e);
            assert(exp_node_wf(
                self.exp_nodes()[e.id as int],
                e.id as int,
                self.ty_nodes().len() as int,
            ));
            lemma_exp_denot_list_map(self.exp_nodes(), self.ty_nodes(), exp_ids(vs), e.id as int);
            assert(exp_ids(vs).map_values(
                |c: int| exp_denot_at(self.exp_nodes(), self.ty_nodes(), c),
            ) =~= vs.map_values(|x: Exp| self.exp_denot(x)));
        }
        e
    }

    /// Interned projection `arg . n`.
    pub fn exp_proj(&mut self, n: u64, arg: Exp) -> (e: Exp)
        requires
            old(self).inv(),
            old(self).exp_wf(arg),
        ensures
            final(self).inv(),
            final(self).extends(*old(self)),
            interned_exp(*old(self), *final(self), ExpNodeV::Proj(n as int, arg.id as int), e),
            final(self).exp_denot(e) == ExpV::Proj(
                n as int,
                Box::new(final(self).exp_denot(arg)),
            ),
    {
        let ghost pre = *self;
        let ghost nv = ExpNodeV::Proj(n as int, arg.id as int);
        let e = self.intern_exp(ActualExp::Proj(n, arg));
        proof {
            lemma_interned_exp_extends(pre, *self, nv, e);
            assert(exp_node_wf(
                self.exp_nodes()[e.id as int],
                e.id as int,
                self.ty_nodes().len() as int,
            ));
        }
        e
    }

    /// A parenthesized expression list: one element stands for itself, any
    /// other number makes a tuple.
    pub fn exp_tuple_collapsed(&mut self, v: Vec<Exp>) -> (e: Exp)
        requires
            old(self).inv(),
            old(self).exp_list_wf(v@),
        ensures
            final(self).inv(),
            final(self).extends(*old(self)),
            v@.len() == 1 ==> *final(self) == *old(self) && e == v@[0],
            v@.len() != 1 ==> interned_exp(
                *old(self),
                *final(self),
                ExpNodeV::Tuple(exp_ids(v@)),
                e,
            ),
    {
        if v.len() == 1 {
            proof {
                assert(self.ty_nodes().subrange(0, self.ty_nodes().len() as int) =~= self
                    .ty_nodes());
                assert(self.exp_nodes().subrange(0, self.exp_nodes().len() as int) =~= self
                    .exp_nodes());
            }
            v[0]
        } else {
            self.exp_tuple(v)
        }
    }
}

impl Interner {
    /// The declaration's handle points into this interner.
    pub open spec fn decl_wf(self, d: Declaration) -> bool {
        match d {
            Declaration::TypeDecl(_, t) => self.ty_wf(t),
            Declaration::ExpDecl(_, e) => self.exp_wf(e),
        }
    }

    pub open spec fn decls_wf(self, ds: Seq<Declaration>) -> bool {
        forall|k: int| 0 <= k < ds.len() ==> self.decl_wf(#[trigger] ds[k])
    }

    /// All expressions of the example point into this interner.
    pub open spec fn example_wf(self, x: Example) -> bool {
        self.exp_list_wf(x.input@) && self.exp_wf(x.output)
    }

    pub open spec fn examples_wf(self, xs: Seq<Example>) -> bool {
        forall|k: int| 0 <= k < xs.len() ==> self.example_wf(#[trigger] xs[k])
    }

    /// All expressions of the specification clause point into this
    /// interner.
    pub open spec fn problem_wf(self, p: Problem) -> bool {
        match p {
            Problem::UIOEs(xs) => self.examples_wf(xs@),
            Problem::UEquiv(xs, e) => self.examples_wf(xs@) && self.exp_wf(e),
            Problem::UPost(e) => self.exp_wf(e),
        }
    }

    /// Every handle of the parse result points into this interner.
    pub open spec fn synth_problem_wf(self, sp: SynthProblem) -> bool {
        &&& self.decls_wf(sp.decls@)
        &&& self.ty_wf(sp.synth_type)
        &&& self.problem_wf(sp.spec_clause)
    }
}

/// The name begins with the reserved destructor prefix.
pub open spec fn un_prefixed(s: Seq<char>) -> bool {
    s.len() >= 3 && s.subrange(0, 3) == "Un_"@
}

/// The Peano expression for `n`: the nullary constructor `O` wrapped in
/// `n` applications of the constructor `S`.
pub open spec fn peano_v(n: nat) -> ExpV
    decreases n,
{
    if n == 0 {
        ExpV::CTor("O"@, Box::new(ExpV::Tuple(Seq::empty())))
    } else {
        ExpV::CTor("S"@, Box::new(peano_v((n - 1) as nat)))
    }
}

/// What `mk_unctor_or_ctor_by_name` builds: a destructor for an
/// `Un_`-prefixed name, a constructor otherwise.
pub open spec fn ctor_or_unctor_v(c: Seq<char>, arg: ExpV) -> ExpV {
    if un_prefixed(c) {
        ExpV::Unctor(c.skip(3), Box::new(arg))
    } else {
        ExpV::CTor(c, Box::new(arg))
    }
}

/// Left-associated application of `f` to the arguments in order:
/// `f a b` is `App(App(f, a), b)`.
pub open spec fn fold_app_v(f: ExpV, args: Seq<ExpV>) -> ExpV
    decreases args.len(),
{
    if args.len() == 0 {
        f
    } else {
        ExpV::App(Box::new(fold_app_v(f, args.drop_last())), Box::new(args.last()))
    }
}

impl Exp {
    /// The unit expression: the empty tuple.
    #[allow(non_snake_case)]
    pub fn Unit(it: &mut Interner) -> (e: Exp)
        requires
            old(it).inv(),
        ensures
            final(it).inv(),
            final(it).extends(*old(it)),
            interned_exp(*old(it), *final(it), ExpNodeV::Tuple(Seq::empty()), e),
            final(it).exp_denot(e) == ExpV::Tuple(Seq::empty()),
    {
        let v: Vec<Exp> = Vec::new();
        proof {
            assert(exp_ids(v@) =~= Seq::<int>::empty());
            assert(v@.map_values(|x: Exp| final(it).exp_denot(x)) =~= Seq::<ExpV>::empty());
        }
        it.exp_tuple(v)
    }

    /// A name with the reserved `Un_` prefix builds a destructor of the
    /// remainder of the name; any other name builds a constructor. The
    /// distinction is purely lexical.
    pub fn mk_unctor_or_ctor_by_name(it: &mut Interner, c: &str, arg: Exp) -> (e: Exp)
        requires
            old(it).inv(),
            old(it).exp_wf(arg),
        ensures
            final(it).inv(),
            final(it).extends(*old(it)),
            un_prefixed(c@) ==> interned_exp(
                *old(it),
                *final(it),
                ExpNodeV::Unctor(c@.skip(3), arg.id as int),
                e,
            ) && final(it).exp_denot(e) == ExpV::Unctor(
                c@.skip(3),
                Box::new(final(it).exp_denot(arg)),
            ),
            !un_prefixed(c@) ==> interned_exp(
                *old(it),
                *final(it),
                ExpNodeV::CTor(c@, arg.id as int),
                e,
            ) && final(it).exp_denot(e) == ExpV::CTor(c@, Box::new(final(it).exp_denot(arg))),
    {
        proof {
            reveal_strlit("Un_");
        }
        let len = c.unicode_len();
        if len >= 3 && c.get_char(0) == 'U' && c.get_char(1) == 'n' && c.get_char(2) == '_' {
            proof {
                assert(c@.subrange(0, 3) =~= "Un_"@);
            }
            let stripped = c.substring_char(3, len).to_owned();
            it.exp_unctor(stripped, arg)
        } else {
            proof {
                if c@.len() >= 3 && c@.subrange(0, 3) == "Un_"@ {
                    assert(c@.subrange(0, 3)[0] == c@[0]);
                    assert(c@.subrange(0, 3)[1] == c@[1]);
                    assert(c@.subrange(0, 3)[2] == c@[2]);
                }
            }
            it.exp_ctor(c.to_owned(), arg)
        }
    }

    /// Desugars a nonnegative integer literal into its Peano expression.
    pub fn from_u64(it: &mut Interner, n: u64) -> (e: Exp)
        requires
            old(it).inv(),
        ensures
            final(it).inv(),
            final(it).extends(*old(it)),
            final(it).exp_wf(e),
            final(it).exp_denot(e) == peano_v(n as nat),
    {
        let ghost pre = *it;
        let unit = Exp::Unit(it);
        let ghost s1 = *it;
        let mut acc = it.exp_ctor(String::from_str("O"), unit);
        proof {
            lemma_extends_denots(s1, *it);
            lemma_extends_trans(pre, s1, *it);
        }
        let mut i: u64 = 0;
        while i < n
            invariant
                it.inv(),
                it.extends(pre),
                it.exp_wf(acc),
                it.exp_denot(acc) == peano_v(i as nat),
                i <= n,
            decreases n - i,
        {
            let ghost mid = *it;
            acc = it.exp_ctor(String::from_str("S"), acc);
            i = i + 1;
            proof {
                lemma_extends_denots(mid, *it);
                lemma_extends_trans(pre, mid, *it);
            }
        }
        acc
    }
}

/// Interning dedup for types: within one interner, two handles denoting
/// the same structural value are the same handle, however and whenever
/// each was produced.
pub proof fn lemma_type_interning_dedup(it: Interner, a: Type, b: Type)
    requires
        it.inv(),
        it.ty_wf(a),
        it.ty_wf(b),
        it.ty_denot(a) == it.ty_denot(b),
    ensures
        a == b,
{
    lemma_ty_denot_injective(it.ty_nodes(), a.id as int, b.id as int);
}

/// Interning dedup for expressions.
pub proof fn lemma_exp_interning_dedup(it: Interner, a: Exp, b: Exp)
    requires
        it.inv(),
        it.exp_wf(a),
        it.exp_wf(b),
        it.exp_denot(a) == it.exp_denot(b),
    ensures
        a == b,
{
    lemma_exp_denot_injective(it.exp_nodes(), it.ty_nodes(), a.id as int, b.id as int);
}

/// Within one interner, handle equality and structural equality of types
/// are the same relation, so handles compare in constant time.
pub proof fn lemma_ty_handle_eq_iff_structural(it: Interner, a: Type, b: Type)
    requires
        it.inv(),
        it.ty_wf(a),
        it.ty_wf(b),
    ensures
        (a == b) <==> (it.ty_denot(a) == it.ty_denot(b)),
{
    if it.ty_denot(a) == it.ty_denot(b) {
        lemma_type_interning_dedup(it, a, b);
    }
}

/// Within one interner, handle equality and structural equality of
/// expressions are the same relation.
pub proof fn lemma_exp_handle_eq_iff_structural(it: Interner, a: Exp, b: Exp)
    requires
        it.inv(),
        it.exp_wf(a),
        it.exp_wf(b),
    ensures
        (a == b) <==> (it.exp_denot(a) == it.exp_denot(b)),
{
    if it.exp_denot(a) == it.exp_denot(b) {
        lemma_exp_interning_dedup(it, a, b);
    }
}

pub proof fn lemma_push_prefix<A>(s: Seq<A>, x: A)
    ensures
        s.is_prefix_of(s.push(x)),
{
    assert(s.push(x).subrange(0, s.len() as int) =~= s);
}

/// Extending the arenas never changes what an existing handle denotes.
pub proof fn lemma_extends_denots(pre: Interner, post: Interner)
    requires
        pre.inv(),
        post.extends(pre),
    ensures
        forall|t: Type| pre.ty_wf(t) ==> post.ty_wf(t) && post.ty_denot(t) == pre.ty_denot(t),
        forall|e: Exp| pre.exp_wf(e) ==> post.exp_wf(e) && post.exp_denot(e) == pre.exp_denot(e),
{
    assert forall|t: Type| pre.ty_wf(t) implies post.ty_wf(t) && post.ty_denot(t)
        == pre.ty_denot(t) by {
        lemma_ty_denot_prefix(pre.ty_nodes(), post.ty_nodes(), t.id as int);
    }
    assert forall|e: Exp| pre.exp_wf(e) implies post.exp_wf(e) && post.exp_denot(e)
        == pre.exp_denot(e) by {
        lemma_exp_denot_prefix(
            pre.exp_nodes(),
            post.exp_nodes(),
            pre.ty_nodes(),
            post.ty_nodes(),
            e.id as int,
        );
    }
}

pub proof fn lemma_extends_trans(a: Interner, b: Interner, c: Interner)
    requires
        b.extends(a),
        c.extends(b),
    ensures
        c.extends(a),
{
    assert(c.ty_nodes().subrange(0, a.ty_nodes().len() as int) =~= a.ty_nodes());
    assert(c.exp_nodes().subrange(0, a.exp_nodes().len() as int) =~= a.exp_nodes());
}

proof fn lemma_interned_ty_extends(pre: Interner, post: Interner, nv: TyNodeV, t: Type)
    requires
        interned_ty(pre, post, nv, t),
    ensures
        post.extends(pre),
{
    if !pre.ty_nodes().contains(nv) {
        lemma_push_prefix(pre.ty_nodes(), nv);
    }
}

proof fn lemma_interned_exp_extends(pre: Interner, post: Interner, nv: ExpNodeV, e: Exp)
    requires
        interned_exp(pre, post, nv, e),
    ensures
        post.extends(pre),
{
    if !pre.exp_nodes().contains(nv) {
        lemma_push_prefix(pre.exp_nodes(), nv);
    }
}

/// Exactly what interning a type node does: the expression arena is
/// untouched; the handle names a slot holding the candidate's value; the
/// type arena is unchanged when the value was already present and grows by
/// exactly that value otherwise.
pub open spec fn interned_ty(pre: Interner, post: Interner, nv: TyNodeV, t: Type) -> bool {
    &&& post.exp_nodes() == pre.exp_nodes()
    &&& t.id < post.ty_nodes().len()
    &&& post.ty_nodes()[t.id as int] == nv
    &&& if pre.ty_nodes().contains(nv) {
        post.ty_nodes() == pre.ty_nodes()
    } else {
        post.ty_nodes() == pre.ty_nodes().push(nv)
    }
}

/// Exactly what interning an expression node does.
pub open spec fn interned_exp(pre: Interner, post: Interner, nv: ExpNodeV, e: Exp) -> bool {
    &&& post.ty_nodes() == pre.ty_nodes()
    &&& e.id < post.exp_nodes().len()
    &&& post.exp_nodes()[e.id as int] == nv
    &&& if pre.exp_nodes().contains(nv) {
        post.exp_nodes() == pre.exp_nodes()
    } else {
        post.exp_nodes() == pre.exp_nodes().push(nv)
    }
}

/// Structural equality of two type nodes (children compared as handles).
fn ty_node_eq(a: &ActualType, b: &ActualType) -> (r: bool)
    ensures
        r == (a@ == b@),
{
    match (a, b) {
        (ActualType::Named(s1), ActualType::Named(s2)) => *s1 == *s2,
        (ActualType::Arrow(a1, r1), ActualType::Arrow(a2, r2)) => a1.id == a2.id && r1.id
            == r2.id,
        (ActualType::Tuple(v1), ActualType::Tuple(v2)) => ty_handles_eq(v1, v2),
        (ActualType::Mu(x1, t1), ActualType::Mu(x2, t2)) => *x1 == *x2 && t1.id == t2.id,
        (ActualType::Variant(c1), ActualType::Variant(c2)) => named_ty_handles_eq(c1, c2),
        _ => false,
    }
}

/// Elementwise equality of two handle lists.
fn ty_handles_eq(v1: &Vec<Type>, v2: &Vec<Type>) -> (r: bool)
    ensures
        r == (ty_ids(v1@) == ty_ids(v2@)),
{
    if v1.len() != v2.len() {
        proof {
            assert(ty_ids(v1@).len() != ty_ids(v2@).len());
        }
        return false;
    }
    let n = v1.len();
    for i in 0..n
        invariant
            n == v1@.len(),
            n == v2@.len(),
            forall|k: int| 0 <= k < i ==> ty_ids(v1@)[k] == ty_ids(v2@)[k],
    {
        if v1[i].id != v2[i].id {
            proof {
                assert(ty_ids(v1@)[i as int] != ty_ids(v2@)[i as int]);
            }
            return false;
        }
    }
    proof {
        assert(ty_ids(v1@) =~= ty_ids(v2@));
    }
    true
}

/// Elementwise equality of two constructor lists: names and type handles.
fn named_ty_handles_eq(v1: &Vec<(String, Type)>, v2: &Vec<(String, Type)>) -> (r: bool)
    ensures
        r == (named_ty_ids(v1@) == named_ty_ids(v2@)),
{
    if v1.len() != v2.len() {
        proof {
            assert(named_ty_ids(v1@).len() != named_ty_ids(v2@).len());
        }
        return false;
    }
    let n = v1.len();
    for i in 0..n
        invariant
            n == v1@.len(),
            n == v2@.len(),
            forall|k: int| 0 <= k < i ==> named_ty_ids(v1@)[k] == named_ty_ids(v2@)[k],
    {
        let name_eq = v1[i].0 == v2[i].0;
        if !name_eq || v1[i].1.id != v2[i].1.id {
            proof {
                assert(named_ty_ids(v1@)[i as int] != named_ty_ids(v2@)[i as int]);
            }
            return false;
        }
    }
    proof {
        assert(named_ty_ids(v1@) =~= named_ty_ids(v2@));
    }
    true
}

/// Structural equality of two expression nodes.
fn exp_node_eq(a: &ActualExp, b: &ActualExp) -> (r: bool)
    ensures
        r == (a@ == b@),
{
    match (a, b) {
        (ActualExp::Var(s1), ActualExp::Var(s2)) => *s1 == *s2,
        (ActualExp::Wildcard, ActualExp::Wildcard) => true,
        (ActualExp::App(f1, a1), ActualExp::App(f2, a2)) => f1.id == f2.id && a1.id == a2.id,
        (ActualExp::Func(p1, e1), ActualExp::Func(p2, e2)) => {
            let name_eq = p1.name == p2.name;
            name_eq && p1.ty.id == p2.ty.id && e1.id == e2.id
        },
        (ActualExp::CTor(c1, e1), ActualExp::CTor(c2, e2)) => {
            let name_eq = *c1 == *c2;
            name_eq && e1.id == e2.id
        },
        (ActualExp::Unctor(c1, e1), ActualExp::Unctor(c2, e2)) => {
            let name_eq = *c1 == *c2;
            name_eq && e1.id == e2.id
        },
        (ActualExp::Eq(p1, a1, b1), ActualExp::Eq(p2, a2, b2)) => *p1 == *p2 && a1.id == a2.id
            && b1.id == b2.id,
        (ActualExp::Match(e1, bs1), ActualExp::Match(e2, bs2)) => e1.id == e2.id && branches_eq(
            bs1,
            bs2,
        ),
        (ActualExp::Fix(x1, t1, e1), ActualExp::Fix(x2, t2, e2)) => {
            let name_eq = *x1 == *x2;
            name_eq && t1.id == t2.id && e1.id == e2.id
        },
        (ActualExp::Tuple(v1), ActualExp::Tuple(v2)) => exp_handles_eq(v1, v2),
        (ActualExp::Proj(n1, e1), ActualExp::Proj(n2, e2)) => *n1 == *n2 && e1.id == e2.id,
        _ => false,
    }
}

/// Elementwise equality of two expression handle lists.
fn exp_handles_eq(v1: &Vec<Exp>, v2: &Vec<Exp>) -> (r: bool)
    ensures
        r == (exp_ids(v1@) == exp_ids(v2@)),
{
    if v1.len() != v2.len() {
        proof {
            assert(exp_ids(v1@).len() != exp_ids(v2@).len());
        }
        return false;
    }
    let n = v1.len();
    for i in 0..n
        invariant
            n == v1@.len(),
            n == v2@.len(),
            forall|k: int| 0 <= k < i ==> exp_ids(v1@)[k] == exp_ids(v2@)[k],
    {
        if v1[i].id != v2[i].id {
            proof {
                assert(exp_ids(v1@)[i as int] != exp_ids(v2@)[i as int]);
            }
            return false;
        }
    }
    proof {
        assert(exp_ids(v1@) =~= exp_ids(v2@));
    }
    true
}

/// Elementwise equality of two branch lists: patterns structurally, bodies
/// as handles.
fn branches_eq(v1: &Vec<(Pattern, Exp)>, v2: &Vec<(Pattern, Exp)>) -> (r: bool)
    ensures
        r == (branches_v(v1@) == branches_v(v2@)),
{
    if v1.len() != v2.len() {
        proof {
            assert(branches_v(v1@).len() != branches_v(v2@).len());
        }
        return false;
    }
    let n = v1.len();
    for i in 0..n
        invariant
            n == v1@.len(),
            n == v2@.len(),
            forall|k: int| 0 <= k < i ==> branches_v(v1@)[k] == branches_v(v2@)[k],
    {
        if !pattern_eq(&v1[i].0, &v2[i].0) || v1[i].1.id != v2[i].1.id {
            proof {
                assert(branches_v(v1@)[i as int] != branches_v(v2@)[i as int]);
            }
            return false;
        }
    }
    proof {
        assert(branches_v(v1@) =~= branches_v(v2@));
    }
    true
}

/// Structural equality of two patterns.
pub fn pattern_eq(a: &Pattern, b: &Pattern) -> (r: bool)
    ensures
        r == (pat_v(*a) == pat_v(*b)),
    decreases *a,
{
    match (a, b) {
        (Pattern::Tuple(v1), Pattern::Tuple(v2)) => patterns_eq(v1, v2),
        (Pattern::Ctor(c1, p1), Pattern::Ctor(c2, p2)) => {
            let name_eq = *c1 == *c2;
            name_eq && pattern_eq(p1, p2)
        },
        (Pattern::Var(x1), Pattern::Var(x2)) => *x1 == *x2,
        (Pattern::Wildcard, Pattern::Wildcard) => true,
        _ => false,
    }
}

/// Elementwise structural equality of two pattern lists.
pub fn patterns_eq(v1: &Vec<Pattern>, v2: &Vec<Pattern>) -> (r: bool)
    ensures
        r == (pats_v(v1@) == pats_v(v2@)),
    decreases *v1,
{
    proof {
        lemma_pats_v_len(v1@);
        lemma_pats_v_len(v2@);
    }
    if v1.len() != v2.len() {
        return false;
    }
    let n = v1.len();
    for i in 0..n
        invariant
            n == v1@.len(),
            n == v2@.len(),
            forall|k: int| 0 <= k < i ==> pats_v(v1@)[k] == pats_v(v2@)[k],
    {
        proof {
            lemma_pats_v_index(v1@, i as int);
            lemma_pats_v_index(v2@, i as int);
            assert(decreases_to!(*v1 => v1@[i as int]));
        }
        if !pattern_eq(&v1[i], &v2[i]) {
            proof {
                lemma_pats_v_len(v1@);
                lemma_pats_v_len(v2@);
                assert(pats_v(v1@)[i as int] != pats_v(v2@)[i as int]);
            }
            return false;
        }
    }
    proof {
        lemma_pats_v_len(v1@);
        lemma_pats_v_len(v2@);
        assert(pats_v(v1@) =~= pats_v(v2@));
    }
    true
}

pub proof fn lemma_pats_v_len(s: Seq<Pattern>)
    ensures
        pats_v(s).len() == s.len(),
    decreases s.len(),
{
    if s.len() > 0 {
        lemma_pats_v_len(s.drop_last());
    }
}

pub proof fn lemma_pats_v_index(s: Seq<Pattern>, i: int)
    requires
        0 <= i < s.len(),
    ensures
        pats_v(s)[i] == pat_v(s[i]),
    decreases s.len(),
{
    lemma_pats_v_len(s);
    if i == s.len() - 1 {
        lemma_pats_v_len(s.drop_last());
    } else {
        lemma_pats_v_index(s.drop_last(), i);
        lemma_pats_v_len(s.drop_last());
        assert(s.drop_last()[i] == s[i]);
    }
}

} // verus!
