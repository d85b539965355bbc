//! Moving values across binders.
//!
//! A bound variable counts the binders between itself and the one that binds
//! it. When a value is placed under further binders, the variables that
//! point outside the value must count more; when binders around a value are
//! removed, they must count less, and none may point at a removed binder.
//! Variables bound inside the value are left alone: `cutoff` counts the
//! binders that the walk has gone under.
use vstd::prelude::*;
use crate::primitive::BoundVar;
use crate::solver::{
    VariableKind, AliasEq, AliasTy, AliasTyView, Const, ConstValue, ConstView, DynTy, FnPointer, GenericArg,
    GenericArgView, Lifetime, OpaqueTy, ProjectionTy, ProjectionTyView, QuantifiedWhereClause,
    QuantifiedWhereClauseView, Substitution, TraitRef, TraitRefView, Ty, TyView, WhereClause,
    WhereClauseView, args_view, clauses_view,
};

verus! {

/// Which way a value moves.
#[derive(Clone, Copy, Debug, PartialEq, Eq, Structural)]
pub enum Direction {
    /// Under `by` new binders.
    In,
    /// Out of `by` binders.
    Out,
}

/// A variable after the move, or nothing when it cannot be moved: inwards,
/// when its depth would leave the range of `u32`; outwards, when it is bound
/// by one of the binders that go away.
pub open spec fn shift_var(bv: BoundVar, cutoff: u32, by: u32, dir: Direction) -> Option<BoundVar> {
    if bv.debruijn < cutoff {
        Some(bv)
    } else {
        match dir {
            Direction::In => if bv.debruijn + by <= u32::MAX {
                Some(BoundVar { debruijn: (bv.debruijn + by) as u32, index: bv.index })
            } else {
                None
            },
            Direction::Out => if bv.debruijn - cutoff < by {
                None
            } else {
                Some(BoundVar { debruijn: (bv.debruijn - by) as u32, index: bv.index })
            },
        }
    }
}

/// A lifetime after the move: only a bound variable changes.
pub open spec fn shift_lifetime(l: Lifetime, cutoff: u32, by: u32, dir: Direction) -> Option<Lifetime> {
    match l {
        Lifetime::BoundVar(bv) => match shift_var(bv, cutoff, by, dir) {
            Some(bv2) => Some(Lifetime::BoundVar(bv2)),
            None => None,
        },
        _ => Some(l),
    }
}

/// A constant: its type moves with it.
pub open spec fn shift_const(k: ConstView, cutoff: u32, by: u32, dir: Direction) -> Option<ConstView>
    decreases k,
{
    match shift_ty(*k.ty, cutoff, by, dir) {
        Some(t2) => match k.value {
            ConstValue::BoundVar(bv) => match shift_var(bv, cutoff, by, dir) {
                Some(bv2) => Some(ConstView { ty: Box::new(t2), value: ConstValue::BoundVar(bv2) }),
                None => None,
            },
            _ => Some(ConstView { ty: Box::new(t2), value: k.value }),
        },
        None => None,
    }
}

/// A generic argument after the move.
pub open spec fn shift_arg(a: GenericArgView, cutoff: u32, by: u32, dir: Direction) -> Option<GenericArgView>
    decreases a,
{
    match a {
        GenericArgView::Ty(t) => match shift_ty(t, cutoff, by, dir) {
            Some(t2) => Some(GenericArgView::Ty(t2)),
            None => None,
        },
        GenericArgView::Lifetime(l) => match shift_lifetime(l, cutoff, by, dir) {
            Some(l2) => Some(GenericArgView::Lifetime(l2)),
            None => None,
        },
        GenericArgView::Const(k) => match shift_const(k, cutoff, by, dir) {
            Some(k2) => Some(GenericArgView::Const(k2)),
            None => None,
        },
    }
}

/// All arguments moved, if each of them can be.
pub open spec fn shift_args(s: Seq<GenericArgView>, cutoff: u32, by: u32, dir: Direction) -> Option<Seq<GenericArgView>>
    decreases s,
{
    if forall|i: int| 0 <= i < s.len() ==> shift_arg(#[trigger] s[i], cutoff, by, dir) is Some {
        Some(
            Seq::new(
                s.len(),
                |i: int| if 0 <= i < s.len() { shift_arg(s[i], cutoff, by, dir).unwrap() } else { s[i] },
            ),
        )
    } else {
        None
    }
}

/// A trait reference after the move.
pub open spec fn shift_trait_ref(tr: TraitRefView, cutoff: u32, by: u32, dir: Direction) -> Option<TraitRefView>
    decreases tr,
{
    match shift_args(tr.substitution, cutoff, by, dir) {
        Some(s) => Some(TraitRefView { trait_id: tr.trait_id, substitution: s }),
        None => None,
    }
}

/// A projection after the move.
pub open spec fn shift_projection(p: ProjectionTyView, cutoff: u32, by: u32, dir: Direction) -> Option<ProjectionTyView>
    decreases p,
{
    match shift_args(p.substitution, cutoff, by, dir) {
        Some(s) => Some(ProjectionTyView { associated_ty_id: p.associated_ty_id, substitution: s }),
        None => None,
    }
}

/// An alias after the move.
pub open spec fn shift_alias(a: AliasTyView, cutoff: u32, by: u32, dir: Direction) -> Option<AliasTyView>
    decreases a,
{
    match a {
        AliasTyView::Projection(p) => match shift_projection(p, cutoff, by, dir) {
            Some(p2) => Some(AliasTyView::Projection(p2)),
            None => None,
        },
        AliasTyView::Opaque(id, s) => match shift_args(s, cutoff, by, dir) {
            Some(s2) => Some(AliasTyView::Opaque(id, s2)),
            None => None,
        },
    }
}

/// A where-clause after the move.
pub open spec fn shift_where_clause(wc: WhereClauseView, cutoff: u32, by: u32, dir: Direction) -> Option<WhereClauseView>
    decreases wc,
{
    match wc {
        WhereClauseView::Implemented(tr) => match shift_trait_ref(tr, cutoff, by, dir) {
            Some(tr2) => Some(WhereClauseView::Implemented(tr2)),
            None => None,
        },
        WhereClauseView::AliasEq(a, t) => match shift_alias(a, cutoff, by, dir) {
            Some(a2) => match shift_ty(t, cutoff, by, dir) {
                Some(t2) => Some(WhereClauseView::AliasEq(a2, t2)),
                None => None,
            },
            None => None,
        },
        WhereClauseView::LifetimeOutlives(a, b) => match shift_lifetime(a, cutoff, by, dir) {
            Some(a2) => match shift_lifetime(b, cutoff, by, dir) {
                Some(b2) => Some(WhereClauseView::LifetimeOutlives(a2, b2)),
                None => None,
            },
            None => None,
        },
        WhereClauseView::TypeOutlives(t, l) => match shift_ty(t, cutoff, by, dir) {
            Some(t2) => match shift_lifetime(l, cutoff, by, dir) {
                Some(l2) => Some(WhereClauseView::TypeOutlives(t2, l2)),
                None => None,
            },
            None => None,
        },
    }
}

/// A quantified clause: its body lies under one more binder.
pub open spec fn shift_clause(q: QuantifiedWhereClauseView, cutoff: u32, by: u32, dir: Direction) -> Option<QuantifiedWhereClauseView>
    decreases q,
{
    if cutoff == u32::MAX {
        None
    } else {
        match shift_where_clause(q.value, (cutoff + 1) as u32, by, dir) {
            Some(v) => Some(QuantifiedWhereClauseView { binders: q.binders, value: v }),
            None => None,
        }
    }
}

/// All clauses moved, if each of them can be.
pub open spec fn shift_clauses(s: Seq<QuantifiedWhereClauseView>, cutoff: u32, by: u32, dir: Direction) -> Option<Seq<QuantifiedWhereClauseView>>
    decreases s,
{
    if forall|i: int| 0 <= i < s.len() ==> shift_clause(#[trigger] s[i], cutoff, by, dir) is Some {
        Some(
            Seq::new(
                s.len(),
                |i: int| if 0 <= i < s.len() { shift_clause(s[i], cutoff, by, dir).unwrap() } else { s[i] },
            ),
        )
    } else {
        None
    }
}

/// A type after the move. The substitution of a function pointer lies
/// under one more binder, the bounds of a trait object under one more and
/// each of them under its own.
pub open spec fn shift_ty(t: TyView, cutoff: u32, by: u32, dir: Direction) -> Option<TyView>
    decreases t,
{
    match t {
        TyView::Adt(id, s) => match shift_args(s, cutoff, by, dir) {
            Some(s2) => Some(TyView::Adt(id, s2)),
            None => None,
        },
        TyView::AssociatedType(id, s) => match shift_args(s, cutoff, by, dir) {
            Some(s2) => Some(TyView::AssociatedType(id, s2)),
            None => None,
        },
        TyView::Tuple(n, s) => match shift_args(s, cutoff, by, dir) {
            Some(s2) => Some(TyView::Tuple(n, s2)),
            None => None,
        },
        TyView::Array(e, k) => match shift_ty(*e, cutoff, by, dir) {
            Some(e2) => match shift_const(k, cutoff, by, dir) {
                Some(k2) => Some(TyView::Array(Box::new(e2), k2)),
                None => None,
            },
            None => None,
        },
        TyView::Slice(e) => match shift_ty(*e, cutoff, by, dir) {
            Some(e2) => Some(TyView::Slice(Box::new(e2))),
            None => None,
        },
        TyView::Raw(m, e) => match shift_ty(*e, cutoff, by, dir) {
            Some(e2) => Some(TyView::Raw(m, Box::new(e2))),
            None => None,
        },
        TyView::Ref(m, l, e) => match shift_lifetime(l, cutoff, by, dir) {
            Some(l2) => match shift_ty(*e, cutoff, by, dir) {
                Some(e2) => Some(TyView::Ref(m, l2, Box::new(e2))),
                None => None,
            },
            None => None,
        },
        TyView::OpaqueType(id, s) => match shift_args(s, cutoff, by, dir) {
            Some(s2) => Some(TyView::OpaqueType(id, s2)),
            None => None,
        },
        TyView::FnDef(id, s) => match shift_args(s, cutoff, by, dir) {
            Some(s2) => Some(TyView::FnDef(id, s2)),
            None => None,
        },
        TyView::Closure(id, s) => match shift_args(s, cutoff, by, dir) {
            Some(s2) => Some(TyView::Closure(id, s2)),
            None => None,
        },
        TyView::Generator(id, s) => match shift_args(s, cutoff, by, dir) {
            Some(s2) => Some(TyView::Generator(id, s2)),
            None => None,
        },
        TyView::GeneratorWitness(id, s) => match shift_args(s, cutoff, by, dir) {
            Some(s2) => Some(TyView::GeneratorWitness(id, s2)),
            None => None,
        },
        TyView::Dyn { binders, bounds, lifetime } => if cutoff == u32::MAX {
            None
        } else {
            match shift_clauses(bounds, (cutoff + 1) as u32, by, dir) {
                Some(b2) => match shift_lifetime(lifetime, cutoff, by, dir) {
                    Some(l2) => Some(TyView::Dyn { binders, bounds: b2, lifetime: l2 }),
                    None => None,
                },
                None => None,
            }
        },
        TyView::Alias(a) => match shift_alias(a, cutoff, by, dir) {
            Some(a2) => Some(TyView::Alias(a2)),
            None => None,
        },
        TyView::Function { num_binders, sig, substitution } => if cutoff == u32::MAX {
            None
        } else {
            match shift_args(substitution, (cutoff + 1) as u32, by, dir) {
                Some(s2) => Some(TyView::Function { num_binders, sig, substitution: s2 }),
                None => None,
            }
        },
        TyView::BoundVar(bv) => match shift_var(bv, cutoff, by, dir) {
            Some(bv2) => Some(TyView::BoundVar(bv2)),
            None => None,
        },
        TyView::Scalar(_)
        | TyView::Str
        | TyView::Never
        | TyView::Foreign(_)
        | TyView::Error
        | TyView::Placeholder(_)
        | TyView::InferenceVar(_, _) => Some(t),
    }
}

/// The executable counterpart of [`shift_var`]. The depth arithmetic is the
/// solver's own.
pub fn shift_bound_var(bv: BoundVar, cutoff: u32, by: u32, dir: Direction) -> (r: Option<BoundVar>)
    ensures
        r == shift_var(bv, cutoff, by, dir),
{
    match bv.shifted_out_to(cutoff) {
        None => Some(bv),
        Some(free) => match dir {
            Direction::In => {
                if by > u32::MAX - bv.debruijn {
                    None
                } else {
                    Some(free.shifted_in_from(by).shifted_in_from(cutoff))
                }
            },
            Direction::Out => match free.shifted_out_to(by) {
                None => None,
                Some(moved) => Some(moved.shifted_in_from(cutoff)),
            },
        },
    }
}

/// A copy of a list of binder kinds.
pub fn copy_kinds(kinds: &Vec<VariableKind>) -> (r: Vec<VariableKind>)
    ensures
        r@ == kinds@,
{
    let mut out: Vec<VariableKind> = Vec::new();
    let mut i: usize = 0;
    while i < kinds.len()
        invariant
            i <= kinds.len(),
            out@ == kinds@.take(i as int),
        decreases kinds.len() - i,
    {
        out.push(kinds[i]);
        assert(kinds@.take(i + 1) =~= kinds@.take(i as int).push(kinds@[i as int]));
        i += 1;
    }
    assert(kinds@.take(kinds.len() as int) =~= kinds@);
    out
}

impl Lifetime {
    /// The lifetime after the move.
    pub fn shift(self, cutoff: u32, by: u32, dir: Direction) -> (r: Option<Lifetime>)
        ensures
            r == shift_lifetime(self, cutoff, by, dir),
    {
        match self {
            Lifetime::BoundVar(bv) => match shift_bound_var(bv, cutoff, by, dir) {
                Some(bv2) => Some(Lifetime::BoundVar(bv2)),
                None => None,
            },
            _ => Some(self),
        }
    }
}

impl Const {
    /// The constant after the move.
    pub fn shift(&self, cutoff: u32, by: u32, dir: Direction) -> (r: Option<Const>)
        ensures
            match r {
                Some(x) => shift_const(self@, cutoff, by, dir) == Some(x@),
                None => shift_const(self@, cutoff, by, dir) is None,
            },
        decreases self,
    {
        match self.ty.shift(cutoff, by, dir) {
            Some(t) => match self.value {
                ConstValue::BoundVar(bv) => match shift_bound_var(bv, cutoff, by, dir) {
                    Some(bv2) => Some(Const { ty: Box::new(t), value: ConstValue::BoundVar(bv2) }),
                    None => None,
                },
                _ => Some(Const { ty: Box::new(t), value: self.value }),
            },
            None => None,
        }
    }
}

impl GenericArg {
    /// The argument after the move.
    pub fn shift(&self, cutoff: u32, by: u32, dir: Direction) -> (r: Option<GenericArg>)
        ensures
            match r {
                Some(x) => shift_arg(self@, cutoff, by, dir) == Some(x@),
                None => shift_arg(self@, cutoff, by, dir) is None,
            },
        decreases self,
    {
        match self {
            GenericArg::Ty(t) => match t.shift(cutoff, by, dir) {
                Some(t2) => Some(GenericArg::Ty(t2)),
                None => None,
            },
            GenericArg::Lifetime(l) => match l.shift(cutoff, by, dir) {
                Some(l2) => Some(GenericArg::Lifetime(l2)),
                None => None,
            },
            GenericArg::Const(k) => match k.shift(cutoff, by, dir) {
                Some(k2) => Some(GenericArg::Const(k2)),
                None => None,
            },
        }
    }
}

/// Moves every argument of a list.
pub fn shift_arg_vec(args: &Vec<GenericArg>, cutoff: u32, by: u32, dir: Direction) -> (r: Option<Vec<GenericArg>>)
    ensures
        match r {
            Some(x) => shift_args(args_view(args@), cutoff, by, dir) == Some(args_view(x@)),
            None => shift_args(args_view(args@), cutoff, by, dir) is None,
        },
    decreases args,
{
    let ghost s = args_view(args@);
    let mut out: Vec<GenericArg> = Vec::new();
    let mut i: usize = 0;
    while i < args.len()
        invariant
            i <= args.len(),
            out.len() == i,
            s == args_view(args@),
            forall|j: int| 0 <= j < i ==> shift_arg(#[trigger] s[j], cutoff, by, dir) == Some(out@[j]@),
        decreases args.len() - i,
    {
        match args[i].shift(cutoff, by, dir) {
            Some(x) => out.push(x),
            None => {
                assert(shift_arg(s[i as int], cutoff, by, dir) is None);
                return None;
            },
        }
        i += 1;
    }
    assert(shift_args(s, cutoff, by, dir).unwrap() =~= args_view(out@));
    Some(out)
}

impl Substitution {
    /// The substitution after the move.
    pub fn shift(&self, cutoff: u32, by: u32, dir: Direction) -> (r: Option<Substitution>)
        ensures
            match r {
                Some(x) => shift_args(self@, cutoff, by, dir) == Some(x@),
                None => shift_args(self@, cutoff, by, dir) is None,
            },
        decreases self,
    {
        match shift_arg_vec(&self.0, cutoff, by, dir) {
            Some(v) => Some(Substitution(v)),
            None => None,
        }
    }

    /// The substitution as seen from under `by` further binders.
    pub fn shifted_in(&self, by: u32) -> (r: Option<Substitution>)
        ensures
            match r {
                Some(x) => shift_args(self@, 0, by, Direction::In) == Some(x@),
                None => shift_args(self@, 0, by, Direction::In) is None,
            },
    {
        self.shift(0, by, Direction::In)
    }

    /// The substitution as seen from outside `by` binders that bind nothing
    /// in it.
    pub fn shifted_out(&self, by: u32) -> (r: Option<Substitution>)
        ensures
            match r {
                Some(x) => shift_args(self@, 0, by, Direction::Out) == Some(x@),
                None => shift_args(self@, 0, by, Direction::Out) is None,
            },
    {
        self.shift(0, by, Direction::Out)
    }
}

impl TraitRef {
    /// The trait reference after the move.
    pub fn shift(&self, cutoff: u32, by: u32, dir: Direction) -> (r: Option<TraitRef>)
        ensures
            match r {
                Some(x) => shift_trait_ref(self@, cutoff, by, dir) == Some(x@),
                None => shift_trait_ref(self@, cutoff, by, dir) is None,
            },
        decreases self,
    {
        match self.substitution.shift(cutoff, by, dir) {
            Some(s) => Some(TraitRef { trait_id: self.trait_id, substitution: s }),
            None => None,
        }
    }

    /// The trait reference as seen from under `by` further binders.
    pub fn shifted_in(&self, by: u32) -> (r: Option<TraitRef>)
        ensures
            match r {
                Some(x) => shift_trait_ref(self@, 0, by, Direction::In) == Some(x@),
                None => shift_trait_ref(self@, 0, by, Direction::In) is None,
            },
    {
        self.shift(0, by, Direction::In)
    }
}

impl ProjectionTy {
    /// The projection after the move.
    pub fn shift(&self, cutoff: u32, by: u32, dir: Direction) -> (r: Option<ProjectionTy>)
        ensures
            match r {
                Some(x) => shift_projection(self@, cutoff, by, dir) == Some(x@),
                None => shift_projection(self@, cutoff, by, dir) is None,
            },
        decreases self,
    {
        match self.substitution.shift(cutoff, by, dir) {
            Some(s) => Some(ProjectionTy { associated_ty_id: self.associated_ty_id, substitution: s }),
            None => None,
        }
    }

    /// The projection as seen from under `by` further binders.
    pub fn shifted_in(&self, by: u32) -> (r: Option<ProjectionTy>)
        ensures
            match r {
                Some(x) => shift_projection(self@, 0, by, Direction::In) == Some(x@),
                None => shift_projection(self@, 0, by, Direction::In) is None,
            },
    {
        self.shift(0, by, Direction::In)
    }
}

impl AliasTy {
    /// The alias after the move.
    pub fn shift(&self, cutoff: u32, by: u32, dir: Direction) -> (r: Option<AliasTy>)
        ensures
            match r {
                Some(x) => shift_alias(self@, cutoff, by, dir) == Some(x@),
                None => shift_alias(self@, cutoff, by, dir) is None,
            },
        decreases self,
    {
        match self {
            AliasTy::Projection(p) => match p.shift(cutoff, by, dir) {
                Some(p2) => Some(AliasTy::Projection(p2)),
                None => None,
            },
            AliasTy::Opaque(o) => match o.substitution.shift(cutoff, by, dir) {
                Some(s) => Some(AliasTy::Opaque(OpaqueTy { opaque_ty_id: o.opaque_ty_id, substitution: s })),
                None => None,
            },
        }
    }
}

impl WhereClause {
    /// The where-clause after the move.
    pub fn shift(&self, cutoff: u32, by: u32, dir: Direction) -> (r: Option<WhereClause>)
        ensures
            match r {
                Some(x) => shift_where_clause(self@, cutoff, by, dir) == Some(x@),
                None => shift_where_clause(self@, cutoff, by, dir) is None,
            },
        decreases self,
    {
        match self {
            WhereClause::Implemented(tr) => match tr.shift(cutoff, by, dir) {
                Some(tr2) => Some(WhereClause::Implemented(tr2)),
                None => None,
            },
            WhereClause::AliasEq(eq) => match eq.alias.shift(cutoff, by, dir) {
                Some(a2) => match eq.ty.shift(cutoff, by, dir) {
                    Some(t2) => Some(WhereClause::AliasEq(AliasEq { alias: a2, ty: t2 })),
                    None => None,
                },
                None => None,
            },
            WhereClause::LifetimeOutlives(a, b) => match a.shift(cutoff, by, dir) {
                Some(a2) => match b.shift(cutoff, by, dir) {
                    Some(b2) => Some(WhereClause::LifetimeOutlives(a2, b2)),
                    None => None,
                },
                None => None,
            },
            WhereClause::TypeOutlives(t, l) => match t.shift(cutoff, by, dir) {
                Some(t2) => match l.shift(cutoff, by, dir) {
                    Some(l2) => Some(WhereClause::TypeOutlives(t2, l2)),
                    None => None,
                },
                None => None,
            },
        }
    }

    /// The clause as seen from outside `by` binders that bind nothing in it.
    pub fn shifted_out(&self, by: u32) -> (r: Option<WhereClause>)
        ensures
            match r {
                Some(x) => shift_where_clause(self@, 0, by, Direction::Out) == Some(x@),
                None => shift_where_clause(self@, 0, by, Direction::Out) is None,
            },
    {
        self.shift(0, by, Direction::Out)
    }
}

impl QuantifiedWhereClause {
    /// The clause after the move; its body lies under one more binder.
    pub fn shift(&self, cutoff: u32, by: u32, dir: Direction) -> (r: Option<QuantifiedWhereClause>)
        ensures
            match r {
                Some(x) => shift_clause(self@, cutoff, by, dir) == Some(x@),
                None => shift_clause(self@, cutoff, by, dir) is None,
            },
        decreases self,
    {
        if cutoff == u32::MAX {
            return None;
        }
        match self.value.shift(cutoff + 1, by, dir) {
            Some(v) => Some(QuantifiedWhereClause { binders: copy_kinds(&self.binders), value: v }),
            None => None,
        }
    }
}

/// Moves every clause of a list.
pub fn shift_clause_vec(clauses: &Vec<QuantifiedWhereClause>, cutoff: u32, by: u32, dir: Direction) -> (r: Option<Vec<QuantifiedWhereClause>>)
    ensures
        match r {
            Some(x) => shift_clauses(clauses_view(clauses@), cutoff, by, dir) == Some(clauses_view(x@)),
            None => shift_clauses(clauses_view(clauses@), cutoff, by, dir) is None,
        },
    decreases clauses,
{
    let ghost s = clauses_view(clauses@);
    let mut out: Vec<QuantifiedWhereClause> = Vec::new();
    let mut i: usize = 0;
    while i < clauses.len()
        invariant
            i <= clauses.len(),
            out.len() == i,
            s == clauses_view(clauses@),
            forall|j: int| 0 <= j < i ==> shift_clause(#[trigger] s[j], cutoff, by, dir) == Some(out@[j]@),
        decreases clauses.len() - i,
    {
        match clauses[i].shift(cutoff, by, dir) {
            Some(x) => out.push(x),
            None => {
                assert(shift_clause(s[i as int], cutoff, by, dir) is None);
                return None;
            },
        }
        i += 1;
    }
    assert(shift_clauses(s, cutoff, by, dir).unwrap() =~= clauses_view(out@));
    Some(out)
}

impl Ty {
    /// Moves the free variables of the type `by` binders in the direction
    /// `dir`, leaving alone those bound by the `cutoff` innermost binders.
    pub fn shift(&self, cutoff: u32, by: u32, dir: Direction) -> (r: Option<Ty>)
        ensures
            match r {
                Some(x) => shift_ty(self@, cutoff, by, dir) == Some(x@),
                None => shift_ty(self@, cutoff, by, dir) is None,
            },
        decreases self,
    {
        match self {
            Ty::Adt(id, s) => match s.shift(cutoff, by, dir) {
                Some(s2) => Some(Ty::Adt(*id, s2)),
                None => None,
            },
            Ty::AssociatedType(id, s) => match s.shift(cutoff, by, dir) {
                Some(s2) => Some(Ty::AssociatedType(*id, s2)),
                None => None,
            },
            Ty::Scalar(s) => Some(Ty::Scalar(*s)),
            Ty::Tuple(n, s) => match s.shift(cutoff, by, dir) {
                Some(s2) => Some(Ty::Tuple(*n, s2)),
                None => None,
            },
            Ty::Array(e, k) => match e.shift(cutoff, by, dir) {
                Some(e2) => match k.shift(cutoff, by, dir) {
                    Some(k2) => Some(Ty::Array(Box::new(e2), k2)),
                    None => None,
                },
                None => None,
            },
            Ty::Slice(e) => match e.shift(cutoff, by, dir) {
                Some(e2) => Some(Ty::Slice(Box::new(e2))),
                None => None,
            },
            Ty::Raw(m, e) => match e.shift(cutoff, by, dir) {
                Some(e2) => Some(Ty::Raw(*m, Box::new(e2))),
                None => None,
            },
            Ty::Ref(m, l, e) => match l.shift(cutoff, by, dir) {
                Some(l2) => match e.shift(cutoff, by, dir) {
                    Some(e2) => Some(Ty::Ref(*m, l2, Box::new(e2))),
                    None => None,
                },
                None => None,
            },
            Ty::OpaqueType(id, s) => match s.shift(cutoff, by, dir) {
                Some(s2) => Some(Ty::OpaqueType(*id, s2)),
                None => None,
            },
            Ty::FnDef(id, s) => match s.shift(cutoff, by, dir) {
                Some(s2) => Some(Ty::FnDef(*id, s2)),
                None => None,
            },
            Ty::Str => Some(Ty::Str),
            Ty::Never => Some(Ty::Never),
            Ty::Closure(id, s) => match s.shift(cutoff, by, dir) {
                Some(s2) => Some(Ty::Closure(*id, s2)),
                None => None,
            },
            Ty::Generator(id, s) => match s.shift(cutoff, by, dir) {
                Some(s2) => Some(Ty::Generator(*id, s2)),
                None => None,
            },
            Ty::GeneratorWitness(id, s) => match s.shift(cutoff, by, dir) {
                Some(s2) => Some(Ty::GeneratorWitness(*id, s2)),
                None => None,
            },
            Ty::Foreign(id) => Some(Ty::Foreign(*id)),
            Ty::Error => Some(Ty::Error),
            Ty::Placeholder(p) => Some(Ty::Placeholder(*p)),
            Ty::Dyn(d) => {
                if cutoff == u32::MAX {
                    return None;
                }
                match shift_clause_vec(&d.bounds, cutoff + 1, by, dir) {
                    Some(b2) => match d.lifetime.shift(cutoff, by, dir) {
                        Some(l2) => Some(
                            Ty::Dyn(DynTy { binders: copy_kinds(&d.binders), bounds: b2, lifetime: l2 }),
                        ),
                        None => None,
                    },
                    None => None,
                }
            },
            Ty::Alias(a) => match a.shift(cutoff, by, dir) {
                Some(a2) => Some(Ty::Alias(a2)),
                None => None,
            },
            Ty::Function(f) => {
                if cutoff == u32::MAX {
                    return None;
                }
                match f.substitution.shift(cutoff + 1, by, dir) {
                    Some(s2) => Some(
                        Ty::Function(FnPointer { num_binders: f.num_binders, sig: f.sig, substitution: s2 }),
                    ),
                    None => None,
                }
            },
            Ty::BoundVar(bv) => match shift_bound_var(*bv, cutoff, by, dir) {
                Some(bv2) => Some(Ty::BoundVar(bv2)),
                None => None,
            },
            Ty::InferenceVar(iv, kind) => Some(Ty::InferenceVar(*iv, *kind)),
        }
    }

    /// The type as seen from under `by` further binders.
    pub fn shifted_in(&self, by: u32) -> (r: Option<Ty>)
        ensures
            match r {
                Some(x) => shift_ty(self@, 0, by, Direction::In) == Some(x@),
                None => shift_ty(self@, 0, by, Direction::In) is None,
            },
    {
        self.shift(0, by, Direction::In)
    }

    /// The type as seen from outside `by` binders that bind nothing in it.
    pub fn shifted_out(&self, by: u32) -> (r: Option<Ty>)
        ensures
            match r {
                Some(x) => shift_ty(self@, 0, by, Direction::Out) == Some(x@),
                None => shift_ty(self@, 0, by, Direction::Out) is None,
            },
    {
        self.shift(0, by, Direction::Out)
    }
}

/// Moving a variable in and back out gives the variable.
pub proof fn lemma_var_out_undoes_in(bv: BoundVar, cutoff: u32, by: u32)
    requires
        shift_var(bv, cutoff, by, Direction::In) is Some,
    ensures
        shift_var(shift_var(bv, cutoff, by, Direction::In).unwrap(), cutoff, by, Direction::Out)
            == Some(bv),
{
}

proof fn lemma_lifetime_out_undoes_in(l: Lifetime, cutoff: u32, by: u32)
    requires
        shift_lifetime(l, cutoff, by, Direction::In) is Some,
    ensures
        shift_lifetime(
            shift_lifetime(l, cutoff, by, Direction::In).unwrap(),
            cutoff,
            by,
            Direction::Out,
        ) == Some(l),
{
}

proof fn lemma_const_out_undoes_in(k: ConstView, cutoff: u32, by: u32)
    requires
        shift_const(k, cutoff, by, Direction::In) is Some,
    ensures
        shift_const(shift_const(k, cutoff, by, Direction::In).unwrap(), cutoff, by, Direction::Out)
            == Some(k),
    decreases k,
{
    lemma_ty_out_undoes_in(*k.ty, cutoff, by);
}

proof fn lemma_arg_out_undoes_in(a: GenericArgView, cutoff: u32, by: u32)
    requires
        shift_arg(a, cutoff, by, Direction::In) is Some,
    ensures
        shift_arg(shift_arg(a, cutoff, by, Direction::In).unwrap(), cutoff, by, Direction::Out)
            == Some(a),
    decreases a,
{
    match a {
        GenericArgView::Ty(t) => lemma_ty_out_undoes_in(t, cutoff, by),
        GenericArgView::Lifetime(l) => lemma_lifetime_out_undoes_in(l, cutoff, by),
        GenericArgView::Const(k) => lemma_const_out_undoes_in(k, cutoff, by),
    }
}

/// Moving a list of arguments in and back out gives the list.
pub proof fn lemma_args_out_undoes_in(s: Seq<GenericArgView>, cutoff: u32, by: u32)
    requires
        shift_args(s, cutoff, by, Direction::In) is Some,
    ensures
        shift_args(shift_args(s, cutoff, by, Direction::In).unwrap(), cutoff, by, Direction::Out)
            == Some(s),
    decreases s,
{
    let w = shift_args(s, cutoff, by, Direction::In).unwrap();
    assert forall|i: int| 0 <= i < w.len() implies shift_arg(
        #[trigger] w[i],
        cutoff,
        by,
        Direction::Out,
    ) == Some(s[i]) by {
        assert(shift_arg(s[i], cutoff, by, Direction::In) is Some);
        lemma_arg_out_undoes_in(s[i], cutoff, by);
    }
    assert(shift_args(w, cutoff, by, Direction::Out).unwrap() =~= s);
}

proof fn lemma_alias_out_undoes_in(a: AliasTyView, cutoff: u32, by: u32)
    requires
        shift_alias(a, cutoff, by, Direction::In) is Some,
    ensures
        shift_alias(shift_alias(a, cutoff, by, Direction::In).unwrap(), cutoff, by, Direction::Out)
            == Some(a),
    decreases a,
{
    match a {
        AliasTyView::Projection(p) => lemma_args_out_undoes_in(p.substitution, cutoff, by),
        AliasTyView::Opaque(_, s) => lemma_args_out_undoes_in(s, cutoff, by),
    }
}

/// Moving a where-clause in and back out gives the where-clause.
pub proof fn lemma_where_clause_out_undoes_in(wc: WhereClauseView, cutoff: u32, by: u32)
    requires
        shift_where_clause(wc, cutoff, by, Direction::In) is Some,
    ensures
        shift_where_clause(
            shift_where_clause(wc, cutoff, by, Direction::In).unwrap(),
            cutoff,
            by,
            Direction::Out,
        ) == Some(wc),
    decreases wc,
{
    match wc {
        WhereClauseView::Implemented(tr) => lemma_args_out_undoes_in(tr.substitution, cutoff, by),
        WhereClauseView::AliasEq(a, t) => {
            lemma_alias_out_undoes_in(a, cutoff, by);
            lemma_ty_out_undoes_in(t, cutoff, by);
        },
        WhereClauseView::LifetimeOutlives(a, b) => {
            lemma_lifetime_out_undoes_in(a, cutoff, by);
            lemma_lifetime_out_undoes_in(b, cutoff, by);
        },
        WhereClauseView::TypeOutlives(t, l) => {
            lemma_ty_out_undoes_in(t, cutoff, by);
            lemma_lifetime_out_undoes_in(l, cutoff, by);
        },
    }
}

proof fn lemma_clause_out_undoes_in(q: QuantifiedWhereClauseView, cutoff: u32, by: u32)
    requires
        shift_clause(q, cutoff, by, Direction::In) is Some,
    ensures
        shift_clause(shift_clause(q, cutoff, by, Direction::In).unwrap(), cutoff, by, Direction::Out)
            == Some(q),
    decreases q,
{
    lemma_where_clause_out_undoes_in(q.value, (cutoff + 1) as u32, by);
}

proof fn lemma_clauses_out_undoes_in(s: Seq<QuantifiedWhereClauseView>, cutoff: u32, by: u32)
    requires
        shift_clauses(s, cutoff, by, Direction::In) is Some,
    ensures
        shift_clauses(
            shift_clauses(s, cutoff, by, Direction::In).unwrap(),
            cutoff,
            by,
            Direction::Out,
        ) == Some(s),
    decreases s,
{
    let w = shift_clauses(s, cutoff, by, Direction::In).unwrap();
    assert forall|i: int| 0 <= i < w.len() implies shift_clause(
        #[trigger] w[i],
        cutoff,
        by,
        Direction::Out,
    ) == Some(s[i]) by {
        assert(shift_clause(s[i], cutoff, by, Direction::In) is Some);
        lemma_clause_out_undoes_in(s[i], cutoff, by);
    }
    assert(shift_clauses(w, cutoff, by, Direction::Out).unwrap() =~= s);
}

/// The shift inverse law: a type that could be moved under `by` binders
/// comes back unchanged when it is moved out of them again.
pub proof fn lemma_ty_out_undoes_in(t: TyView, cutoff: u32, by: u32)
    requires
        shift_ty(t, cutoff, by, Direction::In) is Some,
    ensures
        shift_ty(shift_ty(t, cutoff, by, Direction::In).unwrap(), cutoff, by, Direction::Out)
            == Some(t),
    decreases t,
{
    match t {
        TyView::Adt(_, s)
        | TyView::AssociatedType(_, s)
        | TyView::Tuple(_, s)
        | TyView::OpaqueType(_, s)
        | TyView::FnDef(_, s)
        | TyView::Closure(_, s)
        | TyView::Generator(_, s)
        | TyView::GeneratorWitness(_, s) => lemma_args_out_undoes_in(s, cutoff, by),
        TyView::Array(e, k) => {
            lemma_ty_out_undoes_in(*e, cutoff, by);
            lemma_const_out_undoes_in(k, cutoff, by);
        },
        TyView::Slice(e) | TyView::Raw(_, e) => lemma_ty_out_undoes_in(*e, cutoff, by),
        TyView::Ref(_, l, e) => {
            lemma_lifetime_out_undoes_in(l, cutoff, by);
            lemma_ty_out_undoes_in(*e, cutoff, by);
        },
        TyView::Dyn { binders, bounds, lifetime } => {
            lemma_clauses_out_undoes_in(bounds, (cutoff + 1) as u32, by);
            lemma_lifetime_out_undoes_in(lifetime, cutoff, by);
        },
        TyView::Alias(a) => lemma_alias_out_undoes_in(a, cutoff, by),
        TyView::Function { num_binders, sig, substitution } => lemma_args_out_undoes_in(
            substitution,
            (cutoff + 1) as u32,
            by,
        ),
        _ => {},
    }
}

} // verus!
