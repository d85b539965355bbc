//! A size for solver-side values that moving across binders does not
//! change. Conversions that move a value before they walk into it use it to
//! show that they end.
use vstd::prelude::*;
use crate::shift::{
    Direction, shift_alias, shift_arg, shift_args, shift_clause, shift_clauses, shift_const,
    shift_ty, shift_where_clause,
};
use crate::solver::{
    AliasTyView, ConstView, GenericArgView, QuantifiedWhereClauseView, TyView, WhereClauseView,
};

verus! {

/// The size of a constant.
pub open spec fn rank_const(k: ConstView) -> nat
    decreases k,
{
    1 + rank_ty(*k.ty)
}

/// The size of a generic argument; at least one.
pub open spec fn rank_arg(a: GenericArgView) -> nat
    decreases a,
{
    match a {
        GenericArgView::Ty(t) => 1 + rank_ty(t),
        GenericArgView::Lifetime(_) => 1,
        GenericArgView::Const(k) => 1 + rank_const(k),
    }
}

/// The size of a list of generic arguments: the sum of the sizes.
pub open spec fn rank_args(s: Seq<GenericArgView>) -> nat
    decreases s,
{
    if s.len() == 0 {
        0
    } else {
        rank_args(s.drop_last()) + rank_arg(s.last())
    }
}

/// The size of an alias.
pub open spec fn rank_alias(a: AliasTyView) -> nat
    decreases a,
{
    match a {
        AliasTyView::Projection(p) => 1 + rank_args(p.substitution),
        AliasTyView::Opaque(_, s) => 1 + rank_args(s),
    }
}

/// The size of a where-clause.
pub open spec fn rank_where_clause(wc: WhereClauseView) -> nat
    decreases wc,
{
    match wc {
        WhereClauseView::Implemented(tr) => 1 + rank_args(tr.substitution),
        WhereClauseView::AliasEq(a, t) => 1 + rank_alias(a) + rank_ty(t),
        WhereClauseView::LifetimeOutlives(_, _) => 1,
        WhereClauseView::TypeOutlives(t, _) => 1 + rank_ty(t),
    }
}

/// The size of a quantified where-clause; at least one.
pub open spec fn rank_clause(q: QuantifiedWhereClauseView) -> nat
    decreases q,
{
    1 + rank_where_clause(q.value)
}

/// The size of a list of quantified where-clauses: the sum of the sizes.
pub open spec fn rank_clauses(s: Seq<QuantifiedWhereClauseView>) -> nat
    decreases s,
{
    if s.len() == 0 {
        0
    } else {
        rank_clauses(s.drop_last()) + rank_clause(s.last())
    }
}

/// The size of a type: one more than the sizes of its parts.
pub open spec fn rank_ty(t: TyView) -> nat
    decreases t,
{
    match t {
        TyView::Adt(_, s)
        | TyView::AssociatedType(_, s)
        | TyView::Tuple(_, s)
        | TyView::OpaqueType(_, s)
        | TyView::FnDef(_, s)
        | TyView::Closure(_, s)
        | TyView::Generator(_, s)
        | TyView::GeneratorWitness(_, s) => 1 + rank_args(s),
        TyView::Array(e, k) => 1 + rank_ty(*e) + rank_const(k),
        TyView::Slice(e) | TyView::Raw(_, e) | TyView::Ref(_, _, e) => 1 + rank_ty(*e),
        TyView::Dyn { binders, bounds, lifetime } => 1 + rank_clauses(bounds),
        TyView::Alias(a) => 1 + rank_alias(a),
        TyView::Function { num_binders, sig, substitution } => 1 + rank_args(substitution),
        _ => 1,
    }
}

/// An argument is smaller than the list that holds it.
pub proof fn lemma_rank_arg_in_args(s: Seq<GenericArgView>, i: int)
    requires
        0 <= i < s.len(),
    ensures
        rank_arg(s[i]) <= rank_args(s),
    decreases s.len(),
{
    if i < s.len() - 1 {
        lemma_rank_arg_in_args(s.drop_last(), i);
    }
}

/// A clause is smaller than the list that holds it.
pub proof fn lemma_rank_clause_in_clauses(s: Seq<QuantifiedWhereClauseView>, i: int)
    requires
        0 <= i < s.len(),
    ensures
        rank_clause(s[i]) <= rank_clauses(s),
    decreases s.len(),
{
    if i < s.len() - 1 {
        lemma_rank_clause_in_clauses(s.drop_last(), i);
    }
}

/// Lists that agree in rank element by element agree in rank.
pub proof fn lemma_rank_args_pointwise(s: Seq<GenericArgView>, w: Seq<GenericArgView>)
    requires
        s.len() == w.len(),
        forall|i: int| 0 <= i < s.len() ==> rank_arg(#[trigger] s[i]) == rank_arg(w[i]),
    ensures
        rank_args(s) == rank_args(w),
    decreases s.len(),
{
    if s.len() > 0 {
        assert forall|i: int| 0 <= i < s.drop_last().len() implies rank_arg(
            #[trigger] s.drop_last()[i],
        ) == rank_arg(w.drop_last()[i]) by {
            assert(s.drop_last()[i] == s[i]);
        }
        lemma_rank_args_pointwise(s.drop_last(), w.drop_last());
        assert(rank_arg(s[s.len() - 1]) == rank_arg(w[s.len() - 1]));
    }
}

/// Lists that agree in rank element by element agree in rank.
pub proof fn lemma_rank_clauses_pointwise(
    s: Seq<QuantifiedWhereClauseView>,
    w: Seq<QuantifiedWhereClauseView>,
)
    requires
        s.len() == w.len(),
        forall|i: int| 0 <= i < s.len() ==> rank_clause(#[trigger] s[i]) == rank_clause(w[i]),
    ensures
        rank_clauses(s) == rank_clauses(w),
    decreases s.len(),
{
    if s.len() > 0 {
        assert forall|i: int| 0 <= i < s.drop_last().len() implies rank_clause(
            #[trigger] s.drop_last()[i],
        ) == rank_clause(w.drop_last()[i]) by {
            assert(s.drop_last()[i] == s[i]);
        }
        lemma_rank_clauses_pointwise(s.drop_last(), w.drop_last());
        assert(rank_clause(s[s.len() - 1]) == rank_clause(w[s.len() - 1]));
    }
}

proof fn lemma_shift_keeps_rank_const(k: ConstView, cutoff: u32, by: u32, dir: Direction)
    requires
        shift_const(k, cutoff, by, dir) is Some,
    ensures
        rank_const(shift_const(k, cutoff, by, dir).unwrap()) == rank_const(k),
    decreases k,
{
    lemma_shift_keeps_rank_ty(*k.ty, cutoff, by, dir);
}

proof fn lemma_shift_keeps_rank_arg(a: GenericArgView, cutoff: u32, by: u32, dir: Direction)
    requires
        shift_arg(a, cutoff, by, dir) is Some,
    ensures
        rank_arg(shift_arg(a, cutoff, by, dir).unwrap()) == rank_arg(a),
    decreases a,
{
    match a {
        GenericArgView::Ty(t) => lemma_shift_keeps_rank_ty(t, cutoff, by, dir),
        GenericArgView::Lifetime(_) => {},
        GenericArgView::Const(k) => lemma_shift_keeps_rank_const(k, cutoff, by, dir),
    }
}

/// Moving a list of arguments across binders does not change its rank.
pub proof fn lemma_shift_keeps_rank_args(s: Seq<GenericArgView>, cutoff: u32, by: u32, dir: Direction)
    requires
        shift_args(s, cutoff, by, dir) is Some,
    ensures
        rank_args(shift_args(s, cutoff, by, dir).unwrap()) == rank_args(s),
        shift_args(s, cutoff, by, dir).unwrap().len() == s.len(),
    decreases s,
{
    let w = shift_args(s, cutoff, by, dir).unwrap();
    assert forall|i: int| 0 <= i < s.len() implies rank_arg(#[trigger] s[i]) == rank_arg(w[i]) by {
        assert(shift_arg(s[i], cutoff, by, dir) is Some);
        lemma_shift_keeps_rank_arg(s[i], cutoff, by, dir);
    }
    lemma_rank_args_pointwise(s, w);
}

proof fn lemma_shift_keeps_rank_alias(a: AliasTyView, cutoff: u32, by: u32, dir: Direction)
    requires
        shift_alias(a, cutoff, by, dir) is Some,
    ensures
        rank_alias(shift_alias(a, cutoff, by, dir).unwrap()) == rank_alias(a),
    decreases a,
{
    match a {
        AliasTyView::Projection(p) => lemma_shift_keeps_rank_args(p.substitution, cutoff, by, dir),
        AliasTyView::Opaque(_, s) => lemma_shift_keeps_rank_args(s, cutoff, by, dir),
    }
}

/// Moving a where-clause across binders does not change its rank.
pub proof fn lemma_shift_keeps_rank_where_clause(
    wc: WhereClauseView,
    cutoff: u32,
    by: u32,
    dir: Direction,
)
    requires
        shift_where_clause(wc, cutoff, by, dir) is Some,
    ensures
        rank_where_clause(shift_where_clause(wc, cutoff, by, dir).unwrap()) == rank_where_clause(
            wc,
        ),
    decreases wc,
{
    match wc {
        WhereClauseView::Implemented(tr) => lemma_shift_keeps_rank_args(
            tr.substitution,
            cutoff,
            by,
            dir,
        ),
        WhereClauseView::AliasEq(a, t) => {
            lemma_shift_keeps_rank_alias(a, cutoff, by, dir);
            lemma_shift_keeps_rank_ty(t, cutoff, by, dir);
        },
        WhereClauseView::LifetimeOutlives(_, _) => {},
        WhereClauseView::TypeOutlives(t, _) => lemma_shift_keeps_rank_ty(t, cutoff, by, dir),
    }
}

proof fn lemma_shift_keeps_rank_clause(
    q: QuantifiedWhereClauseView,
    cutoff: u32,
    by: u32,
    dir: Direction,
)
    requires
        shift_clause(q, cutoff, by, dir) is Some,
    ensures
        rank_clause(shift_clause(q, cutoff, by, dir).unwrap()) == rank_clause(q),
    decreases q,
{
    lemma_shift_keeps_rank_where_clause(q.value, (cutoff + 1) as u32, by, dir);
}

proof fn lemma_shift_keeps_rank_clauses(
    s: Seq<QuantifiedWhereClauseView>,
    cutoff: u32,
    by: u32,
    dir: Direction,
)
    requires
        shift_clauses(s, cutoff, by, dir) is Some,
    ensures
        rank_clauses(shift_clauses(s, cutoff, by, dir).unwrap()) == rank_clauses(s),
    decreases s,
{
    let w = shift_clauses(s, cutoff, by, dir).unwrap();
    assert forall|i: int| 0 <= i < s.len() implies rank_clause(#[trigger] s[i]) == rank_clause(
        w[i],
    ) by {
        assert(shift_clause(s[i], cutoff, by, dir) is Some);
        lemma_shift_keeps_rank_clause(s[i], cutoff, by, dir);
    }
    lemma_rank_clauses_pointwise(s, w);
}

/// Moving a type across binders does not change its rank.
pub proof fn lemma_shift_keeps_rank_ty(t: TyView, cutoff: u32, by: u32, dir: Direction)
    requires
        shift_ty(t, cutoff, by, dir) is Some,
    ensures
        rank_ty(shift_ty(t, cutoff, by, dir).unwrap()) == rank_ty(t),
    decreases t,
{
    match t {
        TyView::Adt(_, s)
        | TyView::AssociatedType(_, s)
        | TyView::Tuple(_, s)
        | TyView::OpaqueType(_, s)
        | TyView::FnDef(_, s)
        | TyView::Closure(_, s)
        | TyView::Generator(_, s)
        | TyView::GeneratorWitness(_, s) => lemma_shift_keeps_rank_args(s, cutoff, by, dir),
        TyView::Array(e, k) => {
            lemma_shift_keeps_rank_ty(*e, cutoff, by, dir);
            lemma_shift_keeps_rank_const(k, cutoff, by, dir);
        },
        TyView::Slice(e) | TyView::Raw(_, e) | TyView::Ref(_, _, e) => lemma_shift_keeps_rank_ty(
            *e,
            cutoff,
            by,
            dir,
        ),
        TyView::Dyn { binders, bounds, lifetime } => lemma_shift_keeps_rank_clauses(
            bounds,
            (cutoff + 1) as u32,
            by,
            dir,
        ),
        TyView::Alias(a) => lemma_shift_keeps_rank_alias(a, cutoff, by, dir),
        TyView::Function { num_binders, sig, substitution } => lemma_shift_keeps_rank_args(
            substitution,
            (cutoff + 1) as u32,
            by,
            dir,
        ),
        _ => {},
    }
}

} // verus!
