//! Repeating a conversion changes nothing: identities that have a handle
//! keep it, so a value converts to the same form however much the table has
//! grown since, and converting it again leaves the table as it is.
use vstd::prelude::*;
use crate::ids::InternKey;
use crate::intern::{extends, lemma_handle_stable};
use crate::lower::{
    covers_pred, covers_preds, covers_ty, covers_tys, lower_bounds, lower_each, lower_first,
    lower_pred, lower_ty, lower_tys, lower_tys_under_binder, reg_pred, reg_preds, reg_ty, reg_tys,
};
use crate::ty;

verus! {

/// A list of types converts to the same arguments after the table grew.
pub proof fn lemma_lower_tys_stable(s: Seq<ty::TyView>, table: Seq<InternKey>, later: Seq<InternKey>)
    requires
        covers_tys(table, s),
        extends(later, table),
        later.no_duplicates(),
        later.len() <= usize::MAX,
    ensures
        lower_each(s, later) == lower_each(s, table),
        lower_tys(s, later) == lower_tys(s, table),
        lower_first(s, later) == lower_first(s, table),
        lower_tys_under_binder(s, later) == lower_tys_under_binder(s, table),
    decreases s, 1nat,
{
    assert forall|i: int| 0 <= i < s.len() implies lower_ty(#[trigger] s[i], later) == lower_ty(
        s[i],
        table,
    ) by {
        lemma_lower_ty_stable(s[i], table, later);
    }
    assert(lower_each(s, later) =~= lower_each(s, table));
}

/// A predicate converts to the same where-clause after the table grew.
pub proof fn lemma_lower_pred_stable(p: ty::PredicateView, table: Seq<InternKey>, later: Seq<InternKey>)
    requires
        covers_pred(table, p),
        extends(later, table),
        later.no_duplicates(),
        later.len() <= usize::MAX,
    ensures
        lower_pred(p, later) == lower_pred(p, table),
    decreases p, 0nat,
{
    match p {
        ty::PredicateView::Implemented(tr) => lemma_lower_tys_stable(tr.substs, table, later),
        ty::PredicateView::Projection(pp) => {
            lemma_lower_ty_stable(pp.ty, table, later);
            lemma_lower_tys_stable(pp.projection_ty.parameters, table, later);
        },
        ty::PredicateView::Error => {},
    }
}

/// A list of predicates converts to the same bounds after the table grew.
pub proof fn lemma_lower_bounds_stable(
    s: Seq<ty::PredicateView>,
    table: Seq<InternKey>,
    later: Seq<InternKey>,
)
    requires
        covers_preds(table, s),
        extends(later, table),
        later.no_duplicates(),
        later.len() <= usize::MAX,
    ensures
        lower_bounds(s, later) == lower_bounds(s, table),
    decreases s, 1nat,
{
    if s.len() > 0 {
        assert forall|i: int| 0 <= i < s.drop_last().len() implies covers_pred(
            table,
            #[trigger] s.drop_last()[i],
        ) by {
            assert(s.drop_last()[i] == s[i]);
        }
        lemma_lower_bounds_stable(s.drop_last(), table, later);
        assert(covers_pred(table, s[s.len() - 1]));
        lemma_lower_pred_stable(s.last(), table, later);
    }
}

/// Handle stability: a type whose identities have handles converts to the
/// same form after the table grew.
pub proof fn lemma_lower_ty_stable(t: ty::TyView, table: Seq<InternKey>, later: Seq<InternKey>)
    requires
        covers_ty(table, t),
        extends(later, table),
        later.no_duplicates(),
        later.len() <= usize::MAX,
    ensures
        lower_ty(t, later) == lower_ty(t, table),
    decreases t, 0nat,
{
    match t {
        ty::TyView::Tuple(_, s)
        | ty::TyView::Array(s)
        | ty::TyView::Slice(s)
        | ty::TyView::Raw(_, s)
        | ty::TyView::Ref(_, s)
        | ty::TyView::Adt(_, s)
        | ty::TyView::AssociatedType(_, s)
        | ty::TyView::Projection(_, s) => lemma_lower_tys_stable(s, table, later),
        ty::TyView::Function { num_args, variadic, substs } => lemma_lower_tys_stable(
            substs,
            table,
            later,
        ),
        ty::TyView::Closure(def, expr, s) => {
            lemma_handle_stable(table, later, InternKey::Closure(def, expr));
            lemma_lower_tys_stable(s, table, later);
        },
        ty::TyView::OpaqueType(id, s) | ty::TyView::Opaque(id, s) => {
            lemma_handle_stable(table, later, InternKey::ImplTrait(id));
            lemma_lower_tys_stable(s, table, later);
        },
        ty::TyView::FnDef(id, s) => {
            lemma_handle_stable(table, later, InternKey::Callable(id));
            lemma_lower_tys_stable(s, table, later);
        },
        ty::TyView::Dyn(preds) => lemma_lower_bounds_stable(preds, table, later),
        ty::TyView::Placeholder(id) => lemma_handle_stable(table, later, InternKey::TypeParam(id)),
        _ => {},
    }
}

/// Registering types whose identities have handles leaves the table as it
/// is.
pub proof fn lemma_reg_tys_again(s: Seq<ty::TyView>, table: Seq<InternKey>)
    requires
        covers_tys(table, s),
    ensures
        reg_tys(s, table) == table,
    decreases s, 1nat,
{
    if s.len() > 0 {
        assert forall|i: int| 0 <= i < s.drop_last().len() implies covers_ty(
            table,
            #[trigger] s.drop_last()[i],
        ) by {
            assert(s.drop_last()[i] == s[i]);
        }
        lemma_reg_tys_again(s.drop_last(), table);
        assert(covers_ty(table, s[s.len() - 1]));
        lemma_reg_ty_again(s.last(), table);
    }
}

/// Registering a predicate whose identities have handles leaves the table
/// as it is.
pub proof fn lemma_reg_pred_again(p: ty::PredicateView, table: Seq<InternKey>)
    requires
        covers_pred(table, p),
    ensures
        reg_pred(p, table) == table,
    decreases p, 0nat,
{
    match p {
        ty::PredicateView::Implemented(tr) => lemma_reg_tys_again(tr.substs, table),
        ty::PredicateView::Projection(pp) => {
            lemma_reg_ty_again(pp.ty, table);
            lemma_reg_tys_again(pp.projection_ty.parameters, table);
        },
        ty::PredicateView::Error => {},
    }
}

/// Registering predicates whose identities have handles leaves the table
/// as it is.
pub proof fn lemma_reg_preds_again(s: Seq<ty::PredicateView>, table: Seq<InternKey>)
    requires
        covers_preds(table, s),
    ensures
        reg_preds(s, table) == table,
    decreases s, 1nat,
{
    if s.len() > 0 {
        assert forall|i: int| 0 <= i < s.drop_last().len() implies covers_pred(
            table,
            #[trigger] s.drop_last()[i],
        ) by {
            assert(s.drop_last()[i] == s[i]);
        }
        lemma_reg_preds_again(s.drop_last(), table);
        assert(covers_pred(table, s[s.len() - 1]));
        lemma_reg_pred_again(s.last(), table);
    }
}

/// The table is append-only and entries are made on first use only:
/// registering a type whose identities have handles leaves the table as it
/// is. In particular a type that was converted once can be converted again
/// without a change to the table.
pub proof fn lemma_reg_ty_again(t: ty::TyView, table: Seq<InternKey>)
    requires
        covers_ty(table, t),
    ensures
        reg_ty(t, table) == table,
    decreases t, 0nat,
{
    match t {
        ty::TyView::Tuple(_, s)
        | ty::TyView::Array(s)
        | ty::TyView::Slice(s)
        | ty::TyView::Raw(_, s)
        | ty::TyView::Ref(_, s)
        | ty::TyView::Adt(_, s)
        | ty::TyView::AssociatedType(_, s)
        | ty::TyView::Projection(_, s)
        | ty::TyView::Closure(_, _, s)
        | ty::TyView::OpaqueType(_, s)
        | ty::TyView::Opaque(_, s)
        | ty::TyView::FnDef(_, s) => lemma_reg_tys_again(s, table),
        ty::TyView::Function { num_args, variadic, substs } => lemma_reg_tys_again(substs, table),
        ty::TyView::Dyn(preds) => lemma_reg_preds_again(preds, table),
        _ => {},
    }
}

} // verus!
