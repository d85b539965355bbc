//! Lowering and raising are inverse to each other on the values that the
//! solver's form keeps whole.
use vstd::prelude::*;
use crate::bridge::{lower_trait_ref, raise_trait_ref};
use crate::collect::lemma_collect_is_ok;
use crate::error::ConversionError;
use crate::ids::InternKey;
use crate::intern::handle_in;
use crate::lower::{
    covers_pred, covers_ty, covers_tys, lower_bounds, lower_each, lower_pred, lower_ty, lower_tys,
    lower_tys_under_binder,
};
use crate::raise::{key_at, raise_arg, raise_args, raise_clause, raise_clauses, raise_ty};
use crate::shift::{Direction, lemma_args_out_undoes_in, lemma_ty_out_undoes_in, shift_args};
use crate::solver;
use crate::ty;

verus! {

/// A handle resolves to the identity it was given for.
pub proof fn lemma_key_at_handle(table: Seq<InternKey>, key: InternKey)
    requires
        table.no_duplicates(),
        table.len() <= usize::MAX,
        table.contains(key),
    ensures
        key_at(table, handle_in(table, key)) == Some(key),
{
    let i = table.index_of(key);
    assert(0 <= i < table.len() && table[i] == key);
}

/// Arguments that come back one by one come back as a list.
pub proof fn lemma_raise_args_pointwise(a: Seq<solver::GenericArgView>, s: Seq<ty::TyView>, table: Seq<InternKey>)
    requires
        a.len() == s.len(),
        forall|i: int| 0 <= i < a.len() ==> raise_arg(#[trigger] a[i], table) == Ok::<_, ConversionError>(s[i]),
    ensures
        raise_args(a, table) == Ok::<_, ConversionError>(s),
    decreases a.len(),
{
    if a.len() == 0 {
        assert(s =~= Seq::empty());
    } else {
        assert forall|i: int| 0 <= i < a.drop_last().len() implies raise_arg(
            #[trigger] a.drop_last()[i],
            table,
        ) == Ok::<_, ConversionError>(s.drop_last()[i]) by {
            assert(a.drop_last()[i] == a[i]);
        }
        lemma_raise_args_pointwise(a.drop_last(), s.drop_last(), table);
        assert(raise_arg(a[a.len() - 1], table) == Ok::<_, ConversionError>(s[a.len() - 1]));
        assert(s.drop_last().push(s.last()) =~= s);
    }
}

/// Clauses that come back one by one come back as a list.
pub proof fn lemma_raise_clauses_pointwise(
    b: Seq<solver::QuantifiedWhereClauseView>,
    preds: Seq<ty::PredicateView>,
    table: Seq<InternKey>,
)
    requires
        b.len() == preds.len(),
        forall|i: int| 0 <= i < b.len() ==> raise_clause(#[trigger] b[i], table) == Ok::<_, ConversionError>(preds[i]),
    ensures
        raise_clauses(b, table) == Ok::<_, ConversionError>(preds),
    decreases b.len(),
{
    if b.len() == 0 {
        assert(preds =~= Seq::empty());
    } else {
        assert forall|i: int| 0 <= i < b.drop_last().len() implies raise_clause(
            #[trigger] b.drop_last()[i],
            table,
        ) == Ok::<_, ConversionError>(preds.drop_last()[i]) by {
            assert(b.drop_last()[i] == b[i]);
        }
        lemma_raise_clauses_pointwise(b.drop_last(), preds.drop_last(), table);
        assert(raise_clause(b[b.len() - 1], table) == Ok::<_, ConversionError>(preds[b.len() - 1]));
        assert(preds.drop_last().push(preds.last()) =~= preds);
    }
}

/// Without error predicates the bounds of a trait object are its predicates
/// one by one.
pub proof fn lemma_bounds_pointwise(preds: Seq<ty::PredicateView>, table: Seq<InternKey>)
    requires
        lower_bounds(preds, table) is Ok,
        forall|i: int| 0 <= i < preds.len() ==> !((#[trigger] preds[i]) is Error),
    ensures
        lower_bounds(preds, table)->Ok_0.len() == preds.len(),
        forall|i: int| 0 <= i < preds.len() ==> lower_pred(#[trigger] preds[i], table) == Ok::<_, ConversionError>(
            lower_bounds(preds, table)->Ok_0[i],
        ),
    decreases preds.len(),
{
    if preds.len() > 0 {
        assert forall|i: int| 0 <= i < preds.drop_last().len() implies !((
        #[trigger] preds.drop_last()[i]) is Error) by {
            assert(preds.drop_last()[i] == preds[i]);
        }
        lemma_bounds_pointwise(preds.drop_last(), table);
        assert(!(preds[preds.len() - 1] is Error));
        assert forall|i: int| 0 <= i < preds.len() implies lower_pred(#[trigger] preds[i], table)
            == Ok::<_, ConversionError>(lower_bounds(preds, table)->Ok_0[i]) by {
            if i < preds.len() - 1 {
                assert(preds.drop_last()[i] == preds[i]);
            }
        }
    }
}

/// The substitution of a list of types comes back as the list.
pub proof fn lemma_round_trip_tys(s: Seq<ty::TyView>, table: Seq<InternKey>)
    requires
        table.no_duplicates(),
        table.len() <= usize::MAX,
        covers_tys(table, s),
        ty::faithful_tys(s),
        lower_tys(s, table) is Ok,
    ensures
        lower_tys(s, table)->Ok_0.len() == s.len(),
        raise_args(lower_tys(s, table)->Ok_0, table) == Ok::<_, ConversionError>(s),
    decreases s, 1nat,
{
    let a = lower_tys(s, table)->Ok_0;
    lemma_collect_is_ok(lower_each(s, table));
    assert forall|i: int| 0 <= i < a.len() implies raise_arg(#[trigger] a[i], table) == Ok::<_, ConversionError>(s[i]) by {
        assert(lower_each(s, table)[i] == Ok::<_, ConversionError>(a[i]));
        assert(covers_ty(table, s[i]));
        assert(ty::faithful_ty(s[i]));
        lemma_round_trip_ty(s[i], table);
    }
    lemma_raise_args_pointwise(a, s, table);
}

/// A list of types that was placed under a binder comes back as the list
/// once it is moved out again.
pub proof fn lemma_round_trip_tys_under_binder(s: Seq<ty::TyView>, table: Seq<InternKey>)
    requires
        table.no_duplicates(),
        table.len() <= usize::MAX,
        covers_tys(table, s),
        ty::faithful_tys(s),
        lower_tys_under_binder(s, table) is Ok,
    ensures
        shift_args(lower_tys_under_binder(s, table)->Ok_0, 0, 1, Direction::Out) is Some,
        raise_args(
            shift_args(lower_tys_under_binder(s, table)->Ok_0, 0, 1, Direction::Out)->Some_0,
            table,
        ) == Ok::<_, ConversionError>(s),
        lower_tys_under_binder(s, table)->Ok_0.len() == s.len(),
    decreases s, 2nat,
{
    lemma_round_trip_tys(s, table);
    lemma_args_out_undoes_in(lower_tys(s, table)->Ok_0, 0, 1);
}

/// A predicate that is kept whole comes back from its where-clause.
pub proof fn lemma_round_trip_pred(p: ty::PredicateView, table: Seq<InternKey>)
    requires
        table.no_duplicates(),
        table.len() <= usize::MAX,
        covers_pred(table, p),
        ty::faithful_pred(p),
        lower_pred(p, table) is Ok,
    ensures
        raise_clause(lower_pred(p, table)->Ok_0, table) == Ok::<_, ConversionError>(p),
    decreases p, 0nat,
{
    match p {
        ty::PredicateView::Implemented(tr) => {
            lemma_round_trip_tys_under_binder(tr.substs, table);
        },
        ty::PredicateView::Projection(pp) => {
            lemma_round_trip_ty(pp.ty, table);
            lemma_ty_out_undoes_in(lower_ty(pp.ty, table)->Ok_0, 0, 1);
            lemma_round_trip_tys_under_binder(pp.projection_ty.parameters, table);
        },
        ty::PredicateView::Error => {},
    }
}

/// The round-trip law: a type that the solver's form keeps whole, lowered
/// for a table that holds its identities, is raised back to itself.
pub proof fn lemma_round_trip_ty(t: ty::TyView, table: Seq<InternKey>)
    requires
        table.no_duplicates(),
        table.len() <= usize::MAX,
        covers_ty(table, t),
        ty::faithful_ty(t),
        lower_ty(t, table) is Ok,
    ensures
        raise_ty(lower_ty(t, table)->Ok_0, table) == Ok::<_, ConversionError>(t),
    decreases t, 0nat,
{
    match t {
        ty::TyView::Array(s) | ty::TyView::Slice(s) | ty::TyView::Raw(_, s) | ty::TyView::Ref(_, s) => {
            assert(covers_ty(table, s[0]));
            assert(ty::faithful_ty(s[0]));
            lemma_round_trip_ty(s[0], table);
            assert(seq![s[0]] =~= s);
        },
        ty::TyView::Tuple(_, s) | ty::TyView::Adt(_, s) | ty::TyView::AssociatedType(_, s) | ty::TyView::Projection(_, s) => {
            lemma_round_trip_tys(s, table);
        },
        ty::TyView::Closure(def, expr, s) => {
            lemma_key_at_handle(table, InternKey::Closure(def, expr));
            lemma_round_trip_tys(s, table);
        },
        ty::TyView::OpaqueType(id, s) | ty::TyView::Opaque(id, s) => {
            lemma_key_at_handle(table, InternKey::ImplTrait(id));
            lemma_round_trip_tys(s, table);
        },
        ty::TyView::FnDef(id, s) => {
            lemma_key_at_handle(table, InternKey::Callable(id));
            lemma_round_trip_tys(s, table);
        },
        ty::TyView::Placeholder(id) => {
            lemma_key_at_handle(table, InternKey::TypeParam(id));
        },
        ty::TyView::Function { num_args, variadic, substs } => {
            lemma_round_trip_tys_under_binder(substs, table);
        },
        ty::TyView::Dyn(preds) => {
            let b = lower_bounds(preds, table)->Ok_0;
            assert forall|i: int| 0 <= i < preds.len() implies !((#[trigger] preds[i]) is Error) by {
                assert(ty::faithful_pred(preds[i]));
            }
            lemma_bounds_pointwise(preds, table);
            assert forall|i: int| 0 <= i < b.len() implies raise_clause(#[trigger] b[i], table)
                == Ok::<_, ConversionError>(preds[i]) by {
                assert(covers_pred(table, preds[i]));
                assert(ty::faithful_pred(preds[i]));
                lemma_round_trip_pred(preds[i], table);
            }
            lemma_raise_clauses_pointwise(b, preds, table);
        },
        _ => {},
    }
}

/// The round-trip law for trait references.
pub proof fn lemma_round_trip_trait_ref(tr: ty::TraitRefView, table: Seq<InternKey>)
    requires
        table.no_duplicates(),
        table.len() <= usize::MAX,
        covers_tys(table, tr.substs),
        ty::faithful_tys(tr.substs),
        lower_trait_ref(tr, table) is Ok,
    ensures
        raise_trait_ref(lower_trait_ref(tr, table)->Ok_0, table) == Ok::<_, ConversionError>(tr),
{
    lemma_round_trip_tys(tr.substs, table);
}

/// The round trip seen from the solver's side: a value that this layer
/// produced is produced again from what it is raised to.
pub proof fn lemma_round_trip_solver_side(t: ty::TyView, table: Seq<InternKey>)
    requires
        table.no_duplicates(),
        table.len() <= usize::MAX,
        covers_ty(table, t),
        ty::faithful_ty(t),
        lower_ty(t, table) is Ok,
    ensures
        raise_ty(lower_ty(t, table)->Ok_0, table) is Ok,
        lower_ty(raise_ty(lower_ty(t, table)->Ok_0, table)->Ok_0, table) == lower_ty(t, table),
{
    lemma_round_trip_ty(t, table);
}

} // verus!
