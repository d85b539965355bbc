//! From the analyzer's model to the solver's.
//!
//! The conversion is stated by [`lower_ty`] and its companions, which say
//! for every value what comes out or why nothing does. Composite identities
//! are replaced by their handles in the interning table; what the solver
//! wants and the analyzer does not model is made up: references are given
//! the static lifetime, arrays a concrete length of type `usize`.
use vstd::prelude::*;
use crate::error::ConversionError;
use crate::ids::InternKey;
use crate::intern::{
    InternTable, extends, handle_in, lemma_extends_contains, lemma_extends_trans,
};
use crate::primitive::{Mutability, PlaceholderIndex, Safety, Scalar, TyVariableKind, UintTy, spec_root_universe, root_universe};
use crate::collect::{collect, lemma_collect_ok, lemma_collect_err};
use crate::shift::{Direction, shift_args, shift_ty};
use crate::solver;
use crate::ty;

verus! {

/// `n` binders of general type kind.
pub open spec fn general_binders(n: nat) -> Seq<solver::VariableKind> {
    Seq::new(n, |i: int| solver::VariableKind::Ty(TyVariableKind::General))
}

/// The length that every array is given: a concrete constant of type
/// `usize`.
pub open spec fn array_len_const() -> solver::ConstView {
    solver::ConstView {
        ty: Box::new(solver::TyView::Scalar(Scalar::Uint(UintTy::Usize))),
        value: solver::ConstValue::Concrete,
    }
}

/// Each type of `s` as a generic argument, or why it has no such form.
pub open spec fn lower_each(s: Seq<ty::TyView>, table: Seq<InternKey>) -> Seq<Result<solver::GenericArgView, ConversionError>>
    decreases s, 0nat,
{
    Seq::new(
        s.len(),
        |i: int| if 0 <= i < s.len() {
            match lower_ty(s[i], table) {
                Ok(t) => Ok(solver::GenericArgView::Ty(t)),
                Err(e) => Err(e),
            }
        } else {
            Err(ConversionError::MissingTypeArgument)
        },
    )
}

/// The types of `s` as generic arguments, or the first failure among them.
pub open spec fn lower_tys(s: Seq<ty::TyView>, table: Seq<InternKey>) -> Result<Seq<solver::GenericArgView>, ConversionError>
    decreases s, 1nat,
{
    collect(lower_each(s, table))
}

/// The element type of a pointer-like type: the first type of `s`.
pub open spec fn lower_first(s: Seq<ty::TyView>, table: Seq<InternKey>) -> Result<solver::TyView, ConversionError>
    decreases s, 0nat,
{
    if s.len() == 0 {
        Err(ConversionError::MissingTypeArgument)
    } else {
        lower_ty(s[0], table)
    }
}

/// The arguments of `s`, placed under one binder.
pub open spec fn lower_tys_under_binder(s: Seq<ty::TyView>, table: Seq<InternKey>) -> Result<Seq<solver::GenericArgView>, ConversionError>
    decreases s, 2nat,
{
    match lower_tys(s, table) {
        Ok(a) => match shift_args(a, 0, 1, Direction::In) {
            Some(a2) => Ok(a2),
            None => Err(ConversionError::IndexOutOfRange),
        },
        Err(e) => Err(e),
    }
}

/// A predicate as a quantified where-clause: the clause binds nothing, so
/// its body is the predicate seen from under one binder. An error predicate
/// has no such form.
pub open spec fn lower_pred(p: ty::PredicateView, table: Seq<InternKey>) -> Result<solver::QuantifiedWhereClauseView, ConversionError>
    decreases p, 0nat,
{
    match p {
        ty::PredicateView::Implemented(tr) => match lower_tys_under_binder(tr.substs, table) {
            Ok(a) => Ok(
                solver::QuantifiedWhereClauseView {
                    binders: general_binders(0),
                    value: solver::WhereClauseView::Implemented(
                        solver::TraitRefView {
                            trait_id: solver::TraitId(tr.trait_.0),
                            substitution: a,
                        },
                    ),
                },
            ),
            Err(e) => Err(e),
        },
        ty::PredicateView::Projection(pp) => match lower_ty(pp.ty, table) {
            Ok(t) => match shift_ty(t, 0, 1, Direction::In) {
                Some(t2) => match lower_tys_under_binder(pp.projection_ty.parameters, table) {
                    Ok(a) => Ok(
                        solver::QuantifiedWhereClauseView {
                            binders: general_binders(0),
                            value: solver::WhereClauseView::AliasEq(
                                solver::AliasTyView::Projection(
                                    solver::ProjectionTyView {
                                        associated_ty_id: solver::AssocTypeId(
                                            pp.projection_ty.associated_ty.0,
                                        ),
                                        substitution: a,
                                    },
                                ),
                                t2,
                            ),
                        },
                    ),
                    Err(e) => Err(e),
                },
                None => Err(ConversionError::IndexOutOfRange),
            },
            Err(e) => Err(e),
        },
        ty::PredicateView::Error => Err(ConversionError::ErrorPredicate),
    }
}

/// The bounds of a trait object: its predicates in order, error predicates
/// left out; the first failure among the others decides.
pub open spec fn lower_bounds(preds: Seq<ty::PredicateView>, table: Seq<InternKey>) -> Result<Seq<solver::QuantifiedWhereClauseView>, ConversionError>
    decreases preds, 0nat,
{
    if preds.len() == 0 {
        Ok(Seq::empty())
    } else {
        match lower_bounds(preds.drop_last(), table) {
            Ok(acc) => if preds.last() is Error {
                Ok(acc)
            } else {
                match lower_pred(preds.last(), table) {
                    Ok(q) => Ok(acc.push(q)),
                    Err(e) => Err(e),
                }
            },
            Err(e) => Err(e),
        }
    }
}

/// The solver's form of a type, or the reason why it has none.
pub open spec fn lower_ty(t: ty::TyView, table: Seq<InternKey>) -> Result<solver::TyView, ConversionError>
    decreases t, 0nat,
{
    match t {
        ty::TyView::Scalar(s) => Ok(solver::TyView::Scalar(s)),
        ty::TyView::Tuple(n, s) => match lower_tys(s, table) {
            Ok(a) => Ok(solver::TyView::Tuple(n, a)),
            Err(e) => Err(e),
        },
        ty::TyView::Array(s) => match lower_first(s, table) {
            Ok(e) => Ok(solver::TyView::Array(Box::new(e), array_len_const())),
            Err(e) => Err(e),
        },
        ty::TyView::Slice(s) => match lower_first(s, table) {
            Ok(e) => Ok(solver::TyView::Slice(Box::new(e))),
            Err(e) => Err(e),
        },
        ty::TyView::Raw(m, s) => match lower_first(s, table) {
            Ok(e) => Ok(solver::TyView::Raw(m, Box::new(e))),
            Err(e) => Err(e),
        },
        ty::TyView::Ref(m, s) => match lower_first(s, table) {
            Ok(e) => Ok(solver::TyView::Ref(m, solver::Lifetime::Static, Box::new(e))),
            Err(e) => Err(e),
        },
        ty::TyView::Function { num_args, variadic, substs } => match lower_tys_under_binder(
            substs,
            table,
        ) {
            Ok(a) => Ok(
                solver::TyView::Function {
                    num_binders: 0,
                    sig: solver::FnSig { safety: Safety::Safe, variadic },
                    substitution: a,
                },
            ),
            Err(e) => Err(e),
        },
        ty::TyView::Closure(def, expr, s) => match lower_tys(s, table) {
            Ok(a) => Ok(
                solver::TyView::Closure(
                    solver::ClosureId(handle_in(table, InternKey::Closure(def, expr))),
                    a,
                ),
            ),
            Err(e) => Err(e),
        },
        ty::TyView::Adt(id, s) => match lower_tys(s, table) {
            Ok(a) => Ok(solver::TyView::Adt(solver::AdtId(id), a)),
            Err(e) => Err(e),
        },
        ty::TyView::AssociatedType(id, s) => match lower_tys(s, table) {
            Ok(a) => Ok(solver::TyView::AssociatedType(solver::AssocTypeId(id.0), a)),
            Err(e) => Err(e),
        },
        ty::TyView::OpaqueType(id, s) => match lower_tys(s, table) {
            Ok(a) => Ok(
                solver::TyView::OpaqueType(
                    solver::OpaqueTyId(handle_in(table, InternKey::ImplTrait(id))),
                    a,
                ),
            ),
            Err(e) => Err(e),
        },
        ty::TyView::ForeignType(id) => Ok(solver::TyView::Foreign(solver::ForeignDefId(id.0))),
        ty::TyView::FnDef(id, s) => match lower_tys(s, table) {
            Ok(a) => Ok(
                solver::TyView::FnDef(solver::FnDefId(handle_in(table, InternKey::Callable(id))), a),
            ),
            Err(e) => Err(e),
        },
        ty::TyView::Never => Ok(solver::TyView::Never),
        ty::TyView::Str => Ok(solver::TyView::Str),
        ty::TyView::Dyn(preds) => match lower_bounds(preds, table) {
            Ok(b) => Ok(
                solver::TyView::Dyn {
                    binders: general_binders(1),
                    bounds: b,
                    lifetime: solver::Lifetime::Static,
                },
            ),
            Err(e) => Err(e),
        },
        ty::TyView::Projection(id, s) => match lower_tys(s, table) {
            Ok(a) => Ok(
                solver::TyView::Alias(
                    solver::AliasTyView::Projection(
                        solver::ProjectionTyView {
                            associated_ty_id: solver::AssocTypeId(id.0),
                            substitution: a,
                        },
                    ),
                ),
            ),
            Err(e) => Err(e),
        },
        ty::TyView::Opaque(id, s) => match lower_tys(s, table) {
            Ok(a) => Ok(
                solver::TyView::Alias(
                    solver::AliasTyView::Opaque(
                        solver::OpaqueTyId(handle_in(table, InternKey::ImplTrait(id))),
                        a,
                    ),
                ),
            ),
            Err(e) => Err(e),
        },
        ty::TyView::Placeholder(id) => Ok(
            solver::TyView::Placeholder(
                PlaceholderIndex {
                    ui: spec_root_universe(),
                    idx: handle_in(table, InternKey::TypeParam(id)),
                },
            ),
        ),
        ty::TyView::BoundVar(bv) => Ok(solver::TyView::BoundVar(bv)),
        ty::TyView::InferenceVar(_, _) => Err(ConversionError::UncanonicalizedInferenceVar),
        ty::TyView::Unknown => Ok(solver::TyView::Error),
    }
}

/// Every composite identity in the types of `s` has a handle in `table`.
pub open spec fn covers_tys(table: Seq<InternKey>, s: Seq<ty::TyView>) -> bool
    decreases s,
{
    forall|i: int| 0 <= i < s.len() ==> covers_ty(table, #[trigger] s[i])
}

/// Every composite identity in `p` has a handle in `table`.
pub open spec fn covers_pred(table: Seq<InternKey>, p: ty::PredicateView) -> bool
    decreases p,
{
    match p {
        ty::PredicateView::Implemented(tr) => covers_tys(table, tr.substs),
        ty::PredicateView::Projection(pp) => covers_ty(table, pp.ty) && covers_tys(
            table,
            pp.projection_ty.parameters,
        ),
        ty::PredicateView::Error => true,
    }
}

/// Every composite identity in `p` has a handle in `table`.
pub open spec fn covers_preds(table: Seq<InternKey>, s: Seq<ty::PredicateView>) -> bool
    decreases s,
{
    forall|i: int| 0 <= i < s.len() ==> covers_pred(table, #[trigger] s[i])
}

/// Every composite identity in `t` has a handle in `table`.
pub open spec fn covers_ty(table: Seq<InternKey>, t: ty::TyView) -> bool
    decreases t,
{
    match t {
        ty::TyView::Tuple(_, s)
        | ty::TyView::Array(s)
        | ty::TyView::Slice(s)
        | ty::TyView::Raw(_, s)
        | ty::TyView::Ref(_, s)
        | ty::TyView::Adt(_, s)
        | ty::TyView::AssociatedType(_, s)
        | ty::TyView::Projection(_, s) => covers_tys(table, s),
        ty::TyView::Function { num_args, variadic, substs } => covers_tys(table, substs),
        ty::TyView::Closure(def, expr, s) => table.contains(InternKey::Closure(def, expr))
            && covers_tys(table, s),
        ty::TyView::OpaqueType(id, s) | ty::TyView::Opaque(id, s) => table.contains(
            InternKey::ImplTrait(id),
        ) && covers_tys(table, s),
        ty::TyView::FnDef(id, s) => table.contains(InternKey::Callable(id)) && covers_tys(table, s),
        ty::TyView::Dyn(preds) => covers_preds(table, preds),
        ty::TyView::Placeholder(id) => table.contains(InternKey::TypeParam(id)),
        _ => true,
    }
}

/// What a table covers it still covers after it grew.
pub proof fn lemma_covers_tys_grow(table: Seq<InternKey>, later: Seq<InternKey>, s: Seq<ty::TyView>)
    requires
        extends(later, table),
        covers_tys(table, s),
    ensures
        covers_tys(later, s),
    decreases s,
{
    assert forall|i: int| 0 <= i < s.len() implies covers_ty(later, #[trigger] s[i]) by {
        lemma_covers_ty_grow(table, later, s[i]);
    }
}

/// What a table covers it still covers after it grew.
pub proof fn lemma_covers_pred_grow(table: Seq<InternKey>, later: Seq<InternKey>, p: ty::PredicateView)
    requires
        extends(later, table),
        covers_pred(table, p),
    ensures
        covers_pred(later, p),
    decreases p,
{
    match p {
        ty::PredicateView::Implemented(tr) => lemma_covers_tys_grow(table, later, tr.substs),
        ty::PredicateView::Projection(pp) => {
            lemma_covers_ty_grow(table, later, pp.ty);
            lemma_covers_tys_grow(table, later, pp.projection_ty.parameters);
        },
        ty::PredicateView::Error => {},
    }
}

/// What a table covers it still covers after it grew.
pub proof fn lemma_covers_preds_grow(table: Seq<InternKey>, later: Seq<InternKey>, s: Seq<ty::PredicateView>)
    requires
        extends(later, table),
        covers_preds(table, s),
    ensures
        covers_preds(later, s),
    decreases s,
{
    assert forall|i: int| 0 <= i < s.len() implies covers_pred(later, #[trigger] s[i]) by {
        lemma_covers_pred_grow(table, later, s[i]);
    }
}

/// What a table covers it still covers after it grew.
pub proof fn lemma_covers_ty_grow(table: Seq<InternKey>, later: Seq<InternKey>, t: ty::TyView)
    requires
        extends(later, table),
        covers_ty(table, t),
    ensures
        covers_ty(later, t),
    decreases t,
{
    match t {
        ty::TyView::Tuple(_, s)
        | ty::TyView::Array(s)
        | ty::TyView::Slice(s)
        | ty::TyView::Raw(_, s)
        | ty::TyView::Ref(_, s)
        | ty::TyView::Adt(_, s)
        | ty::TyView::AssociatedType(_, s)
        | ty::TyView::Projection(_, s) => lemma_covers_tys_grow(table, later, s),
        ty::TyView::Function { num_args, variadic, substs } => lemma_covers_tys_grow(
            table,
            later,
            substs,
        ),
        ty::TyView::Closure(def, expr, s) => {
            lemma_extends_contains(table, later, InternKey::Closure(def, expr));
            lemma_covers_tys_grow(table, later, s);
        },
        ty::TyView::OpaqueType(id, s) | ty::TyView::Opaque(id, s) => {
            lemma_extends_contains(table, later, InternKey::ImplTrait(id));
            lemma_covers_tys_grow(table, later, s);
        },
        ty::TyView::FnDef(id, s) => {
            lemma_extends_contains(table, later, InternKey::Callable(id));
            lemma_covers_tys_grow(table, later, s);
        },
        ty::TyView::Dyn(preds) => lemma_covers_preds_grow(table, later, preds),
        ty::TyView::Placeholder(id) => lemma_extends_contains(table, later, InternKey::TypeParam(id)),
        _ => {},
    }
}

/// The table after `key` was given a handle: unchanged when it had one.
pub open spec fn reg_key(table: Seq<InternKey>, key: InternKey) -> Seq<InternKey> {
    if table.contains(key) {
        table
    } else {
        table.push(key)
    }
}

/// The table after the identities of the types of `s` were given handles,
/// from left to right.
pub open spec fn reg_tys(s: Seq<ty::TyView>, table: Seq<InternKey>) -> Seq<InternKey>
    decreases s,
{
    if s.len() == 0 {
        table
    } else {
        reg_ty(s.last(), reg_tys(s.drop_last(), table))
    }
}

/// The table after the identities of a predicate were given handles. The
/// type of a projection predicate comes before its projection.
pub open spec fn reg_pred(p: ty::PredicateView, table: Seq<InternKey>) -> Seq<InternKey>
    decreases p,
{
    match p {
        ty::PredicateView::Implemented(tr) => reg_tys(tr.substs, table),
        ty::PredicateView::Projection(pp) => reg_tys(
            pp.projection_ty.parameters,
            reg_ty(pp.ty, table),
        ),
        ty::PredicateView::Error => table,
    }
}

/// The table after the identities of the predicates of `s` were given
/// handles, from left to right.
pub open spec fn reg_preds(s: Seq<ty::PredicateView>, table: Seq<InternKey>) -> Seq<InternKey>
    decreases s,
{
    if s.len() == 0 {
        table
    } else {
        reg_pred(s.last(), reg_preds(s.drop_last(), table))
    }
}

/// The table after the composite identities of `t` were given handles, in
/// the order in which a walk from left to right meets them: an identity
/// before the arguments it is applied to. Identities that had a handle
/// keep it.
pub open spec fn reg_ty(t: ty::TyView, table: Seq<InternKey>) -> Seq<InternKey>
    decreases t,
{
    match t {
        ty::TyView::Tuple(_, s)
        | ty::TyView::Array(s)
        | ty::TyView::Slice(s)
        | ty::TyView::Raw(_, s)
        | ty::TyView::Ref(_, s)
        | ty::TyView::Adt(_, s)
        | ty::TyView::AssociatedType(_, s)
        | ty::TyView::Projection(_, s) => reg_tys(s, table),
        ty::TyView::Function { num_args, variadic, substs } => reg_tys(substs, table),
        ty::TyView::Closure(def, expr, s) => reg_tys(
            s,
            reg_key(table, InternKey::Closure(def, expr)),
        ),
        ty::TyView::OpaqueType(id, s) | ty::TyView::Opaque(id, s) => reg_tys(
            s,
            reg_key(table, InternKey::ImplTrait(id)),
        ),
        ty::TyView::FnDef(id, s) => reg_tys(s, reg_key(table, InternKey::Callable(id))),
        ty::TyView::Dyn(preds) => reg_preds(preds, table),
        ty::TyView::Placeholder(id) => reg_key(table, InternKey::TypeParam(id)),
        _ => table,
    }
}

/// Giving a key a handle only adds to the table, and keeps it free of
/// duplicates.
pub proof fn lemma_reg_key(table: Seq<InternKey>, key: InternKey)
    ensures
        extends(reg_key(table, key), table),
        reg_key(table, key).contains(key),
        table.no_duplicates() ==> reg_key(table, key).no_duplicates(),
{
    if !table.contains(key) {
        assert(table.push(key)[table.len() as int] == key);
    }
}

/// Registering only adds to the table, covers what was registered and
/// keeps the table free of duplicates.
pub proof fn lemma_reg_tys(s: Seq<ty::TyView>, table: Seq<InternKey>)
    ensures
        extends(reg_tys(s, table), table),
        covers_tys(reg_tys(s, table), s),
        table.no_duplicates() ==> reg_tys(s, table).no_duplicates(),
    decreases s, 1nat,
{
    if s.len() > 0 {
        let mid = reg_tys(s.drop_last(), table);
        lemma_reg_tys(s.drop_last(), table);
        lemma_reg_ty(s.last(), mid);
        let fin = reg_ty(s.last(), mid);
        lemma_extends_trans(table, mid, fin);
        assert forall|i: int| 0 <= i < s.len() implies covers_ty(fin, #[trigger] s[i]) by {
            if i < s.len() - 1 {
                assert(s.drop_last()[i] == s[i]);
                lemma_covers_ty_grow(mid, fin, s[i]);
            }
        }
    }
}

/// Registering only adds to the table, covers what was registered and
/// keeps the table free of duplicates.
pub proof fn lemma_reg_pred(p: ty::PredicateView, table: Seq<InternKey>)
    ensures
        extends(reg_pred(p, table), table),
        covers_pred(reg_pred(p, table), p),
        table.no_duplicates() ==> reg_pred(p, table).no_duplicates(),
    decreases p, 0nat,
{
    match p {
        ty::PredicateView::Implemented(tr) => lemma_reg_tys(tr.substs, table),
        ty::PredicateView::Projection(pp) => {
            let mid = reg_ty(pp.ty, table);
            lemma_reg_ty(pp.ty, table);
            lemma_reg_tys(pp.projection_ty.parameters, mid);
            let fin = reg_tys(pp.projection_ty.parameters, mid);
            lemma_extends_trans(table, mid, fin);
            lemma_covers_ty_grow(mid, fin, pp.ty);
        },
        ty::PredicateView::Error => {},
    }
}

/// Registering only adds to the table, covers what was registered and
/// keeps the table free of duplicates.
pub proof fn lemma_reg_preds(s: Seq<ty::PredicateView>, table: Seq<InternKey>)
    ensures
        extends(reg_preds(s, table), table),
        covers_preds(reg_preds(s, table), s),
        table.no_duplicates() ==> reg_preds(s, table).no_duplicates(),
    decreases s, 1nat,
{
    if s.len() > 0 {
        let mid = reg_preds(s.drop_last(), table);
        lemma_reg_preds(s.drop_last(), table);
        lemma_reg_pred(s.last(), mid);
        let fin = reg_pred(s.last(), mid);
        lemma_extends_trans(table, mid, fin);
        assert forall|i: int| 0 <= i < s.len() implies covers_pred(fin, #[trigger] s[i]) by {
            if i < s.len() - 1 {
                assert(s.drop_last()[i] == s[i]);
                lemma_covers_pred_grow(mid, fin, s[i]);
            }
        }
    }
}

/// Registering only adds to the table, covers what was registered and
/// keeps the table free of duplicates.
pub proof fn lemma_reg_ty(t: ty::TyView, table: Seq<InternKey>)
    ensures
        extends(reg_ty(t, table), table),
        covers_ty(reg_ty(t, table), t),
        table.no_duplicates() ==> reg_ty(t, table).no_duplicates(),
    decreases t, 0nat,
{
    match t {
        ty::TyView::Tuple(_, s)
        | ty::TyView::Array(s)
        | ty::TyView::Slice(s)
        | ty::TyView::Raw(_, s)
        | ty::TyView::Ref(_, s)
        | ty::TyView::Adt(_, s)
        | ty::TyView::AssociatedType(_, s)
        | ty::TyView::Projection(_, s) => lemma_reg_tys(s, table),
        ty::TyView::Function { num_args, variadic, substs } => lemma_reg_tys(substs, table),
        ty::TyView::Closure(def, expr, s) => {
            let key = InternKey::Closure(def, expr);
            lemma_reg_key(table, key);
            lemma_reg_tys(s, reg_key(table, key));
            lemma_extends_trans(table, reg_key(table, key), reg_tys(s, reg_key(table, key)));
            lemma_extends_contains(reg_key(table, key), reg_tys(s, reg_key(table, key)), key);
        },
        ty::TyView::OpaqueType(id, s) | ty::TyView::Opaque(id, s) => {
            let key = InternKey::ImplTrait(id);
            lemma_reg_key(table, key);
            lemma_reg_tys(s, reg_key(table, key));
            lemma_extends_trans(table, reg_key(table, key), reg_tys(s, reg_key(table, key)));
            lemma_extends_contains(reg_key(table, key), reg_tys(s, reg_key(table, key)), key);
        },
        ty::TyView::FnDef(id, s) => {
            let key = InternKey::Callable(id);
            lemma_reg_key(table, key);
            lemma_reg_tys(s, reg_key(table, key));
            lemma_extends_trans(table, reg_key(table, key), reg_tys(s, reg_key(table, key)));
            lemma_extends_contains(reg_key(table, key), reg_tys(s, reg_key(table, key)), key);
        },
        ty::TyView::Dyn(preds) => lemma_reg_preds(preds, table),
        ty::TyView::Placeholder(id) => lemma_reg_key(table, InternKey::TypeParam(id)),
        _ => {},
    }
}

/// Gives every composite identity in `tys` a handle.
pub fn register_tys(tys: &Vec<ty::Ty>, table: &mut InternTable)
    requires
        old(table).wf(),
    ensures
        final(table).wf(),
        final(table)@ == reg_tys(ty::tys_view(tys@), old(table)@),
        extends(final(table)@, old(table)@),
        covers_tys(final(table)@, ty::tys_view(tys@)),
    decreases tys,
{
    let ghost s = ty::tys_view(tys@);
    let ghost start = table@;
    let mut i: usize = 0;
    assert(s.take(0) =~= Seq::empty());
    while i < tys.len()
        invariant
            i <= tys.len(),
            table.wf(),
            s == ty::tys_view(tys@),
            table@ == reg_tys(s.take(i as int), start),
        decreases tys.len() - i,
    {
        proof {
            assert(s.take(i + 1).drop_last() =~= s.take(i as int));
            assert(s.take(i + 1).last() == s[i as int]);
        }
        tys[i].register(table);
        i += 1;
    }
    proof {
        assert(s.take(tys.len() as int) =~= s);
        lemma_reg_tys(s, start);
    }
}

impl ty::GenericPredicate {
    /// Gives every composite identity in the predicate a handle.
    pub fn register(&self, table: &mut InternTable)
        requires
            old(table).wf(),
        ensures
            final(table).wf(),
            final(table)@ == reg_pred(self@, old(table)@),
            extends(final(table)@, old(table)@),
            covers_pred(final(table)@, self@),
        decreases self,
    {
        proof {
            lemma_reg_pred(self@, table@);
        }
        match self {
            ty::GenericPredicate::Implemented(tr) => register_tys(&tr.substs.0, table),
            ty::GenericPredicate::Projection(pp) => {
                pp.ty.register(table);
                register_tys(&pp.projection_ty.parameters.0, table);
            },
            ty::GenericPredicate::Error => {},
        }
    }
}

/// Gives every composite identity in `preds` a handle.
pub fn register_preds(preds: &Vec<ty::GenericPredicate>, table: &mut InternTable)
    requires
        old(table).wf(),
    ensures
        final(table).wf(),
        final(table)@ == reg_preds(ty::preds_view(preds@), old(table)@),
        extends(final(table)@, old(table)@),
        covers_preds(final(table)@, ty::preds_view(preds@)),
    decreases preds,
{
    let ghost s = ty::preds_view(preds@);
    let ghost start = table@;
    let mut i: usize = 0;
    assert(s.take(0) =~= Seq::empty());
    while i < preds.len()
        invariant
            i <= preds.len(),
            table.wf(),
            s == ty::preds_view(preds@),
            table@ == reg_preds(s.take(i as int), start),
        decreases preds.len() - i,
    {
        proof {
            assert(s.take(i + 1).drop_last() =~= s.take(i as int));
            assert(s.take(i + 1).last() == s[i as int]);
        }
        preds[i].register(table);
        i += 1;
    }
    proof {
        assert(s.take(preds.len() as int) =~= s);
        lemma_reg_preds(s, start);
    }
}

impl ty::Ty {
    /// Gives every composite identity in the type a handle. Identities that
    /// have one keep it.
    pub fn register(&self, table: &mut InternTable)
        requires
            old(table).wf(),
        ensures
            final(table).wf(),
            final(table)@ == reg_ty(self@, old(table)@),
            extends(final(table)@, old(table)@),
            covers_ty(final(table)@, self@),
        decreases self,
    {
        proof {
            lemma_reg_ty(self@, table@);
        }
        match self {
            ty::Ty::Tuple(_, s)
            | ty::Ty::Array(s)
            | ty::Ty::Slice(s)
            | ty::Ty::Raw(_, s)
            | ty::Ty::Ref(_, s)
            | ty::Ty::Adt(_, s)
            | ty::Ty::AssociatedType(_, s) => register_tys(&s.0, table),
            ty::Ty::Alias(ty::AliasTy::Projection(p)) => register_tys(&p.parameters.0, table),
            ty::Ty::Function(fp) => register_tys(&fp.substs.0, table),
            ty::Ty::Closure(def, expr, s) => {
                let _ = table.intern(InternKey::Closure(*def, *expr));
                register_tys(&s.0, table);
            },
            ty::Ty::OpaqueType(id, s) => {
                let _ = table.intern(InternKey::ImplTrait(*id));
                register_tys(&s.0, table);
            },
            ty::Ty::Alias(ty::AliasTy::Opaque(o)) => {
                let _ = table.intern(InternKey::ImplTrait(o.opaque_ty_id));
                register_tys(&o.parameters.0, table);
            },
            ty::Ty::FnDef(id, s) => {
                let _ = table.intern(InternKey::Callable(*id));
                register_tys(&s.0, table);
            },
            ty::Ty::Dyn(preds) => register_preds(preds, table),
            ty::Ty::Placeholder(id) => {
                let _ = table.intern(InternKey::TypeParam(*id));
            },
            _ => {},
        }
    }
}

/// A failure among the first predicates is the failure of the whole list.
pub proof fn lemma_bounds_prefix_err(preds: Seq<ty::PredicateView>, k: int, table: Seq<InternKey>)
    requires
        0 <= k <= preds.len(),
        lower_bounds(preds.take(k), table) is Err,
    ensures
        lower_bounds(preds, table) == lower_bounds(preds.take(k), table),
    decreases preds.len(),
{
    if k == preds.len() {
        assert(preds.take(k) =~= preds);
    } else {
        assert(preds.drop_last().take(k) =~= preds.take(k));
        lemma_bounds_prefix_err(preds.drop_last(), k, table);
    }
}

/// `num_vars` binder kinds, each a general type variable.
pub fn binder_kinds(num_vars: usize) -> (r: Vec<solver::VariableKind>)
    ensures
        r@ == general_binders(num_vars as nat),
{
    let mut out: Vec<solver::VariableKind> = Vec::new();
    let mut i: usize = 0;
    while i < num_vars
        invariant
            i <= num_vars,
            out@ == general_binders(i as nat),
        decreases num_vars - i,
    {
        out.push(solver::VariableKind::Ty(TyVariableKind::General));
        assert(out@ =~= general_binders((i + 1) as nat));
        i += 1;
    }
    out
}

/// Wraps a where-clause in `num_vars` binders of general type kind.
pub fn make_binders(value: solver::WhereClause, num_vars: usize) -> (r: solver::QuantifiedWhereClause)
    ensures
        r@ == (solver::QuantifiedWhereClauseView {
            binders: general_binders(num_vars as nat),
            value: value@,
        }),
{
    solver::QuantifiedWhereClause { binders: binder_kinds(num_vars), value }
}

/// The executable counterpart of [`lower_tys`].
pub(crate) fn lower_ty_vec(tys: &Vec<ty::Ty>, table: &InternTable) -> (r: Result<Vec<solver::GenericArg>, ConversionError>)
    requires
        table.wf(),
        covers_tys(table@, ty::tys_view(tys@)),
    ensures
        match r {
            Ok(v) => lower_tys(ty::tys_view(tys@), table@) == Ok::<_, ConversionError>(
                solver::args_view(v@),
            ),
            Err(e) => lower_tys(ty::tys_view(tys@), table@) == Err::<Seq<solver::GenericArgView>, _>(e),
        },
    decreases tys, 0nat,
{
    let ghost s = ty::tys_view(tys@);
    let ghost rs = lower_each(s, table@);
    let mut out: Vec<solver::GenericArg> = Vec::new();
    let mut i: usize = 0;
    while i < tys.len()
        invariant
            i <= tys.len(),
            out.len() == i,
            table.wf(),
            s == ty::tys_view(tys@),
            covers_tys(table@, s),
            rs == lower_each(s, table@),
            forall|j: int| 0 <= j < i ==> (#[trigger] rs[j]) == Ok::<_, ConversionError>(out@[j]@),
        decreases tys.len() - i,
    {
        assert(covers_ty(table@, s[i as int]));
        match tys[i].lower(table) {
            Ok(t) => out.push(solver::GenericArg::Ty(t)),
            Err(e) => {
                proof {
                    assert(rs[i as int] == Err::<solver::GenericArgView, _>(e));
                    lemma_collect_err(rs, i as int);
                }
                return Err(e);
            },
        }
        i += 1;
    }
    proof {
        lemma_collect_ok(rs);
        assert(collect(rs)->Ok_0 =~= solver::args_view(out@));
    }
    Ok(out)
}

impl ty::Substs {
    /// The substitution in the solver's form, for a table that holds its
    /// identities.
    pub(crate) fn lower(&self, table: &InternTable) -> (r: Result<solver::Substitution, ConversionError>)
        requires
            table.wf(),
            covers_tys(table@, self@),
        ensures
            match r {
                Ok(x) => lower_tys(self@, table@) == Ok::<_, ConversionError>(x@),
                Err(e) => lower_tys(self@, table@) == Err::<Seq<solver::GenericArgView>, _>(e),
            },
        decreases self, 1nat,
    {
        match lower_ty_vec(&self.0, table) {
            Ok(v) => Ok(solver::Substitution(v)),
            Err(e) => Err(e),
        }
    }

    /// The executable counterpart of [`lower_first`].
    pub(crate) fn lower_first(&self, table: &InternTable) -> (r: Result<solver::Ty, ConversionError>)
        requires
            table.wf(),
            covers_tys(table@, self@),
        ensures
            match r {
                Ok(x) => lower_first(self@, table@) == Ok::<_, ConversionError>(x@),
                Err(e) => lower_first(self@, table@) == Err::<solver::TyView, _>(e),
            },
        decreases self, 1nat,
    {
        if self.0.len() == 0 {
            Err(ConversionError::MissingTypeArgument)
        } else {
            assert(covers_ty(table@, self@[0]));
            self.0[0].lower(table)
        }
    }

    /// The executable counterpart of [`lower_tys_under_binder`].
    pub(crate) fn lower_under_binder(&self, table: &InternTable) -> (r: Result<solver::Substitution, ConversionError>)
        requires
            table.wf(),
            covers_tys(table@, self@),
        ensures
            match r {
                Ok(x) => lower_tys_under_binder(self@, table@) == Ok::<_, ConversionError>(x@),
                Err(e) => lower_tys_under_binder(self@, table@) == Err::<Seq<solver::GenericArgView>, _>(e),
            },
        decreases self, 2nat,
    {
        match self.lower(table) {
            Ok(s) => match s.shifted_in(1) {
                Some(s2) => Ok(s2),
                None => Err(ConversionError::IndexOutOfRange),
            },
            Err(e) => Err(e),
        }
    }
}

/// The executable counterpart of [`lower_bounds`].
pub(crate) fn lower_bound_vec(preds: &Vec<ty::GenericPredicate>, table: &InternTable) -> (r: Result<Vec<solver::QuantifiedWhereClause>, ConversionError>)
    requires
        table.wf(),
        covers_preds(table@, ty::preds_view(preds@)),
    ensures
        match r {
            Ok(v) => lower_bounds(ty::preds_view(preds@), table@) == Ok::<_, ConversionError>(
                solver::clauses_view(v@),
            ),
            Err(e) => lower_bounds(ty::preds_view(preds@), table@) == Err::<Seq<solver::QuantifiedWhereClauseView>, _>(e),
        },
    decreases preds, 0nat,
{
    let ghost s = ty::preds_view(preds@);
    let mut out: Vec<solver::QuantifiedWhereClause> = Vec::new();
    let mut i: usize = 0;
    assert(s.take(0) =~= Seq::empty());
    assert(solver::clauses_view(out@) =~= Seq::empty());
    while i < preds.len()
        invariant
            i <= preds.len(),
            table.wf(),
            s == ty::preds_view(preds@),
            covers_preds(table@, s),
            lower_bounds(s.take(i as int), table@) == Ok::<_, ConversionError>(
                solver::clauses_view(out@),
            ),
        decreases preds.len() - i,
    {
        let ghost prev = solver::clauses_view(out@);
        proof {
            assert(s.take(i + 1).drop_last() =~= s.take(i as int));
            assert(s.take(i + 1).last() == s[i as int]);
            assert(covers_pred(table@, s[i as int]));
        }
        if !preds[i].is_error() {
            match preds[i].lower(table) {
                Ok(q) => {
                    out.push(q);
                    assert(solver::clauses_view(out@) =~= prev.push(q@));
                },
                Err(e) => {
                    proof {
                        lemma_bounds_prefix_err(s, i + 1, table@);
                    }
                    return Err(e);
                },
            }
        }
        i += 1;
    }
    assert(s.take(preds.len() as int) =~= s);
    Ok(out)
}

impl ty::GenericPredicate {
    /// The predicate as a quantified where-clause, for a table that holds
    /// its identities.
    pub(crate) fn lower(&self, table: &InternTable) -> (r: Result<solver::QuantifiedWhereClause, ConversionError>)
        requires
            table.wf(),
            covers_pred(table@, self@),
        ensures
            match r {
                Ok(x) => lower_pred(self@, table@) == Ok::<_, ConversionError>(x@),
                Err(e) => lower_pred(self@, table@) == Err::<solver::QuantifiedWhereClauseView, _>(e),
            },
        decreases self, 0nat,
    {
        match self {
            ty::GenericPredicate::Implemented(tr) => {
                match tr.substs.lower_under_binder(table) {
                    Ok(s) => Ok(
                        make_binders(
                            solver::WhereClause::Implemented(
                                solver::TraitRef {
                                    trait_id: solver::TraitId(tr.trait_.0),
                                    substitution: s,
                                },
                            ),
                            0,
                        ),
                    ),
                    Err(e) => Err(e),
                }
            },
            ty::GenericPredicate::Projection(pp) => {
                let t = match pp.ty.lower(table) {
                    Ok(t) => t,
                    Err(e) => { return Err(e); },
                };
                let t2 = match t.shifted_in(1) {
                    Some(t2) => t2,
                    None => { return Err(ConversionError::IndexOutOfRange); },
                };
                match pp.projection_ty.parameters.lower_under_binder(table) {
                    Ok(s) => Ok(
                        make_binders(
                            solver::WhereClause::AliasEq(
                                solver::AliasEq {
                                    alias: solver::AliasTy::Projection(
                                        solver::ProjectionTy {
                                            associated_ty_id: solver::AssocTypeId(
                                                pp.projection_ty.associated_ty.0,
                                            ),
                                            substitution: s,
                                        },
                                    ),
                                    ty: t2,
                                },
                            ),
                            0,
                        ),
                    ),
                    Err(e) => Err(e),
                }
            },
            ty::GenericPredicate::Error => Err(ConversionError::ErrorPredicate),
        }
    }
}

impl ty::AliasTy {
    /// The solver's form of the alias, for a table that holds its
    /// identities.
    pub(crate) fn lower(&self, table: &InternTable) -> (r: Result<solver::Ty, ConversionError>)
        requires
            table.wf(),
            covers_ty(table@, self@),
        ensures
            match r {
                Ok(x) => lower_ty(self@, table@) == Ok::<_, ConversionError>(x@),
                Err(e) => lower_ty(self@, table@) == Err::<solver::TyView, _>(e),
            },
        decreases self, 3nat,
    {
        match self {
            ty::AliasTy::Projection(p) => match p.parameters.lower(table) {
                Ok(a) => {
                    let alias = solver::AliasTy::Projection(
                        solver::ProjectionTy {
                            associated_ty_id: solver::AssocTypeId(p.associated_ty.0),
                            substitution: a,
                        },
                    );
                    assert(alias@ is Projection);
                    Ok(solver::Ty::Alias(alias))
                },
                Err(e) => Err(e),
            },
            ty::AliasTy::Opaque(o) => match o.parameters.lower(table) {
                Ok(a) => {
                    let alias = solver::AliasTy::Opaque(
                        solver::OpaqueTy {
                            opaque_ty_id: solver::OpaqueTyId(
                                table.handle(InternKey::ImplTrait(o.opaque_ty_id)),
                            ),
                            substitution: a,
                        },
                    );
                    assert(alias@ is Opaque);
                    Ok(solver::Ty::Alias(alias))
                },
                Err(e) => Err(e),
            },
        }
    }
}

impl ty::Ty {
    /// Types without arguments.
    fn lower_leaf(&self, table: &InternTable) -> (r: Result<solver::Ty, ConversionError>)
        requires
            table.wf(),
            covers_ty(table@, self@),
            self is Scalar || self is ForeignType || self is Never || self is Str || self is Placeholder || self is BoundVar || self is InferenceVar || self is Unknown,
        ensures
            match r {
                Ok(x) => lower_ty(self@, table@) == Ok::<_, ConversionError>(x@),
                Err(e) => lower_ty(self@, table@) == Err::<solver::TyView, _>(e),
            },
        decreases self, 4nat,
    {
        match self {
            ty::Ty::Scalar(s) => Ok(solver::Ty::Scalar(*s)),
            ty::Ty::ForeignType(id) => Ok(solver::Ty::Foreign(solver::ForeignDefId(id.0))),
            ty::Ty::Never => Ok(solver::Ty::Never),
            ty::Ty::Str => Ok(solver::Ty::Str),
            ty::Ty::Placeholder(id) => Ok(
                solver::Ty::Placeholder(
                    PlaceholderIndex {
                        ui: root_universe(),
                        idx: table.handle(InternKey::TypeParam(*id)),
                    },
                ),
            ),
            ty::Ty::BoundVar(bv) => Ok(solver::Ty::BoundVar(*bv)),
            ty::Ty::InferenceVar(_, _) => Err(ConversionError::UncanonicalizedInferenceVar),
            ty::Ty::Unknown => Ok(solver::Ty::Error),
            _ => Err(ConversionError::MissingTypeArgument),
        }
    }

    /// Definitions applied to arguments.
    fn lower_applied(&self, table: &InternTable) -> (r: Result<solver::Ty, ConversionError>)
        requires
            table.wf(),
            covers_ty(table@, self@),
            self is Tuple || self is Adt || self is AssociatedType || self is Closure || self is OpaqueType || self is FnDef,
        ensures
            match r {
                Ok(x) => lower_ty(self@, table@) == Ok::<_, ConversionError>(x@),
                Err(e) => lower_ty(self@, table@) == Err::<solver::TyView, _>(e),
            },
        decreases self, 4nat,
    {
        match self {
            ty::Ty::Tuple(n, s) => match s.lower(table) {
                Ok(a) => Ok(solver::Ty::Tuple(*n, a)),
                Err(e) => Err(e),
            },
            ty::Ty::Closure(def, expr, s) => match s.lower(table) {
                Ok(a) => Ok(
                    solver::Ty::Closure(
                        solver::ClosureId(table.handle(InternKey::Closure(*def, *expr))),
                        a,
                    ),
                ),
                Err(e) => Err(e),
            },
            ty::Ty::Adt(id, s) => match s.lower(table) {
                Ok(a) => Ok(solver::Ty::Adt(solver::AdtId(*id), a)),
                Err(e) => Err(e),
            },
            ty::Ty::AssociatedType(id, s) => match s.lower(table) {
                Ok(a) => Ok(
                    solver::Ty::AssociatedType(solver::AssocTypeId(id.0), a),
                ),
                Err(e) => Err(e),
            },
            ty::Ty::OpaqueType(id, s) => match s.lower(table) {
                Ok(a) => Ok(
                    solver::Ty::OpaqueType(
                        solver::OpaqueTyId(table.handle(InternKey::ImplTrait(*id))),
                        a,
                    ),
                ),
                Err(e) => Err(e),
            },
            ty::Ty::FnDef(id, s) => match s.lower(table) {
                Ok(a) => Ok(
                    solver::Ty::FnDef(
                        solver::FnDefId(table.handle(InternKey::Callable(*id))),
                        a,
                    ),
                ),
                Err(e) => Err(e),
            },
            _ => Err(ConversionError::MissingTypeArgument),
        }
    }

    /// Pointer-like types and function pointers.
    fn lower_pointer(&self, table: &InternTable) -> (r: Result<solver::Ty, ConversionError>)
        requires
            table.wf(),
            covers_ty(table@, self@),
            self is Array || self is Slice || self is Raw || self is Ref || self is Function,
        ensures
            match r {
                Ok(x) => lower_ty(self@, table@) == Ok::<_, ConversionError>(x@),
                Err(e) => lower_ty(self@, table@) == Err::<solver::TyView, _>(e),
            },
        decreases self, 4nat,
    {
        match self {
            ty::Ty::Array(s) => array_to_chalk(s, table),
            ty::Ty::Slice(s) => match s.lower_first(table) {
                Ok(e) => Ok(solver::Ty::Slice(Box::new(e))),
                Err(e) => Err(e),
            },
            ty::Ty::Raw(m, s) => match s.lower_first(table) {
                Ok(e) => Ok(solver::Ty::Raw(*m, Box::new(e))),
                Err(e) => Err(e),
            },
            ty::Ty::Ref(m, s) => ref_to_chalk(*m, s, table),
            ty::Ty::Function(fp) => match fp.substs.lower_under_binder(table) {
                Ok(s) => Ok(
                    solver::Ty::Function(
                        solver::FnPointer {
                            num_binders: 0,
                            sig: solver::FnSig { safety: Safety::Safe, variadic: fp.sig.variadic },
                            substitution: s,
                        },
                    ),
                ),
                Err(e) => Err(e),
            },
            _ => Err(ConversionError::MissingTypeArgument),
        }
    }

    /// The solver's form of the type, for a table that holds its
    /// identities.
    pub(crate) fn lower(&self, table: &InternTable) -> (r: Result<solver::Ty, ConversionError>)
        requires
            table.wf(),
            covers_ty(table@, self@),
        ensures
            match r {
                Ok(x) => lower_ty(self@, table@) == Ok::<_, ConversionError>(x@),
                Err(e) => lower_ty(self@, table@) == Err::<solver::TyView, _>(e),
            },
        decreases self, 5nat,
    {
        match self {
            ty::Ty::Scalar(_)
            | ty::Ty::ForeignType(_)
            | ty::Ty::Never
            | ty::Ty::Str
            | ty::Ty::Placeholder(_)
            | ty::Ty::BoundVar(_)
            | ty::Ty::InferenceVar(_, _)
            | ty::Ty::Unknown => self.lower_leaf(table),
            ty::Ty::Tuple(_, _)
            | ty::Ty::Adt(_, _)
            | ty::Ty::AssociatedType(_, _)
            | ty::Ty::Closure(_, _, _)
            | ty::Ty::OpaqueType(_, _)
            | ty::Ty::FnDef(_, _) => self.lower_applied(table),
            ty::Ty::Array(_)
            | ty::Ty::Slice(_)
            | ty::Ty::Raw(_, _)
            | ty::Ty::Ref(_, _)
            | ty::Ty::Function(_) => self.lower_pointer(table),
            ty::Ty::Dyn(preds) => match lower_bound_vec(preds, table) {
                Ok(b) => Ok(
                    solver::Ty::Dyn(
                        solver::DynTy {
                            binders: binder_kinds(1),
                            bounds: b,
                            lifetime: solver::Lifetime::Static,
                        },
                    ),
                ),
                Err(e) => Err(e),
            },
            ty::Ty::Alias(alias) => alias.lower(table),
        }
    }
}

/// A reference type. The analyzer does not model lifetimes and the solver
/// does, so the reference is given the static lifetime.
pub(crate) fn ref_to_chalk(mutability: Mutability, subst: &ty::Substs, table: &InternTable) -> (r: Result<solver::Ty, ConversionError>)
    requires
        table.wf(),
        covers_tys(table@, subst@),
    ensures
        match r {
            Ok(x) => lower_ty(ty::TyView::Ref(mutability, subst@), table@) == Ok::<_, ConversionError>(x@),
            Err(e) => lower_ty(ty::TyView::Ref(mutability, subst@), table@) == Err::<solver::TyView, _>(e),
        },
    decreases subst, 3nat,
{
    match subst.lower_first(table) {
        Ok(arg) => Ok(solver::Ty::Ref(mutability, solver::Lifetime::Static, Box::new(arg))),
        Err(e) => Err(e),
    }
}

/// An array type. The analyzer does not model constants and the solver
/// does, so the array is given a concrete length of type `usize`.
pub(crate) fn array_to_chalk(subst: &ty::Substs, table: &InternTable) -> (r: Result<solver::Ty, ConversionError>)
    requires
        table.wf(),
        covers_tys(table@, subst@),
    ensures
        match r {
            Ok(x) => lower_ty(ty::TyView::Array(subst@), table@) == Ok::<_, ConversionError>(x@),
            Err(e) => lower_ty(ty::TyView::Array(subst@), table@) == Err::<solver::TyView, _>(e),
        },
    decreases subst, 3nat,
{
    match subst.lower_first(table) {
        Ok(arg) => {
            let usize_ty = solver::Ty::Scalar(Scalar::Uint(UintTy::Usize));
            assert(usize_ty@ == solver::TyView::Scalar(Scalar::Uint(UintTy::Usize)));
            let const_ = solver::Const { ty: Box::new(usize_ty), value: solver::ConstValue::Concrete };
            assert(const_@ == array_len_const());
            Ok(solver::Ty::Array(Box::new(arg), const_))
        },
        Err(e) => Err(e),
    }
}

/// Substitution fidelity, outbound: the arguments that come out are as
/// many as the types, and each is the solver's form of the type at its
/// position.
pub proof fn lemma_lower_tys_keeps_order(s: Seq<ty::TyView>, table: Seq<InternKey>)
    requires
        lower_tys(s, table) is Ok,
    ensures
        lower_tys(s, table)->Ok_0.len() == s.len(),
        forall|i: int| 0 <= i < s.len() ==> lower_ty(#[trigger] s[i], table) is Ok && lower_tys(
            s,
            table,
        )->Ok_0[i] == solver::GenericArgView::Ty(lower_ty(s[i], table)->Ok_0),
{
    crate::collect::lemma_collect_is_ok(lower_each(s, table));
    assert forall|i: int| 0 <= i < s.len() implies lower_ty(#[trigger] s[i], table) is Ok
        && lower_tys(s, table)->Ok_0[i] == solver::GenericArgView::Ty(
        lower_ty(s[i], table)->Ok_0,
    ) by {
        assert(lower_each(s, table)[i] == Ok::<_, ConversionError>(lower_tys(s, table)->Ok_0[i]));
    }
}

} // verus!
