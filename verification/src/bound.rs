//! Bounds with the self type left out.
//!
//! A predicate about a known self type, such as the hidden type of an
//! opaque type, can be written as a bound on that type: the trait with the
//! arguments that follow the self type. A predicate about another type has
//! no such form.
use vstd::prelude::*;
use crate::collect::{collect, lemma_collect_err, lemma_collect_ok};
use crate::error::ConversionError;
use crate::ids::{AssocContainerId, InternKey};
use crate::intern::{InternTable, extends, lemma_extends_trans};
use crate::lower::{
    covers_ty, covers_tys, lemma_covers_tys_grow, lemma_reg_tys, lower_each, lower_ty, lower_tys,
    reg_ty, reg_tys,
};
use crate::solver;
use crate::ty;

verus! {

/// The bound on `self_ty` that `pred` stands for, if it is a predicate
/// about `self_ty`. `container` is where the associated type of a
/// projection is declared; it is read for projections only.
pub open spec fn inline_bound(
    pred: ty::PredicateView,
    self_ty: ty::TyView,
    container: AssocContainerId,
    table: Seq<InternKey>,
) -> Result<Option<solver::InlineBoundView>, ConversionError> {
    match pred {
        ty::PredicateView::Implemented(tr) => if tr.substs.len() == 0 {
            Err(ConversionError::MissingTypeArgument)
        } else if tr.substs[0] != self_ty {
            Ok(None)
        } else {
            match lower_tys(tr.substs.skip(1), table) {
                Ok(args) => Ok(
                    Some(
                        solver::InlineBoundView::TraitBound(
                            solver::TraitBoundView {
                                trait_id: solver::TraitId(tr.trait_.0),
                                args_no_self: args,
                            },
                        ),
                    ),
                ),
                Err(e) => Err(e),
            }
        },
        ty::PredicateView::Projection(pp) => if pp.projection_ty.parameters.len() == 0 {
            Err(ConversionError::MissingTypeArgument)
        } else if pp.projection_ty.parameters[0] != self_ty {
            Ok(None)
        } else {
            match container {
                AssocContainerId::Trait(t) => match lower_tys(
                    pp.projection_ty.parameters.skip(1),
                    table,
                ) {
                    Ok(args) => match lower_ty(pp.ty, table) {
                        Ok(value) => Ok(
                            Some(
                                solver::InlineBoundView::AliasEqBound {
                                    trait_bound: solver::TraitBoundView {
                                        trait_id: solver::TraitId(t.0),
                                        args_no_self: args,
                                    },
                                    associated_ty_id: solver::AssocTypeId(
                                        pp.projection_ty.associated_ty.0,
                                    ),
                                    parameters: Seq::empty(),
                                    value,
                                },
                            ),
                        ),
                        Err(e) => Err(e),
                    },
                    Err(e) => Err(e),
                },
                _ => Err(ConversionError::AssocTypeNotInTrait),
            }
        },
        ty::PredicateView::Error => Ok(None),
    }
}

/// The table after the bound of a predicate was made: the identities of
/// the arguments after the self type, then those of the value of a
/// projection, were given handles. Without a bound the table is unchanged.
pub open spec fn inline_bound_table(
    pred: ty::PredicateView,
    self_ty: ty::TyView,
    container: AssocContainerId,
    table: Seq<InternKey>,
) -> Seq<InternKey> {
    match pred {
        ty::PredicateView::Implemented(tr) => if tr.substs.len() == 0 || tr.substs[0] != self_ty {
            table
        } else {
            reg_tys(tr.substs.skip(1), table)
        },
        ty::PredicateView::Projection(pp) => if pp.projection_ty.parameters.len() == 0
            || pp.projection_ty.parameters[0] != self_ty || !(container is Trait) {
            table
        } else {
            reg_ty(pp.ty, reg_tys(pp.projection_ty.parameters.skip(1), table))
        },
        ty::PredicateView::Error => table,
    }
}

/// Gives every composite identity in the types after the first a handle.
fn register_tail(tys: &Vec<ty::Ty>, table: &mut InternTable)
    requires
        old(table).wf(),
        tys.len() > 0,
    ensures
        final(table).wf(),
        final(table)@ == reg_tys(ty::tys_view(tys@).skip(1), old(table)@),
        extends(final(table)@, old(table)@),
        covers_tys(final(table)@, ty::tys_view(tys@).skip(1)),
{
    let ghost s = ty::tys_view(tys@).skip(1);
    let ghost start = table@;
    let mut i: usize = 1;
    assert(s.take(0) =~= Seq::empty());
    while i < tys.len()
        invariant
            1 <= i <= tys.len(),
            table.wf(),
            s == ty::tys_view(tys@).skip(1),
            table@ == reg_tys(s.take(i - 1), start),
        decreases tys.len() - i,
    {
        proof {
            assert(s.take(i as int).drop_last() =~= s.take(i - 1));
            assert(s.take(i as int).last() == tys@[i as int]@);
        }
        tys[i].register(table);
        i += 1;
    }
    proof {
        assert(s.take(tys.len() - 1) =~= s);
        lemma_reg_tys(s, start);
    }
}

/// The types after the first as generic arguments.
fn lower_tail(tys: &Vec<ty::Ty>, table: &InternTable) -> (r: Result<Vec<solver::GenericArg>, ConversionError>)
    requires
        table.wf(),
        tys.len() > 0,
        covers_tys(table@, ty::tys_view(tys@).skip(1)),
    ensures
        match r {
            Ok(v) => lower_tys(ty::tys_view(tys@).skip(1), table@) == Ok::<_, ConversionError>(
                solver::args_view(v@),
            ),
            Err(e) => lower_tys(ty::tys_view(tys@).skip(1), table@) == Err::<Seq<solver::GenericArgView>, _>(e),
        },
{
    let ghost s = ty::tys_view(tys@).skip(1);
    let ghost rs = lower_each(s, table@);
    let mut out: Vec<solver::GenericArg> = Vec::new();
    let mut i: usize = 1;
    while i < tys.len()
        invariant
            1 <= i <= tys.len(),
            out.len() == i - 1,
            table.wf(),
            s == ty::tys_view(tys@).skip(1),
            covers_tys(table@, s),
            rs == lower_each(s, table@),
            forall|j: int| 0 <= j < i - 1 ==> (#[trigger] rs[j]) == Ok::<_, ConversionError>(out@[j]@),
        decreases tys.len() - i,
    {
        assert(s[i - 1] == tys@[i as int]@);
        assert(covers_ty(table@, s[i - 1]));
        match tys[i].lower(table) {
            Ok(t) => out.push(solver::GenericArg::Ty(t)),
            Err(e) => {
                proof {
                    assert(rs[i - 1] == Err::<solver::GenericArgView, _>(e));
                    lemma_collect_err(rs, i - 1);
                }
                return Err(e);
            },
        }
        i += 1;
    }
    proof {
        lemma_collect_ok(rs);
        assert(collect(rs)->Ok_0 =~= solver::args_view(out@));
    }
    Ok(out)
}

/// The bound on `self_ty` that `pred` stands for: `Ok(None)` when `pred`
/// is about another type or is an error predicate. An inline bound is like
/// a predicate with the self type left out. `container` is where the
/// associated type of a projection is declared; a projection whose
/// associated type is not declared in a trait is a broken invariant.
///
/// Identities in the arguments that are kept are given handles; the table
/// is not touched when there is no bound.
pub fn generic_predicate_to_inline_bound(
    db: &mut InternTable,
    pred: &ty::GenericPredicate,
    self_ty: &ty::Ty,
    container: AssocContainerId,
) -> (r: Result<Option<solver::InlineBound>, ConversionError>)
    requires
        old(db).wf(),
    ensures
        final(db).wf(),
        final(db)@ == inline_bound_table(pred@, self_ty@, container, old(db)@),
        extends(final(db)@, old(db)@),
        match r {
            Ok(Some(b)) => inline_bound(pred@, self_ty@, container, final(db)@) == Ok::<_, ConversionError>(
                Some(b@),
            ),
            Ok(None) => inline_bound(pred@, self_ty@, container, final(db)@) == Ok::<Option<solver::InlineBoundView>, ConversionError>(
                None,
            ) && final(db)@ == old(db)@,
            Err(e) => inline_bound(pred@, self_ty@, container, final(db)@) == Err::<Option<solver::InlineBoundView>, _>(e),
        },
{
    match pred {
        ty::GenericPredicate::Implemented(trait_ref) => {
            if trait_ref.substs.len() == 0 {
                return Err(ConversionError::MissingTypeArgument);
            }
            if !trait_ref.substs.0[0].same_as(self_ty) {
                // only a predicate about the expected self type can be
                // written as a bound on it
                return Ok(None);
            }
            register_tail(&trait_ref.substs.0, db);
            match lower_tail(&trait_ref.substs.0, db) {
                Ok(args_no_self) => {
                    let trait_bound = solver::TraitBound {
                        trait_id: solver::TraitId(trait_ref.trait_.0),
                        args_no_self,
                    };
                    Ok(Some(solver::InlineBound::TraitBound(trait_bound)))
                },
                Err(e) => Err(e),
            }
        },
        ty::GenericPredicate::Projection(proj) => {
            if proj.projection_ty.parameters.len() == 0 {
                return Err(ConversionError::MissingTypeArgument);
            }
            if !proj.projection_ty.parameters.0[0].same_as(self_ty) {
                return Ok(None);
            }
            let trait_ = match container {
                AssocContainerId::Trait(t) => t,
                _ => {
                    return Err(ConversionError::AssocTypeNotInTrait);
                },
            };
            let ghost start = db@;
            register_tail(&proj.projection_ty.parameters.0, db);
            let ghost mid = db@;
            proj.ty.register(db);
            proof {
                lemma_extends_trans(start, mid, db@);
                lemma_covers_tys_grow(mid, db@, proj.projection_ty.parameters@.skip(1));
            }
            let args_no_self = match lower_tail(&proj.projection_ty.parameters.0, db) {
                Ok(args) => args,
                Err(e) => {
                    return Err(e);
                },
            };
            match proj.ty.lower(db) {
                Ok(value) => {
                    let alias_eq_bound = solver::AliasEqBound {
                        value,
                        trait_bound: solver::TraitBound {
                            trait_id: solver::TraitId(trait_.0),
                            args_no_self,
                        },
                        associated_ty_id: solver::AssocTypeId(proj.projection_ty.associated_ty.0),
                        // associated types with parameters of their own are
                        // not supported
                        parameters: Vec::new(),
                    };
                    assert(solver::args_view(alias_eq_bound.parameters@) =~= Seq::empty());
                    Ok(Some(solver::InlineBound::AliasEqBound(alias_eq_bound)))
                },
                Err(e) => Err(e),
            }
        },
        ty::GenericPredicate::Error => Ok(None),
    }
}

/// Inline-bound elision: a trait predicate about the nominated self type
/// gives the trait with the arguments after the self type.
pub proof fn lemma_trait_predicate_about_self(
    tr: ty::TraitRefView,
    self_ty: ty::TyView,
    container: AssocContainerId,
    table: Seq<InternKey>,
)
    requires
        tr.substs.len() > 0,
        tr.substs[0] == self_ty,
        lower_tys(tr.substs.skip(1), table) is Ok,
    ensures
        inline_bound(ty::PredicateView::Implemented(tr), self_ty, container, table) == Ok::<_, ConversionError>(
            Some(
                solver::InlineBoundView::TraitBound(
                    solver::TraitBoundView {
                        trait_id: solver::TraitId(tr.trait_.0),
                        args_no_self: lower_tys(tr.substs.skip(1), table)->Ok_0,
                    },
                ),
            ),
        ),
{
}

/// Inline-bound elision: a predicate about another type than the
/// nominated self type gives no bound.
pub proof fn lemma_predicate_about_other_type(
    pred: ty::PredicateView,
    self_ty: ty::TyView,
    container: AssocContainerId,
    table: Seq<InternKey>,
)
    requires
        match pred {
            ty::PredicateView::Implemented(tr) => tr.substs.len() > 0 && tr.substs[0] != self_ty,
            ty::PredicateView::Projection(pp) => pp.projection_ty.parameters.len() > 0
                && pp.projection_ty.parameters[0] != self_ty,
            ty::PredicateView::Error => true,
        },
    ensures
        inline_bound(pred, self_ty, container, table) == Ok::<Option<solver::InlineBoundView>, ConversionError>(
            None,
        ),
{
}

} // verus!
