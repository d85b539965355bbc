use solver_bridge::bound::generic_predicate_to_inline_bound;
use solver_bridge::env::convert_where_clauses;
use solver_bridge::error::ConversionError;
use solver_bridge::ids::{
    AdtId, AssocContainerId, DefWithBodyId, ExprId, ImplId, InternKey, TraitId, TypeAliasId,
};
use solver_bridge::intern::InternTable;
use solver_bridge::primitive::{BoundVar, InferenceVar, IntTy, Scalar, TyVariableKind};
use solver_bridge::solver;
use solver_bridge::ty::{GenericPredicate, ProjectionPredicate, ProjectionTy, Substs, TraitRef, Ty};

fn int32() -> Ty {
    Ty::Scalar(Scalar::Int(IntTy::I32))
}

fn boolean() -> Ty {
    Ty::Scalar(Scalar::Bool)
}

fn var(debruijn: u32, index: usize) -> Ty {
    Ty::BoundVar(BoundVar { debruijn, index })
}

fn arg(t: solver::Ty) -> solver::GenericArg {
    solver::GenericArg::Ty(t)
}

const ANY: AssocContainerId = AssocContainerId::Module(0);

#[test]
fn trait_predicate_about_the_self_type_gives_a_trait_bound() {
    let mut table = InternTable::new();
    let self_ty = Ty::Adt(AdtId::Struct(1), Substs(vec![]));
    let pred = GenericPredicate::Implemented(TraitRef {
        trait_: TraitId(8),
        substs: Substs(vec![Ty::Adt(AdtId::Struct(1), Substs(vec![])), int32()]),
    });
    let bound = generic_predicate_to_inline_bound(&mut table, &pred, &self_ty, ANY);
    assert_eq!(
        bound,
        Ok(Some(solver::InlineBound::TraitBound(solver::TraitBound {
            trait_id: solver::TraitId(8),
            args_no_self: vec![arg(solver::Ty::Scalar(Scalar::Int(IntTy::I32)))],
        })))
    );
}

#[test]
fn trait_predicate_about_another_type_gives_no_bound() {
    let mut table = InternTable::new();
    let pred = GenericPredicate::Implemented(TraitRef {
        trait_: TraitId(8),
        substs: Substs(vec![Ty::Closure(DefWithBodyId(1), ExprId(2), Substs(vec![])), int32()]),
    });
    let bound = generic_predicate_to_inline_bound(&mut table, &pred, &boolean(), ANY);
    assert_eq!(bound, Ok(None));
    // nothing was interned on the way
    assert_eq!(table.len(), 0);
}

#[test]
fn the_self_type_is_not_converted() {
    let mut table = InternTable::new();
    let closure = || Ty::Closure(DefWithBodyId(1), ExprId(2), Substs(vec![]));
    let pred = GenericPredicate::Implemented(TraitRef {
        trait_: TraitId(8),
        substs: Substs(vec![closure(), Ty::Closure(DefWithBodyId(5), ExprId(5), Substs(vec![]))]),
    });
    let bound = generic_predicate_to_inline_bound(&mut table, &pred, &closure(), ANY).unwrap();
    assert_eq!(
        bound,
        Some(solver::InlineBound::TraitBound(solver::TraitBound {
            trait_id: solver::TraitId(8),
            args_no_self: vec![arg(solver::Ty::Closure(
                solver::ClosureId(0),
                solver::Substitution(vec![])
            ))],
        }))
    );
    assert_eq!(table.len(), 1);
    assert_eq!(table.lookup(0), Some(InternKey::Closure(DefWithBodyId(5), ExprId(5))));
}

#[test]
fn projection_about_the_self_type_gives_an_alias_equality_bound() {
    let mut table = InternTable::new();
    let pred = GenericPredicate::Projection(ProjectionPredicate {
        projection_ty: ProjectionTy {
            associated_ty: TypeAliasId(3),
            parameters: Substs(vec![int32(), boolean()]),
        },
        ty: Ty::Str,
    });
    let bound = generic_predicate_to_inline_bound(
        &mut table,
        &pred,
        &int32(),
        AssocContainerId::Trait(TraitId(12)),
    );
    assert_eq!(
        bound,
        Ok(Some(solver::InlineBound::AliasEqBound(solver::AliasEqBound {
            trait_bound: solver::TraitBound {
                trait_id: solver::TraitId(12),
                args_no_self: vec![arg(solver::Ty::Scalar(Scalar::Bool))],
            },
            associated_ty_id: solver::AssocTypeId(3),
            parameters: vec![],
            value: solver::Ty::Str,
        })))
    );
}

#[test]
fn projection_about_another_type_gives_no_bound() {
    let mut table = InternTable::new();
    let pred = GenericPredicate::Projection(ProjectionPredicate {
        projection_ty: ProjectionTy { associated_ty: TypeAliasId(3), parameters: Substs(vec![int32()]) },
        ty: Ty::Str,
    });
    // the container is not even looked at
    let bound = generic_predicate_to_inline_bound(&mut table, &pred, &boolean(), ANY);
    assert_eq!(bound, Ok(None));
}

#[test]
fn associated_type_outside_a_trait_is_a_broken_invariant() {
    let mut table = InternTable::new();
    let pred = GenericPredicate::Projection(ProjectionPredicate {
        projection_ty: ProjectionTy { associated_ty: TypeAliasId(3), parameters: Substs(vec![int32()]) },
        ty: Ty::Str,
    });
    for container in [AssocContainerId::Module(1), AssocContainerId::Impl(ImplId(2))] {
        let bound = generic_predicate_to_inline_bound(&mut table, &pred, &int32(), container);
        assert_eq!(bound, Err(ConversionError::AssocTypeNotInTrait));
    }
}

#[test]
fn error_predicate_gives_no_bound() {
    let mut table = InternTable::new();
    let bound = generic_predicate_to_inline_bound(&mut table, &GenericPredicate::Error, &int32(), ANY);
    assert_eq!(bound, Ok(None));
}

#[test]
fn predicate_without_self_type_is_rejected() {
    let mut table = InternTable::new();
    let pred = GenericPredicate::Implemented(TraitRef { trait_: TraitId(1), substs: Substs(vec![]) });
    let bound = generic_predicate_to_inline_bound(&mut table, &pred, &int32(), ANY);
    assert_eq!(bound, Err(ConversionError::MissingTypeArgument));
}

#[test]
fn where_clauses_keep_the_order_and_drop_errors() {
    let mut table = InternTable::new();
    let declared = vec![
        GenericPredicate::Implemented(TraitRef { trait_: TraitId(1), substs: Substs(vec![var(0, 0)]) }),
        GenericPredicate::Error,
        GenericPredicate::Implemented(TraitRef { trait_: TraitId(2), substs: Substs(vec![var(0, 1)]) }),
        GenericPredicate::Projection(ProjectionPredicate {
            projection_ty: ProjectionTy { associated_ty: TypeAliasId(9), parameters: Substs(vec![var(0, 0)]) },
            ty: var(0, 1),
        }),
    ];
    let substs = Substs(vec![int32(), boolean()]);
    let clauses = convert_where_clauses(&mut table, &declared, &substs).unwrap();
    let implemented = |trait_id: u32, t: solver::Ty| solver::QuantifiedWhereClause {
        binders: vec![],
        value: solver::WhereClause::Implemented(solver::TraitRef {
            trait_id: solver::TraitId(trait_id),
            substitution: solver::Substitution(vec![arg(t)]),
        }),
    };
    assert_eq!(
        clauses,
        vec![
            implemented(1, solver::Ty::Scalar(Scalar::Int(IntTy::I32))),
            implemented(2, solver::Ty::Scalar(Scalar::Bool)),
            solver::QuantifiedWhereClause {
                binders: vec![],
                value: solver::WhereClause::AliasEq(solver::AliasEq {
                    alias: solver::AliasTy::Projection(solver::ProjectionTy {
                        associated_ty_id: solver::AssocTypeId(9),
                        substitution: solver::Substitution(vec![arg(solver::Ty::Scalar(
                            Scalar::Int(IntTy::I32)
                        ))]),
                    }),
                    ty: solver::Ty::Scalar(Scalar::Bool),
                }),
            },
        ]
    );
}

#[test]
fn where_clauses_of_nothing_are_nothing() {
    let mut table = InternTable::new();
    assert_eq!(convert_where_clauses(&mut table, &vec![], &Substs(vec![])), Ok(vec![]));
    assert_eq!(
        convert_where_clauses(&mut table, &vec![GenericPredicate::Error], &Substs(vec![])),
        Ok(vec![])
    );
}

#[test]
fn where_clause_with_a_variable_out_of_range_is_rejected() {
    let mut table = InternTable::new();
    let declared = vec![GenericPredicate::Implemented(TraitRef {
        trait_: TraitId(1),
        substs: Substs(vec![var(0, 3)]),
    })];
    let r = convert_where_clauses(&mut table, &declared, &Substs(vec![int32()]));
    assert_eq!(r, Err(ConversionError::IndexOutOfRange));
}

#[test]
fn where_clause_with_an_inference_variable_is_rejected() {
    let mut table = InternTable::new();
    let declared = vec![GenericPredicate::Implemented(TraitRef {
        trait_: TraitId(1),
        substs: Substs(vec![var(0, 0)]),
    })];
    let substs = Substs(vec![Ty::InferenceVar(InferenceVar(1), TyVariableKind::General)]);
    let r = convert_where_clauses(&mut table, &declared, &substs);
    assert_eq!(r, Err(ConversionError::UncanonicalizedInferenceVar));
}

#[test]
fn substitution_lifts_under_the_binder_of_a_trait_object() {
    let object = Ty::Dyn(vec![GenericPredicate::Implemented(TraitRef {
        trait_: TraitId(1),
        // the object's own type, then the first parameter of the definition
        substs: Substs(vec![var(0, 0), var(1, 0)]),
    })]);
    let substs = Substs(vec![var(0, 5)]);
    assert_eq!(
        object.subst(&substs),
        Some(Ty::Dyn(vec![GenericPredicate::Implemented(TraitRef {
            trait_: TraitId(1),
            substs: Substs(vec![var(0, 0), var(1, 5)]),
        })]))
    );
    assert_eq!(var(0, 1).subst(&Substs(vec![int32(), boolean()])), Some(boolean()));
    assert_eq!(var(0, 2).subst(&Substs(vec![int32(), boolean()])), None);
    assert_eq!(var(3, 0).shift_bound_vars(2), Some(var(5, 0)));
    assert_eq!(var(u32::MAX, 0).shift_bound_vars(1), None);
    assert_eq!(object.shift_bound_vars(1), Some(Ty::Dyn(vec![GenericPredicate::Implemented(TraitRef {
        trait_: TraitId(1),
        substs: Substs(vec![var(0, 0), var(2, 0)]),
    })])));
}
