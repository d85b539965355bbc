use solver_bridge::bridge::ToChalk;
use solver_bridge::error::ConversionError;
use solver_bridge::ids::{
    CallableDefId, DefWithBodyId, ExprId, FunctionId, InternKey, OpaqueTyId, TypeParamId,
};
use solver_bridge::intern::InternTable;
use solver_bridge::primitive::{BoundVar, IntTy, Scalar, TyVariableKind};
use solver_bridge::solver;
use solver_bridge::ty::{
    FnPointer, FnSig, GenericPredicate, ProjectionPredicate, ProjectionTy, Substs, TraitRef, Ty,
};
use solver_bridge::ids::{TraitId, TypeAliasId};
use solver_bridge::lower::{binder_kinds, make_binders};

#[test]
fn interning_twice_gives_the_same_handle() {
    let mut table = InternTable::new();
    let key = InternKey::Closure(DefWithBodyId(1), ExprId(2));
    let a = table.intern(key);
    let b = table.intern(key);
    assert_eq!(a, b);
    assert_eq!(table.len(), 1);
    assert_eq!(table.lookup(a), Some(key));
}

#[test]
fn handles_are_given_in_order_of_first_use() {
    let mut table = InternTable::new();
    let first = InternKey::TypeParam(TypeParamId { parent: 1, local_id: 0 });
    let second = InternKey::Callable(CallableDefId::Struct(9));
    assert_eq!(table.intern(first), 0);
    assert_eq!(table.intern(second), 1);
    assert_eq!(table.intern(first), 0);
    assert_eq!(table.handle_of(second), Some(1));
}

#[test]
fn a_handle_outlives_later_growth() {
    let mut table = InternTable::new();
    let key = InternKey::ImplTrait(OpaqueTyId { func: FunctionId(3), idx: 0 });
    let handle = table.intern(key);
    for i in 0..100u32 {
        table.intern(InternKey::Closure(DefWithBodyId(i), ExprId(i)));
    }
    assert_eq!(table.lookup(handle), Some(key));
    assert_eq!(table.intern(key), handle);
    assert_eq!(table.len(), 101);
}

#[test]
fn an_unknown_key_has_no_handle() {
    let table = InternTable::new();
    assert_eq!(table.handle_of(InternKey::Closure(DefWithBodyId(0), ExprId(0))), None);
    assert_eq!(table.lookup(0), None);
}

#[test]
fn opaque_type_ids_go_through_the_table() {
    let mut table = InternTable::new();
    let id = OpaqueTyId { func: FunctionId(4), idx: 2 };
    let handle = id.to_chalk(&mut table).unwrap();
    assert_eq!(handle, solver::OpaqueTyId(0));
    assert_eq!(OpaqueTyId::from_chalk(&table, &handle), Ok(id));
    assert_eq!(
        OpaqueTyId::from_chalk(&table, &solver::OpaqueTyId(5)),
        Err(ConversionError::UnknownHandle)
    );
}

#[test]
fn callable_ids_go_through_the_table() {
    let mut table = InternTable::new();
    table.intern(InternKey::Closure(DefWithBodyId(0), ExprId(0)));
    let id = CallableDefId::EnumVariant(2, 1);
    let handle = id.to_chalk(&mut table).unwrap();
    assert_eq!(handle, solver::FnDefId(1));
    assert_eq!(CallableDefId::from_chalk(&table, &handle), Ok(id));
    // handle 0 names a closure, not a callable
    assert_eq!(
        CallableDefId::from_chalk(&table, &solver::FnDefId(0)),
        Err(ConversionError::UnknownHandle)
    );
}

#[test]
fn contract_violations_are_told_from_unsupported_shapes() {
    assert!(ConversionError::UncanonicalizedInferenceVar.is_contract_violation());
    assert!(ConversionError::NonRootUniverse.is_contract_violation());
    assert!(ConversionError::FnPointerBinders.is_contract_violation());
    assert!(ConversionError::DynBinders.is_contract_violation());
    assert!(ConversionError::EscapingBoundVar.is_contract_violation());
    assert!(ConversionError::IndexOutOfRange.is_contract_violation());
    assert!(ConversionError::ErrorPredicate.is_contract_violation());
    assert!(ConversionError::MissingTypeArgument.is_contract_violation());
    assert!(ConversionError::AssocTypeNotInTrait.is_contract_violation());
    assert!(ConversionError::UnknownHandle.is_contract_violation());
    assert!(!ConversionError::UnsupportedGenerator.is_contract_violation());
    assert!(!ConversionError::UnsupportedGenericArg.is_contract_violation());
    assert!(!ConversionError::UnsupportedOutlives.is_contract_violation());
    assert!(!ConversionError::UnsupportedOpaqueAlias.is_contract_violation());
    assert!(!ConversionError::UnsupportedConstKind.is_contract_violation());
}

#[test]
fn an_identity_is_registered_before_its_arguments() {
    let closure = |n: u32, args: Vec<Ty>| Ty::Closure(DefWithBodyId(n), ExprId(n), Substs(args));
    let t = closure(1, vec![closure(2, vec![]), closure(3, vec![closure(2, vec![])])]);
    let mut table = InternTable::new();
    t.to_chalk(&mut table).unwrap();
    assert_eq!(table.len(), 3);
    assert_eq!(table.lookup(0), Some(InternKey::Closure(DefWithBodyId(1), ExprId(1))));
    assert_eq!(table.lookup(1), Some(InternKey::Closure(DefWithBodyId(2), ExprId(2))));
    assert_eq!(table.lookup(2), Some(InternKey::Closure(DefWithBodyId(3), ExprId(3))));
}

#[test]
fn the_type_of_a_projection_predicate_is_registered_first() {
    let closure = |n: u32| Ty::Closure(DefWithBodyId(n), ExprId(n), Substs(vec![]));
    let p = GenericPredicate::Projection(ProjectionPredicate {
        projection_ty: ProjectionTy { associated_ty: TypeAliasId(1), parameters: Substs(vec![closure(1)]) },
        ty: closure(2),
    });
    let mut table = InternTable::new();
    p.to_chalk(&mut table).unwrap();
    assert_eq!(table.lookup(0), Some(InternKey::Closure(DefWithBodyId(2), ExprId(2))));
    assert_eq!(table.lookup(1), Some(InternKey::Closure(DefWithBodyId(1), ExprId(1))));
}

#[test]
fn identities_are_registered_even_when_the_conversion_fails() {
    let t = Ty::Tuple(
        2,
        Substs(vec![
            Ty::Closure(DefWithBodyId(1), ExprId(1), Substs(vec![])),
            Ty::InferenceVar(solver_bridge::primitive::InferenceVar(0), TyVariableKind::General),
        ]),
    );
    let mut table = InternTable::new();
    assert_eq!(t.to_chalk(&mut table), Err(ConversionError::UncanonicalizedInferenceVar));
    assert_eq!(table.len(), 1);
}

#[test]
fn a_depth_that_cannot_grow_fails_the_conversion() {
    let f = Ty::Function(FnPointer {
        num_args: 0,
        sig: FnSig { variadic: false },
        substs: Substs(vec![Ty::BoundVar(BoundVar { debruijn: u32::MAX, index: 0 })]),
    });
    let mut table = InternTable::new();
    assert_eq!(f.to_chalk(&mut table), Err(ConversionError::IndexOutOfRange));
    let p = GenericPredicate::Implemented(TraitRef {
        trait_: TraitId(1),
        substs: Substs(vec![Ty::BoundVar(BoundVar { debruijn: u32::MAX, index: 0 })]),
    });
    assert_eq!(p.to_chalk(&mut table), Err(ConversionError::IndexOutOfRange));
}

#[test]
fn binders_are_general_type_variables() {
    let general = solver::VariableKind::Ty(TyVariableKind::General);
    assert_eq!(binder_kinds(0), vec![]);
    assert_eq!(binder_kinds(3), vec![general, general, general]);
    let wc = || solver::WhereClause::TypeOutlives(
        solver::Ty::Scalar(Scalar::Int(IntTy::I8)),
        solver::Lifetime::Static,
    );
    let q = make_binders(wc(), 2);
    assert_eq!(q.binders, vec![general, general]);
    assert_eq!(q.value, wc());
}
