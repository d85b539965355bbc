use solver_bridge::bridge::{
    from_chalk, ToChalk, TypeAliasAsAssocType, TypeAliasAsForeignType, TypeAliasAsValue,
};
use solver_bridge::error::ConversionError;
use solver_bridge::ids::{
    AdtId, CallableDefId, DefWithBodyId, ExprId, FunctionId, ImplId, InternKey, OpaqueTyId,
    TraitId, TypeAliasId, TypeParamId,
};
use solver_bridge::intern::InternTable;
use solver_bridge::primitive::{
    BoundVar, FloatTy, InferenceVar, IntTy, Mutability, PlaceholderIndex, Safety, Scalar,
    TyVariableKind, UintTy,
};
use solver_bridge::solver;
use solver_bridge::ty::{
    AliasTy, Canonical, FnPointer, FnSig, GenericPredicate, InEnvironment, Obligation, OpaqueTy,
    ProjectionPredicate, ProjectionTy, Substs, TraitEnvironment, TraitRef, Ty,
};

fn int32() -> Ty {
    Ty::Scalar(Scalar::Int(IntTy::I32))
}

fn boolean() -> Ty {
    Ty::Scalar(Scalar::Bool)
}

fn solver_int32() -> solver::Ty {
    solver::Ty::Scalar(Scalar::Int(IntTy::I32))
}

fn ty_arg(t: solver::Ty) -> solver::GenericArg {
    solver::GenericArg::Ty(t)
}

fn round_trip(t: Ty) {
    let mut table = InternTable::new();
    let lowered = t.to_chalk(&mut table).unwrap();
    let back = Ty::from_chalk(&table, &lowered).unwrap();
    assert_eq!(back, t);
    // and the solver's form comes out of its own image again
    let again = back.to_chalk(&mut table).unwrap();
    assert_eq!(again, lowered);
}

#[test]
fn trait_reference_of_display_for_int32() {
    let display = TraitId(7);
    let trait_ref = TraitRef { trait_: display, substs: Substs(vec![int32()]) };
    let mut table = InternTable::new();
    let external = trait_ref.to_chalk(&mut table).unwrap();
    assert_eq!(external.trait_id, solver::TraitId(7));
    assert_eq!(external.substitution.0.len(), 1);
    assert_eq!(external.substitution.0[0], ty_arg(solver_int32()));
    let back = TraitRef::from_chalk(&table, &external).unwrap();
    assert_eq!(back, trait_ref);
}

#[test]
fn scalars_round_trip() {
    round_trip(Ty::Scalar(Scalar::Bool));
    round_trip(Ty::Scalar(Scalar::Char));
    round_trip(Ty::Scalar(Scalar::Int(IntTy::Isize)));
    round_trip(Ty::Scalar(Scalar::Uint(UintTy::U128)));
    round_trip(Ty::Scalar(Scalar::Float(FloatTy::F64)));
    round_trip(Ty::Never);
    round_trip(Ty::Str);
    round_trip(Ty::Unknown);
}

#[test]
fn pointer_like_types_round_trip() {
    round_trip(Ty::Ref(Mutability::Mut, Substs::single(int32())));
    round_trip(Ty::Ref(Mutability::Not, Substs::single(Ty::Str)));
    round_trip(Ty::Raw(Mutability::Not, Substs::single(int32())));
    round_trip(Ty::Slice(Substs::single(boolean())));
    round_trip(Ty::Array(Substs::single(Ty::Tuple(2, Substs(vec![int32(), boolean()])))));
}

#[test]
fn applied_definitions_round_trip() {
    round_trip(Ty::Tuple(0, Substs(vec![])));
    round_trip(Ty::Adt(AdtId::Struct(3), Substs(vec![int32(), Ty::Never])));
    round_trip(Ty::Adt(AdtId::Enum(3), Substs(vec![])));
    round_trip(Ty::AssociatedType(TypeAliasId(11), Substs(vec![int32()])));
    round_trip(Ty::ForeignType(TypeAliasId(12)));
    round_trip(Ty::FnDef(CallableDefId::Function(FunctionId(5)), Substs(vec![boolean()])));
    round_trip(Ty::OpaqueType(OpaqueTyId { func: FunctionId(1), idx: 0 }, Substs(vec![])));
    round_trip(Ty::Closure(DefWithBodyId(8), ExprId(40), Substs(vec![int32()])));
    round_trip(Ty::Placeholder(TypeParamId { parent: 2, local_id: 1 }));
    round_trip(Ty::BoundVar(BoundVar { debruijn: 0, index: 3 }));
}

#[test]
fn aliases_round_trip() {
    round_trip(Ty::Alias(AliasTy::Projection(ProjectionTy {
        associated_ty: TypeAliasId(21),
        parameters: Substs(vec![int32(), boolean()]),
    })));
    round_trip(Ty::Alias(AliasTy::Opaque(OpaqueTy {
        opaque_ty_id: OpaqueTyId { func: FunctionId(9), idx: 1 },
        parameters: Substs(vec![Ty::Str]),
    })));
}

#[test]
fn function_pointers_round_trip() {
    round_trip(Ty::Function(FnPointer {
        num_args: 2,
        sig: FnSig { variadic: false },
        substs: Substs(vec![int32(), boolean(), Ty::Never]),
    }));
    round_trip(Ty::Function(FnPointer {
        num_args: 0,
        sig: FnSig { variadic: true },
        substs: Substs(vec![Ty::BoundVar(BoundVar { debruijn: 2, index: 1 })]),
    }));
}

#[test]
fn trait_objects_round_trip() {
    let this = || Ty::BoundVar(BoundVar { debruijn: 0, index: 0 });
    round_trip(Ty::Dyn(vec![
        GenericPredicate::Implemented(TraitRef {
            trait_: TraitId(1),
            substs: Substs(vec![this(), int32()]),
        }),
        GenericPredicate::Projection(ProjectionPredicate {
            projection_ty: ProjectionTy {
                associated_ty: TypeAliasId(4),
                parameters: Substs(vec![this()]),
            },
            ty: boolean(),
        }),
    ]));
    round_trip(Ty::Dyn(vec![]));
}

#[test]
fn references_are_given_the_static_lifetime() {
    let mut table = InternTable::new();
    let lowered = Ty::Ref(Mutability::Mut, Substs::single(int32())).to_chalk(&mut table).unwrap();
    assert_eq!(
        lowered,
        solver::Ty::Ref(Mutability::Mut, solver::Lifetime::Static, Box::new(solver_int32()))
    );
    // whatever lifetime comes back is dropped
    let erased = solver::Ty::Ref(Mutability::Mut, solver::Lifetime::Erased, Box::new(solver_int32()));
    assert_eq!(
        Ty::from_chalk(&table, &erased),
        Ok(Ty::Ref(Mutability::Mut, Substs::single(int32())))
    );
}

#[test]
fn arrays_are_given_a_concrete_usize_length() {
    let mut table = InternTable::new();
    let lowered = Ty::Array(Substs::single(boolean())).to_chalk(&mut table).unwrap();
    let len = solver::Const {
        ty: Box::new(solver::Ty::Scalar(Scalar::Uint(UintTy::Usize))),
        value: solver::ConstValue::Concrete,
    };
    assert_eq!(lowered, solver::Ty::Array(Box::new(solver::Ty::Scalar(Scalar::Bool)), len));
    // the length is ignored on the way back
    let other = solver::Ty::Array(
        Box::new(solver::Ty::Scalar(Scalar::Bool)),
        solver::Const {
            ty: Box::new(solver::Ty::Scalar(Scalar::Uint(UintTy::U8))),
            value: solver::ConstValue::InferenceVar(InferenceVar(3)),
        },
    );
    assert_eq!(Ty::from_chalk(&table, &other), Ok(Ty::Array(Substs::single(boolean()))));
}

#[test]
fn function_pointer_arguments_are_placed_under_a_binder() {
    let mut table = InternTable::new();
    let f = Ty::Function(FnPointer {
        num_args: 1,
        sig: FnSig { variadic: false },
        substs: Substs(vec![Ty::BoundVar(BoundVar { debruijn: 0, index: 2 }), int32()]),
    });
    let lowered = f.to_chalk(&mut table).unwrap();
    assert_eq!(
        lowered,
        solver::Ty::Function(solver::FnPointer {
            num_binders: 0,
            sig: solver::FnSig { safety: Safety::Safe, variadic: false },
            substitution: solver::Substitution(vec![
                ty_arg(solver::Ty::BoundVar(BoundVar { debruijn: 1, index: 2 })),
                ty_arg(solver_int32()),
            ]),
        })
    );
}

#[test]
fn function_pointer_with_binders_is_rejected() {
    let table = InternTable::new();
    for num_binders in [1usize, 2, 17] {
        let f = solver::Ty::Function(solver::FnPointer {
            num_binders,
            sig: solver::FnSig { safety: Safety::Safe, variadic: false },
            substitution: solver::Substitution(vec![ty_arg(solver_int32())]),
        });
        assert_eq!(Ty::from_chalk(&table, &f), Err(ConversionError::FnPointerBinders));
    }
}

#[test]
fn function_pointer_that_uses_its_binder_is_rejected() {
    let table = InternTable::new();
    let f = solver::Ty::Function(solver::FnPointer {
        num_binders: 0,
        sig: solver::FnSig { safety: Safety::Safe, variadic: false },
        substitution: solver::Substitution(vec![ty_arg(solver::Ty::BoundVar(BoundVar {
            debruijn: 0,
            index: 0,
        }))]),
    });
    assert_eq!(Ty::from_chalk(&table, &f), Err(ConversionError::EscapingBoundVar));
}

#[test]
fn function_pointer_argument_count_is_one_less_than_the_substitution() {
    let table = InternTable::new();
    let f = solver::Ty::Function(solver::FnPointer {
        num_binders: 0,
        sig: solver::FnSig { safety: Safety::Unsafe, variadic: true },
        substitution: solver::Substitution(vec![
            ty_arg(solver_int32()),
            ty_arg(solver_int32()),
            ty_arg(solver::Ty::Never),
        ]),
    });
    assert_eq!(
        Ty::from_chalk(&table, &f),
        Ok(Ty::Function(FnPointer {
            num_args: 2,
            sig: FnSig { variadic: true },
            substs: Substs(vec![int32(), int32(), Ty::Never]),
        }))
    );
    let empty = solver::Ty::Function(solver::FnPointer {
        num_binders: 0,
        sig: solver::FnSig { safety: Safety::Safe, variadic: false },
        substitution: solver::Substitution(vec![]),
    });
    assert_eq!(Ty::from_chalk(&table, &empty), Err(ConversionError::MissingTypeArgument));
}

#[test]
fn trait_object_must_bind_exactly_its_own_type() {
    let table = InternTable::new();
    let general = solver::VariableKind::Ty(TyVariableKind::General);
    for binders in [vec![], vec![general, general]] {
        let d = solver::Ty::Dyn(solver::DynTy {
            binders,
            bounds: vec![],
            lifetime: solver::Lifetime::Static,
        });
        assert_eq!(Ty::from_chalk(&table, &d), Err(ConversionError::DynBinders));
    }
    let d = solver::Ty::Dyn(solver::DynTy {
        binders: vec![general],
        bounds: vec![],
        lifetime: solver::Lifetime::Static,
    });
    assert_eq!(Ty::from_chalk(&table, &d), Ok(Ty::Dyn(vec![])));
}

#[test]
fn trait_object_drops_error_predicates() {
    let mut table = InternTable::new();
    let good = || {
        GenericPredicate::Implemented(TraitRef {
            trait_: TraitId(1),
            substs: Substs(vec![Ty::BoundVar(BoundVar { debruijn: 0, index: 0 })]),
        })
    };
    let d = Ty::Dyn(vec![GenericPredicate::Error, good(), GenericPredicate::Error]);
    let lowered = d.to_chalk(&mut table).unwrap();
    match &lowered {
        solver::Ty::Dyn(dyn_ty) => {
            assert_eq!(dyn_ty.binders, vec![solver::VariableKind::Ty(TyVariableKind::General)]);
            assert_eq!(dyn_ty.bounds.len(), 1);
            assert_eq!(dyn_ty.bounds[0].binders, vec![]);
            assert_eq!(
                dyn_ty.bounds[0].value,
                solver::WhereClause::Implemented(solver::TraitRef {
                    trait_id: solver::TraitId(1),
                    substitution: solver::Substitution(vec![ty_arg(solver::Ty::BoundVar(
                        BoundVar { debruijn: 1, index: 0 }
                    ))]),
                })
            );
            assert_eq!(dyn_ty.lifetime, solver::Lifetime::Static);
        }
        other => panic!("not a trait object: {:?}", other),
    }
    assert_eq!(Ty::from_chalk(&table, &lowered), Ok(Ty::Dyn(vec![good()])));
}

#[test]
fn placeholder_belongs_to_the_root_universe() {
    let mut table = InternTable::new();
    table.intern(InternKey::Closure(DefWithBodyId(0), ExprId(0)));
    let id = TypeParamId { parent: 6, local_id: 2 };
    let lowered = Ty::Placeholder(id).to_chalk(&mut table).unwrap();
    assert_eq!(lowered, solver::Ty::Placeholder(PlaceholderIndex { ui: 0, idx: 1 }));
    let elsewhere = solver::Ty::Placeholder(PlaceholderIndex { ui: 1, idx: 1 });
    assert_eq!(Ty::from_chalk(&table, &elsewhere), Err(ConversionError::NonRootUniverse));
    let unknown = solver::Ty::Placeholder(PlaceholderIndex { ui: 0, idx: 9 });
    assert_eq!(Ty::from_chalk(&table, &unknown), Err(ConversionError::UnknownHandle));
    let closure = solver::Ty::Placeholder(PlaceholderIndex { ui: 0, idx: 0 });
    assert_eq!(Ty::from_chalk(&table, &closure), Err(ConversionError::UnknownHandle));
}

#[test]
fn closures_are_told_apart_by_context_and_expression() {
    let mut table = InternTable::new();
    let a = Ty::Closure(DefWithBodyId(1), ExprId(1), Substs(vec![])).to_chalk(&mut table).unwrap();
    let b = Ty::Closure(DefWithBodyId(1), ExprId(2), Substs(vec![])).to_chalk(&mut table).unwrap();
    let c = Ty::Closure(DefWithBodyId(2), ExprId(1), Substs(vec![])).to_chalk(&mut table).unwrap();
    let a2 = Ty::Closure(DefWithBodyId(1), ExprId(1), Substs(vec![])).to_chalk(&mut table).unwrap();
    assert_eq!(a, solver::Ty::Closure(solver::ClosureId(0), solver::Substitution(vec![])));
    assert_eq!(b, solver::Ty::Closure(solver::ClosureId(1), solver::Substitution(vec![])));
    assert_eq!(c, solver::Ty::Closure(solver::ClosureId(2), solver::Substitution(vec![])));
    assert_eq!(a2, a);
}

#[test]
fn inference_variable_must_not_go_out() {
    let mut table = InternTable::new();
    let v = Ty::InferenceVar(InferenceVar(0), TyVariableKind::General);
    assert_eq!(v.to_chalk(&mut table), Err(ConversionError::UncanonicalizedInferenceVar));
    let nested = Ty::Tuple(
        2,
        Substs(vec![int32(), Ty::Ref(Mutability::Not, Substs::single(Ty::InferenceVar(
            InferenceVar(4),
            TyVariableKind::Integer,
        )))]),
    );
    assert_eq!(nested.to_chalk(&mut table), Err(ConversionError::UncanonicalizedInferenceVar));
}

#[test]
fn inference_variable_of_the_solver_becomes_unknown() {
    let table = InternTable::new();
    let v = solver::Ty::InferenceVar(InferenceVar(12), TyVariableKind::Float);
    assert_eq!(Ty::from_chalk(&table, &v), Ok(Ty::Unknown));
    let t = solver::Ty::Tuple(1, solver::Substitution(vec![ty_arg(v)]));
    assert_eq!(Ty::from_chalk(&table, &t), Ok(Ty::Tuple(1, Substs(vec![Ty::Unknown]))));
}

#[test]
fn unknown_becomes_the_error_type() {
    let mut table = InternTable::new();
    assert_eq!(Ty::Unknown.to_chalk(&mut table), Ok(solver::Ty::Error));
    assert_eq!(Ty::from_chalk(&table, &solver::Ty::Error), Ok(Ty::Unknown));
}

#[test]
fn generators_are_not_supported() {
    let table = InternTable::new();
    let g = solver::Ty::Generator(solver::GeneratorId(1), solver::Substitution(vec![]));
    assert_eq!(Ty::from_chalk(&table, &g), Err(ConversionError::UnsupportedGenerator));
    let w = solver::Ty::GeneratorWitness(solver::GeneratorId(1), solver::Substitution(vec![]));
    assert_eq!(Ty::from_chalk(&table, &w), Err(ConversionError::UnsupportedGenerator));
}

#[test]
fn pointer_without_element_type_is_rejected() {
    let mut table = InternTable::new();
    let r = Ty::Ref(Mutability::Not, Substs(vec![]));
    assert_eq!(r.to_chalk(&mut table), Err(ConversionError::MissingTypeArgument));
    assert_eq!(Ty::Slice(Substs(vec![])).to_chalk(&mut table), Err(ConversionError::MissingTypeArgument));
}

#[test]
fn substitution_keeps_length_and_order() {
    let mut table = InternTable::new();
    let substs = Substs(vec![int32(), boolean(), Ty::Never, Ty::Str, int32()]);
    let lowered = substs.to_chalk(&mut table).unwrap();
    assert_eq!(
        lowered,
        solver::Substitution(vec![
            ty_arg(solver_int32()),
            ty_arg(solver::Ty::Scalar(Scalar::Bool)),
            ty_arg(solver::Ty::Never),
            ty_arg(solver::Ty::Str),
            ty_arg(solver_int32()),
        ])
    );
    let back: Substs = from_chalk(&table, &lowered).unwrap();
    assert_eq!(back, substs);
    assert_eq!(back.len(), 5);
    let empty = Substs(vec![]).to_chalk(&mut table).unwrap();
    assert_eq!(empty, solver::Substitution(vec![]));
}

#[test]
fn substitution_entries_must_be_types() {
    let table = InternTable::new();
    let with_lifetime = solver::Substitution(vec![
        ty_arg(solver_int32()),
        solver::GenericArg::Lifetime(solver::Lifetime::Static),
    ]);
    assert_eq!(
        Substs::from_chalk(&table, &with_lifetime),
        Err(ConversionError::UnsupportedGenericArg)
    );
    let with_const = solver::Substitution(vec![solver::GenericArg::Const(solver::Const {
        ty: Box::new(solver_int32()),
        value: solver::ConstValue::Concrete,
    })]);
    assert_eq!(Substs::from_chalk(&table, &with_const), Err(ConversionError::UnsupportedGenericArg));
}

#[test]
fn the_first_failure_decides() {
    let table = InternTable::new();
    let s = solver::Substitution(vec![
        ty_arg(solver::Ty::Generator(solver::GeneratorId(0), solver::Substitution(vec![]))),
        solver::GenericArg::Lifetime(solver::Lifetime::Static),
    ]);
    assert_eq!(Substs::from_chalk(&table, &s), Err(ConversionError::UnsupportedGenerator));
    let s = solver::Substitution(vec![
        solver::GenericArg::Lifetime(solver::Lifetime::Static),
        ty_arg(solver::Ty::Generator(solver::GeneratorId(0), solver::Substitution(vec![]))),
    ]);
    assert_eq!(Substs::from_chalk(&table, &s), Err(ConversionError::UnsupportedGenericArg));
}

#[test]
fn predicates_are_placed_under_an_empty_binder() {
    let mut table = InternTable::new();
    let p = GenericPredicate::Implemented(TraitRef {
        trait_: TraitId(2),
        substs: Substs(vec![Ty::BoundVar(BoundVar { debruijn: 0, index: 0 }), int32()]),
    });
    let q = p.to_chalk(&mut table).unwrap();
    assert_eq!(q.binders, vec![]);
    assert_eq!(
        q.value,
        solver::WhereClause::Implemented(solver::TraitRef {
            trait_id: solver::TraitId(2),
            substitution: solver::Substitution(vec![
                ty_arg(solver::Ty::BoundVar(BoundVar { debruijn: 1, index: 0 })),
                ty_arg(solver_int32()),
            ]),
        })
    );
    assert_eq!(GenericPredicate::from_chalk(&table, &q), Ok(p));
}

#[test]
fn projection_predicates_round_trip() {
    let mut table = InternTable::new();
    let p = GenericPredicate::Projection(ProjectionPredicate {
        projection_ty: ProjectionTy {
            associated_ty: TypeAliasId(5),
            parameters: Substs(vec![int32()]),
        },
        ty: Ty::Placeholder(TypeParamId { parent: 0, local_id: 0 }),
    });
    let q = p.to_chalk(&mut table).unwrap();
    assert_eq!(GenericPredicate::from_chalk(&table, &q), Ok(p));
}

#[test]
fn error_predicate_is_no_goal() {
    let mut table = InternTable::new();
    assert_eq!(
        GenericPredicate::Error.to_chalk(&mut table),
        Err(ConversionError::ErrorPredicate)
    );
}

#[test]
fn where_clause_that_uses_its_binder_is_rejected() {
    let table = InternTable::new();
    let q = solver::QuantifiedWhereClause {
        binders: vec![solver::VariableKind::Ty(TyVariableKind::General)],
        value: solver::WhereClause::Implemented(solver::TraitRef {
            trait_id: solver::TraitId(0),
            substitution: solver::Substitution(vec![ty_arg(solver::Ty::BoundVar(BoundVar {
                debruijn: 0,
                index: 0,
            }))]),
        }),
    };
    assert_eq!(GenericPredicate::from_chalk(&table, &q), Err(ConversionError::EscapingBoundVar));
}

#[test]
fn outlives_clauses_are_not_supported() {
    let table = InternTable::new();
    let q = solver::QuantifiedWhereClause {
        binders: vec![],
        value: solver::WhereClause::LifetimeOutlives(
            solver::Lifetime::Static,
            solver::Lifetime::Erased,
        ),
    };
    assert_eq!(GenericPredicate::from_chalk(&table, &q), Err(ConversionError::UnsupportedOutlives));
    let q = solver::QuantifiedWhereClause {
        binders: vec![],
        value: solver::WhereClause::TypeOutlives(solver_int32(), solver::Lifetime::Static),
    };
    assert_eq!(GenericPredicate::from_chalk(&table, &q), Err(ConversionError::UnsupportedOutlives));
}

#[test]
fn alias_equality_of_an_opaque_type_is_not_supported() {
    let table = InternTable::new();
    let q = solver::QuantifiedWhereClause {
        binders: vec![],
        value: solver::WhereClause::AliasEq(solver::AliasEq {
            alias: solver::AliasTy::Opaque(solver::OpaqueTy {
                opaque_ty_id: solver::OpaqueTyId(0),
                substitution: solver::Substitution(vec![]),
            }),
            ty: solver_int32(),
        }),
    };
    assert_eq!(
        GenericPredicate::from_chalk(&table, &q),
        Err(ConversionError::UnsupportedOpaqueAlias)
    );
}

#[test]
fn obligations_become_goals() {
    let mut table = InternTable::new();
    let tr = || TraitRef { trait_: TraitId(3), substs: Substs(vec![int32()]) };
    let goal = Obligation::Trait(tr()).to_chalk(&mut table).unwrap();
    assert_eq!(
        goal,
        solver::DomainGoal::Holds(solver::WhereClause::Implemented(solver::TraitRef {
            trait_id: solver::TraitId(3),
            substitution: solver::Substitution(vec![ty_arg(solver_int32())]),
        }))
    );
    assert_eq!(Obligation::from_chalk(&table, &goal), Ok(Obligation::Trait(tr())));
    let pp = || ProjectionPredicate {
        projection_ty: ProjectionTy { associated_ty: TypeAliasId(1), parameters: Substs(vec![boolean()]) },
        ty: int32(),
    };
    let goal = Obligation::Projection(pp()).to_chalk(&mut table).unwrap();
    assert_eq!(
        goal,
        solver::DomainGoal::Holds(solver::WhereClause::AliasEq(solver::AliasEq {
            alias: solver::AliasTy::Projection(solver::ProjectionTy {
                associated_ty_id: solver::AssocTypeId(1),
                substitution: solver::Substitution(vec![ty_arg(solver::Ty::Scalar(Scalar::Bool))]),
            }),
            ty: solver_int32(),
        }))
    );
    assert_eq!(Obligation::from_chalk(&table, &goal), Ok(Obligation::Projection(pp())));
}

#[test]
fn environment_keeps_the_valid_predicates() {
    let mut table = InternTable::new();
    let valid = |n: u32| {
        GenericPredicate::Implemented(TraitRef { trait_: TraitId(n), substs: Substs(vec![int32()]) })
    };
    let env = TraitEnvironment {
        predicates: vec![
            valid(1),
            GenericPredicate::Error,
            valid(2),
            GenericPredicate::Error,
            GenericPredicate::Error,
            valid(3),
        ],
    };
    let lowered = env.to_chalk(&mut table).unwrap();
    assert_eq!(lowered.clauses.len(), 3);
    let back = TraitEnvironment::from_chalk(&table, &lowered).unwrap();
    assert_eq!(back.predicates, vec![valid(1), valid(2), valid(3)]);
    let only_errors = TraitEnvironment { predicates: vec![] };
    assert_eq!(only_errors.to_chalk(&mut table).unwrap().clauses.len(), 0);
    let only_errors =
        TraitEnvironment { predicates: vec![GenericPredicate::Error, GenericPredicate::Error] };
    assert_eq!(only_errors.to_chalk(&mut table).unwrap().clauses.len(), 0);
}

#[test]
fn value_in_environment_round_trips() {
    let mut table = InternTable::new();
    let make = || InEnvironment {
        environment: TraitEnvironment {
            predicates: vec![GenericPredicate::Implemented(TraitRef {
                trait_: TraitId(1),
                substs: Substs(vec![Ty::Closure(DefWithBodyId(1), ExprId(1), Substs(vec![]))]),
            })],
        },
        value: Obligation::Trait(TraitRef {
            trait_: TraitId(2),
            substs: Substs(vec![Ty::Placeholder(TypeParamId { parent: 1, local_id: 1 })]),
        }),
    };
    let lowered = make().to_chalk(&mut table).unwrap();
    assert_eq!(lowered.environment.clauses.len(), 1);
    // the environment is converted first: its closure has the first handle
    assert_eq!(table.lookup(0), Some(InternKey::Closure(DefWithBodyId(1), ExprId(1))));
    let back: InEnvironment<Obligation> = from_chalk(&table, &lowered).unwrap();
    assert_eq!(back, make());
}

#[test]
fn canonical_kinds_are_type_variables_of_the_root_universe() {
    let mut table = InternTable::new();
    let c = Canonical {
        kinds: vec![TyVariableKind::General, TyVariableKind::Integer, TyVariableKind::Float],
        value: Ty::BoundVar(BoundVar { debruijn: 0, index: 1 }),
    };
    let lowered = c.to_chalk(&mut table).unwrap();
    assert_eq!(
        lowered.binders,
        vec![
            solver::CanonicalVarKind { kind: solver::VariableKind::Ty(TyVariableKind::General), universe: 0 },
            solver::CanonicalVarKind { kind: solver::VariableKind::Ty(TyVariableKind::Integer), universe: 0 },
            solver::CanonicalVarKind { kind: solver::VariableKind::Ty(TyVariableKind::Float), universe: 0 },
        ]
    );
    assert_eq!(lowered.value, solver::Ty::BoundVar(BoundVar { debruijn: 0, index: 1 }));
    let back: Canonical<Ty> = from_chalk(&table, &lowered).unwrap();
    assert_eq!(back, c);
}

#[test]
fn lifetime_kind_keeps_its_place_as_a_general_type_variable() {
    let table = InternTable::new();
    let c = solver::Canonical {
        value: solver_int32(),
        binders: vec![
            solver::CanonicalVarKind { kind: solver::VariableKind::Ty(TyVariableKind::Integer), universe: 0 },
            solver::CanonicalVarKind { kind: solver::VariableKind::Lifetime, universe: 0 },
            solver::CanonicalVarKind { kind: solver::VariableKind::Ty(TyVariableKind::Float), universe: 0 },
        ],
    };
    let back: Canonical<Ty> = from_chalk(&table, &c).unwrap();
    assert_eq!(
        back.kinds,
        vec![TyVariableKind::Integer, TyVariableKind::General, TyVariableKind::Float]
    );
    assert_eq!(back.value, int32());
}

#[test]
fn const_kind_is_not_supported() {
    let table = InternTable::new();
    let c = solver::Canonical {
        value: solver_int32(),
        binders: vec![solver::CanonicalVarKind { kind: solver::VariableKind::Const, universe: 0 }],
    };
    let back: Result<Canonical<Ty>, ConversionError> = from_chalk(&table, &c);
    assert_eq!(back, Err(ConversionError::UnsupportedConstKind));
}

#[test]
fn plain_identities_convert_by_their_number() {
    let mut table = InternTable::new();
    assert_eq!(TraitId(4).to_chalk(&mut table), Ok(solver::TraitId(4)));
    assert_eq!(TraitId::from_chalk(&table, &solver::TraitId(4)), Ok(TraitId(4)));
    assert_eq!(ImplId(5).to_chalk(&mut table), Ok(solver::ImplId(5)));
    assert_eq!(ImplId::from_chalk(&table, &solver::ImplId(5)), Ok(ImplId(5)));
    assert_eq!(AdtId::Union(6).to_chalk(&mut table), Ok(solver::AdtId(AdtId::Union(6))));
    assert_eq!(AdtId::from_chalk(&table, &solver::AdtId(AdtId::Union(6))), Ok(AdtId::Union(6)));
    let alias = TypeAliasId(7);
    assert_eq!(TypeAliasAsAssocType(alias).to_chalk(&mut table), Ok(solver::AssocTypeId(7)));
    assert_eq!(
        TypeAliasAsAssocType::from_chalk(&table, &solver::AssocTypeId(7)),
        Ok(TypeAliasAsAssocType(alias))
    );
    assert_eq!(TypeAliasAsForeignType(alias).to_chalk(&mut table), Ok(solver::ForeignDefId(7)));
    assert_eq!(
        TypeAliasAsForeignType::from_chalk(&table, &solver::ForeignDefId(7)),
        Ok(TypeAliasAsForeignType(alias))
    );
    assert_eq!(TypeAliasAsValue(alias).to_chalk(&mut table), Ok(solver::AssociatedTyValueId(7)));
    assert_eq!(
        TypeAliasAsValue::from_chalk(&table, &solver::AssociatedTyValueId(7)),
        Ok(TypeAliasAsValue(alias))
    );
    assert_eq!(table.len(), 0);
}

#[test]
fn equal_inputs_give_equal_outputs() {
    let make = || {
        Ty::Tuple(
            2,
            Substs(vec![
                Ty::Closure(DefWithBodyId(3), ExprId(4), Substs(vec![int32()])),
                Ty::FnDef(CallableDefId::Function(FunctionId(1)), Substs(vec![])),
            ]),
        )
    };
    let mut one = InternTable::new();
    let mut two = InternTable::new();
    assert_eq!(make().to_chalk(&mut one), make().to_chalk(&mut two));
    assert_eq!(make().to_chalk(&mut one), make().to_chalk(&mut two));
    assert_eq!(one.len(), 2);
}

#[test]
fn structural_equality_follows_the_shape() {
    let a = Ty::Adt(AdtId::Struct(1), Substs(vec![int32(), boolean()]));
    let b = Ty::Adt(AdtId::Struct(1), Substs(vec![int32(), boolean()]));
    let c = Ty::Adt(AdtId::Struct(1), Substs(vec![boolean(), int32()]));
    let d = Ty::Adt(AdtId::Struct(2), Substs(vec![int32(), boolean()]));
    assert!(a.same_as(&b));
    assert!(!a.same_as(&c));
    assert!(!a.same_as(&d));
    assert!(!a.same_as(&Ty::Never));
    let p = Ty::Alias(AliasTy::Projection(ProjectionTy { associated_ty: TypeAliasId(1), parameters: Substs(vec![]) }));
    let o = Ty::Alias(AliasTy::Opaque(OpaqueTy { opaque_ty_id: OpaqueTyId { func: FunctionId(1), idx: 0 }, parameters: Substs(vec![]) }));
    assert!(p.same_as(&p));
    assert!(!p.same_as(&o));
    assert!(!Ty::Never.same_as(&p));
    let e = Ty::Dyn(vec![GenericPredicate::Error]);
    assert!(e.same_as(&Ty::Dyn(vec![GenericPredicate::Error])));
    assert!(!e.same_as(&Ty::Dyn(vec![])));
}
