use solver_bridge::primitive::{BoundVar, IntTy, Mutability, Safety, Scalar, TyVariableKind};
use solver_bridge::shift::{shift_bound_var, Direction};
use solver_bridge::solver::{
    AliasEq, AliasTy, Const, ConstValue, DynTy, FnPointer, FnSig, GenericArg, Lifetime,
    ProjectionTy, QuantifiedWhereClause, Substitution, TraitId, TraitRef, Ty, VariableKind,
    WhereClause, AssocTypeId,
};

fn var(debruijn: u32, index: usize) -> Ty {
    Ty::BoundVar(BoundVar { debruijn, index })
}

fn int32() -> Ty {
    Ty::Scalar(Scalar::Int(IntTy::I32))
}

fn args(tys: Vec<Ty>) -> Substitution {
    Substitution(tys.into_iter().map(GenericArg::Ty).collect())
}

#[test]
fn shifting_in_raises_the_depth_of_a_free_variable() {
    assert_eq!(var(0, 3).shifted_in(1), Some(var(1, 3)));
    assert_eq!(var(2, 0).shifted_in(5), Some(var(7, 0)));
    assert_eq!(var(4, 1).shifted_in(0), Some(var(4, 1)));
}

#[test]
fn shifting_out_lowers_the_depth_of_a_free_variable() {
    assert_eq!(var(1, 3).shifted_out(1), Some(var(0, 3)));
    assert_eq!(var(7, 0).shifted_out(5), Some(var(2, 0)));
    assert_eq!(var(4, 1).shifted_out(0), Some(var(4, 1)));
}

#[test]
fn shifting_out_fails_on_a_variable_of_a_removed_binder() {
    assert_eq!(var(0, 0).shifted_out(1), None);
    assert_eq!(var(4, 2).shifted_out(5), None);
    let t = Ty::Tuple(2, args(vec![var(3, 0), var(0, 1)]));
    assert_eq!(t.shifted_out(1), None);
}

#[test]
fn shifting_in_fails_when_the_depth_leaves_its_range() {
    assert_eq!(var(u32::MAX, 0).shifted_in(1), None);
    assert_eq!(var(u32::MAX - 1, 0).shifted_in(1), Some(var(u32::MAX, 0)));
    assert_eq!(var(1, 0).shifted_in(u32::MAX), None);
}

#[test]
fn the_depth_arithmetic_goes_by_cutoff_and_direction() {
    let bv = BoundVar { debruijn: 3, index: 9 };
    // bound within the cutoff: left alone
    assert_eq!(shift_bound_var(bv, 4, 2, Direction::In), Some(bv));
    assert_eq!(shift_bound_var(bv, 4, 2, Direction::Out), Some(bv));
    // free: moved
    assert_eq!(
        shift_bound_var(bv, 3, 2, Direction::In),
        Some(BoundVar { debruijn: 5, index: 9 })
    );
    assert_eq!(
        shift_bound_var(bv, 1, 2, Direction::Out),
        Some(BoundVar { debruijn: 1, index: 9 })
    );
    // free, but bound by a binder that goes away
    assert_eq!(shift_bound_var(bv, 2, 2, Direction::Out), None);
    assert_eq!(shift_bound_var(bv, 3, 1, Direction::Out), None);
}

#[test]
fn variables_bound_inside_the_value_are_left_alone() {
    // under the binder of a function pointer, depth 0 is bound
    let f = |inner: Ty| {
        Ty::Function(FnPointer {
            num_binders: 1,
            sig: FnSig { safety: Safety::Safe, variadic: false },
            substitution: args(vec![inner]),
        })
    };
    assert_eq!(f(var(0, 0)).shifted_in(1), Some(f(var(0, 0))));
    assert_eq!(f(var(1, 0)).shifted_in(1), Some(f(var(2, 0))));
    assert_eq!(f(var(0, 0)).shifted_out(1), Some(f(var(0, 0))));
    assert_eq!(f(var(1, 0)).shifted_out(1), None);
    assert_eq!(f(var(2, 0)).shifted_out(1), Some(f(var(1, 0))));
}

#[test]
fn the_bounds_of_a_trait_object_lie_under_two_binders() {
    let d = |inner: Ty| {
        Ty::Dyn(DynTy {
            binders: vec![VariableKind::Ty(TyVariableKind::General)],
            bounds: vec![QuantifiedWhereClause {
                binders: vec![],
                value: WhereClause::Implemented(TraitRef {
                    trait_id: TraitId(1),
                    substitution: args(vec![inner]),
                }),
            }],
            lifetime: Lifetime::Static,
        })
    };
    assert_eq!(d(var(1, 0)).shifted_in(1), Some(d(var(1, 0))));
    assert_eq!(d(var(2, 0)).shifted_in(1), Some(d(var(3, 0))));
    assert_eq!(d(var(2, 0)).shifted_out(1), None);
    assert_eq!(d(var(3, 0)).shifted_out(1), Some(d(var(2, 0))));
}

#[test]
fn lifetimes_and_constants_move_too() {
    let r = |depth: u32| {
        Ty::Ref(
            Mutability::Not,
            Lifetime::BoundVar(BoundVar { debruijn: depth, index: 0 }),
            Box::new(int32()),
        )
    };
    assert_eq!(r(0).shifted_in(2), Some(r(2)));
    assert_eq!(r(0).shifted_out(1), None);
    let a = |depth: u32| {
        Ty::Array(
            Box::new(int32()),
            Const {
                ty: Box::new(int32()),
                value: ConstValue::BoundVar(BoundVar { debruijn: depth, index: 1 }),
            },
        )
    };
    assert_eq!(a(1).shifted_in(1), Some(a(2)));
    assert_eq!(a(1).shifted_out(1), Some(a(0)));
    assert_eq!(a(0).shifted_out(1), None);
    let s = Substitution(vec![
        GenericArg::Lifetime(Lifetime::BoundVar(BoundVar { debruijn: 0, index: 0 })),
        GenericArg::Lifetime(Lifetime::Static),
    ]);
    assert_eq!(
        s.shifted_in(3),
        Some(Substitution(vec![
            GenericArg::Lifetime(Lifetime::BoundVar(BoundVar { debruijn: 3, index: 0 })),
            GenericArg::Lifetime(Lifetime::Static),
        ]))
    );
}

#[test]
fn shifting_out_undoes_shifting_in() {
    let values = vec![
        var(0, 0),
        var(9, 4),
        int32(),
        Ty::Tuple(3, args(vec![var(0, 0), int32(), var(5, 1)])),
        Ty::Function(FnPointer {
            num_binders: 0,
            sig: FnSig { safety: Safety::Unsafe, variadic: true },
            substitution: args(vec![var(0, 0), var(1, 0), var(2, 0)]),
        }),
        Ty::Alias(AliasTy::Projection(ProjectionTy {
            associated_ty_id: AssocTypeId(3),
            substitution: args(vec![var(1, 1)]),
        })),
        Ty::Ref(
            Mutability::Mut,
            Lifetime::BoundVar(BoundVar { debruijn: 1, index: 0 }),
            Box::new(Ty::Slice(Box::new(var(0, 7)))),
        ),
    ];
    for v in &values {
        for n in [0u32, 1, 2, 40] {
            let moved = v.shifted_in(n).unwrap();
            assert_eq!(moved.shifted_out(n).as_ref(), Some(v));
        }
    }
}

#[test]
fn where_clauses_and_trait_references_move() {
    let tr = |depth: u32| TraitRef { trait_id: TraitId(1), substitution: args(vec![var(depth, 0)]) };
    assert_eq!(tr(0).shifted_in(1), Some(tr(1)));
    let wc = |depth: u32| {
        WhereClause::AliasEq(AliasEq {
            alias: AliasTy::Projection(ProjectionTy {
                associated_ty_id: AssocTypeId(2),
                substitution: args(vec![var(depth, 0)]),
            }),
            ty: var(depth, 1),
        })
    };
    assert_eq!(wc(1).shifted_out(1), Some(wc(0)));
    assert_eq!(wc(0).shifted_out(1), None);
    let p = |depth: u32| ProjectionTy { associated_ty_id: AssocTypeId(2), substitution: args(vec![var(depth, 0)]) };
    assert_eq!(p(2).shifted_in(2), Some(p(4)));
}
