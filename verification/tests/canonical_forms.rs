use solver_bridge::bridge::ToChalk;
use solver_bridge::canonical::canonicalize;
use solver_bridge::error::ConversionError;
use solver_bridge::ids::{AdtId, TraitId};
use solver_bridge::intern::InternTable;
use solver_bridge::primitive::{BoundVar, InferenceVar, IntTy, Mutability, Scalar, TyVariableKind};
use solver_bridge::ty::{GenericPredicate, Substs, TraitRef, Ty};

fn infer(n: u32, kind: TyVariableKind) -> Ty {
    Ty::InferenceVar(InferenceVar(n), kind)
}

fn var(debruijn: u32, index: usize) -> Ty {
    Ty::BoundVar(BoundVar { debruijn, index })
}

fn int32() -> Ty {
    Ty::Scalar(Scalar::Int(IntTy::I32))
}

#[test]
fn a_value_without_inference_variables_is_unchanged() {
    let make = || {
        Ty::Adt(
            AdtId::Struct(1),
            Substs(vec![int32(), Ty::Ref(Mutability::Not, Substs::single(Ty::Str)), var(0, 2)]),
        )
    };
    let c = canonicalize(&make()).unwrap();
    assert_eq!(c.kinds, vec![]);
    assert_eq!(c.value, make());
    // and once more
    let again = canonicalize(&c.value).unwrap();
    assert_eq!(again.kinds, vec![]);
    assert_eq!(again.value, make());
}

#[test]
fn variables_are_numbered_in_order_of_first_occurrence() {
    let t = Ty::Tuple(
        4,
        Substs(vec![
            infer(7, TyVariableKind::Integer),
            infer(2, TyVariableKind::General),
            infer(7, TyVariableKind::Integer),
            infer(5, TyVariableKind::Float),
        ]),
    );
    let c = canonicalize(&t).unwrap();
    assert_eq!(
        c.kinds,
        vec![TyVariableKind::Integer, TyVariableKind::General, TyVariableKind::Float]
    );
    assert_eq!(c.value, Ty::Tuple(4, Substs(vec![var(0, 0), var(0, 1), var(0, 0), var(0, 2)])));
}

#[test]
fn a_single_variable_gets_index_zero() {
    let c = canonicalize(&infer(99, TyVariableKind::General)).unwrap();
    assert_eq!(c.kinds, vec![TyVariableKind::General]);
    assert_eq!(c.value, var(0, 0));
}

#[test]
fn a_variable_inside_a_trait_object_counts_the_binder() {
    let t = Ty::Tuple(
        2,
        Substs(vec![
            infer(1, TyVariableKind::General),
            Ty::Dyn(vec![GenericPredicate::Implemented(TraitRef {
                trait_: TraitId(1),
                substs: Substs(vec![var(0, 0), infer(1, TyVariableKind::General), infer(3, TyVariableKind::Integer)]),
            })]),
        ]),
    );
    let c = canonicalize(&t).unwrap();
    assert_eq!(c.kinds, vec![TyVariableKind::General, TyVariableKind::Integer]);
    assert_eq!(
        c.value,
        Ty::Tuple(
            2,
            Substs(vec![
                var(0, 0),
                Ty::Dyn(vec![GenericPredicate::Implemented(TraitRef {
                    trait_: TraitId(1),
                    substs: Substs(vec![var(0, 0), var(1, 0), var(1, 1)]),
                })]),
            ]),
        )
    );
}

#[test]
fn a_canonical_value_has_no_inference_variable_left() {
    let t = Ty::Ref(Mutability::Mut, Substs::single(infer(0, TyVariableKind::General)));
    let c = canonicalize(&t).unwrap();
    let mut table = InternTable::new();
    assert_eq!(t.to_chalk(&mut table), Err(ConversionError::UncanonicalizedInferenceVar));
    assert!(c.to_chalk(&mut table).is_ok());
}
