//! Canonical forms: values without inference variables.
//!
//! An inference variable lives for one inference session, so two queries
//! that differ only in the variables they mention would look different to
//! the solver. Canonicalizing replaces each distinct variable by a bound
//! variable of one new outermost binder, numbered in the order of first
//! occurrence, and records the kind of each.
use vstd::prelude::*;
use crate::error::ConversionError;
use crate::primitive::{BoundVar, InferenceVar, TyVariableKind};
use crate::ty::{
    AliasTy, Canonical, FnPointer, FnSig, GenericPredicate, OpaqueTy, PredicateView,
    ProjectionPredicate, ProjectionPredicateView, ProjectionTy, ProjectionTyView, Substs, TraitRef,
    TraitRefView, Ty, TyView, preds_view, tys_view,
};

verus! {

/// The position of `iv` among the variables seen so far.
pub open spec fn position(vars: Seq<(InferenceVar, TyVariableKind)>, iv: InferenceVar) -> Option<int>
    decreases vars.len(),
{
    if vars.len() == 0 {
        None
    } else if vars.last().0 == iv {
        Some(vars.len() - 1)
    } else {
        position(vars.drop_last(), iv)
    }
}

/// The depth under one more binder; nothing when it would leave the range
/// of `u32`.
pub open spec fn deeper(depth: Option<u32>) -> Option<u32> {
    match depth {
        Some(d) => if d < u32::MAX {
            Some((d + 1) as u32)
        } else {
            None
        },
        None => None,
    }
}

/// The kinds of the variables seen, in order.
pub open spec fn kinds_of(vars: Seq<(InferenceVar, TyVariableKind)>) -> Seq<TyVariableKind> {
    Seq::new(vars.len(), |i: int| vars[i].1)
}

/// The types of `s` canonicalized from left to right, with the variables
/// seen after the last.
pub open spec fn canon_tys(
    s: Seq<TyView>,
    vars: Seq<(InferenceVar, TyVariableKind)>,
    depth: Option<u32>,
) -> Option<(Seq<TyView>, Seq<(InferenceVar, TyVariableKind)>)>
    decreases s,
{
    if s.len() == 0 {
        Some((Seq::empty(), vars))
    } else {
        match canon_tys(s.drop_last(), vars, depth) {
            Some((acc, v1)) => match canon_ty(s.last(), v1, depth) {
                Some((t, v2)) => Some((acc.push(t), v2)),
                None => None,
            },
            None => None,
        }
    }
}

/// The predicate with its inference variables replaced, and the variables
/// seen. The projection of a projection predicate comes before its type.
pub open spec fn canon_pred(
    p: PredicateView,
    vars: Seq<(InferenceVar, TyVariableKind)>,
    depth: Option<u32>,
) -> Option<(PredicateView, Seq<(InferenceVar, TyVariableKind)>)>
    decreases p,
{
    match p {
        PredicateView::Implemented(tr) => match canon_tys(tr.substs, vars, depth) {
            Some((s, v)) => Some(
                (PredicateView::Implemented(TraitRefView { trait_: tr.trait_, substs: s }), v),
            ),
            None => None,
        },
        PredicateView::Projection(pp) => match canon_tys(pp.projection_ty.parameters, vars, depth) {
            Some((s, v1)) => match canon_ty(pp.ty, v1, depth) {
                Some((t, v2)) => Some(
                    (
                        PredicateView::Projection(
                            ProjectionPredicateView {
                                projection_ty: ProjectionTyView {
                                    associated_ty: pp.projection_ty.associated_ty,
                                    parameters: s,
                                },
                                ty: t,
                            },
                        ),
                        v2,
                    ),
                ),
                None => None,
            },
            None => None,
        },
        PredicateView::Error => Some((PredicateView::Error, vars)),
    }
}

/// The predicates of `s` canonicalized from left to right, with the
/// variables seen after the last.
pub open spec fn canon_preds(
    s: Seq<PredicateView>,
    vars: Seq<(InferenceVar, TyVariableKind)>,
    depth: Option<u32>,
) -> Option<(Seq<PredicateView>, Seq<(InferenceVar, TyVariableKind)>)>
    decreases s,
{
    if s.len() == 0 {
        Some((Seq::empty(), vars))
    } else {
        match canon_preds(s.drop_last(), vars, depth) {
            Some((acc, v1)) => match canon_pred(s.last(), v1, depth) {
                Some((p, v2)) => Some((acc.push(p), v2)),
                None => None,
            },
            None => None,
        }
    }
}

/// The type with its inference variables replaced, and the variables seen.
/// `vars` holds those seen before, `depth` counts the binders around the
/// type. Nothing comes out when a variable occurs under more binders than
/// a bound variable can count.
pub open spec fn canon_ty(
    t: TyView,
    vars: Seq<(InferenceVar, TyVariableKind)>,
    depth: Option<u32>,
) -> Option<(TyView, Seq<(InferenceVar, TyVariableKind)>)>
    decreases t,
{
    match t {
        TyView::InferenceVar(iv, kind) => match depth {
            Some(d) => match position(vars, iv) {
                Some(i) => Some((TyView::BoundVar(BoundVar { debruijn: d, index: i as usize }), vars)),
                None => Some(
                    (
                        TyView::BoundVar(BoundVar { debruijn: d, index: vars.len() as usize }),
                        vars.push((iv, kind)),
                    ),
                ),
            },
            None => None,
        },
        TyView::Tuple(n, s) => match canon_tys(s, vars, depth) {
            Some((s2, v)) => Some((TyView::Tuple(n, s2), v)),
            None => None,
        },
        TyView::Array(s) => match canon_tys(s, vars, depth) {
            Some((s2, v)) => Some((TyView::Array(s2), v)),
            None => None,
        },
        TyView::Slice(s) => match canon_tys(s, vars, depth) {
            Some((s2, v)) => Some((TyView::Slice(s2), v)),
            None => None,
        },
        TyView::Raw(m, s) => match canon_tys(s, vars, depth) {
            Some((s2, v)) => Some((TyView::Raw(m, s2), v)),
            None => None,
        },
        TyView::Ref(m, s) => match canon_tys(s, vars, depth) {
            Some((s2, v)) => Some((TyView::Ref(m, s2), v)),
            None => None,
        },
        TyView::Function { num_args, variadic, substs } => match canon_tys(substs, vars, depth) {
            Some((s2, v)) => Some((TyView::Function { num_args, variadic, substs: s2 }, v)),
            None => None,
        },
        TyView::Closure(def, expr, s) => match canon_tys(s, vars, depth) {
            Some((s2, v)) => Some((TyView::Closure(def, expr, s2), v)),
            None => None,
        },
        TyView::Adt(id, s) => match canon_tys(s, vars, depth) {
            Some((s2, v)) => Some((TyView::Adt(id, s2), v)),
            None => None,
        },
        TyView::AssociatedType(id, s) => match canon_tys(s, vars, depth) {
            Some((s2, v)) => Some((TyView::AssociatedType(id, s2), v)),
            None => None,
        },
        TyView::OpaqueType(id, s) => match canon_tys(s, vars, depth) {
            Some((s2, v)) => Some((TyView::OpaqueType(id, s2), v)),
            None => None,
        },
        TyView::FnDef(id, s) => match canon_tys(s, vars, depth) {
            Some((s2, v)) => Some((TyView::FnDef(id, s2), v)),
            None => None,
        },
        TyView::Dyn(preds) => match canon_preds(preds, vars, deeper(depth)) {
            Some((p2, v)) => Some((TyView::Dyn(p2), v)),
            None => None,
        },
        TyView::Projection(id, s) => match canon_tys(s, vars, depth) {
            Some((s2, v)) => Some((TyView::Projection(id, s2), v)),
            None => None,
        },
        TyView::Opaque(id, s) => match canon_tys(s, vars, depth) {
            Some((s2, v)) => Some((TyView::Opaque(id, s2), v)),
            None => None,
        },
        TyView::Scalar(_)
        | TyView::ForeignType(_)
        | TyView::Never
        | TyView::Str
        | TyView::Placeholder(_)
        | TyView::BoundVar(_)
        | TyView::Unknown => Some((t, vars)),
    }
}

/// No type of `s` holds an inference variable.
pub open spec fn infer_free_tys(s: Seq<TyView>) -> bool
    decreases s,
{
    forall|i: int| 0 <= i < s.len() ==> infer_free_ty(#[trigger] s[i])
}

/// The predicate holds no inference variable.
pub open spec fn infer_free_pred(p: PredicateView) -> bool
    decreases p,
{
    match p {
        PredicateView::Implemented(tr) => infer_free_tys(tr.substs),
        PredicateView::Projection(pp) => infer_free_tys(pp.projection_ty.parameters)
            && infer_free_ty(pp.ty),
        PredicateView::Error => true,
    }
}

/// The predicate holds no inference variable.
pub open spec fn infer_free_preds(s: Seq<PredicateView>) -> bool
    decreases s,
{
    forall|i: int| 0 <= i < s.len() ==> infer_free_pred(#[trigger] s[i])
}

/// The type holds no inference variable.
pub open spec fn infer_free_ty(t: TyView) -> bool
    decreases t,
{
    match t {
        TyView::InferenceVar(_, _) => false,
        TyView::Tuple(_, s)
        | TyView::Array(s)
        | TyView::Slice(s)
        | TyView::Raw(_, s)
        | TyView::Ref(_, s)
        | TyView::Closure(_, _, s)
        | TyView::Adt(_, s)
        | TyView::AssociatedType(_, s)
        | TyView::OpaqueType(_, s)
        | TyView::FnDef(_, s)
        | TyView::Projection(_, s)
        | TyView::Opaque(_, s) => infer_free_tys(s),
        TyView::Function { num_args, variadic, substs } => infer_free_tys(substs),
        TyView::Dyn(preds) => infer_free_preds(preds),
        _ => true,
    }
}

/// Types without inference variables are left as they are, and no variable
/// is recorded.
pub proof fn lemma_canon_tys_unchanged(
    s: Seq<TyView>,
    vars: Seq<(InferenceVar, TyVariableKind)>,
    depth: Option<u32>,
)
    requires
        infer_free_tys(s),
    ensures
        canon_tys(s, vars, depth) == Some((s, vars)),
    decreases s, 1nat,
{
    if s.len() > 0 {
        assert forall|i: int| 0 <= i < s.drop_last().len() implies infer_free_ty(
            #[trigger] s.drop_last()[i],
        ) by {
            assert(s.drop_last()[i] == s[i]);
        }
        lemma_canon_tys_unchanged(s.drop_last(), vars, depth);
        assert(infer_free_ty(s[s.len() - 1]));
        lemma_canon_ty_unchanged(s.last(), vars, depth);
        assert(s.drop_last().push(s.last()) =~= s);
    } else {
        assert(s =~= Seq::empty());
    }
}

/// A predicate without inference variables is left as it is.
pub proof fn lemma_canon_pred_unchanged(
    p: PredicateView,
    vars: Seq<(InferenceVar, TyVariableKind)>,
    depth: Option<u32>,
)
    requires
        infer_free_pred(p),
    ensures
        canon_pred(p, vars, depth) == Some((p, vars)),
    decreases p, 0nat,
{
    match p {
        PredicateView::Implemented(tr) => lemma_canon_tys_unchanged(tr.substs, vars, depth),
        PredicateView::Projection(pp) => {
            lemma_canon_tys_unchanged(pp.projection_ty.parameters, vars, depth);
            lemma_canon_ty_unchanged(pp.ty, vars, depth);
        },
        PredicateView::Error => {},
    }
}

/// Predicates without inference variables are left as they are.
pub proof fn lemma_canon_preds_unchanged(
    s: Seq<PredicateView>,
    vars: Seq<(InferenceVar, TyVariableKind)>,
    depth: Option<u32>,
)
    requires
        infer_free_preds(s),
    ensures
        canon_preds(s, vars, depth) == Some((s, vars)),
    decreases s, 1nat,
{
    if s.len() > 0 {
        assert forall|i: int| 0 <= i < s.drop_last().len() implies infer_free_pred(
            #[trigger] s.drop_last()[i],
        ) by {
            assert(s.drop_last()[i] == s[i]);
        }
        lemma_canon_preds_unchanged(s.drop_last(), vars, depth);
        assert(infer_free_pred(s[s.len() - 1]));
        lemma_canon_pred_unchanged(s.last(), vars, depth);
        assert(s.drop_last().push(s.last()) =~= s);
    } else {
        assert(s =~= Seq::empty());
    }
}

/// Canonicalizing changes nothing where there is no inference variable:
/// the type stays as it is and no variable is recorded.
pub proof fn lemma_canon_ty_unchanged(
    t: TyView,
    vars: Seq<(InferenceVar, TyVariableKind)>,
    depth: Option<u32>,
)
    requires
        infer_free_ty(t),
    ensures
        canon_ty(t, vars, depth) == Some((t, vars)),
    decreases t, 0nat,
{
    match t {
        TyView::Tuple(_, s)
        | TyView::Array(s)
        | TyView::Slice(s)
        | TyView::Raw(_, s)
        | TyView::Ref(_, s)
        | TyView::Closure(_, _, s)
        | TyView::Adt(_, s)
        | TyView::AssociatedType(_, s)
        | TyView::OpaqueType(_, s)
        | TyView::FnDef(_, s)
        | TyView::Projection(_, s)
        | TyView::Opaque(_, s) => lemma_canon_tys_unchanged(s, vars, depth),
        TyView::Function { num_args, variadic, substs } => lemma_canon_tys_unchanged(
            substs,
            vars,
            depth,
        ),
        TyView::Dyn(preds) => lemma_canon_preds_unchanged(preds, vars, deeper(depth)),
        _ => {},
    }
}

/// Every variable in the types of `s` that the binder `depth` binders out
/// binds has an index below `n`.
pub open spec fn indices_below_tys(s: Seq<TyView>, depth: Option<u32>, n: nat) -> bool
    decreases s,
{
    forall|i: int| 0 <= i < s.len() ==> indices_below_ty(#[trigger] s[i], depth, n)
}

/// Every variable of `p` that the binder `depth` binders out binds has an
/// index below `n`.
pub open spec fn indices_below_pred(p: PredicateView, depth: Option<u32>, n: nat) -> bool
    decreases p,
{
    match p {
        PredicateView::Implemented(tr) => indices_below_tys(tr.substs, depth, n),
        PredicateView::Projection(pp) => indices_below_tys(pp.projection_ty.parameters, depth, n)
            && indices_below_ty(pp.ty, depth, n),
        PredicateView::Error => true,
    }
}

/// Every variable of `p` that the binder `depth` binders out binds has an
/// index below `n`.
pub open spec fn indices_below_preds(s: Seq<PredicateView>, depth: Option<u32>, n: nat) -> bool
    decreases s,
{
    forall|i: int| 0 <= i < s.len() ==> indices_below_pred(#[trigger] s[i], depth, n)
}

/// Every variable of `t` that the binder `depth` binders out binds has an
/// index below `n`: none of them dangles when that binder introduces `n`
/// variables.
pub open spec fn indices_below_ty(t: TyView, depth: Option<u32>, n: nat) -> bool
    decreases t,
{
    match t {
        TyView::BoundVar(bv) => depth == Some(bv.debruijn) ==> bv.index < n,
        TyView::Tuple(_, s)
        | TyView::Array(s)
        | TyView::Slice(s)
        | TyView::Raw(_, s)
        | TyView::Ref(_, s)
        | TyView::Closure(_, _, s)
        | TyView::Adt(_, s)
        | TyView::AssociatedType(_, s)
        | TyView::OpaqueType(_, s)
        | TyView::FnDef(_, s)
        | TyView::Projection(_, s)
        | TyView::Opaque(_, s) => indices_below_tys(s, depth, n),
        TyView::Function { num_args, variadic, substs } => indices_below_tys(substs, depth, n),
        TyView::Dyn(preds) => indices_below_preds(preds, deeper(depth), n),
        _ => true,
    }
}

/// What holds below a bound holds below a larger one.
pub proof fn lemma_indices_below_tys_grow(s: Seq<TyView>, depth: Option<u32>, n: nat, m: nat)
    requires
        indices_below_tys(s, depth, n),
        n <= m,
    ensures
        indices_below_tys(s, depth, m),
    decreases s,
{
    assert forall|i: int| 0 <= i < s.len() implies indices_below_ty(#[trigger] s[i], depth, m) by {
        lemma_indices_below_ty_grow(s[i], depth, n, m);
    }
}

/// What holds below a bound holds below a larger one.
pub proof fn lemma_indices_below_pred_grow(p: PredicateView, depth: Option<u32>, n: nat, m: nat)
    requires
        indices_below_pred(p, depth, n),
        n <= m,
    ensures
        indices_below_pred(p, depth, m),
    decreases p,
{
    match p {
        PredicateView::Implemented(tr) => lemma_indices_below_tys_grow(tr.substs, depth, n, m),
        PredicateView::Projection(pp) => {
            lemma_indices_below_tys_grow(pp.projection_ty.parameters, depth, n, m);
            lemma_indices_below_ty_grow(pp.ty, depth, n, m);
        },
        PredicateView::Error => {},
    }
}

/// What holds below a bound holds below a larger one.
pub proof fn lemma_indices_below_preds_grow(s: Seq<PredicateView>, depth: Option<u32>, n: nat, m: nat)
    requires
        indices_below_preds(s, depth, n),
        n <= m,
    ensures
        indices_below_preds(s, depth, m),
    decreases s,
{
    assert forall|i: int| 0 <= i < s.len() implies indices_below_pred(#[trigger] s[i], depth, m) by {
        lemma_indices_below_pred_grow(s[i], depth, n, m);
    }
}

/// What holds below a bound holds below a larger one.
pub proof fn lemma_indices_below_ty_grow(t: TyView, depth: Option<u32>, n: nat, m: nat)
    requires
        indices_below_ty(t, depth, n),
        n <= m,
    ensures
        indices_below_ty(t, depth, m),
    decreases t,
{
    match t {
        TyView::Tuple(_, s)
        | TyView::Array(s)
        | TyView::Slice(s)
        | TyView::Raw(_, s)
        | TyView::Ref(_, s)
        | TyView::Closure(_, _, s)
        | TyView::Adt(_, s)
        | TyView::AssociatedType(_, s)
        | TyView::OpaqueType(_, s)
        | TyView::FnDef(_, s)
        | TyView::Projection(_, s)
        | TyView::Opaque(_, s) => lemma_indices_below_tys_grow(s, depth, n, m),
        TyView::Function { num_args, variadic, substs } => lemma_indices_below_tys_grow(
            substs,
            depth,
            n,
            m,
        ),
        TyView::Dyn(preds) => lemma_indices_below_preds_grow(preds, deeper(depth), n, m),
        _ => {},
    }
}

/// A position lies within the variables seen.
pub proof fn lemma_position_in_range(vars: Seq<(InferenceVar, TyVariableKind)>, iv: InferenceVar)
    ensures
        position(vars, iv) matches Some(i) ==> 0 <= i < vars.len() && vars[i].0 == iv,
    decreases vars.len(),
{
    if vars.len() > 0 && vars.last().0 != iv {
        lemma_position_in_range(vars.drop_last(), iv);
    }
}

/// The canonical form of a list of types has no dangling index.
pub proof fn lemma_canon_tys_closed(
    s: Seq<TyView>,
    vars: Seq<(InferenceVar, TyVariableKind)>,
    depth: Option<u32>,
)
    requires
        indices_below_tys(s, depth, vars.len()),
        canon_tys(s, vars, depth) is Some,
        canon_tys(s, vars, depth)->Some_0.1.len() <= usize::MAX,
    ensures
        vars.len() <= canon_tys(s, vars, depth)->Some_0.1.len(),
        indices_below_tys(
            canon_tys(s, vars, depth)->Some_0.0,
            depth,
            canon_tys(s, vars, depth)->Some_0.1.len(),
        ),
    decreases s, 1nat,
{
    if s.len() > 0 {
        let (acc, v1) = canon_tys(s.drop_last(), vars, depth)->Some_0;
        let (t, v2) = canon_ty(s.last(), v1, depth)->Some_0;
        assert(indices_below_ty(s[s.len() - 1], depth, vars.len()));
        lemma_canon_ty_grows(s.last(), v1, depth);
        assert forall|i: int| 0 <= i < s.drop_last().len() implies indices_below_ty(
            #[trigger] s.drop_last()[i],
            depth,
            vars.len(),
        ) by {
            assert(s.drop_last()[i] == s[i]);
        }
        lemma_canon_tys_closed(s.drop_last(), vars, depth);
        lemma_indices_below_ty_grow(s.last(), depth, vars.len(), v1.len());
        lemma_canon_ty_closed(s.last(), v1, depth);
        lemma_indices_below_tys_grow(acc, depth, v1.len(), v2.len());
    }
}

/// The canonical form of a predicate has no dangling index.
pub proof fn lemma_canon_pred_closed(
    p: PredicateView,
    vars: Seq<(InferenceVar, TyVariableKind)>,
    depth: Option<u32>,
)
    requires
        indices_below_pred(p, depth, vars.len()),
        canon_pred(p, vars, depth) is Some,
        canon_pred(p, vars, depth)->Some_0.1.len() <= usize::MAX,
    ensures
        vars.len() <= canon_pred(p, vars, depth)->Some_0.1.len(),
        indices_below_pred(
            canon_pred(p, vars, depth)->Some_0.0,
            depth,
            canon_pred(p, vars, depth)->Some_0.1.len(),
        ),
    decreases p, 0nat,
{
    match p {
        PredicateView::Implemented(tr) => lemma_canon_tys_closed(tr.substs, vars, depth),
        PredicateView::Projection(pp) => {
            let (s, v1) = canon_tys(pp.projection_ty.parameters, vars, depth)->Some_0;
            let (t, v2) = canon_ty(pp.ty, v1, depth)->Some_0;
            lemma_canon_ty_grows(pp.ty, v1, depth);
            lemma_canon_tys_closed(pp.projection_ty.parameters, vars, depth);
            lemma_indices_below_ty_grow(pp.ty, depth, vars.len(), v1.len());
            lemma_canon_ty_closed(pp.ty, v1, depth);
            lemma_indices_below_tys_grow(s, depth, v1.len(), v2.len());
        },
        PredicateView::Error => {},
    }
}

/// The canonical form of a list of predicates has no dangling index.
pub proof fn lemma_canon_preds_closed(
    s: Seq<PredicateView>,
    vars: Seq<(InferenceVar, TyVariableKind)>,
    depth: Option<u32>,
)
    requires
        indices_below_preds(s, depth, vars.len()),
        canon_preds(s, vars, depth) is Some,
        canon_preds(s, vars, depth)->Some_0.1.len() <= usize::MAX,
    ensures
        vars.len() <= canon_preds(s, vars, depth)->Some_0.1.len(),
        indices_below_preds(
            canon_preds(s, vars, depth)->Some_0.0,
            depth,
            canon_preds(s, vars, depth)->Some_0.1.len(),
        ),
    decreases s, 1nat,
{
    if s.len() > 0 {
        let (acc, v1) = canon_preds(s.drop_last(), vars, depth)->Some_0;
        let (t, v2) = canon_pred(s.last(), v1, depth)->Some_0;
        assert(indices_below_pred(s[s.len() - 1], depth, vars.len()));
        lemma_canon_pred_grows(s.last(), v1, depth);
        assert forall|i: int| 0 <= i < s.drop_last().len() implies indices_below_pred(
            #[trigger] s.drop_last()[i],
            depth,
            vars.len(),
        ) by {
            assert(s.drop_last()[i] == s[i]);
        }
        lemma_canon_preds_closed(s.drop_last(), vars, depth);
        lemma_indices_below_pred_grow(s.last(), depth, vars.len(), v1.len());
        lemma_canon_pred_closed(s.last(), v1, depth);
        lemma_indices_below_preds_grow(acc, depth, v1.len(), v2.len());
    }
}

/// No dangling index: when the variables that the new binder binds in `t`
/// beforehand have indices below the number of variables seen, then every
/// variable that the binder binds in the canonical form has an index below
/// the number of variables seen afterwards.
pub proof fn lemma_canon_ty_closed(
    t: TyView,
    vars: Seq<(InferenceVar, TyVariableKind)>,
    depth: Option<u32>,
)
    requires
        indices_below_ty(t, depth, vars.len()),
        canon_ty(t, vars, depth) is Some,
        canon_ty(t, vars, depth)->Some_0.1.len() <= usize::MAX,
    ensures
        vars.len() <= canon_ty(t, vars, depth)->Some_0.1.len(),
        indices_below_ty(
            canon_ty(t, vars, depth)->Some_0.0,
            depth,
            canon_ty(t, vars, depth)->Some_0.1.len(),
        ),
    decreases t, 0nat,
{
    match t {
        TyView::InferenceVar(iv, _) => lemma_position_in_range(vars, iv),
        TyView::Tuple(_, s)
        | TyView::Array(s)
        | TyView::Slice(s)
        | TyView::Raw(_, s)
        | TyView::Ref(_, s)
        | TyView::Closure(_, _, s)
        | TyView::Adt(_, s)
        | TyView::AssociatedType(_, s)
        | TyView::OpaqueType(_, s)
        | TyView::FnDef(_, s)
        | TyView::Projection(_, s)
        | TyView::Opaque(_, s) => lemma_canon_tys_closed(s, vars, depth),
        TyView::Function { num_args, variadic, substs } => lemma_canon_tys_closed(
            substs,
            vars,
            depth,
        ),
        TyView::Dyn(preds) => lemma_canon_preds_closed(preds, vars, deeper(depth)),
        _ => {},
    }
}

/// Canonicalizing never forgets a variable.
pub proof fn lemma_canon_tys_grows(
    s: Seq<TyView>,
    vars: Seq<(InferenceVar, TyVariableKind)>,
    depth: Option<u32>,
)
    requires
        canon_tys(s, vars, depth) is Some,
    ensures
        vars.len() <= canon_tys(s, vars, depth)->Some_0.1.len(),
    decreases s, 1nat,
{
    if s.len() > 0 {
        let (acc, v1) = canon_tys(s.drop_last(), vars, depth)->Some_0;
        lemma_canon_tys_grows(s.drop_last(), vars, depth);
        lemma_canon_ty_grows(s.last(), v1, depth);
    }
}

/// Canonicalizing never forgets a variable.
pub proof fn lemma_canon_pred_grows(
    p: PredicateView,
    vars: Seq<(InferenceVar, TyVariableKind)>,
    depth: Option<u32>,
)
    requires
        canon_pred(p, vars, depth) is Some,
    ensures
        vars.len() <= canon_pred(p, vars, depth)->Some_0.1.len(),
    decreases p, 0nat,
{
    match p {
        PredicateView::Implemented(tr) => lemma_canon_tys_grows(tr.substs, vars, depth),
        PredicateView::Projection(pp) => {
            let (s, v1) = canon_tys(pp.projection_ty.parameters, vars, depth)->Some_0;
            lemma_canon_tys_grows(pp.projection_ty.parameters, vars, depth);
            lemma_canon_ty_grows(pp.ty, v1, depth);
        },
        PredicateView::Error => {},
    }
}

/// Canonicalizing never forgets a variable.
pub proof fn lemma_canon_preds_grows(
    s: Seq<PredicateView>,
    vars: Seq<(InferenceVar, TyVariableKind)>,
    depth: Option<u32>,
)
    requires
        canon_preds(s, vars, depth) is Some,
    ensures
        vars.len() <= canon_preds(s, vars, depth)->Some_0.1.len(),
    decreases s, 1nat,
{
    if s.len() > 0 {
        let (acc, v1) = canon_preds(s.drop_last(), vars, depth)->Some_0;
        lemma_canon_preds_grows(s.drop_last(), vars, depth);
        lemma_canon_pred_grows(s.last(), v1, depth);
    }
}

/// Canonicalizing never forgets a variable.
pub proof fn lemma_canon_ty_grows(
    t: TyView,
    vars: Seq<(InferenceVar, TyVariableKind)>,
    depth: Option<u32>,
)
    requires
        canon_ty(t, vars, depth) is Some,
    ensures
        vars.len() <= canon_ty(t, vars, depth)->Some_0.1.len(),
    decreases t, 0nat,
{
    match t {
        TyView::Tuple(_, s)
        | TyView::Array(s)
        | TyView::Slice(s)
        | TyView::Raw(_, s)
        | TyView::Ref(_, s)
        | TyView::Closure(_, _, s)
        | TyView::Adt(_, s)
        | TyView::AssociatedType(_, s)
        | TyView::OpaqueType(_, s)
        | TyView::FnDef(_, s)
        | TyView::Projection(_, s)
        | TyView::Opaque(_, s) => lemma_canon_tys_grows(s, vars, depth),
        TyView::Function { num_args, variadic, substs } => lemma_canon_tys_grows(
            substs,
            vars,
            depth,
        ),
        TyView::Dyn(preds) => lemma_canon_preds_grows(preds, vars, deeper(depth)),
        _ => {},
    }
}

/// A canonical list of types holds no inference variable.
pub proof fn lemma_canon_tys_infer_free(
    s: Seq<TyView>,
    vars: Seq<(InferenceVar, TyVariableKind)>,
    depth: Option<u32>,
)
    requires
        canon_tys(s, vars, depth) is Some,
    ensures
        infer_free_tys(canon_tys(s, vars, depth)->Some_0.0),
    decreases s, 1nat,
{
    if s.len() > 0 {
        let (acc, v1) = canon_tys(s.drop_last(), vars, depth)->Some_0;
        lemma_canon_tys_infer_free(s.drop_last(), vars, depth);
        lemma_canon_ty_infer_free(s.last(), v1, depth);
    }
}

/// A canonical predicate holds no inference variable.
pub proof fn lemma_canon_pred_infer_free(
    p: PredicateView,
    vars: Seq<(InferenceVar, TyVariableKind)>,
    depth: Option<u32>,
)
    requires
        canon_pred(p, vars, depth) is Some,
    ensures
        infer_free_pred(canon_pred(p, vars, depth)->Some_0.0),
    decreases p, 0nat,
{
    match p {
        PredicateView::Implemented(tr) => lemma_canon_tys_infer_free(tr.substs, vars, depth),
        PredicateView::Projection(pp) => {
            let (s, v1) = canon_tys(pp.projection_ty.parameters, vars, depth)->Some_0;
            lemma_canon_tys_infer_free(pp.projection_ty.parameters, vars, depth);
            lemma_canon_ty_infer_free(pp.ty, v1, depth);
        },
        PredicateView::Error => {},
    }
}

/// A canonical list of predicates holds no inference variable.
pub proof fn lemma_canon_preds_infer_free(
    s: Seq<PredicateView>,
    vars: Seq<(InferenceVar, TyVariableKind)>,
    depth: Option<u32>,
)
    requires
        canon_preds(s, vars, depth) is Some,
    ensures
        infer_free_preds(canon_preds(s, vars, depth)->Some_0.0),
    decreases s, 1nat,
{
    if s.len() > 0 {
        let (acc, v1) = canon_preds(s.drop_last(), vars, depth)->Some_0;
        lemma_canon_preds_infer_free(s.drop_last(), vars, depth);
        lemma_canon_pred_infer_free(s.last(), v1, depth);
    }
}

/// A canonical form holds no inference variable: it can go out to the
/// solver.
pub proof fn lemma_canon_ty_infer_free(
    t: TyView,
    vars: Seq<(InferenceVar, TyVariableKind)>,
    depth: Option<u32>,
)
    requires
        canon_ty(t, vars, depth) is Some,
    ensures
        infer_free_ty(canon_ty(t, vars, depth)->Some_0.0),
    decreases t, 0nat,
{
    match t {
        TyView::Tuple(_, s)
        | TyView::Array(s)
        | TyView::Slice(s)
        | TyView::Raw(_, s)
        | TyView::Ref(_, s)
        | TyView::Closure(_, _, s)
        | TyView::Adt(_, s)
        | TyView::AssociatedType(_, s)
        | TyView::OpaqueType(_, s)
        | TyView::FnDef(_, s)
        | TyView::Projection(_, s)
        | TyView::Opaque(_, s) => lemma_canon_tys_infer_free(s, vars, depth),
        TyView::Function { num_args, variadic, substs } => lemma_canon_tys_infer_free(
            substs,
            vars,
            depth,
        ),
        TyView::Dyn(preds) => lemma_canon_preds_infer_free(preds, vars, deeper(depth)),
        _ => {},
    }
}

/// When the first types cannot be canonicalized, the list cannot.
pub proof fn lemma_canon_tys_prefix_none(
    s: Seq<TyView>,
    k: int,
    vars: Seq<(InferenceVar, TyVariableKind)>,
    depth: Option<u32>,
)
    requires
        0 <= k <= s.len(),
        canon_tys(s.take(k), vars, depth) is None,
    ensures
        canon_tys(s, vars, depth) is None,
    decreases s.len(),
{
    if k == s.len() {
        assert(s.take(k) =~= s);
    } else {
        assert(s.drop_last().take(k) =~= s.take(k));
        lemma_canon_tys_prefix_none(s.drop_last(), k, vars, depth);
    }
}

/// When the first predicates cannot be canonicalized, the list cannot.
pub proof fn lemma_canon_preds_prefix_none(
    s: Seq<PredicateView>,
    k: int,
    vars: Seq<(InferenceVar, TyVariableKind)>,
    depth: Option<u32>,
)
    requires
        0 <= k <= s.len(),
        canon_preds(s.take(k), vars, depth) is None,
    ensures
        canon_preds(s, vars, depth) is None,
    decreases s.len(),
{
    if k == s.len() {
        assert(s.take(k) =~= s);
    } else {
        assert(s.drop_last().take(k) =~= s.take(k));
        lemma_canon_preds_prefix_none(s.drop_last(), k, vars, depth);
    }
}

/// The executable counterpart of [`position`].
fn find_var(vars: &Vec<(InferenceVar, TyVariableKind)>, iv: InferenceVar) -> (r: Option<usize>)
    ensures
        match r {
            Some(i) => position(vars@, iv) == Some(i as int),
            None => position(vars@, iv) is None,
        },
{
    let mut i: usize = vars.len();
    assert(vars@.take(i as int) =~= vars@);
    while i > 0
        invariant
            i <= vars.len(),
            position(vars@, iv) == position(vars@.take(i as int), iv),
        decreases i,
    {
        assert(vars@.take(i as int).drop_last() =~= vars@.take(i - 1));
        assert(vars@.take(i as int).last() == vars@[i - 1]);
        if vars[i - 1].0 == iv {
            return Some(i - 1);
        }
        i -= 1;
    }
    None
}

/// The executable counterpart of [`deeper`].
fn one_deeper(depth: Option<u32>) -> (r: Option<u32>)
    ensures
        r == deeper(depth),
{
    match depth {
        Some(d) => if d < u32::MAX {
            Some(d + 1)
        } else {
            None
        },
        None => None,
    }
}

/// The executable counterpart of [`canon_tys`].
fn canon_ty_vec(tys: &Vec<Ty>, vars: &mut Vec<(InferenceVar, TyVariableKind)>, depth: Option<u32>) -> (r: Option<Vec<Ty>>)
    ensures
        match canon_tys(tys_view(tys@), old(vars)@, depth) {
            Some((s, v)) => r matches Some(x) && tys_view(x@) == s && final(vars)@ == v,
            None => r is None,
        },
    decreases tys,
{
    let ghost s = tys_view(tys@);
    let ghost start = vars@;
    let mut out: Vec<Ty> = Vec::new();
    let mut i: usize = 0;
    assert(s.take(0) =~= Seq::empty());
    assert(tys_view(out@) =~= Seq::empty());
    while i < tys.len()
        invariant
            i <= tys.len(),
            s == tys_view(tys@),
            start == old(vars)@,
            canon_tys(s.take(i as int), start, depth) == Some((tys_view(out@), vars@)),
        decreases tys.len() - i,
    {
        let ghost prev = tys_view(out@);
        let ghost seen = vars@;
        proof {
            assert(s.take(i + 1).drop_last() =~= s.take(i as int));
            assert(s.take(i + 1).last() == s[i as int]);
        }
        match tys[i].canon(vars, depth) {
            Some(t) => {
                out.push(t);
                assert(tys_view(out@) =~= prev.push(t@));
            },
            None => {
                proof {
                    assert(canon_ty(s[i as int], seen, depth) is None);
                    assert(canon_tys(s.take(i + 1), start, depth) is None);
                    lemma_canon_tys_prefix_none(s, i + 1, start, depth);
                }
                return None;
            },
        }
        i += 1;
    }
    assert(s.take(tys.len() as int) =~= s);
    Some(out)
}

/// The executable counterpart of [`canon_preds`].
fn canon_pred_vec(preds: &Vec<GenericPredicate>, vars: &mut Vec<(InferenceVar, TyVariableKind)>, depth: Option<u32>) -> (r: Option<Vec<GenericPredicate>>)
    ensures
        match canon_preds(preds_view(preds@), old(vars)@, depth) {
            Some((s, v)) => r matches Some(x) && preds_view(x@) == s && final(vars)@ == v,
            None => r is None,
        },
    decreases preds,
{
    let ghost s = preds_view(preds@);
    let ghost start = vars@;
    let mut out: Vec<GenericPredicate> = Vec::new();
    let mut i: usize = 0;
    assert(s.take(0) =~= Seq::empty());
    assert(preds_view(out@) =~= Seq::empty());
    while i < preds.len()
        invariant
            i <= preds.len(),
            s == preds_view(preds@),
            start == old(vars)@,
            canon_preds(s.take(i as int), start, depth) == Some((preds_view(out@), vars@)),
        decreases preds.len() - i,
    {
        let ghost prev = preds_view(out@);
        let ghost seen = vars@;
        proof {
            assert(s.take(i + 1).drop_last() =~= s.take(i as int));
            assert(s.take(i + 1).last() == s[i as int]);
        }
        match preds[i].canon(vars, depth) {
            Some(p) => {
                out.push(p);
                assert(preds_view(out@) =~= prev.push(p@));
            },
            None => {
                proof {
                    assert(canon_pred(s[i as int], seen, depth) is None);
                    assert(canon_preds(s.take(i + 1), start, depth) is None);
                    lemma_canon_preds_prefix_none(s, i + 1, start, depth);
                }
                return None;
            },
        }
        i += 1;
    }
    assert(s.take(preds.len() as int) =~= s);
    Some(out)
}

impl Substs {
    /// The substitution with its inference variables replaced.
    pub fn canon(&self, vars: &mut Vec<(InferenceVar, TyVariableKind)>, depth: Option<u32>) -> (r: Option<Substs>)
        ensures
            match canon_tys(self@, old(vars)@, depth) {
                Some((s, v)) => r matches Some(x) && x@ == s && final(vars)@ == v,
                None => r is None,
            },
        decreases self,
    {
        match canon_ty_vec(&self.0, vars, depth) {
            Some(v) => Some(Substs(v)),
            None => None,
        }
    }
}

impl GenericPredicate {
    /// The predicate with its inference variables replaced.
    pub fn canon(&self, vars: &mut Vec<(InferenceVar, TyVariableKind)>, depth: Option<u32>) -> (r: Option<GenericPredicate>)
        ensures
            match canon_pred(self@, old(vars)@, depth) {
                Some((p, v)) => r matches Some(x) && x@ == p && final(vars)@ == v,
                None => r is None,
            },
        decreases self,
    {
        match self {
            GenericPredicate::Implemented(tr) => match tr.substs.canon(vars, depth) {
                Some(substs) => Some(
                    GenericPredicate::Implemented(TraitRef { trait_: tr.trait_, substs }),
                ),
                None => None,
            },
            GenericPredicate::Projection(pp) => match pp.projection_ty.parameters.canon(vars, depth) {
                Some(parameters) => match pp.ty.canon(vars, depth) {
                    Some(t) => Some(
                        GenericPredicate::Projection(
                            ProjectionPredicate {
                                projection_ty: ProjectionTy {
                                    associated_ty: pp.projection_ty.associated_ty,
                                    parameters,
                                },
                                ty: t,
                            },
                        ),
                    ),
                    None => None,
                },
                None => None,
            },
            GenericPredicate::Error => Some(GenericPredicate::Error),
        }
    }
}

impl Ty {
    /// Types without arguments.
    fn canon_leaf(&self, vars: &mut Vec<(InferenceVar, TyVariableKind)>, depth: Option<u32>) -> (r: Option<Ty>)
        requires
            self is Scalar || self is ForeignType || self is Never || self is Str
                || self is Placeholder || self is BoundVar || self is InferenceVar
                || self is Unknown,
        ensures
            match canon_ty(self@, old(vars)@, depth) {
                Some((t, v)) => r matches Some(x) && x@ == t && final(vars)@ == v,
                None => r is None,
            },
    {
        match self {
            Ty::InferenceVar(iv, kind) => match depth {
                Some(d) => match find_var(vars, *iv) {
                    Some(i) => Some(Ty::BoundVar(BoundVar { debruijn: d, index: i })),
                    None => {
                        let index = vars.len();
                        vars.push((*iv, *kind));
                        Some(Ty::BoundVar(BoundVar { debruijn: d, index }))
                    },
                },
                None => None,
            },
            Ty::Scalar(s) => Some(Ty::Scalar(*s)),
            Ty::ForeignType(id) => Some(Ty::ForeignType(*id)),
            Ty::Never => Some(Ty::Never),
            Ty::Str => Some(Ty::Str),
            Ty::Placeholder(id) => Some(Ty::Placeholder(*id)),
            Ty::BoundVar(bv) => Some(Ty::BoundVar(*bv)),
            _ => Some(Ty::Unknown),
        }
    }

    /// Definitions applied to arguments.
    fn canon_applied(&self, vars: &mut Vec<(InferenceVar, TyVariableKind)>, depth: Option<u32>) -> (r: Option<Ty>)
        requires
            self is Tuple || self is Adt || self is AssociatedType || self is Closure
                || self is OpaqueType || self is FnDef,
        ensures
            match canon_ty(self@, old(vars)@, depth) {
                Some((t, v)) => r matches Some(x) && x@ == t && final(vars)@ == v,
                None => r is None,
            },
        decreases self, 0nat,
    {
        match self {
            Ty::Tuple(n, s) => match s.canon(vars, depth) {
                Some(s2) => Some(Ty::Tuple(*n, s2)),
                None => None,
            },
            Ty::Adt(id, s) => match s.canon(vars, depth) {
                Some(s2) => Some(Ty::Adt(*id, s2)),
                None => None,
            },
            Ty::AssociatedType(id, s) => match s.canon(vars, depth) {
                Some(s2) => Some(Ty::AssociatedType(*id, s2)),
                None => None,
            },
            Ty::Closure(def, expr, s) => match s.canon(vars, depth) {
                Some(s2) => Some(Ty::Closure(*def, *expr, s2)),
                None => None,
            },
            Ty::OpaqueType(id, s) => match s.canon(vars, depth) {
                Some(s2) => Some(Ty::OpaqueType(*id, s2)),
                None => None,
            },
            Ty::FnDef(id, s) => match s.canon(vars, depth) {
                Some(s2) => Some(Ty::FnDef(*id, s2)),
                None => None,
            },
            _ => None,
        }
    }

    /// Pointer-like types, function pointers, trait objects and aliases.
    fn canon_pointer(&self, vars: &mut Vec<(InferenceVar, TyVariableKind)>, depth: Option<u32>) -> (r: Option<Ty>)
        requires
            self is Array || self is Slice || self is Raw || self is Ref || self is Function
                || self is Dyn || self is Alias,
        ensures
            match canon_ty(self@, old(vars)@, depth) {
                Some((t, v)) => r matches Some(x) && x@ == t && final(vars)@ == v,
                None => r is None,
            },
        decreases self, 0nat,
    {
        match self {
            Ty::Array(s) => match s.canon(vars, depth) {
                Some(s2) => Some(Ty::Array(s2)),
                None => None,
            },
            Ty::Slice(s) => match s.canon(vars, depth) {
                Some(s2) => Some(Ty::Slice(s2)),
                None => None,
            },
            Ty::Raw(m, s) => match s.canon(vars, depth) {
                Some(s2) => Some(Ty::Raw(*m, s2)),
                None => None,
            },
            Ty::Ref(m, s) => match s.canon(vars, depth) {
                Some(s2) => Some(Ty::Ref(*m, s2)),
                None => None,
            },
            Ty::Function(f) => match f.substs.canon(vars, depth) {
                Some(substs) => Some(
                    Ty::Function(
                        FnPointer {
                            num_args: f.num_args,
                            sig: FnSig { variadic: f.sig.variadic },
                            substs,
                        },
                    ),
                ),
                None => None,
            },
            Ty::Dyn(preds) => match canon_pred_vec(preds, vars, one_deeper(depth)) {
                Some(p2) => Some(Ty::Dyn(p2)),
                None => None,
            },
            Ty::Alias(AliasTy::Projection(p)) => match p.parameters.canon(vars, depth) {
                Some(parameters) => {
                    let alias = AliasTy::Projection(
                        ProjectionTy { associated_ty: p.associated_ty, parameters },
                    );
                    assert(alias@ is Projection);
                    Some(Ty::Alias(alias))
                },
                None => None,
            },
            Ty::Alias(AliasTy::Opaque(o)) => match o.parameters.canon(vars, depth) {
                Some(parameters) => {
                    let alias = AliasTy::Opaque(
                        OpaqueTy { opaque_ty_id: o.opaque_ty_id, parameters },
                    );
                    assert(alias@ is Opaque);
                    Some(Ty::Alias(alias))
                },
                None => None,
            },
            _ => None,
        }
    }

    /// The type with its inference variables replaced by bound variables
    /// of the binder that lies `depth` binders out. `vars` holds the
    /// variables seen before and takes up the new ones.
    pub fn canon(&self, vars: &mut Vec<(InferenceVar, TyVariableKind)>, depth: Option<u32>) -> (r: Option<Ty>)
        ensures
            match canon_ty(self@, old(vars)@, depth) {
                Some((t, v)) => r matches Some(x) && x@ == t && final(vars)@ == v,
                None => r is None,
            },
        decreases self, 1nat,
    {
        match self {
            Ty::Scalar(_)
            | Ty::ForeignType(_)
            | Ty::Never
            | Ty::Str
            | Ty::Placeholder(_)
            | Ty::BoundVar(_)
            | Ty::InferenceVar(_, _)
            | Ty::Unknown => self.canon_leaf(vars, depth),
            Ty::Tuple(_, _)
            | Ty::Adt(_, _)
            | Ty::AssociatedType(_, _)
            | Ty::Closure(_, _, _)
            | Ty::OpaqueType(_, _)
            | Ty::FnDef(_, _) => self.canon_applied(vars, depth),
            Ty::Array(_)
            | Ty::Slice(_)
            | Ty::Raw(_, _)
            | Ty::Ref(_, _)
            | Ty::Function(_)
            | Ty::Dyn(_)
            | Ty::Alias(_) => self.canon_pointer(vars, depth),
        }
    }
}

/// The canonical form of a type: every distinct inference variable is
/// replaced by a bound variable of a new outermost binder, numbered in the
/// order of first occurrence; the kinds of the variables are listed in that
/// order. A type without inference variables comes back unchanged with an
/// empty list. When nothing in the type was bound by the new binder
/// beforehand, no index of the canonical form dangles. Fails when a
/// variable occurs under more binders than a bound variable can count.
pub fn canonicalize(value: &Ty) -> (r: Result<Canonical<Ty>, ConversionError>)
    ensures
        match canon_ty(value@, Seq::empty(), Some(0u32)) {
            Some((t, vars)) => r matches Ok(c) && c.value@ == t && c.kinds@ == kinds_of(vars),
            None => r matches Err(e) && e == ConversionError::IndexOutOfRange,
        },
        infer_free_ty(value@) ==> (r matches Ok(c) && c.value@ == value@ && c.kinds@.len() == 0),
        r matches Ok(c) ==> infer_free_ty(c.value@),
        indices_below_ty(value@, Some(0u32), 0) ==> (r matches Ok(c) ==> indices_below_ty(
            c.value@,
            Some(0u32),
            c.kinds@.len(),
        )),
{
    let mut vars: Vec<(InferenceVar, TyVariableKind)> = Vec::new();
    proof {
        if infer_free_ty(value@) {
            lemma_canon_ty_unchanged(value@, Seq::empty(), Some(0u32));
        }
    }
    match value.canon(&mut vars, Some(0)) {
        Some(t) => {
            let mut kinds: Vec<TyVariableKind> = Vec::new();
            let mut i: usize = 0;
            while i < vars.len()
                invariant
                    i <= vars.len(),
                    kinds.len() == i,
                    forall|j: int| 0 <= j < i ==> kinds@[j] == vars@[j].1,
                decreases vars.len() - i,
            {
                kinds.push(vars[i].1);
                i += 1;
            }
            assert(kinds@ =~= kinds_of(vars@));
            proof {
                lemma_canon_ty_infer_free(value@, Seq::empty(), Some(0u32));
                if indices_below_ty(value@, Some(0u32), 0) {
                    lemma_canon_ty_closed(value@, Seq::empty(), Some(0u32));
                }
            }
            Ok(Canonical { kinds, value: t })
        },
        None => Err(ConversionError::IndexOutOfRange),
    }
}

} // verus!
