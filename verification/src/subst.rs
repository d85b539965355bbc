//! Rewriting the bound variables of the analyzer's types: lifting a value
//! under further binders, and substituting types for the variables of the
//! outermost binder.
//!
//! In the analyzer's model only a trait object binds: its predicates lie
//! under one binder, which stands for the object's own type.
use vstd::prelude::*;
use crate::primitive::BoundVar;
use crate::shift::{Direction, shift_bound_var, shift_var};
use crate::ty::{
    AliasTy, FnPointer, FnSig, GenericPredicate, OpaqueTy, PredicateView, ProjectionPredicate,
    ProjectionPredicateView, ProjectionTy, ProjectionTyView, Substs, TraitRef, TraitRefView, Ty,
    TyView, preds_view, tys_view,
};

verus! {

/// What is done to the variables that are not bound inside the value.
pub enum Rewrite<'a> {
    /// Their depth grows by the given number of binders.
    Lift(u32),
    /// Each is replaced by the type at its index, lifted under the binders
    /// that lie around the variable.
    Subst(&'a Substs),
}

/// A rewriting as mathematics.
pub ghost enum RewriteView {
    Lift(u32),
    Subst(Seq<TyView>),
}

impl<'a> Rewrite<'a> {
    /// The value as mathematics.
    pub open spec fn view(&self) -> RewriteView {
        match self {
            Rewrite::Lift(by) => RewriteView::Lift(*by),
            Rewrite::Subst(substs) => RewriteView::Subst(substs@),
        }
    }
}

/// Substituting may lift, lifting only lifts.
pub open spec fn rewrite_rank(op: RewriteView) -> nat {
    match op {
        RewriteView::Lift(_) => 0,
        RewriteView::Subst(_) => 1,
    }
}

/// All types rewritten, if each of them can be.
pub open spec fn rewrite_tys(s: Seq<TyView>, op: RewriteView, depth: u32) -> Option<Seq<TyView>>
    decreases rewrite_rank(op), s,
{
    if forall|i: int| 0 <= i < s.len() ==> rewrite_ty(#[trigger] s[i], op, depth) is Some {
        Some(
            Seq::new(
                s.len(),
                |i: int| if 0 <= i < s.len() { rewrite_ty(s[i], op, depth).unwrap() } else { s[i] },
            ),
        )
    } else {
        None
    }
}

/// The predicate with its free variables rewritten.
pub open spec fn rewrite_pred(p: PredicateView, op: RewriteView, depth: u32) -> Option<PredicateView>
    decreases rewrite_rank(op), p,
{
    match p {
        PredicateView::Implemented(tr) => match rewrite_tys(tr.substs, op, depth) {
            Some(s) => Some(PredicateView::Implemented(TraitRefView { trait_: tr.trait_, substs: s })),
            None => None,
        },
        PredicateView::Projection(pp) => match rewrite_tys(pp.projection_ty.parameters, op, depth) {
            Some(s) => match rewrite_ty(pp.ty, op, depth) {
                Some(t) => Some(
                    PredicateView::Projection(
                        ProjectionPredicateView {
                            projection_ty: ProjectionTyView {
                                associated_ty: pp.projection_ty.associated_ty,
                                parameters: s,
                            },
                            ty: t,
                        },
                    ),
                ),
                None => None,
            },
            None => None,
        },
        PredicateView::Error => Some(PredicateView::Error),
    }
}

/// All predicates rewritten, if each of them can be.
pub open spec fn rewrite_preds(s: Seq<PredicateView>, op: RewriteView, depth: u32) -> Option<Seq<PredicateView>>
    decreases rewrite_rank(op), s,
{
    if forall|i: int| 0 <= i < s.len() ==> rewrite_pred(#[trigger] s[i], op, depth) is Some {
        Some(
            Seq::new(
                s.len(),
                |i: int| if 0 <= i < s.len() { rewrite_pred(s[i], op, depth).unwrap() } else { s[i] },
            ),
        )
    } else {
        None
    }
}

/// The type with its free variables rewritten. `depth` counts the binders
/// that the walk has gone under; variables bound by them are left alone.
/// Nothing comes out when a depth would leave the range of `u32` or when a
/// variable has no type at its index.
pub open spec fn rewrite_ty(t: TyView, op: RewriteView, depth: u32) -> Option<TyView>
    decreases rewrite_rank(op), t,
{
    match t {
        TyView::BoundVar(bv) => match op {
            RewriteView::Lift(by) => match shift_var(bv, depth, by, Direction::In) {
                Some(bv2) => Some(TyView::BoundVar(bv2)),
                None => None,
            },
            RewriteView::Subst(substs) => if bv.debruijn < depth {
                Some(t)
            } else if bv.index < substs.len() {
                rewrite_ty(substs[bv.index as int], RewriteView::Lift(depth), 0)
            } else {
                None
            },
        },
        TyView::Tuple(n, s) => match rewrite_tys(s, op, depth) {
            Some(s2) => Some(TyView::Tuple(n, s2)),
            None => None,
        },
        TyView::Array(s) => match rewrite_tys(s, op, depth) {
            Some(s2) => Some(TyView::Array(s2)),
            None => None,
        },
        TyView::Slice(s) => match rewrite_tys(s, op, depth) {
            Some(s2) => Some(TyView::Slice(s2)),
            None => None,
        },
        TyView::Raw(m, s) => match rewrite_tys(s, op, depth) {
            Some(s2) => Some(TyView::Raw(m, s2)),
            None => None,
        },
        TyView::Ref(m, s) => match rewrite_tys(s, op, depth) {
            Some(s2) => Some(TyView::Ref(m, s2)),
            None => None,
        },
        TyView::Function { num_args, variadic, substs } => match rewrite_tys(substs, op, depth) {
            Some(s2) => Some(TyView::Function { num_args, variadic, substs: s2 }),
            None => None,
        },
        TyView::Closure(def, expr, s) => match rewrite_tys(s, op, depth) {
            Some(s2) => Some(TyView::Closure(def, expr, s2)),
            None => None,
        },
        TyView::Adt(id, s) => match rewrite_tys(s, op, depth) {
            Some(s2) => Some(TyView::Adt(id, s2)),
            None => None,
        },
        TyView::AssociatedType(id, s) => match rewrite_tys(s, op, depth) {
            Some(s2) => Some(TyView::AssociatedType(id, s2)),
            None => None,
        },
        TyView::OpaqueType(id, s) => match rewrite_tys(s, op, depth) {
            Some(s2) => Some(TyView::OpaqueType(id, s2)),
            None => None,
        },
        TyView::FnDef(id, s) => match rewrite_tys(s, op, depth) {
            Some(s2) => Some(TyView::FnDef(id, s2)),
            None => None,
        },
        TyView::Dyn(preds) => if depth == u32::MAX {
            None
        } else {
            match rewrite_preds(preds, op, (depth + 1) as u32) {
                Some(p2) => Some(TyView::Dyn(p2)),
                None => None,
            }
        },
        TyView::Projection(id, s) => match rewrite_tys(s, op, depth) {
            Some(s2) => Some(TyView::Projection(id, s2)),
            None => None,
        },
        TyView::Opaque(id, s) => match rewrite_tys(s, op, depth) {
            Some(s2) => Some(TyView::Opaque(id, s2)),
            None => None,
        },
        TyView::Scalar(_)
        | TyView::ForeignType(_)
        | TyView::Never
        | TyView::Str
        | TyView::Placeholder(_)
        | TyView::InferenceVar(_, _)
        | TyView::Unknown => Some(t),
    }
}

/// The executable counterpart of [`rewrite_tys`].
fn rewrite_ty_vec(tys: &Vec<Ty>, op: &Rewrite, depth: u32) -> (r: Option<Vec<Ty>>)
    ensures
        match r {
            Some(x) => rewrite_tys(tys_view(tys@), op@, depth) == Some(tys_view(x@)),
            None => rewrite_tys(tys_view(tys@), op@, depth) is None,
        },
    decreases rewrite_rank(op@), tys,
{
    let ghost s = tys_view(tys@);
    let mut out: Vec<Ty> = Vec::new();
    let mut i: usize = 0;
    while i < tys.len()
        invariant
            i <= tys.len(),
            out.len() == i,
            s == tys_view(tys@),
            forall|j: int| 0 <= j < i ==> rewrite_ty(#[trigger] s[j], op@, depth) == Some(out@[j]@),
        decreases tys.len() - i,
    {
        match tys[i].rewrite(op, depth) {
            Some(x) => out.push(x),
            None => {
                assert(rewrite_ty(s[i as int], op@, depth) is None);
                return None;
            },
        }
        i += 1;
    }
    assert(rewrite_tys(s, op@, depth).unwrap() =~= tys_view(out@));
    Some(out)
}

/// The executable counterpart of [`rewrite_preds`].
fn rewrite_pred_vec(preds: &Vec<GenericPredicate>, op: &Rewrite, depth: u32) -> (r: Option<Vec<GenericPredicate>>)
    ensures
        match r {
            Some(x) => rewrite_preds(preds_view(preds@), op@, depth) == Some(preds_view(x@)),
            None => rewrite_preds(preds_view(preds@), op@, depth) is None,
        },
    decreases rewrite_rank(op@), preds,
{
    let ghost s = preds_view(preds@);
    let mut out: Vec<GenericPredicate> = Vec::new();
    let mut i: usize = 0;
    while i < preds.len()
        invariant
            i <= preds.len(),
            out.len() == i,
            s == preds_view(preds@),
            forall|j: int| 0 <= j < i ==> rewrite_pred(#[trigger] s[j], op@, depth) == Some(out@[j]@),
        decreases preds.len() - i,
    {
        match preds[i].rewrite(op, depth) {
            Some(x) => out.push(x),
            None => {
                assert(rewrite_pred(s[i as int], op@, depth) is None);
                return None;
            },
        }
        i += 1;
    }
    assert(rewrite_preds(s, op@, depth).unwrap() =~= preds_view(out@));
    Some(out)
}

impl Substs {
    /// The substitution with its free variables rewritten.
    pub fn rewrite(&self, op: &Rewrite, depth: u32) -> (r: Option<Substs>)
        ensures
            match r {
                Some(x) => rewrite_tys(self@, op@, depth) == Some(x@),
                None => rewrite_tys(self@, op@, depth) is None,
            },
        decreases rewrite_rank(op@), self,
    {
        match rewrite_ty_vec(&self.0, op, depth) {
            Some(v) => Some(Substs(v)),
            None => None,
        }
    }
}

impl GenericPredicate {
    /// The predicate with its free variables rewritten.
    pub fn rewrite(&self, op: &Rewrite, depth: u32) -> (r: Option<GenericPredicate>)
        ensures
            match r {
                Some(x) => rewrite_pred(self@, op@, depth) == Some(x@),
                None => rewrite_pred(self@, op@, depth) is None,
            },
        decreases rewrite_rank(op@), self,
    {
        match self {
            GenericPredicate::Implemented(tr) => match tr.substs.rewrite(op, depth) {
                Some(substs) => Some(
                    GenericPredicate::Implemented(TraitRef { trait_: tr.trait_, substs }),
                ),
                None => None,
            },
            GenericPredicate::Projection(pp) => match pp.projection_ty.parameters.rewrite(op, depth) {
                Some(parameters) => match pp.ty.rewrite(op, depth) {
                    Some(t) => Some(
                        GenericPredicate::Projection(
                            ProjectionPredicate {
                                projection_ty: ProjectionTy {
                                    associated_ty: pp.projection_ty.associated_ty,
                                    parameters,
                                },
                                ty: t,
                            },
                        ),
                    ),
                    None => None,
                },
                None => None,
            },
            GenericPredicate::Error => Some(GenericPredicate::Error),
        }
    }

    /// The predicate with the variables of the outermost binder replaced
    /// by the types of `substs`.
    pub fn subst(&self, substs: &Substs) -> (r: Option<GenericPredicate>)
        ensures
            match r {
                Some(x) => rewrite_pred(self@, RewriteView::Subst(substs@), 0) == Some(x@),
                None => rewrite_pred(self@, RewriteView::Subst(substs@), 0) is None,
            },
    {
        self.rewrite(&Rewrite::Subst(substs), 0)
    }
}

impl Ty {
    /// Types without arguments.
    fn rewrite_leaf(&self, op: &Rewrite, depth: u32) -> (r: Option<Ty>)
        requires
            self is Scalar || self is ForeignType || self is Never || self is Str
                || self is Placeholder || self is BoundVar || self is InferenceVar
                || self is Unknown,
        ensures
            match r {
                Some(x) => rewrite_ty(self@, op@, depth) == Some(x@),
                None => rewrite_ty(self@, op@, depth) is None,
            },
        decreases rewrite_rank(op@), self, 0nat,
    {
        match self {
            Ty::BoundVar(bv) => match op {
                Rewrite::Lift(by) => match shift_bound_var(*bv, depth, *by, Direction::In) {
                    Some(bv2) => Some(Ty::BoundVar(bv2)),
                    None => None,
                },
                Rewrite::Subst(substs) => {
                    if bv.debruijn < depth {
                        Some(Ty::BoundVar(*bv))
                    } else if bv.index < substs.0.len() {
                        substs.0[bv.index].rewrite(&Rewrite::Lift(depth), 0)
                    } else {
                        None
                    }
                },
            },
            Ty::Scalar(s) => Some(Ty::Scalar(*s)),
            Ty::ForeignType(id) => Some(Ty::ForeignType(*id)),
            Ty::Never => Some(Ty::Never),
            Ty::Str => Some(Ty::Str),
            Ty::Placeholder(id) => Some(Ty::Placeholder(*id)),
            Ty::InferenceVar(iv, kind) => Some(Ty::InferenceVar(*iv, *kind)),
            _ => Some(Ty::Unknown),
        }
    }

    /// Definitions applied to arguments.
    fn rewrite_applied(&self, op: &Rewrite, depth: u32) -> (r: Option<Ty>)
        requires
            self is Tuple || self is Adt || self is AssociatedType || self is Closure
                || self is OpaqueType || self is FnDef,
        ensures
            match r {
                Some(x) => rewrite_ty(self@, op@, depth) == Some(x@),
                None => rewrite_ty(self@, op@, depth) is None,
            },
        decreases rewrite_rank(op@), self, 0nat,
    {
        match self {
            Ty::Tuple(n, s) => match s.rewrite(op, depth) {
                Some(s2) => Some(Ty::Tuple(*n, s2)),
                None => None,
            },
            Ty::Adt(id, s) => match s.rewrite(op, depth) {
                Some(s2) => Some(Ty::Adt(*id, s2)),
                None => None,
            },
            Ty::AssociatedType(id, s) => match s.rewrite(op, depth) {
                Some(s2) => Some(Ty::AssociatedType(*id, s2)),
                None => None,
            },
            Ty::Closure(def, expr, s) => match s.rewrite(op, depth) {
                Some(s2) => Some(Ty::Closure(*def, *expr, s2)),
                None => None,
            },
            Ty::OpaqueType(id, s) => match s.rewrite(op, depth) {
                Some(s2) => Some(Ty::OpaqueType(*id, s2)),
                None => None,
            },
            Ty::FnDef(id, s) => match s.rewrite(op, depth) {
                Some(s2) => Some(Ty::FnDef(*id, s2)),
                None => None,
            },
            _ => None,
        }
    }

    /// Pointer-like types, function pointers, trait objects and aliases.
    fn rewrite_pointer(&self, op: &Rewrite, depth: u32) -> (r: Option<Ty>)
        requires
            self is Array || self is Slice || self is Raw || self is Ref || self is Function
                || self is Dyn || self is Alias,
        ensures
            match r {
                Some(x) => rewrite_ty(self@, op@, depth) == Some(x@),
                None => rewrite_ty(self@, op@, depth) is None,
            },
        decreases rewrite_rank(op@), self, 0nat,
    {
        match self {
            Ty::Array(s) => match s.rewrite(op, depth) {
                Some(s2) => Some(Ty::Array(s2)),
                None => None,
            },
            Ty::Slice(s) => match s.rewrite(op, depth) {
                Some(s2) => Some(Ty::Slice(s2)),
                None => None,
            },
            Ty::Raw(m, s) => match s.rewrite(op, depth) {
                Some(s2) => Some(Ty::Raw(*m, s2)),
                None => None,
            },
            Ty::Ref(m, s) => match s.rewrite(op, depth) {
                Some(s2) => Some(Ty::Ref(*m, s2)),
                None => None,
            },
            Ty::Function(f) => match f.substs.rewrite(op, depth) {
                Some(substs) => Some(
                    Ty::Function(
                        FnPointer {
                            num_args: f.num_args,
                            sig: FnSig { variadic: f.sig.variadic },
                            substs,
                        },
                    ),
                ),
                None => None,
            },
            Ty::Dyn(preds) => {
                if depth == u32::MAX {
                    return None;
                }
                match rewrite_pred_vec(preds, op, depth + 1) {
                    Some(p2) => Some(Ty::Dyn(p2)),
                    None => None,
                }
            },
            Ty::Alias(AliasTy::Projection(p)) => match p.parameters.rewrite(op, depth) {
                Some(parameters) => {
                    let alias = AliasTy::Projection(
                        ProjectionTy { associated_ty: p.associated_ty, parameters },
                    );
                    assert(alias@ is Projection);
                    Some(Ty::Alias(alias))
                },
                None => None,
            },
            Ty::Alias(AliasTy::Opaque(o)) => match o.parameters.rewrite(op, depth) {
                Some(parameters) => {
                    let alias = AliasTy::Opaque(
                        OpaqueTy { opaque_ty_id: o.opaque_ty_id, parameters },
                    );
                    assert(alias@ is Opaque);
                    Some(Ty::Alias(alias))
                },
                None => None,
            },
            _ => None,
        }
    }

    /// The type with its free variables rewritten; variables bound by the
    /// `depth` innermost binders are left alone.
    pub fn rewrite(&self, op: &Rewrite, depth: u32) -> (r: Option<Ty>)
        ensures
            match r {
                Some(x) => rewrite_ty(self@, op@, depth) == Some(x@),
                None => rewrite_ty(self@, op@, depth) is None,
            },
        decreases rewrite_rank(op@), self, 1nat,
    {
        match self {
            Ty::Scalar(_)
            | Ty::ForeignType(_)
            | Ty::Never
            | Ty::Str
            | Ty::Placeholder(_)
            | Ty::BoundVar(_)
            | Ty::InferenceVar(_, _)
            | Ty::Unknown => self.rewrite_leaf(op, depth),
            Ty::Tuple(_, _)
            | Ty::Adt(_, _)
            | Ty::AssociatedType(_, _)
            | Ty::Closure(_, _, _)
            | Ty::OpaqueType(_, _)
            | Ty::FnDef(_, _) => self.rewrite_applied(op, depth),
            Ty::Array(_)
            | Ty::Slice(_)
            | Ty::Raw(_, _)
            | Ty::Ref(_, _)
            | Ty::Function(_)
            | Ty::Dyn(_)
            | Ty::Alias(_) => self.rewrite_pointer(op, depth),
        }
    }

    /// The type as seen from under `by` further binders.
    pub fn shift_bound_vars(&self, by: u32) -> (r: Option<Ty>)
        ensures
            match r {
                Some(x) => rewrite_ty(self@, RewriteView::Lift(by), 0) == Some(x@),
                None => rewrite_ty(self@, RewriteView::Lift(by), 0) is None,
            },
    {
        self.rewrite(&Rewrite::Lift(by), 0)
    }

    /// The type with the variables of the outermost binder replaced by the
    /// types of `substs`.
    pub fn subst(&self, substs: &Substs) -> (r: Option<Ty>)
        ensures
            match r {
                Some(x) => rewrite_ty(self@, RewriteView::Subst(substs@), 0) == Some(x@),
                None => rewrite_ty(self@, RewriteView::Subst(substs@), 0) is None,
            },
    {
        self.rewrite(&Rewrite::Subst(substs), 0)
    }
}

} // verus!
