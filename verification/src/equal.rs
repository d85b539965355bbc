//! Structural equality of the analyzer's types, decided by walking both.
use vstd::prelude::*;
use crate::ty::{
    AliasTy, GenericPredicate, ProjectionTy, Substs, TraitRef, Ty, preds_view, tys_view,
};

verus! {

/// Whether two lists of types are equal, element by element.
pub fn tys_equal(a: &Vec<Ty>, b: &Vec<Ty>) -> (r: bool)
    ensures
        r == (tys_view(a@) == tys_view(b@)),
    decreases a,
{
    if a.len() != b.len() {
        assert(tys_view(a@).len() != tys_view(b@).len());
        return false;
    }
    let mut i: usize = 0;
    while i < a.len()
        invariant
            i <= a.len(),
            a.len() == b.len(),
            forall|j: int| 0 <= j < i ==> a@[j]@ == b@[j]@,
        decreases a.len() - i,
    {
        if !a[i].same_as(&b[i]) {
            assert(tys_view(a@)[i as int] != tys_view(b@)[i as int]);
            return false;
        }
        i += 1;
    }
    assert(tys_view(a@) =~= tys_view(b@));
    true
}

/// Whether two lists of predicates are equal, element by element.
pub fn preds_equal(a: &Vec<GenericPredicate>, b: &Vec<GenericPredicate>) -> (r: bool)
    ensures
        r == (preds_view(a@) == preds_view(b@)),
    decreases a,
{
    if a.len() != b.len() {
        assert(preds_view(a@).len() != preds_view(b@).len());
        return false;
    }
    let mut i: usize = 0;
    while i < a.len()
        invariant
            i <= a.len(),
            a.len() == b.len(),
            forall|j: int| 0 <= j < i ==> a@[j]@ == b@[j]@,
        decreases a.len() - i,
    {
        if !a[i].same_as(&b[i]) {
            assert(preds_view(a@)[i as int] != preds_view(b@)[i as int]);
            return false;
        }
        i += 1;
    }
    assert(preds_view(a@) =~= preds_view(b@));
    true
}

impl Substs {
    /// Whether the two substitutions are structurally equal.
    pub fn same_as(&self, other: &Substs) -> (r: bool)
        ensures
            r == (self@ == other@),
        decreases self,
    {
        tys_equal(&self.0, &other.0)
    }
}

impl TraitRef {
    /// Whether the two trait references are structurally equal.
    pub fn same_as(&self, other: &TraitRef) -> (r: bool)
        ensures
            r == (self@ == other@),
        decreases self,
    {
        self.trait_ == other.trait_ && self.substs.same_as(&other.substs)
    }
}

impl ProjectionTy {
    /// Whether the two projections are structurally equal.
    pub fn same_as(&self, other: &ProjectionTy) -> (r: bool)
        ensures
            r == (self@ == other@),
        decreases self,
    {
        self.associated_ty == other.associated_ty && self.parameters.same_as(&other.parameters)
    }
}

impl GenericPredicate {
    /// Whether the two predicates are structurally equal.
    pub fn same_as(&self, other: &GenericPredicate) -> (r: bool)
        ensures
            r == (self@ == other@),
        decreases self,
    {
        match (self, other) {
            (GenericPredicate::Implemented(a), GenericPredicate::Implemented(b)) => a.same_as(b),
            (GenericPredicate::Projection(a), GenericPredicate::Projection(b)) => {
                a.projection_ty.same_as(&b.projection_ty) && a.ty.same_as(&b.ty)
            },
            (GenericPredicate::Error, GenericPredicate::Error) => true,
            _ => false,
        }
    }
}

impl AliasTy {
    /// Whether the two aliases are structurally equal.
    pub fn same_as(&self, other: &AliasTy) -> (r: bool)
        ensures
            r == (self@ == other@),
        decreases self,
    {
        match (self, other) {
            (AliasTy::Projection(a), AliasTy::Projection(b)) => a.same_as(b),
            (AliasTy::Opaque(a), AliasTy::Opaque(b)) => a.opaque_ty_id == b.opaque_ty_id
                && a.parameters.same_as(&b.parameters),
            _ => false,
        }
    }
}

impl Ty {
    /// Types that carry at most identities.
    fn same_leaf(&self, other: &Ty) -> (r: bool)
        requires
            self is Scalar || self is ForeignType || self is Never || self is Str
                || self is Placeholder || self is BoundVar || self is InferenceVar
                || self is Unknown,
        ensures
            r == (self@ == other@),
    {
        match (self, other) {
            (Ty::Scalar(a), Ty::Scalar(b)) => *a == *b,
            (Ty::ForeignType(a), Ty::ForeignType(b)) => *a == *b,
            (Ty::Never, Ty::Never) => true,
            (Ty::Str, Ty::Str) => true,
            (Ty::Placeholder(a), Ty::Placeholder(b)) => *a == *b,
            (Ty::BoundVar(a), Ty::BoundVar(b)) => *a == *b,
            (Ty::InferenceVar(a, k), Ty::InferenceVar(b, l)) => *a == *b && *k == *l,
            (Ty::Unknown, Ty::Unknown) => true,
            (_, Ty::Alias(alias)) => {
                assert(alias@ is Projection || alias@ is Opaque);
                false
            },
            _ => false,
        }
    }

    /// Definitions applied to arguments.
    fn same_applied(&self, other: &Ty) -> (r: bool)
        requires
            self is Tuple || self is Adt || self is AssociatedType || self is Closure
                || self is OpaqueType || self is FnDef,
        ensures
            r == (self@ == other@),
        decreases self, 0nat,
    {
        match (self, other) {
            (Ty::Tuple(n, a), Ty::Tuple(m, b)) => *n == *m && a.same_as(b),
            (Ty::Adt(x, a), Ty::Adt(y, b)) => *x == *y && a.same_as(b),
            (Ty::AssociatedType(x, a), Ty::AssociatedType(y, b)) => *x == *y && a.same_as(b),
            (Ty::Closure(d, e, a), Ty::Closure(f, g, b)) => *d == *f && *e == *g && a.same_as(b),
            (Ty::OpaqueType(x, a), Ty::OpaqueType(y, b)) => *x == *y && a.same_as(b),
            (Ty::FnDef(x, a), Ty::FnDef(y, b)) => *x == *y && a.same_as(b),
            (_, Ty::Alias(alias)) => {
                assert(alias@ is Projection || alias@ is Opaque);
                false
            },
            _ => false,
        }
    }

    /// Pointer-like types, function pointers and trait objects.
    fn same_pointer(&self, other: &Ty) -> (r: bool)
        requires
            self is Array || self is Slice || self is Raw || self is Ref || self is Function
                || self is Dyn,
        ensures
            r == (self@ == other@),
        decreases self, 0nat,
    {
        match (self, other) {
            (Ty::Array(a), Ty::Array(b)) => a.same_as(b),
            (Ty::Slice(a), Ty::Slice(b)) => a.same_as(b),
            (Ty::Raw(m, a), Ty::Raw(n, b)) => *m == *n && a.same_as(b),
            (Ty::Ref(m, a), Ty::Ref(n, b)) => *m == *n && a.same_as(b),
            (Ty::Function(f), Ty::Function(g)) => f.num_args == g.num_args && f.sig.variadic
                == g.sig.variadic && f.substs.same_as(&g.substs),
            (Ty::Dyn(a), Ty::Dyn(b)) => preds_equal(a, b),
            (_, Ty::Alias(alias)) => {
                assert(alias@ is Projection || alias@ is Opaque);
                false
            },
            _ => false,
        }
    }

    /// Whether the two types are structurally equal.
    pub fn same_as(&self, other: &Ty) -> (r: bool)
        ensures
            r == (self@ == other@),
        decreases self, 1nat,
    {
        match self {
            Ty::Scalar(_)
            | Ty::ForeignType(_)
            | Ty::Never
            | Ty::Str
            | Ty::Placeholder(_)
            | Ty::BoundVar(_)
            | Ty::InferenceVar(_, _)
            | Ty::Unknown => self.same_leaf(other),
            Ty::Tuple(_, _)
            | Ty::Adt(_, _)
            | Ty::AssociatedType(_, _)
            | Ty::Closure(_, _, _)
            | Ty::OpaqueType(_, _)
            | Ty::FnDef(_, _) => self.same_applied(other),
            Ty::Array(_)
            | Ty::Slice(_)
            | Ty::Raw(_, _)
            | Ty::Ref(_, _)
            | Ty::Function(_)
            | Ty::Dyn(_) => self.same_pointer(other),
            Ty::Alias(a) => match other {
                Ty::Alias(b) => a.same_as(b),
                _ => {
                    assert(a@ is Projection || a@ is Opaque);
                    false
                },
            },
        }
    }
}

} // verus!
