//! The analyzer's model of types, substitutions and predicates.
//!
//! Every executable type here has a mathematical view in which vectors are
//! sequences; the contracts of the crate speak of the views.
use vstd::prelude::*;
use crate::ids::{AdtId, CallableDefId, DefWithBodyId, ExprId, OpaqueTyId, TraitId, TypeAliasId, TypeParamId};
use crate::primitive::{BoundVar, InferenceVar, Mutability, Scalar, TyVariableKind};

verus! {

/// An ordered list of generic arguments, in the order in which the
/// parameters are declared.
#[derive(Debug, PartialEq, Eq)]
pub struct Substs(pub Vec<Ty>);

/// What a function pointer says besides its types.
#[derive(Clone, Copy, Debug, PartialEq, Eq, Structural)]
pub struct FnSig {
    pub variadic: bool,
}

/// A function pointer. The last element of `substs` is the return type, the
/// others are the arguments.
#[derive(Debug, PartialEq, Eq)]
pub struct FnPointer {
    pub num_args: usize,
    pub sig: FnSig,
    pub substs: Substs,
}

/// An associated type applied to its arguments; the first argument is the
/// self type.
#[derive(Debug, PartialEq, Eq)]
pub struct ProjectionTy {
    pub associated_ty: TypeAliasId,
    pub parameters: Substs,
}

/// An opaque type applied to its arguments.
#[derive(Debug, PartialEq, Eq)]
pub struct OpaqueTy {
    pub opaque_ty_id: OpaqueTyId,
    pub parameters: Substs,
}

/// A type that stands for another: a projection or an opaque type.
#[derive(Debug, PartialEq, Eq)]
pub enum AliasTy {
    Projection(ProjectionTy),
    Opaque(OpaqueTy),
}

/// A trait applied to its arguments; the first argument is the implementing
/// type.
#[derive(Debug, PartialEq, Eq)]
pub struct TraitRef {
    pub trait_: TraitId,
    pub substs: Substs,
}

/// The constraint that a projection equals a type.
#[derive(Debug, PartialEq, Eq)]
pub struct ProjectionPredicate {
    pub projection_ty: ProjectionTy,
    pub ty: Ty,
}

/// A constraint of a generic context.
#[derive(Debug, PartialEq, Eq)]
pub enum GenericPredicate {
    Implemented(TraitRef),
    Projection(ProjectionPredicate),
    /// A constraint that could not be made sense of.
    Error,
}

/// A type, in the shapes of the analyzer. Pointer-like shapes carry their
/// element type as a substitution of one element.
#[derive(Debug, PartialEq, Eq)]
pub enum Ty {
    Scalar(Scalar),
    Tuple(usize, Substs),
    Array(Substs),
    Slice(Substs),
    Raw(Mutability, Substs),
    Ref(Mutability, Substs),
    Function(FnPointer),
    Closure(DefWithBodyId, ExprId, Substs),
    Adt(AdtId, Substs),
    AssociatedType(TypeAliasId, Substs),
    OpaqueType(OpaqueTyId, Substs),
    ForeignType(TypeAliasId),
    FnDef(CallableDefId, Substs),
    Never,
    Str,
    /// A trait object; the predicates speak of the object's own type as the
    /// innermost bound variable.
    Dyn(Vec<GenericPredicate>),
    Alias(AliasTy),
    Placeholder(TypeParamId),
    BoundVar(BoundVar),
    InferenceVar(InferenceVar, TyVariableKind),
    Unknown,
}

/// A query for the solver.
#[derive(Debug, PartialEq, Eq)]
pub enum Obligation {
    /// That a trait is implemented.
    Trait(TraitRef),
    /// That a projection equals a type.
    Projection(ProjectionPredicate),
}

/// The predicates that are assumed in a generic context.
#[derive(Debug, PartialEq, Eq)]
pub struct TraitEnvironment {
    pub predicates: Vec<GenericPredicate>,
}

/// A value together with the environment it is to be judged in.
#[derive(Debug, PartialEq, Eq)]
pub struct InEnvironment<T> {
    pub environment: TraitEnvironment,
    pub value: T,
}

/// A value whose free inference variables were replaced by bound
/// variables of the innermost binder; `kinds` gives the kind of each, in
/// the order of their indices.
#[derive(Debug, PartialEq, Eq)]
pub struct Canonical<T> {
    pub kinds: Vec<TyVariableKind>,
    pub value: T,
}

/// An obligation as mathematics.
pub ghost enum ObligationView {
    Trait(TraitRefView),
    Projection(ProjectionPredicateView),
}

/// A trait reference as mathematics.
pub ghost struct TraitRefView {
    pub trait_: TraitId,
    pub substs: Seq<TyView>,
}

/// A projection as mathematics.
pub ghost struct ProjectionTyView {
    pub associated_ty: TypeAliasId,
    pub parameters: Seq<TyView>,
}

/// A projection predicate as mathematics.
pub ghost struct ProjectionPredicateView {
    pub projection_ty: ProjectionTyView,
    pub ty: TyView,
}

/// A predicate as mathematics.
pub ghost enum PredicateView {
    Implemented(TraitRefView),
    Projection(ProjectionPredicateView),
    Error,
}

/// A type as mathematics: vectors are sequences, and an alias is the
/// projection or opaque type it holds.
pub ghost enum TyView {
    Scalar(Scalar),
    Tuple(usize, Seq<TyView>),
    Array(Seq<TyView>),
    Slice(Seq<TyView>),
    Raw(Mutability, Seq<TyView>),
    Ref(Mutability, Seq<TyView>),
    Function { num_args: usize, variadic: bool, substs: Seq<TyView> },
    Closure(DefWithBodyId, ExprId, Seq<TyView>),
    Adt(AdtId, Seq<TyView>),
    AssociatedType(TypeAliasId, Seq<TyView>),
    OpaqueType(OpaqueTyId, Seq<TyView>),
    ForeignType(TypeAliasId),
    FnDef(CallableDefId, Seq<TyView>),
    Never,
    Str,
    Dyn(Seq<PredicateView>),
    Projection(TypeAliasId, Seq<TyView>),
    Opaque(OpaqueTyId, Seq<TyView>),
    Placeholder(TypeParamId),
    BoundVar(BoundVar),
    InferenceVar(InferenceVar, TyVariableKind),
    Unknown,
}

/// The views of the elements of `tys`, in order.
pub open spec fn tys_view(tys: Seq<Ty>) -> Seq<TyView>
    decreases tys,
{
    Seq::new(tys.len(), |i: int| if 0 <= i < tys.len() { tys[i].view() } else { TyView::Unknown })
}

/// The views of the elements of `preds`, in order.
pub open spec fn preds_view(preds: Seq<GenericPredicate>) -> Seq<PredicateView>
    decreases preds,
{
    Seq::new(
        preds.len(),
        |i: int| if 0 <= i < preds.len() { preds[i].view() } else { PredicateView::Error },
    )
}

impl Substs {
    /// The value as mathematics.
    pub open spec fn view(&self) -> Seq<TyView>
        decreases self,
    {
        tys_view(self.0@)
    }
}

impl TraitRef {
    /// The value as mathematics.
    pub open spec fn view(&self) -> TraitRefView
        decreases self,
    {
        TraitRefView { trait_: self.trait_, substs: self.substs.view() }
    }
}

impl ProjectionTy {
    /// The value as mathematics.
    pub open spec fn view(&self) -> ProjectionTyView
        decreases self,
    {
        ProjectionTyView { associated_ty: self.associated_ty, parameters: self.parameters.view() }
    }
}

impl ProjectionPredicate {
    /// The value as mathematics.
    pub open spec fn view(&self) -> ProjectionPredicateView
        decreases self,
    {
        ProjectionPredicateView { projection_ty: self.projection_ty.view(), ty: self.ty.view() }
    }
}

impl Obligation {
    /// The value as mathematics.
    pub open spec fn view(&self) -> ObligationView {
        match self {
            Obligation::Trait(tr) => ObligationView::Trait(tr.view()),
            Obligation::Projection(pp) => ObligationView::Projection(pp.view()),
        }
    }
}

impl TraitEnvironment {
    /// The value as mathematics.
    pub open spec fn view(&self) -> Seq<PredicateView> {
        preds_view(self.predicates@)
    }
}

impl AliasTy {
    /// The alias as a type.
    pub open spec fn view(&self) -> TyView
        decreases self,
    {
        match self {
            AliasTy::Projection(p) => TyView::Projection(p.associated_ty, p.parameters.view()),
            AliasTy::Opaque(o) => TyView::Opaque(o.opaque_ty_id, o.parameters.view()),
        }
    }
}

impl GenericPredicate {
    /// The value as mathematics.
    pub open spec fn view(&self) -> PredicateView
        decreases self,
    {
        match self {
            GenericPredicate::Implemented(tr) => PredicateView::Implemented(tr.view()),
            GenericPredicate::Projection(pp) => PredicateView::Projection(pp.view()),
            GenericPredicate::Error => PredicateView::Error,
        }
    }

    /// Whether this is the error predicate.
    pub fn is_error(&self) -> (r: bool)
        ensures
            r == (self@ is Error),
    {
        match self {
            GenericPredicate::Error => true,
            _ => false,
        }
    }
}

impl Ty {
    /// The value as mathematics.
    pub open spec fn view(&self) -> TyView
        decreases self,
    {
        match self {
            Ty::Scalar(s) => TyView::Scalar(*s),
            Ty::Tuple(n, substs) => TyView::Tuple(*n, substs.view()),
            Ty::Array(substs) => TyView::Array(substs.view()),
            Ty::Slice(substs) => TyView::Slice(substs.view()),
            Ty::Raw(m, substs) => TyView::Raw(*m, substs.view()),
            Ty::Ref(m, substs) => TyView::Ref(*m, substs.view()),
            Ty::Function(fp) => TyView::Function {
                num_args: fp.num_args,
                variadic: fp.sig.variadic,
                substs: fp.substs.view(),
            },
            Ty::Closure(def, expr, substs) => TyView::Closure(*def, *expr, substs.view()),
            Ty::Adt(id, substs) => TyView::Adt(*id, substs.view()),
            Ty::AssociatedType(id, substs) => TyView::AssociatedType(*id, substs.view()),
            Ty::OpaqueType(id, substs) => TyView::OpaqueType(*id, substs.view()),
            Ty::ForeignType(id) => TyView::ForeignType(*id),
            Ty::FnDef(id, substs) => TyView::FnDef(*id, substs.view()),
            Ty::Never => TyView::Never,
            Ty::Str => TyView::Str,
            Ty::Dyn(preds) => TyView::Dyn(preds_view(preds@)),
            Ty::Alias(a) => a.view(),
            Ty::Placeholder(id) => TyView::Placeholder(*id),
            Ty::BoundVar(bv) => TyView::BoundVar(*bv),
            Ty::InferenceVar(iv, kind) => TyView::InferenceVar(*iv, *kind),
            Ty::Unknown => TyView::Unknown,
        }
    }
}

impl Substs {
    /// A substitution of one element.
    pub fn single(ty: Ty) -> (r: Substs)
        ensures
            r@ == seq![ty@],
    {
        let mut v: Vec<Ty> = Vec::new();
        v.push(ty);
        let r = Substs(v);
        assert(r@ =~= seq![ty@]);
        r
    }

    /// The number of arguments.
    pub fn len(&self) -> (r: usize)
        ensures
            r == self@.len(),
    {
        self.0.len()
    }
}

/// Every type of `s` is kept whole by the solver's form.
pub open spec fn faithful_tys(s: Seq<TyView>) -> bool
    decreases s,
{
    forall|i: int| 0 <= i < s.len() ==> faithful_ty(#[trigger] s[i])
}

/// The predicate is kept whole by the solver's form: it is no error
/// predicate, and its types are kept whole.
pub open spec fn faithful_pred(p: PredicateView) -> bool
    decreases p,
{
    match p {
        PredicateView::Implemented(tr) => faithful_tys(tr.substs),
        PredicateView::Projection(pp) => faithful_tys(pp.projection_ty.parameters) && faithful_ty(
            pp.ty,
        ),
        PredicateView::Error => false,
    }
}

/// Every predicate of `s` is kept whole by the solver's form.
pub open spec fn faithful_preds(s: Seq<PredicateView>) -> bool
    decreases s,
{
    forall|i: int| 0 <= i < s.len() ==> faithful_pred(#[trigger] s[i])
}

/// The type is kept whole by the solver's form: it holds no inference
/// variable and no error predicate, its pointer-like parts have exactly
/// their element type as argument, and its function pointers count their
/// arguments as one less than their substitution.
pub open spec fn faithful_ty(t: TyView) -> bool
    decreases t,
{
    match t {
        TyView::Array(s) | TyView::Slice(s) | TyView::Raw(_, s) | TyView::Ref(_, s) => s.len() == 1
            && faithful_tys(s),
        TyView::Function { num_args, variadic, substs } => substs.len() == num_args + 1
            && faithful_tys(substs),
        TyView::Tuple(_, s)
        | TyView::Closure(_, _, s)
        | TyView::Adt(_, s)
        | TyView::AssociatedType(_, s)
        | TyView::OpaqueType(_, s)
        | TyView::FnDef(_, s)
        | TyView::Projection(_, s)
        | TyView::Opaque(_, s) => faithful_tys(s),
        TyView::Dyn(preds) => faithful_preds(preds),
        TyView::InferenceVar(_, _) => false,
        _ => true,
    }
}

} // verus!
