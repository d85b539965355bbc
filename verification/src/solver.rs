//! The solver-facing representation: what the trait solver consumes and
//! hands back, held as plain data.
//!
//! The shapes follow the solver's own: generic arguments may be types,
//! lifetimes or constants, references carry a lifetime, arrays carry a
//! length constant, function pointers and dynamic types carry binders.
use vstd::prelude::*;
use crate::primitive::{
    BoundVar, InferenceVar, Mutability, PlaceholderIndex, Safety, Scalar, TyVariableKind,
};

verus! {

/// A trait.
#[derive(Clone, Copy, Debug, PartialEq, Eq, Hash, Structural)]
pub struct TraitId(pub u32);

/// An implementation block.
#[derive(Clone, Copy, Debug, PartialEq, Eq, Hash, Structural)]
pub struct ImplId(pub u32);

/// A struct, union or enum, named as the analyzer names it.
#[derive(Clone, Copy, Debug, PartialEq, Eq, Hash, Structural)]
pub struct AdtId(pub crate::ids::AdtId);

/// An associated type.
#[derive(Clone, Copy, Debug, PartialEq, Eq, Hash, Structural)]
pub struct AssocTypeId(pub u32);

/// A foreign type.
#[derive(Clone, Copy, Debug, PartialEq, Eq, Hash, Structural)]
pub struct ForeignDefId(pub u32);

/// The value of an associated type in an implementation.
#[derive(Clone, Copy, Debug, PartialEq, Eq, Hash, Structural)]
pub struct AssociatedTyValueId(pub u32);

/// Handle of an opaque type in the interning table.
#[derive(Clone, Copy, Debug, PartialEq, Eq, Hash, Structural)]
pub struct OpaqueTyId(pub usize);

/// Handle of a callable definition in the interning table.
#[derive(Clone, Copy, Debug, PartialEq, Eq, Hash, Structural)]
pub struct FnDefId(pub usize);

/// Handle of a closure in the interning table.
#[derive(Clone, Copy, Debug, PartialEq, Eq, Hash, Structural)]
pub struct ClosureId(pub usize);

/// A generator.
#[derive(Clone, Copy, Debug, PartialEq, Eq, Hash, Structural)]
pub struct GeneratorId(pub u32);

/// A lifetime.
#[derive(Clone, Copy, Debug, PartialEq, Eq, Hash, Structural)]
pub enum Lifetime {
    BoundVar(BoundVar),
    InferenceVar(InferenceVar),
    Placeholder(PlaceholderIndex),
    Static,
    Erased,
}

/// The value of a constant.
#[derive(Clone, Copy, Debug, PartialEq, Eq, Hash, Structural)]
pub enum ConstValue {
    BoundVar(BoundVar),
    InferenceVar(InferenceVar),
    Placeholder(PlaceholderIndex),
    /// A concrete value; this layer does not say which.
    Concrete,
}

/// The kind of a variable that a binder introduces.
#[derive(Clone, Copy, Debug, PartialEq, Eq, Hash, Structural)]
pub enum VariableKind {
    Ty(TyVariableKind),
    Lifetime,
    Const,
}

/// The kind of a variable of a canonical form, with its universe.
#[derive(Clone, Copy, Debug, PartialEq, Eq, Hash, Structural)]
pub struct CanonicalVarKind {
    pub kind: VariableKind,
    pub universe: usize,
}

/// What a function pointer says besides its types.
#[derive(Clone, Copy, Debug, PartialEq, Eq, Hash, Structural)]
pub struct FnSig {
    pub safety: Safety,
    pub variadic: bool,
}

/// A constant with its type.
#[derive(Debug, PartialEq, Eq)]
pub struct Const {
    pub ty: Box<Ty>,
    pub value: ConstValue,
}

/// A generic argument.
#[derive(Debug, PartialEq, Eq)]
pub enum GenericArg {
    Ty(Ty),
    Lifetime(Lifetime),
    Const(Const),
}

/// An ordered list of generic arguments.
#[derive(Debug, PartialEq, Eq)]
pub struct Substitution(pub Vec<GenericArg>);

/// A trait applied to its arguments; the first is the self type.
#[derive(Debug, PartialEq, Eq)]
pub struct TraitRef {
    pub trait_id: TraitId,
    pub substitution: Substitution,
}

/// An associated type applied to its arguments.
#[derive(Debug, PartialEq, Eq)]
pub struct ProjectionTy {
    pub associated_ty_id: AssocTypeId,
    pub substitution: Substitution,
}

/// An opaque type applied to its arguments.
#[derive(Debug, PartialEq, Eq)]
pub struct OpaqueTy {
    pub opaque_ty_id: OpaqueTyId,
    pub substitution: Substitution,
}

/// A type that stands for another: a projection or an opaque type.
#[derive(Debug, PartialEq, Eq)]
pub enum AliasTy {
    Projection(ProjectionTy),
    Opaque(OpaqueTy),
}

/// The constraint that an alias equals a type.
#[derive(Debug, PartialEq, Eq)]
pub struct AliasEq {
    pub alias: AliasTy,
    pub ty: Ty,
}

/// A constraint on types.
#[derive(Debug, PartialEq, Eq)]
pub enum WhereClause {
    Implemented(TraitRef),
    AliasEq(AliasEq),
    LifetimeOutlives(Lifetime, Lifetime),
    TypeOutlives(Ty, Lifetime),
}

/// A where-clause under the binders it quantifies over.
#[derive(Debug, PartialEq, Eq)]
pub struct QuantifiedWhereClause {
    pub binders: Vec<VariableKind>,
    pub value: WhereClause,
}

/// The bounds of a trait object, under the binder of the object's own type.
#[derive(Debug, PartialEq, Eq)]
pub struct DynTy {
    pub binders: Vec<VariableKind>,
    pub bounds: Vec<QuantifiedWhereClause>,
    pub lifetime: Lifetime,
}

/// A function pointer. The substitution lives under `num_binders` binders.
#[derive(Debug, PartialEq, Eq)]
pub struct FnPointer {
    pub num_binders: usize,
    pub sig: FnSig,
    pub substitution: Substitution,
}

/// A type, in the shapes of the solver.
#[derive(Debug, PartialEq, Eq)]
pub enum Ty {
    Adt(AdtId, Substitution),
    AssociatedType(AssocTypeId, Substitution),
    Scalar(Scalar),
    Tuple(usize, Substitution),
    Array(Box<Ty>, Const),
    Slice(Box<Ty>),
    Raw(Mutability, Box<Ty>),
    Ref(Mutability, Lifetime, Box<Ty>),
    OpaqueType(OpaqueTyId, Substitution),
    FnDef(FnDefId, Substitution),
    Str,
    Never,
    Closure(ClosureId, Substitution),
    Generator(GeneratorId, Substitution),
    GeneratorWitness(GeneratorId, Substitution),
    Foreign(ForeignDefId),
    Error,
    Placeholder(PlaceholderIndex),
    Dyn(DynTy),
    Alias(AliasTy),
    Function(FnPointer),
    BoundVar(BoundVar),
    InferenceVar(InferenceVar, TyVariableKind),
}

/// A goal of the solver's domain: that a where-clause holds.
#[derive(Debug, PartialEq, Eq)]
pub enum DomainGoal {
    Holds(WhereClause),
}

/// The clauses that are assumed while a goal is solved.
#[derive(Debug, PartialEq, Eq)]
pub struct Environment {
    pub clauses: Vec<QuantifiedWhereClause>,
}

/// A value whose free variables were replaced by bound ones; `binders`
/// gives the kind of each, in the order of their indices.
#[derive(Debug, PartialEq, Eq)]
pub struct Canonical<T> {
    pub value: T,
    pub binders: Vec<CanonicalVarKind>,
}

/// A value together with the environment it is to be judged in.
#[derive(Debug, PartialEq, Eq)]
pub struct InEnvironment<G> {
    pub environment: Environment,
    pub goal: G,
}

/// A bound on a type whose self type is left out.
#[derive(Debug, PartialEq, Eq)]
pub struct TraitBound {
    pub trait_id: TraitId,
    pub args_no_self: Vec<GenericArg>,
}

/// The bound that an associated type of a trait equals a type.
#[derive(Debug, PartialEq, Eq)]
pub struct AliasEqBound {
    pub trait_bound: TraitBound,
    pub associated_ty_id: AssocTypeId,
    /// Arguments of the associated type itself.
    pub parameters: Vec<GenericArg>,
    pub value: Ty,
}

/// A bound written next to the type it bounds.
#[derive(Debug, PartialEq, Eq)]
pub enum InlineBound {
    TraitBound(TraitBound),
    AliasEqBound(AliasEqBound),
}

/// A constant as mathematics.
pub ghost struct ConstView {
    pub ty: Box<TyView>,
    pub value: ConstValue,
}

/// A generic argument as mathematics.
pub ghost enum GenericArgView {
    Ty(TyView),
    Lifetime(Lifetime),
    Const(ConstView),
}

/// A trait reference as mathematics.
pub ghost struct TraitRefView {
    pub trait_id: TraitId,
    pub substitution: Seq<GenericArgView>,
}

/// A projection as mathematics.
pub ghost struct ProjectionTyView {
    pub associated_ty_id: AssocTypeId,
    pub substitution: Seq<GenericArgView>,
}

/// An alias as mathematics.
pub ghost enum AliasTyView {
    Projection(ProjectionTyView),
    Opaque(OpaqueTyId, Seq<GenericArgView>),
}

/// A where-clause as mathematics.
pub ghost enum WhereClauseView {
    Implemented(TraitRefView),
    AliasEq(AliasTyView, TyView),
    LifetimeOutlives(Lifetime, Lifetime),
    TypeOutlives(TyView, Lifetime),
}

/// A quantified where-clause as mathematics.
pub ghost struct QuantifiedWhereClauseView {
    pub binders: Seq<VariableKind>,
    pub value: WhereClauseView,
}

/// A type as mathematics: vectors are sequences.
pub ghost enum TyView {
    Adt(AdtId, Seq<GenericArgView>),
    AssociatedType(AssocTypeId, Seq<GenericArgView>),
    Scalar(Scalar),
    Tuple(usize, Seq<GenericArgView>),
    Array(Box<TyView>, ConstView),
    Slice(Box<TyView>),
    Raw(Mutability, Box<TyView>),
    Ref(Mutability, Lifetime, Box<TyView>),
    OpaqueType(OpaqueTyId, Seq<GenericArgView>),
    FnDef(FnDefId, Seq<GenericArgView>),
    Str,
    Never,
    Closure(ClosureId, Seq<GenericArgView>),
    Generator(GeneratorId, Seq<GenericArgView>),
    GeneratorWitness(GeneratorId, Seq<GenericArgView>),
    Foreign(ForeignDefId),
    Error,
    Placeholder(PlaceholderIndex),
    Dyn { binders: Seq<VariableKind>, bounds: Seq<QuantifiedWhereClauseView>, lifetime: Lifetime },
    Alias(AliasTyView),
    Function { num_binders: usize, sig: FnSig, substitution: Seq<GenericArgView> },
    BoundVar(BoundVar),
    InferenceVar(InferenceVar, TyVariableKind),
}

/// A goal as mathematics.
pub ghost enum DomainGoalView {
    Holds(WhereClauseView),
}

/// A trait bound as mathematics.
pub ghost struct TraitBoundView {
    pub trait_id: TraitId,
    pub args_no_self: Seq<GenericArgView>,
}

/// An inline bound as mathematics.
pub ghost enum InlineBoundView {
    TraitBound(TraitBoundView),
    AliasEqBound {
        trait_bound: TraitBoundView,
        associated_ty_id: AssocTypeId,
        parameters: Seq<GenericArgView>,
        value: TyView,
    },
}

/// The views of the elements of `args`, in order.
pub open spec fn args_view(args: Seq<GenericArg>) -> Seq<GenericArgView>
    decreases args,
{
    Seq::new(
        args.len(),
        |i: int| if 0 <= i < args.len() { args[i].view() } else { GenericArgView::Lifetime(Lifetime::Erased) },
    )
}

/// The views of the elements of `clauses`, in order.
pub open spec fn clauses_view(clauses: Seq<QuantifiedWhereClause>) -> Seq<QuantifiedWhereClauseView>
    decreases clauses,
{
    Seq::new(
        clauses.len(),
        |i: int| if 0 <= i < clauses.len() {
            clauses[i].view()
        } else {
            QuantifiedWhereClauseView {
                binders: Seq::empty(),
                value: WhereClauseView::LifetimeOutlives(Lifetime::Erased, Lifetime::Erased),
            }
        },
    )
}

impl Const {
    /// The value as mathematics.
    pub open spec fn view(&self) -> ConstView
        decreases self,
    {
        ConstView { ty: Box::new(self.ty.view()), value: self.value }
    }
}

impl GenericArg {
    /// The value as mathematics.
    pub open spec fn view(&self) -> GenericArgView
        decreases self,
    {
        match self {
            GenericArg::Ty(t) => GenericArgView::Ty(t.view()),
            GenericArg::Lifetime(l) => GenericArgView::Lifetime(*l),
            GenericArg::Const(c) => GenericArgView::Const(c.view()),
        }
    }
}

impl Substitution {
    /// The value as mathematics.
    pub open spec fn view(&self) -> Seq<GenericArgView>
        decreases self,
    {
        args_view(self.0@)
    }
}

impl TraitRef {
    /// The value as mathematics.
    pub open spec fn view(&self) -> TraitRefView
        decreases self,
    {
        TraitRefView { trait_id: self.trait_id, substitution: self.substitution.view() }
    }
}

impl ProjectionTy {
    /// The value as mathematics.
    pub open spec fn view(&self) -> ProjectionTyView
        decreases self,
    {
        ProjectionTyView {
            associated_ty_id: self.associated_ty_id,
            substitution: self.substitution.view(),
        }
    }
}

impl AliasTy {
    /// The value as mathematics.
    pub open spec fn view(&self) -> AliasTyView
        decreases self,
    {
        match self {
            AliasTy::Projection(p) => AliasTyView::Projection(p.view()),
            AliasTy::Opaque(o) => AliasTyView::Opaque(o.opaque_ty_id, o.substitution.view()),
        }
    }
}

impl AliasEq {
    /// The alias and the type it equals.
    pub open spec fn view(&self) -> (AliasTyView, TyView)
        decreases self,
    {
        (self.alias.view(), self.ty.view())
    }
}

impl WhereClause {
    /// The value as mathematics.
    pub open spec fn view(&self) -> WhereClauseView
        decreases self,
    {
        match self {
            WhereClause::Implemented(tr) => WhereClauseView::Implemented(tr.view()),
            WhereClause::AliasEq(eq) => WhereClauseView::AliasEq(eq.alias.view(), eq.ty.view()),
            WhereClause::LifetimeOutlives(a, b) => WhereClauseView::LifetimeOutlives(*a, *b),
            WhereClause::TypeOutlives(t, l) => WhereClauseView::TypeOutlives(t.view(), *l),
        }
    }
}

impl QuantifiedWhereClause {
    /// The value as mathematics.
    pub open spec fn view(&self) -> QuantifiedWhereClauseView
        decreases self,
    {
        QuantifiedWhereClauseView { binders: self.binders@, value: self.value.view() }
    }
}

impl Ty {
    /// The value as mathematics.
    pub open spec fn view(&self) -> TyView
        decreases self,
    {
        match self {
            Ty::Adt(id, s) => TyView::Adt(*id, s.view()),
            Ty::AssociatedType(id, s) => TyView::AssociatedType(*id, s.view()),
            Ty::Scalar(s) => TyView::Scalar(*s),
            Ty::Tuple(n, s) => TyView::Tuple(*n, s.view()),
            Ty::Array(t, c) => TyView::Array(Box::new(t.view()), c.view()),
            Ty::Slice(t) => TyView::Slice(Box::new(t.view())),
            Ty::Raw(m, t) => TyView::Raw(*m, Box::new(t.view())),
            Ty::Ref(m, l, t) => TyView::Ref(*m, *l, Box::new(t.view())),
            Ty::OpaqueType(id, s) => TyView::OpaqueType(*id, s.view()),
            Ty::FnDef(id, s) => TyView::FnDef(*id, s.view()),
            Ty::Str => TyView::Str,
            Ty::Never => TyView::Never,
            Ty::Closure(id, s) => TyView::Closure(*id, s.view()),
            Ty::Generator(id, s) => TyView::Generator(*id, s.view()),
            Ty::GeneratorWitness(id, s) => TyView::GeneratorWitness(*id, s.view()),
            Ty::Foreign(id) => TyView::Foreign(*id),
            Ty::Error => TyView::Error,
            Ty::Placeholder(p) => TyView::Placeholder(*p),
            Ty::Dyn(d) => TyView::Dyn {
                binders: d.binders@,
                bounds: clauses_view(d.bounds@),
                lifetime: d.lifetime,
            },
            Ty::Alias(a) => TyView::Alias(a.view()),
            Ty::Function(f) => TyView::Function {
                num_binders: f.num_binders,
                sig: f.sig,
                substitution: f.substitution.view(),
            },
            Ty::BoundVar(bv) => TyView::BoundVar(*bv),
            Ty::InferenceVar(iv, kind) => TyView::InferenceVar(*iv, *kind),
        }
    }
}

impl DomainGoal {
    /// The value as mathematics.
    pub open spec fn view(&self) -> DomainGoalView {
        match self {
            DomainGoal::Holds(wc) => DomainGoalView::Holds(wc.view()),
        }
    }
}

impl Environment {
    /// The value as mathematics.
    pub open spec fn view(&self) -> Seq<QuantifiedWhereClauseView> {
        clauses_view(self.clauses@)
    }
}

impl TraitBound {
    /// The value as mathematics.
    pub open spec fn view(&self) -> TraitBoundView {
        TraitBoundView { trait_id: self.trait_id, args_no_self: args_view(self.args_no_self@) }
    }
}

impl InlineBound {
    /// The value as mathematics.
    pub open spec fn view(&self) -> InlineBoundView {
        match self {
            InlineBound::TraitBound(b) => InlineBoundView::TraitBound(b.view()),
            InlineBound::AliasEqBound(b) => InlineBoundView::AliasEqBound {
                trait_bound: b.trait_bound.view(),
                associated_ty_id: b.associated_ty_id,
                parameters: args_view(b.parameters@),
                value: b.value.view(),
            },
        }
    }
}

} // verus!
