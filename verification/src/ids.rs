//! Identities of definitions, as the analyzer names them.
use vstd::prelude::*;

verus! {

/// A trait.
#[derive(Clone, Copy, Debug, PartialEq, Eq, Hash, Structural)]
pub struct TraitId(pub u32);

/// An implementation block.
#[derive(Clone, Copy, Debug, PartialEq, Eq, Hash, Structural)]
pub struct ImplId(pub u32);

/// A type alias; associated types and foreign types are declared as one.
#[derive(Clone, Copy, Debug, PartialEq, Eq, Hash, Structural)]
pub struct TypeAliasId(pub u32);

/// A struct, union or enum.
#[derive(Clone, Copy, Debug, PartialEq, Eq, Hash, Structural)]
pub enum AdtId {
    Struct(u32),
    Union(u32),
    Enum(u32),
}

/// A function.
#[derive(Clone, Copy, Debug, PartialEq, Eq, Hash, Structural)]
pub struct FunctionId(pub u32);

/// Something with a body: the context a closure is defined in.
#[derive(Clone, Copy, Debug, PartialEq, Eq, Hash, Structural)]
pub struct DefWithBodyId(pub u32);

/// An expression inside a body.
#[derive(Clone, Copy, Debug, PartialEq, Eq, Hash, Structural)]
pub struct ExprId(pub u32);

/// Anything that can be called by name.
#[derive(Clone, Copy, Debug, PartialEq, Eq, Hash, Structural)]
pub enum CallableDefId {
    Function(FunctionId),
    Struct(u32),
    EnumVariant(u32, u32),
}

/// An opaque type: the `idx`-th `impl Trait` in the return type of `func`.
#[derive(Clone, Copy, Debug, PartialEq, Eq, Hash, Structural)]
pub struct OpaqueTyId {
    pub func: FunctionId,
    pub idx: u16,
}

/// A generic type parameter of the definition `parent`.
#[derive(Clone, Copy, Debug, PartialEq, Eq, Hash, Structural)]
pub struct TypeParamId {
    pub parent: u32,
    pub local_id: u32,
}

/// Where an associated item is declared.
#[derive(Clone, Copy, Debug, PartialEq, Eq, Hash, Structural)]
pub enum AssocContainerId {
    Module(u32),
    Impl(ImplId),
    Trait(TraitId),
}

/// A definition that can carry generic parameters and where-clauses.
#[derive(Clone, Copy, Debug, PartialEq, Eq, Hash, Structural)]
pub enum GenericDefId {
    Function(FunctionId),
    Adt(AdtId),
    Trait(TraitId),
    TypeAlias(TypeAliasId),
    Impl(ImplId),
}

/// A composite identity that has no compact form of its own and gets one
/// from the interning table.
#[derive(Clone, Copy, Debug, PartialEq, Eq, Hash, Structural)]
pub enum InternKey {
    /// A closure, named by its defining context and its expression.
    Closure(DefWithBodyId, ExprId),
    /// An opaque type.
    ImplTrait(OpaqueTyId),
    /// A callable definition.
    Callable(CallableDefId),
    /// A generic type parameter.
    TypeParam(TypeParamId),
}

} // verus!
