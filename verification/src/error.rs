//! The failures a conversion can report.
use vstd::prelude::*;

verus! {

/// Why a conversion was abandoned.
///
/// The first group marks a broken invariant of the caller: the value handed in
/// should never have reached this layer. The second group marks shapes that
/// the layer knowingly does not handle.
#[derive(Clone, Copy, Debug, PartialEq, Eq, Hash, Structural)]
pub enum ConversionError {
    /// A live inference variable reached the outbound conversion.
    UncanonicalizedInferenceVar,
    /// A placeholder outside the root universe.
    NonRootUniverse,
    /// A function pointer that declares binders of its own.
    FnPointerBinders,
    /// A dynamic type whose bounds do not bind exactly the self type.
    DynBinders,
    /// A bound variable that refers into a scope that is being removed.
    EscapingBoundVar,
    /// A bound variable whose index would leave the range of its depth.
    IndexOutOfRange,
    /// An error predicate was offered as a goal or a clause.
    ErrorPredicate,
    /// A pointer, reference, array or slice without its element type, or a
    /// function pointer without its return type.
    MissingTypeArgument,
    /// An associated type that is not declared in a trait.
    AssocTypeNotInTrait,
    /// A handle that the interning table never gave out, or gave out for
    /// another kind of identity.
    UnknownHandle,
    /// Generator and generator-witness types.
    UnsupportedGenerator,
    /// A generic argument that is a lifetime or a constant.
    UnsupportedGenericArg,
    /// A where-clause about lifetimes or outlives relations.
    UnsupportedOutlives,
    /// An alias equality whose alias is an opaque type.
    UnsupportedOpaqueAlias,
    /// A canonical binder of constant kind.
    UnsupportedConstKind,
}

impl ConversionError {
    /// Whether the error marks a broken invariant of the caller, as opposed
    /// to an unsupported shape.
    pub open spec fn spec_is_contract_violation(self) -> bool {
        match self {
            ConversionError::UncanonicalizedInferenceVar
            | ConversionError::NonRootUniverse
            | ConversionError::FnPointerBinders
            | ConversionError::DynBinders
            | ConversionError::EscapingBoundVar
            | ConversionError::IndexOutOfRange
            | ConversionError::ErrorPredicate
            | ConversionError::MissingTypeArgument
            | ConversionError::AssocTypeNotInTrait
            | ConversionError::UnknownHandle => true,
            _ => false,
        }
    }

    /// Whether the error marks a broken invariant of the caller.
    pub fn is_contract_violation(self) -> (r: bool)
        ensures
            r == self.spec_is_contract_violation(),
    {
        match self {
            ConversionError::UncanonicalizedInferenceVar
            | ConversionError::NonRootUniverse
            | ConversionError::FnPointerBinders
            | ConversionError::DynBinders
            | ConversionError::EscapingBoundVar
            | ConversionError::IndexOutOfRange
            | ConversionError::ErrorPredicate
            | ConversionError::MissingTypeArgument
            | ConversionError::AssocTypeNotInTrait
            | ConversionError::UnknownHandle => true,
            _ => false,
        }
    }
}

} // verus!
