//! Plain leaves of both type models: scalars, mutability, variable kinds and
//! De Bruijn-indexed bound variables.
use vstd::prelude::*;

verus! {

/// The signed integer types.
#[derive(Clone, Copy, Debug, PartialEq, Eq, Hash, Structural)]
pub enum IntTy {
    Isize,
    I8,
    I16,
    I32,
    I64,
    I128,
}

/// The unsigned integer types.
#[derive(Clone, Copy, Debug, PartialEq, Eq, Hash, Structural)]
pub enum UintTy {
    Usize,
    U8,
    U16,
    U32,
    U64,
    U128,
}

/// The floating-point types.
#[derive(Clone, Copy, Debug, PartialEq, Eq, Hash, Structural)]
pub enum FloatTy {
    F32,
    F64,
}

/// A primitive scalar type.
#[derive(Clone, Copy, Debug, PartialEq, Eq, Hash, Structural)]
pub enum Scalar {
    Bool,
    Char,
    Int(IntTy),
    Uint(UintTy),
    Float(FloatTy),
}

/// Whether a pointer or reference allows writing.
#[derive(Clone, Copy, Debug, PartialEq, Eq, Hash, Structural)]
pub enum Mutability {
    Mut,
    Not,
}

/// Whether a function may be called without an unsafe block.
#[derive(Clone, Copy, Debug, PartialEq, Eq, Hash, Structural)]
pub enum Safety {
    Safe,
    Unsafe,
}

/// The kind of a type variable.
#[derive(Clone, Copy, Debug, PartialEq, Eq, Hash, Structural)]
pub enum TyVariableKind {
    General,
    Integer,
    Float,
}

/// An inference variable: an identity that lives for one inference session.
#[derive(Clone, Copy, Debug, PartialEq, Eq, Hash, Structural)]
pub struct InferenceVar(pub u32);

/// A variable bound by an enclosing binder.
///
/// `debruijn` counts the binders between the variable and the one that binds
/// it, 0 being the innermost; `index` picks the variable among those that the
/// binder introduces.
#[derive(Clone, Copy, Debug, PartialEq, Eq, Hash, Structural)]
pub struct BoundVar {
    pub debruijn: u32,
    pub index: usize,
}

/// A placeholder of the solver: the `idx`-th of universe `ui`.
#[derive(Clone, Copy, Debug, PartialEq, Eq, Hash, Structural)]
pub struct PlaceholderIndex {
    pub ui: usize,
    pub idx: usize,
}

/// The universe that every placeholder of this layer belongs to.
pub open spec fn spec_root_universe() -> usize {
    0
}

/// `chalk_ir::UniverseIndex::ROOT`: the counter of the root universe, which
/// the solver defines as 0.
#[verifier::external_body]
pub(crate) fn root_universe() -> (r: usize)
    ensures
        r == spec_root_universe(),
{
    chalk_ir::UniverseIndex::ROOT.counter
}

impl BoundVar {
    /// The variable as seen from inside `by` further binders.
    pub open spec fn spec_shifted_in_from(self, by: u32) -> BoundVar {
        BoundVar { debruijn: (self.debruijn + by) as u32, index: self.index }
    }

    /// The variable as seen from outside the `by` innermost binders, if it is
    /// not bound by one of them.
    pub open spec fn spec_shifted_out_to(self, by: u32) -> Option<BoundVar> {
        if self.debruijn < by {
            None
        } else {
            Some(BoundVar { debruijn: (self.debruijn - by) as u32, index: self.index })
        }
    }

    /// `chalk_ir::BoundVar::shifted_in_from`: the depth grows by `by`, the
    /// index stays. The sum of the depths must fit, since the solver adds
    /// them unchecked.
    #[verifier::external_body]
    pub(crate) fn shifted_in_from(self, by: u32) -> (r: BoundVar)
        requires
            self.debruijn + by <= u32::MAX,
        ensures
            r == self.spec_shifted_in_from(by),
    {
        let var = chalk_ir::BoundVar::new(chalk_ir::DebruijnIndex::new(self.debruijn), self.index);
        let out = var.shifted_in_from(chalk_ir::DebruijnIndex::new(by));
        BoundVar { debruijn: out.debruijn.depth(), index: out.index }
    }

    /// `chalk_ir::BoundVar::shifted_out_to`: nothing when the depth is below
    /// `by`; otherwise the depth shrinks by `by` and the index stays.
    #[verifier::external_body]
    pub(crate) fn shifted_out_to(self, by: u32) -> (r: Option<BoundVar>)
        ensures
            r == self.spec_shifted_out_to(by),
    {
        let var = chalk_ir::BoundVar::new(chalk_ir::DebruijnIndex::new(self.debruijn), self.index);
        match var.shifted_out_to(chalk_ir::DebruijnIndex::new(by)) {
            Some(out) => Some(BoundVar { debruijn: out.debruijn.depth(), index: out.index }),
            None => None,
        }
    }
}

} // verus!
