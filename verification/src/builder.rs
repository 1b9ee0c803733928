//! Generic builder plumbing: an argument structure accumulates settings and
//! then builds its target structure.

use vstd::prelude::*;

verus! {

/// Methods an argument structure must provide so that a target can be built
/// from it.
pub trait BuilderMethods: Default {
    type Target;

    /// Builds the target structure from the accumulated parameters.
    fn build(&mut self) -> Self::Target;
}

/// A structure that is produced from a dedicated builder.
pub trait TargetFromBuilder {
    type Builder: BuilderMethods<Target = Self>;

    /// A fresh builder for this target.
    fn builder() -> Self::Builder {
        Self::Builder::default()
    }
}

} // verus!
