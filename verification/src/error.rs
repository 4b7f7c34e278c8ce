//! Generation-time errors: each aborts code generation for the offending
//! query; there is no recovery path.

use vstd::prelude::*;

verus! {

/// Why code generation for an annotated SQL text was refused.
#[derive(Debug, Clone, Copy, PartialEq, Eq, Structural)]
pub enum GenError {
    /// An annotation opening `/*:` has no closing `*/`.
    UnterminatedAnnotation,
    /// A result-column annotation has no token before it to name the column.
    OrphanAnnotation,
    /// An annotation body is empty after trimming.
    EmptyAnnotation,
    /// A parameter annotation body does not split into exactly one name and
    /// one type, or the type is empty.
    InvalidTypeDescriptor,
    /// Two members of the same list carry the same name.
    DuplicateMemberName,
}

} // verus!
