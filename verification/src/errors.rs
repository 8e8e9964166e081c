//! Failures of the arithmetic underneath the operations.

use vstd::prelude::*;

verus! {

/// A failure of the arithmetic underneath an operation.
#[derive(Clone, Copy, Debug, PartialEq, Eq, Structural)]
pub enum StdError {
    /// A sum, product or ratio does not fit in its type, or a difference
    /// would be negative.
    Overflow,
    /// A division by zero.
    DivideByZero,
}

} // verus!
