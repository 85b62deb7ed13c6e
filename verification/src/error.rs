//! The ways in which a verification can fail to even start.

use vstd::prelude::*;

verus! {

/// Why no verdict could be given.
#[derive(Clone, Copy, Debug, PartialEq, Eq, Structural)]
pub enum Error {
    /// The number of public inputs is not the number the verifying key was
    /// made for.
    Shape,
    /// A scalar or a point is not well formed: a residue that is not below
    /// its modulus, a flag that does not belong, or coordinates that a
    /// backend refuses as a point of the curve.
    Conversion,
}

} // verus!
