//! Gamut descriptors: the chromaticity points of a set of primaries.

use vstd::prelude::*;

use crate::cie1931::Cie1931xy;

verus! {

/// A gamut's chromaticity points in CIE 1931 xy space: the red, green and
/// blue primaries plus the white point.  This is pure data, the
/// literature's native form for a set of primaries; deriving an RGB
/// matrix from it is outside this library's scope.
#[derive(Debug, Clone, Copy)]
pub struct Chromaticity {
    /// The red primary.
    pub red: Cie1931xy,
    /// The green primary.
    pub green: Cie1931xy,
    /// The blue primary.
    pub blue: Cie1931xy,
    /// The white point.
    pub white: Cie1931xy,
}

} // verus!
