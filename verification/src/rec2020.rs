//! The ITU-R Rec. 2020 wide-gamut primaries.  Only the gamut descriptor is
//! exposed here; a full RGB-to-XYZ matrix pair for these primaries is left
//! to a general primaries-to-matrix routine outside this library.

use vstd::prelude::*;

use crate::chromaticities::Chromaticity;
use crate::cie1931::Cie1931xy;

verus! {

/// The Rec. 2020 primaries and white point.
pub fn rec2020_chromaticities() -> (c: Chromaticity)
    ensures
        c.red == (Cie1931xy { x: 7_080_000, y: 2_920_000 }),
        c.green == (Cie1931xy { x: 1_700_000, y: 7_970_000 }),
        c.blue == (Cie1931xy { x: 1_310_000, y: 460_000 }),
        c.white == (Cie1931xy { x: 3_217_000, y: 3_290_000 }),
{
    Chromaticity {
        red: Cie1931xy::new(7_080_000, 2_920_000),
        green: Cie1931xy::new(1_700_000, 7_970_000),
        blue: Cie1931xy::new(1_310_000, 460_000),
        white: Cie1931xy::new(3_217_000, 3_290_000),
    }
}

} // verus!
