//! Point lights.

use vstd::prelude::*;

use crate::color::{Color, CH_CEIL};
use crate::vec3::{Vec3, in_range};

verus! {

/// Largest coordinate magnitude for scene points (positions, centers).
pub const POS_MAX: i64 = 0x200_0000;

/// Largest light intensity (raw fixed point; stands for 16.0).
pub const INTENSITY_MAX: i64 = 1048576;

#[derive(Clone, Copy, PartialEq, Eq, Structural, Debug)]
pub struct Light {
    pub position: Vec3,
    pub color: Color,
    pub intensity: i64,
}

/// A light the renderer accepts: position within the scene range, displayable
/// color, and a bounded non-negative intensity.
pub open spec fn wf_light(l: Light) -> bool {
    &&& in_range(l.position, POS_MAX as int)
    &&& 0 <= l.color.r <= CH_CEIL
    &&& 0 <= l.color.g <= CH_CEIL
    &&& 0 <= l.color.b <= CH_CEIL
    &&& 0 <= l.intensity <= INTENSITY_MAX
}

impl Light {
    pub fn new(position: Vec3, color: Color, intensity: i64) -> (l: Light)
        requires
            wf_light(Light { position, color, intensity }),
        ensures
            l == (Light { position, color, intensity }),
    {
        Light { position, color, intensity }
    }
}

} // verus!
