//! The result record of a ray/shape test.

use vstd::prelude::*;
use crate::vec3::Vec3;

verus! {

/// Sentinel distance of the empty record; stands in for "infinitely far".
pub const EMPTY_DIST: i64 = 0x7FFF_FFFF_FFFF_FFFF;

/// Outcome of casting a ray against one shape: either the nearest valid
/// forward hit (point, outward unit normal, parametric distance, face
/// coordinates), or the empty record.
#[derive(Clone, Copy, PartialEq, Eq, Debug)]
pub struct Intersect {
    pub is_intersecting: bool,
    pub point: Vec3,
    pub normal: Vec3,
    pub distance: i64,
    pub uv: Option<(i64, i64)>,
}

/// The record meaning "no hit".
pub open spec fn spec_empty() -> Intersect {
    Intersect {
        is_intersecting: false,
        point: Vec3 { x: 0, y: 0, z: 0 },
        normal: Vec3 { x: 0, y: 0, z: 0 },
        distance: EMPTY_DIST,
        uv: None,
    }
}

impl Intersect {
    /// The record meaning "no hit".
    pub fn empty() -> (it: Intersect)
        ensures
            it == spec_empty(),
    {
        Intersect {
            is_intersecting: false,
            point: Vec3 { x: 0, y: 0, z: 0 },
            normal: Vec3 { x: 0, y: 0, z: 0 },
            distance: EMPTY_DIST,
            uv: None,
        }
    }
}

} // verus!
