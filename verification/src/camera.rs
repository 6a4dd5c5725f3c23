//! The orbiting camera: yaw/pitch state, an orthonormal basis, and the
//! basis change that maps camera-space ray directions into world space.
//!
//! Angles are fixed-point radians.  Sine and cosine are degree-five
//! polynomial approximations on the first quadrant, extended by symmetry
//! and clamped into `[-1, 1]`; the spec models the polynomial exactly.

use vstd::prelude::*;
use crate::fixed::{FP, sfmul, sclamp, fmul, clamp_fx, lemma_sfmul_bound};
use crate::vec3::{Vec3, in_range, snormalize};
use crate::light::POS_MAX;

verus! {

/// Fixed-point pi.
pub const PI_FX: i64 = 205887;

/// Fixed-point pi/2.
pub const HALF_PI_FX: i64 = 102944;

/// Fixed-point 3*pi/2.
pub const PI_3_2_FX: i64 = 308831;

/// Fixed-point 2*pi.
pub const TWO_PI_FX: i64 = 411775;

/// Pole-avoidance bound on the accumulated pitch, strictly inside
/// `(-pi/2, pi/2)` (about 87.4 degrees).
pub const PITCH_LIMIT: i64 = 100000;

/// Largest camera orbit radius and center coordinate.
pub const RADIUS_MAX: i64 = 0x100_0000;

/// Quarter-wave sine polynomial `r - r^3/6 + r^5/120`, clamped to `[0, 1]`.
pub open spec fn spec_sinq(r: int) -> int {
    let r2 = sfmul(r, r);
    let r3 = sfmul(r2, r);
    let r5 = sfmul(r3, r2);
    sclamp(r - r3 / 6 + r5 / 120, 0, FP as int)
}

/// One-step wrap of an angle in `(-2pi, 4pi)` into `[0, 2pi)`.
pub open spec fn spec_wrap(a: int) -> int {
    if a < 0 {
        a + TWO_PI_FX as int
    } else if a >= TWO_PI_FX as int {
        a - TWO_PI_FX as int
    } else {
        a
    }
}

/// Approximate sine on `(-2pi, 2*2pi)`: wrap, then fold the quadrants onto
/// the quarter-wave polynomial.
pub open spec fn spec_sin(a: int) -> int {
    let w = spec_wrap(a);
    if w < HALF_PI_FX as int {
        spec_sinq(w)
    } else if w < PI_FX as int {
        spec_sinq(PI_FX as int - w)
    } else if w < PI_3_2_FX as int {
        -spec_sinq(w - PI_FX as int)
    } else {
        -spec_sinq(TWO_PI_FX as int - w)
    }
}

/// Approximate cosine via the shift `cos a = sin (a + pi/2)`.
pub open spec fn spec_cos(a: int) -> int {
    spec_sin(a + HALF_PI_FX as int)
}

/// Quarter-wave sine polynomial.
fn sinq(r: i64) -> (s: i64)
    requires
        0 <= r <= HALF_PI_FX,
    ensures
        s as int == spec_sinq(r as int),
        0 <= s <= FP,
{
    let r2 = fmul(r, r);
    proof {
        lemma_sfmul_bound(r as int, r as int, HALF_PI_FX as int, HALF_PI_FX as int);
        assert(((HALF_PI_FX as int) * (HALF_PI_FX as int)) / (FP as int) == 161704)
            by (nonlinear_arith);
    }
    let r3 = fmul(r2, r);
    proof {
        lemma_sfmul_bound(r2 as int, r as int, 161704, HALF_PI_FX as int);
        assert((161704 * (HALF_PI_FX as int)) / (FP as int) == 254004) by (nonlinear_arith);
    }
    let r5 = fmul(r3, r2);
    proof {
        lemma_sfmul_bound(r3 as int, r2 as int, 254004, 161704);
        assert((254004 * 161704int) / (FP as int) == 626731) by (nonlinear_arith);
    }
    let d3 = ((r3 as u64) / 6) as i64;
    let d5 = ((r5 as u64) / 120) as i64;
    proof {
        assert((r3 as u64) as int / 6 <= r3 as int) by (nonlinear_arith)
            requires (r3 as u64) as int == r3 as int && r3 as int >= 0;
        assert((r5 as u64) as int / 120 <= r5 as int) by (nonlinear_arith)
            requires (r5 as u64) as int == r5 as int && r5 as int >= 0;
    }
    clamp_fx(r - d3 + d5, 0, FP)
}

/// Approximate fixed-point sine.
pub fn sin_fx(a: i64) -> (s: i64)
    requires
        -TWO_PI_FX < a < 2 * TWO_PI_FX,
    ensures
        s as int == spec_sin(a as int),
        -FP <= s <= FP,
{
    let w = if a < 0 {
        a + TWO_PI_FX
    } else if a >= TWO_PI_FX {
        a - TWO_PI_FX
    } else {
        a
    };
    if w < HALF_PI_FX {
        sinq(w)
    } else if w < PI_FX {
        sinq(PI_FX - w)
    } else if w < PI_3_2_FX {
        -sinq(w - PI_FX)
    } else {
        -sinq(TWO_PI_FX - w)
    }
}

/// Approximate fixed-point cosine.
pub fn cos_fx(a: i64) -> (c: i64)
    requires
        -TWO_PI_FX < a < 2 * TWO_PI_FX - HALF_PI_FX,
    ensures
        c as int == spec_cos(a as int),
        -FP <= c <= FP,
{
    sin_fx(a + HALF_PI_FX)
}

#[derive(Clone, Copy, PartialEq, Eq, Structural, Debug)]
pub struct Camera {
    pub position: Vec3,
    pub center: Vec3,
    pub up: Vec3,
    pub yaw: i64,
    pub pitch: i64,
    pub radius: i64,
    pub right: Vec3,
    pub upv: Vec3,
    pub forward: Vec3,
}

/// A camera the renderer accepts.
pub open spec fn wf_camera(c: Camera) -> bool {
    &&& in_range(c.position, POS_MAX as int)
    &&& in_range(c.center, RADIUS_MAX as int)
    &&& in_range(c.up, FP as int)
    &&& 0 <= c.yaw < TWO_PI_FX
    &&& -PITCH_LIMIT <= c.pitch <= PITCH_LIMIT
    &&& 1 <= c.radius <= RADIUS_MAX
    &&& in_range(c.right, FP as int)
    &&& in_range(c.upv, FP as int)
    &&& in_range(c.forward, FP as int)
}

/// The unit direction from the orbit center toward the camera, from the
/// yaw/pitch angles.
pub open spec fn spec_orbit_dir(yaw: int, pitch: int) -> Vec3 {
    let sy = spec_sin(yaw);
    let cy = spec_cos(yaw);
    let sp = spec_sin(pitch);
    let cp = spec_cos(pitch);
    Vec3 { x: sfmul(cp, sy) as i64, y: sp as i64, z: sfmul(cp, cy) as i64 }
}

/// The camera after one orbit step: yaw advanced and wrapped, pitch
/// advanced and clamped to the pole-avoidance limit, position moved on the
/// orbit sphere, and the basis rebuilt to look at the center.  Degenerate
/// intermediates (a zero offset or a zero cross product) leave the
/// corresponding stored value unchanged.
pub open spec fn spec_orbit(c: Camera, yaw_delta: int, pitch_delta: int) -> Camera {
    let ny = spec_wrap(c.yaw + yaw_delta);
    let np = sclamp(c.pitch + pitch_delta, -PITCH_LIMIT as int, PITCH_LIMIT as int);
    let dirv = spec_orbit_dir(ny, np);
    let off = Vec3 {
        x: sfmul(dirv.x as int, c.radius as int) as i64,
        y: sfmul(dirv.y as int, c.radius as int) as i64,
        z: sfmul(dirv.z as int, c.radius as int) as i64,
    };
    if off.x == 0 && off.y == 0 && off.z == 0 {
        Camera { yaw: ny as i64, pitch: np as i64, ..c }
    } else {
        let npos = Vec3 {
            x: (c.center.x as int + off.x as int) as i64,
            y: (c.center.y as int + off.y as int) as i64,
            z: (c.center.z as int + off.z as int) as i64,
        };
        let fvec = Vec3 {
            x: (c.center.x as int - npos.x as int) as i64,
            y: (c.center.y as int - npos.y as int) as i64,
            z: (c.center.z as int - npos.z as int) as i64,
        };
        let fwn = snormalize(fvec);
        let forward = Vec3 { x: fwn.0 as i64, y: fwn.1 as i64, z: fwn.2 as i64 };
        let r0 = spec_cross(forward, c.up);
        let right = if r0.x == 0 && r0.y == 0 && r0.z == 0 {
            c.right
        } else {
            let rn = snormalize(r0);
            Vec3 { x: rn.0 as i64, y: rn.1 as i64, z: rn.2 as i64 }
        };
        let u0 = spec_cross(right, forward);
        let upv = if u0.x == 0 && u0.y == 0 && u0.z == 0 {
            c.upv
        } else {
            let un = snormalize(u0);
            Vec3 { x: un.0 as i64, y: un.1 as i64, z: un.2 as i64 }
        };
        Camera {
            position: npos,
            yaw: ny as i64,
            pitch: np as i64,
            right,
            upv,
            forward,
            ..c
        }
    }
}

/// Fixed-point cross product as a `Vec3`.
pub open spec fn spec_cross(a: Vec3, b: Vec3) -> Vec3 {
    Vec3 {
        x: (sfmul(a.y as int, b.z as int) - sfmul(a.z as int, b.y as int)) as i64,
        y: (sfmul(a.z as int, b.x as int) - sfmul(a.x as int, b.z as int)) as i64,
        z: (sfmul(a.x as int, b.y as int) - sfmul(a.y as int, b.x as int)) as i64,
    }
}

/// The world-space unit direction of the camera-space direction `d`
/// (camera space looks down `-z`): `d.x right + d.y up - d.z forward`,
/// normalized; zero where the combination degenerates.
pub open spec fn spec_basis_change(c: Camera, d: Vec3) -> Vec3 {
    let w = Vec3 {
        x: (sfmul(c.right.x as int, d.x as int) + sfmul(c.upv.x as int, d.y as int) - sfmul(
            c.forward.x as int,
            d.z as int,
        )) as i64,
        y: (sfmul(c.right.y as int, d.x as int) + sfmul(c.upv.y as int, d.y as int) - sfmul(
            c.forward.y as int,
            d.z as int,
        )) as i64,
        z: (sfmul(c.right.z as int, d.x as int) + sfmul(c.upv.z as int, d.y as int) - sfmul(
            c.forward.z as int,
            d.z as int,
        )) as i64,
    };
    if w.x == 0 && w.y == 0 && w.z == 0 {
        w
    } else {
        let wn = snormalize(w);
        Vec3 { x: wn.0 as i64, y: wn.1 as i64, z: wn.2 as i64 }
    }
}

impl Camera {
    /// A camera at `eye` orbiting `center`, which must lie straight down
    /// the `-z` axis from `eye` (yaw and pitch start at zero), with the
    /// given up reference.
    pub fn new(eye: Vec3, center: Vec3, up: Vec3) -> (c: Camera)
        requires
            in_range(center, RADIUS_MAX as int),
            eye.x == center.x,
            eye.y == center.y,
            center.z < eye.z,
            eye.z - center.z <= RADIUS_MAX,
            in_range(up, FP as int),
            !(up.x == 0 && up.y == 0),
        ensures
            c.position == eye,
            c.center == center,
            c.up == up,
            c.yaw == 0,
            c.pitch == 0,
            c.radius == eye.z - center.z,
            wf_camera(c),
    {
        let radius = eye.z - center.z;
        let fvec = center.sub(eye);
        let forward = fvec.normalize();
        let r0 = forward.cross(up);
        proof {
            assert(in_range(eye, POS_MAX as int));
        }
        let right = if r0.x == 0 && r0.y == 0 && r0.z == 0 {
            Vec3 { x: FP, y: 0, z: 0 }
        } else {
            r0.normalize()
        };
        let u0 = right.cross(forward);
        let upv = if u0.x == 0 && u0.y == 0 && u0.z == 0 {
            up
        } else {
            u0.normalize()
        };
        Camera {
            position: eye,
            center,
            up,
            yaw: 0,
            pitch: 0,
            radius,
            right,
            upv,
            forward,
        }
    }

    /// Advance the viewing angles by the given deltas.  The accumulated
    /// pitch is clamped to `PITCH_LIMIT`, so repeated orbits can never push
    /// it past the pole-avoidance bound.
    #[verifier::rlimit(100)]
    #[verifier::spinoff_prover]
    pub fn orbit(&mut self, yaw_delta: i64, pitch_delta: i64)
        requires
            wf_camera(*old(self)),
            -TWO_PI_FX < yaw_delta < TWO_PI_FX,
            -TWO_PI_FX < pitch_delta < TWO_PI_FX,
        ensures
            *final(self) == spec_orbit(*old(self), yaw_delta as int, pitch_delta as int),
            wf_camera(*final(self)),
            -PITCH_LIMIT <= final(self).pitch <= PITCH_LIMIT,
            final(self).center == old(self).center,
            final(self).radius == old(self).radius,
            final(self).up == old(self).up,
    {
        let ny = {
            let t = self.yaw + yaw_delta;
            if t < 0 {
                t + TWO_PI_FX
            } else if t >= TWO_PI_FX {
                t - TWO_PI_FX
            } else {
                t
            }
        };
        let np = clamp_fx(self.pitch + pitch_delta, -PITCH_LIMIT, PITCH_LIMIT);
        let sy = sin_fx(ny);
        let cy = cos_fx(ny);
        let sp = sin_fx(np);
        let cp = cos_fx(np);
        let dirv = Vec3 { x: fmul(cp, sy), y: sp, z: fmul(cp, cy) };
        let off = dirv.scale(self.radius);
        proof {
            assert(dirv == spec_orbit_dir(ny as int, np as int));
            assert(in_range(dirv, FP as int));
            assert(in_range(off, self.radius as int));
        }
        if off.x == 0 && off.y == 0 && off.z == 0 {
            self.yaw = ny;
            self.pitch = np;
            return;
        }
        let npos = self.center.add(off);
        let fvec = self.center.sub(npos);
        proof {
            assert(in_range(npos, POS_MAX as int));
            assert(!(fvec.x == 0 && fvec.y == 0 && fvec.z == 0));
        }
        let forward = fvec.normalize();
        let r0 = forward.cross(self.up);
        let right = if r0.x == 0 && r0.y == 0 && r0.z == 0 {
            self.right
        } else {
            r0.normalize()
        };
        let u0 = right.cross(forward);
        let upv = if u0.x == 0 && u0.y == 0 && u0.z == 0 {
            self.upv
        } else {
            u0.normalize()
        };
        self.position = npos;
        self.yaw = ny;
        self.pitch = np;
        self.right = right;
        self.upv = upv;
        self.forward = forward;
    }

    /// Map a camera-space direction into world space through the current
    /// basis, returning a unit-length direction (or zero on a degenerate
    /// input).
    pub fn basis_change(&self, d: &Vec3) -> (w: Vec3)
        requires
            wf_camera(*self),
            in_range(*d, 0x1000_0000int),
        ensures
            w == spec_basis_change(*self, *d),
            in_range(w, FP as int),
    {
        let wx = fmul(self.right.x, d.x) + fmul(self.upv.x, d.y) - fmul(self.forward.x, d.z);
        let wy = fmul(self.right.y, d.x) + fmul(self.upv.y, d.y) - fmul(self.forward.y, d.z);
        let wz = fmul(self.right.z, d.x) + fmul(self.upv.z, d.y) - fmul(self.forward.z, d.z);
        let w = Vec3 { x: wx, y: wy, z: wz };
        proof {
            assert(in_range(w, 3 * 0x1000_0000int));
        }
        if w.x == 0 && w.y == 0 && w.z == 0 {
            w
        } else {
            w.normalize()
        }
    }
}

} // verus!
