//! Axis-aligned cubes and their slab-method ray intersection.

use vstd::prelude::*;
use crate::fixed::{FP, sfmul, sfdiv, sclamp, sabs, tzdiv, fmul, fdiv, clamp_fx};
use crate::vec3::{Vec3, in_range};
use crate::ray_intersect::{Intersect, spec_empty};
use crate::material::{Material, wf_material};
use crate::light::POS_MAX;

verus! {

/// Hits closer than this along the ray are discarded, to avoid
/// self-intersection of secondary rays (about `1e-4` in fixed point).
pub const RAY_EPS: i64 = 7;

/// Hits farther than this along the ray are discarded (machine range
/// guard; far outside any scene the other bounds admit).
pub const T_MAX: i64 = 0x4000_0000;

/// Largest coordinate magnitude accepted for a ray origin: scene points
/// plus the small bias applied to secondary-ray origins.
pub const ORIG_MAX: i64 = 0x200_0010;

/// Sentinel below every slab entry distance.
pub const T_NEG: i64 = -0x4000_0000_0000_0000;

/// Sentinel above every slab exit distance.
pub const T_POS: i64 = 0x4000_0000_0000_0000;

/// What one coordinate axis contributes to the slab interval: the ray can
/// miss the slab outright, run inside it unconstrained, or cross it over a
/// parametric range (entry, exit, sign of the direction component).
#[derive(Clone, Copy, PartialEq, Eq, Structural, Debug)]
pub enum AxisSlab {
    Miss,
    Free,
    Range(i64, i64, i64),
}

#[derive(Clone, Debug)]
pub struct Cube {
    pub center: Vec3,
    pub size: i64,
    pub material: Material,
}

/// A cube the renderer accepts: center within the scene range, half-extent
/// positive and bounded, material well formed.
pub open spec fn wf_cube(c: Cube) -> bool {
    &&& in_range(c.center, POS_MAX as int)
    &&& 1 <= c.size <= POS_MAX
    &&& wf_material(c.material)
}

/// Slab interval of one axis: planes at `lo` and `hi`, ray coordinate `o`,
/// direction component `d`.
pub open spec fn spec_axis_slab(lo: int, hi: int, o: int, d: int) -> AxisSlab {
    if d == 0 {
        if o <= lo || o >= hi {
            AxisSlab::Miss
        } else {
            AxisSlab::Free
        }
    } else {
        let t1 = sfdiv(lo - o, d);
        let t2 = sfdiv(hi - o, d);
        if d > 0 {
            AxisSlab::Range(t1 as i64, t2 as i64, 1i64)
        } else {
            AxisSlab::Range(t2 as i64, t1 as i64, -1i64)
        }
    }
}

/// Keep the later slab entry: `(tn, na, ns)` is the best entry so far
/// (distance, axis, direction sign), `axis` the axis of `s`.
pub open spec fn spec_merge_near(tn: int, na: int, ns: int, s: AxisSlab, axis: int) -> (
    int,
    int,
    int,
) {
    match s {
        AxisSlab::Range(a, b, sg) => if a as int > tn {
            (a as int, axis, sg as int)
        } else {
            (tn, na, ns)
        },
        _ => (tn, na, ns),
    }
}

/// Keep the earlier slab exit.
pub open spec fn spec_merge_far(tf: int, fa: int, fs: int, s: AxisSlab, axis: int) -> (
    int,
    int,
    int,
) {
    match s {
        AxisSlab::Range(a, b, sg) => if (b as int) < tf {
            (b as int, axis, sg as int)
        } else {
            (tf, fa, fs)
        },
        _ => (tf, fa, fs),
    }
}

/// The record for a hit at distance `t` on the face of `c` crossing `axis`,
/// with outward normal `nsign` on that axis; the empty record where the hit
/// falls outside the machine range guards.
pub open spec fn spec_hit_at(c: Cube, orig: Vec3, dir: Vec3, t: int, axis: int, nsign: int)
    -> Intersect {
    if t > T_MAX as int {
        spec_empty()
    } else {
        let px = orig.x as int + sfmul(t, dir.x as int);
        let py = orig.y as int + sfmul(t, dir.y as int);
        let pz = orig.z as int + sfmul(t, dir.z as int);
        if sabs(px) > POS_MAX as int || sabs(py) > POS_MAX as int || sabs(pz) > POS_MAX as int {
            spec_empty()
        } else {
            let lox = c.center.x as int - c.size as int;
            let loy = c.center.y as int - c.size as int;
            let loz = c.center.z as int - c.size as int;
            let side = 2 * c.size as int;
            let normal = if axis == 0 {
                Vec3 { x: (nsign * FP as int) as i64, y: 0, z: 0 }
            } else if axis == 1 {
                Vec3 { x: 0, y: (nsign * FP as int) as i64, z: 0 }
            } else {
                Vec3 { x: 0, y: 0, z: (nsign * FP as int) as i64 }
            };
            let u = if axis == 0 {
                sclamp(sfdiv(pz - loz, side), 0, FP as int)
            } else if axis == 1 {
                sclamp(sfdiv(px - lox, side), 0, FP as int)
            } else {
                sclamp(sfdiv(px - lox, side), 0, FP as int)
            };
            let v = if axis == 0 {
                sclamp(sfdiv(py - loy, side), 0, FP as int)
            } else if axis == 1 {
                sclamp(sfdiv(pz - loz, side), 0, FP as int)
            } else {
                sclamp(sfdiv(py - loy, side), 0, FP as int)
            };
            Intersect {
                is_intersecting: true,
                point: Vec3 { x: px as i64, y: py as i64, z: pz as i64 },
                normal,
                distance: t as i64,
                uv: Some((u as i64, v as i64)),
            }
        }
    }
}

/// Full slab intersection of a ray with a cube.
pub open spec fn spec_ray_intersect(c: Cube, orig: Vec3, dir: Vec3) -> Intersect {
    if dir.x == 0 && dir.y == 0 && dir.z == 0 {
        spec_empty()
    } else {
        let sx = spec_axis_slab(
            c.center.x as int - c.size as int,
            c.center.x as int + c.size as int,
            orig.x as int,
            dir.x as int,
        );
        let sy = spec_axis_slab(
            c.center.y as int - c.size as int,
            c.center.y as int + c.size as int,
            orig.y as int,
            dir.y as int,
        );
        let sz = spec_axis_slab(
            c.center.z as int - c.size as int,
            c.center.z as int + c.size as int,
            orig.z as int,
            dir.z as int,
        );
        if sx is Miss || sy is Miss || sz is Miss {
            spec_empty()
        } else {
            let m1 = spec_merge_near(T_NEG as int, 3, 0, sx, 0);
            let m2 = spec_merge_near(m1.0, m1.1, m1.2, sy, 1);
            let m3 = spec_merge_near(m2.0, m2.1, m2.2, sz, 2);
            let f1 = spec_merge_far(T_POS as int, 3, 0, sx, 0);
            let f2 = spec_merge_far(f1.0, f1.1, f1.2, sy, 1);
            let f3 = spec_merge_far(f2.0, f2.1, f2.2, sz, 2);
            if m3.0 >= f3.0 {
                spec_empty()
            } else if m3.0 > RAY_EPS as int {
                spec_hit_at(c, orig, dir, m3.0, m3.1, -m3.2)
            } else if f3.0 > RAY_EPS as int {
                spec_hit_at(c, orig, dir, f3.0, f3.1, f3.2)
            } else {
                spec_empty()
            }
        }
    }
}

/// Slab interval of one axis.
fn axis_slab(lo: i64, hi: i64, o: i64, d: i64) -> (r: AxisSlab)
    requires
        sabs(lo as int) <= 2 * POS_MAX as int,
        sabs(hi as int) <= 2 * POS_MAX as int,
        sabs(o as int) <= ORIG_MAX as int,
        sabs(d as int) <= FP as int,
    ensures
        r == spec_axis_slab(lo as int, hi as int, o as int, d as int),
{
    if d == 0 {
        if o <= lo || o >= hi {
            AxisSlab::Miss
        } else {
            AxisSlab::Free
        }
    } else {
        let t1 = fdiv(lo - o, d);
        let t2 = fdiv(hi - o, d);
        if d > 0 {
            AxisSlab::Range(t1, t2, 1)
        } else {
            AxisSlab::Range(t2, t1, -1)
        }
    }
}

fn merge_near(tn: i64, na: usize, ns: i64, s: &AxisSlab, axis: usize) -> (r: (i64, usize, i64))
    requires
        axis <= 2,
    ensures
        (r.0 as int, r.1 as int, r.2 as int) == spec_merge_near(
            tn as int,
            na as int,
            ns as int,
            *s,
            axis as int,
        ),
{
    match s {
        AxisSlab::Range(a, b, sg) => {
            if *a > tn {
                (*a, axis, *sg)
            } else {
                (tn, na, ns)
            }
        },
        _ => (tn, na, ns),
    }
}

fn merge_far(tf: i64, fa: usize, fs: i64, s: &AxisSlab, axis: usize) -> (r: (i64, usize, i64))
    requires
        axis <= 2,
    ensures
        (r.0 as int, r.1 as int, r.2 as int) == spec_merge_far(
            tf as int,
            fa as int,
            fs as int,
            *s,
            axis as int,
        ),
{
    match s {
        AxisSlab::Range(a, b, sg) => {
            if *b < tf {
                (*b, axis, *sg)
            } else {
                (tf, fa, fs)
            }
        },
        _ => (tf, fa, fs),
    }
}

impl Cube {
    /// The nearest valid forward hit of the ray with this cube, or the
    /// empty record.  Tangent (zero-width) slab intervals, hits closer than
    /// `RAY_EPS`, and hits outside the machine range guards all report no
    /// hit.
    pub fn ray_intersect(&self, orig: &Vec3, dir: &Vec3) -> (it: Intersect)
        requires
            wf_cube(*self),
            in_range(*orig, ORIG_MAX as int),
            in_range(*dir, FP as int),
        ensures
            it == spec_ray_intersect(*self, *orig, *dir),
            it.is_intersecting ==> RAY_EPS < it.distance <= T_MAX,
            it.is_intersecting ==> in_range(it.point, POS_MAX as int),
            it.is_intersecting ==> in_range(it.normal, FP as int),
            it.is_intersecting ==> (it.uv matches Some(uv) && 0 <= uv.0 <= FP && 0 <= uv.1 <= FP),
            !it.is_intersecting ==> it == spec_empty(),
    {
        if dir.x == 0 && dir.y == 0 && dir.z == 0 {
            return Intersect::empty();
        }
        let sx = axis_slab(self.center.x - self.size, self.center.x + self.size, orig.x, dir.x);
        let sy = axis_slab(self.center.y - self.size, self.center.y + self.size, orig.y, dir.y);
        let sz = axis_slab(self.center.z - self.size, self.center.z + self.size, orig.z, dir.z);
        if matches!(sx, AxisSlab::Miss) || matches!(sy, AxisSlab::Miss) || matches!(
            sz,
            AxisSlab::Miss,
        ) {
            return Intersect::empty();
        }
        let m1 = merge_near(T_NEG, 3, 0, &sx, 0);
        let m2 = merge_near(m1.0, m1.1, m1.2, &sy, 1);
        let m3 = merge_near(m2.0, m2.1, m2.2, &sz, 2);
        let f1 = merge_far(T_POS, 3, 0, &sx, 0);
        let f2 = merge_far(f1.0, f1.1, f1.2, &sy, 1);
        let f3 = merge_far(f2.0, f2.1, f2.2, &sz, 2);
        if m3.0 >= f3.0 {
            Intersect::empty()
        } else if m3.0 > RAY_EPS {
            self.hit_at(orig, dir, m3.0, m3.1, -m3.2)
        } else if f3.0 > RAY_EPS {
            self.hit_at(orig, dir, f3.0, f3.1, f3.2)
        } else {
            Intersect::empty()
        }
    }

    fn hit_at(&self, orig: &Vec3, dir: &Vec3, t: i64, axis: usize, nsign: i64) -> (it: Intersect)
        requires
            wf_cube(*self),
            in_range(*orig, ORIG_MAX as int),
            in_range(*dir, FP as int),
            RAY_EPS < t,
            nsign == 1 || nsign == -1,
            axis <= 2,
        ensures
            it == spec_hit_at(*self, *orig, *dir, t as int, axis as int, nsign as int),
            it.is_intersecting ==> RAY_EPS < it.distance <= T_MAX,
            it.is_intersecting ==> in_range(it.point, POS_MAX as int),
            it.is_intersecting ==> in_range(it.normal, FP as int),
            it.is_intersecting ==> (it.uv matches Some(uv) && 0 <= uv.0 <= FP && 0 <= uv.1 <= FP),
            !it.is_intersecting ==> it == spec_empty(),
    {
        if t > T_MAX {
            return Intersect::empty();
        }
        let px = orig.x + fmul(t, dir.x);
        let py = orig.y + fmul(t, dir.y);
        let pz = orig.z + fmul(t, dir.z);
        if px > POS_MAX || px < -POS_MAX || py > POS_MAX || py < -POS_MAX || pz > POS_MAX || pz
            < -POS_MAX {
            return Intersect::empty();
        }
        let lox = self.center.x - self.size;
        let loy = self.center.y - self.size;
        let loz = self.center.z - self.size;
        let side = 2 * self.size;
        let normal = if axis == 0 {
            Vec3 { x: nsign * FP, y: 0, z: 0 }
        } else if axis == 1 {
            Vec3 { x: 0, y: nsign * FP, z: 0 }
        } else {
            Vec3 { x: 0, y: 0, z: nsign * FP }
        };
        let u = if axis == 0 {
            clamp_fx(fdiv(pz - loz, side), 0, FP)
        } else {
            clamp_fx(fdiv(px - lox, side), 0, FP)
        };
        let v = if axis == 0 {
            clamp_fx(fdiv(py - loy, side), 0, FP)
        } else if axis == 1 {
            clamp_fx(fdiv(pz - loz, side), 0, FP)
        } else {
            clamp_fx(fdiv(py - loy, side), 0, FP)
        };
        Intersect {
            is_intersecting: true,
            point: Vec3 { x: px, y: py, z: pz },
            normal,
            distance: t,
            uv: Some((u, v)),
        }
    }
}


/// A ray down the `-z` axis from `(0, 0, 10)` at a cube centered at the
/// origin with half-extent `h` hits the `+z` face: distance `10 - h`,
/// outward normal `(0, 0, 1)`.
pub proof fn lemma_head_on_hit(c: Cube, h: i64)
    requires
        wf_cube(c),
        c.center == (Vec3 { x: 0, y: 0, z: 0 }),
        c.size == h,
        RAY_EPS < 10 * FP - h,
    ensures
        ({
            let it = spec_ray_intersect(
                c,
                Vec3 { x: 0, y: 0, z: 655360 },
                Vec3 { x: 0, y: 0, z: -65536i64 },
            );
            &&& it.is_intersecting
            &&& it.distance == 10 * FP - h
            &&& it.normal == (Vec3 { x: 0, y: 0, z: FP })
            &&& it.point == (Vec3 { x: 0, y: 0, z: h })
        }),
{
    let orig = Vec3 { x: 0, y: 0, z: 655360 };
    let dir = Vec3 { x: 0, y: 0, z: -65536i64 };
    let lo = -(h as int);
    let hi = h as int;
    let o = 10 * FP as int;
    assert(1 <= h as int);
    assert(!(0int <= lo));
    assert(!(0int >= hi));
    assert(spec_axis_slab(lo, hi, 0, 0) == AxisSlab::Free);
    assert(spec_axis_slab(lo, hi, o, -(FP as int)) == AxisSlab::Range(
        ((o - h) as i64),
        ((o + h) as i64),
        -1i64,
    )) by {
        assert(sfdiv(lo - o, -(FP as int)) == tzdiv((o + h) * (FP as int), FP as int));
        assert(((o + h) * (FP as int)) / (FP as int) == o + h) by (nonlinear_arith)
            requires o + h >= 0 && FP as int > 0;
        assert(sfdiv(hi - o, -(FP as int)) == tzdiv((o - h) * (FP as int), FP as int));
        assert(((o - h) * (FP as int)) / (FP as int) == o - h) by (nonlinear_arith)
            requires o - h >= 0 && FP as int > 0;
    }
    let t = o - h;
    assert(spec_hit_at(c, orig, dir, t, 2, 1) == (Intersect {
        is_intersecting: true,
        point: Vec3 { x: 0, y: 0, z: h },
        normal: Vec3 { x: 0, y: 0, z: FP },
        distance: (t as i64),
        uv: spec_hit_at(c, orig, dir, t, 2, 1).uv,
    })) by {
        assert(sfmul(t, -(FP as int)) == tzdiv(-(t * (FP as int)), FP as int));
        assert((t * (FP as int)) / (FP as int) == t) by (nonlinear_arith)
            requires t >= 0 && FP as int > 0;
        assert(sfmul(t, 0) == 0);
    }
}

/// A ray parallel to some axis whose origin lies outside the cube's slab
/// on that axis reports no hit.
pub proof fn lemma_parallel_outside_misses(c: Cube, orig: Vec3, dir: Vec3)
    requires
        (dir.x == 0 && (orig.x as int <= c.center.x as int - c.size as int || orig.x as int
            >= c.center.x as int + c.size as int)) || (dir.y == 0 && (orig.y as int
            <= c.center.y as int - c.size as int || orig.y as int >= c.center.y as int
            + c.size as int)) || (dir.z == 0 && (orig.z as int <= c.center.z as int
            - c.size as int || orig.z as int >= c.center.z as int + c.size as int)),
    ensures
        spec_ray_intersect(c, orig, dir) == spec_empty(),
        !spec_ray_intersect(c, orig, dir).is_intersecting,
{
}

} // verus!
