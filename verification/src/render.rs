//! Shading and ray casting: nearest-hit scan, Phong-style local lighting
//! with soft shadows, and the depth-bounded reflection/refraction recursion
//! for crystal materials.
//!
//! Every executable function returns exactly the value of its spec-level
//! model; the models compose into `spec_cast_ray`, the mathematical
//! definition of what one ray yields.

use vstd::prelude::*;
use vstd::arithmetic::div_mod::lemma_div_is_ordered;
use vstd::arithmetic::mul::lemma_mul_inequality;
use crate::fixed::{
    FP, HALF_FP, sfmul, sfdiv, sclamp, sabs, sqrt_floor, is_sqrt, fmul, fdiv, clamp_fx, isqrt,
    lemma_sfmul_bound,
};
use crate::color::{Color, CH_CEIL, spec_to_hex};
use crate::vec3::{Vec3, in_range, sdot, snorm, snormsq, snormalize, sreflect, lemma_sdot_bound};
use crate::ray_intersect::{Intersect, spec_empty};
use crate::cube::{Cube, wf_cube, spec_ray_intersect, RAY_EPS, T_MAX, ORIG_MAX};
use crate::light::{Light, wf_light, POS_MAX, INTENSITY_MAX};
use crate::material::{Material, spec_sample, SPECULAR_MAX};
use crate::camera::{Camera, wf_camera, spec_basis_change};
use crate::framebuffer::{Framebuffer, wf_framebuffer, FB_SIDE_MAX};
use vstd::arithmetic::div_mod::lemma_div_multiples_vanish;

verus! {

/// Recursion bound: one level of reflection/refraction beyond the primary ray.
pub const MAX_RAY_DEPTH: u32 = 1;

/// Ambient factor: 30% of the base color.
pub const AMBIENT_FX: i64 = 19660;

/// Offset along the normal for secondary-ray origins.
pub const SHADOW_BIAS: i64 = 7;

/// Occluders closer than this along the shadow ray are ignored.
pub const SHADOW_MIN: i64 = 66;

/// Index of refraction of crystal (1.5).
pub const ETA_CRYSTAL: i64 = 98304;

/// Reciprocal index of refraction (1/1.5).
pub const ETA_INV_CRYSTAL: i64 = 43690;

/// Largest accepted number of lights.
pub const LIGHTS_MAX: usize = 4096;

/// Bound on every channel of a color returned by `cast_ray`.
pub const CH_RESULT_MAX: i64 = 0x400_0000_0000;

/// Bound on every channel of one light's contribution.
pub const CONTRIB_MAX: i64 = 534773760;

/// The fixed sky-blue background color.
pub open spec fn spec_background() -> (int, int, int) {
    (135 * FP as int, 206 * FP as int, 235 * FP as int)
}

pub open spec fn wf_objects(objects: Seq<Cube>) -> bool {
    forall|i: int| 0 <= i < objects.len() ==> wf_cube(#[trigger] objects[i])
}

pub open spec fn wf_lights(lights: Seq<Light>) -> bool {
    forall|i: int| 0 <= i < lights.len() ==> wf_light(#[trigger] lights[i])
}

/// A `Vec3` built from mathematical integers.
pub open spec fn vec3i(x: int, y: int, z: int) -> Vec3 {
    Vec3 { x: x as i64, y: y as i64, z: z as i64 }
}

/// Nearest hit among the first `n` objects: index of the winner (or -1)
/// and its record.  An earlier object keeps a tie.
pub open spec fn spec_nearest(objects: Seq<Cube>, orig: Vec3, dir: Vec3, n: int) -> (
    int,
    Intersect,
)
    decreases n,
{
    if n <= 0 {
        (-1, spec_empty())
    } else {
        let prev = spec_nearest(objects, orig, dir, n - 1);
        let it = spec_ray_intersect(objects[n - 1], orig, dir);
        if it.is_intersecting && it.distance < prev.1.distance {
            (n - 1, it)
        } else {
            prev
        }
    }
}

/// The base color a hit is shaded with: the texture sample where the
/// material is textured and the hit carries face coordinates, else the
/// material's diffuse color.
pub open spec fn spec_base_color(m: Material, uv: Option<(i64, i64)>) -> Color {
    if m.texture is Some && uv is Some {
        spec_sample(m.texture->0, (uv->0).0 as int, (uv->0).1 as int)
    } else {
        m.diffuse
    }
}

/// Fixed-point power with a whole exponent.
pub open spec fn spec_pow(base: int, n: nat) -> int
    decreases n,
{
    if n == 0 {
        FP as int
    } else {
        sfmul(base, spec_pow(base, (n - 1) as nat))
    }
}

/// Soft shadow attenuation of an occluder at distance `d` toward a light at
/// distance `l`: `1 - min((d/l)^2, 1)`.
pub open spec fn spec_shadow_intensity(d: int, l: int) -> int {
    let ratio = sfdiv(d, l);
    let sq = sfmul(ratio, ratio);
    FP as int - (if sq > FP as int {
        FP as int
    } else {
        sq
    })
}

/// First occluder along the shadow ray, scanning objects from index `i` on.
pub open spec fn spec_shadow_scan(
    objects: Seq<Cube>,
    sorigin: Vec3,
    ldir: Vec3,
    ldist: int,
    i: int,
) -> int
    decreases objects.len() - i,
{
    if i < 0 || i >= objects.len() {
        0
    } else {
        let s = spec_ray_intersect(objects[i], sorigin, ldir);
        if s.is_intersecting && s.distance > SHADOW_MIN && (s.distance as int) < ldist {
            spec_shadow_intensity(s.distance as int, ldist)
        } else {
            spec_shadow_scan(objects, sorigin, ldir, ldist, i + 1)
        }
    }
}

/// Shadow intensity in `[0, 1]` at a hit (`point`, `normal`) toward `light`.
pub open spec fn spec_cast_shadow(point: Vec3, normal: Vec3, light: Light, objects: Seq<Cube>)
    -> int {
    let lvec = vec3i(
        light.position.x - point.x,
        light.position.y - point.y,
        light.position.z - point.z,
    );
    if lvec.x == 0 && lvec.y == 0 && lvec.z == 0 {
        0
    } else {
        let ln = snormalize(lvec);
        let ldir = vec3i(ln.0, ln.1, ln.2);
        let ldist = snorm(lvec);
        let off = vec3i(
            sfmul(normal.x as int, SHADOW_BIAS as int),
            sfmul(normal.y as int, SHADOW_BIAS as int),
            sfmul(normal.z as int, SHADOW_BIAS as int),
        );
        let sorigin = if sdot(ldir, normal) < 0 {
            vec3i(point.x - off.x, point.y - off.y, point.z - off.z)
        } else {
            vec3i(point.x + off.x, point.y + off.y, point.z + off.z)
        };
        spec_shadow_scan(objects, sorigin, ldir, ldist, 0)
    }
}

/// One light's diffuse plus specular contribution at a hit.
pub open spec fn spec_light_contrib(
    base: Color,
    a0: int,
    a1: int,
    sexp: int,
    point: Vec3,
    normal: Vec3,
    view: Vec3,
    light: Light,
    objects: Seq<Cube>,
) -> (int, int, int) {
    let lvec = vec3i(
        light.position.x - point.x,
        light.position.y - point.y,
        light.position.z - point.z,
    );
    if lvec.x == 0 && lvec.y == 0 && lvec.z == 0 {
        (0, 0, 0)
    } else {
        let ln = snormalize(lvec);
        let ldir = vec3i(ln.0, ln.1, ln.2);
        let shadow = spec_cast_shadow(point, normal, light, objects);
        let lit = FP as int - shadow;
        let rl = sreflect(vec3i(-(ldir.x as int), -(ldir.y as int), -(ldir.z as int)), normal);
        let rlv = vec3i(rl.0, rl.1, rl.2);
        let di = sclamp(sdot(normal, ldir), 0, FP as int);
        let si = spec_pow(sclamp(sdot(view, rlv), 0, FP as int), sexp as nat);
        let dr = sfmul(sfmul(sfmul(sfmul(base.r as int, a0), di), light.intensity as int), lit);
        let dg = sfmul(sfmul(sfmul(sfmul(base.g as int, a0), di), light.intensity as int), lit);
        let db = sfmul(sfmul(sfmul(sfmul(base.b as int, a0), di), light.intensity as int), lit);
        let sr = sfmul(sfmul(sfmul(sfmul(light.color.r as int, a1), si), light.intensity as int), lit);
        let sg = sfmul(sfmul(sfmul(sfmul(light.color.g as int, a1), si), light.intensity as int), lit);
        let sb = sfmul(sfmul(sfmul(sfmul(light.color.b as int, a1), si), light.intensity as int), lit);
        (dr + sr, dg + sg, db + sb)
    }
}

/// Ambient plus the contributions of the first `n` lights.
pub open spec fn spec_lighting(
    base: Color,
    a0: int,
    a1: int,
    sexp: int,
    point: Vec3,
    normal: Vec3,
    view: Vec3,
    objects: Seq<Cube>,
    lights: Seq<Light>,
    n: int,
) -> (int, int, int)
    decreases n,
{
    if n <= 0 {
        (
            sfmul(base.r as int, AMBIENT_FX as int),
            sfmul(base.g as int, AMBIENT_FX as int),
            sfmul(base.b as int, AMBIENT_FX as int),
        )
    } else {
        let prev = spec_lighting(base, a0, a1, sexp, point, normal, view, objects, lights, n - 1);
        let c = spec_light_contrib(base, a0, a1, sexp, point, normal, view, lights[n - 1], objects);
        (prev.0 + c.0, prev.1 + c.1, prev.2 + c.2)
    }
}

/// The mirror-reflected secondary ray at a hit: origin (bias-offset) and
/// unit direction; the direction is zero where the reflection degenerates.
pub open spec fn spec_reflect_ray(point: Vec3, normal: Vec3, dir: Vec3) -> (Vec3, Vec3) {
    let rv0 = sreflect(dir, normal);
    let rv = vec3i(rv0.0, rv0.1, rv0.2);
    let rdir = if rv.x == 0 && rv.y == 0 && rv.z == 0 {
        rv
    } else {
        let rn = snormalize(rv);
        vec3i(rn.0, rn.1, rn.2)
    };
    let off = vec3i(
        sfmul(normal.x as int, SHADOW_BIAS as int),
        sfmul(normal.y as int, SHADOW_BIAS as int),
        sfmul(normal.z as int, SHADOW_BIAS as int),
    );
    let ro = if sdot(rdir, normal) < 0 {
        vec3i(point.x - off.x, point.y - off.y, point.z - off.z)
    } else {
        vec3i(point.x + off.x, point.y + off.y, point.z + off.z)
    };
    (ro, rdir)
}

/// The cosine term the refraction branch starts from.
pub open spec fn spec_cosi(dir: Vec3, normal: Vec3) -> int {
    sclamp(-sdot(dir, normal), -(FP as int), FP as int)
}

/// The refraction discriminant `1 - eta^2 (1 - cos^2)`; negative means
/// total internal reflection.
pub open spec fn spec_refract_k(dir: Vec3, normal: Vec3) -> int {
    let cosi = spec_cosi(dir, normal);
    let eta = if cosi < 0 {
        ETA_CRYSTAL as int
    } else {
        ETA_INV_CRYSTAL as int
    };
    let eta2 = sfmul(eta, eta);
    FP as int - sfmul(eta2, FP as int - sfmul(cosi, cosi))
}

/// The refracted secondary ray (Snell's law, medium chosen by the sign of
/// the cosine); only meaningful where the discriminant is non-negative.
pub open spec fn spec_refract_ray(point: Vec3, normal: Vec3, dir: Vec3) -> (Vec3, Vec3) {
    let cosi = spec_cosi(dir, normal);
    let eta = if cosi < 0 {
        ETA_CRYSTAL as int
    } else {
        ETA_INV_CRYSTAL as int
    };
    let nref = if cosi < 0 {
        vec3i(-(normal.x as int), -(normal.y as int), -(normal.z as int))
    } else {
        normal
    };
    let k = spec_refract_k(dir, normal);
    let sq = sqrt_floor(k * FP as int);
    let coef = sfmul(eta, cosi) - sq;
    let fv = vec3i(
        sfmul(dir.x as int, eta) + sfmul(nref.x as int, coef),
        sfmul(dir.y as int, eta) + sfmul(nref.y as int, coef),
        sfmul(dir.z as int, eta) + sfmul(nref.z as int, coef),
    );
    let fdir = if fv.x == 0 && fv.y == 0 && fv.z == 0 {
        fv
    } else {
        let fn0 = snormalize(fv);
        vec3i(fn0.0, fn0.1, fn0.2)
    };
    let off = vec3i(
        sfmul(normal.x as int, SHADOW_BIAS as int),
        sfmul(normal.y as int, SHADOW_BIAS as int),
        sfmul(normal.z as int, SHADOW_BIAS as int),
    );
    let fo = if sdot(fdir, normal) < 0 {
        vec3i(point.x - off.x, point.y - off.y, point.z - off.z)
    } else {
        vec3i(point.x + off.x, point.y + off.y, point.z + off.z)
    };
    (fo, fdir)
}

/// The color one ray yields: background past the depth bound or on a miss;
/// ambient/diffuse/specular local lighting on an opaque hit; an even blend
/// of the two recursive secondary rays on a crystal hit.
pub open spec fn spec_cast_ray(
    orig: Vec3,
    dir: Vec3,
    objects: Seq<Cube>,
    lights: Seq<Light>,
    depth: int,
) -> (int, int, int)
    decreases MAX_RAY_DEPTH as int + 2 - depth,
{
    if depth > MAX_RAY_DEPTH as int {
        spec_background()
    } else {
        let near = spec_nearest(objects, orig, dir, objects.len() as int);
        if near.0 < 0 {
            spec_background()
        } else {
            let it = near.1;
            let m = objects[near.0].material;
            let base = spec_base_color(m, it.uv);
            let vvec = vec3i(
                orig.x - it.point.x,
                orig.y - it.point.y,
                orig.z - it.point.z,
            );
            let view = if vvec.x == 0 && vvec.y == 0 && vvec.z == 0 {
                vvec
            } else {
                let vn = snormalize(vvec);
                vec3i(vn.0, vn.1, vn.2)
            };
            let local = spec_lighting(
                base,
                m.albedo[0] as int,
                m.albedo[1] as int,
                m.specular as int,
                it.point,
                it.normal,
                view,
                objects,
                lights,
                lights.len() as int,
            );
            if !m.is_crystal {
                local
            } else {
                let rray = spec_reflect_ray(it.point, it.normal, dir);
                let rc = spec_cast_ray(rray.0, rray.1, objects, lights, depth + 1);
                let k = spec_refract_k(dir, it.normal);
                let tc = if k < 0 {
                    (0int, 0int, 0int)
                } else {
                    let fray = spec_refract_ray(it.point, it.normal, dir);
                    spec_cast_ray(fray.0, fray.1, objects, lights, depth + 1)
                };
                (
                    sfmul(rc.0, HALF_FP as int) + sfmul(tc.0, HALF_FP as int),
                    sfmul(rc.1, HALF_FP as int) + sfmul(tc.1, HALF_FP as int),
                    sfmul(rc.2, HALF_FP as int) + sfmul(tc.2, HALF_FP as int),
                )
            }
        }
    }
}

/// The fixed background color.
pub fn background() -> (c: Color)
    ensures
        (c.r as int, c.g as int, c.b as int) == spec_background(),
        0 <= c.r <= CH_RESULT_MAX && 0 <= c.g <= CH_RESULT_MAX && 0 <= c.b <= CH_RESULT_MAX,
{
    Color { r: 135 * FP, g: 206 * FP, b: 235 * FP }
}

/// Fixed-point power with a whole exponent.
fn pow_fx(base: i64, n: i64) -> (r: i64)
    requires
        0 <= base <= FP,
        0 <= n <= SPECULAR_MAX,
    ensures
        r as int == spec_pow(base as int, n as nat),
        0 <= r <= FP,
{
    let mut r: i64 = FP;
    let mut i: i64 = 0;
    while i < n
        invariant
            0 <= i <= n,
            0 <= base <= FP,
            r as int == spec_pow(base as int, i as nat),
            0 <= r <= FP,
        decreases n - i,
    {
        r = fmul(base, r);
        i = i + 1;
    }
    r
}

/// Shadow intensity in `[0, 1]` cast on the hit `intersect` toward `light`:
/// zero if no object stands between the (bias-offset) hit point and the
/// light, else a soft attenuation that grows as the first occluder found
/// sits closer to the hit.
pub fn cast_shadow(intersect: &Intersect, light: &Light, objects: &Vec<Cube>) -> (s: i64)
    requires
        wf_objects(objects@),
        wf_light(*light),
        in_range(intersect.point, POS_MAX as int),
        in_range(intersect.normal, FP as int),
    ensures
        s as int == spec_cast_shadow(intersect.point, intersect.normal, *light, objects@),
        0 <= s <= FP,
{
    let point = intersect.point;
    let normal = intersect.normal;
    let lvec = light.position.sub(point);
    proof {
        assert(lvec == vec3i(
            light.position.x as int - point.x as int,
            light.position.y as int - point.y as int,
            light.position.z as int - point.z as int,
        ));
    }
    if lvec.x == 0 && lvec.y == 0 && lvec.z == 0 {
        return 0;
    }
    let ldir = lvec.normalize();
    let ldist_u = lvec.norm();
    proof {
        assert(snormsq(lvec) <= 3 * (0x400_0000int * 0x400_0000int)) by (nonlinear_arith)
            requires
                sabs(lvec.x as int) <= 0x400_0000int,
                sabs(lvec.y as int) <= 0x400_0000int,
                sabs(lvec.z as int) <= 0x400_0000int;
        assert(ldist_u as int <= 0x800_0000int) by (nonlinear_arith)
            requires
                is_sqrt(ldist_u as int, snormsq(lvec)),
                snormsq(lvec) <= 3 * (0x400_0000int * 0x400_0000int);
    }
    let ldist = ldist_u as i64;
    let off = normal.scale(SHADOW_BIAS);
    let d = ldir.dot(normal);
    let sorigin = if d < 0 {
        point.sub(off)
    } else {
        point.add(off)
    };
    proof {
        assert(ldir == vec3i(snormalize(lvec).0, snormalize(lvec).1, snormalize(lvec).2));
        assert(off == vec3i(
            sfmul(normal.x as int, SHADOW_BIAS as int),
            sfmul(normal.y as int, SHADOW_BIAS as int),
            sfmul(normal.z as int, SHADOW_BIAS as int),
        ));
        assert(sabs(off.x as int) <= SHADOW_BIAS as int);
        assert(sabs(off.y as int) <= SHADOW_BIAS as int);
        assert(sabs(off.z as int) <= SHADOW_BIAS as int);
        assert(in_range(sorigin, ORIG_MAX as int));
        assert(d as int == sdot(vec3i(snormalize(lvec).0, snormalize(lvec).1, snormalize(lvec).2), normal));
        if d < 0 {
            assert(sorigin == vec3i(
                point.x as int - off.x as int,
                point.y as int - off.y as int,
                point.z as int - off.z as int,
            ));
        } else {
            assert(sorigin == vec3i(
                point.x as int + off.x as int,
                point.y as int + off.y as int,
                point.z as int + off.z as int,
            ));
        }
        assert(spec_cast_shadow(point, normal, *light, objects@) == spec_shadow_scan(
            objects@,
            sorigin,
            ldir,
            ldist as int,
            0,
        ));
    }
    let ghost gsorigin = sorigin;
    let ghost gldir = ldir;
    let ghost gldist = ldist as int;
    let mut i: usize = 0;
    while i < objects.len()
        invariant
            i <= objects@.len(),
            wf_objects(objects@),
            in_range(gsorigin, ORIG_MAX as int),
            in_range(gldir, FP as int),
            sorigin == gsorigin,
            ldir == gldir,
            ldist as int == gldist,
            0 <= gldist <= 0x800_0000,
            spec_cast_shadow(intersect.point, intersect.normal, *light, objects@)
                == spec_shadow_scan(objects@, gsorigin, gldir, gldist, i as int),
        decreases objects@.len() - i,
    {
        let o = &objects[i];
        let s = o.ray_intersect(&sorigin, &ldir);
        if s.is_intersecting && s.distance > SHADOW_MIN && s.distance < ldist {
            let ratio = fdiv(s.distance, ldist);
            let sq = fmul(ratio, ratio);
            let capped = if sq > FP {
                FP
            } else {
                sq
            };
            proof {
                assert(sabs(s.distance as int) <= sabs(ldist as int));
                assert(spec_shadow_scan(objects@, gsorigin, gldir, gldist, i as int)
                    == spec_shadow_intensity(s.distance as int, gldist));
            }
            return FP - capped;
        }
        i = i + 1;
    }
    0
}

/// One light's contribution (diffuse plus specular) to the color at a hit.
fn light_contrib(
    base: &Color,
    a0: i64,
    a1: i64,
    sexp: i64,
    point: &Vec3,
    normal: &Vec3,
    view: &Vec3,
    light: &Light,
    objects: &Vec<Cube>,
) -> (c: Color)
    requires
        wf_objects(objects@),
        wf_light(*light),
        0 <= base.r <= CH_CEIL && 0 <= base.g <= CH_CEIL && 0 <= base.b <= CH_CEIL,
        0 <= a0 <= FP,
        0 <= a1 <= FP,
        0 <= sexp <= SPECULAR_MAX,
        in_range(*point, POS_MAX as int),
        in_range(*normal, FP as int),
        in_range(*view, FP as int),
    ensures
        (c.r as int, c.g as int, c.b as int) == spec_light_contrib(
            *base,
            a0 as int,
            a1 as int,
            sexp as int,
            *point,
            *normal,
            *view,
            *light,
            objects@,
        ),
        0 <= c.r <= CONTRIB_MAX && 0 <= c.g <= CONTRIB_MAX && 0 <= c.b <= CONTRIB_MAX,
{
    let lvec = light.position.sub(*point);
    if lvec.x == 0 && lvec.y == 0 && lvec.z == 0 {
        return Color { r: 0, g: 0, b: 0 };
    }
    let ldir = lvec.normalize();
    let hit = Intersect {
        is_intersecting: true,
        point: *point,
        normal: *normal,
        distance: 0,
        uv: None,
    };
    let shadow = cast_shadow(&hit, light, objects);
    let lit = FP - shadow;
    let rlv = ldir.neg().reflect(*normal);
    let di = clamp_fx(normal.dot(ldir), 0, FP);
    let si = pow_fx(clamp_fx(view.dot(rlv), 0, FP), sexp);
    let d1 = fmul(base.r, a0);
    let d2 = fmul(base.g, a0);
    let d3 = fmul(base.b, a0);
    let e1 = fmul(d1, di);
    let e2 = fmul(d2, di);
    let e3 = fmul(d3, di);
    proof {
        lemma_sfmul_bound(e1 as int, light.intensity as int, CH_CEIL as int, INTENSITY_MAX as int);
        lemma_sfmul_bound(e2 as int, light.intensity as int, CH_CEIL as int, INTENSITY_MAX as int);
        lemma_sfmul_bound(e3 as int, light.intensity as int, CH_CEIL as int, INTENSITY_MAX as int);
        assert((CH_CEIL as int * INTENSITY_MAX as int) / (FP as int) == 16 * CH_CEIL as int)
            by (nonlinear_arith);
    }
    let f1 = fmul(e1, light.intensity);
    let f2 = fmul(e2, light.intensity);
    let f3 = fmul(e3, light.intensity);
    let g1 = fmul(f1, lit);
    let g2 = fmul(f2, lit);
    let g3 = fmul(f3, lit);
    let s1 = fmul(light.color.r, a1);
    let s2 = fmul(light.color.g, a1);
    let s3 = fmul(light.color.b, a1);
    let t1 = fmul(s1, si);
    let t2 = fmul(s2, si);
    let t3 = fmul(s3, si);
    proof {
        lemma_sfmul_bound(t1 as int, light.intensity as int, CH_CEIL as int, INTENSITY_MAX as int);
        lemma_sfmul_bound(t2 as int, light.intensity as int, CH_CEIL as int, INTENSITY_MAX as int);
        lemma_sfmul_bound(t3 as int, light.intensity as int, CH_CEIL as int, INTENSITY_MAX as int);
    }
    let u1 = fmul(t1, light.intensity);
    let u2 = fmul(t2, light.intensity);
    let u3 = fmul(t3, light.intensity);
    let v1 = fmul(u1, lit);
    let v2 = fmul(u2, lit);
    let v3 = fmul(u3, lit);
    Color { r: g1 + v1, g: g2 + v2, b: g3 + v3 }
}

/// Nearest hit in the whole object list: found flag, winning index, record.
fn find_nearest(objects: &Vec<Cube>, orig: &Vec3, dir: &Vec3) -> (r: (bool, usize, Intersect))
    requires
        wf_objects(objects@),
        in_range(*orig, ORIG_MAX as int),
        in_range(*dir, FP as int),
    ensures
        ({
            let sn = spec_nearest(objects@, *orig, *dir, objects@.len() as int);
            &&& (r.0 <==> sn.0 >= 0)
            &&& (r.0 ==> r.1 as int == sn.0 && r.1 < objects@.len())
            &&& r.2 == sn.1
            &&& (r.0 <==> r.2.is_intersecting)
            &&& (r.0 ==> RAY_EPS < r.2.distance <= T_MAX && in_range(r.2.point, POS_MAX as int)
                && in_range(r.2.normal, FP as int) && (r.2.uv matches Some(uv) && 0 <= uv.0 <= FP
                && 0 <= uv.1 <= FP))
        }),
{
    let mut best = Intersect::empty();
    let mut best_i: usize = 0;
    let mut found = false;
    let mut i: usize = 0;
    while i < objects.len()
        invariant
            i <= objects@.len(),
            wf_objects(objects@),
            in_range(*orig, ORIG_MAX as int),
            in_range(*dir, FP as int),
            ({
                let sn = spec_nearest(objects@, *orig, *dir, i as int);
                &&& (found <==> sn.0 >= 0)
                &&& (found ==> best_i as int == sn.0 && best_i < i)
                &&& best == sn.1
                &&& (found <==> best.is_intersecting)
                &&& (found ==> RAY_EPS < best.distance <= T_MAX && in_range(
                    best.point,
                    POS_MAX as int,
                ) && in_range(best.normal, FP as int) && (best.uv matches Some(uv) && 0 <= uv.0
                    <= FP && 0 <= uv.1 <= FP))
            }),
        decreases objects@.len() - i,
    {
        let o = &objects[i];
        let it = o.ray_intersect(orig, dir);
        if it.is_intersecting && it.distance < best.distance {
            best = it;
            best_i = i;
            found = true;
        }
        i = i + 1;
    }
    (found, best_i, best)
}

/// Ambient plus every light's contribution at a hit.
fn shade_local(
    base: &Color,
    a0: i64,
    a1: i64,
    sexp: i64,
    point: &Vec3,
    normal: &Vec3,
    view: &Vec3,
    objects: &Vec<Cube>,
    lights: &Vec<Light>,
) -> (c: Color)
    requires
        wf_objects(objects@),
        wf_lights(lights@),
        lights@.len() <= LIGHTS_MAX,
        0 <= base.r <= CH_CEIL && 0 <= base.g <= CH_CEIL && 0 <= base.b <= CH_CEIL,
        0 <= a0 <= FP,
        0 <= a1 <= FP,
        0 <= sexp <= SPECULAR_MAX,
        in_range(*point, POS_MAX as int),
        in_range(*normal, FP as int),
        in_range(*view, FP as int),
    ensures
        (c.r as int, c.g as int, c.b as int) == spec_lighting(
            *base,
            a0 as int,
            a1 as int,
            sexp as int,
            *point,
            *normal,
            *view,
            objects@,
            lights@,
            lights@.len() as int,
        ),
        0 <= c.r <= CH_RESULT_MAX && 0 <= c.g <= CH_RESULT_MAX && 0 <= c.b <= CH_RESULT_MAX,
{
    let mut acc = base.scale(AMBIENT_FX);
    let mut li: usize = 0;
    while li < lights.len()
        invariant
            li <= lights@.len(),
            lights@.len() <= LIGHTS_MAX,
            wf_objects(objects@),
            wf_lights(lights@),
            0 <= base.r <= CH_CEIL && 0 <= base.g <= CH_CEIL && 0 <= base.b <= CH_CEIL,
            0 <= a0 <= FP,
            0 <= a1 <= FP,
            0 <= sexp <= SPECULAR_MAX,
            in_range(*point, POS_MAX as int),
            in_range(*normal, FP as int),
            in_range(*view, FP as int),
            (acc.r as int, acc.g as int, acc.b as int) == spec_lighting(
                *base,
                a0 as int,
                a1 as int,
                sexp as int,
                *point,
                *normal,
                *view,
                objects@,
                lights@,
                li as int,
            ),
            0 <= acc.r <= CH_CEIL + li * (2 * CONTRIB_MAX),
            0 <= acc.g <= CH_CEIL + li * (2 * CONTRIB_MAX),
            0 <= acc.b <= CH_CEIL + li * (2 * CONTRIB_MAX),
        decreases lights@.len() - li,
    {
        let lgt = lights[li];
        let c = light_contrib(base, a0, a1, sexp, point, normal, view, &lgt, objects);
        proof {
            assert(li as int * (2 * CONTRIB_MAX as int) + 2 * CONTRIB_MAX as int == (li as int + 1)
                * (2 * CONTRIB_MAX as int)) by (nonlinear_arith);
            assert(li as int * (2 * CONTRIB_MAX as int) <= LIGHTS_MAX as int * (2
                * CONTRIB_MAX as int)) by (nonlinear_arith)
                requires 0 <= li as int <= LIGHTS_MAX as int;
        }
        acc = acc.add(c);
        li = li + 1;
    }
    proof {
        assert(li as int * (2 * CONTRIB_MAX as int) <= LIGHTS_MAX as int * (2 * CONTRIB_MAX as int))
            by (nonlinear_arith)
            requires 0 <= li as int <= LIGHTS_MAX as int;
    }
    acc
}

/// The bias-offset mirror-reflected secondary ray at a crystal hit.
fn reflect_ray(point: &Vec3, normal: &Vec3, dir: &Vec3) -> (r: (Vec3, Vec3))
    requires
        in_range(*point, POS_MAX as int),
        in_range(*normal, FP as int),
        in_range(*dir, FP as int),
    ensures
        r == spec_reflect_ray(*point, *normal, *dir),
        in_range(r.0, ORIG_MAX as int),
        in_range(r.1, FP as int),
{
    let rv = dir.reflect(*normal);
    proof {
        assert(rv == vec3i(
            sreflect(*dir, *normal).0,
            sreflect(*dir, *normal).1,
            sreflect(*dir, *normal).2,
        ));
    }
    let rdir = if rv.x == 0 && rv.y == 0 && rv.z == 0 {
        rv
    } else {
        rv.normalize()
    };
    let off = normal.scale(SHADOW_BIAS);
    let rd = rdir.dot(*normal);
    let ro = if rd < 0 {
        point.sub(off)
    } else {
        point.add(off)
    };
    proof {
        assert(sabs(off.x as int) <= SHADOW_BIAS as int);
        assert(sabs(off.y as int) <= SHADOW_BIAS as int);
        assert(sabs(off.z as int) <= SHADOW_BIAS as int);
        assert((ro, rdir) == spec_reflect_ray(*point, *normal, *dir));
    }
    (ro, rdir)
}

/// The refraction discriminant at a crystal hit.
fn refract_k(dir: &Vec3, normal: &Vec3) -> (k: i64)
    requires
        in_range(*dir, FP as int),
        in_range(*normal, FP as int),
    ensures
        k as int == spec_refract_k(*dir, *normal),
        -(4 * FP) <= k <= FP,
{
    proof {
        lemma_sdot_bound(*dir, *normal, FP as int, FP as int);
        assert(3 * (((FP as int) * (FP as int)) / (FP as int)) == 3 * FP as int)
            by (nonlinear_arith);
    }
    let cosi = clamp_fx(0 - dir.dot(*normal), -FP, FP);
    let eta = if cosi < 0 {
        ETA_CRYSTAL
    } else {
        ETA_INV_CRYSTAL
    };
    let eta2 = fmul(eta, eta);
    proof {
        lemma_sfmul_bound(eta as int, eta as int, ETA_CRYSTAL as int, ETA_CRYSTAL as int);
        assert(((ETA_CRYSTAL as int) * (ETA_CRYSTAL as int)) / (FP as int) == 147456)
            by (nonlinear_arith);
    }
    let c2 = fmul(cosi, cosi);
    let k = FP - fmul(eta2, FP - c2);
    proof {
        lemma_sfmul_bound(eta2 as int, FP as int - c2 as int, 147456, FP as int);
        assert((147456 * (FP as int)) / (FP as int) == 147456) by (nonlinear_arith);
    }
    k
}

/// The bias-offset refracted secondary ray at a crystal hit; only called
/// where the refraction discriminant is non-negative.
fn refract_ray(point: &Vec3, normal: &Vec3, dir: &Vec3) -> (r: (Vec3, Vec3))
    requires
        in_range(*point, POS_MAX as int),
        in_range(*normal, FP as int),
        in_range(*dir, FP as int),
        spec_refract_k(*dir, *normal) >= 0,
    ensures
        r == spec_refract_ray(*point, *normal, *dir),
        in_range(r.0, ORIG_MAX as int),
        in_range(r.1, FP as int),
{
    proof {
        lemma_sdot_bound(*dir, *normal, FP as int, FP as int);
        assert(3 * (((FP as int) * (FP as int)) / (FP as int)) == 3 * FP as int)
            by (nonlinear_arith);
    }
    let cosi = clamp_fx(0 - dir.dot(*normal), -FP, FP);
    let eta = if cosi < 0 {
        ETA_CRYSTAL
    } else {
        ETA_INV_CRYSTAL
    };
    let nref = if cosi < 0 {
        normal.neg()
    } else {
        *normal
    };
    let k = refract_k(dir, normal);
    let kfp: u128 = ((k as u64) as u128) * ((FP as u64) as u128);
    proof {
        assert(kfp as int == (k as int) * (FP as int)) by (nonlinear_arith)
            requires
                kfp as int == ((k as u64) as u128 as int) * (((FP as u64) as u128) as int),
                0 <= k as int <= FP as int,
                (k as u64) as int == k as int,
                ((FP as u64) as u128) as int == FP as int;
        assert((k as int) * (FP as int) <= (FP as int) * (FP as int)) by (nonlinear_arith)
            requires 0 <= k as int <= FP as int;
    }
    let sq_u = isqrt(kfp);
    proof {
        assert(sq_u as int <= FP as int) by (nonlinear_arith)
            requires
                is_sqrt(sq_u as int, kfp as int),
                kfp as int <= (FP as int) * (FP as int);
    }
    let sq = sq_u as i64;
    let coef = fmul(eta, cosi) - sq;
    let fv = Vec3 {
        x: fmul(dir.x, eta) + fmul(nref.x, coef),
        y: fmul(dir.y, eta) + fmul(nref.y, coef),
        z: fmul(dir.z, eta) + fmul(nref.z, coef),
    };
    let fdir = if fv.x == 0 && fv.y == 0 && fv.z == 0 {
        fv
    } else {
        fv.normalize()
    };
    let off = normal.scale(SHADOW_BIAS);
    let fd = fdir.dot(*normal);
    let fo = if fd < 0 {
        point.sub(off)
    } else {
        point.add(off)
    };
    proof {
        assert(sabs(off.x as int) <= SHADOW_BIAS as int);
        assert(sabs(off.y as int) <= SHADOW_BIAS as int);
        assert(sabs(off.z as int) <= SHADOW_BIAS as int);
        assert((fo, fdir) == spec_refract_ray(*point, *normal, *dir));
    }
    (fo, fdir)
}

/// The color the ray `(ray_origin, ray_direction)` yields in the scene, at
/// recursion depth `depth`.  Past the depth bound, and whenever no object
/// is hit, the result is exactly the background color.
#[verifier::rlimit(60)]
pub fn cast_ray(
    ray_origin: &Vec3,
    ray_direction: &Vec3,
    objects: &Vec<Cube>,
    lights: &Vec<Light>,
    depth: u32,
) -> (c: Color)
    requires
        wf_objects(objects@),
        wf_lights(lights@),
        lights@.len() <= LIGHTS_MAX,
        in_range(*ray_origin, ORIG_MAX as int),
        in_range(*ray_direction, FP as int),
    ensures
        (c.r as int, c.g as int, c.b as int) == spec_cast_ray(
            *ray_origin,
            *ray_direction,
            objects@,
            lights@,
            depth as int,
        ),
        0 <= c.r <= CH_RESULT_MAX && 0 <= c.g <= CH_RESULT_MAX && 0 <= c.b <= CH_RESULT_MAX,
    decreases MAX_RAY_DEPTH as int + 2 - depth as int,
{
    if depth > MAX_RAY_DEPTH {
        return background();
    }
    let near = find_nearest(objects, ray_origin, ray_direction);
    if !near.0 {
        return background();
    }
    let best_i = near.1;
    let best = near.2;
    let obj = &objects[best_i];
    let base = match (&obj.material.texture, &best.uv) {
        (Some(tex), Some(uv)) => tex.sample(uv.0, uv.1),
        _ => obj.material.diffuse,
    };
    proof {
        assert(base == spec_base_color(objects@[best_i as int].material, best.uv));
    }
    let vvec = ray_origin.sub(best.point);
    proof {
        assert(vvec == vec3i(
            ray_origin.x as int - best.point.x as int,
            ray_origin.y as int - best.point.y as int,
            ray_origin.z as int - best.point.z as int,
        ));
    }
    let view = if vvec.x == 0 && vvec.y == 0 && vvec.z == 0 {
        vvec
    } else {
        vvec.normalize()
    };
    let local = shade_local(
        &base,
        obj.material.albedo[0],
        obj.material.albedo[1],
        obj.material.specular,
        &best.point,
        &best.normal,
        &view,
        objects,
        lights,
    );
    if !obj.material.is_crystal {
        return local;
    }
    let rray = reflect_ray(&best.point, &best.normal, ray_direction);
    let rc = cast_ray(&rray.0, &rray.1, objects, lights, depth + 1);
    let k = refract_k(ray_direction, &best.normal);
    let tc = if k < 0 {
        Color { r: 0, g: 0, b: 0 }
    } else {
        let fray = refract_ray(&best.point, &best.normal, ray_direction);
        cast_ray(&fray.0, &fray.1, objects, lights, depth + 1)
    };
    let r = fmul(rc.r, HALF_FP) + fmul(tc.r, HALF_FP);
    let g = fmul(rc.g, HALF_FP) + fmul(tc.g, HALF_FP);
    let b = fmul(rc.b, HALF_FP) + fmul(tc.b, HALF_FP);
    Color { r, g, b }
}


/// Perspective scale: the tangent of half the fixed 60-degree field of view.
pub const PERSPECTIVE_FX: i64 = 37837;

/// The packed color of pixel `(x, y)` in a `w` by `h` framebuffer: map the
/// pixel to normalized screen coordinates, scale by aspect ratio and the
/// perspective factor, rotate the camera-space direction into world space,
/// cast the ray at depth zero, and pack the result.
pub open spec fn spec_render_pixel(
    x: int,
    y: int,
    w: int,
    h: int,
    cam: Camera,
    objects: Seq<Cube>,
    lights: Seq<Light>,
) -> int {
    let sx = sfdiv(2 * x, w) - FP as int;
    let sy = FP as int - sfdiv(2 * y, h);
    let aspect = sfdiv(w, h);
    let sx2 = sfmul(sfmul(sx, aspect), PERSPECTIVE_FX as int);
    let sy2 = sfmul(sy, PERSPECTIVE_FX as int);
    let v = vec3i(sx2, sy2, -(FP as int));
    let dn = snormalize(v);
    let d0 = vec3i(dn.0, dn.1, dn.2);
    let rotated = spec_basis_change(cam, d0);
    let c = spec_cast_ray(cam.position, rotated, objects, lights, 0);
    spec_to_hex(Color { r: c.0 as i64, g: c.1 as i64, b: c.2 as i64 })
}

/// One row of the image, left to right.
pub fn render_row(
    y: usize,
    width: usize,
    height: usize,
    camera: &Camera,
    objects: &Vec<Cube>,
    lights: &Vec<Light>,
) -> (row: Vec<u32>)
    requires
        wf_camera(*camera),
        wf_objects(objects@),
        wf_lights(lights@),
        lights@.len() <= LIGHTS_MAX,
        1 <= width <= FB_SIDE_MAX,
        1 <= height <= FB_SIDE_MAX,
        y < height,
    ensures
        row@.len() == width,
        forall|x: int|
            0 <= x < width ==> row@[x] as int == spec_render_pixel(
                x,
                y as int,
                width as int,
                height as int,
                *camera,
                objects@,
                lights@,
            ),
{
    let wi: i64 = width as i64;
    let hi: i64 = height as i64;
    let yi: i64 = y as i64;
    let syq = fdiv(2 * yi, hi);
    proof {
        lemma_mul_inequality(2 * yi as int, 2 * hi as int, FP as int);
        lemma_div_is_ordered(2 * yi as int * FP as int, 2 * hi as int * FP as int, hi as int);
        lemma_div_multiples_vanish(2 * FP as int, hi as int);
        assert(2 * hi as int * FP as int == hi as int * (2 * FP as int)) by (nonlinear_arith);
        assert(2 * yi as int * FP as int >= 0) by (nonlinear_arith)
            requires yi as int >= 0 && FP as int > 0;
    }
    let sy = FP - syq;
    let sy2 = fmul(sy, PERSPECTIVE_FX);
    let aspect = fdiv(wi, hi);
    let mut row: Vec<u32> = Vec::new();
    let mut x: usize = 0;
    while x < width
        invariant
            x <= width,
            row@.len() == x,
            wf_camera(*camera),
            wf_objects(objects@),
            wf_lights(lights@),
            lights@.len() <= LIGHTS_MAX,
            1 <= width <= FB_SIDE_MAX,
            1 <= height <= FB_SIDE_MAX,
            y < height,
            wi == width && hi == height && yi == y,
            sy as int == FP as int - sfdiv(2 * (y as int), height as int),
            sabs(sy as int) <= FP as int,
            sy2 as int == sfmul(FP as int - sfdiv(2 * (y as int), height as int),
                PERSPECTIVE_FX as int),
            sabs(sy2 as int) <= FP as int,
            aspect as int == sfdiv(width as int, height as int),
            sabs(aspect as int) <= 0x1000_0000int,
            forall|xx: int|
                0 <= xx < x ==> row@[xx] as int == spec_render_pixel(
                    xx,
                    y as int,
                    width as int,
                    height as int,
                    *camera,
                    objects@,
                    lights@,
                ),
        decreases width - x,
    {
        let xi: i64 = x as i64;
        let sxq = fdiv(2 * xi, wi);
        proof {
            lemma_mul_inequality(2 * xi as int, 2 * wi as int, FP as int);
            lemma_div_is_ordered(2 * xi as int * FP as int, 2 * wi as int * FP as int, wi as int);
            lemma_div_multiples_vanish(2 * FP as int, wi as int);
            assert(2 * wi as int * FP as int == wi as int * (2 * FP as int)) by (nonlinear_arith);
            assert(2 * xi as int * FP as int >= 0) by (nonlinear_arith)
                requires xi as int >= 0 && FP as int > 0;
        }
        let sx = sxq - FP;
        let sxa = fmul(sx, aspect);
        let sx2 = fmul(sxa, PERSPECTIVE_FX);
        let v = Vec3 { x: sx2, y: sy2, z: -FP };
        let d0 = v.normalize();
        let rotated = camera.basis_change(&d0);
        let c = cast_ray(&camera.position, &rotated, objects, lights, 0);
        let px = c.to_hex();
        row.push(px);
        x = x + 1;
    }
    row
}

/// Fill the whole framebuffer, row by row, with the scene as seen by the
/// camera.  Rows are independent: each pixel depends only on read-only
/// scene and camera state.
pub fn render(
    framebuffer: &mut Framebuffer,
    objects: &Vec<Cube>,
    camera: &Camera,
    lights: &Vec<Light>,
)
    requires
        wf_framebuffer(*old(framebuffer)),
        wf_camera(*camera),
        wf_objects(objects@),
        wf_lights(lights@),
        lights@.len() <= LIGHTS_MAX,
    ensures
        final(framebuffer).width == old(framebuffer).width,
        final(framebuffer).height == old(framebuffer).height,
        wf_framebuffer(*final(framebuffer)),
        forall|yy: int, xx: int|
            0 <= yy < old(framebuffer).height && 0 <= xx < old(framebuffer).width
                ==> final(framebuffer).buffer@[yy * old(framebuffer).width + xx] as int
                == spec_render_pixel(
                xx,
                yy,
                old(framebuffer).width as int,
                old(framebuffer).height as int,
                *camera,
                objects@,
                lights@,
            ),
{
    let w = framebuffer.width;
    let h = framebuffer.height;
    let mut buf: Vec<u32> = Vec::new();
    let mut y: usize = 0;
    while y < h
        invariant
            y <= h,
            w == framebuffer.width,
            h == framebuffer.height,
            wf_framebuffer(*framebuffer),
            wf_camera(*camera),
            wf_objects(objects@),
            wf_lights(lights@),
            lights@.len() <= LIGHTS_MAX,
            buf@.len() == y * w,
            forall|yy: int, xx: int|
                0 <= yy < y && 0 <= xx < w ==> buf@[yy * w + xx] as int == spec_render_pixel(
                    xx,
                    yy,
                    w as int,
                    h as int,
                    *camera,
                    objects@,
                    lights@,
                ),
        decreases h - y,
    {
        let mut row = render_row(y, w, h, camera, objects, lights);
        let ghost old_buf = buf@;
        let ghost row_view = row@;
        buf.append(&mut row);
        proof {
            assert(buf@.len() == y * w + w);
            assert((y as int + 1) * (w as int) == y as int * w as int + w as int)
                by (nonlinear_arith);
            assert forall|yy: int, xx: int|
                0 <= yy < y as int + 1 && 0 <= xx < w implies buf@[yy * w + xx] as int
                == spec_render_pixel(xx, yy, w as int, h as int, *camera, objects@, lights@) by {
                if yy < y as int {
                    assert(yy * w as int + xx < y as int * w as int) by (nonlinear_arith)
                        requires 0 <= yy <= y as int - 1 && 0 <= xx < w as int;
                    assert(yy * w as int + xx >= 0) by (nonlinear_arith)
                        requires yy >= 0 && xx >= 0 && w as int >= 1;
                    assert(buf@[yy * w + xx] == old_buf[yy * w + xx]);
                } else {
                    assert(yy == y as int);
                    assert(buf@[yy * w + xx] == row_view[yy * w as int + xx - y as int
                        * w as int]);
                    assert(yy * w as int + xx - y as int * w as int == xx);
                }
            }
        }
        y = y + 1;
    }
    proof {
        assert(buf@.len() == h as int * w as int) by (nonlinear_arith)
            requires buf@.len() == y as int * w as int && y as int == h as int;
        assert(h as int * w as int == w as int * h as int) by (nonlinear_arith);
    }
    framebuffer.buffer = buf;
}


/// Moving an occluder closer to the shaded point can only deepen the
/// shadow: the intensity is antitone in the occluder's distance.
pub proof fn lemma_shadow_monotone(d1: int, d2: int, l: int)
    requires
        0 <= d1 <= d2,
        0 < l,
    ensures
        spec_shadow_intensity(d1, l) >= spec_shadow_intensity(d2, l),
{
    let r1 = sfdiv(d1, l);
    let r2 = sfdiv(d2, l);
    lemma_mul_inequality(d1, d2, FP as int);
    lemma_div_is_ordered(d1 * (FP as int), d2 * (FP as int), l);
    assert(d1 * (FP as int) >= 0) by (nonlinear_arith)
        requires d1 >= 0 && FP as int > 0;
    assert(d1 * (FP as int) / l >= 0) by (nonlinear_arith)
        requires d1 * (FP as int) >= 0 && l > 0;
    assert(0 <= r1 <= r2);
    lemma_mul_inequality(r1, r2, r1);
    assert(r1 * r1 <= r2 * r2) by (nonlinear_arith)
        requires 0 <= r1 <= r2;
    lemma_div_is_ordered(r1 * r1, r2 * r2, FP as int);
    assert(r1 * r1 >= 0) by (nonlinear_arith)
        requires r1 >= 0;
    assert(r1 * r1 / (FP as int) >= 0) by (nonlinear_arith)
        requires r1 * r1 >= 0 && FP as int > 0;
    assert(sfmul(r1, r1) <= sfmul(r2, r2));
}

/// Past the depth bound the engine returns exactly the background color.
pub proof fn lemma_background_past_depth(
    orig: Vec3,
    dir: Vec3,
    objects: Seq<Cube>,
    lights: Seq<Light>,
    depth: int,
)
    requires
        depth > MAX_RAY_DEPTH as int,
    ensures
        spec_cast_ray(orig, dir, objects, lights, depth) == spec_background(),
{
}

/// A ray that hits no object returns exactly the background color.
pub proof fn lemma_background_on_miss(
    orig: Vec3,
    dir: Vec3,
    objects: Seq<Cube>,
    lights: Seq<Light>,
    depth: int,
)
    requires
        spec_nearest(objects, orig, dir, objects.len() as int).0 < 0,
    ensures
        spec_cast_ray(orig, dir, objects, lights, depth) == spec_background(),
{
}

/// On a crystal hit within the depth bound, the result is exactly the even
/// blend of the reflected and refracted recursive colors, and the
/// refracted color is black whenever the refraction discriminant is
/// negative.
pub proof fn lemma_crystal_split(
    orig: Vec3,
    dir: Vec3,
    objects: Seq<Cube>,
    lights: Seq<Light>,
    depth: int,
)
    requires
        depth <= MAX_RAY_DEPTH as int,
        spec_nearest(objects, orig, dir, objects.len() as int).0 >= 0,
        objects[spec_nearest(objects, orig, dir, objects.len() as int).0].material.is_crystal,
    ensures
        ({
            let it = spec_nearest(objects, orig, dir, objects.len() as int).1;
            let rray = spec_reflect_ray(it.point, it.normal, dir);
            let rc = spec_cast_ray(rray.0, rray.1, objects, lights, depth + 1);
            let k = spec_refract_k(dir, it.normal);
            let tc = if k < 0 {
                (0int, 0int, 0int)
            } else {
                let fray = spec_refract_ray(it.point, it.normal, dir);
                spec_cast_ray(fray.0, fray.1, objects, lights, depth + 1)
            };
            spec_cast_ray(orig, dir, objects, lights, depth) == (
                sfmul(rc.0, HALF_FP as int) + sfmul(tc.0, HALF_FP as int),
                sfmul(rc.1, HALF_FP as int) + sfmul(tc.1, HALF_FP as int),
                sfmul(rc.2, HALF_FP as int) + sfmul(tc.2, HALF_FP as int),
            )
        }),
{
}


/// A reported hit lies strictly beyond `RAY_EPS` and within `T_MAX`.
pub proof fn lemma_hit_distance_bounded(c: Cube, orig: Vec3, dir: Vec3)
    ensures
        spec_ray_intersect(c, orig, dir).is_intersecting ==> RAY_EPS
            < spec_ray_intersect(c, orig, dir).distance <= T_MAX,
{
}

/// Bookkeeping of the nearest-hit scan: the winning index is in range,
/// the found flag and the record's hit flag agree, and no winner means the
/// empty record.
pub proof fn lemma_nearest_flag(objects: Seq<Cube>, orig: Vec3, dir: Vec3, n: int)
    requires
        0 <= n <= objects.len(),
    ensures
        ({
            let near = spec_nearest(objects, orig, dir, n);
            &&& near.0 < n
            &&& (near.0 >= 0 <==> near.1.is_intersecting)
            &&& (near.0 < 0 ==> near.1 == spec_empty())
            &&& (near.0 >= 0 ==> near.1 == spec_ray_intersect(objects[near.0], orig, dir))
        }),
    decreases n,
{
    if n > 0 {
        lemma_nearest_flag(objects, orig, dir, n - 1);
    }
}

/// The nearest-hit scan really is minimal: no object among the first `n`
/// is hit strictly closer than the winning record.
pub proof fn lemma_nearest_is_minimal(objects: Seq<Cube>, orig: Vec3, dir: Vec3, n: int, j: int)
    requires
        0 <= j < n <= objects.len(),
    ensures
        ({
            let it = spec_ray_intersect(objects[j], orig, dir);
            it.is_intersecting ==> {
                &&& spec_nearest(objects, orig, dir, n).0 >= 0
                &&& spec_nearest(objects, orig, dir, n).1.distance <= it.distance
            }
        }),
    decreases n,
{
    let prev = spec_nearest(objects, orig, dir, n - 1);
    let last = spec_ray_intersect(objects[n - 1], orig, dir);
    lemma_nearest_flag(objects, orig, dir, n - 1);
    lemma_hit_distance_bounded(objects[n - 1], orig, dir);
    if j == n - 1 {
        if last.is_intersecting && !(last.distance < prev.1.distance) {
            assert(prev.1.is_intersecting) by {
                if prev.0 < 0 {
                    assert(prev.1 == spec_empty());
                    assert(last.distance <= T_MAX);
                }
            }
        }
    } else {
        lemma_nearest_is_minimal(objects, orig, dir, n - 1, j);
    }
}

/// The winning record of the nearest-hit scan is the actual intersection
/// of the winning object.
pub proof fn lemma_nearest_is_a_hit(objects: Seq<Cube>, orig: Vec3, dir: Vec3, n: int)
    requires
        0 <= n <= objects.len(),
        spec_nearest(objects, orig, dir, n).0 >= 0,
    ensures
        ({
            let near = spec_nearest(objects, orig, dir, n);
            &&& 0 <= near.0 < n
            &&& near.1 == spec_ray_intersect(objects[near.0], orig, dir)
            &&& near.1.is_intersecting
        }),
{
    lemma_nearest_flag(objects, orig, dir, n);
}

} // verus!
