//! Scenario tests for the ray-casting engine, in fixed point (scale 65536).

use cubito::fixed::FP;
use cubito::color::Color;
use cubito::vec3::Vec3;
use cubito::cube::Cube;
use cubito::light::Light;
use cubito::material::Material;
use cubito::ray_intersect::Intersect;
use cubito::render::cast_ray;
use cubito::render::cast_shadow;

fn opaque_cube(center: Vec3, size: i64) -> Cube {
    let m = Material::new(
        Color::new(200 * FP, 50 * FP, 50 * FP),
        30,
        [45875, 19660],
    );
    Cube { center, size, material: m }
}

#[test]
fn head_on_hit_distance_and_normal() {
    // Half-extent 1.5; ray from (0, 0, 10) toward -z hits at distance 8.5.
    let c = opaque_cube(Vec3::new(0, 0, 0), 98304);
    let it = c.ray_intersect(&Vec3::new(0, 0, 10 * FP), &Vec3::new(0, 0, -FP));
    assert!(it.is_intersecting);
    assert_eq!(it.distance, 10 * FP - 98304);
    assert_eq!(it.normal, Vec3::new(0, 0, FP));
    assert_eq!(it.point, Vec3::new(0, 0, 98304));
}

#[test]
fn ray_outside_slab_misses() {
    // Parallel to the cube on x, origin far outside the x slab.
    let c = opaque_cube(Vec3::new(0, 0, 0), FP);
    let it = c.ray_intersect(&Vec3::new(5 * FP, 0, 10 * FP), &Vec3::new(0, 0, -FP));
    assert!(!it.is_intersecting);
    let it2 = c.ray_intersect(&Vec3::new(0, -3 * FP, 10 * FP), &Vec3::new(0, 0, -FP));
    assert!(!it2.is_intersecting);
}

#[test]
fn tangent_ray_misses() {
    // Grazing exactly along the +x face plane: zero-width interval.
    let c = opaque_cube(Vec3::new(0, 0, 0), FP);
    let it = c.ray_intersect(&Vec3::new(FP, 0, 10 * FP), &Vec3::new(0, 0, -FP));
    assert!(!it.is_intersecting);
}

#[test]
fn miss_returns_background() {
    let objects = vec![opaque_cube(Vec3::new(0, 0, 0), FP)];
    let lights = vec![Light::new(Vec3::new(0, 0, 5 * FP), Color::new(255 * FP, 255 * FP, 255 * FP), FP)];
    // Aimed away from the cube.
    let c = cast_ray(&Vec3::new(0, 0, 10 * FP), &Vec3::new(0, 0, FP), &objects, &lights, 0);
    assert_eq!((c.r, c.g, c.b), (135 * FP, 206 * FP, 235 * FP));
}

#[test]
fn depth_past_bound_returns_background() {
    let objects = vec![opaque_cube(Vec3::new(0, 0, 0), FP)];
    let lights: Vec<Light> = vec![];
    // Would hit, but the depth bound has been exceeded.
    let c = cast_ray(&Vec3::new(0, 0, 10 * FP), &Vec3::new(0, 0, -FP), &objects, &lights, 2);
    assert_eq!((c.r, c.g, c.b), (135 * FP, 206 * FP, 235 * FP));
}

#[test]
fn unlit_opaque_hit_is_ambient_only() {
    // No lights: the local color is exactly 30% of the diffuse color.
    let objects = vec![opaque_cube(Vec3::new(0, 0, 0), FP)];
    let lights: Vec<Light> = vec![];
    let c = cast_ray(&Vec3::new(0, 0, 10 * FP), &Vec3::new(0, 0, -FP), &objects, &lights, 0);
    // 200 * 0.3 (19660/65536) per channel, truncated.
    let amb = |ch: i64| (ch as i128 * 19660 / 65536) as i64;
    assert_eq!((c.r, c.g, c.b), (amb(200 * FP), amb(50 * FP), amb(50 * FP)));
}

#[test]
fn crystal_cube_alone_blends_to_background() {
    // Head-on at a crystal cube with no lights: the reflected ray escapes
    // and the refracted ray crosses the cube; every secondary path ends on
    // the background, and the even blend reproduces it exactly.
    let m = Material::crystal(Color::new(255 * FP, 255 * FP, 255 * FP), 125, [0, 6553]);
    let objects = vec![Cube { center: Vec3::new(0, 0, 0), size: 98304, material: m }];
    let lights: Vec<Light> = vec![];
    let c = cast_ray(&Vec3::new(0, 0, 10 * FP), &Vec3::new(0, 0, -FP), &objects, &lights, 0);
    assert_eq!((c.r, c.g, c.b), (135 * FP, 206 * FP, 235 * FP));
}

#[test]
fn lit_face_brighter_than_ambient() {
    let objects = vec![opaque_cube(Vec3::new(0, 0, 0), FP)];
    let lights = vec![Light::new(
        Vec3::new(0, 0, 5 * FP),
        Color::new(255 * FP, 255 * FP, 255 * FP),
        FP,
    )];
    let lit = cast_ray(&Vec3::new(0, 0, 10 * FP), &Vec3::new(0, 0, -FP), &objects, &lights, 0);
    let dark = cast_ray(&Vec3::new(0, 0, 10 * FP), &Vec3::new(0, 0, -FP), &objects, &vec![], 0);
    assert!(lit.r + lit.g + lit.b > dark.r + dark.g + dark.b);
}

#[test]
fn closer_occluder_darkens_shadow() {
    let hit = Intersect {
        is_intersecting: true,
        point: Vec3::new(0, 0, 0),
        normal: Vec3::new(0, 0, FP),
        distance: FP,
        uv: None,
    };
    let light = Light::new(Vec3::new(0, 0, 10 * FP), Color::new(255 * FP, 255 * FP, 255 * FP), FP);
    let near = vec![opaque_cube(Vec3::new(0, 0, 2 * FP), 32768)];
    let far = vec![opaque_cube(Vec3::new(0, 0, 8 * FP), 32768)];
    let s_near = cast_shadow(&hit, &light, &near);
    let s_far = cast_shadow(&hit, &light, &far);
    assert!(s_near > 0);
    assert!(s_far > 0);
    assert!(s_near >= s_far);
}

#[test]
fn unobstructed_light_casts_no_shadow() {
    let hit = Intersect {
        is_intersecting: true,
        point: Vec3::new(0, 0, 0),
        normal: Vec3::new(0, 0, FP),
        distance: FP,
        uv: None,
    };
    let light = Light::new(Vec3::new(0, 0, 10 * FP), Color::new(255 * FP, 255 * FP, 255 * FP), FP);
    let objects: Vec<Cube> = vec![];
    assert_eq!(cast_shadow(&hit, &light, &objects), 0);
}
