//! Unit tests for colors, packing, textures, the camera and the
//! fixed-point helpers.

use cubito::fixed::{FP, HALF_FP, fmul, fdiv, isqrt};
use cubito::color::Color;
use cubito::vec3::Vec3;
use cubito::material::{Material, Texture};
use cubito::camera::{Camera, PITCH_LIMIT, sin_fx, cos_fx};

#[test]
fn fixed_mul_and_div_are_exact() {
    assert_eq!(fmul(3 * FP, 2 * FP), 6 * FP);
    assert_eq!(fmul(-3 * FP, 2 * FP), -6 * FP);
    assert_eq!(fdiv(FP, 2 * FP), HALF_FP);
    assert_eq!(fdiv(-FP, 2 * FP), -HALF_FP);
    // Truncation toward zero.
    assert_eq!(fmul(1, 1), 0);
    assert_eq!(fdiv(2, 3), 43690);
    assert_eq!(isqrt(1_000_000_000_000_000_000u128), 1_000_000_000);
}

#[test]
fn pack_clamps_out_of_range_channels() {
    // Negative and over-bright channels clamp to 0 and 255.
    let c = Color::new(-500000, 30 * FP, 300 * FP);
    assert_eq!(c.to_hex(), 30 * 256 + 255);
    // Pre-clamping the channels gives the same packed value.
    let clamped = Color::new(0, 30 * FP, 255 * FP);
    assert_eq!(c.to_hex(), clamped.to_hex());
}

#[test]
fn pack_rounds_to_nearest() {
    // 199.5 rounds up, 199.49 rounds down.
    assert_eq!(Color::new(199 * FP + HALF_FP, 0, 0).to_hex(), 200 * 65536);
    assert_eq!(Color::new(199 * FP + HALF_FP - 1, 0, 0).to_hex(), 199 * 65536);
}

#[test]
fn pack_is_fixed_point_on_in_range_colors() {
    let c = Color::new(135 * FP, 206 * FP, 235 * FP);
    assert_eq!(c.to_hex(), 0x87CEEB);
    // Unpack the bytes and pack again: same value.
    let p = c.to_hex();
    let back = Color::new(
        ((p >> 16) & 0xFF) as i64 * FP,
        ((p >> 8) & 0xFF) as i64 * FP,
        (p & 0xFF) as i64 * FP,
    );
    assert_eq!(back.to_hex(), p);
}

#[test]
fn color_arithmetic_is_unclamped() {
    let a = Color::new(200 * FP, 200 * FP, 200 * FP);
    let b = Color::new(100 * FP, 100 * FP, 100 * FP);
    let s = a.add(b);
    assert_eq!(s.r, 300 * FP);
    let h = s.scale(HALF_FP);
    assert_eq!(h.r, 150 * FP);
}

#[test]
fn vector_ops() {
    let v = Vec3::new(3 * FP, 0, 4 * FP);
    assert_eq!(v.norm(), 5 * FP as u64);
    let u = v.normalize();
    assert_eq!(u.x, 3 * FP / 5);
    assert_eq!(u.z, 4 * FP / 5);
    let i = Vec3::new(FP, -FP, 0);
    let r = i.reflect(Vec3::new(0, FP, 0));
    assert_eq!((r.x, r.y, r.z), (FP, FP, 0));
    let d = Vec3::new(FP, 2 * FP, 3 * FP).dot(Vec3::new(4 * FP, 5 * FP, 6 * FP));
    assert_eq!(d, 32 * FP);
}

#[test]
fn texture_sampling_is_nearest_neighbor() {
    // A 2x2 texture: red, green / blue, white.
    let data: Vec<u8> = vec![
        255, 0, 0, 0, 255, 0,
        0, 0, 255, 255, 255, 255,
    ];
    let t = Texture::from_bytes(2, 2, &data);
    assert_eq!(t.sample(0, 0), Color::new(255 * FP, 0, 0));
    assert_eq!(t.sample(FP, 0), Color::new(0, 255 * FP, 0));
    assert_eq!(t.sample(0, FP), Color::new(0, 0, 255 * FP));
    assert_eq!(t.sample(FP, FP), Color::new(255 * FP, 255 * FP, 255 * FP));
    // Coordinates outside [0, 1] clamp.
    assert_eq!(t.sample(-5 * FP, 9 * FP), Color::new(0, 0, 255 * FP));
}

#[test]
fn material_constructors() {
    let m = Material::new(Color::new(10 * FP, 20 * FP, 30 * FP), 80, [45875, 19660]);
    assert!(!m.is_crystal);
    assert!(m.texture.is_none());
    let c = Material::crystal(Color::new(0, 0, 0), 0, [0, 0]);
    assert!(c.is_crystal);
    let b = Material::black();
    assert_eq!((b.diffuse.r, b.diffuse.g, b.diffuse.b), (0, 0, 0));
    assert!(!b.is_crystal);
}

#[test]
fn trig_approximation_anchor_values() {
    assert_eq!(sin_fx(0), 0);
    assert_eq!(cos_fx(0), FP);
    assert_eq!(sin_fx(102944), FP);
    // sin(pi) is tiny; the quadrant fold makes it exactly the polynomial at 0.
    assert_eq!(sin_fx(205887), 0);
    assert!(sin_fx(308831) <= -FP + 100);
}

#[test]
fn orbit_pitch_never_exceeds_limit() {
    let mut cam = Camera::new(
        Vec3::new(0, 0, 5 * FP),
        Vec3::new(0, 0, 0),
        Vec3::new(0, FP, 0),
    );
    for _ in 0..50 {
        cam.orbit(0, 20000);
        assert!(cam.pitch <= PITCH_LIMIT);
        assert!(cam.pitch >= -PITCH_LIMIT);
    }
    assert_eq!(cam.pitch, PITCH_LIMIT);
    for _ in 0..200 {
        cam.orbit(3000, -20000);
        assert!(cam.pitch.abs() <= PITCH_LIMIT);
    }
    assert_eq!(cam.pitch, -PITCH_LIMIT);
}
