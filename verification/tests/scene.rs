//! End-to-end render of a one-cube scene.

use cubito::fixed::FP;
use cubito::color::Color;
use cubito::vec3::Vec3;
use cubito::cube::Cube;
use cubito::light::Light;
use cubito::material::Material;
use cubito::camera::Camera;
use cubito::framebuffer::Framebuffer;
use cubito::render;

const BACKGROUND_HEX: u32 = 0x87CEEB;

fn channel_sum(p: u32) -> u32 {
    ((p >> 16) & 0xFF) + ((p >> 8) & 0xFF) + (p & 0xFF)
}

#[test]
fn one_cube_scene_center_brighter_than_silhouette_edge() {
    // A single opaque cube of diffuse (200, 50, 50), albedo [0.7, 0.3],
    // specular 30, one light at (0, 0, 5) of intensity 1, camera head-on
    // at (0, 0, 5).
    let material = Material::new(Color::new(200 * FP, 50 * FP, 50 * FP), 30, [45875, 19660]);
    let objects = vec![Cube { center: Vec3::new(0, 0, 0), size: 98304, material }];
    let lights = vec![Light::new(
        Vec3::new(0, 0, 5 * FP),
        Color::new(255 * FP, 255 * FP, 255 * FP),
        FP,
    )];
    let camera = Camera::new(Vec3::new(0, 0, 5 * FP), Vec3::new(0, 0, 0), Vec3::new(0, FP, 0));
    let mut fb = Framebuffer::new(64, 48);
    render(&mut fb, &objects, &camera, &lights);

    // A corner ray misses the cube entirely: exactly the background.
    assert_eq!(fb.buffer[0], BACKGROUND_HEX);

    // Walk the center row from the left to the first cube pixel: that is
    // the silhouette edge.
    let row = 24usize;
    let center = fb.buffer[row * 64 + 32];
    assert_ne!(center, BACKGROUND_HEX);
    let mut edge = None;
    for x in 0..64 {
        let p = fb.buffer[row * 64 + x];
        if p != BACKGROUND_HEX {
            edge = Some(p);
            break;
        }
    }
    let edge = edge.unwrap();
    assert!(channel_sum(center) > channel_sum(edge));
}

#[test]
fn framebuffer_starts_black() {
    let fb = Framebuffer::new(8, 4);
    assert_eq!(fb.buffer.len(), 32);
    assert!(fb.buffer.iter().all(|p| *p == 0));
}
