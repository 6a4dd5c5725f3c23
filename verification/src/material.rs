//! Surface materials, and textures as plain color grids.
//!
//! A texture is an already-decoded grid of displayable colors; whoever
//! decodes an image file hands the raw bytes to `Texture::from_bytes`
//! before a render pass begins.

use vstd::prelude::*;
use vstd::arithmetic::div_mod::lemma_div_is_ordered;
use vstd::arithmetic::mul::lemma_mul_inequality;
use crate::fixed::{FP, sclamp, clamp_fx};
use crate::color::{Color, CH_CEIL};

verus! {

/// Largest texture side length.
pub const TEX_SIDE_MAX: u32 = 4096;

/// Largest specular exponent.
pub const SPECULAR_MAX: i64 = 4096;

#[derive(Clone, Debug)]
pub struct Texture {
    pub width: u32,
    pub height: u32,
    pub pixels: Vec<Color>,
}

/// A texture the sampler accepts: non-empty, bounded sides, one displayable
/// color per cell.
pub open spec fn wf_texture(t: Texture) -> bool {
    &&& 1 <= t.width <= TEX_SIDE_MAX
    &&& 1 <= t.height <= TEX_SIDE_MAX
    &&& t.pixels@.len() == t.width * t.height
    &&& forall|i: int|
        0 <= i < t.pixels@.len() ==> {
            &&& 0 <= #[trigger] t.pixels@[i].r <= CH_CEIL
            &&& 0 <= t.pixels@[i].g <= CH_CEIL
            &&& 0 <= t.pixels@[i].b <= CH_CEIL
        }
}

/// Nearest-neighbor sample: clamp each coordinate to `[0, 1]`, scale by the
/// last valid cell index, truncate, and read that cell.
pub open spec fn spec_sample(t: Texture, u: int, v: int) -> Color {
    let tx = sclamp(u, 0, FP as int) * (t.width - 1) / (FP as int);
    let ty = sclamp(v, 0, FP as int) * (t.height - 1) / (FP as int);
    t.pixels@[ty * t.width + tx]
}

impl Texture {
    /// Build a texture from rows of `r, g, b` bytes, top row first.
    pub fn from_bytes(width: u32, height: u32, data: &Vec<u8>) -> (t: Texture)
        requires
            1 <= width <= TEX_SIDE_MAX,
            1 <= height <= TEX_SIDE_MAX,
            data@.len() == 3 * (width * height),
        ensures
            t.width == width,
            t.height == height,
            wf_texture(t),
            forall|i: int|
                0 <= i < width * height ==> #[trigger] t.pixels@[i] == (Color {
                    r: (data@[3 * i] as i64 * FP) as i64,
                    g: (data@[3 * i + 1] as i64 * FP) as i64,
                    b: (data@[3 * i + 2] as i64 * FP) as i64,
                }),
    {
        proof {
            assert((width as int) * (height as int) <= 4096 * 4096
                && (width as int) * (height as int) >= 1) by (nonlinear_arith)
                requires 1 <= width as int <= 4096 && 1 <= height as int <= 4096;
        }
        let n: usize = (width as usize) * (height as usize);
        let mut pixels: Vec<Color> = Vec::new();
        let mut i: usize = 0;
        while i < n
            invariant
                n == width * height,
                n <= 16777216,
                data@.len() == 3 * (width * height),
                i <= n,
                pixels@.len() == i,
                forall|j: int|
                    0 <= j < i ==> #[trigger] pixels@[j] == (Color {
                        r: (data@[3 * j] as i64 * FP) as i64,
                        g: (data@[3 * j + 1] as i64 * FP) as i64,
                        b: (data@[3 * j + 2] as i64 * FP) as i64,
                    }),
            decreases n - i,
        {
            let r = data[3 * i];
            let g = data[3 * i + 1];
            let b = data[3 * i + 2];
            pixels.push(Color { r: (r as i64) * FP, g: (g as i64) * FP, b: (b as i64) * FP });
            i = i + 1;
        }
        let t = Texture { width, height, pixels };
        proof {
            assert forall|i2: int| 0 <= i2 < t.pixels@.len() implies {
                &&& 0 <= #[trigger] t.pixels@[i2].r <= CH_CEIL
                &&& 0 <= t.pixels@[i2].g <= CH_CEIL
                &&& 0 <= t.pixels@[i2].b <= CH_CEIL
            } by {
                assert(t.pixels@[i2] == (Color {
                    r: (data@[3 * i2] as i64 * FP) as i64,
                    g: (data@[3 * i2 + 1] as i64 * FP) as i64,
                    b: (data@[3 * i2 + 2] as i64 * FP) as i64,
                }));
                assert((data@[3 * i2] as int) * (FP as int) <= 255 * (FP as int)
                    && (data@[3 * i2] as int) * (FP as int) >= 0) by (nonlinear_arith)
                    requires 0 <= data@[3 * i2] as int <= 255;
                assert((data@[3 * i2 + 1] as int) * (FP as int) <= 255 * (FP as int)
                    && (data@[3 * i2 + 1] as int) * (FP as int) >= 0) by (nonlinear_arith)
                    requires 0 <= data@[3 * i2 + 1] as int <= 255;
                assert((data@[3 * i2 + 2] as int) * (FP as int) <= 255 * (FP as int)
                    && (data@[3 * i2 + 2] as int) * (FP as int) >= 0) by (nonlinear_arith)
                    requires 0 <= data@[3 * i2 + 2] as int <= 255;
            }
        }
        t
    }

    /// Nearest-neighbor lookup at normalized coordinates `(u, v)`, each a
    /// fixed-point value clamped into `[0, 1]`.
    pub fn sample(&self, u: i64, v: i64) -> (c: Color)
        requires
            wf_texture(*self),
        ensures
            c == spec_sample(*self, u as int, v as int),
            0 <= c.r <= CH_CEIL,
            0 <= c.g <= CH_CEIL,
            0 <= c.b <= CH_CEIL,
    {
        let uc = clamp_fx(u, 0, FP);
        let vc = clamp_fx(v, 0, FP);
        proof {
            assert((uc as int) * (((self.width - 1) as u64) as int) <= 65536 * 4095
                && (uc as int) * (((self.width - 1) as u64) as int) >= 0) by (nonlinear_arith)
                requires 0 <= uc as int <= 65536 && 0 <= ((self.width - 1) as u64) as int <= 4095;
            assert((vc as int) * (((self.height - 1) as u64) as int) <= 65536 * 4095
                && (vc as int) * (((self.height - 1) as u64) as int) >= 0) by (nonlinear_arith)
                requires 0 <= vc as int <= 65536 && 0 <= ((self.height - 1) as u64) as int <= 4095;
        }
        let tx: u64 = (uc as u64) * ((self.width - 1) as u64) / (FP as u64);
        let ty: u64 = (vc as u64) * ((self.height - 1) as u64) / (FP as u64);
        proof {
            lemma_mul_inequality(uc as int, FP as int, (self.width - 1) as int);
            assert((uc as int) * ((self.width - 1) as int)
                == ((self.width - 1) as int) * (uc as int)) by (nonlinear_arith);
            assert((FP as int) * ((self.width - 1) as int)
                == ((self.width - 1) as int) * (FP as int)) by (nonlinear_arith);
            lemma_div_is_ordered(
                (uc as int) * ((self.width - 1) as int),
                (FP as int) * ((self.width - 1) as int),
                FP as int,
            );
            assert(((FP as int) * ((self.width - 1) as int)) / (FP as int)
                == (self.width - 1) as int) by (nonlinear_arith)
                requires (self.width - 1) as int >= 0;
            lemma_mul_inequality(vc as int, FP as int, (self.height - 1) as int);
            lemma_div_is_ordered(
                (vc as int) * ((self.height - 1) as int),
                (FP as int) * ((self.height - 1) as int),
                FP as int,
            );
            assert(((FP as int) * ((self.height - 1) as int)) / (FP as int)
                == (self.height - 1) as int) by (nonlinear_arith)
                requires (self.height - 1) as int >= 0;
            assert((uc as int) * ((self.width - 1) as int) >= 0) by (nonlinear_arith)
                requires uc as int >= 0 && (self.width - 1) as int >= 0;
            assert((vc as int) * ((self.height - 1) as int) >= 0) by (nonlinear_arith)
                requires vc as int >= 0 && (self.height - 1) as int >= 0;
        }
        proof {
            assert((ty as int * (self.width as int) + tx as int) < (self.height as int) * (
            self.width as int)) by (nonlinear_arith)
                requires
                    ty as int <= (self.height as int) - 1,
                    tx as int <= (self.width as int) - 1,
                    self.width as int >= 1,
                    self.height as int >= 1;
            assert((self.height as int) * (self.width as int) == (self.width as int) * (
            self.height as int)) by (nonlinear_arith);
            assert(ty as int * (self.width as int) >= 0
                && ty as int * (self.width as int) <= 4095 * 4096) by (nonlinear_arith)
                requires 0 <= ty as int <= 4095 && 1 <= self.width as int <= 4096;
        }
        let idx: usize = (ty as usize) * (self.width as usize) + (tx as usize);
        self.pixels[idx]
    }
}

#[derive(Clone, Debug)]
pub struct Material {
    pub diffuse: Color,
    pub specular: i64,
    pub albedo: [i64; 2],
    pub texture: Option<Texture>,
    pub is_crystal: bool,
}

/// A material the shader accepts: displayable base color, bounded
/// non-negative specular exponent, albedo weights in `[0, 1]`, and a
/// well-formed texture if one is present.
pub open spec fn wf_material(m: Material) -> bool {
    &&& 0 <= m.diffuse.r <= CH_CEIL
    &&& 0 <= m.diffuse.g <= CH_CEIL
    &&& 0 <= m.diffuse.b <= CH_CEIL
    &&& 0 <= m.specular <= SPECULAR_MAX
    &&& 0 <= m.albedo[0] <= FP
    &&& 0 <= m.albedo[1] <= FP
    &&& m.texture is Some ==> wf_texture(m.texture->0)
}

impl Material {
    /// An opaque, untextured material.
    pub fn new(diffuse: Color, specular: i64, albedo: [i64; 2]) -> (m: Material)
        requires
            0 <= diffuse.r <= CH_CEIL,
            0 <= diffuse.g <= CH_CEIL,
            0 <= diffuse.b <= CH_CEIL,
            0 <= specular <= SPECULAR_MAX,
            0 <= albedo[0] <= FP,
            0 <= albedo[1] <= FP,
        ensures
            m.diffuse == diffuse,
            m.specular == specular,
            m.albedo == albedo,
            m.texture is None,
            !m.is_crystal,
            wf_material(m),
    {
        Material { diffuse, specular, albedo, texture: None, is_crystal: false }
    }

    /// An opaque material shaded from a texture; the base diffuse color is
    /// white and is ignored wherever a sample is taken.
    pub fn with_texture(texture: Texture, specular: i64, albedo: [i64; 2]) -> (m: Material)
        requires
            wf_texture(texture),
            0 <= specular <= SPECULAR_MAX,
            0 <= albedo[0] <= FP,
            0 <= albedo[1] <= FP,
        ensures
            m.diffuse == (Color { r: CH_CEIL, g: CH_CEIL, b: CH_CEIL }),
            m.specular == specular,
            m.albedo == albedo,
            m.texture == Some(texture),
            !m.is_crystal,
            wf_material(m),
    {
        Material {
            diffuse: Color { r: CH_CEIL, g: CH_CEIL, b: CH_CEIL },
            specular,
            albedo,
            texture: Some(texture),
            is_crystal: false,
        }
    }

    /// A dielectric material: shaded by the reflect/refract recursion.
    pub fn crystal(diffuse: Color, specular: i64, albedo: [i64; 2]) -> (m: Material)
        requires
            0 <= diffuse.r <= CH_CEIL,
            0 <= diffuse.g <= CH_CEIL,
            0 <= diffuse.b <= CH_CEIL,
            0 <= specular <= SPECULAR_MAX,
            0 <= albedo[0] <= FP,
            0 <= albedo[1] <= FP,
        ensures
            m.diffuse == diffuse,
            m.specular == specular,
            m.albedo == albedo,
            m.texture is None,
            m.is_crystal,
            wf_material(m),
    {
        Material { diffuse, specular, albedo, texture: None, is_crystal: true }
    }

    /// The all-zero opaque material.
    pub fn black() -> (m: Material)
        ensures
            m.diffuse == (Color { r: 0, g: 0, b: 0 }),
            m.specular == 0,
            m.albedo[0] == 0 && m.albedo[1] == 0,
            m.texture is None,
            !m.is_crystal,
            wf_material(m),
    {
        Material {
            diffuse: Color { r: 0, g: 0, b: 0 },
            specular: 0,
            albedo: [0, 0],
            texture: None,
            is_crystal: false,
        }
    }
}

} // verus!
