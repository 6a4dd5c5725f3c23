//! Colors with three fixed-point channels.
//!
//! Channel arithmetic (add, scalar multiply) is unclamped; clamping to the
//! displayable range `[0, 255]` happens only in `to_hex`, which rounds each
//! channel to the nearest integer and packs the three bytes as `0xRRGGBB`.

use vstd::prelude::*;
use crate::fixed::{FP, HALF_FP, MUL_A_MAX, MUL_B_MAX, sfmul, sclamp, sabs, fmul, clamp_fx};
use vstd::arithmetic::div_mod::lemma_div_is_ordered;

verus! {

/// Raw fixed-point value standing for the channel ceiling 255.
pub const CH_CEIL: i64 = 16711680;

/// Largest channel magnitude accepted by `add` (guards `i64` overflow).
pub const CH_ADD_MAX: i64 = 0x1000_0000_0000_0000;

#[derive(Clone, Copy, PartialEq, Eq, Structural, Debug)]
pub struct Color {
    pub r: i64,
    pub g: i64,
    pub b: i64,
}

/// Clamp a channel into the displayable range `[0, 255 * FP]`.
pub open spec fn sclamp255(c: int) -> int {
    sclamp(c, 0, CH_CEIL as int)
}

/// Round a clamped channel to the nearest whole intensity in `[0, 255]`.
pub open spec fn sround_ch(c: int) -> int {
    (sclamp255(c) + HALF_FP) / (FP as int)
}

/// The packed `0xRRGGBB` value of a color.
pub open spec fn spec_to_hex(c: Color) -> int {
    sround_ch(c.r as int) * 65536 + sround_ch(c.g as int) * 256 + sround_ch(c.b as int)
}

/// The same color with each channel pre-clamped to the displayable range.
pub open spec fn spec_clamped(c: Color) -> Color {
    Color {
        r: sclamp255(c.r as int) as i64,
        g: sclamp255(c.g as int) as i64,
        b: sclamp255(c.b as int) as i64,
    }
}

/// Whether every channel of `c` has magnitude at most `m`.
pub open spec fn color_in_range(c: Color, m: int) -> bool {
    sabs(c.r as int) <= m && sabs(c.g as int) <= m && sabs(c.b as int) <= m
}

proof fn lemma_round_ch_bounds(c: int)
    ensures
        0 <= sround_ch(c) <= 255,
{
    let cl = sclamp255(c);
    assert(0 <= cl <= CH_CEIL as int);
    assert((cl + HALF_FP) / (FP as int) >= 0) by (nonlinear_arith)
        requires cl >= 0;
    lemma_div_is_ordered(cl + HALF_FP, CH_CEIL as int + HALF_FP, FP as int);
    assert((CH_CEIL as int + HALF_FP) / (FP as int) == 255) by (nonlinear_arith);
}

impl Color {
    pub fn new(r: i64, g: i64, b: i64) -> (c: Color)
        ensures
            c == (Color { r, g, b }),
    {
        Color { r, g, b }
    }

    /// Per-channel sum, unclamped.
    pub fn add(self, o: Color) -> (c: Color)
        requires
            color_in_range(self, CH_ADD_MAX as int),
            color_in_range(o, CH_ADD_MAX as int),
        ensures
            c.r as int == self.r as int + o.r as int,
            c.g as int == self.g as int + o.g as int,
            c.b as int == self.b as int + o.b as int,
    {
        Color { r: self.r + o.r, g: self.g + o.g, b: self.b + o.b }
    }

    /// Per-channel product with a fixed-point scalar, unclamped.
    pub fn scale(self, k: i64) -> (c: Color)
        requires
            color_in_range(self, MUL_A_MAX as int),
            -MUL_B_MAX <= k <= MUL_B_MAX,
        ensures
            c.r as int == sfmul(self.r as int, k as int),
            c.g as int == sfmul(self.g as int, k as int),
            c.b as int == sfmul(self.b as int, k as int),
            0 <= k <= FP && color_in_range(self, CH_CEIL as int) ==> color_in_range(
                c,
                CH_CEIL as int,
            ),
    {
        let c = Color { r: fmul(self.r, k), g: fmul(self.g, k), b: fmul(self.b, k) };
        c
    }

    /// Round, clamp and pack the three channels as `0xRRGGBB`.
    pub fn to_hex(&self) -> (p: u32)
        ensures
            p as int == spec_to_hex(*self),
    {
        let r = pack_channel(self.r);
        let g = pack_channel(self.g);
        let b = pack_channel(self.b);
        proof {
            lemma_round_ch_bounds(self.r as int);
            lemma_round_ch_bounds(self.g as int);
            lemma_round_ch_bounds(self.b as int);
        }
        r * 65536 + g * 256 + b
    }
}

/// Clamp one channel, round it to the nearest intensity, and return it as a byte value.
fn pack_channel(c: i64) -> (v: u32)
    ensures
        v as int == sround_ch(c as int),
        v <= 255,
{
    let cl = clamp_fx(c, 0, CH_CEIL);
    let w: u64 = ((cl + HALF_FP) as u64) / (FP as u64);
    proof {
        lemma_div_is_ordered(cl as int + HALF_FP, CH_CEIL as int + HALF_FP, FP as int);
        assert((CH_CEIL as int + HALF_FP) / (FP as int) == 255) by (nonlinear_arith);
        assert((cl as int + HALF_FP) / (FP as int) >= 0) by (nonlinear_arith)
            requires cl as int >= 0;
    }
    w as u32
}

/// Packing is insensitive to pre-clamping: a color packs to the same
/// `0xRRGGBB` value as the same color with every channel first clamped
/// to the displayable range.
pub proof fn lemma_to_hex_clamp_idempotent(c: Color)
    ensures
        spec_to_hex(spec_clamped(c)) == spec_to_hex(c),
{
    assert(sclamp255(sclamp255(c.r as int)) == sclamp255(c.r as int));
    assert(sclamp255(sclamp255(c.g as int)) == sclamp255(c.g as int));
    assert(sclamp255(sclamp255(c.b as int)) == sclamp255(c.b as int));
}

/// A color whose channels are whole intensities in `[0, 255]` packs to
/// exactly those bytes: packing is a fixed point on in-range colors.
pub proof fn lemma_to_hex_in_range(r: int, g: int, b: int)
    requires
        0 <= r <= 255,
        0 <= g <= 255,
        0 <= b <= 255,
    ensures
        spec_to_hex(
            Color { r: (r * FP) as i64, g: (g * FP) as i64, b: (b * FP) as i64 },
        ) == r * 65536 + g * 256 + b,
{
    lemma_round_byte(r);
    lemma_round_byte(g);
    lemma_round_byte(b);
}

proof fn lemma_round_byte(v: int)
    requires
        0 <= v <= 255,
    ensures
        sround_ch(v * (FP as int)) == v,
{
    assert(0 <= v * (FP as int) <= CH_CEIL as int) by (nonlinear_arith)
        requires 0 <= v <= 255;
    assert(sclamp255(v * (FP as int)) == v * (FP as int));
    assert((v * (FP as int) + HALF_FP) / (FP as int) == v) by (nonlinear_arith)
        requires 0 <= v <= 255;
}

} // verus!
