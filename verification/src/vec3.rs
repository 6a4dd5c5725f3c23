//! 3D vectors with fixed-point components.

use vstd::prelude::*;
use crate::fixed::{
    FP, MUL_A_MAX, MUL_B_MAX, ISQRT_N_MAX, sfmul, sfdiv, sabs, sqrt_floor, is_sqrt, fmul, fdiv,
    isqrt, lemma_sfmul_bound,
};

verus! {

/// Largest component magnitude accepted by `add`, `sub` and `neg`.
pub const VADD_MAX: i64 = 0x1000_0000_0000_0000;

/// Largest component magnitude accepted by `dot` for its left operand.
pub const DOT_A_MAX: i64 = 0x1000_0000_0000;

/// Largest component magnitude accepted by `dot` for its right operand.
pub const DOT_B_MAX: i64 = 0x1_0000_0000;

/// Largest component magnitude accepted by `norm` and `normalize`.
pub const NORM_MAX: i64 = 0x7FFF_FFFF;

#[derive(Clone, Copy, PartialEq, Eq, Structural, Debug)]
pub struct Vec3 {
    pub x: i64,
    pub y: i64,
    pub z: i64,
}

/// Whether every component of `v` has magnitude at most `m`.
pub open spec fn in_range(v: Vec3, m: int) -> bool {
    sabs(v.x as int) <= m && sabs(v.y as int) <= m && sabs(v.z as int) <= m
}

/// Fixed-point dot product.
pub open spec fn sdot(a: Vec3, b: Vec3) -> int {
    sfmul(a.x as int, b.x as int) + sfmul(a.y as int, b.y as int) + sfmul(a.z as int, b.z as int)
}

/// Sum of the squares of the raw components (an unscaled integer).
pub open spec fn snormsq(v: Vec3) -> int {
    (v.x as int) * (v.x as int) + (v.y as int) * (v.y as int) + (v.z as int) * (v.z as int)
}

/// Raw fixed-point length: the integer square root of the component squares.
pub open spec fn snorm(v: Vec3) -> int {
    sqrt_floor(snormsq(v))
}

/// Componentwise fixed-point normalization.
pub open spec fn snormalize(v: Vec3) -> (int, int, int) {
    let n = snorm(v);
    (sfdiv(v.x as int, n), sfdiv(v.y as int, n), sfdiv(v.z as int, n))
}

/// Mirror reflection of `i` about the axis `n`: `i - 2 (i·n) n`.
pub open spec fn sreflect(i: Vec3, n: Vec3) -> (int, int, int) {
    let d = sdot(i, n);
    (
        i.x as int - sfmul(n.x as int, 2 * d),
        i.y as int - sfmul(n.y as int, 2 * d),
        i.z as int - sfmul(n.z as int, 2 * d),
    )
}

/// Bound on a dot product from componentwise bounds on its operands.
pub proof fn lemma_sdot_bound(a: Vec3, b: Vec3, ma: int, mb: int)
    requires
        in_range(a, ma),
        in_range(b, mb),
    ensures
        sabs(sdot(a, b)) <= 3 * ((ma * mb) / (FP as int)),
{
    lemma_sfmul_bound(a.x as int, b.x as int, ma, mb);
    lemma_sfmul_bound(a.y as int, b.y as int, ma, mb);
    lemma_sfmul_bound(a.z as int, b.z as int, ma, mb);
}

impl Vec3 {
    pub fn new(x: i64, y: i64, z: i64) -> (v: Vec3)
        ensures
            v == (Vec3 { x, y, z }),
    {
        Vec3 { x, y, z }
    }

    pub fn add(self, o: Vec3) -> (v: Vec3)
        requires
            in_range(self, VADD_MAX as int),
            in_range(o, VADD_MAX as int),
        ensures
            v.x as int == self.x as int + o.x as int,
            v.y as int == self.y as int + o.y as int,
            v.z as int == self.z as int + o.z as int,
    {
        Vec3 { x: self.x + o.x, y: self.y + o.y, z: self.z + o.z }
    }

    pub fn sub(self, o: Vec3) -> (v: Vec3)
        requires
            in_range(self, VADD_MAX as int),
            in_range(o, VADD_MAX as int),
        ensures
            v.x as int == self.x as int - o.x as int,
            v.y as int == self.y as int - o.y as int,
            v.z as int == self.z as int - o.z as int,
    {
        Vec3 { x: self.x - o.x, y: self.y - o.y, z: self.z - o.z }
    }

    pub fn neg(self) -> (v: Vec3)
        requires
            in_range(self, VADD_MAX as int),
        ensures
            v.x as int == -(self.x as int),
            v.y as int == -(self.y as int),
            v.z as int == -(self.z as int),
    {
        Vec3 { x: -self.x, y: -self.y, z: -self.z }
    }

    /// Componentwise product with a fixed-point scalar.
    pub fn scale(self, k: i64) -> (v: Vec3)
        requires
            in_range(self, MUL_A_MAX as int),
            -MUL_B_MAX <= k <= MUL_B_MAX,
        ensures
            v.x as int == sfmul(self.x as int, k as int),
            v.y as int == sfmul(self.y as int, k as int),
            v.z as int == sfmul(self.z as int, k as int),
            in_range(self, FP as int) ==> in_range(v, sabs(k as int)),
            sabs(k as int) <= FP as int ==> sabs(v.x as int) <= sabs(self.x as int) && sabs(
                v.y as int,
            ) <= sabs(self.y as int) && sabs(v.z as int) <= sabs(self.z as int),
    {
        Vec3 { x: fmul(self.x, k), y: fmul(self.y, k), z: fmul(self.z, k) }
    }

    pub fn dot(self, o: Vec3) -> (d: i64)
        requires
            in_range(self, DOT_A_MAX as int),
            in_range(o, DOT_B_MAX as int),
        ensures
            d as int == sdot(self, o),
    {
        proof {
            lemma_sfmul_bound(self.x as int, o.x as int, DOT_A_MAX as int, DOT_B_MAX as int);
            lemma_sfmul_bound(self.y as int, o.y as int, DOT_A_MAX as int, DOT_B_MAX as int);
            lemma_sfmul_bound(self.z as int, o.z as int, DOT_A_MAX as int, DOT_B_MAX as int);
        }
        fmul(self.x, o.x) + fmul(self.y, o.y) + fmul(self.z, o.z)
    }

    /// Fixed-point cross product.
    pub fn cross(self, o: Vec3) -> (v: Vec3)
        requires
            in_range(self, DOT_A_MAX as int),
            in_range(o, DOT_B_MAX as int),
        ensures
            v.x as int == sfmul(self.y as int, o.z as int) - sfmul(self.z as int, o.y as int),
            v.y as int == sfmul(self.z as int, o.x as int) - sfmul(self.x as int, o.z as int),
            v.z as int == sfmul(self.x as int, o.y as int) - sfmul(self.y as int, o.x as int),
            in_range(self, FP as int) && in_range(o, FP as int) ==> in_range(v, 2 * FP as int),
    {
        proof {
            if in_range(self, FP as int) && in_range(o, FP as int) {
                lemma_sfmul_bound(self.y as int, o.z as int, FP as int, FP as int);
                lemma_sfmul_bound(self.z as int, o.y as int, FP as int, FP as int);
                lemma_sfmul_bound(self.z as int, o.x as int, FP as int, FP as int);
                lemma_sfmul_bound(self.x as int, o.z as int, FP as int, FP as int);
                lemma_sfmul_bound(self.x as int, o.y as int, FP as int, FP as int);
                lemma_sfmul_bound(self.y as int, o.x as int, FP as int, FP as int);
                assert(((FP as int) * (FP as int)) / (FP as int) == FP as int)
                    by (nonlinear_arith);
            }
            lemma_sfmul_bound(self.y as int, o.z as int, DOT_A_MAX as int, DOT_B_MAX as int);
            lemma_sfmul_bound(self.z as int, o.y as int, DOT_A_MAX as int, DOT_B_MAX as int);
            lemma_sfmul_bound(self.z as int, o.x as int, DOT_A_MAX as int, DOT_B_MAX as int);
            lemma_sfmul_bound(self.x as int, o.z as int, DOT_A_MAX as int, DOT_B_MAX as int);
            lemma_sfmul_bound(self.x as int, o.y as int, DOT_A_MAX as int, DOT_B_MAX as int);
            lemma_sfmul_bound(self.y as int, o.x as int, DOT_A_MAX as int, DOT_B_MAX as int);
        }
        Vec3 {
            x: fmul(self.y, o.z) - fmul(self.z, o.y),
            y: fmul(self.z, o.x) - fmul(self.x, o.z),
            z: fmul(self.x, o.y) - fmul(self.y, o.x),
        }
    }

    /// Raw fixed-point length of the vector.
    pub fn norm(self) -> (n: u64)
        requires
            in_range(self, NORM_MAX as int),
        ensures
            n as int == snorm(self),
            is_sqrt(n as int, snormsq(self)),
            snormsq(self) >= 1 ==> n >= 1,
    {
        proof {
            assert((self.x as int) * (self.x as int) <= (NORM_MAX as int) * (NORM_MAX as int)
                && (self.x as int) * (self.x as int) >= 0) by (nonlinear_arith)
                requires sabs(self.x as int) <= NORM_MAX as int;
            assert((self.y as int) * (self.y as int) <= (NORM_MAX as int) * (NORM_MAX as int)
                && (self.y as int) * (self.y as int) >= 0) by (nonlinear_arith)
                requires sabs(self.y as int) <= NORM_MAX as int;
            assert((self.z as int) * (self.z as int) <= (NORM_MAX as int) * (NORM_MAX as int)
                && (self.z as int) * (self.z as int) >= 0) by (nonlinear_arith)
                requires sabs(self.z as int) <= NORM_MAX as int;
        }
        let sx: i128 = (self.x as i128) * (self.x as i128);
        let sy: i128 = (self.y as i128) * (self.y as i128);
        let sz: i128 = (self.z as i128) * (self.z as i128);
        let nsq: u128 = (sx + sy + sz) as u128;
        proof {
            assert(3 * (NORM_MAX as int) * (NORM_MAX as int) <= ISQRT_N_MAX as int)
                by (nonlinear_arith);
        }
        let n = isqrt(nsq);
        proof {
            if snormsq(self) >= 1 {
                assert(n >= 1) by (nonlinear_arith)
                    requires
                        is_sqrt(n as int, nsq as int),
                        nsq as int >= 1;
            }
        }
        n
    }

    /// Scale the vector to unit length (raw length `FP`), truncating each
    /// component toward zero.
    pub fn normalize(self) -> (v: Vec3)
        requires
            in_range(self, NORM_MAX as int),
            !(self.x == 0 && self.y == 0 && self.z == 0),
        ensures
            (v.x as int, v.y as int, v.z as int) == snormalize(self),
            in_range(v, FP as int),
    {
        proof {
            assert(snormsq(self) >= 1) by (nonlinear_arith)
                requires !(self.x as int == 0 && self.y as int == 0 && self.z as int == 0);
        }
        let n = self.norm();
        proof {
            assert(snormsq(self) <= 3 * (NORM_MAX as int) * (NORM_MAX as int)) by (nonlinear_arith)
                requires
                    sabs(self.x as int) <= NORM_MAX as int,
                    sabs(self.y as int) <= NORM_MAX as int,
                    sabs(self.z as int) <= NORM_MAX as int;
            assert(n as int <= DOT_A_MAX as int) by (nonlinear_arith)
                requires
                    is_sqrt(n as int, snormsq(self)),
                    snormsq(self) <= 3 * (NORM_MAX as int) * (NORM_MAX as int);
            assert((self.x as int) * (self.x as int) <= snormsq(self)
                && (self.y as int) * (self.y as int) <= snormsq(self)
                && (self.z as int) * (self.z as int) <= snormsq(self)) by (nonlinear_arith);
            lemma_comp_le_norm(self.x as int, snormsq(self), n as int);
            lemma_comp_le_norm(self.y as int, snormsq(self), n as int);
            lemma_comp_le_norm(self.z as int, snormsq(self), n as int);
        }
        let ni = n as i64;
        Vec3 { x: fdiv(self.x, ni), y: fdiv(self.y, ni), z: fdiv(self.z, ni) }
    }

    /// Mirror reflection of `self` about the axis `n`.
    pub fn reflect(self, n: Vec3) -> (v: Vec3)
        requires
            in_range(self, 2 * FP as int),
            in_range(n, 2 * FP as int),
        ensures
            (v.x as int, v.y as int, v.z as int) == sreflect(self, n),
            in_range(v, 50 * FP as int),
    {
        proof {
            lemma_sdot_bound(self, n, 2 * FP as int, 2 * FP as int);
            assert(3 * (((2 * FP as int) * (2 * FP as int)) / (FP as int)) == 12 * FP as int)
                by (nonlinear_arith);
        }
        let d = self.dot(n);
        let td = 2 * d;
        let s = n.scale(td);
        proof {
            lemma_sfmul_bound(n.x as int, td as int, 2 * FP as int, 24 * FP as int);
            lemma_sfmul_bound(n.y as int, td as int, 2 * FP as int, 24 * FP as int);
            lemma_sfmul_bound(n.z as int, td as int, 2 * FP as int, 24 * FP as int);
            assert(((2 * FP as int) * (24 * FP as int)) / (FP as int) == 48 * FP as int)
                by (nonlinear_arith);
        }
        self.sub(s)
    }
}

proof fn lemma_comp_le_norm(x: int, nsq: int, n: int)
    requires
        x * x <= nsq,
        is_sqrt(n, nsq),
    ensures
        sabs(x) <= n,
{
    assert(sabs(x) <= n) by (nonlinear_arith)
        requires
            x * x <= nsq,
            0 <= n,
            nsq < (n + 1) * (n + 1);
}

} // verus!
