//! Signed binary fixed-point arithmetic with scale `FP = 2^16`.
//!
//! A raw value `v: i64` stands for the real number `v / FP`.  Products and
//! quotients are truncated toward zero, exactly as the spec-level models
//! `sfmul` and `sfdiv` state, so every caller's contract can speak of the
//! result without slack.

use vstd::prelude::*;
use vstd::arithmetic::div_mod::lemma_div_is_ordered;
use vstd::arithmetic::mul::lemma_mul_upper_bound;

verus! {

/// The fixed-point scale: raw value `FP` stands for the real number 1.
pub const FP: i64 = 65536;

/// Raw value standing for one half.
pub const HALF_FP: i64 = 32768;

/// Largest magnitude accepted for the left operand of `fmul`.
pub const MUL_A_MAX: i64 = 0x2000_0000_0000;

/// Largest magnitude accepted for the right operand of `fmul`.
pub const MUL_B_MAX: i64 = 0x2_0000_0000;

/// Truncating (toward zero) division of `p` by a positive divisor `d`.
pub open spec fn tzdiv(p: int, d: int) -> int
    recommends
        d > 0,
{
    if p >= 0 {
        p / d
    } else {
        -((-p) / d)
    }
}

/// Spec model of the fixed-point product: `(a * b) / FP`, truncated toward zero.
pub open spec fn sfmul(a: int, b: int) -> int {
    tzdiv(a * b, FP as int)
}

/// Spec model of the fixed-point quotient: `(a * FP) / b`, truncated toward zero.
pub open spec fn sfdiv(a: int, b: int) -> int
    recommends
        b != 0,
{
    if b > 0 {
        tzdiv(a * (FP as int), b)
    } else {
        tzdiv(-(a * (FP as int)), -b)
    }
}

/// Clamp `x` into `[lo, hi]`.
pub open spec fn sclamp(x: int, lo: int, hi: int) -> int {
    if x < lo {
        lo
    } else if x > hi {
        hi
    } else {
        x
    }
}

/// Magnitude of an integer.
pub open spec fn sabs(x: int) -> int {
    if x >= 0 {
        x
    } else {
        -x
    }
}

pub proof fn lemma_abs_mul(a: int, b: int)
    ensures
        sabs(a * b) == sabs(a) * sabs(b),
        (a >= 0 && b >= 0) || (a <= 0 && b <= 0) ==> a * b >= 0,
        (a >= 0 && b <= 0) || (a <= 0 && b >= 0) ==> a * b <= 0,
{
    assert(sabs(a * b) == sabs(a) * sabs(b)
        && ((a >= 0 && b >= 0) || (a <= 0 && b <= 0) ==> a * b >= 0)
        && ((a >= 0 && b <= 0) || (a <= 0 && b >= 0) ==> a * b <= 0)) by (nonlinear_arith);
}

pub proof fn lemma_tzdiv_abs(p: int, d: int)
    requires
        d > 0,
    ensures
        sabs(tzdiv(p, d)) == sabs(p) / d,
        sabs(tzdiv(p, d)) <= sabs(p),
{
    assert(sabs(p) / d >= 0) by (nonlinear_arith)
        requires d > 0 && sabs(p) >= 0;
    assert(sabs(p) / d <= sabs(p)) by (nonlinear_arith)
        requires d > 0 && sabs(p) >= 0;
}

/// Bound on a fixed-point product from bounds on its operands.
pub proof fn lemma_sfmul_bound(a: int, b: int, ma: int, mb: int)
    requires
        sabs(a) <= ma,
        sabs(b) <= mb,
    ensures
        sabs(sfmul(a, b)) <= (ma * mb) / (FP as int),
{
    lemma_abs_mul(a, b);
    lemma_mul_upper_bound(sabs(a), ma, sabs(b), mb);
    lemma_tzdiv_abs(a * b, FP as int);
    lemma_div_is_ordered(sabs(a * b), ma * mb, FP as int);
}

/// Fixed-point product, truncated toward zero.
pub fn fmul(a: i64, b: i64) -> (r: i64)
    requires
        -MUL_A_MAX <= a <= MUL_A_MAX,
        -MUL_B_MAX <= b <= MUL_B_MAX,
    ensures
        r as int == sfmul(a as int, b as int),
        sabs(b as int) <= FP as int ==> sabs(r as int) <= sabs(a as int),
        sabs(a as int) <= FP as int ==> sabs(r as int) <= sabs(b as int),
        a >= 0 && b >= 0 ==> r >= 0,
        a <= 0 && b <= 0 ==> r >= 0,
        a >= 0 && b < 0 ==> r <= 0,
        a <= 0 && b >= 0 ==> r <= 0,
{
    let ma: u64 = if a < 0 {
        (-a) as u64
    } else {
        a as u64
    };
    let mb: u64 = if b < 0 {
        (-b) as u64
    } else {
        b as u64
    };
    proof {
        assert(ma as int == sabs(a as int));
        assert(mb as int == sabs(b as int));
        lemma_mul_upper_bound(ma as int, MUL_A_MAX as int, mb as int, MUL_B_MAX as int);
    }
    let p: u128 = (ma as u128) * (mb as u128);
    let q: u128 = p / (FP as u128);
    proof {
        assert(q as int <= p as int) by (nonlinear_arith)
            requires q as int == (p as int) / (FP as int) && p as int >= 0 && FP as int > 0;
        lemma_abs_mul(a as int, b as int);
        lemma_tzdiv_abs((a as int) * (b as int), FP as int);
        // Bounds used by the conditional magnitude claims.
        if sabs(b as int) <= FP as int {
            lemma_mul_upper_bound(ma as int, ma as int, mb as int, FP as int);
            lemma_div_is_ordered((ma as int) * (mb as int), (ma as int) * (FP as int), FP as int);
            assert((ma as int) * (FP as int) / (FP as int) == ma as int) by (nonlinear_arith)
                requires ma as int >= 0 && FP as int > 0;
        }
        if sabs(a as int) <= FP as int {
            lemma_mul_upper_bound(ma as int, FP as int, mb as int, mb as int);
            assert((FP as int) * (mb as int) == (mb as int) * (FP as int)) by (nonlinear_arith);
            lemma_div_is_ordered((ma as int) * (mb as int), (mb as int) * (FP as int), FP as int);
            assert((mb as int) * (FP as int) / (FP as int) == mb as int) by (nonlinear_arith)
                requires mb as int >= 0 && FP as int > 0;
        }
    }
    let qi: i64 = q as i64;
    if (a < 0) != (b < 0) {
        -qi
    } else {
        qi
    }
}

/// Fixed-point quotient, truncated toward zero.
pub fn fdiv(a: i64, b: i64) -> (r: i64)
    requires
        -MUL_A_MAX <= a <= MUL_A_MAX,
        -MUL_A_MAX <= b <= MUL_A_MAX,
        b != 0,
    ensures
        r as int == sfdiv(a as int, b as int),
        sabs(a as int) <= sabs(b as int) ==> sabs(r as int) <= FP as int,
        a >= 0 && b > 0 ==> r >= 0,
        sabs(r as int) <= sabs(a as int) * (FP as int),
{
    let ma: u64 = if a < 0 {
        (-a) as u64
    } else {
        a as u64
    };
    let mb: u64 = if b < 0 {
        (-b) as u64
    } else {
        b as u64
    };
    proof {
        assert(ma as int == sabs(a as int));
        assert(mb as int == sabs(b as int));
        lemma_mul_upper_bound(ma as int, MUL_A_MAX as int, FP as int, FP as int);
    }
    let p: u128 = (ma as u128) * (FP as u128);
    let q: u128 = p / (mb as u128);
    proof {
        assert(q as int <= p as int) by (nonlinear_arith)
            requires q as int == (p as int) / (mb as int) && p as int >= 0 && mb as int >= 1;
        lemma_abs_mul(a as int, FP as int);
        if ma <= mb {
            lemma_mul_upper_bound(ma as int, mb as int, FP as int, FP as int);
            lemma_div_is_ordered((ma as int) * (FP as int), (mb as int) * (FP as int), mb as int);
            assert((mb as int) * (FP as int) / (mb as int) == FP as int) by (nonlinear_arith)
                requires mb as int >= 1 && FP as int >= 0;
        }
    }
    let qi: i64 = q as i64;
    let r: i64 = if (a < 0) != (b < 0) {
        -qi
    } else {
        qi
    };
    proof {
        let ai = a as int;
        let bi = b as int;
        let fp = FP as int;
        lemma_abs_mul(ai, fp);
        assert(sabs(ai * fp) == (ma as int) * fp);
        if bi > 0 {
            lemma_tzdiv_abs(ai * fp, bi);
            assert(sabs(tzdiv(ai * fp, bi)) == (ma as int) * fp / (mb as int));
        } else {
            lemma_tzdiv_abs(-(ai * fp), -bi);
            assert(sabs(-(ai * fp)) == sabs(ai * fp));
            assert(sabs(tzdiv(-(ai * fp), -bi)) == (ma as int) * fp / (mb as int));
        }
    }
    r
}

/// Clamp an `i64` into `[lo, hi]`.
pub fn clamp_fx(x: i64, lo: i64, hi: i64) -> (r: i64)
    requires
        lo <= hi,
    ensures
        r as int == sclamp(x as int, lo as int, hi as int),
{
    if x < lo {
        lo
    } else if x > hi {
        hi
    } else {
        x
    }
}

/// Whether `r` is the integer square root (floor) of `n`.
pub open spec fn is_sqrt(r: int, n: int) -> bool {
    0 <= r && r * r <= n && n < (r + 1) * (r + 1)
}

/// The integer square root (floor) of a non-negative integer.
pub open spec fn sqrt_floor(n: int) -> int {
    choose|r: int| is_sqrt(r, n)
}

pub proof fn lemma_sqrt_exists(n: nat)
    ensures
        is_sqrt(sqrt_floor(n as int), n as int),
    decreases n,
{
    if n == 0 {
        assert(is_sqrt(0, 0)) by (nonlinear_arith);
        assert(is_sqrt(sqrt_floor(0), 0));
    } else {
        lemma_sqrt_exists((n - 1) as nat);
        let r = sqrt_floor(n - 1);
        if n < (r + 1) * (r + 1) {
            assert(is_sqrt(r, n as int));
        } else {
            assert(n == (r + 1) * (r + 1));
            assert(is_sqrt(r + 1, n as int)) by (nonlinear_arith)
                requires r >= 0 && n == (r + 1) * (r + 1);
        }
        assert(is_sqrt(sqrt_floor(n as int), n as int));
    }
}

pub proof fn lemma_sqrt_unique(r: int, n: int)
    requires
        is_sqrt(r, n),
    ensures
        r == sqrt_floor(n),
{
    lemma_sqrt_exists(n as nat);
    let r2 = sqrt_floor(n);
    assert(r == r2) by (nonlinear_arith)
        requires
            0 <= r && r * r <= n && n < (r + 1) * (r + 1),
            0 <= r2 && r2 * r2 <= n && n < (r2 + 1) * (r2 + 1);
}

/// Largest input accepted by `isqrt`.
pub const ISQRT_N_MAX: u128 = 0xFFFF_FFFF_FFFF_FFFF;

/// Integer square root by binary search.
pub fn isqrt(n: u128) -> (r: u64)
    requires
        n <= ISQRT_N_MAX,
    ensures
        r as int == sqrt_floor(n as int),
        is_sqrt(r as int, n as int),
{
    let mut lo: u128 = 0;
    let mut hi: u128 = 0x1_0000_0001;
    proof {
        assert((hi as int) * (hi as int) > n as int) by (nonlinear_arith)
            requires hi as int == 0x1_0000_0001 && n as int <= ISQRT_N_MAX as int;
    }
    while lo + 1 < hi
        invariant
            0 <= lo < hi <= 0x1_0000_0001,
            (lo as int) * (lo as int) <= n as int,
            (n as int) < (hi as int) * (hi as int),
            n <= ISQRT_N_MAX,
        decreases hi - lo,
    {
        let mid: u128 = lo + (hi - lo) / 2;
        proof {
            assert((mid as int) * (mid as int) <= 0x1_0000_0001 * 0x1_0000_0001) by (nonlinear_arith)
                requires 0 <= mid as int <= 0x1_0000_0001;
        }
        if mid * mid <= n {
            lo = mid;
        } else {
            hi = mid;
        }
    }
    proof {
        assert(hi as int == lo as int + 1);
        assert(is_sqrt(lo as int, n as int));
        lemma_sqrt_unique(lo as int, n as int);
    }
    lo as u64
}

} // verus!
