//! IEEE-754 binary encodings, read as plain integers.
//!
//! A binary64 value is held here by its 64-bit encoding and a binary32 value
//! by its 32-bit encoding. The spec functions below decode a finite encoding
//! into a significand `sig` and an exponent `e`, so that its magnitude is
//! `sig * 2^e`.
use vstd::prelude::*;
use vstd::arithmetic::power2::{pow2, lemma_pow2_pos, lemma_pow2_adds, lemma_pow2_strictly_increases, lemma2_to64};
use vstd::bits::{lemma_u64_shr_is_div, lemma_u64_shl_is_mul, lemma_u64_low_bits_mask_is_mod, lemma_u64_pow2_no_overflow, lemma_u64_mul_pow2_le_max_iff_max_shr, low_bits_mask};

verus! {

/// A binary64 value, given by its encoding.
#[derive(Clone, Copy, Debug)]
pub struct Binary64(pub u64);

/// A binary32 value, given by its encoding.
#[derive(Clone, Copy, Debug)]
pub struct Binary32(pub u32);

/// Mask of the magnitude bits of a binary64 encoding (all but the sign).
pub const F64_ABS_MASK: u64 = 0x7fff_ffff_ffff_ffff;

/// Mask of the fraction field of a binary64 encoding.
pub const F64_FRACTION_MASK: u64 = 0x000f_ffff_ffff_ffff;

/// The implicit leading significand bit of a normal binary64 value.
pub const F64_HIDDEN_BIT: u64 = 0x0010_0000_0000_0000;

pub open spec fn f64_sign_bit(b: u64) -> bool {
    (b >> 63u64) == 1
}

pub open spec fn f64_biased_exp(b: u64) -> u64 {
    (b >> 52u64) & 0x7ff
}

pub open spec fn f64_fraction(b: u64) -> u64 {
    b & F64_FRACTION_MASK
}

pub open spec fn f64_is_nan(b: u64) -> bool {
    f64_biased_exp(b) == 0x7ff && f64_fraction(b) != 0
}

pub open spec fn f64_is_infinite(b: u64) -> bool {
    f64_biased_exp(b) == 0x7ff && f64_fraction(b) == 0
}

pub open spec fn f64_is_finite(b: u64) -> bool {
    f64_biased_exp(b) != 0x7ff
}

/// Significand of a finite binary64 encoding.
pub open spec fn f64_sig(b: u64) -> nat {
    if f64_biased_exp(b) == 0 {
        f64_fraction(b) as nat
    } else {
        (f64_fraction(b) + pow2(52)) as nat
    }
}

/// Exponent of a finite binary64 encoding: its magnitude is `f64_sig(b) * 2^f64_exp(b)`.
pub open spec fn f64_exp(b: u64) -> int {
    if f64_biased_exp(b) == 0 {
        -1074
    } else {
        f64_biased_exp(b) - 1075
    }
}

pub open spec fn f32_sign_bit(b: u32) -> bool {
    (b >> 31u32) == 1
}

pub open spec fn f32_biased_exp(b: u32) -> u32 {
    (b >> 23u32) & 0xff
}

pub open spec fn f32_fraction(b: u32) -> u32 {
    b & 0x7f_ffff
}

pub open spec fn f32_is_finite(b: u32) -> bool {
    f32_biased_exp(b) != 0xff
}

/// Significand of a finite binary32 encoding.
pub open spec fn f32_sig(b: u32) -> nat {
    if f32_biased_exp(b) == 0 {
        f32_fraction(b) as nat
    } else {
        (f32_fraction(b) + pow2(23)) as nat
    }
}

/// Exponent of a finite binary32 encoding: its magnitude is `f32_sig(b) * 2^f32_exp(b)`.
pub open spec fn f32_exp(b: u32) -> int {
    if f32_biased_exp(b) == 0 {
        -149
    } else {
        f32_biased_exp(b) - 150
    }
}

/// The binary64 encoding of a binary32 value that is normal, infinite or NaN
/// (NaN payload kept and marked quiet). Widening is exact on these values.
pub open spec fn f32_widened(b: u32) -> u64 {
    let sign: u64 = if f32_sign_bit(b) { 0x8000_0000_0000_0000u64 } else { 0u64 };
    let frac: u64 = (f32_fraction(b) as u64) << 29u64;
    if f32_biased_exp(b) == 0xff {
        if f32_fraction(b) == 0 {
            sign | 0x7ff0_0000_0000_0000u64
        } else {
            sign | 0x7ff8_0000_0000_0000u64 | frac
        }
    } else {
        sign | ((((f32_biased_exp(b) + 896) as u64)) << 52u64) | frac
    }
}

pub proof fn lemma_f64_fields(b: u64)
    ensures
        f64_biased_exp(b) <= 0x7ff,
        f64_fraction(b) < F64_HIDDEN_BIT,
        F64_HIDDEN_BIT == pow2(52),
{
    assert((b >> 52u64) & 0x7ff <= 0x7ff) by (bit_vector);
    assert(b & 0x000f_ffff_ffff_ffffu64 < 0x0010_0000_0000_0000u64) by (bit_vector);
    lemma2_to64();
    vstd::arithmetic::power2::lemma2_to64_rest();
}

pub proof fn lemma_f32_fields(b: u32)
    ensures
        f32_biased_exp(b) <= 0xff,
        f32_fraction(b) < 0x80_0000,
        0x80_0000 == pow2(23),
{
    assert((b >> 23u32) & 0xff <= 0xff) by (bit_vector);
    assert(b & 0x7f_ffffu32 < 0x80_0000u32) by (bit_vector);
    lemma2_to64();
}

/// Whether the fractional part of `sig * 2^e` is below `2^-p` in magnitude.
pub open spec fn fract_below(sig: nat, e: int, p: nat) -> bool {
    e >= 0 || (sig % pow2((-e) as nat)) * pow2(p) < pow2((-e) as nat)
}

/// Whether `sig * 2^e` is an integer.
pub open spec fn is_integral(sig: nat, e: int) -> bool {
    e >= 0 || sig % pow2((-e) as nat) == 0
}

/// The magnitude of `sig * 2^e` truncated towards zero.
pub open spec fn trunc_magnitude(sig: nat, e: int) -> nat {
    if e >= 0 {
        sig * pow2(e as nat)
    } else {
        sig / pow2((-e) as nat)
    }
}

/// Quotient and remainder of `sig` by `2^k`.
pub(crate) fn split_pow2(sig: u64, k: u64) -> (r: (u64, u64))
    ensures
        r.0 == sig as nat / pow2(k as nat),
        r.1 == sig as nat % pow2(k as nat),
{
    if k >= 64 {
        proof {
            lemma2_to64();
            if k > 64 {
                lemma_pow2_strictly_increases(64, k as nat);
            }
            assert(sig < pow2(k as nat));
            let d = pow2(k as nat) as int;
            assert((sig as int) / d == 0) by (nonlinear_arith)
                requires
                    0 <= sig < d,
            ;
            vstd::arithmetic::div_mod::lemma_small_mod(sig as nat, pow2(k as nat));
        }
        (0, sig)
    } else {
        proof {
            lemma_u64_shr_is_div(sig, k);
            lemma_u64_low_bits_mask_is_mod(sig, k as nat);
            lemma_u64_pow2_no_overflow(k as nat);
            lemma_u64_shl_is_mul(1, k);
            lemma_pow2_pos(k as nat);
        }
        let p: u64 = 1u64 << k;
        let mask: u64 = p - 1;
        assert(mask == low_bits_mask(k as nat));
        (sig >> k, sig & mask)
    }
}

/// Whether `rem * 2^p < 2^k`, for `p <= 52`.
pub(crate) fn scaled_below_pow2(rem: u64, p: u64, k: u64) -> (r: bool)
    requires
        p <= 52,
    ensures
        r == (rem * pow2(p as nat) < pow2(k as nat)),
{
    proof {
        lemma_pow2_pos(p as nat);
        lemma_pow2_pos(k as nat);
    }
    if k < p {
        proof {
            lemma_pow2_strictly_increases(k as nat, p as nat);
            let a = rem as int;
            let pp = pow2(p as nat) as int;
            let pk = pow2(k as nat) as int;
            assert(a * pp < pk <==> a == 0) by (nonlinear_arith)
                requires
                    a >= 0,
                    0 < pk < pp,
            ;
        }
        rem == 0
    } else {
        let d: u64 = k - p;
        proof {
            lemma_pow2_adds(d as nat, p as nat);
            lemma_pow2_pos(d as nat);
            let a = rem as int;
            let pp = pow2(p as nat) as int;
            let pd = pow2(d as nat) as int;
            assert(a * pp < pd * pp <==> a < pd) by (nonlinear_arith)
                requires
                    pp > 0,
            ;
        }
        if d >= 64 {
            proof {
                lemma2_to64();
                if d > 64 {
                    lemma_pow2_strictly_increases(64, d as nat);
                }
            }
            true
        } else {
            proof {
                lemma_u64_pow2_no_overflow(d as nat);
                lemma_u64_shl_is_mul(1, d);
            }
            rem < (1u64 << d)
        }
    }
}

/// `sig * 2^e` for `0 <= e < 64`, or `None` where it exceeds `u64::MAX`.
pub(crate) fn shifted_left(sig: u64, e: u64) -> (r: Option<u64>)
    requires
        e < 64,
    ensures
        match r {
            Some(m) => m == sig * pow2(e as nat),
            None => sig * pow2(e as nat) > u64::MAX,
        },
{
    proof {
        lemma_u64_mul_pow2_le_max_iff_max_shr(sig, e, u64::MAX);
    }
    if sig <= (u64::MAX >> e) {
        proof {
            lemma_u64_shl_is_mul(sig, e);
        }
        Some(sig << e)
    } else {
        None
    }
}

} // verus!
