//! The numeric representation shared by all template values.
use vstd::prelude::*;
use vstd::arithmetic::power2::{pow2, lemma_pow2_pos, lemma_pow2_strictly_increases, lemma2_to64};
use core::cmp::Ordering;
use crate::binary::{
    f64_sign_bit, f64_biased_exp, f64_fraction, f64_is_nan, f64_is_infinite, f64_is_finite,
    f64_sig, f64_exp, f32_sign_bit, f32_biased_exp, f32_fraction, f32_is_finite, f32_sig,
    f32_exp, f32_widened, fract_below, is_integral, trunc_magnitude, split_pow2,
    scaled_below_pow2, shifted_left, lemma_f64_fields, lemma_f32_fields, F64_ABS_MASK, F64_FRACTION_MASK, F64_HIDDEN_BIT,
};

verus! {

/// The kind of a number together with its value. A float is held by its
/// binary64 encoding.
#[derive(Clone, Copy, Debug)]
pub enum Num {
    U(u64),
    I(i64),
    F(u64),
}

/// What every stored number satisfies: the signed kind holds only values
/// that came from a negative input (so never a positive one), and a float is
/// never a finite integral value, since those are stored as integers.
pub open spec fn num_wf(n: Num) -> bool {
    match n {
        Num::U(_) => true,
        Num::I(i) => i <= 0,
        Num::F(b) => !(f64_is_finite(b) && is_integral(f64_sig(b), f64_exp(b))),
    }
}

/// A finite value with an integral magnitude `m`, stored in the integer kind
/// its sign selects; magnitudes beyond the kind's range saturate.
pub open spec fn collapsed(neg: bool, m: nat) -> Num {
    if neg {
        Num::I(if m >= 0x8000_0000_0000_0000 { i64::MIN } else { (-m) as i64 })
    } else {
        Num::U(if m > u64::MAX { u64::MAX } else { m as u64 })
    }
}

/// The number an integer is stored as.
pub open spec fn num_of_int(n: int) -> Num {
    if n < 0 {
        Num::I(n as i64)
    } else {
        Num::U(n as u64)
    }
}

/// The number a binary64 value is stored as: one whose fractional part is
/// below the binary64 machine epsilon (2^-52) becomes an integer of the kind
/// its sign selects, truncated towards zero; any other stays a float.
pub open spec fn num_of_f64(b: u64) -> Num {
    if f64_is_finite(b) && fract_below(f64_sig(b), f64_exp(b), 52) {
        collapsed(f64_sign_bit(b), trunc_magnitude(f64_sig(b), f64_exp(b)))
    } else {
        Num::F(b)
    }
}

/// The number a binary32 value is stored as: as for binary64, against the
/// binary32 machine epsilon (2^-23); a float that stays one is widened.
pub open spec fn num_of_f32(b: u32) -> Num {
    if f32_is_finite(b) && fract_below(f32_sig(b), f32_exp(b), 23) {
        collapsed(f32_sign_bit(b), trunc_magnitude(f32_sig(b), f32_exp(b)))
    } else {
        Num::F(f32_widened(b))
    }
}

pub open spec fn cmp_int(x: int, y: int) -> Ordering {
    if x < y {
        Ordering::Less
    } else if x == y {
        Ordering::Equal
    } else {
        Ordering::Greater
    }
}

pub open spec fn reversed(o: Option<Ordering>) -> Option<Ordering> {
    match o {
        Some(Ordering::Less) => Some(Ordering::Greater),
        Some(Ordering::Greater) => Some(Ordering::Less),
        _ => o,
    }
}

/// A key that orders non-NaN binary64 values as their values are ordered
/// (the two zeros share the key 0).
pub open spec fn f64_order_key(b: u64) -> int {
    let m = b & F64_ABS_MASK;
    if f64_sign_bit(b) {
        -(m as int)
    } else {
        m as int
    }
}

/// IEEE-754 equality of two binary64 values.
pub open spec fn f64_eq(a: u64, b: u64) -> bool {
    !f64_is_nan(a) && !f64_is_nan(b) && f64_order_key(a) == f64_order_key(b)
}

/// IEEE-754 partial order of two binary64 values.
pub open spec fn f64_partial_cmp(a: u64, b: u64) -> Option<Ordering> {
    if f64_is_nan(a) || f64_is_nan(b) {
        None
    } else {
        Some(cmp_int(f64_order_key(a), f64_order_key(b)))
    }
}

/// The order of the binary64 value `b` against the integer `o`, both taken
/// exactly.
pub open spec fn f64_cmp_int(b: u64, o: int) -> Option<Ordering> {
    if f64_is_nan(b) {
        None
    } else if f64_is_infinite(b) {
        Some(if f64_sign_bit(b) { Ordering::Less } else { Ordering::Greater })
    } else {
        let s: int = if f64_sign_bit(b) { -(f64_sig(b) as int) } else { f64_sig(b) as int };
        let e = f64_exp(b);
        if e >= 0 {
            Some(cmp_int(s * pow2(e as nat), o))
        } else {
            Some(cmp_int(s, o * pow2((-e) as nat)))
        }
    }
}

/// Equality of numbers: same kind and equal values.
pub open spec fn num_eq(a: Num, b: Num) -> bool {
    match (a, b) {
        (Num::U(x), Num::U(y)) => x == y,
        (Num::I(x), Num::I(y)) => x == y,
        (Num::F(x), Num::F(y)) => f64_eq(x, y),
        _ => false,
    }
}

/// Order of numbers. Within a kind, the kind's own order; a signed number is
/// below every unsigned one whatever their values; a float against an integer
/// compares their values (which is what converting the integer to binary64
/// gives, as a stored float is never a finite integral value).
pub open spec fn num_partial_cmp(a: Num, b: Num) -> Option<Ordering> {
    match (a, b) {
        (Num::U(x), Num::U(y)) => Some(cmp_int(x as int, y as int)),
        (Num::I(x), Num::I(y)) => Some(cmp_int(x as int, y as int)),
        (Num::F(x), Num::F(y)) => f64_partial_cmp(x, y),
        (Num::I(_), Num::U(_)) => Some(Ordering::Less),
        (Num::U(_), Num::I(_)) => Some(Ordering::Greater),
        (Num::F(x), Num::I(y)) => f64_cmp_int(x, y as int),
        (Num::F(x), Num::U(y)) => f64_cmp_int(x, y as int),
        (Num::I(x), Num::F(y)) => reversed(f64_cmp_int(y, x as int)),
        (Num::U(x), Num::F(y)) => reversed(f64_cmp_int(y, x as int)),
    }
}

/// The signed integer a number reads as.
pub open spec fn num_as_i64(n: Num) -> Option<i64> {
    match n {
        Num::U(x) => if x <= i64::MAX { Some(x as i64) } else { None },
        Num::I(x) => Some(x),
        Num::F(_) => None,
    }
}

/// The unsigned integer a number reads as.
pub open spec fn num_as_u64(n: Num) -> Option<u64> {
    match n {
        Num::U(x) => Some(x),
        Num::I(x) => if x >= 0 { Some(x as u64) } else { None },
        Num::F(_) => None,
    }
}

/// The binary64 encoding a number reads as.
pub open spec fn num_as_f64(n: Num) -> Option<u64> {
    match n {
        Num::F(b) => Some(b),
        _ => None,
    }
}

/// A number of one of three kinds: unsigned, signed or floating.
#[derive(Clone, Copy, Debug)]
pub struct Number {
    n: Num,
}

impl View for Number {
    type V = Num;

    closed spec fn view(&self) -> Num {
        self.n
    }
}

impl Number {
    #[verifier::type_invariant]
    closed spec fn inv(self) -> bool {
        num_wf(self.n)
    }

    /// The number an integer is stored as.
    pub fn from_signed(n: i64) -> (r: Number)
        ensures
            r@ == num_of_int(n as int),
    {
        if n < 0 {
            Number { n: Num::I(n) }
        } else {
            Number { n: Num::U(n as u64) }
        }
    }

    /// The number an unsigned integer is stored as.
    pub fn from_unsigned(n: u64) -> (r: Number)
        ensures
            r@ == num_of_int(n as int),
    {
        Number { n: Num::U(n) }
    }

    /// The number a binary64 value, given by its encoding, is stored as.
    pub fn from_f64_bits(b: u64) -> (r: Number)
        ensures
            r@ == num_of_f64(b),
    {
        let exp: u64 = (b >> 52u64) & 0x7ff;
        if exp == 0x7ff {
            return Number { n: Num::F(b) };
        }
        let frac: u64 = b & F64_FRACTION_MASK;
        let neg = (b >> 63u64) == 1;
        proof {
            lemma_f64_fields(b);
        }
        let sig: u64 = if exp == 0 { frac } else { frac + F64_HIDDEN_BIT };
        let e: i64 = if exp == 0 { -1074 } else { exp as i64 - 1075 };
        assert(sig == f64_sig(b) && e == f64_exp(b));
        assert(e >= 0 ==> sig >= 1);
        match integral_part(neg, sig, e, 52) {
            Some(n) => Number { n },
            None => {
                proof {
                    lemma_integral_fract_below(sig as nat, e as int, 52);
                }
                Number { n: Num::F(b) }
            },
        }
    }

    /// The number a binary32 value, given by its encoding, is stored as.
    pub fn from_f32_bits(b: u32) -> (r: Number)
        ensures
            r@ == num_of_f32(b),
    {
        let exp: u32 = (b >> 23u32) & 0xff;
        let frac: u32 = b & 0x7f_ffff;
        proof {
            lemma_f32_fields(b);
        }
        let neg = (b >> 31u32) == 1;
        let sign: u64 = if neg { 0x8000_0000_0000_0000u64 } else { 0u64 };
        let wfrac: u64 = (frac as u64) << 29u64;
        if exp == 0xff {
            let w: u64 = if frac == 0 {
                sign | 0x7ff0_0000_0000_0000u64
            } else {
                sign | 0x7ff8_0000_0000_0000u64 | wfrac
            };
            assert(f64_is_nan(w) || f64_is_infinite(w)) by (bit_vector)
                requires
                    w == (if frac == 0 { sign | 0x7ff0_0000_0000_0000u64 } else { sign | 0x7ff8_0000_0000_0000u64 | wfrac }),
                    sign == 0 || sign == 0x8000_0000_0000_0000u64,
                    frac < 0x80_0000,
                    wfrac == (frac as u64) << 29u64,
            ;
            return Number { n: Num::F(w) };
        }
        let sig: u64 = if exp == 0 { frac as u64 } else { frac as u64 + 0x80_0000u64 };
        let e: i64 = if exp == 0 { -149 } else { exp as i64 - 150 };
        assert(sig == f32_sig(b) && e == f32_exp(b));
        match integral_part(neg, sig, e, 23) {
            Some(n) => Number { n },
            None => {
                let w: u64 = sign | (((exp as u64) + 896) << 52u64) | wfrac;
                proof {
                    lemma_widened_not_integral(b, w);
                }
                Number { n: Num::F(w) }
            },
        }
    }

    /// The kind and value held.
    pub fn num(&self) -> (r: Num)
        ensures
            r == self@,
    {
        self.n
    }

    /// The value as a signed integer: an unsigned number that fits, or a
    /// signed number; nothing for a float.
    pub fn as_i64(&self) -> (r: Option<i64>)
        ensures
            r == num_as_i64(self@),
    {
        match self.n {
            Num::U(n) => {
                if n <= (i64::MAX as u64) {
                    Some(n as i64)
                } else {
                    None
                }
            },
            Num::I(n) => Some(n),
            Num::F(_) => None,
        }
    }

    /// The value as an unsigned integer: an unsigned number, or a signed
    /// number that is not negative; nothing for a float.
    pub fn as_u64(&self) -> (r: Option<u64>)
        ensures
            r == num_as_u64(self@),
    {
        match self.n {
            Num::U(n) => Some(n),
            Num::I(n) => {
                if n >= 0 {
                    Some(n as u64)
                } else {
                    None
                }
            },
            Num::F(_) => None,
        }
    }

    /// The binary64 encoding of a float; nothing for an integer.
    pub fn as_f64(&self) -> (r: Option<u64>)
        ensures
            r == num_as_f64(self@),
    {
        match self.n {
            Num::F(b) => Some(b),
            _ => None,
        }
    }
}

/// A fractional part below `2^-p` (`p >= 0`) is one that is not above zero
/// by a full unit: an integral value has it.
proof fn lemma_integral_fract_below(sig: nat, e: int, p: nat)
    ensures
        is_integral(sig, e) ==> fract_below(sig, e, p),
{
    if e < 0 {
        lemma_pow2_pos((-e) as nat);
    }
}

/// A binary32 value that keeps its float kind widens to a binary64 value that
/// is not a finite integral value.
proof fn lemma_widened_not_integral(b: u32, w: u64)
    requires
        f32_is_finite(b),
        !fract_below(f32_sig(b), f32_exp(b), 23),
        w == f32_widened(b),
    ensures
        !(f64_is_finite(w) && is_integral(f64_sig(w), f64_exp(w))),
{
    let exp = f32_biased_exp(b);
    let frac = f32_fraction(b);
    assert(frac < 0x80_0000 && exp <= 0xff) by (bit_vector)
        requires
            frac == b & 0x7f_ffff,
            exp == (b >> 23u32) & 0xff,
    ;
    lemma2_to64();
    if exp == 0 {
        // a subnormal binary32 value is below its epsilon
        vstd::arithmetic::power2::lemma_pow2_adds(23, 23);
        lemma_pow2_strictly_increases(46, 149);
        vstd::arithmetic::div_mod::lemma_small_mod(frac as nat, pow2(149));
        assert(frac * pow2(23) < pow2(46)) by (nonlinear_arith)
            requires
                frac < pow2(23),
                pow2(23) > 0,
                pow2(46) == pow2(23) * pow2(23),
        ;
        assert(false);
    }
    let e32 = f32_exp(b);
    assert(e32 < 0);
    let k32 = (-e32) as nat;
    let sign: u64 = if f32_sign_bit(b) { 0x8000_0000_0000_0000u64 } else { 0u64 };
    let wfrac: u64 = (frac as u64) << 29u64;
    assert(w == sign | ((((exp + 896) as u64)) << 52u64) | wfrac);
    let ex64: u64 = (exp + 896) as u64;
    assert(f64_biased_exp(w) == ex64 && f64_fraction(w) == wfrac && wfrac == (frac as u64) * 0x2000_0000u64) by (bit_vector)
        requires
            w == sign | (ex64 << 52u64) | wfrac,
            sign == 0 || sign == 0x8000_0000_0000_0000u64,
            frac < 0x80_0000,
            wfrac == (frac as u64) << 29u64,
            897 <= ex64 <= 1150,
    ;
    let q = pow2(29) as int;
    let pk = pow2(k32) as int;
    vstd::arithmetic::power2::lemma_pow2_adds(23, 29);
    vstd::arithmetic::power2::lemma_pow2_adds(k32, 29);
    lemma_pow2_pos(k32);
    assert(f64_sig(w) == f32_sig(b) * q);
    assert(f64_exp(w) == e32 - 29);
    if f64_is_finite(w) && is_integral(f64_sig(w), f64_exp(w)) {
        let s64 = f64_sig(w) as int;
        let s32 = f32_sig(b) as int;
        vstd::arithmetic::div_mod::lemma_fundamental_div_mod(s64, pk * q);
        let m = s64 / (pk * q);
        assert(s32 == m * pk) by (nonlinear_arith)
            requires
                s64 == s32 * q,
                s64 == (pk * q) * m + 0,
                q > 0,
        ;
        vstd::arithmetic::div_mod::lemma_mod_multiples_basic(m, pk);
        assert(s32 % pk == 0);
        assert(fract_below(f32_sig(b), e32, 23));
    }
}

/// The integer a finite value `(-1)^neg * sig * 2^e` is stored as when its
/// fractional part is below `2^-p`; nothing otherwise.
fn integral_part(neg: bool, sig: u64, e: i64, p: u64) -> (r: Option<Num>)
    requires
        p <= 52,
        -1100 <= e <= 1100,
        e >= 0 ==> sig >= 1,
    ensures
        r == (if fract_below(sig as nat, e as int, p as nat) {
            Some(collapsed(neg, trunc_magnitude(sig as nat, e as int)))
        } else {
            None
        }),
        r matches Some(n) ==> num_wf(n),
{
    if e >= 0 {
        let m: Option<u64> = if e >= 64 {
            proof {
                lemma2_to64();
                if e > 64 {
                    lemma_pow2_strictly_increases(64, e as nat);
                }
                assert(sig * pow2(e as nat) >= pow2(e as nat)) by (nonlinear_arith)
                    requires
                        sig >= 1,
                ;
            }
            None
        } else {
            shifted_left(sig, e as u64)
        };
        Some(saturated(neg, m, Ghost(trunc_magnitude(sig as nat, e as int))))
    } else {
        let k: u64 = (-e) as u64;
        let (q, rem) = split_pow2(sig, k);
        if scaled_below_pow2(rem, p, k) {
            Some(saturated(neg, Some(q), Ghost(trunc_magnitude(sig as nat, e as int))))
        } else {
            None
        }
    }
}

/// The integer a magnitude `m` (`None`: above `u64::MAX`) is stored as.
fn saturated(neg: bool, m: Option<u64>, Ghost(mag): Ghost<nat>) -> (r: Num)
    requires
        match m {
            Some(x) => x == mag,
            None => mag > u64::MAX,
        },
    ensures
        r == collapsed(neg, mag),
        num_wf(r),
{
    match m {
        None => if neg { Num::I(i64::MIN) } else { Num::U(u64::MAX) },
        Some(x) => {
            if !neg {
                Num::U(x)
            } else if x >= 0x8000_0000_0000_0000u64 {
                Num::I(i64::MIN)
            } else {
                Num::I(-(x as i64))
            }
        },
    }
}

/// `cmp_int` on machine integers.
fn cmp_i128(x: i128, y: i128) -> (r: Ordering)
    ensures
        r == cmp_int(x as int, y as int),
{
    if x < y {
        Ordering::Less
    } else if x == y {
        Ordering::Equal
    } else {
        Ordering::Greater
    }
}

/// `f64_cmp_int` for an integer of at most 64 bits.
fn cmp_f64_int(b: u64, o: i128) -> (r: Option<Ordering>)
    requires
        -0x1_0000_0000_0000_0000 < o < 0x1_0000_0000_0000_0000,
    ensures
        r == f64_cmp_int(b, o as int),
{
    let exp: u64 = (b >> 52u64) & 0x7ff;
    let frac: u64 = b & F64_FRACTION_MASK;
    let neg = (b >> 63u64) == 1;
    if exp == 0x7ff {
        return if frac != 0 {
            None
        } else if neg {
            Some(Ordering::Less)
        } else {
            Some(Ordering::Greater)
        };
    }
    proof {
        lemma_f64_fields(b);
    }
    let sig: u64 = if exp == 0 { frac } else { frac + F64_HIDDEN_BIT };
    let e: i64 = if exp == 0 { -1074 } else { exp as i64 - 1075 };
    assert(sig == f64_sig(b) && e == f64_exp(b));
    let ghost s_spec: int = if neg { -(sig as int) } else { sig as int };
    if e >= 0 {
        let m: Option<u64> = if e >= 64 { None } else { shifted_left(sig, e as u64) };
        match m {
            None => {
                proof {
                    lemma2_to64();
                    if e >= 64 {
                        if e > 64 {
                            lemma_pow2_strictly_increases(64, e as nat);
                        }
                        assert(sig * pow2(e as nat) >= pow2(e as nat)) by (nonlinear_arith)
                            requires
                                sig >= 1,
                        ;
                    }
                    let p = pow2(e as nat) as int;
                    if neg {
                        assert(s_spec * p == -(sig * p)) by (nonlinear_arith)
                            requires
                                s_spec == -(sig as int),
                        ;
                    }
                }
                if neg {
                    Some(Ordering::Less)
                } else {
                    Some(Ordering::Greater)
                }
            },
            Some(x) => {
                let s: i128 = if neg { -(x as i128) } else { x as i128 };
                proof {
                    let p = pow2(e as nat) as int;
                    if neg {
                        assert(s_spec * p == -(sig * p)) by (nonlinear_arith)
                            requires
                                s_spec == -(sig as int),
                        ;
                    }
                }
                Some(cmp_i128(s, o))
            },
        }
    } else {
        let k: u64 = (-e) as u64;
        let (q, rem) = split_pow2(sig, k);
        let fl: i128 = if !neg {
            q as i128
        } else if rem == 0 {
            -(q as i128)
        } else {
            -(q as i128) - 1
        };
        let res = if fl < o {
            Ordering::Less
        } else if fl == o && rem == 0 {
            Ordering::Equal
        } else {
            Ordering::Greater
        };
        proof {
            let pk = pow2(k as nat) as int;
            lemma_pow2_pos(k as nat);
            vstd::arithmetic::div_mod::lemma_fundamental_div_mod(sig as int, pk);
            let r: int = if !neg || rem == 0 { rem as int } else { pk - rem };
            assert(s_spec == fl * pk + r) by (nonlinear_arith)
                requires
                    sig == q * pk + rem,
                    s_spec == (if neg { -(sig as int) } else { sig as int }),
                    fl == (if !neg { q as int } else if rem == 0 { -(q as int) } else { -(q as int) - 1 }),
                    r == (if !neg || rem == 0 { rem as int } else { pk - rem }),
            ;
            assert(0 <= r < pk);
            assert(r == 0 <==> rem == 0);
            assert(res == cmp_int(s_spec, o * pk)) by (nonlinear_arith)
                requires
                    s_spec == fl * pk + r,
                    0 <= r < pk,
                    r == 0 <==> rem == 0,
                    res == (if fl < o { Ordering::Less } else if fl == o && rem == 0 { Ordering::Equal } else { Ordering::Greater }),
                    cmp_int(s_spec, o * pk) == (if s_spec < o * pk { Ordering::Less } else if s_spec == o * pk { Ordering::Equal } else { Ordering::Greater }),
            ;
        }
        Some(res)
    }
}

/// Two binary64 encodings have the same order key exactly when they are the
/// same encoding or both zeros.
proof fn lemma_f64_key_eq(a: u64, b: u64)
    ensures
        (f64_order_key(a) == f64_order_key(b)) == (a == b || ((a & F64_ABS_MASK) == 0 && (b & F64_ABS_MASK) == 0)),
{
    assert(a == b <==> ((a >> 63u64) == (b >> 63u64) && (a & 0x7fff_ffff_ffff_ffffu64) == (b & 0x7fff_ffff_ffff_ffffu64))) by (bit_vector);
    assert((a >> 63u64) <= 1 && (b >> 63u64) <= 1) by (bit_vector);
}

impl From<i8> for Number {
    fn from(n: i8) -> (r: Number)
        ensures
            r@ == num_of_int(n as int),
    {
        Number::from_signed(n as i64)
    }
}

impl vstd::std_specs::convert::FromSpecImpl<i8> for Number {
    open spec fn obeys_from_spec() -> bool {
        true
    }

    closed spec fn from_spec(n: i8) -> Number {
        Number { n: num_of_int(n as int) }
    }
}

impl From<i16> for Number {
    fn from(n: i16) -> (r: Number)
        ensures
            r@ == num_of_int(n as int),
    {
        Number::from_signed(n as i64)
    }
}

impl vstd::std_specs::convert::FromSpecImpl<i16> for Number {
    open spec fn obeys_from_spec() -> bool {
        true
    }

    closed spec fn from_spec(n: i16) -> Number {
        Number { n: num_of_int(n as int) }
    }
}

impl From<i32> for Number {
    fn from(n: i32) -> (r: Number)
        ensures
            r@ == num_of_int(n as int),
    {
        Number::from_signed(n as i64)
    }
}

impl vstd::std_specs::convert::FromSpecImpl<i32> for Number {
    open spec fn obeys_from_spec() -> bool {
        true
    }

    closed spec fn from_spec(n: i32) -> Number {
        Number { n: num_of_int(n as int) }
    }
}

impl From<i64> for Number {
    fn from(n: i64) -> (r: Number)
        ensures
            r@ == num_of_int(n as int),
    {
        Number::from_signed(n as i64)
    }
}

impl vstd::std_specs::convert::FromSpecImpl<i64> for Number {
    open spec fn obeys_from_spec() -> bool {
        true
    }

    closed spec fn from_spec(n: i64) -> Number {
        Number { n: num_of_int(n as int) }
    }
}

impl From<isize> for Number {
    fn from(n: isize) -> (r: Number)
        ensures
            r@ == num_of_int(n as int),
    {
        Number::from_signed(n as i64)
    }
}

impl vstd::std_specs::convert::FromSpecImpl<isize> for Number {
    open spec fn obeys_from_spec() -> bool {
        true
    }

    closed spec fn from_spec(n: isize) -> Number {
        Number { n: num_of_int(n as int) }
    }
}

impl From<u8> for Number {
    fn from(n: u8) -> (r: Number)
        ensures
            r@ == num_of_int(n as int),
    {
        Number::from_unsigned(n as u64)
    }
}

impl vstd::std_specs::convert::FromSpecImpl<u8> for Number {
    open spec fn obeys_from_spec() -> bool {
        true
    }

    closed spec fn from_spec(n: u8) -> Number {
        Number { n: num_of_int(n as int) }
    }
}

impl From<u16> for Number {
    fn from(n: u16) -> (r: Number)
        ensures
            r@ == num_of_int(n as int),
    {
        Number::from_unsigned(n as u64)
    }
}

impl vstd::std_specs::convert::FromSpecImpl<u16> for Number {
    open spec fn obeys_from_spec() -> bool {
        true
    }

    closed spec fn from_spec(n: u16) -> Number {
        Number { n: num_of_int(n as int) }
    }
}

impl From<u32> for Number {
    fn from(n: u32) -> (r: Number)
        ensures
            r@ == num_of_int(n as int),
    {
        Number::from_unsigned(n as u64)
    }
}

impl vstd::std_specs::convert::FromSpecImpl<u32> for Number {
    open spec fn obeys_from_spec() -> bool {
        true
    }

    closed spec fn from_spec(n: u32) -> Number {
        Number { n: num_of_int(n as int) }
    }
}

impl From<u64> for Number {
    fn from(n: u64) -> (r: Number)
        ensures
            r@ == num_of_int(n as int),
    {
        Number::from_unsigned(n as u64)
    }
}

impl vstd::std_specs::convert::FromSpecImpl<u64> for Number {
    open spec fn obeys_from_spec() -> bool {
        true
    }

    closed spec fn from_spec(n: u64) -> Number {
        Number { n: num_of_int(n as int) }
    }
}

impl From<usize> for Number {
    fn from(n: usize) -> (r: Number)
        ensures
            r@ == num_of_int(n as int),
    {
        Number::from_unsigned(n as u64)
    }
}

impl vstd::std_specs::convert::FromSpecImpl<usize> for Number {
    open spec fn obeys_from_spec() -> bool {
        true
    }

    closed spec fn from_spec(n: usize) -> Number {
        Number { n: num_of_int(n as int) }
    }
}

impl PartialEq for Number {
    fn eq(&self, other: &Number) -> (r: bool) {
        match (self.n, other.n) {
            (Num::U(s), Num::U(o)) => s == o,
            (Num::I(s), Num::I(o)) => s == o,
            (Num::F(s), Num::F(o)) => {
                let sn = (s >> 52u64) & 0x7ff == 0x7ff && s & F64_FRACTION_MASK != 0;
                let on = (o >> 52u64) & 0x7ff == 0x7ff && o & F64_FRACTION_MASK != 0;
                let sm = s & F64_ABS_MASK;
                let om = o & F64_ABS_MASK;
                proof {
                    lemma_f64_key_eq(s, o);
                }
                !sn && !on && (s == o || (sm == 0 && om == 0))
            },
            _ => false,
        }
    }
}

impl vstd::std_specs::cmp::PartialEqSpecImpl for Number {
    open spec fn obeys_eq_spec() -> bool {
        true
    }

    open spec fn eq_spec(&self, other: &Number) -> bool {
        num_eq(self@, other@)
    }
}

impl PartialOrd for Number {
    fn partial_cmp(&self, other: &Number) -> (r: Option<Ordering>) {
        match (self.n, other.n) {
            (Num::U(s), Num::U(o)) => Some(cmp_i128(s as i128, o as i128)),
            (Num::I(s), Num::I(o)) => Some(cmp_i128(s as i128, o as i128)),
            (Num::F(s), Num::F(o)) => {
                let sn = (s >> 52u64) & 0x7ff == 0x7ff && s & F64_FRACTION_MASK != 0;
                let on = (o >> 52u64) & 0x7ff == 0x7ff && o & F64_FRACTION_MASK != 0;
                if sn || on {
                    None
                } else {
                    let sk: i128 = if (s >> 63u64) == 1 { -((s & F64_ABS_MASK) as i128) } else { (s & F64_ABS_MASK) as i128 };
                    let ok: i128 = if (o >> 63u64) == 1 { -((o & F64_ABS_MASK) as i128) } else { (o & F64_ABS_MASK) as i128 };
                    Some(cmp_i128(sk, ok))
                }
            },
            (Num::I(_), Num::U(_)) => Some(Ordering::Less),
            (Num::U(_), Num::I(_)) => Some(Ordering::Greater),
            (Num::F(s), Num::I(o)) => cmp_f64_int(s, o as i128),
            (Num::F(s), Num::U(o)) => cmp_f64_int(s, o as i128),
            (Num::I(s), Num::F(o)) => reverse(cmp_f64_int(o, s as i128)),
            (Num::U(s), Num::F(o)) => reverse(cmp_f64_int(o, s as i128)),
        }
    }
}

impl vstd::std_specs::cmp::PartialOrdSpecImpl for Number {
    open spec fn obeys_partial_cmp_spec() -> bool {
        true
    }

    open spec fn partial_cmp_spec(&self, other: &Number) -> Option<Ordering> {
        num_partial_cmp(self@, other@)
    }
}

fn reverse(o: Option<Ordering>) -> (r: Option<Ordering>)
    ensures
        r == reversed(o),
{
    match o {
        Some(Ordering::Less) => Some(Ordering::Greater),
        Some(Ordering::Greater) => Some(Ordering::Less),
        _ => o,
    }
}

} // verus!
