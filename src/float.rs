//! IEEE-754 binary32 values held as their bit patterns: comparison,
//! truthiness, and conversion to and from integers, as Rust's `==`, `<`,
//! `!= 0.0` and `as` casts define them.
use vstd::arithmetic::div_mod::{
    lemma_basic_div, lemma_div_denominator, lemma_div_is_ordered_by_denominator,
    lemma_div_multiples_vanish, lemma_div_multiples_vanish_quotient,
};
use vstd::arithmetic::power2::{
    lemma2_to64, lemma_pow2_adds, lemma_pow2_pos, lemma_pow2_strictly_increases, pow2,
};
use vstd::prelude::*;

verus! {

/// The bits of `1.0f32`.
pub const FLOAT_ONE: u32 = 0x3F80_0000;

/// The bits of `0.0f32`.
pub const FLOAT_ZERO: u32 = 0;

/// A float whose exponent bits are all set and whose mantissa is not zero.
pub open spec fn float_is_nan(bits: u32) -> bool {
    bits % 0x8000_0000 > 0x7F80_0000
}

/// Position of a non-NaN float on the number line, as an integer key that
/// orders floats exactly as their values are ordered (both zeros map to 0).
pub open spec fn float_key(bits: u32) -> int {
    if bits >= 0x8000_0000 {
        -((bits - 0x8000_0000) as int)
    } else {
        bits as int
    }
}

/// `l == r` on floats: false where either is NaN, and `-0.0 == 0.0`.
pub open spec fn float_eq(l: u32, r: u32) -> bool {
    !float_is_nan(l) && !float_is_nan(r) && float_key(l) == float_key(r)
}

/// `l < r` on floats: false where either is NaN.
pub open spec fn float_lt(l: u32, r: u32) -> bool {
    !float_is_nan(l) && !float_is_nan(r) && float_key(l) < float_key(r)
}

/// `f != 0.0`: every float but the two zeros (NaN included).
pub open spec fn float_nonzero(bits: u32) -> bool {
    bits % 0x8000_0000 != 0
}

fn is_nan_bits(bits: u32) -> (r: bool)
    ensures
        r == float_is_nan(bits),
{
    bits % 0x8000_0000 > 0x7F80_0000
}

fn float_key_exec(bits: u32) -> (r: i64)
    ensures
        r == float_key(bits),
{
    if bits >= 0x8000_0000 {
        -((bits - 0x8000_0000) as i64)
    } else {
        bits as i64
    }
}

/// `l == r` on two float bit patterns.
pub fn float_equal(l: u32, r: u32) -> (res: bool)
    ensures
        res == float_eq(l, r),
{
    !is_nan_bits(l) && !is_nan_bits(r) && float_key_exec(l) == float_key_exec(r)
}

/// `l < r` on two float bit patterns.
pub fn float_less(l: u32, r: u32) -> (res: bool)
    ensures
        res == float_lt(l, r),
{
    !is_nan_bits(l) && !is_nan_bits(r) && float_key_exec(l) < float_key_exec(r)
}

/// The biased exponent field of a float, 0 to 255.
pub open spec fn float_exp_field(bits: u32) -> nat {
    ((bits % 0x8000_0000) / 0x80_0000) as nat
}

/// The significand as an integer: the mantissa bits, with the implicit
/// leading one unless the float is subnormal.
pub open spec fn float_significand(bits: u32) -> nat {
    if float_exp_field(bits) == 0 {
        (bits % 0x80_0000) as nat
    } else {
        (bits % 0x80_0000 + 0x80_0000) as nat
    }
}

/// The exponent that scales the significand, offset by 150: the value's
/// magnitude is `significand * 2^(scale - 150)`.
pub open spec fn float_scale(bits: u32) -> nat {
    if float_exp_field(bits) == 0 {
        1
    } else {
        float_exp_field(bits)
    }
}

/// The magnitude of a float truncated toward zero (infinity counts as `2^128`).
pub open spec fn float_trunc_magnitude(bits: u32) -> nat {
    (float_significand(bits) * pow2(float_scale(bits))) / pow2(150)
}

/// `f as i32`: truncation toward zero, saturating at the bounds, NaN to 0.
pub open spec fn spec_float_to_int(bits: u32) -> i32 {
    let mag = float_trunc_magnitude(bits) as int;
    let v = if bits >= 0x8000_0000 {
        -mag
    } else {
        mag
    };
    if float_is_nan(bits) {
        0
    } else if v > i32::MAX {
        i32::MAX
    } else if v < i32::MIN {
        i32::MIN
    } else {
        v as i32
    }
}

/// `f as u32`: truncation toward zero, saturating at the bounds (every
/// negative float gives 0), NaN to 0.
pub open spec fn spec_float_to_ptr(bits: u32) -> u32 {
    let mag = float_trunc_magnitude(bits);
    if float_is_nan(bits) || bits >= 0x8000_0000 {
        0
    } else if mag > u32::MAX {
        u32::MAX
    } else {
        mag as u32
    }
}

proof fn lemma_halve(s: nat, i: nat)
    ensures
        (s / pow2(i)) / 2 == s / pow2(i + 1),
{
    lemma_pow2_pos(i);
    lemma2_to64();
    lemma_pow2_adds(i, 1);
    lemma_div_denominator(s as int, pow2(i) as int, 2);
}

proof fn lemma_double(s: nat, i: nat)
    ensures
        s * pow2(i) * 2 == s * pow2(i + 1),
{
    lemma2_to64();
    lemma_pow2_adds(i, 1);
    assert(s * pow2(i) * 2 == s * (pow2(i) * 2)) by (nonlinear_arith);
}

proof fn lemma_magnitude_small_scale(s: nat, sc: nat, k: nat)
    requires
        sc + k == 150,
    ensures
        (s * pow2(sc)) / pow2(150) == s / pow2(k),
{
    lemma_pow2_pos(sc);
    lemma_pow2_pos(k);
    lemma_pow2_adds(sc, k);
    lemma_div_multiples_vanish_quotient(pow2(sc) as int, s as int, pow2(k) as int);
    assert(pow2(sc) * s == s * pow2(sc)) by (nonlinear_arith);
}

proof fn lemma_magnitude_large_scale(s: nat, k: nat)
    ensures
        (s * pow2(150 + k)) / pow2(150) == s * pow2(k),
{
    lemma_pow2_pos(150);
    lemma_pow2_adds(150, k);
    assert(s * (pow2(150) * pow2(k)) == pow2(150) * (s * pow2(k))) by (nonlinear_arith);
    lemma_div_multiples_vanish((s * pow2(k)) as int, pow2(150) as int);
}

/// The truncated magnitude, capped at `2^33`.
fn trunc_magnitude_capped(bits: u32) -> (r: u64)
    ensures
        r == if float_trunc_magnitude(bits) > 0x2_0000_0000 {
            0x2_0000_0000
        } else {
            float_trunc_magnitude(bits)
        },
{
    let e = (bits % 0x8000_0000) / 0x80_0000;
    let m = bits % 0x80_0000;
    let sig: u64 = if e == 0 {
        m as u64
    } else {
        (m + 0x80_0000) as u64
    };
    let scale: u32 = if e == 0 {
        1
    } else {
        e
    };
    let ghost s = sig as nat;
    assert(s == float_significand(bits) && scale == float_scale(bits));
    assert(s < 0x100_0000);
    proof {
        lemma2_to64();
    }
    if scale <= 150 {
        let k: u32 = 150 - scale;
        proof {
            lemma_magnitude_small_scale(s, scale as nat, k as nat);
        }
        if k >= 32 {
            proof {
                lemma_pow2_strictly_increases(24, k as nat);
                lemma_basic_div(s as int, pow2(k as nat) as int);
            }
            return 0;
        }
        let mut v: u64 = sig;
        let mut i: u32 = 0;
        while i < k
            invariant
                i <= k,
                v == s / pow2(i as nat),
            decreases k - i,
        {
            proof {
                lemma_halve(s, i as nat);
            }
            v = v / 2;
            i = i + 1;
        }
        proof {
            lemma_pow2_pos(k as nat);
            lemma_div_is_ordered_by_denominator(s as int, 1, pow2(k as nat) as int);
        }
        v
    } else {
        let k: u32 = scale - 150;
        proof {
            lemma_magnitude_large_scale(s, k as nat);
            assert(s >= 0x80_0000);
        }
        if k >= 10 {
            proof {
                if k > 10 {
                    lemma_pow2_strictly_increases(10, k as nat);
                }
                assert(s * pow2(k as nat) >= 0x80_0000 * 0x400) by (nonlinear_arith)
                    requires
                        s >= 0x80_0000,
                        pow2(k as nat) >= 0x400,
                ;
            }
            return 0x2_0000_0000;
        }
        let mut v: u64 = sig;
        let mut i: u32 = 0;
        while i < k
            invariant
                i <= k,
                k < 10,
                s < 0x100_0000,
                v == s * pow2(i as nat),
            decreases k - i,
        {
            proof {
                lemma_double(s, i as nat);
                lemma2_to64();
                if i + 1 < 10 {
                    lemma_pow2_strictly_increases((i + 1) as nat, 10);
                }
                assert(s * pow2((i + 1) as nat) <= 0x100_0000 * 0x400) by (nonlinear_arith)
                    requires
                        s < 0x100_0000,
                        pow2((i + 1) as nat) <= 0x400,
                ;
            }
            v = v * 2;
            i = i + 1;
        }
        if v > 0x2_0000_0000 {
            0x2_0000_0000
        } else {
            v
        }
    }
}

/// `f as i32` on a float's bits (see `spec_float_to_int`).
pub fn float_to_int(bits: u32) -> (r: i32)
    ensures
        r == spec_float_to_int(bits),
{
    if is_nan_bits(bits) {
        return 0;
    }
    let mag = trunc_magnitude_capped(bits) as i64;
    let v: i64 = if bits >= 0x8000_0000 {
        -mag
    } else {
        mag
    };
    if v > i32::MAX as i64 {
        i32::MAX
    } else if v < i32::MIN as i64 {
        i32::MIN
    } else {
        v as i32
    }
}

/// `f as u32` on a float's bits (see `spec_float_to_ptr`).
pub fn float_to_ptr(bits: u32) -> (r: u32)
    ensures
        r == spec_float_to_ptr(bits),
{
    if is_nan_bits(bits) || bits >= 0x8000_0000 {
        return 0;
    }
    let mag = trunc_magnitude_capped(bits);
    if mag > u32::MAX as u64 {
        u32::MAX
    } else {
        mag as u32
    }
}

/// The number of binary digits of `x` (0 for 0).
pub open spec fn bit_length(x: nat) -> nat
    decreases x,
{
    if x == 0 {
        0
    } else {
        1 + bit_length(x / 2)
    }
}

/// `x > 0` scaled to 24 significant bits, rounded half to even: a value from
/// `2^23` to `2^24` (the latter when rounding carries into a new digit).
pub open spec fn rounded_significand(x: nat) -> nat {
    let l = bit_length(x);
    if l <= 24 {
        x * pow2((24 - l) as nat)
    } else {
        let sh = (l - 24) as nat;
        let q = x / pow2(sh);
        let rem = x % pow2(sh);
        let half = pow2((sh - 1) as nat);
        if rem > half || (rem == half && q % 2 == 1) {
            q + 1
        } else {
            q
        }
    }
}

/// The float nearest to `x`, ties to even: exponent field `bit_length + 126`
/// and the rounded significand without its leading one (a carry moves into
/// the exponent).
pub open spec fn nat_to_float(x: nat) -> u32 {
    if x == 0 {
        0
    } else {
        ((bit_length(x) + 125) * 0x80_0000 + rounded_significand(x)) as u32
    }
}

/// `i as f32`.
pub open spec fn spec_int_to_float(i: i32) -> u32 {
    if i < 0 {
        (0x8000_0000 + nat_to_float((-(i as int)) as nat)) as u32
    } else {
        nat_to_float(i as nat)
    }
}

/// `p as f32`.
pub open spec fn spec_ptr_to_float(p: u32) -> u32 {
    nat_to_float(p as nat)
}

fn pow2_exec(k: u32) -> (r: u64)
    requires
        k <= 32,
    ensures
        r == pow2(k as nat),
{
    let mut r: u64 = 1;
    let mut i: u32 = 0;
    proof {
        lemma2_to64();
    }
    while i < k
        invariant
            i <= k <= 32,
            r == pow2(i as nat),
        decreases k - i,
    {
        proof {
            lemma2_to64();
            lemma_pow2_adds(i as nat, 1);
            if i + 1 < 32 {
                lemma_pow2_strictly_increases((i + 1) as nat, 32);
            }
        }
        r = r * 2;
        i = i + 1;
    }
    r
}

/// The float nearest to `x` (see `nat_to_float`).
fn nat_to_float_exec(x: u32) -> (r: u32)
    ensures
        r == nat_to_float(x as nat),
{
    if x == 0 {
        return 0;
    }
    let mut l: u32 = 0;
    let mut y: u32 = x;
    while y > 0
        invariant
            bit_length(x as nat) == l + bit_length(y as nat),
            l + y <= x,
            y <= x,
        decreases y,
    {
        y = y / 2;
        l = l + 1;
    }
    assert(bit_length(0) == 0);
    proof {
        lemma2_to64();
        lemma_bit_length_le(x as nat, 32);
    }
    let sig: u64 = if l <= 24 {
        let p = pow2_exec(24 - l);
        proof {
            if 24 - l < 24 {
                lemma_pow2_strictly_increases((24 - l) as nat, 24);
            }
            assert(x as u64 * p <= 0xFFFF_FFFF * 0x100_0000) by (nonlinear_arith)
                requires
                    x <= 0xFFFF_FFFF,
                    p <= 0x100_0000,
            ;
        }
        x as u64 * p
    } else {
        let sh = l - 24;
        let p = pow2_exec(sh);
        proof {
            lemma_pow2_pos(sh as nat);
            lemma_pow2_adds((sh - 1) as nat, 1);
            lemma_div_multiples_vanish(pow2((sh - 1) as nat) as int, 2);
            assert(pow2((sh - 1) as nat) * 2 == 2 * pow2((sh - 1) as nat));
            lemma_div_is_ordered_by_denominator(x as int, 1, p as int);
        }
        let q = x as u64 / p;
        let rem = x as u64 % p;
        let half = p / 2;
        if rem > half || (rem == half && q % 2 == 1) {
            q + 1
        } else {
            q
        }
    };
    (((l + 125) as u64) * 0x80_0000 + sig) as u32
}

proof fn lemma_bit_length_le(x: nat, n: nat)
    requires
        x < pow2(n),
    ensures
        bit_length(x) <= n,
    decreases n,
{
    if n > 0 && x > 0 {
        lemma2_to64();
        lemma_pow2_adds((n - 1) as nat, 1);
        lemma_bit_length_le(x / 2, (n - 1) as nat);
    } else if n == 0 {
        lemma2_to64();
    }
}

/// `i as f32` on an integer (see `spec_int_to_float`).
pub fn int_to_float(i: i32) -> (r: u32)
    ensures
        r == spec_int_to_float(i),
{
    if i < 0 {
        let mag: u32 = if i == i32::MIN {
            0x8000_0000
        } else {
            (-i) as u32
        };
        (0x8000_0000u64 + nat_to_float_exec(mag) as u64) as u32
    } else {
        nat_to_float_exec(i as u32)
    }
}

/// `p as f32` on a pointer value (see `spec_ptr_to_float`).
pub fn ptr_to_float(p: u32) -> (r: u32)
    ensures
        r == spec_ptr_to_float(p),
{
    nat_to_float_exec(p)
}

} // verus!
