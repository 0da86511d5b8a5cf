use vstd::arithmetic::div_mod::{
    lemma_div_multiples_vanish, lemma_fundamental_div_mod, lemma_mod_breakdown,
};
use vstd::arithmetic::mul::{lemma_mul_inequality, lemma_mul_strict_inequality};
use vstd::arithmetic::power2::{
    lemma2_to64, lemma2_to64_rest, lemma_pow2_adds, lemma_pow2_pos, lemma_pow2_strictly_increases, pow2,
};
use vstd::prelude::*;

verus! {

// A scalar sample is an IEEE 754 double carried by its 64-bit pattern, so
// that the graph passes can reason about signs, magnitudes and finiteness
// exactly, in plain integer arithmetic.  The pattern splits into a sign bit,
// an 11-bit exponent field and a 52-bit fraction field; the model below
// mirrors that split with divisions and remainders by powers of two.
/// The bit above the 63 magnitude bits: set exactly on negative patterns.
pub const SCALAR_SIGN_BIT: u64 = 0x8000_0000_0000_0000;

/// 2^52: the weight of the exponent field inside the magnitude bits.
pub const SCALAR_FRAC_WEIGHT: u64 = 0x10_0000_0000_0000;

/// The magnitude bits of a pattern: everything but the sign bit.
pub open spec fn scalar_mag_bits(b: u64) -> u64 {
    (b % SCALAR_SIGN_BIT) as u64
}

/// Whether the pattern carries a negative sign.
pub open spec fn scalar_is_negative(b: u64) -> bool {
    b >= SCALAR_SIGN_BIT
}

/// The exponent field of the pattern, between 0 and 2047.
pub open spec fn scalar_exp(b: u64) -> u64 {
    (scalar_mag_bits(b) / SCALAR_FRAC_WEIGHT) as u64
}

/// The fraction field of the pattern, below 2^52.
pub open spec fn scalar_frac(b: u64) -> u64 {
    (scalar_mag_bits(b) % SCALAR_FRAC_WEIGHT) as u64
}

/// Whether the pattern denotes a NaN.
pub open spec fn scalar_is_nan(b: u64) -> bool {
    scalar_exp(b) == 2047 && scalar_frac(b) != 0
}

/// Whether the pattern denotes an infinity.
pub open spec fn scalar_is_inf(b: u64) -> bool {
    scalar_exp(b) == 2047 && scalar_frac(b) == 0
}

/// Whether the pattern denotes a finite number (zero, subnormal or normal).
pub open spec fn scalar_is_finite(b: u64) -> bool {
    scalar_exp(b) < 2047
}

/// The magnitude the pattern denotes, scaled by 2^1074 so that it is a
/// natural number: subnormals weigh their fraction directly, normals carry
/// the implicit leading bit.  Infinite patterns get the value the formula
/// yields for exponent 2047, above every finite magnitude.
pub open spec fn scalar_mag74(b: u64) -> nat {
    if scalar_exp(b) == 0 {
        scalar_frac(b) as nat
    } else {
        (scalar_frac(b) + SCALAR_FRAC_WEIGHT) as nat * pow2((scalar_exp(b) - 1) as nat)
    }
}

/// The signed value the pattern denotes, scaled by 2^1074.  Meaningful for
/// every pattern that is not a NaN.
pub open spec fn scalar_v74(b: u64) -> int {
    if scalar_is_negative(b) {
        -(scalar_mag74(b) as int)
    } else {
        scalar_mag74(b) as int
    }
}

/// Whether the pattern is NaN.
pub fn is_nan_bits(b: u64) -> (r: bool)
    ensures
        r == scalar_is_nan(b),
{
    let mag = b % SCALAR_SIGN_BIT;
    mag / SCALAR_FRAC_WEIGHT == 2047 && mag % SCALAR_FRAC_WEIGHT != 0
}

/// Whether the pattern is a finite number.
pub fn is_finite_bits(b: u64) -> (r: bool)
    ensures
        r == scalar_is_finite(b),
{
    let mag = b % SCALAR_SIGN_BIT;
    mag / SCALAR_FRAC_WEIGHT < 2047
}

/// The pattern of the negated value: the sign bit flipped, as IEEE negation
/// does for every pattern including NaNs.
pub fn neg_bits(b: u64) -> (r: u64)
    ensures
        scalar_mag_bits(r) == scalar_mag_bits(b),
        scalar_is_negative(r) == !scalar_is_negative(b),
        scalar_is_nan(r) == scalar_is_nan(b),
        !scalar_is_nan(b) ==> scalar_v74(r) == -scalar_v74(b),
{
    if b >= SCALAR_SIGN_BIT {
        b - SCALAR_SIGN_BIT
    } else {
        b + SCALAR_SIGN_BIT
    }
}

/// The pattern of the absolute value: the sign bit cleared, as IEEE
/// absolute value does for every pattern including NaNs.
pub fn abs_bits(b: u64) -> (r: u64)
    ensures
        scalar_mag_bits(r) == scalar_mag_bits(b),
        !scalar_is_negative(r),
        scalar_is_nan(r) == scalar_is_nan(b),
        !scalar_is_nan(b) ==> scalar_v74(r) == if scalar_v74(b) >= 0 {
            scalar_v74(b)
        } else {
            -scalar_v74(b)
        },
{
    if b >= SCALAR_SIGN_BIT {
        b - SCALAR_SIGN_BIT
    } else {
        b
    }
}

/// Magnitude patterns order their values: on the 63 magnitude bits, the
/// plain integer order of the patterns is the order of the magnitudes they
/// denote.
proof fn lemma_mag74_monotone(x: u64, y: u64)
    requires
        x < SCALAR_SIGN_BIT,
        y < SCALAR_SIGN_BIT,
        x <= y,
    ensures
        scalar_mag74(x) <= scalar_mag74(y),
        x < y ==> scalar_mag74(x) < scalar_mag74(y),
{
    lemma2_to64();
    lemma2_to64_rest();
    let ex = scalar_exp(x) as nat;
    let fx = scalar_frac(x) as nat;
    let ey = scalar_exp(y) as nat;
    let fy = scalar_frac(y) as nat;
    lemma_fundamental_div_mod(x as int, SCALAR_FRAC_WEIGHT as int);
    lemma_fundamental_div_mod(y as int, SCALAR_FRAC_WEIGHT as int);
    assert(scalar_mag_bits(x) == x);
    assert(scalar_mag_bits(y) == y);
    assert(x == ex * 0x10_0000_0000_0000 + fx);
    assert(y == ey * 0x10_0000_0000_0000 + fy);
    assert(fx < 0x10_0000_0000_0000);
    assert(fy < 0x10_0000_0000_0000);
    if ex == ey {
        // Same exponent: the fraction fields decide, and the shared positive
        // power of two preserves the order.
        assert(fx <= fy);
        if ex == 0 {
        } else {
            lemma_pow2_pos((ex - 1) as nat);
            lemma_mul_inequality(
                (fx + SCALAR_FRAC_WEIGHT) as int,
                (fy + SCALAR_FRAC_WEIGHT) as int,
                pow2((ex - 1) as nat) as int,
            );
            if fx < fy {
                lemma_mul_strict_inequality(
                    (fx + SCALAR_FRAC_WEIGHT) as int,
                    (fy + SCALAR_FRAC_WEIGHT) as int,
                    pow2((ex - 1) as nat) as int,
                );
            }
        }
    } else {
        // Smaller exponent: the whole magnitude sits below the other's
        // smallest possible magnitude.
        assert(ex < ey);
        assert(ey >= 1);
        lemma_pow2_pos((ey - 1) as nat);
        // scalar_mag74(y) >= 2^52 * 2^(ey-1) = 2^(ey+51)
        lemma_mul_inequality(
            SCALAR_FRAC_WEIGHT as int,
            (fy + SCALAR_FRAC_WEIGHT) as int,
            pow2((ey - 1) as nat) as int,
        );
        lemma_pow2_adds(52, (ey - 1) as nat);
        assert(pow2(52) == SCALAR_FRAC_WEIGHT);
        assert(scalar_mag74(y) >= pow2((ey + 51) as nat));
        if ex == 0 {
            // mag74(x) = fx < 2^52 <= 2^(ey+51)
            if 52 < ey + 51 {
                lemma_pow2_strictly_increases(52, (ey + 51) as nat);
            }
            assert(scalar_mag74(x) < pow2(52));
            assert(scalar_mag74(x) < scalar_mag74(y));
        } else {
            // mag74(x) < 2^53 * 2^(ex-1) = 2^(ex+52) <= 2^(ey+51)
            lemma_pow2_pos((ex - 1) as nat);
            lemma_mul_strict_inequality(
                (fx + SCALAR_FRAC_WEIGHT) as int,
                (2 * SCALAR_FRAC_WEIGHT) as int,
                pow2((ex - 1) as nat) as int,
            );
            lemma_pow2_adds(53, (ex - 1) as nat);
            assert(pow2(53) == 2 * SCALAR_FRAC_WEIGHT);
            assert(scalar_mag74(x) < pow2((ex + 52) as nat));
            if ex + 52 < ey + 51 {
                lemma_pow2_strictly_increases((ex + 52) as nat, (ey + 51) as nat);
            }
            assert(pow2((ex + 52) as nat) <= pow2((ey + 51) as nat));
            assert(scalar_mag74(x) < scalar_mag74(y));
        }
    }
}

/// IEEE `<=` on two patterns that are not NaN: negative zero equals positive
/// zero, infinities compare beyond every finite value, and a NaN on either
/// side makes the comparison false.
pub fn le_bits(a: u64, b: u64) -> (r: bool)
    ensures
        scalar_is_nan(a) || scalar_is_nan(b) ==> r == false,
        !scalar_is_nan(a) && !scalar_is_nan(b) ==> r == (scalar_v74(a) <= scalar_v74(b)),
{
    if is_nan_bits(a) || is_nan_bits(b) {
        false
    } else {
        let sa = a >= SCALAR_SIGN_BIT;
        let sb = b >= SCALAR_SIGN_BIT;
        let ma = if sa {
            a - SCALAR_SIGN_BIT
        } else {
            a
        };
        let mb = if sb {
            b - SCALAR_SIGN_BIT
        } else {
            b
        };
        proof {
            assert(scalar_mag_bits(a) == ma);
            assert(scalar_mag_bits(b) == mb);
            assert(scalar_mag74(a) == scalar_mag74(ma));
            assert(scalar_mag74(b) == scalar_mag74(mb));
            if ma <= mb {
                lemma_mag74_monotone(ma, mb);
            } else {
                lemma_mag74_monotone(mb, ma);
            }
            if ma > 0 {
                lemma_mag74_monotone(0, ma);
            }
            if mb > 0 {
                lemma_mag74_monotone(0, mb);
            }
            assert(scalar_mag74(0) == 0);
        }
        if sa && sb {
            mb <= ma
        } else if sa {
            true
        } else if sb {
            ma == 0 && mb == 0
        } else {
            ma <= mb
        }
    }
}

/// 2^53: the first whole number above the exactly representable range.
pub const SCALAR_EXACT_BOUND: u64 = 0x20_0000_0000_0000;

/// The pattern of a whole number below 2^53, which an IEEE double holds
/// exactly: zero maps to the zero pattern, anything else to the normal
/// pattern with the matching magnitude.
pub fn uint_to_bits(n: u64) -> (r: u64)
    requires
        n < SCALAR_EXACT_BOUND,
    ensures
        !scalar_is_negative(r),
        scalar_is_finite(r),
        scalar_v74(r) == n * pow2(1074),
{
    proof {
        lemma2_to64();
        lemma2_to64_rest();
    }
    if n == 0 {
        proof {
            assert(scalar_mag74(0) == 0);
        }
        0
    } else {
        // Find the position of the leading bit: p == 2^k <= n < 2^(k + 1).
        proof {
            lemma2_to64();
        }
        let mut k: u64 = 0;
        let mut p: u64 = 1;
        while p * 2 <= n
            invariant
                n < SCALAR_EXACT_BOUND,
                k <= 52,
                1 <= p <= n,
                p == pow2(k as nat),
            decreases n - p,
        {
            proof {
                lemma2_to64();
                lemma2_to64_rest();
                assert(k < 52) by {
                    if k == 52 {
                        assert(p == 0x10_0000_0000_0000);
                    }
                }
                lemma_pow2_adds(k as nat, 1);
            }
            p = p * 2;
            k = k + 1;
        }
        proof {
            if k == 52 {
                lemma2_to64_rest();
            }
            assert(pow2(52) == SCALAR_FRAC_WEIGHT) by {
                lemma2_to64_rest();
            }
        }
        // Scale so the leading bit lands on the implicit mantissa bit.
        let shift: u64 = 52 - k;
        let ps: u64 = pow2_u64(shift);
        proof {
            lemma_pow2_pos(shift as nat);
            lemma_pow2_adds(k as nat, shift as nat);
            lemma_mul_inequality(pow2(k as nat) as int, n as int, pow2(shift as nat) as int);
            lemma_mul_strict_inequality(
                n as int,
                (2 * pow2(k as nat)) as int,
                pow2(shift as nat) as int,
            );
            assert((2 * pow2(k as nat)) * pow2(shift as nat) == 2 * pow2(52)) by {
                vstd::arithmetic::mul::lemma_mul_is_associative(
                    2,
                    pow2(k as nat) as int,
                    pow2(shift as nat) as int,
                );
                lemma_pow2_adds(k as nat, shift as nat);
            }
            vstd::arithmetic::mul::lemma_mul_is_commutative(pow2(k as nat) as int, pow2(shift as nat) as int);
            assert(SCALAR_FRAC_WEIGHT as int <= (n as int) * (ps as int));
            assert(((n as int) * (ps as int)) < 2 * (SCALAR_FRAC_WEIGHT as int));
        }
        let scaled: u64 = n * ps;
        let frac: u64 = scaled - SCALAR_FRAC_WEIGHT;
        let e: u64 = k + 1023;
        let r: u64 = e * SCALAR_FRAC_WEIGHT + frac;
        proof {
            lemma_fundamental_div_mod_converse_pair(r, e, frac);
            assert(scalar_mag_bits(r) == r);
            assert(scalar_exp(r) == e);
            assert(scalar_frac(r) == frac);
            // mag74 == scaled * 2^(e - 1) == n * 2^shift * 2^(k + 1022) == n * 2^1074
            assert(scalar_mag74(r) == scaled as nat * pow2((e - 1) as nat));
            assert(scaled as nat * pow2((e - 1) as nat) == n as nat * pow2(1074)) by {
                lemma_pow2_adds(shift as nat, (e - 1) as nat);
                vstd::arithmetic::mul::lemma_mul_is_associative(
                    n as int,
                    pow2(shift as nat) as int,
                    pow2((e - 1) as nat) as int,
                );
                assert(shift + e - 1 == 1074);
            }
        }
        r
    }
}

/// 2^s as a machine word, for shifts within the mantissa.
fn pow2_u64(s: u64) -> (r: u64)
    requires
        s <= 63,
    ensures
        r == pow2(s as nat),
{
    proof {
        lemma2_to64();
    }
    let mut i: u64 = 0;
    let mut r: u64 = 1;
    while i < s
        invariant
            i <= s <= 63,
            r == pow2(i as nat),
        decreases s - i,
    {
        proof {
            lemma_pow2_adds(i as nat, 1);
            lemma2_to64();
            lemma2_to64_rest();
            if i + 1 < 64 {
                lemma_pow2_strictly_increases((i + 1) as nat, 64);
            }
        }
        r = r * 2;
        i = i + 1;
    }
    r
}

/// Restates `r == e * w + frac` as quotient and remainder facts.
proof fn lemma_fundamental_div_mod_converse_pair(r: u64, e: u64, frac: u64)
    requires
        r == e * SCALAR_FRAC_WEIGHT + frac,
        frac < SCALAR_FRAC_WEIGHT,
        e < 2047,
    ensures
        r < SCALAR_SIGN_BIT,
        r / SCALAR_FRAC_WEIGHT == e,
        r % SCALAR_FRAC_WEIGHT == frac,
{
    lemma_mul_inequality(e as int, 2046, SCALAR_FRAC_WEIGHT as int);
    vstd::arithmetic::div_mod::lemma_fundamental_div_mod_converse(
        r as int,
        SCALAR_FRAC_WEIGHT as int,
        e as int,
        frac as int,
    );
}

/// The pattern of a 32-bit signed whole number, always exact.
pub fn int_to_bits(i: i32) -> (r: u64)
    ensures
        scalar_is_finite(r),
        scalar_v74(r) == i * pow2(1074),
{
    if i >= 0 {
        uint_to_bits(i as u64)
    } else {
        let mag: u64 = (-(i as i64)) as u64;
        let b = uint_to_bits(mag);
        proof {
            assert(b < SCALAR_SIGN_BIT);
        }
        let r = b + SCALAR_SIGN_BIT;
        proof {
            assert(scalar_mag_bits(r) == scalar_mag_bits(b));
            assert(scalar_v74(r) == -(mag as int) * pow2(1074)) by {
                vstd::arithmetic::mul::lemma_mul_is_distributive_sub_other_way(
                    pow2(1074) as int,
                    0,
                    mag as int,
                );
            }
            assert((i as int) == -(mag as int));
            vstd::arithmetic::mul::lemma_mul_is_distributive_sub_other_way(
                pow2(1074) as int,
                0,
                mag as int,
            );
        }
        r
    }
}
/// A positive exactly encoded whole number sits in a normal pattern whose
/// exponent field stays well below the ceiling.
proof fn lemma_mag74_positive_is_normal(b: u64, m: u64)
    requires
        b < SCALAR_SIGN_BIT,
        scalar_is_finite(b),
        scalar_mag74(b) == m as nat * pow2(1074),
        1 <= m < SCALAR_EXACT_BOUND,
    ensures
        1 <= scalar_exp(b) <= 1075,
{
    lemma2_to64();
    lemma2_to64_rest();
    lemma_pow2_pos(1074);
    if scalar_exp(b) == 0 {
        // A subnormal magnitude is below 2^52 * 2^1022 < 1 * 2^1074.
        assert(scalar_mag74(b) == scalar_frac(b));
        lemma_pow2_strictly_increases(52, 1074);
        lemma_mul_inequality(1, m as int, pow2(1074) as int);
    } else {
        // Above exponent 1075 the magnitude exceeds 2^53 * 2^1074.
        if scalar_exp(b) > 1075 {
            let e = scalar_exp(b) as nat;
            lemma_mul_inequality(
                SCALAR_FRAC_WEIGHT as int,
                (scalar_frac(b) + SCALAR_FRAC_WEIGHT) as int,
                pow2((e - 1) as nat) as int,
            );
            lemma_pow2_adds(52, (e - 1) as nat);
            assert(scalar_mag74(b) >= pow2((52 + e - 1) as nat));
            assert(pow2((52 + e - 1) as nat) >= pow2(1127)) by {
                if 52 + e - 1 > 1127 {
                    lemma_pow2_strictly_increases(1127, (52 + e - 1) as nat);
                }
            }
            assert(m as nat * pow2(1074) < SCALAR_EXACT_BOUND as nat * pow2(1074)) by {
                lemma_mul_strict_inequality(
                    m as int,
                    SCALAR_EXACT_BOUND as int,
                    pow2(1074) as int,
                );
            }
            assert(SCALAR_EXACT_BOUND as nat * pow2(1074) == pow2(1127)) by {
                lemma_pow2_adds(53, 1074);
            }
        }
    }
}

/// Raises a positive normal pattern's exponent: the value gains a factor
/// of 2^t.
fn bits_mul_pow2(b: u64, t: u64) -> (r: u64)
    requires
        !scalar_is_negative(b),
        1 <= scalar_exp(b),
        scalar_exp(b) + t <= 2046,
    ensures
        !scalar_is_negative(r),
        scalar_is_finite(r),
        scalar_mag74(r) == scalar_mag74(b) * pow2(t as nat),
{
    proof {
        lemma2_to64();
        lemma2_to64_rest();
    }
    let e = b / SCALAR_FRAC_WEIGHT;
    let f = b % SCALAR_FRAC_WEIGHT;
    proof {
        lemma_fundamental_div_mod(b as int, SCALAR_FRAC_WEIGHT as int);
        assert(scalar_mag_bits(b) == b);
        assert(e == scalar_exp(b));
        assert(f == scalar_frac(b));
    }
    let et: u64 = e + t;
    let r: u64 = et * SCALAR_FRAC_WEIGHT + f;
    proof {
        lemma_fundamental_div_mod_converse_pair(r, et, f);
        assert(scalar_exp(r) == et);
        assert(scalar_frac(r) == f);
        assert(scalar_mag74(r) == (f + SCALAR_FRAC_WEIGHT) as nat * pow2((et - 1) as nat));
        assert(scalar_mag74(b) == (f + SCALAR_FRAC_WEIGHT) as nat * pow2((e - 1) as nat));
        assert(scalar_mag74(r) == scalar_mag74(b) * pow2(t as nat)) by {
            lemma_pow2_adds((e - 1) as nat, t as nat);
            vstd::arithmetic::mul::lemma_mul_is_associative(
                (f + SCALAR_FRAC_WEIGHT) as int,
                pow2((e - 1) as nat) as int,
                pow2(t as nat) as int,
            );
        }
    }
    r
}

/// How many low bits a value carries beyond the 53-bit mantissa.
pub open spec fn excess(u: nat) -> nat
    decreases u,
{
    if u < SCALAR_EXACT_BOUND {
        0
    } else {
        1 + excess(u / 2)
    }
}

/// A whole number rounded to the nearest 53-bit-mantissa value, ties to
/// the even mantissa: the value an IEEE double conversion yields.
pub open spec fn rne53(u: nat) -> nat {
    if u < SCALAR_EXACT_BOUND {
        u
    } else {
        let s = excess(u);
        let q = u / pow2(s);
        let rem = u % pow2(s);
        if 2 * rem > pow2(s) || (2 * rem == pow2(s) && q % 2 == 1) {
            (q + 1) * pow2(s)
        } else {
            q * pow2(s)
        }
    }
}

/// The pattern of a whole number rounded to the nearest double, ties to
/// even: total, exact below 2^53 and correctly rounded above.
pub fn rne_to_bits(u: u64) -> (r: u64)
    ensures
        !scalar_is_negative(r),
        scalar_is_finite(r),
        scalar_v74(r) == rne53(u as nat) * pow2(1074),
{
    proof {
        lemma2_to64();
        lemma2_to64_rest();
    }
    if u < SCALAR_EXACT_BOUND {
        return uint_to_bits(u);
    }
    // Find the excess bits: m == u >> s with m back in mantissa range.
    let mut m: u64 = u;
    let mut s: u64 = 0;
    while m >= SCALAR_EXACT_BOUND
        invariant
            s <= 11,
            SCALAR_FRAC_WEIGHT <= m,
            m as nat == u as nat / pow2(s as nat),
            excess(u as nat) == s + excess(m as nat),
        decreases m,
    {
        proof {
            lemma2_to64();
            lemma2_to64_rest();
            lemma_pow2_adds(s as nat, 1);
            assert(m / 2 == u as nat / pow2(s as nat + 1)) by {
                lemma_pow2_pos(s as nat);
                vstd::arithmetic::div_mod::lemma_div_denominator(
                    u as int,
                    pow2(s as nat) as int,
                    2,
                );
            }
            assert(s < 11) by {
                if s == 11 {
                    // u / 2^11 >= 2^53 would put u beyond the word.
                    assert(u as nat / pow2(11) >= SCALAR_EXACT_BOUND as nat);
                    vstd::arithmetic::div_mod::lemma_fundamental_div_mod(
                        u as int,
                        pow2(11) as int,
                    );
                    lemma_mul_inequality(
                        SCALAR_EXACT_BOUND as int,
                        (u as nat / pow2(11)) as int,
                        pow2(11) as int,
                    );
                    lemma_pow2_adds(53, 11);
                }
            }
        }
        m = m / 2;
        s = s + 1;
    }
    let p = pow2_u64(s);
    let q = u / p;
    let rem = u % p;
    proof {
        assert(q == m);
        lemma_pow2_pos(s as nat);
        vstd::arithmetic::div_mod::lemma_mod_division_less_than_divisor(u as int, p as int);
        assert(rem < p);
        assert(p <= 0x800) by {
            if s < 11 {
                lemma_pow2_strictly_increases(s as nat, 11);
            }
        }
    }
    let round_up: bool = 2 * rem > p || (2 * rem == p && q % 2 == 1);
    let (mant, sh): (u64, u64) = if round_up {
        if q + 1 == SCALAR_EXACT_BOUND {
            proof {
                lemma_pow2_adds(52, 1);
                assert(SCALAR_EXACT_BOUND as nat == SCALAR_FRAC_WEIGHT as nat * 2);
            }
            (SCALAR_FRAC_WEIGHT, s + 1)
        } else {
            (q + 1, s)
        }
    } else {
        (q, s)
    };
    proof {
        // mant * 2^sh is the rounded value.
        assert(rne53(u as nat) == mant as nat * pow2(sh as nat)) by {
            if round_up && q + 1 == SCALAR_EXACT_BOUND {
                lemma_pow2_adds(s as nat, 1);
                vstd::arithmetic::mul::lemma_mul_is_associative(
                    SCALAR_FRAC_WEIGHT as int,
                    2,
                    pow2(s as nat) as int,
                );
            }
        }
    }
    let base = uint_to_bits(mant);
    proof {
        lemma_pow2_pos(sh as nat);
        lemma_mag74_positive_is_normal(base, mant);
    }
    let r = bits_mul_pow2(base, sh);
    proof {
        assert(scalar_mag74(r) == (mant as nat * pow2(1074)) * pow2(sh as nat));
        assert(scalar_mag74(r) == rne53(u as nat) * pow2(1074)) by {
            vstd::arithmetic::mul::lemma_mul_is_associative(
                mant as int,
                pow2(1074) as int,
                pow2(sh as nat) as int,
            );
            vstd::arithmetic::mul::lemma_mul_is_commutative(
                pow2(1074) as int,
                pow2(sh as nat) as int,
            );
            vstd::arithmetic::mul::lemma_mul_is_associative(
                mant as int,
                pow2(sh as nat) as int,
                pow2(1074) as int,
            );
        }
    }
    r
}

/// A normal magnitude with exponent below 1023 sits under one whole unit.
proof fn lemma_floor_low(e: u64, mfull: u64)
    requires
        1 <= e <= 1022,
        SCALAR_FRAC_WEIGHT <= mfull < SCALAR_EXACT_BOUND,
    ensures
        mfull as nat * pow2((e - 1) as nat) < pow2(1074),
{
    lemma2_to64();
    lemma2_to64_rest();
    lemma_pow2_pos((e - 1) as nat);
    lemma_mul_strict_inequality(mfull as int, SCALAR_EXACT_BOUND as int, pow2((e - 1) as nat) as int);
    lemma_pow2_adds(53, (e - 1) as nat);
    if 53 + e - 1 < 1074 {
        lemma_pow2_strictly_increases((53 + e - 1) as nat, 1074);
    }
}

/// A magnitude with exponent beyond 1086 lies beyond every machine word.
proof fn lemma_floor_high(e: u64, mfull: u64)
    requires
        1087 <= e <= 2047,
        SCALAR_FRAC_WEIGHT <= mfull < SCALAR_EXACT_BOUND,
    ensures
        (mfull as nat * pow2((e - 1) as nat)) as int / pow2(1074) as int > u64::MAX,
{
    lemma2_to64();
    lemma2_to64_rest();
    let s = (e - 1075) as nat;
    lemma_pow2_adds(1074, s);
    lemma_pow2_pos(1074);
    lemma_pow2_pos(s);
    assert(mfull as nat * pow2((e - 1) as nat) == (mfull as nat * pow2(s)) * pow2(1074)) by {
        lemma_pow2_adds(s, 1074);
        vstd::arithmetic::mul::lemma_mul_is_associative(
            mfull as int,
            pow2(s) as int,
            pow2(1074) as int,
        );
    }
    let q = mfull as nat * pow2(s);
    lemma_div_multiples_vanish(q as int, pow2(1074) as int);
    lemma_mul_inequality(SCALAR_FRAC_WEIGHT as int, mfull as int, pow2(s) as int);
    assert(pow2(s) >= pow2(12)) by {
        if s > 12 {
            lemma_pow2_strictly_increases(12, s);
        }
    }
    assert(SCALAR_FRAC_WEIGHT as nat * pow2(12) == pow2(64)) by {
        lemma_pow2_adds(52, 12);
    }
    assert(q >= pow2(64)) by {
        vstd::arithmetic::mul::lemma_mul_is_commutative(pow2(12) as int, SCALAR_FRAC_WEIGHT as int);
        lemma_mul_inequality(pow2(12) as int, pow2(s) as int, mfull as int);
        vstd::arithmetic::mul::lemma_mul_is_commutative(pow2(s) as int, mfull as int);
    }
}

/// The whole part of a pattern's magnitude, saturating at the machine
/// word's maximum: what a truncating conversion of the absolute value
/// yields for every pattern but a NaN.
pub fn bits_to_floor_mag(b: u64) -> (r: u64)
    requires
        !scalar_is_nan(b),
    ensures
        ({
            let q = scalar_mag74(b) as int / pow2(1074) as int;
            r == if q > u64::MAX {
                u64::MAX
            } else {
                q as u64
            }
        }),
{
    proof {
        lemma2_to64();
        lemma2_to64_rest();
        lemma_pow2_pos(1074);
    }
    let mag = b % SCALAR_SIGN_BIT;
    let e = mag / SCALAR_FRAC_WEIGHT;
    let f = mag % SCALAR_FRAC_WEIGHT;
    if e == 0 {
        // Subnormal or zero: below one whole unit.
        proof {
            assert(scalar_mag74(b) == f);
            lemma_pow2_strictly_increases(52, 1074);
            vstd::arithmetic::div_mod::lemma_basic_div(f as int, pow2(1074) as int);
        }
        return 0;
    }
    let mfull: u64 = f + SCALAR_FRAC_WEIGHT;
    proof {
        assert(scalar_mag74(b) == mfull as nat * pow2((e - 1) as nat));
    }
    if e < 1075 {
        let s: u64 = 1075 - e;
        if s >= 53 {
            // The magnitude is below one whole unit.
            proof {
                lemma_floor_low(e, mfull);
                vstd::arithmetic::div_mod::lemma_basic_div(
                    scalar_mag74(b) as int,
                    pow2(1074) as int,
                );
            }
            0
        } else {
            let p = pow2_u64(s);
            proof {
                let p1 = pow2((e - 1) as nat) as int;
                let ps = pow2(s as nat) as int;
                let x = scalar_mag74(b) as int;
                lemma_pow2_pos(s as nat);
                lemma_pow2_pos((e - 1) as nat);
                lemma_pow2_adds((e - 1) as nat, s as nat);
                assert(pow2(1074) as int == p1 * ps);
                vstd::arithmetic::mul::lemma_mul_is_commutative(mfull as int, p1);
                assert(x == p1 * mfull);
                lemma_div_multiples_vanish(mfull as int, p1);
                vstd::arithmetic::div_mod::lemma_div_denominator(x, p1, ps);
                assert(x / pow2(1074) as int == mfull as int / ps);
                vstd::arithmetic::div_mod::lemma_div_nonincreasing(mfull as int, ps);
                vstd::arithmetic::div_mod::lemma_div_pos_is_pos(mfull as int, ps);
            }
            mfull / p
        }
    } else {
        let s: u64 = e - 1075;
        if s > 11 {
            // At least 2^52 * 2^12 = 2^64: beyond the word; saturate.
            proof {
                lemma_floor_high(e, mfull);
            }
            u64::MAX
        } else {
            let p = pow2_u64(s);
            proof {
                lemma_pow2_pos(s as nat);
                lemma_pow2_adds(53, s as nat);
                lemma_mul_strict_inequality(
                    mfull as int,
                    SCALAR_EXACT_BOUND as int,
                    pow2(s as nat) as int,
                );
                if 53 + s < 64 {
                    lemma_pow2_strictly_increases((53 + s) as nat, 64);
                }
                assert(((mfull as int) * (p as int)) < pow2((53 + s) as nat));
            }
            let n = mfull * p;
            proof {
                let q = n as int;
                assert(scalar_mag74(b) as int == q * pow2(1074) as int) by {
                    lemma_pow2_adds(s as nat, 1074);
                    vstd::arithmetic::mul::lemma_mul_is_associative(
                        mfull as int,
                        pow2(s as nat) as int,
                        pow2(1074) as int,
                    );
                    assert((e - 1) as nat == s as nat + 1074);
                }
                lemma_div_multiples_vanish(q, pow2(1074) as int);
                assert(scalar_mag74(b) as int / pow2(1074) as int == q);
            }
            n
        }
    }
}

/// Whether the whole part of a pattern's magnitude spills a fraction: the
/// distance from the magnitude down to its whole part, compared against
/// one part in 2^52 — the tolerance a unit-epsilon comparison allows.
pub open spec fn frac74(b: u64) -> int {
    scalar_mag74(b) as int % pow2(1074) as int
}

/// Whether a pattern's fractional part stays within one 2^-52 unit.
pub fn frac_within_epsilon(b: u64) -> (r: bool)
    requires
        !scalar_is_nan(b),
        scalar_is_finite(b),
    ensures
        r == (frac74(b) <= pow2(1022)),
{
    proof {
        lemma2_to64();
        lemma2_to64_rest();
        lemma_pow2_pos(1074);
        lemma_pow2_pos(1022);
    }
    let mag = b % SCALAR_SIGN_BIT;
    let e = mag / SCALAR_FRAC_WEIGHT;
    let f = mag % SCALAR_FRAC_WEIGHT;
    if e == 0 {
        // Subnormal: far below the tolerance.
        proof {
            assert(scalar_mag74(b) == f);
            lemma_pow2_strictly_increases(52, 1074);
            vstd::arithmetic::div_mod::lemma_small_mod(f as nat, pow2(1074));
            lemma_pow2_strictly_increases(52, 1022);
        }
        return true;
    }
    let mfull: u64 = f + SCALAR_FRAC_WEIGHT;
    proof {
        assert(scalar_mag74(b) == mfull as nat * pow2((e - 1) as nat));
    }
    if e <= 970 {
        // Magnitude below 2^-52: within tolerance.
        proof {
            lemma_pow2_pos((e - 1) as nat);
            lemma_mul_strict_inequality(
                mfull as int,
                SCALAR_EXACT_BOUND as int,
                pow2((e - 1) as nat) as int,
            );
            lemma_pow2_adds(53, (e - 1) as nat);
            if 53 + e - 1 < 1022 {
                lemma_pow2_strictly_increases((53 + e - 1) as nat, 1022);
            }
            lemma_floor_low(e, mfull);
            vstd::arithmetic::div_mod::lemma_small_mod(
                scalar_mag74(b),
                pow2(1074),
            );
        }
        true
    } else if e <= 1022 {
        // Magnitude between 2^-52 and 1: within tolerance only at exactly
        // 2^-52 itself.
        proof {
            lemma_floor_low(e, mfull);
            vstd::arithmetic::div_mod::lemma_small_mod(scalar_mag74(b), pow2(1074));
            lemma_eps_window(e, mfull);
        }
        e == 971 && f == 0
    } else if e < 1075 {
        let s: u64 = 1075 - e;
        let p = pow2_u64(s);
        let rem = mfull % p;
        proof {
            let p1 = pow2((e - 1) as nat) as int;
            let ps = pow2(s as nat) as int;
            let x = scalar_mag74(b) as int;
            lemma_pow2_pos(s as nat);
            lemma_pow2_pos((e - 1) as nat);
            lemma_pow2_adds((e - 1) as nat, s as nat);
            assert(pow2(1074) as int == p1 * ps);
            vstd::arithmetic::mul::lemma_mul_is_commutative(mfull as int, p1);
            assert(x == p1 * mfull);
            vstd::arithmetic::div_mod::lemma_mod_multiples_basic(mfull as int, p1);
            lemma_div_multiples_vanish(mfull as int, p1);
            lemma_mod_breakdown(x, p1, ps);
            assert(frac74(b) == p1 * (rem as int));
            lemma_eps_fraction(e, rem);
        }
        rem <= if e == 1023 {
            1
        } else {
            0
        }
    } else {
        // Whole values carry no fraction.
        let s: u64 = e - 1075;
        proof {
            let x = scalar_mag74(b) as int;
            assert(x % pow2(1074) as int == 0) by {
                lemma_pow2_adds(s as nat, 1074);
                vstd::arithmetic::mul::lemma_mul_is_associative(
                    mfull as int,
                    pow2(s as nat) as int,
                    pow2(1074) as int,
                );
                assert((e - 1) as nat == s as nat + 1074);
                vstd::arithmetic::div_mod::lemma_mod_multiples_basic(
                    ((mfull as nat) * pow2(s as nat)) as int,
                    pow2(1074) as int,
                );
            }
        }
        true
    }
}

/// In the below-one range, the tolerance admits exactly the magnitude
/// 2^1022 on the scaled axis.
proof fn lemma_eps_window(e: u64, mfull: u64)
    requires
        971 <= e <= 1022,
        SCALAR_FRAC_WEIGHT <= mfull < SCALAR_EXACT_BOUND,
    ensures
        (mfull as nat * pow2((e - 1) as nat) <= pow2(1022)) <==> (e == 971 && mfull
            == SCALAR_FRAC_WEIGHT),
{
    lemma2_to64();
    lemma2_to64_rest();
    lemma_pow2_pos((e - 1) as nat);
    if e == 971 && mfull == SCALAR_FRAC_WEIGHT {
        assert(mfull as nat * pow2(970) == pow2(1022)) by {
            lemma_pow2_adds(52, 970);
        }
    } else {
        if e == 971 {
            // mfull > 2^52 strictly: the product exceeds 2^1022.
            lemma_mul_strict_inequality(
                SCALAR_FRAC_WEIGHT as int,
                mfull as int,
                pow2(970) as nat as int,
            );
            assert(SCALAR_FRAC_WEIGHT as nat * pow2(970) == pow2(1022)) by {
                lemma_pow2_adds(52, 970);
            }
        } else {
            // e >= 972: even the smallest mantissa exceeds the tolerance.
            lemma_mul_inequality(
                SCALAR_FRAC_WEIGHT as int,
                mfull as int,
                pow2((e - 1) as nat) as int,
            );
            lemma_pow2_adds(52, (e - 1) as nat);
            assert(pow2((52 + e - 1) as nat) > pow2(1022)) by {
                lemma_pow2_strictly_increases(1022, (52 + e - 1) as nat);
            }
        }
    }
}

/// At or above one, the tolerance admits a remainder of one mantissa unit
/// only at the lowest whole exponent.
proof fn lemma_eps_fraction(e: u64, rem: u64)
    requires
        1023 <= e <= 1074,
        rem < pow2((1075 - e) as nat),
    ensures
        (pow2((e - 1) as nat) as int * (rem as int) <= pow2(1022) as int) <==> (rem as int <= if e
            == 1023 {
            1int
        } else {
            0int
        }),
{
    lemma2_to64();
    lemma2_to64_rest();
    lemma_pow2_pos((e - 1) as nat);
    if e == 1023 {
        assert(pow2(1022) as int * 1 == pow2(1022) as int);
        if rem <= 1 {
            lemma_mul_inequality(rem as int, 1, pow2(1022) as int);
            vstd::arithmetic::mul::lemma_mul_is_commutative(rem as int, pow2(1022) as int);
        } else {
            lemma_mul_strict_inequality(1, rem as int, pow2(1022) as int);
            vstd::arithmetic::mul::lemma_mul_is_commutative(rem as int, pow2(1022) as int);
        }
    } else {
        if rem == 0 {
        } else {
            lemma_mul_inequality(1, rem as int, pow2((e - 1) as nat) as int);
            vstd::arithmetic::mul::lemma_mul_is_commutative(rem as int, pow2((e - 1) as nat) as int);
            assert(pow2((e - 1) as nat) > pow2(1022)) by {
                lemma_pow2_strictly_increases(1022, (e - 1) as nat);
            }
        }
    }
}

} // verus!
