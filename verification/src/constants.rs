use crate::errors::NoiseError;
use crate::scalar::{
    bits_to_floor_mag, frac74, frac_within_epsilon, int_to_bits, is_nan_bits, rne53, rne_to_bits,
    scalar_exp, scalar_frac, scalar_is_finite, scalar_is_nan, scalar_is_negative, scalar_mag_bits,
    scalar_mag74, scalar_v74, SCALAR_FRAC_WEIGHT, SCALAR_SIGN_BIT,
};
use vstd::arithmetic::div_mod::{lemma_div_multiples_vanish, lemma_mod_multiples_basic};
use vstd::arithmetic::mul::{lemma_mul_inequality, lemma_mul_strict_inequality};
use vstd::arithmetic::power2::{
    lemma2_to64, lemma2_to64_rest, lemma_pow2_adds, lemma_pow2_pos, lemma_pow2_strictly_increases,
    pow2,
};
use vstd::prelude::*;

verus! {

/// A typed constant of a noise document: a double (held by its bit
/// pattern), a signed integer, an unsigned integer, or an index-sized
/// integer.
#[derive(Debug, Clone, Copy, PartialEq, Eq, Structural)]
pub enum ConstantTypes {
    Float(u64),
    Int(i32),
    UnsignedInt(u64),
    Usize(usize),
}

/// The number the constant reads as once carried by a double, scaled by
/// 2^1074: a double keeps its value, an integer is rounded to the nearest
/// representable value, ties to the even mantissa.
pub open spec fn const_double_v74(c: ConstantTypes) -> int {
    match c {
        ConstantTypes::Float(b) => scalar_v74(b),
        ConstantTypes::Int(i) => i * pow2(1074),
        ConstantTypes::UnsignedInt(u) => rne53(u as nat) as int * pow2(1074),
        ConstantTypes::Usize(u) => rne53(u as nat) as int * pow2(1074),
    }
}

/// The whole part of a non-negative double's value, capped at the machine
/// word: what a truncating, saturating conversion yields.
pub open spec fn sat_floor74(b: u64) -> u64 {
    let q = scalar_mag74(b) as int / pow2(1074) as int;
    if q > u64::MAX {
        u64::MAX
    } else {
        q as u64
    }
}

/// What converting a constant to an unsigned machine word yields: doubles
/// are truncated toward zero and saturated (a NaN reads as zero), and
/// only a negative value is refused.
pub open spec fn const_as_u64_spec(c: ConstantTypes) -> Option<u64> {
    match c {
        ConstantTypes::Float(b) => if scalar_is_nan(b) {
            Some(0u64)
        } else if scalar_is_negative(b) && scalar_mag74(b) != 0 {
            None
        } else {
            Some(sat_floor74(b))
        },
        ConstantTypes::Int(i) => if i < 0 {
            None
        } else {
            Some(i as u64)
        },
        ConstantTypes::UnsignedInt(u) => Some(u),
        ConstantTypes::Usize(u) => Some(u as u64),
    }
}

/// What converting a constant to a signed 32-bit integer yields: doubles
/// are range-checked against the type's bounds and truncated toward zero
/// (a NaN reads as zero); integers out of range are refused.
pub open spec fn const_as_i32_spec(c: ConstantTypes) -> Option<i32> {
    match c {
        ConstantTypes::Float(b) => if scalar_is_nan(b) {
            Some(0i32)
        } else if scalar_v74(b) < (i32::MIN as int) * pow2(1074) || scalar_v74(b) > (
        i32::MAX as int) * pow2(1074) {
            None
        } else {
            if scalar_is_negative(b) {
                Some((-(sat_floor74(b) as int)) as i32)
            } else {
                Some(sat_floor74(b) as i32)
            }
        },
        ConstantTypes::Int(i) => Some(i),
        ConstantTypes::UnsignedInt(u) => if u > i32::MAX as u64 {
            None
        } else {
            Some(u as i32)
        },
        ConstantTypes::Usize(u) => if u > i32::MAX as usize {
            None
        } else {
            Some(u as i32)
        },
    }
}

/// What converting a constant to an index-sized integer yields: a double
/// must sit within one 2^-52 unit of its truncated, saturated value (so
/// near-zero magnitudes read as zero and a NaN reads as zero), negative
/// doubles and integers are refused, and unsigned values beyond the
/// platform word are refused.
pub open spec fn const_as_usize_spec(c: ConstantTypes) -> Option<usize> {
    match c {
        ConstantTypes::Float(b) => if scalar_is_nan(b) {
            Some(0usize)
        } else if scalar_is_negative(b) && scalar_mag74(b) != 0 {
            None
        } else {
            let d = pow2(1074) as int;
            let fl = scalar_mag74(b) as int / d;
            if frac74(b) > pow2(1022) as int {
                None
            } else if fl <= usize::MAX as int {
                Some(fl as usize)
            } else if frac74(b) == 0 && fl == usize::MAX as int + 1 {
                Some(usize::MAX)
            } else {
                None
            }
        },
        ConstantTypes::Int(i) => if i < 0 {
            None
        } else {
            Some(i as usize)
        },
        ConstantTypes::UnsignedInt(u) => if u > usize::MAX as u64 {
            None
        } else {
            Some(u as usize)
        },
        ConstantTypes::Usize(u) => Some(u),
    }
}

impl ConstantTypes {
    // The conversions reproduce the host language's numeric casts over the
    // bit model: doubles truncate toward zero with saturation where a
    // range allows it, the index conversion tolerates one 2^-52 unit of
    // fraction, and a NaN reads as zero.
    /// Converts the constant to an unsigned machine word: doubles are
    /// truncated toward zero and saturated; only a negative value is
    /// refused.
    pub fn as_u64(&self) -> (r: Result<u64, NoiseError>)
        ensures
            match r {
                Ok(n) => const_as_u64_spec(*self) == Some(n),
                Err(e) => const_as_u64_spec(*self) is None && e matches
                    NoiseError::InvalidConversion(_),
            },
    {
        match self {
            ConstantTypes::Float(b) => {
                if is_nan_bits(*b) {
                    return Ok(0);
                }
                if *b >= SCALAR_SIGN_BIT && (*b - SCALAR_SIGN_BIT) != 0 {
                    proof {
                        lemma_nonzero_mag(*b);
                    }
                    return Err(
                        NoiseError::InvalidConversion(
                            "Invalid conversion from negative float to u64".to_owned(),
                        ),
                    );
                }
                proof {
                    if *b >= SCALAR_SIGN_BIT {
                        assert(scalar_mag74(*b) == 0);
                    }
                }
                Ok(bits_to_floor_mag(*b))
            },
            ConstantTypes::Int(i) => {
                if *i >= 0 {
                    Ok(*i as u64)
                } else {
                    Err(
                        NoiseError::InvalidConversion(
                            "Invalid conversion from negative i32 to u64".to_owned(),
                        ),
                    )
                }
            },
            ConstantTypes::UnsignedInt(u) => Ok(*u),
            ConstantTypes::Usize(u) => Ok(*u as u64),
        }
    }

    /// Converts the constant to an index-sized integer: a double must sit
    /// within one 2^-52 unit of its truncated value; negative values and
    /// oversized unsigned values are refused.
    pub fn as_usize(&self) -> (r: Result<usize, NoiseError>)
        ensures
            match r {
                Ok(n) => const_as_usize_spec(*self) == Some(n),
                Err(e) => const_as_usize_spec(*self) is None && e matches
                    NoiseError::InvalidConversion(_),
            },
    {
        match self {
            ConstantTypes::Float(b) => {
                if is_nan_bits(*b) {
                    return Ok(0);
                }
                if *b >= SCALAR_SIGN_BIT && (*b - SCALAR_SIGN_BIT) != 0 {
                    proof {
                        lemma_nonzero_mag(*b);
                    }
                    return Err(
                        NoiseError::InvalidConversion(
                            "Invalid conversion from float to usize".to_owned(),
                        ),
                    );
                }
                proof {
                    if *b >= SCALAR_SIGN_BIT {
                        assert(scalar_mag74(*b) == 0);
                    }
                }
                // The pattern denoting one past the platform word's
                // maximum: values at or beyond it saturate, and the
                // tolerance then accepts only the boundary itself.
                let word_boundary: u64 = if usize::MAX as u64 == u64::MAX {
                    1087 * crate::scalar::SCALAR_FRAC_WEIGHT
                } else {
                    1055 * crate::scalar::SCALAR_FRAC_WEIGHT
                };
                proof {
                    lemma_word_boundary_value(word_boundary);
                }
                if crate::scalar::le_bits(word_boundary, *b) {
                    if *b == word_boundary {
                        Ok(usize::MAX)
                    } else {
                        proof {
                            lemma_beyond_word_boundary(*b, word_boundary);
                        }
                        Err(
                            NoiseError::InvalidConversion(
                                "Invalid conversion from float to usize".to_owned(),
                            ),
                        )
                    }
                } else {
                    proof {
                        lemma_below_word_boundary(*b, word_boundary);
                    }
                    if !frac_within_epsilon(*b) {
                        return Err(
                            NoiseError::InvalidConversion(
                                "Invalid conversion from float to usize".to_owned(),
                            ),
                        );
                    }
                    let fl = bits_to_floor_mag(*b);
                    Ok(fl as usize)
                }
            },
            ConstantTypes::Int(i) => {
                if *i >= 0 {
                    Ok(*i as usize)
                } else {
                    Err(
                        NoiseError::InvalidConversion(
                            "Invalid conversion from negative i32 to usize".to_owned(),
                        ),
                    )
                }
            },
            ConstantTypes::UnsignedInt(u) => {
                if *u <= usize::MAX as u64 {
                    Ok(*u as usize)
                } else {
                    Err(
                        NoiseError::InvalidConversion(
                            "u64 value too large to convert to usize".to_owned(),
                        ),
                    )
                }
            },
            ConstantTypes::Usize(u) => Ok(*u),
        }
    }

    /// Converts the constant to a signed 32-bit integer: doubles are
    /// range-checked against the type's bounds and truncated toward zero;
    /// integers out of range are refused.
    pub fn as_i32(&self) -> (r: Result<i32, NoiseError>)
        ensures
            match r {
                Ok(n) => const_as_i32_spec(*self) == Some(n),
                Err(e) => const_as_i32_spec(*self) is None && e matches
                    NoiseError::InvalidConversion(_),
            },
    {
        match self {
            ConstantTypes::Float(b) => {
                if is_nan_bits(*b) {
                    return Ok(0);
                }
                proof {
                    lemma_i32_bound_values();
                }
                // The bit patterns of the type's bounds as doubles.
                let min_bits: u64 = 0xC1E0_0000_0000_0000;
                let max_bits: u64 = 0x41DF_FFFF_FFC0_0000;
                if !crate::scalar::le_bits(min_bits, *b) || !crate::scalar::le_bits(
                    *b,
                    max_bits,
                ) {
                    return Err(
                        NoiseError::InvalidConversion(
                            "Invalid conversion from float to i32".to_owned(),
                        ),
                    );
                }
                let fl = bits_to_floor_mag(*b);
                proof {
                    lemma_i32_floor_fits(*b, fl);
                }
                if *b >= SCALAR_SIGN_BIT {
                    Ok((-(fl as i64)) as i32)
                } else {
                    Ok(fl as i32)
                }
            },
            ConstantTypes::Int(i) => Ok(*i),
            ConstantTypes::UnsignedInt(u) => {
                if *u <= 0x7FFF_FFFFu64 {
                    Ok(*u as i32)
                } else {
                    Err(
                        NoiseError::InvalidConversion(
                            "u64 value too large to convert to i32".to_owned(),
                        ),
                    )
                }
            },
            ConstantTypes::Usize(u) => {
                if *u <= 0x7FFF_FFFFusize {
                    Ok(*u as i32)
                } else {
                    Err(
                        NoiseError::InvalidConversion(
                            "usize value too large to convert to i32".to_owned(),
                        ),
                    )
                }
            },
        }
    }

    /// Converts the constant to a double's bit pattern.  A double passes
    /// through unchanged; an integer is rounded to the nearest
    /// representable value, ties to the even mantissa.  Never fails.
    pub fn as_float_bits(&self) -> (r: Result<u64, NoiseError>)
        ensures
            r is Ok,
            match r {
                Ok(bits) => {
                    &&& self matches ConstantTypes::Float(b) ==> bits == b
                    &&& !(self is Float) ==> scalar_is_finite(bits) && scalar_v74(bits)
                        == const_double_v74(*self)
                },
                Err(_) => false,
            },
    {
        match self {
            ConstantTypes::Float(b) => Ok(*b),
            ConstantTypes::Int(i) => Ok(int_to_bits(*i)),
            ConstantTypes::UnsignedInt(u) => Ok(rne_to_bits(*u)),
            ConstantTypes::Usize(u) => Ok(rne_to_bits(*u as u64)),
        }
    }
}

/// A nonzero magnitude-bit pattern denotes a nonzero magnitude.
proof fn lemma_nonzero_mag(b: u64)
    requires
        b >= SCALAR_SIGN_BIT,
        b - SCALAR_SIGN_BIT != 0,
    ensures
        scalar_mag74(b) != 0,
{
    lemma2_to64();
    lemma2_to64_rest();
    if scalar_exp(b) != 0 {
        lemma_pow2_pos((scalar_exp(b) - 1) as nat);
        vstd::arithmetic::mul::lemma_mul_strictly_positive(
            (scalar_frac(b) + crate::scalar::SCALAR_FRAC_WEIGHT) as int,
            pow2((scalar_exp(b) - 1) as nat) as int,
        );
    } else {
        vstd::arithmetic::div_mod::lemma_fundamental_div_mod(
            (b - SCALAR_SIGN_BIT) as int,
            crate::scalar::SCALAR_FRAC_WEIGHT as int,
        );
    }
}

/// Below the word boundary, a pattern is finite and its whole part fits
/// the platform word.
proof fn lemma_below_word_boundary(b: u64, wb: u64)
    requires
        !scalar_is_nan(b),
        scalar_v74(b) < scalar_v74(wb),
        !scalar_is_negative(b) || scalar_mag74(b) == 0,
        !scalar_is_negative(wb),
        scalar_mag74(wb) as int == (usize::MAX as int + 1) * pow2(1074) as int,
    ensures
        scalar_is_finite(b),
        scalar_mag74(b) as int / pow2(1074) as int <= usize::MAX as int,
        scalar_mag74(b) as int / pow2(1074) as int >= 0,
{
    lemma2_to64();
    lemma2_to64_rest();
    lemma_pow2_pos(1074);
    let d = pow2(1074) as int;
    let m = scalar_mag74(b) as int;
    assert(m < (usize::MAX as int + 1) * d);
    // Finite: an infinite magnitude would outgrow the boundary.
    if scalar_exp(b) == 2047 {
        lemma_mul_inequality(
            SCALAR_FRAC_WEIGHT as int,
            (scalar_frac(b) + SCALAR_FRAC_WEIGHT) as int,
            pow2(2046) as int,
        );
        lemma_pow2_adds(52, 2046);
        assert((usize::MAX as int + 1) * d <= pow2(64) as int * d) by {
            lemma_mul_inequality(usize::MAX as int + 1, pow2(64) as int, d);
        }
        assert(pow2(64) as int * d == pow2(1138)) by {
            lemma_pow2_adds(64, 1074);
        }
        lemma_pow2_strictly_increases(1138, 2098);
        assert(false);
    }
    // The floor stays within the word.
    vstd::arithmetic::div_mod::lemma_fundamental_div_mod(m, d);
    assert(m / d <= usize::MAX as int) by {
        if m / d > usize::MAX as int {
            lemma_mul_inequality(usize::MAX as int + 1, m / d, d);
            vstd::arithmetic::mul::lemma_mul_is_commutative(m / d, d);
            vstd::arithmetic::div_mod::lemma_mod_division_less_than_divisor(m, d);
        }
    }
    vstd::arithmetic::div_mod::lemma_div_pos_is_pos(m, d);
}

/// At or beyond the boundary but not on it, the value is strictly past
/// one more than the word's maximum, so the tolerance refuses it.
proof fn lemma_beyond_word_boundary(b: u64, wb: u64)
    requires
        !scalar_is_nan(b),
        !scalar_is_nan(wb),
        scalar_v74(b) >= scalar_v74(wb),
        b != wb,
        !scalar_is_negative(b) || scalar_mag74(b) == 0,
        !scalar_is_negative(wb),
        scalar_mag74(wb) as int == (usize::MAX as int + 1) * pow2(1074) as int,
        wb == scalar_exp(wb) * crate::scalar::SCALAR_FRAC_WEIGHT,
        1023 <= scalar_exp(wb) <= 2046,
    ensures
        const_as_usize_spec(ConstantTypes::Float(b)) is None,
{
    lemma2_to64();
    lemma2_to64_rest();
    lemma_pow2_pos(1074);
    let d = pow2(1074) as int;
    let m = scalar_mag74(b) as int;
    assert(!scalar_is_negative(b)) by {
        lemma_mul_inequality(1, usize::MAX as int + 1, d);
    }
    vstd::arithmetic::div_mod::lemma_fundamental_div_mod(m, d);
    if frac74(b) <= pow2(1022) as int {
        // Tolerated fraction with floor at least the boundary: the spec
        // accepts only the exact boundary value, carried by one pattern.
        assert(m / d >= usize::MAX as int + 1) by {
            if m / d <= usize::MAX as int {
                vstd::arithmetic::div_mod::lemma_mod_division_less_than_divisor(m, d);
                lemma_mul_inequality(m / d, usize::MAX as int, d);
                vstd::arithmetic::mul::lemma_mul_is_commutative(m / d, d);
                assert(frac74(b) < d);
                assert(m < (usize::MAX as int) * d + d);
                vstd::arithmetic::mul::lemma_mul_is_distributive_add_other_way(
                    d,
                    usize::MAX as int,
                    1,
                );
            }
        }
        if frac74(b) == 0 && m / d == usize::MAX as int + 1 {
            assert(m == (usize::MAX as int + 1) * d) by {
                vstd::arithmetic::mul::lemma_mul_is_commutative(d, usize::MAX as int + 1);
            }
            let e0 = scalar_exp(wb);
            assert(scalar_frac(wb) == 0 && scalar_exp(wb) == e0) by {
                vstd::arithmetic::div_mod::lemma_fundamental_div_mod_converse(
                    wb as int,
                    SCALAR_FRAC_WEIGHT as int,
                    e0 as int,
                    0,
                );
            }
            assert(scalar_mag74(wb) == pow2((e0 + 51) as nat)) by {
                lemma_pow2_adds(52, (e0 - 1) as nat);
            }
            assert(scalar_mag74(b) == pow2((e0 - 1023) as nat) * pow2(1074)) by {
                lemma_pow2_adds((e0 - 1023) as nat, 1074);
            }
            lemma_unique_pattern(b, e0);
            assert(false);
        }
    }
}

/// The patterns denoting exactly one past the platform word's maximum.
proof fn lemma_word_boundary_value(b: u64)
    requires
        b == if usize::MAX as u64 == u64::MAX {
            1087u64 * crate::scalar::SCALAR_FRAC_WEIGHT
        } else {
            1055u64 * crate::scalar::SCALAR_FRAC_WEIGHT
        },
    ensures
        scalar_mag74(b) as int % pow2(1074) as int == 0,
        scalar_mag74(b) as int / pow2(1074) as int == usize::MAX as int + 1,
        scalar_mag74(b) as int == (usize::MAX as int + 1) * pow2(1074) as int,
        frac74(b) == 0,
        !scalar_is_nan(b),
        !scalar_is_negative(b),
        b == scalar_exp(b) * crate::scalar::SCALAR_FRAC_WEIGHT,
        1023 <= scalar_exp(b) <= 2046,
{
    lemma2_to64();
    lemma2_to64_rest();
    lemma_pow2_pos(1074);
    if usize::MAX as u64 == u64::MAX {
        assert(scalar_exp(b) == 1087 && scalar_frac(b) == 0) by {
            vstd::arithmetic::div_mod::lemma_fundamental_div_mod_converse(
                b as int,
                crate::scalar::SCALAR_FRAC_WEIGHT as int,
                1087,
                0,
            );
        }
        assert(scalar_mag74(b) == crate::scalar::SCALAR_FRAC_WEIGHT as nat * pow2(1086));
        assert(scalar_mag74(b) == pow2(64) * pow2(1074)) by {
            lemma_pow2_adds(52, 1086);
            lemma_pow2_adds(64, 1074);
        }
        lemma_mod_multiples_basic(pow2(64) as int, pow2(1074) as int);
        lemma_div_multiples_vanish(pow2(64) as int, pow2(1074) as int);
        vstd::arithmetic::mul::lemma_mul_is_commutative(pow2(64) as int, pow2(1074) as int);
        assert(usize::MAX as int + 1 == pow2(64));
        vstd::arithmetic::mul::lemma_mul_is_commutative(
            pow2(1074) as int,
            usize::MAX as int + 1,
        );
    } else {
        assert(scalar_exp(b) == 1055 && scalar_frac(b) == 0) by {
            vstd::arithmetic::div_mod::lemma_fundamental_div_mod_converse(
                b as int,
                crate::scalar::SCALAR_FRAC_WEIGHT as int,
                1055,
                0,
            );
        }
        assert(scalar_mag74(b) == crate::scalar::SCALAR_FRAC_WEIGHT as nat * pow2(1054));
        assert(scalar_mag74(b) == pow2(32) * pow2(1074)) by {
            lemma_pow2_adds(52, 1054);
            lemma_pow2_adds(32, 1074);
        }
        lemma_mod_multiples_basic(pow2(32) as int, pow2(1074) as int);
        lemma_div_multiples_vanish(pow2(32) as int, pow2(1074) as int);
        vstd::arithmetic::mul::lemma_mul_is_commutative(pow2(32) as int, pow2(1074) as int);
        assert(usize::MAX as int + 1 == pow2(32));
        vstd::arithmetic::mul::lemma_mul_is_commutative(
            pow2(1074) as int,
            usize::MAX as int + 1,
        );
    }
}

/// A positive pattern whose magnitude is exactly 2^(e0 + 22) on the
/// mantissa scale is the pure power-of-two pattern with exponent e0.
proof fn lemma_unique_pattern(b: u64, e0: u64)
    requires
        !scalar_is_nan(b),
        !scalar_is_negative(b),
        1023 <= e0 <= 2046,
        scalar_mag74(b) == pow2((e0 - 1023) as nat) * pow2(1074),
    ensures
        b == e0 * crate::scalar::SCALAR_FRAC_WEIGHT,
{
    lemma2_to64();
    lemma2_to64_rest();
    let e = scalar_exp(b);
    let f = scalar_frac(b);
    lemma_pow2_adds((e0 - 1023) as nat, 1074);
    assert(scalar_mag74(b) == pow2((e0 + 51) as nat));
    // The magnitude pins the exponent field: mantissa range brackets it.
    if e == 0 {
        lemma_pow2_strictly_increases(52, (e0 + 51) as nat);
        assert(false);
    }
    // mag74 == (f + 2^52) * 2^(e-1), with mantissa in [2^52, 2^53).
    lemma_pow2_pos((e - 1) as nat);
    lemma_mul_inequality(
        crate::scalar::SCALAR_FRAC_WEIGHT as int,
        (f + crate::scalar::SCALAR_FRAC_WEIGHT) as int,
        pow2((e - 1) as nat) as int,
    );
    lemma_mul_strict_inequality(
        (f + crate::scalar::SCALAR_FRAC_WEIGHT) as int,
        (2 * crate::scalar::SCALAR_FRAC_WEIGHT) as int,
        pow2((e - 1) as nat) as int,
    );
    lemma_pow2_adds(52, (e - 1) as nat);
    lemma_pow2_adds(53, (e - 1) as nat);
    assert(pow2((e + 51) as nat) <= pow2((e0 + 51) as nat));
    assert(pow2((e0 + 51) as nat) < pow2((e + 52) as nat)) by {
        assert(pow2(53) == 2 * crate::scalar::SCALAR_FRAC_WEIGHT);
        assert(pow2((53 + e - 1) as nat) == pow2(53) * pow2((e - 1) as nat));
    }
    assert(e == e0) by {
        if e < e0 {
            // Then e0 + 51 >= e + 52, making the magnitude too large.
            if e + 52 < e0 + 51 {
                lemma_pow2_strictly_increases((e + 52) as nat, (e0 + 51) as nat);
            }
        }
        if e > e0 {
            lemma_pow2_strictly_increases((e0 + 51) as nat, (e + 51) as nat);
        }
    }
    assert(f == 0) by {
        if f > 0 {
            lemma_mul_strict_inequality(
                crate::scalar::SCALAR_FRAC_WEIGHT as int,
                (f + crate::scalar::SCALAR_FRAC_WEIGHT) as int,
                pow2((e - 1) as nat) as int,
            );
        }
    }
    vstd::arithmetic::div_mod::lemma_fundamental_div_mod(
        b as int,
        crate::scalar::SCALAR_FRAC_WEIGHT as int,
    );
    assert(scalar_mag_bits(b) == b);
}

/// The bounds of the 32-bit signed range as scaled double values: the bit
/// patterns used by the range check denote exactly the type's extremes.
proof fn lemma_i32_bound_values()
    ensures
        !scalar_is_nan(0xC1E0_0000_0000_0000u64),
        !scalar_is_nan(0x41DF_FFFF_FFC0_0000u64),
        scalar_v74(0xC1E0_0000_0000_0000u64) == (i32::MIN as int) * pow2(1074),
        scalar_v74(0x41DF_FFFF_FFC0_0000u64) == (i32::MAX as int) * pow2(1074),
{
    lemma2_to64();
    lemma2_to64_rest();
    // -2^31: sign bit, exponent 1054, empty fraction.
    let mn: u64 = 0xC1E0_0000_0000_0000;
    assert(scalar_mag_bits(mn) == 0x41E0_0000_0000_0000);
    assert(scalar_exp(mn) == 1054 && scalar_frac(mn) == 0) by {
        vstd::arithmetic::div_mod::lemma_fundamental_div_mod_converse(
            0x41E0_0000_0000_0000,
            crate::scalar::SCALAR_FRAC_WEIGHT as int,
            1054,
            0,
        );
    }
    assert(scalar_mag74(mn) == crate::scalar::SCALAR_FRAC_WEIGHT as nat * pow2(1053));
    assert(scalar_mag74(mn) == pow2(31) * pow2(1074)) by {
        lemma_pow2_adds(52, 1053);
        lemma_pow2_adds(31, 1074);
    }
    assert(scalar_v74(mn) == (i32::MIN as int) * pow2(1074)) by {
        vstd::arithmetic::mul::lemma_mul_unary_negation(pow2(31) as int, pow2(1074) as int);
    }
    // 2^31 - 1: exponent 1053, mantissa (2^31 - 1) * 2^22.
    let mx: u64 = 0x41DF_FFFF_FFC0_0000;
    assert(scalar_exp(mx) == 1053 && scalar_frac(mx) == 0xF_FFFF_FFC0_0000) by {
        vstd::arithmetic::div_mod::lemma_fundamental_div_mod_converse(
            mx as int,
            crate::scalar::SCALAR_FRAC_WEIGHT as int,
            1053,
            0xF_FFFF_FFC0_0000,
        );
    }
    assert(scalar_mag74(mx) == 0x1F_FFFF_FFC0_0000 as nat * pow2(1052));
    assert(scalar_mag74(mx) == (i32::MAX as nat) * pow2(1074)) by {
        assert(0x1F_FFFF_FFC0_0000 as nat == (i32::MAX as nat) * pow2(22)) by {
            lemma2_to64();
            assert(pow2(22) == 0x40_0000);
            assert((0x7FFF_FFFF as nat) * (0x40_0000 as nat) == 0x1F_FFFF_FFC0_0000 as nat)
                by (nonlinear_arith);
        }
        lemma_pow2_adds(22, 1052);
        vstd::arithmetic::mul::lemma_mul_is_associative(
            i32::MAX as int,
            pow2(22) as int,
            pow2(1052) as int,
        );
    }
}

/// A double within the 32-bit signed range truncates to a magnitude the
/// type holds.
proof fn lemma_i32_floor_fits(b: u64, fl: u64)
    requires
        !scalar_is_nan(b),
        fl == sat_floor74(b),
        (i32::MIN as int) * pow2(1074) <= scalar_v74(b) <= (i32::MAX as int) * pow2(1074),
    ensures
        scalar_is_negative(b) ==> fl <= 0x8000_0000u64,
        !scalar_is_negative(b) ==> fl <= 0x7FFF_FFFFu64,
        const_as_i32_spec(ConstantTypes::Float(b)) == Some(
            (if scalar_is_negative(b) {
                -(fl as int)
            } else {
                fl as int
            }) as i32,
        ),
{
    lemma2_to64();
    lemma2_to64_rest();
    lemma_pow2_pos(1074);
    let d = pow2(1074) as int;
    let m = scalar_mag74(b) as int;
    if scalar_is_negative(b) {
        // m <= 2^31 * 2^1074, so the floor is at most 2^31.
        assert(m <= 0x8000_0000 * d);
        assert(m / d <= 0x8000_0000) by {
            lemma_div_multiples_vanish(0x8000_0000, d);
            vstd::arithmetic::div_mod::lemma_div_is_ordered(m, 0x8000_0000 * d, d);
            vstd::arithmetic::mul::lemma_mul_is_commutative(0x8000_0000, d);
        }
        vstd::arithmetic::div_mod::lemma_div_pos_is_pos(m, d);
    } else {
        assert(m <= 0x7FFF_FFFF * d);
        assert(m / d <= 0x7FFF_FFFF) by {
            lemma_div_multiples_vanish(0x7FFF_FFFF, d);
            vstd::arithmetic::div_mod::lemma_div_is_ordered(m, 0x7FFF_FFFF * d, d);
            vstd::arithmetic::mul::lemma_mul_is_commutative(0x7FFF_FFFF, d);
        }
        vstd::arithmetic::div_mod::lemma_div_pos_is_pos(m, d);
    }
}

} // verus!
