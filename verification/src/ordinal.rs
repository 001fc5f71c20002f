//! Ordinals: single-precision values as integers that keep their order.
//!
//! A single-precision value is a sign bit over a magnitude of 31 bits: an
//! exponent field of eight bits over a fraction of 23. The ordinal of a
//! value is its magnitude's bit pattern, negated where the sign bit is set.
//! The ordinals of two numbers compare as the numbers do
//! ([`lemma_ordinals_compare_as_values`]), both zeros have the ordinal
//! zero, and the ordinal of `-v` is the ordinal of `v`, negated
//! ([`lemma_sign_flip_negates`]).
//!
//! The host turns a value into its bit pattern and back; everything from
//! there on is integer work and is done here.

use vstd::arithmetic::power2::{
    lemma_pow2_pos, lemma_pow2_strictly_increases, lemma_pow2_unfold, pow2,
};
use vstd::prelude::*;

verus! {

/// The bit pattern whose only set bit is the sign bit.
pub const SIGN_BIT: u32 = 0x8000_0000;

/// The ordinal of the largest finite value.
pub const MAX_FINITE: i32 = 0x7f7f_ffff;

/// The ordinal of the positive infinity.
pub const INFINITE: i32 = 0x7f80_0000;

/// The ordinal of the value with the given bit pattern.
pub open spec fn ordinal_of(bits: u32) -> i32 {
    if bits < SIGN_BIT {
        bits as i32
    } else {
        (-(bits - SIGN_BIT)) as i32
    }
}

/// The ordinal of the negated value. The least `i32` is the ordinal of no
/// value; it is sent to the greatest.
pub open spec fn negated(ordinal: i32) -> i32 {
    if ordinal == i32::MIN {
        i32::MAX
    } else {
        (-ordinal) as i32
    }
}

/// The bit pattern of the value with the given ordinal; for zero, that of
/// the zero without a sign.
pub open spec fn bits_of(ordinal: i32) -> u32 {
    if ordinal >= 0 {
        ordinal as u32
    } else {
        (negated(ordinal) + SIGN_BIT) as u32
    }
}

/// The bit pattern of the negated value.
pub open spec fn sign_flipped(bits: u32) -> u32 {
    if bits < SIGN_BIT {
        (bits + SIGN_BIT) as u32
    } else {
        (bits - SIGN_BIT) as u32
    }
}

/// Computes the ordinal of the value with the given bit pattern.
pub fn ordinal_from_bits(bits: u32) -> (ordinal: i32)
    ensures
        ordinal == ordinal_of(bits),
        ordinal > i32::MIN,
{
    if bits < SIGN_BIT {
        bits as i32
    } else {
        -((bits - SIGN_BIT) as i32)
    }
}

/// Computes the bit pattern of the value with the given ordinal.
pub fn ordinal_to_bits(ordinal: i32) -> (bits: u32)
    ensures
        bits == bits_of(ordinal),
{
    if ordinal >= 0 {
        ordinal as u32
    } else {
        negate(ordinal) as u32 + SIGN_BIT
    }
}

/// Computes the ordinal of the negated value.
pub fn negate(ordinal: i32) -> (r: i32)
    ensures
        r == negated(ordinal),
{
    if ordinal == i32::MIN {
        i32::MAX
    } else {
        -ordinal
    }
}

/// Every ordinal but the least `i32` is the ordinal of its own bit pattern.
pub proof fn lemma_ordinal_round_trip(ordinal: i32)
    requires
        ordinal > i32::MIN,
    ensures
        ordinal_of(bits_of(ordinal)) == ordinal,
{
}

/// Every bit pattern is the bit pattern of its own ordinal, but for that of
/// the negative zero, which comes back as that of the zero without a sign.
pub proof fn lemma_bits_round_trip(bits: u32)
    ensures
        bits != SIGN_BIT ==> bits_of(ordinal_of(bits)) == bits,
        bits_of(ordinal_of(SIGN_BIT)) == 0,
{
}

/// Flipping the sign bit of a value negates its ordinal.
pub proof fn lemma_sign_flip_negates(bits: u32)
    ensures
        ordinal_of(sign_flipped(bits)) == negated(ordinal_of(bits)),
        ordinal_of(sign_flipped(bits)) == -ordinal_of(bits),
{
}

/// Among values without a sign bit the greater bit pattern has the greater
/// ordinal, among values with one the lesser; and no value with a sign bit
/// has a greater ordinal than one without.
pub proof fn lemma_ordinal_order(a: u32, b: u32)
    ensures
        a < SIGN_BIT && b < SIGN_BIT ==> (ordinal_of(a) < ordinal_of(b) <==> a < b),
        a >= SIGN_BIT && b >= SIGN_BIT ==> (ordinal_of(a) < ordinal_of(b) <==> a > b),
        a >= SIGN_BIT && b < SIGN_BIT ==> ordinal_of(a) <= ordinal_of(b),
        ordinal_of(a) == ordinal_of(b) <==> a == b || (a == 0 && b == SIGN_BIT) || (a == SIGN_BIT
            && b == 0),
{
}

/// The number of bit patterns of a fraction: two to the power 23.
pub const FRACTIONS: u32 = 0x80_0000;

/// The bit pattern without its sign bit.
pub open spec fn magnitude(bits: u32) -> nat {
    (bits % SIGN_BIT) as nat
}

/// The exponent field of a bit pattern: the eight bits below the sign bit.
pub open spec fn exponent(bits: u32) -> nat {
    magnitude(bits) / (FRACTIONS as nat)
}

/// The fraction field of a bit pattern: its lowest 23 bits.
pub open spec fn fraction(bits: u32) -> nat {
    magnitude(bits) % (FRACTIONS as nat)
}

/// Whether the bit pattern is that of a number, finite or infinite.
pub open spec fn is_number(bits: u32) -> bool {
    exponent(bits) < 255 || fraction(bits) == 0
}

/// The absolute value that the format gives a bit pattern, times two to the
/// power 149, which makes it a whole number: the fraction itself where the
/// exponent field is zero, and else the fraction with a leading one, doubled
/// once for every step of the exponent field above one. An infinity comes
/// out above every finite value.
pub open spec fn scaled_magnitude(bits: u32) -> nat {
    if exponent(bits) == 0 {
        fraction(bits)
    } else {
        ((FRACTIONS + fraction(bits)) * pow2((exponent(bits) - 1) as nat)) as nat
    }
}

/// The value that the format gives a bit pattern, times two to the power
/// 149.
pub open spec fn scaled_value(bits: u32) -> int {
    if bits < SIGN_BIT {
        scaled_magnitude(bits) as int
    } else {
        -(scaled_magnitude(bits) as int)
    }
}

/// The greater magnitude stands for the greater absolute value.
proof fn lemma_scaled_magnitude_increases(a: u32, b: u32)
    requires
        magnitude(a) < magnitude(b),
    ensures
        scaled_magnitude(a) < scaled_magnitude(b),
{
    let (ea, fa) = (exponent(a), fraction(a));
    let (eb, fb) = (exponent(b), fraction(b));
    let unit = FRACTIONS as int;
    assert(magnitude(a) == ea * unit + fa && fa < unit);
    assert(magnitude(b) == eb * unit + fb && fb < unit);
    assert(ea <= eb) by (nonlinear_arith)
        requires
            ea * unit + fa < eb * unit + fb,
            0 <= fa < unit,
            0 <= fb < unit,
    ;
    if ea == eb {
        if ea > 0 {
            let scale = pow2((ea - 1) as nat) as int;
            lemma_pow2_pos((ea - 1) as nat);
            assert((unit + fa) * scale < (unit + fb) * scale) by (nonlinear_arith)
                requires
                    fa < fb,
                    scale > 0,
            ;
        }
    } else {
        let scale_b = pow2((eb - 1) as nat) as int;
        lemma_pow2_pos((eb - 1) as nat);
        assert(unit * scale_b <= (unit + fb) * scale_b) by (nonlinear_arith)
            requires
                fb >= 0,
                scale_b > 0,
        ;
        if ea == 0 {
            assert(unit * 1 <= unit * scale_b) by (nonlinear_arith)
                requires
                    scale_b >= 1,
                    unit > 0,
            ;
        } else {
            let scale_a = pow2((ea - 1) as nat) as int;
            lemma_pow2_pos((ea - 1) as nat);
            lemma_pow2_unfold(ea);
            if ea < eb - 1 {
                lemma_pow2_strictly_increases(ea, (eb - 1) as nat);
            }
            assert(2 * scale_a <= scale_b);
            assert((unit + fa) * scale_a < unit * scale_b) by (nonlinear_arith)
                requires
                    fa < unit,
                    scale_a > 0,
                    2 * scale_a <= scale_b,
                    unit > 0,
            ;
        }
    }
}

/// Two bit patterns stand for the same absolute value only if they have the
/// same magnitude.
proof fn lemma_scaled_magnitude_order(a: u32, b: u32)
    ensures
        magnitude(a) < magnitude(b) <==> scaled_magnitude(a) < scaled_magnitude(b),
        magnitude(a) == magnitude(b) <==> scaled_magnitude(a) == scaled_magnitude(b),
        scaled_magnitude(a) == 0 <==> magnitude(a) == 0,
{
    if magnitude(a) < magnitude(b) {
        lemma_scaled_magnitude_increases(a, b);
    }
    if magnitude(b) < magnitude(a) {
        lemma_scaled_magnitude_increases(b, a);
    }
    if magnitude(a) > 0 {
        lemma_scaled_magnitude_increases(0, a);
    }
}

/// The ordinals of the numbers are those from the negated ordinal of the
/// infinity to the ordinal of the infinity: what is not a number lies
/// beyond, on the side of its sign bit.
pub proof fn lemma_numbers_lie_within_infinities(bits: u32)
    ensures
        is_number(bits) <==> -INFINITE <= ordinal_of(bits) <= INFINITE,
{
    let unit = FRACTIONS as int;
    assert(magnitude(bits) == exponent(bits) * unit + fraction(bits));
    assert(INFINITE == 255 * unit);
}

/// Flipping the sign bit of a value negates the value.
pub proof fn lemma_sign_flip_negates_value(bits: u32)
    ensures
        scaled_value(sign_flipped(bits)) == -scaled_value(bits),
{
    assert(magnitude(sign_flipped(bits)) == magnitude(bits));
}

/// Ordinals compare as the values do that the format gives their bit
/// patterns: the lesser value has the lesser ordinal, and two bit patterns
/// share an ordinal exactly where they stand for the same value.
pub proof fn lemma_ordinals_compare_as_values(a: u32, b: u32)
    ensures
        ordinal_of(a) < ordinal_of(b) <==> scaled_value(a) < scaled_value(b),
        ordinal_of(a) == ordinal_of(b) <==> scaled_value(a) == scaled_value(b),
{
    lemma_scaled_magnitude_order(a, b);
    lemma_scaled_magnitude_order(b, a);
    assert(ordinal_of(a) == if a < SIGN_BIT {
        magnitude(a) as int
    } else {
        -(magnitude(a) as int)
    });
    assert(ordinal_of(b) == if b < SIGN_BIT {
        magnitude(b) as int
    } else {
        -(magnitude(b) as int)
    });
}

/// The same on ordinals: the lesser ordinal stands for the lesser value.
pub proof fn lemma_ordinal_order_is_value_order(p: i32, q: i32)
    requires
        p > i32::MIN,
        q > i32::MIN,
    ensures
        p < q <==> scaled_value(bits_of(p)) < scaled_value(bits_of(q)),
        p == q <==> scaled_value(bits_of(p)) == scaled_value(bits_of(q)),
{
    lemma_ordinal_round_trip(p);
    lemma_ordinal_round_trip(q);
    lemma_ordinals_compare_as_values(bits_of(p), bits_of(q));
}

} // verus!
