//! Fixed-point encoding of small integers into 64-bit plaintext words.
//!
//! A message occupies the `bit_precision` most significant bits of a word;
//! the bits below it are left as margin for the noise that encryption and
//! homomorphic operations add.

use vstd::arithmetic::div_mod::{lemma_fundamental_div_mod, lemma_fundamental_div_mod_converse};
use vstd::arithmetic::power2::{
    lemma2_to64, lemma2_to64_rest, lemma_pow2_adds, lemma_pow2_pos, pow2,
};
use vstd::bits::{lemma_u64_pow2_no_overflow, lemma_u64_shl_is_mul, lemma_u64_shr_is_div};
use vstd::prelude::*;

verus! {

/// Width in bits of a plaintext word.
pub const WORD_BITS: usize = 64;

/// Number of values of a plaintext word, `2^64`.
pub open spec fn word_modulus() -> int {
    0x1_0000_0000_0000_0000
}

/// A precision budget is valid when it reserves between one bit and the whole word.
pub open spec fn valid_precision(bit_precision: usize) -> bool {
    1 <= bit_precision <= WORD_BITS
}

/// The encoding scale `2^(64 - bit_precision)`.
pub open spec fn spec_delta(bit_precision: usize) -> int {
    pow2((WORD_BITS - bit_precision) as nat) as int
}

/// Number of messages that a precision budget distinguishes, `2^bit_precision`.
pub open spec fn spec_message_space(bit_precision: usize) -> int {
    pow2(bit_precision as nat) as int
}

/// The word that stands for an integer in the ring of words: its residue modulo `2^64`.
pub open spec fn spec_to_word(value: int) -> u64 {
    (value % word_modulus()) as u64
}

/// The additive inverse of a word in the ring of words.
pub open spec fn spec_negate(word: u64) -> u64 {
    spec_to_word(-(word as int))
}

/// The sum of two words in the ring of words.
pub open spec fn spec_word_sum(left: u64, right: u64) -> u64 {
    spec_to_word(left + right)
}

/// The encoded plaintext of a message: the message times the scale, in the ring of words.
pub open spec fn spec_encode(message: u64, bit_precision: usize) -> u64 {
    spec_to_word(message * spec_delta(bit_precision))
}

/// The message nearest to an encoded plaintext: the word divided by the scale,
/// rounded to the nearest integer (halves upwards) and reduced modulo `2^bit_precision`.
pub open spec fn spec_decode(encoded: u64, bit_precision: usize) -> u64 {
    (((encoded + spec_delta(bit_precision) / 2) / spec_delta(bit_precision)) % spec_message_space(
        bit_precision,
    )) as u64
}

/// The noise that decoding absorbs: at most half a scale step below the
/// encoded value, and less than half a step above it.
pub open spec fn tolerable_noise(noise: int, bit_precision: usize) -> bool {
    -(spec_delta(bit_precision) / 2) <= noise < spec_delta(bit_precision) - spec_delta(
        bit_precision,
    ) / 2
}

/// The scale and the message space split the word exactly: `delta * 2^bit_precision == 2^64`.
pub proof fn lemma_scale_splits_word(bit_precision: usize)
    requires
        valid_precision(bit_precision),
    ensures
        spec_delta(bit_precision) * spec_message_space(bit_precision) == word_modulus(),
        1 <= spec_delta(bit_precision) <= 0x8000_0000_0000_0000,
        2 <= spec_message_space(bit_precision) <= word_modulus(),
        bit_precision < WORD_BITS ==> spec_delta(bit_precision) % 2 == 0,
        bit_precision == WORD_BITS ==> spec_delta(bit_precision) == 1,
{
    let low = (WORD_BITS - bit_precision) as nat;
    let high = bit_precision as nat;
    lemma_pow2_adds(low, high);
    lemma_pow2_pos(low);
    lemma_pow2_pos(high);
    lemma2_to64();
    lemma2_to64_rest();
    lemma_pow2_adds(1, (high - 1) as nat);
    if bit_precision < WORD_BITS {
        lemma_pow2_adds(1, (low - 1) as nat);
    }
    let d = pow2(low) as int;
    let m = pow2(high) as int;
    assert(d <= 0x8000_0000_0000_0000) by (nonlinear_arith)
        requires
            d * m == 0x1_0000_0000_0000_0000,
            m >= 2,
            d >= 1,
    ;
    assert(m <= 0x1_0000_0000_0000_0000) by (nonlinear_arith)
        requires
            d * m == 0x1_0000_0000_0000_0000,
            m >= 2,
            d >= 1,
    ;
}

/// Decoding absorbs tolerable noise: a word that lies within half a scale
/// step of `value * delta`, anywhere in the ring, decodes to `value` modulo
/// `2^bit_precision`.
pub proof fn lemma_decode_absorbs_noise(value: int, noise: int, bit_precision: usize)
    requires
        valid_precision(bit_precision),
        tolerable_noise(noise, bit_precision),
    ensures
        spec_decode(spec_to_word(value * spec_delta(bit_precision) + noise), bit_precision)
            == value % spec_message_space(bit_precision),
{
    lemma_scale_splits_word(bit_precision);
    let d = spec_delta(bit_precision);
    let p = spec_message_space(bit_precision);
    let m = word_modulus();
    let half = d / 2;
    let x = value * d + noise;
    let k = x / m;
    let y = x % m;
    lemma_fundamental_div_mod(x, m);
    assert(0 <= y < m);
    assert(spec_to_word(x) == y);
    let q = value - k * p;
    assert(y + half == q * d + (noise + half)) by (nonlinear_arith)
        requires
            x == m * k + y,
            x == value * d + noise,
            m == d * p,
            q == value - k * p,
    ;
    lemma_fundamental_div_mod_converse(y + half, d, q, noise + half);
    assert(q % p == value % p) by {
        vstd::arithmetic::div_mod::lemma_mod_multiples_vanish(-k, value, p);
        assert(p * (-k) + value == q) by (nonlinear_arith)
            requires
                q == value - k * p,
        ;
    }
    assert(0 <= value % p < p);
}

/// Round trip: decoding the encoding of a message of the message space gives the message back.
pub proof fn lemma_decode_inverts_encode(message: u64, bit_precision: usize)
    requires
        valid_precision(bit_precision),
        message < spec_message_space(bit_precision),
    ensures
        spec_decode(spec_encode(message, bit_precision), bit_precision) == message,
{
    lemma_scale_splits_word(bit_precision);
    lemma_decode_absorbs_noise(message as int, 0, bit_precision);
    vstd::arithmetic::div_mod::lemma_small_mod(
        message as nat,
        spec_message_space(bit_precision) as nat,
    );
}

/// Linearity: the ring sum of two noisy encodings decodes to the sum of the
/// two messages modulo `2^bit_precision`, as long as the two noises together
/// stay tolerable.
pub proof fn lemma_sum_decodes_to_sum(
    left: u64,
    left_noise: int,
    right: u64,
    right_noise: int,
    bit_precision: usize,
)
    requires
        valid_precision(bit_precision),
        tolerable_noise(left_noise + right_noise, bit_precision),
    ensures
        spec_decode(
            spec_word_sum(
                spec_to_word(left * spec_delta(bit_precision) + left_noise),
                spec_to_word(right * spec_delta(bit_precision) + right_noise),
            ),
            bit_precision,
        ) == (left + right) % spec_message_space(bit_precision),
{
    let d = spec_delta(bit_precision);
    let a = left * d + left_noise;
    let b = right * d + right_noise;
    let m = word_modulus();
    lemma_fundamental_div_mod(a, m);
    lemma_fundamental_div_mod(b, m);
    let total = (left + right) * d + (left_noise + right_noise);
    assert(total == a + b) by (nonlinear_arith)
        requires
            a == left * d + left_noise,
            b == right * d + right_noise,
            total == (left + right) * d + (left_noise + right_noise),
    ;
    assert((a % m + b % m) % m == (a + b) % m) by {
        vstd::arithmetic::div_mod::lemma_add_mod_noop(a, b, m);
    }
    lemma_decode_absorbs_noise(left + right, left_noise + right_noise, bit_precision);
}

/// The encoding scale of a precision budget.
pub fn delta(bit_precision: usize) -> (scale: u64)
    requires
        valid_precision(bit_precision),
    ensures
        scale == spec_delta(bit_precision),
{
    let shift: u64 = (WORD_BITS - bit_precision) as u64;
    proof {
        lemma_u64_pow2_no_overflow(shift as nat);
        lemma_u64_shl_is_mul(1, shift);
    }
    1u64 << shift
}

/// Tells whether a message is one of the `2^bit_precision` values that the budget distinguishes.
pub fn in_message_space(message: u64, bit_precision: usize) -> (inside: bool)
    requires
        valid_precision(bit_precision),
    ensures
        inside == (message < spec_message_space(bit_precision)),
{
    proof {
        lemma_scale_splits_word(bit_precision);
    }
    if bit_precision == WORD_BITS {
        true
    } else {
        let shift: u64 = bit_precision as u64;
        proof {
            lemma_u64_shr_is_div(message, shift);
            lemma_pow2_pos(shift as nat);
            let p = pow2(shift as nat) as int;
            let m = message as int;
            assert((m / p == 0) == (m < p)) by (nonlinear_arith)
                requires
                    p > 0,
                    m >= 0,
            ;
        }
        message >> shift == 0
    }
}

/// Encodes a message: multiplies it by the scale in the ring of words, so
/// that it occupies the `bit_precision` most significant bits.
pub fn encode(message: u64, bit_precision: usize) -> (encoded: u64)
    requires
        valid_precision(bit_precision),
    ensures
        encoded == spec_encode(message, bit_precision),
{
    let scale = delta(bit_precision);
    message.wrapping_mul(scale)
}

/// Decodes a plaintext word: divides it by the scale, rounds to the nearest
/// integer and reduces the result modulo `2^bit_precision`.
pub fn decode(encoded: u64, bit_precision: usize) -> (message: u64)
    requires
        valid_precision(bit_precision),
    ensures
        message == spec_decode(encoded, bit_precision),
        message < spec_message_space(bit_precision),
{
    let scale = delta(bit_precision);
    proof {
        lemma_scale_splits_word(bit_precision);
    }
    if bit_precision == WORD_BITS {
        proof {
            vstd::arithmetic::div_mod::lemma_small_mod(encoded as nat, word_modulus() as nat);
        }
        return encoded;
    }
    let half: u64 = scale / 2;
    let quotient: u64 = encoded / scale;
    let remainder: u64 = encoded % scale;
    let ghost d = scale as int;
    let ghost p = spec_message_space(bit_precision);
    proof {
        lemma_fundamental_div_mod(encoded as int, d);
        assert(quotient < p) by (nonlinear_arith)
            requires
                encoded == d * quotient + remainder,
                0 <= remainder < d,
                encoded < d * p,
                d > 0,
        ;
    }
    let rounded: u64 = if remainder >= half {
        quotient + 1
    } else {
        quotient
    };
    proof {
        let up: int = if remainder >= half {
            1
        } else {
            0
        };
        let rest: int = remainder + half - up * d;
        assert(encoded + half == (quotient + up) * d + rest) by (nonlinear_arith)
            requires
                encoded == d * quotient + remainder,
                rest == remainder + half - up * d,
        ;
        lemma_fundamental_div_mod_converse(encoded + half, d, quotient + up, rest);
        assert(rounded == (encoded + d / 2) / d);
    }
    let shift: u64 = bit_precision as u64;
    proof {
        lemma_u64_pow2_no_overflow(shift as nat);
        lemma_u64_shl_is_mul(1, shift);
    }
    let space: u64 = 1u64 << shift;
    rounded % space
}

} // verus!
