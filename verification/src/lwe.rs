//! The arithmetic of LWE ciphertexts that the pipeline relies on: what a
//! secret key recovers from the words of a ciphertext, and that this is
//! linear in the ciphertext.
//!
//! A ciphertext of dimension `n` is a sequence of `n + 1` words: a mask of
//! `n` words, then the body. A secret key is a sequence of `n` bits.

use crate::encoding::{
    lemma_sum_decodes_to_sum, spec_decode, spec_delta, spec_message_space, spec_to_word,
    spec_word_sum, tolerable_noise, valid_precision, word_modulus,
};
use vstd::arithmetic::div_mod::{
    lemma_add_mod_noop, lemma_fundamental_div_mod, lemma_mod_multiples_vanish,
};
use vstd::prelude::*;

verus! {

/// The word-by-word sum of two sequences of words, in the ring of words.
pub open spec fn spec_word_sums(left: Seq<u64>, right: Seq<u64>) -> Seq<u64> {
    Seq::new(left.len(), |i: int| spec_word_sum(left[i], right[i]))
}

/// The inner product of a mask with the bits of a key, over the integers.
pub open spec fn spec_inner_product(mask: Seq<u64>, bits: Seq<u64>) -> int
    decreases mask.len(),
{
    if mask.len() == 0 {
        0
    } else {
        spec_inner_product(mask.drop_last(), bits) + mask.last() * bits[mask.len() - 1]
    }
}

/// The plaintext word that a key recovers from the words of a ciphertext:
/// the body minus the inner product of mask and key, in the ring of words.
pub open spec fn spec_phase(bits: Seq<u64>, words: Seq<u64>) -> u64 {
    spec_to_word(words.last() - spec_inner_product(words.drop_last(), bits))
}

/// Two integers that differ by a multiple of the word modulus stand for the same word.
proof fn lemma_congruent_words(left: int, right: int)
    requires
        (left - right) % word_modulus() == 0,
    ensures
        spec_to_word(left) == spec_to_word(right),
{
    let m = word_modulus();
    let turns = (left - right) / m;
    lemma_fundamental_div_mod(left - right, m);
    assert(m * turns + right == left);
    lemma_mod_multiples_vanish(turns, right, m);
}

/// The inner product of a sum of masks is, up to a multiple of the word
/// modulus, the sum of the inner products.
proof fn lemma_inner_product_is_linear(left: Seq<u64>, right: Seq<u64>, bits: Seq<u64>)
    requires
        left.len() == right.len(),
    ensures
        (spec_inner_product(spec_word_sums(left, right), bits) - spec_inner_product(left, bits)
            - spec_inner_product(right, bits)) % word_modulus() == 0,
    decreases left.len(),
{
    let m = word_modulus();
    let sums = spec_word_sums(left, right);
    if left.len() == 0 {
    } else {
        let last = left.len() - 1;
        assert(sums.drop_last() =~= spec_word_sums(left.drop_last(), right.drop_last()));
        lemma_inner_product_is_linear(left.drop_last(), right.drop_last(), bits);
        let before = spec_inner_product(sums.drop_last(), bits) - spec_inner_product(
            left.drop_last(),
            bits,
        ) - spec_inner_product(right.drop_last(), bits);
        let total = left[last] + right[last];
        let carry = total / m;
        lemma_fundamental_div_mod(total, m);
        assert(sums.last() == total % m);
        let bit = bits[last] as int;
        let after = spec_inner_product(sums, bits) - spec_inner_product(left, bits)
            - spec_inner_product(right, bits);
        assert(after == m * (-(carry * bit)) + before) by (nonlinear_arith)
            requires
                after == before + (total % m) * bit - left[last] * bit - right[last] * bit,
                total == left[last] + right[last],
                total == m * carry + total % m,
        ;
        lemma_mod_multiples_vanish(-(carry * bit), before, m);
    }
}

/// Decryption is linear: what a key recovers from the word-by-word sum of
/// two ciphertexts is the ring sum of what it recovers from each.
pub proof fn lemma_phase_is_linear(bits: Seq<u64>, left: Seq<u64>, right: Seq<u64>)
    requires
        left.len() == right.len(),
        left.len() >= 1,
    ensures
        spec_phase(bits, spec_word_sums(left, right)) == spec_word_sum(
            spec_phase(bits, left),
            spec_phase(bits, right),
        ),
{
    let m = word_modulus();
    let sums = spec_word_sums(left, right);
    assert(sums.drop_last() =~= spec_word_sums(left.drop_last(), right.drop_last()));
    lemma_inner_product_is_linear(left.drop_last(), right.drop_last(), bits);
    let a = left.last() - spec_inner_product(left.drop_last(), bits);
    let b = right.last() - spec_inner_product(right.drop_last(), bits);
    let c = sums.last() - spec_inner_product(sums.drop_last(), bits);
    let total = left.last() + right.last();
    let carry = total / m;
    lemma_fundamental_div_mod(total, m);
    assert(sums.last() == total % m);
    let slack = spec_inner_product(sums.drop_last(), bits) - spec_inner_product(
        left.drop_last(),
        bits,
    ) - spec_inner_product(right.drop_last(), bits);
    let turns = slack / m;
    lemma_fundamental_div_mod(slack, m);
    assert(c - (a + b) == m * (-carry - turns)) by (nonlinear_arith)
        requires
            c == total % m - spec_inner_product(sums.drop_last(), bits),
            a + b == total - spec_inner_product(left.drop_last(), bits) - spec_inner_product(
                right.drop_last(),
                bits,
            ),
            total == m * carry + total % m,
            slack == spec_inner_product(sums.drop_last(), bits) - spec_inner_product(
                left.drop_last(),
                bits,
            ) - spec_inner_product(right.drop_last(), bits),
            slack == m * turns,
    ;
    lemma_mod_multiples_vanish(-carry - turns, 0, m);
    assert(m * (-carry - turns) + 0 == c - (a + b));
    lemma_congruent_words(c, a + b);
    lemma_add_mod_noop(a, b, m);
}

/// Homomorphic addition: if a key recovers from two ciphertexts the
/// encodings of two messages, each off by some noise, and the two noises
/// together stay tolerable, then what it recovers from the word-by-word sum
/// of the ciphertexts decodes to the sum of the messages modulo
/// `2^bit_precision`.
pub proof fn lemma_sum_of_ciphertexts_decrypts_to_sum(
    bits: Seq<u64>,
    left: Seq<u64>,
    left_message: u64,
    left_noise: int,
    right: Seq<u64>,
    right_message: u64,
    right_noise: int,
    bit_precision: usize,
)
    requires
        valid_precision(bit_precision),
        left.len() == right.len(),
        left.len() >= 1,
        spec_phase(bits, left) == spec_to_word(
            left_message * spec_delta(bit_precision) + left_noise,
        ),
        spec_phase(bits, right) == spec_to_word(
            right_message * spec_delta(bit_precision) + right_noise,
        ),
        tolerable_noise(left_noise + right_noise, bit_precision),
    ensures
        spec_decode(spec_phase(bits, spec_word_sums(left, right)), bit_precision) == (left_message
            + right_message) % spec_message_space(bit_precision),
{
    lemma_phase_is_linear(bits, left, right);
    lemma_sum_decodes_to_sum(left_message, left_noise, right_message, right_noise, bit_precision);
}

} // verus!
