//! Construction of the accumulator (test vector) of a programmable bootstrap.
//!
//! The bootstrap works in the ring of polynomials modulo `X^N + 1`, so a
//! rotation past the end of the accumulator negates what it reads. Only the
//! `2^(bit_precision - 1)` values of the lower half of the message space are
//! free; each of them fills one box of `N / 2^(bit_precision - 1)` slots, and
//! the boxes are shifted by half a box so that every box is centred on the
//! rotation that its message produces.

use crate::encoding::{
    encode, lemma_decode_absorbs_noise, lemma_scale_splits_word, spec_decode, spec_encode,
    spec_message_space, spec_negate, valid_precision, word_modulus, WORD_BITS,
};
use crate::engine::{
    bootstrap_glwe_dimension, bootstrap_glwe_dimension_of, bootstrap_polynomial_size,
    bootstrap_polynomial_size_of, engine_trivial_glwe, glwe_dimension, glwe_polynomial_size,
    glwe_words, spec_trivial_glwe,
};
use crate::error::{ConfigurationError, EngineError, EngineOperation, PipelineError};
use concrete_core::prelude::{DefaultEngine, FftFourierLweBootstrapKey64, GlweCiphertext64};
use vstd::arithmetic::div_mod::{
    lemma_fundamental_div_mod, lemma_fundamental_div_mod_converse, lemma_mod_multiples_vanish,
    lemma_small_mod,
};
use vstd::arithmetic::power2::{lemma_pow2_pos, pow2};
use vstd::bits::{lemma_u64_pow2_no_overflow, lemma_u64_shl_is_mul};
use vstd::prelude::*;

verus! {

/// Number of boxes: the `2^(bit_precision - 1)` values of a lookup function
/// that can be chosen freely.
pub open spec fn spec_modulus_sup(bit_precision: usize) -> int {
    pow2((bit_precision - 1) as nat) as int
}

/// Number of accumulator slots that one box covers.
pub open spec fn spec_box_size(bit_precision: usize, polynomial_size: usize) -> int {
    polynomial_size as int / spec_modulus_sup(bit_precision)
}

/// Half a box, rounded down: the shift that centres the boxes.
pub open spec fn spec_half_box(bit_precision: usize, polynomial_size: usize) -> int {
    spec_box_size(bit_precision, polynomial_size) / 2
}

/// The reason for which a precision budget and a polynomial size are rejected, if any.
pub open spec fn spec_layout_error(bit_precision: usize, polynomial_size: usize) -> Option<
    ConfigurationError,
> {
    if !valid_precision(bit_precision) {
        Some(ConfigurationError::Precision)
    } else if polynomial_size as int % spec_modulus_sup(bit_precision) != 0 {
        Some(ConfigurationError::BoxAlignment)
    } else {
        None
    }
}

/// The reason for which a lookup table, a precision budget and a polynomial
/// size are rejected, if any.
pub open spec fn spec_table_error(
    table_len: nat,
    bit_precision: usize,
    polynomial_size: usize,
) -> Option<ConfigurationError> {
    if spec_layout_error(bit_precision, polynomial_size) is Some {
        spec_layout_error(bit_precision, polynomial_size)
    } else if table_len != spec_modulus_sup(bit_precision) {
        Some(ConfigurationError::TableSize)
    } else {
        None
    }
}

/// The slot at `position` once the boxes are filled and the first half box
/// is negated, before the rotation.
pub open spec fn spec_filled_entry(
    table: Seq<u64>,
    bit_precision: usize,
    polynomial_size: usize,
    position: int,
) -> u64 {
    let value = spec_encode(
        table[position / spec_box_size(bit_precision, polynomial_size)],
        bit_precision,
    );
    if position < spec_half_box(bit_precision, polynomial_size) {
        spec_negate(value)
    } else {
        value
    }
}

/// The accumulator of a lookup table: slot `j` holds what the filled and
/// negated vector holds half a box further on, cyclically.
pub open spec fn spec_accumulator(
    table: Seq<u64>,
    bit_precision: usize,
    polynomial_size: usize,
) -> Seq<u64> {
    Seq::new(
        polynomial_size as nat,
        |j: int|
            spec_filled_entry(
                table,
                bit_precision,
                polynomial_size,
                (j + spec_half_box(bit_precision, polynomial_size)) % (polynomial_size as int),
            ),
    )
}

/// The table holds, for each box index in order, a value that the lookup
/// function returns on that index.
pub open spec fn spec_tabulates<F: Fn(u64) -> u64>(
    func: F,
    bit_precision: usize,
    table: Seq<u64>,
) -> bool {
    &&& table.len() == spec_modulus_sup(bit_precision)
    &&& forall|i: int|
        0 <= i < table.len() ==> call_ensures(func, (i as u64,), #[trigger] table[i])
}

/// The words are an accumulator of the lookup function: as many as the
/// polynomial has coefficients and, if there are any, the accumulator of a
/// table of the function.
pub open spec fn spec_accumulator_of<F: Fn(u64) -> u64>(
    func: F,
    bit_precision: usize,
    polynomial_size: usize,
    words: Seq<u64>,
) -> bool {
    &&& words.len() == polynomial_size
    &&& polynomial_size > 0 ==> exists|table: Seq<u64>| #[trigger]
        spec_tabulates(func, bit_precision, table) && words == spec_accumulator(
            table,
            bit_precision,
            polynomial_size,
        )
}

/// A sequence rotated to the left by `mid` places.
pub open spec fn spec_rotate_left(words: Seq<u64>, mid: int) -> Seq<u64> {
    words.subrange(mid, words.len() as int) + words.subrange(0, mid)
}

/// Negating a word is subtracting it from zero with wrap-around.
pub proof fn lemma_negate_is_wrapping_sub(word: u64)
    ensures
        spec_negate(word) == vstd::wrapping::u64_specs::wrapping_sub(0, word),
        spec_negate(spec_negate(word)) == word,
{
    let m = word_modulus();
    if word == 0 {
        lemma_small_mod(0, m as nat);
    } else {
        lemma_fundamental_div_mod_converse(-(word as int), m, -1, m - word);
        lemma_fundamental_div_mod_converse(-(m - word), m, -1, word as int);
    }
}

/// The number of boxes of a precision budget.
pub fn modulus_sup(bit_precision: usize) -> (boxes: u64)
    requires
        valid_precision(bit_precision),
    ensures
        boxes == spec_modulus_sup(bit_precision),
        boxes >= 1,
{
    let shift: u64 = (bit_precision - 1) as u64;
    proof {
        lemma_u64_pow2_no_overflow(shift as nat);
        lemma_u64_shl_is_mul(1, shift);
    }
    1u64 << shift
}

/// Evaluates a lookup function on every box index, in order.
pub fn tabulate<F: Fn(u64) -> u64>(func: F, bit_precision: usize) -> (table: Vec<u64>)
    requires
        valid_precision(bit_precision),
        forall|i: u64| i < spec_modulus_sup(bit_precision) ==> call_requires(func, (i,)),
    ensures
        spec_tabulates(func, bit_precision, table@),
{
    let boxes = modulus_sup(bit_precision);
    let mut table: Vec<u64> = Vec::new();
    let mut i: u64 = 0;
    while i < boxes
        invariant
            i <= boxes,
            boxes == spec_modulus_sup(bit_precision),
            table@.len() == i,
            forall|j: u64| j < spec_modulus_sup(bit_precision) ==> call_requires(func, (j,)),
            forall|j: int|
                0 <= j < table@.len() ==> call_ensures(func, (j as u64,), #[trigger] table@[j]),
        decreases boxes - i,
    {
        let value = func(i);
        table.push(value);
        i += 1;
    }
    table
}

/// Fills one box of `box_size` slots for each value of the table with the
/// encoding of that value.
pub fn fill_boxes(table: &Vec<u64>, bit_precision: usize, box_size: usize) -> (filled: Vec<u64>)
    requires
        valid_precision(bit_precision),
        table@.len() * box_size <= usize::MAX,
    ensures
        filled@.len() == table@.len() * box_size,
        forall|t: int|
            0 <= t < filled@.len() ==> #[trigger] filled@[t] == spec_encode(
                table@[t / (box_size as int)],
                bit_precision,
            ),
{
    let mut filled: Vec<u64> = Vec::new();
    let mut i: usize = 0;
    while i < table.len()
        invariant
            valid_precision(bit_precision),
            i <= table@.len(),
            filled@.len() == i * box_size,
            forall|t: int|
                0 <= t < filled@.len() ==> #[trigger] filled@[t] == spec_encode(
                    table@[t / (box_size as int)],
                    bit_precision,
                ),
        decreases table@.len() - i,
    {
        let value = encode(table[i], bit_precision);
        let mut offset: usize = 0;
        while offset < box_size
            invariant
                i < table@.len(),
                offset <= box_size,
                value == spec_encode(table@[i as int], bit_precision),
                filled@.len() == i * box_size + offset,
                forall|t: int|
                    0 <= t < filled@.len() ==> #[trigger] filled@[t] == spec_encode(
                        table@[t / (box_size as int)],
                        bit_precision,
                    ),
            decreases box_size - offset,
        {
            proof {
                lemma_fundamental_div_mod_converse(
                    i * box_size + offset,
                    box_size as int,
                    i as int,
                    offset as int,
                );
            }
            filled.push(value);
            offset += 1;
        }
        proof {
            assert((i + 1) * box_size == i * box_size + box_size) by (nonlinear_arith);
        }
        i += 1;
    }
    filled
}

/// Replaces each of the first `count` words by its additive inverse.
pub fn negate_prefix(words: &mut Vec<u64>, count: usize)
    requires
        count <= old(words)@.len(),
    ensures
        final(words)@.len() == old(words)@.len(),
        forall|t: int|
            0 <= t < count ==> #[trigger] final(words)@[t] == spec_negate(old(words)@[t]),
        forall|t: int|
            count <= t < old(words)@.len() ==> #[trigger] final(words)@[t] == old(words)@[t],
{
    let mut k: usize = 0;
    while k < count
        invariant
            k <= count <= words@.len(),
            words@.len() == old(words)@.len(),
            forall|t: int| 0 <= t < k ==> #[trigger] words@[t] == spec_negate(old(words)@[t]),
            forall|t: int| k <= t < words@.len() ==> #[trigger] words@[t] == old(words)@[t],
        decreases count - k,
    {
        let word = words[k];
        proof {
            lemma_negate_is_wrapping_sub(word);
        }
        words.set(k, 0u64.wrapping_sub(word));
        k += 1;
    }
}

/// A copy of the words rotated to the left by `mid` places.
pub fn rotated_left(words: &Vec<u64>, mid: usize) -> (rotated: Vec<u64>)
    requires
        mid <= words@.len(),
    ensures
        rotated@ == spec_rotate_left(words@, mid as int),
{
    let mut rotated: Vec<u64> = Vec::new();
    let mut j: usize = mid;
    while j < words.len()
        invariant
            mid <= j <= words@.len(),
            rotated@ == words@.subrange(mid as int, j as int),
        decreases words@.len() - j,
    {
        rotated.push(words[j]);
        j += 1;
    }
    let mut j: usize = 0;
    while j < mid
        invariant
            j <= mid <= words@.len(),
            rotated@ == words@.subrange(mid as int, words@.len() as int) + words@.subrange(
                0,
                j as int,
            ),
        decreases mid - j,
    {
        rotated.push(words[j]);
        j += 1;
    }
    rotated
}

/// Builds the accumulator of a lookup table: one box per value, the first
/// half box negated, the whole rotated to the left by half a box.
///
/// The precision budget must be valid, the polynomial size a multiple of the
/// number of boxes, and the table must hold one value for each box; the
/// first of these that fails is reported.
pub fn assemble_accumulator(
    table: &Vec<u64>,
    bit_precision: usize,
    polynomial_size: usize,
) -> (result: Result<Vec<u64>, ConfigurationError>)
    ensures
        match result {
            Ok(accumulator) => spec_table_error(table@.len(), bit_precision, polynomial_size)
                is None && accumulator@ == spec_accumulator(
                table@,
                bit_precision,
                polynomial_size,
            ),
            Err(error) => spec_table_error(table@.len(), bit_precision, polynomial_size) == Some(
                error,
            ),
        },
{
    if bit_precision < 1 || bit_precision > WORD_BITS {
        return Err(ConfigurationError::Precision);
    }
    let boxes = modulus_sup(bit_precision);
    if polynomial_size as u64 % boxes != 0 {
        return Err(ConfigurationError::BoxAlignment);
    }
    if table.len() as u64 != boxes {
        return Err(ConfigurationError::TableSize);
    }
    let box_size: usize = polynomial_size / table.len();
    let half_box: usize = box_size / 2;
    proof {
        lemma_fundamental_div_mod(polynomial_size as int, boxes as int);
        assert(table@.len() * box_size == polynomial_size) by (nonlinear_arith)
            requires
                polynomial_size == boxes * (polynomial_size as int / boxes as int),
                box_size == polynomial_size as int / boxes as int,
                table@.len() == boxes,
        ;
        assert(half_box <= polynomial_size) by (nonlinear_arith)
            requires
                table@.len() * box_size == polynomial_size,
                table@.len() >= 1,
                half_box <= box_size,
        ;
    }
    let mut filled = fill_boxes(table, bit_precision, box_size);
    let ghost boxed = filled@;
    negate_prefix(&mut filled, half_box);
    let accumulator = rotated_left(&filled, half_box);
    proof {
        let n = polynomial_size as int;
        let h = half_box as int;
        assert forall|j: int| 0 <= j < n implies #[trigger] accumulator@[j] == spec_filled_entry(
            table@,
            bit_precision,
            polynomial_size,
            (j + h) % n,
        ) by {
            if j + h < n {
                lemma_small_mod((j + h) as nat, n as nat);
                assert(accumulator@[j] == filled@[j + h]);
            } else {
                lemma_fundamental_div_mod_converse(j + h, n, 1, j + h - n);
                assert(accumulator@[j] == filled@[j + h - n]);
            }
        }
        assert(accumulator@ =~= spec_accumulator(table@, bit_precision, polynomial_size));
    }
    Ok(accumulator)
}

/// Builds the accumulator of a lookup function for a precision budget and a
/// polynomial size.
///
/// Fails when the precision budget is invalid or when the polynomial size is
/// not a multiple of `2^(bit_precision - 1)`. Otherwise the function is
/// evaluated once on each box index, and the result is the accumulator of
/// the table of those values. With a polynomial size of zero there is no
/// slot to fill: the function is not evaluated and the result is empty.
pub fn build_accumulator<F: Fn(u64) -> u64>(
    func: F,
    bit_precision: usize,
    polynomial_size: usize,
) -> (result: Result<Vec<u64>, ConfigurationError>)
    requires
        valid_precision(bit_precision) ==> forall|i: u64|
            i < spec_modulus_sup(bit_precision) ==> call_requires(func, (i,)),
    ensures
        match result {
            Ok(accumulator) => {
                &&& spec_layout_error(bit_precision, polynomial_size) is None
                &&& spec_accumulator_of(func, bit_precision, polynomial_size, accumulator@)
            },
            Err(error) => spec_layout_error(bit_precision, polynomial_size) == Some(error),
        },
{
    if bit_precision < 1 || bit_precision > WORD_BITS {
        return Err(ConfigurationError::Precision);
    }
    let boxes = modulus_sup(bit_precision);
    if polynomial_size as u64 % boxes != 0 {
        return Err(ConfigurationError::BoxAlignment);
    }
    if polynomial_size == 0 {
        return Ok(Vec::new());
    }
    let table = tabulate(func, bit_precision);
    let result = assemble_accumulator(&table, bit_precision, polynomial_size);
    proof {
        if result is Ok {
            assert(spec_tabulates(func, bit_precision, table@));
            assert(result->Ok_0@ == spec_accumulator(table@, bit_precision, polynomial_size));
        }
    }
    result
}

/// The GLWE ciphertext that holds `count` accumulator words under the
/// dimension of the key has a size that is a `usize`.
pub open spec fn spec_fits_accumulator(key: FftFourierLweBootstrapKey64, count: nat) -> bool {
    (bootstrap_glwe_dimension(key) + 1) * count <= usize::MAX && bootstrap_glwe_dimension(key)
        < usize::MAX
}

/// Encrypts accumulator words trivially, as a GLWE ciphertext of the
/// dimension of the bootstrapping key: mask polynomials of zeros, and the
/// words as body.
///
/// This succeeds exactly when there is at least one word and the
/// ciphertext's size is a `usize`. A key so large that the size is no
/// `usize` is refused before the engine is called; the engine refuses an
/// empty accumulator.
pub fn encrypt_accumulator(
    engine: &mut DefaultEngine,
    key: &FftFourierLweBootstrapKey64,
    words: &Vec<u64>,
) -> (result: Result<GlweCiphertext64, EngineError>)
    ensures
        result is Ok <==> spec_fits_accumulator(*key, words@.len()) && words@.len() > 0,
        match result {
            Ok(ciphertext) => {
                &&& glwe_words(ciphertext) == spec_trivial_glwe(
                    (bootstrap_glwe_dimension(*key) + 1) as usize,
                    words@,
                )
                &&& glwe_polynomial_size(ciphertext) == words@.len()
                &&& glwe_dimension(ciphertext) == bootstrap_glwe_dimension(*key)
            },
            Err(fault) => if spec_fits_accumulator(*key, words@.len()) {
                fault.refused_during(EngineOperation::Accumulator)
            } else {
                fault == (EngineError::Dimension { operation: EngineOperation::Accumulator })
            },
        },
{
    let dimension = bootstrap_glwe_dimension_of(key);
    if dimension == usize::MAX {
        return Err(EngineError::Dimension { operation: EngineOperation::Accumulator });
    }
    let glwe_size: usize = dimension + 1;
    match glwe_size.checked_mul(words.len()) {
        None => Err(EngineError::Dimension { operation: EngineOperation::Accumulator }),
        Some(_) => engine_trivial_glwe(engine, glwe_size, words),
    }
}

/// Creates the accumulator of a lookup function for a bootstrapping key:
/// builds its words for the polynomial size of the key, then encrypts them
/// trivially.
///
/// A configuration that is rejected is rejected before the engine is
/// touched. Beyond that, this succeeds exactly when the polynomial size is
/// not zero and the ciphertext's size is a `usize`.
pub fn create_accum<F: Fn(u64) -> u64>(
    func: F,
    bootstrapping_key: &FftFourierLweBootstrapKey64,
    bit_precision: usize,
    engine: &mut DefaultEngine,
) -> (result: Result<GlweCiphertext64, PipelineError>)
    requires
        valid_precision(bit_precision) ==> forall|i: u64|
            i < spec_modulus_sup(bit_precision) ==> call_requires(func, (i,)),
    ensures
        result is Ok <==> {
            &&& spec_layout_error(
                bit_precision,
                bootstrap_polynomial_size(*bootstrapping_key),
            ) is None
            &&& spec_fits_accumulator(
                *bootstrapping_key,
                bootstrap_polynomial_size(*bootstrapping_key) as nat,
            )
            &&& bootstrap_polynomial_size(*bootstrapping_key) > 0
        },
        match result {
            Ok(ciphertext) => {
                &&& glwe_polynomial_size(ciphertext) == bootstrap_polynomial_size(
                    *bootstrapping_key,
                )
                &&& glwe_dimension(ciphertext) == bootstrap_glwe_dimension(*bootstrapping_key)
                &&& exists|words: Seq<u64>| #[trigger]
                    spec_accumulator_of(
                        func,
                        bit_precision,
                        bootstrap_polynomial_size(*bootstrapping_key),
                        words,
                    ) && glwe_words(ciphertext) == spec_trivial_glwe(
                        (bootstrap_glwe_dimension(*bootstrapping_key) + 1) as usize,
                        words,
                    )
            },
            Err(PipelineError::Configuration(error)) => {
                &&& spec_layout_error(
                    bit_precision,
                    bootstrap_polynomial_size(*bootstrapping_key),
                ) == Some(error)
                &&& *final(engine) == *old(engine)
            },
            Err(PipelineError::Engine(fault)) => {
                &&& spec_layout_error(
                    bit_precision,
                    bootstrap_polynomial_size(*bootstrapping_key),
                ) is None
                &&& if spec_fits_accumulator(
                    *bootstrapping_key,
                    bootstrap_polynomial_size(*bootstrapping_key) as nat,
                ) {
                    fault.refused_during(EngineOperation::Accumulator)
                } else {
                    fault == (EngineError::Dimension { operation: EngineOperation::Accumulator })
                }
            },
        },
{
    let polynomial_size = bootstrap_polynomial_size_of(bootstrapping_key);
    let words = match build_accumulator(func, bit_precision, polynomial_size) {
        Ok(words) => words,
        Err(error) => {
            return Err(PipelineError::Configuration(error));
        },
    };
    match encrypt_accumulator(engine, bootstrapping_key, &words) {
        Ok(ciphertext) => {
            proof {
                assert(spec_accumulator_of(func, bit_precision, polynomial_size, words@));
            }
            Ok(ciphertext)
        },
        Err(fault) => Err(PipelineError::Engine(fault)),
    }
}

/// What a rotation of the accumulator by `rotation` places reads: the
/// constant coefficient of `accumulator * X^(-rotation)` modulo `X^N + 1`.
/// Below `N` the rotation reads a slot as it is, from `N` on it reads the
/// negation of a slot.
pub open spec fn spec_rotated_coefficient(accumulator: Seq<u64>, rotation: int) -> u64 {
    if rotation < accumulator.len() {
        accumulator[rotation]
    } else {
        spec_negate(accumulator[rotation - accumulator.len()])
    }
}

/// The box in which a rotation falls, among the `2^bit_precision` boxes of
/// the full turn of `2N` places: box `i` is centred on the rotation `i * box_size`.
pub open spec fn spec_box_index(
    rotation: int,
    bit_precision: usize,
    polynomial_size: usize,
) -> int {
    ((rotation + spec_half_box(bit_precision, polynomial_size)) % (2 * polynomial_size))
        / spec_box_size(bit_precision, polynomial_size)
}

/// The negacyclic extension of a lookup table to the `2^bit_precision` boxes
/// of the full turn, encoded: the lower half holds the table, the upper half
/// its negation.
pub open spec fn spec_extended_entry(table: Seq<u64>, bit_precision: usize, box_index: int) -> u64 {
    if box_index < spec_modulus_sup(bit_precision) {
        spec_encode(table[box_index], bit_precision)
    } else {
        spec_negate(spec_encode(table[box_index - spec_modulus_sup(bit_precision)], bit_precision))
    }
}

/// The negacyclic extension of a lookup table as integers: the value of the
/// table on the lower half, minus that value on the upper half.
pub open spec fn spec_extended_value(table: Seq<u64>, bit_precision: usize, box_index: int) -> int {
    if box_index < spec_modulus_sup(bit_precision) {
        table[box_index] as int
    } else {
        -(table[box_index - spec_modulus_sup(bit_precision)] as int)
    }
}

/// A position below `boxes * box_size` lies in one of the boxes, and a
/// position one polynomial further lies `boxes` boxes further.
proof fn lemma_box_of_position(position: int, box_size: int, boxes: int)
    requires
        box_size > 0,
        boxes > 0,
        0 <= position < boxes * box_size,
    ensures
        0 <= position / box_size < boxes,
        (position + boxes * box_size) / box_size == boxes + position / box_size,
{
    lemma_fundamental_div_mod(position, box_size);
    let q = position / box_size;
    let r = position % box_size;
    assert(0 <= q < boxes) by (nonlinear_arith)
        requires
            position == box_size * q + r,
            0 <= r < box_size,
            0 <= position < boxes * box_size,
            box_size > 0,
    ;
    assert(position + boxes * box_size == (boxes + q) * box_size + r) by (nonlinear_arith)
        requires
            position == box_size * q + r,
    ;
    lemma_fundamental_div_mod_converse(position + boxes * box_size, box_size, boxes + q, r);
}

/// The layout of an accepted configuration with at least one slot: the
/// boxes tile the polynomial exactly.
proof fn lemma_boxes_tile(bit_precision: usize, polynomial_size: usize)
    requires
        spec_layout_error(bit_precision, polynomial_size) is None,
        polynomial_size > 0,
    ensures
        spec_modulus_sup(bit_precision) >= 1,
        spec_box_size(bit_precision, polynomial_size) >= 1,
        spec_modulus_sup(bit_precision) * spec_box_size(bit_precision, polynomial_size)
            == polynomial_size,
        0 <= spec_half_box(bit_precision, polynomial_size) < spec_box_size(
            bit_precision,
            polynomial_size,
        ),
        spec_box_size(bit_precision, polynomial_size) <= polynomial_size,
{
    let boxes = spec_modulus_sup(bit_precision);
    let n = polynomial_size as int;
    lemma_pow2_pos((bit_precision - 1) as nat);
    lemma_fundamental_div_mod(n, boxes);
    let b = n / boxes;
    assert(b >= 1 && b <= n) by (nonlinear_arith)
        requires
            n == boxes * b,
            n > 0,
            boxes >= 1,
    ;
}

/// Box correctness: a rotation of the accumulator by any number of places
/// of the full turn reads the encoded value of the box in which the rotation
/// falls, negated on the upper half of the turn.
pub proof fn lemma_rotation_reads_box(
    table: Seq<u64>,
    bit_precision: usize,
    polynomial_size: usize,
    rotation: int,
)
    requires
        spec_table_error(table.len(), bit_precision, polynomial_size) is None,
        polynomial_size > 0,
        0 <= rotation < 2 * polynomial_size,
    ensures
        0 <= spec_box_index(rotation, bit_precision, polynomial_size) < 2 * spec_modulus_sup(
            bit_precision,
        ),
        spec_rotated_coefficient(
            spec_accumulator(table, bit_precision, polynomial_size),
            rotation,
        ) == spec_extended_entry(
            table,
            bit_precision,
            spec_box_index(rotation, bit_precision, polynomial_size),
        ),
{
    lemma_boxes_tile(bit_precision, polynomial_size);
    let boxes = spec_modulus_sup(bit_precision);
    let n = polynomial_size as int;
    let b = spec_box_size(bit_precision, polynomial_size);
    let h = spec_half_box(bit_precision, polynomial_size);
    let accumulator = spec_accumulator(table, bit_precision, polynomial_size);
    let first = spec_encode(table[0], bit_precision);
    lemma_negate_is_wrapping_sub(first);
    lemma_small_mod(0, b as nat);
    if rotation < n {
        if rotation + h < n {
            let c = rotation + h;
            lemma_small_mod(c as nat, (2 * n) as nat);
            lemma_small_mod(c as nat, n as nat);
            lemma_box_of_position(c, b, boxes);
        } else {
            let t = rotation + h - n;
            lemma_small_mod((rotation + h) as nat, (2 * n) as nat);
            lemma_fundamental_div_mod_converse(rotation + h, n, 1, t);
            lemma_box_of_position(t, b, boxes);
            lemma_fundamental_div_mod_converse(t, b, 0, t);
        }
    } else {
        let below = rotation - n;
        if rotation + h < 2 * n {
            let t = below + h;
            lemma_small_mod((rotation + h) as nat, (2 * n) as nat);
            lemma_small_mod(t as nat, n as nat);
            lemma_box_of_position(t, b, boxes);
        } else {
            let t = rotation + h - 2 * n;
            lemma_fundamental_div_mod_converse(rotation + h, 2 * n, 1, t);
            lemma_fundamental_div_mod_converse(below + h, n, 1, t);
            lemma_fundamental_div_mod_converse(t, b, 0, t);
        }
    }
}

/// A message of the full message space, encoded and then displaced by less
/// than half a box, rotates the accumulator into the box of that message.
pub proof fn lemma_message_falls_in_its_box(
    message: int,
    offset: int,
    bit_precision: usize,
    polynomial_size: usize,
)
    requires
        spec_layout_error(bit_precision, polynomial_size) is None,
        polynomial_size > 0,
        0 <= message < 2 * spec_modulus_sup(bit_precision),
        -spec_half_box(bit_precision, polynomial_size) <= offset < spec_box_size(
            bit_precision,
            polynomial_size,
        ) - spec_half_box(bit_precision, polynomial_size),
    ensures
        spec_box_index(
            (message * spec_box_size(bit_precision, polynomial_size) + offset) % (2
                * polynomial_size),
            bit_precision,
            polynomial_size,
        ) == message,
{
    lemma_boxes_tile(bit_precision, polynomial_size);
    let boxes = spec_modulus_sup(bit_precision);
    let n = polynomial_size as int;
    let b = spec_box_size(bit_precision, polynomial_size);
    let h = spec_half_box(bit_precision, polynomial_size);
    let centre = message * b + offset;
    let rotation = centre % (2 * n);
    let turns = centre / (2 * n);
    lemma_fundamental_div_mod(centre, 2 * n);
    assert(0 <= centre + h < 2 * n && centre + h == message * b + (offset + h)) by (nonlinear_arith)
        requires
            centre == message * b + offset,
            0 <= message < 2 * boxes,
            boxes * b == n,
            0 <= offset + h < b,
    ;
    assert((2 * n) * (-turns) + (centre + h) == rotation + h) by (nonlinear_arith)
        requires
            centre == (2 * n) * turns + rotation,
    ;
    lemma_mod_multiples_vanish(-turns, centre + h, 2 * n);
    lemma_small_mod((centre + h) as nat, (2 * n) as nat);
    lemma_fundamental_div_mod_converse(centre + h, b, message, offset + h);
}

/// Every entry of the negacyclic extension decodes to the value of the
/// extension, reduced modulo `2^bit_precision`.
pub proof fn lemma_extended_entry_decodes(table: Seq<u64>, bit_precision: usize, box_index: int)
    requires
        valid_precision(bit_precision),
        table.len() == spec_modulus_sup(bit_precision),
        0 <= box_index < 2 * spec_modulus_sup(bit_precision),
    ensures
        spec_decode(spec_extended_entry(table, bit_precision, box_index), bit_precision)
            == spec_extended_value(table, bit_precision, box_index) % spec_message_space(
            bit_precision,
        ),
{
    lemma_scale_splits_word(bit_precision);
    let boxes = spec_modulus_sup(bit_precision);
    let d = crate::encoding::spec_delta(bit_precision);
    let m = word_modulus();
    if box_index < boxes {
        lemma_decode_absorbs_noise(table[box_index] as int, 0, bit_precision);
    } else {
        let value = table[box_index - boxes] as int;
        let product = value * d;
        let turns = product / m;
        lemma_fundamental_div_mod(product, m);
        assert(m * turns + (-product) == -(product % m)) by (nonlinear_arith)
            requires
                product == m * turns + product % m,
        ;
        lemma_mod_multiples_vanish(turns, -product, m);
        assert((-value) * d == -product) by (nonlinear_arith)
            requires
                product == value * d,
        ;
        lemma_decode_absorbs_noise(-value, 0, bit_precision);
    }
}

/// Correctness of the lookup: whatever rotation a message of the full
/// message space produces, as long as it lies within half a box of the
/// message's own, the word that it reads from the accumulator decodes to the
/// value of the table on the message, or, on the upper half, to minus the
/// value on the message less `2^(bit_precision - 1)`, modulo `2^bit_precision`.
pub proof fn lemma_message_reads_its_value(
    table: Seq<u64>,
    bit_precision: usize,
    polynomial_size: usize,
    message: int,
    offset: int,
)
    requires
        spec_table_error(table.len(), bit_precision, polynomial_size) is None,
        polynomial_size > 0,
        0 <= message < 2 * spec_modulus_sup(bit_precision),
        -spec_half_box(bit_precision, polynomial_size) <= offset < spec_box_size(
            bit_precision,
            polynomial_size,
        ) - spec_half_box(bit_precision, polynomial_size),
    ensures
        spec_decode(
            spec_rotated_coefficient(
                spec_accumulator(table, bit_precision, polynomial_size),
                (message * spec_box_size(bit_precision, polynomial_size) + offset) % (2
                    * polynomial_size),
            ),
            bit_precision,
        ) == spec_extended_value(table, bit_precision, message) % spec_message_space(
            bit_precision,
        ),
{
    let rotation = (message * spec_box_size(bit_precision, polynomial_size) + offset) % (2
        * polynomial_size);
    lemma_fundamental_div_mod(
        message * spec_box_size(bit_precision, polynomial_size) + offset,
        2 * polynomial_size,
    );
    lemma_message_falls_in_its_box(message, offset, bit_precision, polynomial_size);
    lemma_rotation_reads_box(table, bit_precision, polynomial_size, rotation);
    lemma_extended_entry_decodes(table, bit_precision, message);
}

} // verus!
