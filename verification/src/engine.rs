//! The boundary with the cryptographic engine.
//!
//! Everything in this module is believed, not proved: the engine's types are
//! opaque, the spec functions below name what the engine holds or computes,
//! and each wrapper states of one engine operation what the engine's source
//! shows. The rest of the crate is verified against these statements.

use crate::error::{EngineError, EngineOperation};
use crate::lwe::{spec_phase, spec_word_sums};
use concrete_core::prelude::{
    DefaultEngine, FftEngine, FftFourierLweBootstrapKey64, GlweCiphertext64,
    GlweCiphertextTrivialEncryptionEngine, GlweSize, LweBootstrapKeyEntity, LweCiphertext64,
    LweCiphertextDecryptionEngine, LweCiphertextDiscardingBootstrapEngine,
    LweCiphertextDiscardingKeyswitchEngine, LweCiphertextEncryptionEngine,
    LweCiphertextFusingAdditionEngine, LweCiphertextTrivialEncryptionEngine, LweKeyswitchKey64,
    LweKeyswitchKeyEntity, LweSecretKey64, LweSecretKeyEntity, LweSize, PlaintextCreationEngine,
    PlaintextRetrievalEngine, PlaintextVectorCreationEngine, Variance,
};
use vstd::arithmetic::power2::is_pow2;
use vstd::prelude::*;

verus! {

/// `concrete_core::prelude::DefaultEngine`, the engine for everything but the bootstrap.
#[verifier::external_type_specification]
#[verifier::external_body]
pub struct ExDefaultEngine(DefaultEngine);

/// `concrete_core::prelude::FftEngine`, the engine that bootstraps.
#[verifier::external_type_specification]
#[verifier::external_body]
pub struct ExFftEngine(FftEngine);

/// `concrete_core::prelude::LweSecretKey64`.
#[verifier::external_type_specification]
#[verifier::external_body]
pub struct ExLweSecretKey64(LweSecretKey64);

/// `concrete_core::prelude::LweKeyswitchKey64`.
#[verifier::external_type_specification]
#[verifier::external_body]
pub struct ExLweKeyswitchKey64(LweKeyswitchKey64);

/// `concrete_core::prelude::FftFourierLweBootstrapKey64`.
#[verifier::external_type_specification]
#[verifier::external_body]
pub struct ExFftFourierLweBootstrapKey64(FftFourierLweBootstrapKey64);

/// `concrete_core::prelude::LweCiphertext64`.
#[verifier::external_type_specification]
#[verifier::external_body]
pub struct ExLweCiphertext64(LweCiphertext64);

/// `concrete_core::prelude::GlweCiphertext64`.
#[verifier::external_type_specification]
#[verifier::external_body]
pub struct ExGlweCiphertext64(GlweCiphertext64);

/// `concrete_core::prelude::Variance`, the noise level of an encryption.
#[verifier::external_type_specification]
#[verifier::external_body]
pub struct ExVariance(Variance);

/// The words that an LWE ciphertext holds: its mask, then its body.
pub uninterp spec fn lwe_words(ciphertext: LweCiphertext64) -> Seq<u64>;

/// The words that a GLWE ciphertext holds: its mask polynomials, then its body polynomial.
pub uninterp spec fn glwe_words(ciphertext: GlweCiphertext64) -> Seq<u64>;

/// The bits that an LWE secret key holds.
pub uninterp spec fn secret_key_bits(key: LweSecretKey64) -> Seq<u64>;

/// The dimension of the ciphertexts that a key-switching key takes in.
pub uninterp spec fn keyswitch_input_dimension(key: LweKeyswitchKey64) -> usize;

/// The dimension of the ciphertexts that a key-switching key produces.
pub uninterp spec fn keyswitch_output_dimension(key: LweKeyswitchKey64) -> usize;

/// The polynomial size of a bootstrapping key.
pub uninterp spec fn bootstrap_polynomial_size(key: FftFourierLweBootstrapKey64) -> usize;

/// The GLWE dimension of a bootstrapping key.
pub uninterp spec fn bootstrap_glwe_dimension(key: FftFourierLweBootstrapKey64) -> usize;

/// The dimension of the ciphertexts that a bootstrapping key takes in.
pub uninterp spec fn bootstrap_input_dimension(key: FftFourierLweBootstrapKey64) -> usize;

/// The polynomial size of a GLWE ciphertext.
pub uninterp spec fn glwe_polynomial_size(ciphertext: GlweCiphertext64) -> usize;

/// The GLWE dimension of a GLWE ciphertext.
pub uninterp spec fn glwe_dimension(ciphertext: GlweCiphertext64) -> usize;

/// The words that a key-switching key turns the words of a ciphertext into.
pub uninterp spec fn keyswitched(key: LweKeyswitchKey64, words: Seq<u64>) -> Seq<u64>;

/// A trivial LWE encryption: a mask of zeros and the plaintext word as body.
pub open spec fn spec_trivial_lwe(lwe_size: usize, word: u64) -> Seq<u64> {
    Seq::new(
        lwe_size as nat,
        |i: int|
            if i == lwe_size - 1 {
                word
            } else {
                0u64
            },
    )
}

/// A trivial GLWE encryption: mask polynomials of zeros and the plaintext words as body.
pub open spec fn spec_trivial_glwe(glwe_size: usize, words: Seq<u64>) -> Seq<u64> {
    Seq::new(((glwe_size - 1) * words.len()) as nat, |i: int| 0u64) + words
}

/// The sizes of the operands of a bootstrap fit: the accumulator's
/// polynomial size is a power of two of at least 32 and that of the key, its
/// GLWE dimension is that of the key, the input has the dimension that the
/// key takes in, and the output has the dimension that the key gives out,
/// which is its GLWE dimension times its polynomial size. The sizes of input
/// and output are numbers of words, one more than the dimension.
pub open spec fn spec_bootstrap_fits(
    output_size: nat,
    input_size: nat,
    accumulator_polynomial_size: usize,
    accumulator_dimension: usize,
    key_input_dimension: usize,
    key_polynomial_size: usize,
    key_dimension: usize,
) -> bool {
    &&& is_pow2(accumulator_polynomial_size as int)
    &&& accumulator_polynomial_size >= 32
    &&& input_size == key_input_dimension + 1
    &&& accumulator_polynomial_size == key_polynomial_size
    &&& accumulator_dimension == key_dimension
    &&& output_size == key_dimension * key_polynomial_size + 1
}

/// `LweSecretKeyEntity::lwe_dimension`: the number of bits of the key.
#[verifier::external_body]
pub(crate) fn secret_key_dimension_of(key: &LweSecretKey64) -> (dimension: usize)
    ensures
        dimension == secret_key_bits(*key).len(),
{
    key.lwe_dimension().0
}

/// `LweKeyswitchKeyEntity::output_lwe_dimension`: the dimension of what the key produces.
#[verifier::external_body]
pub(crate) fn keyswitch_output_dimension_of(key: &LweKeyswitchKey64) -> (dimension: usize)
    ensures
        dimension == keyswitch_output_dimension(*key),
{
    key.output_lwe_dimension().0
}

/// `LweBootstrapKeyEntity::polynomial_size`: the polynomial size of the key.
#[verifier::external_body]
pub(crate) fn bootstrap_polynomial_size_of(key: &FftFourierLweBootstrapKey64) -> (size: usize)
    ensures
        size == bootstrap_polynomial_size(*key),
{
    key.polynomial_size().0
}

/// `LweBootstrapKeyEntity::glwe_dimension`: the GLWE dimension of the key.
#[verifier::external_body]
pub(crate) fn bootstrap_glwe_dimension_of(key: &FftFourierLweBootstrapKey64) -> (dimension: usize)
    ensures
        dimension == bootstrap_glwe_dimension(*key),
{
    key.glwe_dimension().0
}

/// `Clone::clone` of an LWE ciphertext: the copy holds the same words.
#[verifier::external_body]
pub(crate) fn duplicate(ciphertext: &LweCiphertext64) -> (copy: LweCiphertext64)
    ensures
        lwe_words(copy) == lwe_words(*ciphertext),
{
    ciphertext.clone()
}

/// `DefaultEngine::encrypt_lwe_ciphertext` on the plaintext that
/// `create_plaintext_from` makes of `word`. Neither has a failing path. The
/// mask and the noise are drawn at random, so only the size of the
/// ciphertext is stated: one word more than the key has bits.
#[verifier::external_body]
pub(crate) fn engine_encrypt(
    engine: &mut DefaultEngine,
    key: &LweSecretKey64,
    word: u64,
    noise: &Variance,
) -> (result: Result<LweCiphertext64, EngineError>)
    ensures
        result is Ok,
        result matches Ok(ciphertext) ==> lwe_words(ciphertext).len() == secret_key_bits(*key).len()
            + 1,
{
    let operation = EngineOperation::Encrypt;
    let plaintext = engine.create_plaintext_from(&word).map_err(
        |e| EngineError::Refused { operation, message: e.to_string() },
    )?;
    engine.encrypt_lwe_ciphertext(key, &plaintext, *noise).map_err(
        |e| EngineError::Refused { operation, message: e.to_string() },
    )
}

/// `DefaultEngine::fuse_add_lwe_ciphertext`: adds `input` to `output` word
/// by word, with wrap-around. The engine refuses operands of different
/// sizes, and no others, and then leaves `output` as it was.
#[verifier::external_body]
pub(crate) fn engine_add(
    engine: &mut DefaultEngine,
    output: &mut LweCiphertext64,
    input: &LweCiphertext64,
) -> (result: Result<(), EngineError>)
    ensures
        result is Ok <==> lwe_words(*old(output)).len() == lwe_words(*input).len(),
        result is Ok ==> lwe_words(*final(output)) == spec_word_sums(
            lwe_words(*old(output)),
            lwe_words(*input),
        ),
        result is Err ==> lwe_words(*final(output)) == lwe_words(*old(output)),
        result matches Err(error) ==> error.refused_during(EngineOperation::Add),
{
    engine.fuse_add_lwe_ciphertext(output, input).map_err(
        |e| EngineError::Refused { operation: EngineOperation::Add, message: e.to_string() },
    )
}

/// `DefaultEngine::trivially_encrypt_lwe_ciphertext` on the plaintext that
/// `create_plaintext_from` makes of `word`: a ciphertext of `lwe_size` words,
/// all zero but the last, which is `word`. Neither has a failing path.
#[verifier::external_body]
pub(crate) fn engine_trivial_lwe(engine: &mut DefaultEngine, lwe_size: usize, word: u64) -> (result:
    Result<LweCiphertext64, EngineError>)
    requires
        lwe_size >= 1,
    ensures
        result is Ok,
        result matches Ok(ciphertext) ==> lwe_words(ciphertext) == spec_trivial_lwe(lwe_size, word),
{
    let operation = EngineOperation::Buffer;
    let plaintext = engine.create_plaintext_from(&word).map_err(
        |e| EngineError::Refused { operation, message: e.to_string() },
    )?;
    engine.trivially_encrypt_lwe_ciphertext(LweSize(lwe_size), &plaintext).map_err(
        |e| EngineError::Refused { operation, message: e.to_string() },
    )
}

/// `DefaultEngine::discard_keyswitch_lwe_ciphertext`: overwrites `output`
/// with the key switch of `input`, which depends on the key and on `input`
/// alone. The engine accepts exactly the operands whose dimensions are
/// those that the key takes in and produces; it refuses the others and
/// leaves `output` as it was.
#[verifier::external_body]
pub(crate) fn engine_keyswitch(
    engine: &mut DefaultEngine,
    output: &mut LweCiphertext64,
    input: &LweCiphertext64,
    key: &LweKeyswitchKey64,
) -> (result: Result<(), EngineError>)
    ensures
        lwe_words(*final(output)).len() == lwe_words(*old(output)).len(),
        result is Ok <==> lwe_words(*input).len() == keyswitch_input_dimension(*key) + 1
            && lwe_words(*old(output)).len() == keyswitch_output_dimension(*key) + 1,
        result is Ok ==> lwe_words(*final(output)) == keyswitched(*key, lwe_words(*input)),
        result is Err ==> lwe_words(*final(output)) == lwe_words(*old(output)),
        result matches Err(error) ==> error.refused_during(EngineOperation::KeySwitch),
{
    engine.discard_keyswitch_lwe_ciphertext(output, input, key).map_err(
        |e| EngineError::Refused { operation: EngineOperation::KeySwitch, message: e.to_string() },
    )
}

/// `FftEngine::discard_bootstrap_lwe_ciphertext`: overwrites the words of
/// `output` with the bootstrap of `input` through the accumulator. The
/// result goes through floating-point transforms, so only its size is
/// stated: that of `output` before. The engine accepts exactly the operands
/// that pass its checks of the polynomial size and of the four dimensions;
/// it refuses the others and leaves `output` as it was.
#[verifier::external_body]
pub(crate) fn engine_bootstrap(
    engine: &mut FftEngine,
    output: &mut LweCiphertext64,
    input: &LweCiphertext64,
    accumulator: &GlweCiphertext64,
    key: &FftFourierLweBootstrapKey64,
) -> (result: Result<(), EngineError>)
    ensures
        lwe_words(*final(output)).len() == lwe_words(*old(output)).len(),
        result is Ok <==> spec_bootstrap_fits(
            lwe_words(*old(output)).len(),
            lwe_words(*input).len(),
            glwe_polynomial_size(*accumulator),
            glwe_dimension(*accumulator),
            bootstrap_input_dimension(*key),
            bootstrap_polynomial_size(*key),
            bootstrap_glwe_dimension(*key),
        ),
        result is Err ==> lwe_words(*final(output)) == lwe_words(*old(output)),
        result matches Err(error) ==> error.refused_during(EngineOperation::Bootstrap),
{
    engine.discard_bootstrap_lwe_ciphertext(output, input, accumulator, key).map_err(
        |e| EngineError::Refused { operation: EngineOperation::Bootstrap, message: e.to_string() },
    )
}

/// `DefaultEngine::decrypt_lwe_ciphertext`, then `retrieve_plaintext`: the
/// plaintext word that the key recovers, which is the body of the ciphertext
/// minus the inner product of its mask with the bits of the key, in the ring
/// of words. Neither has a failing path. The ciphertext must have one word
/// more than the key has bits.
#[verifier::external_body]
pub(crate) fn engine_decrypt(
    engine: &mut DefaultEngine,
    key: &LweSecretKey64,
    ciphertext: &LweCiphertext64,
) -> (result: Result<u64, EngineError>)
    requires
        lwe_words(*ciphertext).len() == secret_key_bits(*key).len() + 1,
    ensures
        result is Ok,
        result matches Ok(word) ==> word == spec_phase(
            secret_key_bits(*key),
            lwe_words(*ciphertext),
        ),
{
    let operation = EngineOperation::Decrypt;
    let plaintext = engine.decrypt_lwe_ciphertext(key, ciphertext).map_err(
        |e| EngineError::Refused { operation, message: e.to_string() },
    )?;
    engine.retrieve_plaintext(&plaintext).map_err(
        |e| EngineError::Refused { operation, message: e.to_string() },
    )
}

/// `DefaultEngine::trivially_encrypt_glwe_ciphertext` on the plaintext
/// vector that `create_plaintext_vector_from` makes of `words`: a GLWE
/// ciphertext of `glwe_size` polynomials of `words.len()` coefficients, all
/// zero but the last polynomial, which holds `words`. The engine refuses an
/// empty vector, and nothing else.
#[verifier::external_body]
pub(crate) fn engine_trivial_glwe(
    engine: &mut DefaultEngine,
    glwe_size: usize,
    words: &Vec<u64>,
) -> (result: Result<GlweCiphertext64, EngineError>)
    requires
        glwe_size >= 1,
        glwe_size * words@.len() <= usize::MAX,
    ensures
        result is Ok <==> words@.len() > 0,
        result matches Ok(ciphertext) ==> {
            &&& glwe_words(ciphertext) == spec_trivial_glwe(glwe_size, words@)
            &&& glwe_polynomial_size(ciphertext) == words@.len()
            &&& glwe_dimension(ciphertext) == glwe_size - 1
        },
        result matches Err(error) ==> error.refused_during(EngineOperation::Accumulator),
{
    let operation = EngineOperation::Accumulator;
    let plaintexts = engine.create_plaintext_vector_from(words.as_slice()).map_err(
        |e| EngineError::Refused { operation, message: e.to_string() },
    )?;
    engine.trivially_encrypt_glwe_ciphertext(GlweSize(glwe_size), &plaintexts).map_err(
        |e| EngineError::Refused { operation, message: e.to_string() },
    )
}

} // verus!
