//! The order of work on one batch of independent messages:
//! encode, encrypt, optionally combine two ciphertexts, key-switch,
//! bootstrap, decrypt, report.
//!
//! A [`Batch`] records how far the work has come. Each step takes the batch
//! at one stage and hands it back at the next; a step that fails consumes
//! the batch, so that nothing partial survives a failure.

use crate::accumulator::{
    build_accumulator, encrypt_accumulator, spec_fits_accumulator, spec_layout_error,
    spec_modulus_sup,
};
use crate::encoding::{
    decode, encode, in_message_space, spec_decode, spec_encode, spec_message_space,
    valid_precision, WORD_BITS,
};
use crate::engine::{
    bootstrap_glwe_dimension, bootstrap_input_dimension, bootstrap_polynomial_size,
    bootstrap_polynomial_size_of, duplicate, engine_add,
    engine_bootstrap, engine_decrypt, engine_encrypt, engine_keyswitch, engine_trivial_lwe,
    glwe_dimension, glwe_polynomial_size, keyswitch_input_dimension,
    keyswitch_output_dimension, keyswitch_output_dimension_of, keyswitched, lwe_words,
    secret_key_bits, secret_key_dimension_of, spec_bootstrap_fits,
};
use crate::error::{ConfigurationError, EngineError, EngineOperation, PipelineError};
use crate::lwe::{spec_phase, spec_word_sums};
use concrete_core::prelude::{
    DefaultEngine, FftEngine, FftFourierLweBootstrapKey64, GlweCiphertext64, LweCiphertext64,
    LweKeyswitchKey64, LweSecretKey64, Variance,
};
use vstd::prelude::*;

verus! {

/// How far the work on a batch has come.
#[derive(Debug, Clone, Copy, PartialEq, Eq, Structural)]
pub enum Stage {
    /// The messages are validated; nothing is computed yet.
    Idle,
    /// Every message has its encoded plaintext.
    Encoded,
    /// Every encoded plaintext has its ciphertext.
    Encrypted,
    /// Two of the ciphertexts have been added into a combined one.
    Combined,
    /// Every ciphertext has its key-switched copy.
    KeySwitched,
    /// Every ciphertext has been replaced by its bootstrap.
    Bootstrapped,
    /// Every ciphertext, and the combined one, has its decrypted plaintext.
    Decrypted,
    /// The decoded results have been handed out.
    Reported,
}

impl Stage {
    /// The place of a stage in the order of work.
    pub open spec fn rank(self) -> nat {
        match self {
            Stage::Idle => 0,
            Stage::Encoded => 1,
            Stage::Encrypted => 2,
            Stage::Combined => 3,
            Stage::KeySwitched => 4,
            Stage::Bootstrapped => 5,
            Stage::Decrypted => 6,
            Stage::Reported => 7,
        }
    }
}

/// The keys that a batch is worked on with.
pub struct KeySet {
    /// The key that encrypts the messages and decrypts the results.
    pub secret: LweSecretKey64,
    /// The key that switches a ciphertext to the key that the bootstrap expects.
    pub key_switching: LweKeyswitchKey64,
    /// The key that bootstraps.
    pub bootstrapping: FftFourierLweBootstrapKey64,
}

/// The results of a batch.
#[derive(Debug, PartialEq, Eq)]
pub struct Report {
    /// The decrypted plaintext of each message's ciphertext, still encoded.
    pub encoded_outputs: Vec<u64>,
    /// The decoded result for each message.
    pub outputs: Vec<u64>,
    /// The decrypted plaintext of the combined ciphertext, still encoded, if two were combined.
    pub encoded_sum: Option<u64>,
    /// The decoded sum, if two ciphertexts were combined.
    pub sum: Option<u64>,
}

/// One batch of independent messages and what has been computed from them so far.
pub struct Batch {
    /// How far the work has come.
    pub stage: Stage,
    /// The precision budget of the batch.
    pub bit_precision: usize,
    /// The messages, by index.
    pub messages: Vec<u64>,
    /// The encoded plaintext of each message.
    pub encoded: Vec<u64>,
    /// The number of bits of the key that encrypted the batch.
    pub dimension: usize,
    /// The ciphertext of each message.
    pub ciphertexts: Vec<LweCiphertext64>,
    /// The sum of two of the ciphertexts, if they were combined.
    pub combined: Option<LweCiphertext64>,
    /// The key-switched copy of each ciphertext, between key switch and bootstrap.
    pub switched: Vec<LweCiphertext64>,
    /// The decrypted plaintext of each ciphertext.
    pub plaintexts: Vec<u64>,
    /// The decrypted plaintext of the combined ciphertext.
    pub combined_plaintext: Option<u64>,
}

/// The encoded plaintexts of a sequence of messages.
pub open spec fn spec_encode_all(messages: Seq<u64>, bit_precision: usize) -> Seq<u64> {
    Seq::new(messages.len(), |i: int| spec_encode(messages[i], bit_precision))
}

/// The decoded messages of a sequence of plaintext words.
pub open spec fn spec_decode_all(words: Seq<u64>, bit_precision: usize) -> Seq<u64> {
    Seq::new(words.len(), |i: int| spec_decode(words[i], bit_precision))
}

/// Every ciphertext of the sequence has one word more than `dimension`.
pub open spec fn spec_all_sized(ciphertexts: Seq<LweCiphertext64>, dimension: nat) -> bool {
    forall|i: int|
        0 <= i < ciphertexts.len() ==> (#[trigger] lwe_words(ciphertexts[i])).len() == dimension
            + 1
}

/// The reason for which messages and a precision budget are rejected, if any.
pub open spec fn spec_batch_error(messages: Seq<u64>, bit_precision: usize) -> Option<
    ConfigurationError,
> {
    if !valid_precision(bit_precision) {
        Some(ConfigurationError::Precision)
    } else if exists|i: int|
        0 <= i < messages.len() && #[trigger] messages[i] >= spec_message_space(bit_precision) {
        Some(ConfigurationError::MessageDomain)
    } else {
        None
    }
}

/// The reason for which a whole evaluation is rejected before any
/// cryptographic work, if any: the batch's own reason first, then that of
/// the accumulator's layout.
pub open spec fn spec_evaluation_error(
    messages: Seq<u64>,
    bit_precision: usize,
    polynomial_size: usize,
) -> Option<ConfigurationError> {
    if spec_batch_error(messages, bit_precision) is Some {
        spec_batch_error(messages, bit_precision)
    } else {
        spec_layout_error(bit_precision, polynomial_size)
    }
}

/// Encodes every message of a sequence.
pub fn encode_all(messages: &Vec<u64>, bit_precision: usize) -> (encoded: Vec<u64>)
    requires
        valid_precision(bit_precision),
    ensures
        encoded@ == spec_encode_all(messages@, bit_precision),
{
    let mut encoded: Vec<u64> = Vec::new();
    let mut i: usize = 0;
    while i < messages.len()
        invariant
            valid_precision(bit_precision),
            i <= messages@.len(),
            encoded@.len() == i,
            forall|j: int|
                0 <= j < i ==> #[trigger] encoded@[j] == spec_encode(messages@[j], bit_precision),
        decreases messages@.len() - i,
    {
        encoded.push(encode(messages[i], bit_precision));
        i += 1;
    }
    assert(encoded@ =~= spec_encode_all(messages@, bit_precision));
    encoded
}

/// Decodes every plaintext word of a sequence.
pub fn decode_all(words: &Vec<u64>, bit_precision: usize) -> (decoded: Vec<u64>)
    requires
        valid_precision(bit_precision),
    ensures
        decoded@ == spec_decode_all(words@, bit_precision),
{
    let mut decoded: Vec<u64> = Vec::new();
    let mut i: usize = 0;
    while i < words.len()
        invariant
            valid_precision(bit_precision),
            i <= words@.len(),
            decoded@.len() == i,
            forall|j: int|
                0 <= j < i ==> #[trigger] decoded@[j] == spec_decode(words@[j], bit_precision),
        decreases words@.len() - i,
    {
        decoded.push(decode(words[i], bit_precision));
        i += 1;
    }
    assert(decoded@ =~= spec_decode_all(words@, bit_precision));
    decoded
}

/// Encrypts every encoded plaintext under one key and one noise level.
fn encrypt_all(
    engine: &mut DefaultEngine,
    key: &LweSecretKey64,
    encoded: &Vec<u64>,
    noise: &Variance,
) -> (result: Result<Vec<LweCiphertext64>, EngineError>)
    ensures
        result is Ok,
        result matches Ok(ciphertexts) ==> ciphertexts@.len() == encoded@.len() && spec_all_sized(
            ciphertexts@,
            secret_key_bits(*key).len(),
        ),
{
    let mut ciphertexts: Vec<LweCiphertext64> = Vec::new();
    let mut i: usize = 0;
    while i < encoded.len()
        invariant
            i <= encoded@.len(),
            ciphertexts@.len() == i,
            spec_all_sized(ciphertexts@, secret_key_bits(*key).len()),
        decreases encoded@.len() - i,
    {
        match engine_encrypt(engine, key, encoded[i], noise) {
            Ok(ciphertext) => {
                ciphertexts.push(ciphertext);
            },
            Err(error) => {
                return Err(error);
            },
        }
        i += 1;
    }
    Ok(ciphertexts)
}

/// Switches every ciphertext to the output key of a key-switching key, each
/// into a fresh buffer, in order, and stops at the first that the engine
/// refuses.
///
/// It succeeds exactly when the buffer's size is a `usize` and every
/// ciphertext has the dimension that the key takes in.
fn key_switch_all(
    engine: &mut DefaultEngine,
    key: &LweKeyswitchKey64,
    inputs: &Vec<LweCiphertext64>,
) -> (result: Result<Vec<LweCiphertext64>, EngineError>)
    ensures
        result is Ok <==> keyswitch_output_dimension(*key) < usize::MAX && spec_all_sized(
            inputs@,
            keyswitch_input_dimension(*key) as nat,
        ),
        result matches Ok(switched) ==> {
            &&& switched@.len() == inputs@.len()
            &&& spec_all_sized(switched@, keyswitch_output_dimension(*key) as nat)
            &&& forall|i: int|
                0 <= i < switched@.len() ==> #[trigger] lwe_words(switched@[i]) == keyswitched(
                    *key,
                    lwe_words(inputs@[i]),
                )
        },
        result matches Err(error) ==> if keyswitch_output_dimension(*key) == usize::MAX {
            error == (EngineError::Dimension { operation: EngineOperation::Buffer })
        } else {
            error.refused_during(EngineOperation::KeySwitch)
        },
{
    let dimension = keyswitch_output_dimension_of(key);
    if dimension == usize::MAX {
        return Err(EngineError::Dimension { operation: EngineOperation::Buffer });
    }
    let mut switched: Vec<LweCiphertext64> = Vec::new();
    let mut i: usize = 0;
    while i < inputs.len()
        invariant
            i <= inputs@.len(),
            dimension < usize::MAX,
            dimension == keyswitch_output_dimension(*key),
            switched@.len() == i,
            spec_all_sized(switched@, keyswitch_output_dimension(*key) as nat),
            forall|j: int|
                0 <= j < i ==> (#[trigger] lwe_words(inputs@[j])).len()
                    == keyswitch_input_dimension(*key) + 1,
            forall|j: int|
                0 <= j < i ==> #[trigger] lwe_words(switched@[j]) == keyswitched(
                    *key,
                    lwe_words(inputs@[j]),
                ),
        decreases inputs@.len() - i,
    {
        let mut buffer = match engine_trivial_lwe(engine, dimension + 1, 0) {
            Ok(buffer) => buffer,
            Err(error) => {
                return Err(error);
            },
        };
        match engine_keyswitch(engine, &mut buffer, &inputs[i], key) {
            Ok(()) => {},
            Err(error) => {
                return Err(error);
            },
        }
        switched.push(buffer);
        i += 1;
    }
    Ok(switched)
}

/// The engine bootstraps the ciphertext at `index` from its key-switched
/// copy: the sizes of the two fit the accumulator and the key.
pub open spec fn spec_bootstrap_fits_at(
    outputs: Seq<LweCiphertext64>,
    inputs: Seq<LweCiphertext64>,
    accumulator: GlweCiphertext64,
    key: FftFourierLweBootstrapKey64,
    index: int,
) -> bool {
    spec_bootstrap_fits(
        lwe_words(outputs[index]).len(),
        lwe_words(inputs[index]).len(),
        glwe_polynomial_size(accumulator),
        glwe_dimension(accumulator),
        bootstrap_input_dimension(key),
        bootstrap_polynomial_size(key),
        bootstrap_glwe_dimension(key),
    )
}

/// Replaces every ciphertext by the bootstrap of its key-switched copy
/// through the accumulator, in order, and stops at the first that the
/// engine refuses.
///
/// It succeeds exactly when every pair of ciphertext and copy fits the
/// accumulator and the key. Every ciphertext keeps its size, and every
/// ciphertext from the first refused one on keeps its words.
fn bootstrap_all(
    engine: &mut FftEngine,
    outputs: &mut Vec<LweCiphertext64>,
    inputs: &Vec<LweCiphertext64>,
    accumulator: &GlweCiphertext64,
    key: &FftFourierLweBootstrapKey64,
) -> (result: Result<(), EngineError>)
    requires
        old(outputs)@.len() == inputs@.len(),
    ensures
        final(outputs)@.len() == old(outputs)@.len(),
        forall|i: int|
            0 <= i < old(outputs)@.len() ==> (#[trigger] lwe_words(final(outputs)@[i])).len()
                == lwe_words(old(outputs)@[i]).len(),
        result is Ok <==> forall|i: int|
            0 <= i < inputs@.len() ==> #[trigger] spec_bootstrap_fits_at(
                old(outputs)@,
                inputs@,
                *accumulator,
                *key,
                i,
            ),
        forall|i: int, j: int|
            0 <= i <= j < inputs@.len() && !#[trigger] spec_bootstrap_fits_at(
                old(outputs)@,
                inputs@,
                *accumulator,
                *key,
                i,
            ) ==> #[trigger] lwe_words(final(outputs)@[j]) == lwe_words(old(outputs)@[j]),
        result matches Err(error) ==> error.refused_during(EngineOperation::Bootstrap),
        inputs@.len() == 0 ==> result is Ok,
{
    let mut i: usize = 0;
    while i < inputs.len()
        invariant
            i <= inputs@.len(),
            outputs@.len() == inputs@.len(),
            outputs@.len() == old(outputs)@.len(),
            forall|j: int|
                0 <= j < outputs@.len() ==> (#[trigger] lwe_words(outputs@[j])).len() == lwe_words(
                    old(outputs)@[j],
                ).len(),
            forall|j: int|
                0 <= j < i ==> #[trigger] spec_bootstrap_fits_at(
                    old(outputs)@,
                    inputs@,
                    *accumulator,
                    *key,
                    j,
                ),
            forall|j: int|
                i <= j < outputs@.len() ==> #[trigger] lwe_words(outputs@[j]) == lwe_words(
                    old(outputs)@[j],
                ),
        decreases inputs@.len() - i,
    {
        let ghost before = outputs@;
        let outcome = engine_bootstrap(engine, &mut outputs[i], &inputs[i], accumulator, key);
        assert(forall|j: int| 0 <= j < before.len() && j != i ==> outputs@[j] == before[j]);
        match outcome {
            Ok(()) => {},
            Err(error) => {
                assert(!spec_bootstrap_fits_at(
                    old(outputs)@,
                    inputs@,
                    *accumulator,
                    *key,
                    i as int,
                ));
                return Err(error);
            },
        }
        assert(spec_bootstrap_fits_at(old(outputs)@, inputs@, *accumulator, *key, i as int));
        i += 1;
    }
    Ok(())
}

/// Decrypts every ciphertext under one key.
fn decrypt_all(
    engine: &mut DefaultEngine,
    key: &LweSecretKey64,
    ciphertexts: &Vec<LweCiphertext64>,
) -> (result: Result<Vec<u64>, EngineError>)
    requires
        spec_all_sized(ciphertexts@, secret_key_bits(*key).len()),
    ensures
        result matches Ok(plaintexts) ==> {
            &&& plaintexts@.len() == ciphertexts@.len()
            &&& forall|i: int|
                0 <= i < plaintexts@.len() ==> #[trigger] plaintexts@[i] == spec_phase(
                    secret_key_bits(*key),
                    lwe_words(ciphertexts@[i]),
                )
        },
        result is Ok,
{
    let mut plaintexts: Vec<u64> = Vec::new();
    let mut i: usize = 0;
    while i < ciphertexts.len()
        invariant
            i <= ciphertexts@.len(),
            spec_all_sized(ciphertexts@, secret_key_bits(*key).len()),
            plaintexts@.len() == i,
            forall|j: int|
                0 <= j < i ==> #[trigger] plaintexts@[j] == spec_phase(
                    secret_key_bits(*key),
                    lwe_words(ciphertexts@[j]),
                ),
        decreases ciphertexts@.len() - i,
    {
        assert(lwe_words(ciphertexts@[i as int]).len() == secret_key_bits(*key).len() + 1);
        match engine_decrypt(engine, key, &ciphertexts[i]) {
            Ok(word) => {
                plaintexts.push(word);
            },
            Err(error) => {
                return Err(error);
            },
        }
        i += 1;
    }
    Ok(plaintexts)
}

impl Batch {
    /// The invariant of a batch: what it holds is what its stage says.
    pub open spec fn wf(&self) -> bool {
        &&& valid_precision(self.bit_precision)
        &&& spec_batch_error(self.messages@, self.bit_precision) is None
        &&& if self.stage.rank() >= Stage::Encoded.rank() {
            self.encoded@ == spec_encode_all(self.messages@, self.bit_precision)
        } else {
            self.encoded@.len() == 0
        }
        &&& if self.stage.rank() >= Stage::Encrypted.rank() {
            &&& self.ciphertexts@.len() == self.messages@.len()
            &&& spec_all_sized(self.ciphertexts@, self.dimension as nat)
            &&& self.combined matches Some(sum) ==> lwe_words(sum).len() == self.dimension + 1
        } else {
            self.ciphertexts@.len() == 0 && self.combined is None
        }
        &&& self.stage == Stage::Encrypted ==> self.combined is None
        &&& self.stage == Stage::Combined ==> self.combined is Some
        &&& if self.stage == Stage::KeySwitched {
            self.switched@.len() == self.messages@.len()
        } else {
            self.switched@.len() == 0
        }
        &&& if self.stage.rank() >= Stage::Decrypted.rank() {
            &&& self.plaintexts@.len() == self.messages@.len()
            &&& self.combined is Some <==> self.combined_plaintext is Some
        } else {
            self.plaintexts@.len() == 0 && self.combined_plaintext is None
        }
    }

    /// Starts a batch. The precision budget must be valid and every message
    /// must be one of its `2^bit_precision` values; nothing is computed yet.
    pub fn new(messages: Vec<u64>, bit_precision: usize) -> (result: Result<
        Batch,
        ConfigurationError,
    >)
        ensures
            match result {
                Ok(batch) => {
                    &&& spec_batch_error(messages@, bit_precision) is None
                    &&& batch.wf()
                    &&& batch.stage == Stage::Idle
                    &&& batch.messages@ == messages@
                    &&& batch.bit_precision == bit_precision
                },
                Err(error) => spec_batch_error(messages@, bit_precision) == Some(error),
            },
    {
        if bit_precision < 1 || bit_precision > WORD_BITS {
            return Err(ConfigurationError::Precision);
        }
        let mut i: usize = 0;
        while i < messages.len()
            invariant
                valid_precision(bit_precision),
                i <= messages@.len(),
                forall|j: int|
                    0 <= j < i ==> #[trigger] messages@[j] < spec_message_space(bit_precision),
            decreases messages@.len() - i,
        {
            if !in_message_space(messages[i], bit_precision) {
                return Err(ConfigurationError::MessageDomain);
            }
            i += 1;
        }
        Ok(
            Batch {
                stage: Stage::Idle,
                bit_precision,
                messages,
                encoded: Vec::new(),
                dimension: 0,
                ciphertexts: Vec::new(),
                combined: None,
                switched: Vec::new(),
                plaintexts: Vec::new(),
                combined_plaintext: None,
            },
        )
    }

    /// Encodes every message.
    pub fn encode(self) -> (batch: Batch)
        requires
            self.wf(),
            self.stage == Stage::Idle,
        ensures
            batch.wf(),
            batch.stage == Stage::Encoded,
            batch.messages@ == self.messages@,
            batch.bit_precision == self.bit_precision,
            batch.encoded@ == spec_encode_all(self.messages@, self.bit_precision),
    {
        let mut batch = self;
        batch.encoded = encode_all(&batch.messages, batch.bit_precision);
        batch.stage = Stage::Encoded;
        batch
    }

    /// Encrypts every encoded plaintext under the secret key, with one noise level.
    ///
    /// What the ciphertexts hold is drawn at random; each has one word more
    /// than the key has bits. The engine has no failing path for encryption,
    /// so this always succeeds.
    pub fn encrypt(
        self,
        engine: &mut DefaultEngine,
        key: &LweSecretKey64,
        noise: &Variance,
    ) -> (result: Result<Batch, PipelineError>)
        requires
            self.wf(),
            self.stage == Stage::Encoded,
        ensures
            result matches Ok(batch) && {
                &&& batch.wf()
                &&& batch.stage == Stage::Encrypted
                &&& batch.messages@ == self.messages@
                &&& batch.bit_precision == self.bit_precision
                &&& batch.dimension == secret_key_bits(*key).len()
            },
    {
        let mut batch = self;
        match encrypt_all(engine, key, &batch.encoded, noise) {
            Ok(ciphertexts) => {
                batch.dimension = secret_key_dimension_of(key);
                batch.ciphertexts = ciphertexts;
                batch.stage = Stage::Encrypted;
                Ok(batch)
            },
            Err(error) => Err(PipelineError::Engine(error)),
        }
    }

    /// Adds the ciphertext at `right` to a copy of the ciphertext at `left`
    /// and keeps the sum beside the batch. The sum holds, word by word, the
    /// ring sum of the two ciphertexts.
    ///
    /// The noise of the sum is that of both ciphertexts together. Whether
    /// the precision budget leaves room for it is for the caller to see to:
    /// a sum whose noise exceeds half a scale step decodes to a neighbour.
    ///
    /// The ciphertexts of a batch have one size, so the engine accepts the
    /// addition: this always succeeds.
    pub fn combine(self, engine: &mut DefaultEngine, left: usize, right: usize) -> (result: Result<
        Batch,
        PipelineError,
    >)
        requires
            self.wf(),
            self.stage == Stage::Encrypted,
            left < self.messages@.len(),
            right < self.messages@.len(),
        ensures
            result matches Ok(batch) && {
                &&& batch.wf()
                &&& batch.stage == Stage::Combined
                &&& batch.messages@ == self.messages@
                &&& batch.bit_precision == self.bit_precision
                &&& batch.dimension == self.dimension
                &&& batch.ciphertexts@ == self.ciphertexts@
                &&& batch.combined matches Some(sum) && lwe_words(sum) == spec_word_sums(
                    lwe_words(self.ciphertexts@[left as int]),
                    lwe_words(self.ciphertexts@[right as int]),
                )
            },
    {
        let mut batch = self;
        let mut sum = duplicate(&batch.ciphertexts[left]);
        match engine_add(engine, &mut sum, &batch.ciphertexts[right]) {
            Ok(()) => {
                batch.combined = Some(sum);
                batch.stage = Stage::Combined;
                Ok(batch)
            },
            Err(error) => Err(PipelineError::Engine(error)),
        }
    }

    /// Switches every ciphertext to the key that the bootstrap expects, each
    /// into a fresh buffer. The ciphertexts themselves stay as they are.
    ///
    /// This succeeds exactly when the buffer's size is a `usize` and, if the
    /// batch holds a message, the key takes in ciphertexts of the batch's
    /// dimension.
    pub fn key_switch(self, engine: &mut DefaultEngine, key: &LweKeyswitchKey64) -> (result: Result<
        Batch,
        PipelineError,
    >)
        requires
            self.wf(),
            self.stage == Stage::Encrypted || self.stage == Stage::Combined,
        ensures
            result is Ok <==> keyswitch_output_dimension(*key) < usize::MAX && (
            self.messages@.len() == 0 || self.dimension == keyswitch_input_dimension(*key)),
            match result {
                Ok(batch) => {
                    &&& batch.wf()
                    &&& batch.stage == Stage::KeySwitched
                    &&& batch.messages@ == self.messages@
                    &&& batch.bit_precision == self.bit_precision
                    &&& batch.dimension == self.dimension
                    &&& batch.ciphertexts@ == self.ciphertexts@
                    &&& batch.combined == self.combined
                    &&& spec_all_sized(batch.switched@, keyswitch_output_dimension(*key) as nat)
                    &&& forall|i: int|
                        0 <= i < batch.switched@.len() ==> #[trigger] lwe_words(batch.switched@[i])
                            == keyswitched(*key, lwe_words(self.ciphertexts@[i]))
                },
                Err(error) => error matches PipelineError::Engine(fault)
                    && if keyswitch_output_dimension(*key) == usize::MAX {
                    fault == (EngineError::Dimension { operation: EngineOperation::Buffer })
                } else {
                    fault.refused_during(EngineOperation::KeySwitch)
                },
            },
    {
        let mut batch = self;
        proof {
            if batch.messages@.len() > 0 {
                assert(lwe_words(batch.ciphertexts@[0]).len() == batch.dimension + 1);
            }
        }
        match key_switch_all(engine, key, &batch.ciphertexts) {
            Ok(switched) => {
                batch.switched = switched;
                batch.stage = Stage::KeySwitched;
                Ok(batch)
            },
            Err(error) => Err(PipelineError::Engine(error)),
        }
    }

    /// Replaces every ciphertext by the bootstrap of its key-switched copy
    /// through the accumulator, and drops the copies.
    ///
    /// The refreshed ciphertexts keep their size; what they hold is for the
    /// engine to say. This succeeds exactly when every ciphertext and its
    /// copy fit the accumulator and the key.
    pub fn bootstrap(
        self,
        engine: &mut FftEngine,
        accumulator: &GlweCiphertext64,
        key: &FftFourierLweBootstrapKey64,
    ) -> (result: Result<Batch, PipelineError>)
        requires
            self.wf(),
            self.stage == Stage::KeySwitched,
        ensures
            result is Ok <==> forall|i: int|
                0 <= i < self.messages@.len() ==> #[trigger] spec_bootstrap_fits_at(
                    self.ciphertexts@,
                    self.switched@,
                    *accumulator,
                    *key,
                    i,
                ),
            match result {
                Ok(batch) => {
                    &&& batch.wf()
                    &&& batch.stage == Stage::Bootstrapped
                    &&& batch.messages@ == self.messages@
                    &&& batch.bit_precision == self.bit_precision
                    &&& batch.dimension == self.dimension
                    &&& batch.combined == self.combined
                },
                Err(error) => error matches PipelineError::Engine(fault) && fault.refused_during(
                    EngineOperation::Bootstrap,
                ),
            },
    {
        let mut batch = self;
        match bootstrap_all(engine, &mut batch.ciphertexts, &batch.switched, accumulator, key) {
            Ok(()) => {
                batch.switched = Vec::new();
                batch.stage = Stage::Bootstrapped;
                Ok(batch)
            },
            Err(error) => Err(PipelineError::Engine(error)),
        }
    }

    /// Decrypts every ciphertext, and the combined one if there is one.
    ///
    /// A key whose size differs from that of the key that encrypted the
    /// batch is refused before the engine is called. With a key of that
    /// size this succeeds: the engine has no failing path for decryption.
    pub fn decrypt(self, engine: &mut DefaultEngine, key: &LweSecretKey64) -> (result: Result<
        Batch,
        PipelineError,
    >)
        requires
            self.wf(),
            self.stage == Stage::Bootstrapped,
        ensures
            result is Ok <==> secret_key_bits(*key).len() == self.dimension,
            match result {
                Ok(batch) => {
                    &&& batch.wf()
                    &&& batch.stage == Stage::Decrypted
                    &&& batch.messages@ == self.messages@
                    &&& batch.bit_precision == self.bit_precision
                    &&& batch.dimension == self.dimension
                    &&& batch.ciphertexts@ == self.ciphertexts@
                    &&& batch.combined == self.combined
                    &&& forall|i: int|
                        0 <= i < batch.plaintexts@.len() ==> #[trigger] batch.plaintexts@[i]
                            == spec_phase(secret_key_bits(*key), lwe_words(self.ciphertexts@[i]))
                    &&& self.combined matches Some(sum) ==> batch.combined_plaintext == Some(
                        spec_phase(secret_key_bits(*key), lwe_words(sum)),
                    )
                },
                Err(error) => error == PipelineError::Engine(
                    EngineError::Dimension { operation: EngineOperation::Decrypt },
                ),
            },
    {
        let mut batch = self;
        if secret_key_dimension_of(key) != batch.dimension {
            return Err(
                PipelineError::Engine(
                    EngineError::Dimension { operation: EngineOperation::Decrypt },
                ),
            );
        }
        let plaintexts = match decrypt_all(engine, key, &batch.ciphertexts) {
            Ok(plaintexts) => plaintexts,
            Err(error) => {
                return Err(PipelineError::Engine(error));
            },
        };
        let combined_plaintext = match &batch.combined {
            Some(sum) => match engine_decrypt(engine, key, sum) {
                Ok(word) => Some(word),
                Err(error) => {
                    return Err(PipelineError::Engine(error));
                },
            },
            None => None,
        };
        batch.plaintexts = plaintexts;
        batch.combined_plaintext = combined_plaintext;
        batch.stage = Stage::Decrypted;
        Ok(batch)
    }

    /// Decodes the decrypted plaintexts and hands the results out.
    pub fn report(&mut self) -> (report: Report)
        requires
            old(self).wf(),
            old(self).stage == Stage::Decrypted,
        ensures
            final(self).wf(),
            final(self).stage == Stage::Reported,
            final(self).messages@ == old(self).messages@,
            final(self).plaintexts@ == old(self).plaintexts@,
            final(self).combined_plaintext == old(self).combined_plaintext,
            report.encoded_outputs@ == old(self).plaintexts@,
            report.outputs@ == spec_decode_all(old(self).plaintexts@, old(self).bit_precision),
            report.encoded_sum == old(self).combined_plaintext,
            report.sum == match old(self).combined_plaintext {
                Some(word) => Some(spec_decode(word, old(self).bit_precision)),
                None => None,
            },
    {
        let outputs = decode_all(&self.plaintexts, self.bit_precision);
        let sum = match self.combined_plaintext {
            Some(word) => Some(decode(word, self.bit_precision)),
            None => None,
        };
        let encoded_outputs = self.plaintexts.clone();
        self.stage = Stage::Reported;
        Report { encoded_outputs, outputs, encoded_sum: self.combined_plaintext, sum }
    }
}

/// The keys fit one another: the key-switching key takes in what the
/// secret key encrypts, and the bootstrapping key takes in what the
/// key-switching key produces, has a polynomial size that the transform
/// supports, and gives out ciphertexts of the secret key's size.
pub open spec fn spec_keys_fit(keys: KeySet) -> bool {
    &&& secret_key_bits(keys.secret).len() == keyswitch_input_dimension(keys.key_switching)
    &&& spec_bootstrap_fits(
        secret_key_bits(keys.secret).len() + 1,
        (keyswitch_output_dimension(keys.key_switching) + 1) as nat,
        bootstrap_polynomial_size(keys.bootstrapping),
        bootstrap_glwe_dimension(keys.bootstrapping),
        bootstrap_input_dimension(keys.bootstrapping),
        bootstrap_polynomial_size(keys.bootstrapping),
        bootstrap_glwe_dimension(keys.bootstrapping),
    )
}

/// The inputs on which a whole evaluation succeeds: the configuration is
/// accepted, the accumulator is not empty and its ciphertext's size is a
/// `usize`, the key-switch buffer's size is a `usize`, and, if there is a
/// message to work on, the keys fit one another.
pub open spec fn spec_evaluation_succeeds(
    messages: Seq<u64>,
    bit_precision: usize,
    keys: KeySet,
) -> bool {
    &&& spec_evaluation_error(
        messages,
        bit_precision,
        bootstrap_polynomial_size(keys.bootstrapping),
    ) is None
    &&& bootstrap_polynomial_size(keys.bootstrapping) > 0
    &&& spec_fits_accumulator(
        keys.bootstrapping,
        bootstrap_polynomial_size(keys.bootstrapping) as nat,
    )
    &&& keyswitch_output_dimension(keys.key_switching) < usize::MAX
    &&& messages.len() > 0 ==> spec_keys_fit(keys)
}

/// The fault that ends an evaluation whose configuration is accepted and
/// that does not succeed: that of the first step that cannot be done, in
/// the order accumulator, key switch, bootstrap.
pub open spec fn spec_evaluation_fault(
    messages: Seq<u64>,
    keys: KeySet,
    fault: EngineError,
) -> bool {
    if !spec_fits_accumulator(
        keys.bootstrapping,
        bootstrap_polynomial_size(keys.bootstrapping) as nat,
    ) {
        fault == (EngineError::Dimension { operation: EngineOperation::Accumulator })
    } else if bootstrap_polynomial_size(keys.bootstrapping) == 0 {
        fault.refused_during(EngineOperation::Accumulator)
    } else if keyswitch_output_dimension(keys.key_switching) == usize::MAX {
        fault == (EngineError::Dimension { operation: EngineOperation::Buffer })
    } else if messages.len() > 0 && secret_key_bits(keys.secret).len()
        != keyswitch_input_dimension(keys.key_switching) {
        fault.refused_during(EngineOperation::KeySwitch)
    } else {
        fault.refused_during(EngineOperation::Bootstrap)
    }
}

/// The report hands out what the batch holds once it is decrypted: the
/// batch is that of the messages, at the stage `Decrypted`, and each of its
/// plaintexts, and that of the combined ciphertext if there is one, is what
/// the key recovers from the ciphertext.
pub open spec fn spec_reports_batch(
    batch: Batch,
    messages: Seq<u64>,
    bit_precision: usize,
    bits: Seq<u64>,
    report: Report,
) -> bool {
    &&& batch.wf()
    &&& batch.stage == Stage::Decrypted
    &&& batch.messages@ == messages
    &&& batch.bit_precision == bit_precision
    &&& batch.dimension == bits.len()
    &&& report.encoded_outputs@ == batch.plaintexts@
    &&& report.encoded_sum == batch.combined_plaintext
    &&& forall|i: int|
        0 <= i < batch.plaintexts@.len() ==> #[trigger] batch.plaintexts@[i] == spec_phase(
            bits,
            lwe_words(batch.ciphertexts@[i]),
        )
    &&& batch.combined matches Some(sum) ==> batch.combined_plaintext == Some(
        spec_phase(bits, lwe_words(sum)),
    )
}

/// Works a batch of messages through the whole order: validates the
/// configuration, encodes and encrypts the messages, adds the first two
/// ciphertexts if there are two, builds and encrypts the accumulator of the
/// lookup function, key-switches and bootstraps every ciphertext, decrypts
/// and decodes.
///
/// A configuration that is rejected is rejected before either engine is
/// touched. Beyond that the evaluation succeeds exactly when the sizes of
/// the keys fit one another; otherwise it ends with the fault of the first
/// step that cannot be done. What the refreshed ciphertexts hold is for the
/// engine to say; the report hands out what the secret key recovers from
/// them, and decodes it.
pub fn evaluate<F: Fn(u64) -> u64>(
    engine: &mut DefaultEngine,
    fft: &mut FftEngine,
    keys: &KeySet,
    noise: &Variance,
    messages: Vec<u64>,
    bit_precision: usize,
    func: F,
) -> (result: Result<Report, PipelineError>)
    requires
        valid_precision(bit_precision) ==> forall|i: u64|
            i < spec_modulus_sup(bit_precision) ==> call_requires(func, (i,)),
    ensures
        result is Ok <==> spec_evaluation_succeeds(messages@, bit_precision, *keys),
        match result {
            Ok(report) => {
                &&& exists|batch: Batch| #[trigger]
                    spec_reports_batch(
                        batch,
                        messages@,
                        bit_precision,
                        secret_key_bits(keys.secret),
                        report,
                    )
                &&& report.encoded_outputs@.len() == messages@.len()
                &&& report.outputs@ == spec_decode_all(report.encoded_outputs@, bit_precision)
                &&& report.encoded_sum is Some <==> messages@.len() >= 2
                &&& report.sum == match report.encoded_sum {
                    Some(word) => Some(spec_decode(word, bit_precision)),
                    None => None,
                }
            },
            Err(PipelineError::Configuration(error)) => {
                &&& spec_evaluation_error(
                    messages@,
                    bit_precision,
                    bootstrap_polynomial_size(keys.bootstrapping),
                ) == Some(error)
                &&& *final(engine) == *old(engine)
                &&& *final(fft) == *old(fft)
            },
            Err(PipelineError::Engine(fault)) => {
                &&& spec_evaluation_error(
                    messages@,
                    bit_precision,
                    bootstrap_polynomial_size(keys.bootstrapping),
                ) is None
                &&& spec_evaluation_fault(messages@, *keys, fault)
            },
        },
{
    let batch = match Batch::new(messages, bit_precision) {
        Ok(batch) => batch,
        Err(error) => {
            return Err(PipelineError::Configuration(error));
        },
    };
    let polynomial_size = bootstrap_polynomial_size_of(&keys.bootstrapping);
    let words = match build_accumulator(func, bit_precision, polynomial_size) {
        Ok(words) => words,
        Err(error) => {
            return Err(PipelineError::Configuration(error));
        },
    };
    let batch = batch.encode();
    let batch = match batch.encrypt(engine, &keys.secret, noise) {
        Ok(batch) => batch,
        Err(error) => {
            return Err(error);
        },
    };
    let batch = if batch.messages.len() >= 2 {
        match batch.combine(engine, 0, 1) {
            Ok(batch) => batch,
            Err(error) => {
                return Err(error);
            },
        }
    } else {
        batch
    };
    let accumulator = match encrypt_accumulator(engine, &keys.bootstrapping, &words) {
        Ok(accumulator) => accumulator,
        Err(fault) => {
            return Err(PipelineError::Engine(fault));
        },
    };
    let batch = match batch.key_switch(engine, &keys.key_switching) {
        Ok(batch) => batch,
        Err(error) => {
            return Err(error);
        },
    };
    proof {
        // Every ciphertext has the size of the secret key and every copy that
        // of the key-switching key, so the bootstrap's condition is the same
        // at every index.
        assert forall|i: int| 0 <= i < batch.messages@.len() implies (
        #[trigger] spec_bootstrap_fits_at(
            batch.ciphertexts@,
            batch.switched@,
            accumulator,
            keys.bootstrapping,
            i,
        )) == spec_keys_fit(*keys) by {
            assert(lwe_words(batch.ciphertexts@[i]).len() == batch.dimension + 1);
            assert(lwe_words(batch.switched@[i]).len() == keyswitch_output_dimension(
                keys.key_switching,
            ) + 1);
        }
        if batch.messages@.len() > 0 {
            assert(spec_bootstrap_fits_at(
                batch.ciphertexts@,
                batch.switched@,
                accumulator,
                keys.bootstrapping,
                0,
            ) == spec_keys_fit(*keys));
        }
    }
    let batch = match batch.bootstrap(fft, &accumulator, &keys.bootstrapping) {
        Ok(batch) => batch,
        Err(error) => {
            return Err(error);
        },
    };
    let mut batch = match batch.decrypt(engine, &keys.secret) {
        Ok(batch) => batch,
        Err(error) => {
            return Err(error);
        },
    };
    let ghost decrypted = batch;
    let report = batch.report();
    proof {
        assert(spec_reports_batch(
            decrypted,
            messages@,
            bit_precision,
            secret_key_bits(keys.secret),
            report,
        ));
    }
    Ok(report)
}

} // verus!
