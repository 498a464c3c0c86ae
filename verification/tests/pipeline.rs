use concrete_core::prelude::{
    AbstractEngine, DecompositionBaseLog, DecompositionLevelCount, DefaultEngine, FftEngine,
    FftFourierLweBootstrapKey64, GlweCiphertextConsumingRetrievalEngine, GlweCiphertextEntity,
    GlweDimension,
    GlweSecretKey64, GlweSecretKeyGenerationEngine, GlweToLweSecretKeyTransformationEngine,
    LweBootstrapKey64, LweBootstrapKeyConversionEngine, LweBootstrapKeyGenerationEngine,
    LweCiphertext64, LweCiphertextConsumingRetrievalEngine, LweCiphertextCreationEngine,
    LweCiphertextEntity, LweDimension, LweKeyswitchKey64, LweKeyswitchKeyGenerationEngine,
    LweSecretKey64, LweSecretKeyGenerationEngine, PolynomialSize, UnixSeeder, Variance,
};
use pbs_lookup::accumulator::{build_accumulator, create_accum, encrypt_accumulator};
use pbs_lookup::encoding::{decode, encode};
use pbs_lookup::error::{ConfigurationError, EngineError, EngineOperation, PipelineError};
use pbs_lookup::pipeline::{decode_all, encode_all, evaluate, Batch, KeySet, Report, Stage};

const SMALL_DIMENSION: usize = 32;
const POLYNOMIAL_SIZE: usize = 256;

fn shifted_down_by_two(value: u64) -> u64 {
    value.wrapping_sub(2) % 16
}

fn quiet() -> Variance {
    Variance(2f64.powi(-120))
}

fn engines() -> (DefaultEngine, FftEngine) {
    let engine = DefaultEngine::new(Box::new(UnixSeeder::new(0))).unwrap();
    let fft = FftEngine::new(()).unwrap();
    (engine, fft)
}

/// Keys of toy sizes, with next to no noise: fast to make and of no security.
fn toy_keys(engine: &mut DefaultEngine, fft: &mut FftEngine, polynomial_size: usize) -> KeySet {
    toy_keys_sized(engine, fft, SMALL_DIMENSION, polynomial_size)
}

fn toy_keys_sized(
    engine: &mut DefaultEngine,
    fft: &mut FftEngine,
    small_dimension: usize,
    polynomial_size: usize,
) -> KeySet {
    let small: LweSecretKey64 =
        engine.generate_new_lwe_secret_key(LweDimension(small_dimension)).unwrap();
    let glwe: GlweSecretKey64 = engine
        .generate_new_glwe_secret_key(GlweDimension(1), PolynomialSize(polynomial_size))
        .unwrap();
    let secret: LweSecretKey64 =
        engine.transform_glwe_secret_key_to_lwe_secret_key(glwe.clone()).unwrap();
    let key_switching: LweKeyswitchKey64 = engine
        .generate_new_lwe_keyswitch_key(
            &secret,
            &small,
            DecompositionLevelCount(8),
            DecompositionBaseLog(4),
            quiet(),
        )
        .unwrap();
    let standard: LweBootstrapKey64 = engine
        .generate_new_lwe_bootstrap_key(
            &small,
            &glwe,
            DecompositionBaseLog(10),
            DecompositionLevelCount(4),
            quiet(),
        )
        .unwrap();
    let bootstrapping: FftFourierLweBootstrapKey64 = fft.convert_lwe_bootstrap_key(&standard).unwrap();
    KeySet { secret, key_switching, bootstrapping }
}

fn words_of(engine: &mut DefaultEngine, ciphertext: &LweCiphertext64) -> Vec<u64> {
    engine.consume_retrieve_lwe_ciphertext(ciphertext.clone()).unwrap()
}

#[test]
fn demonstration_with_two_messages() {
    let (mut engine, mut fft) = engines();
    let keys = toy_keys(&mut engine, &mut fft, POLYNOMIAL_SIZE);
    let report =
        evaluate(&mut engine, &mut fft, &keys, &quiet(), vec![23, 15], 5, shifted_down_by_two)
            .unwrap();
    // 15 lies in the lower half of the message space: its result is f(15) = 13.
    // 23 = 16 + 7 lies in the upper half, where the accumulator's negacyclic
    // extension yields minus f(7) = -5, which is 27 in a five-bit budget.
    assert_eq!(report.outputs, vec![27, 13]);
    assert_eq!(report.sum, Some(6));
    assert_eq!(report.encoded_outputs.len(), 2);
    assert_eq!(decode(report.encoded_outputs[1], 5), 13);
    assert_eq!(decode(report.encoded_sum.unwrap(), 5), 6);
}

#[test]
fn bootstrap_applies_the_function_on_the_lower_half() {
    let (mut engine, mut fft) = engines();
    let keys = toy_keys(&mut engine, &mut fft, POLYNOMIAL_SIZE);
    let messages: Vec<u64> = (0..16).collect();
    let report =
        evaluate(&mut engine, &mut fft, &keys, &quiet(), messages.clone(), 5, shifted_down_by_two)
            .unwrap();
    let expected: Vec<u64> = messages.iter().map(|&m| shifted_down_by_two(m)).collect();
    assert_eq!(report.outputs, expected);
    assert_eq!(report.outputs[0], 14);
    assert_eq!(report.outputs[7], 5);
    assert_eq!(report.sum, Some(1));
}

#[test]
fn bootstrap_negates_the_function_on_the_upper_half() {
    let (mut engine, mut fft) = engines();
    let keys = toy_keys(&mut engine, &mut fft, POLYNOMIAL_SIZE);
    let messages: Vec<u64> = (16..32).collect();
    let report =
        evaluate(&mut engine, &mut fft, &keys, &quiet(), messages.clone(), 5, shifted_down_by_two)
            .unwrap();
    let expected: Vec<u64> =
        messages.iter().map(|&m| (32 - shifted_down_by_two(m - 16)) % 32).collect();
    assert_eq!(report.outputs, expected);
    // f(2) = 0 is its own negation.
    assert_eq!(report.outputs[2], 0);
    assert_eq!(report.sum, Some((16 + 17) % 32));
}

#[test]
fn bootstrap_applies_another_function_and_budget() {
    let (mut engine, mut fft) = engines();
    let keys = toy_keys(&mut engine, &mut fft, POLYNOMIAL_SIZE);
    let square = |value: u64| (value * value) % 8;
    let report =
        evaluate(&mut engine, &mut fft, &keys, &quiet(), vec![0, 1, 2, 3, 5, 7], 4, square).unwrap();
    assert_eq!(report.outputs, vec![0, 1, 4, 1, 1, 1]);
    assert_eq!(report.sum, Some(1));
}

#[test]
fn homomorphic_sum_decodes_to_the_modular_sum() {
    let (mut engine, mut fft) = engines();
    let keys = toy_keys(&mut engine, &mut fft, POLYNOMIAL_SIZE);
    for (left, right) in [(0u64, 0u64), (3, 4), (7, 8), (15, 0), (5, 10), (23, 15), (31, 31)] {
        let report = evaluate(
            &mut engine,
            &mut fft,
            &keys,
            &quiet(),
            vec![left, right],
            5,
            shifted_down_by_two,
        )
        .unwrap();
        assert_eq!(report.sum, Some((left + right) % 32));
    }
}

#[test]
fn single_message_has_no_sum() {
    let (mut engine, mut fft) = engines();
    let keys = toy_keys(&mut engine, &mut fft, POLYNOMIAL_SIZE);
    let report =
        evaluate(&mut engine, &mut fft, &keys, &quiet(), vec![9], 5, shifted_down_by_two).unwrap();
    assert_eq!(report.outputs, vec![7]);
    assert_eq!(report.sum, None);
    assert_eq!(report.encoded_sum, None);
}

#[test]
fn empty_batch_has_an_empty_report() {
    let (mut engine, mut fft) = engines();
    let keys = toy_keys(&mut engine, &mut fft, POLYNOMIAL_SIZE);
    let report =
        evaluate(&mut engine, &mut fft, &keys, &quiet(), Vec::new(), 5, shifted_down_by_two).unwrap();
    assert_eq!(
        report,
        Report { encoded_outputs: Vec::new(), outputs: Vec::new(), encoded_sum: None, sum: None }
    );
}

#[test]
fn evaluation_rejects_an_invalid_precision() {
    let (mut engine, mut fft) = engines();
    let keys = toy_keys(&mut engine, &mut fft, POLYNOMIAL_SIZE);
    for bit_precision in [0usize, 65, 1000] {
        let outcome = evaluate(
            &mut engine,
            &mut fft,
            &keys,
            &quiet(),
            vec![1, 2],
            bit_precision,
            shifted_down_by_two,
        );
        assert_eq!(outcome, Err(PipelineError::Configuration(ConfigurationError::Precision)));
    }
}

#[test]
fn evaluation_rejects_a_message_outside_the_budget() {
    let (mut engine, mut fft) = engines();
    let keys = toy_keys(&mut engine, &mut fft, POLYNOMIAL_SIZE);
    let outcome =
        evaluate(&mut engine, &mut fft, &keys, &quiet(), vec![3, 32], 5, shifted_down_by_two);
    assert_eq!(outcome, Err(PipelineError::Configuration(ConfigurationError::MessageDomain)));
}

#[test]
fn evaluation_rejects_misaligned_boxes() {
    let (mut engine, mut fft) = engines();
    let keys = toy_keys(&mut engine, &mut fft, POLYNOMIAL_SIZE);
    // 512 boxes do not fit in 256 slots.
    let outcome = evaluate(&mut engine, &mut fft, &keys, &quiet(), vec![3, 4], 10, shifted_down_by_two);
    assert_eq!(outcome, Err(PipelineError::Configuration(ConfigurationError::BoxAlignment)));
    // A message outside the budget is reported before the misalignment.
    let outcome =
        evaluate(&mut engine, &mut fft, &keys, &quiet(), vec![1024], 10, shifted_down_by_two);
    assert_eq!(outcome, Err(PipelineError::Configuration(ConfigurationError::MessageDomain)));
}

#[test]
fn batch_starts_idle_and_validates() {
    let batch = Batch::new(vec![23, 15], 5).unwrap();
    assert_eq!(batch.stage, Stage::Idle);
    assert_eq!(batch.messages, vec![23, 15]);
    assert_eq!(batch.bit_precision, 5);
    assert!(batch.encoded.is_empty());
    assert!(batch.ciphertexts.is_empty());
    assert_eq!(Batch::new(vec![23, 15], 0).err(), Some(ConfigurationError::Precision));
    assert_eq!(Batch::new(vec![23, 15], 65).err(), Some(ConfigurationError::Precision));
    assert_eq!(Batch::new(vec![23, 15], 4).err(), Some(ConfigurationError::MessageDomain));
    assert_eq!(Batch::new(vec![0, 1, 2], 1).err(), Some(ConfigurationError::MessageDomain));
    assert!(Batch::new(vec![u64::MAX], 64).is_ok());
    assert!(Batch::new(Vec::new(), 1).is_ok());
}

#[test]
fn batch_goes_through_every_stage() {
    let (mut engine, mut fft) = engines();
    let keys = toy_keys(&mut engine, &mut fft, POLYNOMIAL_SIZE);
    let accumulator =
        create_accum(shifted_down_by_two, &keys.bootstrapping, 5, &mut engine).unwrap();

    let batch = Batch::new(vec![4, 9, 12], 5).unwrap().encode();
    assert_eq!(batch.stage, Stage::Encoded);
    assert_eq!(batch.encoded, vec![4u64 << 59, 9u64 << 59, 12u64 << 59]);

    let batch = batch.encrypt(&mut engine, &keys.secret, &quiet()).unwrap();
    assert_eq!(batch.stage, Stage::Encrypted);
    assert_eq!(batch.dimension, POLYNOMIAL_SIZE);
    assert_eq!(batch.ciphertexts.len(), 3);
    for ciphertext in batch.ciphertexts.iter() {
        assert_eq!(ciphertext.lwe_dimension(), LweDimension(POLYNOMIAL_SIZE));
    }
    assert!(batch.combined.is_none());

    let batch = batch.combine(&mut engine, 2, 1).unwrap();
    assert_eq!(batch.stage, Stage::Combined);
    let left = words_of(&mut engine, &batch.ciphertexts[2]);
    let right = words_of(&mut engine, &batch.ciphertexts[1]);
    let sum = words_of(&mut engine, batch.combined.as_ref().unwrap());
    assert_eq!(sum.len(), POLYNOMIAL_SIZE + 1);
    for i in 0..sum.len() {
        assert_eq!(sum[i], left[i].wrapping_add(right[i]));
    }
    assert_ne!(sum, left);

    let before: Vec<Vec<u64>> =
        batch.ciphertexts.iter().map(|c| words_of(&mut engine, c)).collect();
    let batch = batch.key_switch(&mut engine, &keys.key_switching).unwrap();
    assert_eq!(batch.stage, Stage::KeySwitched);
    assert_eq!(batch.switched.len(), 3);
    for switched in batch.switched.iter() {
        assert_eq!(switched.lwe_dimension(), LweDimension(SMALL_DIMENSION));
        // A buffer left as it was allocated would hold nothing but zeros.
        assert!(words_of(&mut engine, switched).iter().any(|&w| w != 0));
    }
    let after: Vec<Vec<u64>> =
        batch.ciphertexts.iter().map(|c| words_of(&mut engine, c)).collect();
    assert_eq!(before, after);

    let batch = batch.bootstrap(&mut fft, &accumulator, &keys.bootstrapping).unwrap();
    assert_eq!(batch.stage, Stage::Bootstrapped);
    assert!(batch.switched.is_empty());
    let refreshed: Vec<Vec<u64>> =
        batch.ciphertexts.iter().map(|c| words_of(&mut engine, c)).collect();
    for i in 0..3 {
        assert_eq!(refreshed[i].len(), POLYNOMIAL_SIZE + 1);
        assert_ne!(refreshed[i], before[i]);
    }

    let mut batch = batch.decrypt(&mut engine, &keys.secret).unwrap();
    assert_eq!(batch.stage, Stage::Decrypted);
    assert_eq!(batch.plaintexts.len(), 3);
    assert!(batch.combined_plaintext.is_some());

    let report = batch.report();
    assert_eq!(batch.stage, Stage::Reported);
    assert_eq!(report.outputs, vec![2, 7, 10]);
    assert_eq!(report.sum, Some(21));
    assert_eq!(report.encoded_outputs, batch.plaintexts);
    assert_eq!(report.encoded_sum, batch.combined_plaintext);
    assert_eq!(report.outputs, decode_all(&report.encoded_outputs, 5));
}

#[test]
fn batch_without_a_combination_skips_that_stage() {
    let (mut engine, mut fft) = engines();
    let keys = toy_keys(&mut engine, &mut fft, POLYNOMIAL_SIZE);
    let accumulator =
        create_accum(shifted_down_by_two, &keys.bootstrapping, 5, &mut engine).unwrap();
    let batch = Batch::new(vec![6], 5).unwrap().encode();
    let batch = batch.encrypt(&mut engine, &keys.secret, &quiet()).unwrap();
    let batch = batch.key_switch(&mut engine, &keys.key_switching).unwrap();
    let batch = batch.bootstrap(&mut fft, &accumulator, &keys.bootstrapping).unwrap();
    let mut batch = batch.decrypt(&mut engine, &keys.secret).unwrap();
    let report = batch.report();
    assert_eq!(report.outputs, vec![4]);
    assert_eq!(report.sum, None);
}

#[test]
fn decryption_refuses_a_key_of_another_size() {
    let (mut engine, mut fft) = engines();
    let keys = toy_keys(&mut engine, &mut fft, POLYNOMIAL_SIZE);
    let accumulator =
        create_accum(shifted_down_by_two, &keys.bootstrapping, 5, &mut engine).unwrap();
    let other: LweSecretKey64 = engine.generate_new_lwe_secret_key(LweDimension(7)).unwrap();
    let batch = Batch::new(vec![6], 5).unwrap().encode();
    let batch = batch.encrypt(&mut engine, &keys.secret, &quiet()).unwrap();
    let batch = batch.key_switch(&mut engine, &keys.key_switching).unwrap();
    let batch = batch.bootstrap(&mut fft, &accumulator, &keys.bootstrapping).unwrap();
    let outcome = batch.decrypt(&mut engine, &other);
    match outcome {
        Err(PipelineError::Engine(fault)) => {
            assert_eq!(fault, EngineError::Dimension { operation: EngineOperation::Decrypt });
            assert_eq!(fault.operation(), EngineOperation::Decrypt);
        }
        _ => panic!("a key of another size was accepted"),
    }
}

#[test]
fn key_switch_failure_is_the_engines_own() {
    let (mut engine, mut fft) = engines();
    let keys = toy_keys(&mut engine, &mut fft, POLYNOMIAL_SIZE);
    let larger = toy_keys(&mut engine, &mut fft, 512);
    let batch = Batch::new(vec![6], 5).unwrap().encode();
    let batch = batch.encrypt(&mut engine, &keys.secret, &quiet()).unwrap();
    match batch.key_switch(&mut engine, &larger.key_switching) {
        Err(PipelineError::Engine(EngineError::Refused { operation, message })) => {
            assert_eq!(operation, EngineOperation::KeySwitch);
            assert!(message.contains("dimension"));
        }
        _ => panic!("a key-switching key of another size was accepted"),
    }
}

#[test]
fn bootstrap_failure_is_the_engines_own() {
    let (mut engine, mut fft) = engines();
    let keys = toy_keys(&mut engine, &mut fft, POLYNOMIAL_SIZE);
    let larger = toy_keys(&mut engine, &mut fft, 512);
    let accumulator =
        create_accum(shifted_down_by_two, &larger.bootstrapping, 5, &mut engine).unwrap();
    let batch = Batch::new(vec![6], 5).unwrap().encode();
    let batch = batch.encrypt(&mut engine, &keys.secret, &quiet()).unwrap();
    let batch = batch.key_switch(&mut engine, &keys.key_switching).unwrap();
    match batch.bootstrap(&mut fft, &accumulator, &keys.bootstrapping) {
        Err(PipelineError::Engine(fault)) => {
            assert_eq!(fault.operation(), EngineOperation::Bootstrap);
            assert!(matches!(fault, EngineError::Refused { .. }));
        }
        _ => panic!("an accumulator of another size was accepted"),
    }
}

#[test]
fn accumulator_is_encrypted_trivially() {
    let (mut engine, mut fft) = engines();
    let keys = toy_keys(&mut engine, &mut fft, POLYNOMIAL_SIZE);
    let accumulator =
        create_accum(shifted_down_by_two, &keys.bootstrapping, 5, &mut engine).unwrap();
    assert_eq!(accumulator.polynomial_size(), PolynomialSize(POLYNOMIAL_SIZE));
    assert_eq!(accumulator.glwe_dimension(), GlweDimension(1));
    let words: Vec<u64> = engine.consume_retrieve_glwe_ciphertext(accumulator).unwrap();
    let plain = build_accumulator(shifted_down_by_two, 5, POLYNOMIAL_SIZE).unwrap();
    assert_eq!(words.len(), 2 * POLYNOMIAL_SIZE);
    assert!(words[..POLYNOMIAL_SIZE].iter().all(|&w| w == 0));
    assert_eq!(&words[POLYNOMIAL_SIZE..], &plain[..]);
    // The first box holds f(0) = 14, the last half box its negation.
    assert_eq!(words[POLYNOMIAL_SIZE], encode(14, 5));
    assert_eq!(words[2 * POLYNOMIAL_SIZE - 1], encode(14, 5).wrapping_neg());
}

#[test]
fn accumulator_creation_rejects_a_bad_configuration() {
    let (mut engine, mut fft) = engines();
    let keys = toy_keys(&mut engine, &mut fft, POLYNOMIAL_SIZE);
    assert_eq!(
        create_accum(shifted_down_by_two, &keys.bootstrapping, 10, &mut engine).err(),
        Some(PipelineError::Configuration(ConfigurationError::BoxAlignment))
    );
    assert_eq!(
        create_accum(shifted_down_by_two, &keys.bootstrapping, 0, &mut engine).err(),
        Some(PipelineError::Configuration(ConfigurationError::Precision))
    );
}

#[test]
fn accumulator_encryption_failure_is_the_engines_own() {
    let (mut engine, mut fft) = engines();
    let keys = toy_keys(&mut engine, &mut fft, POLYNOMIAL_SIZE);
    match encrypt_accumulator(&mut engine, &keys.bootstrapping, &Vec::new()) {
        Err(EngineError::Refused { operation, .. }) => {
            assert_eq!(operation, EngineOperation::Accumulator);
        }
        _ => panic!("an empty accumulator was encrypted"),
    }
}

#[test]
fn encode_all_and_decode_all_work_word_by_word() {
    assert_eq!(encode_all(&vec![23, 15, 0], 5), vec![23u64 << 59, 15u64 << 59, 0]);
    assert_eq!(decode_all(&vec![23u64 << 59, (15u64 << 59) + 12345, u64::MAX], 5), vec![23, 15, 0]);
    assert_eq!(encode_all(&Vec::new(), 5), Vec::<u64>::new());
    assert_eq!(decode_all(&Vec::new(), 5), Vec::<u64>::new());
}

#[test]
fn decryption_is_linear_in_the_ciphertext() {
    let (mut engine, mut fft) = engines();
    let keys = toy_keys(&mut engine, &mut fft, POLYNOMIAL_SIZE);
    let batch = Batch::new(vec![11, 30], 5).unwrap().encode();
    let batch = batch.encrypt(&mut engine, &keys.secret, &Variance(2f64.powi(-40))).unwrap();
    let mut batch = batch.combine(&mut engine, 0, 1).unwrap();
    // Decrypt the ciphertexts as they are, without refreshing them.
    batch.stage = Stage::Bootstrapped;
    let batch = batch.decrypt(&mut engine, &keys.secret).unwrap();
    let sum = batch.combined_plaintext.unwrap();
    assert_eq!(sum, batch.plaintexts[0].wrapping_add(batch.plaintexts[1]));
    assert_eq!(decode(batch.plaintexts[0], 5), 11);
    assert_eq!(decode(batch.plaintexts[1], 5), 30);
    assert_eq!(decode(sum, 5), (11 + 30) % 32);
    // The plaintexts carry the noise of the encryption.
    assert_ne!(batch.plaintexts[0], encode(11, 5));
}

#[test]
fn decryption_subtracts_the_inner_product_of_mask_and_key() {
    let (mut engine, mut fft) = engines();
    let keys = toy_keys(&mut engine, &mut fft, POLYNOMIAL_SIZE);
    let batch = Batch::new(vec![1, 2, 3], 5).unwrap().encode();
    let mut batch = batch.encrypt(&mut engine, &keys.secret, &quiet()).unwrap();
    // A zero mask leaves the body as it is, whatever the key.
    let mut zero_mask = vec![0u64; POLYNOMIAL_SIZE + 1];
    zero_mask[POLYNOMIAL_SIZE] = 0xABCD_0000_0000_1234;
    batch.ciphertexts[0] = engine.create_lwe_ciphertext_from(zero_mask).unwrap();
    // Masks of a single one pick out single bits of the key.
    let mut first = vec![0u64; POLYNOMIAL_SIZE + 1];
    first[0] = 1;
    first[POLYNOMIAL_SIZE] = 100;
    batch.ciphertexts[1] = engine.create_lwe_ciphertext_from(first).unwrap();
    let mut doubled = vec![0u64; POLYNOMIAL_SIZE + 1];
    doubled[0] = 2;
    doubled[POLYNOMIAL_SIZE] = 200;
    batch.ciphertexts[2] = engine.create_lwe_ciphertext_from(doubled).unwrap();
    batch.stage = Stage::Bootstrapped;
    let batch = batch.decrypt(&mut engine, &keys.secret).unwrap();
    assert_eq!(batch.plaintexts[0], 0xABCD_0000_0000_1234);
    let bit = 100 - batch.plaintexts[1];
    assert!(bit == 0 || bit == 1);
    assert_eq!(batch.plaintexts[2], 200 - 2 * bit);
}

#[test]
fn bootstrap_refuses_an_unsupported_polynomial_size() {
    let (mut engine, mut fft) = engines();
    let keys = toy_keys(&mut engine, &mut fft, POLYNOMIAL_SIZE);
    // Sixteen coefficients are fewer than the transform takes.
    let words = build_accumulator(shifted_down_by_two, 5, 16).unwrap();
    let accumulator = encrypt_accumulator(&mut engine, &keys.bootstrapping, &words).unwrap();
    let batch = Batch::new(vec![6], 5).unwrap().encode();
    let batch = batch.encrypt(&mut engine, &keys.secret, &quiet()).unwrap();
    let batch = batch.key_switch(&mut engine, &keys.key_switching).unwrap();
    match batch.bootstrap(&mut fft, &accumulator, &keys.bootstrapping) {
        Err(PipelineError::Engine(EngineError::Refused { operation, .. })) => {
            assert_eq!(operation, EngineOperation::Bootstrap);
        }
        _ => panic!("an accumulator of sixteen coefficients was accepted"),
    }
}

#[test]
fn bootstrap_refuses_a_key_that_takes_in_another_dimension() {
    let (mut engine, mut fft) = engines();
    let keys = toy_keys(&mut engine, &mut fft, POLYNOMIAL_SIZE);
    let other = toy_keys_sized(&mut engine, &mut fft, 16, POLYNOMIAL_SIZE);
    let accumulator =
        create_accum(shifted_down_by_two, &other.bootstrapping, 5, &mut engine).unwrap();
    let batch = Batch::new(vec![6, 7], 5).unwrap().encode();
    let batch = batch.encrypt(&mut engine, &keys.secret, &quiet()).unwrap();
    let batch = batch.key_switch(&mut engine, &keys.key_switching).unwrap();
    match batch.bootstrap(&mut fft, &accumulator, &other.bootstrapping) {
        Err(PipelineError::Engine(fault)) => {
            assert_eq!(fault.operation(), EngineOperation::Bootstrap);
            assert!(matches!(fault, EngineError::Refused { .. }));
        }
        _ => panic!("copies of dimension 32 were taken in by a key for dimension 16"),
    }
}

#[test]
fn bootstrap_refuses_a_key_that_gives_out_another_dimension() {
    let (mut engine, mut fft) = engines();
    let keys = toy_keys(&mut engine, &mut fft, POLYNOMIAL_SIZE);
    let larger = toy_keys(&mut engine, &mut fft, 512);
    let accumulator =
        create_accum(shifted_down_by_two, &larger.bootstrapping, 5, &mut engine).unwrap();
    let batch = Batch::new(vec![6], 5).unwrap().encode();
    let batch = batch.encrypt(&mut engine, &keys.secret, &quiet()).unwrap();
    let batch = batch.key_switch(&mut engine, &keys.key_switching).unwrap();
    match batch.bootstrap(&mut fft, &accumulator, &larger.bootstrapping) {
        Err(PipelineError::Engine(fault)) => {
            assert_eq!(fault.operation(), EngineOperation::Bootstrap);
        }
        _ => panic!("ciphertexts of dimension 256 were refreshed by a key for dimension 512"),
    }
}

#[test]
fn bootstrap_of_an_empty_batch_succeeds_whatever_the_key() {
    let (mut engine, mut fft) = engines();
    let keys = toy_keys(&mut engine, &mut fft, POLYNOMIAL_SIZE);
    let larger = toy_keys(&mut engine, &mut fft, 512);
    let accumulator =
        create_accum(shifted_down_by_two, &larger.bootstrapping, 5, &mut engine).unwrap();
    let batch = Batch::new(Vec::new(), 5).unwrap().encode();
    let batch = batch.encrypt(&mut engine, &keys.secret, &quiet()).unwrap();
    let batch = batch.key_switch(&mut engine, &larger.key_switching).unwrap();
    let batch = batch.bootstrap(&mut fft, &accumulator, &keys.bootstrapping).unwrap();
    assert_eq!(batch.stage, Stage::Bootstrapped);
}

#[test]
fn combination_succeeds_for_every_pair() {
    let (mut engine, mut fft) = engines();
    let keys = toy_keys(&mut engine, &mut fft, POLYNOMIAL_SIZE);
    for (left, right) in [(0usize, 0usize), (0, 2), (2, 1), (1, 1)] {
        let batch = Batch::new(vec![1, 2, 3], 5).unwrap().encode();
        let batch = batch.encrypt(&mut engine, &keys.secret, &quiet()).unwrap();
        let batch = batch.combine(&mut engine, left, right).unwrap();
        assert_eq!(batch.stage, Stage::Combined);
    }
}

#[test]
fn evaluation_ends_at_the_key_switch_when_its_key_does_not_fit() {
    let (mut engine, mut fft) = engines();
    let keys = toy_keys(&mut engine, &mut fft, POLYNOMIAL_SIZE);
    let larger = toy_keys(&mut engine, &mut fft, 512);
    let mixed = KeySet {
        secret: keys.secret.clone(),
        key_switching: larger.key_switching.clone(),
        bootstrapping: keys.bootstrapping.clone(),
    };
    match evaluate(&mut engine, &mut fft, &mixed, &quiet(), vec![3, 4], 5, shifted_down_by_two) {
        Err(PipelineError::Engine(EngineError::Refused { operation, .. })) => {
            assert_eq!(operation, EngineOperation::KeySwitch);
        }
        _ => panic!("keys that do not fit were accepted"),
    }
    // With no message there is nothing to switch or to refresh.
    let report =
        evaluate(&mut engine, &mut fft, &mixed, &quiet(), Vec::new(), 5, shifted_down_by_two)
            .unwrap();
    assert!(report.outputs.is_empty());
    assert_eq!(report.sum, None);
}

#[test]
fn evaluation_ends_at_the_bootstrap_when_its_key_does_not_fit() {
    let (mut engine, mut fft) = engines();
    let keys = toy_keys(&mut engine, &mut fft, POLYNOMIAL_SIZE);
    let other = toy_keys_sized(&mut engine, &mut fft, 16, POLYNOMIAL_SIZE);
    let mixed = KeySet {
        secret: keys.secret.clone(),
        key_switching: keys.key_switching.clone(),
        bootstrapping: other.bootstrapping.clone(),
    };
    match evaluate(&mut engine, &mut fft, &mixed, &quiet(), vec![3], 5, shifted_down_by_two) {
        Err(PipelineError::Engine(EngineError::Refused { operation, .. })) => {
            assert_eq!(operation, EngineOperation::Bootstrap);
        }
        _ => panic!("keys that do not fit were accepted"),
    }
    let larger = toy_keys(&mut engine, &mut fft, 512);
    let mixed = KeySet {
        secret: keys.secret.clone(),
        key_switching: keys.key_switching.clone(),
        bootstrapping: larger.bootstrapping.clone(),
    };
    match evaluate(&mut engine, &mut fft, &mixed, &quiet(), vec![3], 5, shifted_down_by_two) {
        Err(PipelineError::Engine(fault)) => {
            assert_eq!(fault.operation(), EngineOperation::Bootstrap);
        }
        _ => panic!("keys that do not fit were accepted"),
    }
}
