use pbs_lookup::accumulator::{
    assemble_accumulator, build_accumulator, fill_boxes, modulus_sup, negate_prefix, rotated_left,
    tabulate,
};
use pbs_lookup::encoding::{decode, encode};
use pbs_lookup::error::ConfigurationError;

fn shifted_down_by_two(value: u64) -> u64 {
    value.wrapping_sub(2) % 16
}

/// The construction written out step by step on a plain vector: fill the
/// boxes, negate the first half box, rotate to the left by half a box.
fn step_by_step(func: fn(u64) -> u64, bit_precision: usize, polynomial_size: usize) -> Vec<u64> {
    let scale = 1u64 << (64 - bit_precision);
    let boxes = 1usize << (bit_precision - 1);
    let box_size = polynomial_size / boxes;
    let half_box = box_size / 2;
    let mut words = vec![0u64; polynomial_size];
    for i in 0..boxes {
        for word in words[i * box_size..(i + 1) * box_size].iter_mut() {
            *word = func(i as u64).wrapping_mul(scale);
        }
    }
    for word in words[0..half_box].iter_mut() {
        *word = word.wrapping_neg();
    }
    words.rotate_left(half_box);
    words
}

/// What a rotation by `rotation` places of the full turn reads from an accumulator.
fn rotated_coefficient(accumulator: &[u64], rotation: usize) -> u64 {
    if rotation < accumulator.len() {
        accumulator[rotation]
    } else {
        accumulator[rotation - accumulator.len()].wrapping_neg()
    }
}

#[test]
fn number_of_boxes_is_half_the_message_space() {
    assert_eq!(modulus_sup(5), 16);
    assert_eq!(modulus_sup(1), 1);
    assert_eq!(modulus_sup(2), 2);
    assert_eq!(modulus_sup(64), 1u64 << 63);
}

#[test]
fn tabulate_evaluates_the_function_on_every_box_index() {
    assert_eq!(tabulate(|x: u64| x * x + 1, 3), vec![1, 2, 5, 10]);
    assert_eq!(tabulate(|x: u64| x + 7, 1), vec![7]);
    assert_eq!(
        tabulate(shifted_down_by_two, 5),
        vec![14, 15, 0, 1, 2, 3, 4, 5, 6, 7, 8, 9, 10, 11, 12, 13]
    );
}

#[test]
fn fill_boxes_repeats_each_encoded_value() {
    let filled = fill_boxes(&vec![1, 2, 3], 3, 2);
    let step = 1u64 << 61;
    assert_eq!(filled, vec![step, step, 2 * step, 2 * step, 3 * step, 3 * step]);
    assert_eq!(fill_boxes(&vec![1, 2, 3], 3, 0), Vec::<u64>::new());
    assert_eq!(fill_boxes(&Vec::new(), 3, 4), Vec::<u64>::new());
}

#[test]
fn negate_prefix_negates_only_the_prefix() {
    let mut words = vec![1u64, 0, 5, 7];
    negate_prefix(&mut words, 3);
    assert_eq!(words, vec![u64::MAX, 0, u64::MAX - 4, 7]);
    negate_prefix(&mut words, 0);
    assert_eq!(words, vec![u64::MAX, 0, u64::MAX - 4, 7]);
}

#[test]
fn rotated_left_moves_the_front_to_the_back() {
    assert_eq!(rotated_left(&vec![1, 2, 3, 4, 5], 2), vec![3, 4, 5, 1, 2]);
    assert_eq!(rotated_left(&vec![1, 2, 3], 0), vec![1, 2, 3]);
    assert_eq!(rotated_left(&vec![1, 2, 3], 3), vec![1, 2, 3]);
    assert_eq!(rotated_left(&Vec::new(), 0), Vec::<u64>::new());
}

#[test]
fn accumulator_of_a_small_table() {
    // Four boxes of four slots; half a box is two slots.
    let step = 1u64 << 61;
    let accumulator = assemble_accumulator(&vec![1, 2, 3, 0], 3, 16).unwrap();
    let minus_one = step.wrapping_neg();
    assert_eq!(
        accumulator,
        vec![
            step,
            step,
            2 * step,
            2 * step,
            2 * step,
            2 * step,
            3 * step,
            3 * step,
            3 * step,
            3 * step,
            0,
            0,
            0,
            0,
            minus_one,
            minus_one,
        ]
    );
}

#[test]
fn accumulator_with_boxes_of_one_slot_is_the_encoded_table() {
    let step = 1u64 << 61;
    let accumulator = assemble_accumulator(&vec![1, 2, 3, 0], 3, 4).unwrap();
    assert_eq!(accumulator, vec![step, 2 * step, 3 * step, 0]);
}

#[test]
fn accumulator_with_odd_boxes_rounds_half_a_box_down() {
    let step = 1u64 << 62;
    let accumulator = assemble_accumulator(&vec![1, 3], 2, 6).unwrap();
    assert_eq!(
        accumulator,
        vec![step, step, 3 * step, 3 * step, 3 * step, step.wrapping_neg()]
    );
}

#[test]
fn build_accumulator_follows_the_construction_step_by_step() {
    for (bit_precision, polynomial_size) in [(5usize, 256usize), (5, 1024), (3, 32), (1, 8), (4, 8)] {
        let built = build_accumulator(shifted_down_by_two, bit_precision, polynomial_size).unwrap();
        assert_eq!(built, step_by_step(shifted_down_by_two, bit_precision, polynomial_size));
    }
}

#[test]
fn build_accumulator_agrees_with_assembling_the_table() {
    let table = tabulate(shifted_down_by_two, 5);
    assert_eq!(
        build_accumulator(shifted_down_by_two, 5, 512),
        assemble_accumulator(&table, 5, 512)
    );
}

#[test]
fn build_accumulator_of_no_slots_is_empty() {
    assert_eq!(build_accumulator(shifted_down_by_two, 5, 0), Ok(Vec::new()));
}

#[test]
fn zero_precision_is_rejected() {
    assert_eq!(build_accumulator(shifted_down_by_two, 0, 256), Err(ConfigurationError::Precision));
    assert_eq!(assemble_accumulator(&vec![0], 0, 256), Err(ConfigurationError::Precision));
}

#[test]
fn precision_wider_than_a_word_is_rejected() {
    assert_eq!(build_accumulator(shifted_down_by_two, 65, 256), Err(ConfigurationError::Precision));
    assert_eq!(assemble_accumulator(&vec![0], 65, 256), Err(ConfigurationError::Precision));
}

#[test]
fn polynomial_size_must_be_a_multiple_of_the_number_of_boxes() {
    for polynomial_size in [1usize, 8, 15, 17, 100, 250, 1000] {
        assert_eq!(
            build_accumulator(shifted_down_by_two, 5, polynomial_size),
            Err(ConfigurationError::BoxAlignment)
        );
    }
    assert_eq!(build_accumulator(shifted_down_by_two, 10, 256), Err(ConfigurationError::BoxAlignment));
    assert_eq!(build_accumulator(shifted_down_by_two, 64, 1024), Err(ConfigurationError::BoxAlignment));
    assert_eq!(assemble_accumulator(&vec![0; 16], 5, 100), Err(ConfigurationError::BoxAlignment));
}

#[test]
fn table_must_hold_one_value_for_each_box() {
    assert_eq!(assemble_accumulator(&vec![0; 15], 5, 256), Err(ConfigurationError::TableSize));
    assert_eq!(assemble_accumulator(&vec![0; 17], 5, 256), Err(ConfigurationError::TableSize));
    assert_eq!(assemble_accumulator(&Vec::new(), 5, 0), Err(ConfigurationError::TableSize));
}

#[test]
fn every_rotation_reads_the_value_of_its_box() {
    let (bit_precision, polynomial_size) = (5usize, 256usize);
    let boxes = 16usize;
    let box_size = polynomial_size / boxes;
    let half_box = box_size / 2;
    let table = tabulate(shifted_down_by_two, bit_precision);
    let accumulator = assemble_accumulator(&table, bit_precision, polynomial_size).unwrap();
    for rotation in 0..2 * polynomial_size {
        let box_index = ((rotation + half_box) % (2 * polynomial_size)) / box_size;
        let read = rotated_coefficient(&accumulator, rotation);
        if box_index < boxes {
            assert_eq!(read, encode(table[box_index], bit_precision));
            assert_eq!(decode(read, bit_precision), table[box_index] % 32);
        } else {
            assert_eq!(read, encode(table[box_index - boxes], bit_precision).wrapping_neg());
            assert_eq!(decode(read, bit_precision), (32 - table[box_index - boxes] % 32) % 32);
        }
    }
}

#[test]
fn every_message_rotates_into_its_own_box() {
    let (bit_precision, polynomial_size) = (5usize, 256usize);
    let box_size = 16i64;
    let half_box = 8i64;
    let table = tabulate(shifted_down_by_two, bit_precision);
    let accumulator = assemble_accumulator(&table, bit_precision, polynomial_size).unwrap();
    for message in 0..32i64 {
        for offset in -half_box..(box_size - half_box) {
            let rotation = (message * box_size + offset).rem_euclid(2 * polynomial_size as i64);
            let read = rotated_coefficient(&accumulator, rotation as usize);
            let value = table[(message % 16) as usize];
            let expected = if message < 16 { value } else { (32 - value) % 32 };
            assert_eq!(decode(read, bit_precision), expected);
        }
    }
}
