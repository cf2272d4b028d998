use num_bigint::BigUint;
use rho_call::chunks::{
    block_counting_function, convert_b13_coef, get_block_count_and_output_coef, get_step_size,
    is_at_rotation_offset, slice_lane, LANE_SIZE,
};
use rho_call::natural::Natural;
use rho_call::rotation::{biguint_mod, RotatingVariables};

fn natural(number: &BigUint) -> Natural {
    Natural { limbs: number.to_u32_digits() }
}

fn big(number: &Natural) -> BigUint {
    BigUint::from_slice(&number.limbs)
}

fn small(number: &Natural) -> u64 {
    number.to_u64().unwrap()
}

/// The lane with the given base 13 digits, least significant first.
fn lane_of(digits: &[u32]) -> BigUint {
    let mut lane = BigUint::from(0u32);
    for digit in digits.iter().rev() {
        lane = lane * 13u32 + *digit;
    }
    lane
}

/// Digits that differ from place to place, with a zero where the last chunk starts.
fn sample_digits(rotation: u32) -> Vec<u32> {
    let mut digits: Vec<u32> = (0..LANE_SIZE).map(|i| (7 * i + 3) % 13).collect();
    let (last, _) = *slice_lane(rotation).last().unwrap();
    digits[last as usize] = 0;
    digits
}

/// The parities of the digits, each at its rotated place, in base 9.
fn expected_output(digits: &[u32], rotation: u32) -> BigUint {
    let mut output = BigUint::from(0u32);
    for (i, digit) in digits.iter().enumerate() {
        let place = (i as u32 + rotation) % LANE_SIZE;
        output += BigUint::from(9u32).pow(place) * (digit % 2);
    }
    output
}

fn run(lane: &BigUint, rotation: u32) -> RotatingVariables {
    let mut rv = RotatingVariables::from(natural(lane), rotation).unwrap();
    while rv.chunk_idx < LANE_SIZE {
        assert!(rv.can_advance());
        rv = rv.next();
    }
    rv
}

#[test]
fn step_sizes() {
    assert_eq!(get_step_size(1, 0), 4);
    assert_eq!(get_step_size(61, 0), 3);
    assert_eq!(get_step_size(64, 0), 4);
    // the rotation offset is at digit 2
    assert_eq!(get_step_size(1, 62), 1);
    assert_eq!(get_step_size(2, 62), 4);
    assert_eq!(get_step_size(62, 62), 2);
    assert_eq!(get_step_size(25, 36), 3);
    assert_eq!(get_step_size(28, 36), 4);
}

#[test]
fn rotation_offsets() {
    assert!(is_at_rotation_offset(64, 0));
    assert!(is_at_rotation_offset(28, 36));
    assert!(!is_at_rotation_offset(27, 36));
    assert!(!is_at_rotation_offset(29, 36));
}

#[test]
fn lanes_are_cut_at_the_rotation_offset() {
    let whole = slice_lane(0);
    assert_eq!(whole.len(), 16);
    assert_eq!(whole[0], (1, 4));
    assert_eq!(whole[15], (61, 3));

    let late = slice_lane(62);
    assert_eq!(late[0], (1, 1));
    assert_eq!(late[1], (2, 4));
    assert_eq!(*late.last().unwrap(), (62, 2));

    let middle = slice_lane(36);
    assert_eq!(middle[6], (25, 3));
    assert_eq!(middle[7], (28, 4));
    for rotation in 0..LANE_SIZE {
        let mut next = 1;
        for (chunk_idx, step) in slice_lane(rotation) {
            assert_eq!(chunk_idx, next);
            assert!(1 <= step && step <= 4);
            let offset = LANE_SIZE - rotation;
            assert!(offset <= chunk_idx || chunk_idx + step <= offset);
            next = chunk_idx + step;
        }
        assert_eq!(next, LANE_SIZE);
    }
}

#[test]
fn digits_become_their_parity() {
    assert_eq!(convert_b13_coef(0), 0);
    assert_eq!(convert_b13_coef(1), 1);
    assert_eq!(convert_b13_coef(12), 0);
    assert_eq!(convert_b13_coef(11), 1);
}

#[test]
fn block_costs() {
    let costs: Vec<u32> = (0..5).map(|digits| block_counting_function(digits)).collect();
    assert_eq!(costs, vec![0, 0, 1, 13, 170]);
}

#[test]
fn chunks_are_counted_and_converted() {
    let cases: [(u64, (u32, u64)); 9] = [
        (0, (0, 0)),
        (5, (0, 1)),
        (12, (0, 0)),
        (13, (1, 9)),
        (14, (1, 10)),
        (169, (13, 81)),
        (169 + 13 + 1, (13, 91)),
        (2197, (170, 729)),
        (28560, (170, 0)),
    ];
    for (coef, counted) in cases {
        assert_eq!(get_block_count_and_output_coef(&Natural::from_u64(coef)), counted);
    }
}

#[test]
fn remainders() {
    assert_eq!(biguint_mod(&Natural::power_of(13, 64), 13), 0);
    assert_eq!(biguint_mod(&Natural::from_u64(29), 13), 3);
}

#[test]
fn first_chunk() {
    // digits 5, 1, 2, 3, 4, 1
    let lane = 5 + 13 * (1 + 13 * (2 + 13 * (3 + 13 * (4 + 13))));
    let rv = RotatingVariables::from(Natural::from_u64(lane), 36).unwrap();
    assert_eq!((rv.rotation, rv.chunk_idx, rv.step), (36, 1, 4));
    assert_eq!(small(&rv.input_raw), lane / 13);
    assert_eq!(small(&rv.input_coef), 1 + 13 * (2 + 13 * (3 + 13 * 4)));
    assert_eq!(small(&rv.input_power_of_base), 13);
    assert_eq!(small(&rv.input_acc), lane);
    assert_eq!(small(&rv.output_coef), 1 + 81);
    assert_eq!(big(&rv.output_power_of_base), BigUint::from(9u32).pow(37));
    assert_eq!(small(&rv.output_acc), 0);
    assert_eq!(rv.block_count, Some(170));
    assert_eq!(rv.block_count_acc, [0, 0]);
    assert_eq!(rv.low_value, 5);
    assert_eq!(rv.high_value, None);
}

#[test]
fn first_chunk_at_the_rotation_offset() {
    let rv = RotatingVariables::from(Natural::from_u64(13), 63).unwrap();
    assert_eq!((rv.chunk_idx, rv.step), (1, 4));
    assert_eq!(small(&rv.output_power_of_base), 1);
}

#[test]
fn first_chunk_counts_into_the_sum_of_its_step() {
    // rotation 61: the rotation offset is at digit 3, so the first chunk has two digits
    let rv = RotatingVariables::from(Natural::from_u64(13 * 13), 61).unwrap();
    assert_eq!(rv.step, 2);
    assert_eq!(rv.block_count, Some(1));
    assert_eq!(rv.block_count_acc, [1, 0]);
    // rotation 60: three digits
    let rv = RotatingVariables::from(Natural::from_u64(13 * 13 * 13), 60).unwrap();
    assert_eq!(rv.step, 3);
    assert_eq!(rv.block_count, Some(13));
    assert_eq!(rv.block_count_acc, [0, 13]);
}

#[test]
fn second_chunk() {
    let lane = 5 + 13 * (1 + 13 * (2 + 13 * (3 + 13 * (4 + 13))));
    let rv = RotatingVariables::from(Natural::from_u64(lane), 36).unwrap().next();
    assert_eq!((rv.chunk_idx, rv.step), (5, 4));
    assert_eq!(small(&rv.input_raw), 1);
    assert_eq!(small(&rv.input_coef), 1);
    assert_eq!(small(&rv.input_power_of_base), 13u64.pow(5));
    assert_eq!(small(&rv.input_acc), 5 + 13u64.pow(5));
    assert_eq!(small(&rv.output_coef), 1);
    assert_eq!(big(&rv.output_power_of_base), BigUint::from(9u32).pow(41));
    assert_eq!(big(&rv.output_acc), BigUint::from(9u32).pow(37) * 82u32);
    assert_eq!(rv.block_count, Some(0));
}

#[test]
fn a_later_block_count_joins_the_sum_of_the_step_before() {
    // rotation 61: a chunk of two digits, then one of four
    let lane = natural(&lane_of(&[0, 0, 0, 1, 1, 0, 0]));
    let first = RotatingVariables::from(lane, 61).unwrap();
    assert_eq!(first.step, 2);
    assert_eq!(first.block_count_acc, [0, 0]);
    let second = first.next();
    assert_eq!(second.block_count, Some(1));
    assert_eq!(second.block_count_acc, [1, 0]);
}

#[test]
fn a_full_chunk_after_a_short_one_exceeds_its_sum() {
    let second = RotatingVariables::from(Natural::power_of(13, 6), 61).unwrap().next();
    assert_eq!(second.step, 4);
    assert_eq!(second.block_count, Some(170));
    assert_eq!(second.block_count_acc, [170, 0]);
}

#[test]
fn special_chunk() {
    let digits = sample_digits(36);
    let rv = run(&lane_of(&digits), 36);
    assert_eq!(rv.chunk_idx, 64);
    assert_eq!(rv.block_count, None);
    assert_eq!(rv.high_value, Some(0));
    assert_eq!(rv.low_value, 3);
    assert_eq!(small(&rv.input_acc), 3);
    assert_eq!(small(&rv.output_coef), 1);
    assert_eq!(big(&rv.output_power_of_base), BigUint::from(9u32).pow(36));
    assert!(!rv.can_advance());
}

#[test]
fn lanes_are_rotated_and_converted() {
    for rotation in 0..LANE_SIZE {
        let digits = sample_digits(rotation);
        let rv = run(&lane_of(&digits), rotation).finalize();
        assert_eq!(big(&rv.output_acc), expected_output(&digits, rotation));
    }
}

#[test]
fn output_digits_are_moved_parities() {
    let digits = sample_digits(15);
    let output = big(&run(&lane_of(&digits), 15).finalize().output_acc);
    assert!(output < BigUint::from(9u32).pow(64));
    for (i, digit) in digits.iter().enumerate() {
        let place = (i as u32 + 15) % LANE_SIZE;
        let found = (output.clone() / BigUint::from(9u32).pow(place)) % 9u32;
        assert_eq!(found, BigUint::from(digit % 2));
    }
}

#[test]
fn variables_track_the_lane_at_every_chunk() {
    let digits = sample_digits(3);
    let lane = lane_of(&digits);
    let mut rv = RotatingVariables::from(natural(&lane), 3).unwrap();
    while rv.chunk_idx < LANE_SIZE {
        let place = BigUint::from(13u32).pow(rv.chunk_idx);
        assert_eq!(big(&rv.input_power_of_base), place);
        assert_eq!(big(&rv.input_raw), lane.clone() / place.clone());
        assert_eq!(big(&rv.input_acc), lane.clone() % 13u32 + place.clone() * (lane.clone() / place));
        assert_eq!(
            big(&rv.output_power_of_base),
            BigUint::from(9u32).pow((rv.chunk_idx + 3) % LANE_SIZE)
        );
        rv = rv.next();
    }
}

#[test]
fn the_witness_is_bounded_by_the_two_lanes() {
    let digits = sample_digits(21);
    let lane = lane_of(&digits);
    let output = expected_output(&digits, 21);
    let mut rv = RotatingVariables::from(natural(&lane), 21).unwrap();
    while rv.chunk_idx < LANE_SIZE {
        assert!(big(&rv.input_coef) <= lane);
        assert!(big(&rv.input_acc) <= lane);
        assert!(big(&rv.output_coef) <= output);
        assert!(big(&rv.output_acc) <= output);
        rv = rv.next();
    }
    assert!(small(&rv.output_coef) <= 1);
}

#[test]
fn finalizing_adds_the_current_chunk() {
    let rv = RotatingVariables::from(Natural::from_u64(13), 0).unwrap();
    let done = rv.finalize();
    assert_eq!(small(&done.output_acc), 9);
    assert_eq!(done.chunk_idx, rv.chunk_idx);
    assert_eq!(done.block_count, rv.block_count);
}

#[test]
fn the_last_step_needs_a_short_lane() {
    // a digit at LANE_SIZE is left over
    let mut digits = sample_digits(0);
    digits.push(1);
    let mut rv = RotatingVariables::from(natural(&lane_of(&digits)), 0).unwrap();
    for _ in 0..15 {
        assert!(rv.can_advance());
        rv = rv.next();
    }
    assert_eq!(rv.chunk_idx, 61);
    assert!(!rv.can_advance());
}

#[test]
fn the_last_step_needs_a_zero_at_the_start_of_the_last_chunk() {
    let mut digits = sample_digits(0);
    digits[61] = 1;
    let mut rv = RotatingVariables::from(natural(&lane_of(&digits)), 0).unwrap();
    for _ in 0..15 {
        rv = rv.next();
    }
    assert!(!rv.can_advance());
}
