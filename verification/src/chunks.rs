//! How a lane is cut into chunks, and how one chunk is converted.
//!
//! A lane that enters the rho step is written in base 13 and leaves it in base 9,
//! rotated. Digit 0 is treated apart. The digits from 1 up to `LANE_SIZE` are
//! consumed in chunks of at most four, and no chunk reaches over the digit that
//! the rotation sends to position 0.

use vstd::prelude::*;

use crate::natural::Natural;
use crate::power::power;

verus! {

/// The base in which a lane enters the rho step.
pub const B13: u64 = 13;

/// The base in which a lane leaves the rho step.
pub const B9: u64 = 9;

/// The number of bits of a Keccak lane.
pub const LANE_SIZE: u32 = 64;

/// The largest number of digits in a chunk.
pub const BASE_NUM_OF_CHUNKS: u32 = 4;

/// The number of digits from `chunk_idx` on that form one chunk: four, unless the
/// rotation offset or the end of the lane comes earlier.
pub open spec fn step_size(chunk_idx: nat, rotation: nat) -> nat {
    let offset = LANE_SIZE - rotation;
    if chunk_idx < offset < chunk_idx + BASE_NUM_OF_CHUNKS {
        (offset - chunk_idx) as nat
    } else if chunk_idx < LANE_SIZE < chunk_idx + BASE_NUM_OF_CHUNKS {
        (LANE_SIZE - chunk_idx) as nat
    } else {
        BASE_NUM_OF_CHUNKS as nat
    }
}

pub fn get_step_size(chunk_idx: u32, rotation: u32) -> (step: u32)
    requires
        chunk_idx <= LANE_SIZE,
        rotation <= LANE_SIZE,
    ensures
        step == step_size(chunk_idx as nat, rotation as nat),
        1 <= step <= BASE_NUM_OF_CHUNKS,
{
    let offset: u32 = LANE_SIZE - rotation;
    if chunk_idx < offset && offset < chunk_idx + BASE_NUM_OF_CHUNKS {
        offset - chunk_idx
    } else if chunk_idx < LANE_SIZE && LANE_SIZE < chunk_idx + BASE_NUM_OF_CHUNKS {
        LANE_SIZE - chunk_idx
    } else {
        BASE_NUM_OF_CHUNKS
    }
}

/// Whether the digit at `chunk_idx` is the one that the rotation sends to
/// position 0.
pub fn is_at_rotation_offset(chunk_idx: u32, rotation: u32) -> (answer: bool)
    requires
        rotation <= LANE_SIZE,
    ensures
        answer == (chunk_idx == LANE_SIZE - rotation),
{
    chunk_idx == LANE_SIZE - rotation
}

/// The chunks of a lane from the digit `chunk_idx` on, each with the index of its
/// first digit and its number of digits.
pub open spec fn slices_from(chunk_idx: nat, rotation: nat) -> Seq<(nat, nat)>
    decreases LANE_SIZE - chunk_idx,
    when rotation <= LANE_SIZE
{
    if chunk_idx < LANE_SIZE {
        let step = step_size(chunk_idx, rotation);
        seq![(chunk_idx, step)] + slices_from(chunk_idx + step, rotation)
    } else {
        seq![]
    }
}

/// Whether a list of chunks covers the digits from `start` up to `LANE_SIZE` without gap
/// or overlap, each chunk has one to four digits, and none reaches over the digit that
/// the rotation sends to position 0.
pub open spec fn tiles(slices: Seq<(nat, nat)>, start: nat, rotation: nat) -> bool {
    &&& slices.len() > 0
    &&& slices[0].0 == start
    &&& slices.last().0 + slices.last().1 == LANE_SIZE
    &&& forall|i: int|
        0 <= i < slices.len() - 1 ==> #[trigger] slices[i + 1].0 == slices[i].0 + slices[i].1
    &&& forall|i: int|
        0 <= i < slices.len() ==> {
            &&& 1 <= (#[trigger] slices[i]).1 <= BASE_NUM_OF_CHUNKS
            &&& !(slices[i].0 < LANE_SIZE - rotation < slices[i].0 + slices[i].1)
        }
}

/// The chunks of a lane tile its digits from any digit on, whatever the rotation.
pub proof fn law_chunks_tile(chunk_idx: nat, rotation: nat)
    requires
        rotation <= LANE_SIZE,
        chunk_idx < LANE_SIZE,
    ensures
        tiles(slices_from(chunk_idx, rotation), chunk_idx, rotation),
    decreases LANE_SIZE - chunk_idx,
{
    let step = step_size(chunk_idx, rotation);
    let after = chunk_idx + step;
    let rest = slices_from(after, rotation);
    let slices = slices_from(chunk_idx, rotation);
    if after < LANE_SIZE {
        law_chunks_tile(after, rotation);
        assert forall|i: int| 0 <= i < slices.len() - 1 implies #[trigger] slices[i + 1].0
            == slices[i].0 + slices[i].1 by {
            assert(slices[i + 1] == rest[i]);
            if i > 0 {
                assert(slices[i] == rest[i - 1]);
                assert(rest[i - 1 + 1].0 == rest[i - 1].0 + rest[i - 1].1);
            }
        }
        assert forall|i: int| 0 <= i < slices.len() implies {
            &&& 1 <= (#[trigger] slices[i]).1 <= BASE_NUM_OF_CHUNKS
            &&& !(slices[i].0 < LANE_SIZE - rotation < slices[i].0 + slices[i].1)
        } by {
            if i > 0 {
                assert(slices[i] == rest[i - 1]);
            }
        }
        assert(slices.last() == rest.last());
    } else {
        assert(slices =~= seq![(chunk_idx, step)]);
    }
}

/// A list of chunks as numbers.
pub open spec fn slices_view(slices: Seq<(u32, u32)>) -> Seq<(nat, nat)> {
    slices.map_values(|slice: (u32, u32)| (slice.0 as nat, slice.1 as nat))
}

/// The chunks of a lane, from digit 1 on.
pub fn slice_lane(rotation: u32) -> (slices: Vec<(u32, u32)>)
    requires
        rotation <= LANE_SIZE,
    ensures
        slices_view(slices@) == slices_from(1, rotation as nat),
{
    let mut slices: Vec<(u32, u32)> = Vec::new();
    let mut chunk_idx: u32 = 1;
    assert(slices_view(slices@) + slices_from(1, rotation as nat) =~= slices_from(
        1,
        rotation as nat,
    ));
    while chunk_idx < LANE_SIZE
        invariant
            rotation <= LANE_SIZE,
            1 <= chunk_idx <= LANE_SIZE,
            slices_view(slices@) + slices_from(chunk_idx as nat, rotation as nat) == slices_from(
                1,
                rotation as nat,
            ),
        decreases LANE_SIZE - chunk_idx,
    {
        let step = get_step_size(chunk_idx, rotation);
        let ghost before = slices@;
        slices.push((chunk_idx, step));
        assert(slices_view(slices@) =~= slices_view(before) + seq![
            (chunk_idx as nat, step as nat),
        ]);
        assert(slices_view(slices@) + slices_from((chunk_idx + step) as nat, rotation as nat)
            =~= slices_view(before) + slices_from(chunk_idx as nat, rotation as nat));
        chunk_idx = chunk_idx + step;
    }
    assert(slices_view(slices@) + slices_from(chunk_idx as nat, rotation as nat) =~= slices_view(
        slices@,
    ));
    slices
}

/// A digit of base 13 stands for its parity.
pub fn convert_b13_coef(coef: u64) -> (bit: u64)
    ensures
        bit == coef % 2,
{
    coef % 2
}

/// `number` with each of its base 13 digits replaced by its parity, read in base 9.
pub open spec fn reencode(number: nat) -> nat
    decreases number,
{
    if number == 0 {
        0
    } else {
        (number % 13) % 2 + 9 * reencode(number / 13)
    }
}

/// The number of base 13 digits of `number`, without leading zeros.
pub open spec fn digit_count(number: nat) -> nat
    decreases number,
{
    if number == 0 {
        0
    } else {
        1 + digit_count(number / 13)
    }
}

/// What a chunk with `digits` digits costs. One of two digits costs 1, and no
/// twelve of those reach what one of three costs; no thirteen of three digits
/// reach what one of four costs.
pub open spec fn block_cost(digits: nat) -> nat {
    if digits <= 1 {
        0
    } else if digits == 2 {
        1
    } else if digits == 3 {
        13
    } else {
        170
    }
}

pub fn block_counting_function(digits: usize) -> (cost: u32)
    requires
        digits <= 4,
    ensures
        cost == block_cost(digits as nat),
{
    if digits <= 1 {
        0
    } else if digits == 2 {
        1
    } else if digits == 3 {
        13
    } else {
        170
    }
}

/// The block count of one chunk, and the chunk converted to base 9.
pub fn get_block_count_and_output_coef(input_coef: &Natural) -> (counted: (u32, u64))
    requires
        input_coef@ < power(13, 4),
    ensures
        counted.0 == block_cost(digit_count(input_coef@)),
        counted.1 == reencode(input_coef@),
        counted.0 <= 170,
        counted.1 < power(9, 4),
{
    proof {
        reveal_with_fuel(power, 5);
        assert(power(13, 4) == 28561);
        assert(power(9, 4) == 6561);
    }
    let small = input_coef.to_u64();
    let coef: u64 = match small {
        Some(coef) => coef,
        None => 0,
    };
    let d0: u64 = coef % B13;
    let r1: u64 = coef / B13;
    let d1: u64 = r1 % B13;
    let r2: u64 = r1 / B13;
    let d2: u64 = r2 % B13;
    let d3: u64 = r2 / B13;
    proof {
        reveal_with_fuel(reencode, 6);
        reveal_with_fuel(digit_count, 6);
    }
    let output_coef: u64 = convert_b13_coef(d0) + B9 * (convert_b13_coef(d1) + B9 * (
    convert_b13_coef(d2) + B9 * convert_b13_coef(d3)));
    let digits: usize = if d3 > 0 {
        4
    } else if d2 > 0 {
        3
    } else if r1 > 0 {
        2
    } else if d0 > 0 {
        1
    } else {
        0
    };
    (block_counting_function(digits), output_coef)
}

} // verus!
