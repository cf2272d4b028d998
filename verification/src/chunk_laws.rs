//! What a chunk is, what it is converted to, and what it counts.

use vstd::arithmetic::div_mod::*;
use vstd::prelude::*;

use crate::chunks::{
    block_cost, digit_count, law_chunks_tile, reencode, slices_from, step_size,
};
use crate::lane_config::rotation_constant;
use crate::power::{lemma_power_monotone, lemma_power_positive, power};
use crate::rotation::RotatingState;
use crate::rotation_laws::{
    accepted_lane, chunk_count, last_chunk, law_lane_runs, state_after,
};
use crate::tables::{
    base_13_to_base_9_rows, special_chunk_row, special_chunk_rows, special_chunk_rows_at,
    CHUNK_VALUES,
};

verus! {

/// A chunk takes four digits, unless the rotation offset or the end of the lane comes
/// earlier: then it ends right there.
pub proof fn law_step_size(chunk_idx: nat, rotation: nat)
    requires
        rotation <= 64,
        chunk_idx <= 64,
    ensures
        1 <= step_size(chunk_idx, rotation) <= 4,
        !(chunk_idx < 64 - rotation < chunk_idx + step_size(chunk_idx, rotation)),
        chunk_idx < 64 ==> chunk_idx + step_size(chunk_idx, rotation) <= 64,
        step_size(chunk_idx, rotation) < 4 ==> chunk_idx + step_size(chunk_idx, rotation) == 64
            - rotation || chunk_idx + step_size(chunk_idx, rotation) == 64,
{
}

/// No chunk of a lane can be made longer: each has four digits, or ends at the rotation
/// offset, or ends with the lane.
pub proof fn law_chunks_are_longest(chunk_idx: nat, rotation: nat, i: int)
    requires
        rotation <= 64,
        chunk_idx < 64,
        0 <= i < slices_from(chunk_idx, rotation).len(),
    ensures
        ({
            let slice = slices_from(chunk_idx, rotation)[i];
            slice.1 == 4 || slice.0 + slice.1 == 64 - rotation || slice.0 + slice.1 == 64
        }),
    decreases 64 - chunk_idx,
{
    let step = step_size(chunk_idx, rotation);
    let rest = slices_from(chunk_idx + step, rotation);
    if i > 0 {
        assert(slices_from(chunk_idx, rotation)[i] == rest[i - 1]);
        law_chunks_are_longest(chunk_idx + step, rotation, i - 1);
    }
}

/// What a chunk counts, by how large it is.
pub open spec fn chunk_cost(chunk: nat) -> nat {
    if chunk < 13 {
        0
    } else if chunk < 169 {
        1
    } else if chunk < 2197 {
        13
    } else {
        170
    }
}

/// A chunk of at most one digit counts nothing, one of two digits 1, one of three 13 and
/// one of four 170.
pub proof fn law_block_cost(chunk: nat)
    requires
        chunk < 28561,
    ensures
        chunk < 13 ==> block_cost(digit_count(chunk)) == 0,
        13 <= chunk < 169 ==> block_cost(digit_count(chunk)) == 1,
        169 <= chunk < 2197 ==> block_cost(digit_count(chunk)) == 13,
        2197 <= chunk ==> block_cost(digit_count(chunk)) == 170,
        block_cost(digit_count(chunk)) == chunk_cost(chunk),
{
    reveal_with_fuel(digit_count, 6);
}

/// A chunk is converted digit by digit: each of its four base 13 digits becomes its
/// parity, in base 9.
pub proof fn law_reencode_chunk(chunk: nat)
    requires
        chunk < 28561,
    ensures
        reencode(chunk) == (chunk % 13) % 2 + 9 * (((chunk / 13) % 13) % 2) + 81 * (((chunk / 169)
            % 13) % 2) + 729 * (((chunk / 2197) % 13) % 2),
{
    reveal_with_fuel(reencode, 6);
    let r1 = chunk / 13;
    let r2 = r1 / 13;
    let r3 = r2 / 13;
    assert(r2 == chunk / 169);
    assert(r3 == chunk / 2197);
    assert(r3 < 13);
}

/// The conversion table holds a row for each chunk of up to four digits, and no others: the
/// chunk, its conversion, and what it counts.
pub proof fn law_conversion_table(row: Seq<nat>)
    ensures
        base_13_to_base_9_rows(CHUNK_VALUES as nat).len() == 28561,
        forall|i: int|
            0 <= i < 28561 ==> (#[trigger] base_13_to_base_9_rows(CHUNK_VALUES as nat)[i])[0] == i,
        base_13_to_base_9_rows(CHUNK_VALUES as nat).contains(row) <==> {
            &&& row.len() == 3
            &&& row[0] < 28561
            &&& row[1] == (row[0] % 13) % 2 + 9 * (((row[0] / 13) % 13) % 2) + 81 * (((row[0] / 169)
                % 13) % 2) + 729 * (((row[0] / 2197) % 13) % 2)
            &&& row[0] < 13 ==> row[2] == 0
            &&& 13 <= row[0] < 169 ==> row[2] == 1
            &&& 169 <= row[0] < 2197 ==> row[2] == 13
            &&& 2197 <= row[0] ==> row[2] == 170
        },
{
    let rows = base_13_to_base_9_rows(CHUNK_VALUES as nat);
    if rows.contains(row) {
        let i = choose|i: int| 0 <= i < rows.len() && rows[i] == row;
        law_reencode_chunk(i as nat);
        law_block_cost(i as nat);
        assert(row[0] == i);
    }
    if row.len() == 3 && row[0] < 28561 {
        law_reencode_chunk(row[0]);
        law_block_cost(row[0]);
        let i = row[0] as int;
        assert(rows[i] == seq![i as nat, reencode(i as nat), block_cost(digit_count(i as nat))]);
        if row[1] == rows[i][1] && row[2] == rows[i][2] {
            assert(rows[i] =~= row);
        }
    }
}

/// Each row with a low digit less than `count` is one of two digits that add up to less
/// than 13.
proof fn lemma_special_rows(count: nat, i: int) -> (digits: (nat, nat))
    requires
        count <= 13,
        0 <= i < special_chunk_rows(count).len(),
    ensures
        digits.0 + digits.1 < 13,
        special_chunk_rows(count)[i] == special_chunk_row(digits.0, digits.1),
    decreases count,
{
    let last = (count - 1) as nat;
    let before = special_chunk_rows(last);
    if i < before.len() {
        lemma_special_rows(last, i)
    } else {
        (last, (i - before.len()) as nat)
    }
}

/// The table of the special chunk holds a row for each two digits that add up to less than
/// 13, and no others: the low digit plus the high one at place 64, and the parity of both.
pub proof fn law_special_table(row: Seq<nat>)
    ensures
        special_chunk_rows(13).len() == 91,
        special_chunk_rows(13).contains(row) <==> exists|low: nat, high: nat|
            low + high < 13 && row.len() == 2 && row[0] == low + #[trigger] (high * power(13, 64))
                && row[1] == (#[trigger] (low + high)) % 2,
{
    let rows = special_chunk_rows(13);
    assert(rows.len() == 91) by {
        reveal_with_fuel(special_chunk_rows, 14);
    }
    if rows.contains(row) {
        let i = choose|i: int| 0 <= i < rows.len() && rows[i] == row;
        let (low, high) = lemma_special_rows(13, i);
        assert(row[0] == low + high * power(13, 64));
        assert(row[1] == (low + high) % 2);
    }
    if exists|low: nat, high: nat|
        low + high < 13 && row.len() == 2 && row[0] == low + #[trigger] (high * power(13, 64))
            && row[1] == (#[trigger] (low + high)) % 2 {
        let (low, high) = choose|low: nat, high: nat|
            low + high < 13 && row.len() == 2 && row[0] == low + #[trigger] (high * power(13, 64))
                && row[1] == (#[trigger] (low + high)) % 2;
        assert(row =~= special_chunk_row(low, high));
        lemma_special_row_stands(low, high, 13);
    }
}

proof fn lemma_special_row_stands(low: nat, high: nat, count: nat)
    requires
        low < count <= 13,
        low + high < 13,
    ensures
        special_chunk_rows(count).contains(special_chunk_row(low, high)),
    decreases count,
{
    let last = (count - 1) as nat;
    let before = special_chunk_rows(last);
    let added = special_chunk_rows_at(last, (13 - last) as nat);
    let row = special_chunk_row(low, high);
    if low == last {
        assert(added[high as int] == row);
        assert((before + added)[(before.len() + high) as int] == row);
    } else {
        lemma_special_row_stands(low, high, last);
        let i = choose|i: int| 0 <= i < before.len() && before[i] == row;
        assert((before + added)[i] == row);
    }
}

/// The lane that the rho step reaches after `count` moves from the lane (1, 0), where each
/// move goes from (x, y) to (y, 2x + 3y mod 5).
pub open spec fn rho_lane(count: nat) -> (int, int)
    decreases count,
{
    if count == 0 {
        (1, 0)
    } else {
        let before = rho_lane((count - 1) as nat);
        (before.1, (2 * before.0 + 3 * before.1) % 5)
    }
}

/// How far the lane that is reached after `count` moves is rotated.
pub open spec fn rho_rotation(count: nat) -> int {
    rotation_constant((rho_lane(count).0 as usize, rho_lane(count).1 as usize)) as int
}

/// The rotations are those of Keccak: the lane (0, 0) stays, the first lane that is reached
/// is rotated by 1, and each move adds one more than the move before it, modulo 64.
pub proof fn law_rotations_grow(count: nat)
    requires
        count < 24,
    ensures
        rotation_constant((0, 0)) == 0,
        0 <= rho_lane(count).0 < 5,
        0 <= rho_lane(count).1 < 5,
        count == 0 ==> rho_rotation(count) == 1,
        count > 0 ==> rho_rotation(count) == (rho_rotation((count - 1) as nat) + count + 1) % 64,
{
    assert(rho_lane(0) == (1int, 0int));
    assert(rho_lane(1) == (0int, 2int));
    assert(rho_lane(2) == (2int, 1int));
    assert(rho_lane(3) == (1int, 2int));
    assert(rho_lane(4) == (2int, 3int));
    assert(rho_lane(5) == (3int, 3int));
    assert(rho_lane(6) == (3int, 0int));
    assert(rho_lane(7) == (0int, 1int));
    assert(rho_lane(8) == (1int, 3int));
    assert(rho_lane(9) == (3int, 1int));
    assert(rho_lane(10) == (1int, 4int));
    assert(rho_lane(11) == (4int, 4int));
    assert(rho_lane(12) == (4int, 0int));
    assert(rho_lane(13) == (0int, 3int));
    assert(rho_lane(14) == (3int, 4int));
    assert(rho_lane(15) == (4int, 3int));
    assert(rho_lane(16) == (3int, 2int));
    assert(rho_lane(17) == (2int, 2int));
    assert(rho_lane(18) == (2int, 0int));
    assert(rho_lane(19) == (0int, 4int));
    assert(rho_lane(20) == (4int, 2int));
    assert(rho_lane(21) == (2int, 4int));
    assert(rho_lane(22) == (4int, 1int));
    assert(rho_lane(23) == (1int, 1int));
}

/// The chunk of a lane that a slice cuts out.
pub open spec fn chunk_of(lane: nat, slice: (nat, nat)) -> nat {
    (lane / power(13, slice.0)) % power(13, slice.1)
}

/// What the chunks up to `last` count into the sum for `step` digits. The first chunk counts
/// where it has that many digits itself, each later one where the chunk before it has.
pub open spec fn counted(lane: nat, slices: Seq<(nat, nat)>, step: nat, last: nat) -> nat
    decreases last,
{
    if last == 0 {
        if slices[0].1 == step {
            chunk_cost(chunk_of(lane, slices[0]))
        } else {
            0
        }
    } else {
        counted(lane, slices, step, (last - 1) as nat) + if slices[last - 1].1 == step {
            chunk_cost(chunk_of(lane, slices[last as int]))
        } else {
            0
        }
    }
}

/// The two sums of a run gather the counts of its chunks, for any lane: those that go with a
/// chunk of two digits, and those that go with one of three. The special chunk adds nothing.
pub proof fn law_sums_gather_counts(lane: nat, rotation: nat, last: nat)
    requires
        rotation < 64,
        last < chunk_count(rotation),
    ensures
        state_after(lane, rotation, last).block_count_acc == (
            counted(lane, slices_from(1, rotation), 2, last),
            counted(lane, slices_from(1, rotation), 3, last),
        ),
        state_after(lane, rotation, last).block_count == Some(
            chunk_cost(chunk_of(lane, slices_from(1, rotation)[last as int])),
        ),
        last + 1 == chunk_count(rotation) ==> state_after(
            lane,
            rotation,
            chunk_count(rotation),
        ).block_count_acc == state_after(lane, rotation, last).block_count_acc,
    decreases last,
{
    let slices = slices_from(1, rotation);
    let state = state_after(lane, rotation, last);
    law_lane_runs(lane, rotation, last);
    law_chunks_tile(1, rotation);
    let slice = slices[last as int];
    lemma_power_positive(13, slice.1);
    lemma_power_monotone(13, slice.1, 4);
    assert(power(13, 4) == 28561) by {
        reveal_with_fuel(power, 5);
    }
    lemma_mod_bound(state.input_raw as int, power(13, slice.1) as int);
    law_block_cost(chunk_of(lane, slice));
    if last > 0 {
        law_sums_gather_counts(lane, rotation, (last - 1) as nat);
        law_lane_runs(lane, rotation, (last - 1) as nat);
    }
}

/// An accepted lane has at most 64 digits, and a zero where its last chunk starts.
pub proof fn law_accepted_lane(lane: nat, rotation: nat, i: int)
    requires
        rotation < 64,
        0 <= i < slices_from(1, rotation).len(),
        slices_from(1, rotation)[i].0 + slices_from(1, rotation)[i].1 == 64,
    ensures
        accepted_lane(lane, rotation) <==> lane < power(13, 64) && (lane / power(
            13,
            slices_from(1, rotation)[i].0,
        )) % 13 == 0,
{
    law_chunks_tile(1, rotation);
    let slices = slices_from(1, rotation);
    if i < slices.len() - 1 {
        assert(slices[i + 1].0 == 64);
        lemma_starts_inside(1, rotation, i + 1);
    }
    assert(last_chunk(rotation) == slices[i].0);
}

/// Every chunk starts inside the lane.
proof fn lemma_starts_inside(chunk_idx: nat, rotation: nat, i: int)
    requires
        rotation <= 64,
        0 <= i < slices_from(chunk_idx, rotation).len(),
    ensures
        slices_from(chunk_idx, rotation)[i].0 < 64,
    decreases 64 - chunk_idx,
{
    if i > 0 {
        let step = step_size(chunk_idx, rotation);
        assert(slices_from(chunk_idx, rotation)[i] == slices_from(chunk_idx + step, rotation)[i
            - 1]);
        lemma_starts_inside(chunk_idx + step, rotation, i - 1);
    }
}

/// The variables at the first chunk: the lowest digit is set apart, the chunk is cut out of
/// the rest, converted and counted, and nothing has come out yet.
pub proof fn law_first_variables(lane: nat, rotation: nat)
    requires
        rotation <= 64,
    ensures
        ({
            let state = RotatingState::start(lane, rotation);
            let count = chunk_cost(state.input_coef);
            &&& state.rotation == rotation
            &&& state.chunk_idx == 1
            &&& state.step == step_size(1, rotation)
            &&& lane == 13 * state.input_raw + state.low_value
            &&& state.low_value < 13
            &&& state.input_coef == state.input_raw % power(13, state.step)
            &&& state.input_power_of_base == 13
            &&& state.input_acc == lane
            &&& state.output_coef == reencode(state.input_coef)
            &&& rotation == 63 ==> state.output_power_of_base == 1
            &&& rotation != 63 ==> state.output_power_of_base == power(9, rotation + 1)
            &&& state.output_acc == 0
            &&& state.block_count == Some(count)
            &&& state.block_count_acc.0 == if state.step == 2 {
                count
            } else {
                0
            }
            &&& state.block_count_acc.1 == if state.step == 3 {
                count
            } else {
                0
            }
            &&& state.high_value is None
        }),
{
    let state = RotatingState::start(lane, rotation);
    lemma_chunk_bound(state.input_raw, state.step);
    law_block_cost(state.input_coef);
}

/// What is left of a number modulo a power of 13 of at most four digits is a chunk.
proof fn lemma_chunk_bound(raw: nat, step: nat)
    requires
        step <= 4,
    ensures
        raw % power(13, step) < 28561,
        power(13, step) > 0,
{
    lemma_power_positive(13, step);
    lemma_power_monotone(13, step, 4);
    assert(power(13, 4) == 28561) by {
        reveal_with_fuel(power, 5);
    }
    lemma_mod_bound(raw as int, power(13, step) as int);
}

/// The step from one chunk to the next, from any variables. What goes out of the input comes
/// into the output. The next chunk is cut out of what is left, and is counted into the sum
/// for the number of digits of the chunk before it.
pub proof fn law_next_variables(state: RotatingState)
    requires
        state.well_formed(),
        state.can_advance(),
    ensures
        ({
            let next = state.next();
            let span = power(13, state.step);
            &&& next.rotation == state.rotation
            &&& next.low_value == state.low_value
            &&& next.chunk_idx == state.chunk_idx + state.step
            &&& next.step == step_size(next.chunk_idx, state.rotation)
            &&& state.input_raw == span * next.input_raw + state.input_raw % span
            &&& next.input_coef == next.input_raw % power(13, next.step)
            &&& next.input_power_of_base == state.input_power_of_base * span
            &&& next.input_acc + state.input_power_of_base * state.input_coef == state.input_acc
            &&& next.output_acc == state.output_acc + state.output_power_of_base
                * state.output_coef
            &&& next.chunk_idx + state.rotation == 64 ==> next.output_power_of_base == 1
            &&& next.chunk_idx + state.rotation != 64 ==> next.output_power_of_base
                == state.output_power_of_base * power(9, state.step)
            &&& next.chunk_idx < 64 ==> {
                let count = chunk_cost(next.input_coef);
                &&& next.output_coef == reencode(next.input_coef)
                &&& next.block_count == Some(count)
                &&& next.block_count_acc.0 == state.block_count_acc.0 + if state.step == 2 {
                    count
                } else {
                    0
                }
                &&& next.block_count_acc.1 == state.block_count_acc.1 + if state.step == 3 {
                    count
                } else {
                    0
                }
                &&& next.high_value == state.high_value
            }
            &&& next.chunk_idx >= 64 ==> {
                &&& next.high_value == Some(state.input_raw % 13)
                &&& next.output_coef == (state.input_raw % 13 + state.low_value) % 2
                &&& next.block_count is None
                &&& next.block_count_acc == state.block_count_acc
            }
        }),
{
    let next = state.next();
    let span = power(13, state.step);
    lemma_chunk_bound(state.input_raw, state.step);
    lemma_chunk_bound(next.input_raw, next.step);
    law_block_cost(next.input_coef);
    lemma_fundamental_div_mod(state.input_raw as int, span as int);
}

/// When the step to the next chunk is defined: there is a chunk, and it can be taken out of
/// the input. Out of the last chunk, no digit may be left, and the input has to be down to
/// the low digit plus the high one at place 64.
pub proof fn law_can_advance_exactly(state: RotatingState)
    requires
        state.well_formed(),
    ensures
        state.can_advance() <==> {
            let taken = state.input_power_of_base * state.input_coef;
            &&& state.chunk_idx < 64
            &&& taken <= state.input_acc
            &&& state.chunk_idx + state.step >= 64 ==> {
                &&& state.input_raw < power(13, state.step)
                &&& state.input_acc == taken + state.low_value + (state.input_raw % 13) * power(
                    13,
                    64,
                )
            }
        },
{
    let span = power(13, state.step);
    lemma_chunk_bound(state.input_raw, state.step);
    if state.input_raw < span {
        lemma_basic_div(state.input_raw as int, span as int);
    } else {
        lemma_div_non_zero(state.input_raw as int, span as int);
    }
}

/// The last addition to the output changes the output and nothing else.
pub proof fn law_final_variables(state: RotatingState)
    ensures
        state.finalize().output_acc == state.output_acc + state.output_power_of_base
            * state.output_coef,
        state.finalize() == (RotatingState { output_acc: state.finalize().output_acc, ..state }),
{
}

/// The variables are well formed where the chunk is one that the lane can hold, and the sums
/// are no larger than so many chunks can make them.
pub proof fn law_well_formed_exactly(state: RotatingState)
    ensures
        state.well_formed() <==> {
            &&& state.rotation <= 64
            &&& 1 <= state.chunk_idx <= 64
            &&& state.step == step_size(state.chunk_idx, state.rotation)
            &&& state.low_value < 13
            &&& state.block_count_acc.0 <= 170 * state.chunk_idx
            &&& state.block_count_acc.1 <= 170 * state.chunk_idx
        },
{
}

} // verus!
