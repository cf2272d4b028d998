//! What the running variables compute: the lane, rotated and converted.

use vstd::arithmetic::div_mod::*;
use vstd::arithmetic::mul::*;
use vstd::prelude::*;

use crate::chunks::{block_cost, digit_count, reencode, slices_from, step_size, LANE_SIZE};
use crate::power::{lemma_power_adds, lemma_power_positive, power};
use crate::rotation::RotatingState;

verus! {

/// The digit of `number` at `position` in base 13.
pub open spec fn digit(number: nat, position: nat) -> nat {
    (number / power(13, position)) % 13
}

/// The sum over the positions from `low` up to `high` of the parity of the digit
/// of `lane`, at the position in base 9 to which the rotation moves it.
pub open spec fn rotated_digits(lane: nat, rotation: nat, low: nat, high: nat) -> nat
    decreases high,
{
    if high <= low {
        0
    } else {
        let position = (high - 1) as nat;
        rotated_digits(lane, rotation, low, position) + (digit(lane, position) % 2) * power(
            9,
            (position + rotation) % LANE_SIZE as nat,
        )
    }
}

/// The whole lane, converted to base 9 and rotated.
pub open spec fn rotated_lane(lane: nat, rotation: nat) -> nat {
    rotated_digits(lane, rotation, 0, LANE_SIZE as nat)
}

/// The variables after `count` chunks of `lane`.
pub open spec fn state_after(lane: nat, rotation: nat, count: nat) -> RotatingState
    decreases count,
{
    if count == 0 {
        RotatingState::start(lane, rotation)
    } else {
        state_after(lane, rotation, (count - 1) as nat).next()
    }
}

/// The number of chunks of a lane.
pub open spec fn chunk_count(rotation: nat) -> nat {
    slices_from(1, rotation).len()
}

/// The index of the first digit of the last chunk.
pub open spec fn last_chunk(rotation: nat) -> nat {
    slices_from(1, rotation).last().0
}

/// Whether a lane can be run through all its chunks: it has at most `LANE_SIZE`
/// digits, and the last chunk starts with the digit zero.
pub open spec fn accepted_lane(lane: nat, rotation: nat) -> bool {
    &&& lane < power(13, LANE_SIZE as nat)
    &&& digit(lane, last_chunk(rotation)) == 0
}

/// The variables stand at a chunk of `lane` and hold what that chunk asks for.
pub open spec fn tracks(state: RotatingState, lane: nat) -> bool {
    &&& state.well_formed()
    &&& state.rotation < LANE_SIZE
    &&& state.input_raw == lane / power(13, state.chunk_idx)
    &&& state.input_coef == state.input_raw % power(13, state.step)
    &&& state.input_power_of_base == power(13, state.chunk_idx)
    &&& state.input_acc == lane % 13 + power(13, state.chunk_idx) * state.input_raw
    &&& state.low_value == lane % 13
    &&& state.output_power_of_base == power(
        9,
        (state.rotation + state.chunk_idx) % LANE_SIZE as nat,
    )
    &&& state.output_acc == rotated_digits(lane, state.rotation, 1, state.chunk_idx)
    &&& if state.chunk_idx < LANE_SIZE {
        &&& state.output_coef == reencode(state.input_coef)
        &&& state.block_count == Some(block_cost(digit_count(state.input_coef)))
        &&& state.high_value is None
    } else {
        &&& state.input_raw == 0
        &&& state.output_coef == (lane % 13) % 2
        &&& state.block_count is None
        &&& state.high_value == Some(0nat)
    }
}

/// Prepending a digit prepends its parity.
proof fn lemma_reencode_digit(low: nat, rest: nat)
    requires
        low < 13,
    ensures
        reencode(low + 13 * rest) == low % 2 + 9 * reencode(rest),
{
    if low + 13 * rest > 0 {
        assert((low + 13 * rest) % 13 == low);
        assert((low + 13 * rest) / 13 == rest);
    }
}

/// The lowest digit of a number's remainder modulo a power splits off.
proof fn lemma_remainder_digit(number: nat, count: nat)
    ensures
        number % power(13, count + 1) == number % 13 + 13 * ((number / 13) % power(13, count)),
{
    lemma_power_positive(13, count);
    lemma_mod_breakdown(number as int, 13, power(13, count) as int);
}

/// A digit above the lowest is a digit of the quotient by the base.
proof fn lemma_digit_of_quotient(number: nat, shift: nat, position: nat)
    ensures
        number / power(13, shift + position) == (number / power(13, shift)) / power(13, position),
        digit(number, shift + position) == digit(number / power(13, shift), position),
{
    lemma_power_positive(13, shift);
    lemma_power_positive(13, position);
    lemma_power_adds(13, shift, position);
    lemma_div_denominator(number as int, power(13, shift) as int, power(13, position) as int);
}

/// One more digit in a chunk adds its parity at its place.
proof fn lemma_reencode_top(number: nat, count: nat)
    ensures
        reencode(number % power(13, count + 1)) == reencode(number % power(13, count)) + (digit(
            number,
            count,
        ) % 2) * power(9, count),
    decreases count,
{
    lemma_remainder_digit(number, count);
    let rest = number / 13;
    lemma_reencode_digit(number % 13, rest % power(13, count));
    if count == 0 {
        assert(power(13, 0) == 1);
        assert(power(9, 0) == 1);
        assert(number % 1 == 0);
        assert(rest % 1 == 0);
        assert(number / 1 == number);
        assert(reencode(0) == 0);
    } else {
        let less = (count - 1) as nat;
        lemma_reencode_top(rest, less);
        lemma_remainder_digit(number, less);
        lemma_reencode_digit(number % 13, rest % power(13, less));
        assert(power(13, 1) == 13) by {
            reveal_with_fuel(power, 2);
        }
        lemma_digit_of_quotient(number, 1, less);
        assert(1 + less == count);
        let bit = digit(number, count) % 2;
        assert(9 * (bit * power(9, less)) == bit * (9 * power(9, less))) by (nonlinear_arith);
    }
}

/// A converted chunk, moved to its place, is the chunk's part of the rotated lane.
proof fn lemma_chunk_part(lane: nat, rotation: nat, chunk_idx: nat, step: nat)
    requires
        (rotation + chunk_idx) % LANE_SIZE as nat + step <= LANE_SIZE,
    ensures
        power(9, (rotation + chunk_idx) % LANE_SIZE as nat) * reencode(
            (lane / power(13, chunk_idx)) % power(13, step),
        ) == rotated_digits(lane, rotation, chunk_idx, chunk_idx + step),
    decreases step,
{
    let place = (rotation + chunk_idx) % LANE_SIZE as nat;
    let raw = lane / power(13, chunk_idx);
    if step == 0 {
        assert(power(13, 0) == 1);
        assert(raw % 1 == 0);
        assert(power(9, place) * 0 == 0) by (nonlinear_arith);
    } else {
        let less = (step - 1) as nat;
        lemma_chunk_part(lane, rotation, chunk_idx, less);
        lemma_reencode_top(raw, less);
        lemma_digit_of_quotient(lane, chunk_idx, less);
        lemma_power_adds(9, place, less);
        assert((chunk_idx + less + rotation) % LANE_SIZE as nat == place + less);
        let bit = digit(lane, chunk_idx + less) % 2;
        let before = reencode(raw % power(13, less));
        assert(power(9, place) * (before + bit * power(9, less)) == power(9, place) * before + bit
            * (power(9, place) * power(9, less))) by (nonlinear_arith);
    }
}

/// Adjacent ranges of positions add up.
proof fn lemma_rotated_digits_join(lane: nat, rotation: nat, low: nat, middle: nat, high: nat)
    requires
        low <= middle <= high,
    ensures
        rotated_digits(lane, rotation, low, middle) + rotated_digits(lane, rotation, middle, high)
            == rotated_digits(lane, rotation, low, high),
    decreases high,
{
    if middle < high {
        lemma_rotated_digits_join(lane, rotation, low, middle, (high - 1) as nat);
    }
}

/// The start of a lane holds what the first chunk asks for.
pub proof fn law_start_tracks(lane: nat, rotation: nat)
    requires
        rotation < LANE_SIZE,
    ensures
        tracks(RotatingState::start(lane, rotation), lane),
{
    assert(power(13, 1) == 13) by {
        reveal_with_fuel(power, 2);
    }
    assert(power(9, 0) == 1);
    assert(rotated_digits(lane, rotation, 1, 1) == 0);
    lemma_fundamental_div_mod(lane as int, 13);
}

/// At a chunk of a lane the next step is defined, except that the step out of the
/// last chunk asks for a lane of at most `LANE_SIZE` digits and for a zero digit at
/// the start of that chunk.
pub proof fn law_can_advance(state: RotatingState, lane: nat)
    requires
        tracks(state, lane),
        state.chunk_idx < LANE_SIZE,
    ensures
        state.can_advance() <==> (state.chunk_idx + state.step < LANE_SIZE || (lane < power(
            13,
            LANE_SIZE as nat,
        ) && digit(lane, state.chunk_idx) == 0)),
        state.rest() == lane % 13 + power(13, state.chunk_idx + state.step) * (lane / power(
            13,
            state.chunk_idx + state.step,
        )),
{
    let chunk = power(13, state.chunk_idx);
    let span = power(13, state.step);
    let raw = state.input_raw;
    lemma_digit_of_quotient(lane, state.chunk_idx, state.step);
    lemma_power_adds(13, state.chunk_idx, state.step);
    lemma_power_positive(13, state.step);
    lemma_fundamental_div_mod(raw as int, span as int);
    let quotient = raw / span;
    let remainder = raw % span;
    assert(chunk * (span * quotient + remainder) - chunk * remainder == (chunk * span) * quotient)
        by (nonlinear_arith);
    if state.chunk_idx + state.step >= LANE_SIZE {
        let whole = power(13, LANE_SIZE as nat);
        assert(state.chunk_idx + state.step == LANE_SIZE);
        lemma_power_positive(13, LANE_SIZE as nat);
        assert(lane / whole == 0 <==> lane < whole) by {
            if lane < whole {
                lemma_basic_div(lane as int, whole as int);
            } else {
                lemma_div_non_zero(lane as int, whole as int);
            }
        }
        let high = raw % 13;
        assert(high * whole == 0 <==> high == 0) by (nonlinear_arith)
            requires
                whole > 0,
        ;
        assert(whole * 0 == 0) by (nonlinear_arith);
    }
}

/// Where a chunk goes in the output, and where the one after it goes.
proof fn lemma_chunk_place(rotation: nat, chunk_idx: nat, step: nat)
    requires
        rotation < LANE_SIZE,
        1 <= chunk_idx < LANE_SIZE,
        step == step_size(chunk_idx, rotation),
    ensures
        chunk_idx + step <= LANE_SIZE,
        (rotation + chunk_idx) % LANE_SIZE as nat + step <= LANE_SIZE,
        (rotation + chunk_idx + step) % LANE_SIZE as nat == if chunk_idx + step == LANE_SIZE
            - rotation {
            0
        } else {
            (rotation + chunk_idx) % LANE_SIZE as nat + step
        },
{
}

/// Each step keeps what `tracks` states: the input accumulator loses the chunk, the
/// output accumulator gains it, rotated and converted, and both powers keep pace.
pub proof fn law_next_tracks(state: RotatingState, lane: nat)
    requires
        tracks(state, lane),
        state.can_advance(),
    ensures
        tracks(state.next(), lane),
{
    let next = state.next();
    let place = (state.rotation + state.chunk_idx) % LANE_SIZE as nat;
    lemma_chunk_place(state.rotation, state.chunk_idx, state.step);
    assert(next.input_raw == lane / power(13, next.chunk_idx)) by {
        lemma_digit_of_quotient(lane, state.chunk_idx, state.step);
    }
    assert(next.input_power_of_base == power(13, next.chunk_idx)) by {
        lemma_power_adds(13, state.chunk_idx, state.step);
    }
    assert(next.input_acc == lane % 13 + power(13, next.chunk_idx) * next.input_raw) by {
        law_can_advance(state, lane);
    }
    assert(next.output_power_of_base == power(
        9,
        (next.rotation + next.chunk_idx) % LANE_SIZE as nat,
    )) by {
        assert(next.rotation + next.chunk_idx == state.rotation + state.chunk_idx + state.step);
        assert(power(9, 0) == 1);
        lemma_power_adds(9, place, state.step);
    }
    assert(next.output_acc == rotated_digits(lane, state.rotation, 1, next.chunk_idx)) by {
        lemma_chunk_part(lane, state.rotation, state.chunk_idx, state.step);
        lemma_rotated_digits_join(lane, state.rotation, 1, state.chunk_idx, next.chunk_idx);
    }
    if next.chunk_idx >= LANE_SIZE {
        law_can_advance(state, lane);
    }
}

/// The chunk at which the variables stand after `count` steps.
proof fn lemma_chunk_after(lane: nat, rotation: nat, count: nat)
    requires
        rotation < LANE_SIZE,
        count <= chunk_count(rotation),
    ensures
        1 <= state_after(lane, rotation, count).chunk_idx <= LANE_SIZE,
        state_after(lane, rotation, count).rotation == rotation,
        slices_from(state_after(lane, rotation, count).chunk_idx, rotation) == slices_from(
            1,
            rotation,
        ).skip(count as int),
        state_after(lane, rotation, count).step == step_size(
            state_after(lane, rotation, count).chunk_idx,
            rotation,
        ),
    decreases count,
{
    let slices = slices_from(1, rotation);
    if count == 0 {
        assert(slices.skip(0) =~= slices);
    } else {
        let less = (count - 1) as nat;
        lemma_chunk_after(lane, rotation, less);
        let before = state_after(lane, rotation, less);
        let after = state_after(lane, rotation, count);
        let rest = slices_from(before.chunk_idx, rotation);
        assert(rest.len() > 0);
        assert(rest =~= seq![(before.chunk_idx, before.step)] + slices_from(
            after.chunk_idx,
            rotation,
        ));
        assert(slices.skip(count as int) =~= rest.skip(1));
        assert(rest.skip(1) =~= slices_from(after.chunk_idx, rotation));
    }
}

/// Every step but the one out of the last chunk is defined on every lane; that one
/// is defined on the accepted lanes and on no others.
pub proof fn law_lane_runs(lane: nat, rotation: nat, count: nat)
    requires
        rotation < LANE_SIZE,
        count < chunk_count(rotation),
    ensures
        tracks(state_after(lane, rotation, count), lane),
        state_after(lane, rotation, count).can_advance() <==> (count + 1 < chunk_count(rotation)
            || accepted_lane(lane, rotation)),
        slices_from(1, rotation)[count as int] == (
            state_after(lane, rotation, count).chunk_idx,
            state_after(lane, rotation, count).step,
        ),
    decreases count,
{
    let state = state_after(lane, rotation, count);
    let slices = slices_from(1, rotation);
    if count == 0 {
        law_start_tracks(lane, rotation);
    } else {
        let less = (count - 1) as nat;
        law_lane_runs(lane, rotation, less);
        law_next_tracks(state_after(lane, rotation, less), lane);
    }
    lemma_chunk_after(lane, rotation, count);
    let rest = slices_from(state.chunk_idx, rotation);
    assert(rest == slices.skip(count as int));
    assert(rest.len() == chunk_count(rotation) - count);
    assert(state.chunk_idx < LANE_SIZE);
    assert(rest[0] == (state.chunk_idx, state.step));
    assert(rest[0] == slices[count as int]);
    law_can_advance(state, lane);
    assert(rest.skip(1) =~= slices_from(state.chunk_idx + state.step, rotation));
    if count + 1 < chunk_count(rotation) {
        assert(slices_from(state.chunk_idx + state.step, rotation).len() > 0);
        assert(state.chunk_idx + state.step < LANE_SIZE);
    } else {
        assert(slices_from(state.chunk_idx + state.step, rotation).len() == 0);
        assert(state.chunk_idx + state.step >= LANE_SIZE);
        assert(slices.last() == slices[count as int]);
    }
}

/// An accepted lane, run through all its chunks and finalized, is the lane with
/// each base 13 digit replaced by its parity, written in base 9 and rotated.
pub proof fn law_lane_rotates(lane: nat, rotation: nat)
    requires
        rotation < LANE_SIZE,
        accepted_lane(lane, rotation),
    ensures
        tracks(state_after(lane, rotation, chunk_count(rotation)), lane),
        state_after(lane, rotation, chunk_count(rotation)).chunk_idx == LANE_SIZE,
        state_after(lane, rotation, chunk_count(rotation)).finalize().output_acc == rotated_lane(
            lane,
            rotation,
        ),
{
    let count = chunk_count(rotation);
    let state = state_after(lane, rotation, count);
    let size = LANE_SIZE as nat;
    lemma_chunk_after(lane, rotation, count);
    assert(slices_from(1, rotation).skip(count as int).len() == 0);
    assert(state.chunk_idx == LANE_SIZE);
    law_lane_runs(lane, rotation, (count - 1) as nat);
    law_next_tracks(state_after(lane, rotation, (count - 1) as nat), lane);
    lemma_rotated_digits_join(lane, rotation, 0, 1, size);
    assert(power(13, 0) == 1);
    assert(lane / 1 == lane);
    assert(rotated_digits(lane, rotation, 0, 0) == 0);
    assert(rotated_digits(lane, rotation, 0, 1) == (digit(lane, 0) % 2) * power(
        9,
        (0 + rotation) % size,
    ));
    assert((rotation + size) % size == rotation);
    let bit = (lane % 13) % 2;
    assert(bit * power(9, rotation) == power(9, rotation) * bit) by (nonlinear_arith);
}

/// What the variables hold at a chunk is no larger than the lane that goes in or the
/// rotated lane that comes out: wherever those two fit in a field, the witness does.
pub proof fn law_witness_is_bounded(state: RotatingState, lane: nat)
    requires
        tracks(state, lane),
    ensures
        state.input_coef <= lane,
        state.input_acc <= lane,
        state.output_acc <= rotated_lane(lane, state.rotation),
        state.chunk_idx < LANE_SIZE ==> state.output_coef <= rotated_lane(lane, state.rotation),
        state.chunk_idx == LANE_SIZE ==> state.output_coef <= 1,
{
    let place = power(13, state.chunk_idx);
    let span = power(13, state.step);
    lemma_power_positive(13, state.chunk_idx);
    lemma_power_positive(13, state.step);
    lemma_div_nonincreasing(lane as int, place as int);
    lemma_mod_decreases(state.input_raw, span);
    let inner = power(13, (state.chunk_idx - 1) as nat);
    lemma_power_positive(13, (state.chunk_idx - 1) as nat);
    assert(place == 13 * inner);
    let tail = lane % place;
    lemma_mod_mod(lane as int, 13, inner as int);
    lemma_mod_decreases(tail, 13);
    lemma_fundamental_div_mod(lane as int, place as int);
    let size = LANE_SIZE as nat;
    lemma_rotated_digits_join(lane, state.rotation, 0, 1, size);
    lemma_rotated_digits_join(lane, state.rotation, 1, state.chunk_idx, size);
    if state.chunk_idx < LANE_SIZE {
        let after = state.chunk_idx + state.step;
        lemma_chunk_place(state.rotation, state.chunk_idx, state.step);
        lemma_chunk_part(lane, state.rotation, state.chunk_idx, state.step);
        lemma_rotated_digits_join(lane, state.rotation, state.chunk_idx, after, size);
        let weight = state.output_power_of_base;
        let coef = state.output_coef;
        lemma_power_positive(9, (state.rotation + state.chunk_idx) % size);
        assert(coef <= weight * coef) by (nonlinear_arith)
            requires
                weight > 0,
        ;
    }
}

/// The parity that the rotation moves to `place`.
spec fn moved_bit(lane: nat, rotation: nat, place: nat) -> nat {
    digit(lane, ((place + LANE_SIZE - rotation) % LANE_SIZE as int) as nat) % 2
}

/// The places from `low` up to `high` of the output, in order.
spec fn ordered_digits(lane: nat, rotation: nat, low: nat, high: nat) -> nat
    decreases high,
{
    if high <= low {
        0
    } else {
        let place = (high - 1) as nat;
        ordered_digits(lane, rotation, low, place) + moved_bit(lane, rotation, place) * power(
            9,
            place,
        )
    }
}

proof fn lemma_ordered_digits_join(lane: nat, rotation: nat, low: nat, middle: nat, high: nat)
    requires
        low <= middle <= high,
    ensures
        ordered_digits(lane, rotation, low, middle) + ordered_digits(lane, rotation, middle, high)
            == ordered_digits(lane, rotation, low, high),
    decreases high,
{
    if middle < high {
        lemma_ordered_digits_join(lane, rotation, low, middle, (high - 1) as nat);
    }
}

/// The digits below the rotation offset move up.
proof fn lemma_digits_move_up(lane: nat, rotation: nat, low: nat, high: nat)
    requires
        rotation < LANE_SIZE,
        low <= high <= LANE_SIZE - rotation,
    ensures
        rotated_digits(lane, rotation, low, high) == ordered_digits(
            lane,
            rotation,
            low + rotation,
            high + rotation,
        ),
    decreases high,
{
    if low < high {
        let position = (high - 1) as nat;
        lemma_digits_move_up(lane, rotation, low, position);
        assert((position + rotation) % LANE_SIZE as nat == position + rotation);
        assert((position + rotation + LANE_SIZE - rotation) % LANE_SIZE as int == position);
        assert((high + rotation - 1) as nat == position + rotation);
    }
}

/// The digits from the rotation offset on move to the bottom.
proof fn lemma_digits_move_down(lane: nat, rotation: nat, low: nat, high: nat)
    requires
        rotation < LANE_SIZE,
        LANE_SIZE - rotation <= low <= high <= LANE_SIZE,
    ensures
        rotated_digits(lane, rotation, low, high) == ordered_digits(
            lane,
            rotation,
            (low + rotation - LANE_SIZE) as nat,
            (high + rotation - LANE_SIZE) as nat,
        ),
    decreases high,
{
    if low < high {
        let position = (high - 1) as nat;
        let place = (position + rotation - LANE_SIZE) as nat;
        lemma_digits_move_down(lane, rotation, low, position);
        assert((position + rotation) % LANE_SIZE as nat == place);
        assert((place + LANE_SIZE - rotation) % LANE_SIZE as int == position);
        assert((high + rotation - LANE_SIZE - 1) as nat == place);
    }
}

/// The places below `high` make a number of at most `high` digits in base 9, each
/// of which is the parity that is moved there.
proof fn lemma_ordered_digits(lane: nat, rotation: nat, high: nat, place: nat)
    ensures
        ordered_digits(lane, rotation, 0, high) < power(9, high),
        place < high ==> (ordered_digits(lane, rotation, 0, high) / power(9, place)) % 9
            == moved_bit(lane, rotation, place),
    decreases high,
{
    if high > 0 {
        let top = (high - 1) as nat;
        lemma_ordered_digits(lane, rotation, top, place);
        let rest = ordered_digits(lane, rotation, 0, top);
        let bit = moved_bit(lane, rotation, top);
        let weight = power(9, top);
        lemma_power_positive(9, top);
        assert(bit * weight <= weight) by (nonlinear_arith)
            requires
                bit <= 1,
        ;
        assert(power(9, high) == 9 * weight);
        if place == top {
            lemma_fundamental_div_mod_converse(
                (rest + bit * weight) as int,
                weight as int,
                bit as int,
                rest as int,
            );
        } else if place < top {
            let small = power(9, place);
            let gap = (top - place - 1) as nat;
            lemma_power_positive(9, place);
            lemma_power_adds(9, place, gap + 1);
            assert(place + (gap + 1) == top);
            assert(power(9, gap + 1) == 9 * power(9, gap));
            let shift = 9 * (bit * power(9, gap));
            assert(bit * (small * (9 * power(9, gap))) == small * shift) by (nonlinear_arith)
                requires
                    shift == 9 * (bit * power(9, gap)),
            ;
            let quotient = rest / small;
            lemma_fundamental_div_mod(rest as int, small as int);
            lemma_mod_bound(rest as int, small as int);
            assert(rest + small * shift == (quotient + shift) * small + rest % small)
                by (nonlinear_arith)
                requires
                    rest == small * quotient + rest % small,
            ;
            lemma_fundamental_div_mod_converse(
                (rest + bit * weight) as int,
                small as int,
                (quotient + shift) as int,
                (rest % small) as int,
            );
            assert((quotient + shift) % 9 == quotient % 9);
        }
    }
}

/// In the converted and rotated lane, the base 9 digit at the place to which the
/// rotation moves a position is the parity of the lane's base 13 digit there. The
/// result has at most `LANE_SIZE` digits.
pub proof fn law_rotated_lane_digits(lane: nat, rotation: nat, position: nat)
    requires
        rotation < LANE_SIZE,
        position < LANE_SIZE,
    ensures
        rotated_lane(lane, rotation) < power(9, LANE_SIZE as nat),
        (rotated_lane(lane, rotation) / power(9, (position + rotation) % LANE_SIZE as nat)) % 9
            == digit(lane, position) % 2,
{
    let size = LANE_SIZE as nat;
    let offset = (size - rotation) as nat;
    let place = (position + rotation) % size;
    lemma_rotated_digits_join(lane, rotation, 0, offset, size);
    lemma_digits_move_up(lane, rotation, 0, offset);
    lemma_digits_move_down(lane, rotation, offset, size);
    lemma_ordered_digits_join(lane, rotation, 0, rotation, size);
    lemma_ordered_digits(lane, rotation, size, place);
    assert((place + LANE_SIZE - rotation) % LANE_SIZE as int == position);
}

} // verus!
