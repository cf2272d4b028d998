//! What the gates of the rho step mean, and which of them the witness meets.

use vstd::arithmetic::div_mod::*;
use vstd::prelude::*;

use crate::chunks::LANE_SIZE;
use crate::circuit::{AdviceColumn, GateView, Row, Selector};
use crate::power::{lemma_power_monotone, lemma_power_positive, power};
use crate::rho_checks::{
    block_count_gate, final_gate, input_gate, output_gate, special_gate, vanishing, BlockCountAdvices,
    RunningSumAdvices,
};
use crate::rotation::RotatingState;
use crate::rotation_laws::tracks;
use crate::tables::{
    base_13_to_base_9_rows, special_chunk_row, special_chunk_rows, special_chunk_rows_at,
    CHUNK_VALUES,
};

verus! {

/// A modulus that divides a product only where it divides a factor.
pub open spec fn is_prime_modulus(modulus: int) -> bool {
    &&& modulus > 1
    &&& forall|a: int, b: int| #[trigger]
        (a * b) % modulus == 0 ==> a % modulus == 0 || b % modulus == 0
}

/// A number is congruent to one of the numbers up to `bound`.
pub open spec fn in_range(value: int, bound: nat, modulus: int) -> bool {
    exists|x: int| 0 <= x <= bound && #[trigger] ((value - x) % modulus) == 0
}

/// A product with a zero factor is zero in the field.
proof fn lemma_zero_product(first: int, second: int, modulus: int)
    requires
        first == 0 || second == 0,
        modulus > 0,
    ensures
        (first * second) % modulus == 0,
{
    assert(first * second == 0) by (nonlinear_arith)
        requires
            first == 0 || second == 0,
    ;
    lemma_small_mod(0, modulus as nat);
}

/// Every gate is met on every row where its selector is off.
pub proof fn law_gates_off(
    q_enable: Selector,
    running: RunningSumAdvices,
    bc: BlockCountAdvices,
    column: AdviceColumn,
    rotation: nat,
    chunk_idx: nat,
    step: nat,
    row: Row,
    modulus: int,
)
    requires
        row.switch(q_enable) == 0,
        modulus > 0,
    ensures
        input_gate(q_enable, running, chunk_idx).holds(row, modulus),
        output_gate(q_enable, running, rotation, chunk_idx).holds(row, modulus),
        special_gate(q_enable, running.acc, column, rotation).holds(row, modulus),
        block_count_gate(q_enable, bc, step).holds(row, modulus),
        final_gate(q_enable, running.acc, column).holds(row, modulus),
{
    assert forall|x: int| #[trigger] ((row.switch(q_enable) * x) % modulus) == 0 by {
        lemma_zero_product(row.switch(q_enable), x, modulus);
    }
}

/// A witness meets the gates of the running sums on the row of a chunk, whatever the
/// selector: each accumulator moves by the chunk that the row holds.
pub proof fn law_running_gates_hold(
    state: RotatingState,
    lane: nat,
    q_enable: Selector,
    input: RunningSumAdvices,
    output: RunningSumAdvices,
    row: Row,
    modulus: int,
)
    requires
        tracks(state, lane),
        state.can_advance(),
        modulus > 0,
        row.cur(input.coef) == state.input_coef,
        row.cur(input.acc) == state.input_acc,
        row.next(input.acc) == state.next().input_acc,
        row.cur(output.coef) == state.output_coef,
        row.cur(output.acc) == state.output_acc,
        row.next(output.acc) == state.next().output_acc,
    ensures
        input_gate(q_enable, input, state.chunk_idx).holds(row, modulus),
        output_gate(q_enable, output, state.rotation, state.chunk_idx).holds(row, modulus),
{
    let switch = row.switch(q_enable);
    let coef = state.input_coef as int;
    let place = state.input_power_of_base as int;
    assert(coef * place == place * coef) by (nonlinear_arith);
    let coef = state.output_coef as int;
    let place = state.output_power_of_base as int;
    assert(coef * place == place * coef) by (nonlinear_arith);
    lemma_zero_product(switch, 0, modulus);
}

/// A witness meets `special_gate` on the row of the special chunk.
pub proof fn law_special_gate_holds(
    state: RotatingState,
    lane: nat,
    q_enable: Selector,
    base_9_acc: AdviceColumn,
    last_b9_coef: AdviceColumn,
    row: Row,
    modulus: int,
)
    requires
        tracks(state, lane),
        state.chunk_idx == LANE_SIZE,
        modulus > 0,
        row.cur(base_9_acc) == state.output_acc,
        row.cur(last_b9_coef) == state.output_coef,
        row.next(base_9_acc) == state.finalize().output_acc,
    ensures
        special_gate(q_enable, base_9_acc, last_b9_coef, state.rotation).holds(row, modulus),
{
    let switch = row.switch(q_enable);
    assert((state.rotation + LANE_SIZE as nat) % LANE_SIZE as nat == state.rotation);
    let coef = state.output_coef as int;
    let place = state.output_power_of_base as int;
    assert(coef * place == place * coef) by (nonlinear_arith);
    lemma_zero_product(switch, 0, modulus);
}

/// Where their selector is on, the gates of the running sums hold exactly where the
/// accumulators move by the chunk at its place, in the field.
pub proof fn law_running_gates_meaning(
    q_enable: Selector,
    input: RunningSumAdvices,
    output: RunningSumAdvices,
    rotation: nat,
    chunk_idx: nat,
    row: Row,
    modulus: int,
)
    requires
        row.switch(q_enable) == 1,
        modulus > 0,
    ensures
        input_gate(q_enable, input, chunk_idx).holds(row, modulus) <==> row.next(input.acc)
            % modulus == (row.cur(input.acc) - row.cur(input.coef) * power(13, chunk_idx))
            % modulus,
        output_gate(q_enable, output, rotation, chunk_idx).holds(row, modulus) <==> row.next(
            output.acc,
        ) % modulus == (row.cur(output.acc) + row.cur(output.coef) * power(
            9,
            (rotation + chunk_idx) % LANE_SIZE as nat,
        )) % modulus,
{
    let down = input_gate(q_enable, input, chunk_idx);
    let up = output_gate(q_enable, output, rotation, chunk_idx);
    assert forall|x: int| #[trigger] (1 * x) == x by {}
    let target = row.cur(input.acc) - row.cur(input.coef) * power(13, chunk_idx);
    lemma_congruent(row.next(input.acc), target, modulus);
    assert((down.constraints[0].poly)(row) == row.next(input.acc) - target);
    let target = row.cur(output.acc) + row.cur(output.coef) * power(
        9,
        (rotation + chunk_idx) % LANE_SIZE as nat,
    );
    lemma_congruent(row.next(output.acc), target, modulus);
    assert((up.constraints[0].poly)(row) == row.next(output.acc) - target);
}

/// Where its selector is on, `special_gate` holds exactly where the output
/// accumulator moves by the special chunk at the place of digit 0, in the
/// field.
pub proof fn law_special_gate_meaning(
    q_enable: Selector,
    base_9_acc: AdviceColumn,
    last_b9_coef: AdviceColumn,
    rotation: nat,
    row: Row,
    modulus: int,
)
    requires
        row.switch(q_enable) == 1,
        modulus > 0,
    ensures
        special_gate(q_enable, base_9_acc, last_b9_coef, rotation).holds(row, modulus) <==> row.next(
            base_9_acc,
        ) % modulus == (row.cur(base_9_acc) + row.cur(last_b9_coef) * power(9, rotation)) % modulus,
{
    let gate = special_gate(q_enable, base_9_acc, last_b9_coef, rotation);
    assert forall|x: int| #[trigger] (1 * x) == x by {}
    let target = row.cur(base_9_acc) + row.cur(last_b9_coef) * power(9, rotation);
    lemma_congruent(row.next(base_9_acc), target, modulus);
    assert((gate.constraints[0].poly)(row) == row.next(base_9_acc) - target);
}

/// Where its selector is on, `block_count_gate` holds exactly where, in the field,
/// the sum for the chunk's number of digits moves by the chunk's block count
/// and the other sum stays. Chunks of one and of four digits leave both sums alone,
/// and have no block count.
pub proof fn law_block_count_gate_meaning(
    q_enable: Selector,
    bc: BlockCountAdvices,
    step: nat,
    row: Row,
    modulus: int,
)
    requires
        row.switch(q_enable) == 1,
        1 <= step <= 4,
        modulus > 0,
    ensures
        ({
            let count = row.cur(bc.block_count);
            let step2 = row.cur(bc.step2_acc) + if step == 2 {
                count
            } else {
                0
            };
            let step3 = row.cur(bc.step3_acc) + if step == 3 {
                count
            } else {
                0
            };
            block_count_gate(q_enable, bc, step).holds(row, modulus) <==> {
                &&& row.next(bc.step2_acc) % modulus == step2 % modulus
                &&& row.next(bc.step3_acc) % modulus == step3 % modulus
                &&& step == 1 || step == 4 ==> count % modulus == 0
            }
        }),
{
    let gate = block_count_gate(q_enable, bc, step);
    let count = row.cur(bc.block_count);
    assert forall|x: int| #[trigger] (1 * x) == x by {}
    if step == 2 {
        lemma_congruent(row.next(bc.step2_acc), row.cur(bc.step2_acc) + count, modulus);
        lemma_congruent(row.next(bc.step3_acc), row.cur(bc.step3_acc), modulus);
        lemma_two_constraints(
            gate,
            row.next(bc.step2_acc) - (row.cur(bc.step2_acc) + count),
            row.next(bc.step3_acc) - row.cur(bc.step3_acc),
            row,
            modulus,
        );
    } else if step == 3 {
        lemma_congruent(row.next(bc.step2_acc), row.cur(bc.step2_acc), modulus);
        lemma_congruent(row.next(bc.step3_acc), row.cur(bc.step3_acc) + count, modulus);
        lemma_two_constraints(
            gate,
            row.next(bc.step2_acc) - row.cur(bc.step2_acc),
            row.next(bc.step3_acc) - (row.cur(bc.step3_acc) + count),
            row,
            modulus,
        );
    } else {
        lemma_congruent(row.next(bc.step2_acc), row.cur(bc.step2_acc), modulus);
        lemma_congruent(row.next(bc.step3_acc), row.cur(bc.step3_acc), modulus);
        assert((gate.constraints[0].poly)(row) == count);
        assert((gate.constraints[1].poly)(row) == row.next(bc.step2_acc) - row.cur(bc.step2_acc));
        assert((gate.constraints[2].poly)(row) == row.next(bc.step3_acc) - row.cur(bc.step3_acc));
    }
}

/// A gate of two polynomials holds exactly where both vanish.
proof fn lemma_two_constraints(gate: GateView, first: int, second: int, row: Row, modulus: int)
    requires
        gate.constraints.len() == 2,
        (gate.constraints[0].poly)(row) == first,
        (gate.constraints[1].poly)(row) == second,
    ensures
        gate.holds(row, modulus) <==> first % modulus == 0 && second % modulus == 0,
{
}

/// Two numbers leave the same remainder exactly where their difference leaves none.
proof fn lemma_congruent(left: int, right: int, modulus: int)
    requires
        modulus > 0,
    ensures
        (left - right) % modulus == 0 <==> left % modulus == right % modulus,
{
    lemma_mod_equivalence(left, right, modulus);
}

/// A vanishing polynomial is zero in a field exactly on the numbers up to its bound.
proof fn lemma_vanishing(value: int, bound: nat, modulus: int)
    requires
        is_prime_modulus(modulus),
    ensures
        vanishing(value, bound) % modulus == 0 <==> in_range(value, bound, modulus),
    decreases bound,
{
    if bound == 0 {
        assert((value - 0) % modulus == value % modulus);
        if in_range(value, 0, modulus) {
            let x = choose|x: int| 0 <= x <= 0 && #[trigger] ((value - x) % modulus) == 0;
            assert(x == 0);
        }
    } else {
        let less = (bound - 1) as nat;
        lemma_vanishing(value, less, modulus);
        let first = vanishing(value, less);
        let second = value - bound;
        if in_range(value, bound, modulus) {
            let x = choose|x: int| 0 <= x <= bound && #[trigger] ((value - x) % modulus) == 0;
            if x == bound {
                lemma_mul_mod_noop_right(first, second, modulus);
                assert(first * 0 == 0) by (nonlinear_arith);
            } else {
                assert(0 <= x <= less && (value - x) % modulus == 0);
                assert(in_range(value, less, modulus));
                lemma_mul_mod_noop_left(first, second, modulus);
                assert(0 * second == 0) by (nonlinear_arith);
            }
        }
        if (first * second) % modulus == 0 {
            if first % modulus == 0 {
                let x = choose|x: int| 0 <= x <= less && #[trigger] ((value - x) % modulus) == 0;
                assert(0 <= x <= bound && (value - x) % modulus == 0);
            } else {
                assert((value - bound as int) % modulus == 0);
            }
        }
    }
}

/// A number is congruent to one of the numbers up to `bound` exactly where its element
/// of the field, taken as a number, is one of them.
pub proof fn law_in_range(value: int, bound: nat, modulus: int)
    requires
        modulus > 0,
    ensures
        in_range(value, bound, modulus) <==> value % modulus <= bound,
{
    let rest = value % modulus;
    lemma_mod_bound(value, modulus);
    lemma_mod_twice(value, modulus);
    lemma_congruent(value, rest, modulus);
    if rest <= bound {
        assert((value - rest) % modulus == 0);
    }
    if in_range(value, bound, modulus) {
        let x = choose|x: int| 0 <= x <= bound && #[trigger] ((value - x) % modulus) == 0;
        lemma_congruent(value, x, modulus);
        lemma_mod_decreases(x as nat, modulus as nat);
    }
}

/// Where its selector is on, the final gate holds exactly where the two sums of the
/// block counts are, in the field, numbers up to 12 and up to 169.
pub proof fn law_final_gate_meaning(
    q_enable: Selector,
    step2_acc: AdviceColumn,
    step3_acc: AdviceColumn,
    row: Row,
    modulus: int,
)
    requires
        row.switch(q_enable) == 1,
        is_prime_modulus(modulus),
    ensures
        final_gate(q_enable, step2_acc, step3_acc).holds(row, modulus) <==> in_range(
            row.cur(step2_acc),
            12,
            modulus,
        ) && in_range(row.cur(step3_acc), 169, modulus),
{
    let gate = final_gate(q_enable, step2_acc, step3_acc);
    lemma_vanishing(row.cur(step2_acc), 12, modulus);
    lemma_vanishing(row.cur(step3_acc), 169, modulus);
    assert forall|x: int| #[trigger] (1 * x) == x by {}
    assert((gate.constraints[0].poly)(row) == vanishing(row.cur(step2_acc), 12));
    assert((gate.constraints[1].poly)(row) == vanishing(row.cur(step3_acc), 169));
    assert forall|i: int|
        in_range(row.cur(step2_acc), 12, modulus) && in_range(row.cur(step3_acc), 169, modulus) && 0
            <= i < gate.constraints.len() implies (#[trigger] gate.constraints[i].poly)(row)
        % modulus == 0 by {
        assert(i == 0 || i == 1);
    }
}

/// A witness meets the final gate wherever the two sums of its block counts are at
/// most 12 and at most 169.
pub proof fn law_final_gate_holds(
    state: RotatingState,
    q_enable: Selector,
    step2_acc: AdviceColumn,
    step3_acc: AdviceColumn,
    row: Row,
    modulus: int,
)
    requires
        row.switch(q_enable) == 1,
        is_prime_modulus(modulus),
        row.cur(step2_acc) == state.block_count_acc.0,
        row.cur(step3_acc) == state.block_count_acc.1,
        state.block_count_acc.0 <= 12,
        state.block_count_acc.1 <= 169,
    ensures
        final_gate(q_enable, step2_acc, step3_acc).holds(row, modulus),
{
    law_final_gate_meaning(q_enable, step2_acc, step3_acc, row, modulus);
    lemma_small_mod(0, modulus as nat);
    let step2 = row.cur(step2_acc);
    let step3 = row.cur(step3_acc);
    assert((step2 - step2) % modulus == 0);
    assert((step3 - step3) % modulus == 0);
}

/// What a witness holds on the row of a chunk is a row of the conversion table.
pub proof fn law_chunk_is_in_table(state: RotatingState, lane: nat)
    requires
        tracks(state, lane),
        state.chunk_idx < LANE_SIZE,
    ensures
        base_13_to_base_9_rows(CHUNK_VALUES as nat).contains(
            seq![state.input_coef, state.output_coef, state.block_count->Some_0],
        ),
{
    lemma_power_positive(13, state.step);
    lemma_power_monotone(13, state.step, 4);
    lemma_mod_bound(state.input_raw as int, power(13, state.step) as int);
    assert(power(13, 4) == CHUNK_VALUES) by {
        reveal_with_fuel(power, 5);
    }
    let rows = base_13_to_base_9_rows(CHUNK_VALUES as nat);
    let coef = state.input_coef;
    assert(rows[coef as int] =~= seq![
        state.input_coef,
        state.output_coef,
        state.block_count->Some_0,
    ]);
}

/// The row for a pair of digits stands in the table.
proof fn lemma_special_row(low: nat, high: nat, count: nat)
    requires
        low < count <= 13,
        high < 13 - low,
    ensures
        special_chunk_rows(count).contains(special_chunk_row(low, high)),
    decreases count,
{
    let last = (count - 1) as nat;
    let before = special_chunk_rows(last);
    let added = special_chunk_rows_at(last, (13 - last) as nat);
    let row = special_chunk_row(low, high);
    if low == last {
        assert(added[high as int] == row);
        assert((before + added)[(before.len() + high) as int] == row);
    } else {
        lemma_special_row(low, high, last);
        let i = choose|i: int| 0 <= i < before.len() && before[i] == row;
        assert((before + added)[i] == row);
    }
}

/// What a witness holds on the row of the special chunk is a row of its table.
pub proof fn law_special_chunk_is_in_table(state: RotatingState, lane: nat)
    requires
        tracks(state, lane),
        state.chunk_idx == LANE_SIZE,
    ensures
        special_chunk_rows(13).contains(seq![state.input_acc, state.output_coef]),
{
    let low = lane % 13;
    lemma_special_row(low, 0, 13);
    let place = power(13, LANE_SIZE as nat);
    assert(place * 0 == 0) by (nonlinear_arith);
    assert(0 * place == 0) by (nonlinear_arith);
    assert(special_chunk_row(low, 0) =~= seq![state.input_acc, state.output_coef]);
}

} // verus!
