//! What each part of the rho step is configured with, entry by entry, and which cells it is
//! assigned, one by one.

use vstd::prelude::*;

use crate::chunk_laws::{chunk_cost, chunk_of, counted, law_sums_gather_counts};
use crate::chunks::{law_chunks_tile, reencode, slices_from};
use crate::circuit::{
    AdviceColumn, AssignmentView, Cell, EntryView, FixedColumn, LabelView, LookupView,
    Row, Selector,
};
use crate::lane_config::{
    chunks_assignments, chunks_entries, law_rotation_constants, rotation_constant, LaneConfigView,
};
use crate::lane_laws::{law_chunk_gates, law_configured_chunks_tile, lemma_rotation_stays};
use crate::power::power;
use crate::rho_checks::{
    BlockCount2, BlockCountAccConfig, BlockCountAdvices, BlockCountFinalConfig,
    ChunkRotateConversionConfig, RhoAdvices, RunningSumAdvices, SpecialChunkConfig,
    ROTATION_CONSTANTS,
};
use crate::rho_laws::{law_gates_off, law_special_gate_meaning};
use crate::rotation::RotatingState;
use crate::rotation_laws::{
    accepted_lane, chunk_count, law_lane_rotates, law_lane_runs, rotated_digits, rotated_lane,
    state_after,
};

verus! {

/// A gate of `count` polynomials under a name.
pub open spec fn is_gate(entry: EntryView, name: Seq<char>, count: nat) -> bool {
    entry matches EntryView::Gate(gate) && gate.name == name && gate.constraints.len() == count
}

/// A chunk is configured for the slice that it is given, with the selector, the columns and
/// the rotation of its lane, and so are the sums of its block counts.
pub proof fn law_chunk_config(
    q_enable: Selector,
    adv: RhoAdvices,
    fix_cols: [FixedColumn; 3],
    slice: (nat, nat),
    rotation: u32,
)
    requires
        slice.0 <= u32::MAX,
        slice.1 <= u32::MAX,
    ensures
        ({
            let config = ChunkRotateConversionConfig::of(q_enable, adv, fix_cols, slice, rotation);
            &&& config.q_enable == q_enable
            &&& config.adv == adv
            &&& config.chunk_idx == slice.0
            &&& config.step == slice.1
            &&& config.rotation == rotation
            &&& config.base_13_to_base_9_lookup.base13 == fix_cols[0]
            &&& config.base_13_to_base_9_lookup.base9 == fix_cols[1]
            &&& config.base_13_to_base_9_lookup.block_count == fix_cols[2]
            &&& config.block_count_acc_config.q_enable == q_enable
            &&& config.block_count_acc_config.bc == adv.bc
            &&& config.block_count_acc_config.step == slice.1
        }),
{
}

/// The four entries of a chunk: the lookup of the chunk, of its conversion and of its block
/// count in the three columns of the table, the two running sums, and the block counts.
pub proof fn law_chunk_entries(config: ChunkRotateConversionConfig)
    requires
        1 <= config.step <= 4,
    ensures
        ({
            let entries = config.entries();
            let table = config.base_13_to_base_9_lookup;
            &&& entries.len() == 4
            &&& entries[0] == EntryView::Lookup(
                LookupView {
                    selector: config.q_enable,
                    inputs: seq![
                        config.adv.input.coef,
                        config.adv.output.coef,
                        config.adv.bc.block_count,
                    ],
                    table: seq![table.base13, table.base9, table.block_count],
                },
            )
            &&& is_gate(entries[1], "Running down input"@, 1)
            &&& is_gate(entries[2], "Running up for output"@, 1)
            &&& config.step == 1 || config.step == 4 ==> is_gate(
                entries[3],
                "accumulate block count"@,
                3,
            )
            &&& config.step == 2 || config.step == 3 ==> is_gate(
                entries[3],
                "accumulate block count"@,
                2,
            )
            &&& entries[1]->Gate_0.constraints[0].name == "delta_acc === - coef * power_of_base"@
            &&& entries[2]->Gate_0.constraints[0].name == "delta_acc === coef * power_of_base"@
        }),
{
}

/// What the entries of the chunk of a slice ask for where the selector is on. The input
/// accumulator loses the chunk at its place in base 13, and the output accumulator gains the
/// converted chunk at its rotated place in base 9. The step-2 sum moves by the block count if
/// the slice has two digits, the step-3 sum if it has three, and else they stay. A slice of one
/// or of four digits has no block count. Where the selector is off, they ask for nothing.
pub proof fn law_chunk_checks(
    q_enable: Selector,
    adv: RhoAdvices,
    fix_cols: [FixedColumn; 3],
    slice: (nat, nat),
    rotation: u32,
    row: Row,
    modulus: int,
)
    requires
        slice.0 <= u32::MAX,
        1 <= slice.1 <= 4,
        modulus > 0,
        row.switch(q_enable) == 0 || row.switch(q_enable) == 1,
    ensures
        ({
            let entries = ChunkRotateConversionConfig::of(
                q_enable,
                adv,
                fix_cols,
                slice,
                rotation,
            ).entries();
            let count = row.cur(adv.bc.block_count);
            let on = row.switch(q_enable) == 1;
            &&& entries[1]->Gate_0.holds(row, modulus) <==> (on ==> row.next(adv.input.acc) % modulus
                == (row.cur(adv.input.acc) - row.cur(adv.input.coef) * power(13, slice.0))
                % modulus)
            &&& entries[2]->Gate_0.holds(row, modulus) <==> (on ==> row.next(adv.output.acc)
                % modulus == (row.cur(adv.output.acc) + row.cur(adv.output.coef) * power(
                9,
                ((rotation + slice.0) % 64) as nat,
            )) % modulus)
            &&& entries[3]->Gate_0.holds(row, modulus) <==> (on ==> {
                &&& row.next(adv.bc.step2_acc) % modulus == (row.cur(adv.bc.step2_acc)
                    + if slice.1 == 2 {
                    count
                } else {
                    0
                }) % modulus
                &&& row.next(adv.bc.step3_acc) % modulus == (row.cur(adv.bc.step3_acc)
                    + if slice.1 == 3 {
                    count
                } else {
                    0
                }) % modulus
                &&& slice.1 == 1 || slice.1 == 4 ==> count % modulus == 0
            })
        }),
{
    let config = ChunkRotateConversionConfig::of(q_enable, adv, fix_cols, slice, rotation);
    law_chunk_gates(config, row, modulus);
}

/// The two entries of the special chunk: where the selector is on, the output accumulator
/// gains the special chunk at the place that the rotation gives to digit 0, and the input
/// accumulator and the special chunk are looked up in the table.
pub proof fn law_special_entries(config: SpecialChunkConfig, row: Row, modulus: int)
    requires
        modulus > 0,
        row.switch(config.q_enable) == 0 || row.switch(config.q_enable) == 1,
    ensures
        ({
            let entries = config.entries();
            let table = config.special_chunk_table_config;
            &&& entries.len() == 2
            &&& is_gate(entries[0], "validate base_9_acc"@, 1)
            &&& entries[0]->Gate_0.constraints[0].name
                == "delta_base_9_acc === (high_value + low_value) * 9**rotation"@
            &&& entries[0]->Gate_0.holds(row, modulus) <==> (row.switch(config.q_enable) == 1
                ==> row.next(config.base_9_acc) % modulus == (row.cur(config.base_9_acc) + row.cur(
                config.last_b9_coef,
            ) * power(9, config.rotation as nat)) % modulus)
            &&& entries[1] == EntryView::Lookup(
                LookupView {
                    selector: config.q_enable,
                    inputs: seq![config.base_13_acc, config.last_b9_coef],
                    table: seq![table.last_chunk, table.output_coef],
                },
            )
        }),
{
    if row.switch(config.q_enable) == 1 {
        law_special_gate_meaning(
            config.q_enable,
            config.base_9_acc,
            config.last_b9_coef,
            config.rotation as nat,
            row,
            modulus,
        );
    } else {
        let any = config.base_9_acc;
        law_gates_off(
            config.q_enable,
            RunningSumAdvices { coef: any, acc: any },
            BlockCountAdvices { block_count: any, step2_acc: any, step3_acc: any },
            config.last_b9_coef,
            config.rotation as nat,
            0,
            1,
            row,
            modulus,
        );
    }
}

/// What the final check is configured with, by name.
pub proof fn law_final_entries(config: BlockCountFinalConfig)
    ensures
        config.entries().len() == 4,
        is_gate(config.entries()[3], "block count final check"@, 2),
        config.entries()[3]->Gate_0.constraints[0].name == "step2_acc <=12"@,
        config.entries()[3]->Gate_0.constraints[1].name == "step3_acc <= 13 * 13"@,
{
}

/// The checks of a lane are made for the rotation of its place, with the next two selectors;
/// the special chunk takes the accumulators of the lane and the first auxiliary column.
pub proof fn law_lane_config(
    selectors: nat,
    lane_xy: (usize, usize),
    adv: RhoAdvices,
    axiliary: [AdviceColumn; 2],
    base13_to_9: [FixedColumn; 3],
    special: [FixedColumn; 2],
    i: int,
)
    requires
        lane_xy.0 < 5,
        lane_xy.1 < 5,
        selectors + 1 <= usize::MAX,
        0 <= i < slices_from(1, rotation_constant(lane_xy) as nat).len(),
    ensures
        ({
            let config = LaneConfigView::of(
                selectors,
                lane_xy,
                adv,
                axiliary,
                base13_to_9,
                special,
            );
            let slice = slices_from(1, config.rotation as nat)[i];
            let chunk = config.chunks[i];
            &&& config.rotation == ROTATION_CONSTANTS[lane_xy.0 as int][lane_xy.1 as int]
            &&& config.lane_xy == lane_xy
            &&& config.adv == adv
            &&& config.q_enable.index == selectors
            &&& config.q_is_special.index == selectors + 1
            &&& config.special.q_enable == config.q_is_special
            &&& config.special.last_b9_coef == axiliary[0]
            &&& config.special.rotation == config.rotation
            &&& config.special.base_13_acc == adv.input.acc
            &&& config.special.base_9_acc == adv.output.acc
            &&& config.special.special_chunk_table_config.last_chunk == special[0]
            &&& config.special.special_chunk_table_config.output_coef == special[1]
            &&& config.chunks.len() == slices_from(1, config.rotation as nat).len()
            &&& chunk.q_enable == config.q_enable
            &&& chunk.adv == adv
            &&& chunk.rotation == config.rotation
            &&& chunk.chunk_idx == slice.0
            &&& chunk.step == slice.1
            &&& chunk.block_count_acc_config.q_enable == config.q_enable
            &&& chunk.block_count_acc_config.bc == adv.bc
            &&& chunk.block_count_acc_config.step == slice.1
            &&& chunk.base_13_to_base_9_lookup.base13 == base13_to_9[0]
            &&& chunk.base_13_to_base_9_lookup.base9 == base13_to_9[1]
            &&& chunk.base_13_to_base_9_lookup.block_count == base13_to_9[2]
        }),
{
    let config = LaneConfigView::of(selectors, lane_xy, adv, axiliary, base13_to_9, special);
    law_configured_chunks_tile(selectors, lane_xy, adv, axiliary, base13_to_9, special);
    law_chunks_tile(1, config.rotation as nat);
    assert(config.slices()[i] == (
        config.chunks[i].chunk_idx as nat,
        config.chunks[i].step as nat,
    ));
}

/// The entries of a list of chunks stand four by four, in the order of the chunks.
pub proof fn law_chunks_entries(
    configs: Seq<ChunkRotateConversionConfig>,
    chunk: int,
    part: int,
)
    ensures
        chunks_entries(configs).len() == 4 * configs.len(),
        0 <= chunk < configs.len() && 0 <= part < 4 ==> chunks_entries(configs)[4 * chunk + part]
            == configs[chunk].entries()[part],
    decreases configs.len(),
{
    if configs.len() > 0 {
        law_chunks_entries(configs.drop_last(), chunk, part);
    }
}

/// A lane is configured with equality on its two accumulators and with its two selectors,
/// then with its chunks, then with the special chunk.
pub proof fn law_lane_entries(config: LaneConfigView, chunk: int, part: int)
    ensures
        ({
            let entries = config.entries();
            let count = config.chunks.len() as int;
            &&& entries.len() == 4 + 4 * count + 2
            &&& entries[0] == EntryView::EnableEquality(config.adv.input.acc)
            &&& entries[1] == EntryView::EnableEquality(config.adv.output.acc)
            &&& entries[2] == EntryView::NewSelector(config.q_enable)
            &&& entries[3] == EntryView::NewSelector(config.q_is_special)
            &&& 0 <= chunk < count && 0 <= part < 4 ==> entries[4 + 4 * chunk + part]
                == config.chunks[chunk].entries()[part]
            &&& entries[4 + 4 * count] == config.special.entries()[0]
            &&& entries[4 + 4 * count + 1] == config.special.entries()[1]
        }),
{
    law_chunks_entries(config.chunks, chunk, part);
}

/// A cell with a name and a value.
pub open spec fn named(
    name: Seq<char>,
    column: AdviceColumn,
    offset: nat,
    value: nat,
) -> AssignmentView {
    AssignmentView::Advice { label: LabelView::Text(name), column, offset, value }
}

/// The cells of a chunk's block count, in order, and which of them are handed back: the two
/// sums, with their values.
pub proof fn law_block_count_cells(
    config: BlockCountAccConfig,
    offset: nat,
    block_count: nat,
    sums: (nat, nat),
    block_counts: BlockCount2,
    before: nat,
)
    requires
        before + 2 <= usize::MAX,
    ensures
        ({
            let cells = config.assignments(offset, block_count, sums);
            &&& cells.len() == 3
            &&& cells[0] == named("block_count"@, config.bc.block_count, offset, block_count)
            &&& cells[1] == named("step 2 bc acc"@, config.bc.step2_acc, offset, sums.0)
            &&& cells[2] == named("step 3 bc acc"@, config.bc.step3_acc, offset, sums.1)
        }),
        config.hands_back(block_counts, before, sums) <==> {
            &&& block_counts.0.cell == Cell::Placed((before + 1) as usize)
            &&& block_counts.0.value@ == sums.0
            &&& block_counts.1.cell == Cell::Placed((before + 2) as usize)
            &&& block_counts.1.value@ == sums.1
        },
{
}

/// The cells of a chunk, in order: its part of the two running sums, its block count and the
/// two sums of block counts, all in one row.
pub proof fn law_chunk_cells(
    config: ChunkRotateConversionConfig,
    offset: nat,
    state: RotatingState,
    count: nat,
)
    requires
        state.block_count == Some(count),
    ensures
        ({
            let cells = config.assignments(offset, state);
            let adv = config.adv;
            let bc = config.block_count_acc_config.bc;
            &&& cells.len() == 7
            &&& cells[0] == named("Input Coef"@, adv.input.coef, offset, state.input_coef)
            &&& cells[1] == named("Input accumulator"@, adv.input.acc, offset, state.input_acc)
            &&& cells[2] == named("Output Coef"@, adv.output.coef, offset, state.output_coef)
            &&& cells[3] == named("Output accumulator"@, adv.output.acc, offset, state.output_acc)
            &&& cells[4] == named("block_count"@, bc.block_count, offset, count)
            &&& cells[5] == named("step 2 bc acc"@, bc.step2_acc, offset, state.block_count_acc.0)
            &&& cells[6] == named("step 3 bc acc"@, bc.step3_acc, offset, state.block_count_acc.1)
            &&& config.sum_assignments(offset, state) == cells.take(4)
        }),
{
    assert(config.sum_assignments(offset, state) =~= config.assignments(offset, state).take(4));
}

/// The cells of the special chunk, in order. The selector is turned on in its row; the row
/// after it holds zero and the whole output. The last of them is left out where the output does
/// not fit.
pub proof fn law_special_cells(config: SpecialChunkConfig, offset: nat, state: RotatingState)
    ensures
        ({
            let cells = config.assignments(offset, state);
            let whole = state.output_acc + state.output_power_of_base * state.output_coef;
            &&& cells.len() == 6
            &&& cells[0] == (AssignmentView::Enable { selector: config.q_enable, offset })
            &&& cells[1] == named("input_acc"@, config.base_13_acc, offset, state.input_acc)
            &&& cells[2] == named("ouput_acc"@, config.base_9_acc, offset, state.output_acc)
            &&& cells[3] == named("last_b9_coef"@, config.last_b9_coef, offset, state.output_coef)
            &&& cells[4] == named("input_acc"@, config.base_13_acc, offset + 1, 0)
            &&& cells[5] == named("input_acc"@, config.base_9_acc, offset + 1, whole)
            &&& config.open_assignments(offset, state) == cells.drop_last()
        }),
{
    assert(config.open_assignments(offset, state) =~= config.assignments(
        offset,
        state,
    ).drop_last());
}

/// The cells of the final check: for each lane, in the row of its number, the selector is
/// turned on, and each of its two sums is put in its column and tied to the cell that it comes
/// from.
pub proof fn law_final_cells(
    config: BlockCountFinalConfig,
    before: nat,
    block_counts: Seq<BlockCount2>,
    lane: int,
)
    requires
        0 <= lane < block_counts.len(),
        before + 5 * block_counts.len() <= usize::MAX,
    ensures
        ({
            let cells = config.assignments(before, block_counts);
            let sums = block_counts[lane];
            let start = 5 * lane;
            &&& cells.len() == 5 * block_counts.len()
            &&& cells[start] == (AssignmentView::Enable {
                selector: config.q_enable,
                offset: lane as nat,
            })
            &&& cells[start + 1] == (AssignmentView::Advice {
                label: LabelView::Step2Lane(lane as nat),
                column: config.block_count_cols[0],
                offset: lane as nat,
                value: sums.0.value@,
            })
            &&& cells[start + 2] == (AssignmentView::Equal {
                left: Cell::Placed((before + start + 1) as usize),
                right: sums.0.cell,
            })
            &&& cells[start + 3] == (AssignmentView::Advice {
                label: LabelView::Step3Lane(lane as nat),
                column: config.block_count_cols[1],
                offset: lane as nat,
                value: sums.1.value@,
            })
            &&& cells[start + 4] == (AssignmentView::Equal {
                left: Cell::Placed((before + start + 3) as usize),
                right: sums.1.cell,
            })
        }),
    decreases block_counts.len(),
{
    let less = block_counts.drop_last();
    lemma_final_cells_len(config, before, less);
    if lane < less.len() {
        law_final_cells(config, before, less, lane);
    }
}

proof fn lemma_final_cells_len(
    config: BlockCountFinalConfig,
    before: nat,
    block_counts: Seq<BlockCount2>,
)
    ensures
        config.assignments(before, block_counts).len() == 5 * block_counts.len(),
    decreases block_counts.len(),
{
    if block_counts.len() > 0 {
        lemma_final_cells_len(config, before, block_counts.drop_last());
    }
}

/// The place of a chunk's cells in the list of all chunks.
proof fn lemma_chunk_place_in_list(
    configs: Seq<ChunkRotateConversionConfig>,
    lane: nat,
    rotation: nat,
    count: nat,
    chunk: nat,
)
    ensures
        chunks_assignments(configs, 1, lane, rotation, count).len() == 7 * count,
        chunk < count ==> chunks_assignments(configs, 1, lane, rotation, count).subrange(
            7 * chunk as int,
            7 * chunk as int + 7,
        ) == configs[chunk as int].assignments(1 + chunk, state_after(lane, rotation, chunk)),
    decreases count,
{
    if count > 0 {
        let less = (count - 1) as nat;
        lemma_chunk_place_in_list(configs, lane, rotation, less, chunk);
        let whole = chunks_assignments(configs, 1, lane, rotation, count);
        let before = chunks_assignments(configs, 1, lane, rotation, less);
        if chunk < less {
            assert(whole.subrange(7 * chunk as int, 7 * chunk as int + 7) =~= before.subrange(
                7 * chunk as int,
                7 * chunk as int + 7,
            ));
        } else if chunk == less {
            assert(whole.subrange(7 * chunk as int, 7 * chunk as int + 7)
                =~= configs[chunk as int].assignments(1 + chunk, state_after(lane, rotation, chunk)));
        }
    }
}

/// The cells that a lane is assigned for one of its chunks, from the digits of the lane: the
/// chunk and what of the lane is left, the converted chunk and what of the output is there,
/// what the chunk counts, and what has been counted.
pub proof fn law_lane_chunk_cells(
    selectors: nat,
    lane_xy: (usize, usize),
    adv: RhoAdvices,
    axiliary: [AdviceColumn; 2],
    base13_to_9: [FixedColumn; 3],
    special: [FixedColumn; 2],
    before: nat,
    cell: Cell,
    lane: nat,
    chunk: nat,
)
    requires
        lane_xy.0 < 5,
        lane_xy.1 < 5,
        selectors + 1 <= usize::MAX,
        chunk < chunk_count(rotation_constant(lane_xy) as nat),
    ensures
        ({
            let rotation = rotation_constant(lane_xy) as nat;
            let list = LaneConfigView::of(
                selectors,
                lane_xy,
                adv,
                axiliary,
                base13_to_9,
                special,
            ).assignments(before, cell, lane);
            let slices = slices_from(1, rotation);
            let slice = slices[chunk as int];
            let value = chunk_of(lane, slice);
            let left = lane % 13 + power(13, slice.0) * (lane / power(13, slice.0));
            let start = 2 + 7 * chunk as int;
            let row = 1 + chunk;
            &&& list.len() == 2 + 7 * chunk_count(rotation) + 6
            &&& list[0] == named("base_13_col"@, adv.input.acc, 0, lane)
            &&& list[1] == (AssignmentView::Equal {
                left: cell,
                right: Cell::Placed(before as usize),
            })
            &&& list[start] == named("Input Coef"@, adv.input.coef, row, value)
            &&& list[start + 1] == named("Input accumulator"@, adv.input.acc, row, left)
            &&& list[start + 2] == named("Output Coef"@, adv.output.coef, row, reencode(value))
            &&& list[start + 3] == named(
                "Output accumulator"@,
                adv.output.acc,
                row,
                rotated_digits(lane, rotation, 1, slice.0),
            )
            &&& list[start + 4] == named(
                "block_count"@,
                adv.bc.block_count,
                row,
                chunk_cost(value),
            )
            &&& list[start + 5] == named(
                "step 2 bc acc"@,
                adv.bc.step2_acc,
                row,
                counted(lane, slices, 2, chunk),
            )
            &&& list[start + 6] == named(
                "step 3 bc acc"@,
                adv.bc.step3_acc,
                row,
                counted(lane, slices, 3, chunk),
            )
        }),
{
    let config = LaneConfigView::of(selectors, lane_xy, adv, axiliary, base13_to_9, special);
    let rotation = config.rotation as nat;
    let count = chunk_count(rotation);
    let list = config.assignments(before, cell, lane);
    law_rotation_constants(lane_xy);
    law_lane_config(selectors, lane_xy, adv, axiliary, base13_to_9, special, chunk as int);
    let state = state_after(lane, rotation, chunk);
    law_lane_runs(lane, rotation, chunk);
    lemma_rotation_stays(lane, rotation, chunk);
    law_sums_gather_counts(lane, rotation, chunk);
    let cost = chunk_cost(chunk_of(lane, slices_from(1, rotation)[chunk as int]));
    let own = config.chunks[chunk as int].assignments(1 + chunk, state);
    law_chunk_cells(config.chunks[chunk as int], 1 + chunk, state, cost);
    lemma_chunk_place_in_list(config.chunks, lane, rotation, count, chunk);
    let cells = chunks_assignments(config.chunks, 1, lane, rotation, count);
    let place = 7 * chunk as int;
    assert forall|part: int| 0 <= part < 7 implies #[trigger] list[2 + place + part]
        == own[part] by {
        assert(cells.subrange(place, place + 7)[part] == cells[place + part]);
        assert(list[2 + place + part] == cells[place + part]);
    }
    assert(list[2 + place + 0] == own[0]);
    assert(list[2 + place + 1] == own[1]);
    assert(list[2 + place + 2] == own[2]);
    assert(list[2 + place + 3] == own[3]);
    assert(list[2 + place + 4] == own[4]);
    assert(list[2 + place + 5] == own[5]);
    assert(list[2 + place + 6] == own[6]);
}

/// The cells that a lane is assigned for its special chunk: the lowest digit is what is left of
/// the lane, its parity completes the output, and the row after it holds zero and the rotated
/// lane.
pub proof fn law_lane_special_cells(
    selectors: nat,
    lane_xy: (usize, usize),
    adv: RhoAdvices,
    axiliary: [AdviceColumn; 2],
    base13_to_9: [FixedColumn; 3],
    special: [FixedColumn; 2],
    before: nat,
    cell: Cell,
    lane: nat,
)
    requires
        lane_xy.0 < 5,
        lane_xy.1 < 5,
        selectors + 1 <= usize::MAX,
        accepted_lane(lane, rotation_constant(lane_xy) as nat),
    ensures
        ({
            let rotation = rotation_constant(lane_xy) as nat;
            let list = LaneConfigView::of(
                selectors,
                lane_xy,
                adv,
                axiliary,
                base13_to_9,
                special,
            ).assignments(before, cell, lane);
            let start = 2 + 7 * chunk_count(rotation) as int;
            let row = 1 + chunk_count(rotation);
            &&& list.len() == start + 6
            &&& list[start] == (AssignmentView::Enable {
                selector: Selector { index: (selectors + 1) as usize },
                offset: row,
            })
            &&& list[start + 1] == named("input_acc"@, adv.input.acc, row, lane % 13)
            &&& list[start + 2] == named(
                "ouput_acc"@,
                adv.output.acc,
                row,
                rotated_digits(lane, rotation, 1, 64),
            )
            &&& list[start + 3] == named("last_b9_coef"@, axiliary[0], row, (lane % 13) % 2)
            &&& list[start + 4] == named("input_acc"@, adv.input.acc, row + 1, 0)
            &&& list[start + 5] == named(
                "input_acc"@,
                adv.output.acc,
                row + 1,
                rotated_lane(lane, rotation),
            )
        }),
{
    let config = LaneConfigView::of(selectors, lane_xy, adv, axiliary, base13_to_9, special);
    let rotation = config.rotation as nat;
    let count = chunk_count(rotation);
    let list = config.assignments(before, cell, lane);
    law_rotation_constants(lane_xy);
    law_chunks_tile(1, rotation);
    law_lane_config(selectors, lane_xy, adv, axiliary, base13_to_9, special, 0);
    law_lane_rotates(lane, rotation);
    lemma_rotation_stays(lane, rotation, count);
    let state = state_after(lane, rotation, count);
    law_special_cells(config.special, 1 + count, state);
    lemma_chunk_place_in_list(config.chunks, lane, rotation, count, 0);
    let own = config.special.assignments(1 + count, state);
    let start = 2 + 7 * count as int;
    assert(power(13, 64) * 0 == 0) by (nonlinear_arith);
    assert(list[start + 0] == own[0]);
    assert(list[start + 1] == own[1]);
    assert(list[start + 2] == own[2]);
    assert(list[start + 3] == own[3]);
    assert(list[start + 4] == own[4]);
    assert(list[start + 5] == own[5]);
}

} // verus!
