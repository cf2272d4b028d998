//! What holds of the checks of a lane as a whole: what they are configured with, and
//! that the cells which are assigned meet them.

use vstd::prelude::*;

use crate::chunks::{law_chunks_tile, slices_from, tiles, LANE_SIZE};
use crate::circuit::{
    AdviceColumn, AssignmentView, Cell, EntryView, FixedColumn, LookupView, Rotation, Row, Selector,
};
use crate::lane_config::{
    chunks_assignments, chunks_entries, law_rotation_constants, rotation_constant, LaneConfigView,
};
use crate::power::power;
use crate::rho_checks::{
    BlockCountAdvices, BlockCountFinalConfig, ChunkRotateConversionConfig, RhoAdvices,
    RunningSumAdvices,
};
use crate::rho_laws::{
    is_prime_modulus, law_block_count_gate_meaning, law_chunk_is_in_table, law_final_gate_meaning, law_gates_off,
    law_in_range, law_running_gates_hold, law_running_gates_meaning,
    law_special_chunk_is_in_table, law_special_gate_holds,
};
use crate::rotation_laws::{
    accepted_lane, chunk_count, law_lane_rotates, law_lane_runs, rotated_lane, state_after,
};
use crate::tables::{base_13_to_base_9_rows, special_chunk_rows, CHUNK_VALUES};

verus! {

/// The chunks of a lane are configured one for each slice of the lane, in order, all
/// with the selector and the rotation of the lane. They tile the digits from 1 up to
/// `LANE_SIZE`, and none reaches over the rotation offset.
pub proof fn law_configured_chunks_tile(
    selectors: nat,
    lane_xy: (usize, usize),
    adv: RhoAdvices,
    axiliary: [AdviceColumn; 2],
    base13_to_9: [FixedColumn; 3],
    special: [FixedColumn; 2],
)
    requires
        lane_xy.0 < 5,
        lane_xy.1 < 5,
    ensures
        ({
            let config = LaneConfigView::of(
                selectors,
                lane_xy,
                adv,
                axiliary,
                base13_to_9,
                special,
            );
            &&& config.well_formed()
            &&& config.rotation == rotation_constant(lane_xy)
            &&& config.slices() == slices_from(1, config.rotation as nat)
            &&& tiles(config.slices(), 1, config.rotation as nat)
            &&& config.chunks.len() == chunk_count(config.rotation as nat)
            &&& forall|i: int|
                0 <= i < config.chunks.len() ==> {
                    let chunk = #[trigger] config.chunks[i];
                    &&& (chunk.chunk_idx as nat, chunk.step as nat) == config.slices()[i]
                    &&& chunk.q_enable == config.q_enable
                    &&& chunk.rotation == config.rotation
                    &&& chunk.adv == adv
                    &&& chunk.block_count_acc_config.bc == adv.bc
                }
        }),
{
    let config = LaneConfigView::of(selectors, lane_xy, adv, axiliary, base13_to_9, special);
    let rotation = config.rotation as nat;
    law_rotation_constants(lane_xy);
    law_chunks_tile(1, rotation);
    let cut = slices_from(1, rotation);
    lemma_tile_bounds(cut, rotation);
    assert(config.slices() =~= cut);
}

/// Chunks that tile a lane stay within it.
proof fn lemma_tile_bounds(slices: Seq<(nat, nat)>, rotation: nat)
    requires
        tiles(slices, 1, rotation),
    ensures
        forall|i: int| 0 <= i < slices.len() ==> (#[trigger] slices[i]).0 < LANE_SIZE,
{
    assert forall|i: int| 0 <= i < slices.len() implies (#[trigger] slices[i]).0 < LANE_SIZE by {
        lemma_tile_bound(slices, rotation, i);
    }
}

proof fn lemma_tile_bound(slices: Seq<(nat, nat)>, rotation: nat, i: int)
    requires
        tiles(slices, 1, rotation),
        0 <= i < slices.len(),
    ensures
        slices[i].0 < LANE_SIZE,
    decreases slices.len() - i,
{
    if i < slices.len() - 1 {
        lemma_tile_bound(slices, rotation, i + 1);
        assert(slices[i + 1].0 == slices[i].0 + slices[i].1);
    }
}

/// Of the two auxiliary columns only the first is used: the checks of a lane are the
/// same whatever the second is. The two columns through which the lane goes in and
/// comes out take part in equality constraints.
pub proof fn law_second_auxiliary_is_unused(
    selectors: nat,
    lane_xy: (usize, usize),
    adv: RhoAdvices,
    axiliary: [AdviceColumn; 2],
    other: [AdviceColumn; 2],
    base13_to_9: [FixedColumn; 3],
    special: [FixedColumn; 2],
)
    requires
        axiliary[0] == other[0],
    ensures
        ({
            let config = LaneConfigView::of(
                selectors,
                lane_xy,
                adv,
                axiliary,
                base13_to_9,
                special,
            );
            let same = LaneConfigView::of(selectors, lane_xy, adv, other, base13_to_9, special);
            &&& config == same
            &&& config.entries() == same.entries()
            &&& config.entries()[0] == EntryView::EnableEquality(adv.input.acc)
            &&& config.entries()[1] == EntryView::EnableEquality(adv.output.acc)
        }),
{
}

/// The gates of a configured chunk. Where the selector is on, the first holds exactly
/// where the input accumulator loses the chunk at its place in base 13, and the second
/// exactly where the output accumulator gains the converted chunk at its rotated place
/// in base 9. The third holds exactly where the sum for the chunk's number of digits
/// moves by its block count and the other one stays; a chunk of one or of four digits
/// moves neither, and has no block count. Where the selector is off, all three hold of
/// any values.
pub proof fn law_chunk_gates(config: ChunkRotateConversionConfig, row: Row, modulus: int)
    requires
        modulus > 0,
        row.switch(config.q_enable) == 0 || row.switch(config.q_enable) == 1,
    ensures
        config.entries()[1] matches EntryView::Gate(gate) && (gate.holds(row, modulus) <==> (
        row.switch(config.q_enable) == 1 ==> row.next(config.adv.input.acc) % modulus == (row.cur(
            config.adv.input.acc,
        ) - row.cur(config.adv.input.coef) * power(13, config.chunk_idx as nat)) % modulus)),
        config.entries()[2] matches EntryView::Gate(gate) && (gate.holds(row, modulus) <==> (
        row.switch(config.q_enable) == 1 ==> row.next(config.adv.output.acc) % modulus == (row.cur(
            config.adv.output.acc,
        ) + row.cur(config.adv.output.coef) * power(
            9,
            (config.rotation as nat + config.chunk_idx as nat) % LANE_SIZE as nat,
        )) % modulus)),
        1 <= config.step <= 4 ==> (config.entries()[3] matches EntryView::Gate(gate) && (gate.holds(
            row,
            modulus,
        ) <==> (row.switch(config.q_enable) == 1 ==> {
            let bc = config.adv.bc;
            let count = row.cur(bc.block_count);
            &&& row.next(bc.step2_acc) % modulus == (row.cur(bc.step2_acc) + if config.step == 2 {
                count
            } else {
                0
            }) % modulus
            &&& row.next(bc.step3_acc) % modulus == (row.cur(bc.step3_acc) + if config.step == 3 {
                count
            } else {
                0
            }) % modulus
            &&& config.step == 1 || config.step == 4 ==> count % modulus == 0
        }))),
{
    let adv = config.adv;
    let rotation = config.rotation as nat;
    let chunk_idx = config.chunk_idx as nat;
    let step = config.step as nat;
    if row.switch(config.q_enable) == 1 {
        law_running_gates_meaning(
            config.q_enable,
            adv.input,
            adv.output,
            rotation,
            chunk_idx,
            row,
            modulus,
        );
        if 1 <= config.step <= 4 {
            law_block_count_gate_meaning(config.q_enable, adv.bc, step, row, modulus);
        }
    } else {
        let any = adv.input.acc;
        let q_enable = config.q_enable;
        law_gates_off(q_enable, adv.input, adv.bc, any, rotation, chunk_idx, step, row, modulus);
        law_gates_off(q_enable, adv.output, adv.bc, any, rotation, chunk_idx, step, row, modulus);
    }
}

/// Every selector in a list is numbered below `selectors`.
pub open spec fn numbered(entries: Seq<EntryView>, selectors: nat) -> bool {
    forall|i: int|
        0 <= i < entries.len() ==> (#[trigger] entries[i] matches EntryView::NewSelector(selector)
            ==> selector.index < selectors)
}

/// The final check of the block counts. It comes with a selector that no earlier entry
/// made, and with equality on both columns. Where that selector is on, it is met exactly
/// where the two sums are, as elements of the field, at most 12 and at most 169. Where
/// that selector is off, it is met by any values.
pub proof fn law_final_check(
    entries: Seq<EntryView>,
    selectors: nat,
    config: BlockCountFinalConfig,
    row: Row,
    modulus: int,
)
    requires
        numbered(entries, selectors),
        config.q_enable.index == selectors,
        is_prime_modulus(modulus),
        row.switch(config.q_enable) == 0 || row.switch(config.q_enable) == 1,
    ensures
        !entries.contains(EntryView::NewSelector(config.q_enable)),
        numbered(entries + config.entries(), selectors + 1),
        config.entries()[0] == EntryView::NewSelector(config.q_enable),
        config.entries()[1] == EntryView::EnableEquality(config.block_count_cols[0]),
        config.entries()[2] == EntryView::EnableEquality(config.block_count_cols[1]),
        config.entries()[3] matches EntryView::Gate(gate) && (gate.holds(row, modulus) <==> (
        row.switch(config.q_enable) == 1 ==> row.cur(config.block_count_cols[0]) % modulus <= 12
            && row.cur(config.block_count_cols[1]) % modulus <= 169)),
{
    let step2_acc = config.block_count_cols[0];
    let step3_acc = config.block_count_cols[1];
    if row.switch(config.q_enable) == 1 {
        law_final_gate_meaning(config.q_enable, step2_acc, step3_acc, row, modulus);
        law_in_range(row.cur(step2_acc), 12, modulus);
        law_in_range(row.cur(step3_acc), 169, modulus);
    } else {
        let running = RunningSumAdvices { coef: step2_acc, acc: step2_acc };
        let bc = BlockCountAdvices {
            block_count: step2_acc,
            step2_acc,
            step3_acc,
        };
        law_gates_off(config.q_enable, running, bc, step3_acc, 0, 0, 1, row, modulus);
    }
    let both = entries + config.entries();
    assert forall|i: int| 0 <= i < both.len() implies (
    #[trigger] both[i] matches EntryView::NewSelector(selector) ==> selector.index < selectors
        + 1) by {
        if i < entries.len() {
            assert(both[i] == entries[i]);
        }
    }
}

/// The values of a region's cells, and where its selectors are on.
pub struct Grid {
    pub advice: spec_fn(AdviceColumn, nat) -> int,
    pub selectors: spec_fn(Selector, nat) -> int,
}

impl Grid {
    /// What a gate sees at a row.
    pub open spec fn row(self, offset: nat) -> Row {
        Row {
            advice: |column: AdviceColumn, rotation: Rotation|
                match rotation {
                    Rotation::Cur => (self.advice)(column, offset),
                    Rotation::Next => (self.advice)(column, offset + 1),
                },
            selectors: |selector: Selector| (self.selectors)(selector, offset),
        }
    }

    /// Every cell that the list assigns holds the value that it is assigned.
    pub open spec fn is_filled_by(self, list: Seq<AssignmentView>) -> bool {
        forall|i: int|
            0 <= i < list.len() ==> (#[trigger] list[i] matches AssignmentView::Advice {
                column,
                offset,
                value,
                ..
            } ==> (self.advice)(column, offset) == value)
    }

    /// A selector is on exactly where the list turns it on.
    pub open spec fn is_switched_by(self, list: Seq<AssignmentView>) -> bool {
        forall|selector: Selector, offset: nat| #[trigger]
            (self.selectors)(selector, offset) == if list.contains(
                AssignmentView::Enable { selector, offset },
            ) {
                1int
            } else {
                0int
            }
    }
}

/// Whether an assignment gives a value to a cell.
pub open spec fn is_cell(assignment: AssignmentView, column: AdviceColumn, offset: nat) -> bool {
    assignment matches AssignmentView::Advice { column: c, offset: o, .. } && c == column && o
        == offset
}

/// No cell is assigned twice.
pub open spec fn assigns_once(list: Seq<AssignmentView>) -> bool {
    forall|i: int, j: int, column: AdviceColumn, offset: nat|
        0 <= i < list.len() && 0 <= j < list.len() && #[trigger] is_cell(list[i], column, offset)
            && #[trigger] is_cell(list[j], column, offset) ==> i == j
}

/// The grid that a list leaves.
pub open spec fn grid_of(list: Seq<AssignmentView>) -> Grid {
    Grid {
        advice: |column: AdviceColumn, offset: nat|
            {
                let i = choose|i: int|
                    0 <= i < list.len() && #[trigger] is_cell(list[i], column, offset);
                list[i]->value as int
            },
        selectors: |selector: Selector, offset: nat|
            if list.contains(AssignmentView::Enable { selector, offset }) {
                1int
            } else {
                0int
            },
    }
}

/// A list that assigns no cell twice leaves a grid that holds all it assigns.
pub proof fn law_grid_of_list(list: Seq<AssignmentView>)
    requires
        assigns_once(list),
    ensures
        grid_of(list).is_filled_by(list),
        grid_of(list).is_switched_by(list),
{
    let grid = grid_of(list);
    assert forall|i: int| 0 <= i < list.len() implies (
    #[trigger] list[i] matches AssignmentView::Advice { column, offset, value, .. } ==> (
    grid.advice)(column, offset) == value) by {
        if let AssignmentView::Advice { column, offset, value, .. } = list[i] {
            assert(is_cell(list[i], column, offset));
            let j = choose|j: int|
                0 <= j < list.len() && #[trigger] is_cell(list[j], column, offset);
            assert(is_cell(list[j], column, offset));
            assert(i == j);
        }
    }
}

/// The cells of the chunks stand one chunk after the other, seven to each.
proof fn lemma_chunk_cells(
    configs: Seq<ChunkRotateConversionConfig>,
    lane: nat,
    rotation: nat,
    count: nat,
    chunk: nat,
    place: int,
)
    requires
        chunk < count,
        0 <= place < 7,
    ensures
        chunks_assignments(configs, 1, lane, rotation, count).len() == 7 * count,
        chunks_assignments(configs, 1, lane, rotation, count)[7 * chunk + place]
            == configs[chunk as int].assignments(1 + chunk, state_after(lane, rotation, chunk))[place],
    decreases count,
{
    let less = (count - 1) as nat;
    lemma_chunk_cells_len(configs, lane, rotation, less);
    if chunk < less {
        lemma_chunk_cells(configs, lane, rotation, less, chunk, place);
    }
}

proof fn lemma_chunk_cells_len(
    configs: Seq<ChunkRotateConversionConfig>,
    lane: nat,
    rotation: nat,
    count: nat,
)
    ensures
        chunks_assignments(configs, 1, lane, rotation, count).len() == 7 * count,
    decreases count,
{
    if count > 0 {
        lemma_chunk_cells_len(configs, lane, rotation, (count - 1) as nat);
    }
}

/// What a grid holds at the row of a chunk.
proof fn lemma_chunk_row(
    config: LaneConfigView,
    before: nat,
    cell: Cell,
    lane: nat,
    grid: Grid,
    chunk: nat,
)
    requires
        chunk < chunk_count(config.rotation as nat),
        grid.is_filled_by(config.assignments(before, cell, lane)),
    ensures
        ({
            let adv = config.chunks[chunk as int].adv;
            let bc = config.chunks[chunk as int].block_count_acc_config.bc;
            let state = state_after(lane, config.rotation as nat, chunk);
            &&& (grid.advice)(adv.input.coef, 1 + chunk) == state.input_coef
            &&& (grid.advice)(adv.input.acc, 1 + chunk) == state.input_acc
            &&& (grid.advice)(adv.output.coef, 1 + chunk) == state.output_coef
            &&& (grid.advice)(adv.output.acc, 1 + chunk) == state.output_acc
            &&& (grid.advice)(bc.block_count, 1 + chunk) == state.block_count->Some_0
        }),
{
    let rotation = config.rotation as nat;
    let count = chunk_count(rotation);
    let list = config.assignments(before, cell, lane);
    let cells = chunks_assignments(config.chunks, 1, lane, rotation, count);
    let state = state_after(lane, rotation, chunk);
    let own = config.chunks[chunk as int].assignments(1 + chunk, state);
    let start = 2 + 7 * chunk as int;
    assert forall|place: int| 0 <= place < 7 implies #[trigger] own[place] == list[start
        + place] by {
        lemma_chunk_cells(config.chunks, lane, rotation, count, chunk, place);
        assert(list[start + place] == cells[7 * chunk + place]);
    }
    lemma_chunk_cells_len(config.chunks, lane, rotation, count);
    assert(list[start + 0] == own[0]);
    assert(list[start + 1] == own[1]);
    assert(list[start + 2] == own[2]);
    assert(list[start + 3] == own[3]);
    assert(list[start + 4] == own[4]);
}

/// What a grid holds at the row of the special chunk and the one after it.
proof fn lemma_special_row_cells(
    config: LaneConfigView,
    before: nat,
    cell: Cell,
    lane: nat,
    grid: Grid,
)
    requires
        grid.is_filled_by(config.assignments(before, cell, lane)),
    ensures
        ({
            let special = config.special;
            let offset = config.special_offset();
            let state = config.last_state(lane);
            &&& (grid.advice)(special.base_13_acc, offset) == state.input_acc
            &&& (grid.advice)(special.base_9_acc, offset) == state.output_acc
            &&& (grid.advice)(special.last_b9_coef, offset) == state.output_coef
            &&& (grid.advice)(special.base_13_acc, offset + 1) == 0
            &&& (grid.advice)(special.base_9_acc, offset + 1) == state.finalize().output_acc
        }),
{
    let list = config.assignments(before, cell, lane);
    let chunks = config.chunk_assignments(before, cell, lane);
    let own = config.special.assignments(config.special_offset(), config.last_state(lane));
    let start = chunks.len() as int;
    assert(list[start + 1] == own[1]);
    assert(list[start + 2] == own[2]);
    assert(list[start + 3] == own[3]);
    assert(list[start + 4] == own[4]);
    assert(list[start + 5] == own[5]);
}

/// On the row of each chunk, the cells that a lane is assigned meet the gates of the
/// two running sums that the chunk is configured with, whatever the selectors, and are
/// a row of the conversion table.
pub proof fn law_chunk_rows_meet_gates(
    selectors: nat,
    lane_xy: (usize, usize),
    adv: RhoAdvices,
    axiliary: [AdviceColumn; 2],
    base13_to_9: [FixedColumn; 3],
    special: [FixedColumn; 2],
    before: nat,
    cell: Cell,
    lane: nat,
    grid: Grid,
    chunk: nat,
    modulus: int,
)
    requires
        lane_xy.0 < 5,
        lane_xy.1 < 5,
        accepted_lane(lane, rotation_constant(lane_xy) as nat),
        chunk < chunk_count(rotation_constant(lane_xy) as nat),
        grid.is_filled_by(
            LaneConfigView::of(
                selectors,
                lane_xy,
                adv,
                axiliary,
                base13_to_9,
                special,
            ).assignments(before, cell, lane),
        ),
        modulus > 0,
    ensures
        ({
            let config = LaneConfigView::of(
                selectors,
                lane_xy,
                adv,
                axiliary,
                base13_to_9,
                special,
            );
            let entries = config.chunks[chunk as int].entries();
            let row = grid.row(1 + chunk);
            &&& entries[1] matches EntryView::Gate(gate) && gate.holds(row, modulus)
            &&& entries[2] matches EntryView::Gate(gate) && gate.holds(row, modulus)
            &&& entries[0] matches EntryView::Lookup(lookup) && base_13_to_base_9_rows(
                CHUNK_VALUES as nat,
            ).contains(lookup_inputs(lookup, row))
        }),
{
    let config = LaneConfigView::of(selectors, lane_xy, adv, axiliary, base13_to_9, special);
    law_configured_chunks_tile(selectors, lane_xy, adv, axiliary, base13_to_9, special);
    let rotation = config.rotation as nat;
    let count = chunk_count(rotation);
    let state = state_after(lane, rotation, chunk);
    let own = config.chunks[chunk as int];
    let row = grid.row(1 + chunk);
    law_lane_runs(lane, rotation, chunk);
    lemma_chunk_row(config, before, cell, lane, grid, chunk);
    assert(state_after(lane, rotation, chunk + 1) == state.next());
    if chunk + 1 < count {
        assert(config.chunks[chunk as int + 1].adv == adv);
        lemma_chunk_row(config, before, cell, lane, grid, chunk + 1);
    } else {
        lemma_special_row_cells(config, before, cell, lane, grid);
    }
    assert((own.chunk_idx as nat, own.step as nat) == config.slices()[chunk as int]);
    assert(state.rotation == rotation) by {
        lemma_rotation_stays(lane, rotation, chunk);
    }
    law_running_gates_hold(state, lane, own.q_enable, adv.input, adv.output, row, modulus);
    law_chunk_is_in_table(state, lane);
    assert(own.entries()[0]->Lookup_0.inputs =~= seq![
        adv.input.coef,
        adv.output.coef,
        adv.bc.block_count,
    ]);
    assert(lookup_inputs(own.entries()[0]->Lookup_0, row) =~= seq![
        state.input_coef,
        state.output_coef,
        state.block_count->Some_0,
    ]);
}

/// The rotation stays the same from chunk to chunk.
pub proof fn lemma_rotation_stays(lane: nat, rotation: nat, count: nat)
    ensures
        state_after(lane, rotation, count).rotation == rotation,
    decreases count,
{
    if count > 0 {
        lemma_rotation_stays(lane, rotation, (count - 1) as nat);
    }
}

/// What a lookup looks for at a row.
pub open spec fn lookup_inputs(lookup: LookupView, row: Row) -> Seq<nat> {
    lookup.inputs.map_values(|column: AdviceColumn| row.cur(column) as nat)
}

/// On the row of the special chunk, the cells that a lane is assigned meet `special_gate`
/// as the special chunk is configured with it, whatever the selectors, and are a row of
/// its table. The row after it holds zero and the rotated lane.
pub proof fn law_special_row_meets_gate(
    selectors: nat,
    lane_xy: (usize, usize),
    adv: RhoAdvices,
    axiliary: [AdviceColumn; 2],
    base13_to_9: [FixedColumn; 3],
    special: [FixedColumn; 2],
    before: nat,
    cell: Cell,
    lane: nat,
    grid: Grid,
    modulus: int,
)
    requires
        lane_xy.0 < 5,
        lane_xy.1 < 5,
        accepted_lane(lane, rotation_constant(lane_xy) as nat),
        grid.is_filled_by(
            LaneConfigView::of(
                selectors,
                lane_xy,
                adv,
                axiliary,
                base13_to_9,
                special,
            ).assignments(before, cell, lane),
        ),
        modulus > 0,
    ensures
        ({
            let config = LaneConfigView::of(
                selectors,
                lane_xy,
                adv,
                axiliary,
                base13_to_9,
                special,
            );
            let entries = config.special.entries();
            let row = grid.row(config.special_offset());
            &&& entries[0] matches EntryView::Gate(gate) && gate.holds(row, modulus)
            &&& entries[1] matches EntryView::Lookup(lookup) && special_chunk_rows(13).contains(
                lookup_inputs(lookup, row),
            )
            &&& row.next(adv.input.acc) == 0
            &&& row.next(adv.output.acc) == rotated_lane(
                lane,
                config.rotation as nat,
            )
        }),
{
    let config = LaneConfigView::of(selectors, lane_xy, adv, axiliary, base13_to_9, special);
    law_configured_chunks_tile(selectors, lane_xy, adv, axiliary, base13_to_9, special);
    let rotation = config.rotation as nat;
    let state = config.last_state(lane);
    let own = config.special;
    let row = grid.row(config.special_offset());
    law_lane_rotates(lane, rotation);
    lemma_special_row_cells(config, before, cell, lane, grid);
    lemma_rotation_stays(lane, rotation, chunk_count(rotation));
    law_special_gate_holds(
        state,
        lane,
        own.q_enable,
        own.base_9_acc,
        own.last_b9_coef,
        row,
        modulus,
    );
    law_special_chunk_is_in_table(state, lane);
    assert(own.entries()[1]->Lookup_0.inputs =~= seq![own.base_13_acc, own.last_b9_coef]);
    assert(lookup_inputs(own.entries()[1]->Lookup_0, row) =~= seq![
        state.input_acc,
        state.output_coef,
    ]);
}

/// Whether a row meets one entry of a circuit: the polynomials of a gate vanish, and
/// where its selector is on, what a lookup looks for is a row of its table.
pub open spec fn is_met(
    entry: EntryView,
    row: Row,
    tables: spec_fn(Seq<FixedColumn>) -> Seq<Seq<nat>>,
    modulus: int,
) -> bool {
    match entry {
        EntryView::Gate(gate) => gate.holds(row, modulus),
        EntryView::Lookup(lookup) => row.switch(lookup.selector) != 0 ==> tables(
            lookup.table,
        ).contains(lookup_inputs(lookup, row)),
        _ => true,
    }
}

/// Every entry of a list of chunks is one of the four of a chunk.
proof fn lemma_chunk_entry(configs: Seq<ChunkRotateConversionConfig>, index: int) -> (found: (
    int,
    int,
))
    requires
        0 <= index < chunks_entries(configs).len(),
    ensures
        0 <= found.0 < configs.len(),
        0 <= found.1 < 4,
        chunks_entries(configs)[index] == configs[found.0].entries()[found.1],
    decreases configs.len(),
{
    let less = configs.drop_last();
    let before = chunks_entries(less);
    if index < before.len() {
        lemma_chunk_entry(less, index)
    } else {
        (configs.len() - 1, index - before.len())
    }
}

/// A chunk turns no selector on.
proof fn lemma_chunks_enable_nothing(
    configs: Seq<ChunkRotateConversionConfig>,
    lane: nat,
    rotation: nat,
    count: nat,
)
    ensures
        forall|i: int|
            0 <= i < chunks_assignments(configs, 1, lane, rotation, count).len() ==> (
            #[trigger] chunks_assignments(configs, 1, lane, rotation, count)[i]) is Advice,
    decreases count,
{
    if count > 0 {
        lemma_chunks_enable_nothing(configs, lane, rotation, (count - 1) as nat);
    }
}

/// A lane turns on the selector of the special chunk in its row, and nothing else.
proof fn lemma_lane_enables(
    config: LaneConfigView,
    before: nat,
    cell: Cell,
    lane: nat,
    selector: Selector,
    offset: nat,
)
    requires
        config.special.q_enable == config.q_is_special,
    ensures
        config.assignments(before, cell, lane).contains(AssignmentView::Enable { selector, offset })
            <==> selector == config.q_is_special && offset == config.special_offset(),
{
    let list = config.assignments(before, cell, lane);
    let head = config.head_assignments(before, cell, lane);
    let rotation = config.rotation as nat;
    let cells = chunks_assignments(config.chunks, 1, lane, rotation, chunk_count(rotation));
    let own = config.special.assignments(config.special_offset(), config.last_state(lane));
    let wanted = AssignmentView::Enable { selector, offset };
    lemma_chunks_enable_nothing(config.chunks, lane, rotation, chunk_count(rotation));
    assert(list[(head.len() + cells.len()) as int] == own[0]);
    if list.contains(wanted) {
        let i = choose|i: int| 0 <= i < list.len() && list[i] == wanted;
        if head.len() <= i < head.len() + cells.len() {
            assert(list[i] == cells[i - head.len()]);
        } else if i >= head.len() + cells.len() {
            assert(list[i] == own[i - head.len() - cells.len()]);
        }
    }
}

/// The cells and selectors that a lane is assigned meet, on every row, every gate and
/// every lookup that the lane is configured with.
pub proof fn law_lane_meets_its_checks(
    selectors: nat,
    lane_xy: (usize, usize),
    adv: RhoAdvices,
    axiliary: [AdviceColumn; 2],
    base13_to_9: [FixedColumn; 3],
    special: [FixedColumn; 2],
    before: nat,
    cell: Cell,
    lane: nat,
    grid: Grid,
    tables: spec_fn(Seq<FixedColumn>) -> Seq<Seq<nat>>,
    index: int,
    offset: nat,
    modulus: int,
)
    requires
        lane_xy.0 < 5,
        lane_xy.1 < 5,
        selectors + 1 <= usize::MAX,
        accepted_lane(lane, rotation_constant(lane_xy) as nat),
        ({
            let config = LaneConfigView::of(
                selectors,
                lane_xy,
                adv,
                axiliary,
                base13_to_9,
                special,
            );
            &&& grid.is_filled_by(config.assignments(before, cell, lane))
            &&& grid.is_switched_by(config.assignments(before, cell, lane))
            &&& 0 <= index < config.entries().len()
        }),
        tables(seq![special[0], special[1]]) == special_chunk_rows(13),
        modulus > 0,
    ensures
        is_met(
            LaneConfigView::of(
                selectors,
                lane_xy,
                adv,
                axiliary,
                base13_to_9,
                special,
            ).entries()[index],
            grid.row(offset),
            tables,
            modulus,
        ),
{
    let config = LaneConfigView::of(selectors, lane_xy, adv, axiliary, base13_to_9, special);
    law_configured_chunks_tile(selectors, lane_xy, adv, axiliary, base13_to_9, special);
    let row = grid.row(offset);
    let entries = config.entries();
    let chunks = chunks_entries(config.chunks);
    lemma_lane_enables(config, before, cell, lane, config.q_enable, offset);
    lemma_lane_enables(config, before, cell, lane, config.q_is_special, offset);
    assert((grid.selectors)(config.q_enable, offset) == 0);
    if index < 4 {
    } else if index < 4 + chunks.len() {
        let (chunk, part) = lemma_chunk_entry(config.chunks, index - 4);
        let own = config.chunks[chunk];
        assert(entries[index] == own.entries()[part]);
        let rotation = own.rotation as nat;
        let chunk_idx = own.chunk_idx as nat;
        let step = own.step as nat;
        let any = adv.input.acc;
        law_gates_off(own.q_enable, adv.input, adv.bc, any, rotation, chunk_idx, step, row, modulus);
        law_gates_off(own.q_enable, adv.output, adv.bc, any, rotation, chunk_idx, step, row, modulus);
    } else {
        let part = index - 4 - chunks.len();
        let own = config.special;
        assert(entries[index] == own.entries()[part]);
        if offset == config.special_offset() {
            law_special_row_meets_gate(
                selectors,
                lane_xy,
                adv,
                axiliary,
                base13_to_9,
                special,
                before,
                cell,
                lane,
                grid,
                modulus,
            );
            assert(own.entries()[1]->Lookup_0.table =~= seq![special[0], special[1]]);
        } else {
            law_gates_off(
                own.q_enable,
                adv.output,
                adv.bc,
                own.last_b9_coef,
                own.rotation as nat,
                0,
                1,
                row,
                modulus,
            );
        }
    }
}

/// The columns of a lane in the order in which a chunk fills them, and the column of
/// the special chunk.
pub open spec fn lane_columns(adv: RhoAdvices, last_b9_coef: AdviceColumn) -> Seq<AdviceColumn> {
    seq![
        adv.input.coef,
        adv.input.acc,
        adv.output.coef,
        adv.output.acc,
        adv.bc.block_count,
        adv.bc.step2_acc,
        adv.bc.step3_acc,
        last_b9_coef,
    ]
}

/// The column and the row of the cell at each place of a lane's list; places that
/// assign no value have none.
proof fn lemma_lane_cell(config: LaneConfigView, before: nat, cell: Cell, lane: nat, i: int) -> (
    found: (int, nat))
    requires
        config.well_formed(),
        config.chunks.len() == chunk_count(config.rotation as nat),
        forall|k: int|
            0 <= k < config.chunks.len() ==> (#[trigger] config.chunks[k]).adv == config.adv
                && config.chunks[k].block_count_acc_config.bc == config.adv.bc,
        config.special.base_13_acc == config.adv.input.acc,
        config.special.base_9_acc == config.adv.output.acc,
        0 <= i < config.assignments(before, cell, lane).len(),
    ensures
        ({
            let list = config.assignments(before, cell, lane);
            let columns = lane_columns(config.adv, config.special.last_b9_coef);
            let count = chunk_count(config.rotation as nat);
            &&& 0 <= found.0 < 8
            &&& list[i] matches AssignmentView::Advice { column, offset, .. } ==> {
                &&& column == columns[found.0]
                &&& offset == found.1
                &&& i == if offset == 0 {
                    0
                } else if offset <= count {
                    2 + 7 * (offset - 1) + found.0
                } else if offset == count + 1 {
                    2 + 7 * count + if found.0 == 1 {
                        1
                    } else if found.0 == 3 {
                        2
                    } else {
                        3int
                    }
                } else {
                    2 + 7 * count + if found.0 == 1 {
                        4
                    } else {
                        5int
                    }
                }
            }
        }),
{
    let list = config.assignments(before, cell, lane);
    let rotation = config.rotation as nat;
    let count = chunk_count(rotation);
    let cells = chunks_assignments(config.chunks, 1, lane, rotation, count);
    let own = config.special.assignments(config.special_offset(), config.last_state(lane));
    lemma_chunk_cells_len(config.chunks, lane, rotation, count);
    if i < 2 {
        (1, 0)
    } else if i < 2 + 7 * count {
        let chunk = ((i - 2) / 7) as nat;
        let place = (i - 2) % 7;
        lemma_chunk_cells(config.chunks, lane, rotation, count, chunk, place);
        assert(list[i] == cells[i - 2]);
        assert(7 * chunk + place == i - 2);
        assert(config.chunks[chunk as int].adv == config.adv);
        (place, 1 + chunk)
    } else {
        let place = i - 2 - 7 * count;
        assert(list[i] == own[place]);
        if place == 1 {
            (1, count + 1)
        } else if place == 2 {
            (3, count + 1)
        } else if place == 3 {
            (7, count + 1)
        } else if place == 4 {
            (1, count + 2)
        } else {
            (3, count + 2)
        }
    }
}

/// Where the columns are distinct, a lane assigns no cell twice. There is then a grid
/// that holds all that the lane assigns.
pub proof fn law_lane_assigns_once(
    selectors: nat,
    lane_xy: (usize, usize),
    adv: RhoAdvices,
    axiliary: [AdviceColumn; 2],
    base13_to_9: [FixedColumn; 3],
    special: [FixedColumn; 2],
    before: nat,
    cell: Cell,
    lane: nat,
)
    requires
        lane_xy.0 < 5,
        lane_xy.1 < 5,
        lane_columns(adv, axiliary[0]).no_duplicates(),
    ensures
        ({
            let list = LaneConfigView::of(
                selectors,
                lane_xy,
                adv,
                axiliary,
                base13_to_9,
                special,
            ).assignments(before, cell, lane);
            &&& assigns_once(list)
            &&& grid_of(list).is_filled_by(list)
            &&& grid_of(list).is_switched_by(list)
        }),
{
    let config = LaneConfigView::of(selectors, lane_xy, adv, axiliary, base13_to_9, special);
    law_configured_chunks_tile(selectors, lane_xy, adv, axiliary, base13_to_9, special);
    let list = config.assignments(before, cell, lane);
    assert forall|i: int, j: int, column: AdviceColumn, offset: nat|
        0 <= i < list.len() && 0 <= j < list.len() && #[trigger] is_cell(list[i], column, offset)
            && #[trigger] is_cell(list[j], column, offset) implies i == j by {
        let first = lemma_lane_cell(config, before, cell, lane, i);
        let second = lemma_lane_cell(config, before, cell, lane, j);
        let columns = lane_columns(adv, axiliary[0]);
        assert(columns[first.0] == columns[second.0]);
        assert(first.0 == second.0);
    }
    law_grid_of_list(list);
}

/// The selectors of a lane are two that no earlier entry made.
pub proof fn law_lane_selectors_are_fresh(
    entries: Seq<EntryView>,
    selectors: nat,
    lane_xy: (usize, usize),
    adv: RhoAdvices,
    axiliary: [AdviceColumn; 2],
    base13_to_9: [FixedColumn; 3],
    special: [FixedColumn; 2],
)
    requires
        numbered(entries, selectors),
        selectors + 2 <= usize::MAX,
    ensures
        ({
            let config = LaneConfigView::of(
                selectors,
                lane_xy,
                adv,
                axiliary,
                base13_to_9,
                special,
            );
            &&& config.q_enable != config.q_is_special
            &&& !entries.contains(EntryView::NewSelector(config.q_enable))
            &&& !entries.contains(EntryView::NewSelector(config.q_is_special))
            &&& numbered(entries + config.entries(), selectors + 2)
        }),
{
    let config = LaneConfigView::of(selectors, lane_xy, adv, axiliary, base13_to_9, special);
    let added = config.entries();
    let chunks = chunks_entries(config.chunks);
    let both = entries + added;
    assert forall|i: int| 0 <= i < both.len() implies (
    #[trigger] both[i] matches EntryView::NewSelector(selector) ==> selector.index < selectors
        + 2) by {
        let index = i - entries.len();
        if i < entries.len() {
            assert(both[i] == entries[i]);
        } else if 4 <= index < 4 + chunks.len() {
            let (chunk, part) = lemma_chunk_entry(config.chunks, index - 4);
            assert(both[i] == config.chunks[chunk].entries()[part]);
        } else {
            assert(both[i] == added[index]);
        }
    }
}

} // verus!
