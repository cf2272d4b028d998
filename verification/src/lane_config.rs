//! The checks of a whole lane.

use vstd::prelude::*;

use crate::chunk_laws::{counted, law_sums_gather_counts};
use crate::chunks::{
    law_chunks_tile, slice_lane, slices_from, slices_view, step_size, tiles, LANE_SIZE,
};
use crate::circuit::{
    advice, AdviceColumn, AssignmentView, Cell, ConstraintSystem, EntryView, Error, FixedColumn,
    Label, Region, Selector,
};
use crate::natural::Natural;
use crate::power::{lemma_power_positive, power};
use crate::rho_checks::{
    BlockCount2, ChunkRotateConversionConfig, Lane, RhoAdvices, SpecialChunkConfig,
    ROTATION_CONSTANTS,
};
use crate::rotation::{RotatingState, RotatingVariables};
use crate::rotation_laws::{
    accepted_lane, chunk_count, digit, law_lane_rotates, law_lane_runs, rotated_lane, state_after,
};
use crate::tables::{
    base_13_to_base_9_rows, rows_view, special_chunk_rows, SpecialChunkTableConfig, TableRows,
    CHUNK_VALUES,
};

verus! {

/// By how many bits the rho step rotates the lane at `lane_xy`.
pub open spec fn rotation_constant(lane_xy: (usize, usize)) -> u32 {
    ROTATION_CONSTANTS[lane_xy.0 as int][lane_xy.1 as int]
}

/// Every rotation is by less than a whole lane.
pub proof fn law_rotation_constants(lane_xy: (usize, usize))
    requires
        lane_xy.0 < 5,
        lane_xy.1 < 5,
    ensures
        rotation_constant(lane_xy) < LANE_SIZE,
{
}

/// What the circuit is configured with for a list of chunks.
pub open spec fn chunks_entries(configs: Seq<ChunkRotateConversionConfig>) -> Seq<EntryView>
    decreases configs.len(),
{
    if configs.len() == 0 {
        seq![]
    } else {
        chunks_entries(configs.drop_last()) + configs.last().entries()
    }
}

/// The cells of the first `count` chunks of a lane, from the row `offset` on.
pub open spec fn chunks_assignments(
    configs: Seq<ChunkRotateConversionConfig>,
    offset: nat,
    lane: nat,
    rotation: nat,
    count: nat,
) -> Seq<AssignmentView>
    decreases count,
{
    if count == 0 {
        seq![]
    } else {
        let less = (count - 1) as nat;
        chunks_assignments(configs, offset, lane, rotation, less)
            + configs[less as int].assignments(offset + less, state_after(lane, rotation, less))
    }
}

/// The checks of one lane.
#[derive(Debug)]
pub struct LaneRotateConversionConfig {
    pub q_enable: Selector,
    pub q_is_special: Selector,
    pub adv: RhoAdvices,
    pub chunk_rotate_convert_configs: Vec<ChunkRotateConversionConfig>,
    pub special_chunk_config: SpecialChunkConfig,
    pub lane_xy: (usize, usize),
    pub rotation: u32,
}

/// The checks of one lane, with those of its chunks as a sequence.
#[verifier::ext_equal]
pub struct LaneConfigView {
    pub q_enable: Selector,
    pub q_is_special: Selector,
    pub adv: RhoAdvices,
    pub chunks: Seq<ChunkRotateConversionConfig>,
    pub special: SpecialChunkConfig,
    pub lane_xy: (usize, usize),
    pub rotation: u32,
}

impl View for LaneRotateConversionConfig {
    type V = LaneConfigView;

    open spec fn view(&self) -> LaneConfigView {
        LaneConfigView {
            q_enable: self.q_enable,
            q_is_special: self.q_is_special,
            adv: self.adv,
            chunks: self.chunk_rotate_convert_configs@,
            special: self.special_chunk_config,
            lane_xy: self.lane_xy,
            rotation: self.rotation,
        }
    }
}

impl LaneConfigView {
    /// The checks of the lane at `lane_xy` from what they are made of, where `selectors`
    /// selectors were made before.
    pub open spec fn of(
        selectors: nat,
        lane_xy: (usize, usize),
        adv: RhoAdvices,
        axiliary: [AdviceColumn; 2],
        base13_to_9: [FixedColumn; 3],
        special: [FixedColumn; 2],
    ) -> Self {
        let q_enable = Selector { index: selectors as usize };
        let q_is_special = Selector { index: (selectors + 1) as usize };
        let rotation = rotation_constant(lane_xy);
        LaneConfigView {
            q_enable,
            q_is_special,
            adv,
            chunks: slices_from(1, rotation as nat).map_values(
                |slice: (nat, nat)|
                    ChunkRotateConversionConfig::of(q_enable, adv, base13_to_9, slice, rotation),
            ),
            special: SpecialChunkConfig {
                q_enable: q_is_special,
                last_b9_coef: axiliary[0],
                rotation: rotation as u64,
                base_13_acc: adv.input.acc,
                base_9_acc: adv.output.acc,
                special_chunk_table_config: SpecialChunkTableConfig {
                    last_chunk: special[0],
                    output_coef: special[1],
                },
            },
            lane_xy,
            rotation,
        }
    }

    /// The way the chunks cut the lane.
    pub open spec fn slices(self) -> Seq<(nat, nat)> {
        self.chunks.map_values(
            |chunk: ChunkRotateConversionConfig| (chunk.chunk_idx as nat, chunk.step as nat),
        )
    }

    /// The configurations of the chunks follow the way the lane is cut.
    pub open spec fn well_formed(self) -> bool {
        &&& self.rotation < LANE_SIZE
        &&& self.slices() == slices_from(1, self.rotation as nat)
    }

    /// What the circuit is configured with for the lane.
    pub open spec fn entries(self) -> Seq<EntryView> {
        seq![
            EntryView::EnableEquality(self.adv.input.acc),
            EntryView::EnableEquality(self.adv.output.acc),
            EntryView::NewSelector(self.q_enable),
            EntryView::NewSelector(self.q_is_special),
        ] + chunks_entries(self.chunks) + self.special.entries()
    }

    /// The cells of the lane that goes in, where the region held `before` assignments.
    pub open spec fn head_assignments(self, before: nat, cell: Cell, lane: nat) -> Seq<
        AssignmentView,
    > {
        seq![
            advice("base_13_col"@, self.adv.input.acc, 0, lane),
            AssignmentView::Equal { left: cell, right: Cell::Placed(before as usize) },
        ]
    }

    /// The cells of a lane up to the special chunk.
    pub open spec fn chunk_assignments(self, before: nat, cell: Cell, lane: nat) -> Seq<
        AssignmentView,
    > {
        self.head_assignments(before, cell, lane) + chunks_assignments(
            self.chunks,
            1,
            lane,
            self.rotation as nat,
            chunk_count(self.rotation as nat),
        )
    }

    /// The variables at the special chunk.
    pub open spec fn last_state(self, lane: nat) -> RotatingState {
        state_after(lane, self.rotation as nat, chunk_count(self.rotation as nat))
    }

    /// The row of the special chunk.
    pub open spec fn special_offset(self) -> nat {
        1 + chunk_count(self.rotation as nat)
    }

    /// All cells of a lane.
    pub open spec fn assignments(self, before: nat, cell: Cell, lane: nat) -> Seq<
        AssignmentView,
    > {
        self.chunk_assignments(before, cell, lane) + self.special.assignments(
            self.special_offset(),
            self.last_state(lane),
        )
    }
}

impl LaneRotateConversionConfig {
    pub fn configure(
        meta: &mut ConstraintSystem,
        lane_xy: (usize, usize),
        adv: RhoAdvices,
        axiliary: [AdviceColumn; 2],
        base13_to_9: [FixedColumn; 3],
        special: [FixedColumn; 2],
    ) -> (config: Self)
        requires
            lane_xy.0 < 5,
            lane_xy.1 < 5,
            old(meta).selectors + 2 <= usize::MAX,
        ensures
            config@ == LaneConfigView::of(
                old(meta).selectors as nat,
                lane_xy,
                adv,
                axiliary,
                base13_to_9,
                special,
            ),
            config@.well_formed(),
            tiles(config@.slices(), 1, config.rotation as nat),
            final(meta)@ == old(meta)@ + config@.entries(),
            final(meta).selectors == old(meta).selectors + 2,
    {
        meta.enable_equality(adv.input.acc);
        meta.enable_equality(adv.output.acc);
        let q_enable = meta.selector();
        let q_is_special = meta.selector();
        let rotation: u32 = ROTATION_CONSTANTS[lane_xy.0][lane_xy.1];
        proof {
            law_rotation_constants(lane_xy);
        }
        let slices = slice_lane(rotation);
        let ghost cut = slices_from(1, rotation as nat);
        let ghost chunk_of = |slice: (nat, nat)|
            ChunkRotateConversionConfig::of(q_enable, adv, base13_to_9, slice, rotation);
        let ghost before = meta@;
        let mut configs: Vec<ChunkRotateConversionConfig> = Vec::new();
        proof {
            lemma_slices_bounds(1, rotation as nat);
            assert(configs@ =~= cut.take(0).map_values(chunk_of));
            assert(meta@ =~= before + chunks_entries(configs@));
        }
        let mut done: usize = 0;
        while done < slices.len()
            invariant
                done <= slices@.len(),
                rotation < LANE_SIZE,
                slices_view(slices@) == cut,
                forall|i: int|
                    0 <= i < cut.len() ==> 1 <= (#[trigger] cut[i]).0 < LANE_SIZE && 1 <= cut[i].1
                        <= 4,
                chunk_of == |slice: (nat, nat)|
                    ChunkRotateConversionConfig::of(q_enable, adv, base13_to_9, slice, rotation),
                configs@ == cut.take(done as int).map_values(chunk_of),
                meta@ == before + chunks_entries(configs@),
                meta.selectors == old(meta).selectors + 2,
            decreases slices@.len() - done,
        {
            let (chunk_idx, step) = slices[done];
            assert(cut[done as int] == (chunk_idx as nat, step as nat));
            let ghost list = configs@;
            let config = ChunkRotateConversionConfig::configure(
                q_enable,
                meta,
                adv,
                base13_to_9,
                chunk_idx,
                rotation,
                step,
            );
            configs.push(config);
            assert(configs@.drop_last() =~= list);
            assert(meta@ =~= before + chunks_entries(configs@));
            assert(configs@ =~= cut.take(done + 1).map_values(chunk_of));
            done = done + 1;
        }
        assert(cut.take(done as int) =~= cut);
        let special_chunk_config = SpecialChunkConfig::configure(
            meta,
            q_is_special,
            adv.input.acc,
            adv.output.acc,
            axiliary[0],
            special,
            rotation as u64,
        );
        let config = LaneRotateConversionConfig {
            q_enable,
            q_is_special,
            adv,
            chunk_rotate_convert_configs: configs,
            special_chunk_config,
            lane_xy,
            rotation,
        };
        assert(meta@ =~= old(meta)@ + config@.entries());
        assert(config@ =~= LaneConfigView::of(
            old(meta).selectors as nat,
            lane_xy,
            adv,
            axiliary,
            base13_to_9,
            special,
        ));
        proof {
            law_chunks_tile(1, rotation as nat);
            assert(config@.slices() =~= cut);
        }
        config
    }

    /// Whether a lane can be run through all its chunks.
    pub fn accepts(&self, lane_base_13: &Natural) -> (answer: bool)
        requires
            self@.well_formed(),
        ensures
            answer == accepted_lane(lane_base_13@, self.rotation as nat),
    {
        proof {
            lemma_slices_bounds(1, self.rotation as nat);
        }
        let last: usize = self.chunk_rotate_convert_configs.len() - 1;
        let chunk_idx: u32 = self.chunk_rotate_convert_configs[last].chunk_idx;
        assert(self@.slices()[last as int] == slices_from(1, self.rotation as nat)[last as int]);
        lane_base_13.less_than(&Natural::power_of(13, LANE_SIZE)) && has_zero_digit(
            lane_base_13,
            chunk_idx,
        )
    }

    /// Assigns a lane, chunk by chunk, and returns it converted to base 9 and
    /// rotated, with the sums of its block counts. An output that does not fit in the
    /// field is refused, and so is every lane where no chunk is configured.
    pub fn assign_region(&self, region: &mut Region, lane_base_13: &Lane) -> (assigned: Result<
        (Lane, BlockCount2),
        Error,
    >)
        requires
            self.chunk_rotate_convert_configs@.len() == 0 || (self@.well_formed()
                && accepted_lane(lane_base_13.value@, self.rotation as nat)),
        ensures
            final(region).modulus == old(region).modulus,
            self.chunk_rotate_convert_configs@.len() == 0 ==> {
                &&& assigned == Err::<(Lane, BlockCount2), Error>(Error::Synthesis)
                &&& final(region)@ == old(region)@ + self@.head_assignments(
                    old(region)@.len(),
                    lane_base_13.cell,
                    lane_base_13.value@,
                )
            },
            self.chunk_rotate_convert_configs@.len() > 0 ==> {
                let rotation = self.rotation as nat;
                let count = chunk_count(rotation);
                let lane = lane_base_13.value@;
                let before = old(region)@.len();
                let last_sums = state_after(lane, rotation, (count - 1) as nat).block_count_acc;
                let slices = slices_from(1, rotation);
                let chunks = old(region)@ + self@.chunk_assignments(
                    before,
                    lane_base_13.cell,
                    lane,
                );
                match assigned {
                    Ok((output, block_counts)) => {
                        &&& rotated_lane(lane, rotation) < old(region).modulus@
                        &&& final(region)@ == old(region)@ + self@.assignments(
                            before,
                            lane_base_13.cell,
                            lane,
                        )
                        &&& output.value@ == rotated_lane(lane, rotation)
                        &&& output.cell == Cell::Placed((chunks.len() + 5) as usize)
                        &&& block_counts.0.value@ == last_sums.0
                        &&& last_sums.0 == counted(lane, slices, 2, (count - 1) as nat)
                        &&& block_counts.0.cell == Cell::Placed((chunks.len() - 2) as usize)
                        &&& block_counts.1.value@ == last_sums.1
                        &&& last_sums.1 == counted(lane, slices, 3, (count - 1) as nat)
                        &&& block_counts.1.cell == Cell::Placed((chunks.len() - 1) as usize)
                    },
                    Err(error) => {
                        &&& rotated_lane(lane, rotation) >= old(region).modulus@
                        &&& error == Error::Synthesis
                        &&& final(region)@ == chunks + self@.special.open_assignments(
                            self@.special_offset(),
                            self@.last_state(lane),
                        )
                    },
                }
            },
    {
        let ghost rotation = self.rotation as nat;
        let ghost lane = lane_base_13.value@;
        let ghost count = chunk_count(rotation);
        let ghost configs = self.chunk_rotate_convert_configs@;
        let cell = region.assign_advice(
            Label::Text("base_13_col"),
            self.adv.input.acc,
            0,
            lane_base_13.value.clone(),
        );
        region.constrain_equal(lane_base_13.cell, cell);
        let ghost head = region@;
        assert(head =~= old(region)@ + self@.head_assignments(
            old(region)@.len(),
            lane_base_13.cell,
            lane,
        ));
        if self.chunk_rotate_convert_configs.len() == 0 {
            return Err(Error::Synthesis);
        }
        proof {
            lemma_slices_bounds(1, rotation);
            assert(self@.slices().len() == configs.len());
        }

        let mut rv = match RotatingVariables::from(lane_base_13.value.clone(), self.rotation) {
            Ok(rv) => rv,
            Err(error) => {
                return Err(error);
            },
        };
        let mut done: usize = 0;
        let mut last: Option<BlockCount2> = None;
        assert(region@ =~= head + chunks_assignments(configs, 1, lane, rotation, 0));
        while done < self.chunk_rotate_convert_configs.len()
            invariant
                done <= count,
                count <= 64,
                self@.well_formed(),
                configs == self.chunk_rotate_convert_configs@,
                configs.len() == count,
                rotation == self.rotation as nat,
                count == chunk_count(rotation),
                lane == lane_base_13.value@,
                accepted_lane(lane, rotation),
                rv@ == state_after(lane, rotation, done as nat),
                rv@.well_formed(),
                region.modulus == old(region).modulus,
                region@ == head + chunks_assignments(configs, 1, lane, rotation, done as nat),
                done == 0 <==> last is None,
                last matches Some(block_counts) ==> {
                    &&& region@.len() >= 2
                    &&& block_counts.0.value@ == state_after(
                        lane,
                        rotation,
                        (done - 1) as nat,
                    ).block_count_acc.0
                    &&& block_counts.0.cell == Cell::Placed((region@.len() - 2) as usize)
                    &&& block_counts.1.value@ == state_after(
                        lane,
                        rotation,
                        (done - 1) as nat,
                    ).block_count_acc.1
                    &&& block_counts.1.cell == Cell::Placed((region@.len() - 1) as usize)
                },
            decreases count - done,
        {
            proof {
                law_lane_runs(lane, rotation, done as nat);
            }
            let config = self.chunk_rotate_convert_configs[done];
            let ghost start = region@;
            match config.assign_region(region, 1 + done, &rv) {
                Ok(block_counts) => {
                    last = Some(block_counts);
                },
                Err(error) => {
                    return Err(error);
                },
            }
            assert(start + config.assignments((1 + done) as nat, rv@) =~= head
                + chunks_assignments(configs, 1, lane, rotation, (done + 1) as nat));
            rv = rv.next();
            done = done + 1;
        }
        let ghost chunks = region@;
        assert(chunks =~= old(region)@ + self@.chunk_assignments(
            old(region)@.len(),
            lane_base_13.cell,
            lane,
        ));
        proof {
            law_lane_rotates(lane, rotation);
            law_sums_gather_counts(lane, rotation, (count - 1) as nat);
        }
        let block_counts = last.unwrap();
        match self.special_chunk_config.assign_region(region, 1 + done, &rv) {
            Ok(output) => {
                assert(region@ =~= old(region)@ + self@.assignments(
                    old(region)@.len(),
                    lane_base_13.cell,
                    lane,
                ));
                Ok((output, block_counts))
            },
            Err(error) => Err(error),
        }
    }

    /// What the two tables hold.
    pub fn load(&self) -> (tables: (TableRows, TableRows))
        requires
            self.chunk_rotate_convert_configs@.len() > 0,
        ensures
            ({
                let lookup = self.chunk_rotate_convert_configs@[0].base_13_to_base_9_lookup;
                let special = self.special_chunk_config.special_chunk_table_config;
                &&& tables.0.columns@ == seq![lookup.base13, lookup.base9, lookup.block_count]
                &&& rows_view(tables.0.rows@) == base_13_to_base_9_rows(CHUNK_VALUES as nat)
                &&& tables.1.columns@ == seq![special.last_chunk, special.output_coef]
                &&& rows_view(tables.1.rows@) == special_chunk_rows(13)
            }),
    {
        let base_13_to_base_9 = self.chunk_rotate_convert_configs[0].base_13_to_base_9_lookup.load();
        let special_chunk = self.special_chunk_config.special_chunk_table_config.load();
        (base_13_to_base_9, special_chunk)
    }
}

/// Whether the digit at `position` is zero.
fn has_zero_digit(number: &Natural, position: u32) -> (answer: bool)
    requires
        position < LANE_SIZE,
    ensures
        answer == (digit(number@, position as nat) == 0),
{
    let mut rest = number.clone();
    let mut done: u32 = 0;
    assert(power(13, 0) == 1);
    while done < position
        invariant
            done <= position,
            rest@ == number@ / power(13, done as nat),
        decreases position - done,
    {
        proof {
            lemma_power_positive(13, done as nat);
            vstd::arithmetic::div_mod::lemma_div_denominator(
                number@ as int,
                power(13, done as nat) as int,
                13,
            );
            assert(power(13, done as nat) * 13 == power(13, (done + 1) as nat)) by {
                assert(power(13, (done + 1) as nat) == 13 * power(13, done as nat));
            }
        }
        rest = rest.divided_by(13);
        done = done + 1;
    }
    rest.modulo(13).is_zero()
}

/// The chunks of a lane stay within it, and there is at least one.
proof fn lemma_slices_bounds(chunk_idx: nat, rotation: nat)
    requires
        rotation < LANE_SIZE,
        1 <= chunk_idx <= LANE_SIZE,
    ensures
        slices_from(chunk_idx, rotation).len() <= LANE_SIZE - chunk_idx,
        chunk_idx < LANE_SIZE ==> slices_from(chunk_idx, rotation).len() > 0,
        forall|i: int|
            0 <= i < slices_from(chunk_idx, rotation).len() ==> chunk_idx <= (
            #[trigger] slices_from(chunk_idx, rotation)[i]).0 < LANE_SIZE && 1 <= slices_from(
                chunk_idx,
                rotation,
            )[i].1 <= 4,
    decreases LANE_SIZE - chunk_idx,
{
    if chunk_idx < LANE_SIZE {
        let step = step_size(chunk_idx, rotation);
        lemma_slices_bounds(chunk_idx + step, rotation);
        let rest = slices_from(chunk_idx + step, rotation);
        assert forall|i: int| 0 <= i < slices_from(chunk_idx, rotation).len() implies chunk_idx <= (
        #[trigger] slices_from(chunk_idx, rotation)[i]).0 < LANE_SIZE && 1 <= slices_from(
            chunk_idx,
            rotation,
        )[i].1 <= 4 by {
            if i > 0 {
                assert(slices_from(chunk_idx, rotation)[i] == rest[i - 1]);
            }
        }
    }
}

} // verus!
