//! The checks of the rho step: each lane is taken apart in base 13, chunk by
//! chunk, and put together again in base 9, rotated.

use vstd::prelude::*;

use crate::chunks::{B13, B9, LANE_SIZE};
use crate::circuit::{
    advice, constraints_view, AdviceColumn, AssignmentView, Cell, Constraint, ConstraintSystem,
    ConstraintView, EntryView, Error, Expression, FixedColumn, GateView, Label, LabelView, Region,
    Row, Selector,
};
use crate::natural::Natural;
use crate::power::power;
use crate::rotation::{RotatingState, RotatingVariables};
use crate::tables::{Base13toBase9TableConfig, SpecialChunkTableConfig};

verus! {

/// By how many bits the rho step rotates each lane.
pub const ROTATION_CONSTANTS: [[u32; 5]; 5] = [
    [0, 36, 3, 41, 18],
    [1, 44, 10, 45, 2],
    [62, 6, 43, 15, 61],
    [28, 55, 25, 21, 56],
    [27, 20, 39, 8, 14],
];

/// The columns of a running sum: what is added or taken away, and the sum.
#[derive(Debug, Clone, Copy, PartialEq, Eq, Structural)]
pub struct RunningSumAdvices {
    pub coef: AdviceColumn,
    pub acc: AdviceColumn,
}

/// The columns of the block counts: that of the chunk, and the sums for the chunks
/// of two and of three digits.
#[derive(Debug, Clone, Copy, PartialEq, Eq, Structural)]
pub struct BlockCountAdvices {
    pub block_count: AdviceColumn,
    pub step2_acc: AdviceColumn,
    pub step3_acc: AdviceColumn,
}

/// The columns of one lane.
#[derive(Debug, Clone, Copy, PartialEq, Eq, Structural)]
pub struct RhoAdvices {
    pub input: RunningSumAdvices,
    pub output: RunningSumAdvices,
    pub bc: BlockCountAdvices,
}

impl From<[AdviceColumn; 7]> for RhoAdvices {
    fn from(cols: [AdviceColumn; 7]) -> (advices: Self) {
        let input = RunningSumAdvices { coef: cols[0], acc: cols[1] };
        let output = RunningSumAdvices { coef: cols[2], acc: cols[3] };
        let bc = BlockCountAdvices {
            block_count: cols[4],
            step2_acc: cols[5],
            step3_acc: cols[6],
        };
        RhoAdvices { input, output, bc }
    }
}

impl vstd::std_specs::convert::FromSpecImpl<[AdviceColumn; 7]> for RhoAdvices {
    open spec fn obeys_from_spec() -> bool {
        true
    }

    open spec fn from_spec(cols: [AdviceColumn; 7]) -> Self {
        RhoAdvices {
            input: RunningSumAdvices { coef: cols[0], acc: cols[1] },
            output: RunningSumAdvices { coef: cols[2], acc: cols[3] },
            bc: BlockCountAdvices { block_count: cols[4], step2_acc: cols[5], step3_acc: cols[6] },
        }
    }
}

/// A lane in the witness.
#[derive(Debug)]
pub struct Lane {
    pub cell: Cell,
    pub value: Natural,
}

/// A sum of block counts in the witness.
#[derive(Debug)]
pub struct BlockCount {
    pub cell: Cell,
    pub value: Natural,
}

/// The sums for the chunks of two and of three digits.
pub type BlockCount2 = (BlockCount, BlockCount);

/// A gate under its name.
pub open spec fn gate(name: Seq<char>, constraints: Seq<ConstraintView>) -> GateView {
    GateView { name, constraints }
}

/// The input accumulator loses the chunk: from one row to the next it goes down by
/// the chunk at its place in base 13.
pub open spec fn input_gate(
    q_enable: Selector,
    input: RunningSumAdvices,
    chunk_idx: nat,
) -> GateView {
    gate(
        "Running down input"@,
        seq![
            ConstraintView {
                name: "delta_acc === - coef * power_of_base"@,
                poly: |row: Row|
                    row.switch(q_enable) * (row.next(input.acc) - row.cur(input.acc) + row.cur(
                        input.coef,
                    ) * power(13, chunk_idx)),
            },
        ],
    )
}

/// The output accumulator gains the chunk: from one row to the next it goes up by
/// the converted chunk at its rotated place in base 9.
pub open spec fn output_gate(
    q_enable: Selector,
    output: RunningSumAdvices,
    rotation: nat,
    chunk_idx: nat,
) -> GateView {
    gate(
        "Running up for output"@,
        seq![
            ConstraintView {
                name: "delta_acc === coef * power_of_base"@,
                poly: |row: Row|
                    row.switch(q_enable) * (row.next(output.acc) - row.cur(output.acc) - row.cur(
                        output.coef,
                    ) * power(9, (rotation + chunk_idx) % LANE_SIZE as nat)),
            },
        ],
    )
}

/// The sums of the block counts: the one that belongs to the chunk's number of
/// digits goes up by the chunk's block count, the others stay. Chunks of one and of
/// four digits have no sum, and have to have no block count.
pub open spec fn block_count_gate(
    q_enable: Selector,
    bc: BlockCountAdvices,
    step: nat,
) -> GateView {
    let delta_step2 = |row: Row| row.next(bc.step2_acc) - row.cur(bc.step2_acc);
    let delta_step3 = |row: Row| row.next(bc.step3_acc) - row.cur(bc.step3_acc);
    let constraints = if step == 2 {
        seq![
            ConstraintView {
                name: "delta_step2 = block_count"@,
                poly: |row: Row|
                    row.switch(q_enable) * (delta_step2(row) - row.cur(bc.block_count)),
            },
            ConstraintView {
                name: "delta_step3 = 0"@,
                poly: |row: Row| row.switch(q_enable) * delta_step3(row),
            },
        ]
    } else if step == 3 {
        seq![
            ConstraintView {
                name: "delta_step2 = 0"@,
                poly: |row: Row| row.switch(q_enable) * delta_step2(row),
            },
            ConstraintView {
                name: "delta_step3 = block_count"@,
                poly: |row: Row|
                    row.switch(q_enable) * (delta_step3(row) - row.cur(bc.block_count)),
            },
        ]
    } else {
        seq![
            ConstraintView {
                name: "block_count = 0"@,
                poly: |row: Row| row.switch(q_enable) * row.cur(bc.block_count),
            },
            ConstraintView {
                name: "delta_step2 = 0"@,
                poly: |row: Row| row.switch(q_enable) * delta_step2(row),
            },
            ConstraintView {
                name: "delta_step3 = 0"@,
                poly: |row: Row| row.switch(q_enable) * delta_step3(row),
            },
        ]
    };
    gate("accumulate block count"@, constraints)
}

/// The output accumulator gains the special chunk at the place of digit 0.
pub open spec fn special_gate(
    q_enable: Selector,
    base_9_acc: AdviceColumn,
    last_b9_coef: AdviceColumn,
    rotation: nat,
) -> GateView {
    gate(
        "validate base_9_acc"@,
        seq![
            ConstraintView {
                name: "delta_base_9_acc === (high_value + low_value) * 9**rotation"@,
                poly: |row: Row|
                    row.switch(q_enable) * (row.next(base_9_acc) - row.cur(base_9_acc) - row.cur(
                        last_b9_coef,
                    ) * power(9, rotation)),
            },
        ],
    )
}

/// The product of the differences between `value` and each number up to `bound`.
pub open spec fn vanishing(value: int, bound: nat) -> int
    decreases bound,
{
    if bound == 0 {
        value
    } else {
        vanishing(value, (bound - 1) as nat) * (value - bound)
    }
}

/// The final sums of the block counts are in range.
pub open spec fn final_gate(
    q_enable: Selector,
    step2_acc: AdviceColumn,
    step3_acc: AdviceColumn,
) -> GateView {
    gate(
        "block count final check"@,
        seq![
            ConstraintView {
                name: "step2_acc <=12"@,
                poly: |row: Row| row.switch(q_enable) * vanishing(row.cur(step2_acc), 12),
            },
            ConstraintView {
                name: "step3_acc <= 13 * 13"@,
                poly: |row: Row| row.switch(q_enable) * vanishing(row.cur(step3_acc), 169),
            },
        ],
    )
}

/// The checks of one chunk.
#[derive(Debug, Clone, Copy, PartialEq, Eq, Structural)]
pub struct ChunkRotateConversionConfig {
    pub q_enable: Selector,
    pub adv: RhoAdvices,
    pub base_13_to_base_9_lookup: Base13toBase9TableConfig,
    pub block_count_acc_config: BlockCountAccConfig,
    pub chunk_idx: u32,
    pub rotation: u32,
    pub step: u32,
}

impl ChunkRotateConversionConfig {
    /// What the circuit is configured with for one chunk.
    pub open spec fn entries(self) -> Seq<EntryView> {
        seq![
            self.base_13_to_base_9_lookup.lookup_entry(
                self.q_enable,
                self.adv.input.coef,
                self.adv.output.coef,
                self.adv.bc.block_count,
            ),
            EntryView::Gate(input_gate(self.q_enable, self.adv.input, self.chunk_idx as nat)),
            EntryView::Gate(
                output_gate(
                    self.q_enable,
                    self.adv.output,
                    self.rotation as nat,
                    self.chunk_idx as nat,
                ),
            ),
            EntryView::Gate(block_count_gate(self.q_enable, self.adv.bc, self.step as nat)),
        ]
    }

    /// The configuration of a chunk from what it is made of.
    pub open spec fn of(
        q_enable: Selector,
        adv: RhoAdvices,
        fix_cols: [FixedColumn; 3],
        slice: (nat, nat),
        rotation: u32,
    ) -> Self {
        ChunkRotateConversionConfig {
            q_enable,
            adv,
            base_13_to_base_9_lookup: Base13toBase9TableConfig {
                base13: fix_cols[0],
                base9: fix_cols[1],
                block_count: fix_cols[2],
            },
            block_count_acc_config: BlockCountAccConfig {
                q_enable,
                bc: adv.bc,
                step: slice.1 as u32,
            },
            chunk_idx: slice.0 as u32,
            rotation,
            step: slice.1 as u32,
        }
    }

    pub fn configure(
        q_enable: Selector,
        meta: &mut ConstraintSystem,
        adv: RhoAdvices,
        fix_cols: [FixedColumn; 3],
        chunk_idx: u32,
        rotation: u32,
        step: u32,
    ) -> (config: Self)
        requires
            rotation + chunk_idx <= u32::MAX,
            1 <= step <= 4,
        ensures
            config == Self::of(q_enable, adv, fix_cols, (chunk_idx as nat, step as nat), rotation),
            final(meta)@ == old(meta)@ + config.entries(),
            final(meta).selectors == old(meta).selectors,
    {
        let base_13_to_base_9_lookup = Base13toBase9TableConfig::configure(
            meta,
            q_enable,
            adv.input.coef,
            adv.output.coef,
            adv.bc.block_count,
            fix_cols,
        );

        let delta_acc = Expression::next(adv.input.acc).minus(Expression::cur(adv.input.acc));
        let taken = Expression::cur(adv.input.coef).times(
            Expression::power_of(B13, chunk_idx as u64),
        );
        let poly = Expression::switch(q_enable).times(delta_acc.plus(taken));
        // running down for input
        let constraints: Vec<Constraint> = vec![
            Constraint { name: "delta_acc === - coef * power_of_base", poly },
        ];
        assert(constraints_view(constraints@) =~~= input_gate(
            q_enable,
            adv.input,
            chunk_idx as nat,
        ).constraints);
        meta.create_gate("Running down input", constraints);

        let delta_acc = Expression::next(adv.output.acc).minus(Expression::cur(adv.output.acc));
        let added = Expression::cur(adv.output.coef).times(
            Expression::power_of(B9, ((rotation + chunk_idx) % LANE_SIZE) as u64),
        );
        let poly = Expression::switch(q_enable).times(delta_acc.minus(added));
        // running up for output
        let constraints: Vec<Constraint> = vec![
            Constraint { name: "delta_acc === coef * power_of_base", poly },
        ];
        assert(constraints_view(constraints@) =~~= output_gate(
            q_enable,
            adv.output,
            rotation as nat,
            chunk_idx as nat,
        ).constraints);
        meta.create_gate("Running up for output", constraints);

        let block_count_acc_config = BlockCountAccConfig::configure(meta, q_enable, adv.bc, step);

        let config = ChunkRotateConversionConfig {
            q_enable,
            adv,
            base_13_to_base_9_lookup,
            block_count_acc_config,
            chunk_idx,
            rotation,
            step,
        };
        assert(meta@ =~= old(meta)@ + config.entries());
        config
    }

    /// The cells of a chunk's running sums.
    pub open spec fn sum_assignments(self, offset: nat, state: RotatingState) -> Seq<
        AssignmentView,
    > {
        seq![
            advice("Input Coef"@, self.adv.input.coef, offset, state.input_coef),
            advice("Input accumulator"@, self.adv.input.acc, offset, state.input_acc),
            advice("Output Coef"@, self.adv.output.coef, offset, state.output_coef),
            advice("Output accumulator"@, self.adv.output.acc, offset, state.output_acc),
        ]
    }

    /// All cells of a chunk.
    pub open spec fn assignments(self, offset: nat, state: RotatingState) -> Seq<AssignmentView> {
        self.sum_assignments(offset, state) + self.block_count_acc_config.assignments(
            offset,
            state.block_count->Some_0,
            state.block_count_acc,
        )
    }

    /// Assigns one chunk. The special chunk has no block count, and is refused.
    pub fn assign_region(
        &self,
        region: &mut Region,
        offset: usize,
        rv: &RotatingVariables,
    ) -> (block_counts: Result<BlockCount2, Error>)
        ensures
            final(region).modulus == old(region).modulus,
            match block_counts {
                Ok(block_counts) => {
                    &&& rv.block_count is Some
                    &&& final(region)@ == old(region)@ + self.assignments(offset as nat, rv@)
                    &&& self.block_count_acc_config.hands_back(
                        block_counts,
                        old(region)@.len() + 4,
                        rv@.block_count_acc,
                    )
                },
                Err(error) => {
                    &&& rv.block_count is None
                    &&& error == Error::Synthesis
                    &&& final(region)@ == old(region)@ + self.sum_assignments(offset as nat, rv@)
                },
            },
    {
        region.assign_advice(
            Label::Text("Input Coef"),
            self.adv.input.coef,
            offset,
            rv.input_coef.clone(),
        );
        region.assign_advice(
            Label::Text("Input accumulator"),
            self.adv.input.acc,
            offset,
            rv.input_acc.clone(),
        );
        region.assign_advice(
            Label::Text("Output Coef"),
            self.adv.output.coef,
            offset,
            rv.output_coef.clone(),
        );
        region.assign_advice(
            Label::Text("Output accumulator"),
            self.adv.output.acc,
            offset,
            rv.output_acc.clone(),
        );
        assert(region@ =~= old(region)@ + self.sum_assignments(offset as nat, rv@));
        match rv.block_count {
            Some(block_count) => {
                let block_counts = self.block_count_acc_config.assign_region(
                    region,
                    offset,
                    block_count,
                    rv.block_count_acc,
                );
                assert(region@ =~= old(region)@ + self.assignments(offset as nat, rv@));
                block_counts
            },
            None => Err(Error::Synthesis),
        }
    }
}

/// The checks of the sums of the block counts.
#[derive(Debug, Clone, Copy, PartialEq, Eq, Structural)]
pub struct BlockCountAccConfig {
    pub q_enable: Selector,
    pub bc: BlockCountAdvices,
    pub step: u32,
}

impl BlockCountAccConfig {
    pub fn configure(
        meta: &mut ConstraintSystem,
        q_enable: Selector,
        bc: BlockCountAdvices,
        step: u32,
    ) -> (config: Self)
        requires
            1 <= step <= 4,
        ensures
            config == (BlockCountAccConfig { q_enable, bc, step }),
            final(meta)@ == old(meta)@.push(
                EntryView::Gate(block_count_gate(q_enable, bc, step as nat)),
            ),
            final(meta).selectors == old(meta).selectors,
    {
        let block_count = Expression::cur(bc.block_count);
        let delta_step2 = Expression::next(bc.step2_acc).minus(Expression::cur(bc.step2_acc));
        let delta_step3 = Expression::next(bc.step3_acc).minus(Expression::cur(bc.step3_acc));
        let constraints: Vec<Constraint> = if step == 2 {
            vec![
                Constraint {
                    name: "delta_step2 = block_count",
                    poly: Expression::switch(q_enable).times(delta_step2.minus(block_count)),
                },
                Constraint {
                    name: "delta_step3 = 0",
                    poly: Expression::switch(q_enable).times(delta_step3),
                },
            ]
        } else if step == 3 {
            vec![
                Constraint {
                    name: "delta_step2 = 0",
                    poly: Expression::switch(q_enable).times(delta_step2),
                },
                Constraint {
                    name: "delta_step3 = block_count",
                    poly: Expression::switch(q_enable).times(delta_step3.minus(block_count)),
                },
            ]
        } else {
            vec![
                Constraint {
                    name: "block_count = 0",
                    poly: Expression::switch(q_enable).times(block_count),
                },
                Constraint {
                    name: "delta_step2 = 0",
                    poly: Expression::switch(q_enable).times(delta_step2),
                },
                Constraint {
                    name: "delta_step3 = 0",
                    poly: Expression::switch(q_enable).times(delta_step3),
                },
            ]
        };
        assert(constraints_view(constraints@) =~~= block_count_gate(
            q_enable,
            bc,
            step as nat,
        ).constraints);
        meta.create_gate("accumulate block count", constraints);
        BlockCountAccConfig { q_enable, bc, step }
    }

    /// The cells of a chunk's block count and of the two sums.
    pub open spec fn assignments(
        self,
        offset: nat,
        block_count: nat,
        block_count_acc: (nat, nat),
    ) -> Seq<AssignmentView> {
        seq![
            advice("block_count"@, self.bc.block_count, offset, block_count),
            advice("step 2 bc acc"@, self.bc.step2_acc, offset, block_count_acc.0),
            advice("step 3 bc acc"@, self.bc.step3_acc, offset, block_count_acc.1),
        ]
    }

    /// The two sums that are returned, where the region held `before` assignments.
    pub open spec fn hands_back(
        self,
        block_counts: BlockCount2,
        before: nat,
        block_count_acc: (nat, nat),
    ) -> bool {
        &&& block_counts.0.cell == Cell::Placed((before + 1) as usize)
        &&& block_counts.0.value@ == block_count_acc.0
        &&& block_counts.1.cell == Cell::Placed((before + 2) as usize)
        &&& block_counts.1.value@ == block_count_acc.1
    }

    /// Assigns the block count of a chunk and the two sums.
    pub fn assign_region(
        &self,
        region: &mut Region,
        offset: usize,
        block_count: u32,
        block_count_acc: [u32; 2],
    ) -> (block_counts: Result<BlockCount2, Error>)
        ensures
            block_counts is Ok,
            self.hands_back(
                block_counts->Ok_0,
                old(region)@.len(),
                (block_count_acc[0] as nat, block_count_acc[1] as nat),
            ),
            final(region)@ == old(region)@ + self.assignments(
                offset as nat,
                block_count as nat,
                (block_count_acc[0] as nat, block_count_acc[1] as nat),
            ),
            final(region).modulus == old(region).modulus,
    {
        region.assign_advice(
            Label::Text("block_count"),
            self.bc.block_count,
            offset,
            Natural::from_u64(block_count as u64),
        );
        let step2_value = Natural::from_u64(block_count_acc[0] as u64);
        let cell = region.assign_advice(
            Label::Text("step 2 bc acc"),
            self.bc.step2_acc,
            offset,
            step2_value.clone(),
        );
        let step2 = BlockCount { cell, value: step2_value };
        let step3_value = Natural::from_u64(block_count_acc[1] as u64);
        let cell = region.assign_advice(
            Label::Text("step 3 bc acc"),
            self.bc.step3_acc,
            offset,
            step3_value.clone(),
        );
        let step3 = BlockCount { cell, value: step3_value };
        assert(region@ =~= old(region)@ + self.assignments(
            offset as nat,
            block_count as nat,
            (block_count_acc[0] as nat, block_count_acc[1] as nat),
        ));
        Ok((step2, step3))
    }
}

/// The checks of the special chunk.
#[derive(Debug, Clone, Copy, PartialEq, Eq, Structural)]
pub struct SpecialChunkConfig {
    pub q_enable: Selector,
    pub last_b9_coef: AdviceColumn,
    pub rotation: u64,
    pub base_13_acc: AdviceColumn,
    pub base_9_acc: AdviceColumn,
    pub special_chunk_table_config: SpecialChunkTableConfig,
}

impl SpecialChunkConfig {
    /// What the circuit is configured with for the special chunk.
    pub open spec fn entries(self) -> Seq<EntryView> {
        seq![
            EntryView::Gate(
                special_gate(
                    self.q_enable,
                    self.base_9_acc,
                    self.last_b9_coef,
                    self.rotation as nat,
                ),
            ),
            self.special_chunk_table_config.lookup_entry(
                self.q_enable,
                self.base_13_acc,
                self.last_b9_coef,
            ),
        ]
    }

    pub fn configure(
        meta: &mut ConstraintSystem,
        q_enable: Selector,
        base_13_acc: AdviceColumn,
        base_9_acc: AdviceColumn,
        last_b9_coef: AdviceColumn,
        special: [FixedColumn; 2],
        rotation: u64,
    ) -> (config: Self)
        ensures
            config == (SpecialChunkConfig {
                q_enable,
                last_b9_coef,
                rotation,
                base_13_acc,
                base_9_acc,
                special_chunk_table_config: SpecialChunkTableConfig {
                    last_chunk: special[0],
                    output_coef: special[1],
                },
            }),
            final(meta)@ == old(meta)@ + config.entries(),
            final(meta).selectors == old(meta).selectors,
    {
        let delta_base_9_acc = Expression::next(base_9_acc).minus(Expression::cur(base_9_acc));
        let added = Expression::cur(last_b9_coef).times(Expression::power_of(B9, rotation));
        let poly = Expression::switch(q_enable).times(delta_base_9_acc.minus(added));
        let constraints: Vec<Constraint> = vec![
            Constraint {
                name: "delta_base_9_acc === (high_value + low_value) * 9**rotation",
                poly,
            },
        ];
        assert(constraints_view(constraints@) =~~= special_gate(
            q_enable,
            base_9_acc,
            last_b9_coef,
            rotation as nat,
        ).constraints);
        meta.create_gate("validate base_9_acc", constraints);
        let special_chunk_table_config = SpecialChunkTableConfig::configure(
            meta,
            q_enable,
            base_13_acc,
            last_b9_coef,
            special,
        );
        let config = SpecialChunkConfig {
            q_enable,
            last_b9_coef,
            rotation,
            base_13_acc,
            base_9_acc,
            special_chunk_table_config,
        };
        assert(meta@ =~= old(meta)@ + config.entries());
        config
    }

    /// The cells of the special chunk but for the final output.
    pub open spec fn open_assignments(self, offset: nat, state: RotatingState) -> Seq<
        AssignmentView,
    > {
        seq![
            AssignmentView::Enable { selector: self.q_enable, offset },
            advice("input_acc"@, self.base_13_acc, offset, state.input_acc),
            advice("ouput_acc"@, self.base_9_acc, offset, state.output_acc),
            advice("last_b9_coef"@, self.last_b9_coef, offset, state.output_coef),
            advice("input_acc"@, self.base_13_acc, offset + 1, 0),
        ]
    }

    /// All cells of the special chunk.
    pub open spec fn assignments(self, offset: nat, state: RotatingState) -> Seq<AssignmentView> {
        self.open_assignments(offset, state).push(
            advice("input_acc"@, self.base_9_acc, offset + 1, state.finalize().output_acc),
        )
    }

    /// Assigns the special chunk, and returns the lane that it completes. An output
    /// that does not fit in the field is refused.
    pub fn assign_region(
        &self,
        region: &mut Region,
        offset: usize,
        rv: &RotatingVariables,
    ) -> (lane: Result<Lane, Error>)
        requires
            rv.high_value is Some,
            offset < usize::MAX,
        ensures
            final(region).modulus == old(region).modulus,
            match lane {
                Ok(lane) => {
                    &&& rv@.finalize().output_acc < old(region).modulus@
                    &&& final(region)@ == old(region)@ + self.assignments(offset as nat, rv@)
                    &&& lane.cell == Cell::Placed((old(region)@.len() + 5) as usize)
                    &&& lane.value@ == rv@.finalize().output_acc
                },
                Err(error) => {
                    &&& rv@.finalize().output_acc >= old(region).modulus@
                    &&& error == Error::Synthesis
                    &&& final(region)@ == old(region)@ + self.open_assignments(offset as nat, rv@)
                },
            },
    {
        region.enable(self.q_enable, offset);
        region.assign_advice(
            Label::Text("input_acc"),
            self.base_13_acc,
            offset,
            rv.input_acc.clone(),
        );
        region.assign_advice(
            Label::Text("ouput_acc"),
            self.base_9_acc,
            offset,
            rv.output_acc.clone(),
        );
        region.assign_advice(
            Label::Text("last_b9_coef"),
            self.last_b9_coef,
            offset,
            rv.output_coef.clone(),
        );

        let rv_final = rv.finalize();
        region.assign_advice(
            Label::Text("input_acc"),
            self.base_13_acc,
            offset + 1,
            Natural::zero(),
        );
        assert(region@ =~= old(region)@ + self.open_assignments(offset as nat, rv@));
        let value = rv_final.output_acc;
        if !value.less_than(&region.modulus) {
            return Err(Error::Synthesis);
        }
        let cell = region.assign_advice(
            Label::Text("input_acc"),
            self.base_9_acc,
            offset + 1,
            value.clone(),
        );
        assert(region@ =~= old(region)@ + self.assignments(offset as nat, rv@));
        Ok(Lane { cell, value })
    }
}

/// The check of the final sums of the block counts.
#[derive(Debug, Clone, Copy)]
pub struct BlockCountFinalConfig {
    pub q_enable: Selector,
    pub block_count_cols: [AdviceColumn; 2],
}

/// The polynomial that vanishes where the column holds a number up to `bound`.
fn vanishing_poly(column: AdviceColumn, bound: u64) -> (poly: Expression)
    ensures
        forall|row: Row| #[trigger] poly.eval(row) == vanishing(row.cur(column), bound as nat),
{
    let mut poly = Expression::cur(column).minus(Expression::constant(0));
    let mut done: u64 = 0;
    while done < bound
        invariant
            done <= bound,
            forall|row: Row| #[trigger] poly.eval(row) == vanishing(row.cur(column), done as nat),
        decreases bound - done,
    {
        done = done + 1;
        poly = poly.times(Expression::cur(column).minus(Expression::constant(done)));
    }
    poly
}

impl BlockCountFinalConfig {
    /// What the circuit is configured with for the final check.
    pub open spec fn entries(self) -> Seq<EntryView> {
        seq![
            EntryView::NewSelector(self.q_enable),
            EntryView::EnableEquality(self.block_count_cols[0]),
            EntryView::EnableEquality(self.block_count_cols[1]),
            EntryView::Gate(
                final_gate(self.q_enable, self.block_count_cols[0], self.block_count_cols[1]),
            ),
        ]
    }

    pub fn configure(
        meta: &mut ConstraintSystem,
        block_count_cols: [AdviceColumn; 2],
    ) -> (config: Self)
        requires
            old(meta).selectors < usize::MAX,
        ensures
            config.q_enable.index == old(meta).selectors,
            config.block_count_cols == block_count_cols,
            final(meta)@ == old(meta)@ + config.entries(),
            final(meta).selectors == old(meta).selectors + 1,
    {
        let q_enable = meta.selector();
        meta.enable_equality(block_count_cols[0]);
        meta.enable_equality(block_count_cols[1]);

        let step2_poly = vanishing_poly(block_count_cols[0], 12);
        let step3_poly = vanishing_poly(block_count_cols[1], 13 * 13);
        let constraints: Vec<Constraint> = vec![
            Constraint {
                name: "step2_acc <=12",
                poly: Expression::switch(q_enable).times(step2_poly),
            },
            Constraint {
                name: "step3_acc <= 13 * 13",
                poly: Expression::switch(q_enable).times(step3_poly),
            },
        ];
        assert(constraints_view(constraints@) =~~= final_gate(
            q_enable,
            block_count_cols[0],
            block_count_cols[1],
        ).constraints);
        meta.create_gate("block count final check", constraints);

        let config = BlockCountFinalConfig { q_enable, block_count_cols };
        assert(meta@ =~= old(meta)@ + config.entries());
        config
    }

    /// The cells of one lane's sums, where the region held `before` assignments.
    pub open spec fn lane_assignments(
        self,
        before: nat,
        lane: nat,
        block_counts: BlockCount2,
    ) -> Seq<AssignmentView> {
        seq![
            AssignmentView::Enable { selector: self.q_enable, offset: lane },
            AssignmentView::Advice {
                label: LabelView::Step2Lane(lane),
                column: self.block_count_cols[0],
                offset: lane,
                value: block_counts.0.value@,
            },
            AssignmentView::Equal {
                left: Cell::Placed((before + 1) as usize),
                right: block_counts.0.cell,
            },
            AssignmentView::Advice {
                label: LabelView::Step3Lane(lane),
                column: self.block_count_cols[1],
                offset: lane,
                value: block_counts.1.value@,
            },
            AssignmentView::Equal {
                left: Cell::Placed((before + 3) as usize),
                right: block_counts.1.cell,
            },
        ]
    }

    /// The cells of the sums of all lanes, where the region held `before`
    /// assignments.
    pub open spec fn assignments(self, before: nat, block_counts: Seq<BlockCount2>) -> Seq<
        AssignmentView,
    >
        decreases block_counts.len(),
    {
        if block_counts.len() == 0 {
            seq![]
        } else {
            let lane = (block_counts.len() - 1) as nat;
            self.assignments(before, block_counts.drop_last()) + self.lane_assignments(
                before + 5 * lane,
                lane,
                block_counts.last(),
            )
        }
    }

    /// Assigns the sums of all lanes, and ties them to the cells where they were
    /// computed.
    pub fn assign_region(
        &self,
        region: &mut Region,
        block_count_cells: &[BlockCount2; 25],
    ) -> (done: Result<(), Error>)
        ensures
            done is Ok,
            final(region)@ == old(region)@ + self.assignments(
                old(region)@.len(),
                block_count_cells@,
            ),
            final(region).modulus == old(region).modulus,
    {
        let mut offset: usize = 0;
        let ghost before = region@;
        assert(block_count_cells@.take(0).len() == 0);
        assert(region@ =~= before + self.assignments(before.len(), block_count_cells@.take(0)));
        while offset < 25
            invariant
                offset <= 25,
                block_count_cells@.len() == 25,
                region.modulus == old(region).modulus,
                region@.len() == before.len() + 5 * offset,
                region@ == before + self.assignments(
                    before.len(),
                    block_count_cells@.take(offset as int),
                ),
            decreases 25 - offset,
        {
            let ghost lanes = block_count_cells@.take(offset + 1);
            let ghost start = region@;
            let bc = &block_count_cells[offset];
            region.enable(self.q_enable, offset);
            let cell_1 = region.assign_advice(
                Label::Step2Lane(offset),
                self.block_count_cols[0],
                offset,
                bc.0.value.clone(),
            );
            region.constrain_equal(cell_1, bc.0.cell);
            let cell_2 = region.assign_advice(
                Label::Step3Lane(offset),
                self.block_count_cols[1],
                offset,
                bc.1.value.clone(),
            );
            region.constrain_equal(cell_2, bc.1.cell);
            assert(lanes.drop_last() =~= block_count_cells@.take(offset as int));
            assert(region@ =~= start + self.lane_assignments(
                start.len(),
                offset as nat,
                block_count_cells@[offset as int],
            ));
            assert(region@ =~= before + self.assignments(before.len(), lanes));
            offset = offset + 1;
        }
        assert(block_count_cells@.take(25) =~= block_count_cells@);
        Ok(())
    }
}

} // verus!
