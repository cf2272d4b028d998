//! The two lookup tables of the rho step.

use vstd::prelude::*;

use crate::chunks::{
    block_cost, convert_b13_coef, digit_count, get_block_count_and_output_coef, reencode, B13,
    LANE_SIZE,
};
use crate::circuit::{AdviceColumn, ConstraintSystem, EntryView, FixedColumn, LookupView, Selector};
use crate::natural::Natural;
use crate::power::power;

verus! {

/// The number of values that a chunk of four digits can take.
pub const CHUNK_VALUES: u64 = 28561;

/// The rows of a table as numbers.
pub open spec fn rows_view(rows: Seq<Vec<Natural>>) -> Seq<Seq<nat>> {
    rows.map_values(|row: Vec<Natural>| row@.map_values(|value: Natural| value@))
}

/// A row for each value of a chunk: the value, the value converted to base 9, and
/// its block count.
pub open spec fn base_13_to_base_9_rows(count: nat) -> Seq<Seq<nat>> {
    Seq::new(
        count,
        |value: int|
            seq![
                value as nat,
                reencode(value as nat),
                block_cost(digit_count(value as nat)),
            ],
    )
}

/// The row for one pair of a low and a high digit: the two digits at their places,
/// and the parity of their sum.
pub open spec fn special_chunk_row(low: nat, high: nat) -> Seq<nat> {
    seq![low + high * power(13, LANE_SIZE as nat), (low + high) % 2]
}

/// The rows with the low digit `low` and a high digit less than `count`.
pub open spec fn special_chunk_rows_at(low: nat, count: nat) -> Seq<Seq<nat>> {
    Seq::new(count, |high: int| special_chunk_row(low, high as nat))
}

/// The rows with a low digit less than `count`. The two digits add up to less
/// than 13.
pub open spec fn special_chunk_rows(count: nat) -> Seq<Seq<nat>>
    decreases count,
{
    if count == 0 {
        seq![]
    } else {
        let low = (count - 1) as nat;
        special_chunk_rows(low) + special_chunk_rows_at(low, (13 - low) as nat)
    }
}

/// What a table holds: a column for each place of a row, and the rows.
#[derive(Debug)]
pub struct TableRows {
    pub columns: Vec<FixedColumn>,
    pub rows: Vec<Vec<Natural>>,
}

/// Appends a row of three values.
fn push_three(rows: &mut Vec<Vec<Natural>>, first: Natural, second: Natural, third: Natural)
    ensures
        rows_view(final(rows)@) == rows_view(old(rows)@).push(seq![first@, second@, third@]),
{
    let ghost expected = seq![first@, second@, third@];
    let mut row: Vec<Natural> = Vec::new();
    row.push(first);
    row.push(second);
    row.push(third);
    assert(row@.map_values(|value: Natural| value@) =~= expected);
    rows.push(row);
    assert(rows_view(rows@) =~= rows_view(old(rows)@).push(expected));
}

/// Appends a row of two values.
fn push_two(rows: &mut Vec<Vec<Natural>>, first: Natural, second: Natural)
    ensures
        rows_view(final(rows)@) == rows_view(old(rows)@).push(seq![first@, second@]),
{
    let ghost expected = seq![first@, second@];
    let mut row: Vec<Natural> = Vec::new();
    row.push(first);
    row.push(second);
    assert(row@.map_values(|value: Natural| value@) =~= expected);
    rows.push(row);
    assert(rows_view(rows@) =~= rows_view(old(rows)@).push(expected));
}

/// The table that converts a chunk from base 13 to base 9 and counts its blocks.
#[derive(Debug, Clone, Copy, PartialEq, Eq, Structural)]
pub struct Base13toBase9TableConfig {
    pub base13: FixedColumn,
    pub base9: FixedColumn,
    pub block_count: FixedColumn,
}

impl Base13toBase9TableConfig {
    /// The lookup of the three advice columns in the table.
    pub open spec fn lookup_entry(
        self,
        q_enable: Selector,
        base13_coef: AdviceColumn,
        base9_coef: AdviceColumn,
        block_count: AdviceColumn,
    ) -> EntryView {
        EntryView::Lookup(
            LookupView {
                selector: q_enable,
                inputs: seq![base13_coef, base9_coef, block_count],
                table: seq![self.base13, self.base9, self.block_count],
            },
        )
    }

    pub fn configure(
        meta: &mut ConstraintSystem,
        q_enable: Selector,
        base13_coef: AdviceColumn,
        base9_coef: AdviceColumn,
        block_count: AdviceColumn,
        fixed: [FixedColumn; 3],
    ) -> (config: Self)
        ensures
            config.base13 == fixed[0],
            config.base9 == fixed[1],
            config.block_count == fixed[2],
            final(meta)@ == old(meta)@.push(
                config.lookup_entry(q_enable, base13_coef, base9_coef, block_count),
            ),
            final(meta).selectors == old(meta).selectors,
    {
        let inputs: Vec<AdviceColumn> = vec![base13_coef, base9_coef, block_count];
        let table: Vec<FixedColumn> = vec![fixed[0], fixed[1], fixed[2]];
        assert(inputs@ =~= seq![base13_coef, base9_coef, block_count]);
        assert(table@ =~= seq![fixed[0], fixed[1], fixed[2]]);
        meta.lookup(q_enable, inputs, table);
        Base13toBase9TableConfig { base13: fixed[0], base9: fixed[1], block_count: fixed[2] }
    }

    /// What the table holds.
    pub fn load(&self) -> (table: TableRows)
        ensures
            table.columns@ == seq![self.base13, self.base9, self.block_count],
            rows_view(table.rows@) == base_13_to_base_9_rows(CHUNK_VALUES as nat),
    {
        proof {
            reveal_with_fuel(power, 5);
            assert(power(13, 4) == CHUNK_VALUES);
        }
        let mut rows: Vec<Vec<Natural>> = Vec::new();
        let mut value: u64 = 0;
        assert(rows_view(rows@) =~= base_13_to_base_9_rows(0));
        while value < CHUNK_VALUES
            invariant
                value <= CHUNK_VALUES,
                power(13, 4) == CHUNK_VALUES,
                rows_view(rows@) == base_13_to_base_9_rows(value as nat),
            decreases CHUNK_VALUES - value,
        {
            let coef = Natural::from_u64(value);
            let (block_count, output_coef) = get_block_count_and_output_coef(&coef);
            push_three(
                &mut rows,
                coef,
                Natural::from_u64(output_coef),
                Natural::from_u64(block_count as u64),
            );
            assert(rows_view(rows@) =~= base_13_to_base_9_rows((value + 1) as nat));
            value = value + 1;
        }
        let columns: Vec<FixedColumn> = vec![self.base13, self.base9, self.block_count];
        assert(columns@ =~= seq![self.base13, self.base9, self.block_count]);
        TableRows { columns, rows }
    }
}

/// The table that converts the special chunk, made of the low and the high digit.
#[derive(Debug, Clone, Copy, PartialEq, Eq, Structural)]
pub struct SpecialChunkTableConfig {
    pub last_chunk: FixedColumn,
    pub output_coef: FixedColumn,
}

impl SpecialChunkTableConfig {
    /// The lookup of the two advice columns in the table.
    pub open spec fn lookup_entry(
        self,
        q_enable: Selector,
        base_13_acc: AdviceColumn,
        last_b9_coef: AdviceColumn,
    ) -> EntryView {
        EntryView::Lookup(
            LookupView {
                selector: q_enable,
                inputs: seq![base_13_acc, last_b9_coef],
                table: seq![self.last_chunk, self.output_coef],
            },
        )
    }

    pub fn configure(
        meta: &mut ConstraintSystem,
        q_enable: Selector,
        base_13_acc: AdviceColumn,
        last_b9_coef: AdviceColumn,
        fixed: [FixedColumn; 2],
    ) -> (config: Self)
        ensures
            config.last_chunk == fixed[0],
            config.output_coef == fixed[1],
            final(meta)@ == old(meta)@.push(
                config.lookup_entry(q_enable, base_13_acc, last_b9_coef),
            ),
            final(meta).selectors == old(meta).selectors,
    {
        let inputs: Vec<AdviceColumn> = vec![base_13_acc, last_b9_coef];
        let table: Vec<FixedColumn> = vec![fixed[0], fixed[1]];
        assert(inputs@ =~= seq![base_13_acc, last_b9_coef]);
        assert(table@ =~= seq![fixed[0], fixed[1]]);
        meta.lookup(q_enable, inputs, table);
        SpecialChunkTableConfig { last_chunk: fixed[0], output_coef: fixed[1] }
    }

    /// What the table holds.
    pub fn load(&self) -> (table: TableRows)
        ensures
            table.columns@ == seq![self.last_chunk, self.output_coef],
            rows_view(table.rows@) == special_chunk_rows(13),
    {
        let high_place = Natural::power_of(13, LANE_SIZE);
        let mut rows: Vec<Vec<Natural>> = Vec::new();
        let mut low: u64 = 0;
        assert(rows_view(rows@) =~= special_chunk_rows(0));
        while low < B13
            invariant
                low <= B13,
                high_place@ == power(13, LANE_SIZE as nat),
                rows_view(rows@) == special_chunk_rows(low as nat),
            decreases B13 - low,
        {
            let ghost before = rows_view(rows@);
            let mut high: u64 = 0;
            assert(before + special_chunk_rows_at(low as nat, 0) =~= before);
            while high < B13 - low
                invariant
                    low < B13,
                    high <= B13 - low,
                    high_place@ == power(13, LANE_SIZE as nat),
                    rows_view(rows@) == before + special_chunk_rows_at(low as nat, high as nat),
                decreases B13 - low - high,
            {
                let last_chunk = Natural::from_u64(low).plus(&high_place.times_u64(high));
                assert(high_place@ * high == high * high_place@) by (nonlinear_arith);
                push_two(&mut rows, last_chunk, Natural::from_u64(convert_b13_coef(low + high)));
                assert(rows_view(rows@) =~= before + special_chunk_rows_at(
                    low as nat,
                    (high + 1) as nat,
                ));
                high = high + 1;
            }
            low = low + 1;
        }
        let columns: Vec<FixedColumn> = vec![self.last_chunk, self.output_coef];
        assert(columns@ =~= seq![self.last_chunk, self.output_coef]);
        TableRows { columns, rows }
    }
}

} // verus!
