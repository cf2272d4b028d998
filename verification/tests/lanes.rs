use num_bigint::BigUint;
use rho_call::chunks::slice_lane;
use rho_call::circuit::{
    AdviceColumn, Assignment, Cell, ConstraintSystem, Entry, Error, Expression, FixedColumn, Label,
    Region, Rotation, Selector,
};
use rho_call::lane_config::LaneRotateConversionConfig;
use rho_call::natural::Natural;
use rho_call::rho_checks::{
    BlockCount, BlockCount2, BlockCountAccConfig, BlockCountAdvices, BlockCountFinalConfig,
    ChunkRotateConversionConfig, Lane, RhoAdvices, SpecialChunkConfig, ROTATION_CONSTANTS,
};
use rho_call::rotation::RotatingVariables;
use rho_call::tables::{Base13toBase9TableConfig, SpecialChunkTableConfig};

/// A prime field in which the gates are evaluated.
const MODULUS: i128 = (1 << 61) - 1;

fn adv(index: usize) -> AdviceColumn {
    AdviceColumn { index }
}

fn fixed(index: usize) -> FixedColumn {
    FixedColumn { index }
}

fn advices() -> RhoAdvices {
    RhoAdvices::from([adv(0), adv(1), adv(2), adv(3), adv(4), adv(5), adv(6)])
}

fn region() -> Region {
    Region::new(Natural::power_of(2, 254))
}

fn small(number: &Natural) -> u64 {
    number.to_u64().unwrap()
}

/// The value of a polynomial where the columns hold `cur` and `next`, and the
/// selectors are all on or all off.
fn eval(poly: &Expression, cur: &[i128], next: &[i128], on: bool) -> i128 {
    let value = match poly {
        Expression::Constant(value) => *value as i128,
        Expression::Power { base, exponent } => {
            let mut power = 1;
            for _ in 0..*exponent {
                power = power * (*base as i128) % MODULUS;
            }
            power
        }
        Expression::Selector(_) => on as i128,
        Expression::Advice(column, Rotation::Cur) => cur[column.index],
        Expression::Advice(column, Rotation::Next) => next[column.index],
        Expression::Negated(inner) => -eval(inner, cur, next, on),
        Expression::Sum(left, right) => eval(left, cur, next, on) + eval(right, cur, next, on),
        Expression::Product(left, right) => {
            eval(left, cur, next, on) * eval(right, cur, next, on)
        }
    };
    value.rem_euclid(MODULUS)
}

/// The names of a gate's polynomials that do not vanish.
fn broken(entry: &Entry, cur: &[i128], next: &[i128], on: bool) -> Vec<&'static str> {
    match entry {
        Entry::Gate(gate) => gate
            .constraints
            .iter()
            .filter(|constraint| eval(&constraint.poly, cur, next, on) != 0)
            .map(|constraint| constraint.name)
            .collect(),
        _ => panic!("not a gate"),
    }
}

fn placed(assignment: &Assignment) -> (&'static str, usize, usize, u64) {
    match assignment {
        Assignment::Advice { label: Label::Text(text), column, offset, value } => {
            (*text, column.index, *offset, small(value))
        }
        _ => panic!("not a named value"),
    }
}

fn configured(x: usize, y: usize) -> (ConstraintSystem, LaneRotateConversionConfig) {
    let mut meta = ConstraintSystem::new();
    let config = LaneRotateConversionConfig::configure(
        &mut meta,
        (x, y),
        advices(),
        [adv(7), adv(8)],
        [fixed(0), fixed(1), fixed(2)],
        [fixed(3), fixed(4)],
    );
    (meta, config)
}

#[test]
fn columns_are_named_in_order() {
    let columns = advices();
    assert_eq!(columns.input.coef, adv(0));
    assert_eq!(columns.input.acc, adv(1));
    assert_eq!(columns.output.coef, adv(2));
    assert_eq!(columns.output.acc, adv(3));
    assert_eq!(columns.bc.block_count, adv(4));
    assert_eq!(columns.bc.step2_acc, adv(5));
    assert_eq!(columns.bc.step3_acc, adv(6));
}

#[test]
fn rotations_are_within_a_lane() {
    assert_eq!(ROTATION_CONSTANTS[0][0], 0);
    assert_eq!(ROTATION_CONSTANTS[0][1], 36);
    assert_eq!(ROTATION_CONSTANTS[2][0], 62);
    for row in ROTATION_CONSTANTS {
        for rotation in row {
            assert!(rotation < 64);
        }
    }
}

#[test]
fn a_lane_configures_its_chunks() {
    let (meta, config) = configured(0, 1);
    let slices = slice_lane(36);
    assert_eq!(config.rotation, 36);
    assert_eq!(config.lane_xy, (0, 1));
    assert_eq!(config.q_enable, Selector { index: 0 });
    assert_eq!(config.q_is_special, Selector { index: 1 });
    assert_eq!(meta.selectors, 2);
    assert_eq!(config.chunk_rotate_convert_configs.len(), slices.len());
    for (chunk, slice) in config.chunk_rotate_convert_configs.iter().zip(slices.iter()) {
        assert_eq!((chunk.chunk_idx, chunk.step), *slice);
        assert_eq!(chunk.rotation, 36);
    }
    assert_eq!(meta.entries.len(), 4 + 4 * slices.len() + 2);
    assert!(matches!(meta.entries[0], Entry::EnableEquality(AdviceColumn { index: 1 })));
    assert!(matches!(meta.entries[1], Entry::EnableEquality(AdviceColumn { index: 3 })));
    assert!(matches!(meta.entries[2], Entry::NewSelector(Selector { index: 0 })));
    assert!(matches!(meta.entries[3], Entry::NewSelector(Selector { index: 1 })));
    match &meta.entries[4] {
        Entry::Lookup(lookup) => {
            assert_eq!(lookup.selector, Selector { index: 0 });
            assert_eq!(lookup.inputs, vec![adv(0), adv(2), adv(4)]);
            assert_eq!(lookup.table, vec![fixed(0), fixed(1), fixed(2)]);
        }
        _ => panic!("not a lookup"),
    }
    match meta.entries.last().unwrap() {
        Entry::Lookup(lookup) => {
            assert_eq!(lookup.selector, Selector { index: 1 });
            assert_eq!(lookup.inputs, vec![adv(1), adv(7)]);
            assert_eq!(lookup.table, vec![fixed(3), fixed(4)]);
        }
        _ => panic!("not a lookup"),
    }
}

#[test]
fn running_sum_gates() {
    let mut meta = ConstraintSystem::new();
    ChunkRotateConversionConfig::configure(
        Selector { index: 0 },
        &mut meta,
        advices(),
        [fixed(0), fixed(1), fixed(2)],
        2,
        63,
        4,
    );
    // the chunk stands at 13^2 in the input and at 9^((63 + 2) % 64) in the output
    let cur = [3, 1000, 2, 50, 0, 0, 0];
    let next = [0, 1000 - 3 * 169, 0, 50 + 2 * 9, 0, 0, 0];
    assert!(broken(&meta.entries[1], &cur, &next, true).is_empty());
    assert!(broken(&meta.entries[2], &cur, &next, true).is_empty());
    let wrong = [0, 1000, 0, 50, 0, 0, 0];
    assert_eq!(
        broken(&meta.entries[1], &cur, &wrong, true),
        vec!["delta_acc === - coef * power_of_base"]
    );
    assert_eq!(
        broken(&meta.entries[2], &cur, &wrong, true),
        vec!["delta_acc === coef * power_of_base"]
    );
    assert!(broken(&meta.entries[1], &cur, &wrong, false).is_empty());
    assert!(broken(&meta.entries[2], &cur, &wrong, false).is_empty());
}

#[test]
fn block_count_gates() {
    let bc = BlockCountAdvices { block_count: adv(0), step2_acc: adv(1), step3_acc: adv(2) };
    let mut meta = ConstraintSystem::new();
    for step in 1..5 {
        let config = BlockCountAccConfig::configure(&mut meta, Selector { index: 0 }, bc, step);
        assert_eq!(config.step, step);
    }
    let cur = [5, 10, 20];
    let stays = [0, 10, 20];
    let two = [0, 15, 20];
    let three = [0, 10, 25];
    assert_eq!(broken(&meta.entries[0], &cur, &stays, true), vec!["block_count = 0"]);
    assert_eq!(broken(&meta.entries[3], &cur, &stays, true), vec!["block_count = 0"]);
    assert!(broken(&meta.entries[0], &[0, 10, 20], &stays, true).is_empty());
    assert!(broken(&meta.entries[1], &cur, &two, true).is_empty());
    assert_eq!(
        broken(&meta.entries[1], &cur, &three, true),
        vec!["delta_step2 = block_count", "delta_step3 = 0"]
    );
    assert!(broken(&meta.entries[2], &cur, &three, true).is_empty());
    assert_eq!(
        broken(&meta.entries[2], &cur, &two, true),
        vec!["delta_step2 = 0", "delta_step3 = block_count"]
    );
    assert!(broken(&meta.entries[2], &cur, &two, false).is_empty());
}

#[test]
fn special_gate() {
    let mut meta = ConstraintSystem::new();
    let config = SpecialChunkConfig::configure(
        &mut meta,
        Selector { index: 3 },
        adv(0),
        adv(1),
        adv(2),
        [fixed(0), fixed(1)],
        2,
    );
    assert_eq!(config.special_chunk_table_config.last_chunk, fixed(0));
    assert_eq!(config.special_chunk_table_config.output_coef, fixed(1));
    assert!(broken(&meta.entries[0], &[0, 7, 1], &[0, 7 + 81, 0], true).is_empty());
    assert_eq!(
        broken(&meta.entries[0], &[0, 7, 1], &[0, 7, 0], true),
        vec!["delta_base_9_acc === (high_value + low_value) * 9**rotation"]
    );
    assert!(broken(&meta.entries[0], &[0, 7, 1], &[0, 7, 0], false).is_empty());
}

#[test]
fn final_gate_bounds_the_sums() {
    let mut meta = ConstraintSystem::new();
    let config = BlockCountFinalConfig::configure(&mut meta, [adv(0), adv(1)]);
    assert_eq!(config.q_enable, Selector { index: 0 });
    assert_eq!(meta.entries.len(), 4);
    assert!(matches!(meta.entries[0], Entry::NewSelector(Selector { index: 0 })));
    assert!(matches!(meta.entries[1], Entry::EnableEquality(AdviceColumn { index: 0 })));
    assert!(matches!(meta.entries[2], Entry::EnableEquality(AdviceColumn { index: 1 })));
    let gate = &meta.entries[3];
    for value in 0..13 {
        assert!(broken(gate, &[value, 0], &[0, 0], true).is_empty());
    }
    for value in 0..170 {
        assert!(broken(gate, &[0, value], &[0, 0], true).is_empty());
    }
    assert_eq!(broken(gate, &[13, 169], &[0, 0], true), vec!["step2_acc <=12"]);
    assert_eq!(broken(gate, &[12, 170], &[0, 0], true), vec!["step3_acc <= 13 * 13"]);
    assert!(broken(gate, &[13, 170], &[0, 0], false).is_empty());
}

#[test]
fn a_chunk_is_assigned() {
    let (_, config) = configured(0, 0);
    // digits 2, 1, 1
    let rv = RotatingVariables::from(Natural::from_u64(2 + 13 + 169), 0).unwrap();
    let mut cells = region();
    let chunk = config.chunk_rotate_convert_configs[0];
    let (step2, step3) = chunk.assign_region(&mut cells, 9, &rv).unwrap();
    let values: Vec<_> = cells.assignments.iter().map(|assignment| placed(assignment)).collect();
    assert_eq!(
        values,
        vec![
            ("Input Coef", 0, 9, 14),
            ("Input accumulator", 1, 9, 184),
            ("Output Coef", 2, 9, 10),
            ("Output accumulator", 3, 9, 0),
            ("block_count", 4, 9, 1),
            ("step 2 bc acc", 5, 9, 0),
            ("step 3 bc acc", 6, 9, 0),
        ]
    );
    assert_eq!(step2.cell, Cell::Placed(5));
    assert_eq!(step3.cell, Cell::Placed(6));
}

#[test]
fn block_counts_are_assigned() {
    let bc = BlockCountAdvices { block_count: adv(0), step2_acc: adv(1), step3_acc: adv(2) };
    let config = BlockCountAccConfig { q_enable: Selector { index: 0 }, bc, step: 2 };
    let mut cells = region();
    let (step2, step3) = config.assign_region(&mut cells, 4, 13, [7, 26]).unwrap();
    let values: Vec<_> = cells.assignments.iter().map(|assignment| placed(assignment)).collect();
    assert_eq!(
        values,
        vec![
            ("block_count", 0, 4, 13),
            ("step 2 bc acc", 1, 4, 7),
            ("step 3 bc acc", 2, 4, 26),
        ]
    );
    assert_eq!((step2.cell, small(&step2.value)), (Cell::Placed(1), 7));
    assert_eq!((step3.cell, small(&step3.value)), (Cell::Placed(2), 26));
}

#[test]
fn a_chunk_without_block_count_is_refused() {
    let (_, config) = configured(0, 0);
    let mut rv = RotatingVariables::from(Natural::from_u64(5), 0).unwrap();
    while rv.chunk_idx < 64 {
        rv = rv.next();
    }
    let mut cells = region();
    let refused = config.chunk_rotate_convert_configs[0].assign_region(&mut cells, 1, &rv);
    assert!(matches!(refused, Err(Error::Synthesis)));
    assert_eq!(cells.assignments.len(), 4);
}

#[test]
fn a_lane_is_assigned() {
    let (_, config) = configured(0, 1);
    // digit 0 moves to place 36, digit 28 to place 0
    let value = Natural::from_u64(1).plus(&Natural::power_of(13, 28));
    assert!(config.accepts(&value));
    let mut cells = region();
    let lane = Lane { cell: Cell::Given(0), value };
    let (output, block_counts) = config.assign_region(&mut cells, &lane).unwrap();
    let expected = BigUint::from(9u32).pow(36) + 1u32;
    assert_eq!(BigUint::from_slice(&output.value.limbs), expected);
    let chunks = slice_lane(36).len();
    assert_eq!(cells.assignments.len(), 2 + 7 * chunks + 6);
    assert!(matches!(
        cells.assignments[1],
        Assignment::Equal { left: Cell::Given(0), right: Cell::Placed(0) }
    ));
    assert!(matches!(
        cells.assignments[2 + 7 * chunks],
        Assignment::Enable { selector: Selector { index: 1 }, offset } if offset == chunks + 1
    ));
    assert_eq!(output.cell, Cell::Placed(2 + 7 * chunks + 5));
    assert_eq!(block_counts.0.cell, Cell::Placed(2 + 7 * chunks - 2));
    assert_eq!(block_counts.1.cell, Cell::Placed(2 + 7 * chunks - 1));
    assert_eq!(small(&block_counts.0.value), 0);
    assert_eq!(small(&block_counts.1.value), 0);
    match &cells.assignments[2 + 7 * chunks + 4] {
        Assignment::Advice { label: Label::Text(text), column, offset, value } => {
            assert_eq!((*text, *column, *offset), ("input_acc", adv(1), chunks + 2));
            assert!(value.is_zero());
        }
        _ => panic!("not a value"),
    }
}

/// The values of the columns in a row, as elements of the field of the gates.
fn row_of(cells: &Region, row: usize) -> Vec<i128> {
    let mut values = vec![0; 9];
    for assignment in cells.assignments.iter() {
        if let Assignment::Advice { column, offset, value, .. } = assignment {
            if *offset == row {
                values[column.index] = small(&value.modulo(MODULUS as u64)) as i128;
            }
        }
    }
    values
}

#[test]
fn assigned_rows_meet_the_gates() {
    let (meta, config) = configured(3, 1);
    // digits 7, 5 and 12 in places 0, 11 and 50
    let value = Natural::from_u64(7)
        .plus(&Natural::power_of(13, 11).times_u64(5))
        .plus(&Natural::power_of(13, 50).times_u64(12));
    assert!(config.accepts(&value));
    let mut cells = region();
    let lane = Lane { cell: Cell::Given(0), value };
    assert!(config.assign_region(&mut cells, &lane).is_ok());
    let chunks = config.chunk_rotate_convert_configs.len();
    for chunk in 0..chunks {
        let cur = row_of(&cells, 1 + chunk);
        let next = row_of(&cells, 2 + chunk);
        assert!(broken(&meta.entries[4 + 4 * chunk + 1], &cur, &next, true).is_empty());
        assert!(broken(&meta.entries[4 + 4 * chunk + 2], &cur, &next, true).is_empty());
    }
    let cur = row_of(&cells, 1 + chunks);
    let next = row_of(&cells, 2 + chunks);
    assert!(broken(&meta.entries[4 + 4 * chunks], &cur, &next, true).is_empty());
    assert_eq!(next[1], 0);
}

#[test]
fn a_lane_assigns_no_cell_twice() {
    let (_, config) = configured(2, 4);
    let mut cells = region();
    let lane = Lane { cell: Cell::Given(0), value: Natural::from_u64(5) };
    assert!(config.assign_region(&mut cells, &lane).is_ok());
    let mut places = Vec::new();
    let mut enabled = Vec::new();
    for assignment in cells.assignments.iter() {
        match assignment {
            Assignment::Advice { column, offset, .. } => {
                assert!(!places.contains(&(column.index, *offset)));
                places.push((column.index, *offset));
            }
            Assignment::Enable { selector, offset } => enabled.push((selector.index, *offset)),
            Assignment::Equal { .. } => (),
        }
    }
    assert_eq!(enabled, vec![(1, 1 + config.chunk_rotate_convert_configs.len())]);
}

#[test]
fn a_lane_without_chunks_is_refused() {
    let (_, mut config) = configured(0, 1);
    config.chunk_rotate_convert_configs.clear();
    let mut cells = region();
    let lane = Lane { cell: Cell::Given(4), value: Natural::from_u64(11) };
    let refused = config.assign_region(&mut cells, &lane);
    assert!(matches!(refused, Err(Error::Synthesis)));
    assert_eq!(cells.assignments.len(), 2);
    assert_eq!(placed(&cells.assignments[0]), ("base_13_col", 1, 0, 11));
    assert!(matches!(
        cells.assignments[1],
        Assignment::Equal { left: Cell::Given(4), right: Cell::Placed(0) }
    ));
}

#[test]
fn the_second_auxiliary_column_is_unused() {
    let configured_with = |second: usize| {
        let mut meta = ConstraintSystem::new();
        let config = LaneRotateConversionConfig::configure(
            &mut meta,
            (1, 1),
            advices(),
            [adv(7), adv(second)],
            [fixed(0), fixed(1), fixed(2)],
            [fixed(3), fixed(4)],
        );
        (format!("{:?}", meta), format!("{:?}", config))
    };
    assert_eq!(configured_with(8), configured_with(20));
}

#[test]
fn selectors_are_numbered_in_order() {
    let mut meta = ConstraintSystem::new();
    let first = BlockCountFinalConfig::configure(&mut meta, [adv(0), adv(1)]);
    let second = BlockCountFinalConfig::configure(&mut meta, [adv(2), adv(3)]);
    assert_eq!(first.q_enable, Selector { index: 0 });
    assert_eq!(second.q_enable, Selector { index: 1 });
    assert_eq!(meta.selectors, 2);
}

#[test]
fn lanes_that_cannot_be_run_are_not_accepted() {
    let (_, config) = configured(0, 0);
    assert!(config.accepts(&Natural::zero()));
    assert!(config.accepts(&Natural::power_of(13, 62)));
    assert!(!config.accepts(&Natural::power_of(13, 61)));
    assert!(!config.accepts(&Natural::power_of(13, 64)));
    assert!(config.accepts(&Natural::power_of(13, 61).times_u64(13)));
}

#[test]
fn an_output_outside_the_field_is_refused() {
    let (_, config) = configured(0, 1);
    let mut cells = Region::new(Natural::power_of(9, 36));
    let lane = Lane { cell: Cell::Given(0), value: Natural::one() };
    let refused = config.assign_region(&mut cells, &lane);
    assert!(matches!(refused, Err(Error::Synthesis)));
    assert_eq!(cells.assignments.len(), 2 + 7 * slice_lane(36).len() + 5);

    let mut larger = Region::new(Natural::power_of(9, 36).plus(&Natural::one()));
    assert!(config.assign_region(&mut larger, &lane).is_ok());
}

#[test]
fn final_sums_are_tied_to_their_cells() {
    let mut meta = ConstraintSystem::new();
    let config = BlockCountFinalConfig::configure(&mut meta, [adv(0), adv(1)]);
    let sums: [BlockCount2; 25] = std::array::from_fn(|lane| {
        (
            BlockCount { cell: Cell::Given(2 * lane), value: Natural::from_u64(lane as u64) },
            BlockCount { cell: Cell::Given(2 * lane + 1), value: Natural::from_u64(169) },
        )
    });
    let mut cells = region();
    assert!(config.assign_region(&mut cells, &sums).is_ok());
    assert_eq!(cells.assignments.len(), 125);
    assert!(matches!(cells.assignments[120], Assignment::Enable { offset: 24, .. }));
    match &cells.assignments[121] {
        Assignment::Advice { label: Label::Step2Lane(24), column, offset: 24, value } => {
            assert_eq!((column.index, small(value)), (0, 24));
        }
        _ => panic!("not the first sum"),
    }
    assert!(matches!(
        cells.assignments[122],
        Assignment::Equal { left: Cell::Placed(121), right: Cell::Given(48) }
    ));
    match &cells.assignments[123] {
        Assignment::Advice { label: Label::Step3Lane(24), column, offset: 24, value } => {
            assert_eq!((column.index, small(value)), (1, 169));
        }
        _ => panic!("not the second sum"),
    }
    assert!(matches!(
        cells.assignments[124],
        Assignment::Equal { left: Cell::Placed(123), right: Cell::Given(49) }
    ));
}

#[test]
fn conversion_table() {
    let config =
        Base13toBase9TableConfig { base13: fixed(5), base9: fixed(6), block_count: fixed(7) };
    let table = config.load();
    assert_eq!(table.columns, vec![fixed(5), fixed(6), fixed(7)]);
    assert_eq!(table.rows.len(), 28561);
    let row = |index: usize| table.rows[index].iter().map(|value| small(value)).collect::<Vec<_>>();
    assert_eq!(row(0), vec![0, 0, 0]);
    assert_eq!(row(14), vec![14, 10, 1]);
    assert_eq!(row(2197), vec![2197, 729, 170]);
    assert_eq!(row(28560), vec![28560, 0, 170]);
}

#[test]
fn special_chunk_table() {
    let config = SpecialChunkTableConfig { last_chunk: fixed(1), output_coef: fixed(2) };
    let table = config.load();
    assert_eq!(table.columns, vec![fixed(1), fixed(2)]);
    assert_eq!(table.rows.len(), 91);
    assert_eq!(small(&table.rows[0][0]), 0);
    assert_eq!(small(&table.rows[0][1]), 0);
    // low 0, high 12
    assert!(table.rows[12][0].equals(&Natural::power_of(13, 64).times_u64(12)));
    assert_eq!(small(&table.rows[12][1]), 0);
    // low 1, high 0
    assert_eq!(small(&table.rows[13][0]), 1);
    assert_eq!(small(&table.rows[13][1]), 1);
    // low 12, high 0
    assert_eq!(small(&table.rows[90][0]), 12);
    assert_eq!(small(&table.rows[90][1]), 0);
}

#[test]
fn witness_rows_stand_in_the_tables() {
    let (_, config) = configured(2, 2);
    let (conversion, special) = config.load();
    // digits 4, 9 and 10 in places 0, 5 and 40
    let value = Natural::from_u64(4)
        .plus(&Natural::power_of(13, 5).times_u64(9))
        .plus(&Natural::power_of(13, 40).times_u64(10));
    let mut rv = RotatingVariables::from(value, config.rotation).unwrap();
    while rv.chunk_idx < 64 {
        let row = &conversion.rows[small(&rv.input_coef) as usize];
        assert!(row[0].equals(&rv.input_coef));
        assert!(row[1].equals(&rv.output_coef));
        assert_eq!(row[2].to_u64(), rv.block_count.map(|count| count as u64));
        rv = rv.next();
    }
    assert!(special
        .rows
        .iter()
        .any(|row| row[0].equals(&rv.input_acc) && row[1].equals(&rv.output_coef)));
}
