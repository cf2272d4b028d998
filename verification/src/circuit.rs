//! The parts of a circuit as plain values: columns, selectors, the polynomials of
//! the gates, and the cells that a region assigns.
//!
//! A `ConstraintSystem` lists what a circuit is configured with, and a `Region`
//! lists what is assigned to it, both in order. A proving system is set up by
//! replaying the two lists.

use vstd::prelude::*;

use crate::natural::Natural;
use crate::power::power;

verus! {

/// Why a circuit could not be filled.
#[derive(Debug, Clone, Copy, PartialEq, Eq, Structural)]
pub enum Error {
    /// A value that the witness needs is missing or does not fit in the field.
    Synthesis,
}

/// A column whose cells the witness fills.
#[derive(Debug, Clone, Copy, PartialEq, Eq, Structural)]
pub struct AdviceColumn {
    pub index: usize,
}

/// A column whose cells are part of the circuit.
#[derive(Debug, Clone, Copy, PartialEq, Eq, Structural)]
pub struct FixedColumn {
    pub index: usize,
}

/// A switch that turns gates on, row by row.
#[derive(Debug, Clone, Copy, PartialEq, Eq, Structural)]
pub struct Selector {
    pub index: usize,
}

/// Which row a gate looks at: its own or the one after it.
#[derive(Debug, Clone, Copy, PartialEq, Eq, Structural)]
pub enum Rotation {
    Cur,
    Next,
}

/// The values that a gate sees at one row.
pub struct Row {
    pub advice: spec_fn(AdviceColumn, Rotation) -> int,
    pub selectors: spec_fn(Selector) -> int,
}

impl Row {
    /// The value of a column in the row itself.
    pub open spec fn cur(self, column: AdviceColumn) -> int {
        (self.advice)(column, Rotation::Cur)
    }

    /// The value of a column in the row after it.
    pub open spec fn next(self, column: AdviceColumn) -> int {
        (self.advice)(column, Rotation::Next)
    }

    /// The value of a selector.
    pub open spec fn switch(self, selector: Selector) -> int {
        (self.selectors)(selector)
    }
}

/// A polynomial over the values that a gate sees.
#[derive(Debug)]
pub enum Expression {
    Constant(u64),
    Power { base: u64, exponent: u64 },
    Selector(Selector),
    Advice(AdviceColumn, Rotation),
    Negated(Box<Expression>),
    Sum(Box<Expression>, Box<Expression>),
    Product(Box<Expression>, Box<Expression>),
}

impl Expression {
    /// The value of the polynomial at a row.
    pub open spec fn eval(self, row: Row) -> int
        decreases self,
    {
        match self {
            Expression::Constant(value) => value as int,
            Expression::Power { base, exponent } => power(base as nat, exponent as nat) as int,
            Expression::Selector(selector) => row.switch(selector),
            Expression::Advice(column, rotation) => (row.advice)(column, rotation),
            Expression::Negated(inner) => -inner.eval(row),
            Expression::Sum(left, right) => left.eval(row) + right.eval(row),
            Expression::Product(left, right) => left.eval(row) * right.eval(row),
        }
    }

    pub fn cur(column: AdviceColumn) -> (expression: Expression)
        ensures
            forall|row: Row| #[trigger] expression.eval(row) == row.cur(column),
    {
        Expression::Advice(column, Rotation::Cur)
    }

    pub fn next(column: AdviceColumn) -> (expression: Expression)
        ensures
            forall|row: Row| #[trigger] expression.eval(row) == row.next(column),
    {
        Expression::Advice(column, Rotation::Next)
    }

    pub fn switch(selector: Selector) -> (expression: Expression)
        ensures
            forall|row: Row| #[trigger] expression.eval(row) == row.switch(selector),
    {
        Expression::Selector(selector)
    }

    pub fn constant(value: u64) -> (expression: Expression)
        ensures
            forall|row: Row| #[trigger] expression.eval(row) == value,
    {
        Expression::Constant(value)
    }

    pub fn power_of(base: u64, exponent: u64) -> (expression: Expression)
        ensures
            forall|row: Row| #[trigger]
                expression.eval(row) == power(base as nat, exponent as nat),
    {
        Expression::Power { base, exponent }
    }

    pub fn plus(self, other: Expression) -> (expression: Expression)
        ensures
            forall|row: Row| #[trigger]
                expression.eval(row) == self.eval(row) + other.eval(row),
    {
        Expression::Sum(Box::new(self), Box::new(other))
    }

    pub fn minus(self, other: Expression) -> (expression: Expression)
        ensures
            forall|row: Row| #[trigger]
                expression.eval(row) == self.eval(row) - other.eval(row),
    {
        proof {
            reveal_with_fuel(Expression::eval, 3);
        }
        Expression::Sum(Box::new(self), Box::new(Expression::Negated(Box::new(other))))
    }

    pub fn times(self, other: Expression) -> (expression: Expression)
        ensures
            forall|row: Row| #[trigger]
                expression.eval(row) == self.eval(row) * other.eval(row),
    {
        Expression::Product(Box::new(self), Box::new(other))
    }
}

/// What each form of a polynomial stands for at a row.
pub proof fn law_expression_values(
    row: Row,
    value: u64,
    base: u64,
    selector: Selector,
    column: AdviceColumn,
    left: Expression,
    right: Expression,
)
    ensures
        Expression::Constant(value).eval(row) == value,
        (Expression::Power { base, exponent: value }).eval(row) == power(base as nat, value as nat),
        Expression::Selector(selector).eval(row) == (row.selectors)(selector),
        Expression::Advice(column, Rotation::Cur).eval(row) == (row.advice)(column, Rotation::Cur),
        Expression::Advice(column, Rotation::Next).eval(row) == (row.advice)(column, Rotation::Next),
        Expression::Negated(Box::new(left)).eval(row) == -left.eval(row),
        Expression::Sum(Box::new(left), Box::new(right)).eval(row) == left.eval(row) + right.eval(
            row,
        ),
        Expression::Product(Box::new(left), Box::new(right)).eval(row) == left.eval(row)
            * right.eval(row),
        row.cur(column) == (row.advice)(column, Rotation::Cur),
        row.next(column) == (row.advice)(column, Rotation::Next),
        row.switch(selector) == (row.selectors)(selector),
{
}

/// One polynomial of a gate, which has to vanish on every row.
#[derive(Debug)]
pub struct Constraint {
    pub name: &'static str,
    pub poly: Expression,
}

/// A constraint with its polynomial as a function.
#[verifier::ext_equal]
pub struct ConstraintView {
    pub name: Seq<char>,
    pub poly: spec_fn(Row) -> int,
}

impl View for Constraint {
    type V = ConstraintView;

    open spec fn view(&self) -> ConstraintView {
        ConstraintView { name: self.name@, poly: |row: Row| self.poly.eval(row) }
    }
}

/// Polynomials that belong together.
#[derive(Debug)]
pub struct Gate {
    pub name: &'static str,
    pub constraints: Vec<Constraint>,
}

/// A gate with its polynomials as functions.
#[verifier::ext_equal]
pub struct GateView {
    pub name: Seq<char>,
    pub constraints: Seq<ConstraintView>,
}

/// Constraints with their polynomials as functions.
pub open spec fn constraints_view(constraints: Seq<Constraint>) -> Seq<ConstraintView> {
    constraints.map_values(|constraint: Constraint| constraint@)
}

impl View for Gate {
    type V = GateView;

    open spec fn view(&self) -> GateView {
        GateView { name: self.name@, constraints: constraints_view(self.constraints@) }
    }
}

impl GateView {
    /// Whether all of its polynomials vanish at a row, in the field of integers
    /// modulo `modulus`.
    pub open spec fn holds(self, row: Row, modulus: int) -> bool {
        forall|i: int|
            0 <= i < self.constraints.len() ==> (#[trigger] self.constraints[i].poly)(row)
                % modulus == 0
    }
}

/// A tuple of advice cells that, where the selector is on, has to be a row of a
/// table.
#[derive(Debug)]
pub struct Lookup {
    pub selector: Selector,
    pub inputs: Vec<AdviceColumn>,
    pub table: Vec<FixedColumn>,
}

/// A lookup with its columns as sequences.
#[verifier::ext_equal]
pub struct LookupView {
    pub selector: Selector,
    pub inputs: Seq<AdviceColumn>,
    pub table: Seq<FixedColumn>,
}

impl View for Lookup {
    type V = LookupView;

    open spec fn view(&self) -> LookupView {
        LookupView { selector: self.selector, inputs: self.inputs@, table: self.table@ }
    }
}

/// One thing that a circuit is configured with.
#[derive(Debug)]
pub enum Entry {
    EnableEquality(AdviceColumn),
    NewSelector(Selector),
    Gate(Gate),
    Lookup(Lookup),
}

/// An entry as a mathematical value.
#[verifier::ext_equal]
pub enum EntryView {
    EnableEquality(AdviceColumn),
    NewSelector(Selector),
    Gate(GateView),
    Lookup(LookupView),
}

impl View for Entry {
    type V = EntryView;

    open spec fn view(&self) -> EntryView {
        match self {
            Entry::EnableEquality(column) => EntryView::EnableEquality(*column),
            Entry::NewSelector(selector) => EntryView::NewSelector(*selector),
            Entry::Gate(gate) => EntryView::Gate(gate@),
            Entry::Lookup(lookup) => EntryView::Lookup(lookup@),
        }
    }
}

/// What a circuit is configured with, in order. Selectors are numbered as they are
/// made.
#[derive(Debug)]
pub struct ConstraintSystem {
    pub entries: Vec<Entry>,
    pub selectors: usize,
}

impl View for ConstraintSystem {
    type V = Seq<EntryView>;

    open spec fn view(&self) -> Seq<EntryView> {
        self.entries@.map_values(|entry: Entry| entry@)
    }
}

impl ConstraintSystem {
    pub fn new() -> (meta: Self)
        ensures
            meta@ == Seq::<EntryView>::empty(),
            meta.selectors == 0,
    {
        let meta = ConstraintSystem { entries: Vec::new(), selectors: 0 };
        assert(meta@ =~= Seq::<EntryView>::empty());
        meta
    }

    fn push(&mut self, entry: Entry)
        ensures
            final(self)@ == old(self)@.push(entry@),
            final(self).selectors == old(self).selectors,
    {
        self.entries.push(entry);
        assert(self@ =~= old(self)@.push(entry@));
    }

    /// Lets the cells of a column take part in equality constraints.
    pub fn enable_equality(&mut self, column: AdviceColumn)
        ensures
            final(self)@ == old(self)@.push(EntryView::EnableEquality(column)),
            final(self).selectors == old(self).selectors,
    {
        self.push(Entry::EnableEquality(column));
    }

    /// Makes a new selector.
    pub fn selector(&mut self) -> (selector: Selector)
        requires
            old(self).selectors < usize::MAX,
        ensures
            selector.index == old(self).selectors,
            final(self)@ == old(self)@.push(EntryView::NewSelector(selector)),
            final(self).selectors == old(self).selectors + 1,
    {
        let selector = Selector { index: self.selectors };
        self.push(Entry::NewSelector(selector));
        self.selectors = self.selectors + 1;
        selector
    }

    pub fn create_gate(&mut self, name: &'static str, constraints: Vec<Constraint>)
        ensures
            final(self)@ == old(self)@.push(
                EntryView::Gate(
                    GateView { name: name@, constraints: constraints_view(constraints@) },
                ),
            ),
            final(self).selectors == old(self).selectors,
    {
        self.push(Entry::Gate(Gate { name, constraints }));
    }

    pub fn lookup(
        &mut self,
        selector: Selector,
        inputs: Vec<AdviceColumn>,
        table: Vec<FixedColumn>,
    )
        ensures
            final(self)@ == old(self)@.push(
                EntryView::Lookup(LookupView { selector, inputs: inputs@, table: table@ }),
            ),
            final(self).selectors == old(self).selectors,
    {
        self.push(Entry::Lookup(Lookup { selector, inputs, table }));
    }
}

/// A cell of the witness: one of those that a region was handed, or the one that an
/// assignment of the region placed, by its position in the list.
#[derive(Debug, Clone, Copy, PartialEq, Eq, Structural)]
pub enum Cell {
    Given(usize),
    Placed(usize),
}

/// What an assigned cell is called.
#[derive(Debug, Clone, Copy)]
pub enum Label {
    Text(&'static str),
    Step2Lane(usize),
    Step3Lane(usize),
}

/// A label as a mathematical value.
#[verifier::ext_equal]
pub enum LabelView {
    Text(Seq<char>),
    Step2Lane(nat),
    Step3Lane(nat),
}

impl View for Label {
    type V = LabelView;

    open spec fn view(&self) -> LabelView {
        match self {
            Label::Text(text) => LabelView::Text(text@),
            Label::Step2Lane(lane) => LabelView::Step2Lane(*lane as nat),
            Label::Step3Lane(lane) => LabelView::Step3Lane(*lane as nat),
        }
    }
}

/// One thing that is assigned to a region.
#[derive(Debug)]
pub enum Assignment {
    Advice { label: Label, column: AdviceColumn, offset: usize, value: Natural },
    Equal { left: Cell, right: Cell },
    Enable { selector: Selector, offset: usize },
}

/// An assignment as a mathematical value.
#[verifier::ext_equal]
pub enum AssignmentView {
    Advice { label: LabelView, column: AdviceColumn, offset: nat, value: nat },
    Equal { left: Cell, right: Cell },
    Enable { selector: Selector, offset: nat },
}

impl View for Assignment {
    type V = AssignmentView;

    open spec fn view(&self) -> AssignmentView {
        match self {
            Assignment::Advice { label, column, offset, value } => AssignmentView::Advice {
                label: label@,
                column: *column,
                offset: *offset as nat,
                value: value@,
            },
            Assignment::Equal { left, right } => AssignmentView::Equal {
                left: *left,
                right: *right,
            },
            Assignment::Enable { selector, offset } => AssignmentView::Enable {
                selector: *selector,
                offset: *offset as nat,
            },
        }
    }
}

/// An assigned value under a plain name.
pub open spec fn advice(
    text: Seq<char>,
    column: AdviceColumn,
    offset: nat,
    value: nat,
) -> AssignmentView {
    AssignmentView::Advice { label: LabelView::Text(text), column, offset, value }
}

/// What is assigned to a region, in order. The values are numbers below `modulus`
/// once they are in the field.
#[derive(Debug)]
pub struct Region {
    pub assignments: Vec<Assignment>,
    pub modulus: Natural,
}

impl View for Region {
    type V = Seq<AssignmentView>;

    open spec fn view(&self) -> Seq<AssignmentView> {
        self.assignments@.map_values(|assignment: Assignment| assignment@)
    }
}

impl Region {
    pub fn new(modulus: Natural) -> (region: Self)
        ensures
            region@ == Seq::<AssignmentView>::empty(),
            region.modulus@ == modulus@,
    {
        let region = Region { assignments: Vec::new(), modulus };
        assert(region@ =~= Seq::<AssignmentView>::empty());
        region
    }

    fn push(&mut self, assignment: Assignment)
        ensures
            final(self)@ == old(self)@.push(assignment@),
            final(self).modulus == old(self).modulus,
    {
        self.assignments.push(assignment);
        assert(self@ =~= old(self)@.push(assignment@));
    }

    /// Assigns a value to a cell.
    pub fn assign_advice(
        &mut self,
        label: Label,
        column: AdviceColumn,
        offset: usize,
        value: Natural,
    ) -> (cell: Cell)
        ensures
            cell == Cell::Placed(old(self)@.len() as usize),
            old(self)@.len() <= usize::MAX,
            final(self)@ == old(self)@.push(
                AssignmentView::Advice {
                    label: label@,
                    column,
                    offset: offset as nat,
                    value: value@,
                },
            ),
            final(self).modulus == old(self).modulus,
    {
        let position: usize = self.assignments.len();
        self.push(Assignment::Advice { label, column, offset, value });
        Cell::Placed(position)
    }

    /// Asks for two cells to be equal.
    pub fn constrain_equal(&mut self, left: Cell, right: Cell)
        ensures
            final(self)@ == old(self)@.push(AssignmentView::Equal { left, right }),
            final(self).modulus == old(self).modulus,
    {
        self.push(Assignment::Equal { left, right });
    }

    /// Turns a selector on.
    pub fn enable(&mut self, selector: Selector, offset: usize)
        ensures
            final(self)@ == old(self)@.push(
                AssignmentView::Enable { selector, offset: offset as nat },
            ),
            final(self).modulus == old(self).modulus,
    {
        self.push(Assignment::Enable { selector, offset });
    }
}

} // verus!
