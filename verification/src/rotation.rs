//! The running variables of one lane while it is converted and rotated.

use vstd::prelude::*;

use crate::chunks::{
    block_cost, convert_b13_coef, digit_count, get_block_count_and_output_coef, get_step_size,
    is_at_rotation_offset, reencode, step_size, B13, B9, LANE_SIZE,
};
use crate::circuit::Error;
use crate::natural::Natural;
use crate::power::{lemma_power_monotone, lemma_power_positive, power, power_u64};

verus! {

/// The running variables as numbers.
pub struct RotatingState {
    pub rotation: nat,
    pub chunk_idx: nat,
    pub step: nat,
    pub input_raw: nat,
    pub input_coef: nat,
    pub input_power_of_base: nat,
    pub input_acc: nat,
    pub output_coef: nat,
    pub output_power_of_base: nat,
    pub output_acc: nat,
    pub block_count: Option<nat>,
    pub block_count_acc: (nat, nat),
    pub low_value: nat,
    pub high_value: Option<nat>,
}

/// The two sums with `count` added to the one that belongs to `step`, if any.
pub open spec fn added_block_count(sums: (nat, nat), step: nat, count: nat) -> (nat, nat) {
    if step == 2 {
        (sums.0 + count, sums.1)
    } else if step == 3 {
        (sums.0, sums.1 + count)
    } else {
        sums
    }
}

impl RotatingState {
    /// The variables at the first chunk of `lane`.
    pub open spec fn start(lane: nat, rotation: nat) -> RotatingState {
        let step = step_size(1, rotation);
        let input_coef = (lane / 13) % power(13, step);
        let count = block_cost(digit_count(input_coef));
        RotatingState {
            rotation,
            chunk_idx: 1,
            step,
            input_raw: lane / 13,
            input_coef,
            input_power_of_base: 13,
            input_acc: lane,
            output_coef: reencode(input_coef),
            output_power_of_base: if 1 == LANE_SIZE - rotation {
                1
            } else {
                power(9, rotation + 1)
            },
            output_acc: 0,
            block_count: Some(count),
            block_count_acc: added_block_count((0, 0), step, count),
            low_value: lane % 13,
            high_value: None,
        }
    }

    /// The input that is left once the current chunk is taken out.
    pub open spec fn rest(self) -> int {
        self.input_acc - self.input_power_of_base * self.input_coef
    }

    /// Whether the step to the next chunk is defined. The step out of the last
    /// chunk is defined only where no raw input is left, and where what is left in
    /// the input accumulator is the low digit plus the high digit at `LANE_SIZE`.
    pub open spec fn can_advance(self) -> bool {
        &&& self.chunk_idx < LANE_SIZE
        &&& self.rest() >= 0
        &&& self.chunk_idx + self.step >= LANE_SIZE ==> {
            &&& self.input_raw / power(13, self.step) == 0
            &&& self.rest() == self.low_value + (self.input_raw % 13) * power(13, LANE_SIZE as nat)
        }
    }

    /// The variables at the chunk after this one. Behind the last chunk stands the
    /// special chunk, made of the low and the high digit.
    pub open spec fn next(self) -> RotatingState {
        let chunk_idx = self.chunk_idx + self.step;
        let step = step_size(chunk_idx, self.rotation);
        let input_raw = self.input_raw / power(13, self.step);
        let input_coef = input_raw % power(13, step);
        let count = block_cost(digit_count(input_coef));
        let high = self.input_raw % 13;
        let special = chunk_idx >= LANE_SIZE;
        RotatingState {
            rotation: self.rotation,
            chunk_idx,
            step,
            input_raw,
            input_coef,
            input_power_of_base: self.input_power_of_base * power(13, self.step),
            input_acc: self.rest() as nat,
            output_coef: if special {
                (high + self.low_value) % 2
            } else {
                reencode(input_coef)
            },
            output_power_of_base: if chunk_idx == LANE_SIZE - self.rotation {
                1
            } else {
                self.output_power_of_base * power(9, self.step)
            },
            output_acc: self.output_acc + self.output_power_of_base * self.output_coef,
            block_count: if special {
                None
            } else {
                Some(count)
            },
            block_count_acc: if special {
                self.block_count_acc
            } else {
                added_block_count(self.block_count_acc, self.step, count)
            },
            low_value: self.low_value,
            high_value: if special {
                Some(high)
            } else {
                self.high_value
            },
        }
    }

    /// The variables with the current chunk added to the output.
    pub open spec fn finalize(self) -> RotatingState {
        RotatingState {
            output_acc: self.output_acc + self.output_power_of_base * self.output_coef,
            ..self
        }
    }

    /// What every state that is reached from a start satisfies.
    pub open spec fn well_formed(self) -> bool {
        &&& self.rotation <= LANE_SIZE
        &&& 1 <= self.chunk_idx <= LANE_SIZE
        &&& self.step == step_size(self.chunk_idx, self.rotation)
        &&& self.low_value < 13
        &&& self.block_count_acc.0 <= 170 * self.chunk_idx
        &&& self.block_count_acc.1 <= 170 * self.chunk_idx
    }
}

/// The running variables of one lane. `block_count_acc` holds the sum for the
/// chunks of two digits and the one for the chunks of three.
#[derive(Debug)]
pub struct RotatingVariables {
    pub rotation: u32,
    pub chunk_idx: u32,
    pub step: u32,
    pub input_raw: Natural,
    pub input_coef: Natural,
    pub input_power_of_base: Natural,
    pub input_acc: Natural,
    pub output_coef: Natural,
    pub output_power_of_base: Natural,
    pub output_acc: Natural,
    pub block_count: Option<u32>,
    pub block_count_acc: [u32; 2],
    pub low_value: u64,
    pub high_value: Option<u64>,
}

impl View for RotatingVariables {
    type V = RotatingState;

    open spec fn view(&self) -> RotatingState {
        RotatingState {
            rotation: self.rotation as nat,
            chunk_idx: self.chunk_idx as nat,
            step: self.step as nat,
            input_raw: self.input_raw@,
            input_coef: self.input_coef@,
            input_power_of_base: self.input_power_of_base@,
            input_acc: self.input_acc@,
            output_coef: self.output_coef@,
            output_power_of_base: self.output_power_of_base@,
            output_acc: self.output_acc@,
            block_count: match self.block_count {
                Some(count) => Some(count as nat),
                None => None,
            },
            block_count_acc: (self.block_count_acc[0] as nat, self.block_count_acc[1] as nat),
            low_value: self.low_value as nat,
            high_value: match self.high_value {
                Some(high) => Some(high as nat),
                None => None,
            },
        }
    }
}

/// The power of 13 that spans `step` digits.
fn b13_power(step: u32) -> (result: u64)
    requires
        step <= 4,
    ensures
        result == power(13, step as nat),
        0 < result <= 28561,
{
    proof {
        lemma_power_monotone(13, step as nat, 4);
        lemma_power_positive(13, step as nat);
        reveal_with_fuel(power, 5);
        assert(power(13, 4) == 28561);
    }
    power_u64(B13, step)
}

/// The power of 9 that spans `step` digits.
fn b9_power(step: u32) -> (result: u64)
    requires
        step <= 4,
    ensures
        result == power(9, step as nat),
{
    proof {
        lemma_power_monotone(9, step as nat, 4);
        reveal_with_fuel(power, 5);
        assert(power(9, 4) == 6561);
    }
    power_u64(B9, step)
}

/// `number` modulo `modulus`.
pub fn biguint_mod(number: &Natural, modulus: u64) -> (remainder: u64)
    requires
        modulus > 0,
    ensures
        remainder == number@ % modulus as nat,
{
    match number.modulo(modulus).to_u64() {
        Some(remainder) => remainder,
        None => 0,
    }
}

/// The two sums with `count` added to the one that belongs to `step`, if any.
fn add_block_count(sums: [u32; 2], step: u32, count: u32) -> (added: [u32; 2])
    requires
        sums[0] + count <= u32::MAX,
        sums[1] + count <= u32::MAX,
    ensures
        (added[0] as nat, added[1] as nat) == added_block_count(
            (sums[0] as nat, sums[1] as nat),
            step as nat,
            count as nat,
        ),
{
    if step == 2 {
        [sums[0] + count, sums[1]]
    } else if step == 3 {
        [sums[0], sums[1] + count]
    } else {
        sums
    }
}

impl RotatingVariables {
    /// The variables at the first chunk of a lane.
    pub fn from(lane_base_13: Natural, rotation: u32) -> (variables: Result<Self, Error>)
        requires
            rotation <= LANE_SIZE,
        ensures
            variables is Ok,
            variables->Ok_0@ == RotatingState::start(lane_base_13@, rotation as nat),
            variables->Ok_0@.well_formed(),
    {
        let chunk_idx: u32 = 1;
        let step = get_step_size(chunk_idx, rotation);
        let input_raw = lane_base_13.divided_by(B13);
        let input_coef = input_raw.modulo(b13_power(step));
        proof {
            lemma_power_monotone(13, step as nat, 4);
        }
        let (block_count, output_coef) = get_block_count_and_output_coef(&input_coef);
        let output_power_of_base = if is_at_rotation_offset(chunk_idx, rotation) {
            Natural::one()
        } else {
            Natural::power_of(9, rotation + chunk_idx)
        };
        let block_count_acc = add_block_count([0, 0], step, block_count);
        let low_value = biguint_mod(&lane_base_13, B13);
        Ok(
            RotatingVariables {
                rotation,
                chunk_idx,
                step,
                input_raw,
                input_coef,
                input_power_of_base: Natural::from_u64(B13),
                input_acc: lane_base_13,
                output_coef: Natural::from_u64(output_coef),
                output_power_of_base,
                output_acc: Natural::zero(),
                block_count: Some(block_count),
                block_count_acc,
                low_value,
                high_value: None,
            },
        )
    }

    /// Whether the step to the next chunk is defined.
    pub fn can_advance(&self) -> (answer: bool)
        requires
            self@.well_formed(),
        ensures
            answer == self@.can_advance(),
    {
        if self.chunk_idx >= LANE_SIZE {
            return false;
        }
        let spent = self.input_power_of_base.times(&self.input_coef);
        if self.input_acc.less_than(&spent) {
            return false;
        }
        if self.chunk_idx + self.step < LANE_SIZE {
            return true;
        }
        let rest = self.input_acc.minus(&spent);
        let high = biguint_mod(&self.input_raw, B13);
        self.input_raw.divided_by(b13_power(self.step)).is_zero() && rest.equals(
            &expected_rest(self.low_value, high),
        )
    }

    /// The variables at the chunk after this one.
    pub fn next(&self) -> (variables: Self)
        requires
            self@.well_formed(),
            self@.can_advance(),
        ensures
            variables@ == self@.next(),
            variables@.well_formed(),
    {
        let chunk_idx: u32 = self.chunk_idx + self.step;
        let step = get_step_size(chunk_idx, self.rotation);
        let input_raw = self.input_raw.divided_by(b13_power(self.step));
        let input_coef = input_raw.modulo(b13_power(step));
        let input_power_of_base = self.input_power_of_base.times_u64(b13_power(self.step));
        let input_acc = self.input_acc.minus(&self.input_power_of_base.times(&self.input_coef));
        let output_power_of_base = if is_at_rotation_offset(chunk_idx, self.rotation) {
            Natural::one()
        } else {
            self.output_power_of_base.times_u64(b9_power(self.step))
        };
        let output_acc = self.output_acc.plus(&self.output_power_of_base.times(&self.output_coef));
        // Case of last chunk, aka special chunks
        if chunk_idx >= LANE_SIZE {
            let high = biguint_mod(&self.input_raw, B13);
            let output_coef = Natural::from_u64(convert_b13_coef(high + self.low_value));
            return RotatingVariables {
                rotation: self.rotation,
                chunk_idx,
                step,
                input_raw,
                input_coef,
                input_power_of_base,
                input_acc,
                output_coef,
                output_power_of_base,
                output_acc,
                block_count: None,
                block_count_acc: self.block_count_acc,
                low_value: self.low_value,
                high_value: Some(high),
            };
        }
        proof {
            lemma_power_monotone(13, step as nat, 4);
        }
        let (block_count, usual_output_coef) = get_block_count_and_output_coef(&input_coef);
        RotatingVariables {
            rotation: self.rotation,
            chunk_idx,
            step,
            input_raw,
            input_coef,
            input_power_of_base,
            input_acc,
            output_coef: Natural::from_u64(usual_output_coef),
            output_power_of_base,
            output_acc,
            block_count: Some(block_count),
            block_count_acc: add_block_count(self.block_count_acc, self.step, block_count),
            low_value: self.low_value,
            high_value: self.high_value,
        }
    }

    /// The variables with the current chunk added to the output.
    pub fn finalize(&self) -> (variables: Self)
        ensures
            variables@ == self@.finalize(),
    {
        RotatingVariables {
            rotation: self.rotation,
            chunk_idx: self.chunk_idx,
            step: self.step,
            input_raw: self.input_raw.clone(),
            input_coef: self.input_coef.clone(),
            input_power_of_base: self.input_power_of_base.clone(),
            input_acc: self.input_acc.clone(),
            output_coef: self.output_coef.clone(),
            output_power_of_base: self.output_power_of_base.clone(),
            output_acc: self.output_acc.plus(&self.output_power_of_base.times(&self.output_coef)),
            block_count: self.block_count,
            block_count_acc: self.block_count_acc,
            low_value: self.low_value,
            high_value: self.high_value,
        }
    }
}

/// What the input accumulator has to hold behind the last chunk.
fn expected_rest(low: u64, high: u64) -> (number: Natural)
    ensures
        number@ == low + high * power(13, LANE_SIZE as nat),
{
    Natural::from_u64(low).plus(&Natural::power_of(13, LANE_SIZE).times_u64(high))
}

} // verus!
