//! The gas of a call.

use vstd::prelude::*;

use crate::word::Word;

verus! {

/// The access to an account that was accessed before.
pub const WARM_ACCESS: u64 = 100;

/// The first access to an account.
pub const COLD_ACCOUNT_ACCESS: u64 = 2600;

/// A call that transfers a value.
pub const CALL_WITH_VALUE: u64 = 9000;

/// A value transfer that brings an account to life.
pub const NEW_ACCOUNT: u64 = 25000;

/// What the callee gets on top where a value is transferred.
pub const CALL_STIPEND: u64 = 2300;

/// What a memory of `words` words costs in all.
pub open spec fn memory_cost(words: nat) -> nat {
    3 * words + words * words / 512
}

/// What it costs to grow the memory.
pub fn memory_expansion_gas_cost(
    curr_memory_word_size: u64,
    next_memory_word_size: u64,
) -> (cost: u64)
    requires
        curr_memory_word_size <= next_memory_word_size,
        next_memory_word_size * next_memory_word_size <= u64::MAX,
    ensures
        cost == memory_cost(next_memory_word_size as nat) - memory_cost(
            curr_memory_word_size as nat,
        ),
        cost <= 0x100_0000_0000_0000,
{
    let curr: u64 = curr_memory_word_size;
    let next: u64 = next_memory_word_size;
    assert(curr * curr <= next * next) by (nonlinear_arith)
        requires
            curr <= next,
    ;
    assert(next <= 0xffff_ffff) by (nonlinear_arith)
        requires
            next * next <= u64::MAX,
    ;
    3 * (next - curr) + (next * next / 512 - curr * curr / 512)
}

/// The gas that a caller can hand to a callee: all but one 64th of what it has, and
/// no more than it asks for.
pub open spec fn capped_gas(gas_left: nat, gas_specified: nat) -> nat {
    let cap = (gas_left - gas_left / 64) as nat;
    if gas_specified < cap {
        gas_specified
    } else {
        cap
    }
}

pub fn eip150_gas(gas_left: u64, gas_specified: &Word) -> (gas: u64)
    ensures
        gas == capped_gas(gas_left as nat, gas_specified@),
        gas <= gas_left,
        gas + CALL_STIPEND <= u64::MAX,
{
    let capped: u64 = gas_left - gas_left / 64;
    match gas_specified.to_u64() {
        Some(specified) => if specified < capped {
            specified
        } else {
            capped
        },
        None => capped,
    }
}

/// Each word of a memory costs 3, and all of them a 512th of their square on top.
pub proof fn law_memory_cost(words: nat)
    ensures
        memory_cost(0) == 0,
        512 * (memory_cost(words) - 3 * words) <= words * words,
        words * words < 512 * (memory_cost(words) - 3 * words + 1),
{
    assert(0nat * 0nat == 0) by (nonlinear_arith);
}

/// The callee gets what was asked for, or all but a 64th of what is left, whichever is less.
pub proof fn law_capped_gas(gas_left: nat, gas_specified: nat)
    ensures
        capped_gas(gas_left, gas_specified) <= gas_specified,
        gas_left - capped_gas(gas_left, gas_specified) >= gas_left / 64,
        capped_gas(gas_left, gas_specified) == gas_specified || gas_left - capped_gas(
            gas_left,
            gas_specified,
        ) == gas_left / 64,
{
}

/// Growing the memory in two steps costs what growing it in one does.
pub proof fn law_memory_cost_adds(small: nat, middle: nat, large: nat)
    requires
        small <= middle <= large,
    ensures
        memory_cost(small) <= memory_cost(middle) <= memory_cost(large),
        (memory_cost(middle) - memory_cost(small)) + (memory_cost(large) - memory_cost(middle))
            == memory_cost(large) - memory_cost(small),
{
    assert(small * small <= middle * middle) by (nonlinear_arith)
        requires
            small <= middle,
    ;
    assert(middle * middle <= large * large) by (nonlinear_arith)
        requires
            middle <= large,
    ;
}

} // verus!
