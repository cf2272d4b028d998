//! What each part of a `CALL` does, operation by operation.

use vstd::prelude::*;

use crate::call::{
    access_list_write, account_trace, callee_trace, caller_trace, can_save_caller, closing_trace,
    gas_agrees, gas_fits, has_no_code, is_call, memory_arguments, memory_fits, minimal_length,
    next_memory_words, CallGas, EMPTY_HASH,
};
use crate::call_laws::law_gas_is_covered;
use crate::call_run::{can_resume, first_stage, resumed, Answer, CallEntry, CallStage};
use crate::evm::{
    Account, AccountField, CallContextField, CallFrame, Error, GethExecStep, OpcodeId,
    OperationView, Stack, RW,
};
use crate::word::{be_value, Address};

verus! {

/// The word at depth `nth` of a stack is the one `nth` below the last, and its address
/// counts down from 1024 as the stack grows.
pub proof fn law_stack_depth(stack: Stack, nth: int)
    requires
        0 <= nth < stack.words@.len() <= 1024,
    ensures
        stack.at(nth) == stack.words@[stack.words@.len() - 1 - nth]@,
        stack.address_of(nth) + (stack.words@.len() - nth) == 1024,
        0 <= stack.address_of(nth) < 1024,
        nth > 0 ==> stack.address_of(nth) == stack.address_of(nth - 1) + 1,
{
}

/// The first operations read the six fields of the caller's context, then each argument
/// from its place on the stack. The outcome goes to the place of the seventh argument:
/// 1 where the call succeeds, 0 where it fails.
pub proof fn law_caller_operations(
    stack: Stack,
    tx_id: usize,
    current_call: CallFrame,
    is_success: bool,
)
    requires
        stack.words@.len() <= 1024,
    ensures
        ({
            let trace = caller_trace(stack, tx_id, current_call, is_success);
            let id = current_call.call_id as nat;
            let len = stack.words@.len();
            &&& trace.len() == if len >= 7 {
                14
            } else {
                6 + len
            }
            &&& trace[0] == (OperationView::CallContext {
                rw: RW::READ,
                call_id: id,
                field: CallContextField::TxId,
                value: tx_id as nat,
            })
            &&& trace[1] == (OperationView::CallContext {
                rw: RW::READ,
                call_id: id,
                field: CallContextField::RwCounterEndOfReversion,
                value: 0,
            })
            &&& trace[2] == (OperationView::CallContext {
                rw: RW::READ,
                call_id: id,
                field: CallContextField::IsPersistent,
                value: if current_call.is_persistent {
                    1
                } else {
                    0
                },
            })
            &&& trace[3] == (OperationView::CallContext {
                rw: RW::READ,
                call_id: id,
                field: CallContextField::CalleeAddress,
                value: be_value(current_call.address.bytes@),
            })
            &&& trace[4] == (OperationView::CallContext {
                rw: RW::READ,
                call_id: id,
                field: CallContextField::IsStatic,
                value: if current_call.is_static {
                    1
                } else {
                    0
                },
            })
            &&& trace[5] == (OperationView::CallContext {
                rw: RW::READ,
                call_id: id,
                field: CallContextField::Depth,
                value: current_call.depth as nat,
            })
            &&& forall|nth: int|
                0 <= nth < 7 && nth < len ==> #[trigger] trace[6 + nth] == (OperationView::Stack {
                    rw: RW::READ,
                    address: (1024 - len + nth) as nat,
                    value: stack.words@[len - 1 - nth]@,
                })
            &&& len >= 7 ==> trace[13] == (OperationView::Stack {
                rw: RW::WRITE,
                address: (1024 - len + 6) as nat,
                value: if is_success {
                    1
                } else {
                    0
                },
            })
        }),
{
}

/// Two calls that differ in their outcome alone differ in the outcome that is written,
/// and in nothing else.
pub proof fn law_outcomes_differ(stack: Stack, tx_id: usize, current_call: CallFrame)
    requires
        7 <= stack.words@.len() <= 1024,
    ensures
        ({
            let succeeds = caller_trace(stack, tx_id, current_call, true);
            let fails = caller_trace(stack, tx_id, current_call, false);
            &&& succeeds.drop_last() == fails.drop_last()
            &&& succeeds.last() != fails.last()
        }),
{
    let succeeds = caller_trace(stack, tx_id, current_call, true);
    let fails = caller_trace(stack, tx_id, current_call, false);
    law_caller_operations(stack, tx_id, current_call, true);
    law_caller_operations(stack, tx_id, current_call, false);
    assert(succeeds.last() == succeeds[13]);
    assert(fails.last() == fails[13]);
    assert(succeeds[13]->Stack_value != fails[13]->Stack_value);
    assert(succeeds.drop_last() =~= fails.drop_last());
}

/// The write to the access list makes the callee's account warm, and carries whether it
/// was warm before: undoing the write restores what was there.
pub proof fn law_access_list_write(tx_id: usize, address: Address, is_warm: bool)
    ensures
        access_list_write(tx_id, address, is_warm) == (OperationView::AccessListAccount {
            tx_id: tx_id as nat,
            address,
            is_warm: true,
            is_warm_prev: is_warm,
        }),
{
}

/// The callee becomes the current call as it was parsed, two fields of its context are
/// read, and the caller pays the callee.
pub proof fn law_callee_operations(call: CallFrame)
    ensures
        ({
            let trace = callee_trace(call);
            let id = call.call_id as nat;
            &&& trace.len() == 4
            &&& trace[0] == (OperationView::PushCall { call })
            &&& trace[1] == (OperationView::CallContext {
                rw: RW::READ,
                call_id: id,
                field: CallContextField::RwCounterEndOfReversion,
                value: 0,
            })
            &&& trace[2] == (OperationView::CallContext {
                rw: RW::READ,
                call_id: id,
                field: CallContextField::IsPersistent,
                value: if call.is_persistent {
                    1
                } else {
                    0
                },
            })
            &&& trace[3] == (OperationView::Transfer {
                from: call.caller_address,
                to: call.address,
                value: call.value@,
            })
        }),
{
}

/// The nonce and the code hash of the callee's account are read, and stay as they are.
pub proof fn law_account_operations(address: Address, account: Account)
    ensures
        ({
            let trace = account_trace(address, account);
            &&& trace.len() == 2
            &&& trace[0] == (OperationView::AccountRead {
                address,
                field: AccountField::Nonce,
                value: account.nonce@,
                value_prev: account.nonce@,
            })
            &&& trace[1] == (OperationView::AccountRead {
                address,
                field: AccountField::CodeHash,
                value: be_value(account.code_hash.bytes@),
                value_prev: be_value(account.code_hash.bytes@),
            })
        }),
{
}

/// The code hash of an account without code, byte by byte.
pub proof fn law_empty_hash()
    ensures
        EMPTY_HASH@ == seq![
            197u8, 210u8, 70u8, 1u8, 134u8, 247u8, 35u8, 60u8, 146u8, 126u8, 125u8, 178u8, 220u8,
            199u8, 3u8, 192u8, 229u8, 0u8, 182u8, 83u8, 202u8, 130u8, 39u8, 59u8, 123u8, 250u8,
            216u8, 4u8, 93u8, 133u8, 164u8, 112u8,
        ],
{
}

/// A call to a precompiled contract returns at once, whatever the code of the account.
/// A call to an account without code returns at once as well, once the caller's context
/// is told that there is no last callee.
pub proof fn law_immediate_return(
    geth_step: GethExecStep,
    tx_id: usize,
    current_call: CallFrame,
    call: CallFrame,
    gas: CallGas,
    reversible_write_counter: usize,
    is_precompiled: bool,
    account: Account,
)
    requires
        is_precompiled || account.code_hash.bytes@ == EMPTY_HASH@,
    ensures
        ({
            let trace = closing_trace(
                geth_step,
                tx_id,
                current_call,
                call,
                gas,
                reversible_write_counter,
                is_precompiled,
                account,
            );
            let id = current_call.call_id as nat;
            &&& is_precompiled ==> trace.len() == 1
            &&& trace.last() == OperationView::HandleReturn
            &&& !is_precompiled ==> {
                &&& trace.len() == 4
                &&& trace[0] == (OperationView::CallContext {
                    rw: RW::WRITE,
                    call_id: id,
                    field: CallContextField::LastCalleeId,
                    value: 0,
                })
                &&& trace[1] == (OperationView::CallContext {
                    rw: RW::WRITE,
                    call_id: id,
                    field: CallContextField::LastCalleeReturnDataOffset,
                    value: 0,
                })
                &&& trace[2] == (OperationView::CallContext {
                    rw: RW::WRITE,
                    call_id: id,
                    field: CallContextField::LastCalleeReturnDataLength,
                    value: 0,
                })
            }
        }),
{
}

/// A call to an account with code saves the caller's context: the program counter behind
/// the call, the stack with its outcome on top, the gas that is left, the memory, and the
/// write counter.
pub proof fn law_caller_is_saved(
    geth_step: GethExecStep,
    tx_id: usize,
    current_call: CallFrame,
    call: CallFrame,
    gas: CallGas,
    reversible_write_counter: usize,
    account: Account,
)
    requires
        account.code_hash.bytes@ != EMPTY_HASH@,
        geth_step.stack.words@.len() <= 1024,
        gas.gas_cost + gas.callee_gas_left <= geth_step.gas,
    ensures
        ({
            let trace = closing_trace(
                geth_step,
                tx_id,
                current_call,
                call,
                gas,
                reversible_write_counter,
                false,
                account,
            );
            let id = current_call.call_id as nat;
            &&& trace.len() == 23
            &&& trace[0] == (OperationView::CallContext {
                rw: RW::WRITE,
                call_id: id,
                field: CallContextField::ProgramCounter,
                value: geth_step.pc as nat + 1,
            })
            &&& trace[1] == (OperationView::CallContext {
                rw: RW::WRITE,
                call_id: id,
                field: CallContextField::StackPointer,
                value: (1024 - geth_step.stack.words@.len() + 6) as nat,
            })
            &&& trace[2] == (OperationView::CallContext {
                rw: RW::WRITE,
                call_id: id,
                field: CallContextField::GasLeft,
                value: (geth_step.gas - gas.gas_cost - gas.callee_gas_left) as nat,
            })
            &&& trace[3] == (OperationView::CallContext {
                rw: RW::WRITE,
                call_id: id,
                field: CallContextField::MemorySize,
                value: gas.next_memory_word_size as nat,
            })
            &&& trace[4] == (OperationView::CallContext {
                rw: RW::WRITE,
                call_id: id,
                field: CallContextField::ReversibleWriteCounter,
                value: reversible_write_counter as nat + 1,
            })
        }),
{
}

/// A call to an account with code sets up the callee's context, field by field.
pub proof fn law_callee_is_set_up(
    geth_step: GethExecStep,
    tx_id: usize,
    current_call: CallFrame,
    call: CallFrame,
    gas: CallGas,
    reversible_write_counter: usize,
    account: Account,
)
    requires
        account.code_hash.bytes@ != EMPTY_HASH@,
    ensures
        ({
            let trace = closing_trace(
                geth_step,
                tx_id,
                current_call,
                call,
                gas,
                reversible_write_counter,
                false,
                account,
            );
            let read = |field: CallContextField, value: nat|
                OperationView::CallContext {
                    rw: RW::READ,
                    call_id: call.call_id as nat,
                    field,
                    value,
                };
            &&& trace.len() == 23
            &&& trace[5] == read(CallContextField::CallerId, current_call.call_id as nat)
            &&& trace[6] == read(CallContextField::TxId, tx_id as nat)
            &&& trace[7] == read(CallContextField::Depth, call.depth as nat)
            &&& trace[8] == read(
                CallContextField::CallerAddress,
                be_value(call.caller_address.bytes@),
            )
            &&& trace[9] == read(CallContextField::CalleeAddress, be_value(call.address.bytes@))
            &&& trace[10] == read(CallContextField::CallDataOffset, call.call_data_offset as nat)
            &&& trace[11] == read(CallContextField::CallDataLength, call.call_data_length as nat)
            &&& trace[12] == read(
                CallContextField::ReturnDataOffset,
                call.return_data_offset as nat,
            )
            &&& trace[13] == read(
                CallContextField::ReturnDataLength,
                call.return_data_length as nat,
            )
            &&& trace[14] == read(CallContextField::Value, call.value@)
            &&& trace[15] == read(
                CallContextField::IsSuccess,
                if call.is_success {
                    1
                } else {
                    0
                },
            )
            &&& trace[16] == read(
                CallContextField::IsStatic,
                if call.is_static {
                    1
                } else {
                    0
                },
            )
            &&& trace[17] == read(CallContextField::LastCalleeId, 0)
            &&& trace[18] == read(CallContextField::LastCalleeReturnDataOffset, 0)
            &&& trace[19] == read(CallContextField::LastCalleeReturnDataLength, 0)
            &&& trace[20] == read(CallContextField::IsRoot, 0)
            &&& trace[21] == read(CallContextField::IsCreate, 0)
            &&& trace[22] == read(CallContextField::CodeHash, be_value(call.code_hash.bytes@))
        }),
{
}

/// Where the regions of a call's memory stand on the stack: `CALL` and `CALLCODE` have a
/// value in front of them, the other two calls do not.
pub proof fn law_memory_arguments(op: OpcodeId)
    ensures
        is_call(op) <==> op is CALL || op is CALLCODE || op is DELEGATECALL || op is STATICCALL,
        op is CALL || op is CALLCODE ==> memory_arguments(op) == 3,
        op is DELEGATECALL || op is STATICCALL ==> memory_arguments(op) == 2,
{
}

/// The memory that a call asks for reaches to the end of the further one of its two
/// regions. An empty region asks for none.
pub proof fn law_minimal_length_is_further_end(
    stack: Stack,
    first: int,
    args_offset: nat,
    args_length: nat,
    ret_offset: nat,
    ret_length: nat,
)
    requires
        stack.at(first) == args_offset,
        stack.at(first + 1) == args_length,
        stack.at(first + 2) == ret_offset,
        stack.at(first + 3) == ret_length,
    ensures
        args_length == 0 && ret_length == 0 ==> minimal_length(stack, first) == 0,
        args_length != 0 && ret_length == 0 ==> minimal_length(stack, first) == args_offset
            + args_length,
        args_length == 0 && ret_length != 0 ==> minimal_length(stack, first) == ret_offset
            + ret_length,
        args_length != 0 && ret_length != 0 && args_offset + args_length >= ret_offset + ret_length
            ==> minimal_length(stack, first) == args_offset + args_length,
        args_length != 0 && ret_length != 0 && args_offset + args_length <= ret_offset + ret_length
            ==> minimal_length(stack, first) == ret_offset + ret_length,
{
}

/// A call can be started exactly where each word of its two regions that the stack holds
/// fits in a `usize` and, if it holds all four, so does the end of each region that is
/// not empty.
pub proof fn law_memory_fits_exactly(stack: Stack, first: int)
    requires
        0 <= first,
    ensures
        memory_fits(stack, first) <==> {
            let len = stack.words@.len();
            &&& len > first ==> stack.at(first) <= usize::MAX
            &&& len > first + 1 ==> stack.at(first + 1) <= usize::MAX
            &&& len > first + 2 ==> stack.at(first + 2) <= usize::MAX
            &&& len > first + 3 ==> stack.at(first + 3) <= usize::MAX
            &&& len > first + 3 ==> {
                &&& stack.at(first + 1) != 0 ==> stack.at(first) + stack.at(first + 1) <= usize::MAX
                &&& stack.at(first + 3) != 0 ==> stack.at(first + 2) + stack.at(first + 3)
                    <= usize::MAX
            }
        },
{
    if memory_fits(stack, first) {
        assert(stack.words@.len() > first ==> stack.at(first) <= usize::MAX);
        assert(stack.words@.len() > first + 1 ==> stack.at(first + 1) <= usize::MAX);
        assert(stack.words@.len() > first + 2 ==> stack.at(first + 2) <= usize::MAX);
        assert(stack.words@.len() > first + 3 ==> stack.at(first + 3) <= usize::MAX);
    } else {
        if forall|nth: int|
            first <= nth < first + 4 && nth < stack.words@.len() ==> #[trigger] stack.at(nth)
                <= usize::MAX {
        } else {
            let nth = choose|nth: int|
                !(first <= nth < first + 4 && nth < stack.words@.len() ==> #[trigger] stack.at(nth)
                    <= usize::MAX);
            assert(nth == first || nth == first + 1 || nth == first + 2 || nth == first + 3);
        }
    }
}

/// A run starts with the memory that its four words ask for. A stack that does not hold
/// all four stops it before anything is done.
pub proof fn law_first_stage(geth_steps: Seq<GethExecStep>)
    requires
        geth_steps.len() > 0,
        !(geth_steps[0].op is Other),
    ensures
        ({
            let op = geth_steps[0].op;
            let stack = geth_steps[0].stack;
            let first: int = if op is CALL || op is CALLCODE {
                3
            } else {
                2
            };
            let start = first_stage(geth_steps);
            if stack.words@.len() >= first + 4 {
                &&& start.0.len() == 1
                &&& start.0[0] == (OperationView::ExtendMemory {
                    length: minimal_length(stack, first),
                })
                &&& start.1 == CallStage::Entering
            } else {
                &&& start.0.len() == 0
                &&& start.1 == (CallStage::Failed { error: Error::InvalidStackPointer })
            }
        }),
{
}

/// What a call costs, in gas: 100 for an account that is warm and 2600 for one that is
/// not; 9000 for a value, and 25000 more if it brings the account to life; and the growth
/// of the memory, where `w` words cost 3 for each and a 512th of their square. The callee
/// gets what it was promised, as long as a 64th of what is then left stays behind.
pub proof fn law_call_gas(
    geth_step: GethExecStep,
    call: CallFrame,
    is_warm: bool,
    is_account_empty: bool,
    curr_memory_word_size: u64,
)
    requires
        gas_fits(geth_step, call, is_warm, is_account_empty, curr_memory_word_size),
        geth_step.stack.words@.len() > 0,
    ensures
        ({
            let gas = CallGas::of(
                geth_step,
                call,
                is_warm,
                is_account_empty,
                curr_memory_word_size,
            );
            let curr = curr_memory_word_size as nat;
            let next = gas.next_memory_word_size as nat;
            let left = geth_step.gas - gas.gas_cost;
            let asked = geth_step.stack.words@.last()@;
            let cap = left - left / 64;
            &&& gas.has_value == (call.value@ != 0)
            &&& next == curr || 32 * (next - 1) < call.call_data_offset + call.call_data_length
                || 32 * (next - 1) < call.return_data_offset + call.return_data_length
            &&& next >= curr
            &&& 32 * next >= call.call_data_offset + call.call_data_length
            &&& 32 * next >= call.return_data_offset + call.return_data_length
            &&& gas.gas_cost == (if is_warm {
                100int
            } else {
                2600int
            }) + (if call.value@ == 0 {
                0int
            } else if is_account_empty {
                34000int
            } else {
                9000int
            }) + (3 * next + next * next / 512) - (3 * curr + curr * curr / 512)
            &&& left >= 0
            &&& asked <= cap ==> gas.callee_gas_left == asked
            &&& asked >= cap ==> gas.callee_gas_left == cap
        }),
{
    law_gas_is_covered(
        geth_step,
        call,
        is_warm,
        is_account_empty,
        curr_memory_word_size,
    );
    let next = next_memory_words(call, curr_memory_word_size as nat);
    let curr = curr_memory_word_size as nat;
    assert(curr * curr <= next * next) by (nonlinear_arith)
        requires
            curr <= next,
    ;
}

/// The gas of a call can be computed exactly where the ends of its two regions can be
/// counted, the memory is less than 2^32 words, and the caller can pay.
pub proof fn law_gas_fits_exactly(
    geth_step: GethExecStep,
    call: CallFrame,
    is_warm: bool,
    is_account_empty: bool,
    curr_memory_word_size: u64,
    next: nat,
)
    requires
        next >= curr_memory_word_size,
        32 * next >= call.call_data_offset + call.call_data_length,
        32 * next >= call.return_data_offset + call.return_data_length,
        next == curr_memory_word_size || 32 * (next - 1) < call.call_data_offset
            + call.call_data_length || 32 * (next - 1) < call.return_data_offset
            + call.return_data_length,
    ensures
        gas_fits(geth_step, call, is_warm, is_account_empty, curr_memory_word_size) <==> {
            let curr = curr_memory_word_size as nat;
            &&& call.call_data_offset + call.call_data_length + 31 <= u64::MAX
            &&& call.return_data_offset + call.return_data_length + 31 <= u64::MAX
            &&& next < 0x1_0000_0000
            &&& geth_step.stack.words@.len() > 0 ==> (if is_warm {
                100int
            } else {
                2600int
            }) + (if call.value@ == 0 {
                0int
            } else if is_account_empty {
                34000int
            } else {
                9000int
            }) + (3 * next + next * next / 512) - (3 * curr + curr * curr / 512) <= geth_step.gas
        },
{
    let curr = curr_memory_word_size as nat;
    assert(next == next_memory_words(call, curr));
    assert(curr * curr <= next * next) by (nonlinear_arith)
        requires
            curr <= next,
    ;
    assert(next * next <= u64::MAX <==> next < 0x1_0000_0000) by (nonlinear_arith);
}

/// The trace agrees on the gas of the callee where the call is not followed by a deeper
/// step. Where it is, that step has exactly the gas that was handed over if no value came
/// along, and exactly 2300 more if one did.
pub proof fn law_gas_agreement(
    geth_steps: Seq<GethExecStep>,
    call: CallFrame,
    is_warm: bool,
    is_account_empty: bool,
    curr_memory_word_size: u64,
)
    requires
        geth_steps.len() > 0,
    ensures
        ({
            let gas = CallGas::of(
                geth_steps[0],
                call,
                is_warm,
                is_account_empty,
                curr_memory_word_size,
            );
            let deeper = geth_steps.len() >= 2 && geth_steps[1].depth == geth_steps[0].depth + 1;
            &&& !deeper ==> gas_agrees(geth_steps, gas)
            &&& deeper && call.value@ == 0 ==> (gas_agrees(geth_steps, gas) <==> geth_steps[1].gas
                == gas.callee_gas_left)
            &&& deeper && call.value@ != 0 ==> (gas_agrees(geth_steps, gas) <==> geth_steps[1].gas
                == gas.callee_gas_left + 2300)
        }),
{
}

/// What any gas asks of a deeper next step: the gas that was handed over, and 2300 more
/// exactly where a value came along.
pub proof fn law_expected_gas(geth_steps: Seq<GethExecStep>, gas: CallGas)
    requires
        geth_steps.len() >= 2,
        geth_steps[1].depth == geth_steps[0].depth + 1,
    ensures
        !gas.has_value ==> (gas_agrees(geth_steps, gas) <==> geth_steps[1].gas
            == gas.callee_gas_left),
        gas.has_value ==> (gas_agrees(geth_steps, gas) <==> geth_steps[1].gas
            == gas.callee_gas_left + 2300),
{
}

/// Once the callee's account is known, the run goes on exactly where the gas of a deeper
/// next step is what the call hands over, plus 2300 where it carries a value. Else it
/// stops.
pub proof fn law_run_goes_on(
    geth_steps: Seq<GethExecStep>,
    entry: CallEntry,
    is_warm: bool,
    curr_memory_word_size: u64,
    account: Account,
)
    requires
        geth_steps.len() > 0,
        geth_steps[0].stack.words@.len() > 0,
    ensures
        ({
            let gas = CallGas::of(
                geth_steps[0],
                entry.call,
                is_warm,
                account.is_empty,
                curr_memory_word_size,
            );
            let batch = resumed(
                geth_steps,
                CallStage::Transferring { entry, is_warm, curr_memory_word_size },
                Answer::Account(account),
            );
            let expected: int = if entry.call.value@ == 0 {
                gas.callee_gas_left as int
            } else {
                gas.callee_gas_left + 2300
            };
            &&& batch.0 == account_trace(entry.call.address, account)
            &&& if geth_steps.len() < 2 || geth_steps[1].depth != geth_steps[0].depth + 1
                || geth_steps[1].gas == expected {
                batch.1 == (CallStage::Branching { entry, gas, account })
            } else {
                batch.1 == (CallStage::Disagreeing { entry, gas })
            }
        }),
{
}

/// How a run goes from stage to stage: which operations an answer gives at the stage that
/// waits for it, and what comes next.
pub proof fn law_stages(
    geth_steps: Seq<GethExecStep>,
    entry: CallEntry,
    is_warm: bool,
    curr_memory_word_size: u64,
    gas: CallGas,
    account: Account,
    is_precompiled: bool,
    reversible_write_counter: usize,
)
    requires
        geth_steps.len() > 0,
    ensures
        ({
            let step = geth_steps[0];
            let batch = resumed(geth_steps, CallStage::Entering, Answer::Entry(entry));
            &&& batch.0 == caller_trace(
                step.stack,
                entry.tx_id,
                entry.current_call,
                entry.call.is_success,
            )
            &&& step.stack.words@.len() >= 7 ==> batch.1 == (CallStage::Accessing { entry })
            &&& step.stack.words@.len() < 7 ==> batch.1 == (CallStage::Failed {
                error: Error::InvalidStackPointer,
            })
        }),
        ({
            let batch = resumed(
                geth_steps,
                CallStage::Accessing { entry },
                Answer::IsWarm(is_warm),
            );
            &&& batch.0.len() == 1
            &&& batch.0[0] == (OperationView::AccessListAccount {
                tx_id: entry.tx_id as nat,
                address: entry.call.address,
                is_warm: true,
                is_warm_prev: is_warm,
            })
            &&& batch.1 == (CallStage::Measuring { entry, is_warm })
        }),
        ({
            let batch = resumed(
                geth_steps,
                CallStage::Measuring { entry, is_warm },
                Answer::MemoryWordSize(curr_memory_word_size),
            );
            &&& batch.0 == callee_trace(entry.call)
            &&& batch.1 == (CallStage::Transferring { entry, is_warm, curr_memory_word_size })
        }),
        ({
            let batch = resumed(
                geth_steps,
                CallStage::Transferring { entry, is_warm, curr_memory_word_size },
                Answer::Account(account),
            );
            &&& batch.0 == account_trace(entry.call.address, account)
            &&& geth_steps[0].stack.words@.len() == 0 ==> batch.1 == (CallStage::Failed {
                error: Error::InvalidStackPointer,
            })
        }),
        ({
            let batch = resumed(
                geth_steps,
                CallStage::Branching { entry, gas, account },
                Answer::Callee { is_precompiled, reversible_write_counter },
            );
            &&& batch.0 == closing_trace(
                geth_steps[0],
                entry.tx_id,
                entry.current_call,
                entry.call,
                gas,
                reversible_write_counter,
                is_precompiled,
                account,
            )
            &&& batch.1 == CallStage::Done
        }),
{
}

/// An answer that the stage does not wait for gives nothing and changes nothing.
pub proof fn law_other_answers(geth_steps: Seq<GethExecStep>, stage: CallStage, answer: Answer)
    requires
        stage is Entering ==> !(answer is Entry),
        stage is Accessing ==> !(answer is IsWarm),
        stage is Measuring ==> !(answer is MemoryWordSize),
        stage is Transferring ==> !(answer is Account),
        stage is Branching ==> !(answer is Callee),
    ensures
        resumed(geth_steps, stage, answer).0.len() == 0,
        resumed(geth_steps, stage, answer).1 == stage,
{
}

/// When an answer can be worked on. The caller's context is taken from a stack of at most
/// 1024 words. The gas has to fit, and the depth of a call that is followed by a step has
/// to leave room for a deeper one. The caller is saved only for an account with code that
/// is not precompiled; then its counters have to leave room, and the gas has to cover the
/// call. Every other answer can be worked on.
pub proof fn law_can_resume_exactly(
    geth_steps: Seq<GethExecStep>,
    entry: CallEntry,
    is_warm: bool,
    curr_memory_word_size: u64,
    gas: CallGas,
    account: Account,
    is_precompiled: bool,
    reversible_write_counter: usize,
    stage: CallStage,
    answer: Answer,
)
    requires
        geth_steps.len() > 0,
    ensures
        can_resume(geth_steps, CallStage::Entering, Answer::Entry(entry))
            <==> geth_steps[0].stack.words@.len() <= 1024,
        can_resume(
            geth_steps,
            CallStage::Transferring { entry, is_warm, curr_memory_word_size },
            Answer::Account(account),
        ) <==> {
            &&& gas_fits(
                geth_steps[0],
                entry.call,
                is_warm,
                account.is_empty,
                curr_memory_word_size,
            )
            &&& geth_steps[0].stack.words@.len() == 0 || geth_steps.len() == 1
                || geth_steps[0].depth < 0xffff
        },
        can_resume(
            geth_steps,
            CallStage::Branching { entry, gas, account },
            Answer::Callee { is_precompiled, reversible_write_counter },
        ) <==> {
            ||| is_precompiled
            ||| account.code_hash.bytes@ == EMPTY_HASH@
            ||| {
                &&& geth_steps[0].stack.words@.len() <= 1024
                &&& geth_steps[0].pc < usize::MAX
                &&& reversible_write_counter < usize::MAX
                &&& gas.gas_cost + gas.callee_gas_left <= geth_steps[0].gas
            }
        },
        !(stage is Entering && answer is Entry) && !(stage is Transferring && answer is Account)
            && !(stage is Branching && answer is Callee) ==> can_resume(geth_steps, stage, answer),
        has_no_code(account) <==> account.code_hash.bytes@ == EMPTY_HASH@,
        can_save_caller(geth_steps[0], gas, reversible_write_counter) <==> {
            &&& geth_steps[0].stack.words@.len() <= 1024
            &&& geth_steps[0].pc < usize::MAX
            &&& reversible_write_counter < usize::MAX
            &&& gas.gas_cost + gas.callee_gas_left <= geth_steps[0].gas
        },
{
}

} // verus!
