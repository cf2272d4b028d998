//! The operations of the `CALL` opcode.
//!
//! The operations come in batches. Between two batches the state of the circuit
//! input is asked for what the next batch depends on. Whoever holds that state
//! performs each batch in order, and stops at the first operation that fails.

use vstd::prelude::*;

use crate::evm::{
    operations_view, Account, AccountField, CallContextField, CallFrame, Error, GethExecStep,
    OpcodeId, Operation, OperationView, Stack, RW, STACK_LIMIT,
};
use crate::gas::{
    capped_gas, eip150_gas, memory_cost, memory_expansion_gas_cost, CALL_STIPEND, CALL_WITH_VALUE,
    COLD_ACCOUNT_ACCESS, NEW_ACCOUNT, WARM_ACCESS,
};
use crate::word::{be_value, Address, Word, H256};

verus! {

/// The Keccak hash of no bytes, which is the code hash of an account without code.
pub const EMPTY_HASH: [u8; 32] = [
    0xc5, 0xd2, 0x46, 0x01, 0x86, 0xf7, 0x23, 0x3c, 0x92, 0x7e, 0x7d, 0xb2, 0xdc, 0xc7, 0x03, 0xc0,
    0xe5, 0x00, 0xb6, 0x53, 0xca, 0x82, 0x27, 0x3b, 0x7b, 0xfa, 0xd8, 0x04, 0x5d, 0x85, 0xa4, 0x70,
];

/// The number of words that `CALL` takes from the stack.
pub const CALL_ARGUMENTS: usize = 7;

/// A truth value as a number.
pub open spec fn bit(flag: bool) -> nat {
    if flag {
        1
    } else {
        0
    }
}

/// A truth value as a word.
fn bit_word(flag: bool) -> (word: Word)
    ensures
        word@ == bit(flag),
{
    if flag {
        Word::from_u64(1)
    } else {
        Word::from_u64(0)
    }
}

/// An operation on a call's context.
pub open spec fn context(
    rw: RW,
    call_id: usize,
    field: CallContextField,
    value: nat,
) -> OperationView {
    OperationView::CallContext { rw, call_id: call_id as nat, field, value }
}

/// Appends an operation.
fn push(operations: &mut Vec<Operation>, operation: Operation)
    ensures
        operations_view(final(operations)@) == operations_view(old(operations)@).push(operation@),
{
    operations.push(operation);
    assert(operations_view(operations@) =~= operations_view(old(operations)@).push(operation@));
}

/// Appends an operation on a call's context.
fn push_context(
    operations: &mut Vec<Operation>,
    rw: RW,
    call_id: usize,
    field: CallContextField,
    value: Word,
)
    ensures
        operations_view(final(operations)@) == operations_view(old(operations)@).push(
            context(rw, call_id, field, value@),
        ),
{
    push(operations, Operation::CallContext { rw, call_id, field, value });
}

/// Appends an operation on a call's context with a small value.
fn push_context_u64(
    operations: &mut Vec<Operation>,
    rw: RW,
    call_id: usize,
    field: CallContextField,
    value: u64,
)
    ensures
        operations_view(final(operations)@) == operations_view(old(operations)@).push(
            context(rw, call_id, field, value as nat),
        ),
{
    push_context(operations, rw, call_id, field, Word::from_u64(value));
}

/// The depth in the stack at which a call opcode finds the offset of its arguments,
/// followed by their length and by the offset and the length of the returned data.
pub open spec fn memory_arguments(op: OpcodeId) -> int {
    match op {
        OpcodeId::DELEGATECALL | OpcodeId::STATICCALL => 2,
        _ => 3,
    }
}

/// Whether an opcode is a call.
pub open spec fn is_call(op: OpcodeId) -> bool {
    !(op is Other)
}

/// Where a region of memory ends. An empty one asks for no memory.
pub open spec fn region_end(offset: nat, length: nat) -> nat {
    if length != 0 {
        offset + length
    } else {
        0
    }
}

/// The end of the region whose offset and length stand at depth `first`.
pub open spec fn stack_region_end(stack: Stack, first: int) -> nat {
    region_end(stack.at(first), stack.at(first + 1))
}

/// The memory that a call asks for: enough for its arguments and for what it
/// returns.
pub open spec fn minimal_length(stack: Stack, first: int) -> nat {
    let args_minimal = stack_region_end(stack, first);
    let ret_minimal = stack_region_end(stack, first + 2);
    if args_minimal >= ret_minimal {
        args_minimal
    } else {
        ret_minimal
    }
}

/// Whether the memory that a call asks for can be addressed: the words that the
/// stack holds of it, and the ends of the two regions, fit in a `usize`.
pub open spec fn memory_fits(stack: Stack, first: int) -> bool {
    &&& forall|nth: int|
        first <= nth < first + 4 && nth < stack.words@.len() ==> #[trigger] stack.at(nth)
            <= usize::MAX
    &&& first + 4 <= stack.words@.len() ==> {
        &&& stack_region_end(stack, first) <= usize::MAX
        &&& stack_region_end(stack, first + 2) <= usize::MAX
    }
}

/// The depth at which the arguments of a call opcode start.
fn first_memory_argument(op: OpcodeId) -> (first: usize)
    ensures
        first == memory_arguments(op),
        first <= 3,
{
    match op {
        OpcodeId::DELEGATECALL | OpcodeId::STATICCALL => 2,
        _ => 3,
    }
}

/// The end of a region of memory, where it can be addressed.
fn addressable_end(offset: usize, length: usize) -> (end: Option<usize>)
    ensures
        end == if region_end(offset as nat, length as nat) <= usize::MAX {
            Some(region_end(offset as nat, length as nat) as usize)
        } else {
            None
        },
{
    if length == 0 {
        Some(0)
    } else if offset <= usize::MAX - length {
        Some(offset + length)
    } else {
        None
    }
}

/// The word at depth `nth` as a `usize`; `None` where the stack is too short, and
/// the second `None` where the word is too large.
fn stack_usize(stack: &Stack, nth: usize) -> (value: Option<Option<usize>>)
    ensures
        value is None <==> nth >= stack.words@.len(),
        value matches Some(value) ==> value == if stack.at(nth as int) <= usize::MAX {
            Some(stack.at(nth as int) as usize)
        } else {
            None
        },
{
    match stack.nth_last(nth) {
        Ok(word) => Some(word.to_usize()),
        Err(_) => None,
    }
}

/// Whether the memory that a call asks for can be addressed.
pub fn call_memory_fits(geth_step: &GethExecStep) -> (answer: bool)
    ensures
        answer == memory_fits(geth_step.stack, memory_arguments(geth_step.op)),
{
    let stack = &geth_step.stack;
    let first = first_memory_argument(geth_step.op);
    let mut nth: usize = first;
    while nth < first + 4
        invariant
            first <= nth <= first + 4,
            first <= 3,
            stack == &geth_step.stack,
            first == memory_arguments(geth_step.op),
            forall|i: int|
                first <= i < nth && i < stack.words@.len() ==> #[trigger] stack.at(i) <= usize::MAX,
        decreases first + 4 - nth,
    {
        if let Some(value) = stack_usize(stack, nth) {
            if value.is_none() {
                assert(stack.at(nth as int) > usize::MAX);
                return false;
            }
        }
        nth = nth + 1;
    }
    if stack.words.len() < first + 4 {
        return true;
    }
    assert(stack.at(first as int) <= usize::MAX);
    assert(stack.at(first + 1) <= usize::MAX);
    assert(stack.at(first + 2) <= usize::MAX);
    assert(stack.at(first + 3) <= usize::MAX);
    match (
        stack_usize(stack, first),
        stack_usize(stack, first + 1),
        stack_usize(stack, first + 2),
        stack_usize(stack, first + 3),
    ) {
        (
            Some(Some(args_offset)),
            Some(Some(args_length)),
            Some(Some(ret_offset)),
            Some(Some(ret_length)),
        ) => addressable_end(args_offset, args_length).is_some() && addressable_end(
            ret_offset,
            ret_length,
        ).is_some(),
        _ => false,
    }
}

/// The memory that the call at the first step asks for.
pub fn call_reconstruct_memory(geth_steps: &[GethExecStep]) -> (length: Result<usize, Error>)
    requires
        geth_steps@.len() > 0,
        is_call(geth_steps@[0].op),
        memory_fits(geth_steps@[0].stack, memory_arguments(geth_steps@[0].op)),
    ensures
        ({
            let stack = geth_steps@[0].stack;
            let first = memory_arguments(geth_steps@[0].op);
            match length {
                Ok(length) => first + 4 <= stack.words@.len() && length == minimal_length(
                    stack,
                    first,
                ),
                Err(error) => first + 4 > stack.words@.len() && error
                    == Error::InvalidStackPointer,
            }
        }),
{
    let geth_step = &geth_steps[0];
    let stack = &geth_step.stack;
    let first = first_memory_argument(geth_step.op);
    if stack.words.len() >= first + 4 {
        assert(stack.at(first as int) <= usize::MAX);
        assert(stack.at(first + 1) <= usize::MAX);
        assert(stack.at(first + 2) <= usize::MAX);
        assert(stack.at(first + 3) <= usize::MAX);
    }
    match (
        stack_usize(stack, first),
        stack_usize(stack, first + 1),
        stack_usize(stack, first + 2),
        stack_usize(stack, first + 3),
    ) {
        (
            Some(Some(args_offset)),
            Some(Some(args_length)),
            Some(Some(ret_offset)),
            Some(Some(ret_length)),
        ) => {
            let args_minimal: usize = if args_length != 0 {
                args_offset + args_length
            } else {
                0
            };
            let ret_minimal: usize = if ret_length != 0 {
                ret_offset + ret_length
            } else {
                0
            };
            if args_minimal >= ret_minimal {
                Ok(args_minimal)
            } else {
                Ok(ret_minimal)
            }
        },
        _ => Err(Error::InvalidStackPointer),
    }
}

/// The first reads, of the caller's context.
pub open spec fn caller_reads(tx_id: usize, current_call: CallFrame) -> Seq<OperationView> {
    let id = current_call.call_id;
    seq![
        context(RW::READ, id, CallContextField::TxId, tx_id as nat),
        context(RW::READ, id, CallContextField::RwCounterEndOfReversion, 0),
        context(RW::READ, id, CallContextField::IsPersistent, bit(current_call.is_persistent)),
        context(
            RW::READ,
            id,
            CallContextField::CalleeAddress,
            be_value(current_call.address.bytes@),
        ),
        context(RW::READ, id, CallContextField::IsStatic, bit(current_call.is_static)),
        context(RW::READ, id, CallContextField::Depth, current_call.depth as nat),
    ]
}

/// The reads of the topmost `count` words of the stack.
pub open spec fn stack_reads(stack: Stack, count: nat) -> Seq<OperationView> {
    Seq::new(
        count,
        |nth: int|
            OperationView::Stack {
                rw: RW::READ,
                address: stack.address_of(nth) as nat,
                value: stack.at(nth),
            },
    )
}

/// The operations on the caller: its context is read, the arguments are taken from
/// the stack, and the outcome of the call is put in the place of the last one. A
/// stack that is too short ends them.
pub open spec fn caller_trace(
    stack: Stack,
    tx_id: usize,
    current_call: CallFrame,
    is_success: bool,
) -> Seq<OperationView> {
    let reads = caller_reads(tx_id, current_call);
    if stack.words@.len() < CALL_ARGUMENTS {
        reads + stack_reads(stack, stack.words@.len())
    } else {
        reads + stack_reads(stack, CALL_ARGUMENTS as nat) + seq![
            OperationView::Stack {
                rw: RW::WRITE,
                address: stack.address_of(6) as nat,
                value: bit(is_success),
            },
        ]
    }
}

/// The operations on the caller, and whether the stack held all arguments.
pub fn caller_operations(
    stack: &Stack,
    tx_id: usize,
    current_call: &CallFrame,
    is_success: bool,
) -> (batch: (Vec<Operation>, Result<(), Error>))
    requires
        stack.words@.len() <= STACK_LIMIT,
    ensures
        operations_view(batch.0@) == caller_trace(*stack, tx_id, *current_call, is_success),
        batch.1 is Ok <==> stack.words@.len() >= CALL_ARGUMENTS,
        batch.1 matches Err(error) ==> error == Error::InvalidStackPointer,
{
    let id: usize = current_call.call_id;
    let mut operations: Vec<Operation> = Vec::new();
    push_context_u64(&mut operations, RW::READ, id, CallContextField::TxId, tx_id as u64);
    push_context_u64(&mut operations, RW::READ, id, CallContextField::RwCounterEndOfReversion, 0);
    push_context(
        &mut operations,
        RW::READ,
        id,
        CallContextField::IsPersistent,
        bit_word(current_call.is_persistent),
    );
    push_context(
        &mut operations,
        RW::READ,
        id,
        CallContextField::CalleeAddress,
        current_call.address.to_word(),
    );
    push_context(
        &mut operations,
        RW::READ,
        id,
        CallContextField::IsStatic,
        bit_word(current_call.is_static),
    );
    push_context_u64(
        &mut operations,
        RW::READ,
        id,
        CallContextField::Depth,
        current_call.depth as u64,
    );
    let ghost reads = caller_reads(tx_id, *current_call);
    assert(operations_view(operations@) =~= reads);

    let mut nth: usize = 0;
    assert(reads =~= reads + stack_reads(*stack, 0));
    while nth < CALL_ARGUMENTS
        invariant
            nth <= CALL_ARGUMENTS,
            nth <= stack.words@.len(),
            stack.words@.len() <= STACK_LIMIT,
            reads == caller_reads(tx_id, *current_call),
            operations_view(operations@) == reads + stack_reads(*stack, nth as nat),
        decreases CALL_ARGUMENTS - nth,
    {
        let address = stack.nth_last_filled(nth);
        match stack.nth_last(nth) {
            Ok(value) => {
                push(&mut operations, Operation::Stack { rw: RW::READ, address, value });
            },
            Err(error) => {
                return (operations, Err(error));
            },
        }
        assert(operations_view(operations@) =~= reads + stack_reads(*stack, (nth + 1) as nat));
        nth = nth + 1;
    }

    push(
        &mut operations,
        Operation::Stack {
            rw: RW::WRITE,
            address: stack.nth_last_filled(6),
            value: bit_word(is_success),
        },
    );
    assert(operations_view(operations@) =~= caller_trace(
        *stack,
        tx_id,
        *current_call,
        is_success,
    ));
    (operations, Ok(()))
}

/// The callee's account becomes warm.
pub open spec fn access_list_write(tx_id: usize, address: Address, is_warm: bool) -> OperationView {
    OperationView::AccessListAccount {
        tx_id: tx_id as nat,
        address,
        is_warm: true,
        is_warm_prev: is_warm,
    }
}

/// The write to the access list, given whether the callee's account is warm.
pub fn access_list_operation(tx_id: usize, call: &CallFrame, is_warm: bool) -> (operation:
    Operation)
    ensures
        operation@ == access_list_write(tx_id, call.address, is_warm),
{
    Operation::AccessListAccount {
        tx_id,
        address: call.address,
        is_warm: true,
        is_warm_prev: is_warm,
    }
}

/// The callee's context becomes the current one, and the value is transferred.
pub open spec fn callee_trace(call: CallFrame) -> Seq<OperationView> {
    seq![
        OperationView::PushCall { call },
        context(RW::READ, call.call_id, CallContextField::RwCounterEndOfReversion, 0),
        context(RW::READ, call.call_id, CallContextField::IsPersistent, bit(call.is_persistent)),
        OperationView::Transfer {
            from: call.caller_address,
            to: call.address,
            value: call.value@,
        },
    ]
}

/// The operations that switch to the callee.
pub fn callee_operations(call: &CallFrame) -> (operations: Vec<Operation>)
    ensures
        operations_view(operations@) == callee_trace(*call),
{
    let mut operations: Vec<Operation> = Vec::new();
    push(&mut operations, Operation::PushCall { call: *call });
    push_context_u64(
        &mut operations,
        RW::READ,
        call.call_id,
        CallContextField::RwCounterEndOfReversion,
        0,
    );
    push_context(
        &mut operations,
        RW::READ,
        call.call_id,
        CallContextField::IsPersistent,
        bit_word(call.is_persistent),
    );
    push(
        &mut operations,
        Operation::Transfer {
            from: call.caller_address,
            to: call.address,
            value: call.value,
        },
    );
    assert(operations_view(operations@) =~= callee_trace(*call));
    operations
}

/// The callee's account is read.
pub open spec fn account_trace(address: Address, account: Account) -> Seq<OperationView> {
    let nonce = account.nonce@;
    let code_hash = be_value(account.code_hash.bytes@);
    seq![
        OperationView::AccountRead {
            address,
            field: AccountField::Nonce,
            value: nonce,
            value_prev: nonce,
        },
        OperationView::AccountRead {
            address,
            field: AccountField::CodeHash,
            value: code_hash,
            value_prev: code_hash,
        },
    ]
}

/// The reads of the callee's account.
pub fn account_operations(call: &CallFrame, account: &Account) -> (operations: Vec<Operation>)
    ensures
        operations_view(operations@) == account_trace(call.address, *account),
{
    let mut operations: Vec<Operation> = Vec::new();
    let code_hash = account.code_hash.to_word();
    push(
        &mut operations,
        Operation::AccountRead {
            address: call.address,
            field: AccountField::Nonce,
            value: account.nonce,
            value_prev: account.nonce,
        },
    );
    push(
        &mut operations,
        Operation::AccountRead {
            address: call.address,
            field: AccountField::CodeHash,
            value: code_hash,
            value_prev: code_hash,
        },
    );
    assert(operations_view(operations@) =~= account_trace(call.address, *account));
    operations
}

/// The larger of two numbers.
pub open spec fn larger(left: nat, right: nat) -> nat {
    if left >= right {
        left
    } else {
        right
    }
}

/// The number of words in which a region of memory lies.
pub open spec fn words_up_to(offset: nat, length: nat) -> nat {
    (offset + length + 31) / 32
}

/// The size of the memory once the call has its arguments and its return data.
pub open spec fn next_memory_words(call: CallFrame, curr_memory_word_size: nat) -> nat {
    larger(
        larger(
            curr_memory_word_size,
            words_up_to(call.call_data_offset as nat, call.call_data_length as nat),
        ),
        words_up_to(call.return_data_offset as nat, call.return_data_length as nat),
    )
}

/// What the call costs, not counting the gas that the callee gets.
pub open spec fn call_gas_cost(
    call: CallFrame,
    is_warm: bool,
    is_account_empty: bool,
    curr_memory_word_size: nat,
) -> nat {
    let access = if is_warm {
        WARM_ACCESS as nat
    } else {
        COLD_ACCOUNT_ACCESS as nat
    };
    let transfer = if call.value@ == 0 {
        0
    } else if is_account_empty {
        (CALL_WITH_VALUE + NEW_ACCOUNT) as nat
    } else {
        CALL_WITH_VALUE as nat
    };
    let memory = (memory_cost(next_memory_words(call, curr_memory_word_size)) - memory_cost(
        curr_memory_word_size,
    )) as nat;
    access + transfer + memory
}

/// Whether the gas of a call can be computed: its memory can be counted, and the
/// caller can pay for it.
pub open spec fn gas_fits(
    geth_step: GethExecStep,
    call: CallFrame,
    is_warm: bool,
    is_account_empty: bool,
    curr_memory_word_size: u64,
) -> bool {
    let next = next_memory_words(call, curr_memory_word_size as nat);
    &&& call.call_data_offset + call.call_data_length + 31 <= u64::MAX
    &&& call.return_data_offset + call.return_data_length + 31 <= u64::MAX
    &&& next * next <= u64::MAX
    &&& geth_step.stack.words@.len() > 0 ==> call_gas_cost(
        call,
        is_warm,
        is_account_empty,
        curr_memory_word_size as nat,
    ) <= geth_step.gas
}

/// The gas of a call.
#[derive(Debug, Clone, Copy, PartialEq, Eq, Structural)]
pub struct CallGas {
    pub next_memory_word_size: u64,
    pub has_value: bool,
    pub gas_cost: u64,
    pub callee_gas_left: u64,
}

impl CallGas {
    /// The gas of the call at a step, from what it depends on.
    pub open spec fn of(
        geth_step: GethExecStep,
        call: CallFrame,
        is_warm: bool,
        is_account_empty: bool,
        curr_memory_word_size: u64,
    ) -> CallGas {
        let cost = call_gas_cost(call, is_warm, is_account_empty, curr_memory_word_size as nat);
        CallGas {
            next_memory_word_size: next_memory_words(call, curr_memory_word_size as nat) as u64,
            has_value: call.value@ != 0,
            gas_cost: cost as u64,
            callee_gas_left: capped_gas(
                (geth_step.gas - cost) as nat,
                geth_step.stack.at(0),
            ) as u64,
        }
    }

    /// The cost and what the callee gets are within the gas at the step, and the
    /// stipend fits on top.
    pub open spec fn is_covered_by(self, geth_step: GethExecStep) -> bool {
        &&& self.gas_cost + self.callee_gas_left <= geth_step.gas
        &&& self.callee_gas_left + CALL_STIPEND <= u64::MAX
    }
}

/// The size of the memory after the call, where it can be counted.
fn count_memory_words(call: &CallFrame, curr_memory_word_size: u64) -> (words: Option<u64>)
    ensures
        ({
            let next = next_memory_words(*call, curr_memory_word_size as nat);
            if call.call_data_offset + call.call_data_length + 31 <= u64::MAX
                && call.return_data_offset + call.return_data_length + 31 <= u64::MAX && next * next
                <= u64::MAX {
                words == Some(next as u64)
            } else {
                words is None
            }
        }),
{
    if call.call_data_offset > u64::MAX - call.call_data_length || call.call_data_offset
        + call.call_data_length > u64::MAX - 31 {
        return None;
    }
    if call.return_data_offset > u64::MAX - call.return_data_length || call.return_data_offset
        + call.return_data_length > u64::MAX - 31 {
        return None;
    }
    let mut next: u64 = curr_memory_word_size;
    let call_data_words: u64 = (call.call_data_offset + call.call_data_length + 31) / 32;
    if call_data_words > next {
        next = call_data_words;
    }
    let return_data_words: u64 = (call.return_data_offset + call.return_data_length + 31) / 32;
    if return_data_words > next {
        next = return_data_words;
    }
    if next > 0xffff_ffff {
        assert(next * next > u64::MAX) by (nonlinear_arith)
            requires
                next > 0xffff_ffff,
        ;
        None
    } else {
        assert(next * next <= u64::MAX) by (nonlinear_arith)
            requires
                next <= 0xffff_ffff,
        ;
        Some(next)
    }
}

/// What a call costs, given the memory that it leaves.
fn price_call(
    call: &CallFrame,
    is_warm: bool,
    is_account_empty: bool,
    curr_memory_word_size: u64,
    next_memory_word_size: u64,
) -> (cost: u64)
    requires
        next_memory_word_size == next_memory_words(*call, curr_memory_word_size as nat),
        next_memory_word_size * next_memory_word_size <= u64::MAX,
    ensures
        cost == call_gas_cost(*call, is_warm, is_account_empty, curr_memory_word_size as nat),
{
    let memory = memory_expansion_gas_cost(curr_memory_word_size, next_memory_word_size);
    let access: u64 = if is_warm {
        WARM_ACCESS
    } else {
        COLD_ACCOUNT_ACCESS
    };
    let transfer: u64 = if call.value.is_zero() {
        0
    } else if is_account_empty {
        CALL_WITH_VALUE + NEW_ACCOUNT
    } else {
        CALL_WITH_VALUE
    };
    access + transfer + memory
}

/// Whether the gas of a call can be computed.
pub fn call_gas_fits(
    geth_step: &GethExecStep,
    call: &CallFrame,
    is_warm: bool,
    is_account_empty: bool,
    curr_memory_word_size: u64,
) -> (answer: bool)
    ensures
        answer == gas_fits(*geth_step, *call, is_warm, is_account_empty, curr_memory_word_size),
{
    match count_memory_words(call, curr_memory_word_size) {
        Some(next) => geth_step.stack.words.len() == 0 || price_call(
            call,
            is_warm,
            is_account_empty,
            curr_memory_word_size,
            next,
        ) <= geth_step.gas,
        None => false,
    }
}

/// The gas of the call at a step. The gas that the callee gets is what the word on
/// top of the stack asks for, capped.
pub fn call_gas(
    geth_step: &GethExecStep,
    call: &CallFrame,
    is_warm: bool,
    is_account_empty: bool,
    curr_memory_word_size: u64,
) -> (gas: Result<CallGas, Error>)
    requires
        gas_fits(*geth_step, *call, is_warm, is_account_empty, curr_memory_word_size),
    ensures
        match gas {
            Ok(gas) => {
                &&& geth_step.stack.words@.len() > 0
                &&& gas == CallGas::of(
                    *geth_step,
                    *call,
                    is_warm,
                    is_account_empty,
                    curr_memory_word_size,
                )
                &&& gas.next_memory_word_size == next_memory_words(
                    *call,
                    curr_memory_word_size as nat,
                )
                &&& gas.gas_cost == call_gas_cost(
                    *call,
                    is_warm,
                    is_account_empty,
                    curr_memory_word_size as nat,
                )
                &&& gas.callee_gas_left == capped_gas(
                    (geth_step.gas - gas.gas_cost) as nat,
                    geth_step.stack.at(0),
                )
                &&& gas.is_covered_by(*geth_step)
            },
            Err(error) => geth_step.stack.words@.len() == 0 && error
                == Error::InvalidStackPointer,
        },
{
    let next_memory_word_size: u64 = match count_memory_words(call, curr_memory_word_size) {
        Some(next) => next,
        None => 0,
    };
    let gas_cost = price_call(
        call,
        is_warm,
        is_account_empty,
        curr_memory_word_size,
        next_memory_word_size,
    );
    let gas_specified = match geth_step.stack.last() {
        Ok(word) => word,
        Err(error) => {
            return Err(error);
        },
    };
    let callee_gas_left = eip150_gas(geth_step.gas - gas_cost, &gas_specified);
    Ok(
        CallGas {
            next_memory_word_size,
            has_value: !call.value.is_zero(),
            gas_cost,
            callee_gas_left,
        },
    )
}

/// Whether the trace agrees on the gas that the callee gets: where the call is
/// followed by the callee's first step, that step has this gas, plus the stipend if a
/// value came along. A trace that ends with the call agrees.
pub open spec fn gas_agrees(geth_steps: Seq<GethExecStep>, gas: CallGas) -> bool {
    geth_steps.len() >= 2 && geth_steps[1].depth == geth_steps[0].depth + 1
        ==> geth_steps[1].gas == gas.callee_gas_left + if gas.has_value {
        CALL_STIPEND as int
    } else {
        0
    }
}

pub fn callee_gas_agrees(geth_steps: &[GethExecStep], gas: &CallGas) -> (answer: bool)
    requires
        geth_steps@.len() >= 2 ==> geth_steps@[0].depth < u16::MAX,
        gas.callee_gas_left + CALL_STIPEND <= u64::MAX,
    ensures
        answer == gas_agrees(geth_steps@, *gas),
{
    let stipend: u64 = if gas.has_value {
        CALL_STIPEND
    } else {
        0
    };
    geth_steps.len() < 2 || geth_steps[1].depth != geth_steps[0].depth + 1 || geth_steps[1].gas == gas.callee_gas_left
        + stipend
}

/// The callee has no code: nothing of it stays in the caller's context.
pub open spec fn empty_code_writes(call_id: usize) -> Seq<OperationView> {
    seq![
        context(RW::WRITE, call_id, CallContextField::LastCalleeId, 0),
        context(RW::WRITE, call_id, CallContextField::LastCalleeReturnDataOffset, 0),
        context(RW::WRITE, call_id, CallContextField::LastCalleeReturnDataLength, 0),
    ]
}

/// The caller's context is saved, to be restored once the callee is done.
pub open spec fn caller_writes(
    geth_step: GethExecStep,
    current_call: CallFrame,
    gas: CallGas,
    reversible_write_counter: usize,
) -> Seq<OperationView> {
    let id = current_call.call_id;
    seq![
        context(RW::WRITE, id, CallContextField::ProgramCounter, geth_step.pc as nat + 1),
        context(
            RW::WRITE,
            id,
            CallContextField::StackPointer,
            (geth_step.stack.address_of(0) + 6) as nat,
        ),
        context(
            RW::WRITE,
            id,
            CallContextField::GasLeft,
            (geth_step.gas - gas.gas_cost - gas.callee_gas_left) as nat,
        ),
        context(
            RW::WRITE,
            id,
            CallContextField::MemorySize,
            gas.next_memory_word_size as nat,
        ),
        context(
            RW::WRITE,
            id,
            CallContextField::ReversibleWriteCounter,
            reversible_write_counter as nat + 1,
        ),
    ]
}

/// Whether what is saved of the caller's context can be computed.
pub open spec fn can_save_caller(
    geth_step: GethExecStep,
    gas: CallGas,
    reversible_write_counter: usize,
) -> bool {
    &&& geth_step.stack.words@.len() <= STACK_LIMIT
    &&& geth_step.pc < usize::MAX
    &&& reversible_write_counter < usize::MAX
    &&& gas.gas_cost + gas.callee_gas_left <= geth_step.gas
}

/// The callee's context is set up.
pub open spec fn callee_reads(
    tx_id: usize,
    current_call: CallFrame,
    call: CallFrame,
) -> Seq<OperationView> {
    let id = call.call_id;
    seq![
        context(RW::READ, id, CallContextField::CallerId, current_call.call_id as nat),
        context(RW::READ, id, CallContextField::TxId, tx_id as nat),
        context(RW::READ, id, CallContextField::Depth, call.depth as nat),
        context(
            RW::READ,
            id,
            CallContextField::CallerAddress,
            be_value(call.caller_address.bytes@),
        ),
        context(RW::READ, id, CallContextField::CalleeAddress, be_value(call.address.bytes@)),
        context(RW::READ, id, CallContextField::CallDataOffset, call.call_data_offset as nat),
        context(RW::READ, id, CallContextField::CallDataLength, call.call_data_length as nat),
        context(RW::READ, id, CallContextField::ReturnDataOffset, call.return_data_offset as nat),
        context(RW::READ, id, CallContextField::ReturnDataLength, call.return_data_length as nat),
        context(RW::READ, id, CallContextField::Value, call.value@),
        context(RW::READ, id, CallContextField::IsSuccess, bit(call.is_success)),
        context(RW::READ, id, CallContextField::IsStatic, bit(call.is_static)),
        context(RW::READ, id, CallContextField::LastCalleeId, 0),
        context(RW::READ, id, CallContextField::LastCalleeReturnDataOffset, 0),
        context(RW::READ, id, CallContextField::LastCalleeReturnDataLength, 0),
        context(RW::READ, id, CallContextField::IsRoot, 0),
        context(RW::READ, id, CallContextField::IsCreate, 0),
        context(RW::READ, id, CallContextField::CodeHash, be_value(call.code_hash.bytes@)),
    ]
}

/// Whether a call goes to an account without code.
pub open spec fn has_no_code(account: Account) -> bool {
    account.code_hash.bytes@ == EMPTY_HASH@
}

/// Whether a call goes to an account without code.
pub fn is_without_code(account: &Account) -> (answer: bool)
    ensures
        answer == has_no_code(*account),
{
    account.code_hash.equals(&H256 { bytes: EMPTY_HASH })
}

/// The last operations. A call to a precompiled contract, or to an account without
/// code, is over at once. Any other call starts to run the callee's code.
pub open spec fn closing_trace(
    geth_step: GethExecStep,
    tx_id: usize,
    current_call: CallFrame,
    call: CallFrame,
    gas: CallGas,
    reversible_write_counter: usize,
    is_precompiled: bool,
    account: Account,
) -> Seq<OperationView> {
    if is_precompiled {
        seq![OperationView::HandleReturn]
    } else if has_no_code(account) {
        empty_code_writes(current_call.call_id).push(OperationView::HandleReturn)
    } else {
        caller_writes(geth_step, current_call, gas, reversible_write_counter) + callee_reads(
            tx_id,
            current_call,
            call,
        )
    }
}

/// The writes that save the caller's context.
fn save_caller(
    geth_step: &GethExecStep,
    current_call: &CallFrame,
    gas: &CallGas,
    reversible_write_counter: usize,
) -> (operations: Vec<Operation>)
    requires
        can_save_caller(*geth_step, *gas, reversible_write_counter),
    ensures
        operations_view(operations@) == caller_writes(
            *geth_step,
            *current_call,
            *gas,
            reversible_write_counter,
        ),
{
    let id: usize = current_call.call_id;
    let mut operations: Vec<Operation> = Vec::new();
    push_context_u64(
        &mut operations,
        RW::WRITE,
        id,
        CallContextField::ProgramCounter,
        (geth_step.pc + 1) as u64,
    );
    push_context_u64(
        &mut operations,
        RW::WRITE,
        id,
        CallContextField::StackPointer,
        (geth_step.stack.stack_pointer() + 6) as u64,
    );
    push_context_u64(
        &mut operations,
        RW::WRITE,
        id,
        CallContextField::GasLeft,
        geth_step.gas - gas.gas_cost - gas.callee_gas_left,
    );
    push_context_u64(
        &mut operations,
        RW::WRITE,
        id,
        CallContextField::MemorySize,
        gas.next_memory_word_size,
    );
    push_context_u64(
        &mut operations,
        RW::WRITE,
        id,
        CallContextField::ReversibleWriteCounter,
        (reversible_write_counter + 1) as u64,
    );
    assert(operations_view(operations@) =~= caller_writes(
        *geth_step,
        *current_call,
        *gas,
        reversible_write_counter,
    ));
    operations
}

/// Appends the reads that set up the callee's context.
fn set_up_callee(
    operations: &mut Vec<Operation>,
    tx_id: usize,
    current_call: &CallFrame,
    call: &CallFrame,
)
    ensures
        operations_view(final(operations)@) == operations_view(old(operations)@) + callee_reads(
            tx_id,
            *current_call,
            *call,
        ),
{
    let id: usize = call.call_id;
    let rw = RW::READ;
    push_context_u64(operations, rw, id, CallContextField::CallerId, current_call.call_id as u64);
    push_context_u64(operations, rw, id, CallContextField::TxId, tx_id as u64);
    push_context_u64(operations, rw, id, CallContextField::Depth, call.depth as u64);
    push_context(
        operations,
        rw,
        id,
        CallContextField::CallerAddress,
        call.caller_address.to_word(),
    );
    push_context(operations, rw, id, CallContextField::CalleeAddress, call.address.to_word());
    push_context_u64(operations, rw, id, CallContextField::CallDataOffset, call.call_data_offset);
    push_context_u64(operations, rw, id, CallContextField::CallDataLength, call.call_data_length);
    push_context_u64(
        operations,
        rw,
        id,
        CallContextField::ReturnDataOffset,
        call.return_data_offset,
    );
    push_context_u64(
        operations,
        rw,
        id,
        CallContextField::ReturnDataLength,
        call.return_data_length,
    );
    push_context(operations, rw, id, CallContextField::Value, call.value);
    push_context(operations, rw, id, CallContextField::IsSuccess, bit_word(call.is_success));
    push_context(operations, rw, id, CallContextField::IsStatic, bit_word(call.is_static));
    push_context_u64(operations, rw, id, CallContextField::LastCalleeId, 0);
    push_context_u64(operations, rw, id, CallContextField::LastCalleeReturnDataOffset, 0);
    push_context_u64(operations, rw, id, CallContextField::LastCalleeReturnDataLength, 0);
    push_context_u64(operations, rw, id, CallContextField::IsRoot, 0);
    push_context_u64(operations, rw, id, CallContextField::IsCreate, 0);
    push_context(operations, rw, id, CallContextField::CodeHash, call.code_hash.to_word());
    assert(operations_view(operations@) =~= operations_view(old(operations)@) + callee_reads(
        tx_id,
        *current_call,
        *call,
    ));
}

/// The last operations of a call.
pub fn closing_operations(
    geth_step: &GethExecStep,
    tx_id: usize,
    current_call: &CallFrame,
    call: &CallFrame,
    gas: &CallGas,
    reversible_write_counter: usize,
    is_precompiled: bool,
    account: &Account,
) -> (operations: Vec<Operation>)
    requires
        !is_precompiled && !has_no_code(*account) ==> can_save_caller(
            *geth_step,
            *gas,
            reversible_write_counter,
        ),
    ensures
        operations_view(operations@) == closing_trace(
            *geth_step,
            tx_id,
            *current_call,
            *call,
            *gas,
            reversible_write_counter,
            is_precompiled,
            *account,
        ),
{
    // There are 3 branches from here.
    if is_precompiled {
        // 1. Call to precompiled.
        let mut operations: Vec<Operation> = Vec::new();
        push(&mut operations, Operation::HandleReturn);
        assert(operations_view(operations@) =~= seq![OperationView::HandleReturn]);
        operations
    } else if is_without_code(account) {
        // 2. Call to account with empty code.
        let id: usize = current_call.call_id;
        let rw = RW::WRITE;
        let mut operations: Vec<Operation> = Vec::new();
        push_context_u64(&mut operations, rw, id, CallContextField::LastCalleeId, 0);
        push_context_u64(&mut operations, rw, id, CallContextField::LastCalleeReturnDataOffset, 0);
        push_context_u64(&mut operations, rw, id, CallContextField::LastCalleeReturnDataLength, 0);
        push(&mut operations, Operation::HandleReturn);
        assert(operations_view(operations@) =~= empty_code_writes(id).push(
            OperationView::HandleReturn,
        ));
        operations
    } else {
        // 3. Call to account with non-empty code.
        let mut operations = save_caller(geth_step, current_call, gas, reversible_write_counter);
        set_up_callee(&mut operations, tx_id, current_call, call);
        operations
    }
}

} // verus!
