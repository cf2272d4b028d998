//! How the batches of a `CALL` follow each other.
//!
//! A run starts at the step of the call. At each stage it waits for one answer from
//! the state of the circuit input, and gives the next batch of operations for it.

use vstd::prelude::*;

use crate::call::{
    access_list_operation, access_list_write, account_operations, account_trace, call_gas,
    call_gas_fits, call_memory_fits, call_reconstruct_memory, callee_gas_agrees,
    callee_operations, callee_trace, caller_operations, caller_trace, can_save_caller,
    closing_operations, closing_trace, gas_agrees, gas_fits, has_no_code, is_call,
    is_without_code, memory_arguments, memory_fits, minimal_length, CallGas, CALL_ARGUMENTS,
};
use crate::evm::{
    operations_view, Account, CallFrame, Error, GethExecStep, OpcodeId, Operation, OperationView,
    STACK_LIMIT,
};

verus! {

/// What is known once the call is entered: the transaction, the call itself, and the
/// call that makes it.
#[derive(Debug, Clone, Copy)]
pub struct CallEntry {
    pub tx_id: usize,
    pub call: CallFrame,
    pub current_call: CallFrame,
}

/// Where a run stands.
#[derive(Debug, Clone, Copy)]
pub enum CallStage {
    /// Waits for the call that is made.
    Entering,
    /// Waits for whether the callee's account is warm.
    Accessing { entry: CallEntry },
    /// Waits for the size of the caller's memory, in words.
    Measuring { entry: CallEntry, is_warm: bool },
    /// Waits for the callee's account, as it is after the transfer.
    Transferring { entry: CallEntry, is_warm: bool, curr_memory_word_size: u64 },
    /// Waits for whether the callee is a precompiled contract, and for the write counter
    /// of the step.
    Branching { entry: CallEntry, gas: CallGas, account: Account },
    /// All operations were given.
    Done,
    /// The trace disagrees on the gas of the callee. The run has stopped.
    Disagreeing { entry: CallEntry, gas: CallGas },
    /// No more operations can be given.
    Failed { error: Error },
}

/// An answer from the state of the circuit input.
#[derive(Debug, Clone, Copy)]
pub enum Answer {
    Entry(CallEntry),
    IsWarm(bool),
    MemoryWordSize(u64),
    Account(Account),
    Callee { is_precompiled: bool, reversible_write_counter: usize },
}

/// The stages after which a run gives nothing more.
pub open spec fn is_over(stage: CallStage) -> bool {
    stage is Done || stage is Disagreeing || stage is Failed
}

/// The first stage of a run, and the operations before it: the memory grows to what
/// the call asks for.
pub open spec fn first_stage(geth_steps: Seq<GethExecStep>) -> (Seq<OperationView>, CallStage) {
    let stack = geth_steps[0].stack;
    let first = memory_arguments(geth_steps[0].op);
    if first + 4 <= stack.words@.len() {
        (
            seq![OperationView::ExtendMemory { length: minimal_length(stack, first) }],
            CallStage::Entering,
        )
    } else {
        (seq![], CallStage::Failed { error: Error::InvalidStackPointer })
    }
}

/// Whether an answer can be worked on: what it leads to fits in the machine's
/// numbers, and the caller can pay for the call.
pub open spec fn can_resume(
    geth_steps: Seq<GethExecStep>,
    stage: CallStage,
    answer: Answer,
) -> bool {
    let geth_step = geth_steps[0];
    &&& geth_steps.len() > 0
    &&& match (stage, answer) {
        (CallStage::Entering, Answer::Entry(entry)) => geth_step.stack.words@.len() <= STACK_LIMIT,
        (
            CallStage::Transferring { entry, is_warm, curr_memory_word_size },
            Answer::Account(account),
        ) => {
            &&& gas_fits(
                geth_step,
                entry.call,
                is_warm,
                account.is_empty,
                curr_memory_word_size,
            )
            &&& geth_step.stack.words@.len() > 0 && geth_steps.len() >= 2 ==> geth_step.depth
                < u16::MAX
        },
        (
            CallStage::Branching { entry, gas, account },
            Answer::Callee { is_precompiled, reversible_write_counter },
        ) => !is_precompiled && !has_no_code(account) ==> can_save_caller(
            geth_step,
            gas,
            reversible_write_counter,
        ),
        _ => true,
    }
}

/// The operations that an answer leads to, and the stage after it. An answer to
/// another question changes nothing.
pub open spec fn resumed(
    geth_steps: Seq<GethExecStep>,
    stage: CallStage,
    answer: Answer,
) -> (Seq<OperationView>, CallStage) {
    let geth_step = geth_steps[0];
    let stack = geth_step.stack;
    match (stage, answer) {
        (CallStage::Entering, Answer::Entry(entry)) => (
            caller_trace(stack, entry.tx_id, entry.current_call, entry.call.is_success),
            if stack.words@.len() >= CALL_ARGUMENTS {
                CallStage::Accessing { entry }
            } else {
                CallStage::Failed { error: Error::InvalidStackPointer }
            },
        ),
        (CallStage::Accessing { entry }, Answer::IsWarm(is_warm)) => (
            seq![access_list_write(entry.tx_id, entry.call.address, is_warm)],
            CallStage::Measuring { entry, is_warm },
        ),
        (CallStage::Measuring { entry, is_warm }, Answer::MemoryWordSize(size)) => (
            callee_trace(entry.call),
            CallStage::Transferring { entry, is_warm, curr_memory_word_size: size },
        ),
        (
            CallStage::Transferring { entry, is_warm, curr_memory_word_size },
            Answer::Account(account),
        ) => (
            account_trace(entry.call.address, account),
            if stack.words@.len() > 0 {
                let gas = CallGas::of(
                    geth_step,
                    entry.call,
                    is_warm,
                    account.is_empty,
                    curr_memory_word_size,
                );
                if gas_agrees(geth_steps, gas) {
                    CallStage::Branching { entry, gas, account }
                } else {
                    CallStage::Disagreeing { entry, gas }
                }
            } else {
                CallStage::Failed { error: Error::InvalidStackPointer }
            },
        ),
        (
            CallStage::Branching { entry, gas, account },
            Answer::Callee { is_precompiled, reversible_write_counter },
        ) => (
            closing_trace(
                geth_step,
                entry.tx_id,
                entry.current_call,
                entry.call,
                gas,
                reversible_write_counter,
                is_precompiled,
                account,
            ),
            CallStage::Done,
        ),
        _ => (seq![], stage),
    }
}

/// The `CALL` opcode.
#[derive(Debug, Clone, Copy)]
pub struct Call;

impl Call {
    /// Whether the run of the call at the first step of a trace can start.
    pub fn can_start(&self, geth_steps: &[GethExecStep]) -> (answer: bool)
        ensures
            answer == (geth_steps@.len() > 0 && is_call(geth_steps@[0].op) && memory_fits(
                geth_steps@[0].stack,
                memory_arguments(geth_steps@[0].op),
            )),
    {
        if geth_steps.len() == 0 {
            return false;
        }
        match geth_steps[0].op {
            OpcodeId::Other(_) => false,
            _ => call_memory_fits(&geth_steps[0]),
        }
    }

    /// Starts the run of the call at the first step of a trace.
    pub fn gen_associated_ops(&self, geth_steps: &[GethExecStep]) -> (batch: (
        Vec<Operation>,
        CallStage,
    ))
        requires
            geth_steps@.len() > 0,
            is_call(geth_steps@[0].op),
            memory_fits(geth_steps@[0].stack, memory_arguments(geth_steps@[0].op)),
        ensures
            operations_view(batch.0@) == first_stage(geth_steps@).0,
            batch.1 == first_stage(geth_steps@).1,
    {
        let mut operations: Vec<Operation> = Vec::new();
        match call_reconstruct_memory(geth_steps) {
            Ok(length) => {
                operations.push(Operation::ExtendMemory { length });
                assert(operations_view(operations@) =~= first_stage(geth_steps@).0);
                (operations, CallStage::Entering)
            },
            Err(error) => {
                assert(operations_view(operations@) =~= first_stage(geth_steps@).0);
                (operations, CallStage::Failed { error })
            },
        }
    }

    /// Whether an answer can be worked on.
    pub fn can_resume(
        &self,
        geth_steps: &[GethExecStep],
        stage: &CallStage,
        answer: &Answer,
    ) -> (yes: bool)
        ensures
            yes == can_resume(geth_steps@, *stage, *answer),
    {
        if geth_steps.len() == 0 {
            return false;
        }
        let geth_step = &geth_steps[0];
        match (*stage, *answer) {
            (CallStage::Entering, Answer::Entry(_)) => geth_step.stack.words.len() <= STACK_LIMIT,
            (
                CallStage::Transferring { entry, is_warm, curr_memory_word_size },
                Answer::Account(account),
            ) => call_gas_fits(
                geth_step,
                &entry.call,
                is_warm,
                account.is_empty,
                curr_memory_word_size,
            ) && (geth_step.stack.words.len() == 0 || geth_steps.len() < 2 || geth_step.depth
                < u16::MAX),
            (
                CallStage::Branching { entry, gas, account },
                Answer::Callee { is_precompiled, reversible_write_counter },
            ) => is_precompiled || is_without_code(&account) || (geth_step.stack.words.len()
                <= STACK_LIMIT && geth_step.pc < usize::MAX && reversible_write_counter
                < usize::MAX && gas.gas_cost <= geth_step.gas && gas.callee_gas_left
                <= geth_step.gas - gas.gas_cost),
            _ => true,
        }
    }

    /// Takes an answer, and gives the operations that it leads to and the stage after
    /// it.
    pub fn resume(
        &self,
        geth_steps: &[GethExecStep],
        stage: &CallStage,
        answer: &Answer,
    ) -> (batch: (Vec<Operation>, CallStage))
        requires
            can_resume(geth_steps@, *stage, *answer),
        ensures
            operations_view(batch.0@) == resumed(geth_steps@, *stage, *answer).0,
            batch.1 == resumed(geth_steps@, *stage, *answer).1,
    {
        let geth_step = &geth_steps[0];
        match (*stage, *answer) {
            (CallStage::Entering, Answer::Entry(entry)) => {
                let (operations, outcome) = caller_operations(
                    &geth_step.stack,
                    entry.tx_id,
                    &entry.current_call,
                    entry.call.is_success,
                );
                match outcome {
                    Ok(()) => (operations, CallStage::Accessing { entry }),
                    Err(error) => (operations, CallStage::Failed { error }),
                }
            },
            (CallStage::Accessing { entry }, Answer::IsWarm(is_warm)) => {
                let mut operations: Vec<Operation> = Vec::new();
                operations.push(access_list_operation(entry.tx_id, &entry.call, is_warm));
                assert(operations_view(operations@) =~= seq![
                    access_list_write(entry.tx_id, entry.call.address, is_warm),
                ]);
                (operations, CallStage::Measuring { entry, is_warm })
            },
            (CallStage::Measuring { entry, is_warm }, Answer::MemoryWordSize(size)) => (
                callee_operations(&entry.call),
                CallStage::Transferring { entry, is_warm, curr_memory_word_size: size },
            ),
            (
                CallStage::Transferring { entry, is_warm, curr_memory_word_size },
                Answer::Account(account),
            ) => {
                let operations = account_operations(&entry.call, &account);
                match call_gas(
                    geth_step,
                    &entry.call,
                    is_warm,
                    account.is_empty,
                    curr_memory_word_size,
                ) {
                    Ok(gas) => {
                        if callee_gas_agrees(geth_steps, &gas) {
                            (operations, CallStage::Branching { entry, gas, account })
                        } else {
                            (operations, CallStage::Disagreeing { entry, gas })
                        }
                    },
                    Err(error) => (operations, CallStage::Failed { error }),
                }
            },
            (
                CallStage::Branching { entry, gas, account },
                Answer::Callee { is_precompiled, reversible_write_counter },
            ) => (
                closing_operations(
                    geth_step,
                    entry.tx_id,
                    &entry.current_call,
                    &entry.call,
                    &gas,
                    reversible_write_counter,
                    is_precompiled,
                    &account,
                ),
                CallStage::Done,
            ),
            _ => {
                let operations: Vec<Operation> = Vec::new();
                assert(operations_view(operations@) =~= Seq::<OperationView>::empty());
                (operations, *stage)
            },
        }
    }
}

} // verus!
