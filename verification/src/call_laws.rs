//! What holds of every run of a `CALL`.

use vstd::prelude::*;

use crate::call::{
    account_trace, call_gas_cost, callee_trace, caller_trace, caller_writes,
    closing_trace, context, gas_agrees, gas_fits, memory_arguments, minimal_length, next_memory_words,
    CallGas, CALL_ARGUMENTS,
};
use crate::call_run::{can_resume, first_stage, is_over, resumed, Answer, CallEntry, CallStage};
use crate::evm::{
    Account, CallContextField, CallFrame, GethExecStep, OperationView, Stack, RW, STACK_LIMIT,
};
use crate::gas::{law_memory_cost_adds, WARM_ACCESS};

verus! {

/// The operations of a run that got `answers`, and where it stands.
pub open spec fn run(geth_steps: Seq<GethExecStep>, answers: Seq<Answer>) -> (
    Seq<OperationView>,
    CallStage,
)
    decreases answers.len(),
{
    if answers.len() == 0 {
        first_stage(geth_steps)
    } else {
        let before = run(geth_steps, answers.drop_last());
        let batch = resumed(geth_steps, before.1, answers.last());
        (before.0 + batch.0, batch.1)
    }
}

/// With all its arguments on the stack, a call that gets its five answers comes to an
/// end, unless the trace disagrees on the gas of the callee. This holds of a trace that
/// ends with the call as well. Its operations are: the memory grows, the caller is read and the outcome
/// written, the access list is written, the callee becomes the current call and is
/// paid, its account is read, and the call is closed.
pub proof fn law_call_completes(
    geth_steps: Seq<GethExecStep>,
    entry: CallEntry,
    is_warm: bool,
    curr_memory_word_size: u64,
    account: Account,
    is_precompiled: bool,
    reversible_write_counter: usize,
)
    requires
        geth_steps.len() > 0,
        geth_steps[0].stack.words@.len() >= CALL_ARGUMENTS,
        geth_steps.len() >= 2 && geth_steps[1].depth == geth_steps[0].depth + 1
            ==> geth_steps[1].gas == CallGas::of(
            geth_steps[0],
            entry.call,
            is_warm,
            account.is_empty,
            curr_memory_word_size,
        ).callee_gas_left + if entry.call.value@ == 0 {
            0int
        } else {
            2300int
        },
    ensures
        ({
            let geth_step = geth_steps[0];
            let answers = seq![
                Answer::Entry(entry),
                Answer::IsWarm(is_warm),
                Answer::MemoryWordSize(curr_memory_word_size),
                Answer::Account(account),
                Answer::Callee { is_precompiled, reversible_write_counter },
            ];
            let gas = CallGas::of(
                geth_step,
                entry.call,
                is_warm,
                account.is_empty,
                curr_memory_word_size,
            );
            run(geth_steps, answers) == (
                seq![
                    OperationView::ExtendMemory {
                        length: minimal_length(geth_step.stack, memory_arguments(geth_step.op)),
                    },
                ] + caller_trace(
                    geth_step.stack,
                    entry.tx_id,
                    entry.current_call,
                    entry.call.is_success,
                ) + seq![
                    OperationView::AccessListAccount {
                        tx_id: entry.tx_id as nat,
                        address: entry.call.address,
                        is_warm: true,
                        is_warm_prev: is_warm,
                    },
                ]
                    + callee_trace(entry.call) + account_trace(entry.call.address, account)
                    + closing_trace(
                    geth_step,
                    entry.tx_id,
                    entry.current_call,
                    entry.call,
                    gas,
                    reversible_write_counter,
                    is_precompiled,
                    account,
                ),
                CallStage::Done,
            )
        }),
{
    let answers = seq![
        Answer::Entry(entry),
        Answer::IsWarm(is_warm),
        Answer::MemoryWordSize(curr_memory_word_size),
        Answer::Account(account),
        Answer::Callee { is_precompiled, reversible_write_counter },
    ];
    let a4 = answers.drop_last();
    let a3 = a4.drop_last();
    let a2 = a3.drop_last();
    let a1 = a2.drop_last();
    let a0 = a1.drop_last();
    assert(run(geth_steps, a0) == first_stage(geth_steps));
    assert(a1.last() == Answer::Entry(entry));
    assert(run(geth_steps, a1).1 == CallStage::Accessing { entry });
    assert(a2.last() == Answer::IsWarm(is_warm));
    assert(run(geth_steps, a2).1 == CallStage::Measuring { entry, is_warm });
    assert(a3.last() == Answer::MemoryWordSize(curr_memory_word_size));
    assert(run(geth_steps, a3).1 == CallStage::Transferring {
        entry,
        is_warm,
        curr_memory_word_size,
    });
    assert(a4.last() == Answer::Account(account));
    assert(run(geth_steps, a4).1 is Branching);
    assert(answers.last() == Answer::Callee { is_precompiled, reversible_write_counter });
}

/// A call whose trace ends with it runs to its end on the step and the answers alone:
/// such a trace agrees with any gas.
pub proof fn law_single_step_agrees(geth_steps: Seq<GethExecStep>, gas: CallGas)
    requires
        geth_steps.len() == 1,
    ensures
        gas_agrees(geth_steps, gas),
{
}

/// A call is completed only where the trace agrees on the gas of the callee: before
/// the last operations the run stood at its branches with that gas, and a next step
/// that is deeper starts with it, plus the stipend exactly where a value came along.
pub proof fn law_completed_call_agrees(geth_steps: Seq<GethExecStep>, answers: Seq<Answer>)
    requires
        run(geth_steps, answers).1 is Done,
    ensures
        exists|count: int|
            0 <= count < answers.len() && (#[trigger] run(
                geth_steps,
                answers.take(count),
            ).1 matches CallStage::Branching { entry, gas, account } && is_gas_of(
                geth_steps,
                entry.call,
                account.is_empty,
                gas,
            ) && gas.has_value == (entry.call.value@ != 0) && (geth_steps.len() >= 2
                && geth_steps[1].depth == geth_steps[0].depth + 1 ==> geth_steps[1].gas
                == gas.callee_gas_left + if entry.call.value@ == 0 {
                0int
            } else {
                2300int
            })),
    decreases answers.len(),
{
    let rest = answers.drop_last();
    let count = answers.len() - 1;
    assert(answers.take(count) =~= rest);
    law_branching_agrees(geth_steps, rest);
    if run(geth_steps, rest).1 is Done {
        law_completed_call_agrees(geth_steps, rest);
        let earlier = choose|earlier: int|
            0 <= earlier < rest.len() && (#[trigger] run(
                geth_steps,
                rest.take(earlier),
            ).1 matches CallStage::Branching { entry, gas, account } && is_gas_of(
                geth_steps,
                entry.call,
                account.is_empty,
                gas,
            ) && gas.has_value == (entry.call.value@ != 0) && (geth_steps.len() >= 2
                && geth_steps[1].depth == geth_steps[0].depth + 1 ==> geth_steps[1].gas
                == gas.callee_gas_left + if entry.call.value@ == 0 {
                0int
            } else {
                2300int
            }));
        assert(answers.take(earlier) =~= rest.take(earlier));
    }
}

/// Whether `gas` is what the call at the first step costs and hands over, for some
/// warmth of the callee's account and some size of the caller's memory.
pub open spec fn is_gas_of(
    geth_steps: Seq<GethExecStep>,
    call: CallFrame,
    is_account_empty: bool,
    gas: CallGas,
) -> bool {
    exists|is_warm: bool, size: u64|
        gas == #[trigger] CallGas::of(geth_steps[0], call, is_warm, is_account_empty, size)
}

/// Whenever a run stands at its branches, it has computed the gas of the call, and the
/// trace agrees on it; whenever it has stopped over that gas, the trace disagrees.
pub proof fn law_branching_agrees(geth_steps: Seq<GethExecStep>, answers: Seq<Answer>)
    ensures
        run(geth_steps, answers).1 matches CallStage::Branching { entry, gas, account } ==> {
            &&& is_gas_of(geth_steps, entry.call, account.is_empty, gas)
            &&& gas.has_value == (entry.call.value@ != 0)
            &&& geth_steps.len() >= 2 && geth_steps[1].depth == geth_steps[0].depth + 1
                ==> geth_steps[1].gas == gas.callee_gas_left + if entry.call.value@ == 0 {
                0int
            } else {
                2300int
            }
        },
        run(geth_steps, answers).1 matches CallStage::Disagreeing { entry, gas } ==> {
            &&& geth_steps.len() >= 2
            &&& geth_steps[1].depth == geth_steps[0].depth + 1
            &&& geth_steps[1].gas != gas.callee_gas_left + if entry.call.value@ == 0 {
                0int
            } else {
                2300int
            }
        },
    decreases answers.len(),
{
    if answers.len() > 0 {
        law_branching_agrees(geth_steps, answers.drop_last());
    }
}

/// With all its arguments on the stack, a call over whose gas the trace disagrees stops
/// once the callee's account is read: none of the last operations is given.
pub proof fn law_disagreeing_call_stops(
    geth_steps: Seq<GethExecStep>,
    entry: CallEntry,
    is_warm: bool,
    curr_memory_word_size: u64,
    account: Account,
)
    requires
        geth_steps.len() > 0,
        geth_steps[0].stack.words@.len() >= CALL_ARGUMENTS,
        geth_steps.len() >= 2,
        geth_steps[1].depth == geth_steps[0].depth + 1,
        geth_steps[1].gas != CallGas::of(
            geth_steps[0],
            entry.call,
            is_warm,
            account.is_empty,
            curr_memory_word_size,
        ).callee_gas_left + if entry.call.value@ == 0 {
            0int
        } else {
            2300int
        },
    ensures
        ({
            let geth_step = geth_steps[0];
            let answers = seq![
                Answer::Entry(entry),
                Answer::IsWarm(is_warm),
                Answer::MemoryWordSize(curr_memory_word_size),
                Answer::Account(account),
            ];
            let gas = CallGas::of(
                geth_step,
                entry.call,
                is_warm,
                account.is_empty,
                curr_memory_word_size,
            );
            run(geth_steps, answers) == (
                seq![
                    OperationView::ExtendMemory {
                        length: minimal_length(geth_step.stack, memory_arguments(geth_step.op)),
                    },
                ] + caller_trace(
                    geth_step.stack,
                    entry.tx_id,
                    entry.current_call,
                    entry.call.is_success,
                ) + seq![
                    OperationView::AccessListAccount {
                        tx_id: entry.tx_id as nat,
                        address: entry.call.address,
                        is_warm: true,
                        is_warm_prev: is_warm,
                    },
                ]
                    + callee_trace(entry.call) + account_trace(entry.call.address, account),
                CallStage::Disagreeing { entry, gas },
            )
        }),
{
    let answers = seq![
        Answer::Entry(entry),
        Answer::IsWarm(is_warm),
        Answer::MemoryWordSize(curr_memory_word_size),
        Answer::Account(account),
    ];
    let a3 = answers.drop_last();
    let a2 = a3.drop_last();
    let a1 = a2.drop_last();
    let a0 = a1.drop_last();
    assert(run(geth_steps, a0) == first_stage(geth_steps));
    assert(a1.last() == Answer::Entry(entry));
    assert(run(geth_steps, a1).1 == CallStage::Accessing { entry });
    assert(a2.last() == Answer::IsWarm(is_warm));
    assert(run(geth_steps, a2).1 == CallStage::Measuring { entry, is_warm });
    assert(a3.last() == Answer::MemoryWordSize(curr_memory_word_size));
    assert(run(geth_steps, a3).1 == CallStage::Transferring {
        entry,
        is_warm,
        curr_memory_word_size,
    });
    assert(answers.last() == Answer::Account(account));
}

/// The answer at `place` told, of the call in `entry`, whether its account was warm.
pub open spec fn answers_warmth(
    geth_steps: Seq<GethExecStep>,
    answers: Seq<Answer>,
    place: int,
    entry: CallEntry,
    is_warm: bool,
) -> bool {
    &&& 0 <= place < answers.len()
    &&& run(geth_steps, answers.take(place)).1 == (CallStage::Accessing { entry })
    &&& answers[place] == Answer::IsWarm(is_warm)
}

/// Only the answer on the warmth of the callee's account gives a write to the access
/// list.
proof fn lemma_access_batch(
    geth_steps: Seq<GethExecStep>,
    stage: CallStage,
    answer: Answer,
    j: int,
)
    requires
        0 <= j < resumed(geth_steps, stage, answer).0.len(),
        resumed(geth_steps, stage, answer).0[j] is AccessListAccount,
    ensures
        stage is Accessing,
        answer is IsWarm,
        resumed(geth_steps, stage, answer).0[j] == (OperationView::AccessListAccount {
            tx_id: stage->Accessing_entry.tx_id as nat,
            address: stage->Accessing_entry.call.address,
            is_warm: true,
            is_warm_prev: answer->IsWarm_0,
        }),
{
}

/// Every write to the access list in a run makes the account of the call warm, in the
/// transaction of the call, and carries as its warmth before what was answered for that
/// call. Every completed run holds such a write.
pub proof fn law_run_warms_callee(geth_steps: Seq<GethExecStep>, answers: Seq<Answer>)
    ensures
        forall|i: int|
            0 <= i < run(geth_steps, answers).0.len() && (#[trigger] run(
                geth_steps,
                answers,
            ).0[i]) is AccessListAccount ==> exists|place: int, entry: CallEntry, is_warm: bool|
                #[trigger] answers_warmth(geth_steps, answers, place, entry, is_warm) && run(
                    geth_steps,
                    answers,
                ).0[i] == (OperationView::AccessListAccount {
                    tx_id: entry.tx_id as nat,
                    address: entry.call.address,
                    is_warm: true,
                    is_warm_prev: is_warm,
                }),
        is_past_access(run(geth_steps, answers).1) ==> exists|
            place: int,
            entry: CallEntry,
            is_warm: bool,
        | #[trigger]
            answers_warmth(geth_steps, answers, place, entry, is_warm) && run(
                geth_steps,
                answers,
            ).0.contains(
                OperationView::AccessListAccount {
                    tx_id: entry.tx_id as nat,
                    address: entry.call.address,
                    is_warm: true,
                    is_warm_prev: is_warm,
                },
            ),
    decreases answers.len(),
{
    if answers.len() > 0 {
        let rest = answers.drop_last();
        law_run_warms_callee(geth_steps, rest);
        let before = run(geth_steps, rest);
        let batch = resumed(geth_steps, before.1, answers.last());
        let ops = run(geth_steps, answers).0;
        let last = answers.len() - 1;
        assert(answers.take(last) =~= rest);
        assert forall|place: int, entry: CallEntry, is_warm: bool| #[trigger]
            answers_warmth(geth_steps, rest, place, entry, is_warm) implies answers_warmth(
            geth_steps,
            answers,
            place,
            entry,
            is_warm,
        ) by {
            assert(answers.take(place) =~= rest.take(place));
        }
        assert forall|i: int| 0 <= i < ops.len() && (#[trigger] ops[i]) is AccessListAccount implies
            exists|place: int, entry: CallEntry, is_warm: bool| #[trigger]
            answers_warmth(geth_steps, answers, place, entry, is_warm) && ops[i] == (
        OperationView::AccessListAccount {
            tx_id: entry.tx_id as nat,
            address: entry.call.address,
            is_warm: true,
            is_warm_prev: is_warm,
        }) by {
            if i < before.0.len() {
                assert(ops[i] == before.0[i]);
                let (place, entry, is_warm) = choose|place: int, entry: CallEntry, is_warm: bool|
                    #[trigger] answers_warmth(geth_steps, rest, place, entry, is_warm)
                        && before.0[i] == (OperationView::AccessListAccount {
                        tx_id: entry.tx_id as nat,
                        address: entry.call.address,
                        is_warm: true,
                        is_warm_prev: is_warm,
                    });
                assert(answers_warmth(geth_steps, answers, place, entry, is_warm));
            } else {
                let j = i - before.0.len();
                assert(ops[i] == batch.0[j]);
                lemma_access_batch(geth_steps, before.1, answers.last(), j);
                let entry = before.1->Accessing_entry;
                let is_warm = answers.last()->IsWarm_0;
                assert(answers_warmth(geth_steps, answers, last, entry, is_warm));
            }
        }
        if is_past_access(run(geth_steps, answers).1) {
            if is_past_access(before.1) {
                let (place, entry, is_warm) = choose|place: int, entry: CallEntry, is_warm: bool|
                    #[trigger] answers_warmth(geth_steps, rest, place, entry, is_warm)
                        && before.0.contains(
                        OperationView::AccessListAccount {
                            tx_id: entry.tx_id as nat,
                            address: entry.call.address,
                            is_warm: true,
                            is_warm_prev: is_warm,
                        },
                    );
                let write = OperationView::AccessListAccount {
                    tx_id: entry.tx_id as nat,
                    address: entry.call.address,
                    is_warm: true,
                    is_warm_prev: is_warm,
                };
                let i = choose|i: int| 0 <= i < before.0.len() && before.0[i] == write;
                assert(ops[i] == write);
                assert(answers_warmth(geth_steps, answers, place, entry, is_warm));
            } else {
                if let (CallStage::Accessing { entry }, Answer::IsWarm(is_warm)) = (
                    before.1,
                    answers.last(),
                ) {
                    assert(answers_warmth(geth_steps, answers, last, entry, is_warm));
                    assert(ops[before.0.len() as int] == batch.0[0]);
                }
            }
        }
    }
}

/// The stages behind the write to the access list, on the way to the end of a call.
pub open spec fn is_past_access(stage: CallStage) -> bool {
    stage is Measuring || stage is Transferring || stage is Branching || stage is Disagreeing
        || stage is Done
}

/// Without all its arguments on the stack, a call never gets beyond its first stage,
/// whatever the answers: the access list, the accounts and the callee are not touched.
pub proof fn law_short_stack_stops(geth_steps: Seq<GethExecStep>, answers: Seq<Answer>)
    requires
        geth_steps.len() > 0,
        geth_steps[0].stack.words@.len() < CALL_ARGUMENTS,
    ensures
        run(geth_steps, answers).1 is Entering || run(geth_steps, answers).1 is Failed,
        forall|i: int|
            0 <= i < run(geth_steps, answers).0.len() ==> is_prelude(
                #[trigger] run(geth_steps, answers).0[i],
            ),
    decreases answers.len(),
{
    if answers.len() > 0 {
        law_short_stack_stops(geth_steps, answers.drop_last());
    }
}

/// Whether an operation only grows the memory or reads a context or the stack.
pub open spec fn is_prelude(operation: OperationView) -> bool {
    match operation {
        OperationView::ExtendMemory { .. } => true,
        OperationView::CallContext { rw, .. } => rw is READ,
        OperationView::Stack { rw, .. } => rw is READ,
        _ => false,
    }
}

/// Each answer can be worked on at the stage at which it comes.
pub open spec fn can_run(geth_steps: Seq<GethExecStep>, answers: Seq<Answer>) -> bool
    decreases answers.len(),
{
    answers.len() > 0 ==> {
        &&& can_run(geth_steps, answers.drop_last())
        &&& can_resume(geth_steps, run(geth_steps, answers.drop_last()).1, answers.last())
    }
}

/// Whenever a run waits to learn whether the callee is precompiled, the gas at the
/// step covers the call. It can then be closed whatever the answer, unless one of the
/// caller's counters is at its limit.
pub proof fn law_run_is_covered(
    geth_steps: Seq<GethExecStep>,
    answers: Seq<Answer>,
    is_precompiled: bool,
    reversible_write_counter: usize,
)
    requires
        geth_steps.len() > 0,
        can_run(geth_steps, answers),
    ensures
        run(geth_steps, answers).1 matches CallStage::Branching { gas, .. } ==> {
            &&& gas.is_covered_by(geth_steps[0])
            &&& geth_steps[0].stack.words@.len() <= STACK_LIMIT && geth_steps[0].pc < usize::MAX
                && reversible_write_counter < usize::MAX ==> can_resume(
                geth_steps,
                run(geth_steps, answers).1,
                Answer::Callee { is_precompiled, reversible_write_counter },
            )
        },
    decreases answers.len(),
{
    if answers.len() > 0 {
        let rest = answers.drop_last();
        law_run_is_covered(geth_steps, rest, is_precompiled, reversible_write_counter);
        match (run(geth_steps, rest).1, answers.last()) {
            (
                CallStage::Transferring { entry, is_warm, curr_memory_word_size },
                Answer::Account(account),
            ) => if geth_steps[0].stack.words@.len() > 0 {
                law_gas_is_covered(
                    geth_steps[0],
                    entry.call,
                    is_warm,
                    account.is_empty,
                    curr_memory_word_size,
                );
            },
            _ => {},
        }
    }
}

/// A run that is over gives no more operations and stays where it is.
pub proof fn law_over_stays_over(
    geth_steps: Seq<GethExecStep>,
    stage: CallStage,
    answer: Answer,
)
    requires
        is_over(stage),
    ensures
        resumed(geth_steps, stage, answer).0.len() == 0,
        resumed(geth_steps, stage, answer).1 == stage,
{
}

/// The gas that is computed for a call fits in its fields, and is covered by the gas
/// at the step.
pub proof fn law_gas_is_covered(
    geth_step: GethExecStep,
    call: CallFrame,
    is_warm: bool,
    is_account_empty: bool,
    curr_memory_word_size: u64,
)
    requires
        gas_fits(geth_step, call, is_warm, is_account_empty, curr_memory_word_size),
        geth_step.stack.words@.len() > 0,
    ensures
        ({
            let gas = CallGas::of(
                geth_step,
                call,
                is_warm,
                is_account_empty,
                curr_memory_word_size,
            );
            &&& gas.is_covered_by(geth_step)
            &&& gas.gas_cost == call_gas_cost(
                call,
                is_warm,
                is_account_empty,
                curr_memory_word_size as nat,
            )
            &&& gas.gas_cost >= WARM_ACCESS
            &&& gas.next_memory_word_size == next_memory_words(call, curr_memory_word_size as nat)
        }),
{
    let next = next_memory_words(call, curr_memory_word_size as nat);
    law_memory_cost_adds(curr_memory_word_size as nat, next, next);
    assert(next <= u64::MAX) by (nonlinear_arith)
        requires
            next * next <= u64::MAX,
    ;
}

/// The gas at a step is shared out: what the call costs, what the callee gets and
/// what the caller is left with add up to it. The callee gets no more than it was
/// promised, and the caller keeps a 64th of what it had after paying.
pub proof fn law_gas_is_shared_out(
    geth_step: GethExecStep,
    current_call: CallFrame,
    call: CallFrame,
    is_warm: bool,
    is_account_empty: bool,
    curr_memory_word_size: u64,
    reversible_write_counter: usize,
)
    requires
        gas_fits(geth_step, call, is_warm, is_account_empty, curr_memory_word_size),
        geth_step.stack.words@.len() > 0,
    ensures
        ({
            let gas = CallGas::of(
                geth_step,
                call,
                is_warm,
                is_account_empty,
                curr_memory_word_size,
            );
            let left = (geth_step.gas - gas.gas_cost - gas.callee_gas_left) as nat;
            &&& caller_writes(geth_step, current_call, gas, reversible_write_counter).contains(
                context(RW::WRITE, current_call.call_id, CallContextField::GasLeft, left),
            )
            &&& gas.gas_cost + gas.callee_gas_left + left == geth_step.gas
            &&& gas.callee_gas_left <= geth_step.stack.at(0)
            &&& left >= (geth_step.gas - gas.gas_cost) / 64
            &&& geth_step.stack.at(0) >= geth_step.gas ==> left == (geth_step.gas - gas.gas_cost)
                / 64
        }),
{
    law_gas_is_covered(geth_step, call, is_warm, is_account_empty, curr_memory_word_size);
    let gas = CallGas::of(geth_step, call, is_warm, is_account_empty, curr_memory_word_size);
    let left = (geth_step.gas - gas.gas_cost - gas.callee_gas_left) as nat;
    let writes = caller_writes(geth_step, current_call, gas, reversible_write_counter);
    assert(writes[2] == context(
        RW::WRITE,
        current_call.call_id,
        CallContextField::GasLeft,
        left,
    ));
}

/// The memory never shrinks, and holds the arguments and the return data of the call.
pub proof fn law_memory_covers_call(call: CallFrame, curr_memory_word_size: nat)
    ensures
        ({
            let next = next_memory_words(call, curr_memory_word_size);
            &&& next >= curr_memory_word_size
            &&& 32 * next >= call.call_data_offset + call.call_data_length
            &&& 32 * next >= call.return_data_offset + call.return_data_length
            &&& next == curr_memory_word_size || 32 * (next - 1) < call.call_data_offset
                + call.call_data_length || 32 * (next - 1) < call.return_data_offset
                + call.return_data_length
        }),
{
}

/// The memory that a call asks for holds both regions that are not empty, and is no
/// larger than one of them asks for.
pub proof fn law_minimal_length_covers_regions(stack: Stack, first: int)
    ensures
        ({
            let length = minimal_length(stack, first);
            &&& stack.at(first + 1) != 0 ==> length >= stack.at(first) + stack.at(first + 1)
            &&& stack.at(first + 3) != 0 ==> length >= stack.at(first + 2) + stack.at(first + 3)
            &&& length == 0 || (stack.at(first + 1) != 0 && length == stack.at(first) + stack.at(
                first + 1,
            )) || (stack.at(first + 3) != 0 && length == stack.at(first + 2) + stack.at(first + 3))
            &&& stack.at(first + 1) == 0 && stack.at(first + 3) == 0 ==> length == 0
        }),
{
}

/// Each argument of a call is read from an address of its own. The outcome is written to
/// the address of the last one: 1 where the call succeeds, 0 where it fails. The stack
/// pointer that is saved points to it.
pub proof fn law_outcome_replaces_last_argument(
    geth_step: GethExecStep,
    current_call: CallFrame,
    tx_id: usize,
    is_success: bool,
    gas: CallGas,
    reversible_write_counter: usize,
)
    requires
        CALL_ARGUMENTS <= geth_step.stack.words@.len() <= STACK_LIMIT,
    ensures
        ({
            let trace = caller_trace(geth_step.stack, tx_id, current_call, is_success);
            let bottom = (geth_step.stack.address_of(0) + 6) as nat;
            &&& trace.len() == 14
            &&& forall|nth: int|
                0 <= nth < 7 ==> #[trigger] trace[6 + nth] == (OperationView::Stack {
                    rw: RW::READ,
                    address: (geth_step.stack.address_of(0) + nth) as nat,
                    value: geth_step.stack.at(nth),
                })
            &&& trace[13] == (OperationView::Stack {
                rw: RW::WRITE,
                address: bottom,
                value: if is_success {
                    1
                } else {
                    0
                },
            })
            &&& bottom < STACK_LIMIT
            &&& caller_writes(geth_step, current_call, gas, reversible_write_counter)[1]
                == context(RW::WRITE, current_call.call_id, CallContextField::StackPointer, bottom)
        }),
{
}

} // verus!
