use rho_call::call::{
    call_gas, call_gas_fits, call_memory_fits, call_reconstruct_memory, callee_gas_agrees,
    is_without_code, EMPTY_HASH,
};
use rho_call::call_run::{Answer, Call, CallEntry, CallStage};
use rho_call::evm::{
    Account, AccountField, CallContextField, CallFrame, Error, GethExecStep, OpcodeId, Operation,
    Stack, RW,
};
use rho_call::gas::{eip150_gas, memory_expansion_gas_cost};
use rho_call::word::{Address, Word, H256};

fn word(value: u64) -> Word {
    Word::from_u64(value)
}

fn huge() -> Word {
    let mut bytes = [0; 32];
    bytes[0] = 1;
    Word { bytes }
}

fn number(word: &Word) -> u64 {
    word.to_u64().unwrap()
}

fn address(last: u8) -> Address {
    let mut bytes = [0; 20];
    bytes[19] = last;
    Address { bytes }
}

/// A step whose stack holds `words`, the topmost first.
fn step(op: OpcodeId, gas: u64, depth: u16, words: &[Word]) -> GethExecStep {
    let words = words.iter().rev().copied().collect();
    GethExecStep { pc: 10, op, gas, depth, stack: Stack { words } }
}

/// gas, address, value, then the two regions of memory
fn arguments(gas: Word) -> Vec<Word> {
    vec![gas, word(0xaa), word(1), word(64), word(32), word(0), word(100)]
}

fn frame(call_id: usize) -> CallFrame {
    CallFrame {
        call_id,
        caller_address: address(0xcc),
        address: address(0xaa),
        code_hash: H256 { bytes: [7; 32] },
        depth: 2,
        value: word(1),
        call_data_offset: 64,
        call_data_length: 32,
        return_data_offset: 0,
        return_data_length: 100,
        is_persistent: true,
        is_success: true,
        is_static: false,
    }
}

fn entry() -> CallEntry {
    let caller = CallFrame { call_id: 5, depth: 1, address: address(0xcc), ..frame(0) };
    CallEntry { tx_id: 3, call: frame(6), current_call: caller }
}

fn account(code_hash: [u8; 32]) -> Account {
    Account { is_empty: false, nonce: word(4), code_hash: H256 { bytes: code_hash } }
}

fn closing(is_precompiled: bool) -> Answer {
    Answer::Callee { is_precompiled, reversible_write_counter: 8 }
}

/// Runs a call through all its answers.
fn run(steps: &[GethExecStep], code_hash: [u8; 32], is_precompiled: bool) -> Vec<Operation> {
    let (mut operations, mut stage) = Call.gen_associated_ops(steps);
    for answer in [
        Answer::Entry(entry()),
        Answer::IsWarm(true),
        Answer::MemoryWordSize(2),
        Answer::Account(account(code_hash)),
        closing(is_precompiled),
    ] {
        assert!(Call.can_resume(steps, &stage, &answer));
        let (more, after) = Call.resume(steps, &stage, &answer);
        operations.extend(more);
        stage = after;
    }
    assert!(matches!(stage, CallStage::Done));
    operations
}

fn steps() -> Vec<GethExecStep> {
    vec![
        step(OpcodeId::CALL, 100_000, 1, &arguments(word(50_000))),
        step(OpcodeId::Other(0), 52_300, 2, &[]),
    ]
}

fn context(operation: &Operation) -> (RW, usize, CallContextField, u64) {
    match operation {
        Operation::CallContext { rw, call_id, field, value } => {
            (*rw, *call_id, *field, number(value))
        }
        _ => panic!("not an operation on a context"),
    }
}

#[test]
fn words() {
    for value in [0, 1, 255, 256, u64::MAX] {
        assert_eq!(word(value).to_u64(), Some(value));
        assert_eq!(word(value).to_usize(), Some(value as usize));
    }
    assert_eq!(word(0x0102).bytes[30..], [1, 2]);
    assert!(word(0).is_zero());
    assert!(!word(256).is_zero());
    assert!(!huge().is_zero());
    assert_eq!(huge().to_u64(), None);
    assert_eq!(huge().to_usize(), None);
    let mut bytes = [0; 32];
    bytes[23] = 1;
    assert_eq!(Word { bytes }.to_u64(), None);
}

#[test]
fn addresses_and_hashes_become_words() {
    let padded = Address { bytes: [9; 20] }.to_word();
    assert_eq!(padded.bytes[..12], [0; 12]);
    assert_eq!(padded.bytes[12..], [9; 20]);
    assert_eq!(number(&address(0xaa).to_word()), 0xaa);
    assert_eq!(H256 { bytes: [7; 32] }.to_word().bytes, [7; 32]);
    assert!(H256 { bytes: [7; 32] }.equals(&H256 { bytes: [7; 32] }));
    assert!(!H256 { bytes: [7; 32] }.equals(&H256 { bytes: EMPTY_HASH }));
}

#[test]
fn stack_access() {
    let stack = Stack { words: vec![word(3), word(2), word(1)] };
    assert_eq!(number(&stack.nth_last(0).unwrap()), 1);
    assert_eq!(number(&stack.nth_last(2).unwrap()), 3);
    assert_eq!(stack.nth_last(3).unwrap_err(), Error::InvalidStackPointer);
    assert_eq!(number(&stack.last().unwrap()), 1);
    assert_eq!(stack.nth_last_filled(0), 1021);
    assert_eq!(stack.nth_last_filled(3), 1024);
    assert_eq!(stack.stack_pointer(), 1021);
    assert_eq!(Stack { words: vec![] }.last().unwrap_err(), Error::InvalidStackPointer);
}

#[test]
fn memory_expansion() {
    assert_eq!(memory_expansion_gas_cost(0, 0), 0);
    assert_eq!(memory_expansion_gas_cost(0, 1), 3);
    assert_eq!(memory_expansion_gas_cost(0, 32), 98);
    assert_eq!(memory_expansion_gas_cost(10, 10), 0);
    assert_eq!(memory_expansion_gas_cost(32, 1024), 2976 + 2048 - 2);
    assert_eq!(
        memory_expansion_gas_cost(5, 100),
        memory_expansion_gas_cost(5, 40) + memory_expansion_gas_cost(40, 100)
    );
}

#[test]
fn callee_gas_is_capped() {
    assert_eq!(eip150_gas(6400, &word(100)), 100);
    assert_eq!(eip150_gas(6400, &word(6300)), 6300);
    assert_eq!(eip150_gas(6400, &word(6301)), 6300);
    assert_eq!(eip150_gas(63, &word(1000)), 63);
    assert_eq!(eip150_gas(6400, &huge()), 6300);
    assert_eq!(eip150_gas(0, &huge()), 0);
}

#[test]
fn memory_for_both_regions() {
    let call = [step(OpcodeId::CALL, 0, 1, &arguments(word(0)))];
    assert!(call_memory_fits(&call[0]));
    assert_eq!(call_reconstruct_memory(&call), Ok(100));

    let mut words = arguments(word(0));
    words[6] = word(0);
    let callcode = [step(OpcodeId::CALLCODE, 0, 1, &words)];
    assert_eq!(call_reconstruct_memory(&callcode), Ok(96));

    // an empty region asks for nothing, wherever it stands
    words[4] = word(0);
    words[5] = word(1 << 40);
    let empty = [step(OpcodeId::CALL, 0, 1, &words)];
    assert_eq!(call_reconstruct_memory(&empty), Ok(0));
}

#[test]
fn memory_arguments_without_value() {
    for op in [OpcodeId::DELEGATECALL, OpcodeId::STATICCALL] {
        let words = [word(0), word(0xaa), word(10), word(20), word(40), word(2)];
        let steps = [step(op, 0, 1, &words)];
        assert_eq!(call_reconstruct_memory(&steps), Ok(42));
        let short = [step(op, 0, 1, &words[..5])];
        assert_eq!(call_reconstruct_memory(&short), Err(Error::InvalidStackPointer));
    }
    let short = [step(OpcodeId::CALL, 0, 1, &arguments(word(0))[..6])];
    assert_eq!(call_reconstruct_memory(&short), Err(Error::InvalidStackPointer));
}

#[test]
fn memory_that_cannot_be_addressed() {
    let mut words = arguments(word(0));
    words[3] = huge();
    assert!(!call_memory_fits(&step(OpcodeId::CALL, 0, 1, &words)));
    words[3] = word(u64::MAX);
    assert!(!call_memory_fits(&step(OpcodeId::CALL, 0, 1, &words)));
    words[4] = word(0);
    assert!(call_memory_fits(&step(OpcodeId::CALL, 0, 1, &words)));
    words[0] = huge();
    assert!(call_memory_fits(&step(OpcodeId::CALL, 0, 1, &words)));
    assert!(!Call.can_start(&[]));
    assert!(!Call.can_start(&[step(OpcodeId::Other(1), 0, 1, &words)]));
    assert!(Call.can_start(&[step(OpcodeId::CALL, 0, 1, &words)]));
}

#[test]
fn gas_of_a_warm_call_with_value() {
    // memory grows from 2 to 4 words
    let gas = call_gas(&steps()[0], &frame(6), true, false, 2).unwrap();
    assert_eq!(gas.next_memory_word_size, 4);
    assert!(gas.has_value);
    assert_eq!(gas.gas_cost, 100 + 9000 + 6);
    assert_eq!(gas.callee_gas_left, 50_000);
}

#[test]
fn gas_of_a_cold_call_to_a_new_account() {
    let caller = step(OpcodeId::CALL, 100_000, 1, &arguments(huge()));
    let gas = call_gas(&caller, &frame(6), false, true, 9).unwrap();
    assert_eq!(gas.next_memory_word_size, 9);
    assert_eq!(gas.gas_cost, 2600 + 9000 + 25000);
    let left: u64 = 100_000 - 36_600;
    assert_eq!(gas.callee_gas_left, left - left / 64);
    // the caller keeps a 64th
    assert_eq!(100_000 - gas.gas_cost - gas.callee_gas_left, left / 64);
}

#[test]
fn gas_of_a_call_without_value() {
    let call = CallFrame { value: word(0), ..frame(6) };
    let gas = call_gas(&steps()[0], &call, false, true, 4).unwrap();
    assert!(!gas.has_value);
    assert_eq!(gas.gas_cost, 2600);
}

#[test]
fn gas_that_cannot_be_computed() {
    let poor = step(OpcodeId::CALL, 9105, 1, &arguments(word(0)));
    assert!(!call_gas_fits(&poor, &frame(6), true, false, 2));
    let rich = step(OpcodeId::CALL, 9106, 1, &arguments(word(0)));
    assert!(call_gas_fits(&rich, &frame(6), true, false, 2));
    let wide = CallFrame { call_data_offset: u64::MAX, ..frame(6) };
    assert!(!call_gas_fits(&steps()[0], &wide, true, false, 2));
    assert!(!call_gas_fits(&steps()[0], &frame(6), true, false, 1 << 32));
    let empty = step(OpcodeId::CALL, 0, 1, &[]);
    assert!(call_gas_fits(&empty, &frame(6), true, false, 2));
    assert_eq!(
        call_gas(&empty, &frame(6), true, false, 2).unwrap_err(),
        Error::InvalidStackPointer
    );
}

#[test]
fn next_step_and_gas_of_the_callee() {
    let gas = call_gas(&steps()[0], &frame(6), true, false, 2).unwrap();
    assert!(callee_gas_agrees(&steps(), &gas));
    let mut other = steps();
    other[1].gas = 50_000;
    assert!(!callee_gas_agrees(&other, &gas));
    // there is no next step
    assert!(callee_gas_agrees(&other[..1], &gas));
    // the next step is not the callee's
    other[1].depth = 1;
    assert!(callee_gas_agrees(&other, &gas));
}

#[test]
fn accounts_without_code() {
    assert!(is_without_code(&account(EMPTY_HASH)));
    assert!(!is_without_code(&account([0; 32])));
}

#[test]
fn call_to_an_account_with_code() {
    let operations = run(&steps(), [7; 32], false);
    assert_eq!(operations.len(), 1 + 14 + 1 + 4 + 2 + 5 + 18);

    assert!(matches!(operations[0], Operation::ExtendMemory { length: 100 }));
    let reads: Vec<_> = operations[1..7].iter().map(|operation| context(operation)).collect();
    assert_eq!(
        reads,
        vec![
            (RW::READ, 5, CallContextField::TxId, 3),
            (RW::READ, 5, CallContextField::RwCounterEndOfReversion, 0),
            (RW::READ, 5, CallContextField::IsPersistent, 1),
            (RW::READ, 5, CallContextField::CalleeAddress, 0xcc),
            (RW::READ, 5, CallContextField::IsStatic, 0),
            (RW::READ, 5, CallContextField::Depth, 1),
        ]
    );
    let expected = [50_000, 0xaa, 1, 64, 32, 0, 100];
    for (nth, expected) in expected.iter().enumerate() {
        match &operations[7 + nth] {
            Operation::Stack { rw: RW::READ, address, value } => {
                assert_eq!((*address, number(value)), (1017 + nth, *expected));
            }
            _ => panic!("not a read of the stack"),
        }
    }
    match &operations[14] {
        Operation::Stack { rw: RW::WRITE, address, value } => {
            assert_eq!((*address, number(value)), (1023, 1));
        }
        _ => panic!("not a write to the stack"),
    }
    match &operations[15] {
        Operation::AccessListAccount { tx_id, address, is_warm, is_warm_prev } => {
            assert_eq!((*tx_id, address.bytes[19]), (3, 0xaa));
            assert!(*is_warm && *is_warm_prev);
        }
        _ => panic!("not a write to the access list"),
    }
    assert!(matches!(&operations[16], Operation::PushCall { call } if call.call_id == 6));
    assert_eq!(
        context(&operations[17]),
        (RW::READ, 6, CallContextField::RwCounterEndOfReversion, 0)
    );
    assert_eq!(context(&operations[18]), (RW::READ, 6, CallContextField::IsPersistent, 1));
    match &operations[19] {
        Operation::Transfer { from, to, value } => {
            assert_eq!((from.bytes[19], to.bytes[19], number(value)), (0xcc, 0xaa, 1));
        }
        _ => panic!("not a transfer"),
    }
    match &operations[20] {
        Operation::AccountRead { address, field, value, value_prev } => {
            assert_eq!((address.bytes[19], *field), (0xaa, AccountField::Nonce));
            assert_eq!((number(value), number(value_prev)), (4, 4));
        }
        _ => panic!("not a read of an account"),
    }
    match &operations[21] {
        Operation::AccountRead { field, value, value_prev, .. } => {
            assert_eq!(*field, AccountField::CodeHash);
            assert_eq!((value.bytes, value_prev.bytes), ([7; 32], [7; 32]));
        }
        _ => panic!("not a read of an account"),
    }
    let writes: Vec<_> = operations[22..27].iter().map(|operation| context(operation)).collect();
    assert_eq!(
        writes,
        vec![
            (RW::WRITE, 5, CallContextField::ProgramCounter, 11),
            (RW::WRITE, 5, CallContextField::StackPointer, 1023),
            (RW::WRITE, 5, CallContextField::GasLeft, 100_000 - 9106 - 50_000),
            (RW::WRITE, 5, CallContextField::MemorySize, 4),
            (RW::WRITE, 5, CallContextField::ReversibleWriteCounter, 9),
        ]
    );
    let set_up: Vec<_> = operations[27..44].iter().map(|operation| context(operation)).collect();
    assert_eq!(
        set_up,
        vec![
            (RW::READ, 6, CallContextField::CallerId, 5),
            (RW::READ, 6, CallContextField::TxId, 3),
            (RW::READ, 6, CallContextField::Depth, 2),
            (RW::READ, 6, CallContextField::CallerAddress, 0xcc),
            (RW::READ, 6, CallContextField::CalleeAddress, 0xaa),
            (RW::READ, 6, CallContextField::CallDataOffset, 64),
            (RW::READ, 6, CallContextField::CallDataLength, 32),
            (RW::READ, 6, CallContextField::ReturnDataOffset, 0),
            (RW::READ, 6, CallContextField::ReturnDataLength, 100),
            (RW::READ, 6, CallContextField::Value, 1),
            (RW::READ, 6, CallContextField::IsSuccess, 1),
            (RW::READ, 6, CallContextField::IsStatic, 0),
            (RW::READ, 6, CallContextField::LastCalleeId, 0),
            (RW::READ, 6, CallContextField::LastCalleeReturnDataOffset, 0),
            (RW::READ, 6, CallContextField::LastCalleeReturnDataLength, 0),
            (RW::READ, 6, CallContextField::IsRoot, 0),
            (RW::READ, 6, CallContextField::IsCreate, 0),
        ]
    );
    match &operations[44] {
        Operation::CallContext { field: CallContextField::CodeHash, value, .. } => {
            assert_eq!(value.bytes, [7; 32]);
        }
        _ => panic!("not the code hash"),
    }
}

#[test]
fn call_to_a_precompiled_contract() {
    for code_hash in [EMPTY_HASH, [7; 32]] {
        let operations = run(&steps(), code_hash, true);
        assert_eq!(operations.len(), 1 + 14 + 1 + 4 + 2 + 1);
        assert!(matches!(operations[22], Operation::HandleReturn));
    }
}

#[test]
fn call_to_an_account_without_code() {
    let operations = run(&steps(), EMPTY_HASH, false);
    assert_eq!(operations.len(), 1 + 14 + 1 + 4 + 2 + 4);
    let writes: Vec<_> = operations[22..25].iter().map(|operation| context(operation)).collect();
    assert_eq!(
        writes,
        vec![
            (RW::WRITE, 5, CallContextField::LastCalleeId, 0),
            (RW::WRITE, 5, CallContextField::LastCalleeReturnDataOffset, 0),
            (RW::WRITE, 5, CallContextField::LastCalleeReturnDataLength, 0),
        ]
    );
    assert!(matches!(operations[25], Operation::HandleReturn));
}

#[test]
fn a_short_stack_stops_the_call() {
    let none = [step(OpcodeId::CALL, 0, 1, &arguments(word(0))[..6])];
    let (operations, stage) = Call.gen_associated_ops(&none);
    assert!(operations.is_empty());
    assert!(matches!(stage, CallStage::Failed { error: Error::InvalidStackPointer }));

    // six words are enough for the memory of a delegate call, not for the call
    let words = [word(0), word(0xaa), word(10), word(20), word(40), word(2)];
    let six = [step(OpcodeId::DELEGATECALL, 0, 1, &words)];
    let (operations, stage) = Call.gen_associated_ops(&six);
    assert_eq!(operations.len(), 1);
    let (operations, stage) = Call.resume(&six, &stage, &Answer::Entry(entry()));
    assert_eq!(operations.len(), 12);
    assert!(matches!(stage, CallStage::Failed { error: Error::InvalidStackPointer }));
}

#[test]
fn answers_out_of_order_change_nothing() {
    let steps = steps();
    let (_, stage) = Call.gen_associated_ops(&steps);
    let (operations, stage) = Call.resume(&steps, &stage, &Answer::IsWarm(true));
    assert!(operations.is_empty());
    assert!(matches!(stage, CallStage::Entering));
    for over in [CallStage::Done, CallStage::Failed { error: Error::InvalidStackPointer }] {
        let (operations, after) = Call.resume(&steps, &over, &Answer::Entry(entry()));
        assert!(operations.is_empty());
        assert_eq!(matches!(after, CallStage::Done), matches!(over, CallStage::Done));
    }
}

#[test]
fn a_run_stops_where_the_trace_disagrees() {
    for (gas, agrees) in [(52_300, true), (52_301, false)] {
        let mut steps = steps();
        steps[1].gas = gas;
        let stage = CallStage::Transferring {
            entry: entry(),
            is_warm: true,
            curr_memory_word_size: 2,
        };
        let answer = Answer::Account(account([7; 32]));
        let (operations, stage) = Call.resume(&steps, &stage, &answer);
        assert_eq!(operations.len(), 2);
        if agrees {
            assert!(matches!(stage, CallStage::Branching { .. }));
        } else {
            assert!(matches!(
                stage,
                CallStage::Disagreeing { gas, .. } if gas.callee_gas_left == 50_000
            ));
            let (operations, after) = Call.resume(&steps, &stage, &closing(false));
            assert!(operations.is_empty());
            assert!(matches!(after, CallStage::Disagreeing { .. }));
        }
    }
}

#[test]
fn a_call_at_the_end_of_the_trace() {
    let steps = &steps()[..1];
    assert_eq!(run(steps, EMPTY_HASH, false).len(), 1 + 14 + 1 + 4 + 2 + 4);
    let operations = run(steps, [7; 32], false);
    assert_eq!(operations.len(), 1 + 14 + 1 + 4 + 2 + 5 + 18);
    assert_eq!(
        context(&operations[24]),
        (RW::WRITE, 5, CallContextField::GasLeft, 100_000 - 9106 - 50_000)
    );
    assert_eq!(context(&operations[25]), (RW::WRITE, 5, CallContextField::MemorySize, 4));
}

#[test]
fn a_run_that_cannot_go_on() {
    let stage = CallStage::Transferring {
        entry: entry(),
        is_warm: true,
        curr_memory_word_size: 2,
    };
    let answer = Answer::Account(account([7; 32]));
    assert!(Call.can_resume(&steps(), &stage, &answer));
    // a step after the call is not needed
    assert!(Call.can_resume(&steps()[..1], &stage, &answer));
    // the depth of the call cannot grow
    let mut deep = steps();
    deep[0].depth = u16::MAX;
    assert!(!Call.can_resume(&deep, &stage, &answer));
    assert!(Call.can_resume(&deep[..1], &stage, &answer));
    // too little gas
    let mut poor = steps();
    poor[0].gas = 9105;
    assert!(!Call.can_resume(&poor, &stage, &answer));
    // the program counter cannot go on
    let mut end = steps();
    end[0].pc = usize::MAX;
    let gas = call_gas(&end[0], &frame(6), true, false, 2).unwrap();
    let stage = |code_hash| CallStage::Branching {
        entry: entry(),
        gas,
        account: account(code_hash),
    };
    assert!(!Call.can_resume(&end, &stage([7; 32]), &closing(false)));
    assert!(Call.can_resume(&end, &stage([7; 32]), &closing(true)));
    assert!(Call.can_resume(&end, &stage(EMPTY_HASH), &closing(false)));
    // the write counter cannot go on
    let answer = Answer::Callee { is_precompiled: false, reversible_write_counter: usize::MAX };
    assert!(!Call.can_resume(&steps(), &stage([7; 32]), &answer));
    assert!(Call.can_resume(&steps(), &stage([7; 32]), &closing(false)));
}
