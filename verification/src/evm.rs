//! What the execution trace of a call holds, and the operations that it gives rise
//! to.

use vstd::prelude::*;

use crate::word::{Address, H256, Word};

verus! {

/// Why an operation could not be derived from a trace.
#[derive(Debug, Clone, Copy, PartialEq, Eq, Structural)]
pub enum Error {
    /// The stack holds too few words.
    InvalidStackPointer,
}

/// The number of words that an EVM stack can hold.
pub const STACK_LIMIT: usize = 1024;

/// An opcode, as far as calls tell it apart.
#[derive(Debug, Clone, Copy, PartialEq, Eq, Structural)]
pub enum OpcodeId {
    CALL,
    CALLCODE,
    DELEGATECALL,
    STATICCALL,
    Other(u8),
}

/// An EVM stack. The last word is on top.
#[derive(Debug)]
pub struct Stack {
    pub words: Vec<Word>,
}

impl Stack {
    /// The word at depth `nth`.
    pub open spec fn at(self, nth: int) -> nat {
        self.words@[self.words@.len() - 1 - nth]@
    }

    /// The address of the word at depth `nth`, where the bottom of the stack has the
    /// highest one.
    pub open spec fn address_of(self, nth: int) -> int {
        STACK_LIMIT - self.words@.len() + nth
    }

    /// The word at depth `nth`, counted from the top.
    pub fn nth_last(&self, nth: usize) -> (word: Result<Word, Error>)
        ensures
            match word {
                Ok(word) => nth < self.words@.len() && word == self.words@[self.words@.len() - 1
                    - nth] && word@ == self.at(nth as int),
                Err(error) => nth >= self.words@.len() && error == Error::InvalidStackPointer,
            },
    {
        let len: usize = self.words.len();
        if nth < len {
            Ok(self.words[len - 1 - nth])
        } else {
            Err(Error::InvalidStackPointer)
        }
    }

    /// The word on top.
    pub fn last(&self) -> (word: Result<Word, Error>)
        ensures
            match word {
                Ok(word) => self.words@.len() > 0 && word@ == self.at(0),
                Err(error) => self.words@.len() == 0 && error == Error::InvalidStackPointer,
            },
    {
        self.nth_last(0)
    }

    /// The address of the word at depth `nth`.
    pub fn nth_last_filled(&self, nth: usize) -> (address: usize)
        requires
            self.words@.len() <= STACK_LIMIT,
            nth <= self.words@.len(),
        ensures
            address == self.address_of(nth as int),
    {
        STACK_LIMIT - (self.words.len() - nth)
    }

    /// The address of the word on top.
    pub fn stack_pointer(&self) -> (address: usize)
        requires
            self.words@.len() <= STACK_LIMIT,
        ensures
            address == self.address_of(0),
    {
        STACK_LIMIT - self.words.len()
    }
}

/// One step of an execution trace.
#[derive(Debug)]
pub struct GethExecStep {
    pub pc: usize,
    pub op: OpcodeId,
    pub gas: u64,
    pub depth: u16,
    pub stack: Stack,
}

/// What is known of a call.
#[derive(Debug, Clone, Copy)]
pub struct CallFrame {
    pub call_id: usize,
    pub caller_address: Address,
    pub address: Address,
    pub code_hash: H256,
    pub depth: usize,
    pub value: Word,
    pub call_data_offset: u64,
    pub call_data_length: u64,
    pub return_data_offset: u64,
    pub return_data_length: u64,
    pub is_persistent: bool,
    pub is_success: bool,
    pub is_static: bool,
}

/// What is known of an account.
#[derive(Debug, Clone, Copy)]
pub struct Account {
    pub is_empty: bool,
    pub nonce: Word,
    pub code_hash: H256,
}

/// Whether an operation reads or writes.
#[derive(Debug, Clone, Copy, PartialEq, Eq, Structural)]
pub enum RW {
    READ,
    WRITE,
}

/// A field of a call's context.
#[derive(Debug, Clone, Copy, PartialEq, Eq, Structural)]
pub enum CallContextField {
    RwCounterEndOfReversion,
    CallerId,
    TxId,
    Depth,
    CallerAddress,
    CalleeAddress,
    CallDataOffset,
    CallDataLength,
    ReturnDataOffset,
    ReturnDataLength,
    Value,
    IsSuccess,
    IsPersistent,
    IsStatic,
    LastCalleeId,
    LastCalleeReturnDataOffset,
    LastCalleeReturnDataLength,
    IsRoot,
    IsCreate,
    CodeHash,
    ProgramCounter,
    StackPointer,
    GasLeft,
    MemorySize,
    ReversibleWriteCounter,
}

/// A field of an account.
#[derive(Debug, Clone, Copy, PartialEq, Eq, Structural)]
pub enum AccountField {
    Nonce,
    CodeHash,
}

/// One operation on the state of the circuit input.
#[derive(Debug, Clone, Copy)]
pub enum Operation {
    /// Grows the memory of the current call to at least `length` bytes.
    ExtendMemory { length: usize },
    /// Reads or writes a field of a call's context.
    CallContext { rw: RW, call_id: usize, field: CallContextField, value: Word },
    /// Reads or writes a word of the stack.
    Stack { rw: RW, address: usize, value: Word },
    /// Writes an entry of the access list, to be undone where the call is reverted.
    AccessListAccount { tx_id: usize, address: Address, is_warm: bool, is_warm_prev: bool },
    /// Makes a call the current one.
    PushCall { call: CallFrame },
    /// Moves a value between two accounts.
    Transfer { from: Address, to: Address, value: Word },
    /// Reads a field of an account.
    AccountRead { address: Address, field: AccountField, value: Word, value_prev: Word },
    /// Ends the current call.
    HandleReturn,
}

/// An operation with its words as numbers.
pub enum OperationView {
    ExtendMemory { length: nat },
    CallContext { rw: RW, call_id: nat, field: CallContextField, value: nat },
    Stack { rw: RW, address: nat, value: nat },
    AccessListAccount { tx_id: nat, address: Address, is_warm: bool, is_warm_prev: bool },
    PushCall { call: CallFrame },
    Transfer { from: Address, to: Address, value: nat },
    AccountRead { address: Address, field: AccountField, value: nat, value_prev: nat },
    HandleReturn,
}

impl View for Operation {
    type V = OperationView;

    open spec fn view(&self) -> OperationView {
        match self {
            Operation::ExtendMemory { length } => OperationView::ExtendMemory {
                length: *length as nat,
            },
            Operation::CallContext { rw, call_id, field, value } => OperationView::CallContext {
                rw: *rw,
                call_id: *call_id as nat,
                field: *field,
                value: value@,
            },
            Operation::Stack { rw, address, value } => OperationView::Stack {
                rw: *rw,
                address: *address as nat,
                value: value@,
            },
            Operation::AccessListAccount { tx_id, address, is_warm, is_warm_prev } =>
                OperationView::AccessListAccount {
                tx_id: *tx_id as nat,
                address: *address,
                is_warm: *is_warm,
                is_warm_prev: *is_warm_prev,
            },
            Operation::PushCall { call } => OperationView::PushCall { call: *call },
            Operation::Transfer { from, to, value } => OperationView::Transfer {
                from: *from,
                to: *to,
                value: value@,
            },
            Operation::AccountRead { address, field, value, value_prev } =>
                OperationView::AccountRead {
                address: *address,
                field: *field,
                value: value@,
                value_prev: value_prev@,
            },
            Operation::HandleReturn => OperationView::HandleReturn,
        }
    }
}

/// A list of operations with their words as numbers.
pub open spec fn operations_view(operations: Seq<Operation>) -> Seq<OperationView> {
    operations.map_values(|operation: Operation| operation@)
}

} // verus!
