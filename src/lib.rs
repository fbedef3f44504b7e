//! A counter kept in one account: instructions arrive as bytes, are decoded,
//! and move the stored `u32` by increment (wrapping), decrement (stopping at
//! zero), update or clear.

use vstd::prelude::*;

pub mod error;
pub mod instructions;

verus! {

use crate::error::CounterError;
use crate::instructions::{decode, le_bytes, le_u32, CounterInstructions, UpdateArgs};

/// The persisted state of the program: one unsigned 32-bit counter.
#[derive(Clone, Copy, Debug, PartialEq, Eq, Structural)]
pub struct CounterAccount {
    pub counter: u32,
}

/// The number of bytes that a stored counter takes.
pub const STATE_LEN: usize = 4;

/// What an account's bytes hold: exactly four bytes, the counter in little-endian order.
pub open spec fn stored(data: Seq<u8>) -> Result<CounterAccount, CounterError> {
    if data.len() == STATE_LEN {
        Ok(CounterAccount { counter: le_u32(data[0], data[1], data[2], data[3]) })
    } else {
        Err(CounterError::CorruptState)
    }
}

impl CounterAccount {
    /// The state after one instruction: an increment wraps around the 32-bit
    /// range, a decrement stops at zero.
    pub open spec fn applied(self, instruction: CounterInstructions) -> CounterAccount {
        let counter = self.counter;
        match instruction {
            CounterInstructions::Increment(a) => CounterAccount {
                counter: ((counter + a.value) % 0x1_0000_0000) as u32,
            },
            CounterInstructions::Decrement(a) => CounterAccount {
                counter: if counter < a.value { 0 } else { (counter - a.value) as u32 },
            },
            CounterInstructions::Update(a) => CounterAccount { counter: a.value },
            CounterInstructions::Clear => CounterAccount { counter: 0 },
        }
    }

    /// Applies one instruction to the state.
    pub fn apply(self, instruction: &CounterInstructions) -> (r: CounterAccount)
        ensures
            r == self.applied(*instruction),
    {
        match instruction {
            CounterInstructions::Increment(a) => CounterAccount {
                counter: self.counter.wrapping_add(a.value),
            },
            CounterInstructions::Decrement(a) => {
                if self.counter < a.value {
                    CounterAccount { counter: 0 }
                } else {
                    CounterAccount { counter: self.counter - a.value }
                }
            },
            CounterInstructions::Update(a) => CounterAccount { counter: a.value },
            CounterInstructions::Clear => CounterAccount { counter: 0 },
        }
    }

    /// Reads the state from an account's bytes.
    pub fn try_from_slice(data: &[u8]) -> (r: Result<CounterAccount, CounterError>)
        ensures
            r == stored(data@),
    {
        if data.len() != STATE_LEN {
            return Err(CounterError::CorruptState);
        }
        let b0 = data[0] as u32;
        let b1 = data[1] as u32;
        let b2 = data[2] as u32;
        let b3 = data[3] as u32;
        Ok(CounterAccount { counter: b0 + 0x100 * b1 + 0x1_0000 * b2 + 0x100_0000 * b3 })
    }

    /// Writes the state over the first four bytes of an account's buffer and
    /// leaves the rest as it was; a buffer shorter than that is left untouched.
    pub fn serialize(&self, data: &mut Vec<u8>) -> (r: Result<(), CounterError>)
        ensures
            old(data)@.len() < STATE_LEN ==> r == Err::<(), CounterError>(
                CounterError::SerializationError,
            ) && final(data)@ == old(data)@,
            old(data)@.len() >= STATE_LEN ==> r is Ok && final(data)@ == le_bytes(self.counter)
                + old(data)@.subrange(STATE_LEN as int, old(data)@.len() as int),
    {
        if data.len() < STATE_LEN {
            return Err(CounterError::SerializationError);
        }
        let v = self.counter;
        data.set(0, (v % 0x100) as u8);
        data.set(1, (v / 0x100 % 0x100) as u8);
        data.set(2, (v / 0x1_0000 % 0x100) as u8);
        data.set(3, (v / 0x100_0000) as u8);
        assert(data@ =~= le_bytes(self.counter) + old(data)@.subrange(
            STATE_LEN as int,
            old(data)@.len() as int,
        ));
        Ok(())
    }
}

/// The four transitions on a state with counter `c` and argument `v`: an
/// increment is the wrapping sum, a decrement is `max(0, c - v)` and so never goes below
/// zero, an update yields `v` and a clear yields zero, whatever `c` was.
pub proof fn lemma_transitions(state: CounterAccount, v: u32)
    ensures
        state.applied(CounterInstructions::Increment((UpdateArgs { value: v }))).counter
            == vstd::wrapping::u32_specs::wrapping_add(state.counter, v),
        state.applied(CounterInstructions::Decrement((UpdateArgs { value: v }))).counter
            == vstd::math::max(0, state.counter - v),
        state.applied(CounterInstructions::Update((UpdateArgs { value: v }))).counter == v,
        state.applied(CounterInstructions::Clear).counter == 0,
{
}

/// What one invocation does to the accounts' buffers: decode the
/// instruction, read the state from the first account, apply the instruction,
/// and write the new state back in its place. Any failure leaves every buffer
/// as it was.
pub open spec fn processed(accounts: Seq<Seq<u8>>, instruction_data: Seq<u8>) -> Result<
    Seq<Seq<u8>>,
    CounterError,
> {
    match decode(instruction_data) {
        Err(e) => Err(e),
        Ok(instruction) => if accounts.len() == 0 {
            Err(CounterError::MissingAccount)
        } else {
            match stored(accounts[0]) {
                Err(e) => Err(e),
                Ok(state) => Ok(accounts.update(0, le_bytes(state.applied(instruction).counter))),
            }
        },
    }
}

/// Runs one invocation over the data buffers of the supplied accounts, in
/// the order the host passed them; the first one stores the counter.
pub fn process_instruction(accounts: &mut Vec<Vec<u8>>, instruction_data: &[u8]) -> (r: Result<
    (),
    CounterError,
>)
    ensures
        match processed(old(accounts).deep_view(), instruction_data@) {
            Ok(after) => r is Ok && final(accounts).deep_view() == after,
            Err(e) => r == Err::<(), CounterError>(e) && final(accounts)@ == old(accounts)@,
        },
{
    let instruction = match CounterInstructions::unpack(instruction_data) {
        Ok(instruction) => instruction,
        Err(e) => {
            return Err(e);
        },
    };
    if accounts.len() == 0 {
        return Err(CounterError::MissingAccount);
    }
    let state = match CounterAccount::try_from_slice(accounts[0].as_slice()) {
        Ok(state) => state,
        Err(e) => {
            return Err(e);
        },
    };
    let next = state.apply(&instruction);
    let ghost before = accounts@;
    let r = next.serialize(&mut accounts[0]);
    proof {
        assert(accounts@[0]@ =~= le_bytes(next.counter));
        assert(accounts@[0].deep_view() =~= accounts@[0]@);
        assert(before[0].deep_view() =~= before[0]@);
        assert forall|i: int| 0 < i < accounts@.len() implies accounts@[i] == before[i] by {}
        assert(accounts.deep_view() =~= old(accounts).deep_view().update(0, le_bytes(next.counter)));
    }
    r
}

} // verus!
