use vstd::prelude::*;

verus! {

use crate::error::CounterError;

/// The argument carried by the instructions that take a value.
#[derive(Clone, Copy, Debug, PartialEq, Eq, Structural)]
pub struct UpdateArgs {
    pub value: u32,
}

/// One command to the counter, decoded from an instruction buffer.
#[derive(Clone, Copy, Debug, PartialEq, Eq, Structural)]
pub enum CounterInstructions {
    /// Add the value, wrapping around the 32-bit range.
    Increment(UpdateArgs),
    /// Subtract the value, stopping at zero.
    Decrement(UpdateArgs),
    /// Overwrite the counter with the value.
    Update(UpdateArgs),
    /// Reset the counter to zero.
    Clear,
}

/// The tag byte of `Increment`.
pub const INCREMENT_TAG: u8 = 0;
/// The tag byte of `Decrement`.
pub const DECREMENT_TAG: u8 = 1;
/// The tag byte of `Update`.
pub const UPDATE_TAG: u8 = 2;
/// The tag byte of `Clear`, the highest tag in use.
pub const CLEAR_TAG: u8 = 3;

/// The little-endian `u32` held by four bytes, lowest first.
pub open spec fn le_u32(b0: u8, b1: u8, b2: u8, b3: u8) -> u32 {
    (b0 + 0x100 * b1 + 0x1_0000 * b2 + 0x100_0000 * b3) as u32
}

/// The four little-endian bytes of a `u32`, lowest first.
pub open spec fn le_bytes(v: u32) -> Seq<u8> {
    seq![
        (v % 0x100) as u8,
        (v / 0x100 % 0x100) as u8,
        (v / 0x1_0000 % 0x100) as u8,
        (v / 0x100_0000) as u8,
    ]
}

/// What an instruction buffer decodes to: a tag byte, then, for the
/// instructions that take a value, that value in four little-endian bytes.
/// Bytes after what the instruction needs are ignored.
pub open spec fn decode(input: Seq<u8>) -> Result<CounterInstructions, CounterError> {
    if input.len() == 0 || input[0] > CLEAR_TAG {
        Err(CounterError::UnknownInstruction)
    } else if input[0] == CLEAR_TAG {
        Ok(CounterInstructions::Clear)
    } else if input.len() < 5 {
        Err(CounterError::TruncatedArgument)
    } else {
        let args = UpdateArgs { value: le_u32(input[1], input[2], input[3], input[4]) };
        if input[0] == INCREMENT_TAG {
            Ok(CounterInstructions::Increment(args))
        } else if input[0] == DECREMENT_TAG {
            Ok(CounterInstructions::Decrement(args))
        } else {
            Ok(CounterInstructions::Update(args))
        }
    }
}

/// The shortest buffer that decodes to the instruction.
pub open spec fn encode(instruction: CounterInstructions) -> Seq<u8> {
    match instruction {
        CounterInstructions::Increment(a) => seq![INCREMENT_TAG] + le_bytes(a.value),
        CounterInstructions::Decrement(a) => seq![DECREMENT_TAG] + le_bytes(a.value),
        CounterInstructions::Update(a) => seq![UPDATE_TAG] + le_bytes(a.value),
        CounterInstructions::Clear => seq![CLEAR_TAG],
    }
}

/// Reads the little-endian `u32` that starts at `start`.
fn read_u32_le(input: &[u8], start: usize) -> (r: u32)
    requires
        start + 4 <= input@.len(),
    ensures
        r == le_u32(input@[start as int], input@[start + 1], input@[start + 2], input@[start + 3]),
{
    let b0 = input[start] as u32;
    let b1 = input[start + 1] as u32;
    let b2 = input[start + 2] as u32;
    let b3 = input[start + 3] as u32;
    b0 + 0x100 * b1 + 0x1_0000 * b2 + 0x100_0000 * b3
}

/// Appends the four little-endian bytes of `v`.
fn push_u32_le(out: &mut Vec<u8>, v: u32)
    ensures
        final(out)@ == old(out)@ + le_bytes(v),
{
    out.push((v % 0x100) as u8);
    out.push((v / 0x100 % 0x100) as u8);
    out.push((v / 0x1_0000 % 0x100) as u8);
    out.push((v / 0x100_0000) as u8);
    assert(out@ =~= old(out)@ + le_bytes(v));
}

impl CounterInstructions {
    /// Decodes an instruction buffer.
    pub fn unpack(input: &[u8]) -> (r: Result<CounterInstructions, CounterError>)
        ensures
            r == decode(input@),
    {
        if input.len() == 0 || input[0] > CLEAR_TAG {
            return Err(CounterError::UnknownInstruction);
        }
        let tag = input[0];
        if tag == CLEAR_TAG {
            return Ok(CounterInstructions::Clear);
        }
        if input.len() < 5 {
            return Err(CounterError::TruncatedArgument);
        }
        let args = UpdateArgs { value: read_u32_le(input, 1) };
        if tag == INCREMENT_TAG {
            Ok(CounterInstructions::Increment(args))
        } else if tag == DECREMENT_TAG {
            Ok(CounterInstructions::Decrement(args))
        } else {
            Ok(CounterInstructions::Update(args))
        }
    }

    /// Encodes the instruction as the buffer that a client submits.
    pub fn pack(&self) -> (r: Vec<u8>)
        ensures
            r@ == encode(*self),
    {
        let mut out: Vec<u8> = Vec::new();
        match self {
            CounterInstructions::Increment(a) => {
                out.push(INCREMENT_TAG);
                push_u32_le(&mut out, a.value);
            },
            CounterInstructions::Decrement(a) => {
                out.push(DECREMENT_TAG);
                push_u32_le(&mut out, a.value);
            },
            CounterInstructions::Update(a) => {
                out.push(UPDATE_TAG);
                push_u32_le(&mut out, a.value);
            },
            CounterInstructions::Clear => {
                out.push(CLEAR_TAG);
            },
        }
        assert(out@ =~= encode(*self));
        out
    }
}

/// Four bytes read back as a little-endian `u32` give the value they were written from.
pub proof fn lemma_le_round_trip(v: u32)
    ensures
        le_u32(le_bytes(v)[0], le_bytes(v)[1], le_bytes(v)[2], le_bytes(v)[3]) == v,
{
    assert(v == v % 0x100 + 0x100 * (v / 0x100 % 0x100) + 0x1_0000 * (v / 0x1_0000 % 0x100)
        + 0x100_0000 * (v / 0x100_0000)) by (nonlinear_arith);
}

/// Decoding an encoded instruction gives that instruction back, for every
/// instruction and every value it carries.
pub proof fn lemma_decode_encode(instruction: CounterInstructions)
    ensures
        decode(encode(instruction)) == Ok::<CounterInstructions, CounterError>(instruction),
{
    match instruction {
        CounterInstructions::Increment(a) => lemma_le_round_trip(a.value),
        CounterInstructions::Decrement(a) => lemma_le_round_trip(a.value),
        CounterInstructions::Update(a) => lemma_le_round_trip(a.value),
        CounterInstructions::Clear => {},
    }
}

/// A buffer whose tag byte is that of `Clear` decodes to `Clear`, whatever
/// follows it, nothing included.
pub proof fn lemma_clear_needs_no_argument(input: Seq<u8>)
    requires
        input.len() >= 1,
        input[0] == CLEAR_TAG,
    ensures
        decode(input) == Ok::<CounterInstructions, CounterError>(CounterInstructions::Clear),
{
}

/// A buffer whose tag byte names an instruction that takes a value, with
/// fewer than four bytes after the tag, fails as a truncated argument.
pub proof fn lemma_short_argument_is_truncated(input: Seq<u8>)
    requires
        1 <= input.len() < 5,
        input[0] <= UPDATE_TAG,
    ensures
        decode(input) == Err::<CounterInstructions, CounterError>(CounterError::TruncatedArgument),
{
}

/// An empty buffer, or one whose tag byte names no instruction, fails as an
/// unknown instruction.
pub proof fn lemma_unknown_tag(input: Seq<u8>)
    requires
        input.len() == 0 || input[0] > CLEAR_TAG,
    ensures
        decode(input) == Err::<CounterInstructions, CounterError>(CounterError::UnknownInstruction),
{
}

} // verus!
