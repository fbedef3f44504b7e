use vstd::prelude::*;

verus! {

/// Every way an invocation can fail. Each one aborts the invocation and
/// leaves the account storage untouched.
#[derive(Clone, Copy, Debug, PartialEq, Eq, Structural)]
pub enum CounterError {
    /// The leading tag byte is missing or names no instruction.
    UnknownInstruction,
    /// An instruction that carries a `u32` argument has fewer than four bytes after its tag.
    TruncatedArgument,
    /// No account was supplied.
    MissingAccount,
    /// The account's bytes are not a stored counter.
    CorruptState,
    /// The account's buffer is too small to hold the counter.
    SerializationError,
}

} // verus!
