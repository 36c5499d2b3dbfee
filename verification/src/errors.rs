use vstd::prelude::*;

verus! {

/// Exit code of a successful call.
pub const EXIT_OK: u32 = 0;
/// Exit code reported when execution ran out of gas.
pub const EXIT_SYS_OUT_OF_GAS: u32 = 7;
/// Exit code reported when the call depth limit was exceeded.
pub const EXIT_SYS_LIMIT_EXCEEDED: u32 = 9;
/// Exit code reported when the receiver's code identifier is not registered.
pub const EXIT_SYS_UNKNOWN_CODE: u32 = 10;
/// Exit code reported when a balance computation overflowed.
pub const EXIT_SYS_FATAL: u32 = 11;
/// Actor-level exit code: the caller could not cover the value transfer.
pub const EXIT_INSUFFICIENT_FUNDS: u32 = 20;
/// Actor-level exit code: a state mutation was attempted in read-only mode.
pub const EXIT_READ_ONLY_VIOLATION: u32 = 21;

/// Rejection of a message before execution: no gas is charged and the
/// state tree is left untouched.
#[derive(Clone, Copy, Debug, PartialEq, Eq, Structural)]
pub enum ValidationError {
    /// The sending actor does not exist in the state tree.
    SenderNotFound,
    /// The message's sequence number is not the sender's expected next value.
    InvalidNonce,
    /// The fee cap cannot cover the base fee plus the premium.
    FeeCapTooLow,
    /// The sender's balance cannot prepay the maximum gas cost.
    InsufficientFunds,
}

/// An error that fails the current call and every ancestor up to the paying
/// boundary; state is rolled back to each call's checkpoint on the way out,
/// while gas consumed so far is retained.
#[derive(Clone, Copy, Debug, PartialEq, Eq, Structural)]
pub enum CallError {
    /// Cumulative gas use would exceed the message's gas limit.
    OutOfGas,
    /// The call chain grew beyond the configured maximum depth.
    DepthExceeded,
    /// The receiver's code identifier has no registry entry.
    UnknownActorCode,
    /// A balance computation overflowed its representation.
    Fatal,
}

} // verus!
