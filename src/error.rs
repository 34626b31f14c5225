use vstd::prelude::*;

verus! {

/// Every way an instruction can fail; each one leaves all accounts unchanged.
#[derive(Debug, Clone, Copy, PartialEq, Eq, Structural)]
pub enum EngineError {
    /// Empty instruction buffer or unknown operation tag.
    InvalidInstruction,
    /// Truncated or malformed record bytes.
    DecodeError,
    /// Fewer accounts were supplied than the operation needs.
    AccountIndexError,
    /// The designated authority account did not sign.
    NotSigner,
    /// An account that must belong to the program does not.
    NotProgramOwned,
    /// The signer is not the admin named by the record.
    UnauthorizedAdmin,
    /// A balance is below what the operation needs.
    InsufficientFunds,
    /// The token transfer service reported a failure.
    TransferError,
    /// The encoded record does not fit in the account's byte region.
    AccountDataTooSmall,
    /// A counter or balance would exceed `u64::MAX`.
    ArithmeticOverflow,
}

} // verus!
