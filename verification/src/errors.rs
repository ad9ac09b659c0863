//! The typed failures a caller can see: every error is final for the
//! current call and carries what a caller needs for diagnostics.
use vstd::prelude::*;

verus! {

/// The terminal outcomes of a failed build, parse or signing step.
#[derive(Clone, Copy, Debug, PartialEq, Eq, Structural)]
pub enum WalletError {
    /// An address string could not be decoded.
    InvalidAddress,
    /// An address was used where the signer expects a different script type.
    UnsupportedAddressType,
    /// Selection cannot cover amount plus fee; carries the totals.
    InsufficientFunds { available: u64, amount: u64, fee: u64 },
    /// The external signing oracle failed or returned malformed data.
    SigningFailure,
    /// An outpoint's transaction id is not 32 bytes.
    MalformedUtxoReference,
    /// The fee fixed-point loop exceeded its iteration bound.
    FeeConvergenceFailure,
}

} // verus!
