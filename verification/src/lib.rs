//! Construction and signing support for Bitcoin transactions whose key is
//! held by an external signing oracle: address derivation, UTXO selection,
//! fee convergence, signature hashing and signature encoding.
use vstd::prelude::*;

pub mod address;
pub mod builder;
pub mod codec;
pub mod errors;
pub mod hashes;
pub mod segwit;
pub mod sighash;
pub mod tx;
pub mod wallet;

verus! {

/// Returns its argument unchanged; a hook where a caller re-checks
/// library invariants after an update.
pub fn check_postcondition<T>(t: T) -> (r: T)
    ensures
        r == t,
{
    t
}

} // verus!
