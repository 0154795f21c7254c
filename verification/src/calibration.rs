//! Calibration defaults that are integers: the prover name and the
//! placeholder circuit footprint used before real prover traces are fitted.

use vstd::prelude::*;
use crate::callcount::HashId;

verus! {

/// Prover backend name used when a calibration names none: "flock".
pub fn default_prover_name() -> (r: String)
    ensures
        r@ == "flock"@,
{
    "flock".to_owned()
}

/// Placeholder minimum trace height of the prover: 2^10 rows.
pub const PLACEHOLDER_MIN_HEIGHT: u64 = 1024;

/// Placeholder trace rows per permutation: an arithmetization-friendly
/// permutation (Poseidon) takes a few wide rows, BLAKE3 sits in between, and
/// the bitwise SHA-256 compression and Keccak-f take the most.
pub open spec fn spec_placeholder_rows(hash: HashId) -> nat {
    match hash {
        HashId::Poseidon => 2,
        HashId::Blake3 => 64,
        HashId::Sha256 => 128,
        HashId::Sha3_256 => 256,
    }
}

/// Placeholder trace rows per permutation of `hash`, until measured on real
/// prover traces.
pub fn placeholder_rows_per_perm(hash: HashId) -> (r: u64)
    ensures
        r == spec_placeholder_rows(hash),
{
    match hash {
        HashId::Poseidon => 2,
        HashId::Blake3 => 64,
        HashId::Sha256 => 128,
        HashId::Sha3_256 => 256,
    }
}

} // verus!
