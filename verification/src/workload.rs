//! Workload parameters that the call-count and expansion logic reads.

use vstd::prelude::*;

verus! {

/// Model-wide parameters of a workload.
#[derive(Clone, Debug)]
pub struct ModelParams {
    /// Call counts for the repetition sweep table.
    pub sweep_num_calls: Vec<u64>,
}

/// Parameters of the Poseidon sponge instance.
#[derive(Clone, Copy, Debug, PartialEq, Eq)]
pub struct PoseidonParams {
    /// Permutation width; not read by the sponge call count (rate suffices).
    pub width: u32,
    /// Field elements absorbed per permutation.
    pub rate: u32,
    /// Message bytes packed into one field element.
    pub bytes_per_elem: u32,
}

/// Which cost dimension a use case pays.
#[derive(Clone, Copy, Debug, PartialEq, Eq)]
pub enum Role {
    Native,
    Circuit,
    Both,
}

impl Role {
    /// The use case is hashed natively (roles `Native` and `Both`).
    pub fn native(self) -> (r: bool)
        ensures
            r == (self == Role::Native || self == Role::Both),
    {
        match self {
            Role::Native | Role::Both => true,
            Role::Circuit => false,
        }
    }

    /// The use case is proven in a circuit (roles `Circuit` and `Both`).
    pub fn circuit(self) -> (r: bool)
        ensures
            r == (self == Role::Circuit || self == Role::Both),
    {
        match self {
            Role::Circuit | Role::Both => true,
            Role::Native => false,
        }
    }
}

/// Every role pays at least one of the two cost dimensions, and only `Both`
/// pays both.
pub proof fn lemma_role_covers(r: Role)
    ensures
        r == Role::Native || r == Role::Circuit || r == Role::Both,
        (r == Role::Native || r == Role::Both) || (r == Role::Circuit || r == Role::Both),
        ((r == Role::Native || r == Role::Both) && (r == Role::Circuit || r == Role::Both))
            <==> r == Role::Both,
{
}

} // verus!
