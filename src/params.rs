//! Constants shared by both parameter sets.
use vstd::prelude::*;

verus! {

/// The prime modulus of the ring.
pub const Q: u16 = 12289;

/// Largest value of a centered residue: residues above it stand for negative numbers.
pub const HALF_Q: u16 = 6144;

/// Length in bytes of the random salt carried by every signature.
pub const SALT_LEN: usize = 40;

/// Squared norm bound for the degree-512 parameter set.
pub const BETA_SQ_512: u64 = 34034726;

/// Squared norm bound for the degree-1024 parameter set.
pub const BETA_SQ_1024: u64 = 70265242;

/// The ring degrees this library knows parameters for.
pub open spec fn valid_degree(n: nat) -> bool {
    n == 512 || n == 1024
}

/// The squared norm bound of the parameter set of degree `n`.
pub open spec fn beta_sq_spec(n: nat) -> nat {
    if n == 512 {
        BETA_SQ_512 as nat
    } else {
        BETA_SQ_1024 as nat
    }
}

/// Executable form of `beta_sq_spec`.
pub fn beta_sq(n: usize) -> (r: u64)
    requires
        valid_degree(n as nat),
    ensures
        r as nat == beta_sq_spec(n as nat),
{
    if n == 512 {
        BETA_SQ_512
    } else {
        BETA_SQ_1024
    }
}

} // verus!
