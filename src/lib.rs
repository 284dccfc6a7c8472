//! Verification for Falcon-style lattice signatures over the ring
//! Z_q[x]/(x^n + 1), with a cheap coordinate filter in front of the exact check.
pub mod params;
pub mod codec;
pub mod hash;
pub mod ring;
pub mod verify;
pub mod falcon512;
pub mod falcon1024;
pub mod test_utils;
