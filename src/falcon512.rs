//! The parameter set of ring degree 512.
use vstd::prelude::*;

pub use crate::codec::DecodeError;
pub use crate::verify::{fverify, fverify_fullverify, verify, verify_expanded};

verus! {

/// Ring degree of this parameter set.
pub const N: usize = 512;

/// A public key of degree 512.
pub type PublicKey = crate::verify::PublicKey<512>;

/// A signature of degree 512.
pub type Signature = crate::verify::Signature<512>;

/// An expanded signature of degree 512.
pub type ExpandedSignature = crate::verify::ExpandedSignature<512>;

} // verus!
