//! The parameter set of ring degree 1024.
use vstd::prelude::*;

pub use crate::codec::DecodeError;
pub use crate::verify::{fverify, fverify_fullverify, verify, verify_expanded};

verus! {

/// Ring degree of this parameter set.
pub const N: usize = 1024;

/// A public key of degree 1024.
pub type PublicKey = crate::verify::PublicKey<1024>;

/// A signature of degree 1024.
pub type Signature = crate::verify::Signature<1024>;

/// An expanded signature of degree 1024.
pub type ExpandedSignature = crate::verify::ExpandedSignature<1024>;

} // verus!
