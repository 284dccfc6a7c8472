//! Datasets that mix signatures valid under one public key with others, and
//! their expansion for the tiered verifier.
use vstd::prelude::*;
use crate::codec::DecodeError;
use crate::falcon1024;
use crate::falcon512;
use crate::verify::{expand_spec, ExpandedModel};

verus! {

/// A message, its signature, and whether the signature is valid under the
/// dataset's key (degree 512).
#[derive(Clone)]
pub struct TestDataItem512 {
    /// Whether this signature is valid for the associated public key.
    pub is_valid: bool,
    /// The message that was signed.
    pub message: [u8; 32],
    /// The signature.
    pub signature: falcon512::Signature,
}

/// A public key with a mix of valid and invalid signed messages (degree 512).
pub struct TestData512 {
    /// The public key used for verification.
    pub public_key: falcon512::PublicKey,
    /// The items, valid and invalid.
    pub items: Vec<TestDataItem512>,
}

/// A message, its signature, and whether the signature is valid under the
/// dataset's key (degree 1024).
#[derive(Clone)]
pub struct TestDataItem1024 {
    /// Whether this signature is valid for the associated public key.
    pub is_valid: bool,
    /// The message that was signed.
    pub message: [u8; 32],
    /// The signature.
    pub signature: falcon1024::Signature,
}

/// A public key with a mix of valid and invalid signed messages (degree 1024).
pub struct TestData1024 {
    /// The public key used for verification.
    pub public_key: falcon1024::PublicKey,
    /// The items, valid and invalid.
    pub items: Vec<TestDataItem1024>,
}

/// What item `i` of a degree-512 dataset expands to.
#[verifier::opaque]
pub open spec fn item_expansion_512(d: &TestData512, i: int) -> Result<ExpandedModel, DecodeError> {
    expand_spec(
        d.items@[i].message@,
        d.items@[i].signature.salt@,
        d.items@[i].signature.encoded_s2@,
        d.public_key.h@,
        512,
    )
}

/// What item `i` of a degree-1024 dataset expands to.
#[verifier::opaque]
pub open spec fn item_expansion_1024(d: &TestData1024, i: int) -> Result<ExpandedModel, DecodeError> {
    expand_spec(
        d.items@[i].message@,
        d.items@[i].signature.salt@,
        d.items@[i].signature.encoded_s2@,
        d.public_key.h@,
        1024,
    )
}

impl TestData512 {
    /// Expands every item against the dataset's key, in order. Stops at the
    /// first item that does not expand and returns its error.
    pub fn expanded_signatures(&self) -> (r: Result<Vec<falcon512::ExpandedSignature>, DecodeError>)
        requires
            self.public_key.wf(),
            forall|i: int| 0 <= i < self.items@.len() ==> #[trigger] self.items@[i].signature.addressable(),
        ensures
            match r {
                Ok(v) => v@.len() == self.items@.len() && forall|i: int| 0 <= i < v@.len()
                    ==> item_expansion_512(self, i) == Ok::<ExpandedModel, DecodeError>(#[trigger] v@[i]@),
                Err(x) => exists|i: int| 0 <= i < self.items@.len()
                    && item_expansion_512(self, i) == Err::<ExpandedModel, DecodeError>(x)
                    && forall|j: int| 0 <= j < i ==> #[trigger] item_expansion_512(self, j) is Ok,
            },
    {
        let mut out: Vec<falcon512::ExpandedSignature> = Vec::new();
        let mut i: usize = 0;
        while i < self.items.len()
            invariant
                0 <= i <= self.items@.len(),
                self.public_key.wf(),
                forall|k: int| 0 <= k < self.items@.len() ==> #[trigger] self.items@[k].signature.addressable(),
                out@.len() == i,
                forall|k: int| 0 <= k < i
                    ==> item_expansion_512(self, k) == Ok::<ExpandedModel, DecodeError>(#[trigger] out@[k]@),
            decreases self.items@.len() - i,
        {
            let item = &self.items[i];
            match falcon512::ExpandedSignature::from_signature(
                vstd::array::array_as_slice(&item.message),
                &item.signature,
                &self.public_key,
            ) {
                Ok(e) => {
                    assert(item_expansion_512(self, i as int) == Ok::<ExpandedModel, DecodeError>(e@)) by {
                        reveal(item_expansion_512);
                    }
                    out.push(e);
                },
                Err(x) => {
                    assert(item_expansion_512(self, i as int) == Err::<ExpandedModel, DecodeError>(x)) by {
                        reveal(item_expansion_512);
                    }
                    assert forall|j: int| 0 <= j < i implies #[trigger] item_expansion_512(self, j) is Ok by {
                        assert(item_expansion_512(self, j) == Ok::<ExpandedModel, DecodeError>(out@[j]@));
                    }
                    return Err(x);
                },
            }
            i = i + 1;
        }
        Ok(out)
    }
}

impl TestData1024 {
    /// Expands every item against the dataset's key, in order. Stops at the
    /// first item that does not expand and returns its error.
    pub fn expanded_signatures(&self) -> (r: Result<Vec<falcon1024::ExpandedSignature>, DecodeError>)
        requires
            self.public_key.wf(),
            forall|i: int| 0 <= i < self.items@.len() ==> #[trigger] self.items@[i].signature.addressable(),
        ensures
            match r {
                Ok(v) => v@.len() == self.items@.len() && forall|i: int| 0 <= i < v@.len()
                    ==> item_expansion_1024(self, i) == Ok::<ExpandedModel, DecodeError>(#[trigger] v@[i]@),
                Err(x) => exists|i: int| 0 <= i < self.items@.len()
                    && item_expansion_1024(self, i) == Err::<ExpandedModel, DecodeError>(x)
                    && forall|j: int| 0 <= j < i ==> #[trigger] item_expansion_1024(self, j) is Ok,
            },
    {
        let mut out: Vec<falcon1024::ExpandedSignature> = Vec::new();
        let mut i: usize = 0;
        while i < self.items.len()
            invariant
                0 <= i <= self.items@.len(),
                self.public_key.wf(),
                forall|k: int| 0 <= k < self.items@.len() ==> #[trigger] self.items@[k].signature.addressable(),
                out@.len() == i,
                forall|k: int| 0 <= k < i
                    ==> item_expansion_1024(self, k) == Ok::<ExpandedModel, DecodeError>(#[trigger] out@[k]@),
            decreases self.items@.len() - i,
        {
            let item = &self.items[i];
            match falcon1024::ExpandedSignature::from_signature(
                vstd::array::array_as_slice(&item.message),
                &item.signature,
                &self.public_key,
            ) {
                Ok(e) => {
                    assert(item_expansion_1024(self, i as int) == Ok::<ExpandedModel, DecodeError>(e@)) by {
                        reveal(item_expansion_1024);
                    }
                    out.push(e);
                },
                Err(x) => {
                    assert(item_expansion_1024(self, i as int) == Err::<ExpandedModel, DecodeError>(x)) by {
                        reveal(item_expansion_1024);
                    }
                    assert forall|j: int| 0 <= j < i implies #[trigger] item_expansion_1024(self, j) is Ok by {
                        assert(item_expansion_1024(self, j) == Ok::<ExpandedModel, DecodeError>(out@[j]@));
                    }
                    return Err(x);
                },
            }
            i = i + 1;
        }
        Ok(out)
    }
}

} // verus!
