//! Hash-to-point: the challenge polynomial derived from a salt and a message.
//!
//! The salt and the message are absorbed by SHAKE256; its output is read as
//! 16-bit big-endian draws. A draw at or above 5q (the largest multiple of q
//! below 2^16) is discarded, any other is reduced modulo q.
use vstd::prelude::*;
use crate::params::Q;

verus! {

/// Draws at or above this value are discarded, so that every residue is
/// equally likely.
pub const ACCEPT_BOUND: u32 = 61445;

/// Byte `i` of the SHAKE256 output stream for `input`.
pub uninterp spec fn shake256_byte(input: Seq<u8>, i: nat) -> u8;

/// Relies on sha3::Shake256 (absorb with `Update::update`, then
/// `ExtendableOutput::finalize_xof` and `XofReader::read`): the result is the
/// first `len` bytes of the SHAKE256 output stream of `input`.
#[verifier::external_body]
fn shake256(input: &Vec<u8>, len: usize) -> (r: Vec<u8>)
    ensures
        r@.len() == len,
        forall|i: int| 0 <= i < len ==> #[trigger] r@[i] == shake256_byte(input@, i as nat),
{
    let mut hasher = <sha3::Shake256 as core::default::Default>::default();
    sha3::digest::Update::update(&mut hasher, input.as_slice());
    let mut reader = sha3::digest::ExtendableOutput::finalize_xof(hasher);
    let mut out = vec![0u8; len];
    sha3::digest::XofReader::read(&mut reader, &mut out);
    out
}

/// Draw `j` of the stream: bytes `2j` and `2j + 1`, big-endian.
pub open spec fn draw(input: Seq<u8>, j: nat) -> nat {
    shake256_byte(input, 2 * j) as nat * 256 + shake256_byte(input, 2 * j + 1) as nat
}

/// The coefficients kept from the first `j` draws, at most `n` of them.
pub open spec fn samples(input: Seq<u8>, j: nat, n: nat) -> Seq<u16>
    decreases j,
{
    if j == 0 {
        seq![]
    } else {
        let prev = samples(input, (j - 1) as nat, n);
        let d = draw(input, (j - 1) as nat);
        if d < ACCEPT_BOUND && prev.len() < n {
            prev.push((d % (Q as nat)) as u16)
        } else {
            prev
        }
    }
}

/// What is hashed: the salt followed by the message.
pub open spec fn hash_input(salt: Seq<u8>, message: Seq<u8>) -> Seq<u8> {
    salt + message
}

/// The challenge polynomial of degree `n`: the first `n` kept coefficients,
/// provided the first `2n` draws keep that many.
pub open spec fn challenge_spec(input: Seq<u8>, n: nat) -> Option<Seq<u16>> {
    let s = samples(input, 2 * n, n);
    if s.len() == n {
        Some(s)
    } else {
        None
    }
}

/// Concatenates the salt and the message into the hash input.
pub fn make_hash_input(salt: &[u8], message: &[u8]) -> (r: Vec<u8>)
    ensures
        r@ == hash_input(salt@, message@),
{
    let mut r: Vec<u8> = Vec::new();
    let mut i: usize = 0;
    while i < salt.len()
        invariant
            0 <= i <= salt@.len(),
            r@ == salt@.subrange(0, i as int),
        decreases salt@.len() - i,
    {
        r.push(salt[i]);
        i = i + 1;
        assert(r@ =~= salt@.subrange(0, i as int));
    }
    let mut j: usize = 0;
    while j < message.len()
        invariant
            0 <= j <= message@.len(),
            r@ == salt@ + message@.subrange(0, j as int),
        decreases message@.len() - j,
    {
        r.push(message[j]);
        j = j + 1;
        assert(r@ =~= salt@ + message@.subrange(0, j as int));
    }
    assert(message@.subrange(0, message@.len() as int) =~= message@);
    r
}

/// Derives the challenge polynomial of degree `n` from the hash input.
///
/// Returns `None` only when the first `2n` draws keep fewer than `n`
/// coefficients.
pub fn hash_to_point(input: &Vec<u8>, n: usize) -> (r: Option<Vec<u16>>)
    requires
        n <= 1024,
    ensures
        match r {
            Some(c) => challenge_spec(input@, n as nat) == Some(c@),
            None => challenge_spec(input@, n as nat).is_none(),
        },
        r matches Some(c) ==> forall|i: int| 0 <= i < c@.len() ==> #[trigger] c@[i] < Q,
{
    let draws: usize = 2 * n;
    let stream = shake256(input, 2 * draws);
    let mut out: Vec<u16> = Vec::new();
    let mut j: usize = 0;
    while j < draws
        invariant
            0 <= j <= draws,
            draws == 2 * n,
            n <= 1024,
            stream@.len() == 2 * draws,
            forall|i: int| 0 <= i < 2 * draws ==> #[trigger] stream@[i] == shake256_byte(
                input@,
                i as nat,
            ),
            out@ == samples(input@, j as nat, n as nat),
            out@.len() <= n,
            forall|i: int| 0 <= i < out@.len() ==> #[trigger] out@[i] < Q,
        decreases draws - j,
    {
        let hi: u32 = stream[2 * j] as u32;
        let lo: u32 = stream[2 * j + 1] as u32;
        let d: u32 = hi * 256 + lo;
        assert(d == draw(input@, j as nat));
        if d < ACCEPT_BOUND && out.len() < n {
            out.push((d % (Q as u32)) as u16);
        }
        j = j + 1;
    }
    if out.len() == n {
        Some(out)
    } else {
        None
    }
}

} // verus!
