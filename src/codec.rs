//! Decoding of the compressed encoding of a signature polynomial.
//!
//! Bits are read most significant first. Each coefficient is a sign bit, the
//! seven low bits of its magnitude, and the high part of the magnitude in unary
//! (that many zeros, then a one). Whatever follows the last coefficient must be
//! zero padding.
use vstd::prelude::*;

verus! {

/// Why a signature could not be turned into the data both verifiers use.
#[derive(Clone, Copy, Debug, PartialEq, Eq, Structural)]
pub enum DecodeError {
    /// The encoded polynomial ends early, holds a coefficient above the
    /// ceiling, or is followed by padding that is not zero.
    Malformed,
    /// The hash stream did not yield a full challenge polynomial within the
    /// draws it is read for.
    ChallengeUnavailable,
}

/// Bit `i` of `b`, most significant bit of each byte first.
pub open spec fn bit_at(b: Seq<u8>, i: int) -> bool {
    ((b[i / 8] >> ((7 - i % 8) as u8)) & 1u8) == 1u8
}

/// The `k` bits starting at `p`, read as an unsigned number.
pub open spec fn bits_value(b: Seq<u8>, p: int, k: nat) -> nat
    decreases k,
{
    if k == 0 {
        0
    } else {
        2 * bits_value(b, p, (k - 1) as nat) + if bit_at(b, p + k - 1) {
            1nat
        } else {
            0nat
        }
    }
}

/// Number of zero bits from position `p` up to the next one bit or the end.
pub open spec fn zero_run(b: Seq<u8>, p: int) -> nat
    decreases 8 * b.len() - p,
{
    if p < 0 || p >= 8 * b.len() || bit_at(b, p) {
        0
    } else {
        1 + zero_run(b, p + 1)
    }
}

/// 2 to the power `k`.
pub open spec fn pow2k(k: nat) -> nat
    decreases k,
{
    if k == 0 {
        1
    } else {
        2 * pow2k((k - 1) as nat)
    }
}

/// The coefficient encoded at bit position `p`, with the position after it.
pub open spec fn coeff_at(b: Seq<u8>, p: int) -> Option<(i16, int)> {
    let total = 8 * b.len();
    let high = zero_run(b, p + 8);
    if p + 8 > total || p + 8 + high >= total || high > 15 {
        None
    } else {
        let mag = high * 128 + bits_value(b, p + 1, 7);
        let v: int = if bit_at(b, p) {
            -mag
        } else {
            mag as int
        };
        Some((v as i16, p + 9 + high))
    }
}

/// The first `k` coefficients of `b`, with the bit position after them.
pub open spec fn decode_prefix(b: Seq<u8>, k: nat) -> Option<(Seq<i16>, int)>
    decreases k,
{
    if k == 0 {
        Some((seq![], 0))
    } else {
        match decode_prefix(b, (k - 1) as nat) {
            None => None,
            Some((v, p)) => match coeff_at(b, p) {
                None => None,
                Some((x, p2)) => Some((v.push(x), p2)),
            },
        }
    }
}

/// The polynomial of `n` coefficients that `b` encodes, if `b` is well formed.
pub open spec fn decode_spec(b: Seq<u8>, n: nat) -> Option<Seq<i16>> {
    match decode_prefix(b, n) {
        None => None,
        Some((v, p)) => if forall|j: int| p <= j < 8 * b.len() ==> !bit_at(b, j) {
            Some(v)
        } else {
            None
        },
    }
}

fn read_bit(b: &[u8], i: usize) -> (r: bool)
    requires
        i < 8 * b@.len(),
    ensures
        r == bit_at(b@, i as int),
{
    ((b[i / 8] >> ((7 - i % 8) as u8)) & 1u8) == 1u8
}

/// Decodes the coefficient at bit position `p`.
fn decode_coeff(b: &[u8], p: usize) -> (r: Option<(i16, usize)>)
    requires
        8 * b@.len() <= usize::MAX,
        p <= 8 * b@.len(),
    ensures
        match r {
            Some((x, p2)) => coeff_at(b@, p as int) == Some((x, p2 as int)) && -2047 <= x
                <= 2047 && p2 <= 8 * b@.len(),
            None => coeff_at(b@, p as int).is_none(),
        },
{
    let total: usize = 8 * b.len();
    if total - p < 8 {
        return None;
    }
    let mut low: u16 = 0;
    let mut k: usize = 0;
    while k < 7
        invariant
            0 <= k <= 7,
            p + 8 <= total,
            total == 8 * b@.len(),
            low as nat == bits_value(b@, p + 1, k as nat),
            bits_value(b@, p + 1, k as nat) < pow2k(k as nat),
        decreases 7 - k,
    {
        proof {
            reveal_with_fuel(pow2k, 8);
        }
        let bit = read_bit(b, p + 1 + k);
        low = 2 * low + if bit {
            1u16
        } else {
            0u16
        };
        k = k + 1;
    }
    proof {
        reveal_with_fuel(pow2k, 8);
    }
    let mut high: u16 = 0;
    let mut pos: usize = p + 8;
    while pos < total && high <= 15 && !read_bit(b, pos)
        invariant
            p + 8 <= pos <= total,
            total == 8 * b@.len(),
            pos == p + 8 + high,
            high <= 16,
            zero_run(b@, p + 8) == high + zero_run(b@, pos as int),
        decreases total - pos,
    {
        high = high + 1;
        pos = pos + 1;
    }
    if pos >= total || high > 15 {
        return None;
    }
    let mag: i16 = (high * 128 + low) as i16;
    let x: i16 = if read_bit(b, p) {
        -mag
    } else {
        mag
    };
    Some((x, pos + 1))
}

/// Decodes the `n` coefficients that `b` holds.
///
/// Fails with `Malformed` exactly when `decode_spec` says `b` is not a
/// well-formed encoding; the result is a function of the bytes alone.
pub fn decode(b: &[u8], n: usize) -> (r: Result<Vec<i16>, DecodeError>)
    requires
        8 * b@.len() <= usize::MAX,
    ensures
        match r {
            Ok(v) => decode_spec(b@, n as nat) == Some(v@) && v@.len() == n && forall|i: int|
                0 <= i < v@.len() ==> -2047 <= #[trigger] v@[i] <= 2047,
            Err(e) => decode_spec(b@, n as nat).is_none() && e == DecodeError::Malformed,
        },
{
    let total: usize = 8 * b.len();
    let mut out: Vec<i16> = Vec::new();
    let mut pos: usize = 0;
    let mut k: usize = 0;
    while k < n
        invariant
            0 <= k <= n,
            total == 8 * b@.len(),
            pos <= total,
            out@.len() == k,
            decode_prefix(b@, k as nat) == Some((out@, pos as int)),
            forall|i: int| 0 <= i < out@.len() ==> -2047 <= #[trigger] out@[i] <= 2047,
        decreases n - k,
    {
        match decode_coeff(b, pos) {
            None => {
                proof {
                    lemma_prefix_fails_after(b@, (k + 1) as nat, n as nat);
                }
                return Err(DecodeError::Malformed);
            },
            Some((x, p2)) => {
                out.push(x);
                pos = p2;
            },
        }
        k = k + 1;
    }
    let mut j: usize = pos;
    while j < total
        invariant
            pos <= j <= total,
            total == 8 * b@.len(),
            out@.len() == n,
            decode_prefix(b@, n as nat) == Some((out@, pos as int)),
            forall|i: int| 0 <= i < out@.len() ==> -2047 <= #[trigger] out@[i] <= 2047,
            forall|m: int| pos <= m < j ==> !bit_at(b@, m),
        decreases total - j,
    {
        if read_bit(b, j) {
            assert(bit_at(b@, j as int));
            return Err(DecodeError::Malformed);
        }
        j = j + 1;
    }
    Ok(out)
}

/// Once a prefix fails to decode, every longer prefix fails too.
proof fn lemma_prefix_fails_after(b: Seq<u8>, k: nat, n: nat)
    requires
        decode_prefix(b, k).is_none(),
        k <= n,
    ensures
        decode_prefix(b, n).is_none(),
    decreases n - k,
{
    if k < n {
        lemma_prefix_fails_after(b, k + 1, n);
    }
}

} // verus!
