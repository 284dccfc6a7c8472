//! The tiered verification engine, written once for both ring degrees.
//!
//! A signature is expanded once into the decoded `s2`, the challenge `c` and
//! the product `t = h * s2`. The full verifier accepts iff
//! `|c - t|^2 + |s2|^2 <= beta^2` with both halves centered; the fast verifier
//! checks only the coordinates it is given, each against the budget that the
//! norm bound leaves once `|s2|^2` is paid.
use vstd::prelude::*;
use crate::codec::{decode, decode_spec, DecodeError};
use crate::hash::{challenge_spec, hash_input, hash_to_point, make_hash_input};
use crate::params::{beta_sq, beta_sq_spec, valid_degree, HALF_Q, Q};
use crate::ring::{convolve, convolve_spec, reduced};

verus! {

/// A public key: the polynomial `h`, `N` coefficients in `[0, q)`.
pub struct PublicKey<const N: usize> {
    pub h: Vec<u16>,
}

impl<const N: usize> PublicKey<N> {
    /// `h` has `N` coefficients, all reduced modulo q.
    pub open spec fn wf(&self) -> bool {
        self.h@.len() == N && reduced(self.h@)
    }
}

/// A signature: the salt and the compressed encoding of `s2`.
pub struct Signature<const N: usize> {
    pub salt: [u8; 40],
    pub encoded_s2: Vec<u8>,
}

impl<const N: usize> Clone for Signature<N> {
    fn clone(&self) -> (r: Self)
        ensures
            r.salt@ == self.salt@,
            r.encoded_s2@ == self.encoded_s2@,
    {
        Signature { salt: self.salt, encoded_s2: self.encoded_s2.clone() }
    }
}

impl<const N: usize> Signature<N> {
    /// The encoding is short enough that its bit positions fit in `usize`.
    pub open spec fn addressable(&self) -> bool {
        8 * self.encoded_s2@.len() <= usize::MAX
    }
}

/// What an expanded signature holds, as mathematical sequences.
pub struct ExpandedModel {
    pub challenge: Seq<u16>,
    pub s2: Seq<i16>,
    pub product: Seq<u16>,
}

/// `s2` with each coefficient reduced into `[0, q)`.
pub open spec fn s2_mod_q(s2: Seq<i16>) -> Seq<u16> {
    Seq::new(s2.len(), |i: int| (s2[i] as int % (Q as int)) as u16)
}

/// The bundle that `(message, signature, h)` expands to, or why there is none.
pub open spec fn expand_spec(
    message: Seq<u8>,
    salt: Seq<u8>,
    encoded_s2: Seq<u8>,
    h: Seq<u16>,
    n: nat,
) -> Result<ExpandedModel, DecodeError> {
    match decode_spec(encoded_s2, n) {
        None => Err(DecodeError::Malformed),
        Some(s2) => match challenge_spec(hash_input(salt, message), n) {
            None => Err(DecodeError::ChallengeUnavailable),
            Some(c) => Ok(ExpandedModel { challenge: c, s2, product: convolve_spec(h, s2_mod_q(s2)) }),
        },
    }
}

/// The representative of `v` in the symmetric range `(-q/2, q/2]`.
pub open spec fn center(v: int) -> int {
    if v > HALF_Q {
        v - Q
    } else {
        v
    }
}

/// Coefficient `i` of `s1 = c - t`, centered.
pub open spec fn s1_coeff(e: ExpandedModel, i: int) -> int {
    center((e.challenge[i] - e.product[i]) % (Q as int))
}

/// Sum of the squares of the first `m` coefficients of `s1`.
pub open spec fn s1_sq_sum(e: ExpandedModel, m: nat) -> int
    decreases m,
{
    if m == 0 {
        0
    } else {
        s1_sq_sum(e, (m - 1) as nat) + s1_coeff(e, m - 1) * s1_coeff(e, m - 1)
    }
}

/// Sum of the squares of the first `m` coefficients of `s2`.
pub open spec fn s2_sq_sum(s2: Seq<i16>, m: nat) -> int
    decreases m,
{
    if m == 0 {
        0
    } else {
        s2_sq_sum(s2, (m - 1) as nat) + s2[m - 1] * s2[m - 1]
    }
}

/// The squared norm of the signature `(s1, s2)`.
pub open spec fn norm_sq(e: ExpandedModel) -> int {
    s1_sq_sum(e, e.challenge.len()) + s2_sq_sum(e.s2, e.s2.len())
}

/// The full verifier's decision.
pub open spec fn full_ok(e: ExpandedModel, beta_sq: nat) -> bool {
    norm_sq(e) <= beta_sq
}

/// Coordinate `i` of `s1` fits in what the norm bound leaves after `s2`.
pub open spec fn coordinate_ok(e: ExpandedModel, i: int, beta_sq: nat) -> bool {
    s1_coeff(e, i) * s1_coeff(e, i) + s2_sq_sum(e.s2, e.s2.len()) <= beta_sq
}

/// The fast verifier's decision on the positions `idx`.
pub open spec fn fast_ok(e: ExpandedModel, idx: Seq<usize>, beta_sq: nat) -> bool {
    forall|k: int| 0 <= k < idx.len() ==> coordinate_ok(e, #[trigger] idx[k] as int, beta_sq)
}

/// The dispatcher's decision: the fast path, and the full check only after it.
pub open spec fn tiered_ok(e: ExpandedModel, idx: Seq<usize>, beta_sq: nat) -> bool {
    fast_ok(e, idx, beta_sq) && full_ok(e, beta_sq)
}

/// The full decision on a signature, with a signature that does not expand rejected.
pub open spec fn verify_spec(
    message: Seq<u8>,
    salt: Seq<u8>,
    encoded_s2: Seq<u8>,
    h: Seq<u16>,
    n: nat,
) -> bool {
    match expand_spec(message, salt, encoded_s2, h, n) {
        Ok(e) => full_ok(e, beta_sq_spec(n)),
        Err(_) => false,
    }
}

/// Every position of `idx` lies in `[0, n)`.
pub open spec fn indices_in_range(idx: Seq<usize>, n: nat) -> bool {
    forall|k: int| 0 <= k < idx.len() ==> #[trigger] idx[k] < n
}

impl ExpandedModel {
    /// Shapes and ranges of a bundle of degree `n`.
    pub open spec fn wf(self, n: nat) -> bool {
        &&& self.challenge.len() == n
        &&& self.s2.len() == n
        &&& self.product.len() == n
        &&& reduced(self.challenge)
        &&& reduced(self.product)
        &&& forall|i: int| 0 <= i < n ==> -2047 <= #[trigger] self.s2[i] <= 2047
    }
}

/// The precomputed bundle shared by both verifiers: decoded `s2`, the
/// challenge, and the product `h * s2`. Read-only once built.
pub struct ExpandedSignature<const N: usize> {
    challenge: Vec<u16>,
    s2: Vec<i16>,
    product: Vec<u16>,
    s2_norm_sq: u64,
}

impl<const N: usize> View for ExpandedSignature<N> {
    type V = ExpandedModel;

    closed spec fn view(&self) -> ExpandedModel {
        ExpandedModel { challenge: self.challenge@, s2: self.s2@, product: self.product@ }
    }
}

impl<const N: usize> Clone for ExpandedSignature<N> {
    fn clone(&self) -> (r: Self)
        ensures
            r@ == self@,
    {
        proof {
            use_type_invariant(self);
        }
        ExpandedSignature {
            challenge: self.challenge.clone(),
            s2: self.s2.clone(),
            product: self.product.clone(),
            s2_norm_sq: self.s2_norm_sq,
        }
    }
}

/// Reduces each coefficient of a decoded `s2` into `[0, q)`.
fn reduce_s2(s2: &Vec<i16>) -> (r: Vec<u16>)
    requires
        forall|i: int| 0 <= i < s2@.len() ==> -2047 <= #[trigger] s2@[i] <= 2047,
    ensures
        r@ == s2_mod_q(s2@),
        reduced(r@),
{
    let mut r: Vec<u16> = Vec::new();
    let mut i: usize = 0;
    while i < s2.len()
        invariant
            0 <= i <= s2@.len(),
            forall|j: int| 0 <= j < s2@.len() ==> -2047 <= #[trigger] s2@[j] <= 2047,
            r@.len() == i,
            forall|j: int| 0 <= j < i ==> #[trigger] r@[j] == s2_mod_q(s2@)[j],
            reduced(r@),
        decreases s2@.len() - i,
    {
        let v: i16 = s2[i];
        let m: u16 = if v < 0 {
            (v as i32 + Q as i32) as u16
        } else {
            v as u16
        };
        proof {
            let x = v as int;
            if x < 0 {
                vstd::arithmetic::div_mod::lemma_mod_multiples_vanish(1, x, Q as int);
                vstd::arithmetic::div_mod::lemma_small_mod((x + Q) as nat, Q as nat);
            } else {
                vstd::arithmetic::div_mod::lemma_small_mod(x as nat, Q as nat);
            }
        }
        r.push(m);
        i = i + 1;
    }
    assert(r@ =~= s2_mod_q(s2@));
    r
}

/// Coefficient `i` of `s1`, centered, computed from reduced `c` and `t`.
fn s1_at(c: u16, t: u16) -> (r: i32)
    requires
        c < Q,
        t < Q,
    ensures
        r as int == center((c - t) % (Q as int)),
        -6144 <= r <= 6144,
{
    let v: u16 = if c >= t {
        c - t
    } else {
        c + Q - t
    };
    proof {
        let x = c - t;
        if c >= t {
            vstd::arithmetic::div_mod::lemma_small_mod(x as nat, Q as nat);
        } else {
            vstd::arithmetic::div_mod::lemma_mod_multiples_vanish(1, x, Q as int);
            vstd::arithmetic::div_mod::lemma_small_mod((x + Q) as nat, Q as nat);
        }
    }
    if v > HALF_Q {
        v as i32 - Q as i32
    } else {
        v as i32
    }
}

/// `|s2|^2`.
fn s2_norm(s2: &Vec<i16>) -> (r: u64)
    requires
        s2@.len() <= 1024,
        forall|i: int| 0 <= i < s2@.len() ==> -2047 <= #[trigger] s2@[i] <= 2047,
    ensures
        r as int == s2_sq_sum(s2@, s2@.len()),
        r <= s2@.len() * 4190209,
{
    let mut acc: u64 = 0;
    let mut i: usize = 0;
    while i < s2.len()
        invariant
            0 <= i <= s2@.len(),
            s2@.len() <= 1024,
            forall|j: int| 0 <= j < s2@.len() ==> -2047 <= #[trigger] s2@[j] <= 2047,
            acc as int == s2_sq_sum(s2@, i as nat),
            acc <= i * 4190209,
        decreases s2@.len() - i,
    {
        let v: i64 = s2[i] as i64;
        assert(0 <= v * v <= 4190209) by (nonlinear_arith)
            requires
                -2047 <= v <= 2047,
        ;
        acc = acc + (v * v) as u64;
        i = i + 1;
    }
    acc
}

impl<const N: usize> ExpandedSignature<N> {
    #[verifier::type_invariant]
    spec fn inv(&self) -> bool {
        &&& valid_degree(N as nat)
        &&& self@.wf(N as nat)
        &&& self.s2_norm_sq as int == s2_sq_sum(self.s2@, N as nat)
    }

    /// Decodes `s2`, derives the challenge from the salt and the message, and
    /// multiplies the public key by `s2`. Fails only when `s2` does not decode
    /// or the hash stream yields no challenge; makes no judgment of validity.
    pub fn from_signature(message: &[u8], signature: &Signature<N>, public_key: &PublicKey<N>) -> (r:
        Result<Self, DecodeError>)
        requires
            valid_degree(N as nat),
            public_key.wf(),
            signature.addressable(),
        ensures
            match r {
                Ok(e) => expand_spec(
                    message@,
                    signature.salt@,
                    signature.encoded_s2@,
                    public_key.h@,
                    N as nat,
                ) == Ok::<ExpandedModel, DecodeError>(e@),
                Err(x) => expand_spec(
                    message@,
                    signature.salt@,
                    signature.encoded_s2@,
                    public_key.h@,
                    N as nat,
                ) == Err::<ExpandedModel, DecodeError>(x),
            },
    {
        let s2 = match decode(signature.encoded_s2.as_slice(), N) {
            Ok(v) => v,
            Err(x) => {
                return Err(x);
            },
        };
        let input = make_hash_input(vstd::array::array_as_slice(&signature.salt), message);
        let challenge = match hash_to_point(&input, N) {
            Some(c) => c,
            None => {
                return Err(DecodeError::ChallengeUnavailable);
            },
        };
        let s2q = reduce_s2(&s2);
        let product = convolve(&public_key.h, &s2q);
        let s2_norm_sq = s2_norm(&s2);
        Ok(ExpandedSignature { challenge, s2, product, s2_norm_sq })
    }

    /// The decoded `s2`.
    pub fn s2(&self) -> (r: &Vec<i16>)
        ensures
            r@ == self@.s2,
    {
        &self.s2
    }

    /// The challenge polynomial.
    pub fn challenge(&self) -> (r: &Vec<u16>)
        ensures
            r@ == self@.challenge,
    {
        &self.challenge
    }

    /// The product `h * s2` in the ring.
    pub fn product(&self) -> (r: &Vec<u16>)
        ensures
            r@ == self@.product,
    {
        &self.product
    }
}

/// Fast verifier: checks only the positions in `indices`. A signature that
/// the full verifier accepts passes here for every choice of positions.
/// The message and the key are already folded into `expanded`.
pub fn fverify<const N: usize>(
    message: &[u8],
    expanded: &ExpandedSignature<N>,
    public_key: &PublicKey<N>,
    indices: &[usize],
) -> (r: bool)
    requires
        indices_in_range(indices@, N as nat),
    ensures
        r == fast_ok(expanded@, indices@, beta_sq_spec(N as nat)),
{
    proof {
        use_type_invariant(expanded);
    }
    let beta: u64 = beta_sq(N);
    let s2n: u64 = expanded.s2_norm_sq;
    let mut k: usize = 0;
    while k < indices.len()
        invariant
            0 <= k <= indices@.len(),
            indices_in_range(indices@, N as nat),
            valid_degree(N as nat),
            expanded@.wf(N as nat),
            beta as nat == beta_sq_spec(N as nat),
            s2n as int == s2_sq_sum(expanded@.s2, N as nat),
            forall|j: int| 0 <= j < k ==> coordinate_ok(
                expanded@,
                #[trigger] indices@[j] as int,
                beta_sq_spec(N as nat),
            ),
        decreases indices@.len() - k,
    {
        let i: usize = indices[k];
        assert(indices@[k as int] < N);
        let v: i32 = s1_at(expanded.challenge[i], expanded.product[i]);
        assert(0 <= v * v <= 37748736) by (nonlinear_arith)
            requires
                -6144 <= v <= 6144,
        ;
        let sq: u64 = (v * v) as u64;
        assert(s2n <= 1024 * 4190209) by {
            lemma_s2_sq_sum_bound(expanded@.s2, N as nat);
        }
        if sq + s2n > beta {
            assert(!coordinate_ok(expanded@, indices@[k as int] as int, beta_sq_spec(N as nat)));
            return false;
        }
        k = k + 1;
    }
    true
}

/// Full verifier on an expanded signature: accepts iff the squared norm of
/// `(s1, s2)` is within the parameter set's bound.
pub fn verify_expanded<const N: usize>(
    message: &[u8],
    expanded: &ExpandedSignature<N>,
    public_key: &PublicKey<N>,
) -> (r: bool)
    ensures
        r == full_ok(expanded@, beta_sq_spec(N as nat)),
{
    proof {
        use_type_invariant(expanded);
    }
    let beta: u64 = beta_sq(N);
    let mut acc: u64 = 0;
    let mut i: usize = 0;
    while i < N
        invariant
            0 <= i <= N,
            valid_degree(N as nat),
            expanded@.wf(N as nat),
            acc as int == s1_sq_sum(expanded@, i as nat),
            acc <= i * 37748736,
        decreases N - i,
    {
        let v: i32 = s1_at(expanded.challenge[i], expanded.product[i]);
        assert(0 <= v * v <= 37748736) by (nonlinear_arith)
            requires
                -6144 <= v <= 6144,
        ;
        acc = acc + (v * v) as u64;
        proof {
            assert((i + 1) * 37748736 == i * 37748736 + 37748736) by (nonlinear_arith);
        }
        i = i + 1;
    }
    proof {
        lemma_s2_sq_sum_bound(expanded@.s2, N as nat);
        assert(acc <= 1024 * 37748736) by (nonlinear_arith)
            requires
                acc <= N * 37748736,
                N <= 1024,
        ;
        assert(N * 4190209 <= 1024 * 4190209) by (nonlinear_arith)
            requires
                N <= 1024,
        ;
    }
    acc + expanded.s2_norm_sq <= beta
}

/// Tiered dispatcher: the fast verifier first, the full verifier only if it
/// passes. Decides exactly as `verify_expanded` does.
pub fn fverify_fullverify<const N: usize>(
    message: &[u8],
    expanded: &ExpandedSignature<N>,
    public_key: &PublicKey<N>,
    indices: &[usize],
) -> (r: bool)
    requires
        indices_in_range(indices@, N as nat),
    ensures
        r == tiered_ok(expanded@, indices@, beta_sq_spec(N as nat)),
        r == full_ok(expanded@, beta_sq_spec(N as nat)),
{
    proof {
        use_type_invariant(expanded);
        lemma_tiering_sound(expanded@, indices@, N as nat);
    }
    if !fverify(message, expanded, public_key, indices) {
        return false;
    }
    verify_expanded(message, expanded, public_key)
}

/// Full verification from scratch: expands the signature, then checks the
/// norm. A signature that does not expand is rejected.
pub fn verify<const N: usize>(message: &[u8], signature: &Signature<N>, public_key: &PublicKey<N>) -> (r:
    bool)
    requires
        valid_degree(N as nat),
        public_key.wf(),
        signature.addressable(),
    ensures
        r == verify_spec(
            message@,
            signature.salt@,
            signature.encoded_s2@,
            public_key.h@,
            N as nat,
        ),
{
    match ExpandedSignature::<N>::from_signature(message, signature, public_key) {
        Ok(e) => verify_expanded(message, &e, public_key),
        Err(_) => false,
    }
}

proof fn lemma_s2_sq_sum_bound(s2: Seq<i16>, m: nat)
    requires
        m <= s2.len(),
        forall|i: int| 0 <= i < m ==> -2047 <= #[trigger] s2[i] <= 2047,
    ensures
        0 <= s2_sq_sum(s2, m) <= m * 4190209,
    decreases m,
{
    if m > 0 {
        lemma_s2_sq_sum_bound(s2, (m - 1) as nat);
        let v = s2[m - 1] as int;
        assert(0 <= v * v <= 4190209) by (nonlinear_arith)
            requires
                -2047 <= v <= 2047,
        ;
    }
}

/// Each squared coordinate of `s1` is at most the sum of all of them.
proof fn lemma_s1_coordinate_le_sum(e: ExpandedModel, i: int, m: nat)
    requires
        0 <= i < m,
    ensures
        s1_coeff(e, i) * s1_coeff(e, i) <= s1_sq_sum(e, m),
    decreases m,
{
    let v = s1_coeff(e, (m - 1) as int);
    assert(v * v >= 0) by (nonlinear_arith);
    if i < m - 1 {
        lemma_s1_coordinate_le_sum(e, i, (m - 1) as nat);
    } else {
        lemma_s1_sq_sum_nonneg(e, (m - 1) as nat);
    }
}

proof fn lemma_s1_sq_sum_nonneg(e: ExpandedModel, m: nat)
    ensures
        s1_sq_sum(e, m) >= 0,
    decreases m,
{
    if m > 0 {
        lemma_s1_sq_sum_nonneg(e, (m - 1) as nat);
        let v = s1_coeff(e, m - 1);
        assert(v * v >= 0) by (nonlinear_arith);
    }
}

/// No false negatives: a bundle that the full verifier accepts passes the
/// fast verifier on every choice of positions in `[0, n)`.
pub proof fn lemma_full_implies_fast(e: ExpandedModel, idx: Seq<usize>, beta_sq: nat)
    requires
        indices_in_range(idx, e.challenge.len()),
        full_ok(e, beta_sq),
    ensures
        fast_ok(e, idx, beta_sq),
{
    assert forall|k: int| 0 <= k < idx.len() implies coordinate_ok(
        e,
        #[trigger] idx[k] as int,
        beta_sq,
    ) by {
        lemma_s1_coordinate_le_sum(e, idx[k] as int, e.challenge.len());
    }
}

/// Soundness of tiering: on every bundle and every choice of positions in
/// `[0, n)`, the dispatcher decides exactly as the full verifier.
pub proof fn lemma_tiering_sound(e: ExpandedModel, idx: Seq<usize>, n: nat)
    requires
        e.wf(n),
        indices_in_range(idx, n),
    ensures
        tiered_ok(e, idx, beta_sq_spec(n)) == full_ok(e, beta_sq_spec(n)),
{
    if full_ok(e, beta_sq_spec(n)) {
        lemma_full_implies_fast(e, idx, beta_sq_spec(n));
    }
}

/// No false negatives, from the signature: when `verify` accepts
/// `(message, signature, h)`, the fast verifier accepts its bundle on every
/// choice of positions in `[0, n)`.
pub proof fn lemma_valid_signature_passes_fast_path(
    message: Seq<u8>,
    salt: Seq<u8>,
    encoded_s2: Seq<u8>,
    h: Seq<u16>,
    n: nat,
    idx: Seq<usize>,
)
    requires
        verify_spec(message, salt, encoded_s2, h, n),
        indices_in_range(idx, n),
    ensures
        match expand_spec(message, salt, encoded_s2, h, n) {
            Ok(e) => fast_ok(e, idx, beta_sq_spec(n)),
            Err(_) => false,
        },
{
    if let Ok(e) = expand_spec(message, salt, encoded_s2, h, n) {
        lemma_full_implies_fast(e, idx, beta_sq_spec(n));
    }
}

/// Determinism: two bundles built from the same message, signature and key
/// are equal, so both verifiers decide the same on them.
pub proof fn lemma_expansion_deterministic(
    message: Seq<u8>,
    salt: Seq<u8>,
    encoded_s2: Seq<u8>,
    h: Seq<u16>,
    n: nat,
    e1: ExpandedModel,
    e2: ExpandedModel,
    idx: Seq<usize>,
)
    requires
        expand_spec(message, salt, encoded_s2, h, n) == Ok::<ExpandedModel, DecodeError>(e1),
        expand_spec(message, salt, encoded_s2, h, n) == Ok::<ExpandedModel, DecodeError>(e2),
    ensures
        e1 == e2,
        full_ok(e1, beta_sq_spec(n)) == full_ok(e2, beta_sq_spec(n)),
        fast_ok(e1, idx, beta_sq_spec(n)) == fast_ok(e2, idx, beta_sq_spec(n)),
{
}

} // verus!
