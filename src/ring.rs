//! Negacyclic multiplication in Z_q[x]/(x^n + 1).
use vstd::prelude::*;
use crate::params::Q;

verus! {

/// Product `a[i] * b[k - i]` contributed to coefficient `k`; a term that wraps
/// past degree `n` comes back negated, since x^n = -1.
pub open spec fn neg_term(a: Seq<u16>, b: Seq<u16>, k: int, i: int) -> int {
    if i <= k {
        a[i] * b[k - i]
    } else {
        -(a[i] * b[a.len() + k - i])
    }
}

/// Sum of the first `m` terms of coefficient `k` of the product, over the integers.
pub open spec fn conv_sum(a: Seq<u16>, b: Seq<u16>, k: int, m: nat) -> int
    decreases m,
{
    if m == 0 {
        0
    } else {
        conv_sum(a, b, k, (m - 1) as nat) + neg_term(a, b, k, m - 1)
    }
}

/// `a * b mod q mod (x^n + 1)`, each coefficient in `[0, q)`.
pub open spec fn convolve_spec(a: Seq<u16>, b: Seq<u16>) -> Seq<u16> {
    Seq::new(a.len(), |k: int| (conv_sum(a, b, k, a.len()) % (Q as int)) as u16)
}

/// Coefficients all reduced into `[0, q)`.
pub open spec fn reduced(a: Seq<u16>) -> bool {
    forall|i: int| 0 <= i < a.len() ==> #[trigger] a[i] < Q
}

proof fn lemma_term_bound(a: Seq<u16>, b: Seq<u16>, k: int, i: int)
    requires
        reduced(a),
        reduced(b),
        a.len() == b.len(),
        0 <= i < a.len(),
        0 <= k < a.len(),
    ensures
        -(Q * Q) <= neg_term(a, b, k, i) <= Q * Q,
{
    let j = if i <= k {
        k - i
    } else {
        a.len() + k - i
    };
    let x = a[i] as int;
    let y = b[j] as int;
    assert(0 <= x < Q);
    assert(0 <= y < Q);
    assert(0 <= x * y <= Q * Q) by (nonlinear_arith)
        requires
            0 <= x < Q,
            0 <= y < Q,
    ;
}

/// Multiplies two reduced polynomials of the same degree in the ring.
///
/// Computed coefficient by coefficient (schoolbook), exactly over the
/// integers before the one final reduction modulo q.
pub fn convolve(a: &Vec<u16>, b: &Vec<u16>) -> (r: Vec<u16>)
    requires
        a@.len() == b@.len(),
        a@.len() <= 1024,
        reduced(a@),
        reduced(b@),
    ensures
        r@ == convolve_spec(a@, b@),
        reduced(r@),
{
    let n: usize = a.len();
    let qq: u64 = 151019521;
    assert(qq == Q * Q);
    let offset: u64 = (n as u64) * qq;
    let mut r: Vec<u16> = Vec::new();
    let mut k: usize = 0;
    while k < n
        invariant
            0 <= k <= n,
            n == a@.len(),
            n == b@.len(),
            n <= 1024,
            qq == Q * Q,
            offset == n * qq,
            reduced(a@),
            reduced(b@),
            r@.len() == k,
            forall|j: int| 0 <= j < k ==> #[trigger] r@[j] == convolve_spec(a@, b@)[j],
        decreases n - k,
    {
        let mut acc: u64 = offset;
        let mut i: usize = 0;
        while i < n
            invariant
                0 <= i <= n,
                0 <= k < n,
                n == a@.len(),
                n == b@.len(),
                n <= 1024,
                qq == Q * Q,
                offset == n * qq,
                reduced(a@),
                reduced(b@),
                acc as int == offset + conv_sum(a@, b@, k as int, i as nat),
                -(i * qq) <= conv_sum(a@, b@, k as int, i as nat) <= i * qq,
            decreases n - i,
        {
            proof {
                lemma_term_bound(a@, b@, k as int, i as int);
                let cs = conv_sum(a@, b@, k as int, i as nat);
                assert(offset + cs >= (n - i) * qq && offset + cs <= (n + i) * qq)
                    by (nonlinear_arith)
                    requires
                        offset == n * qq,
                        -(i * qq) <= cs <= i * qq,
                ;
                assert((n - i) * qq >= qq && (n + i) * qq + qq <= 2048 * qq) by (nonlinear_arith)
                    requires
                        i < n,
                        n <= 1024,
                        qq > 0,
                ;
            }
            if i <= k {
                let prod: u64 = (a[i] as u64) * (b[k - i] as u64);
                assert(prod == neg_term(a@, b@, k as int, i as int));
                acc = acc + prod;
            } else {
                let prod: u64 = (a[i] as u64) * (b[n + k - i] as u64);
                assert(-prod == neg_term(a@, b@, k as int, i as int));
                acc = acc - prod;
            }
            proof {
                assert((i + 1) * qq == i * qq + qq) by (nonlinear_arith);
            }
            i = i + 1;
        }
        let c: u16 = (acc % (Q as u64)) as u16;
        proof {
            let s = conv_sum(a@, b@, k as int, n as nat);
            assert(acc as int == Q * (n * Q) + s) by (nonlinear_arith)
                requires
                    acc as int == offset + s,
                    offset == n * qq,
                    qq == Q * Q,
            ;
            vstd::arithmetic::div_mod::lemma_mod_multiples_vanish(n * Q, s, Q as int);
        }
        r.push(c);
        k = k + 1;
    }
    assert(r@ =~= convolve_spec(a@, b@));
    r
}

} // verus!
