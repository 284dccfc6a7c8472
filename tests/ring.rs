use falcon_rust::ring::convolve;
use rand::{Rng, SeedableRng};

const Q: i64 = 12289;

fn naive(a: &[u16], b: &[u16]) -> Vec<u16> {
    let n = a.len();
    let mut acc = vec![0i64; n];
    for i in 0..n {
        for j in 0..n {
            let p = a[i] as i64 * b[j] as i64;
            if i + j < n {
                acc[i + j] += p;
            } else {
                acc[i + j - n] -= p;
            }
        }
    }
    acc.iter().map(|v| v.rem_euclid(Q) as u16).collect()
}

#[test]
fn convolve_by_x_wraps_with_negation() {
    let a = vec![1u16, 2, 3, 4];
    let x = vec![0u16, 1, 0, 0];
    assert_eq!(convolve(&a, &x), vec![12285u16, 1, 2, 3]);
}

#[test]
fn convolve_small_exact() {
    // (1 + 2x)(3 + x^3) = 3 + 6x + x^3 + 2x^4 = (3 - 2) + 6x + x^3 mod x^4 + 1
    assert_eq!(convolve(&vec![1u16, 2, 0, 0], &vec![3u16, 0, 0, 1]), vec![1u16, 6, 0, 1]);
    // Reduction modulo q: 12288 * 12288 = 1 mod q.
    assert_eq!(convolve(&vec![12288u16], &vec![12288u16]), vec![1u16]);
}

#[test]
fn convolve_identity_and_empty() {
    let mut rng = rand::rngs::StdRng::seed_from_u64(7);
    let a: Vec<u16> = (0..512).map(|_| rng.gen_range(0..12289u16)).collect();
    let mut one = vec![0u16; 512];
    one[0] = 1;
    assert_eq!(convolve(&a, &one), a);
    assert_eq!(convolve(&vec![], &vec![]), Vec::<u16>::new());
}

#[test]
fn convolve_matches_naive_product() {
    let mut rng = rand::rngs::StdRng::seed_from_u64(11);
    for n in [8usize, 512, 1024] {
        let a: Vec<u16> = (0..n).map(|_| rng.gen_range(0..12289u16)).collect();
        let b: Vec<u16> = (0..n).map(|_| rng.gen_range(0..12289u16)).collect();
        assert_eq!(convolve(&a, &b), naive(&a, &b));
    }
}
