use falcon_rust::hash::{hash_to_point, make_hash_input};

#[test]
fn hash_to_point_of_empty_input() {
    // SHAKE256 of the empty string begins 46b9 dd2b 0ba8 8d13.
    assert_eq!(hash_to_point(&vec![], 4), Some(vec![5816u16, 7463, 2984, 11537]));
}

#[test]
fn hash_to_point_is_deterministic_and_reduced() {
    let input = make_hash_input(&[7u8; 40], &[0u8; 32]);
    let a = hash_to_point(&input, 512).unwrap();
    let b = hash_to_point(&input, 512).unwrap();
    assert_eq!(a, b);
    assert_eq!(a.len(), 512);
    assert!(a.iter().all(|&c| c < 12289));
    let other = hash_to_point(&make_hash_input(&[8u8; 40], &[0u8; 32]), 512).unwrap();
    assert_ne!(a, other);
    let longer = hash_to_point(&input, 1024).unwrap();
    assert_eq!(&longer[..512], &a[..]);
}

#[test]
fn hash_input_is_salt_then_message() {
    assert_eq!(make_hash_input(&[1, 2], &[3, 4, 5]), vec![1u8, 2, 3, 4, 5]);
    assert_eq!(make_hash_input(&[], &[]), Vec::<u8>::new());
}
