use invoicelift::pedersen::{
    add_commitments, commit, find_inverse, mod_inverse, mod_mul, reduce_u128, scale_commitment,
    unsigned_bits, verify, P, P_U128,
};

#[test]
fn test_commit_is_deterministic() {
    let c1 = commit(1000, 42);
    let c2 = commit(1000, 42);
    assert_eq!(c1, c2);
}

#[test]
fn test_commit_hides_value() {
    let c1 = commit(1000, 42);
    let c2 = commit(2000, 99);
    assert_ne!(c1, c2);
}

#[test]
fn test_different_blinding_different_commitment() {
    let c1 = commit(1000, 1);
    let c2 = commit(1000, 2);
    assert_ne!(c1, c2);
}

#[test]
fn test_homomorphic_addition() {
    let v1: i128 = 5000;
    let r1: i128 = 111;
    let v2: i128 = 3000;
    let r2: i128 = 222;

    let c1 = commit(v1, r1);
    let c2 = commit(v2, r2);
    let c_sum = add_commitments(c1, c2);
    let c_direct = commit(v1 + v2, r1 + r2);

    assert_eq!(c_sum, c_direct);
}

#[test]
fn test_verify_correct_opening() {
    let c = commit(12345, 67890);
    assert!(verify(c, 12345, 67890));
}

#[test]
fn test_verify_wrong_value_fails() {
    let c = commit(12345, 67890);
    assert!(!verify(c, 99999, 67890));
}

#[test]
fn test_verify_wrong_blinding_fails() {
    let c = commit(12345, 67890);
    assert!(!verify(c, 12345, 11111));
}

#[test]
fn test_scale_commitment_correctness() {
    let v: i128 = 10_000;
    let r: i128 = 555;
    let c = commit(v, r);

    let scaled_c = scale_commitment(c, 3000, 10_000);
    let scaled_c2 = scale_commitment(c, 3000, 10_000);
    assert_eq!(scaled_c, scaled_c2);
}

#[test]
fn test_split_sums_to_total() {
    let v: i128 = 100_000;
    let r: i128 = 777;
    let c = commit(v, r);

    let c_60 = scale_commitment(c, 6000, 10_000);
    let c_40 = scale_commitment(c, 4000, 10_000);
    let c_sum = add_commitments(c_60, c_40);

    assert_eq!(c_sum, c);
}

#[test]
fn test_overflow_safety() {
    let v: i128 = i128::MAX / 4;
    let r: i128 = i128::MAX / 8;
    let c = commit(v, r);
    assert!(c >= 0 && c < P);
}

#[test]
fn test_mod_inverse_correctness() {
    let inv = mod_inverse(10_000, P);
    let product = mod_mul(10_000, inv, P);
    assert_eq!(product, 1);
}

#[test]
fn a_commitment_weighs_value_and_blinding() {
    assert_eq!(commit(1000, 42), 5294);
    assert_eq!(commit(0, 0), 0);
    assert_eq!(commit(-1, 0), P - 5);
    assert_eq!(commit(P, P), 0);
}

#[test]
fn multiplication_wraps_at_the_prime() {
    assert_eq!(mod_mul(P - 1, P - 1, P), 1);
    assert_eq!(mod_mul(P - 1, 2, P), P - 2);
    assert_eq!(mod_mul(-3, 5, P), P - 15);
    assert_eq!(mod_mul(P, 12345, P), 0);
    assert_eq!(mod_mul(i128::MIN, 1, P), P - 1);
    assert_eq!(mod_mul(1 << 126, 2, P), 1);
    assert_eq!(mod_mul(1 << 100, 1 << 100, P), 1 << 73);
}

#[test]
fn reduction_folds_the_top_bit() {
    assert_eq!(reduce_u128(0), 0);
    assert_eq!(reduce_u128(P_U128), 0);
    assert_eq!(reduce_u128(P_U128 + 1), 1);
    assert_eq!(reduce_u128(u128::MAX), 1);
}

#[test]
fn an_inverse_exists_exactly_for_coprime_numbers() {
    assert_eq!(find_inverse(3, 7), Some(5));
    assert_eq!(find_inverse(6, 9), None);
    assert_eq!(find_inverse(0, 7), None);
    assert_eq!(find_inverse(-4, 7), Some(5));
    assert_eq!(find_inverse(4, 1), Some(0));
}

#[test]
fn a_negative_commitment_is_taken_by_its_bits() {
    assert_eq!(unsigned_bits(-1), u128::MAX);
    assert_eq!(unsigned_bits(7), 7);
    assert_eq!(add_commitments(-1, 0), 1);
}

#[test]
fn an_exact_share_opens_to_the_shared_amounts() {
    let c = commit(10_000, 500);
    assert_eq!(scale_commitment(c, 3_000, 10_000), commit(3_000, 150));
    assert!(verify(scale_commitment(c, 3_000, 10_000), 3_000, 150));
}

#[test]
fn equal_values_in_the_field_open_alike() {
    let c = commit(3, 9);
    assert!(verify(c, 3 - P, 9));
    assert!(verify(c, 3, 9 - P));
}

#[test]
fn a_full_split_sums_back_at_any_scale() {
    for c in [0, 1, 123_456_789, P - 1] {
        for (a, b) in [(1, 2), (-5, 12), (P - 1, -9), (1 << 100, 77), (3, -10)] {
            let scale = a + b;
            let sum = add_commitments(scale_commitment(c, a, scale), scale_commitment(c, b, scale));
            assert_eq!(sum, c);
        }
    }
}

#[test]
fn every_number_below_the_prime_has_an_inverse() {
    for a in [1, 2, 3, 7, 127, 10_007, 1 << 64, P - 1, -1, P / 2] {
        let inv = find_inverse(a, P).unwrap();
        assert_eq!(mod_mul(a, inv, P), 1);
    }
    assert_eq!(find_inverse(0, P), None);
    assert_eq!(find_inverse(P, P), None);
    assert_eq!(find_inverse(-P, P), None);
}
