use num_bigint::BigInt;
use std::collections::hash_map::DefaultHasher;
use std::hash::{Hash, Hasher};
use zkp_auth::bignum::BigNum;
use zkp_auth::encoding::to_hex;
use zkp_auth::parameters::GroupParameters;
use zkp_auth::zkp_utils::{
    default_hash, identity_key, mod_exp, random_big_int, zkp_authentication_challenge,
    zkp_register, zkp_verify_authentication,
};

fn n(value: u64) -> BigNum {
    BigNum::from_u64(value)
}

fn negative(value: i64) -> BigNum {
    BigNum { bytes: BigInt::from(value).to_signed_bytes_le() }
}

fn toy_group() -> GroupParameters {
    GroupParameters::new(n(23), n(11), n(4), n(9)).expect("the toy group is well formed")
}

#[test]
fn mod_exp_registration_values_of_the_toy_group() {
    assert!(mod_exp(&n(4), &n(3), &n(23)) == n(18));
    assert!(mod_exp(&n(9), &n(3), &n(23)) == n(16));
}

#[test]
fn mod_exp_commitment_values_of_the_toy_group() {
    // 4^5 = 1024 = 44 * 23 + 12 and 9^5 = 59049 = 2567 * 23 + 8.
    assert!(mod_exp(&n(4), &n(5), &n(23)) == n(12));
    assert!(mod_exp(&n(9), &n(5), &n(23)) == n(8));
}

#[test]
fn mod_exp_with_modulus_one_is_zero() {
    assert!(mod_exp(&n(4), &n(3), &n(1)) == n(0));
    assert!(mod_exp(&n(0), &n(0), &n(1)) == n(0));
}

#[test]
fn mod_exp_with_exponent_zero_is_one() {
    assert!(mod_exp(&n(4), &n(0), &n(23)) == n(1));
    assert!(mod_exp(&n(0), &n(0), &n(23)) == n(1));
}

#[test]
fn mod_exp_counts_a_negative_exponent_as_zero() {
    assert!(mod_exp(&n(4), &negative(-5), &n(23)) == n(1));
}

#[test]
fn mod_exp_of_base_zero_is_zero() {
    assert!(mod_exp(&n(0), &n(5), &n(23)) == n(0));
}

#[test]
fn mod_exp_reduces_a_base_above_the_modulus() {
    assert!(mod_exp(&n(27), &n(3), &n(23)) == n(18));
}

#[test]
fn mod_exp_normalizes_a_negative_base() {
    assert!(mod_exp(&negative(-2), &n(3), &n(7)) == n(6));
    assert!(mod_exp(&negative(-2), &n(2), &n(7)) == n(4));
    assert!(mod_exp(&negative(-1), &n(1), &n(23)) == n(22));
}

#[test]
fn mod_exp_agrees_with_modpow_on_large_values() {
    let base = BigInt::parse_bytes(b"123456789abcdef0123456789abcdef", 16).unwrap();
    let exponent = BigInt::parse_bytes(b"fedcba9876543210fedcba9876543210", 16).unwrap();
    let modulus = BigInt::parse_bytes(b"ffffffffffffffffffffffffffffff61", 16).unwrap();
    let expected = base.modpow(&exponent, &modulus);
    let result = mod_exp(
        &BigNum { bytes: base.to_signed_bytes_le() },
        &BigNum { bytes: exponent.to_signed_bytes_le() },
        &BigNum { bytes: modulus.to_signed_bytes_le() },
    );
    assert_eq!(BigInt::from_signed_bytes_le(&result.bytes), expected);
}

#[test]
fn mod_exp_result_lies_below_the_modulus() {
    for base in 0..30u64 {
        for exponent in 0..12u64 {
            let result = mod_exp(&n(base), &n(exponent), &n(23));
            assert!(!result.less_than(&n(0)));
            assert!(result.less_than(&n(23)));
        }
    }
}

#[test]
fn mod_exp_matches_repeated_multiplication() {
    for base in 0..23u64 {
        let mut expected = 1u64;
        for exponent in 0..25u64 {
            assert!(mod_exp(&n(base), &n(exponent), &n(23)) == n(expected));
            expected = expected * base % 23;
        }
    }
}

#[test]
fn random_big_int_stays_in_its_range() {
    for _ in 0..200 {
        let drawn = random_big_int(n(2), n(10));
        assert!(!drawn.less_than(&n(2)));
        assert!(drawn.less_than(&n(10)));
    }
}

#[test]
fn random_big_int_of_a_range_of_one_is_its_lower_bound() {
    for _ in 0..20 {
        assert!(random_big_int(n(7), n(8)) == n(7));
    }
}

#[test]
fn random_big_int_handles_ranges_that_start_below_zero() {
    for _ in 0..100 {
        let drawn = random_big_int(negative(-3), n(3));
        assert!(!drawn.less_than(&negative(-3)));
        assert!(drawn.less_than(&n(3)));
    }
}

#[test]
fn random_big_int_reaches_every_value_of_a_small_range() {
    let mut seen = [false; 4];
    for _ in 0..400 {
        let drawn = random_big_int(n(0), n(4));
        for (value, slot) in seen.iter_mut().enumerate() {
            if drawn == n(value as u64) {
                *slot = true;
            }
        }
    }
    assert!(seen.iter().all(|hit| *hit));
}

#[test]
fn default_hash_is_the_standard_hash_of_the_string() {
    for name in ["alice", "", "bob\n", "J\u{fc}rgen"] {
        let mut hasher = DefaultHasher::new();
        name.to_string().hash(&mut hasher);
        assert!(default_hash(name) == n(hasher.finish()));
    }
}

#[test]
fn default_hash_depends_on_the_name_alone() {
    assert!(default_hash("alice") == default_hash("alice"));
    assert!(default_hash("alice") != default_hash("bob"));
}

#[test]
fn identity_key_is_the_hash_in_base_16() {
    assert_eq!(identity_key("alice"), to_hex(&default_hash("alice")));
    assert!(identity_key("alice").chars().all(|c| c.is_ascii_hexdigit() && !c.is_ascii_uppercase()));
}

#[test]
fn identity_key_is_never_a_reserved_text() {
    for name in ["alice", "bob", "UserNotRegistered", "WrongCredentials", ""] {
        assert_ne!(identity_key(name), "UserNotRegistered");
        assert_ne!(identity_key(name), "WrongCredentials");
    }
}

#[test]
fn zkp_register_carries_the_commitments_to_the_secret() {
    let request = zkp_register(&toy_group(), &"alice".to_string(), &n(3));
    assert_eq!(request.user, "alice");
    assert_eq!(request.y1, "12");
    assert_eq!(request.y2, "10");
}

#[test]
fn zkp_authentication_challenge_carries_the_commitments_to_the_exponent() {
    let request = zkp_authentication_challenge(&toy_group(), &"alice".to_string(), &n(5));
    assert_eq!(request.user, "alice");
    assert_eq!(request.r1, "c");
    assert_eq!(request.r2, "8");
}

#[test]
fn zkp_verify_authentication_carries_the_response() {
    let request = zkp_verify_authentication(&n(10), "1f");
    assert_eq!(request.auth_id, "1f");
    assert_eq!(request.s, "a");
}

#[test]
fn compute_commitments_raises_both_generators() {
    let (first, second) = zkp_auth::zkp_utils::compute_commitments(&toy_group(), &n(3));
    assert!(first == n(18) && second == n(16));
    let (first, second) = zkp_auth::zkp_utils::compute_commitments(&toy_group(), &n(0));
    assert!(first == n(1) && second == n(1));
    let (first, second) = zkp_auth::zkp_utils::compute_commitments(&toy_group(), &n(11));
    assert!(first == n(1) && second == n(1));
}
