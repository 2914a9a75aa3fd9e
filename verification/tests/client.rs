use zkp_auth::bignum::BigNum;
use zkp_auth::client::{
    answer_challenge, commitment_secret, compute_response, login_succeeded,
    secret_from_passphrase, LoginError,
};
use zkp_auth::messages::{AuthenticationAnswerResponse, AuthenticationChallengeResponse};
use zkp_auth::parameters::GroupParameters;

fn n(value: u64) -> BigNum {
    BigNum::from_u64(value)
}

fn toy_group() -> GroupParameters {
    GroupParameters::new(n(23), n(11), n(4), n(9)).expect("the toy group is well formed")
}

#[test]
fn secret_from_passphrase_reads_the_bytes_least_significant_first() {
    assert!(secret_from_passphrase("abc") == n(0x636261));
    assert!(secret_from_passphrase("\u{1}") == n(1));
}

#[test]
fn secret_from_passphrase_of_nothing_is_zero() {
    assert!(secret_from_passphrase("") == n(0));
}

#[test]
fn secret_from_passphrase_is_never_negative() {
    // The last byte of the encoding of this letter is 0xbc.
    let secret = secret_from_passphrase("\u{fc}");
    assert!(secret == n(0xbcc3));
    assert!(!secret.less_than(&n(0)));
}

#[test]
fn compute_response_wraps_a_negative_difference() {
    assert!(compute_response(&toy_group(), &n(5), &n(2), &n(3)) == n(10));
}

#[test]
fn compute_response_reduces_a_positive_difference() {
    assert!(compute_response(&toy_group(), &n(9), &n(2), &n(3)) == n(3));
    assert!(compute_response(&toy_group(), &n(40), &n(2), &n(3)) == n(1));
}

#[test]
fn compute_response_of_a_multiple_of_the_order_is_zero() {
    assert!(compute_response(&toy_group(), &n(6), &n(2), &n(3)) == n(0));
    assert!(compute_response(&toy_group(), &n(0), &n(11), &n(3)) == n(0));
}

#[test]
fn compute_response_lies_below_the_order() {
    for k in 0..15u64 {
        for c in 0..15u64 {
            for x in 0..15u64 {
                let s = compute_response(&toy_group(), &n(k), &n(c), &n(x));
                assert!(!s.less_than(&n(0)));
                assert!(s.less_than(&n(11)));
            }
        }
    }
}

#[test]
fn commitment_secret_lies_in_its_range() {
    let group = toy_group();
    for _ in 0..200 {
        let k = commitment_secret(&group);
        assert!(!k.less_than(&n(2)));
        assert!(k.less_than(&n(9)));
    }
}

#[test]
fn commitment_secret_of_the_smallest_order_is_two() {
    let group = GroupParameters::new(n(11), n(5), n(3), n(4)).expect("well formed");
    for _ in 0..20 {
        assert!(commitment_secret(&group) == n(2));
    }
}

#[test]
fn answer_challenge_stops_when_the_user_is_not_registered() {
    let reply = AuthenticationChallengeResponse {
        auth_id: "UserNotRegistered".to_string(),
        c: "2".to_string(),
    };
    assert_eq!(answer_challenge(&toy_group(), &n(5), &n(3), &reply), Err(LoginError::NotRegistered));
}

#[test]
fn answer_challenge_stops_on_a_malformed_challenge() {
    let reply = AuthenticationChallengeResponse { auth_id: "1f".to_string(), c: "two".to_string() };
    assert_eq!(
        answer_challenge(&toy_group(), &n(5), &n(3), &reply),
        Err(LoginError::MalformedChallenge)
    );
}

#[test]
fn answer_challenge_checks_registration_before_the_challenge() {
    let reply = AuthenticationChallengeResponse {
        auth_id: "UserNotRegistered".to_string(),
        c: "".to_string(),
    };
    assert_eq!(answer_challenge(&toy_group(), &n(5), &n(3), &reply), Err(LoginError::NotRegistered));
}

#[test]
fn answer_challenge_sends_the_response_under_the_same_key() {
    let reply = AuthenticationChallengeResponse { auth_id: "1f".to_string(), c: "2".to_string() };
    let answer = answer_challenge(&toy_group(), &n(5), &n(3), &reply).expect("an answer");
    assert_eq!(answer.auth_id, "1f");
    assert_eq!(answer.s, "a");
}

#[test]
fn login_succeeded_tells_the_reserved_text_from_a_token() {
    let failed = AuthenticationAnswerResponse { session_id: "WrongCredentials".to_string() };
    let opened = AuthenticationAnswerResponse { session_id: "123456abcdef".to_string() };
    assert!(!login_succeeded(&failed));
    assert!(login_succeeded(&opened));
}
