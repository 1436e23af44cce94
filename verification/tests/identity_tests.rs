use bech32::ToBase32;
use ext_cardano_dbsync::controller::DbSyncPortStatus;
use ext_cardano_dbsync::identity::{gen_password, gen_username_hash, truncated};
use sha3::Digest;

fn expected_username(text: &str) -> String {
    let digest = sha3::Sha3_256::digest(text.as_bytes());
    let encoded =
        bech32::encode("dmtr_dbsync", digest.to_base32(), bech32::Variant::Bech32).unwrap();
    encoded.chars().take(32).collect()
}

#[test]
fn the_user_name_is_the_truncated_encoding_of_the_digest() {
    for text in ["alice.prj-demo", "", "bob.prj-other", "ünïcödé.prj-x"] {
        assert_eq!(gen_username_hash(text).unwrap(), expected_username(text));
    }
}

#[test]
fn the_user_name_is_stable_across_calls() {
    let once = gen_username_hash("alice.prj-demo").unwrap();
    let again = gen_username_hash("alice.prj-demo").unwrap();
    assert_eq!(once, again);
    assert_ne!(once, gen_username_hash("alice.prj-demo2").unwrap());
    assert_ne!(once, "alice.prj-demo");
}

#[test]
fn the_user_name_is_a_database_identifier() {
    for text in ["alice.prj-demo", "x", "A Name With Spaces.prj-1"] {
        let name = gen_username_hash(text).unwrap();
        assert_eq!(name.chars().count(), 32);
        assert!(name.starts_with("dmtr_dbsync1"));
        assert!(name.chars().all(|c| c.is_ascii_lowercase() || c.is_ascii_digit() || c == '_'));
    }
}

#[test]
fn passwords_are_sixteen_letters_and_digits() {
    let password = gen_password();
    assert_eq!(password.chars().count(), 16);
    assert!(password.chars().all(|c| c.is_ascii_alphanumeric()));
    assert_ne!(gen_password(), gen_password());
}

#[test]
fn texts_are_cut_to_a_length() {
    assert_eq!(truncated("abcdef", 3), "abc");
    assert_eq!(truncated("abc", 3), "abc");
    assert_eq!(truncated("ab", 3), "ab");
    assert_eq!(truncated("", 0), "");
    assert_eq!(truncated("héllo", 2), "hé");
}

#[test]
fn a_fresh_credential_derives_the_user_and_draws_the_password() {
    let status = DbSyncPortStatus::try_new("alice", "prj-demo").unwrap();
    assert_eq!(status.username, expected_username("alice.prj-demo"));
    assert_eq!(status.password.chars().count(), 16);
    assert!(status.password.chars().all(|c| c.is_ascii_alphanumeric()));
    let other = DbSyncPortStatus::try_new("alice", "prj-demo").unwrap();
    assert_eq!(other.username, status.username);
    assert_ne!(other.password, status.password);
}

#[test]
fn a_credential_with_a_given_password_keeps_it() {
    let status = DbSyncPortStatus::with_password("alice", "prj-demo", "pw".to_string()).unwrap();
    assert_eq!(status.username, expected_username("alice.prj-demo"));
    assert_eq!(status.password, "pw");
}
