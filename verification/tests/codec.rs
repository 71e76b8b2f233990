use geohub::codec::channel_name;
use geohub::codec::decode_notify_payload;
use geohub::codec::encode_notify_payload;
use geohub::codec::str_eq;
use geohub::ids::name_and_secret_acceptable;
use geohub::ids::normalize_secret;

#[test]
fn encode_with_secret() {
    let token = encode_notify_payload("bob", &Some("xyz".to_string()));
    assert_eq!(token, "bob xyz");
}

#[test]
fn encode_without_secret() {
    let token = encode_notify_payload("alice", &None);
    assert_eq!(token, "alice ");
}

#[test]
fn round_trip_with_secret() {
    let token = encode_notify_payload("bob", &Some("xyz".to_string()));
    let (client, secret) = decode_notify_payload(&token);
    assert_eq!(client, "bob");
    assert_eq!(secret, Some("xyz".to_string()));
}

#[test]
fn round_trip_without_secret() {
    // An absent secret reads back as the empty secret: both name the same
    // session (same channel, same key).
    let token = encode_notify_payload("alice", &None);
    let (client, secret) = decode_notify_payload(&token);
    assert_eq!(client, "alice");
    assert_eq!(secret, Some("".to_string()));
}

#[test]
fn round_trip_alphanumeric_samples() {
    let pairs: Vec<(&str, Option<&str>)> = vec![
        ("a", None),
        ("a", Some("b")),
        ("Client42", Some("S3cret")),
        ("0", Some("0")),
        ("ABCxyz999", None),
    ];
    for (client, secret) in pairs {
        let secret_owned = secret.map(|s| s.to_string());
        let token = encode_notify_payload(client, &secret_owned);
        let (c, s) = decode_notify_payload(&token);
        assert_eq!(c, client);
        // The characters of the secret survive exactly; absent comes back
        // as empty.
        assert_eq!(s.unwrap(), secret.unwrap_or(""));
    }
}

#[test]
fn decode_without_space() {
    let (client, secret) = decode_notify_payload("alice");
    assert_eq!(client, "alice");
    assert_eq!(secret, None);
}

#[test]
fn decode_empty() {
    let (client, secret) = decode_notify_payload("");
    assert_eq!(client, "");
    assert_eq!(secret, None);
}

#[test]
fn decode_takes_second_token() {
    let (client, secret) = decode_notify_payload("a b c");
    assert_eq!(client, "a");
    assert_eq!(secret, Some("b".to_string()));
}

#[test]
fn decode_trailing_space_gives_empty_secret() {
    let (client, secret) = decode_notify_payload("alice ");
    assert_eq!(client, "alice");
    assert_eq!(secret, Some("".to_string()));
}

#[test]
fn channel_name_with_secret() {
    assert_eq!(channel_name("bob", "xyz"), "geohubclient_update_bob_xyz");
}

#[test]
fn channel_name_without_secret() {
    assert_eq!(channel_name("alice", ""), "geohubclient_update_alice_");
}

#[test]
fn str_eq_matches_std() {
    assert!(str_eq("", ""));
    assert!(str_eq("abc", "abc"));
    assert!(!str_eq("abc", "abd"));
    assert!(!str_eq("abc", "abcd"));
}

#[test]
fn acceptable_names() {
    assert!(name_and_secret_acceptable("alice", None));
    assert!(name_and_secret_acceptable("alice42", Some("S3cret")));
    assert!(name_and_secret_acceptable("", None));
}

#[test]
fn empty_secret_normalizes_to_none() {
    assert_eq!(normalize_secret(Some("".to_string())), None);
    assert_eq!(normalize_secret(Some("xyz".to_string())), Some("xyz".to_string()));
    assert_eq!(normalize_secret(None), None);
}

#[test]
fn unacceptable_names() {
    assert!(!name_and_secret_acceptable("bad name", None));
    assert!(!name_and_secret_acceptable("alice", Some("se cret")));
    assert!(!name_and_secret_acceptable("under_score", None));
    assert!(!name_and_secret_acceptable("semi;colon", None));
    assert!(!name_and_secret_acceptable("alice", Some("x'y")));
}
