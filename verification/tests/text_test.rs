use dmart::text::{decimal_string, token_id};

#[test]
fn decimal_matches_to_string() {
    for n in [0u64, 7, 10, 99, 100, 1_234_567_890, u64::MAX] {
        assert_eq!(decimal_string(n), n.to_string());
    }
}

#[test]
fn token_id_uses_seconds() {
    assert_eq!(token_id(1_650_000_000_123_456_789, "_", &"alice.near".to_string()), "1650000000_alice.near");
    assert_eq!(token_id(999_999_999, "_invite_", &"bob".to_string()), "0_invite_bob");
}
