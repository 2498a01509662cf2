use spai::solid::auth::{token_endpoint, DPoPBoundToken, TokenCache};

fn now_ms() -> i64 {
    chrono::Utc::now().timestamp_millis()
}

fn token(access: &str, expires_at: i64) -> DPoPBoundToken {
    DPoPBoundToken {
        access_token: access.to_string(),
        refresh_token: None,
        id_token: "test".to_string(),
        expires_at,
        dpop_bound: true,
    }
}

#[test]
fn test_token_expiration() {
    let token = token("test", now_ms() - 10 * 60 * 1000);
    assert!(token.is_expired());
}

#[test]
fn test_token_not_expired() {
    let token = token("test", now_ms() + 60 * 60 * 1000);
    assert!(!token.is_expired());
}

#[test]
fn expiry_has_a_five_minute_margin() {
    let t = token("a", 1_000_000);
    assert!(t.expired_at(700_000));
    assert!(!t.expired_at(699_999));
    assert!(t.expired_at(2_000_000));
}

#[test]
fn authorization_header_names_the_scheme() {
    assert_eq!(token("abc", 0).authorization(), "DPoP abc");
}

#[test]
fn reply_defaults_missing_tokens() {
    let t = DPoPBoundToken::from_reply(None, Some("r".to_string()), None, 1_000);
    assert_eq!(t.access_token, "");
    assert_eq!(t.id_token, "");
    assert_eq!(t.refresh_token, Some("r".to_string()));
    assert_eq!(t.expires_at, 3_601_000);
    assert!(t.dpop_bound);
}

#[test]
fn token_endpoint_drops_trailing_slashes() {
    assert_eq!(token_endpoint("https://idp.example/"), "https://idp.example/token");
    assert_eq!(token_endpoint("https://idp.example//"), "https://idp.example/token");
    assert_eq!(token_endpoint("https://idp.example"), "https://idp.example/token");
}

#[test]
fn cache_gives_back_what_was_stored() {
    let mut cache = TokenCache::new();
    assert!(cache.valid_token("https://idp.example/", 0).is_none());
    cache.insert("https://idp.example/".to_string(), token("one", 10_000_000));
    cache.insert("https://other.example/".to_string(), token("two", 10_000_000));
    cache.insert("https://idp.example/".to_string(), token("three", 10_000_000));
    assert_eq!(cache.valid_token("https://idp.example/", 0).unwrap().access_token, "three");
    assert_eq!(cache.valid_token("https://other.example/", 0).unwrap().access_token, "two");
}

#[test]
fn cache_skips_expired_tokens_and_clears() {
    let mut cache = TokenCache::new();
    cache.insert("i".to_string(), token("old", 1_000_000));
    assert!(cache.valid_token("i", 900_000).is_none());
    assert!(cache.valid_token("i", 600_000).is_some());
    cache.clear();
    assert!(cache.valid_token("i", 0).is_none());
}
