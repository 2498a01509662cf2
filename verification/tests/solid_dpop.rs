use base64::Engine;
use spai::json::Json;
use spai::solid::dpop::DPoPManager;

#[test]
fn test_ath_computation() {
    let token = "test_access_token";
    let ath = DPoPManager::compute_ath(token);
    assert!(!ath.contains('+'));
    assert!(!ath.contains('/'));
    assert!(!ath.contains('='));
}

#[test]
fn ath_is_the_hash_of_the_token() {
    // SHA-256 of the empty string, base64url without padding.
    assert_eq!(DPoPManager::compute_ath(""), "47DEQpj8HBSa-_TImW-5JCeuQeRkm5NMpJWZG3hSuFU");
    assert_eq!(DPoPManager::compute_ath("abc").len(), 43);
}

#[test]
fn test_dpop_generation() {
    let manager = DPoPManager::generate().unwrap();
    let proof = manager
        .create_proof("GET", "https://example.com/resource", None)
        .unwrap();
    assert!(proof.split('.').count() == 3);
}

#[test]
fn test_public_jwk() {
    let manager = DPoPManager::generate().unwrap();
    let jwk = manager.public_jwk();
    assert_eq!(jwk.get_str("kty"), Some("EC".to_string()));
    assert_eq!(jwk.get_str("crv"), Some("P-256".to_string()));
    assert!(jwk.get_str("x").is_some());
    assert!(jwk.get_str("y").is_some());
}

#[test]
fn assembled_proof_carries_header_and_claims() {
    let manager = DPoPManager::generate().unwrap();
    let proof = manager
        .assemble_proof("id-1", 1_700_000_000, "POST", "https://rs.example/x", Some("hash"))
        .unwrap();
    let parts: Vec<&str> = proof.split('.').collect();
    assert_eq!(parts.len(), 3);
    let claims = base64::engine::general_purpose::URL_SAFE_NO_PAD.decode(parts[1]).unwrap();
    let claims = String::from_utf8(claims).unwrap();
    assert_eq!(
        claims,
        "{\"jti\":\"id-1\",\"htm\":\"POST\",\"htu\":\"https://rs.example/x\",\"iat\":1700000000,\"ath\":\"hash\"}"
    );
    let header = base64::engine::general_purpose::URL_SAFE_NO_PAD.decode(parts[0]).unwrap();
    let header = String::from_utf8(header).unwrap();
    assert!(header.starts_with("{\"typ\":\"dpop+jwt\",\"alg\":\"ES256\",\"jwk\":{\"crv\":\"P-256\",\"kty\":\"EC\""));
    assert!(header.ends_with(&format!("\"kid\":\"{}\"}}", manager.kid())));
}

#[test]
fn key_ids_differ_between_key_pairs() {
    let a = DPoPManager::generate().unwrap();
    let b = DPoPManager::generate().unwrap();
    assert_ne!(a.kid(), b.kid());
    let _ = Json::Null;
}
