use spai::solid::identity::{ProfileError, WebIdProfile};

#[test]
fn test_webid_profile_parsing() {
    let profile = WebIdProfile {
        webid: "https://alice.example/profile/card#me".to_string(),
        name: Some("Alice".to_string()),
        oidc_issuer: Some("https://idp.example/".to_string()),
        storage: Some("https://alice.example/".to_string()),
        inbox: Some("https://alice.example/inbox/".to_string()),
    };
    assert_eq!(profile.webid, "https://alice.example/profile/card#me");
    assert_eq!(profile.name, Some("Alice".to_string()));
    assert!(profile.require_oidc_issuer().is_ok());
    assert!(profile.require_storage().is_ok());
}

#[test]
fn required_urls_are_parsed() {
    let profile = WebIdProfile {
        webid: "https://bob.example/#me".to_string(),
        name: None,
        oidc_issuer: Some("https://IDP.example".to_string()),
        storage: None,
        inbox: None,
    };
    let issuer = profile.require_oidc_issuer().unwrap();
    assert_eq!(issuer.text, "https://idp.example/");
    assert_eq!(issuer.domain, Some("idp.example".to_string()));
    assert_eq!(profile.require_storage().unwrap_err(), ProfileError::MissingStorage);
}

#[test]
fn invalid_urls_are_refused() {
    let profile = WebIdProfile {
        webid: "x".to_string(),
        name: None,
        oidc_issuer: Some("not a url".to_string()),
        storage: Some("::".to_string()),
        inbox: None,
    };
    let e = profile.require_oidc_issuer().unwrap_err();
    assert_eq!(e, ProfileError::InvalidOidcIssuer);
    assert_eq!(e.message(), "Invalid OIDC issuer URL");
    assert_eq!(profile.require_storage().unwrap_err(), ProfileError::InvalidStorage);
    let none = WebIdProfile { webid: "x".to_string(), name: None, oidc_issuer: None, storage: None, inbox: None };
    assert_eq!(none.require_oidc_issuer().unwrap_err().message(), "WebID profile does not specify an OIDC issuer");
}
