use spai::solid::consent::{ConsentManifest, ConsentValue, DomainConsentPolicy};
use spai::solid::identity::ParsedUrl;

#[test]
fn test_consent_value_parsing() {
    assert_eq!(ConsentValue::from_str("Allow"), ConsentValue::Allow);
    assert_eq!(ConsentValue::from_str("deny"), ConsentValue::Deny);
    assert_eq!(ConsentValue::from_str("AskUser"), ConsentValue::AskUser);
    assert_eq!(ConsentValue::from_str("unknown"), ConsentValue::Deny);
}

#[test]
fn test_domain_policy_blocked() {
    let policy = DomainConsentPolicy {
        domain: "evil.com".to_string(),
        essential: ConsentValue::Deny,
        functional: ConsentValue::Deny,
        analytics: ConsentValue::Deny,
        advertising: ConsentValue::Deny,
    };

    assert!(policy.is_blocked());
}

#[test]
fn test_domain_policy_requires_approval() {
    let policy = DomainConsentPolicy {
        domain: "example.com".to_string(),
        essential: ConsentValue::Allow,
        functional: ConsentValue::Allow,
        analytics: ConsentValue::AskUser,
        advertising: ConsentValue::Deny,
    };

    assert!(policy.requires_user_approval());
    assert_eq!(policy.unconfigured_categories(), vec!["analytics"]);
}

#[test]
fn fallback_policy_allows_only_essential() {
    let policy = DomainConsentPolicy::fallback("unknown.org".to_string());
    assert_eq!(policy.essential, ConsentValue::Allow);
    assert_eq!(policy.functional, ConsentValue::Deny);
    assert!(!policy.is_blocked());
    assert!(!policy.requires_user_approval());
    assert!(policy.unconfigured_categories().is_empty());
}

#[test]
fn every_asking_category_is_listed_in_order() {
    let policy = DomainConsentPolicy {
        domain: "a.b".to_string(),
        essential: ConsentValue::AskUser,
        functional: ConsentValue::Deny,
        analytics: ConsentValue::AskUser,
        advertising: ConsentValue::AskUser,
    };
    assert_eq!(policy.unconfigured_categories(), vec!["essential", "analytics", "advertising"]);
}

#[test]
fn new_manifest_gives_the_default_policy() {
    let pod = ParsedUrl { text: "https://pod.example/".to_string(), domain: Some("pod.example".to_string()) };
    let manifest = ConsentManifest::new(pod).unwrap();
    let p = manifest.policy_for_domain("shop.example").unwrap();
    assert_eq!(p.domain, "shop.example");
    assert_eq!(p.essential, ConsentValue::Allow);
    assert_eq!(p.functional, ConsentValue::Deny);
    assert_eq!(p.analytics, ConsentValue::Deny);
    assert_eq!(p.advertising, ConsentValue::Deny);
}

#[test]
fn a_domain_with_a_quote_is_refused() {
    let pod = ParsedUrl { text: "https://pod.example/".to_string(), domain: Some("pod.example".to_string()) };
    let manifest = ConsentManifest::new(pod).unwrap();
    let r = manifest.policy_for_domain("evil\" . } SELECT * { \"x");
    assert_eq!(
        r.unwrap_err(),
        "Domain cannot be placed in a consent query: evil\" . } SELECT * { \"x"
    );
    assert!(manifest.policy_for_domain("line\nbreak").is_err());
    assert!(manifest.policy_for_domain("back\\slash").is_err());
}

#[test]
fn a_query_answer_gives_the_stored_policy() {
    let pod = ParsedUrl { text: "https://pod.example/".to_string(), domain: Some("pod.example".to_string()) };
    let manifest = ConsentManifest::new(pod).unwrap();
    let solution = vec![
        ("essential".to_string(), Some("Allow".to_string())),
        ("functional".to_string(), Some("AskUser".to_string())),
        ("analytics".to_string(), None),
        ("advertising".to_string(), Some("deny".to_string())),
    ];
    let p = manifest.policy_from_answer("news.example", Ok(Some(solution))).unwrap();
    assert_eq!(p.domain, "news.example");
    assert_eq!(p.essential, ConsentValue::Allow);
    assert_eq!(p.functional, ConsentValue::AskUser);
    assert_eq!(p.analytics, ConsentValue::Deny);
    assert_eq!(p.advertising, ConsentValue::Deny);
    let d = manifest.policy_from_answer("quiet.example", Ok(None)).unwrap();
    assert_eq!(d.essential, ConsentValue::Allow);
    assert_eq!(d.functional, ConsentValue::Deny);
    assert_eq!(
        manifest.policy_from_answer("x", Err("parse error".to_string())).unwrap_err(),
        "parse error"
    );
}
