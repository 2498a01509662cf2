use spai::json::Json;
use spai::solid::consent::DomainConsentPolicy;
use spai::solid::guardrails::{all_urls_comply, consent_verdict, no_urls_result, scan_urls};
use spai::tools::ToolContext;
use spai::types::AgentId;
use spai::solid::consent::{manifest_url, policy_query, ConsentManifest, ConsentValue};
use spai::solid::identity::WebIdProfile;
use spai::solid::ipc::{reply_outcome, request_text, RequestIds};
use spai::solid::tools::{http_failure, list_output, read_output, write_output, PodOperation, SolidPodTool};

fn params(members: &[(&str, &str)]) -> Json {
    Json::Object(
        members
            .iter()
            .map(|(k, v)| (k.to_string(), Json::Str(v.to_string())))
            .collect(),
    )
}

#[test]
fn test_tool_metadata() {
    let tool = SolidPodTool::new();
    assert_eq!(tool.id(), "solid_pod");
    assert_eq!(tool.name(), "Solid Pod Access");
    assert!(tool.description().starts_with("Read and write data to the user's Solid Pod"));
}

#[test]
fn schema_lists_operations_and_required_fields() {
    let schema = SolidPodTool::new().input_schema().to_text();
    assert!(schema.starts_with("{\"properties\":{\"contentType\":{\"default\":\"text/turtle\""));
    assert!(schema.contains("\"enum\":[\"read\",\"write\",\"query\",\"list\"]"));
    assert!(schema.ends_with("\"required\":[\"operation\",\"resourceUri\"],\"type\":\"object\"}"));
}

#[test]
fn requests_are_read_from_parameters() {
    let tool = SolidPodTool::new();
    let read = tool
        .parse_request(&params(&[("operation", "read"), ("resourceUri", "https://pod.example/a")]))
        .unwrap();
    assert_eq!(read.operation, PodOperation::Read);
    assert_eq!(read.resource.text, "https://pod.example/a");
    assert!(read.payload.is_none());
    let write = tool
        .parse_request(&params(&[
            ("operation", "write"),
            ("resourceUri", "https://pod.example/a"),
            ("data", "<> a <#T> ."),
        ]))
        .unwrap();
    assert_eq!(write.operation, PodOperation::Write);
    assert_eq!(write.payload, Some("<> a <#T> .".to_string()));
}

#[test]
fn bad_requests_name_what_is_wrong() {
    let tool = SolidPodTool::new();
    let e = |p: Json| tool.parse_request(&p).unwrap_err();
    assert_eq!(e(params(&[])), "Missing 'operation' parameter");
    assert_eq!(e(params(&[("operation", "read")])), "Missing 'resourceUri' parameter");
    assert_eq!(e(params(&[("operation", "read"), ("resourceUri", "nope")])), "Invalid resource URI");
    assert_eq!(
        e(params(&[("operation", "write"), ("resourceUri", "https://p.example/")])),
        "Missing 'data' parameter for write operation"
    );
    assert_eq!(
        e(params(&[("operation", "query"), ("resourceUri", "https://p.example/")])),
        "Missing 'sparql' parameter for query operation"
    );
    assert_eq!(
        e(params(&[("operation", "delete"), ("resourceUri", "https://p.example/")])),
        "Unknown operation: delete"
    );
}

#[test]
fn answers_are_json_text() {
    let r = read_output("hello", None, "https://p.example/x");
    assert!(r.success);
    assert_eq!(
        r.content,
        "{\"content\":\"hello\",\"contentType\":\"application/octet-stream\",\"url\":\"https://p.example/x\"}"
    );
    let w = write_output("https://p.example/x");
    assert_eq!(
        w.content,
        "{\"message\":\"Resource updated successfully\",\"success\":true,\"url\":\"https://p.example/x\"}"
    );
    let l = list_output("https://p.example/", "ttl");
    assert!(l.content.starts_with("{\"container\":\"https://p.example/\",\"content\":\"ttl\""));
    assert_eq!(http_failure("read resource", "404 Not Found"), "Failed to read resource: HTTP 404 Not Found");
}

#[test]
fn manifest_location_and_query() {
    assert_eq!(
        manifest_url("https://alice.example/"),
        "https://alice.example/consents/browser-agent.ttl"
    );
    let q = policy_query("example.com");
    assert!(q.contains("consent:domain \"example.com\" ;"));
    assert!(q.contains("SELECT ?essential ?functional ?analytics ?advertising"));
}

#[test]
fn empty_manifest_falls_back_to_the_default_policy() {
    let profile = WebIdProfile {
        webid: "https://alice.example/#me".to_string(),
        name: None,
        oidc_issuer: None,
        storage: Some("https://alice.example/".to_string()),
        inbox: None,
    };
    let manifest = ConsentManifest::new(profile.require_storage().unwrap()).unwrap();
    assert_eq!(manifest.default_policy().domain, "*");
    let policy = manifest.policy_for_domain("news.example").unwrap();
    assert_eq!(policy.domain, "news.example");
    assert_eq!(policy.essential, ConsentValue::Allow);
    assert_eq!(policy.advertising, ConsentValue::Deny);
    assert!(manifest.update_domain_policy(policy).is_ok());
}

#[test]
fn request_ids_count_from_one() {
    let mut ids = RequestIds::new();
    assert_eq!(ids.take(), 1);
    assert_eq!(ids.take(), 2);
}

#[test]
fn request_lines_and_replies() {
    assert_eq!(
        request_text(7, "fetchProfile", params(&[("webid", "w")])),
        "{\"jsonrpc\":\"2.0\",\"id\":7,\"method\":\"fetchProfile\",\"params\":{\"webid\":\"w\"}}"
    );
    assert_eq!(
        reply_outcome(Some(Json::Null), Some((-32601, "nope".to_string()))).unwrap_err(),
        "Bridge error (code -32601): nope"
    );
    assert_eq!(reply_outcome(None, None).unwrap_err(), "No result in response");
    assert!(matches!(reply_outcome(Some(Json::Bool(true)), None), Ok(Json::Bool(true))));
}

#[test]
fn urls_and_their_domains_are_found() {
    let found = scan_urls("Visit https://example.com and www.test.org for more info");
    assert_eq!(found, vec![Some("example.com".to_string()), Some("www.test.org".to_string())]);
    let complex = scan_urls("Check out https://github.com/user/repo and\nhttp://localhost:3000 or www.wikipedia.org");
    assert!(complex.len() >= 2);
    assert!(scan_urls("no links here").is_empty());
}

#[test]
fn consent_verdicts_follow_the_policy() {
    let blocked = DomainConsentPolicy {
        domain: "evil.com".to_string(),
        essential: ConsentValue::Deny,
        functional: ConsentValue::Deny,
        analytics: ConsentValue::Deny,
        advertising: ConsentValue::Deny,
    };
    let v = consent_verdict("evil.com", &blocked).unwrap();
    assert!(!v.passed && v.tripwire_triggered);
    let asking = DomainConsentPolicy {
        domain: "example.com".to_string(),
        essential: ConsentValue::Allow,
        functional: ConsentValue::AskUser,
        analytics: ConsentValue::AskUser,
        advertising: ConsentValue::Deny,
    };
    let v = consent_verdict("example.com", &asking).unwrap();
    assert!(!v.passed && !v.tripwire_triggered);
    assert_eq!(
        v.reasoning,
        "Domain 'example.com' requires user consent approval for: functional, analytics. Cannot proceed without explicit user permission."
    );
    let fine = DomainConsentPolicy::fallback("ok.org".to_string());
    assert!(consent_verdict("ok.org", &fine).is_none());
    assert_eq!(no_urls_result().reasoning, "No URLs detected in input");
    assert_eq!(all_urls_comply(2).reasoning, "All 2 URL(s) comply with user consent policy");
}

#[test]
fn tool_context_gives_back_stored_values() {
    let ctx = ToolContext::new(AgentId::new())
        .with_data("a".to_string(), Json::UInt(1))
        .with_data("b".to_string(), Json::Bool(true))
        .with_data("a".to_string(), Json::UInt(2));
    assert!(matches!(ctx.get("a"), Some(Json::UInt(2))));
    assert!(matches!(ctx.get("b"), Some(Json::Bool(true))));
    assert!(ctx.get("c").is_none());
}
