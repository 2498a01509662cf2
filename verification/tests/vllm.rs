use spai::vllm::VllmConfig;
use std::time::Duration;

#[test]
fn test_vllm_config_builder() {
    let config = VllmConfig::new("http://localhost:9000".to_string())
        .with_timeout(Duration::from_secs(60))
        .with_api_key("test-key".to_string());

    assert_eq!(config.base_url, "http://localhost:9000");
    assert_eq!(config.timeout, Duration::from_secs(60));
    assert_eq!(config.api_key, Some("test-key".to_string()));
}

#[test]
fn vllm_config_defaults_to_five_minutes() {
    let config = VllmConfig::new("http://h".to_string());
    assert_eq!(config.timeout, Duration::from_secs(300));
    assert_eq!(config.api_key, None);
}

#[test]
fn vllm_config_from_vars_uses_default_url() {
    let config = VllmConfig::from_vars(None, None);
    assert_eq!(config.base_url, "http://localhost:8000");
    let config = VllmConfig::from_vars(Some("http://x:1".to_string()), Some("k".to_string()));
    assert_eq!(config.base_url, "http://x:1");
    assert_eq!(config.api_key, Some("k".to_string()));
}

#[test]
fn vllm_endpoint_urls() {
    assert_eq!(spai::vllm::health_url("http://h"), "http://h/health");
    assert_eq!(spai::vllm::models_url("http://h"), "http://h/v1/models");
    assert_eq!(spai::vllm::completions_url("http://h"), "http://h/v1/chat/completions");
}
