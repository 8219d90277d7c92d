use redclaw::doctor::{is_provider_name_recognized, provider_requires_api_key};
use redclaw::provider::OllamaProvider;

#[test]
fn default_url() {
    let p = OllamaProvider::new(None, None);
    assert_eq!(p.base_url, "http://localhost:11434");
}

#[test]
fn custom_url_trailing_slash() {
    let p = OllamaProvider::new(Some("http://192.168.1.100:11434/"), None);
    assert_eq!(p.base_url, "http://192.168.1.100:11434");
}

#[test]
fn custom_url_no_trailing_slash() {
    let p = OllamaProvider::new(Some("http://myserver:11434"), None);
    assert_eq!(p.base_url, "http://myserver:11434");
}

#[test]
fn custom_url_strips_api_suffix() {
    let p = OllamaProvider::new(Some("https://ollama.com/api/"), None);
    assert_eq!(p.base_url, "https://ollama.com");
}

#[test]
fn empty_url_uses_empty() {
    let p = OllamaProvider::new(Some(""), None);
    assert_eq!(p.base_url, "");
}

#[test]
fn cloud_suffix_strips_model_name() {
    let p = OllamaProvider::new(Some("https://ollama.com"), Some("ollama-key"));
    let (model, should_auth) = p.resolve_request_details("qwen3:cloud").unwrap();
    assert_eq!(model, "qwen3");
    assert!(should_auth);
}

#[test]
fn cloud_suffix_with_local_endpoint_errors() {
    let p = OllamaProvider::new(None, Some("ollama-key"));
    let error = p
        .resolve_request_details("qwen3:cloud")
        .expect_err("cloud suffix should fail on local endpoint");
    assert!(error.contains("requested cloud routing, but Ollama endpoint is local"));
}

#[test]
fn cloud_suffix_without_api_key_errors() {
    let p = OllamaProvider::new(Some("https://ollama.com"), None);
    let error = p
        .resolve_request_details("qwen3:cloud")
        .expect_err("cloud suffix should require API key");
    assert!(error.contains("requested cloud routing, but no API key is configured"));
}

#[test]
fn remote_endpoint_auth_enabled_when_key_present() {
    let p = OllamaProvider::new(Some("https://ollama.com"), Some("ollama-key"));
    let (_model, should_auth) = p.resolve_request_details("qwen3").unwrap();
    assert!(should_auth);
}

#[test]
fn remote_endpoint_with_api_suffix_still_allows_cloud_models() {
    let p = OllamaProvider::new(Some("https://ollama.com/api"), Some("ollama-key"));
    let (model, should_auth) = p.resolve_request_details("qwen3:cloud").unwrap();
    assert_eq!(model, "qwen3");
    assert!(should_auth);
}

#[test]
fn local_endpoint_auth_disabled_even_with_key() {
    let p = OllamaProvider::new(None, Some("ollama-key"));
    let (_model, should_auth) = p.resolve_request_details("llama3").unwrap();
    assert!(!should_auth);
}

#[test]
fn capabilities_include_native_tools_and_vision() {
    let provider = OllamaProvider::new(None, None);
    let caps = provider.capabilities();
    assert!(caps.native_tool_calling);
    assert!(caps.vision);
}

#[test]
fn blank_api_key_counts_as_none() {
    let p = OllamaProvider::new(None, Some("   "));
    assert!(p.api_key.is_none());
    let p = OllamaProvider::new(None, Some(" k "));
    assert_eq!(p.api_key.as_deref(), Some("k"));
}

#[test]
fn bracketed_loopback_is_local() {
    let p = OllamaProvider::new(Some("http://[::1]:11434"), Some("key"));
    let (_m, should_auth) = p.resolve_request_details("llama3").unwrap();
    assert!(!should_auth, "the IPv6 loopback is a local endpoint");
}

#[test]
fn provider_name_checks() {
    assert!(is_provider_name_recognized("openrouter"));
    assert!(is_provider_name_recognized("custom:https://example.net"));
    assert!(!is_provider_name_recognized(""));
    assert!(!is_provider_name_recognized("nonsense-provider"));
    assert!(provider_requires_api_key("anthropic"));
    assert!(!provider_requires_api_key("ollama"));
}

#[test]
fn userinfo_does_not_hide_a_local_host() {
    let p = OllamaProvider::new(Some("http://user@localhost:11434"), Some("key"));
    let (_m, should_auth) = p.resolve_request_details("llama3").unwrap();
    assert!(!should_auth, "user information in the URL must not mask the loopback host");
}
