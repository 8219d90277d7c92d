use redclaw::config::{
    normalize_comma_values, parse_flag, parse_temperature_milli, parse_u16,
    resolve_config_dir_for_workspace, selector_matches, Config, EnvOverrides, ProxyConfig,
    ProxyScope,
};

#[test]
fn temperature_out_of_range_is_ignored() {
    let mut config = Config::default();
    assert_eq!(config.default_temperature_milli, 700);
    let env = EnvOverrides { temperature: Some("3.0".to_string()), ..EnvOverrides::default() };
    config.apply_env_overrides(&env);
    assert_eq!(config.default_temperature_milli, 700, "3.0 is out of range and must be ignored");
}

#[test]
fn temperature_in_range_is_applied() {
    let mut config = Config::default();
    let env = EnvOverrides { temperature: Some("1.5".to_string()), ..EnvOverrides::default() };
    config.apply_env_overrides(&env);
    assert_eq!(config.default_temperature_milli, 1500);
}

#[test]
fn temperature_parsing_exact_values() {
    assert_eq!(parse_temperature_milli("0.7"), Some(700));
    assert_eq!(parse_temperature_milli("2"), Some(2000));
    assert_eq!(parse_temperature_milli("1.25"), Some(1250));
    assert_eq!(parse_temperature_milli("0.125"), Some(125));
    assert_eq!(parse_temperature_milli("3.0"), Some(3000));
    assert_eq!(parse_temperature_milli("abc"), None);
    assert_eq!(parse_temperature_milli("1.2345"), None);
    assert_eq!(parse_temperature_milli(""), None);
}

#[test]
fn provider_override_precedence() {
    let mut config = Config::default();
    let env = EnvOverrides {
        redclaw_provider: Some("ollama".to_string()),
        provider: Some("groq".to_string()),
        ..EnvOverrides::default()
    };
    config.apply_env_overrides(&env);
    assert_eq!(config.default_provider.as_deref(), Some("ollama"));

    let mut config = Config::default();
    let env = EnvOverrides { provider: Some("groq".to_string()), ..EnvOverrides::default() };
    config.apply_env_overrides(&env);
    assert_eq!(
        config.default_provider.as_deref(),
        Some("groq"),
        "the legacy variable replaces the default provider"
    );

    let mut config = Config::default();
    config.default_provider = Some("anthropic".to_string());
    let env = EnvOverrides { provider: Some("groq".to_string()), ..EnvOverrides::default() };
    config.apply_env_overrides(&env);
    assert_eq!(
        config.default_provider.as_deref(),
        Some("anthropic"),
        "the legacy variable must not replace an explicit provider"
    );
}

#[test]
fn gateway_port_override_ignores_garbage() {
    let mut config = Config::default();
    let env = EnvOverrides { port: Some("not_a_number".to_string()), ..EnvOverrides::default() };
    config.apply_env_overrides(&env);
    assert_eq!(config.gateway.port, 3000);

    let env = EnvOverrides { port: Some("8080".to_string()), ..EnvOverrides::default() };
    config.apply_env_overrides(&env);
    assert_eq!(config.gateway.port, 8080);
}

#[test]
fn allow_public_bind_truthy_strings() {
    let mut config = Config::default();
    let env = EnvOverrides { allow_public_bind: Some("1".to_string()), ..EnvOverrides::default() };
    config.apply_env_overrides(&env);
    assert!(config.gateway.allow_public_bind);

    let env = EnvOverrides {
        allow_public_bind: Some("TRUE".to_string()),
        ..EnvOverrides::default()
    };
    config.apply_env_overrides(&env);
    assert!(config.gateway.allow_public_bind);

    let env = EnvOverrides { allow_public_bind: Some("no".to_string()), ..EnvOverrides::default() };
    config.apply_env_overrides(&env);
    assert!(!config.gateway.allow_public_bind);
}

#[test]
fn api_key_override_prefers_primary() {
    let mut config = Config::default();
    let env = EnvOverrides {
        redclaw_api_key: Some("k1".to_string()),
        api_key: Some("k2".to_string()),
        ..EnvOverrides::default()
    };
    config.apply_env_overrides(&env);
    assert_eq!(config.api_key.as_deref(), Some("k1"));
}

#[test]
fn workspace_override_moves_config_path() {
    let mut config = Config::default();
    let env = EnvOverrides {
        redclaw_workspace: Some("/srv/agent".to_string()),
        ..EnvOverrides::default()
    };
    config.apply_env_overrides(&env);
    assert_eq!(config.workspace_dir, "/srv/agent/workspace");
    assert_eq!(config.config_path, "/srv/agent/config.toml");
}

#[test]
fn flag_parsing() {
    assert_eq!(parse_flag("yes"), Some(true));
    assert_eq!(parse_flag(" ON "), Some(true));
    assert_eq!(parse_flag("0"), Some(false));
    assert_eq!(parse_flag("Off"), Some(false));
    assert_eq!(parse_flag("maybe"), None);
}

#[test]
fn port_parsing() {
    assert_eq!(parse_u16("993"), Some(993));
    assert_eq!(parse_u16("65535"), Some(65535));
    assert_eq!(parse_u16("65536"), None);
    assert_eq!(parse_u16("12a"), None);
}

#[test]
fn validate_rejects_blank_host_and_zero_budget() {
    let mut config = Config::default();
    config.gateway.host = "   ".to_string();
    let err = config.validate().unwrap_err();
    assert_eq!(err, "gateway.host must not be empty");

    let mut config = Config::default();
    config.autonomy.max_actions_per_hour = 0;
    let err = config.validate().unwrap_err();
    assert_eq!(err, "autonomy.max_actions_per_hour must be greater than 0");

    assert!(Config::default().validate().is_ok());
}

#[test]
fn workspace_resolution_layout() {
    let (root, ws) = resolve_config_dir_for_workspace("/srv/agent");
    assert_eq!(root, "/srv/agent");
    assert_eq!(ws, "/srv/agent/workspace");
}

#[test]
fn comma_values_normalize() {
    let values = vec![" a , b ".to_string(), "b".to_string(), "".to_string(), "c".to_string()];
    let out = normalize_comma_values(&values, false);
    assert_eq!(out, vec!["a".to_string(), "b".to_string(), "c".to_string()]);
    let unsorted = vec!["b,a".to_string()];
    let out = normalize_comma_values(&unsorted, false);
    assert_eq!(out, vec!["a".to_string(), "b".to_string()], "output is sorted ascending");
    let repeats = vec!["c".to_string(), "b".to_string(), "c,a".to_string()];
    let out = normalize_comma_values(&repeats, false);
    assert_eq!(out, vec!["a".to_string(), "b".to_string(), "c".to_string()]);
    let upper = vec!["Provider.OLLAMA".to_string()];
    let out = normalize_comma_values(&upper, true);
    assert_eq!(out, vec!["provider.ollama".to_string()]);
}

#[test]
fn proxy_selector_matching() {
    assert!(selector_matches("provider.ollama", "provider.ollama"));
    assert!(selector_matches("provider.*", "provider.ollama"));
    assert!(!selector_matches("provider.*", "provider"));
    assert!(!selector_matches("provider.*", "web_search"));
}

#[test]
fn proxy_validation_rules() {
    let mut proxy = ProxyConfig::default();
    assert!(proxy.validate().is_ok());

    proxy.enabled = true;
    assert!(proxy.validate().is_err(), "an enabled proxy needs a URL");

    proxy.http_proxy = Some("http://127.0.0.1:8080".to_string());
    assert!(proxy.validate().is_ok());

    proxy.http_proxy = Some("ftp://x".to_string());
    assert!(proxy.validate().is_err(), "unsupported scheme must be refused");

    proxy.http_proxy = Some("socks5://127.0.0.1:1080".to_string());
    proxy.scope = ProxyScope::Services;
    assert!(proxy.validate().is_err(), "service scope needs selectors");

    proxy.services = vec!["provider.*".to_string()];
    assert!(proxy.validate().is_ok());
    assert!(proxy.should_apply_to_service("provider.ollama"));
    assert!(!proxy.should_apply_to_service("web_search"));

    proxy.services = vec!["bogus".to_string()];
    assert!(proxy.validate().is_err(), "unknown selectors must be refused");
}
