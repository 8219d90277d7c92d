use redclaw::{ChannelPolicy, PolicyAction, PolicyConfig, PolicyEngine, ToolPolicy};

fn test_config() -> PolicyConfig {
    let tools = vec![
        (
            "shell".to_string(),
            ToolPolicy {
                action: PolicyAction::Audit,
                allowed_channels: Some(vec!["terminal".to_string()]),
                denied_channels: None,
                require_confirmation: true,
                rate_limit: Some(10),
                reason: Some("Shell access is sensitive".to_string()),
            },
        ),
        (
            "browser".to_string(),
            ToolPolicy {
                action: PolicyAction::Deny,
                allowed_channels: None,
                denied_channels: None,
                require_confirmation: false,
                rate_limit: None,
                reason: Some("Browser disabled by policy".to_string()),
            },
        ),
    ];
    let channels = vec![(
        "discord".to_string(),
        ChannelPolicy {
            allowed_tools: Some(vec!["memory_read".to_string(), "web_search".to_string()]),
            denied_tools: None,
        },
    )];
    PolicyConfig { default_action: PolicyAction::Allow, tools, channels }
}

#[test]
fn default_allows() {
    let engine = PolicyEngine::new(test_config());
    let decision = engine.evaluate("memory_read", None);
    assert_eq!(decision.action, PolicyAction::Allow);
}

#[test]
fn tool_policy_denies_browser() {
    let engine = PolicyEngine::new(test_config());
    let decision = engine.evaluate("browser", None);
    assert_eq!(decision.action, PolicyAction::Deny);
}

#[test]
fn tool_policy_audits_shell() {
    let engine = PolicyEngine::new(test_config());
    let decision = engine.evaluate("shell", Some("terminal"));
    assert_eq!(decision.action, PolicyAction::Audit);
}

#[test]
fn shell_denied_from_wrong_channel() {
    let engine = PolicyEngine::new(test_config());
    let decision = engine.evaluate("shell", Some("discord"));
    assert_eq!(decision.action, PolicyAction::Deny);
}

#[test]
fn channel_allowlist_restricts() {
    let engine = PolicyEngine::new(test_config());
    let decision = engine.evaluate("file_write", Some("discord"));
    assert_eq!(decision.action, PolicyAction::Deny);
}

#[test]
fn channel_allowlist_permits() {
    let engine = PolicyEngine::new(test_config());
    let decision = engine.evaluate("memory_read", Some("discord"));
    assert_eq!(decision.action, PolicyAction::Allow);
}

#[test]
fn rate_limiting_works() {
    let mut engine = PolicyEngine::new(test_config());
    for _ in 0..10 {
        engine.record_call("shell");
    }
    let decision = engine.evaluate("shell", Some("terminal"));
    assert_eq!(decision.action, PolicyAction::Deny);
    assert!(decision.reason.unwrap().contains("Rate limit"));
}

#[test]
fn summary_counts() {
    let engine = PolicyEngine::new(test_config());
    let summary = engine.summary();
    assert_eq!(summary.tool_rules, 2);
    assert_eq!(summary.channel_rules, 1);
}

#[test]
fn default_deny_with_no_rules_denies_everything() {
    let config = PolicyConfig {
        default_action: PolicyAction::Deny,
        tools: Vec::new(),
        channels: Vec::new(),
    };
    let engine = PolicyEngine::new(config);
    for tool in ["shell", "web_search", "memory_read", "anything"] {
        let decision = engine.evaluate(tool, Some("cli"));
        assert_eq!(decision.action, PolicyAction::Deny);
        assert_eq!(decision.rule_source, "default");
    }
}

#[test]
fn channel_restricted_tool_names_rule_source() {
    let tools = vec![(
        "shell".to_string(),
        ToolPolicy {
            action: PolicyAction::Allow,
            allowed_channels: Some(vec!["cli".to_string()]),
            denied_channels: None,
            require_confirmation: false,
            rate_limit: None,
            reason: None,
        },
    )];
    let config = PolicyConfig { default_action: PolicyAction::Allow, tools, channels: Vec::new() };
    let engine = PolicyEngine::new(config);
    let decision = engine.evaluate("shell", Some("discord"));
    assert_eq!(decision.action, PolicyAction::Deny);
    assert_eq!(decision.rule_source, "tools.shell.allowed_channels");
    let ok = engine.evaluate("shell", Some("cli"));
    assert_eq!(ok.action, PolicyAction::Allow);
}

#[test]
fn repeated_evaluation_is_stable() {
    let engine = PolicyEngine::new(test_config());
    let now = 1_000_000;
    let d1 = engine.evaluate_at("shell", Some("terminal"), now);
    let d2 = engine.evaluate_at("shell", Some("terminal"), now);
    assert_eq!(d1.action, d2.action);
    assert_eq!(d1.rule_source, d2.rule_source);
    assert_eq!(d1.reason, d2.reason);
}

#[test]
fn rate_limit_reason_names_the_limit() {
    let mut engine = PolicyEngine::new(test_config());
    let now = 60_000_000;
    for _ in 0..10 {
        engine.record_call_at("shell", now);
    }
    let decision = engine.evaluate_at("shell", Some("terminal"), now);
    assert_eq!(decision.action, PolicyAction::Deny);
    assert_eq!(decision.rule_source, "tools.shell.rate_limit");
    assert_eq!(decision.reason.as_deref(), Some("Rate limit exceeded (10/min)"));
}

#[test]
fn stale_calls_fall_out_of_the_window() {
    let mut engine = PolicyEngine::new(test_config());
    for _ in 0..10 {
        engine.record_call_at("shell", 1_000_000);
    }
    let later = 1_000_000 + 120_000;
    let decision = engine.evaluate_at("shell", Some("terminal"), later);
    assert_eq!(decision.action, PolicyAction::Audit);
}
