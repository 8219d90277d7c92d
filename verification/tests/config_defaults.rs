use redclaw::config::{
    config_dir_creation_error, AgentConfig, AutonomyConfig, BrowserConfig, ChannelsConfig,
    ComposioConfig, Config, GatewayConfig, HeartbeatConfig, MemoryConfig, ObservabilityConfig,
    PeripheralBoardConfig, PeripheralsConfig, SecretsConfig,
};
use redclaw::AutonomyLevel;

#[test]
fn config_dir_creation_error_mentions_openrc_and_path() {
    let msg = config_dir_creation_error("/etc/redclaw");
    assert!(msg.contains("/etc/redclaw"));
    assert!(msg.contains("OpenRC"));
    assert!(msg.contains("redclaw"));
}

#[test]
fn observability_config_default() {
    let o = ObservabilityConfig::default();
    assert_eq!(o.backend, "none");
}

#[test]
fn autonomy_config_default() {
    let a = AutonomyConfig::default();
    assert_eq!(a.level, AutonomyLevel::Supervised);
    assert!(a.workspace_only);
    assert!(a.allowed_commands.contains(&"git".to_string()));
    assert!(a.allowed_commands.contains(&"cargo".to_string()));
    assert!(a.forbidden_paths.contains(&"/etc".to_string()));
    assert_eq!(a.max_actions_per_hour, 20);
    assert_eq!(a.max_cost_per_day_cents, 500);
    assert!(a.require_approval_for_medium_risk);
    assert!(a.block_high_risk_commands);
    assert!(a.auto_approve.contains(&"file_read".to_string()));
    assert!(a.always_ask.is_empty());
}

#[test]
fn heartbeat_config_default() {
    let h = HeartbeatConfig::default();
    assert!(!h.enabled);
    assert_eq!(h.interval_minutes, 30);
}

#[test]
fn channels_config_default() {
    let c = ChannelsConfig::default();
    assert!(c.cli);
    assert!(c.telegram.is_none());
    assert!(c.discord.is_none());
    assert!(c.nextcloud_talk.is_none());
}

#[test]
fn agent_config_defaults() {
    let cfg = AgentConfig::default();
    assert!(!cfg.compact_context);
    assert_eq!(cfg.max_tool_iterations, 10);
    assert_eq!(cfg.max_history_messages, 50);
    assert!(!cfg.parallel_tools);
    assert_eq!(cfg.tool_dispatcher, "auto");
}

#[test]
fn channels_config_default_has_no_imessage_matrix() {
    let c = ChannelsConfig::default();
    assert!(c.imessage.is_none());
    assert!(c.matrix.is_none());
}

#[test]
fn channels_config_default_has_no_whatsapp() {
    let c = ChannelsConfig::default();
    assert!(c.whatsapp.is_none());
}

#[test]
fn checklist_gateway_default_requires_pairing() {
    let g = GatewayConfig::default();
    assert!(g.require_pairing, "Pairing must be required by default");
}

#[test]
fn checklist_gateway_default_blocks_public_bind() {
    let g = GatewayConfig::default();
    assert!(!g.allow_public_bind, "Public bind must be blocked by default");
}

#[test]
fn checklist_gateway_default_no_tokens() {
    let g = GatewayConfig::default();
    assert!(g.paired_tokens.is_empty(), "No pre-paired tokens by default");
    assert_eq!(g.pair_rate_limit_per_minute, 10);
    assert_eq!(g.webhook_rate_limit_per_minute, 60);
    assert_eq!(g.idempotency_ttl_secs, 300);
}

#[test]
fn checklist_autonomy_default_is_workspace_scoped() {
    let a = AutonomyConfig::default();
    assert!(a.workspace_only, "Default autonomy must be workspace_only");
    assert!(a.forbidden_paths.contains(&"/etc".to_string()), "Must block /etc");
    assert!(a.forbidden_paths.contains(&"/proc".to_string()), "Must block /proc");
    assert!(a.forbidden_paths.contains(&"~/.ssh".to_string()), "Must block ~/.ssh");
}

#[test]
fn composio_config_default_disabled() {
    let c = ComposioConfig::default();
    assert!(!c.enabled, "Composio must be disabled by default");
    assert!(c.api_key.is_none(), "No API key by default");
    assert_eq!(c.entity_id, "default");
}

#[test]
fn secrets_config_default_encrypts() {
    let s = SecretsConfig::default();
    assert!(s.encrypt, "Encryption must be enabled by default");
}

#[test]
fn browser_config_default_disabled() {
    let b = BrowserConfig::default();
    assert!(!b.enabled);
    assert!(b.allowed_domains.is_empty());
    assert_eq!(b.backend, "agent_browser");
    assert!(b.native_headless);
    assert_eq!(b.native_webdriver_url, "http://127.0.0.1:9515");
    assert!(b.native_chrome_path.is_none());
    assert_eq!(b.computer_use.endpoint, "http://127.0.0.1:8787/v1/actions");
    assert_eq!(b.computer_use.timeout_ms, 15_000);
    assert!(!b.computer_use.allow_remote_endpoint);
    assert!(b.computer_use.window_allowlist.is_empty());
    assert!(b.computer_use.max_coordinate_x.is_none());
    assert!(b.computer_use.max_coordinate_y.is_none());
}

#[test]
fn gateway_config_default_values() {
    let g = GatewayConfig::default();
    assert_eq!(g.port, 3000);
    assert_eq!(g.host, "127.0.0.1");
    assert!(g.require_pairing);
    assert!(!g.allow_public_bind);
    assert!(g.paired_tokens.is_empty());
}

#[test]
fn peripherals_config_default_disabled() {
    let p = PeripheralsConfig::default();
    assert!(!p.enabled);
    assert!(p.boards.is_empty());
}

#[test]
fn peripheral_board_config_defaults() {
    let b = PeripheralBoardConfig::default();
    assert!(b.board.is_empty());
    assert_eq!(b.transport, "serial");
    assert!(b.path.is_none());
    assert_eq!(b.baud, 115_200);
}

#[test]
fn memory_config_default_hygiene_settings() {
    let m = MemoryConfig::default();
    assert_eq!(m.backend, "sqlite");
    assert!(m.auto_save);
    assert!(m.hygiene_enabled);
    assert_eq!(m.archive_after_days, 7);
    assert_eq!(m.purge_after_days, 30);
    assert_eq!(m.conversation_retention_days, 30);
}

#[test]
fn config_default_top_level_values() {
    let c = Config::default();
    assert_eq!(c.default_provider.as_deref(), Some("openrouter"));
    assert!(c.default_model.as_deref().unwrap().contains("sonnet"));
    assert_eq!(c.default_temperature_milli, 700);
    assert!(c.gateway.require_pairing);
    assert!(!c.gateway.allow_public_bind);
}
