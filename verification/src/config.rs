//! Runtime configuration: the sections of the config file, their
//! defaults, validation, and the environment-variable overrides.
//!
//! Reading the file from disk and the TOML layer live outside the
//! library; they hand the parsed sections in as plain values. The
//! override pass takes the environment readings as one plain record.

use vstd::prelude::*;
use vstd::string::StringExecFns;

use crate::chars::{lower_chars, spec_lower, str_chars, string_of_chars, subrange_chars};
use crate::email::{spec_trim_ws, trim_ws, EmailConfig};
use crate::policy::PolicyConfig;
use crate::security::AutonomyLevel;
use crate::strutil::{push_char, str_eq};
use crate::timeparse::{spec_all_digits, spec_is_digit, spec_num_val};

verus! {

/// Builds a `String` from a literal.
pub fn lit(s: &str) -> (r: String)
    ensures
        r@ == s@,
{
    s.to_owned()
}

#[derive(Debug, Clone)]
pub struct ObservabilityConfig {
    pub backend: String,
    pub otel_endpoint: Option<String>,
    pub otel_service_name: Option<String>,
}

impl Default for ObservabilityConfig {
    fn default() -> (r: Self)
        ensures
            r.backend@ == "none"@,
            r.otel_endpoint is None,
            r.otel_service_name is None,
    {
        ObservabilityConfig { backend: lit("none"), otel_endpoint: None, otel_service_name: None }
    }
}

/// The default command allowlist.
pub open spec fn spec_default_allowed_commands() -> Seq<Seq<char>> {
    seq![
        "git"@,
        "npm"@,
        "cargo"@,
        "ls"@,
        "cat"@,
        "grep"@,
        "find"@,
        "echo"@,
        "pwd"@,
        "wc"@,
        "head"@,
        "tail"@,
    ]
}

/// The default forbidden path roots.
pub open spec fn spec_default_forbidden_paths() -> Seq<Seq<char>> {
    seq![
        "/etc"@,
        "/root"@,
        "/home"@,
        "/usr"@,
        "/bin"@,
        "/sbin"@,
        "/lib"@,
        "/opt"@,
        "/boot"@,
        "/dev"@,
        "/proc"@,
        "/sys"@,
        "/var"@,
        "/tmp"@,
        "~/.ssh"@,
        "~/.gnupg"@,
        "~/.aws"@,
        "~/.config"@,
    ]
}

#[derive(Debug, Clone)]
pub struct AutonomyConfig {
    pub level: AutonomyLevel,
    pub workspace_only: bool,
    pub allowed_commands: Vec<String>,
    pub forbidden_paths: Vec<String>,
    pub max_actions_per_hour: u32,
    pub max_cost_per_day_cents: u32,
    pub require_approval_for_medium_risk: bool,
    pub block_high_risk_commands: bool,
    pub auto_approve: Vec<String>,
    pub always_ask: Vec<String>,
}

pub(crate) fn push_lit(v: &mut Vec<String>, s: &str)
    ensures
        final(v).deep_view() == old(v).deep_view().push(s@),
{
    v.push(s.to_owned());
    proof {
        assert(v.deep_view() =~~= old(v).deep_view().push(s@));
    }
}

impl Default for AutonomyConfig {
    fn default() -> (r: Self)
        ensures
            r.level == AutonomyLevel::Supervised,
            r.workspace_only,
            r.allowed_commands.deep_view() == spec_default_allowed_commands(),
            r.forbidden_paths.deep_view() == spec_default_forbidden_paths(),
            r.max_actions_per_hour == 20,
            r.max_cost_per_day_cents == 500,
            r.require_approval_for_medium_risk,
            r.block_high_risk_commands,
            r.auto_approve.deep_view() == seq!["file_read"@, "memory_recall"@],
            r.always_ask@.len() == 0,
    {
        let mut allowed_commands: Vec<String> = Vec::new();
        push_lit(&mut allowed_commands, "git");
        push_lit(&mut allowed_commands, "npm");
        push_lit(&mut allowed_commands, "cargo");
        push_lit(&mut allowed_commands, "ls");
        push_lit(&mut allowed_commands, "cat");
        push_lit(&mut allowed_commands, "grep");
        push_lit(&mut allowed_commands, "find");
        push_lit(&mut allowed_commands, "echo");
        push_lit(&mut allowed_commands, "pwd");
        push_lit(&mut allowed_commands, "wc");
        push_lit(&mut allowed_commands, "head");
        push_lit(&mut allowed_commands, "tail");
        proof {
            assert(allowed_commands.deep_view() =~~= spec_default_allowed_commands());
        }
        let mut forbidden_paths: Vec<String> = Vec::new();
        push_lit(&mut forbidden_paths, "/etc");
        push_lit(&mut forbidden_paths, "/root");
        push_lit(&mut forbidden_paths, "/home");
        push_lit(&mut forbidden_paths, "/usr");
        push_lit(&mut forbidden_paths, "/bin");
        push_lit(&mut forbidden_paths, "/sbin");
        push_lit(&mut forbidden_paths, "/lib");
        push_lit(&mut forbidden_paths, "/opt");
        push_lit(&mut forbidden_paths, "/boot");
        push_lit(&mut forbidden_paths, "/dev");
        push_lit(&mut forbidden_paths, "/proc");
        push_lit(&mut forbidden_paths, "/sys");
        push_lit(&mut forbidden_paths, "/var");
        push_lit(&mut forbidden_paths, "/tmp");
        push_lit(&mut forbidden_paths, "~/.ssh");
        push_lit(&mut forbidden_paths, "~/.gnupg");
        push_lit(&mut forbidden_paths, "~/.aws");
        push_lit(&mut forbidden_paths, "~/.config");
        proof {
            assert(forbidden_paths.deep_view() =~~= spec_default_forbidden_paths());
        }
        let mut auto_approve: Vec<String> = Vec::new();
        push_lit(&mut auto_approve, "file_read");
        push_lit(&mut auto_approve, "memory_recall");
        proof {
            assert(auto_approve.deep_view() =~~= seq!["file_read"@, "memory_recall"@]);
        }
        AutonomyConfig {
            level: AutonomyLevel::Supervised,
            workspace_only: true,
            allowed_commands,
            forbidden_paths,
            max_actions_per_hour: 20,
            max_cost_per_day_cents: 500,
            require_approval_for_medium_risk: true,
            block_high_risk_commands: true,
            auto_approve,
            always_ask: Vec::new(),
        }
    }
}

#[derive(Debug, Clone)]
pub struct AgentConfig {
    pub compact_context: bool,
    pub max_tool_iterations: usize,
    pub max_history_messages: usize,
    pub parallel_tools: bool,
    pub tool_dispatcher: String,
}

impl Default for AgentConfig {
    fn default() -> (r: Self)
        ensures
            !r.compact_context,
            r.max_tool_iterations == 10,
            r.max_history_messages == 50,
            !r.parallel_tools,
            r.tool_dispatcher@ == "auto"@,
    {
        AgentConfig {
            compact_context: false,
            max_tool_iterations: 10,
            max_history_messages: 50,
            parallel_tools: false,
            tool_dispatcher: lit("auto"),
        }
    }
}

/// How skill instructions are injected into the system prompt.
#[derive(Debug, Clone, Copy, PartialEq, Eq, Structural)]
pub enum SkillsPromptInjectionMode {
    Full,
    Compact,
}

impl Default for SkillsPromptInjectionMode {
    fn default() -> (r: Self)
        ensures
            r == SkillsPromptInjectionMode::Full,
    {
        SkillsPromptInjectionMode::Full
    }
}

/// Parses a prompt-injection mode name, case-insensitively, trimmed.
pub fn parse_skills_prompt_injection_mode(raw: &str) -> (r: Option<SkillsPromptInjectionMode>)
    ensures
        spec_trim_ws(spec_lower(raw@)) == "full"@ ==> r == Some(SkillsPromptInjectionMode::Full),
        spec_trim_ws(spec_lower(raw@)) == "compact"@ ==> r == Some(
            SkillsPromptInjectionMode::Compact,
        ),
        spec_trim_ws(spec_lower(raw@)) != "full"@ && spec_trim_ws(spec_lower(raw@)) != "compact"@
            ==> r is None,
{
    proof {
        reveal_strlit("full");
        reveal_strlit("compact");
    }
    let chars = str_chars(raw);
    let lowered = lower_chars(&chars);
    let trimmed = crate::email::trim_ws(&lowered);
    let t = string_of_chars(&trimmed);
    proof {
        assert(t@ == spec_trim_ws(spec_lower(raw@)));
        assert("full"@.len() == 4);
        assert("compact"@.len() == 7);
        assert("full"@ != "compact"@);
    }
    if str_eq(t.as_str(), "full") {
        Some(SkillsPromptInjectionMode::Full)
    } else if str_eq(t.as_str(), "compact") {
        Some(SkillsPromptInjectionMode::Compact)
    } else {
        None
    }
}

#[derive(Debug, Clone)]
pub struct SkillsConfig {
    pub open_skills_enabled: bool,
    pub open_skills_dir: Option<String>,
    pub prompt_injection_mode: SkillsPromptInjectionMode,
}

impl Default for SkillsConfig {
    fn default() -> (r: Self)
        ensures
            !r.open_skills_enabled,
            r.open_skills_dir is None,
            r.prompt_injection_mode == SkillsPromptInjectionMode::Full,
    {
        SkillsConfig {
            open_skills_enabled: false,
            open_skills_dir: None,
            prompt_injection_mode: SkillsPromptInjectionMode::Full,
        }
    }
}

#[derive(Debug, Clone)]
pub struct IdentityConfig {
    pub format: String,
    pub aieos_path: Option<String>,
    pub aieos_inline: Option<String>,
}

impl Default for IdentityConfig {
    fn default() -> (r: Self)
        ensures
            r.format@ == "openclaw"@,
            r.aieos_path is None,
            r.aieos_inline is None,
    {
        IdentityConfig { format: lit("openclaw"), aieos_path: None, aieos_inline: None }
    }
}

/// Cost limits in micro-dollars (millionths of one USD); zero means
/// unlimited.
#[derive(Debug, Clone)]
pub struct CostConfig {
    pub enabled: bool,
    pub daily_budget_micro_usd: u64,
    pub session_budget_micro_usd: u64,
    pub per_request_budget_micro_usd: u64,
    pub auto_pause: bool,
    pub log_path: Option<String>,
    pub daily_limit_micro_usd: u64,
    pub monthly_limit_micro_usd: u64,
    pub warn_at_percent: u8,
    pub allow_override: bool,
}

impl Default for CostConfig {
    fn default() -> (r: Self)
        ensures
            r.enabled,
            r.daily_budget_micro_usd == 0,
            r.session_budget_micro_usd == 0,
            r.per_request_budget_micro_usd == 0,
            r.auto_pause,
            r.log_path is None,
            r.daily_limit_micro_usd == 0,
            r.monthly_limit_micro_usd == 0,
            r.warn_at_percent == 80,
            !r.allow_override,
    {
        CostConfig {
            enabled: true,
            daily_budget_micro_usd: 0,
            session_budget_micro_usd: 0,
            per_request_budget_micro_usd: 0,
            auto_pause: true,
            log_path: None,
            daily_limit_micro_usd: 0,
            monthly_limit_micro_usd: 0,
            warn_at_percent: 80,
            allow_override: false,
        }
    }
}

impl CostConfig {
    /// The explicit daily budget when set, else the legacy daily limit.
    pub fn effective_daily_limit_micro_usd(&self) -> (r: u64)
        ensures
            r == if self.daily_budget_micro_usd > 0 {
                self.daily_budget_micro_usd
            } else {
                self.daily_limit_micro_usd
            },
    {
        if self.daily_budget_micro_usd > 0 {
            self.daily_budget_micro_usd
        } else {
            self.daily_limit_micro_usd
        }
    }
}

#[derive(Debug, Clone)]
pub struct PeripheralsConfig {
    pub enabled: bool,
    pub boards: Vec<PeripheralBoardConfig>,
    pub datasheet_dir: Option<String>,
}

impl Default for PeripheralsConfig {
    fn default() -> (r: Self)
        ensures
            !r.enabled,
            r.boards@.len() == 0,
            r.datasheet_dir is None,
    {
        PeripheralsConfig { enabled: false, boards: Vec::new(), datasheet_dir: None }
    }
}

#[derive(Debug, Clone)]
pub struct PeripheralBoardConfig {
    pub board: String,
    pub transport: String,
    pub path: Option<String>,
    pub baud: u32,
}

impl Default for PeripheralBoardConfig {
    fn default() -> (r: Self)
        ensures
            r.board@ == Seq::<char>::empty(),
            r.transport@ == "serial"@,
            r.path is None,
            r.baud == 115200,
    {
        PeripheralBoardConfig {
            board: String::new(),
            transport: lit("serial"),
            path: None,
            baud: 115200,
        }
    }
}

#[derive(Debug, Clone)]
pub struct GatewayConfig {
    pub port: u16,
    pub host: String,
    pub require_pairing: bool,
    pub allow_public_bind: bool,
    pub paired_tokens: Vec<String>,
    pub pair_rate_limit_per_minute: u32,
    pub webhook_rate_limit_per_minute: u32,
    pub idempotency_ttl_secs: u64,
    pub rate_limit_max_keys: usize,
    pub idempotency_max_keys: usize,
    pub trust_forwarded_headers: bool,
}

impl Default for GatewayConfig {
    fn default() -> (r: Self)
        ensures
            r.port == 3000,
            r.host@ == "127.0.0.1"@,
            r.require_pairing,
            !r.allow_public_bind,
            r.paired_tokens@.len() == 0,
            r.pair_rate_limit_per_minute == 10,
            r.webhook_rate_limit_per_minute == 60,
            r.idempotency_ttl_secs == 300,
            r.rate_limit_max_keys == 10000,
            r.idempotency_max_keys == 10000,
            !r.trust_forwarded_headers,
    {
        GatewayConfig {
            port: 3000,
            host: lit("127.0.0.1"),
            require_pairing: true,
            allow_public_bind: false,
            paired_tokens: Vec::new(),
            pair_rate_limit_per_minute: 10,
            webhook_rate_limit_per_minute: 60,
            idempotency_ttl_secs: 300,
            rate_limit_max_keys: 10000,
            idempotency_max_keys: 10000,
            trust_forwarded_headers: false,
        }
    }
}

#[derive(Debug, Clone)]
pub struct ComposioConfig {
    pub enabled: bool,
    pub api_key: Option<String>,
    pub entity_id: String,
}

impl Default for ComposioConfig {
    fn default() -> (r: Self)
        ensures
            !r.enabled,
            r.api_key is None,
            r.entity_id@ == "default"@,
    {
        ComposioConfig { enabled: false, api_key: None, entity_id: lit("default") }
    }
}

#[derive(Debug, Clone)]
pub struct SecretsConfig {
    pub encrypt: bool,
}

impl Default for SecretsConfig {
    fn default() -> (r: Self)
        ensures
            r.encrypt,
    {
        SecretsConfig { encrypt: true }
    }
}

#[derive(Debug, Clone)]
pub struct BrowserComputerUseConfig {
    pub endpoint: String,
    pub api_key: Option<String>,
    pub timeout_ms: u64,
    pub allow_remote_endpoint: bool,
    pub window_allowlist: Vec<String>,
    pub max_coordinate_x: Option<i64>,
    pub max_coordinate_y: Option<i64>,
}

impl Default for BrowserComputerUseConfig {
    fn default() -> (r: Self)
        ensures
            r.endpoint@ == "http://127.0.0.1:8787/v1/actions"@,
            r.api_key is None,
            r.timeout_ms == 15000,
            !r.allow_remote_endpoint,
            r.window_allowlist@.len() == 0,
            r.max_coordinate_x is None,
            r.max_coordinate_y is None,
    {
        BrowserComputerUseConfig {
            endpoint: lit("http://127.0.0.1:8787/v1/actions"),
            api_key: None,
            timeout_ms: 15000,
            allow_remote_endpoint: false,
            window_allowlist: Vec::new(),
            max_coordinate_x: None,
            max_coordinate_y: None,
        }
    }
}

#[derive(Debug, Clone)]
pub struct BrowserConfig {
    pub enabled: bool,
    pub allowed_domains: Vec<String>,
    pub session_name: Option<String>,
    pub backend: String,
    pub native_headless: bool,
    pub native_webdriver_url: String,
    pub native_chrome_path: Option<String>,
    pub computer_use: BrowserComputerUseConfig,
}

impl Default for BrowserConfig {
    fn default() -> (r: Self)
        ensures
            !r.enabled,
            r.allowed_domains@.len() == 0,
            r.session_name is None,
            r.backend@ == "agent_browser"@,
            r.native_headless,
            r.native_webdriver_url@ == "http://127.0.0.1:9515"@,
            r.native_chrome_path is None,
            r.computer_use.endpoint@ == "http://127.0.0.1:8787/v1/actions"@,
            r.computer_use.timeout_ms == 15000,
            !r.computer_use.allow_remote_endpoint,
            r.computer_use.window_allowlist@.len() == 0,
            r.computer_use.max_coordinate_x is None,
            r.computer_use.max_coordinate_y is None,
    {
        BrowserConfig {
            enabled: false,
            allowed_domains: Vec::new(),
            session_name: None,
            backend: lit("agent_browser"),
            native_headless: true,
            native_webdriver_url: lit("http://127.0.0.1:9515"),
            native_chrome_path: None,
            computer_use: BrowserComputerUseConfig::default(),
        }
    }
}

#[derive(Debug, Clone)]
pub struct HttpRequestConfig {
    pub enabled: bool,
    pub allowed_domains: Vec<String>,
    pub max_response_size: usize,
    pub timeout_secs: u64,
}

impl Default for HttpRequestConfig {
    fn default() -> (r: Self)
        ensures
            !r.enabled,
            r.allowed_domains@.len() == 0,
            r.max_response_size == 1000000,
            r.timeout_secs == 30,
    {
        HttpRequestConfig {
            enabled: false,
            allowed_domains: Vec::new(),
            max_response_size: 1000000,
            timeout_secs: 30,
        }
    }
}

#[derive(Debug, Clone)]
pub struct WebSearchConfig {
    pub enabled: bool,
    pub provider: String,
    pub brave_api_key: Option<String>,
    pub max_results: usize,
    pub timeout_secs: u64,
}

impl Default for WebSearchConfig {
    fn default() -> (r: Self)
        ensures
            !r.enabled,
            r.provider@ == "duckduckgo"@,
            r.brave_api_key is None,
            r.max_results == 5,
            r.timeout_secs == 15,
    {
        WebSearchConfig {
            enabled: false,
            provider: lit("duckduckgo"),
            brave_api_key: None,
            max_results: 5,
            timeout_secs: 15,
        }
    }
}

#[derive(Debug, Clone)]
pub struct StorageProviderConfig {
    pub db_url: Option<String>,
    pub schema: String,
    pub table: String,
}

impl Default for StorageProviderConfig {
    fn default() -> (r: Self)
        ensures
            r.db_url is None,
            r.schema@ == "public"@,
            r.table@ == "redclaw_kv"@,
    {
        StorageProviderConfig { db_url: None, schema: lit("public"), table: lit("redclaw_kv") }
    }
}

#[derive(Debug, Clone)]
pub struct StorageProviderSection {
    pub config: StorageProviderConfig,
}

impl Default for StorageProviderSection {
    fn default() -> (r: Self)
        ensures
            r.config.db_url is None,
    {
        StorageProviderSection { config: StorageProviderConfig::default() }
    }
}

#[derive(Debug, Clone)]
pub struct StorageConfig {
    pub provider: StorageProviderSection,
}

impl Default for StorageConfig {
    fn default() -> (r: Self)
        ensures
            r.provider.config.db_url is None,
    {
        StorageConfig { provider: StorageProviderSection::default() }
    }
}

/// Memory settings; relevance weights are in thousandths.
#[derive(Debug, Clone)]
pub struct MemoryConfig {
    pub backend: String,
    pub auto_save: bool,
    pub hygiene_enabled: bool,
    pub archive_after_days: u32,
    pub purge_after_days: u32,
    pub conversation_retention_days: u32,
    pub embedding_provider: String,
    pub embedding_model: String,
    pub embedding_dimensions: usize,
    pub vector_weight_milli: u32,
    pub keyword_weight_milli: u32,
    pub min_relevance_score_milli: u32,
    pub embedding_cache_size: usize,
    pub chunk_max_tokens: usize,
    pub response_cache_enabled: bool,
    pub response_cache_ttl_minutes: u32,
    pub response_cache_max_entries: usize,
    pub snapshot_enabled: bool,
    pub snapshot_on_hygiene: bool,
    pub auto_hydrate: bool,
    pub sqlite_open_timeout_secs: Option<u64>,
}

impl Default for MemoryConfig {
    fn default() -> (r: Self)
        ensures
            r.backend@ == "sqlite"@,
            r.auto_save,
            r.hygiene_enabled,
            r.archive_after_days == 7,
            r.purge_after_days == 30,
            r.conversation_retention_days == 30,
            r.embedding_provider@ == "none"@,
            r.embedding_model@ == "text-embedding-3-small"@,
            r.embedding_dimensions == 1536,
            r.vector_weight_milli == 700,
            r.keyword_weight_milli == 300,
            r.min_relevance_score_milli == 400,
            r.embedding_cache_size == 10000,
            r.chunk_max_tokens == 512,
            !r.response_cache_enabled,
            r.response_cache_ttl_minutes == 60,
            r.response_cache_max_entries == 5000,
            !r.snapshot_enabled,
            !r.snapshot_on_hygiene,
            r.auto_hydrate,
            r.sqlite_open_timeout_secs is None,
    {
        MemoryConfig {
            backend: lit("sqlite"),
            auto_save: true,
            hygiene_enabled: true,
            archive_after_days: 7,
            purge_after_days: 30,
            conversation_retention_days: 30,
            embedding_provider: lit("none"),
            embedding_model: lit("text-embedding-3-small"),
            embedding_dimensions: 1536,
            vector_weight_milli: 700,
            keyword_weight_milli: 300,
            min_relevance_score_milli: 400,
            embedding_cache_size: 10000,
            chunk_max_tokens: 512,
            response_cache_enabled: false,
            response_cache_ttl_minutes: 60,
            response_cache_max_entries: 5000,
            snapshot_enabled: false,
            snapshot_on_hygiene: false,
            auto_hydrate: true,
            sqlite_open_timeout_secs: None,
        }
    }
}

/// Runtime kind and sandbox image settings; the CPU limit is in
/// thousandths of a core.
#[derive(Debug, Clone)]
pub struct DockerRuntimeConfig {
    pub image: String,
    pub network: String,
    pub memory_limit_mb: Option<u64>,
    pub cpu_limit_milli: Option<u32>,
    pub read_only_rootfs: bool,
    pub mount_workspace: bool,
    pub allowed_workspace_roots: Vec<String>,
}

impl Default for DockerRuntimeConfig {
    fn default() -> (r: Self)
        ensures
            r.image@ == "alpine:3.20"@,
            r.network@ == "none"@,
            r.memory_limit_mb == Some(512u64),
            r.cpu_limit_milli == Some(1000u32),
            r.read_only_rootfs,
            r.mount_workspace,
            r.allowed_workspace_roots@.len() == 0,
    {
        DockerRuntimeConfig {
            image: lit("alpine:3.20"),
            network: lit("none"),
            memory_limit_mb: Some(512),
            cpu_limit_milli: Some(1000),
            read_only_rootfs: true,
            mount_workspace: true,
            allowed_workspace_roots: Vec::new(),
        }
    }
}

#[derive(Debug, Clone)]
pub struct RuntimeConfig {
    pub kind: String,
    pub docker: DockerRuntimeConfig,
    pub reasoning_enabled: Option<bool>,
}

impl Default for RuntimeConfig {
    fn default() -> (r: Self)
        ensures
            r.kind@ == "native"@,
            r.docker.image@ == "alpine:3.20"@,
            r.reasoning_enabled is None,
    {
        RuntimeConfig {
            kind: lit("native"),
            docker: DockerRuntimeConfig::default(),
            reasoning_enabled: None,
        }
    }
}

#[derive(Debug, Clone)]
pub struct ReliabilityConfig {
    pub provider_retries: u32,
    pub provider_backoff_ms: u64,
    pub fallback_providers: Vec<String>,
    pub api_keys: Vec<String>,
    pub model_fallbacks: Vec<(String, Vec<String>)>,
    pub channel_initial_backoff_secs: u64,
    pub channel_max_backoff_secs: u64,
    pub scheduler_poll_secs: u64,
    pub scheduler_retries: u32,
}

impl Default for ReliabilityConfig {
    fn default() -> (r: Self)
        ensures
            r.provider_retries == 2,
            r.provider_backoff_ms == 500,
            r.fallback_providers@.len() == 0,
            r.api_keys@.len() == 0,
            r.model_fallbacks@.len() == 0,
            r.channel_initial_backoff_secs == 2,
            r.channel_max_backoff_secs == 60,
            r.scheduler_poll_secs == 15,
            r.scheduler_retries == 2,
    {
        ReliabilityConfig {
            provider_retries: 2,
            provider_backoff_ms: 500,
            fallback_providers: Vec::new(),
            api_keys: Vec::new(),
            model_fallbacks: Vec::new(),
            channel_initial_backoff_secs: 2,
            channel_max_backoff_secs: 60,
            scheduler_poll_secs: 15,
            scheduler_retries: 2,
        }
    }
}

#[derive(Debug, Clone)]
pub struct SchedulerConfig {
    pub enabled: bool,
    pub max_tasks: usize,
    pub max_concurrent: usize,
}

impl Default for SchedulerConfig {
    fn default() -> (r: Self)
        ensures
            r.enabled,
            r.max_tasks == 64,
            r.max_concurrent == 4,
    {
        SchedulerConfig { enabled: true, max_tasks: 64, max_concurrent: 4 }
    }
}

#[derive(Debug, Clone)]
pub struct ModelRouteConfig {
    pub hint: String,
    pub provider: String,
    pub model: String,
}

#[derive(Debug, Clone)]
pub struct EmbeddingRouteConfig {
    pub hint: String,
    pub provider: String,
    pub model: String,
}

#[derive(Debug, Clone)]
pub struct MultimodalConfig {
    pub max_images: usize,
    pub max_image_size_mb: usize,
}

impl Default for MultimodalConfig {
    fn default() -> (r: Self)
        ensures
            r.max_images == 4,
            r.max_image_size_mb == 10,
    {
        MultimodalConfig { max_images: 4, max_image_size_mb: 10 }
    }
}

impl MultimodalConfig {
    /// The limits actually applied: at least one image, at least one
    /// megabyte.
    pub fn effective_limits(&self) -> (r: (usize, usize))
        ensures
            r.0 == if self.max_images >= 1 {
                self.max_images as int
            } else {
                1int
            },
            r.1 == if self.max_image_size_mb >= 1 {
                self.max_image_size_mb as int
            } else {
                1int
            },
    {
        let images = if self.max_images >= 1 {
            self.max_images
        } else {
            1
        };
        let size = if self.max_image_size_mb >= 1 {
            self.max_image_size_mb
        } else {
            1
        };
        (images, size)
    }
}

#[derive(Debug, Clone)]
pub struct ClassificationRule {
    pub hint: String,
    pub keywords: Vec<String>,
    pub priority: i32,
}

#[derive(Debug, Clone)]
pub struct QueryClassificationConfig {
    pub enabled: bool,
    pub rules: Vec<ClassificationRule>,
}

impl Default for QueryClassificationConfig {
    fn default() -> (r: Self)
        ensures
            !r.enabled,
            r.rules@.len() == 0,
    {
        QueryClassificationConfig { enabled: false, rules: Vec::new() }
    }
}

#[derive(Debug, Clone)]
pub struct HeartbeatConfig {
    pub enabled: bool,
    pub interval_minutes: u32,
}

impl Default for HeartbeatConfig {
    fn default() -> (r: Self)
        ensures
            !r.enabled,
            r.interval_minutes == 30,
    {
        HeartbeatConfig { enabled: false, interval_minutes: 30 }
    }
}

#[derive(Debug, Clone)]
pub struct CronConfig {
    pub enabled: bool,
    pub max_run_history: u32,
}

impl Default for CronConfig {
    fn default() -> (r: Self)
        ensures
            r.enabled,
            r.max_run_history == 50,
    {
        CronConfig { enabled: true, max_run_history: 50 }
    }
}

#[derive(Debug, Clone)]
pub struct CloudflareTunnelConfig {
    pub token: String,
}

#[derive(Debug, Clone)]
pub struct TailscaleTunnelConfig {
    pub funnel: bool,
    pub hostname: Option<String>,
}

#[derive(Debug, Clone)]
pub struct NgrokTunnelConfig {
    pub auth_token: String,
    pub domain: Option<String>,
}

#[derive(Debug, Clone)]
pub struct CustomTunnelConfig {
    pub start_command: String,
    pub health_url: Option<String>,
    pub url_pattern: Option<String>,
}

#[derive(Debug, Clone)]
pub struct TunnelConfig {
    pub provider: String,
    pub cloudflare: Option<CloudflareTunnelConfig>,
    pub tailscale: Option<TailscaleTunnelConfig>,
    pub ngrok: Option<NgrokTunnelConfig>,
    pub custom: Option<CustomTunnelConfig>,
}

impl Default for TunnelConfig {
    fn default() -> (r: Self)
        ensures
            r.provider@ == "none"@,
            r.cloudflare is None,
            r.tailscale is None,
            r.ngrok is None,
            r.custom is None,
    {
        TunnelConfig {
            provider: lit("none"),
            cloudflare: None,
            tailscale: None,
            ngrok: None,
            custom: None,
        }
    }
}

/// Streaming style for incremental message updates.
#[derive(Debug, Clone, Copy, PartialEq, Eq, Structural)]
pub enum StreamMode {
    Off,
    Draft,
    Live,
}

impl Default for StreamMode {
    fn default() -> (r: Self)
        ensures
            r == StreamMode::Off,
    {
        StreamMode::Off
    }
}

#[derive(Debug, Clone)]
pub struct TelegramConfig {
    pub bot_token: String,
    pub allowed_users: Vec<String>,
    pub stream_mode: StreamMode,
    pub draft_update_interval_ms: u64,
    pub interrupt_on_new_message: bool,
    pub mention_only: bool,
}

#[derive(Debug, Clone)]
pub struct DiscordConfig {
    pub bot_token: String,
    pub guild_id: String,
    pub allowed_users: Vec<String>,
}

#[derive(Debug, Clone)]
pub struct SlackConfig {
    pub bot_token: String,
    pub app_token: Option<String>,
    pub allowed_users: Vec<String>,
}

#[derive(Debug, Clone)]
pub struct MattermostConfig {
    pub server_url: String,
    pub token: String,
    pub allowed_users: Vec<String>,
}

#[derive(Debug, Clone)]
pub struct WebhookConfig {
    pub port: u16,
    pub secret: Option<String>,
}

#[derive(Debug, Clone)]
pub struct IMessageConfig {
    pub allowed_contacts: Vec<String>,
}

#[derive(Debug, Clone)]
pub struct MatrixConfig {
    pub homeserver: String,
    pub username: String,
    pub password: String,
    pub allowed_users: Vec<String>,
}

#[derive(Debug, Clone)]
pub struct SignalConfig {
    pub phone_number: String,
    pub api_url: String,
    pub allowed_numbers: Vec<String>,
}

#[derive(Debug, Clone)]
pub struct WhatsAppConfig {
    pub phone_number_id: Option<String>,
    pub access_token: Option<String>,
    pub verify_token: Option<String>,
    pub session_path: Option<String>,
    pub allowed_numbers: Vec<String>,
}

impl WhatsAppConfig {
    /// Which backend the fields select: a phone number id picks the
    /// cloud API; otherwise a session path picks the web client; by
    /// default the cloud API.
    pub fn backend_type(&self) -> (r: &'static str)
        ensures
            self.phone_number_id is Some ==> r@ == "cloud"@,
            self.phone_number_id is None && self.session_path is Some ==> r@ == "web"@,
            self.phone_number_id is None && self.session_path is None ==> r@ == "cloud"@,
    {
        if matches!(&self.phone_number_id, Some(_)) {
            "cloud"
        } else if matches!(&self.session_path, Some(_)) {
            "web"
        } else {
            "cloud"
        }
    }

    /// All three cloud credentials are present.
    pub fn is_cloud_config(&self) -> (r: bool)
        ensures
            r == (self.phone_number_id is Some && self.access_token is Some && self.verify_token
                is Some),
    {
        matches!(&self.phone_number_id, Some(_)) && matches!(&self.access_token, Some(_))
            && matches!(&self.verify_token, Some(_))
    }

    /// A web-client session path is present.
    pub fn is_web_config(&self) -> (r: bool)
        ensures
            r == (self.session_path is Some),
    {
        matches!(&self.session_path, Some(_))
    }

    /// Both backend selectors are present.
    pub fn is_ambiguous_config(&self) -> (r: bool)
        ensures
            r == (self.phone_number_id is Some && self.session_path is Some),
    {
        matches!(&self.phone_number_id, Some(_)) && matches!(&self.session_path, Some(_))
    }
}

#[derive(Debug, Clone)]
pub struct LinqConfig {
    pub api_key: String,
    pub allowed_numbers: Vec<String>,
}

#[derive(Debug, Clone)]
pub struct NextcloudTalkConfig {
    pub base_url: String,
    pub username: String,
    pub app_password: String,
    pub allowed_users: Vec<String>,
}

#[derive(Debug, Clone)]
pub struct IrcConfig {
    pub server: String,
    pub port: u16,
    pub nickname: String,
    pub username: Option<String>,
    pub channels: Vec<String>,
    pub allowed_users: Vec<String>,
    pub server_password: Option<String>,
    pub nickserv_password: Option<String>,
    pub sasl_password: Option<String>,
    pub verify_tls: Option<bool>,
}

#[derive(Debug, Clone)]
pub struct LarkConfig {
    pub app_id: String,
    pub app_secret: String,
    pub encrypt_key: Option<String>,
    pub verification_token: Option<String>,
    pub allowed_users: Vec<String>,
    pub use_feishu: bool,
}

#[derive(Debug, Clone)]
pub struct DingTalkConfig {
    pub app_key: String,
    pub app_secret: String,
    pub allowed_users: Vec<String>,
}

#[derive(Debug, Clone)]
pub struct QqConfig {
    pub app_id: String,
    pub token: String,
    pub allowed_users: Vec<String>,
}

#[derive(Debug, Clone)]
pub struct ChannelsConfig {
    pub cli: bool,
    pub telegram: Option<TelegramConfig>,
    pub discord: Option<DiscordConfig>,
    pub slack: Option<SlackConfig>,
    pub mattermost: Option<MattermostConfig>,
    pub webhook: Option<WebhookConfig>,
    pub imessage: Option<IMessageConfig>,
    pub matrix: Option<MatrixConfig>,
    pub signal: Option<SignalConfig>,
    pub whatsapp: Option<WhatsAppConfig>,
    pub linq: Option<LinqConfig>,
    pub nextcloud_talk: Option<NextcloudTalkConfig>,
    pub email: Option<EmailConfig>,
    pub irc: Option<IrcConfig>,
    pub lark: Option<LarkConfig>,
    pub dingtalk: Option<DingTalkConfig>,
    pub qq: Option<QqConfig>,
    pub message_timeout_secs: u64,
}

impl Default for ChannelsConfig {
    fn default() -> (r: Self)
        ensures
            r.cli,
            r.telegram is None,
            r.discord is None,
            r.slack is None,
            r.mattermost is None,
            r.webhook is None,
            r.imessage is None,
            r.matrix is None,
            r.signal is None,
            r.whatsapp is None,
            r.linq is None,
            r.nextcloud_talk is None,
            r.email is None,
            r.irc is None,
            r.lark is None,
            r.dingtalk is None,
            r.qq is None,
            r.message_timeout_secs == 300,
    {
        ChannelsConfig {
            cli: true,
            telegram: None,
            discord: None,
            slack: None,
            mattermost: None,
            webhook: None,
            imessage: None,
            matrix: None,
            signal: None,
            whatsapp: None,
            linq: None,
            nextcloud_talk: None,
            email: None,
            irc: None,
            lark: None,
            dingtalk: None,
            qq: None,
            message_timeout_secs: 300,
        }
    }
}

#[derive(Debug, Clone)]
pub struct SandboxConfig {
    pub enabled: Option<bool>,
    pub backend: SandboxBackend,
    pub firejail_args: Vec<String>,
}

impl Default for SandboxConfig {
    fn default() -> (r: Self)
        ensures
            r.enabled is None,
            r.backend == SandboxBackend::Auto,
            r.firejail_args@.len() == 0,
    {
        SandboxConfig { enabled: None, backend: SandboxBackend::Auto, firejail_args: Vec::new() }
    }
}

#[derive(Debug, Clone, Copy, PartialEq, Eq, Structural)]
pub enum SandboxBackend {
    Auto,
    Landlock,
    Firejail,
    Disabled,
}

impl Default for SandboxBackend {
    fn default() -> (r: Self)
        ensures
            r == SandboxBackend::Auto,
    {
        SandboxBackend::Auto
    }
}

#[derive(Debug, Clone)]
pub struct ResourceLimitsConfig {
    pub max_memory_mb: u32,
    pub max_cpu_time_seconds: u64,
    pub max_subprocesses: u32,
    pub memory_monitoring_enabled: bool,
}

impl Default for ResourceLimitsConfig {
    fn default() -> (r: Self)
        ensures
            r.max_memory_mb == 512,
            r.max_cpu_time_seconds == 300,
            r.max_subprocesses == 32,
            r.memory_monitoring_enabled,
    {
        ResourceLimitsConfig {
            max_memory_mb: 512,
            max_cpu_time_seconds: 300,
            max_subprocesses: 32,
            memory_monitoring_enabled: true,
        }
    }
}

#[derive(Debug, Clone)]
pub struct AuditConfig {
    pub enabled: bool,
    pub log_path: String,
    pub max_size_mb: u32,
}

impl Default for AuditConfig {
    fn default() -> (r: Self)
        ensures
            r.enabled,
            r.log_path@ == "audit.log"@,
            r.max_size_mb == 100,
    {
        AuditConfig { enabled: true, log_path: lit("audit.log"), max_size_mb: 100 }
    }
}

#[derive(Debug, Clone)]
pub struct SecurityConfig {
    pub sandbox: SandboxConfig,
    pub resources: ResourceLimitsConfig,
    pub audit: AuditConfig,
}

impl Default for SecurityConfig {
    fn default() -> (r: Self)
        ensures
            r.sandbox.enabled is None,
            r.resources.max_memory_mb == 512,
            r.audit.enabled,
    {
        SecurityConfig {
            sandbox: SandboxConfig::default(),
            resources: ResourceLimitsConfig::default(),
            audit: AuditConfig::default(),
        }
    }
}

/// Hardware transport mode.
#[derive(Debug, Clone, Copy, PartialEq, Eq, Structural)]
pub enum HardwareTransport {
    Disabled,
    Native,
    Serial,
    Probe,
}

impl Default for HardwareTransport {
    fn default() -> (r: Self)
        ensures
            r == HardwareTransport::Disabled,
    {
        HardwareTransport::Disabled
    }
}

#[derive(Debug, Clone)]
pub struct HardwareConfig {
    pub enabled: bool,
    pub transport: HardwareTransport,
    pub serial_port: Option<String>,
    pub baud_rate: u32,
    pub probe_target: Option<String>,
    pub workspace_datasheets: bool,
}

impl HardwareConfig {
    /// The active transport mode.
    pub fn transport_mode(&self) -> (r: HardwareTransport)
        ensures
            r == self.transport,
    {
        self.transport
    }
}

impl Default for HardwareConfig {
    fn default() -> (r: Self)
        ensures
            !r.enabled,
            r.transport == HardwareTransport::Disabled,
            r.serial_port is None,
            r.baud_rate == 115200,
            r.probe_target is None,
            !r.workspace_datasheets,
    {
        HardwareConfig {
            enabled: false,
            transport: HardwareTransport::Disabled,
            serial_port: None,
            baud_rate: 115200,
            probe_target: None,
            workspace_datasheets: false,
        }
    }
}

/// A delegate sub-agent; the temperature override is in thousandths.
#[derive(Debug, Clone)]
pub struct DelegateAgentConfig {
    pub provider: String,
    pub model: String,
    pub system_prompt: Option<String>,
    pub api_key: Option<String>,
    pub temperature_milli: Option<u32>,
    pub max_depth: u32,
    pub agentic: bool,
    pub allowed_tools: Vec<String>,
    pub max_iterations: usize,
}

/// Proxy application scope.
#[derive(Debug, Clone, Copy, PartialEq, Eq, Structural)]
pub enum ProxyScope {
    Environment,
    Redclaw,
    Services,
}

impl Default for ProxyScope {
    fn default() -> (r: Self)
        ensures
            r == ProxyScope::Redclaw,
    {
        ProxyScope::Redclaw
    }
}

#[derive(Debug, Clone)]
pub struct ProxyConfig {
    pub enabled: bool,
    pub http_proxy: Option<String>,
    pub https_proxy: Option<String>,
    pub all_proxy: Option<String>,
    pub no_proxy: Vec<String>,
    pub scope: ProxyScope,
    pub services: Vec<String>,
}

impl Default for ProxyConfig {
    fn default() -> (r: Self)
        ensures
            !r.enabled,
            r.http_proxy is None,
            r.https_proxy is None,
            r.all_proxy is None,
            r.no_proxy@.len() == 0,
            r.scope == ProxyScope::Redclaw,
            r.services@.len() == 0,
    {
        ProxyConfig {
            enabled: false,
            http_proxy: None,
            https_proxy: None,
            all_proxy: None,
            no_proxy: Vec::new(),
            scope: ProxyScope::Redclaw,
            services: Vec::new(),
        }
    }
}

/// A proxy URL field after trimming: nothing when blank.
pub open spec fn spec_normalized_url(raw: Option<String>) -> Option<Seq<char>> {
    match raw {
        Some(s) => if spec_trim_ws(s@).len() > 0 {
            Some(spec_trim_ws(s@))
        } else {
            None
        },
        None => None,
    }
}

/// Whether a trimmed proxy URL has a supported scheme and a non-empty
/// remainder.
pub open spec fn spec_proxy_url_ok(u: Seq<char>) -> bool {
    ||| (crate::chars::spec_starts_with(u, "http://"@) && u.len() > 7)
    ||| (crate::chars::spec_starts_with(u, "https://"@) && u.len() > 8)
    ||| (crate::chars::spec_starts_with(u, "socks5://"@) && u.len() > 9)
    ||| (crate::chars::spec_starts_with(u, "socks5h://"@) && u.len() > 10)
}

fn proxy_url_ok(u: &str) -> (r: bool)
    ensures
        r == spec_proxy_url_ok(u@),
{
    let chars = str_chars(u);
    let n = chars.len();
    proof {
        reveal_strlit("http://");
        reveal_strlit("https://");
        reveal_strlit("socks5://");
        reveal_strlit("socks5h://");
    }
    (crate::chars::starts_with_chars(&chars, "http://") && n > 7) || (
    crate::chars::starts_with_chars(&chars, "https://") && n > 8) || (
    crate::chars::starts_with_chars(&chars, "socks5://") && n > 9) || (
    crate::chars::starts_with_chars(&chars, "socks5h://") && n > 10)
}

/// An ordered, duplicate-free list with one value inserted in place:
/// an already-present value changes nothing, any other value lands in
/// front of the first element it precedes.
pub open spec fn spec_sorted_insert(acc: Seq<Seq<char>>, t: Seq<char>) -> Seq<Seq<char>>
    decreases acc.len(),
{
    if acc.len() == 0 {
        seq![t]
    } else if t == acc[0] {
        acc
    } else if crate::chars::spec_lex_le(t, acc[0]) {
        seq![t] + acc
    } else {
        seq![acc[0]] + spec_sorted_insert(acc.drop_first(), t)
    }
}

/// Inserting at the position in front of the first element `t` precedes
/// is what `spec_sorted_insert` does; at an equal element, nothing
/// changes.
proof fn lemma_sorted_insert_at(acc: Seq<Seq<char>>, t: Seq<char>, pos: int)
    requires
        0 <= pos <= acc.len(),
        forall|j: int| 0 <= j < pos ==> !crate::chars::spec_lex_le(t, #[trigger] acc[j]),
        pos < acc.len() ==> crate::chars::spec_lex_le(t, acc[pos]),
    ensures
        pos < acc.len() && acc[pos] == t ==> spec_sorted_insert(acc, t) == acc,
        !(pos < acc.len() && acc[pos] == t) ==> spec_sorted_insert(acc, t) == acc.insert(pos, t),
    decreases pos,
{
    if pos == 0 {
        if acc.len() == 0 {
            assert(acc.insert(0, t) =~= seq![t]);
        } else if acc[0] == t {
        } else {
            assert(acc.insert(0, t) =~= seq![t] + acc);
        }
    } else {
        crate::chars::lemma_lex_refl(t);
        assert(acc[0] != t);
        assert forall|j: int| 0 <= j < pos - 1 implies !crate::chars::spec_lex_le(
            t,
            #[trigger] acc.drop_first()[j],
        ) by {
            assert(acc.drop_first()[j] == acc[j + 1]);
        }
        if pos - 1 < acc.drop_first().len() {
            assert(acc.drop_first()[pos - 1] == acc[pos]);
        }
        lemma_sorted_insert_at(acc.drop_first(), t, pos - 1);
        if pos < acc.len() && acc[pos] == t {
            assert(spec_sorted_insert(acc.drop_first(), t) == acc.drop_first());
            assert(seq![acc[0]] + acc.drop_first() =~= acc);
        } else {
            assert(spec_sorted_insert(acc.drop_first(), t) == acc.drop_first().insert(
                pos - 1,
                t,
            ));
            assert(seq![acc[0]] + acc.drop_first().insert(pos - 1, t) =~= acc.insert(pos, t));
        }
    }
}

/// The list stays ordered and duplicate-free.
pub open spec fn spec_sorted_nodup(s: Seq<Seq<char>>) -> bool {
    forall|i: int|
        0 <= i && i + 1 < s.len() ==> crate::chars::spec_lex_le(#[trigger] s[i], s[i + 1]) && s[i]
            != s[i + 1]
}

/// Insertion preserves order and distinctness.
pub proof fn lemma_sorted_insert_keeps(acc: Seq<Seq<char>>, t: Seq<char>)
    requires
        spec_sorted_nodup(acc),
    ensures
        spec_sorted_nodup(spec_sorted_insert(acc, t)),
    decreases acc.len(),
{
    let r = spec_sorted_insert(acc, t);
    if acc.len() == 0 {
        assert(r =~= seq![t]);
    } else if t == acc[0] {
    } else if crate::chars::spec_lex_le(t, acc[0]) {
        assert(r =~= seq![t] + acc);
        assert forall|i: int|
            0 <= i && i + 1 < r.len() implies crate::chars::spec_lex_le(#[trigger] r[i], r[i + 1])
            && r[i] != r[i + 1] by {
            if i > 0 {
                assert(r[i] == acc[i - 1]);
                assert(r[i + 1] == acc[i]);
            }
        }
    } else {
        assert forall|i: int|
            0 <= i && i + 1 < acc.drop_first().len() implies crate::chars::spec_lex_le(
            #[trigger] acc.drop_first()[i],
            acc.drop_first()[i + 1],
        ) && acc.drop_first()[i] != acc.drop_first()[i + 1] by {
            assert(acc.drop_first()[i] == acc[i + 1]);
            assert(acc.drop_first()[i + 1] == acc[i + 2]);
        }
        lemma_sorted_insert_keeps(acc.drop_first(), t);
        let inner = spec_sorted_insert(acc.drop_first(), t);
        crate::chars::lemma_lex_refl(t);
        crate::chars::lemma_lex_total(t, acc[0]);
        assert(crate::chars::spec_lex_le(acc[0], t));
        assert(r =~= seq![acc[0]] + inner);
        assert forall|i: int|
            0 <= i && i + 1 < r.len() implies crate::chars::spec_lex_le(#[trigger] r[i], r[i + 1])
            && r[i] != r[i + 1] by {
            if i == 0 {
                assert(r[0] == acc[0]);
                assert(r[1] == inner[0]);
                if acc.drop_first().len() == 0 {
                    assert(inner =~= seq![t]);
                } else if t == acc.drop_first()[0] {
                    assert(inner[0] == acc[1]);
                } else if crate::chars::spec_lex_le(t, acc.drop_first()[0]) {
                    assert(inner == seq![t] + acc.drop_first());
                    assert(inner[0] == t);
                } else {
                    assert(inner == seq![acc.drop_first()[0]] + spec_sorted_insert(
                        acc.drop_first().drop_first(),
                        t,
                    ));
                    assert(inner[0] == acc[1]);
                }
            } else {
                assert(r[i] == inner[i - 1]);
                assert(r[i + 1] == inner[i]);
            }
        }
    }
}

/// Inserts `s` into an ordered, duplicate-free list of strings,
/// keeping it so.
fn sorted_insert_string(acc: &mut Vec<String>, s: String)
    ensures
        final(acc).deep_view() == spec_sorted_insert(old(acc).deep_view(), s@),
{
    let schars = str_chars(s.as_str());
    let n = acc.len();
    let mut pos: usize = 0;
    while pos < n
        invariant
            n == acc.deep_view().len(),
            acc@.len() == n,
            pos <= n,
            schars@ == s@,
            forall|j: int|
                0 <= j < pos ==> !crate::chars::spec_lex_le(s@, #[trigger] acc.deep_view()[j]),
        ensures
            pos <= n,
            n == acc.deep_view().len(),
            acc@.len() == n,
            schars@ == s@,
            forall|j: int|
                0 <= j < pos ==> !crate::chars::spec_lex_le(s@, #[trigger] acc.deep_view()[j]),
            pos < n ==> crate::chars::spec_lex_le(s@, acc.deep_view()[pos as int]),
        decreases n - pos,
    {
        proof {
            assert(acc.deep_view()[pos as int] == acc@[pos as int]@);
        }
        let entry = str_chars(acc[pos].as_str());
        if crate::chars::lex_le(&schars, &entry) {
            break;
        }
        pos = pos + 1;
    }
    let ghost before = acc.deep_view();
    if pos < acc.len() {
        proof {
            assert(acc.deep_view()[pos as int] == acc@[pos as int]@);
        }
        if str_eq(acc[pos].as_str(), s.as_str()) {
            proof {
                lemma_sorted_insert_at(before, s@, pos as int);
            }
            return;
        }
    }
    acc.insert(pos, s);
    proof {
        lemma_sorted_insert_at(before, s@, pos as int);
        assert(acc.deep_view() =~~= before.insert(pos as int, s@));
    }
}

/// Comma-splitting and trimming of one raw list entry, folded into the
/// ordered accumulator; empty parts are dropped, repeats change
/// nothing, and parts are lower-cased when `lower` is set.
pub open spec fn spec_add_parts(
    parts: Seq<Seq<char>>,
    j: int,
    acc: Seq<Seq<char>>,
    lower: bool,
) -> Seq<Seq<char>>
    decreases parts.len() - j,
{
    if j < 0 || j >= parts.len() {
        acc
    } else {
        let raw = spec_trim_ws(parts[j]);
        let t = if lower {
            spec_lower(raw)
        } else {
            raw
        };
        if t.len() == 0 {
            spec_add_parts(parts, j + 1, acc, lower)
        } else {
            spec_add_parts(parts, j + 1, spec_sorted_insert(acc, t), lower)
        }
    }
}

/// The normalized form of a list of comma-separated values: split,
/// trimmed, blanks dropped, sorted ascending and duplicate-free.
pub open spec fn spec_normalize_values(
    values: Seq<Seq<char>>,
    i: int,
    acc: Seq<Seq<char>>,
    lower: bool,
) -> Seq<Seq<char>>
    decreases values.len() - i,
{
    if i < 0 || i >= values.len() {
        acc
    } else {
        spec_normalize_values(
            values,
            i + 1,
            spec_add_parts(crate::chars::spec_split(values[i], ','), 0, acc, lower),
            lower,
        )
    }
}

/// Folding more parts in keeps the list ordered and duplicate-free.
proof fn lemma_add_parts_keeps(parts: Seq<Seq<char>>, j: int, acc: Seq<Seq<char>>, lower: bool)
    requires
        spec_sorted_nodup(acc),
    ensures
        spec_sorted_nodup(spec_add_parts(parts, j, acc, lower)),
    decreases parts.len() - j,
{
    if 0 <= j < parts.len() {
        let raw = spec_trim_ws(parts[j]);
        let t = if lower {
            spec_lower(raw)
        } else {
            raw
        };
        if t.len() == 0 {
            lemma_add_parts_keeps(parts, j + 1, acc, lower);
        } else {
            lemma_sorted_insert_keeps(acc, t);
            lemma_add_parts_keeps(parts, j + 1, spec_sorted_insert(acc, t), lower);
        }
    }
}

/// The normalized list is sorted ascending and duplicate-free.
pub proof fn lemma_normalized_sorted(
    values: Seq<Seq<char>>,
    i: int,
    acc: Seq<Seq<char>>,
    lower: bool,
)
    requires
        spec_sorted_nodup(acc),
    ensures
        spec_sorted_nodup(spec_normalize_values(values, i, acc, lower)),
    decreases values.len() - i,
{
    if 0 <= i < values.len() {
        lemma_add_parts_keeps(crate::chars::spec_split(values[i], ','), 0, acc, lower);
        lemma_normalized_sorted(
            values,
            i + 1,
            spec_add_parts(crate::chars::spec_split(values[i], ','), 0, acc, lower),
            lower,
        );
    }
}

/// Normalizes a list of comma-separated values into the sorted,
/// duplicate-free form.
pub fn normalize_comma_values(values: &Vec<String>, lower: bool) -> (r: Vec<String>)
    ensures
        r.deep_view() == spec_normalize_values(values.deep_view(), 0, Seq::empty(), lower),
        spec_sorted_nodup(r.deep_view()),
{
    proof {
        lemma_normalized_sorted(values.deep_view(), 0, Seq::empty(), lower);
    }
    let n = values.len();
    let mut acc: Vec<String> = Vec::new();
    let mut i: usize = 0;
    proof {
        assert(acc.deep_view() =~~= Seq::<Seq<char>>::empty());
    }
    while i < n
        invariant
            n == values.deep_view().len(),
            values@.len() == n,
            i <= n,
            spec_normalize_values(values.deep_view(), 0, Seq::empty(), lower)
                == spec_normalize_values(values.deep_view(), i as int, acc.deep_view(), lower),
        decreases n - i,
    {
        proof {
            assert(values.deep_view()[i as int] == values@[i as int]@);
        }
        let vchars = str_chars(values[i].as_str());
        let parts = crate::chars::split_on(&vchars, ',');
        let nparts = parts.len();
        let ghost acc_start = acc.deep_view();
        let mut j: usize = 0;
        while j < nparts
            invariant
                nparts == parts.deep_view().len(),
                parts@.len() == nparts,
                j <= nparts,
                spec_add_parts(parts.deep_view(), 0, acc_start, lower) == spec_add_parts(
                    parts.deep_view(),
                    j as int,
                    acc.deep_view(),
                    lower,
                ),
            decreases nparts - j,
        {
            proof {
                assert(parts.deep_view()[j as int] == parts@[j as int]@);
            }
            let trimmed = trim_ws(&parts[j]);
            let t = if lower {
                lower_chars(&trimmed)
            } else {
                let copy = subrange_chars(&trimmed, 0, trimmed.len());
                proof {
                    assert(copy@ =~= trimmed@);
                }
                copy
            };
            if t.len() > 0 {
                sorted_insert_string(&mut acc, string_of_chars(&t));
            }
            j = j + 1;
        }
        proof {
            assert(spec_add_parts(parts.deep_view(), nparts as int, acc.deep_view(), lower)
                == acc.deep_view());
        }
        i = i + 1;
    }
    acc
}

/// Whether one selector covers a service key: exact match, or a
/// `prefix.*` selector covering `prefix.<anything>`.
pub open spec fn spec_selector_matches(sel: Seq<char>, key: Seq<char>) -> bool {
    if sel == key {
        true
    } else if crate::chars::spec_ends_with(sel, ".*"@) {
        let prefix = sel.take(sel.len() - 2);
        crate::chars::spec_starts_with(key, prefix) && key.len() > prefix.len() && key[
            prefix.len() as int
        ] == '.'
    } else {
        false
    }
}

pub fn selector_matches(sel: &str, key: &str) -> (r: bool)
    ensures
        r == spec_selector_matches(sel@, key@),
{
    if str_eq(sel, key) {
        return true;
    }
    let sel_chars = str_chars(sel);
    if crate::chars::ends_with_chars(&sel_chars, ".*") {
        proof {
            reveal_strlit(".*");
            assert(".*"@.len() == 2);
        }
        let prefix = subrange_chars(&sel_chars, 0, sel_chars.len() - 2);
        proof {
            assert(prefix@ =~= sel@.take(sel@.len() - 2));
        }
        let key_chars = str_chars(key);
        let prefix_str = string_of_chars(&prefix);
        if crate::chars::starts_with_chars(&key_chars, prefix_str.as_str()) && key_chars.len()
            > prefix.len() {
            return key_chars[prefix.len()] == '.';
        }
        return false;
    }
    false
}

/// The service keys the proxy settings know.
pub open spec fn spec_service_keys() -> Seq<Seq<char>> {
    seq!["provider.ollama"@, "provider.openai"@, "provider.anthropic"@, "provider.openrouter"@, "web_search"@, "http_request"@, "browser"@]
}

/// The selector forms accepted in `proxy.services`.
pub open spec fn spec_service_selectors() -> Seq<Seq<char>> {
    seq!["provider.*"@, "provider.ollama"@, "provider.openai"@, "provider.anthropic"@, "provider.openrouter"@, "web_search"@, "http_request"@, "browser"@]
}

impl ProxyConfig {
    /// The service keys the proxy settings know.
    pub fn supported_service_keys() -> (r: Vec<String>)
        ensures
            r.deep_view() == spec_service_keys(),
    {
        let mut v: Vec<String> = Vec::new();
        push_lit(&mut v, "provider.ollama");
        push_lit(&mut v, "provider.openai");
        push_lit(&mut v, "provider.anthropic");
        push_lit(&mut v, "provider.openrouter");
        push_lit(&mut v, "web_search");
        push_lit(&mut v, "http_request");
        push_lit(&mut v, "browser");
        proof {
            assert(v.deep_view() =~~= spec_service_keys());
        }
        v
    }

    /// The selector forms accepted in `proxy.services`.
    pub fn supported_service_selectors() -> (r: Vec<String>)
        ensures
            r.deep_view() == spec_service_selectors(),
    {
        let mut v: Vec<String> = Vec::new();
        push_lit(&mut v, "provider.*");
        push_lit(&mut v, "provider.ollama");
        push_lit(&mut v, "provider.openai");
        push_lit(&mut v, "provider.anthropic");
        push_lit(&mut v, "provider.openrouter");
        push_lit(&mut v, "web_search");
        push_lit(&mut v, "http_request");
        push_lit(&mut v, "browser");
        proof {
            assert(v.deep_view() =~~= spec_service_selectors());
        }
        v
    }

    /// Whether any proxy URL field is set to a non-blank value.
    pub fn has_any_proxy_url(&self) -> (r: bool)
        ensures
            r == (spec_normalized_url(self.http_proxy) is Some || spec_normalized_url(
                self.https_proxy,
            ) is Some || spec_normalized_url(self.all_proxy) is Some),
    {
        nonblank(&self.http_proxy) || nonblank(&self.https_proxy) || nonblank(&self.all_proxy)
    }

    /// The normalized service selectors: split, trimmed, lower-cased,
    /// blanks and repeats dropped.
    pub fn normalized_services(&self) -> (r: Vec<String>)
        ensures
            r.deep_view() == spec_normalize_values(
                self.services.deep_view(),
                0,
                Seq::empty(),
                true,
            ),
    {
        normalize_comma_values(&self.services, true)
    }

    /// The normalized bypass list: split, trimmed, blanks and repeats
    /// dropped.
    pub fn normalized_no_proxy(&self) -> (r: Vec<String>)
        ensures
            r.deep_view() == spec_normalize_values(
                self.no_proxy.deep_view(),
                0,
                Seq::empty(),
                false,
            ),
    {
        normalize_comma_values(&self.no_proxy, false)
    }

    /// Whether the settings apply to this service: never when disabled
    /// or scoped to the environment, always when scoped to the whole
    /// runtime, and by selector when scoped to services.
    pub fn should_apply_to_service(&self, service_key: &str) -> (r: bool)
        ensures
            !self.enabled ==> !r,
            self.enabled && self.scope == ProxyScope::Environment ==> !r,
            self.enabled && self.scope == ProxyScope::Redclaw ==> r,
            self.enabled && self.scope == ProxyScope::Services ==> r == ({
                let key = spec_lower(spec_trim_ws(service_key@));
                let sels = spec_normalize_values(self.services.deep_view(), 0, Seq::empty(), true);
                key.len() > 0 && exists|i: int|
                    0 <= i < sels.len() && spec_selector_matches(#[trigger] sels[i], key)
            }),
    {
        if !self.enabled {
            return false;
        }
        match self.scope {
            ProxyScope::Environment => false,
            ProxyScope::Redclaw => true,
            ProxyScope::Services => {
                let chars = str_chars(service_key);
                let trimmed = trim_ws(&chars);
                let lowered = lower_chars(&trimmed);
                if lowered.len() == 0 {
                    return false;
                }
                let key = string_of_chars(&lowered);
                let sels = self.normalized_services();
                let n = sels.len();
                let mut i: usize = 0;
                while i < n
                    invariant
                        self.enabled,
                        self.scope == ProxyScope::Services,
                        n == sels.deep_view().len(),
                        sels@.len() == n,
                        i <= n,
                        key@.len() > 0,
                        key@ == spec_lower(spec_trim_ws(service_key@)),
                        sels.deep_view() == spec_normalize_values(
                            self.services.deep_view(),
                            0,
                            Seq::empty(),
                            true,
                        ),
                        forall|j: int|
                            0 <= j < i ==> !spec_selector_matches(sels.deep_view()[j], key@),
                    decreases n - i,
                {
                    proof {
                        assert(sels.deep_view()[i as int] == sels@[i as int]@);
                    }
                    if selector_matches(sels[i].as_str(), key.as_str()) {
                        return true;
                    }
                    i = i + 1;
                }
                false
            },
        }
    }

    /// Checks the proxy settings: set URLs must carry a supported
    /// scheme, selectors must be known, and an enabled proxy needs a
    /// URL (and, when scoped to services, a non-empty selector list).
    pub fn validate(&self) -> (r: Result<(), String>)
        ensures
            r is Ok <==> ({
                &&& (spec_normalized_url(self.http_proxy) matches Some(u) ==> spec_proxy_url_ok(u))
                &&& (spec_normalized_url(self.https_proxy) matches Some(u) ==> spec_proxy_url_ok(
                    u,
                ))
                &&& (spec_normalized_url(self.all_proxy) matches Some(u) ==> spec_proxy_url_ok(u))
                &&& ({
                    let sels = spec_normalize_values(
                        self.services.deep_view(),
                        0,
                        Seq::empty(),
                        true,
                    );
                    forall|i: int|
                        0 <= i < sels.len() ==> spec_service_selectors().contains(#[trigger] sels[i])
                })
                &&& (self.enabled ==> (spec_normalized_url(self.http_proxy) is Some
                    || spec_normalized_url(self.https_proxy) is Some || spec_normalized_url(
                    self.all_proxy,
                ) is Some))
                &&& (self.enabled && self.scope == ProxyScope::Services ==> spec_normalize_values(
                    self.services.deep_view(),
                    0,
                    Seq::empty(),
                    true,
                ).len() > 0)
            }),
    {
        if let Some(u) = trimmed_url(&self.http_proxy) {
            if !proxy_url_ok(u.as_str()) {
                return Err(lit("unsupported proxy URL scheme in http_proxy"));
            }
        }
        if let Some(u) = trimmed_url(&self.https_proxy) {
            if !proxy_url_ok(u.as_str()) {
                return Err(lit("unsupported proxy URL scheme in https_proxy"));
            }
        }
        if let Some(u) = trimmed_url(&self.all_proxy) {
            if !proxy_url_ok(u.as_str()) {
                return Err(lit("unsupported proxy URL scheme in all_proxy"));
            }
        }
        let sels = self.normalized_services();
        let selectors = Self::supported_service_selectors();
        let n = sels.len();
        let mut i: usize = 0;
        while i < n
            invariant
                n == sels.deep_view().len(),
                sels@.len() == n,
                i <= n,
                selectors.deep_view() == spec_service_selectors(),
                sels.deep_view() == spec_normalize_values(
                    self.services.deep_view(),
                    0,
                    Seq::empty(),
                    true,
                ),
                forall|j: int|
                    0 <= j < i ==> spec_service_selectors().contains(#[trigger] sels.deep_view()[j]),
            decreases n - i,
        {
            proof {
                assert(sels.deep_view()[i as int] == sels@[i as int]@);
            }
            if !selector_known(&selectors, sels[i].as_str()) {
                return Err(lit("unsupported proxy service selector"));
            }
            i = i + 1;
        }
        if self.enabled && !self.has_any_proxy_url() {
            return Err(lit("proxy is enabled but no proxy URL is configured"));
        }
        if self.enabled && self.scope == ProxyScope::Services && sels.len() == 0 {
            return Err(lit("proxy scope 'services' requires a non-empty services list"));
        }
        Ok(())
    }
}

fn selector_known(selectors: &Vec<String>, sel: &str) -> (r: bool)
    requires
        selectors.deep_view() == spec_service_selectors(),
    ensures
        r == spec_service_selectors().contains(sel@),
{
    let n = selectors.len();
    let mut i: usize = 0;
    while i < n
        invariant
            selectors.deep_view() == spec_service_selectors(),
            n == selectors.deep_view().len(),
            selectors@.len() == n,
            i <= n,
            forall|j: int| 0 <= j < i ==> selectors.deep_view()[j] != sel@,
        decreases n - i,
    {
        proof {
            assert(selectors.deep_view()[i as int] == selectors@[i as int]@);
        }
        if str_eq(selectors[i].as_str(), sel) {
            proof {
                assert(spec_service_selectors().contains(sel@));
            }
            return true;
        }
        i = i + 1;
    }
    proof {
        if spec_service_selectors().contains(sel@) {
            let k = choose|k: int|
                0 <= k < spec_service_selectors().len() && spec_service_selectors()[k] == sel@;
            assert(selectors.deep_view()[k] != sel@);
        }
    }
    false
}

fn nonblank(o: &Option<String>) -> (r: bool)
    ensures
        r == (spec_normalized_url(*o) is Some),
{
    match o {
        Some(s) => {
            let chars = str_chars(s.as_str());
            let t = trim_ws(&chars);
            t.len() > 0
        },
        None => false,
    }
}

fn trimmed_url(o: &Option<String>) -> (r: Option<String>)
    ensures
        match r {
            Some(u) => spec_normalized_url(*o) == Some(u@),
            None => spec_normalized_url(*o) is None,
        },
{
    match o {
        Some(s) => {
            let chars = str_chars(s.as_str());
            let t = trim_ws(&chars);
            if t.len() > 0 {
                Some(string_of_chars(&t))
            } else {
                None
            }
        },
        None => None,
    }
}

/// The full runtime configuration. Paths are plain strings; the
/// temperature is in thousandths.
#[derive(Debug, Clone)]
pub struct Config {
    pub workspace_dir: String,
    pub config_path: String,
    pub api_key: Option<String>,
    pub api_url: Option<String>,
    pub default_provider: Option<String>,
    pub default_model: Option<String>,
    pub default_temperature_milli: u32,
    pub observability: ObservabilityConfig,
    pub autonomy: AutonomyConfig,
    pub policy: PolicyConfig,
    pub runtime: RuntimeConfig,
    pub reliability: ReliabilityConfig,
    pub scheduler: SchedulerConfig,
    pub agent: AgentConfig,
    pub skills: SkillsConfig,
    pub model_routes: Vec<ModelRouteConfig>,
    pub embedding_routes: Vec<EmbeddingRouteConfig>,
    pub query_classification: QueryClassificationConfig,
    pub heartbeat: HeartbeatConfig,
    pub cron: CronConfig,
    pub channels_config: ChannelsConfig,
    pub memory: MemoryConfig,
    pub storage: StorageConfig,
    pub tunnel: TunnelConfig,
    pub gateway: GatewayConfig,
    pub composio: ComposioConfig,
    pub secrets: SecretsConfig,
    pub browser: BrowserConfig,
    pub http_request: HttpRequestConfig,
    pub multimodal: MultimodalConfig,
    pub web_search: WebSearchConfig,
    pub proxy: ProxyConfig,
    pub identity: IdentityConfig,
    pub cost: CostConfig,
    pub peripherals: PeripheralsConfig,
    pub agents: Vec<(String, DelegateAgentConfig)>,
    pub hardware: HardwareConfig,
}

impl Default for Config {
    fn default() -> (r: Self)
        ensures
            r.workspace_dir@ == Seq::<char>::empty(),
            r.config_path@ == Seq::<char>::empty(),
            r.api_key is None,
            r.api_url is None,
            (r.default_provider matches Some(p) && p@ == "openrouter"@),
            (r.default_model matches Some(m) && m@ == "anthropic/sonnet-4.6"@),
            r.default_temperature_milli == 700,
            r.gateway.port == 3000,
            r.gateway.require_pairing,
            !r.gateway.allow_public_bind,
            r.autonomy.max_actions_per_hour == 20,
            r.scheduler.max_concurrent == 4,
            r.agents@.len() == 0,
    {
        Config {
            workspace_dir: String::new(),
            config_path: String::new(),
            api_key: None,
            api_url: None,
            default_provider: Some(lit("openrouter")),
            default_model: Some(lit("anthropic/sonnet-4.6")),
            default_temperature_milli: 700,
            observability: ObservabilityConfig::default(),
            autonomy: AutonomyConfig::default(),
            policy: PolicyConfig::default(),
            runtime: RuntimeConfig::default(),
            reliability: ReliabilityConfig::default(),
            scheduler: SchedulerConfig::default(),
            agent: AgentConfig::default(),
            skills: SkillsConfig::default(),
            model_routes: Vec::new(),
            embedding_routes: Vec::new(),
            query_classification: QueryClassificationConfig::default(),
            heartbeat: HeartbeatConfig::default(),
            cron: CronConfig::default(),
            channels_config: ChannelsConfig::default(),
            memory: MemoryConfig::default(),
            storage: StorageConfig::default(),
            tunnel: TunnelConfig::default(),
            gateway: GatewayConfig::default(),
            composio: ComposioConfig::default(),
            secrets: SecretsConfig::default(),
            browser: BrowserConfig::default(),
            http_request: HttpRequestConfig::default(),
            multimodal: MultimodalConfig::default(),
            web_search: WebSearchConfig::default(),
            proxy: ProxyConfig::default(),
            identity: IdentityConfig::default(),
            cost: CostConfig::default(),
            peripherals: PeripheralsConfig::default(),
            agents: Vec::new(),
            hardware: HardwareConfig::default(),
        }
    }
}

/// The message shown when the configuration directory cannot be created.
pub fn config_dir_creation_error(path: &str) -> (r: String)
    ensures
        r@ == "Failed to create config directory: "@ + path@
            + ". If running as an OpenRC service, ensure this path is writable by user 'redclaw'."@,
{
    let mut m = String::new();
    m.append("Failed to create config directory: ");
    m.append(path);
    m.append(". If running as an OpenRC service, ensure this path is writable by user 'redclaw'.");
    proof {
        assert(m@ =~= "Failed to create config directory: "@ + path@
            + ". If running as an OpenRC service, ensure this path is writable by user 'redclaw'."@);
    }
    m
}

/// The config root and nested workspace directory for a chosen
/// workspace root.
pub fn resolve_config_dir_for_workspace(workspace_root: &str) -> (r: (String, String))
    ensures
        r.0@ == workspace_root@,
        r.1@ == workspace_root@ + "/workspace"@,
{
    let root = workspace_root.to_owned();
    let mut ws = workspace_root.to_owned();
    ws.append("/workspace");
    (root, ws)
}

/// Whether a provider name is a GLM/Zhipu alias (trimmed,
/// case-insensitive).
pub open spec fn spec_is_glm_alias(p: Seq<char>) -> bool {
    spec_lower(spec_trim_ws(p)) == "glm"@ || spec_lower(spec_trim_ws(p)) == "zhipu"@
}

pub fn is_glm_alias(p: &str) -> (r: bool)
    ensures
        r == spec_is_glm_alias(p@),
{
    let chars = str_chars(p);
    let t = trim_ws(&chars);
    let l = lower_chars(&t);
    let s = string_of_chars(&l);
    str_eq(s.as_str(), "glm") || str_eq(s.as_str(), "zhipu")
}

/// Whether a provider name is a Z.AI alias (trimmed, case-insensitive).
pub open spec fn spec_is_zai_alias(p: Seq<char>) -> bool {
    spec_lower(spec_trim_ws(p)) == "zai"@ || spec_lower(spec_trim_ws(p)) == "z.ai"@
}

pub fn is_zai_alias(p: &str) -> (r: bool)
    ensures
        r == spec_is_zai_alias(p@),
{
    let chars = str_chars(p);
    let t = trim_ws(&chars);
    let l = lower_chars(&t);
    let s = string_of_chars(&l);
    str_eq(s.as_str(), "zai") || str_eq(s.as_str(), "z.ai")
}

/// A truthy flag value: `1`, `true`, `yes` or `on` (trimmed,
/// case-insensitive); a falsy one: `0`, `false`, `no` or `off`.
pub open spec fn spec_parse_flag(s: Seq<char>) -> Option<bool> {
    let t = spec_lower(spec_trim_ws(s));
    if t == "1"@ || t == "true"@ || t == "yes"@ || t == "on"@ {
        Some(true)
    } else if t == "0"@ || t == "false"@ || t == "no"@ || t == "off"@ {
        Some(false)
    } else {
        None
    }
}

pub fn parse_flag(s: &str) -> (r: Option<bool>)
    ensures
        r == spec_parse_flag(s@),
{
    let chars = str_chars(s);
    let trimmed = trim_ws(&chars);
    let l = lower_chars(&trimmed);
    let t = string_of_chars(&l);
    if str_eq(t.as_str(), "1") || str_eq(t.as_str(), "true") || str_eq(t.as_str(), "yes")
        || str_eq(t.as_str(), "on") {
        proof {
            assert(spec_parse_flag(s@) == Some(true));
        }
        Some(true)
    } else if str_eq(t.as_str(), "0") || str_eq(t.as_str(), "false") || str_eq(t.as_str(), "no")
        || str_eq(t.as_str(), "off") {
        Some(false)
    } else {
        None
    }
}

/// A decimal port number that fits `u16`.
pub open spec fn spec_parse_u16(s: Seq<char>) -> Option<u16> {
    if spec_all_digits(s) && spec_num_val(s) <= u16::MAX {
        Some(spec_num_val(s) as u16)
    } else {
        None
    }
}

pub fn parse_u16(s: &str) -> (r: Option<u16>)
    ensures
        r == spec_parse_u16(s@),
{
    let chars = str_chars(s);
    match crate::timeparse::parse_u64_range(&chars, 0, chars.len()) {
        Some(v) => {
            proof {
                assert(chars@.subrange(0, chars@.len() as int) =~= chars@);
            }
            if v <= 65535 {
                Some(v as u16)
            } else {
                None
            }
        },
        None => {
            proof {
                assert(chars@.subrange(0, chars@.len() as int) =~= chars@);
            }
            None
        },
    }
}

/// A temperature written as `D[.DDD]`, in thousandths: up to three
/// fractional digits, integer part up to one million.
pub open spec fn spec_temperature_milli(s: Seq<char>) -> Option<u32> {
    let parts = crate::chars::spec_split(s, '.');
    if parts.len() == 1 && spec_all_digits(parts[0]) && spec_num_val(parts[0]) <= 1000000 {
        Some((spec_num_val(parts[0]) * 1000) as u32)
    } else if parts.len() == 2 && spec_all_digits(parts[0]) && spec_num_val(parts[0]) <= 1000000
        && spec_all_digits(parts[1]) && parts[1].len() <= 3 {
        let frac = if parts[1].len() == 1 {
            spec_num_val(parts[1]) * 100
        } else if parts[1].len() == 2 {
            spec_num_val(parts[1]) * 10
        } else {
            spec_num_val(parts[1])
        };
        Some((spec_num_val(parts[0]) * 1000 + frac) as u32)
    } else {
        None
    }
}

/// The environment readings that can override the configuration, read
/// outside the library and handed in as plain values. `None` means the
/// variable is unset.
#[derive(Debug, Clone, Default)]
pub struct EnvOverrides {
    pub redclaw_api_key: Option<String>,
    pub api_key: Option<String>,
    pub glm_api_key: Option<String>,
    pub zai_api_key: Option<String>,
    pub redclaw_api_url: Option<String>,
    pub api_url: Option<String>,
    pub redclaw_provider: Option<String>,
    pub provider: Option<String>,
    pub redclaw_model: Option<String>,
    pub model: Option<String>,
    pub redclaw_workspace: Option<String>,
    pub open_skills_enabled: Option<String>,
    pub open_skills_dir: Option<String>,
    pub skills_prompt_mode: Option<String>,
    pub redclaw_gateway_port: Option<String>,
    pub port: Option<String>,
    pub redclaw_gateway_host: Option<String>,
    pub host: Option<String>,
    pub allow_public_bind: Option<String>,
    pub temperature: Option<String>,
    pub redclaw_reasoning_enabled: Option<String>,
    pub reasoning_enabled: Option<String>,
}

/// A primary reading wins when set, even when blank; a blank value never
/// overrides.
pub open spec fn spec_pick(primary: Option<String>, legacy: Option<String>) -> Option<String> {
    match primary {
        Some(v) => if v@.len() > 0 {
            Some(v)
        } else {
            None
        },
        None => match legacy {
            Some(v) => if v@.len() > 0 {
                Some(v)
            } else {
                None
            },
            None => None,
        },
    }
}

fn pick(primary: &Option<String>, legacy: &Option<String>) -> (r: Option<String>)
    ensures
        r == spec_pick(*primary, *legacy),
{
    match primary {
        Some(v) => {
            if v.as_str().unicode_len() > 0 {
                Some(v.clone())
            } else {
                None
            }
        },
        None => match legacy {
            Some(v) => {
                if v.as_str().unicode_len() > 0 {
                    Some(v.clone())
                } else {
                    None
                }
            },
            None => None,
        },
    }
}

/// The provider a trimmed, case-insensitive comparison calls the
/// default.
pub open spec fn spec_provider_is_default(p: Option<String>) -> bool {
    match p {
        Some(v) => spec_lower(spec_trim_ws(v@)) == "openrouter"@,
        None => true,
    }
}

/// The API key after the overrides: the generic readings first, then the
/// GLM and Z.AI specials, judged on the configured provider.
pub open spec fn spec_key_after(cfg: Config, env: EnvOverrides) -> Option<String> {
    let base = match spec_pick(env.redclaw_api_key, env.api_key) {
        Some(v) => Some(v),
        None => cfg.api_key,
    };
    let with_glm = if (match cfg.default_provider {
        Some(p) => spec_is_glm_alias(p@),
        None => false,
    }) && (match env.glm_api_key {
        Some(k) => k@.len() > 0,
        None => false,
    }) {
        env.glm_api_key
    } else {
        base
    };
    if (match cfg.default_provider {
        Some(p) => spec_is_zai_alias(p@),
        None => false,
    }) && (match env.zai_api_key {
        Some(k) => k@.len() > 0,
        None => false,
    }) {
        env.zai_api_key
    } else {
        with_glm
    }
}

/// The provider after the overrides: the primary reading always wins
/// when non-blank; the legacy reading only replaces the default
/// provider.
pub open spec fn spec_provider_after(cfg: Config, env: EnvOverrides) -> Option<String> {
    match env.redclaw_provider {
        Some(p) => if p@.len() > 0 {
            Some(p)
        } else {
            cfg.default_provider
        },
        None => match env.provider {
            Some(p) => if p@.len() > 0 && spec_provider_is_default(cfg.default_provider) {
                Some(p)
            } else {
                cfg.default_provider
            },
            None => cfg.default_provider,
        },
    }
}

impl Config {
    fn apply_key_overrides(&mut self, env: &EnvOverrides)
        ensures
            *final(self) == (Config {
                api_key: spec_key_after(*old(self), *env),
                api_url: match spec_pick(env.redclaw_api_url, env.api_url) {
                    Some(v) => Some(v),
                    None => old(self).api_url,
                },
                ..*old(self)
            }),
    {
        if let Some(key) = pick(&env.redclaw_api_key, &env.api_key) {
            self.api_key = Some(key);
        }
        if let Some(url) = pick(&env.redclaw_api_url, &env.api_url) {
            self.api_url = Some(url);
        }
        let provider_is_glm = match &self.default_provider {
            Some(p) => is_glm_alias(p.as_str()),
            None => false,
        };
        if provider_is_glm {
            if let Some(k) = &env.glm_api_key {
                if k.as_str().unicode_len() > 0 {
                    self.api_key = Some(k.clone());
                }
            }
        }
        let provider_is_zai = match &self.default_provider {
            Some(p) => is_zai_alias(p.as_str()),
            None => false,
        };
        if provider_is_zai {
            if let Some(k) = &env.zai_api_key {
                if k.as_str().unicode_len() > 0 {
                    self.api_key = Some(k.clone());
                }
            }
        }
    }

    fn apply_identity_overrides(&mut self, env: &EnvOverrides)
        ensures
            *final(self) == (Config {
                default_provider: spec_provider_after(*old(self), *env),
                default_model: match spec_pick(env.redclaw_model, env.model) {
                    Some(v) => Some(v),
                    None => old(self).default_model,
                },
                workspace_dir: final(self).workspace_dir,
                config_path: final(self).config_path,
                ..*old(self)
            }),
            final(self).workspace_dir@ == (match env.redclaw_workspace {
                Some(w) => if w@.len() > 0 {
                    w@ + "/workspace"@
                } else {
                    old(self).workspace_dir@
                },
                None => old(self).workspace_dir@,
            }),
            final(self).config_path@ == (match env.redclaw_workspace {
                Some(w) => if w@.len() > 0 {
                    w@ + "/config.toml"@
                } else {
                    old(self).config_path@
                },
                None => old(self).config_path@,
            }),
    {
        match &env.redclaw_provider {
            Some(p) => {
                if p.as_str().unicode_len() > 0 {
                    self.default_provider = Some(p.clone());
                }
            },
            None => {
                if let Some(p) = &env.provider {
                    let is_default = match &self.default_provider {
                        Some(cur) => {
                            let chars = str_chars(cur.as_str());
                            let t = trim_ws(&chars);
                            let l = lower_chars(&t);
                            let cs = string_of_chars(&l);
                            str_eq(cs.as_str(), "openrouter")
                        },
                        None => true,
                    };
                    if p.as_str().unicode_len() > 0 && is_default {
                        self.default_provider = Some(p.clone());
                    }
                }
            },
        }
        if let Some(model) = pick(&env.redclaw_model, &env.model) {
            self.default_model = Some(model);
        }
        if let Some(w) = &env.redclaw_workspace {
            if w.as_str().unicode_len() > 0 {
                let mut ws = w.clone();
                ws.append("/workspace");
                let mut cp = w.clone();
                cp.append("/config.toml");
                self.workspace_dir = ws;
                self.config_path = cp;
            }
        }
    }

    fn apply_skills_overrides(&mut self, env: &EnvOverrides)
        ensures
            *final(self) == (Config { skills: final(self).skills, ..*old(self) }),
            final(self).skills.open_skills_enabled == (match env.open_skills_enabled {
                Some(f) => match spec_parse_flag(f@) {
                    Some(b) => b,
                    None => old(self).skills.open_skills_enabled,
                },
                None => old(self).skills.open_skills_enabled,
            }),
            final(self).skills.open_skills_dir.deep_view() == (match env.open_skills_dir {
                Some(p) => if spec_trim_ws(p@).len() > 0 {
                    Some(spec_trim_ws(p@))
                } else {
                    old(self).skills.open_skills_dir.deep_view()
                },
                None => old(self).skills.open_skills_dir.deep_view(),
            }),
            final(self).skills.prompt_injection_mode == (match env.skills_prompt_mode {
                Some(m) => if spec_trim_ws(spec_lower(m@)) == "full"@ {
                    SkillsPromptInjectionMode::Full
                } else if spec_trim_ws(spec_lower(m@)) == "compact"@ {
                    SkillsPromptInjectionMode::Compact
                } else {
                    old(self).skills.prompt_injection_mode
                },
                None => old(self).skills.prompt_injection_mode,
            }),
    {
        if let Some(f) = &env.open_skills_enabled {
            if let Some(b) = parse_flag(f.as_str()) {
                self.skills.open_skills_enabled = b;
            }
        }
        if let Some(p) = &env.open_skills_dir {
            let chars = str_chars(p.as_str());
            let t = trim_ws(&chars);
            if t.len() > 0 {
                self.skills.open_skills_dir = Some(string_of_chars(&t));
            }
        }
        if let Some(m) = &env.skills_prompt_mode {
            if let Some(mode) = parse_skills_prompt_injection_mode(m.as_str()) {
                self.skills.prompt_injection_mode = mode;
            }
        }
    }

    fn apply_gateway_overrides(&mut self, env: &EnvOverrides)
        ensures
            *final(self) == (Config { gateway: final(self).gateway, ..*old(self) }),
            final(self).gateway == (GatewayConfig {
                port: final(self).gateway.port,
                host: final(self).gateway.host,
                allow_public_bind: final(self).gateway.allow_public_bind,
                ..old(self).gateway
            }),
            final(self).gateway.port == (match (env.redclaw_gateway_port, env.port) {
                (Some(v), _) => match spec_parse_u16(v@) {
                    Some(p) => p,
                    None => old(self).gateway.port,
                },
                (None, Some(v)) => match spec_parse_u16(v@) {
                    Some(p) => p,
                    None => old(self).gateway.port,
                },
                (None, None) => old(self).gateway.port,
            }),
            final(self).gateway.host@ == (match (env.redclaw_gateway_host, env.host) {
                (Some(v), _) => if v@.len() > 0 {
                    v@
                } else {
                    old(self).gateway.host@
                },
                (None, Some(v)) => if v@.len() > 0 {
                    v@
                } else {
                    old(self).gateway.host@
                },
                (None, None) => old(self).gateway.host@,
            }),
            final(self).gateway.allow_public_bind == (match env.allow_public_bind {
                Some(v) => v@ == "1"@ || spec_lower(v@) == "true"@,
                None => old(self).gateway.allow_public_bind,
            }),
    {
        let port_reading = match &env.redclaw_gateway_port {
            Some(v) => Some(v.clone()),
            None => match &env.port {
                Some(v) => Some(v.clone()),
                None => None,
            },
        };
        if let Some(v) = port_reading {
            if let Some(p) = parse_u16(v.as_str()) {
                self.gateway.port = p;
            }
        }
        let host_reading = match &env.redclaw_gateway_host {
            Some(v) => Some(v.clone()),
            None => match &env.host {
                Some(v) => Some(v.clone()),
                None => None,
            },
        };
        if let Some(v) = host_reading {
            if v.as_str().unicode_len() > 0 {
                self.gateway.host = v;
            }
        }
        if let Some(v) = &env.allow_public_bind {
            let one = str_eq(v.as_str(), "1");
            let chars = str_chars(v.as_str());
            let l = lower_chars(&chars);
            let ls = string_of_chars(&l);
            let truthy = str_eq(ls.as_str(), "true");
            self.gateway.allow_public_bind = one || truthy;
        }
    }

    fn apply_tuning_overrides(&mut self, env: &EnvOverrides)
        ensures
            *final(self) == (Config {
                default_temperature_milli: final(self).default_temperature_milli,
                runtime: final(self).runtime,
                ..*old(self)
            }),
            final(self).runtime == (RuntimeConfig {
                reasoning_enabled: final(self).runtime.reasoning_enabled,
                ..old(self).runtime
            }),
            final(self).default_temperature_milli == (match env.temperature {
                Some(t) => match spec_temperature_milli(t@) {
                    Some(m) => if m <= 2000 {
                        m
                    } else {
                        old(self).default_temperature_milli
                    },
                    None => old(self).default_temperature_milli,
                },
                None => old(self).default_temperature_milli,
            }),
            final(self).runtime.reasoning_enabled == (match (
                env.redclaw_reasoning_enabled,
                env.reasoning_enabled,
            ) {
                (Some(f), _) => match spec_parse_flag(f@) {
                    Some(b) => Some(b),
                    None => old(self).runtime.reasoning_enabled,
                },
                (None, Some(f)) => match spec_parse_flag(f@) {
                    Some(b) => Some(b),
                    None => old(self).runtime.reasoning_enabled,
                },
                (None, None) => old(self).runtime.reasoning_enabled,
            }),
    {
        if let Some(t) = &env.temperature {
            if let Some(m) = parse_temperature_milli(t.as_str()) {
                if m <= 2000 {
                    self.default_temperature_milli = m;
                }
            }
        }
        let reasoning_reading = match &env.redclaw_reasoning_enabled {
            Some(v) => Some(v.clone()),
            None => match &env.reasoning_enabled {
                Some(v) => Some(v.clone()),
                None => None,
            },
        };
        if let Some(f) = reasoning_reading {
            if let Some(b) = parse_flag(f.as_str()) {
                self.runtime.reasoning_enabled = Some(b);
            }
        }
    }

    /// Applies the environment overrides, in order: keys and URL (with
    /// the GLM/Z.AI key specials judged on the configured provider), the
    /// provider (the legacy reading only over the default provider), the
    /// model, the workspace, skills settings, gateway bind settings, the
    /// temperature (an out-of-range value is ignored and the previous
    /// value kept), and the reasoning flag. Everything else is
    /// untouched.
    pub fn apply_env_overrides(&mut self, env: &EnvOverrides)
        ensures
            final(self).api_key == spec_key_after(*old(self), *env),
            final(self).api_url == (match spec_pick(env.redclaw_api_url, env.api_url) {
                Some(v) => Some(v),
                None => old(self).api_url,
            }),
            final(self).default_provider == spec_provider_after(*old(self), *env),
            final(self).default_model == (match spec_pick(env.redclaw_model, env.model) {
                Some(v) => Some(v),
                None => old(self).default_model,
            }),
            final(self).workspace_dir@ == (match env.redclaw_workspace {
                Some(w) => if w@.len() > 0 {
                    w@ + "/workspace"@
                } else {
                    old(self).workspace_dir@
                },
                None => old(self).workspace_dir@,
            }),
            final(self).config_path@ == (match env.redclaw_workspace {
                Some(w) => if w@.len() > 0 {
                    w@ + "/config.toml"@
                } else {
                    old(self).config_path@
                },
                None => old(self).config_path@,
            }),
            final(self).skills.open_skills_enabled == (match env.open_skills_enabled {
                Some(f) => match spec_parse_flag(f@) {
                    Some(b) => b,
                    None => old(self).skills.open_skills_enabled,
                },
                None => old(self).skills.open_skills_enabled,
            }),
            final(self).gateway.port == (match (env.redclaw_gateway_port, env.port) {
                (Some(v), _) => match spec_parse_u16(v@) {
                    Some(p) => p,
                    None => old(self).gateway.port,
                },
                (None, Some(v)) => match spec_parse_u16(v@) {
                    Some(p) => p,
                    None => old(self).gateway.port,
                },
                (None, None) => old(self).gateway.port,
            }),
            final(self).gateway.allow_public_bind == (match env.allow_public_bind {
                Some(v) => v@ == "1"@ || spec_lower(v@) == "true"@,
                None => old(self).gateway.allow_public_bind,
            }),
            final(self).default_temperature_milli == (match env.temperature {
                Some(t) => match spec_temperature_milli(t@) {
                    Some(m) => if m <= 2000 {
                        m
                    } else {
                        old(self).default_temperature_milli
                    },
                    None => old(self).default_temperature_milli,
                },
                None => old(self).default_temperature_milli,
            }),
            final(self).runtime.reasoning_enabled == (match (
                env.redclaw_reasoning_enabled,
                env.reasoning_enabled,
            ) {
                (Some(f), _) => match spec_parse_flag(f@) {
                    Some(b) => Some(b),
                    None => old(self).runtime.reasoning_enabled,
                },
                (None, Some(f)) => match spec_parse_flag(f@) {
                    Some(b) => Some(b),
                    None => old(self).runtime.reasoning_enabled,
                },
                (None, None) => old(self).runtime.reasoning_enabled,
            }),
            final(self).autonomy == old(self).autonomy,
            final(self).policy == old(self).policy,
            final(self).reliability == old(self).reliability,
            final(self).scheduler == old(self).scheduler,
            final(self).channels_config == old(self).channels_config,
            final(self).cron == old(self).cron,
            final(self).cost == old(self).cost,
            final(self).proxy == old(self).proxy,
            final(self).runtime.kind == old(self).runtime.kind,
            final(self).runtime.docker == old(self).runtime.docker,
            final(self).gateway.require_pairing == old(self).gateway.require_pairing,
            final(self).gateway.paired_tokens == old(self).gateway.paired_tokens,
    {
        self.apply_key_overrides(env);
        self.apply_identity_overrides(env);
        self.apply_skills_overrides(env);
        self.apply_gateway_overrides(env);
        self.apply_tuning_overrides(env);
    }

    /// Checks the values that would fail at runtime: a blank gateway
    /// host, a zero action budget, zero scheduler limits, blank route
    /// fields, and the proxy settings.
    pub fn validate(&self) -> (r: Result<(), String>)
        ensures
            r is Ok ==> ({
                &&& spec_trim_ws(self.gateway.host@).len() > 0
                &&& self.autonomy.max_actions_per_hour > 0
                &&& self.scheduler.max_concurrent > 0
                &&& self.scheduler.max_tasks > 0
                &&& forall|i: int|
                    0 <= i < self.model_routes@.len() ==> spec_trim_ws(
                        (#[trigger] self.model_routes@[i]).hint@,
                    ).len() > 0 && spec_trim_ws(self.model_routes@[i].provider@).len() > 0
                        && spec_trim_ws(self.model_routes@[i].model@).len() > 0
            }),
            spec_trim_ws(self.gateway.host@).len() == 0 ==> (r matches Err(m) && m@
                == "gateway.host must not be empty"@),
            spec_trim_ws(self.gateway.host@).len() > 0 && self.autonomy.max_actions_per_hour == 0
                ==> (r matches Err(m) && m@
                == "autonomy.max_actions_per_hour must be greater than 0"@),
    {
        let host_chars = str_chars(self.gateway.host.as_str());
        let host_trim = trim_ws(&host_chars);
        if host_trim.len() == 0 {
            return Err(lit("gateway.host must not be empty"));
        }
        if self.autonomy.max_actions_per_hour == 0 {
            return Err(lit("autonomy.max_actions_per_hour must be greater than 0"));
        }
        if self.scheduler.max_concurrent == 0 {
            return Err(lit("scheduler.max_concurrent must be greater than 0"));
        }
        if self.scheduler.max_tasks == 0 {
            return Err(lit("scheduler.max_tasks must be greater than 0"));
        }
        let n = self.model_routes.len();
        let mut i: usize = 0;
        while i < n
            invariant
                n == self.model_routes@.len(),
                i <= n,
                spec_trim_ws(self.gateway.host@).len() > 0,
                self.autonomy.max_actions_per_hour > 0,
                self.scheduler.max_concurrent > 0,
                self.scheduler.max_tasks > 0,
                forall|j: int|
                    0 <= j < i ==> spec_trim_ws((#[trigger] self.model_routes@[j]).hint@).len() > 0
                        && spec_trim_ws(self.model_routes@[j].provider@).len() > 0 && spec_trim_ws(
                        self.model_routes@[j].model@,
                    ).len() > 0,
            decreases n - i,
        {
            if blank(self.model_routes[i].hint.as_str()) {
                return Err(lit("model route hint must not be empty"));
            }
            if blank(self.model_routes[i].provider.as_str()) {
                return Err(lit("model route provider must not be empty"));
            }
            if blank(self.model_routes[i].model.as_str()) {
                return Err(lit("model route model must not be empty"));
            }
            i = i + 1;
        }
        match self.proxy.validate() {
            Ok(_u) => Ok(()),
            Err(m) => Err(m),
        }
    }
}

fn blank(s: &str) -> (r: bool)
    ensures
        r == (spec_trim_ws(s@).len() == 0),
{
    let chars = str_chars(s);
    let t = trim_ws(&chars);
    t.len() == 0
}

pub fn parse_temperature_milli(s: &str) -> (r: Option<u32>)
    ensures
        r == spec_temperature_milli(s@),
{
    let chars = str_chars(s);
    let parts = crate::chars::split_on(&chars, '.');
    if parts.len() == 1 {
        proof {
            assert(parts.deep_view()[0] == parts@[0]@);
            assert(parts@[0]@.subrange(0, parts@[0]@.len() as int) =~= parts@[0]@);
        }
        match crate::timeparse::parse_u64_range(&parts[0], 0, parts[0].len()) {
            Some(v) => {
                if v <= 1000000 {
                    Some((v * 1000) as u32)
                } else {
                    None
                }
            },
            None => None,
        }
    } else if parts.len() == 2 {
        proof {
            assert(parts.deep_view()[0] == parts@[0]@);
            assert(parts.deep_view()[1] == parts@[1]@);
            assert(parts@[0]@.subrange(0, parts@[0]@.len() as int) =~= parts@[0]@);
            assert(parts@[1]@.subrange(0, parts@[1]@.len() as int) =~= parts@[1]@);
        }
        let int_part = match crate::timeparse::parse_u64_range(&parts[0], 0, parts[0].len()) {
            Some(v) => v,
            None => {
                return None;
            },
        };
        if int_part > 1000000 {
            return None;
        }
        let frac_len = parts[1].len();
        if frac_len == 0 || frac_len > 3 {
            return None;
        }
        let frac_val = match crate::timeparse::parse_u64_range(&parts[1], 0, frac_len) {
            Some(v) => v,
            None => {
                proof {
                    if crate::timeparse::spec_all_digits(parts@[1]@) {
                        crate::timeparse::lemma_num_val_small(parts@[1]@);
                    }
                }
                return None;
            },
        };
        proof {
            crate::timeparse::lemma_num_val_small(parts@[1]@);
        }
        let frac = if frac_len == 1 {
            frac_val * 100
        } else if frac_len == 2 {
            frac_val * 10
        } else {
            frac_val
        };
        Some((int_part * 1000 + frac) as u32)
    } else {
        None
    }
}

} // verus!
