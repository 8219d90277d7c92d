use redclaw::errors::{
    all_error_codes, config_not_found, hardware_firmware_error, lookup_code,
    provider_auth_failed, rc_error_message,
};
use redclaw::JobType;

#[test]
fn job_type_try_from_accepts_known_values_case_insensitive() {
    assert_eq!(JobType::parse("shell").unwrap(), JobType::Shell);
    assert_eq!(JobType::parse("SHELL").unwrap(), JobType::Shell);
    assert_eq!(JobType::parse("agent").unwrap(), JobType::Agent);
    assert_eq!(JobType::parse("AgEnT").unwrap(), JobType::Agent);
}

#[test]
fn job_type_try_from_rejects_invalid_values() {
    assert!(JobType::parse("").is_err());
    assert!(JobType::parse("unknown").is_err());
}

#[test]
fn job_type_names() {
    assert_eq!(JobType::Shell.as_str(), "shell");
    assert_eq!(JobType::Agent.as_str(), "agent");
}

#[test]
fn error_code_display() {
    assert_eq!(config_not_found().code_string(), "RC-1001");
    assert_eq!(provider_auth_failed().code_string(), "RC-2002");
    assert_eq!(hardware_firmware_error().code_string(), "RC-9003");
}

#[test]
fn error_code_diagnostic() {
    let diag = config_not_found().diagnostic();
    assert!(diag.contains("RC-1001"));
    assert!(diag.contains("CONFIG_NOT_FOUND"));
    assert!(diag.contains("Configuration file not found"));
}

#[test]
fn error_code_category() {
    assert_eq!(lookup_code(1001).unwrap().category(), "Configuration");
    assert_eq!(lookup_code(2002).unwrap().category(), "Provider");
    assert_eq!(lookup_code(3002).unwrap().category(), "Channel");
    assert_eq!(lookup_code(4002).unwrap().category(), "Tool");
    assert_eq!(lookup_code(5001).unwrap().category(), "Security");
    assert_eq!(lookup_code(6001).unwrap().category(), "Runtime");
    assert_eq!(lookup_code(7001).unwrap().category(), "Memory");
    assert_eq!(lookup_code(8001).unwrap().category(), "Gateway");
    assert_eq!(lookup_code(9001).unwrap().category(), "Hardware");
}

#[test]
fn error_code_lookup() {
    assert_eq!(lookup_code(1001), Some(config_not_found()));
    assert_eq!(lookup_code(2002), Some(provider_auth_failed()));
    assert_eq!(lookup_code(9999), None);
}

#[test]
fn all_codes_unique() {
    let mut codes: Vec<u16> = all_error_codes().iter().map(|c| c.code).collect();
    codes.sort_unstable();
    codes.dedup();
    assert_eq!(codes.len(), all_error_codes().len(), "Duplicate error codes found!");
}

#[test]
fn all_mnemonics_unique() {
    let mut mnemonics: Vec<&str> = all_error_codes().iter().map(|c| c.mnemonic).collect();
    mnemonics.sort_unstable();
    mnemonics.dedup();
    assert_eq!(mnemonics.len(), all_error_codes().len(), "Duplicate mnemonics found!");
}

#[test]
fn rc_error_macro() {
    let msg = rc_error_message(
        &config_not_found(),
        &format!("path {} does not exist", "/home/.redclaw/config.toml"),
    );
    assert!(msg.contains("RC-1001"));
    assert!(msg.contains("path /home/.redclaw/config.toml does not exist"));
}
