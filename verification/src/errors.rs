//! Structured error codes.
//!
//! Every user-visible failure carries an `RC-CXXX` tag: the leading
//! digit names the category (configuration, provider, channel, tool,
//! security, runtime, memory, gateway, hardware), the rest the specific
//! error.

use vstd::prelude::*;
use vstd::string::StringExecFns;

use crate::strutil::{digit_char, push_char, spec_digit};

verus! {

/// A registered error code.
#[derive(Debug, Clone, Copy, PartialEq, Eq)]
pub struct ErrorCode {
    pub code: u16,
    pub mnemonic: &'static str,
    pub description: &'static str,
}

/// The `RC-XXXX` tag of a code below 10000.
pub open spec fn spec_rc_tag(c: int) -> Seq<char> {
    seq!['R', 'C', '-', spec_digit(c / 1000), spec_digit(c / 100), spec_digit(c / 10), spec_digit(
        c,
    )]
}

/// The category name of a code, by its thousands digit.
pub open spec fn spec_category(c: int) -> Seq<char> {
    if c / 1000 == 1 {
        "Configuration"@
    } else if c / 1000 == 2 {
        "Provider"@
    } else if c / 1000 == 3 {
        "Channel"@
    } else if c / 1000 == 4 {
        "Tool"@
    } else if c / 1000 == 5 {
        "Security"@
    } else if c / 1000 == 6 {
        "Runtime"@
    } else if c / 1000 == 7 {
        "Memory"@
    } else if c / 1000 == 8 {
        "Gateway"@
    } else if c / 1000 == 9 {
        "Hardware"@
    } else {
        "Unknown"@
    }
}

impl ErrorCode {
    /// The `RC-XXXX` tag.
    pub fn code_string(&self) -> (r: String)
        requires
            self.code <= 9999,
        ensures
            r@ == spec_rc_tag(self.code as int),
    {
        let mut s = String::new();
        push_char(&mut s, 'R');
        push_char(&mut s, 'C');
        push_char(&mut s, '-');
        push_char(&mut s, digit_char((self.code / 1000) as u64));
        push_char(&mut s, digit_char((self.code / 100) as u64));
        push_char(&mut s, digit_char((self.code / 10) as u64));
        push_char(&mut s, digit_char(self.code as u64));
        proof {
            assert(s@ =~= spec_rc_tag(self.code as int));
        }
        s
    }

    /// The full diagnostic line: tag, mnemonic and description.
    pub fn diagnostic(&self) -> (r: String)
        requires
            self.code <= 9999,
        ensures
            r@ == "["@ + spec_rc_tag(self.code as int) + "] "@ + self.mnemonic@ + ": "@
                + self.description@,
    {
        let mut s = String::new();
        s.append("[");
        let tag = self.code_string();
        s.append(tag.as_str());
        s.append("] ");
        s.append(self.mnemonic);
        s.append(": ");
        s.append(self.description);
        proof {
            assert(s@ =~= "["@ + spec_rc_tag(self.code as int) + "] "@ + self.mnemonic@ + ": "@
                + self.description@);
        }
        s
    }

    /// The category named by the code's thousands digit.
    pub fn category(&self) -> (r: &'static str)
        ensures
            r@ == spec_category(self.code as int),
    {
        let band = self.code / 1000;
        if band == 1 {
            "Configuration"
        } else if band == 2 {
            "Provider"
        } else if band == 3 {
            "Channel"
        } else if band == 4 {
            "Tool"
        } else if band == 5 {
            "Security"
        } else if band == 6 {
            "Runtime"
        } else if band == 7 {
            "Memory"
        } else if band == 8 {
            "Gateway"
        } else if band == 9 {
            "Hardware"
        } else {
            "Unknown"
        }
    }
}

/// An error line built from a code and a detail message.
pub fn rc_error_message(code: &ErrorCode, detail: &str) -> (r: String)
    requires
        code.code <= 9999,
    ensures
        r@ == "["@ + spec_rc_tag(code.code as int) + "] "@ + code.mnemonic@ + ": "@
            + code.description@ + " — "@ + detail@,
{
    let mut s = code.diagnostic();
    s.append(" — ");
    s.append(detail);
    proof {
        assert(s@ =~= "["@ + spec_rc_tag(code.code as int) + "] "@ + code.mnemonic@ + ": "@
            + code.description@ + " — "@ + detail@);
    }
    s
}

pub fn config_not_found() -> (r: ErrorCode)
    ensures
        r.code == 1001,
        r.mnemonic@ == "CONFIG_NOT_FOUND"@,
        r.description@ == "Configuration file not found"@,
{
    ErrorCode {
        code: 1001,
        mnemonic: "CONFIG_NOT_FOUND",
        description: "Configuration file not found",
    }
}

pub fn config_parse_error() -> (r: ErrorCode)
    ensures
        r.code == 1002,
        r.mnemonic@ == "CONFIG_PARSE_ERROR"@,
{
    ErrorCode {
        code: 1002,
        mnemonic: "CONFIG_PARSE_ERROR",
        description: "Failed to parse configuration file",
    }
}

pub fn config_invalid_value() -> (r: ErrorCode)
    ensures
        r.code == 1003,
        r.mnemonic@ == "CONFIG_INVALID_VALUE"@,
{
    ErrorCode {
        code: 1003,
        mnemonic: "CONFIG_INVALID_VALUE",
        description: "Invalid configuration value",
    }
}

pub fn config_missing_required() -> (r: ErrorCode)
    ensures
        r.code == 1004,
        r.mnemonic@ == "CONFIG_MISSING_REQUIRED"@,
{
    ErrorCode {
        code: 1004,
        mnemonic: "CONFIG_MISSING_REQUIRED",
        description: "Required configuration field missing",
    }
}

pub fn config_dir_create_failed() -> (r: ErrorCode)
    ensures
        r.code == 1005,
        r.mnemonic@ == "CONFIG_DIR_CREATE_FAILED"@,
{
    ErrorCode {
        code: 1005,
        mnemonic: "CONFIG_DIR_CREATE_FAILED",
        description: "Failed to create configuration directory",
    }
}

pub fn provider_not_found() -> (r: ErrorCode)
    ensures
        r.code == 2001,
        r.mnemonic@ == "PROVIDER_NOT_FOUND"@,
{
    ErrorCode {
        code: 2001,
        mnemonic: "PROVIDER_NOT_FOUND",
        description: "Specified provider not found or not supported",
    }
}

pub fn provider_auth_failed() -> (r: ErrorCode)
    ensures
        r.code == 2002,
        r.mnemonic@ == "PROVIDER_AUTH_FAILED"@,
        r.description@ == "Provider authentication failed"@,
{
    ErrorCode {
        code: 2002,
        mnemonic: "PROVIDER_AUTH_FAILED",
        description: "Provider authentication failed",
    }
}

pub fn provider_rate_limited() -> (r: ErrorCode)
    ensures
        r.code == 2003,
        r.mnemonic@ == "PROVIDER_RATE_LIMITED"@,
{
    ErrorCode {
        code: 2003,
        mnemonic: "PROVIDER_RATE_LIMITED",
        description: "Provider rate limit exceeded",
    }
}

pub fn provider_timeout() -> (r: ErrorCode)
    ensures
        r.code == 2004,
        r.mnemonic@ == "PROVIDER_TIMEOUT"@,
{
    ErrorCode { code: 2004, mnemonic: "PROVIDER_TIMEOUT", description: "Provider request timed out" }
}

pub fn provider_response_error() -> (r: ErrorCode)
    ensures
        r.code == 2005,
        r.mnemonic@ == "PROVIDER_RESPONSE_ERROR"@,
{
    ErrorCode {
        code: 2005,
        mnemonic: "PROVIDER_RESPONSE_ERROR",
        description: "Invalid or unexpected provider response",
    }
}

pub fn provider_model_not_found() -> (r: ErrorCode)
    ensures
        r.code == 2006,
        r.mnemonic@ == "PROVIDER_MODEL_NOT_FOUND"@,
{
    ErrorCode {
        code: 2006,
        mnemonic: "PROVIDER_MODEL_NOT_FOUND",
        description: "Requested model not available on provider",
    }
}

pub fn channel_not_found() -> (r: ErrorCode)
    ensures
        r.code == 3001,
        r.mnemonic@ == "CHANNEL_NOT_FOUND"@,
{
    ErrorCode {
        code: 3001,
        mnemonic: "CHANNEL_NOT_FOUND",
        description: "Specified channel not found or not supported",
    }
}

pub fn channel_auth_failed() -> (r: ErrorCode)
    ensures
        r.code == 3002,
        r.mnemonic@ == "CHANNEL_AUTH_FAILED"@,
{
    ErrorCode {
        code: 3002,
        mnemonic: "CHANNEL_AUTH_FAILED",
        description: "Channel authentication/token validation failed",
    }
}

pub fn channel_send_failed() -> (r: ErrorCode)
    ensures
        r.code == 3003,
        r.mnemonic@ == "CHANNEL_SEND_FAILED"@,
{
    ErrorCode {
        code: 3003,
        mnemonic: "CHANNEL_SEND_FAILED",
        description: "Failed to send message through channel",
    }
}

pub fn channel_listen_failed() -> (r: ErrorCode)
    ensures
        r.code == 3004,
        r.mnemonic@ == "CHANNEL_LISTEN_FAILED"@,
{
    ErrorCode {
        code: 3004,
        mnemonic: "CHANNEL_LISTEN_FAILED",
        description: "Channel listener encountered an error",
    }
}

pub fn channel_health_check_failed() -> (r: ErrorCode)
    ensures
        r.code == 3005,
        r.mnemonic@ == "CHANNEL_HEALTH_CHECK_FAILED"@,
{
    ErrorCode {
        code: 3005,
        mnemonic: "CHANNEL_HEALTH_CHECK_FAILED",
        description: "Channel health check failed",
    }
}

pub fn tool_not_found() -> (r: ErrorCode)
    ensures
        r.code == 4001,
        r.mnemonic@ == "TOOL_NOT_FOUND"@,
{
    ErrorCode { code: 4001, mnemonic: "TOOL_NOT_FOUND", description: "Specified tool not found" }
}

pub fn tool_execution_failed() -> (r: ErrorCode)
    ensures
        r.code == 4002,
        r.mnemonic@ == "TOOL_EXECUTION_FAILED"@,
{
    ErrorCode { code: 4002, mnemonic: "TOOL_EXECUTION_FAILED", description: "Tool execution failed" }
}

pub fn tool_invalid_params() -> (r: ErrorCode)
    ensures
        r.code == 4003,
        r.mnemonic@ == "TOOL_INVALID_PARAMS"@,
{
    ErrorCode {
        code: 4003,
        mnemonic: "TOOL_INVALID_PARAMS",
        description: "Invalid parameters passed to tool",
    }
}

pub fn tool_permission_denied() -> (r: ErrorCode)
    ensures
        r.code == 4004,
        r.mnemonic@ == "TOOL_PERMISSION_DENIED"@,
{
    ErrorCode {
        code: 4004,
        mnemonic: "TOOL_PERMISSION_DENIED",
        description: "Tool execution denied by security policy",
    }
}

pub fn security_unauthorized() -> (r: ErrorCode)
    ensures
        r.code == 5001,
        r.mnemonic@ == "SECURITY_UNAUTHORIZED"@,
{
    ErrorCode {
        code: 5001,
        mnemonic: "SECURITY_UNAUTHORIZED",
        description: "Unauthorized access attempt",
    }
}

pub fn security_pairing_failed() -> (r: ErrorCode)
    ensures
        r.code == 5002,
        r.mnemonic@ == "SECURITY_PAIRING_FAILED"@,
{
    ErrorCode { code: 5002, mnemonic: "SECURITY_PAIRING_FAILED", description: "Device pairing failed" }
}

pub fn security_secret_not_found() -> (r: ErrorCode)
    ensures
        r.code == 5003,
        r.mnemonic@ == "SECURITY_SECRET_NOT_FOUND"@,
{
    ErrorCode {
        code: 5003,
        mnemonic: "SECURITY_SECRET_NOT_FOUND",
        description: "Required secret not found in secret store",
    }
}

pub fn security_policy_violation() -> (r: ErrorCode)
    ensures
        r.code == 5004,
        r.mnemonic@ == "SECURITY_POLICY_VIOLATION"@,
{
    ErrorCode {
        code: 5004,
        mnemonic: "SECURITY_POLICY_VIOLATION",
        description: "Action violates security policy",
    }
}

pub fn runtime_init_failed() -> (r: ErrorCode)
    ensures
        r.code == 6001,
        r.mnemonic@ == "RUNTIME_INIT_FAILED"@,
{
    ErrorCode {
        code: 6001,
        mnemonic: "RUNTIME_INIT_FAILED",
        description: "Runtime initialization failed",
    }
}

pub fn runtime_sandbox_error() -> (r: ErrorCode)
    ensures
        r.code == 6002,
        r.mnemonic@ == "RUNTIME_SANDBOX_ERROR"@,
{
    ErrorCode { code: 6002, mnemonic: "RUNTIME_SANDBOX_ERROR", description: "Sandbox execution error" }
}

pub fn runtime_resource_exhausted() -> (r: ErrorCode)
    ensures
        r.code == 6003,
        r.mnemonic@ == "RUNTIME_RESOURCE_EXHAUSTED"@,
{
    ErrorCode {
        code: 6003,
        mnemonic: "RUNTIME_RESOURCE_EXHAUSTED",
        description: "Runtime resource limit exceeded",
    }
}

pub fn memory_store_failed() -> (r: ErrorCode)
    ensures
        r.code == 7001,
        r.mnemonic@ == "MEMORY_STORE_FAILED"@,
{
    ErrorCode {
        code: 7001,
        mnemonic: "MEMORY_STORE_FAILED",
        description: "Failed to store memory entry",
    }
}

pub fn memory_retrieve_failed() -> (r: ErrorCode)
    ensures
        r.code == 7002,
        r.mnemonic@ == "MEMORY_RETRIEVE_FAILED"@,
{
    ErrorCode {
        code: 7002,
        mnemonic: "MEMORY_RETRIEVE_FAILED",
        description: "Failed to retrieve memory entry",
    }
}

pub fn memory_db_error() -> (r: ErrorCode)
    ensures
        r.code == 7003,
        r.mnemonic@ == "MEMORY_DB_ERROR"@,
{
    ErrorCode { code: 7003, mnemonic: "MEMORY_DB_ERROR", description: "Memory database backend error" }
}

pub fn gateway_bind_failed() -> (r: ErrorCode)
    ensures
        r.code == 8001,
        r.mnemonic@ == "GATEWAY_BIND_FAILED"@,
{
    ErrorCode {
        code: 8001,
        mnemonic: "GATEWAY_BIND_FAILED",
        description: "Gateway failed to bind to address",
    }
}

pub fn gateway_tls_error() -> (r: ErrorCode)
    ensures
        r.code == 8002,
        r.mnemonic@ == "GATEWAY_TLS_ERROR"@,
{
    ErrorCode {
        code: 8002,
        mnemonic: "GATEWAY_TLS_ERROR",
        description: "Gateway TLS configuration error",
    }
}

pub fn gateway_webhook_invalid() -> (r: ErrorCode)
    ensures
        r.code == 8003,
        r.mnemonic@ == "GATEWAY_WEBHOOK_INVALID"@,
{
    ErrorCode {
        code: 8003,
        mnemonic: "GATEWAY_WEBHOOK_INVALID",
        description: "Invalid webhook signature or payload",
    }
}

pub fn hardware_not_found() -> (r: ErrorCode)
    ensures
        r.code == 9001,
        r.mnemonic@ == "HARDWARE_NOT_FOUND"@,
{
    ErrorCode {
        code: 9001,
        mnemonic: "HARDWARE_NOT_FOUND",
        description: "Hardware peripheral not found or not connected",
    }
}

pub fn hardware_comm_error() -> (r: ErrorCode)
    ensures
        r.code == 9002,
        r.mnemonic@ == "HARDWARE_COMM_ERROR"@,
{
    ErrorCode {
        code: 9002,
        mnemonic: "HARDWARE_COMM_ERROR",
        description: "Hardware communication error",
    }
}

pub fn hardware_firmware_error() -> (r: ErrorCode)
    ensures
        r.code == 9003,
        r.mnemonic@ == "HARDWARE_FIRMWARE_ERROR"@,
        r.description@ == "Hardware firmware error"@,
{
    ErrorCode { code: 9003, mnemonic: "HARDWARE_FIRMWARE_ERROR", description: "Hardware firmware error" }
}

/// The numeric codes of the registry, in order.
pub open spec fn spec_registry_codes() -> Seq<u16> {
    seq![
        1001u16,
        1002u16,
        1003u16,
        1004u16,
        1005u16,
        2001u16,
        2002u16,
        2003u16,
        2004u16,
        2005u16,
        2006u16,
        3001u16,
        3002u16,
        3003u16,
        3004u16,
        3005u16,
        4001u16,
        4002u16,
        4003u16,
        4004u16,
        5001u16,
        5002u16,
        5003u16,
        5004u16,
        6001u16,
        6002u16,
        6003u16,
        7001u16,
        7002u16,
        7003u16,
        8001u16,
        8002u16,
        8003u16,
        9001u16,
        9002u16,
        9003u16,
    ]
}

/// The mnemonics of the registry, in order.
pub open spec fn spec_registry_mnemonics() -> Seq<Seq<char>> {
    seq![
        "CONFIG_NOT_FOUND"@,
        "CONFIG_PARSE_ERROR"@,
        "CONFIG_INVALID_VALUE"@,
        "CONFIG_MISSING_REQUIRED"@,
        "CONFIG_DIR_CREATE_FAILED"@,
        "PROVIDER_NOT_FOUND"@,
        "PROVIDER_AUTH_FAILED"@,
        "PROVIDER_RATE_LIMITED"@,
        "PROVIDER_TIMEOUT"@,
        "PROVIDER_RESPONSE_ERROR"@,
        "PROVIDER_MODEL_NOT_FOUND"@,
        "CHANNEL_NOT_FOUND"@,
        "CHANNEL_AUTH_FAILED"@,
        "CHANNEL_SEND_FAILED"@,
        "CHANNEL_LISTEN_FAILED"@,
        "CHANNEL_HEALTH_CHECK_FAILED"@,
        "TOOL_NOT_FOUND"@,
        "TOOL_EXECUTION_FAILED"@,
        "TOOL_INVALID_PARAMS"@,
        "TOOL_PERMISSION_DENIED"@,
        "SECURITY_UNAUTHORIZED"@,
        "SECURITY_PAIRING_FAILED"@,
        "SECURITY_SECRET_NOT_FOUND"@,
        "SECURITY_POLICY_VIOLATION"@,
        "RUNTIME_INIT_FAILED"@,
        "RUNTIME_SANDBOX_ERROR"@,
        "RUNTIME_RESOURCE_EXHAUSTED"@,
        "MEMORY_STORE_FAILED"@,
        "MEMORY_RETRIEVE_FAILED"@,
        "MEMORY_DB_ERROR"@,
        "GATEWAY_BIND_FAILED"@,
        "GATEWAY_TLS_ERROR"@,
        "GATEWAY_WEBHOOK_INVALID"@,
        "HARDWARE_NOT_FOUND"@,
        "HARDWARE_COMM_ERROR"@,
        "HARDWARE_FIRMWARE_ERROR"@,
    ]
}

/// Whether the registry names this numeric code.
pub open spec fn spec_registered(code: u16) -> bool {
    exists|j: int|
        0 <= j < spec_registry_codes().len() && spec_registry_codes()[j] == code
}

/// No two registered codes share a number.
pub proof fn lemma_registry_codes_unique()
    ensures
        forall|i: int, j: int|
            0 <= i < j < spec_registry_codes().len() ==> spec_registry_codes()[i]
                != spec_registry_codes()[j],
{
}

/// Every registered code, in registry order: the element at each index
/// carries the registry's number and mnemonic for that index.
pub fn all_error_codes() -> (r: Vec<ErrorCode>)
    ensures
        r@.len() == spec_registry_codes().len(),
        forall|j: int|
            0 <= j < r@.len() ==> (#[trigger] r@[j]).code == spec_registry_codes()[j]
                && r@[j].mnemonic@ == spec_registry_mnemonics()[j],
{
    let mut v: Vec<ErrorCode> = Vec::new();
    v.push(config_not_found());
    v.push(config_parse_error());
    v.push(config_invalid_value());
    v.push(config_missing_required());
    v.push(config_dir_create_failed());
    v.push(provider_not_found());
    v.push(provider_auth_failed());
    v.push(provider_rate_limited());
    v.push(provider_timeout());
    v.push(provider_response_error());
    v.push(provider_model_not_found());
    v.push(channel_not_found());
    v.push(channel_auth_failed());
    v.push(channel_send_failed());
    v.push(channel_listen_failed());
    v.push(channel_health_check_failed());
    v.push(tool_not_found());
    v.push(tool_execution_failed());
    v.push(tool_invalid_params());
    v.push(tool_permission_denied());
    v.push(security_unauthorized());
    v.push(security_pairing_failed());
    v.push(security_secret_not_found());
    v.push(security_policy_violation());
    v.push(runtime_init_failed());
    v.push(runtime_sandbox_error());
    v.push(runtime_resource_exhausted());
    v.push(memory_store_failed());
    v.push(memory_retrieve_failed());
    v.push(memory_db_error());
    v.push(gateway_bind_failed());
    v.push(gateway_tls_error());
    v.push(gateway_webhook_invalid());
    v.push(hardware_not_found());
    v.push(hardware_comm_error());
    v.push(hardware_firmware_error());
    v
}

/// Looks up a registered code by its numeric value: found exactly when
/// the registry names the number, with that entry's mnemonic.
pub fn lookup_code(code: u16) -> (r: Option<ErrorCode>)
    ensures
        r is Some <==> spec_registered(code),
        r matches Some(c) ==> c.code == code && exists|j: int|
            0 <= j < spec_registry_codes().len() && spec_registry_codes()[j] == code && c.mnemonic@
                == #[trigger] spec_registry_mnemonics()[j],
{
    let all = all_error_codes();
    let n = all.len();
    let mut i: usize = 0;
    while i < n
        invariant
            n == all@.len(),
            n == spec_registry_codes().len(),
            i <= n,
            forall|j: int|
                0 <= j < n ==> (#[trigger] all@[j]).code == spec_registry_codes()[j]
                    && all@[j].mnemonic@ == spec_registry_mnemonics()[j],
            forall|j: int| 0 <= j < i ==> spec_registry_codes()[j] != code,
        decreases n - i,
    {
        if all[i].code == code {
            let found = all[i];
            proof {
                assert(spec_registry_codes()[i as int] == code);
            }
            return Some(found);
        }
        i = i + 1;
    }
    proof {
        if spec_registered(code) {
            let j = choose|j: int|
                0 <= j < spec_registry_codes().len() && spec_registry_codes()[j] == code;
            assert(spec_registry_codes()[j] != code);
        }
    }
    None
}

} // verus!
