//! Health diagnostics: check results, the aggregated report, and the
//! pure predicates the individual checks are built from.
//!
//! The checks that probe the filesystem or the process environment run
//! outside the library and hand their findings in as `CheckResult`
//! values; the report aggregates them.

use vstd::prelude::*;
use vstd::string::StringExecFns;

use crate::chars::{spec_starts_with, starts_with_chars, str_chars, string_of_chars, subrange_chars};
use crate::config::push_lit;
use crate::email::{spec_trim_ws, trim_ws};
use crate::strutil::{push_char, spec_decimal, str_eq, u64_to_decimal};

verus! {

/// Overall health of one check or of the whole report.
#[derive(Debug, Clone, Copy, PartialEq, Eq, Structural)]
pub enum HealthStatus {
    Healthy,
    Warning,
    Critical,
    Unknown,
}

/// One diagnostic finding.
#[derive(Debug, Clone)]
pub struct CheckResult {
    pub name: String,
    pub status: HealthStatus,
    pub message: String,
    pub details: Option<String>,
}

/// Builds one finding.
pub fn check_result(name: &str, status: HealthStatus, message: &str, details: Option<String>) -> (r:
    CheckResult)
    ensures
        r.name@ == name@,
        r.status == status,
        r.message@ == message@,
        r.details == details,
{
    CheckResult { name: name.to_owned(), status, message: message.to_owned(), details }
}

/// Counts of findings by status.
#[derive(Debug, Clone)]
pub struct ReportSummary {
    pub total: usize,
    pub healthy: usize,
    pub warnings: usize,
    pub critical: usize,
}

/// The aggregated report.
#[derive(Debug, Clone)]
pub struct DiagnosticReport {
    pub timestamp: String,
    pub version: String,
    pub overall: HealthStatus,
    pub checks: Vec<CheckResult>,
    pub summary: ReportSummary,
}

/// How many findings carry the given status.
pub open spec fn spec_count_status(checks: Seq<CheckResult>, s: HealthStatus) -> nat
    decreases checks.len(),
{
    if checks.len() == 0 {
        0
    } else {
        spec_count_status(checks.drop_last(), s) + if checks.last().status == s {
            1nat
        } else {
            0nat
        }
    }
}

/// The worst status among the findings: critical beats warning beats
/// unknown beats healthy.
pub open spec fn spec_overall(checks: Seq<CheckResult>) -> HealthStatus {
    if spec_count_status(checks, HealthStatus::Critical) > 0 {
        HealthStatus::Critical
    } else if spec_count_status(checks, HealthStatus::Warning) > 0 {
        HealthStatus::Warning
    } else if spec_count_status(checks, HealthStatus::Unknown) > 0 {
        HealthStatus::Unknown
    } else {
        HealthStatus::Healthy
    }
}

impl DiagnosticReport {
    /// An empty report: no findings yet, overall unknown.
    pub fn new() -> (r: Self)
        ensures
            r.checks@.len() == 0,
            r.overall == HealthStatus::Unknown,
            r.summary.total == 0,
            r.summary.healthy == 0,
            r.summary.warnings == 0,
            r.summary.critical == 0,
            r.timestamp@ == Seq::<char>::empty(),
            r.version@ == Seq::<char>::empty(),
    {
        DiagnosticReport {
            timestamp: String::new(),
            version: String::new(),
            overall: HealthStatus::Unknown,
            checks: Vec::new(),
            summary: ReportSummary { total: 0, healthy: 0, warnings: 0, critical: 0 },
        }
    }

    /// Appends one finding.
    pub fn add_check(&mut self, check: CheckResult)
        ensures
            final(self).checks@ == old(self).checks@.push(check),
            final(self).overall == old(self).overall,
            final(self).summary == old(self).summary,
            final(self).timestamp == old(self).timestamp,
            final(self).version == old(self).version,
    {
        self.checks.push(check);
    }

    /// Recomputes the summary counts and the overall status (the worst
    /// of all findings).
    pub fn finalize(&mut self)
        ensures
            final(self).checks == old(self).checks,
            final(self).timestamp == old(self).timestamp,
            final(self).version == old(self).version,
            final(self).summary.total == old(self).checks@.len(),
            final(self).summary.healthy == spec_count_status(
                old(self).checks@,
                HealthStatus::Healthy,
            ),
            final(self).summary.warnings == spec_count_status(
                old(self).checks@,
                HealthStatus::Warning,
            ),
            final(self).summary.critical == spec_count_status(
                old(self).checks@,
                HealthStatus::Critical,
            ),
            final(self).overall == spec_overall(old(self).checks@),
    {
        let n = self.checks.len();
        let mut healthy: usize = 0;
        let mut warnings: usize = 0;
        let mut critical: usize = 0;
        let mut unknown: usize = 0;
        let mut i: usize = 0;
        while i < n
            invariant
                n == self.checks@.len(),
                i <= n,
                healthy == spec_count_status(self.checks@.take(i as int), HealthStatus::Healthy),
                warnings == spec_count_status(self.checks@.take(i as int), HealthStatus::Warning),
                critical == spec_count_status(self.checks@.take(i as int), HealthStatus::Critical),
                unknown == spec_count_status(self.checks@.take(i as int), HealthStatus::Unknown),
                healthy <= i && warnings <= i && critical <= i && unknown <= i,
            decreases n - i,
        {
            proof {
                assert(self.checks@.take(i + 1).drop_last() =~= self.checks@.take(i as int));
                assert(self.checks@.take(i + 1).last() == self.checks@[i as int]);
            }
            match self.checks[i].status {
                HealthStatus::Healthy => {
                    healthy = healthy + 1;
                },
                HealthStatus::Warning => {
                    warnings = warnings + 1;
                },
                HealthStatus::Critical => {
                    critical = critical + 1;
                },
                HealthStatus::Unknown => {
                    unknown = unknown + 1;
                },
            }
            i = i + 1;
        }
        proof {
            assert(self.checks@.take(n as int) =~= self.checks@);
        }
        self.summary = ReportSummary { total: n, healthy, warnings, critical };
        self.overall = if critical > 0 {
            HealthStatus::Critical
        } else if warnings > 0 {
            HealthStatus::Warning
        } else if unknown > 0 {
            HealthStatus::Unknown
        } else {
            HealthStatus::Healthy
        };
    }

    /// Renders the report as plain text.
    pub fn render(&self) -> (r: String)
        ensures
            r@ == spec_render(*self),
    {
        proof {
            reveal_strlit("\n");
        }
        let mut out = String::new();
        out.append("RedClaw Doctor\n");
        out.append("Overall: ");
        out.append(status_name(self.overall));
        push_char(&mut out, '\n');
        out.append("Summary: ");
        let t = u64_to_decimal(self.summary.total as u64);
        out.append(t.as_str());
        out.append(" total | ");
        let h = u64_to_decimal(self.summary.healthy as u64);
        out.append(h.as_str());
        out.append(" healthy | ");
        let w = u64_to_decimal(self.summary.warnings as u64);
        out.append(w.as_str());
        out.append(" warnings | ");
        let c = u64_to_decimal(self.summary.critical as u64);
        out.append(c.as_str());
        out.append(" critical\n");
        proof {
            assert(out@ =~= spec_render_header(*self));
        }
        let n = self.checks.len();
        let mut i: usize = 0;
        while i < n
            invariant
                n == self.checks@.len(),
                out@ == spec_render_header(*self) + spec_render_checks(
                    self.checks@.take(i as int),
                ),
                i <= n,
            decreases n - i,
        {
            let ghost pre = out@;
            let check = &self.checks[i];
            out.append("  ");
            push_char(&mut out, status_symbol(check.status));
            push_char(&mut out, ' ');
            out.append(check.name.as_str());
            out.append(": ");
            out.append(check.message.as_str());
            push_char(&mut out, '\n');
            proof {
                assert(self.checks@.take(i + 1).drop_last() =~= self.checks@.take(i as int));
                assert(self.checks@.take(i + 1).last() == self.checks@[i as int]);
                assert(out@ =~= pre + spec_render_check(self.checks@[i as int]));
            }
            i = i + 1;
        }
        proof {
            assert(self.checks@.take(n as int) =~= self.checks@);
        }
        out
    }
}

/// The name of a status.
pub open spec fn spec_status_name(s: HealthStatus) -> Seq<char> {
    match s {
        HealthStatus::Healthy => "healthy"@,
        HealthStatus::Warning => "warning"@,
        HealthStatus::Critical => "critical"@,
        HealthStatus::Unknown => "unknown"@,
    }
}

fn status_name(s: HealthStatus) -> (r: &'static str)
    ensures
        r@ == spec_status_name(s),
{
    match s {
        HealthStatus::Healthy => "healthy",
        HealthStatus::Warning => "warning",
        HealthStatus::Critical => "critical",
        HealthStatus::Unknown => "unknown",
    }
}

/// The symbol printed in front of a finding.
pub open spec fn spec_status_symbol(s: HealthStatus) -> char {
    match s {
        HealthStatus::Healthy => '\u{2713}',
        HealthStatus::Warning => '\u{26a0}',
        HealthStatus::Critical => '\u{2717}',
        HealthStatus::Unknown => '?',
    }
}

fn status_symbol(s: HealthStatus) -> (r: char)
    ensures
        r == spec_status_symbol(s),
{
    match s {
        HealthStatus::Healthy => '\u{2713}',
        HealthStatus::Warning => '\u{26a0}',
        HealthStatus::Critical => '\u{2717}',
        HealthStatus::Unknown => '?',
    }
}

/// The rendered header lines.
pub open spec fn spec_render_header(r: DiagnosticReport) -> Seq<char> {
    "RedClaw Doctor\n"@ + "Overall: "@ + spec_status_name(r.overall) + "\n"@ + "Summary: "@
        + spec_decimal(r.summary.total as int) + " total | "@ + spec_decimal(
        r.summary.healthy as int,
    ) + " healthy | "@ + spec_decimal(r.summary.warnings as int) + " warnings | "@ + spec_decimal(
        r.summary.critical as int,
    ) + " critical\n"@
}

/// One rendered finding line.
pub open spec fn spec_render_check(c: CheckResult) -> Seq<char> {
    "  "@ + seq![spec_status_symbol(c.status)] + seq![' '] + c.name@ + ": "@ + c.message@ + seq![
        '\n',
    ]
}

/// The rendered finding lines, in order.
pub open spec fn spec_render_checks(checks: Seq<CheckResult>) -> Seq<char>
    decreases checks.len(),
{
    if checks.len() == 0 {
        Seq::empty()
    } else {
        spec_render_checks(checks.drop_last()) + spec_render_check(checks.last())
    }
}

/// The whole rendered report.
pub open spec fn spec_render(r: DiagnosticReport) -> Seq<char> {
    spec_render_header(r) + spec_render_checks(r.checks@)
}

/// Whether a string holds anything besides whitespace.
pub fn non_empty(s: &str) -> (r: bool)
    ensures
        r == (spec_trim_ws(s@).len() > 0),
{
    let chars = str_chars(s);
    let t = trim_ws(&chars);
    t.len() > 0
}

/// Whether a host names the loopback interface.
pub fn is_localhost(host: &str) -> (r: bool)
    ensures
        r == (spec_trim_ws(host@) == "127.0.0.1"@ || spec_trim_ws(host@) == "localhost"@
            || spec_trim_ws(host@) == "::1"@),
{
    let chars = str_chars(host);
    let t = trim_ws(&chars);
    let ts = string_of_chars(&t);
    str_eq(ts.as_str(), "127.0.0.1") || str_eq(ts.as_str(), "localhost") || str_eq(
        ts.as_str(),
        "::1",
    )
}

/// Whether a provider needs an API key: every remote provider does; the
/// local daemon does not.
pub fn provider_requires_api_key(provider: &str) -> (r: bool)
    ensures
        r == (crate::chars::spec_lower(provider@) != "ollama"@),
{
    let chars = str_chars(provider);
    let l = crate::chars::lower_chars(&chars);
    let ls = string_of_chars(&l);
    !str_eq(ls.as_str(), "ollama")
}

/// The names the provider registry recognizes.
pub open spec fn spec_known_providers() -> Seq<Seq<char>> {
    seq![
        "openrouter"@,
        "anthropic"@,
        "openai"@,
        "ollama"@,
        "gemini"@,
        "google"@,
        "google-gemini"@,
        "venice"@,
        "vercel"@,
        "vercel-ai"@,
        "cloudflare"@,
        "cloudflare-ai"@,
        "moonshot"@,
        "kimi"@,
        "synthetic"@,
        "opencode"@,
        "opencode-zen"@,
        "zai"@,
        "z.ai"@,
        "glm"@,
        "zhipu"@,
        "minimax"@,
        "bedrock"@,
        "aws-bedrock"@,
        "qianfan"@,
        "baidu"@,
        "qwen"@,
        "dashscope"@,
        "qwen-intl"@,
        "dashscope-intl"@,
        "qwen-us"@,
        "dashscope-us"@,
        "together"@,
        "together-ai"@,
        "fireworks"@,
        "fireworks-ai"@,
        "perplexity"@,
        "cohere"@,
        "groq"@,
        "mistral"@,
        "deepseek"@,
        "xai"@,
        "grok"@,
    ]
}

/// Whether a provider name is recognized: a known name, or a custom
/// endpoint form.
pub fn is_provider_name_recognized(provider: &str) -> (r: bool)
    ensures
        r == ({
            let p = spec_trim_ws(provider@);
            p.len() > 0 && (spec_starts_with(p, "custom:"@) || spec_starts_with(
                p,
                "anthropic-custom:"@,
            ) || spec_known_providers().contains(p))
        }),
{
    let chars = str_chars(provider);
    let t = trim_ws(&chars);
    if t.len() == 0 {
        return false;
    }
    if starts_with_chars(&t, "custom:") || starts_with_chars(&t, "anthropic-custom:") {
        return true;
    }
    let ts = string_of_chars(&t);
    let known = known_provider_names();
    let n = known.len();
    let mut i: usize = 0;
    while i < n
        invariant
            known.deep_view() == spec_known_providers(),
            n == known.deep_view().len(),
            known@.len() == n,
            i <= n,
            ts@ == spec_trim_ws(provider@),
            ts@.len() > 0,
            forall|j: int| 0 <= j < i ==> known.deep_view()[j] != ts@,
        decreases n - i,
    {
        proof {
            assert(known.deep_view()[i as int] == known@[i as int]@);
        }
        if str_eq(known[i].as_str(), ts.as_str()) {
            proof {
                assert(spec_known_providers().contains(ts@));
            }
            return true;
        }
        i = i + 1;
    }
    proof {
        if spec_known_providers().contains(ts@) {
            let k = choose|k: int|
                0 <= k < spec_known_providers().len() && spec_known_providers()[k] == ts@;
            assert(known.deep_view()[k] != ts@);
        }
    }
    false
}

fn known_provider_names() -> (r: Vec<String>)
    ensures
        r.deep_view() == spec_known_providers(),
{
    let mut v: Vec<String> = Vec::new();
    push_lit(&mut v, "openrouter");
    push_lit(&mut v, "anthropic");
    push_lit(&mut v, "openai");
    push_lit(&mut v, "ollama");
    push_lit(&mut v, "gemini");
    push_lit(&mut v, "google");
    push_lit(&mut v, "google-gemini");
    push_lit(&mut v, "venice");
    push_lit(&mut v, "vercel");
    push_lit(&mut v, "vercel-ai");
    push_lit(&mut v, "cloudflare");
    push_lit(&mut v, "cloudflare-ai");
    push_lit(&mut v, "moonshot");
    push_lit(&mut v, "kimi");
    push_lit(&mut v, "synthetic");
    push_lit(&mut v, "opencode");
    push_lit(&mut v, "opencode-zen");
    push_lit(&mut v, "zai");
    push_lit(&mut v, "z.ai");
    push_lit(&mut v, "glm");
    push_lit(&mut v, "zhipu");
    push_lit(&mut v, "minimax");
    push_lit(&mut v, "bedrock");
    push_lit(&mut v, "aws-bedrock");
    push_lit(&mut v, "qianfan");
    push_lit(&mut v, "baidu");
    push_lit(&mut v, "qwen");
    push_lit(&mut v, "dashscope");
    push_lit(&mut v, "qwen-intl");
    push_lit(&mut v, "dashscope-intl");
    push_lit(&mut v, "qwen-us");
    push_lit(&mut v, "dashscope-us");
    push_lit(&mut v, "together");
    push_lit(&mut v, "together-ai");
    push_lit(&mut v, "fireworks");
    push_lit(&mut v, "fireworks-ai");
    push_lit(&mut v, "perplexity");
    push_lit(&mut v, "cohere");
    push_lit(&mut v, "groq");
    push_lit(&mut v, "mistral");
    push_lit(&mut v, "deepseek");
    push_lit(&mut v, "xai");
    push_lit(&mut v, "grok");
    proof {
        assert(v.deep_view() =~~= spec_known_providers());
    }
    v
}

/// The endpoint named by a `custom:` or `anthropic-custom:` provider,
/// trimmed, or nothing for other forms.
pub fn parse_provider_endpoint_if_custom(provider: &str) -> (r: Option<String>)
    ensures
        spec_starts_with(spec_trim_ws(provider@), "custom:"@) ==> (r matches Some(e) && e@
            == spec_trim_ws(spec_trim_ws(provider@).skip("custom:"@.len() as int))),
        !spec_starts_with(spec_trim_ws(provider@), "custom:"@) && spec_starts_with(
            spec_trim_ws(provider@),
            "anthropic-custom:"@,
        ) ==> (r matches Some(e) && e@ == spec_trim_ws(
            spec_trim_ws(provider@).skip("anthropic-custom:"@.len() as int),
        )),
        !spec_starts_with(spec_trim_ws(provider@), "custom:"@) && !spec_starts_with(
            spec_trim_ws(provider@),
            "anthropic-custom:"@,
        ) ==> r is None,
{
    let chars = str_chars(provider);
    let t = trim_ws(&chars);
    if starts_with_chars(&t, "custom:") {
        proof {
            reveal_strlit("custom:");
            assert("custom:"@.len() == 7);
        }
        let rest = subrange_chars(&t, 7, t.len());
        proof {
            assert(rest@ =~= t@.skip(7));
        }
        let trimmed = trim_ws(&rest);
        return Some(string_of_chars(&trimmed));
    }
    if starts_with_chars(&t, "anthropic-custom:") {
        proof {
            reveal_strlit("anthropic-custom:");
            assert("anthropic-custom:"@.len() == 17);
        }
        let rest = subrange_chars(&t, 17, t.len());
        proof {
            assert(rest@ =~= t@.skip(17));
        }
        let trimmed = trim_ws(&rest);
        return Some(string_of_chars(&trimmed));
    }
    None
}

} // verus!
