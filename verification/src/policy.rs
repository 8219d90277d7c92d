//! Declarative tool-execution policy.
//!
//! A policy configuration holds per-tool rules, per-channel rules and a
//! default action. Evaluation checks, in order: the channel's denied
//! tools, the channel's allowed tools, the tool's channel restrictions,
//! the tool's rate limit, and finally the tool rule's own action (or the
//! default when no tool rule exists). The first deny wins.

use vstd::prelude::*;
use vstd::string::StringExecFns;

use crate::assoc::{
    assoc_find_index, assoc_lookup, lemma_assoc_none_means_absent, lemma_assoc_push_found,
    lemma_assoc_push_other, lemma_assoc_update_other, lemma_assoc_update_same, list_has,
    spec_list_has,
};
use crate::clock::now_millis;
use crate::strutil::{spec_decimal, u64_to_decimal};

verus! {

/// What a rule decides for a tool call.
#[derive(Debug, Clone, Copy, PartialEq, Eq, Structural)]
pub enum PolicyAction {
    Allow,
    Deny,
    /// Allow, but log the call.
    Audit,
}

impl Default for PolicyAction {
    fn default() -> (r: Self)
        ensures
            r == PolicyAction::Allow,
    {
        PolicyAction::Allow
    }
}

/// Rule for one tool.
#[derive(Debug, Clone)]
pub struct ToolPolicy {
    pub action: PolicyAction,
    /// When set, the tool may only run from these channels.
    pub allowed_channels: Option<Vec<String>>,
    /// When set, the tool may not run from these channels.
    pub denied_channels: Option<Vec<String>>,
    pub require_confirmation: bool,
    /// Maximum calls per minute.
    pub rate_limit: Option<u32>,
    pub reason: Option<String>,
}

/// Tool restrictions for one channel. The wildcard `"*"` matches any tool.
#[derive(Debug, Clone)]
pub struct ChannelPolicy {
    pub allowed_tools: Option<Vec<String>>,
    pub denied_tools: Option<Vec<String>>,
}

/// Root policy configuration. Rule tables are association lists; the
/// first entry for a name wins.
#[derive(Debug, Clone)]
pub struct PolicyConfig {
    pub default_action: PolicyAction,
    pub tools: Vec<(String, ToolPolicy)>,
    pub channels: Vec<(String, ChannelPolicy)>,
}

impl Default for PolicyConfig {
    fn default() -> (r: Self)
        ensures
            r.default_action == PolicyAction::Allow,
            r.tools@.len() == 0,
            r.channels@.len() == 0,
    {
        PolicyConfig { default_action: PolicyAction::Allow, tools: Vec::new(), channels: Vec::new() }
    }
}

/// Result of one evaluation.
#[derive(Debug, Clone)]
pub struct PolicyDecision {
    pub action: PolicyAction,
    /// Dotted identifier of the rule that decided, e.g. `tools.shell.rate_limit`.
    pub rule_source: String,
    pub reason: Option<String>,
}

/// Rule counts for diagnostics.
#[derive(Debug)]
pub struct PolicySummary {
    pub default_action: PolicyAction,
    pub tool_rules: usize,
    pub channel_rules: usize,
}

/// Mathematical form of a decision: the action, the rule source and the
/// reason as character sequences.
pub struct DecisionModel {
    pub action: PolicyAction,
    pub source: Seq<char>,
    pub reason: Option<Seq<char>>,
}

/// Whether the list names the tool or the wildcard.
pub open spec fn has_tool_or_wildcard(l: Seq<String>, tool: Seq<char>) -> bool {
    spec_list_has(l, tool) || spec_list_has(l, "*"@)
}

/// A call stamped `t` still counts against the rate limit at time `now`
/// when it lies within the trailing sixty seconds (timestamps in
/// milliseconds; a stamp at or past `now` always counts).
pub open spec fn recent(t: u64, now: u64) -> bool {
    now <= t || now - t < 60000
}

/// How many recorded stamps are recent at `now`.
pub open spec fn count_recent(times: Seq<u64>, now: u64) -> nat
    decreases times.len(),
{
    if times.len() == 0 {
        0
    } else {
        count_recent(times.drop_last(), now) + if recent(times.last(), now) {
            1nat
        } else {
            0nat
        }
    }
}

/// The stamps recorded for a tool, or the empty sequence.
pub open spec fn times_of(counters: Seq<(String, Vec<u64>)>, tool: Seq<char>) -> Seq<u64> {
    match assoc_lookup(counters, tool) {
        Some(v) => v@,
        None => Seq::empty(),
    }
}

/// Whether the tool is at or over `limit` recent calls. A tool with no
/// recorded calls is never limited, whatever the limit.
pub open spec fn spec_rate_limited(
    counters: Seq<(String, Vec<u64>)>,
    tool: Seq<char>,
    limit: u32,
    now: u64,
) -> bool {
    match assoc_lookup(counters, tool) {
        Some(v) => count_recent(v@, now) >= limit,
        None => false,
    }
}

/// Channel-stage decision: a deny from the channel's denied or allowed
/// tool lists, or nothing.
pub open spec fn spec_channel_deny(
    config: PolicyConfig,
    tool: Seq<char>,
    channel: Option<Seq<char>>,
) -> Option<DecisionModel> {
    match channel {
        None => None,
        Some(ch) => match assoc_lookup(config.channels@, ch) {
            None => None,
            Some(cp) => {
                let denied_hit = match cp.denied_tools {
                    Some(d) => has_tool_or_wildcard(d@, tool),
                    None => false,
                };
                let allowed_miss = match cp.allowed_tools {
                    Some(a) => !has_tool_or_wildcard(a@, tool),
                    None => false,
                };
                if denied_hit {
                    Some(
                        DecisionModel {
                            action: PolicyAction::Deny,
                            source: "channel."@ + ch + ".denied_tools"@,
                            reason: Some(
                                "Tool '"@ + tool + "' is denied for channel '"@ + ch + "'"@,
                            ),
                        },
                    )
                } else if allowed_miss {
                    Some(
                        DecisionModel {
                            action: PolicyAction::Deny,
                            source: "channel."@ + ch + ".allowed_tools"@,
                            reason: Some(
                                "Tool '"@ + tool + "' is not in allowlist for channel '"@ + ch
                                    + "'"@,
                            ),
                        },
                    )
                } else {
                    None
                }
            },
        },
    }
}

/// Tool-stage decision, applied when a tool rule exists.
pub open spec fn spec_tool_decision(
    tp: ToolPolicy,
    counters: Seq<(String, Vec<u64>)>,
    tool: Seq<char>,
    channel: Option<Seq<char>>,
    now: u64,
) -> DecisionModel {
    let channel_denied = match (channel, tp.denied_channels) {
        (Some(ch), Some(d)) => spec_list_has(d@, ch),
        _ => false,
    };
    let channel_not_allowed = match (channel, tp.allowed_channels) {
        (Some(ch), Some(a)) => !spec_list_has(a@, ch),
        _ => false,
    };
    let base = DecisionModel {
        action: tp.action,
        source: "tools."@ + tool,
        reason: tp.reason.deep_view(),
    };
    if channel_denied {
        DecisionModel {
            action: PolicyAction::Deny,
            source: "tools."@ + tool + ".denied_channels"@,
            reason: tp.reason.deep_view(),
        }
    } else if channel_not_allowed {
        DecisionModel {
            action: PolicyAction::Deny,
            source: "tools."@ + tool + ".allowed_channels"@,
            reason: tp.reason.deep_view(),
        }
    } else {
        match tp.rate_limit {
            Some(limit) => if spec_rate_limited(counters, tool, limit, now) {
                DecisionModel {
                    action: PolicyAction::Deny,
                    source: "tools."@ + tool + ".rate_limit"@,
                    reason: Some(
                        "Rate limit exceeded ("@ + spec_decimal(limit as int) + "/min)"@,
                    ),
                }
            } else {
                base
            },
            None => base,
        }
    }
}

/// The full decision for a tool call: channel stage first, then the tool
/// rule, then the default action.
pub open spec fn spec_evaluate(
    config: PolicyConfig,
    counters: Seq<(String, Vec<u64>)>,
    tool: Seq<char>,
    channel: Option<Seq<char>>,
    now: u64,
) -> DecisionModel {
    match spec_channel_deny(config, tool, channel) {
        Some(m) => m,
        None => match assoc_lookup(config.tools@, tool) {
            Some(tp) => spec_tool_decision(tp, counters, tool, channel, now),
            None => DecisionModel {
                action: config.default_action,
                source: "default"@,
                reason: None,
            },
        },
    }
}

/// An executable decision agrees with a decision model.
pub open spec fn decision_matches(d: PolicyDecision, m: DecisionModel) -> bool {
    &&& d.action == m.action
    &&& d.rule_source@ == m.source
    &&& d.reason.deep_view() == m.reason
}

/// Evaluates tool calls against the configured policy and keeps the
/// per-tool call stamps for rate limiting.
pub struct PolicyEngine {
    config: PolicyConfig,
    rate_counters: Vec<(String, Vec<u64>)>,
}

impl PolicyEngine {
    pub closed spec fn cfg(&self) -> PolicyConfig {
        self.config
    }

    pub closed spec fn counters(&self) -> Seq<(String, Vec<u64>)> {
        self.rate_counters@
    }

    /// Invariant: each tool has at most one stamp entry.
    pub open spec fn wf(&self) -> bool {
        forall|i: int, j: int|
            0 <= i < j < self.counters().len() ==> self.counters()[i].0@
                != self.counters()[j].0@
    }

    pub fn new(config: PolicyConfig) -> (r: Self)
        ensures
            r.wf(),
            r.cfg() == config,
            r.counters().len() == 0,
    {
        PolicyEngine { config, rate_counters: Vec::new() }
    }

    /// Rule counts for diagnostics.
    pub fn summary(&self) -> (r: PolicySummary)
        ensures
            r.default_action == self.cfg().default_action,
            r.tool_rules == self.cfg().tools@.len(),
            r.channel_rules == self.cfg().channels@.len(),
    {
        PolicySummary {
            default_action: self.config.default_action,
            tool_rules: self.config.tools.len(),
            channel_rules: self.config.channels.len(),
        }
    }

    /// Whether `tool_name` is at or over `limit` recent calls at `now_ms`.
    pub fn is_rate_limited_at(&self, tool_name: &str, limit: u32, now_ms: u64) -> (r: bool)
        ensures
            r == spec_rate_limited(self.counters(), tool_name@, limit, now_ms),
    {
        match assoc_find_index(&self.rate_counters, tool_name) {
            None => false,
            Some(idx) => {
                let times = &self.rate_counters[idx].1;
                let n = times.len();
                let mut count: usize = 0;
                let mut i: usize = 0;
                while i < n
                    invariant
                        n == times@.len(),
                        i <= n,
                        count <= i,
                        count == count_recent(times@.take(i as int), now_ms),
                    decreases n - i,
                {
                    let t = times[i];
                    proof {
                        assert(times@.take(i + 1).drop_last() =~= times@.take(i as int));
                        assert(times@.take(i + 1).last() == times@[i as int]);
                    }
                    if now_ms <= t || now_ms - t < 60000 {
                        count = count + 1;
                    }
                    i = i + 1;
                }
                proof {
                    assert(times@.take(n as int) =~= times@);
                }
                count >= limit as usize
            },
        }
    }

    /// Evaluates the call at the given clock reading. The result is
    /// exactly the decision model for the engine's state, the inputs and
    /// `now_ms`; the engine itself is unchanged.
    pub fn evaluate_at(&self, tool_name: &str, channel: Option<&str>, now_ms: u64) -> (r:
        PolicyDecision)
        ensures
            decision_matches(
                r,
                spec_evaluate(
                    self.cfg(),
                    self.counters(),
                    tool_name@,
                    channel.deep_view(),
                    now_ms,
                ),
            ),
    {
        if let Some(ch) = channel {
            if let Some(ci) = assoc_find_index(&self.config.channels, ch) {
                let denied_hit = match &self.config.channels[ci].1.denied_tools {
                    Some(d) => list_has(d, tool_name) || list_has(d, "*"),
                    None => false,
                };
                if denied_hit {
                    let mut source = String::new();
                    source.append("channel.");
                    source.append(ch);
                    source.append(".denied_tools");
                    let mut reason = String::new();
                    reason.append("Tool '");
                    reason.append(tool_name);
                    reason.append("' is denied for channel '");
                    reason.append(ch);
                    reason.append("'");
                    proof {
                        assert(source@ =~= "channel."@ + ch@ + ".denied_tools"@);
                        assert(reason@ =~= "Tool '"@ + tool_name@ + "' is denied for channel '"@
                            + ch@ + "'"@);
                    }
                    return PolicyDecision {
                        action: PolicyAction::Deny,
                        rule_source: source,
                        reason: Some(reason),
                    };
                }
                let allowed_miss = match &self.config.channels[ci].1.allowed_tools {
                    Some(a) => !(list_has(a, tool_name) || list_has(a, "*")),
                    None => false,
                };
                if allowed_miss {
                    let mut source = String::new();
                    source.append("channel.");
                    source.append(ch);
                    source.append(".allowed_tools");
                    let mut reason = String::new();
                    reason.append("Tool '");
                    reason.append(tool_name);
                    reason.append("' is not in allowlist for channel '");
                    reason.append(ch);
                    reason.append("'");
                    proof {
                        assert(source@ =~= "channel."@ + ch@ + ".allowed_tools"@);
                        assert(reason@ =~= "Tool '"@ + tool_name@
                            + "' is not in allowlist for channel '"@ + ch@ + "'"@);
                    }
                    return PolicyDecision {
                        action: PolicyAction::Deny,
                        rule_source: source,
                        reason: Some(reason),
                    };
                }
            }
        }
        if let Some(ti) = assoc_find_index(&self.config.tools, tool_name) {
            let tp = &self.config.tools[ti].1;
            if let Some(ch) = channel {
                let channel_denied = match &tp.denied_channels {
                    Some(d) => list_has(d, ch),
                    None => false,
                };
                if channel_denied {
                    let mut source = String::new();
                    source.append("tools.");
                    source.append(tool_name);
                    source.append(".denied_channels");
                    proof {
                        assert(source@ =~= "tools."@ + tool_name@ + ".denied_channels"@);
                    }
                    return PolicyDecision {
                        action: PolicyAction::Deny,
                        rule_source: source,
                        reason: clone_opt_string(&tp.reason),
                    };
                }
                let channel_not_allowed = match &tp.allowed_channels {
                    Some(a) => !list_has(a, ch),
                    None => false,
                };
                if channel_not_allowed {
                    let mut source = String::new();
                    source.append("tools.");
                    source.append(tool_name);
                    source.append(".allowed_channels");
                    proof {
                        assert(source@ =~= "tools."@ + tool_name@ + ".allowed_channels"@);
                    }
                    return PolicyDecision {
                        action: PolicyAction::Deny,
                        rule_source: source,
                        reason: clone_opt_string(&tp.reason),
                    };
                }
            }
            if let Some(limit) = tp.rate_limit {
                if self.is_rate_limited_at(tool_name, limit, now_ms) {
                    let mut source = String::new();
                    source.append("tools.");
                    source.append(tool_name);
                    source.append(".rate_limit");
                    let mut reason = String::new();
                    reason.append("Rate limit exceeded (");
                    let num = u64_to_decimal(limit as u64);
                    reason.append(num.as_str());
                    reason.append("/min)");
                    proof {
                        assert(source@ =~= "tools."@ + tool_name@ + ".rate_limit"@);
                        assert(reason@ =~= "Rate limit exceeded ("@ + spec_decimal(limit as int)
                            + "/min)"@);
                    }
                    return PolicyDecision {
                        action: PolicyAction::Deny,
                        rule_source: source,
                        reason: Some(reason),
                    };
                }
            }
            let mut source = String::new();
            source.append("tools.");
            source.append(tool_name);
            proof {
                assert(source@ =~= "tools."@ + tool_name@);
            }
            return PolicyDecision {
                action: tp.action,
                rule_source: source,
                reason: clone_opt_string(&tp.reason),
            };
        }
        let mut source = String::new();
        source.append("default");
        proof {
            assert(source@ =~= "default"@);
        }
        PolicyDecision { action: self.config.default_action, rule_source: source, reason: None }
    }

    /// Evaluates the call at the current wall clock. The decision is the
    /// decision model for some clock reading; everything but the rate
    /// check is independent of that reading.
    pub fn evaluate(&self, tool_name: &str, channel: Option<&str>) -> (r: PolicyDecision)
        ensures
            exists|now: u64|
                decision_matches(
                    r,
                    spec_evaluate(
                        self.cfg(),
                        self.counters(),
                        tool_name@,
                        channel.deep_view(),
                        now,
                    ),
                ),
    {
        let now = now_millis();
        let r = self.evaluate_at(tool_name, channel, now);
        proof {
            assert(decision_matches(
                r,
                spec_evaluate(self.cfg(), self.counters(), tool_name@, channel.deep_view(), now),
            ));
        }
        r
    }

    /// Records a call of `tool_name` stamped `now_ms` and prunes stamps
    /// older than one minute. Only this tool's stamps change: the new
    /// stamp is appended and exactly the recent stamps are kept.
    pub fn record_call_at(&mut self, tool_name: &str, now_ms: u64)
        requires
            old(self).wf(),
        ensures
            final(self).wf(),
            final(self).cfg() == old(self).cfg(),
            times_of(final(self).counters(), tool_name@) == times_of(
                old(self).counters(),
                tool_name@,
            ).push(now_ms).filter(|t: u64| recent(t, now_ms)),
            forall|other: Seq<char>|
                other != tool_name@ ==> times_of(final(self).counters(), other) == times_of(
                    old(self).counters(),
                    other,
                ),
    {
        let ghost before = self.rate_counters@;
        match assoc_find_index(&self.rate_counters, tool_name) {
            Some(idx) => {
                let old_times = &self.rate_counters[idx].1;
                let mut kept: Vec<u64> = Vec::new();
                let n = old_times.len();
                let mut i: usize = 0;
                while i < n
                    invariant
                        n == old_times@.len(),
                        i <= n,
                        kept@ == old_times@.take(i as int).filter(|t: u64| recent(t, now_ms)),
                    decreases n - i,
                {
                    let t = old_times[i];
                    proof {
                        assert(old_times@.take(i + 1).drop_last() =~= old_times@.take(i as int));
                        assert(old_times@.take(i + 1).last() == old_times@[i as int]);
                        reveal_with_fuel(Seq::filter, 2);
                    }
                    if now_ms <= t || now_ms - t < 60000 {
                        kept.push(t);
                    }
                    i = i + 1;
                }
                proof {
                    assert(old_times@.take(n as int) =~= old_times@);
                }
                kept.push(now_ms);
                let ghost old_seq = before[idx as int].1@;
                proof {
                    assert(old_seq.push(now_ms).drop_last() =~= old_seq);
                    assert(recent(now_ms, now_ms));
                    reveal_with_fuel(Seq::filter, 2);
                    assert(kept@ == old_seq.push(now_ms).filter(|t: u64| recent(t, now_ms)));
                }
                let key_copy = clone_key(&self.rate_counters[idx].0);
                self.rate_counters[idx] = (key_copy, kept);
                proof {
                    assert(self.rate_counters@ =~= before.update(
                        idx as int,
                        (before[idx as int].0, self.rate_counters@[idx as int].1),
                    ));
                    lemma_assoc_update_same(
                        before,
                        idx as int,
                        self.rate_counters@[idx as int].1,
                        tool_name@,
                    );
                    assert forall|other: Seq<char>| other != tool_name@ implies times_of(
                        self.rate_counters@,
                        other,
                    ) == times_of(before, other) by {
                        lemma_assoc_update_other(
                            before,
                            idx as int,
                            self.rate_counters@[idx as int].1,
                            other,
                        );
                    }
                    assert forall|i: int, j: int|
                        0 <= i < j < self.rate_counters@.len() implies self.rate_counters@[i].0@
                        != self.rate_counters@[j].0@ by {
                        assert(old(self).counters()[i].0@ != old(self).counters()[j].0@);
                        assert(self.rate_counters@[i].0 == before[i].0);
                        assert(self.rate_counters@[j].0 == before[j].0);
                    }
                }
            },
            None => {
                proof {
                    lemma_assoc_none_means_absent(before, tool_name@);
                }
                let mut times: Vec<u64> = Vec::new();
                times.push(now_ms);
                let key = str_to_string(tool_name);
                self.rate_counters.push((key, times));
                proof {
                    let pair = self.rate_counters@.last();
                    assert(self.rate_counters@ =~= before.push(pair));
                    lemma_assoc_push_found(before, pair);
                    assert(Seq::<u64>::empty().push(now_ms).drop_last() =~= Seq::<u64>::empty());
                    reveal_with_fuel(Seq::filter, 2);
                    assert(pair.1@ =~= Seq::<u64>::empty().push(now_ms).filter(
                        |t: u64| recent(t, now_ms),
                    ));
                    assert forall|other: Seq<char>| other != tool_name@ implies times_of(
                        self.rate_counters@,
                        other,
                    ) == times_of(before, other) by {
                        lemma_assoc_push_other(before, pair, other);
                    }
                    assert forall|i: int, j: int|
                        0 <= i < j < self.rate_counters@.len() implies self.rate_counters@[i].0@
                        != self.rate_counters@[j].0@ by {
                        if j < before.len() {
                            assert(old(self).counters()[i].0@ != old(self).counters()[j].0@);
                            assert(self.rate_counters@[i] == before[i]);
                            assert(self.rate_counters@[j] == before[j]);
                        } else {
                            assert(self.rate_counters@[i] == before[i]);
                            assert(self.rate_counters@[j].0@ == tool_name@);
                        }
                    }
                }
            },
        }
    }

    /// Records a call of `tool_name` at the current wall clock.
    pub fn record_call(&mut self, tool_name: &str)
        requires
            old(self).wf(),
        ensures
            final(self).wf(),
            final(self).cfg() == old(self).cfg(),
            exists|now: u64|
                {
                    &&& times_of(final(self).counters(), tool_name@) == times_of(
                        old(self).counters(),
                        tool_name@,
                    ).push(now).filter(|t: u64| recent(t, now))
                    &&& forall|other: Seq<char>|
                        other != tool_name@ ==> times_of(final(self).counters(), other)
                            == times_of(old(self).counters(), other)
                },
    {
        let now = now_millis();
        self.record_call_at(tool_name, now);
    }
}

/// A decision is a function of the engine state, the inputs and the
/// clock: two evaluations with no recorded call and no clock advance
/// between them agree in action, rule source and reason.
pub proof fn lemma_evaluate_repeatable(
    d1: PolicyDecision,
    d2: PolicyDecision,
    config: PolicyConfig,
    counters: Seq<(String, Vec<u64>)>,
    tool: Seq<char>,
    channel: Option<Seq<char>>,
    now: u64,
)
    requires
        decision_matches(d1, spec_evaluate(config, counters, tool, channel, now)),
        decision_matches(d2, spec_evaluate(config, counters, tool, channel, now)),
    ensures
        d1.action == d2.action,
        d1.rule_source@ == d2.rule_source@,
        d1.reason.deep_view() == d2.reason.deep_view(),
{
}

fn clone_opt_string(s: &Option<String>) -> (r: Option<String>)
    ensures
        r.deep_view() == s.deep_view(),
{
    match s {
        Some(v) => Some(v.clone()),
        None => None,
    }
}

fn clone_key(s: &String) -> (r: String)
    ensures
        r == *s,
{
    s.clone()
}

fn str_to_string(s: &str) -> (r: String)
    ensures
        r@ == s@,
{
    s.to_owned()
}

} // verus!
