//! Scheduler decision rules.
//!
//! The scheduler's loop spawns subprocesses and sleeps; those effects
//! live outside the library. The decisions are here: the security gate
//! chain a job command must pass before it runs, the scan of its path
//! arguments, and the retry policy with exponential backoff. A policy
//! violation is never retried.

use vstd::prelude::*;
use vstd::string::StringExecFns;

use crate::chars::{
    contains_sub, spec_contains, spec_starts_with, starts_with_chars, str_chars, string_of_chars,
};
use crate::cmdline::{
    first_non_env, spec_first_non_env, spec_segments, spec_strip_quotes, spec_tokens,
    split_segments, split_tokens, strip_quotes,
};
use crate::security::{
    recent_actions, spec_command_allowed, spec_path_allowed, AutonomyLevel, SecurityPolicy,
};

verus! {

/// Marker put in front of every non-retryable security refusal.
pub open spec fn spec_policy_prefix() -> Seq<char> {
    "blocked by security policy: "@
}

/// Whether an output names a policy violation.
pub open spec fn spec_is_policy_block(m: Seq<char>) -> bool {
    spec_starts_with(m, spec_policy_prefix())
}

/// A path-looking argument token that reaches a forbidden root: not an
/// option, not a URL, contains a `/`, and extends a forbidden path.
pub open spec fn spec_token_offending(cand: Seq<char>, forbidden: Seq<Seq<char>>) -> bool {
    &&& cand.len() > 0
    &&& cand[0] != '-'
    &&& !spec_contains(cand, "://"@)
    &&& spec_contains(cand, "/"@)
    &&& !spec_path_allowed(cand, forbidden)
}

/// First offending argument among the tokens of one segment, from
/// position `j` on (quotes stripped before the check).
pub open spec fn spec_seg_offender(
    toks: Seq<Seq<char>>,
    j: int,
    forbidden: Seq<Seq<char>>,
) -> Option<Seq<char>>
    decreases toks.len() - j,
{
    if j < 0 || j >= toks.len() {
        None
    } else {
        let cand = spec_strip_quotes(toks[j]);
        if spec_token_offending(cand, forbidden) {
            Some(cand)
        } else {
            spec_seg_offender(toks, j + 1, forbidden)
        }
    }
}

/// First offending argument over the segments, from segment `k` on. The
/// executable token itself is not checked, only its arguments.
pub open spec fn spec_segs_offender(
    segs: Seq<Seq<char>>,
    k: int,
    forbidden: Seq<Seq<char>>,
) -> Option<Seq<char>>
    decreases segs.len() - k,
{
    if k < 0 || k >= segs.len() {
        None
    } else {
        let toks = spec_tokens(segs[k]);
        let i = spec_first_non_env(toks, 0);
        let inner = if i >= toks.len() {
            None
        } else {
            spec_seg_offender(toks, i + 1, forbidden)
        };
        match inner {
            Some(c) => Some(c),
            None => spec_segs_offender(segs, k + 1, forbidden),
        }
    }
}

/// First forbidden path argument of the whole command, if any.
pub open spec fn spec_forbidden_path_argument(
    s: Seq<char>,
    forbidden: Seq<Seq<char>>,
) -> Option<Seq<char>> {
    spec_segs_offender(spec_segments(s), 0, forbidden)
}

/// Scans the command's argument tokens for one that reaches a forbidden
/// root and returns the first such token, quotes stripped.
pub fn forbidden_path_argument(security: &SecurityPolicy, command: &str) -> (r: Option<String>)
    ensures
        r.deep_view() == spec_forbidden_path_argument(command@, security.forbidden()),
{
    let chars = str_chars(command);
    let segments = split_segments(&chars);
    let nsegs = segments.len();
    let mut k: usize = 0;
    while k < nsegs
        invariant
            nsegs == spec_segments(command@).len(),
            segments.deep_view() == spec_segments(command@),
            k <= nsegs,
            spec_forbidden_path_argument(command@, security.forbidden()) == spec_segs_offender(
                spec_segments(command@),
                k as int,
                security.forbidden(),
            ),
        decreases nsegs - k,
    {
        proof {
            assert(segments.deep_view()[k as int] == segments@[k as int]@);
        }
        let toks = split_tokens(&segments[k]);
        let idx = first_non_env(&toks, 0);
        if idx < toks.len() {
            let ntoks = toks.len();
            let mut j: usize = idx + 1;
            while j < ntoks
                invariant
                    k < nsegs,
                    nsegs == spec_segments(command@).len(),
                    spec_forbidden_path_argument(command@, security.forbidden())
                        == spec_segs_offender(
                        spec_segments(command@),
                        k as int,
                        security.forbidden(),
                    ),
                    toks.deep_view() == spec_tokens(spec_segments(command@)[k as int]),
                    idx == spec_first_non_env(toks.deep_view(), 0),
                    ntoks == toks.deep_view().len(),
                    toks@.len() == ntoks,
                    idx < ntoks,
                    idx + 1 <= j <= ntoks,
                    spec_seg_offender(toks.deep_view(), idx + 1, security.forbidden())
                        == spec_seg_offender(toks.deep_view(), j as int, security.forbidden()),
                decreases ntoks - j,
            {
                proof {
                    assert(toks.deep_view()[j as int] == toks@[j as int]@);
                }
                let cand = strip_quotes(&toks[j]);
                if cand.len() > 0 && cand[0] != '-' && !contains_sub(&cand, "://") && contains_sub(
                    &cand,
                    "/",
                ) && !path_allowed_chars(security, &cand) {
                    let found = string_of_chars(&cand);
                    proof {
                        assert(spec_token_offending(cand@, security.forbidden()));
                        assert(spec_seg_offender(toks.deep_view(), j as int, security.forbidden())
                            == Some(cand@));
                        assert(spec_segs_offender(
                            spec_segments(command@),
                            k as int,
                            security.forbidden(),
                        ) == Some(cand@));
                        assert(Some(found).deep_view() == Some(cand@));
                    }
                    return Some(found);
                }
                j = j + 1;
            }
            proof {
                assert(spec_seg_offender(toks.deep_view(), ntoks as int, security.forbidden())
                    is None);
                assert(spec_segs_offender(
                    spec_segments(command@),
                    k as int,
                    security.forbidden(),
                ) == spec_segs_offender(
                    spec_segments(command@),
                    k + 1,
                    security.forbidden(),
                ));
            }
        } else {
            proof {
                assert(spec_segs_offender(
                    spec_segments(command@),
                    k as int,
                    security.forbidden(),
                ) == spec_segs_offender(
                    spec_segments(command@),
                    k + 1,
                    security.forbidden(),
                ));
            }
        }
        k = k + 1;
    }
    None
}

/// `is_path_allowed` over a character vector.
fn path_allowed_chars(security: &SecurityPolicy, cand: &Vec<char>) -> (r: bool)
    ensures
        r == spec_path_allowed(cand@, security.forbidden()),
{
    let s = string_of_chars(cand);
    security.is_path_allowed(s.as_str())
}

/// The message the security gates produces for a command at time `now`, or
/// nothing when the command may run. The checks are ordered: autonomy,
/// action budget, command allowlist, path arguments.
pub open spec fn spec_precheck_msg(sec: SecurityPolicy, cmd: Seq<char>, now: u64) -> Option<
    Seq<char>,
> {
    if sec.level() == AutonomyLevel::ReadOnly {
        Some(spec_policy_prefix() + "autonomy is read-only"@)
    } else if recent_actions(sec.actions(), now).len() >= sec.max_per_hour() {
        Some(spec_policy_prefix() + "rate limit exceeded"@)
    } else if !spec_command_allowed(cmd, sec.allowed()) {
        Some(spec_policy_prefix() + "command not allowed: "@ + cmd)
    } else {
        match spec_forbidden_path_argument(cmd, sec.forbidden()) {
            Some(path) => Some(spec_policy_prefix() + "forbidden path argument: "@ + path),
            None => None,
        }
    }
}

/// Runs the security gates for a job command at time `now`. On `None` the
/// command passed every gate and the action was recorded against the
/// budget; on `Some` the message says which gate refused and the
/// recorded actions are only pruned, never extended.
pub fn precheck_job_at(security: &mut SecurityPolicy, command: &str, now: u64) -> (r: Option<
    String,
>)
    ensures
        r.deep_view() == spec_precheck_msg(*old(security), command@, now),
        final(security).level() == old(security).level(),
        final(security).allowed() == old(security).allowed(),
        final(security).forbidden() == old(security).forbidden(),
        final(security).max_per_hour() == old(security).max_per_hour(),
        r is None ==> final(security).actions() == recent_actions(
            old(security).actions(),
            now,
        ).push(now),
        r is Some ==> final(security).actions() == old(security).actions()
            || final(security).actions() == recent_actions(old(security).actions(), now),
{
    if !security.can_act() {
        let mut m = policy_prefix_string();
        m.append("autonomy is read-only");
        proof {
            assert(m@ =~= spec_policy_prefix() + "autonomy is read-only"@);
        }
        return Some(m);
    }
    if security.is_rate_limited_at(now) {
        let mut m = policy_prefix_string();
        m.append("rate limit exceeded");
        proof {
            assert(m@ =~= spec_policy_prefix() + "rate limit exceeded"@);
        }
        return Some(m);
    }
    if !security.is_command_allowed(command) {
        let mut m = policy_prefix_string();
        m.append("command not allowed: ");
        m.append(command);
        proof {
            assert(m@ =~= spec_policy_prefix() + "command not allowed: "@ + command@);
        }
        return Some(m);
    }
    if let Some(path) = forbidden_path_argument(security, command) {
        let mut m = policy_prefix_string();
        m.append("forbidden path argument: ");
        m.append(path.as_str());
        proof {
            assert(m@ =~= spec_policy_prefix() + "forbidden path argument: "@ + path@);
        }
        return Some(m);
    }
    let recorded = security.record_action_at(now);
    proof {
        assert(recorded);
    }
    None
}

fn policy_prefix_string() -> (r: String)
    ensures
        r@ == spec_policy_prefix(),
{
    let mut s = String::new();
    s.append("blocked by security policy: ");
    proof {
        assert(s@ =~= "blocked by security policy: "@);
    }
    s
}

/// Every message the security gates can produce carries the policy marker,
/// so a refused job is recognized as non-retryable.
pub proof fn lemma_precheck_msg_is_policy_block(sec: SecurityPolicy, cmd: Seq<char>, now: u64)
    ensures
        match spec_precheck_msg(sec, cmd, now) {
            Some(m) => spec_is_policy_block(m),
            None => true,
        },
{
    if spec_precheck_msg(sec, cmd, now) is Some {
        let m = spec_precheck_msg(sec, cmd, now)->Some_0;
        let p = spec_policy_prefix();
        assert(m.subrange(0, p.len() as int) =~= p);
    }
}

/// Retry loop state: the attempt counter and the next backoff delay.
#[derive(Debug, Clone, Copy, PartialEq, Eq, Structural)]
pub struct RetryState {
    pub attempt: u32,
    pub backoff_ms: u64,
}

impl RetryState {
    /// The backoff stays between the floor and the cap.
    pub open spec fn wf(&self) -> bool {
        200 <= self.backoff_ms <= 30000
    }
}

/// What the retry loop does after one execution attempt.
#[derive(Debug, Clone, Copy, PartialEq, Eq, Structural)]
pub enum RetryAction {
    /// Keep the outcome; run no further attempt.
    Finish,
    /// Sleep for the given delay, then run the next attempt.
    SleepThenRetry { delay_ms: u64 },
}

/// Initial retry state: the configured provider backoff, floored at
/// 200 ms and capped at 30 s.
pub fn retry_init(provider_backoff_ms: u64) -> (r: RetryState)
    ensures
        r.wf(),
        r.attempt == 0,
        provider_backoff_ms <= 200 ==> r.backoff_ms == 200,
        200 < provider_backoff_ms <= 30000 ==> r.backoff_ms == provider_backoff_ms,
        provider_backoff_ms > 30000 ==> r.backoff_ms == 30000,
{
    let base = if provider_backoff_ms < 200 {
        200
    } else if provider_backoff_ms > 30000 {
        30000
    } else {
        provider_backoff_ms
    };
    RetryState { attempt: 0, backoff_ms: base }
}

/// Decides what to do after one attempt. A success finishes. A policy
/// violation finishes immediately, whatever the attempt count: it is
/// never retried. Any other failure is retried while attempts remain,
/// with the backoff doubled (capped at 30 s) and the caller's jitter
/// added to the delay.
pub fn retry_next(
    state: RetryState,
    retries: u32,
    success: bool,
    output: &str,
    jitter_ms: u64,
) -> (r: (RetryAction, RetryState))
    requires
        state.wf(),
        jitter_ms < 250,
    ensures
        r.1.wf(),
        success ==> r.0 == RetryAction::Finish,
        spec_is_policy_block(output@) ==> r.0 == RetryAction::Finish,
        !success && !spec_is_policy_block(output@) && state.attempt < retries ==> r.0
            == (RetryAction::SleepThenRetry { delay_ms: (state.backoff_ms + jitter_ms) as u64 })
            && r.1.attempt == state.attempt + 1 && r.1.backoff_ms == if 2 * state.backoff_ms
            <= 30000 {
            2 * state.backoff_ms
        } else {
            30000int
        },
        !success && !spec_is_policy_block(output@) && state.attempt >= retries ==> r.0
            == RetryAction::Finish,
{
    if success {
        return (RetryAction::Finish, state);
    }
    let out_chars = str_chars(output);
    if starts_with_chars(&out_chars, "blocked by security policy: ") {
        return (RetryAction::Finish, state);
    }
    if state.attempt < retries {
        let delay = state.backoff_ms + jitter_ms;
        let doubled = if state.backoff_ms > 15000 {
            30000
        } else {
            state.backoff_ms * 2
        };
        (
            RetryAction::SleepThenRetry { delay_ms: delay },
            RetryState { attempt: state.attempt + 1, backoff_ms: doubled },
        )
    } else {
        (RetryAction::Finish, state)
    }
}

} // verus!
