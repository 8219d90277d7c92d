//! The shared gate in front of every schedule-mutating tool.
//!
//! Adding, updating, running or removing a job first passes the
//! autonomy level and the hourly action budget; the refusal messages
//! name the action.

use vstd::prelude::*;
use vstd::string::StringExecFns;

use crate::clock::now_secs;
use crate::security::{recent_actions, AutonomyLevel, SecurityPolicy};

verus! {

/// The refusal a mutation gets at time `now`, or nothing when it may
/// proceed.
pub open spec fn spec_mutation_refusal(
    sec: SecurityPolicy,
    action: Seq<char>,
    now: u64,
) -> Option<Seq<char>> {
    if sec.level() == AutonomyLevel::ReadOnly {
        Some("Security policy: read-only mode, cannot perform '"@ + action + "'"@)
    } else if recent_actions(sec.actions(), now).len() >= sec.max_per_hour() {
        Some("Rate limit exceeded: too many actions in the last hour"@)
    } else {
        None
    }
}

/// Runs the mutation gate at time `now`. On `None` the action passed
/// and was recorded against the hourly budget; on `Some` the message
/// says why it was refused and nothing was recorded.
pub fn enforce_mutation_allowed_at(
    security: &mut SecurityPolicy,
    action: &str,
    now: u64,
) -> (r: Option<String>)
    ensures
        r.deep_view() == spec_mutation_refusal(*old(security), action@, now),
        final(security).level() == old(security).level(),
        final(security).allowed() == old(security).allowed(),
        final(security).forbidden() == old(security).forbidden(),
        final(security).max_per_hour() == old(security).max_per_hour(),
        r is None ==> final(security).actions() == recent_actions(
            old(security).actions(),
            now,
        ).push(now),
        r is Some ==> final(security).actions() == old(security).actions()
            || final(security).actions() == recent_actions(old(security).actions(), now),
{
    if !security.can_act() {
        let mut m = String::new();
        m.append("Security policy: read-only mode, cannot perform '");
        m.append(action);
        m.append("'");
        proof {
            assert(m@ =~= "Security policy: read-only mode, cannot perform '"@ + action@ + "'"@);
        }
        return Some(m);
    }
    if security.is_rate_limited_at(now) {
        let mut m = String::new();
        m.append("Rate limit exceeded: too many actions in the last hour");
        proof {
            assert(m@ =~= "Rate limit exceeded: too many actions in the last hour"@);
        }
        return Some(m);
    }
    let recorded = security.record_action_at(now);
    proof {
        assert(recorded);
    }
    None
}

/// Runs the mutation gate at the current wall clock.
pub fn enforce_mutation_allowed(security: &mut SecurityPolicy, action: &str) -> (r: Option<
    String,
>)
    ensures
        final(security).level() == old(security).level(),
        final(security).allowed() == old(security).allowed(),
        final(security).forbidden() == old(security).forbidden(),
        final(security).max_per_hour() == old(security).max_per_hour(),
        exists|now: u64| r.deep_view() == spec_mutation_refusal(*old(security), action@, now),
{
    let now = now_secs();
    let r = enforce_mutation_allowed_at(security, action, now);
    proof {
        assert(r.deep_view() == spec_mutation_refusal(*old(security), action@, now));
    }
    r
}

} // verus!
