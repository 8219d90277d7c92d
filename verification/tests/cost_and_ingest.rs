use redclaw::config::CostConfig;
use redclaw::cost::{CostRecord, CostTracker};
use redclaw::email::{idle_transition, IdleEvent, IdleStep};
use redclaw::security::SecurityPolicy;
use redclaw::tools::enforce_mutation_allowed_at;
use redclaw::AutonomyLevel;

fn record(ts: u64, micro: u64, session: &str) -> CostRecord {
    CostRecord {
        timestamp: ts,
        model: "llama3".to_string(),
        input_tokens: 100,
        output_tokens: 50,
        micro_usd: micro,
        session_id: session.to_string(),
        request_id: "r".to_string(),
    }
}

#[test]
fn disabled_tracking_passes_everything() {
    let mut cfg = CostConfig::default();
    cfg.enabled = false;
    let tracker = CostTracker::new(cfg, "s1".to_string());
    assert!(tracker.pre_check(u64::MAX, 0).is_ok());
}

#[test]
fn per_request_budget_refuses_dear_requests() {
    let mut cfg = CostConfig::default();
    cfg.per_request_budget_micro_usd = 1_000_000;
    let tracker = CostTracker::new(cfg, "s1".to_string());
    assert!(tracker.pre_check(1_000_000, 0).is_ok());
    let err = tracker.pre_check(1_000_001, 0).unwrap_err();
    assert_eq!(err, "per-request budget exceeded");
}

#[test]
fn daily_budget_counts_the_trailing_day() {
    let mut cfg = CostConfig::default();
    cfg.daily_budget_micro_usd = 5_000_000;
    let mut tracker = CostTracker::new(cfg, "s1".to_string());
    tracker.record(record(1_000, 3_000_000, "s1"));
    tracker.record(record(2_000, 1_000_000, "other"));
    assert_eq!(tracker.daily_spend(10_000), 4_000_000);
    assert!(tracker.pre_check(1_000_000, 10_000).is_ok());
    let err = tracker.pre_check(1_000_001, 10_000).unwrap_err();
    assert_eq!(err, "daily budget exceeded");
    let far_later = 2_000 + 86_400;
    assert_eq!(tracker.daily_spend(far_later), 0, "old records age out of the day");
    assert!(tracker.pre_check(5_000_000, far_later).is_ok());
}

#[test]
fn session_budget_counts_this_session_only() {
    let mut cfg = CostConfig::default();
    cfg.session_budget_micro_usd = 2_000_000;
    let mut tracker = CostTracker::new(cfg, "s1".to_string());
    tracker.record(record(1_000, 1_500_000, "s1"));
    tracker.record(record(1_000, 9_000_000, "other"));
    assert_eq!(tracker.session_spend(), 1_500_000);
    assert!(tracker.pre_check(500_000, 1_000).is_ok());
    let err = tracker.pre_check(500_001, 1_000).unwrap_err();
    assert_eq!(err, "session budget exceeded");
}

#[test]
fn without_auto_pause_budgets_do_not_refuse() {
    let mut cfg = CostConfig::default();
    cfg.auto_pause = false;
    cfg.per_request_budget_micro_usd = 1;
    let tracker = CostTracker::new(cfg, "s1".to_string());
    assert!(tracker.pre_check(1_000_000, 0).is_ok());
}

#[test]
fn legacy_daily_limit_applies_when_no_budget_set() {
    let mut cfg = CostConfig::default();
    cfg.daily_limit_micro_usd = 1_000_000;
    let mut tracker = CostTracker::new(cfg, "s1".to_string());
    tracker.record(record(0, 900_000, "s1"));
    let err = tracker.pre_check(200_000, 100).unwrap_err();
    assert_eq!(err, "daily budget exceeded");
}

#[test]
fn idle_rounds_keep_the_connection_and_reset_backoff() {
    assert_eq!(idle_transition(IdleEvent::NewMail, 8), (IdleStep::ProcessAndContinue, 1));
    assert_eq!(idle_transition(IdleEvent::Timeout, 1), (IdleStep::ProcessAndContinue, 1));
    assert_eq!(idle_transition(IdleEvent::Interrupted, 4).0, IdleStep::Exit);
}

#[test]
fn failed_sessions_reconnect_with_doubling_backoff() {
    let (step, next) = idle_transition(IdleEvent::Failed, 1);
    assert_eq!(step, IdleStep::ReconnectAfter { delay_secs: 1 });
    assert_eq!(next, 2);
    let (step, next) = idle_transition(IdleEvent::Failed, 40);
    assert_eq!(step, IdleStep::ReconnectAfter { delay_secs: 40 });
    assert_eq!(next, 60, "the backoff caps at one minute");
}

#[test]
fn mutation_gate_messages() {
    let mut sec = SecurityPolicy::new(
        AutonomyLevel::ReadOnly,
        vec![],
        vec![],
        10,
        true,
        true,
        "/home/agent",
    );
    let msg = enforce_mutation_allowed_at(&mut sec, "cron_add", 100).unwrap();
    assert_eq!(msg, "Security policy: read-only mode, cannot perform 'cron_add'");

    let mut sec = SecurityPolicy::new(
        AutonomyLevel::Full,
        vec![],
        vec![],
        1,
        true,
        true,
        "/home/agent",
    );
    assert_eq!(enforce_mutation_allowed_at(&mut sec, "cron_add", 100), None);
    let msg = enforce_mutation_allowed_at(&mut sec, "cron_remove", 101).unwrap();
    assert_eq!(msg, "Rate limit exceeded: too many actions in the last hour");
}
