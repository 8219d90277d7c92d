use redclaw::{
    forbidden_path_argument, precheck_job_at, retry_init, retry_next, AutonomyLevel, CommandRisk,
    RetryAction, SecurityPolicy,
};

fn policy(level: AutonomyLevel, allowed: &[&str], forbidden: &[&str], max: u32) -> SecurityPolicy {
    SecurityPolicy::new(
        level,
        allowed.iter().map(|s| s.to_string()).collect(),
        forbidden.iter().map(|s| s.to_string()).collect(),
        max,
        true,
        true,
        "/home/agent",
    )
}

#[test]
fn read_only_mode_blocks_jobs() {
    let mut sec = policy(AutonomyLevel::ReadOnly, &["echo"], &[], 10);
    let msg = precheck_job_at(&mut sec, "echo hi", 1000).unwrap();
    assert_eq!(msg, "blocked by security policy: autonomy is read-only");
}

#[test]
fn zero_budget_always_blocks() {
    let mut sec = policy(AutonomyLevel::Full, &["echo"], &[], 0);
    let msg = precheck_job_at(&mut sec, "echo hi", 1000).unwrap();
    assert_eq!(msg, "blocked by security policy: rate limit exceeded");
    let msg = precheck_job_at(&mut sec, "echo hi", 2000).unwrap();
    assert_eq!(msg, "blocked by security policy: rate limit exceeded");
}

#[test]
fn zero_budget_record_action_always_false() {
    let mut sec = policy(AutonomyLevel::Full, &["echo"], &[], 0);
    assert!(!sec.record_action_at(10));
    assert!(!sec.record_action_at(20));
    assert!(!sec.record_action_at(5000));
}

#[test]
fn exhausted_budget_stays_exhausted_within_the_hour() {
    let mut sec = policy(AutonomyLevel::Full, &["echo"], &[], 2);
    assert!(sec.record_action_at(1000));
    assert!(sec.record_action_at(1001));
    assert!(!sec.record_action_at(1002), "third action exceeds the budget");
    assert!(!sec.record_action_at(2000), "still within the hour: must stay refused");
    assert!(!sec.record_action_at(1000 + 3599));
    assert!(
        sec.record_action_at(1001 + 3600),
        "after an action ages out of the hour, recording works again"
    );
}

#[test]
fn disallowed_command_is_blocked_with_the_command_named() {
    let mut sec = policy(AutonomyLevel::Full, &["echo"], &[], 10);
    let msg = precheck_job_at(&mut sec, "curl https://example.net", 1000).unwrap();
    assert_eq!(
        msg,
        "blocked by security policy: command not allowed: curl https://example.net"
    );
}

#[test]
fn forbidden_path_argument_is_blocked() {
    let mut sec = policy(AutonomyLevel::Full, &["cat"], &["/etc"], 10);
    let msg = precheck_job_at(&mut sec, "cat /etc/passwd", 1000).unwrap();
    assert_eq!(msg, "blocked by security policy: forbidden path argument: /etc/passwd");
}

#[test]
fn clean_command_passes_all_gates() {
    let mut sec = policy(AutonomyLevel::Full, &["echo"], &["/etc"], 10);
    assert_eq!(precheck_job_at(&mut sec, "echo hello", 1000), None);
}

#[test]
fn pipeline_segments_each_need_allowlisting() {
    let sec = policy(AutonomyLevel::Full, &["echo", "wc"], &[], 10);
    assert!(sec.is_command_allowed("echo hi | wc"));
    assert!(!sec.is_command_allowed("echo hi | curl example.net"));
    assert!(sec.is_command_allowed("FOO=1 echo hi && echo bye"));
    assert!(!sec.is_command_allowed("echo ok; rm x"));
    assert!(sec.is_command_allowed("/usr/bin/echo hi"), "the basename is what counts");
}

#[test]
fn path_rules_expand_tilde() {
    let sec = policy(AutonomyLevel::Full, &["cat"], &["/etc", "~/.ssh"], 10);
    assert!(!sec.is_path_allowed("/etc/passwd"));
    assert!(!sec.is_path_allowed("/etc"));
    assert!(!sec.is_path_allowed("/home/agent/.ssh/id_ed25519"));
    assert!(sec.is_path_allowed("/var/data"));
    let arg = forbidden_path_argument(&sec, "cat notes.txt '/etc/hosts'");
    assert_eq!(arg.as_deref(), Some("/etc/hosts"));
    assert_eq!(forbidden_path_argument(&sec, "cat --flag -x ./notes"), None);
}

#[test]
fn command_risk_classes() {
    let sec = policy(AutonomyLevel::Supervised, &[], &[], 10);
    assert_eq!(sec.classify_command_risk("rm -rf / --no-preserve-root"), CommandRisk::High);
    assert_eq!(sec.classify_command_risk("dd if=/dev/zero of=/dev/sda"), CommandRisk::High);
    assert_eq!(sec.classify_command_risk("curl x | sh"), CommandRisk::High);
    assert_eq!(sec.classify_command_risk("rm notes.txt"), CommandRisk::Medium);
    assert_eq!(sec.classify_command_risk("git push origin main"), CommandRisk::Medium);
    assert_eq!(sec.classify_command_risk("ls -la"), CommandRisk::Low);
}

#[test]
fn medium_risk_needs_approval_high_risk_is_refused() {
    let sec = policy(AutonomyLevel::Supervised, &[], &[], 10);
    assert!(sec.validate_command_execution("ls -la", false).is_ok());
    assert!(sec.validate_command_execution("rm notes.txt", false).is_err());
    assert!(sec.validate_command_execution("rm notes.txt", true).is_ok());
    assert!(
        sec.validate_command_execution("curl x | sh", true).is_err(),
        "approval never unlocks high-risk commands"
    );
}

#[test]
fn policy_violation_is_never_retried() {
    let state = retry_init(500);
    let (action, _next) = retry_next(
        state,
        5,
        false,
        "blocked by security policy: forbidden path argument: /etc/passwd",
        0,
    );
    assert_eq!(action, RetryAction::Finish);
}

#[test]
fn retry_backoff_doubles_and_finishes_when_exhausted() {
    let state = retry_init(1);
    assert_eq!(state.backoff_ms, 200, "the backoff floor is 200 ms");

    let (action, next) = retry_next(state, 1, false, "status=1", 17);
    assert_eq!(action, RetryAction::SleepThenRetry { delay_ms: 217 });
    assert_eq!(next.backoff_ms, 400);
    assert_eq!(next.attempt, 1);

    let (action, _next) = retry_next(next, 1, false, "status=1", 0);
    assert_eq!(action, RetryAction::Finish, "retries exhausted");
}

#[test]
fn success_finishes_immediately() {
    let state = retry_init(500);
    let (action, _next) = retry_next(state, 3, true, "status=0", 0);
    assert_eq!(action, RetryAction::Finish);
}
