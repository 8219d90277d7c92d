use redclaw::store::{initial_next_run, next_run_of_expr};
use redclaw::{CronJob, JobStore};

fn plain_job(id: &str, expression: &str, next_run: u64) -> CronJob {
    CronJob {
        id: id.to_string(),
        expression: expression.to_string(),
        command: "echo hi".to_string(),
        next_run,
        last_run: None,
        last_status: None,
        paused: false,
        one_shot: false,
    }
}

#[test]
fn upsert_then_list_finds_the_job() {
    let mut store = JobStore::new();
    let job = plain_job("j1", "every_ms:1000", 50);
    store.upsert(job.clone());
    let listed = store.list();
    let found = listed.iter().find(|j| j.id == "j1").expect("job must be listed");
    assert_eq!(found.expression, job.expression);
    assert_eq!(found.command, job.command);
    assert_eq!(found.next_run, job.next_run);
    let got = store.get("j1").expect("job must be found");
    assert_eq!(got.id, "j1");
}

#[test]
fn save_twice_without_mutation_is_byte_identical() {
    let mut store = JobStore::new();
    store.upsert(plain_job("a", "* * * * *", 120));
    store.upsert(plain_job("b", "every_ms:2500", 99));
    let first = store.save_bytes();
    let second = store.save_bytes();
    assert_eq!(first, second, "two saves with no mutation must be byte-identical");
}

#[test]
fn serialized_store_loads_back() {
    let mut store = JobStore::new();
    let mut job = plain_job("a", "* * * * *", 120);
    job.command = "echo \"multi\nline\ttabs\" done".to_string();
    store.upsert(job);
    store
        .reschedule_after_run("a", false, "status=1\nstdout:\n\nstderr:\nboom", 1000)
        .unwrap();
    let bytes = store.save_bytes();
    let loaded = JobStore::load_bytes(&bytes).expect("serialized store must load");
    assert_eq!(loaded.save_bytes(), bytes);
    let job = loaded.get("a").unwrap();
    assert_eq!(job.command, "echo \"multi\nline\ttabs\" done");
    assert_eq!(job.last_run, Some(1000));
    let status = job.last_status.unwrap();
    assert!(!status.ok);
    assert!(status.output.contains("boom"));
}

#[test]
fn reschedule_advances_next_run_strictly() {
    let mut store = JobStore::new();
    store.upsert(plain_job("j1", "every_ms:5000", 100));
    store.reschedule_after_run("j1", true, "status=0", 1000).unwrap();
    let job = store.get("j1").unwrap();
    assert_eq!(job.next_run, 1005, "5 s past the run time");
    assert!(job.next_run > 100);
    assert_eq!(job.last_run, Some(1000));
    assert!(job.last_status.unwrap().ok);

    store.reschedule_after_run("j1", false, "status=1", 900).unwrap();
    let job = store.get("j1").unwrap();
    assert!(job.next_run > 1005, "next_run advances even when the clock lags");
}

#[test]
fn one_shot_success_removes_the_job() {
    let mut store = JobStore::new();
    store.add_job("once1".to_string(), "once:10s", "echo hi", 1000, 16).unwrap();
    assert_eq!(store.get("once1").unwrap().next_run, 1010);
    assert!(store.get("once1").unwrap().one_shot);
    store.reschedule_after_run("once1", true, "status=0", 1010).unwrap();
    assert!(store.get("once1").is_none(), "a one-shot job is removed after success");
}

#[test]
fn one_shot_failure_keeps_the_job() {
    let mut store = JobStore::new();
    store.add_job("once1".to_string(), "once:10s", "echo hi", 1000, 16).unwrap();
    store.reschedule_after_run("once1", false, "status=1", 1010).unwrap();
    let job = store.get("once1").expect("a failed one-shot stays");
    assert!(!job.last_status.unwrap().ok);
    assert!(job.next_run > 1010);
}

#[test]
fn add_job_rejects_duplicates_and_bad_expressions() {
    let mut store = JobStore::new();
    store.add_job("j".to_string(), "every_ms:1000", "echo", 0, 4).unwrap();
    let err = store.add_job("j".to_string(), "every_ms:1000", "echo", 0, 4).unwrap_err();
    assert_eq!(err, "a job with this id already exists");
    let err = store.add_job("k".to_string(), "nonsense", "echo", 0, 4).unwrap_err();
    assert_eq!(err, "invalid schedule expression");
    let err = store.add_job("k".to_string(), "every_ms:1000", "echo", 0, 1).unwrap_err();
    assert_eq!(err, "scheduler task limit reached");
}

#[test]
fn update_job_replaces_expression_and_command() {
    let mut store = JobStore::new();
    store.add_job("j".to_string(), "every_ms:1000", "echo a", 0, 4).unwrap();
    store.update_job("j", Some("every_ms:60000"), Some("echo b"), 100).unwrap();
    let job = store.get("j").unwrap();
    assert_eq!(job.expression, "every_ms:60000");
    assert_eq!(job.command, "echo b");
    assert_eq!(job.next_run, 160);
    let err = store.update_job("missing", None, Some("x"), 100).unwrap_err();
    assert_eq!(err, "job not found");
}

#[test]
fn remove_unbinds_the_id() {
    let mut store = JobStore::new();
    store.upsert(plain_job("a", "every_ms:1000", 1));
    assert!(store.remove("a"));
    assert!(store.get("a").is_none());
    assert!(!store.remove("a"));
}

#[test]
fn due_jobs_filters_paused_and_future() {
    let mut store = JobStore::new();
    store.upsert(plain_job("past", "every_ms:1000", 10));
    store.upsert(plain_job("future", "every_ms:1000", 1000));
    let mut paused = plain_job("paused", "every_ms:1000", 10);
    paused.paused = true;
    store.upsert(paused);
    let due = store.due_jobs(100);
    let ids: Vec<&str> = due.iter().map(|j| j.id.as_str()).collect();
    assert_eq!(ids, vec!["past"]);
}

#[test]
fn expression_forms_compute_first_firing() {
    assert_eq!(initial_next_run("once:90s", 1000), Some(1090));
    assert_eq!(initial_next_run("once:2m", 1000), Some(1120));
    assert_eq!(initial_next_run("once:500ms", 1000), Some(1001), "sub-second delays round up");
    assert_eq!(initial_next_run("at:1970-01-02T00:00:00Z", 1000), Some(86400));
    assert_eq!(initial_next_run("at:2001-09-09T01:46:40Z", 1000), Some(1_000_000_000));
    assert_eq!(initial_next_run("every_ms:2500", 1000), Some(1002));
    assert_eq!(initial_next_run("* * * * *", 1000), Some(1020), "the next whole minute");
    assert_eq!(initial_next_run("0 0 * * *", 1000), Some(86400), "the next midnight");
    assert_eq!(initial_next_run("nonsense", 1000), None);
    assert_eq!(initial_next_run("at:not-a-time", 1000), None);
}

#[test]
fn cron_fields_restrict_firing_times() {
    assert_eq!(next_run_of_expr("30 14 * * *", 0), Some(14 * 3600 + 30 * 60));
    assert_eq!(next_run_of_expr("*/15 * * * *", 0), Some(15 * 60));
    assert_eq!(next_run_of_expr("0 0 1 1 *", 0), Some(31_536_000), "the next January 1");
    assert_eq!(next_run_of_expr("once:10s", 0), None, "one-shot forms never recur");
}

#[test]
fn malformed_store_bytes_are_refused() {
    assert!(JobStore::load_bytes("").is_some(), "empty bytes are an empty store");
    assert!(JobStore::load_bytes("x").is_none(), "bytes without a final newline are refused");
    assert!(JobStore::load_bytes("only\tthree\tfields\n").is_none());
    let mut store = JobStore::new();
    store.upsert(plain_job("a", "every_ms:1000", 7));
    let mut bytes = store.save_bytes();
    bytes.push_str("garbage line\n");
    assert!(JobStore::load_bytes(&bytes).is_none(), "a corrupt trailing line is refused");
}

#[test]
fn duplicate_ids_in_store_bytes_are_refused() {
    let mut store = JobStore::new();
    store.upsert(plain_job("a", "every_ms:1000", 7));
    let line = store.save_bytes();
    let doubled = format!("{line}{line}");
    assert!(JobStore::load_bytes(&doubled).is_none());
}
