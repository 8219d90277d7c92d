//! Policy- and budget-gated execution core for an always-on agent runtime.
//!
//! The library holds the verified logic of the runtime: the bounded
//! deduplication set, the declarative policy engine, the security policy,
//! the job scheduler's decision rules, the job store with its on-disk
//! codec, and the ingest rules for the email channel. Network and file
//! I/O live outside the library and hand it plain values.

use vstd::prelude::*;

mod assoc;
pub mod chars;
pub mod clock;
pub mod cmdline;
pub mod config;
pub mod cost;
pub mod cron;
pub mod doctor;
pub mod email;
pub mod errors;
pub mod provider;
pub mod policy;
pub mod sched;
pub mod security;
pub mod seen;
pub mod store;
pub mod strutil;
pub mod timeparse;
pub mod tools;

pub use policy::{
    ChannelPolicy, PolicyAction, PolicyConfig, PolicyDecision, PolicyEngine, PolicySummary,
    ToolPolicy, lemma_evaluate_repeatable,
};
pub use sched::{
    RetryAction, RetryState, forbidden_path_argument, lemma_precheck_msg_is_policy_block,
    precheck_job_at, retry_init, retry_next,
};
pub use security::{
    AutonomyLevel, CommandRisk, SecurityPolicy, lemma_budget_exhausted_stays,
};
pub use seen::BoundedSeenSet;
pub use seen::lemma_seen_set_bounded;
pub use store::{CronJob, JobStatus, JobStore, JobType, lemma_reschedule_monotonic};

verus! {

} // verus!
