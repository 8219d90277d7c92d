//! The job store: the persistent set of scheduled jobs.
//!
//! Jobs are kept in memory and serialized to one text line per job; the
//! file I/O around the bytes (temp file, fsync, atomic rename) lives
//! outside the library. Serialization is a function of the job list
//! alone, so saving an unchanged store yields byte-identical files.

use vstd::prelude::*;
use vstd::string::StringExecFns;

use crate::chars::{spec_starts_with, starts_with_chars, str_chars, string_of_chars, subrange_chars};
use crate::cron::{
    next_cron_after, parse_cron, spec_next_cron, spec_parse_cron, CronFields, SCHEDULE_HORIZON,
};
use crate::strutil::{push_char, spec_decimal, str_eq, u64_to_decimal};
use crate::timeparse::{
    parse_duration_ms, parse_rfc3339_utc, parse_u64_range, spec_all_digits, spec_duration_ms,
    spec_num_val, spec_rfc3339_utc,
};

verus! {

/// What a scheduled job runs: a shell command or an agent prompt.
#[derive(Debug, Clone, Copy, PartialEq, Eq, Structural)]
pub enum JobType {
    Shell,
    Agent,
}

impl JobType {
    /// The type's lowercase name.
    pub fn as_str(&self) -> (r: &'static str)
        ensures
            *self == JobType::Shell ==> r@ == "shell"@,
            *self == JobType::Agent ==> r@ == "agent"@,
    {
        match self {
            JobType::Shell => "shell",
            JobType::Agent => "agent",
        }
    }

    /// Parses a type name, trimmed and case-insensitive; anything else
    /// is refused with a message naming the input.
    pub fn parse(value: &str) -> (r: Result<JobType, String>)
        ensures
            crate::email::spec_trim_ws(crate::chars::spec_lower(value@)) == "shell"@ ==> r == Ok::<
                JobType,
                String,
            >(JobType::Shell),
            crate::email::spec_trim_ws(crate::chars::spec_lower(value@)) == "agent"@ ==> r == Ok::<
                JobType,
                String,
            >(JobType::Agent),
            crate::email::spec_trim_ws(crate::chars::spec_lower(value@)) != "shell"@
                && crate::email::spec_trim_ws(crate::chars::spec_lower(value@)) != "agent"@ ==> (
            r matches Err(m) && m@ == "Invalid job type '"@ + crate::email::spec_trim_ws(
                crate::chars::spec_lower(value@),
            ) + "'. Expected one of: 'shell', 'agent'"@),
    {
        proof {
            reveal_strlit("shell");
            reveal_strlit("agent");
        }
        let chars = str_chars(value);
        let lowered = crate::chars::lower_chars(&chars);
        let trimmed = crate::email::trim_ws(&lowered);
        let t = string_of_chars(&trimmed);
        proof {
            assert(t@ == crate::email::spec_trim_ws(crate::chars::spec_lower(value@)));
            assert("shell"@[0] == 's');
            assert("agent"@[0] == 'a');
            assert("shell"@ != "agent"@);
        }
        if str_eq(t.as_str(), "shell") {
            Ok(JobType::Shell)
        } else if str_eq(t.as_str(), "agent") {
            Ok(JobType::Agent)
        } else {
            let mut m = String::new();
            m.append("Invalid job type '");
            m.append(t.as_str());
            m.append("'. Expected one of: 'shell', 'agent'");
            proof {
                assert(m@ =~= "Invalid job type '"@ + t@
                    + "'. Expected one of: 'shell', 'agent'"@);
            }
            Err(m)
        }
    }
}

/// Outcome of a job's last run: whether it succeeded and the tail of its
/// output.
#[derive(Debug)]
pub struct JobStatus {
    pub ok: bool,
    pub output: String,
}

impl Clone for JobStatus {
    fn clone(&self) -> (r: Self)
        ensures
            r == *self,
    {
        JobStatus { ok: self.ok, output: self.output.clone() }
    }
}

/// A scheduled job. Times are seconds since the Unix epoch.
#[derive(Debug)]
pub struct CronJob {
    pub id: String,
    pub expression: String,
    pub command: String,
    pub next_run: u64,
    pub last_run: Option<u64>,
    pub last_status: Option<JobStatus>,
    pub paused: bool,
    pub one_shot: bool,
}

impl Clone for CronJob {
    fn clone(&self) -> (r: Self)
        ensures
            r == *self,
    {
        CronJob {
            id: self.id.clone(),
            expression: self.expression.clone(),
            command: self.command.clone(),
            next_run: self.next_run,
            last_run: self.last_run,
            last_status: match &self.last_status {
                Some(st) => Some(st.clone()),
                None => None,
            },
            paused: self.paused,
            one_shot: self.one_shot,
        }
    }
}

/// How many characters of a run's output are kept as its tail.
pub const OUTPUT_TAIL_CHARS: usize = 4096;

/// A one-shot expression fires once and is never rescheduled.
pub open spec fn spec_is_one_shot(expr: Seq<char>) -> bool {
    spec_starts_with(expr, "once:"@) || spec_starts_with(expr, "at:"@)
}

/// The next recurrence of an expression after `now`: nothing for
/// one-shot forms, a fixed stride for `every_ms:<n>` (at seconds
/// resolution, at least one second ahead), and the next admitted minute
/// for a cron pattern.
pub open spec fn spec_next_run_of_expr(expr: Seq<char>, now: nat) -> Option<u64> {
    if spec_is_one_shot(expr) {
        None
    } else if spec_starts_with(expr, "every_ms:"@) {
        let rest = expr.skip("every_ms:"@.len() as int);
        if spec_all_digits(rest) && spec_num_val(rest) <= u64::MAX && now < SCHEDULE_HORIZON {
            let step = if spec_num_val(rest) / 1000 >= 1 {
                spec_num_val(rest) / 1000
            } else {
                1nat
            };
            Some((now + step) as u64)
        } else {
            None
        }
    } else {
        match spec_parse_cron(expr) {
            Some(m) => spec_next_cron(m, now),
            None => None,
        }
    }
}

/// The first firing time of a freshly added expression: `once:<d>` after
/// the duration, `at:<t>` at the given instant (if before the horizon),
/// and recurring forms at their next recurrence.
pub open spec fn spec_initial_next_run(expr: Seq<char>, now: nat) -> Option<u64> {
    if spec_starts_with(expr, "once:"@) {
        let rest = expr.skip("once:"@.len() as int);
        match crate::timeparse::spec_duration_ms(rest) {
            Some(ms) => if now < SCHEDULE_HORIZON {
                Some((now + if ms / 1000 >= 1 { (ms / 1000) as nat } else { 1nat }) as u64)
            } else {
                None
            },
            None => None,
        }
    } else if spec_starts_with(expr, "at:"@) {
        let rest = expr.skip("at:"@.len() as int);
        match spec_rfc3339_utc(rest) {
            Some(t) => if t < SCHEDULE_HORIZON {
                Some(t)
            } else {
                None
            },
            None => None,
        }
    } else {
        spec_next_run_of_expr(expr, now)
    }
}

/// Computes the next recurrence of an expression after `now`.
pub fn next_run_of_expr(expr: &str, now: u64) -> (r: Option<u64>)
    requires
        now < SCHEDULE_HORIZON,
    ensures
        r == spec_next_run_of_expr(expr@, now as nat),
{
    let chars = str_chars(expr);
    if starts_with_chars(&chars, "once:") || starts_with_chars(&chars, "at:") {
        return None;
    }
    if starts_with_chars(&chars, "every_ms:") {
        proof {
            reveal_strlit("every_ms:");
        }
        let rest_from: usize = 9;
        proof {
            assert("every_ms:"@.len() == 9);
            assert(chars@.subrange(9, chars@.len() as int) =~= chars@.skip(9));
        }
        match parse_u64_range(&chars, rest_from, chars.len()) {
            Some(n) => {
                let step = if n / 1000 >= 1 {
                    n / 1000
                } else {
                    1
                };
                return Some(now + step);
            },
            None => {
                return None;
            },
        }
    }
    match parse_cron(expr) {
        Some(f) => next_cron_after(&f, now),
        None => None,
    }
}

/// Computes the first firing time of a freshly added expression.
pub fn initial_next_run(expr: &str, now: u64) -> (r: Option<u64>)
    requires
        now < SCHEDULE_HORIZON,
    ensures
        r == spec_initial_next_run(expr@, now as nat),
{
    let chars = str_chars(expr);
    if starts_with_chars(&chars, "once:") {
        proof {
            reveal_strlit("once:");
            assert("once:"@.len() == 5);
        }
        let rest = subrange_chars(&chars, 5, chars.len());
        proof {
            assert(rest@ =~= chars@.skip(5));
        }
        match parse_duration_ms(&rest) {
            Some(ms) => {
                let step = if ms / 1000 >= 1 {
                    ms / 1000
                } else {
                    1
                };
                return Some(now + step);
            },
            None => {
                return None;
            },
        }
    }
    if starts_with_chars(&chars, "at:") {
        proof {
            reveal_strlit("at:");
            assert("at:"@.len() == 3);
        }
        let rest = subrange_chars(&chars, 3, chars.len());
        proof {
            assert(rest@ =~= chars@.skip(3));
        }
        match parse_rfc3339_utc(&rest) {
            Some(t) => {
                if t < SCHEDULE_HORIZON {
                    return Some(t);
                } else {
                    return None;
                }
            },
            None => {
                return None;
            },
        }
    }
    next_run_of_expr(expr, now)
}

/// First job with the given id.
pub open spec fn spec_find_job(jobs: Seq<CronJob>, id: Seq<char>) -> Option<CronJob>
    decreases jobs.len(),
{
    if jobs.len() == 0 {
        None
    } else if jobs[0].id@ == id {
        Some(jobs[0])
    } else {
        spec_find_job(jobs.drop_first(), id)
    }
}

proof fn lemma_find_skip(jobs: Seq<CronJob>, id: Seq<char>, i: int)
    requires
        0 <= i <= jobs.len(),
        forall|j: int| 0 <= j < i ==> jobs[j].id@ != id,
    ensures
        spec_find_job(jobs, id) == spec_find_job(jobs.skip(i), id),
    decreases i,
{
    if i == 0 {
        assert(jobs.skip(0) =~= jobs);
    } else {
        assert(jobs.drop_first() =~= jobs.skip(1));
        lemma_find_skip(jobs.drop_first(), id, i - 1);
        assert(jobs.drop_first().skip(i - 1) =~= jobs.skip(i));
    }
}

proof fn lemma_find_none_absent(jobs: Seq<CronJob>, id: Seq<char>)
    requires
        spec_find_job(jobs, id) is None,
    ensures
        forall|j: int| 0 <= j < jobs.len() ==> jobs[j].id@ != id,
    decreases jobs.len(),
{
    if jobs.len() > 0 {
        lemma_find_none_absent(jobs.drop_first(), id);
        assert forall|j: int| 0 <= j < jobs.len() implies jobs[j].id@ != id by {
            if j > 0 {
                assert(jobs.drop_first()[j - 1] == jobs[j]);
            }
        }
    }
}

proof fn lemma_find_update_same(jobs: Seq<CronJob>, i: int, j2: CronJob, id: Seq<char>)
    requires
        0 <= i < jobs.len(),
        jobs[i].id@ == id,
        j2.id@ == id,
        forall|j: int| 0 <= j < i ==> jobs[j].id@ != id,
    ensures
        spec_find_job(jobs.update(i, j2), id) == Some(j2),
    decreases i,
{
    let s2 = jobs.update(i, j2);
    if i == 0 {
        assert(s2[0] == j2);
    } else {
        assert(s2[0] == jobs[0]);
        assert(s2.drop_first() =~= jobs.drop_first().update(i - 1, j2));
        assert(jobs.drop_first()[i - 1] == jobs[i]);
        lemma_find_update_same(jobs.drop_first(), i - 1, j2, id);
    }
}

proof fn lemma_find_update_other(jobs: Seq<CronJob>, i: int, j2: CronJob, other: Seq<char>)
    requires
        0 <= i < jobs.len(),
        jobs[i].id@ != other,
        j2.id@ != other,
    ensures
        spec_find_job(jobs.update(i, j2), other) == spec_find_job(jobs, other),
    decreases jobs.len(),
{
    let s2 = jobs.update(i, j2);
    if i == 0 {
        assert(s2[0] == j2);
        assert(s2.drop_first() =~= jobs.drop_first());
    } else {
        assert(s2[0] == jobs[0]);
        if jobs[0].id@ != other {
            assert(s2.drop_first() =~= jobs.drop_first().update(i - 1, j2));
            assert(jobs.drop_first()[i - 1] == jobs[i]);
            lemma_find_update_other(jobs.drop_first(), i - 1, j2, other);
        }
    }
}

proof fn lemma_find_push_found(jobs: Seq<CronJob>, job: CronJob)
    requires
        spec_find_job(jobs, job.id@) is None,
    ensures
        spec_find_job(jobs.push(job), job.id@) == Some(job),
    decreases jobs.len(),
{
    if jobs.len() == 0 {
        assert(jobs.push(job)[0] == job);
    } else {
        assert(jobs.push(job)[0] == jobs[0]);
        assert(jobs.push(job).drop_first() =~= jobs.drop_first().push(job));
        lemma_find_push_found(jobs.drop_first(), job);
    }
}

proof fn lemma_find_push_other(jobs: Seq<CronJob>, job: CronJob, other: Seq<char>)
    requires
        job.id@ != other,
    ensures
        spec_find_job(jobs.push(job), other) == spec_find_job(jobs, other),
    decreases jobs.len(),
{
    if jobs.len() == 0 {
        assert(jobs.push(job)[0] == job);
        assert(jobs.push(job).drop_first() =~= jobs);
        assert(spec_find_job(jobs.push(job), other) == spec_find_job(jobs, other));
    } else {
        assert(jobs.push(job)[0] == jobs[0]);
        assert(jobs.push(job).drop_first() =~= jobs.drop_first().push(job));
        lemma_find_push_other(jobs.drop_first(), job, other);
    }
}

proof fn lemma_find_remove_other(jobs: Seq<CronJob>, i: int, other: Seq<char>)
    requires
        0 <= i < jobs.len(),
        jobs[i].id@ != other,
    ensures
        spec_find_job(jobs.remove(i), other) == spec_find_job(jobs, other),
    decreases jobs.len(),
{
    let s2 = jobs.remove(i);
    if i == 0 {
        assert(s2 =~= jobs.drop_first());
    } else {
        assert(s2[0] == jobs[0]);
        if jobs[0].id@ != other {
            assert(s2.drop_first() =~= jobs.drop_first().remove(i - 1));
            assert(jobs.drop_first()[i - 1] == jobs[i]);
            lemma_find_remove_other(jobs.drop_first(), i - 1, other);
        }
    }
}

proof fn lemma_find_remove(jobs: Seq<CronJob>, i: int, id: Seq<char>)
    requires
        0 <= i < jobs.len(),
        jobs[i].id@ == id,
        forall|a: int, b: int| 0 <= a < b < jobs.len() ==> jobs[a].id@ != jobs[b].id@,
    ensures
        spec_find_job(jobs.remove(i), id) is None,
    decreases jobs.len(),
{
    let s2 = jobs.remove(i);
    if i == 0 {
        lemma_find_none_helper(jobs.drop_first(), id, jobs);
        assert(s2 =~= jobs.drop_first());
    } else {
        assert(s2[0] == jobs[0]);
        assert(s2.drop_first() =~= jobs.drop_first().remove(i - 1));
        assert(jobs.drop_first()[i - 1] == jobs[i]);
        assert forall|a: int, b: int|
            0 <= a < b < jobs.drop_first().len() implies jobs.drop_first()[a].id@
            != jobs.drop_first()[b].id@ by {
            assert(jobs.drop_first()[a] == jobs[a + 1]);
            assert(jobs.drop_first()[b] == jobs[b + 1]);
        }
        lemma_find_remove(jobs.drop_first(), i - 1, id);
        assert(jobs[0].id@ != id);
    }
}

/// In a list whose ids are all distinct from the id at the removed
/// head, the find misses.
proof fn lemma_find_none_helper(rest: Seq<CronJob>, id: Seq<char>, jobs: Seq<CronJob>)
    requires
        rest == jobs.drop_first(),
        jobs.len() > 0,
        jobs[0].id@ == id,
        forall|a: int, b: int| 0 <= a < b < jobs.len() ==> jobs[a].id@ != jobs[b].id@,
    ensures
        spec_find_job(rest, id) is None,
    decreases rest.len(),
{
    if rest.len() > 0 {
        assert(rest[0] == jobs[1]);
        assert(jobs[0].id@ != jobs[1].id@);
        lemma_find_none_helper2(rest, id);
    }
}

proof fn lemma_find_none_helper2(rest: Seq<CronJob>, id: Seq<char>)
    requires
        forall|a: int| 0 <= a < rest.len() ==> rest[a].id@ != id,
    ensures
        spec_find_job(rest, id) is None,
    decreases rest.len(),
{
    if rest.len() > 0 {
        assert forall|a: int| 0 <= a < rest.drop_first().len() implies rest.drop_first()[a].id@
            != id by {
            assert(rest.drop_first()[a] == rest[a + 1]);
        }
        lemma_find_none_helper2(rest.drop_first(), id);
    }
}

/// The durable set of scheduled jobs.
pub struct JobStore {
    jobs: Vec<CronJob>,
}

impl JobStore {
    pub closed spec fn jobs(&self) -> Seq<CronJob> {
        self.jobs@
    }

    /// Invariant: job ids are unique.
    pub open spec fn wf(&self) -> bool {
        forall|a: int, b: int|
            0 <= a < b < self.jobs().len() ==> self.jobs()[a].id@ != self.jobs()[b].id@
    }

    pub fn new() -> (r: Self)
        ensures
            r.wf(),
            r.jobs().len() == 0,
    {
        JobStore { jobs: Vec::new() }
    }

    pub fn len(&self) -> (r: usize)
        ensures
            r == self.jobs().len(),
    {
        self.jobs.len()
    }

    /// All jobs, in storage order.
    pub fn list(&self) -> (r: Vec<CronJob>)
        ensures
            r@ == self.jobs(),
    {
        let n = self.jobs.len();
        let mut out: Vec<CronJob> = Vec::new();
        let mut i: usize = 0;
        while i < n
            invariant
                n == self.jobs().len(),
                i <= n,
                out@ =~= self.jobs().take(i as int),
            decreases n - i,
        {
            out.push(self.jobs[i].clone());
            proof {
                assert(out@ =~= self.jobs().take(i + 1));
            }
            i = i + 1;
        }
        proof {
            assert(self.jobs().take(n as int) =~= self.jobs());
        }
        out
    }

    fn find_index(&self, id: &str) -> (r: Option<usize>)
        ensures
            match r {
                Some(i) => {
                    &&& i < self.jobs().len()
                    &&& self.jobs()[i as int].id@ == id@
                    &&& spec_find_job(self.jobs(), id@) == Some(self.jobs()[i as int])
                    &&& forall|j: int| 0 <= j < i ==> self.jobs()[j].id@ != id@
                },
                None => spec_find_job(self.jobs(), id@) is None,
            },
    {
        let n = self.jobs.len();
        let mut i: usize = 0;
        while i < n
            invariant
                n == self.jobs().len(),
                i <= n,
                forall|j: int| 0 <= j < i ==> self.jobs()[j].id@ != id@,
            decreases n - i,
        {
            if str_eq(self.jobs[i].id.as_str(), id) {
                proof {
                    lemma_find_skip(self.jobs(), id@, i as int);
                    assert(self.jobs().skip(i as int)[0] == self.jobs()[i as int]);
                }
                return Some(i);
            }
            i = i + 1;
        }
        proof {
            lemma_find_skip(self.jobs(), id@, n as int);
            assert(self.jobs().skip(n as int) =~= Seq::<CronJob>::empty());
        }
        None
    }

    /// The job with the given id, if any.
    pub fn get(&self, id: &str) -> (r: Option<CronJob>)
        ensures
            r == spec_find_job(self.jobs(), id@),
    {
        match self.find_index(id) {
            Some(i) => Some(self.jobs[i].clone()),
            None => None,
        }
    }

    /// Inserts or replaces the job with this id. Afterwards the id is
    /// bound to exactly this job; every other id keeps its binding.
    pub fn upsert(&mut self, job: CronJob)
        requires
            old(self).wf(),
        ensures
            final(self).wf(),
            spec_find_job(final(self).jobs(), job.id@) == Some(job),
            forall|other: Seq<char>|
                other != job.id@ ==> spec_find_job(final(self).jobs(), other) == spec_find_job(
                    old(self).jobs(),
                    other,
                ),
    {
        let ghost before = self.jobs@;
        let ghost jid = job.id@;
        match self.find_index(job.id.as_str()) {
            Some(i) => {
                self.jobs[i] = job;
                proof {
                    let j2 = self.jobs@[i as int];
                    assert(self.jobs@ =~= before.update(i as int, j2));
                    lemma_find_update_same(before, i as int, j2, jid);
                    assert forall|other: Seq<char>| other != jid implies spec_find_job(
                        self.jobs@,
                        other,
                    ) == spec_find_job(before, other) by {
                        lemma_find_update_other(before, i as int, j2, other);
                    }
                    assert forall|a: int, b: int|
                        0 <= a < b < self.jobs@.len() implies self.jobs@[a].id@
                        != self.jobs@[b].id@ by {
                        assert(old(self).jobs()[a].id@ != old(self).jobs()[b].id@);
                        assert(self.jobs@[a].id@ == before[a].id@);
                        assert(self.jobs@[b].id@ == before[b].id@);
                    }
                }
            },
            None => {
                proof {
                    lemma_find_none_absent(before, jid);
                }
                self.jobs.push(job);
                proof {
                    let pushed = self.jobs@.last();
                    assert(self.jobs@ =~= before.push(pushed));
                    lemma_find_push_found(before, pushed);
                    assert forall|other: Seq<char>| other != jid implies spec_find_job(
                        self.jobs@,
                        other,
                    ) == spec_find_job(before, other) by {
                        lemma_find_push_other(before, pushed, other);
                    }
                    assert forall|a: int, b: int|
                        0 <= a < b < self.jobs@.len() implies self.jobs@[a].id@
                        != self.jobs@[b].id@ by {
                        if b < before.len() {
                            assert(old(self).jobs()[a].id@ != old(self).jobs()[b].id@);
                            assert(self.jobs@[a] == before[a]);
                            assert(self.jobs@[b] == before[b]);
                        } else {
                            assert(self.jobs@[a] == before[a]);
                            assert(self.jobs@[b].id@ == jid);
                        }
                    }
                }
            },
        }
    }

    /// Removes the job with this id; reports whether one was there.
    /// Afterwards the id is unbound and every other id keeps its binding.
    pub fn remove(&mut self, id: &str) -> (r: bool)
        requires
            old(self).wf(),
        ensures
            final(self).wf(),
            spec_find_job(final(self).jobs(), id@) is None,
            r == (spec_find_job(old(self).jobs(), id@) is Some),
            !r ==> final(self).jobs() == old(self).jobs(),
            forall|other: Seq<char>|
                other != id@ ==> spec_find_job(final(self).jobs(), other) == spec_find_job(
                    old(self).jobs(),
                    other,
                ),
    {
        let ghost before = self.jobs@;
        match self.find_index(id) {
            Some(i) => {
                self.jobs.remove(i);
                proof {
                    assert(self.jobs@ =~= before.remove(i as int));
                    lemma_find_remove(before, i as int, id@);
                    assert forall|other: Seq<char>| other != id@ implies spec_find_job(
                        self.jobs@,
                        other,
                    ) == spec_find_job(before, other) by {
                        lemma_find_remove_other(before, i as int, other);
                    }
                    assert forall|a: int, b: int|
                        0 <= a < b < self.jobs@.len() implies self.jobs@[a].id@
                        != self.jobs@[b].id@ by {
                        let a0: int = if a < i {
                            a
                        } else {
                            a + 1
                        };
                        let b0: int = if b < i {
                            b
                        } else {
                            b + 1
                        };
                        assert(self.jobs@[a] == before[a0]);
                        assert(self.jobs@[b] == before[b0]);
                        assert(old(self).jobs()[a0].id@ != old(self).jobs()[b0].id@);
                    }
                }
                true
            },
            None => false,
        }
    }

    /// The jobs due at `now`: not paused and scheduled at or before `now`,
    /// in storage order.
    pub fn due_jobs(&self, now: u64) -> (r: Vec<CronJob>)
        ensures
            r@ == self.jobs().filter(|j: CronJob| !j.paused && j.next_run <= now),
    {
        let n = self.jobs.len();
        let mut out: Vec<CronJob> = Vec::new();
        let mut i: usize = 0;
        proof {
            assert(self.jobs().take(0).filter(|j: CronJob| !j.paused && j.next_run <= now)
                =~= Seq::<CronJob>::empty());
        }
        while i < n
            invariant
                n == self.jobs().len(),
                i <= n,
                out@ == self.jobs().take(i as int).filter(
                    |j: CronJob| !j.paused && j.next_run <= now,
                ),
            decreases n - i,
        {
            proof {
                assert(self.jobs().take(i + 1).drop_last() =~= self.jobs().take(i as int));
                assert(self.jobs().take(i + 1).last() == self.jobs()[i as int]);
                reveal_with_fuel(Seq::filter, 2);
            }
            if !self.jobs[i].paused && self.jobs[i].next_run <= now {
                out.push(self.jobs[i].clone());
            }
            i = i + 1;
        }
        proof {
            assert(self.jobs().take(n as int) =~= self.jobs());
        }
        out
    }

    /// Adds a fresh job. Refused when the task limit is reached, the id
    /// is taken, or the expression has no first firing time; otherwise
    /// the job is appended unpaused, with no history, one-shot exactly
    /// for `once:`/`at:` forms.
    pub fn add_job(
        &mut self,
        id: String,
        expression: &str,
        command: &str,
        now: u64,
        max_tasks: usize,
    ) -> (r: Result<(), String>)
        requires
            old(self).wf(),
            now < SCHEDULE_HORIZON,
        ensures
            final(self).wf(),
            old(self).jobs().len() >= max_tasks ==> (r matches Err(m) && m@
                == "scheduler task limit reached"@) && final(self).jobs() == old(self).jobs(),
            old(self).jobs().len() < max_tasks && spec_find_job(old(self).jobs(), id@) is Some ==> (
            r matches Err(m) && m@ == "a job with this id already exists"@) && final(self).jobs()
                == old(self).jobs(),
            old(self).jobs().len() < max_tasks && spec_find_job(old(self).jobs(), id@) is None
                && spec_initial_next_run(expression@, now as nat) is None ==> (r matches Err(m)
                && m@ == "invalid schedule expression"@) && final(self).jobs() == old(self).jobs(),
            old(self).jobs().len() < max_tasks && spec_find_job(old(self).jobs(), id@) is None
                && spec_initial_next_run(expression@, now as nat) is Some ==> ({
                &&& r is Ok
                &&& final(self).jobs().len() == old(self).jobs().len() + 1
                &&& (spec_find_job(final(self).jobs(), id@) matches Some(j) && j.id@ == id@
                    && j.expression@ == expression@ && j.command@ == command@ && j.next_run
                    == spec_initial_next_run(expression@, now as nat)->Some_0 && j.last_run is None
                    && j.last_status is None && !j.paused && j.one_shot == spec_is_one_shot(
                    expression@,
                ))
                &&& forall|other: Seq<char>|
                    other != id@ ==> spec_find_job(final(self).jobs(), other) == spec_find_job(
                        old(self).jobs(),
                        other,
                    )
            }),
    {
        if self.jobs.len() >= max_tasks {
            let mut m = String::new();
            m.append("scheduler task limit reached");
            proof {
                assert(m@ =~= "scheduler task limit reached"@);
            }
            return Err(m);
        }
        if let Some(_i) = self.find_index(id.as_str()) {
            let mut m = String::new();
            m.append("a job with this id already exists");
            proof {
                assert(m@ =~= "a job with this id already exists"@);
            }
            return Err(m);
        }
        let next = match initial_next_run(expression, now) {
            Some(t) => t,
            None => {
                let mut m = String::new();
                m.append("invalid schedule expression");
                proof {
                    assert(m@ =~= "invalid schedule expression"@);
                }
                return Err(m);
            },
        };
        let chars = str_chars(expression);
        let one_shot = starts_with_chars(&chars, "once:") || starts_with_chars(&chars, "at:");
        let job = CronJob {
            id,
            expression: expression.to_owned(),
            command: command.to_owned(),
            next_run: next,
            last_run: None,
            last_status: None,
            paused: false,
            one_shot,
        };
        let ghost before = self.jobs@;
        let ghost jid = job.id@;
        proof {
            lemma_find_none_absent(before, jid);
        }
        self.jobs.push(job);
        proof {
            let pushed = self.jobs@.last();
            assert(self.jobs@ =~= before.push(pushed));
            lemma_find_push_found(before, pushed);
            assert forall|other: Seq<char>| other != jid implies spec_find_job(self.jobs@, other)
                == spec_find_job(before, other) by {
                lemma_find_push_other(before, pushed, other);
            }
            assert forall|a: int, b: int|
                0 <= a < b < self.jobs@.len() implies self.jobs@[a].id@ != self.jobs@[b].id@ by {
                if b < before.len() {
                    assert(old(self).jobs()[a].id@ != old(self).jobs()[b].id@);
                    assert(self.jobs@[a] == before[a]);
                    assert(self.jobs@[b] == before[b]);
                } else {
                    assert(self.jobs@[a] == before[a]);
                    assert(self.jobs@[b].id@ == jid);
                }
            }
        }
        Ok(())
    }

    /// Updates a job's expression and/or command. A new expression must
    /// have a first firing time; it re-anchors `next_run` and the
    /// one-shot flag. Everything else about the job, and every other
    /// job, is unchanged.
    pub fn update_job(
        &mut self,
        id: &str,
        new_expression: Option<&str>,
        new_command: Option<&str>,
        now: u64,
    ) -> (r: Result<(), String>)
        requires
            old(self).wf(),
            now < SCHEDULE_HORIZON,
        ensures
            final(self).wf(),
            spec_find_job(old(self).jobs(), id@) is None ==> (r matches Err(m) && m@
                == "job not found"@) && final(self).jobs() == old(self).jobs(),
            spec_find_job(old(self).jobs(), id@) is Some && (new_expression matches Some(e)
                && spec_initial_next_run(e@, now as nat) is None) ==> (r matches Err(m) && m@
                == "invalid schedule expression"@) && final(self).jobs() == old(self).jobs(),
            (spec_find_job(old(self).jobs(), id@) matches Some(j) && (match new_expression {
                Some(e) => spec_initial_next_run(e@, now as nat) is Some,
                None => true,
            })) ==> r is Ok && (spec_find_job(final(self).jobs(), id@) matches Some(j2) && {
                let j = spec_find_job(old(self).jobs(), id@)->Some_0;
                &&& j2.id@ == id@
                &&& j2.expression@ == (match new_expression {
                    Some(e) => e@,
                    None => j.expression@,
                })
                &&& j2.command@ == (match new_command {
                    Some(c) => c@,
                    None => j.command@,
                })
                &&& j2.next_run == (match new_expression {
                    Some(e) => spec_initial_next_run(e@, now as nat)->Some_0,
                    None => j.next_run,
                })
                &&& j2.one_shot == (match new_expression {
                    Some(e) => spec_is_one_shot(e@),
                    None => j.one_shot,
                })
                &&& j2.last_run == j.last_run
                &&& j2.last_status == j.last_status
                &&& j2.paused == j.paused
            }) && (forall|other: Seq<char>|
                other != id@ ==> spec_find_job(final(self).jobs(), other) == spec_find_job(
                    old(self).jobs(),
                    other,
                )),
    {
        let i = match self.find_index(id) {
            Some(i) => i,
            None => {
                let mut m = String::new();
                m.append("job not found");
                proof {
                    assert(m@ =~= "job not found"@);
                }
                return Err(m);
            },
        };
        let old_job = self.jobs[i].clone();
        let (expression, next_run, one_shot) = match new_expression {
            Some(e) => {
                match initial_next_run(e, now) {
                    Some(t) => {
                        let chars = str_chars(e);
                        let os = starts_with_chars(&chars, "once:") || starts_with_chars(
                            &chars,
                            "at:",
                        );
                        (e.to_owned(), t, os)
                    },
                    None => {
                        let mut m = String::new();
                        m.append("invalid schedule expression");
                        proof {
                            assert(m@ =~= "invalid schedule expression"@);
                        }
                        return Err(m);
                    },
                }
            },
            None => (old_job.expression.clone(), old_job.next_run, old_job.one_shot),
        };
        let command = match new_command {
            Some(c) => c.to_owned(),
            None => old_job.command.clone(),
        };
        let updated = CronJob {
            id: old_job.id.clone(),
            expression,
            command,
            next_run,
            last_run: old_job.last_run,
            last_status: match &old_job.last_status {
                Some(st) => Some(st.clone()),
                None => None,
            },
            paused: old_job.paused,
            one_shot,
        };
        let ghost before = self.jobs@;
        self.jobs[i] = updated;
        proof {
            let j2 = self.jobs@[i as int];
            assert(self.jobs@ =~= before.update(i as int, j2));
            lemma_find_update_same(before, i as int, j2, id@);
            assert forall|other: Seq<char>| other != id@ implies spec_find_job(self.jobs@, other)
                == spec_find_job(before, other) by {
                lemma_find_update_other(before, i as int, j2, other);
            }
            assert forall|a: int, b: int|
                0 <= a < b < self.jobs@.len() implies self.jobs@[a].id@ != self.jobs@[b].id@ by {
                assert(old(self).jobs()[a].id@ != old(self).jobs()[b].id@);
                assert(self.jobs@[a].id@ == before[a].id@);
                assert(self.jobs@[b].id@ == before[b].id@);
            }
        }
        Ok(())
    }
}

/// The tail of a run's output that is kept in the job's status.
pub open spec fn spec_output_tail(s: Seq<char>) -> Seq<char> {
    if s.len() <= OUTPUT_TAIL_CHARS {
        s
    } else {
        s.skip(s.len() - OUTPUT_TAIL_CHARS)
    }
}

/// The strictly advanced next firing time after a run at `now`: the
/// expression's next recurrence when that lies past the old time, else
/// one second past the old time (saturating only at the top of `u64`).
pub open spec fn spec_new_next_run(j: CronJob, now: nat) -> u64 {
    let candidate = match spec_next_run_of_expr(j.expression@, now) {
        Some(t) => t,
        None => now as u64,
    };
    if candidate > j.next_run {
        candidate
    } else if j.next_run < u64::MAX {
        (j.next_run + 1) as u64
    } else {
        u64::MAX
    }
}

/// The advanced next firing time is strictly greater than the old one,
/// up to the top of the machine integer.
pub proof fn lemma_reschedule_monotonic(j: CronJob, now: nat)
    ensures
        j.next_run < u64::MAX ==> spec_new_next_run(j, now) > j.next_run,
{
}

impl JobStore {
    /// Records the outcome of a run. A one-shot job that succeeded is
    /// removed. Any other job survives with `last_run` set to `now`,
    /// `last_status` holding the outcome and the output tail, and
    /// `next_run` strictly advanced. Every other job keeps its binding.
    pub fn reschedule_after_run(
        &mut self,
        id: &str,
        success: bool,
        output: &str,
        now: u64,
    ) -> (r: Result<(), String>)
        requires
            old(self).wf(),
            now < SCHEDULE_HORIZON,
        ensures
            final(self).wf(),
            spec_find_job(old(self).jobs(), id@) is None ==> (r matches Err(m) && m@
                == "job not found"@) && final(self).jobs() == old(self).jobs(),
            (spec_find_job(old(self).jobs(), id@) matches Some(j) && j.one_shot && success) ==> r
                is Ok && spec_find_job(final(self).jobs(), id@) is None,
            (spec_find_job(old(self).jobs(), id@) matches Some(j) && !(j.one_shot && success))
                ==> r is Ok && (spec_find_job(final(self).jobs(), id@) matches Some(j2) && {
                let j = spec_find_job(old(self).jobs(), id@)->Some_0;
                &&& j2.id@ == j.id@
                &&& j2.expression@ == j.expression@
                &&& j2.command@ == j.command@
                &&& j2.paused == j.paused
                &&& j2.one_shot == j.one_shot
                &&& j2.last_run == Some(now)
                &&& (j2.last_status matches Some(st) && st.ok == success && st.output@
                    == spec_output_tail(output@))
                &&& j2.next_run == spec_new_next_run(j, now as nat)
            }),
            spec_find_job(old(self).jobs(), id@) is Some ==> forall|other: Seq<char>|
                other != id@ ==> spec_find_job(final(self).jobs(), other) == spec_find_job(
                    old(self).jobs(),
                    other,
                ),
    {
        let i = match self.find_index(id) {
            Some(i) => i,
            None => {
                let mut m = String::new();
                m.append("job not found");
                proof {
                    assert(m@ =~= "job not found"@);
                }
                return Err(m);
            },
        };
        let old_job = self.jobs[i].clone();
        if old_job.one_shot && success {
            self.remove(id);
            return Ok(());
        }
        let out_chars = str_chars(output);
        let tail_chars = if out_chars.len() <= OUTPUT_TAIL_CHARS {
            subrange_chars(&out_chars, 0, out_chars.len())
        } else {
            subrange_chars(&out_chars, out_chars.len() - OUTPUT_TAIL_CHARS, out_chars.len())
        };
        proof {
            assert(out_chars@.subrange(0, out_chars@.len() as int) =~= out_chars@);
        }
        let tail = string_of_chars(&tail_chars);
        let candidate = match next_run_of_expr(old_job.expression.as_str(), now) {
            Some(t) => t,
            None => now,
        };
        let next_run = if candidate > old_job.next_run {
            candidate
        } else if old_job.next_run < u64::MAX {
            old_job.next_run + 1
        } else {
            u64::MAX
        };
        let updated = CronJob {
            id: old_job.id.clone(),
            expression: old_job.expression.clone(),
            command: old_job.command.clone(),
            next_run,
            last_run: Some(now),
            last_status: Some(JobStatus { ok: success, output: tail }),
            paused: old_job.paused,
            one_shot: old_job.one_shot,
        };
        let ghost before = self.jobs@;
        self.jobs[i] = updated;
        proof {
            let j2 = self.jobs@[i as int];
            assert(self.jobs@ =~= before.update(i as int, j2));
            lemma_find_update_same(before, i as int, j2, id@);
            assert forall|other: Seq<char>| other != id@ implies spec_find_job(self.jobs@, other)
                == spec_find_job(before, other) by {
                lemma_find_update_other(before, i as int, j2, other);
            }
            assert forall|a: int, b: int|
                0 <= a < b < self.jobs@.len() implies self.jobs@[a].id@ != self.jobs@[b].id@ by {
                assert(old(self).jobs()[a].id@ != old(self).jobs()[b].id@);
                assert(self.jobs@[a].id@ == before[a].id@);
                assert(self.jobs@[b].id@ == before[b].id@);
            }
        }
        Ok(())
    }

    /// The serialized form of the whole store: one line per job. The
    /// bytes are a function of the job list alone.
    pub fn save_bytes(&self) -> (r: String)
        ensures
            r@ == spec_encode_jobs(self.jobs()),
    {
        let n = self.jobs.len();
        let mut out = String::new();
        let mut i: usize = 0;
        proof {
            assert(self.jobs().take(0) =~= Seq::<CronJob>::empty());
        }
        while i < n
            invariant
                n == self.jobs().len(),
                i <= n,
                out@ == spec_encode_jobs(self.jobs().take(i as int)),
            decreases n - i,
        {
            let line = encode_job(&self.jobs[i]);
            out.append(line.as_str());
            proof {
                assert(self.jobs().take(i + 1).drop_last() =~= self.jobs().take(i as int));
                assert(self.jobs().take(i + 1).last() == self.jobs()[i as int]);
            }
            i = i + 1;
        }
        proof {
            assert(self.jobs().take(n as int) =~= self.jobs());
        }
        out
    }

    /// Rebuilds a store from serialized bytes. It succeeds exactly when
    /// the bytes parse as job lines with pairwise distinct ids and
    /// re-serializing those jobs reproduces the input byte for byte; the
    /// result then holds exactly the parsed jobs.
    pub fn load_bytes(s: &str) -> (r: Option<JobStore>)
        ensures
            r is Some <==> (spec_parse_store(s@) matches Some(ms) && spec_models_ids_unique(ms)
                && spec_encode_models(ms) == s@),
            r matches Some(st) ==> st.wf() && spec_encode_jobs(st.jobs()) == s@ && Some(
                job_models(st.jobs()),
            ) == spec_parse_store(s@),
    {
        let jobs = match parse_store_text(s) {
            Some(v) => v,
            None => {
                return None;
            },
        };
        let unique = ids_unique(&jobs);
        proof {
            let ms = job_models(jobs@);
            assert(ms.len() == jobs@.len());
            if unique {
                assert forall|a: int, b: int| 0 <= a < b < ms.len() implies ms[a].id
                    != ms[b].id by {
                    assert(jobs@[a].id@ != jobs@[b].id@);
                    assert(ms[a] == job_model(jobs@[a]));
                    assert(ms[b] == job_model(jobs@[b]));
                }
            } else {
                assert(!spec_models_ids_unique(ms)) by {
                    if spec_models_ids_unique(ms) {
                        assert forall|a: int, b: int|
                            0 <= a < b < jobs@.len() implies jobs@[a].id@ != jobs@[b].id@ by {
                            assert(ms[a] == job_model(jobs@[a]));
                            assert(ms[b] == job_model(jobs@[b]));
                            assert(ms[a].id != ms[b].id);
                        }
                    }
                }
            }
        }
        if !unique {
            return None;
        }
        let candidate = JobStore { jobs };
        let re = candidate.save_bytes();
        proof {
            lemma_encode_models(candidate.jobs());
        }
        if str_eq(re.as_str(), s) {
            Some(candidate)
        } else {
            None
        }
    }
}

/// Serialized form of one character: backslash, tab and newline are
/// escaped so that fields stay within their line and column.
pub open spec fn spec_escape_char(c: char) -> Seq<char> {
    if c == '\\' {
        seq!['\\', '\\']
    } else if c == '\t' {
        seq!['\\', 't']
    } else if c == '\n' {
        seq!['\\', 'n']
    } else {
        seq![c]
    }
}

/// Serialized form of a field.
pub open spec fn spec_escape(s: Seq<char>) -> Seq<char>
    decreases s.len(),
{
    if s.len() == 0 {
        Seq::empty()
    } else {
        spec_escape(s.drop_last()) + spec_escape_char(s.last())
    }
}

fn escape_into(out: &mut String, s: &str)
    ensures
        final(out)@ == old(out)@ + spec_escape(s@),
{
    let chars = str_chars(s);
    let n = chars.len();
    let mut i: usize = 0;
    let ghost base = out@;
    proof {
        assert(chars@.take(0) =~= Seq::<char>::empty());
        assert(out@ =~= base + spec_escape(chars@.take(0)));
    }
    while i < n
        invariant
            n == chars@.len(),
            chars@ == s@,
            i <= n,
            out@ == base + spec_escape(chars@.take(i as int)),
        decreases n - i,
    {
        let c = chars[i];
        let ghost pre = out@;
        if c == '\\' {
            push_char(out, '\\');
            push_char(out, '\\');
        } else if c == '\t' {
            push_char(out, '\\');
            push_char(out, 't');
        } else if c == '\n' {
            push_char(out, '\\');
            push_char(out, 'n');
        } else {
            push_char(out, c);
        }
        proof {
            assert(chars@.take(i + 1).drop_last() =~= chars@.take(i as int));
            assert(chars@.take(i + 1).last() == chars@[i as int]);
            assert(out@ =~= pre + spec_escape_char(chars@[i as int]));
            assert(out@ =~= base + spec_escape(chars@.take(i + 1)));
        }
        i = i + 1;
    }
    proof {
        assert(chars@.take(n as int) =~= chars@);
    }
}

/// Mathematical form of one job: every field as a plain value.
pub struct JobModel {
    pub id: Seq<char>,
    pub expression: Seq<char>,
    pub command: Seq<char>,
    pub next_run: u64,
    pub last_run: Option<u64>,
    pub last_status: Option<(bool, Seq<char>)>,
    pub paused: bool,
    pub one_shot: bool,
}

/// The model of a job value.
pub open spec fn job_model(j: CronJob) -> JobModel {
    JobModel {
        id: j.id@,
        expression: j.expression@,
        command: j.command@,
        next_run: j.next_run,
        last_run: j.last_run,
        last_status: match j.last_status {
            Some(st) => Some((st.ok, st.output@)),
            None => None,
        },
        paused: j.paused,
        one_shot: j.one_shot,
    }
}

/// The models of a job list, in order.
pub open spec fn job_models(jobs: Seq<CronJob>) -> Seq<JobModel> {
    jobs.map_values(|j: CronJob| job_model(j))
}

/// Whether the models carry pairwise distinct ids.
pub open spec fn spec_models_ids_unique(ms: Seq<JobModel>) -> bool {
    forall|a: int, b: int| 0 <= a < b < ms.len() ==> ms[a].id != ms[b].id
}

/// Serialized form of an optional timestamp: its decimal form, or `-`.
pub open spec fn spec_opt_u64_text(o: Option<u64>) -> Seq<char> {
    match o {
        Some(t) => spec_decimal(t as int),
        None => "-"@,
    }
}

/// Serialized status marker: `ok`, `err` or `-`.
pub open spec fn spec_status_text(o: Option<JobStatus>) -> Seq<char> {
    match o {
        Some(st) => if st.ok {
            "ok"@
        } else {
            "err"@
        },
        None => "-"@,
    }
}

/// Serialized status output: the escaped tail, or nothing.
pub open spec fn spec_status_output_text(o: Option<JobStatus>) -> Seq<char> {
    match o {
        Some(st) => spec_escape(st.output@),
        None => Seq::empty(),
    }
}

pub open spec fn spec_bool01(b: bool) -> Seq<char> {
    if b {
        "1"@
    } else {
        "0"@
    }
}

/// Serialized form of one job: nine tab-separated fields and a newline.
pub open spec fn spec_encode_job(j: CronJob) -> Seq<char> {
    spec_escape(j.id@) + "\t"@ + spec_escape(j.expression@) + "\t"@ + spec_escape(j.command@)
        + "\t"@ + spec_decimal(j.next_run as int) + "\t"@ + spec_opt_u64_text(j.last_run) + "\t"@
        + spec_status_text(j.last_status) + "\t"@ + spec_status_output_text(j.last_status) + "\t"@
        + spec_bool01(j.paused) + "\t"@ + spec_bool01(j.one_shot) + "\n"@
}

/// Serialized form of a job list: the jobs' lines in order.
pub open spec fn spec_encode_jobs(jobs: Seq<CronJob>) -> Seq<char>
    decreases jobs.len(),
{
    if jobs.len() == 0 {
        Seq::empty()
    } else {
        spec_encode_jobs(jobs.drop_last()) + spec_encode_job(jobs.last())
    }
}

/// Serialized status marker of a model.
pub open spec fn spec_status_text_model(o: Option<(bool, Seq<char>)>) -> Seq<char> {
    match o {
        Some(st) => if st.0 {
            "ok"@
        } else {
            "err"@
        },
        None => "-"@,
    }
}

/// Serialized status output of a model.
pub open spec fn spec_status_output_text_model(o: Option<(bool, Seq<char>)>) -> Seq<char> {
    match o {
        Some(st) => spec_escape(st.1),
        None => Seq::empty(),
    }
}

/// Serialized form of one job model.
pub open spec fn spec_encode_model(m: JobModel) -> Seq<char> {
    spec_escape(m.id) + "\t"@ + spec_escape(m.expression) + "\t"@ + spec_escape(m.command)
        + "\t"@ + spec_decimal(m.next_run as int) + "\t"@ + spec_opt_u64_text(m.last_run) + "\t"@
        + spec_status_text_model(m.last_status) + "\t"@ + spec_status_output_text_model(
        m.last_status,
    ) + "\t"@ + spec_bool01(m.paused) + "\t"@ + spec_bool01(m.one_shot) + "\n"@
}

/// Serialized form of a model list.
pub open spec fn spec_encode_models(ms: Seq<JobModel>) -> Seq<char>
    decreases ms.len(),
{
    if ms.len() == 0 {
        Seq::empty()
    } else {
        spec_encode_models(ms.drop_last()) + spec_encode_model(ms.last())
    }
}

/// A job list and its models serialize identically.
pub proof fn lemma_encode_models(jobs: Seq<CronJob>)
    ensures
        spec_encode_models(job_models(jobs)) == spec_encode_jobs(jobs),
    decreases jobs.len(),
{
    if jobs.len() > 0 {
        lemma_encode_models(jobs.drop_last());
        assert(job_models(jobs).drop_last() =~= job_models(jobs.drop_last()));
        assert(job_models(jobs).last() == job_model(jobs.last()));
        assert(spec_encode_model(job_model(jobs.last())) == spec_encode_job(jobs.last()));
    } else {
        assert(job_models(jobs) =~= Seq::<JobModel>::empty());
    }
}

/// Saving an unchanged store twice produces byte-identical files: the
/// serialized form is a function of the job list alone.
pub proof fn lemma_save_deterministic(b1: Seq<char>, b2: Seq<char>, jobs: Seq<CronJob>)
    requires
        b1 == spec_encode_jobs(jobs),
        b2 == spec_encode_jobs(jobs),
    ensures
        b1 == b2,
{
}

fn encode_job(j: &CronJob) -> (r: String)
    ensures
        r@ == spec_encode_job(*j),
{
    proof {
        reveal_strlit("\t");
        reveal_strlit("\n");
        reveal_strlit("-");
        reveal_strlit("0");
        reveal_strlit("1");
        reveal_strlit("ok");
        reveal_strlit("err");
    }
    let mut out = String::new();
    escape_into(&mut out, j.id.as_str());
    let ghost p1 = spec_escape(j.id@);
    proof {
        assert(out@ =~= p1);
    }
    push_char(&mut out, '\t');
    let ghost p2 = p1 + "\t"@;
    proof {
        assert(out@ =~= p2);
    }
    escape_into(&mut out, j.expression.as_str());
    let ghost p3 = p2 + spec_escape(j.expression@);
    push_char(&mut out, '\t');
    let ghost p4 = p3 + "\t"@;
    proof {
        assert(out@ =~= p4);
    }
    escape_into(&mut out, j.command.as_str());
    let ghost p5 = p4 + spec_escape(j.command@);
    push_char(&mut out, '\t');
    let ghost p6 = p5 + "\t"@;
    proof {
        assert(out@ =~= p6);
    }
    let next_text = u64_to_decimal(j.next_run);
    out.append(next_text.as_str());
    let ghost p7 = p6 + spec_decimal(j.next_run as int);
    push_char(&mut out, '\t');
    let ghost p8 = p7 + "\t"@;
    proof {
        assert(out@ =~= p8);
    }
    match j.last_run {
        Some(t) => {
            let t_text = u64_to_decimal(t);
            out.append(t_text.as_str());
        },
        None => {
            push_char(&mut out, '-');
        },
    }
    let ghost p9 = p8 + spec_opt_u64_text(j.last_run);
    proof {
        assert(out@ =~= p9);
    }
    push_char(&mut out, '\t');
    let ghost p10 = p9 + "\t"@;
    match &j.last_status {
        Some(st) => {
            if st.ok {
                out.append("ok");
            } else {
                out.append("err");
            }
        },
        None => {
            push_char(&mut out, '-');
        },
    }
    let ghost p11 = p10 + spec_status_text(j.last_status);
    proof {
        assert(out@ =~= p11);
    }
    push_char(&mut out, '\t');
    let ghost p12 = p11 + "\t"@;
    match &j.last_status {
        Some(st) => {
            escape_into(&mut out, st.output.as_str());
        },
        None => {},
    }
    let ghost p13 = p12 + spec_status_output_text(j.last_status);
    proof {
        assert(out@ =~= p13);
    }
    push_char(&mut out, '\t');
    let ghost p14 = p13 + "\t"@;
    if j.paused {
        push_char(&mut out, '1');
    } else {
        push_char(&mut out, '0');
    }
    let ghost p15 = p14 + spec_bool01(j.paused);
    proof {
        assert(out@ =~= p15);
    }
    push_char(&mut out, '\t');
    let ghost p16 = p15 + "\t"@;
    if j.one_shot {
        push_char(&mut out, '1');
    } else {
        push_char(&mut out, '0');
    }
    let ghost p17 = p16 + spec_bool01(j.one_shot);
    proof {
        assert(out@ =~= p17);
    }
    push_char(&mut out, '\n');
    proof {
        assert(out@ =~= p17 + "\n"@);
        assert(out@ =~= spec_encode_job(*j));
    }
    out
}

/// Whether all job ids in the list are distinct.
fn ids_unique(jobs: &Vec<CronJob>) -> (r: bool)
    ensures
        r == (forall|a: int, b: int|
            0 <= a < b < jobs@.len() ==> jobs@[a].id@ != jobs@[b].id@),
{
    let n = jobs.len();
    let mut a: usize = 0;
    while a < n
        invariant
            n == jobs@.len(),
            a <= n,
            forall|x: int, y: int| 0 <= x < y < n && x < a ==> jobs@[x].id@ != jobs@[y].id@,
        decreases n - a,
    {
        let mut b: usize = a + 1;
        while b < n
            invariant
                n == jobs@.len(),
                a < b <= n || (a + 1 == b && b > n),
                a < n,
                forall|y: int| a < y < b ==> jobs@[a as int].id@ != jobs@[y].id@,
            decreases n - b,
        {
            if str_eq(jobs[a].id.as_str(), jobs[b].id.as_str()) {
                return false;
            }
            b = b + 1;
        }
        a = a + 1;
    }
    true
}

/// The recovered text of a serialized field, from position `i` on: a
/// backslash pair turns back into one character, anything else is
/// copied.
pub open spec fn spec_unescape_rec(s: Seq<char>, i: int, acc: Seq<char>) -> Seq<char>
    decreases s.len() - i,
{
    if i < 0 || i >= s.len() {
        acc
    } else if s[i] == '\\' && i + 1 < s.len() {
        let d = s[i + 1];
        let c = if d == 't' {
            '\t'
        } else if d == 'n' {
            '\n'
        } else {
            d
        };
        spec_unescape_rec(s, i + 2, acc.push(c))
    } else {
        spec_unescape_rec(s, i + 1, acc.push(s[i]))
    }
}

/// The recovered text of a serialized field.
pub open spec fn spec_unescape(s: Seq<char>) -> Seq<char> {
    spec_unescape_rec(s, 0, Seq::empty())
}

/// The model a serialized job line parses to: nine tab-separated
/// fields, unescaped strings, a decimal firing time, `-` or a decimal
/// last run, a `-`/`ok`/`err` status marker with the escaped output,
/// and `0`/`1` flags. Anything else is refused.
pub open spec fn spec_parse_line(line: Seq<char>) -> Option<JobModel> {
    let fields = crate::chars::spec_split(line, '\t');
    if fields.len() != 9 {
        None
    } else {
        let next_ok = spec_all_digits(fields[3]) && spec_num_val(fields[3]) <= u64::MAX;
        let lr_dash = fields[4].len() == 1 && fields[4][0] == '-';
        let lr_ok = lr_dash || (spec_all_digits(fields[4]) && spec_num_val(fields[4])
            <= u64::MAX);
        let kind_dash = fields[5].len() == 1 && fields[5][0] == '-';
        let kind_ok = fields[5].len() == 2 && fields[5][0] == 'o' && fields[5][1] == 'k';
        let kind_err = fields[5].len() == 3 && fields[5][0] == 'e' && fields[5][1] == 'r'
            && fields[5][2] == 'r';
        let paused1 = fields[7].len() == 1 && fields[7][0] == '1';
        let paused0 = fields[7].len() == 1 && fields[7][0] == '0';
        let once1 = fields[8].len() == 1 && fields[8][0] == '1';
        let once0 = fields[8].len() == 1 && fields[8][0] == '0';
        if next_ok && lr_ok && (kind_dash || kind_ok || kind_err) && (paused1 || paused0) && (
        once1 || once0) {
            Some(
                JobModel {
                    id: spec_unescape(fields[0]),
                    expression: spec_unescape(fields[1]),
                    command: spec_unescape(fields[2]),
                    next_run: spec_num_val(fields[3]) as u64,
                    last_run: if lr_dash {
                        None
                    } else {
                        Some(spec_num_val(fields[4]) as u64)
                    },
                    last_status: if kind_dash {
                        None
                    } else {
                        Some((kind_ok, spec_unescape(fields[6])))
                    },
                    paused: paused1,
                    one_shot: once1,
                },
            )
        } else {
            None
        }
    }
}

/// The models of the lines from `i` on, or nothing when one refuses.
pub open spec fn spec_parse_lines(
    lines: Seq<Seq<char>>,
    i: int,
    acc: Seq<JobModel>,
) -> Option<Seq<JobModel>>
    decreases lines.len() - i,
{
    if i < 0 || i >= lines.len() {
        Some(acc)
    } else {
        match spec_parse_line(lines[i]) {
            Some(m) => spec_parse_lines(lines, i + 1, acc.push(m)),
            None => None,
        }
    }
}

/// The job models of serialized store bytes: empty bytes hold no jobs;
/// otherwise the bytes must end in a newline and every line must parse.
pub open spec fn spec_parse_store(s: Seq<char>) -> Option<Seq<JobModel>> {
    if s.len() == 0 {
        Some(Seq::empty())
    } else if s.last() != '\n' {
        None
    } else {
        spec_parse_lines(
            crate::chars::spec_split(s.take(s.len() - 1), '\n'),
            0,
            Seq::empty(),
        )
    }
}

fn parse_store_text(s: &str) -> (r: Option<Vec<CronJob>>)
    ensures
        match r {
            Some(v) => spec_parse_store(s@) == Some(job_models(v@)),
            None => spec_parse_store(s@) is None,
        },
{
    let chars = str_chars(s);
    if chars.len() == 0 {
        let empty: Vec<CronJob> = Vec::new();
        proof {
            assert(job_models(empty@) =~= Seq::<JobModel>::empty());
        }
        return Some(empty);
    }
    if chars[chars.len() - 1] != '\n' {
        return None;
    }
    let body = subrange_chars(&chars, 0, chars.len() - 1);
    proof {
        assert(body@ =~= s@.take(s@.len() - 1));
    }
    let lines = crate::chars::split_on(&body, '\n');
    let mut jobs: Vec<CronJob> = Vec::new();
    let nlines = lines.len();
    let mut li: usize = 0;
    proof {
        assert(job_models(jobs@) =~= Seq::<JobModel>::empty());
    }
    while li < nlines
        invariant
            li <= nlines,
            nlines == lines@.len(),
            lines.deep_view().len() == nlines,
            spec_parse_store(s@) == spec_parse_lines(
                lines.deep_view(),
                li as int,
                job_models(jobs@),
            ),
        decreases nlines - li,
    {
        proof {
            assert(lines.deep_view()[li as int] == lines@[li as int]@);
        }
        let job = match parse_store_line(&lines[li]) {
            Some(j) => j,
            None => {
                return None;
            },
        };
        let ghost models_before = job_models(jobs@);
        let ghost model = job_model(job);
        jobs.push(job);
        proof {
            assert(job_models(jobs@) =~= models_before.push(model));
        }
        li = li + 1;
    }
    Some(jobs)
}

fn parse_store_line(line: &Vec<char>) -> (r: Option<CronJob>)
    ensures
        match r {
            Some(j) => spec_parse_line(line@) == Some(job_model(j)),
            None => spec_parse_line(line@) is None,
        },
{
    let fields = crate::chars::split_on(line, '\t');
    if fields.len() != 9 {
        return None;
    }
    proof {
        assert(fields.deep_view()[0] == fields@[0]@);
        assert(fields.deep_view()[1] == fields@[1]@);
        assert(fields.deep_view()[2] == fields@[2]@);
        assert(fields.deep_view()[3] == fields@[3]@);
        assert(fields.deep_view()[4] == fields@[4]@);
        assert(fields.deep_view()[5] == fields@[5]@);
        assert(fields.deep_view()[6] == fields@[6]@);
        assert(fields.deep_view()[7] == fields@[7]@);
        assert(fields.deep_view()[8] == fields@[8]@);
        assert(fields@[3]@.subrange(0, fields@[3]@.len() as int) =~= fields@[3]@);
        assert(fields@[4]@.subrange(0, fields@[4]@.len() as int) =~= fields@[4]@);
    }
    let id = unescape_field(&fields[0]);
    let expression = unescape_field(&fields[1]);
    let command = unescape_field(&fields[2]);
    let next_run = match parse_u64_range(&fields[3], 0, fields[3].len()) {
        Some(t) => t,
        None => {
            return None;
        },
    };
    let last_run = if fields[4].len() == 1 && fields[4][0] == '-' {
        None
    } else {
        match parse_u64_range(&fields[4], 0, fields[4].len()) {
            Some(t) => Some(t),
            None => {
                return None;
            },
        }
    };
    let kind = &fields[5];
    let out_field = unescape_field(&fields[6]);
    let last_status = if kind.len() == 1 && kind[0] == '-' {
        None
    } else if kind.len() == 2 && kind[0] == 'o' && kind[1] == 'k' {
        Some(JobStatus { ok: true, output: out_field })
    } else if kind.len() == 3 && kind[0] == 'e' && kind[1] == 'r' && kind[2] == 'r' {
        Some(JobStatus { ok: false, output: out_field })
    } else {
        return None;
    };
    let paused = if fields[7].len() == 1 && fields[7][0] == '1' {
        true
    } else if fields[7].len() == 1 && fields[7][0] == '0' {
        false
    } else {
        return None;
    };
    let one_shot = if fields[8].len() == 1 && fields[8][0] == '1' {
        true
    } else if fields[8].len() == 1 && fields[8][0] == '0' {
        false
    } else {
        return None;
    };
    Some(
        CronJob {
            id,
            expression,
            command,
            next_run,
            last_run,
            last_status,
            paused,
            one_shot,
        },
    )
}

fn unescape_field(v: &Vec<char>) -> (r: String)
    ensures
        r@ == spec_unescape(v@),
{
    let n = v.len();
    let mut out: Vec<char> = Vec::new();
    let mut i: usize = 0;
    while i < n
        invariant
            i <= n + 1,
            n == v@.len(),
            spec_unescape(v@) == spec_unescape_rec(v@, i as int, out@),
        decreases n - i,
    {
        let c = v[i];
        if c == '\\' && i + 1 < n {
            let d = v[i + 1];
            if d == 't' {
                out.push('\t');
            } else if d == 'n' {
                out.push('\n');
            } else {
                out.push(d);
            }
            i = i + 2;
        } else {
            out.push(c);
            i = i + 1;
        }
    }
    string_of_chars(&out)
}

} // verus!
