//! Cost tracking and budget enforcement.
//!
//! Every provider request is logged as one record; the daily, session
//! and per-request budgets are checked before a request is sent. Money
//! is counted in micro-dollars (millionths of one USD); zero limits mean
//! unlimited. The append-only log file is written outside the library.

use vstd::prelude::*;
use vstd::string::StringExecFns;

use crate::config::CostConfig;
use crate::strutil::str_eq;

verus! {

/// One logged request.
#[derive(Debug)]
pub struct CostRecord {
    pub timestamp: u64,
    pub model: String,
    pub input_tokens: u64,
    pub output_tokens: u64,
    pub micro_usd: u64,
    pub session_id: String,
    pub request_id: String,
}

impl Clone for CostRecord {
    fn clone(&self) -> (r: Self)
        ensures
            r == *self,
    {
        CostRecord {
            timestamp: self.timestamp,
            model: self.model.clone(),
            input_tokens: self.input_tokens,
            output_tokens: self.output_tokens,
            micro_usd: self.micro_usd,
            session_id: self.session_id.clone(),
            request_id: self.request_id.clone(),
        }
    }
}

/// Whether a record counts against the daily budget at `now`: it was
/// logged within the trailing day.
pub open spec fn within_day(t: u64, now: u64) -> bool {
    now <= t || now - t < 86400
}

/// The spend, in micro-dollars, of the records admitted by `pick`;
/// unbounded mathematically, capped only when executed.
pub open spec fn spec_spend(records: Seq<CostRecord>, pick: spec_fn(CostRecord) -> bool) -> nat
    decreases records.len(),
{
    if records.len() == 0 {
        0
    } else {
        spec_spend(records.drop_last(), pick) + if pick(records.last()) {
            records.last().micro_usd as nat
        } else {
            0nat
        }
    }
}

/// Tracks logged requests and enforces the configured budgets.
pub struct CostTracker {
    config: CostConfig,
    session_id: String,
    records: Vec<CostRecord>,
}

impl CostTracker {
    pub closed spec fn cfg(&self) -> CostConfig {
        self.config
    }

    pub closed spec fn session(&self) -> Seq<char> {
        self.session_id@
    }

    pub closed spec fn records(&self) -> Seq<CostRecord> {
        self.records@
    }

    pub fn new(config: CostConfig, session_id: String) -> (r: Self)
        ensures
            r.cfg() == config,
            r.session() == session_id@,
            r.records().len() == 0,
    {
        CostTracker { config, session_id, records: Vec::new() }
    }

    /// Appends one record to the log.
    pub fn record(&mut self, rec: CostRecord)
        ensures
            final(self).records() == old(self).records().push(rec),
            final(self).cfg() == old(self).cfg(),
            final(self).session() == old(self).session(),
    {
        self.records.push(rec);
    }

    /// The spend within the trailing day at `now`, capped at the integer
    /// maximum.
    pub fn daily_spend(&self, now: u64) -> (r: u64)
        ensures
            r == spec_min_u64(spec_spend(self.records(), |c: CostRecord| within_day(c.timestamp, now))),
    {
        let n = self.records.len();
        let mut total: u64 = 0;
        let mut i: usize = 0;
        proof {
            assert(self.records().take(0) =~= Seq::<CostRecord>::empty());
        }
        while i < n
            invariant
                n == self.records().len(),
                i <= n,
                total == spec_min_u64(
                    spec_spend(
                        self.records().take(i as int),
                        |c: CostRecord| within_day(c.timestamp, now),
                    ),
                ),
            decreases n - i,
        {
            let rec = &self.records[i];
            proof {
                assert(self.records().take(i + 1).drop_last() =~= self.records().take(i as int));
                assert(self.records().take(i + 1).last() == self.records()[i as int]);
            }
            if now <= rec.timestamp || now - rec.timestamp < 86400 {
                total = match total.checked_add(rec.micro_usd) {
                    Some(t) => t,
                    None => u64::MAX,
                };
            }
            i = i + 1;
        }
        proof {
            assert(self.records().take(n as int) =~= self.records());
        }
        total
    }

    /// The spend of this session, capped at the integer maximum.
    pub fn session_spend(&self) -> (r: u64)
        ensures
            r == spec_min_u64(
                spec_spend(self.records(), |c: CostRecord| c.session_id@ == self.session()),
            ),
    {
        let n = self.records.len();
        let mut total: u64 = 0;
        let mut i: usize = 0;
        proof {
            assert(self.records().take(0) =~= Seq::<CostRecord>::empty());
        }
        while i < n
            invariant
                n == self.records().len(),
                i <= n,
                total == spec_min_u64(
                    spec_spend(
                        self.records().take(i as int),
                        |c: CostRecord| c.session_id@ == self.session(),
                    ),
                ),
            decreases n - i,
        {
            let rec = &self.records[i];
            proof {
                assert(self.records().take(i + 1).drop_last() =~= self.records().take(i as int));
                assert(self.records().take(i + 1).last() == self.records()[i as int]);
            }
            if str_eq(rec.session_id.as_str(), self.session_id.as_str()) {
                total = match total.checked_add(rec.micro_usd) {
                    Some(t) => t,
                    None => u64::MAX,
                };
            }
            i = i + 1;
        }
        proof {
            assert(self.records().take(n as int) =~= self.records());
        }
        total
    }

    /// Checks an estimated request cost against the budgets: with
    /// tracking disabled everything passes; a positive per-request limit
    /// refuses a dearer estimate; a positive daily limit (the explicit
    /// budget, else the legacy limit) refuses when the trailing day plus
    /// the estimate would exceed it, and the session limit likewise.
    /// Without `auto_pause` an exceeded budget is reported but does not
    /// refuse.
    pub fn pre_check(&self, estimated_micro_usd: u64, now: u64) -> (r: Result<(), String>)
        ensures
            !self.cfg().enabled ==> r is Ok,
            !self.cfg().auto_pause ==> r is Ok,
            self.cfg().enabled && self.cfg().auto_pause ==> ({
                let daily = spec_min_u64(
                    spec_spend(self.records(), |c: CostRecord| within_day(c.timestamp, now)),
                );
                let session = spec_min_u64(
                    spec_spend(self.records(), |c: CostRecord| c.session_id@ == self.session()),
                );
                let daily_limit = if self.cfg().daily_budget_micro_usd > 0 {
                    self.cfg().daily_budget_micro_usd
                } else {
                    self.cfg().daily_limit_micro_usd
                };
                if self.cfg().per_request_budget_micro_usd > 0 && estimated_micro_usd
                    > self.cfg().per_request_budget_micro_usd {
                    r matches Err(m) && m@ == "per-request budget exceeded"@
                } else if daily_limit > 0 && daily + estimated_micro_usd > daily_limit {
                    r matches Err(m) && m@ == "daily budget exceeded"@
                } else if self.cfg().session_budget_micro_usd > 0 && session + estimated_micro_usd
                    > self.cfg().session_budget_micro_usd {
                    r matches Err(m) && m@ == "session budget exceeded"@
                } else {
                    r is Ok
                }
            }),
    {
        if !self.config.enabled {
            return Ok(());
        }
        if !self.config.auto_pause {
            return Ok(());
        }
        if self.config.per_request_budget_micro_usd > 0 && estimated_micro_usd
            > self.config.per_request_budget_micro_usd {
            let mut m = String::new();
            m.append("per-request budget exceeded");
            proof {
                assert(m@ =~= "per-request budget exceeded"@);
            }
            return Err(m);
        }
        let daily_limit = if self.config.daily_budget_micro_usd > 0 {
            self.config.daily_budget_micro_usd
        } else {
            self.config.daily_limit_micro_usd
        };
        let daily = self.daily_spend(now);
        if daily_limit > 0 {
            let over = match daily.checked_add(estimated_micro_usd) {
                Some(t) => t > daily_limit,
                None => true,
            };
            if over {
                let mut m = String::new();
                m.append("daily budget exceeded");
                proof {
                    assert(m@ =~= "daily budget exceeded"@);
                }
                return Err(m);
            }
        }
        if self.config.session_budget_micro_usd > 0 {
            let session = self.session_spend();
            let over = match session.checked_add(estimated_micro_usd) {
                Some(t) => t > self.config.session_budget_micro_usd,
                None => true,
            };
            if over {
                let mut m = String::new();
                m.append("session budget exceeded");
                proof {
                    assert(m@ =~= "session budget exceeded"@);
                }
                return Err(m);
            }
        }
        Ok(())
    }
}

/// A mathematical amount clamped into a `u64`.
pub open spec fn spec_min_u64(n: nat) -> u64 {
    if n <= u64::MAX {
        n as u64
    } else {
        u64::MAX
    }
}

} // verus!
