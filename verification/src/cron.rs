//! Cron schedules.
//!
//! A job's schedule is one expression string: a five-field cron pattern
//! (`m h dom mon dow`), `once:<duration>`, `at:<timestamp>`, or
//! `every_ms:<n>`. This module parses expressions and computes firing
//! times, in seconds since the Unix epoch.

use vstd::prelude::*;

use crate::chars::{spec_split, spec_starts_with, split_on, starts_with_chars, str_chars, subrange_chars};
use crate::cmdline::{spec_tokens, split_tokens};
use crate::timeparse::{
    civil_of_days, parse_duration_ms, parse_rfc3339_utc, parse_u64_range, spec_all_digits,
    spec_civil_of_days, spec_duration_ms, spec_num_val, spec_rfc3339_utc, spec_weekday_of_days,
    weekday_of_days,
};

verus! {

/// No schedule reaches past this instant (seconds since the epoch,
/// deep in the tenth millennium); it keeps every time computation in
/// bounds.
pub const SCHEDULE_HORIZON: u64 = 250_000_000_000;

/// How many minutes ahead a cron pattern is searched for its next
/// firing: one year of minutes.
pub const CRON_SEARCH_MINUTES: u64 = 527040;

/// Parsed five-field cron pattern: one admission flag per minute, hour,
/// day of month, month and day of week.
pub struct CronFields {
    pub minutes: Vec<bool>,
    pub hours: Vec<bool>,
    pub dom: Vec<bool>,
    pub mon: Vec<bool>,
    pub dow: Vec<bool>,
}

/// Mathematical form of a parsed pattern.
pub struct CronFieldsModel {
    pub minutes: Seq<bool>,
    pub hours: Seq<bool>,
    pub dom: Seq<bool>,
    pub mon: Seq<bool>,
    pub dow: Seq<bool>,
}

impl CronFields {
    pub open spec fn model(&self) -> CronFieldsModel {
        CronFieldsModel {
            minutes: self.minutes@,
            hours: self.hours@,
            dom: self.dom@,
            mon: self.mon@,
            dow: self.dow@,
        }
    }

    pub open spec fn wf(&self) -> bool {
        self.minutes@.len() == 60 && self.hours@.len() == 24 && self.dom@.len() == 32
            && self.mon@.len() == 13 && self.dow@.len() == 7
    }
}

/// One comma-separated part applied to the admission flags: `*` admits
/// everything, `*/n` admits every `n`-th value from `lo`, `a-b` admits a
/// range and a plain number admits one value.
pub open spec fn spec_apply_part(part: Seq<char>, acc: Seq<bool>, lo: int) -> Option<Seq<bool>> {
    if part == "*"@ {
        Some(Seq::new(acc.len(), |i: int| true))
    } else if part.len() > 2 && part[0] == '*' && part[1] == '/' {
        let rest = part.subrange(2, part.len() as int);
        if spec_all_digits(rest) && 1 <= spec_num_val(rest) <= acc.len() {
            let n = spec_num_val(rest);
            Some(Seq::new(acc.len(), |i: int| acc[i] || (i >= lo && (i - lo) % (n as int) == 0)))
        } else {
            None
        }
    } else if spec_split(part, '-').len() == 2 {
        let a_part = spec_split(part, '-')[0];
        let b_part = spec_split(part, '-')[1];
        if spec_all_digits(a_part) && spec_all_digits(b_part) && spec_num_val(a_part)
            <= spec_num_val(b_part) < acc.len() {
            let a = spec_num_val(a_part) as int;
            let b = spec_num_val(b_part) as int;
            Some(Seq::new(acc.len(), |i: int| acc[i] || (a <= i <= b)))
        } else {
            None
        }
    } else if spec_all_digits(part) && spec_num_val(part) < acc.len() {
        let a = spec_num_val(part) as int;
        Some(Seq::new(acc.len(), |i: int| acc[i] || i == a))
    } else {
        None
    }
}

/// All comma-separated parts from `j` on, folded over the flags.
pub open spec fn spec_apply_parts(
    parts: Seq<Seq<char>>,
    j: int,
    acc: Seq<bool>,
    lo: int,
) -> Option<Seq<bool>>
    decreases parts.len() - j,
{
    if j < 0 || j >= parts.len() {
        Some(acc)
    } else {
        match spec_apply_part(parts[j], acc, lo) {
            Some(acc2) => spec_apply_parts(parts, j + 1, acc2, lo),
            None => None,
        }
    }
}

/// One whole cron field of `size` values starting at `lo`.
pub open spec fn spec_parse_field(tok: Seq<char>, lo: int, size: int) -> Option<Seq<bool>> {
    spec_apply_parts(spec_split(tok, ','), 0, Seq::new(size as nat, |i: int| false), lo)
}

fn apply_part(part: &Vec<char>, acc: Vec<bool>, lo: usize) -> (r: Option<Vec<bool>>)
    requires
        acc@.len() <= 64,
    ensures
        match r {
            Some(v) => spec_apply_part(part@, acc@, lo as int) == Some(v@) && v@.len()
                == acc@.len(),
            None => spec_apply_part(part@, acc@, lo as int) is None,
        },
{
    let ghost acc0 = acc@;
    let len = acc.len();
    let out = acc;
    if part.len() == 1 && part[0] == '*' {
        proof {
            reveal_strlit("*");
            assert(part@ =~= "*"@);
        }
        let mut v: Vec<bool> = Vec::new();
        let mut i: usize = 0;
        while i < len
            invariant
                i <= len,
                v@ =~= Seq::new(i as nat, |k: int| true),
            decreases len - i,
        {
            v.push(true);
            proof {
                assert(v@ =~= Seq::new((i + 1) as nat, |k: int| true));
            }
            i = i + 1;
        }
        return Some(v);
    }
    proof {
        reveal_strlit("*");
        if part@ == "*"@ {
            assert(part@.len() == 1 && part@[0] == '*');
        }
    }
    if part.len() > 2 && part[0] == '*' && part[1] == '/' {
        match parse_u64_range(part, 2, part.len()) {
            Some(n) => {
                if 1 <= n && n <= len as u64 {
                    let nn = n as usize;
                    let ghost lambda = |k: int| acc0[k] || (k >= lo && (k - lo) % (n as int)
                        == 0);
                    let mut v: Vec<bool> = Vec::new();
                    let mut i: usize = 0;
                    proof {
                        assert(v@ =~= Seq::new(0, lambda));
                    }
                    while i < len
                        invariant
                            i <= len,
                            len == out@.len(),
                            len == acc0.len(),
                            out@ == acc0,
                            nn == n,
                            1 <= nn,
                            v@ == Seq::new(i as nat, lambda),
                            lambda == (|k: int| acc0[k] || (k >= lo && (k - lo) % (n as int)
                                == 0)),
                        decreases len - i,
                    {
                        let val = out[i] || (i >= lo && (i - lo) % nn == 0);
                        v.push(val);
                        proof {
                            assert(val == lambda(i as int));
                            assert(v@ =~= Seq::new((i + 1) as nat, lambda));
                        }
                        i = i + 1;
                    }
                    proof {
                        assert(v@ =~= Seq::new(acc0.len(), lambda));
                    }
                    return Some(v);
                } else {
                    return None;
                }
            },
            None => {
                return None;
            },
        }
    }
    let dash_parts = split_on(part, '-');
    if dash_parts.len() == 2 {
        proof {
            assert(dash_parts.deep_view()[0] == dash_parts@[0]@);
            assert(dash_parts.deep_view()[1] == dash_parts@[1]@);
        }
        let a_opt = parse_u64_range(&dash_parts[0], 0, dash_parts[0].len());
        let b_opt = parse_u64_range(&dash_parts[1], 0, dash_parts[1].len());
        proof {
            assert(dash_parts@[0]@.subrange(0, dash_parts@[0]@.len() as int) =~= dash_parts@[0]@);
            assert(dash_parts@[1]@.subrange(0, dash_parts@[1]@.len() as int) =~= dash_parts@[1]@);
        }
        match (a_opt, b_opt) {
            (Some(a), Some(b)) => {
                if a <= b && b < len as u64 {
                    let aa = a as usize;
                    let bb = b as usize;
                    let ghost lambda = |k: int| acc0[k] || (a as int <= k <= b as int);
                    let mut v: Vec<bool> = Vec::new();
                    let mut i: usize = 0;
                    while i < len
                        invariant
                            i <= len,
                            len == out@.len(),
                            len == acc0.len(),
                            out@ == acc0,
                            aa == a,
                            bb == b,
                            v@ == Seq::new(i as nat, lambda),
                            lambda == (|k: int| acc0[k] || (a as int <= k <= b as int)),
                        decreases len - i,
                    {
                        let val = out[i] || (aa <= i && i <= bb);
                        v.push(val);
                        proof {
                            assert(val == lambda(i as int));
                            assert(v@ =~= Seq::new((i + 1) as nat, lambda));
                        }
                        i = i + 1;
                    }
                    proof {
                        assert(v@ =~= Seq::new(acc0.len(), lambda));
                    }
                    return Some(v);
                } else {
                    return None;
                }
            },
            _ => {
                return None;
            },
        }
    }
    match parse_u64_range(part, 0, part.len()) {
        Some(a) => {
            proof {
                assert(part@.subrange(0, part@.len() as int) =~= part@);
            }
            if a < len as u64 {
                let aa = a as usize;
                let ghost lambda = |k: int| acc0[k] || k == a as int;
                let mut v: Vec<bool> = Vec::new();
                let mut i: usize = 0;
                while i < len
                    invariant
                        i <= len,
                        len == out@.len(),
                        len == acc0.len(),
                        out@ == acc0,
                        aa == a,
                        v@ == Seq::new(i as nat, lambda),
                        lambda == (|k: int| acc0[k] || k == a as int),
                    decreases len - i,
                {
                    let val = out[i] || i == aa;
                    v.push(val);
                    proof {
                        assert(val == lambda(i as int));
                        assert(v@ =~= Seq::new((i + 1) as nat, lambda));
                    }
                    i = i + 1;
                }
                proof {
                    assert(v@ =~= Seq::new(acc0.len(), lambda));
                }
                return Some(v);
            } else {
                return None;
            }
        },
        None => {
            proof {
                assert(part@.subrange(0, part@.len() as int) =~= part@);
            }
            return None;
        },
    }
}

/// Parses one cron field.
pub fn parse_field(tok: &Vec<char>, lo: usize, size: usize) -> (r: Option<Vec<bool>>)
    requires
        size <= 64,
    ensures
        match r {
            Some(v) => spec_parse_field(tok@, lo as int, size as int) == Some(v@) && v@.len()
                == size,
            None => spec_parse_field(tok@, lo as int, size as int) is None,
        },
{
    let parts = split_on(tok, ',');
    let nparts = parts.len();
    let mut acc: Vec<bool> = Vec::new();
    let mut z: usize = 0;
    while z < size
        invariant
            z <= size,
            acc@ =~= Seq::new(z as nat, |i: int| false),
        decreases size - z,
    {
        acc.push(false);
        proof {
            assert(acc@ =~= Seq::new((z + 1) as nat, |i: int| false));
        }
        z = z + 1;
    }
    proof {
        assert(acc@ =~= Seq::new(size as nat, |i: int| false));
    }
    let mut j: usize = 0;
    let mut cur = acc;
    while j < nparts
        invariant
            j <= nparts,
            nparts == parts.deep_view().len(),
            parts@.len() == nparts,
            parts.deep_view() == spec_split(tok@, ','),
            cur@.len() == size,
            size <= 64,
            spec_parse_field(tok@, lo as int, size as int) == spec_apply_parts(
                spec_split(tok@, ','),
                j as int,
                cur@,
                lo as int,
            ),
        decreases nparts - j,
    {
        proof {
            assert(parts.deep_view()[j as int] == parts@[j as int]@);
        }
        let next = apply_part(&parts[j], cur, lo);
        match next {
            Some(v) => {
                cur = v;
            },
            None => {
                return None;
            },
        }
        j = j + 1;
    }
    Some(cur)
}

/// The parsed pattern of a five-token cron expression.
pub open spec fn spec_parse_cron(s: Seq<char>) -> Option<CronFieldsModel> {
    let toks = spec_tokens(s);
    if toks.len() != 5 {
        None
    } else {
        match (
            spec_parse_field(toks[0], 0, 60),
            spec_parse_field(toks[1], 0, 24),
            spec_parse_field(toks[2], 1, 32),
            spec_parse_field(toks[3], 1, 13),
            spec_parse_field(toks[4], 0, 7),
        ) {
            (Some(mi), Some(h), Some(dm), Some(mo), Some(dw)) => Some(
                CronFieldsModel { minutes: mi, hours: h, dom: dm, mon: mo, dow: dw },
            ),
            _ => None,
        }
    }
}

/// Parses a five-field cron expression.
pub fn parse_cron(s: &str) -> (r: Option<CronFields>)
    ensures
        match r {
            Some(f) => f.wf() && spec_parse_cron(s@) == Some(f.model()),
            None => spec_parse_cron(s@) is None,
        },
{
    let chars = str_chars(s);
    let toks = split_tokens(&chars);
    if toks.len() != 5 {
        return None;
    }
    proof {
        assert(toks.deep_view()[0] == toks@[0]@);
        assert(toks.deep_view()[1] == toks@[1]@);
        assert(toks.deep_view()[2] == toks@[2]@);
        assert(toks.deep_view()[3] == toks@[3]@);
        assert(toks.deep_view()[4] == toks@[4]@);
    }
    let minutes = match parse_field(&toks[0], 0, 60) {
        Some(v) => v,
        None => {
            return None;
        },
    };
    let hours = match parse_field(&toks[1], 0, 24) {
        Some(v) => v,
        None => {
            return None;
        },
    };
    let dom = match parse_field(&toks[2], 1, 32) {
        Some(v) => v,
        None => {
            return None;
        },
    };
    let mon = match parse_field(&toks[3], 1, 13) {
        Some(v) => v,
        None => {
            return None;
        },
    };
    let dow = match parse_field(&toks[4], 0, 7) {
        Some(v) => v,
        None => {
            return None;
        },
    };
    Some(CronFields { minutes, hours, dom, mon, dow })
}

/// Whether the pattern admits instant `t`: its minute, hour, day of
/// month, month and day of week flags all hold. Both the day-of-month
/// and the day-of-week field must admit the day.
pub open spec fn spec_cron_matches(m: CronFieldsModel, t: nat) -> bool {
    let minute = (t / 60) % 60;
    let hour = (t / 3600) % 24;
    let days = t / 86400;
    let civ = spec_civil_of_days(days);
    let dw = spec_weekday_of_days(days);
    if civ.1 <= 12 && civ.2 <= 31 && m.minutes.len() == 60 && m.hours.len() == 24 && m.dom.len()
        == 32 && m.mon.len() == 13 && m.dow.len() == 7 {
        m.minutes[minute as int] && m.hours[hour as int] && m.dom[civ.2 as int] && m.mon[
            civ.1 as int
        ] && m.dow[dw as int]
    } else {
        false
    }
}

/// Whether the pattern admits instant `t` (executable).
pub fn cron_matches(f: &CronFields, t: u64) -> (r: bool)
    requires
        f.wf(),
        t < SCHEDULE_HORIZON,
    ensures
        r == spec_cron_matches(f.model(), t as nat),
{
    let minute = ((t / 60) % 60) as usize;
    let hour = ((t / 3600) % 24) as usize;
    let days = t / 86400;
    let civ = civil_of_days(days);
    let dw = weekday_of_days(days) as usize;
    if !(civ.1 <= 12 && civ.2 <= 31) {
        return false;
    }
    f.minutes[minute] && f.hours[hour] && f.dom[civ.2 as usize] && f.mon[civ.1 as usize]
        && f.dow[dw]
}

/// The first admitted minute boundary, searching from `t` for `steps`
/// minutes and never past the horizon.
pub open spec fn spec_next_cron_rec(m: CronFieldsModel, t: nat, steps: nat) -> Option<u64>
    decreases steps,
{
    if t >= SCHEDULE_HORIZON {
        None
    } else if steps == 0 {
        None
    } else if spec_cron_matches(m, t) {
        Some(t as u64)
    } else {
        spec_next_cron_rec(m, t + 60, (steps - 1) as nat)
    }
}

/// The next instant after `now` that the pattern admits: the first
/// admitted minute boundary strictly after `now`, within a year.
pub open spec fn spec_next_cron(m: CronFieldsModel, now: nat) -> Option<u64> {
    spec_next_cron_rec(m, (now / 60 + 1) * 60, CRON_SEARCH_MINUTES as nat)
}

/// Finds the next admitted minute boundary after `now`.
pub fn next_cron_after(f: &CronFields, now: u64) -> (r: Option<u64>)
    requires
        f.wf(),
        now < SCHEDULE_HORIZON,
    ensures
        r == spec_next_cron(f.model(), now as nat),
        r matches Some(t) ==> now < t < SCHEDULE_HORIZON,
{
    let mut t: u64 = (now / 60 + 1) * 60;
    let mut steps: u64 = CRON_SEARCH_MINUTES;
    while steps > 0
        invariant
            f.wf(),
            t <= 250_000_000_100 + 60 * (CRON_SEARCH_MINUTES - steps),
            t > now,
            steps <= CRON_SEARCH_MINUTES,
            spec_next_cron(f.model(), now as nat) == spec_next_cron_rec(
                f.model(),
                t as nat,
                steps as nat,
            ),
        decreases steps,
    {
        if t >= SCHEDULE_HORIZON {
            return None;
        }
        if cron_matches(f, t) {
            return Some(t);
        }
        t = t + 60;
        steps = steps - 1;
    }
    None
}

} // verus!
