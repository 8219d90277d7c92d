//! Autonomy enforcement, command risk classification, path rules and the
//! per-hour action budget.
//!
//! Every side-effectful action passes these gates: the autonomy level
//! must allow acting at all, the command's executables must be
//! allowlisted, path arguments must avoid the forbidden roots, risky
//! commands need approval or are blocked, and the hourly action budget
//! must not be exhausted.

use vstd::prelude::*;
use vstd::string::StringExecFns;

use crate::chars::{
    contains_sub, spec_contains, spec_starts_with, starts_with_chars, str_chars, string_of_chars,
    subrange_chars,
};
use crate::clock::now_secs;
use crate::cmdline::{
    basename, first_non_env, spec_basename, spec_first_non_env, spec_segments, spec_tokens,
    split_segments, split_tokens,
};
use crate::strutil::str_eq;

verus! {

/// Coarse capability gate for the whole runtime.
#[derive(Debug, Clone, Copy, PartialEq, Eq, Structural)]
pub enum AutonomyLevel {
    /// No side effects at all.
    ReadOnly,
    /// Medium-risk commands need explicit approval.
    Supervised,
    /// All non-high-risk commands run without prompting.
    Full,
}

impl Default for AutonomyLevel {
    fn default() -> (r: Self)
        ensures
            r == AutonomyLevel::Supervised,
    {
        AutonomyLevel::Supervised
    }
}

/// Risk class of a shell command.
#[derive(Debug, Clone, Copy, PartialEq, Eq, Structural)]
pub enum CommandRisk {
    Low,
    Medium,
    High,
}

/// A command that matches the fixed destructive vocabulary.
pub open spec fn spec_high_risk(s: Seq<char>) -> bool {
    ||| spec_contains(s, "rm -rf /"@)
    ||| spec_contains(s, "dd if="@)
    ||| spec_contains(s, "mkfs"@)
    ||| spec_contains(s, ":(){:|:&};:"@)
    ||| spec_contains(s, "> /dev/sd"@)
    ||| spec_contains(s, ">/dev/sd"@)
    ||| ((spec_contains(s, "curl"@) || spec_contains(s, "wget"@)) && (spec_contains(s, "| sh"@)
        || spec_contains(s, "|sh"@) || spec_contains(s, "| bash"@) || spec_contains(s, "|bash"@)))
}

/// A command that mutates the filesystem or network state.
pub open spec fn spec_medium_risk(s: Seq<char>) -> bool {
    ||| spec_contains(s, "rm "@)
    ||| spec_contains(s, "rmdir "@)
    ||| spec_contains(s, "mv "@)
    ||| spec_contains(s, "cp "@)
    ||| spec_contains(s, "chmod "@)
    ||| spec_contains(s, "chown "@)
    ||| spec_contains(s, "dd "@)
    ||| spec_contains(s, "kill "@)
    ||| spec_contains(s, "pkill "@)
    ||| spec_contains(s, "killall "@)
    ||| spec_contains(s, "systemctl "@)
    ||| spec_contains(s, "service "@)
    ||| spec_contains(s, "iptables "@)
    ||| spec_contains(s, "ifconfig "@)
    ||| spec_contains(s, "route "@)
    ||| spec_contains(s, "git push"@)
    ||| spec_contains(s, ">"@)
    ||| spec_contains(s, "shutdown"@)
    ||| spec_contains(s, "reboot"@)
}

/// Risk class of a command: high markers first, then the mutating
/// vocabulary, else low.
pub open spec fn spec_risk(s: Seq<char>) -> CommandRisk {
    if spec_high_risk(s) {
        CommandRisk::High
    } else if spec_medium_risk(s) {
        CommandRisk::Medium
    } else {
        CommandRisk::Low
    }
}

/// `~` at the front of a path, replaced by the home directory.
pub open spec fn spec_expand_tilde(p: Seq<char>, home: Seq<char>) -> Seq<char> {
    if spec_starts_with(p, "~"@) {
        home + p.subrange(1, p.len() as int)
    } else {
        p
    }
}

/// A path avoids every forbidden root: it neither equals nor extends one.
pub open spec fn spec_path_allowed(p: Seq<char>, forbidden: Seq<Seq<char>>) -> bool {
    forall|j: int| 0 <= j < forbidden.len() ==> !spec_starts_with(p, forbidden[j])
}

/// One pipeline segment passes the allowlist: after any environment
/// assignments, it is empty or its executable's basename is allowed.
pub open spec fn spec_segment_allowed(seg: Seq<char>, allowed: Seq<Seq<char>>) -> bool {
    let toks = spec_tokens(seg);
    let i = spec_first_non_env(toks, 0);
    i >= toks.len() || exists|j: int|
        0 <= j < allowed.len() && allowed[j] == spec_basename(toks[i])
}

/// Every pipeline segment of the command passes the allowlist.
pub open spec fn spec_command_allowed(s: Seq<char>, allowed: Seq<Seq<char>>) -> bool {
    forall|k: int|
        0 <= k < spec_segments(s).len() ==> spec_segment_allowed(spec_segments(s)[k], allowed)
}

/// An action stamped `t` (seconds) still counts against the hourly
/// budget at `now`.
pub open spec fn within_hour(t: u64, now: u64) -> bool {
    now <= t || now - t < 3600
}

/// The recorded actions still within the trailing hour.
pub open spec fn recent_actions(actions: Seq<u64>, now: u64) -> Seq<u64> {
    actions.filter(|t: u64| within_hour(t, now))
}

/// Security policy state: the configuration plus the recorded action
/// stamps.
pub struct SecurityPolicy {
    level: AutonomyLevel,
    allowed_commands: Vec<String>,
    forbidden_paths: Vec<String>,
    max_actions_per_hour: u32,
    require_approval_for_medium_risk: bool,
    block_high_risk_commands: bool,
    actions: Vec<u64>,
}

impl SecurityPolicy {
    pub closed spec fn level(&self) -> AutonomyLevel {
        self.level
    }

    pub closed spec fn allowed(&self) -> Seq<Seq<char>> {
        self.allowed_commands.deep_view()
    }

    pub closed spec fn forbidden(&self) -> Seq<Seq<char>> {
        self.forbidden_paths.deep_view()
    }

    pub closed spec fn max_per_hour(&self) -> u32 {
        self.max_actions_per_hour
    }

    pub closed spec fn requires_medium_approval(&self) -> bool {
        self.require_approval_for_medium_risk
    }

    pub closed spec fn blocks_high_risk(&self) -> bool {
        self.block_high_risk_commands
    }

    pub closed spec fn actions(&self) -> Seq<u64> {
        self.actions@
    }

    /// Builds a policy. Forbidden paths are `~`-expanded against
    /// `home_dir` once, here.
    pub fn new(
        level: AutonomyLevel,
        allowed_commands: Vec<String>,
        forbidden_paths: Vec<String>,
        max_actions_per_hour: u32,
        require_approval_for_medium_risk: bool,
        block_high_risk_commands: bool,
        home_dir: &str,
    ) -> (r: Self)
        ensures
            r.level() == level,
            r.allowed() == allowed_commands.deep_view(),
            r.forbidden() == forbidden_paths.deep_view().map_values(
                |p: Seq<char>| spec_expand_tilde(p, home_dir@),
            ),
            r.max_per_hour() == max_actions_per_hour,
            r.requires_medium_approval() == require_approval_for_medium_risk,
            r.blocks_high_risk() == block_high_risk_commands,
            r.actions().len() == 0,
    {
        let n = forbidden_paths.len();
        let mut expanded: Vec<String> = Vec::new();
        let mut i: usize = 0;
        proof {
            assert(expanded.deep_view() =~~= forbidden_paths.deep_view().take(0).map_values(
                |p: Seq<char>| spec_expand_tilde(p, home_dir@),
            ));
        }
        while i < n
            invariant
                n == forbidden_paths@.len(),
                i <= n,
                expanded.deep_view() == forbidden_paths.deep_view().take(i as int).map_values(
                    |p: Seq<char>| spec_expand_tilde(p, home_dir@),
                ),
            decreases n - i,
        {
            let ghost before = expanded.deep_view();
            let e = expand_tilde(forbidden_paths[i].as_str(), home_dir);
            let ghost ev = e@;
            expanded.push(e);
            proof {
                assert(forbidden_paths.deep_view()[i as int] == forbidden_paths@[i as int]@);
                assert(expanded.deep_view() =~~= before.push(ev));
                assert(expanded.deep_view() =~~= forbidden_paths.deep_view().take(
                    i + 1,
                ).map_values(|p: Seq<char>| spec_expand_tilde(p, home_dir@)));
            }
            i = i + 1;
        }
        proof {
            assert(forbidden_paths.deep_view().take(n as int) =~~= forbidden_paths.deep_view());
        }
        SecurityPolicy {
            level,
            allowed_commands,
            forbidden_paths: expanded,
            max_actions_per_hour,
            require_approval_for_medium_risk,
            block_high_risk_commands,
            actions: Vec::new(),
        }
    }

    /// False exactly when the autonomy level is read-only.
    pub fn can_act(&self) -> (r: bool)
        ensures
            r == (self.level() != AutonomyLevel::ReadOnly),
    {
        match self.level {
            AutonomyLevel::ReadOnly => false,
            _ => true,
        }
    }

    /// Whether the trailing hour already holds at least the budget.
    pub fn is_rate_limited_at(&self, now: u64) -> (r: bool)
        ensures
            r == (recent_actions(self.actions(), now).len() >= self.max_per_hour()),
    {
        let count = count_recent_actions(&self.actions, now);
        count >= self.max_actions_per_hour as usize
    }

    /// Whether the trailing hour already holds at least the budget, at
    /// the current wall clock.
    pub fn is_rate_limited(&self) -> (r: bool)
        ensures
            exists|now: u64| r == (recent_actions(self.actions(), now).len() >= self.max_per_hour()),
    {
        let now = now_secs();
        let r = self.is_rate_limited_at(now);
        proof {
            assert(r == (recent_actions(self.actions(), now).len() >= self.max_per_hour()));
        }
        r
    }

    /// Records an action stamped `now` if the budget allows one more,
    /// pruning stamps older than an hour either way. Returns whether the
    /// action stayed within budget; with a budget of zero this is always
    /// false.
    pub fn record_action_at(&mut self, now: u64) -> (r: bool)
        ensures
            final(self).level() == old(self).level(),
            final(self).allowed() == old(self).allowed(),
            final(self).forbidden() == old(self).forbidden(),
            final(self).max_per_hour() == old(self).max_per_hour(),
            final(self).requires_medium_approval() == old(self).requires_medium_approval(),
            final(self).blocks_high_risk() == old(self).blocks_high_risk(),
            r == (recent_actions(old(self).actions(), now).len() < old(self).max_per_hour()),
            r ==> final(self).actions() == recent_actions(old(self).actions(), now).push(now),
            !r ==> final(self).actions() == recent_actions(old(self).actions(), now),
            old(self).max_per_hour() == 0 ==> !r,
    {
        let old_actions = &self.actions;
        let n = old_actions.len();
        let mut kept: Vec<u64> = Vec::new();
        let mut i: usize = 0;
        proof {
            assert(old_actions@.take(0).filter(|t: u64| within_hour(t, now))
                =~= Seq::<u64>::empty());
        }
        while i < n
            invariant
                n == old_actions@.len(),
                i <= n,
                kept@ == old_actions@.take(i as int).filter(|t: u64| within_hour(t, now)),
            decreases n - i,
        {
            let t = old_actions[i];
            proof {
                assert(old_actions@.take(i + 1).drop_last() =~= old_actions@.take(i as int));
                assert(old_actions@.take(i + 1).last() == old_actions@[i as int]);
                reveal_with_fuel(Seq::filter, 2);
            }
            if now <= t || now - t < 3600 {
                kept.push(t);
            }
            i = i + 1;
        }
        proof {
            assert(old_actions@.take(n as int) =~= old_actions@);
        }
        let within = kept.len() < self.max_actions_per_hour as usize;
        if within {
            kept.push(now);
        }
        self.actions = kept;
        within
    }

    /// Records an action at the current wall clock.
    pub fn record_action(&mut self) -> (r: bool)
        ensures
            final(self).level() == old(self).level(),
            final(self).allowed() == old(self).allowed(),
            final(self).forbidden() == old(self).forbidden(),
            final(self).max_per_hour() == old(self).max_per_hour(),
            final(self).requires_medium_approval() == old(self).requires_medium_approval(),
            final(self).blocks_high_risk() == old(self).blocks_high_risk(),
            exists|now: u64|
                {
                    &&& r == (recent_actions(old(self).actions(), now).len() < old(
                        self,
                    ).max_per_hour())
                    &&& (r ==> final(self).actions() == recent_actions(
                        old(self).actions(),
                        now,
                    ).push(now))
                    &&& (!r ==> final(self).actions() == recent_actions(old(self).actions(), now))
                },
            old(self).max_per_hour() == 0 ==> !r,
    {
        let now = now_secs();
        self.record_action_at(now)
    }

    /// Whether every pipeline segment of `cmd` runs an allowlisted
    /// executable.
    pub fn is_command_allowed(&self, cmd: &str) -> (r: bool)
        ensures
            r == spec_command_allowed(cmd@, self.allowed()),
    {
        let chars = str_chars(cmd);
        let segments = split_segments(&chars);
        let nsegs = segments.len();
        let mut k: usize = 0;
        while k < nsegs
            invariant
                nsegs == spec_segments(cmd@).len(),
                segments.deep_view() == spec_segments(cmd@),
                k <= nsegs,
                forall|m: int|
                    0 <= m < k ==> spec_segment_allowed(spec_segments(cmd@)[m], self.allowed()),
            decreases nsegs - k,
        {
            proof {
                assert(segments.deep_view()[k as int] == segments@[k as int]@);
            }
            let toks = split_tokens(&segments[k]);
            let idx = first_non_env(&toks, 0);
            if idx < toks.len() {
                proof {
                    assert(toks.deep_view()[idx as int] == toks@[idx as int]@);
                }
                let base = basename(&toks[idx]);
                let base_str = string_of_chars(&base);
                if !self.allowed_contains(base_str.as_str()) {
                    return false;
                }
            }
            k = k + 1;
        }
        true
    }

    fn allowed_contains(&self, name: &str) -> (r: bool)
        ensures
            r == exists|j: int|
                0 <= j < self.allowed().len() && self.allowed()[j] == name@,
    {
        let n = self.allowed_commands.len();
        let mut j: usize = 0;
        while j < n
            invariant
                n == self.allowed().len(),
                j <= n,
                forall|m: int| 0 <= m < j ==> self.allowed()[m] != name@,
            decreases n - j,
        {
            proof {
                assert(self.allowed()[j as int] == self.allowed_commands@[j as int]@);
            }
            if str_eq(self.allowed_commands[j].as_str(), name) {
                return true;
            }
            j = j + 1;
        }
        false
    }

    /// Whether `p` avoids every forbidden root.
    pub fn is_path_allowed(&self, p: &str) -> (r: bool)
        ensures
            r == spec_path_allowed(p@, self.forbidden()),
    {
        let chars = str_chars(p);
        let n = self.forbidden_paths.len();
        let mut j: usize = 0;
        while j < n
            invariant
                n == self.forbidden().len(),
                chars@ == p@,
                j <= n,
                forall|m: int| 0 <= m < j ==> !spec_starts_with(p@, self.forbidden()[m]),
            decreases n - j,
        {
            proof {
                assert(self.forbidden()[j as int] == self.forbidden_paths@[j as int]@);
            }
            if starts_with_chars(&chars, self.forbidden_paths[j].as_str()) {
                return false;
            }
            j = j + 1;
        }
        true
    }

    /// Risk class of `cmd` under the fixed vocabulary.
    pub fn classify_command_risk(&self, cmd: &str) -> (r: CommandRisk)
        ensures
            r == spec_risk(cmd@),
    {
        let chars = str_chars(cmd);
        let high = contains_sub(&chars, "rm -rf /") || contains_sub(&chars, "dd if=")
            || contains_sub(&chars, "mkfs") || contains_sub(&chars, ":(){:|:&};:") || contains_sub(
            &chars,
            "> /dev/sd",
        ) || contains_sub(&chars, ">/dev/sd") || ((contains_sub(&chars, "curl") || contains_sub(
            &chars,
            "wget",
        )) && (contains_sub(&chars, "| sh") || contains_sub(&chars, "|sh") || contains_sub(
            &chars,
            "| bash",
        ) || contains_sub(&chars, "|bash")));
        if high {
            return CommandRisk::High;
        }
        let medium = contains_sub(&chars, "rm ") || contains_sub(&chars, "rmdir ") || contains_sub(
            &chars,
            "mv ",
        ) || contains_sub(&chars, "cp ") || contains_sub(&chars, "chmod ") || contains_sub(
            &chars,
            "chown ",
        ) || contains_sub(&chars, "dd ") || contains_sub(&chars, "kill ") || contains_sub(
            &chars,
            "pkill ",
        ) || contains_sub(&chars, "killall ") || contains_sub(&chars, "systemctl ")
            || contains_sub(&chars, "service ") || contains_sub(&chars, "iptables ")
            || contains_sub(&chars, "ifconfig ") || contains_sub(&chars, "route ") || contains_sub(
            &chars,
            "git push",
        ) || contains_sub(&chars, ">") || contains_sub(&chars, "shutdown") || contains_sub(
            &chars,
            "reboot",
        );
        if medium {
            CommandRisk::Medium
        } else {
            CommandRisk::Low
        }
    }

    /// Gate for executing `cmd`: high-risk commands are refused when the
    /// policy blocks them; medium-risk commands need approval when the
    /// policy asks for it; everything else passes. Independent of the
    /// action budget.
    pub fn validate_command_execution(&self, cmd: &str, approved: bool) -> (r: Result<
        (),
        String,
    >)
        ensures
            r is Ok <==> !(self.blocks_high_risk() && spec_risk(cmd@) == CommandRisk::High) && !(
            spec_risk(cmd@) == CommandRisk::Medium && self.requires_medium_approval() && !approved),
            self.blocks_high_risk() && spec_risk(cmd@) == CommandRisk::High ==> (r matches Err(m)
                && m@ == "Command blocked by security policy: high-risk command"@),
            spec_risk(cmd@) == CommandRisk::Medium && self.requires_medium_approval() && !approved
                ==> (r matches Err(m) && m@
                == "Command requires approval: medium-risk command (pass approved=true)"@),
    {
        let risk = self.classify_command_risk(cmd);
        if self.block_high_risk_commands && risk == CommandRisk::High {
            let mut m = String::new();
            m.append("Command blocked by security policy: high-risk command");
            proof {
                assert(m@ =~= "Command blocked by security policy: high-risk command"@);
            }
            return Err(m);
        }
        if risk == CommandRisk::Medium && self.require_approval_for_medium_risk && !approved {
            let mut m = String::new();
            m.append("Command requires approval: medium-risk command (pass approved=true)");
            proof {
                assert(m@ =~= "Command requires approval: medium-risk command (pass approved=true)"@);
            }
            return Err(m);
        }
        Ok(())
    }
}

/// Expands a leading `~` to the home directory.
pub fn expand_tilde(p: &str, home: &str) -> (r: String)
    ensures
        r@ == spec_expand_tilde(p@, home@),
{
    let chars = str_chars(p);
    if starts_with_chars(&chars, "~") {
        proof {
            reveal_strlit("~");
        }
        let mut out = home.to_owned();
        let rest = subrange_chars(&chars, 1, chars.len());
        let rest_str = string_of_chars(&rest);
        out.append(rest_str.as_str());
        out
    } else {
        p.to_owned()
    }
}

/// Counts the recorded actions still within the trailing hour.
fn count_recent_actions(actions: &Vec<u64>, now: u64) -> (r: usize)
    ensures
        r == recent_actions(actions@, now).len(),
{
    let n = actions.len();
    let mut count: usize = 0;
    let mut i: usize = 0;
    proof {
        assert(actions@.take(0).filter(|t: u64| within_hour(t, now)) =~= Seq::<u64>::empty());
    }
    while i < n
        invariant
            n == actions@.len(),
            i <= n,
            count <= i,
            count == actions@.take(i as int).filter(|t: u64| within_hour(t, now)).len(),
        decreases n - i,
    {
        let t = actions[i];
        proof {
            assert(actions@.take(i + 1).drop_last() =~= actions@.take(i as int));
            assert(actions@.take(i + 1).last() == actions@[i as int]);
            reveal_with_fuel(Seq::filter, 2);
        }
        if now <= t || now - t < 3600 {
            count = count + 1;
        }
        i = i + 1;
    }
    proof {
        assert(actions@.take(n as int) =~= actions@);
    }
    count
}

/// A filter by a weaker predicate keeps at least as many elements.
proof fn lemma_filter_mono(s: Seq<u64>, p1: spec_fn(u64) -> bool, p2: spec_fn(u64) -> bool)
    requires
        forall|i: int| 0 <= i < s.len() && p1(s[i]) ==> p2(s[i]),
    ensures
        s.filter(p1).len() <= s.filter(p2).len(),
    decreases s.len(),
{
    reveal_with_fuel(Seq::filter, 2);
    if s.len() > 0 {
        lemma_filter_mono(s.drop_last(), p1, p2);
    }
}

/// Once the hourly budget is exhausted, it stays exhausted: if the
/// recorded actions reach the budget at `t1`, and none of the actions
/// counted at `t1` has aged past an hour by `t2`, the count at `t2`
/// still reaches the budget, so recording is still refused.
pub proof fn lemma_budget_exhausted_stays(actions: Seq<u64>, max: u32, t1: u64, t2: u64)
    requires
        recent_actions(actions, t1).len() >= max,
        forall|i: int|
            0 <= i < actions.len() && within_hour(#[trigger] actions[i], t1) ==> within_hour(
                actions[i],
                t2,
            ),
    ensures
        recent_actions(actions, t2).len() >= max,
{
    lemma_filter_mono(actions, |t: u64| within_hour(t, t1), |t: u64| within_hour(t, t2));
}

} // verus!
