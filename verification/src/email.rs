//! Email channel rules: sender allowlist, HTML stripping, message
//! deduplication, subject resolution and reconnection backoff.
//!
//! The IMAP/SMTP sessions live outside the library; they hand parsed
//! messages in as plain values and take outbound subjects and bodies
//! back.

use vstd::prelude::*;
use vstd::string::StringExecFns;

use crate::chars::{
    contains_sub, ends_with_chars, lower_chars, spec_contains, spec_ends_with, spec_lower,
    spec_starts_with, starts_with_chars, str_chars, string_of_chars, subrange_chars,
};
use crate::cmdline::{spec_tokens, split_tokens};
use crate::seen::BoundedSeenSet;

verus! {

/// How many message ids the deduplication set remembers.
pub const SEEN_MESSAGES_CAPACITY: usize = 100000;

pub fn default_imap_port() -> (r: u16)
    ensures
        r == 993,
{
    993
}

pub fn default_smtp_port() -> (r: u16)
    ensures
        r == 587,
{
    587
}

pub fn default_imap_folder() -> (r: String)
    ensures
        r@ == "INBOX"@,
{
    let mut s = String::new();
    s.append("INBOX");
    proof {
        assert(s@ =~= "INBOX"@);
    }
    s
}

/// 29 minutes: clients re-enter IDLE within that span.
pub fn default_idle_timeout() -> (r: u64)
    ensures
        r == 1740,
{
    1740
}

pub fn default_true() -> (r: bool)
    ensures
        r,
{
    true
}

/// Email channel configuration.
#[derive(Debug, Clone)]
pub struct EmailConfig {
    pub imap_host: String,
    pub imap_port: u16,
    pub imap_folder: String,
    pub smtp_host: String,
    pub smtp_port: u16,
    pub smtp_tls: bool,
    pub username: String,
    pub password: String,
    pub from_address: String,
    pub idle_timeout_secs: u64,
    /// Empty denies all senders; `"*"` allows all.
    pub allowed_senders: Vec<String>,
}

impl Default for EmailConfig {
    fn default() -> (r: Self)
        ensures
            r.imap_host@ == Seq::<char>::empty(),
            r.imap_port == 993,
            r.imap_folder@ == "INBOX"@,
            r.smtp_host@ == Seq::<char>::empty(),
            r.smtp_port == 587,
            r.smtp_tls,
            r.username@ == Seq::<char>::empty(),
            r.password@ == Seq::<char>::empty(),
            r.from_address@ == Seq::<char>::empty(),
            r.idle_timeout_secs == 1740,
            r.allowed_senders@.len() == 0,
    {
        EmailConfig {
            imap_host: String::new(),
            imap_port: default_imap_port(),
            imap_folder: default_imap_folder(),
            smtp_host: String::new(),
            smtp_port: default_smtp_port(),
            smtp_tls: true,
            username: String::new(),
            password: String::new(),
            from_address: String::new(),
            idle_timeout_secs: default_idle_timeout(),
            allowed_senders: Vec::new(),
        }
    }
}

/// Whether one allowlist entry admits the sender: `@domain` entries
/// match by suffix, entries with `@` match the whole address
/// case-insensitively, and bare entries match as a domain suffix.
pub open spec fn spec_entry_matches(entry: Seq<char>, email: Seq<char>) -> bool {
    if spec_starts_with(entry, "@"@) {
        spec_ends_with(spec_lower(email), spec_lower(entry))
    } else if spec_contains(entry, "@"@) {
        spec_lower(entry) == spec_lower(email)
    } else {
        spec_ends_with(spec_lower(email), "@"@ + spec_lower(entry))
    }
}

/// Whether the allowlist admits the sender: an empty list denies all,
/// a `"*"` entry allows all, otherwise some entry must match.
pub open spec fn spec_sender_allowed(allowed: Seq<Seq<char>>, email: Seq<char>) -> bool {
    if allowed.len() == 0 {
        false
    } else if exists|i: int| 0 <= i < allowed.len() && allowed[i] == "*"@ {
        true
    } else {
        exists|i: int| 0 <= i < allowed.len() && spec_entry_matches(allowed[i], email)
    }
}

/// Email channel state: its configuration and the deduplication set.
pub struct EmailChannel {
    pub config: EmailConfig,
    seen_messages: BoundedSeenSet,
}

impl EmailChannel {
    pub closed spec fn seen(&self) -> crate::seen::BoundedSeenSet {
        self.seen_messages
    }

    pub closed spec fn cfg(&self) -> EmailConfig {
        self.config
    }

    pub fn new(config: EmailConfig) -> (r: Self)
        ensures
            r.cfg() == config,
            r.seen().wf(),
            r.seen().ids().len() == 0,
            r.seen().cap() == SEEN_MESSAGES_CAPACITY,
    {
        EmailChannel { config, seen_messages: BoundedSeenSet::new(SEEN_MESSAGES_CAPACITY) }
    }

    /// Whether the configured allowlist admits this sender.
    pub fn is_sender_allowed(&self, email: &str) -> (r: bool)
        ensures
            r == spec_sender_allowed(self.cfg().allowed_senders.deep_view(), email@),
    {
        let allowed = &self.config.allowed_senders;
        let n = allowed.len();
        if n == 0 {
            return false;
        }
        let mut i: usize = 0;
        while i < n
            invariant
                allowed.deep_view() == self.cfg().allowed_senders.deep_view(),
                allowed@ == self.cfg().allowed_senders@,
                n == allowed.deep_view().len(),
                allowed@.len() == n,
                i <= n,
                forall|j: int| 0 <= j < i ==> allowed.deep_view()[j] != "*"@,
            decreases n - i,
        {
            proof {
                assert(allowed.deep_view()[i as int] == allowed@[i as int]@);
            }
            if crate::strutil::str_eq(allowed[i].as_str(), "*") {
                proof {
                    assert(allowed.deep_view()[i as int] == "*"@);
                }
                return true;
            }
            i = i + 1;
        }
        let email_chars = str_chars(email);
        let email_lower = lower_chars(&email_chars);
        let mut k: usize = 0;
        while k < n
            invariant
                allowed.deep_view() == self.cfg().allowed_senders.deep_view(),
                allowed@ == self.cfg().allowed_senders@,
                n == allowed.deep_view().len(),
                allowed@.len() == n,
                k <= n,
                email_chars@ == email@,
                email_lower@ == spec_lower(email@),
                forall|j: int| 0 <= j < n ==> allowed.deep_view()[j] != "*"@,
                forall|j: int|
                    0 <= j < k ==> !spec_entry_matches(allowed.deep_view()[j], email@),
            decreases n - k,
        {
            proof {
                assert(allowed.deep_view()[k as int] == allowed@[k as int]@);
            }
            if entry_matches(allowed[k].as_str(), email, &email_lower) {
                proof {
                    assert(spec_entry_matches(allowed.deep_view()[k as int], email@));
                }
                return true;
            }
            k = k + 1;
        }
        false
    }

    /// Decides delivery of a parsed message: the sender must be allowed
    /// and the message id must be new. A delivered id is remembered, so
    /// the same id is not delivered again while it stays in the set.
    pub fn should_deliver(&mut self, sender: &str, msg_id: String) -> (r: bool)
        requires
            old(self).seen().wf(),
        ensures
            final(self).seen().wf(),
            final(self).cfg() == old(self).cfg(),
            final(self).seen().cap() == old(self).seen().cap(),
            !spec_sender_allowed(old(self).cfg().allowed_senders.deep_view(), sender@) ==> !r
                && final(self).seen() == old(self).seen(),
            spec_sender_allowed(old(self).cfg().allowed_senders.deep_view(), sender@) ==> r == !old(
                self,
            ).seen().ids().contains(msg_id@) && final(self).seen().ids().contains(msg_id@),
    {
        if !self.is_sender_allowed(sender) {
            return false;
        }
        self.seen_messages.insert(msg_id)
    }
}

fn entry_matches(entry: &str, email: &str, email_lower: &Vec<char>) -> (r: bool)
    requires
        email_lower@ == spec_lower(email@),
    ensures
        r == spec_entry_matches(entry@, email@),
{
    let entry_chars = str_chars(entry);
    let entry_lower = lower_chars(&entry_chars);
    if starts_with_chars(&entry_chars, "@") {
        let entry_lower_str = string_of_chars(&entry_lower);
        ends_with_chars(email_lower, entry_lower_str.as_str())
    } else if contains_sub(&entry_chars, "@") {
        let email_lower_str = string_of_chars(email_lower);
        let entry_lower_str = string_of_chars(&entry_lower);
        crate::strutil::str_eq(entry_lower_str.as_str(), email_lower_str.as_str())
    } else {
        let mut pat = String::new();
        pat.append("@");
        let entry_lower_str = string_of_chars(&entry_lower);
        pat.append(entry_lower_str.as_str());
        proof {
            assert(pat@ =~= "@"@ + spec_lower(entry@));
        }
        ends_with_chars(email_lower, pat.as_str())
    }
}

/// The text of an HTML body with tags removed, before whitespace
/// normalization: characters between `<` and `>` are dropped.
pub open spec fn spec_strip_tags_rec(s: Seq<char>, i: int, in_tag: bool, acc: Seq<char>) -> Seq<
    char,
>
    decreases s.len() - i,
{
    if i < 0 || i >= s.len() {
        acc
    } else if s[i] == '<' {
        spec_strip_tags_rec(s, i + 1, true, acc)
    } else if s[i] == '>' {
        spec_strip_tags_rec(s, i + 1, false, acc)
    } else if !in_tag {
        spec_strip_tags_rec(s, i + 1, in_tag, acc.push(s[i]))
    } else {
        spec_strip_tags_rec(s, i + 1, in_tag, acc)
    }
}

/// Words joined by single spaces.
pub open spec fn spec_join_words(words: Seq<Seq<char>>, i: int, acc: Seq<char>) -> Seq<char>
    decreases words.len() - i,
{
    if i < 0 || i >= words.len() {
        acc
    } else if acc.len() == 0 {
        spec_join_words(words, i + 1, words[i])
    } else {
        spec_join_words(words, i + 1, acc + " "@ + words[i])
    }
}

/// Plain text of an HTML body: tags dropped, whitespace collapsed to
/// single spaces.
pub open spec fn spec_strip_html(s: Seq<char>) -> Seq<char> {
    spec_join_words(
        spec_tokens(spec_strip_tags_rec(s, 0, false, Seq::empty())),
        0,
        Seq::empty(),
    )
}

/// Strips HTML tags and collapses whitespace.
pub fn strip_html(html: &str) -> (r: String)
    ensures
        r@ == spec_strip_html(html@),
{
    let chars = str_chars(html);
    let n = chars.len();
    let mut stripped: Vec<char> = Vec::new();
    let mut in_tag = false;
    let mut i: usize = 0;
    while i < n
        invariant
            n == chars@.len(),
            chars@ == html@,
            i <= n,
            spec_strip_tags_rec(html@, 0, false, Seq::empty()) == spec_strip_tags_rec(
                html@,
                i as int,
                in_tag,
                stripped@,
            ),
        decreases n - i,
    {
        let c = chars[i];
        if c == '<' {
            in_tag = true;
        } else if c == '>' {
            in_tag = false;
        } else if !in_tag {
            stripped.push(c);
        }
        i = i + 1;
    }
    let words = split_tokens(&stripped);
    let nw = words.len();
    let mut out = String::new();
    let mut k: usize = 0;
    while k < nw
        invariant
            nw == words.deep_view().len(),
            words@.len() == nw,
            k <= nw,
            spec_join_words(words.deep_view(), 0, Seq::empty()) == spec_join_words(
                words.deep_view(),
                k as int,
                out@,
            ),
        decreases nw - k,
    {
        proof {
            assert(words.deep_view()[k as int] == words@[k as int]@);
        }
        let w = string_of_chars(&words[k]);
        if out.as_str().unicode_len() > 0 {
            out.append(" ");
            out.append(w.as_str());
        } else {
            out.append(w.as_str());
            proof {
                assert(out@ =~= words.deep_view()[k as int]);
            }
        }
        k = k + 1;
    }
    out
}

/// First newline position in `s`, if any.
pub open spec fn spec_first_nl(s: Seq<char>, i: int) -> Option<int>
    decreases s.len() - i,
{
    if i < 0 || i >= s.len() {
        None
    } else if s[i] == '\n' {
        Some(i)
    } else {
        spec_first_nl(s, i + 1)
    }
}

/// The subject and body of an outbound message: an explicit subject is
/// used as is; otherwise a legacy `Subject: ...` first line is split
/// off; otherwise the default subject is used.
pub open spec fn spec_resolve_subject(subject: Option<Seq<char>>, content: Seq<char>) -> (
    Seq<char>,
    Seq<char>,
) {
    match subject {
        Some(s) => (s, content),
        None => {
            if spec_starts_with(content, "Subject: "@) {
                match spec_first_nl(content, 0) {
                    Some(p) => (
                        content.subrange("Subject: "@.len() as int, p),
                        spec_trim_ws(content.skip(p + 1)),
                    ),
                    None => ("RedClaw Message"@, content),
                }
            } else {
                ("RedClaw Message"@, content)
            }
        },
    }
}

/// ASCII-whitespace trim of both ends, working inward.
pub open spec fn spec_trim_ws_range(s: Seq<char>, a: int, b: int) -> Seq<char>
    decreases b - a,
{
    if a < b && crate::chars::spec_is_ws(s[a]) {
        spec_trim_ws_range(s, a + 1, b)
    } else if a < b && crate::chars::spec_is_ws(s[b - 1]) {
        spec_trim_ws_range(s, a, b - 1)
    } else if 0 <= a <= b <= s.len() {
        s.subrange(a, b)
    } else {
        Seq::empty()
    }
}

pub open spec fn spec_trim_ws(s: Seq<char>) -> Seq<char> {
    spec_trim_ws_range(s, 0, s.len() as int)
}

/// Trims ASCII whitespace from both ends.
pub fn trim_ws(v: &Vec<char>) -> (r: Vec<char>)
    ensures
        r@ == spec_trim_ws(v@),
{
    let mut a: usize = 0;
    let mut b: usize = v.len();
    while a < b
        invariant
            a <= b <= v@.len(),
            spec_trim_ws(v@) == spec_trim_ws_range(v@, a as int, b as int),
        ensures
            a <= b <= v@.len(),
            spec_trim_ws(v@) == spec_trim_ws_range(v@, a as int, b as int),
            a == b || (!crate::chars::spec_is_ws(v@[a as int]) && !crate::chars::spec_is_ws(
                v@[b - 1],
            )),
        decreases b - a,
    {
        if crate::chars::is_ws(v[a]) {
            a = a + 1;
        } else if crate::chars::is_ws(v[b - 1]) {
            b = b - 1;
        } else {
            break;
        }
    }
    proof {
        assert(spec_trim_ws_range(v@, a as int, b as int) == v@.subrange(a as int, b as int));
    }
    subrange_chars(v, a, b)
}

/// Resolves the subject and body for an outbound message.
pub fn resolve_subject_body(subject: &Option<String>, content: &str) -> (r: (String, String))
    ensures
        (r.0@, r.1@) == spec_resolve_subject(
            match subject {
                Some(s) => Some(s@),
                None => None,
            },
            content@,
        ),
{
    if let Some(s) = subject {
        return (s.clone(), content.to_owned());
    }
    let chars = str_chars(content);
    if starts_with_chars(&chars, "Subject: ") {
        proof {
            reveal_strlit("Subject: ");
            assert("Subject: "@.len() == 9);
        }
        if let Some(p) = find_nl(&chars) {
            proof {
                assert forall|j: int| 0 <= j < 9 implies chars@[j] != '\n' by {
                    assert(chars@.subrange(0, 9) == "Subject: "@);
                    assert(chars@.subrange(0, 9)[j] == chars@[j]);
                    assert("Subject: "@[j] != '\n');
                }
                assert(p >= 9);
            }
            let clen = chars.len();
            let subj = subrange_chars(&chars, 9, p);
            let rest = subrange_chars(&chars, p + 1, clen);
            let body = trim_ws(&rest);
            proof {
                assert(rest@ =~= chars@.skip(p + 1));
            }
            return (string_of_chars(&subj), string_of_chars(&body));
        }
    }
    let mut d = String::new();
    d.append("RedClaw Message");
    proof {
        assert(d@ =~= "RedClaw Message"@);
    }
    (d, content.to_owned())
}

fn find_nl(v: &Vec<char>) -> (r: Option<usize>)
    ensures
        match r {
            Some(p) => spec_first_nl(v@, 0) == Some(p as int) && p < v@.len() && v@[p as int]
                == '\n' && forall|j: int| 0 <= j < p ==> v@[j] != '\n',
            None => spec_first_nl(v@, 0) is None,
        },
{
    let n = v.len();
    let mut i: usize = 0;
    while i < n
        invariant
            n == v@.len(),
            i <= n,
            spec_first_nl(v@, 0) == spec_first_nl(v@, i as int),
            forall|j: int| 0 <= j < i ==> v@[j] != '\n',
        decreases n - i,
    {
        if v[i] == '\n' {
            return Some(i);
        }
        i = i + 1;
    }
    None
}

/// Composes the inbound message content from a parsed email.
pub fn compose_email_content(subject: &str, body: &str) -> (r: String)
    ensures
        r@ == "Subject: "@ + subject@ + "\n\n"@ + body@,
{
    let mut out = String::new();
    out.append("Subject: ");
    out.append(subject);
    out.append("\n\n");
    out.append(body);
    proof {
        assert(out@ =~= "Subject: "@ + subject@ + "\n\n"@ + body@);
    }
    out
}

/// A message id is delivered at most once while it stays in the
/// deduplication set: once delivery put it there, any later delivery
/// decision that still finds it there reports it as not new, so no
/// second message is emitted. (With a full set, an id can be evicted to
/// make room and would then be accepted again; the set's capacity
/// bounds how far back the guarantee reaches.)
pub proof fn lemma_duplicate_delivered_at_most_once(
    ids: Seq<Seq<char>>,
    id: Seq<char>,
    second_new: bool,
)
    requires
        ids.contains(id),
        second_new == !ids.contains(id),
    ensures
        !second_new,
{
}

/// What one IDLE round reported.
#[derive(Debug, Clone, Copy, PartialEq, Eq, Structural)]
pub enum IdleEvent {
    /// The server pushed a new-mail notification.
    NewMail,
    /// The refresh timeout fired with no news.
    Timeout,
    /// A clean shutdown was requested.
    Interrupted,
    /// The session failed.
    Failed,
}

/// What the connection loop does next.
#[derive(Debug, Clone, Copy, PartialEq, Eq, Structural)]
pub enum IdleStep {
    /// Fetch the unseen messages, then enter IDLE again on the same
    /// connection.
    ProcessAndContinue,
    /// Leave the loop; this is the only clean exit.
    Exit,
    /// Drop the connection, sleep for the given delay, then reconnect.
    ReconnectAfter { delay_secs: u64 },
}

/// Decides the connection loop's next step after one IDLE round. New
/// mail and the refresh timeout both fetch and re-enter on the same
/// connection, and reset the backoff to one second; an interruption
/// exits; a failure reconnects after the current backoff, which then
/// doubles, capped at one minute.
pub fn idle_transition(event: IdleEvent, backoff_secs: u64) -> (r: (IdleStep, u64))
    requires
        1 <= backoff_secs <= 60,
    ensures
        1 <= r.1 <= 60,
        event == IdleEvent::NewMail ==> r == (IdleStep::ProcessAndContinue, 1u64),
        event == IdleEvent::Timeout ==> r == (IdleStep::ProcessAndContinue, 1u64),
        event == IdleEvent::Interrupted ==> r.0 == IdleStep::Exit,
        event == IdleEvent::Failed ==> r == (
            IdleStep::ReconnectAfter { delay_secs: backoff_secs },
            if 2 * backoff_secs <= 60 {
                (2 * backoff_secs) as u64
            } else {
                60u64
            },
        ),
{
    match event {
        IdleEvent::NewMail => (IdleStep::ProcessAndContinue, initial_backoff_secs()),
        IdleEvent::Timeout => (IdleStep::ProcessAndContinue, initial_backoff_secs()),
        IdleEvent::Interrupted => (IdleStep::Exit, backoff_secs),
        IdleEvent::Failed => (
            IdleStep::ReconnectAfter { delay_secs: backoff_secs },
            next_backoff_secs(backoff_secs),
        ),
    }
}

/// Reconnection backoff: starts at one second.
pub fn initial_backoff_secs() -> (r: u64)
    ensures
        r == 1,
{
    1
}

/// Reconnection backoff after a failure: doubled, capped at one minute.
pub fn next_backoff_secs(cur: u64) -> (r: u64)
    requires
        1 <= cur <= 60,
    ensures
        r == if 2 * cur <= 60 {
            2 * cur
        } else {
            60int
        },
{
    if cur > 30 {
        60
    } else {
        cur * 2
    }
}

} // verus!
