//! What a node makes of its authentication log: which lines are security
//! events, the alert for such a line, repeated-failure tracking, and the
//! address a node reports for itself.

use vstd::prelude::*;
use crate::models::Alert;
use crate::numbers::{decimal_digits, push_u8_decimal};
use crate::pattern::{regex_compiles, regex_is_match, CompiledPattern, PatternError};
use crate::registry::{entry_views, find_key, keys_distinct, lemma_map_of, map_of, put_entry};
use crate::text::{copy_str, trim, trim_spec};

verus! {

// ---------------------------------------------------------------------------
// Log-line classification
// ---------------------------------------------------------------------------

/// The kinds of security event that a log line can report.
#[derive(Clone, Copy, Debug, PartialEq, Eq, Structural)]
pub enum EventKind {
    SshLogin,
    Sudo,
    NewUserCreated,
    NewGroupCreated,
}

impl EventKind {
    pub open spec fn name_spec(self) -> Seq<char> {
        match self {
            EventKind::SshLogin => "SSH_LOGIN"@,
            EventKind::Sudo => "SUDO"@,
            EventKind::NewUserCreated => "NEW_USER_CREATED"@,
            EventKind::NewGroupCreated => "NEW_GROUP_CREATED"@,
        }
    }

    /// The event type an alert carries for this kind.
    pub fn name(&self) -> (s: &'static str)
        ensures
            s@ == self.name_spec(),
    {
        match self {
            EventKind::SshLogin => "SSH_LOGIN",
            EventKind::Sudo => "SUDO",
            EventKind::NewUserCreated => "NEW_USER_CREATED",
            EventKind::NewGroupCreated => "NEW_GROUP_CREATED",
        }
    }
}

pub open spec fn ssh_login_pattern() -> Seq<char> {
    "sshd.*Accepted (password|publickey) for (\\S+) from (\\S+)"@
}

pub open spec fn sudo_pattern() -> Seq<char> {
    "sudo:.*COMMAND=(.+)"@
}

pub open spec fn new_user_pattern() -> Seq<char> {
    "(useradd|adduser).*new user"@
}

pub open spec fn new_group_pattern() -> Seq<char> {
    "(groupadd|addgroup).*new group"@
}

/// The first of the four patterns, in the order SSH login, sudo, new user,
/// new group, that does not compile.
pub open spec fn first_failing_pattern() -> Seq<char> {
    if !regex_compiles(ssh_login_pattern()) {
        ssh_login_pattern()
    } else if !regex_compiles(sudo_pattern()) {
        sudo_pattern()
    } else if !regex_compiles(new_user_pattern()) {
        new_user_pattern()
    } else {
        new_group_pattern()
    }
}

/// The event a line reports, given which of the four patterns match it: the
/// first match in the order SSH login, sudo, new user, new group.
pub open spec fn event_for_spec(ssh: bool, sudo: bool, user: bool, group: bool) -> Option<EventKind> {
    if ssh {
        Some(EventKind::SshLogin)
    } else if sudo {
        Some(EventKind::Sudo)
    } else if user {
        Some(EventKind::NewUserCreated)
    } else if group {
        Some(EventKind::NewGroupCreated)
    } else {
        None
    }
}

/// The event a line reports, given which of the four patterns match it.
pub fn event_for(ssh: bool, sudo: bool, user: bool, group: bool) -> (res: Option<EventKind>)
    ensures
        res == event_for_spec(ssh, sudo, user, group),
{
    if ssh {
        Some(EventKind::SshLogin)
    } else if sudo {
        Some(EventKind::Sudo)
    } else if user {
        Some(EventKind::NewUserCreated)
    } else if group {
        Some(EventKind::NewGroupCreated)
    } else {
        None
    }
}

/// The four patterns that pick security events out of an authentication log.
pub struct LinePatterns {
    ssh_login: CompiledPattern,
    sudo: CompiledPattern,
    new_user: CompiledPattern,
    new_group: CompiledPattern,
}

/// The event that `line` reports, by the four patterns.
pub open spec fn classify_spec(line: Seq<char>) -> Option<EventKind> {
    event_for_spec(
        regex_is_match(ssh_login_pattern(), line),
        regex_is_match(sudo_pattern(), line),
        regex_is_match(new_user_pattern(), line),
        regex_is_match(new_group_pattern(), line),
    )
}

impl LinePatterns {
    #[verifier::type_invariant]
    spec fn wf(&self) -> bool {
        &&& self.ssh_login@ == ssh_login_pattern()
        &&& self.sudo@ == sudo_pattern()
        &&& self.new_user@ == new_user_pattern()
        &&& self.new_group@ == new_group_pattern()
    }

    /// Compiles the four patterns, in the order SSH login, sudo, new user,
    /// new group; the first that fails to compile gives the error.
    pub fn new() -> (res: Result<LinePatterns, PatternError>)
        ensures
            res is Ok <==> (regex_compiles(ssh_login_pattern()) && regex_compiles(sudo_pattern())
                && regex_compiles(new_user_pattern()) && regex_compiles(new_group_pattern())),
            res matches Err(e) ==> e.pattern@ == first_failing_pattern(),
    {
        let ssh_login = match CompiledPattern::compile(
            "sshd.*Accepted (password|publickey) for (\\S+) from (\\S+)",
        ) {
            Ok(p) => p,
            Err(e) => return Err(e),
        };
        let sudo = match CompiledPattern::compile("sudo:.*COMMAND=(.+)") {
            Ok(p) => p,
            Err(e) => return Err(e),
        };
        let new_user = match CompiledPattern::compile("(useradd|adduser).*new user") {
            Ok(p) => p,
            Err(e) => return Err(e),
        };
        let new_group = match CompiledPattern::compile("(groupadd|addgroup).*new group") {
            Ok(p) => p,
            Err(e) => return Err(e),
        };
        Ok(LinePatterns { ssh_login, sudo, new_user, new_group })
    }

    /// The security event that a log line reports, if any.
    pub fn classify(&self, line: &str) -> (res: Option<EventKind>)
        ensures
            res == classify_spec(line@),
            regex_is_match(ssh_login_pattern(), line@) ==> res == Some(EventKind::SshLogin),
            !regex_is_match(ssh_login_pattern(), line@) && regex_is_match(sudo_pattern(), line@)
                ==> res == Some(EventKind::Sudo),
            !regex_is_match(ssh_login_pattern(), line@) && !regex_is_match(sudo_pattern(), line@)
                && regex_is_match(new_user_pattern(), line@) ==> res == Some(
                EventKind::NewUserCreated,
            ),
            !regex_is_match(ssh_login_pattern(), line@) && !regex_is_match(sudo_pattern(), line@)
                && !regex_is_match(new_user_pattern(), line@) && regex_is_match(
                new_group_pattern(),
                line@,
            ) ==> res == Some(EventKind::NewGroupCreated),
            res is None <==> (!regex_is_match(ssh_login_pattern(), line@) && !regex_is_match(
                sudo_pattern(),
                line@,
            ) && !regex_is_match(new_user_pattern(), line@) && !regex_is_match(
                new_group_pattern(),
                line@,
            )),
    {
        proof {
            use_type_invariant(self);
        }
        let ssh = self.ssh_login.is_match(line);
        let sudo = self.sudo.is_match(line);
        let user = self.new_user.is_match(line);
        let group = self.new_group.is_match(line);
        event_for(ssh, sudo, user, group)
    }
}

// ---------------------------------------------------------------------------
// Alerts
// ---------------------------------------------------------------------------

pub open spec fn unknown() -> Seq<char> {
    "unknown"@
}

pub open spec fn or_unknown(o: Option<String>) -> Seq<char> {
    match o {
        Some(s) => s@,
        None => unknown(),
    }
}

fn value_or_unknown(o: Option<String>) -> (res: String)
    ensures
        res@ == or_unknown(o),
{
    match o {
        Some(s) => s,
        None => copy_str("unknown"),
    }
}

/// The alert for a log line: the node's alias, address and host name, each
/// `"unknown"` where it could not be had, and the line trimmed.
pub fn create_alert(
    event_type: &str,
    log_line: &str,
    timestamp: String,
    slave_alias: Option<String>,
    server_ip: Option<String>,
    hostname: Option<String>,
) -> (a: Alert)
    ensures
        a.event_type@ == event_type@,
        a.log_line@ == trim_spec(log_line@),
        a.timestamp@ == timestamp@,
        a.slave_alias@ == or_unknown(slave_alias),
        a.server_ip@ == or_unknown(server_ip),
        a.hostname@ == or_unknown(hostname),
{
    Alert {
        slave_alias: value_or_unknown(slave_alias),
        event_type: copy_str(event_type),
        timestamp,
        log_line: trim(log_line),
        server_ip: value_or_unknown(server_ip),
        hostname: value_or_unknown(hostname),
    }
}

/// An alert as the master relays it for its own log: the same alert under the
/// master's alias.
pub fn relabel_alert(alert: Alert, alias: String) -> (a: Alert)
    ensures
        a.slave_alias@ == alias@,
        a.event_type@ == alert.event_type@,
        a.timestamp@ == alert.timestamp@,
        a.log_line@ == alert.log_line@,
        a.server_ip@ == alert.server_ip@,
        a.hostname@ == alert.hostname@,
{
    Alert { slave_alias: alias, ..alert }
}

// ---------------------------------------------------------------------------
// The node's own address
// ---------------------------------------------------------------------------

/// A network interface as far as choosing the node's address needs it.
#[derive(Clone, Copy, Debug)]
pub struct NetInterface {
    pub is_loopback: bool,
    /// The interface's IPv4 address, where it has one.
    pub ipv4: Option<(u8, u8, u8, u8)>,
}

/// An IPv4 address in dotted decimal.
pub open spec fn ipv4_text(a: (u8, u8, u8, u8)) -> Seq<char> {
    decimal_digits(a.0 as nat) + "."@ + decimal_digits(a.1 as nat) + "."@ + decimal_digits(
        a.2 as nat,
    ) + "."@ + decimal_digits(a.3 as nat)
}

/// The interface is a candidate: not loopback, and with an IPv4 address.
pub open spec fn usable(i: NetInterface) -> bool {
    !i.is_loopback && i.ipv4 is Some
}

/// Writes an IPv4 address in dotted decimal.
pub fn format_ipv4(a: (u8, u8, u8, u8)) -> (s: String)
    ensures
        s@ == ipv4_text(a),
{
    let mut s = String::new();
    push_u8_decimal(&mut s, a.0);
    s.append(".");
    push_u8_decimal(&mut s, a.1);
    s.append(".");
    push_u8_decimal(&mut s, a.2);
    s.append(".");
    push_u8_decimal(&mut s, a.3);
    s
}

/// The address a node reports for itself: that of the first interface that
/// is not loopback and has an IPv4 address; `None` where there is none.
pub fn select_server_ip(interfaces: &Vec<NetInterface>) -> (res: Option<String>)
    ensures
        match res {
            Some(s) => exists|k: int|
                0 <= k < interfaces@.len() && !interfaces@[k].is_loopback && interfaces@[k].ipv4 is Some
                    && (forall|j: int|
                    0 <= j < k ==> #[trigger] interfaces@[j].is_loopback || interfaces@[j].ipv4 is None)
                    && s@ == ipv4_text(interfaces@[k].ipv4->0),
            None => forall|i: int|
                0 <= i < interfaces@.len() ==> #[trigger] interfaces@[i].is_loopback
                    || interfaces@[i].ipv4 is None,
        },
        match res {
            Some(s) => exists|i: int|
                0 <= i < interfaces@.len() && usable(#[trigger] interfaces@[i]) && (forall|j: int|
                    0 <= j < i ==> !usable(#[trigger] interfaces@[j])) && s@ == ipv4_text(
                    interfaces@[i].ipv4->0,
                ),
            None => forall|i: int| 0 <= i < interfaces@.len() ==> !usable(#[trigger] interfaces@[i]),
        },
{
    let mut i: usize = 0;
    while i < interfaces.len()
        invariant
            i <= interfaces@.len(),
            forall|j: int| 0 <= j < i ==> !usable(#[trigger] interfaces@[j]),
        decreases interfaces@.len() - i,
    {
        let itf = interfaces[i];
        if !itf.is_loopback {
            if let Some(a) = itf.ipv4 {
                let s = format_ipv4(a);
                assert(usable(interfaces@[i as int]));
                return Some(s);
            }
        }
        i = i + 1;
    }
    None
}

// ---------------------------------------------------------------------------
// Repeated failures
// ---------------------------------------------------------------------------

/// A failure at `t` is recent at `now` (both in nanoseconds since the Unix
/// epoch) when less than the window has passed.
pub open spec fn is_recent(now: i64, t: i64, window_seconds: i64) -> bool {
    now - t < window_seconds * 1_000_000_000
}

/// The recent failures of `ts`, in order.
pub open spec fn recent_only(ts: Seq<i64>, now: i64, window_seconds: i64) -> Seq<i64>
    decreases ts.len(),
{
    if ts.len() == 0 {
        Seq::empty()
    } else {
        let r = recent_only(ts.drop_last(), now, window_seconds);
        if is_recent(now, ts.last(), window_seconds) {
            r.push(ts.last())
        } else {
            r
        }
    }
}

/// One failure at `now` on top of the history `ts`: the stale failures are
/// dropped and `now` is added; where that makes `max` or more, the history is
/// cleared and the answer is `true`.
pub open spec fn record_spec(ts: Seq<i64>, now: i64, max: nat, window_seconds: i64) -> (Seq<i64>, bool) {
    let kept = recent_only(ts, now, window_seconds).push(now);
    if kept.len() >= max {
        (Seq::empty(), true)
    } else {
        (kept, false)
    }
}

/// The failures recorded for `ip`.
pub open spec fn history(m: Map<Seq<char>, Seq<i64>>, ip: Seq<char>) -> Seq<i64> {
    if m.contains_key(ip) {
        m[ip]
    } else {
        Seq::empty()
    }
}

/// Counts the failures of each address within a time window, and reports
/// when an address reaches the limit.
pub struct FailureTracker {
    attempts: Vec<(String, Vec<i64>)>,
    max_attempts: usize,
    window_seconds: i64,
}

/// The largest window that `chrono::TimeDelta::seconds` accepts.
pub open spec fn max_window_seconds() -> int {
    i64::MAX / 1000
}

impl FailureTracker {
    pub closed spec fn pairs(&self) -> Seq<(Seq<char>, Seq<i64>)> {
        entry_views(self.attempts@)
    }

    pub closed spec fn max_spec(&self) -> nat {
        self.max_attempts as nat
    }

    pub closed spec fn window_spec(&self) -> i64 {
        self.window_seconds
    }

    #[verifier::type_invariant]
    spec fn wf(&self) -> bool {
        &&& keys_distinct(self.pairs())
        &&& -max_window_seconds() <= self.window_seconds <= max_window_seconds()
    }

    /// A tracker with no failures, reporting at `max_attempts` failures within
    /// `time_window_seconds`.
    pub fn new(max_attempts: usize, time_window_seconds: i64) -> (t: Self)
        requires
            -max_window_seconds() <= time_window_seconds <= max_window_seconds(),
        ensures
            t@ == Map::<Seq<char>, Seq<i64>>::empty(),
            t.max_spec() == max_attempts,
            t.window_spec() == time_window_seconds,
    {
        let t = FailureTracker {
            attempts: Vec::new(),
            max_attempts,
            window_seconds: time_window_seconds,
        };
        assert(t.pairs() =~= Seq::empty());
        t
    }

    /// Records a failure of `ip` at `now` (nanoseconds since the Unix epoch);
    /// `true` when it makes the limit, in which case the history of `ip` is
    /// cleared.
    pub fn record_and_check_at(&mut self, ip: &str, now: i64) -> (res: bool)
        ensures
            final(self).max_spec() == old(self).max_spec(),
            final(self).window_spec() == old(self).window_spec(),
            (history(final(self)@, ip@), res) == record_spec(
                history(old(self)@, ip@),
                now,
                old(self).max_spec(),
                old(self).window_spec(),
            ),
            final(self)@ == old(self)@.insert(ip@, history(final(self)@, ip@)),
            old(self).max_spec() >= 1 ==> history(final(self)@, ip@).len() < old(self).max_spec(),
    {
        proof {
            use_type_invariant(&*self);
        }
        let key = copy_str(ip);
        let ghost old_pairs = self.pairs();
        let ghost old_hist = history(self@, ip@);
        proof {
            lemma_map_of(old_pairs, ip@);
        }
        // the recent failures, in order
        let mut kept: Vec<i64> = Vec::new();
        match find_key(&self.attempts, &key) {
            Some(idx) => {
                let ts = &self.attempts[idx].1;
                assert(ts@ == old_hist);
                let mut j: usize = 0;
                while j < ts.len()
                    invariant
                        j <= ts@.len(),
                        -max_window_seconds() <= self.window_seconds <= max_window_seconds(),
                        kept@ == recent_only(ts@.take(j as int), now, self.window_seconds),
                    decreases ts@.len() - j,
                {
                    let t = ts[j];
                    let diff: i128 = now as i128 - t as i128;
                    if diff < self.window_seconds as i128 * 1_000_000_000 {
                        kept.push(t);
                    }
                    assert(ts@.take(j + 1).drop_last() =~= ts@.take(j as int));
                    j = j + 1;
                }
                assert(ts@.take(ts@.len() as int) =~= ts@);
            },
            None => {
                assert(old_hist == Seq::<i64>::empty());
                assert(recent_only(old_hist, now, self.window_seconds) =~= Seq::<i64>::empty());
            },
        }
        kept.push(now);
        let res = kept.len() >= self.max_attempts;
        if res {
            kept = Vec::new();
        }
        let ghost new_hist = kept@;
        assert((new_hist, res) == record_spec(old_hist, now, self.max_attempts as nat, self.window_seconds));
        let mut entries: Vec<(String, Vec<i64>)> = Vec::new();
        std::mem::swap(&mut entries, &mut self.attempts);
        put_entry(&mut entries, key, kept);
        proof {
            lemma_map_of(entry_views(entries@), ip@);
        }
        self.attempts = entries;
        res
    }
}

impl View for FailureTracker {
    type V = Map<Seq<char>, Seq<i64>>;

    closed spec fn view(&self) -> Map<Seq<char>, Seq<i64>> {
        map_of(self.pairs())
    }
}

/// The history and the last answer after `k` failures at the same instant.
pub open spec fn repeat_record(ts: Seq<i64>, now: i64, max: nat, window_seconds: i64, k: nat) -> (Seq<i64>, bool)
    decreases k,
{
    if k == 0 {
        (ts, false)
    } else {
        let prev = repeat_record(ts, now, max, window_seconds, (k - 1) as nat);
        record_spec(prev.0, now, max, window_seconds)
    }
}

proof fn lemma_recent_all(ts: Seq<i64>, now: i64, window_seconds: i64)
    requires
        forall|i: int| 0 <= i < ts.len() ==> is_recent(now, #[trigger] ts[i], window_seconds),
    ensures
        recent_only(ts, now, window_seconds) == ts,
    decreases ts.len(),
{
    if ts.len() > 0 {
        let p = ts.drop_last();
        assert forall|i: int| 0 <= i < p.len() implies is_recent(now, #[trigger] p[i], window_seconds) by {
            assert(p[i] == ts[i]);
        }
        lemma_recent_all(p, now, window_seconds);
        assert(is_recent(now, ts[ts.len() - 1], window_seconds));
        assert(ts =~= p.push(ts.last()));
    }
}

/// From no recorded failures, with a positive window, failures of one
/// address at one instant are not reported until the `max`-th, which is, and
/// which clears the history.
pub proof fn lemma_burst_reaches_limit(now: i64, max: nat, window_seconds: i64, k: nat)
    requires
        window_seconds > 0,
        1 <= k <= max,
    ensures
        repeat_record(Seq::empty(), now, max, window_seconds, k) == (if k == max {
            (Seq::<i64>::empty(), true)
        } else {
            (Seq::new(k, |i: int| now), false)
        }),
    decreases k,
{
    let prev_ts: Seq<i64> = if k == 1 {
        Seq::empty()
    } else {
        lemma_burst_reaches_limit(now, max, window_seconds, (k - 1) as nat);
        Seq::new((k - 1) as nat, |i: int| now)
    };
    assert(repeat_record(Seq::empty(), now, max, window_seconds, (k - 1) as nat).0 == prev_ts);
    lemma_recent_all(prev_ts, now, window_seconds);
    assert(prev_ts.push(now) =~= Seq::new(k, |i: int| now));
}

/// Stale failures never count: a failure is answered as if only the recent
/// ones had been recorded.
pub proof fn lemma_stale_failures_ignored(ts: Seq<i64>, now: i64, max: nat, window_seconds: i64)
    ensures
        record_spec(ts, now, max, window_seconds) == record_spec(
            recent_only(ts, now, window_seconds),
            now,
            max,
            window_seconds,
        ),
{
    lemma_recent_only_idempotent(ts, now, window_seconds);
}

proof fn lemma_recent_only_idempotent(ts: Seq<i64>, now: i64, window_seconds: i64)
    ensures
        recent_only(recent_only(ts, now, window_seconds), now, window_seconds) == recent_only(
            ts,
            now,
            window_seconds,
        ),
    decreases ts.len(),
{
    if ts.len() > 0 {
        let p = ts.drop_last();
        lemma_recent_only_idempotent(p, now, window_seconds);
        let r = recent_only(p, now, window_seconds);
        if is_recent(now, ts.last(), window_seconds) {
            assert(r.push(ts.last()).drop_last() =~= r);
        }
    }
}

/// The event of a log line is fixed by the four patterns matched against the
/// whole line, whatever its length: the first that matches, in the order SSH
/// login, sudo, new user, new group, names it; a line none of them matches
/// reports nothing.
pub proof fn lemma_classify_whole_line(line: Seq<char>)
    ensures
        regex_is_match(ssh_login_pattern(), line) ==> classify_spec(line) == Some(EventKind::SshLogin),
        !regex_is_match(ssh_login_pattern(), line) && regex_is_match(sudo_pattern(), line)
            ==> classify_spec(line) == Some(EventKind::Sudo),
        !regex_is_match(ssh_login_pattern(), line) && !regex_is_match(sudo_pattern(), line)
            && regex_is_match(new_user_pattern(), line) ==> classify_spec(line) == Some(
            EventKind::NewUserCreated,
        ),
        !regex_is_match(ssh_login_pattern(), line) && !regex_is_match(sudo_pattern(), line)
            && !regex_is_match(new_user_pattern(), line) && regex_is_match(new_group_pattern(), line)
            ==> classify_spec(line) == Some(EventKind::NewGroupCreated),
        classify_spec(line) is None <==> (!regex_is_match(ssh_login_pattern(), line)
            && !regex_is_match(sudo_pattern(), line) && !regex_is_match(new_user_pattern(), line)
            && !regex_is_match(new_group_pattern(), line)),
{
}

/// Whether an interface can give the node's address depends on nothing but
/// its being loopback and its having an IPv4 address: any IPv4 address of a
/// non-loopback interface will do, and the first such interface gives it.
pub proof fn lemma_first_ipv4_chosen(interfaces: Seq<NetInterface>, k: int)
    requires
        0 <= k < interfaces.len(),
        !interfaces[k].is_loopback,
        interfaces[k].ipv4 is Some,
        forall|j: int| 0 <= j < k ==> #[trigger] interfaces[j].is_loopback || interfaces[j].ipv4 is None,
    ensures
        usable(interfaces[k]),
        forall|j: int| 0 <= j < k ==> !usable(#[trigger] interfaces[j]),
        forall|i: NetInterface| usable(i) <==> (!i.is_loopback && i.ipv4 is Some),
{
}

} // verus!
