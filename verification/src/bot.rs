//! The decisions of the chat bot: who may talk to it, what each command asks
//! for, and the text of each answer. The bot's runtime sends the messages
//! and makes the requests that a plan names.

use vstd::prelude::*;
use crate::config::TelegramTarget;
use crate::models::{Alert, HealthResponse, ListResponse};
use crate::registry::SlaveRegistry;
use crate::templates::{alert_text, escape, escape_spec, format_alert, push_escaped, ParseMode};
use crate::text::{concat2, copy_str, str_equal, to_lowercase, trim, trim_spec, unicode_lowercase};

verus! {

/// A command sent to the bot in a chat.
pub enum BotCommand {
    /// `/help`
    Help,
    /// `/health <all|server_name|master>`
    Health(String),
    /// `/who <server_name|master>`
    Who(String),
    /// `/list`
    List,
}

/// What the bot does to answer a command.
pub enum BotPlan {
    /// Reply with the list of commands.
    Help,
    /// Reply with this plain text.
    Reply(String),
    /// Ask every slave for its health (alias, address), then report.
    HealthAll(Vec<(String, String)>),
    /// Ask one slave, named by the command, for its health.
    HealthOne { alias: String, addr: String },
    /// Run `who` on this node and report its output.
    WhoLocal,
    /// Ask the slave at this address who is logged in.
    WhoSlave(String),
    /// Ask every slave (alias, address) for its summary, then report.
    ListAll(Vec<(String, String)>),
}

/// Whether the chat may use the bot.
pub fn is_whitelisted(chat_ids: &Vec<i64>, chat_id: i64) -> (res: bool)
    ensures
        res == chat_ids@.contains(chat_id),
{
    let mut i: usize = 0;
    while i < chat_ids.len()
        invariant
            i <= chat_ids@.len(),
            forall|j: int| 0 <= j < i ==> chat_ids@[j] != chat_id,
        decreases chat_ids@.len() - i,
    {
        if chat_ids[i] == chat_id {
            assert(chat_ids@[i as int] == chat_id);
            return true;
        }
        i = i + 1;
    }
    false
}

/// An alert message on its way to one target.
pub struct OutgoingAlert {
    pub chat_id: i64,
    /// The forum topic, where the target names one.
    pub thread_id: Option<i32>,
    pub text: String,
    pub parse_mode: ParseMode,
}

/// The messages that deliver an alert: one per target, in the targets' order.
pub fn alert_messages(alert: &Alert, targets: &Vec<TelegramTarget>) -> (res: Vec<OutgoingAlert>)
    ensures
        res@.len() == targets@.len(),
        forall|i: int|
            0 <= i < res@.len() ==> {
                &&& (#[trigger] res@[i]).chat_id == targets@[i].chat_id
                &&& res@[i].thread_id == targets@[i].topic_id
                &&& res@[i].text@ == alert_text(*alert)
                &&& res@[i].parse_mode == ParseMode::MarkdownV2
            },
{
    let (message, parse_mode) = format_alert(alert);
    let mut res: Vec<OutgoingAlert> = Vec::new();
    let mut i: usize = 0;
    while i < targets.len()
        invariant
            i <= targets@.len(),
            message@ == alert_text(*alert),
            parse_mode == ParseMode::MarkdownV2,
            res@.len() == i,
            forall|k: int|
                0 <= k < i ==> {
                    &&& (#[trigger] res@[k]).chat_id == targets@[k].chat_id
                    &&& res@[k].thread_id == targets@[k].topic_id
                    &&& res@[k].text@ == alert_text(*alert)
                    &&& res@[k].parse_mode == ParseMode::MarkdownV2
                },
        decreases targets@.len() - i,
    {
        let t = targets[i];
        res.push(OutgoingAlert { chat_id: t.chat_id, thread_id: t.topic_id, text: message.clone(), parse_mode });
        i = i + 1;
    }
    res
}

/// The (alias, address) pairs of a registry, in its order.
fn slave_list(slaves: &SlaveRegistry) -> (res: Vec<(String, String)>)
    ensures
        pair_views(res@) == slaves.pairs(),
{
    let mut res: Vec<(String, String)> = Vec::new();
    let mut i: usize = 0;
    while i < slaves.len()
        invariant
            i <= slaves.pairs().len(),
            pair_views(res@) == slaves.pairs().take(i as int),
        decreases slaves.pairs().len() - i,
    {
        let (a, b) = slaves.entry(i);
        let ghost prev = res@;
        res.push((a.clone(), b.clone()));
        assert(pair_views(res@) =~= pair_views(prev).push((a@, b@)));
        assert(pair_views(res@) =~= slaves.pairs().take(i + 1));
        i = i + 1;
    }
    assert(slaves.pairs().take(slaves.pairs().len() as int) =~= slaves.pairs());
    res
}

/// The views of (alias, address) pairs.
pub open spec fn pair_views(v: Seq<(String, String)>) -> Seq<(Seq<char>, Seq<char>)> {
    v.map_values(|p: (String, String)| (p.0@, p.1@))
}

/// The text of a node that reports itself healthy.
pub open spec fn healthy_line_spec(alias: Seq<char>) -> Seq<char> {
    "✅ ["@ + alias + "] Healthy"@
}

/// The text of a node that reports itself healthy.
pub fn healthy_line(alias: &str) -> (s: String)
    ensures
        s@ == healthy_line_spec(alias@),
{
    let mut s = copy_str("✅ [");
    s.append(alias);
    s.append("] Healthy");
    s
}

pub open spec fn unknown_alias_spec(alias: Seq<char>) -> Seq<char> {
    "Unknown server alias: "@ + alias
}

/// The answer to a command that names no known node.
pub fn unknown_alias_text(alias: &str) -> (s: String)
    ensures
        s@ == unknown_alias_spec(alias@),
{
    concat2("Unknown server alias: ", alias)
}

/// The plan that answers a command, given the known slaves and this node's
/// alias. `all` and `master` are recognised in any case (by Unicode lower
/// case); a slave's alias only as written.
pub fn plan_answer(cmd: &BotCommand, slaves: &SlaveRegistry, master_alias: &str) -> (plan: BotPlan)
    ensures
        match cmd {
            BotCommand::Help => plan is Help,
            BotCommand::List => plan matches BotPlan::ListAll(v) && pair_views(v@) == slaves.pairs(),
            BotCommand::Health(t) => if unicode_lowercase(t@) == "all"@ {
                plan matches BotPlan::HealthAll(v) && pair_views(v@) == slaves.pairs()
            } else if unicode_lowercase(t@) == "master"@ {
                plan matches BotPlan::Reply(s) && s@ == healthy_line_spec(master_alias@)
            } else if slaves@.contains_key(t@) {
                plan matches BotPlan::HealthOne { alias, addr } && alias@ == t@ && addr@
                    == slaves@[t@]
            } else {
                plan matches BotPlan::Reply(s) && s@ == unknown_alias_spec(t@)
            },
            BotCommand::Who(a) => if unicode_lowercase(a@) == "master"@ {
                plan is WhoLocal
            } else if slaves@.contains_key(a@) {
                plan matches BotPlan::WhoSlave(addr) && addr@ == slaves@[a@]
            } else {
                plan matches BotPlan::Reply(s) && s@ == unknown_alias_spec(a@)
            },
        },
{
    match cmd {
        BotCommand::Help => BotPlan::Help,
        BotCommand::List => BotPlan::ListAll(slave_list(slaves)),
        BotCommand::Health(target) => {
            let lower = to_lowercase(target.as_str());
            if str_equal(lower.as_str(), "all") {
                BotPlan::HealthAll(slave_list(slaves))
            } else if str_equal(lower.as_str(), "master") {
                BotPlan::Reply(healthy_line(master_alias))
            } else {
                match slaves.get(target) {
                    Some(addr) => BotPlan::HealthOne { alias: target.clone(), addr: addr.clone() },
                    None => BotPlan::Reply(unknown_alias_text(target.as_str())),
                }
            }
        },
        BotCommand::Who(alias) => {
            let lower = to_lowercase(alias.as_str());
            if str_equal(lower.as_str(), "master") {
                BotPlan::WhoLocal
            } else {
                match slaves.get(alias) {
                    Some(addr) => BotPlan::WhoSlave(addr.clone()),
                    None => BotPlan::Reply(unknown_alias_text(alias.as_str())),
                }
            }
        },
    }
}

/// The line for a slave's health answer.
pub open spec fn health_status_spec(alias: Seq<char>, status: Seq<char>) -> Seq<char> {
    "✅ ["@ + alias + "] "@ + status
}

/// The line for a slave's health answer.
pub fn health_status_line(resp: &HealthResponse) -> (s: String)
    ensures
        s@ == health_status_spec(resp.alias@, resp.status@),
{
    let mut s = copy_str("✅ [");
    s.append(resp.alias.as_str());
    s.append("] ");
    s.append(resp.status.as_str());
    s
}

/// The line for a slave that did not answer in time or answered with an error.
pub open spec fn health_unreachable_spec(alias: Seq<char>) -> Seq<char> {
    "❌ ["@ + alias + "] Timeout or Error"@
}

/// The line for a slave that did not answer in time or answered with an error.
pub fn health_unreachable_line(alias: &str) -> (s: String)
    ensures
        s@ == health_unreachable_spec(alias@),
{
    let mut s = copy_str("❌ [");
    s.append(alias);
    s.append("] Timeout or Error");
    s
}

/// The text for a slave's health answer to `/health <alias>`, or for the
/// error that asking gave.
pub open spec fn health_one_spec(alias: Seq<char>, result: Result<(Seq<char>, Seq<char>), Seq<char>>) -> Seq<char> {
    match result {
        Ok(r) => health_status_spec(r.0, r.1),
        Err(e) => "❌ ["@ + alias + "] Error: "@ + e,
    }
}

/// The text for a slave's health answer to `/health <alias>`.
pub fn health_one_text(alias: &str, result: &Result<HealthResponse, String>) -> (s: String)
    ensures
        s@ == health_one_spec(
            alias@,
            match result {
                Ok(r) => Ok((r.alias@, r.status@)),
                Err(e) => Err(e@),
            },
        ),
{
    match result {
        Ok(r) => health_status_line(r),
        Err(e) => {
            let mut s = copy_str("❌ [");
            s.append(alias);
            s.append("] Error: ");
            s.append(e.as_str());
            s
        },
    }
}

/// The text for an error in asking a slave.
pub fn error_text(e: &str) -> (s: String)
    ensures
        s@ == "Error: "@ + e@,
{
    concat2("Error: ", e)
}

pub open spec fn task_error_spec(e: Seq<char>) -> Seq<char> {
    "Error joining task: "@ + e
}

/// The line for a task that failed before it gave its answer.
pub fn task_error_line(e: &str) -> (s: String)
    ensures
        s@ == task_error_spec(e@),
{
    concat2("Error joining task: ", e)
}

/// A node's entry in the node summary.
pub open spec fn list_entry_spec(alias: Seq<char>, hostname: Seq<char>, ip: Seq<char>, uptime: Seq<char>) -> Seq<char> {
    "✅ *"@ + escape_spec(alias) + "*\n  Host: `"@ + escape_spec(hostname) + "`\n  IP: `"@
        + escape_spec(ip) + "`\n  Uptime: `"@ + escape_spec(uptime) + "`"@
}

/// A slave's entry in the node summary.
pub fn list_entry(resp: &ListResponse) -> (s: String)
    ensures
        s@ == list_entry_spec(resp.alias@, resp.hostname@, resp.ip@, resp.uptime@),
{
    let mut s = copy_str("✅ *");
    push_escaped(&mut s, resp.alias.as_str());
    s.append("*\n  Host: `");
    push_escaped(&mut s, resp.hostname.as_str());
    s.append("`\n  IP: `");
    push_escaped(&mut s, resp.ip.as_str());
    s.append("`\n  Uptime: `");
    push_escaped(&mut s, resp.uptime.as_str());
    s.append("`");
    s
}

/// The entry of a slave that did not answer in time.
pub open spec fn list_unreachable_spec(alias: Seq<char>) -> Seq<char> {
    "❌ *"@ + escape_spec(alias) + "*\n  Unreachable"@
}

/// The entry of a slave that did not answer in time.
pub fn list_unreachable_entry(alias: &str) -> (s: String)
    ensures
        s@ == list_unreachable_spec(alias@),
{
    let mut s = copy_str("❌ *");
    push_escaped(&mut s, alias);
    s.append("*\n  Unreachable");
    s
}

/// The uptime the master reports in its own summary entry: the output of
/// `uptime -p` trimmed, or `Error: ` and the escaped error text (the entry
/// escapes it once more).
pub open spec fn master_uptime_spec(result: Result<Seq<char>, Seq<char>>) -> Seq<char> {
    match result {
        Ok(out) => trim_spec(out),
        Err(e) => "Error: "@ + escape_spec(e),
    }
}

/// The uptime the master reports in its own summary entry.
pub fn master_uptime_text(result: Result<String, String>) -> (s: String)
    ensures
        s@ == master_uptime_spec(
            match result {
                Ok(o) => Ok(o@),
                Err(e) => Err(e@),
            },
        ),
{
    match result {
        Ok(out) => trim(out.as_str()),
        Err(e) => concat2("Error: ", escape(e.as_str()).as_str()),
    }
}

/// The master's own entry in the node summary.
pub open spec fn master_entry_spec(alias: Seq<char>, hostname: Seq<char>, ip: Seq<char>, uptime: Seq<char>) -> Seq<char> {
    "✅ *"@ + escape_spec(alias) + " \\(Master\\)*\n  Host: `"@ + escape_spec(hostname)
        + "`\n  IP: `"@ + escape_spec(ip) + "`\n  Uptime: `"@ + escape_spec(uptime) + "`"@
}

/// The master's own entry in the node summary.
pub fn master_list_entry(alias: &str, hostname: &str, ip: &str, uptime: &str) -> (s: String)
    ensures
        s@ == master_entry_spec(alias@, hostname@, ip@, uptime@),
{
    let mut s = copy_str("✅ *");
    push_escaped(&mut s, alias);
    s.append(" \\(Master\\)*\n  Host: `");
    push_escaped(&mut s, hostname);
    s.append("`\n  IP: `");
    push_escaped(&mut s, ip);
    s.append("`\n  Uptime: `");
    push_escaped(&mut s, uptime);
    s.append("`");
    s
}

/// What came of asking one slave.
pub enum SlaveReply<T> {
    /// The slave answered in time.
    Answer(T),
    /// No answer in time, or an error in asking.
    NoAnswer,
    /// The task that asked failed before it gave its result; the failure's
    /// text.
    TaskFailed(String),
}

/// The health report line for a slave, by what came of asking it.
pub open spec fn health_line_spec(alias: Seq<char>, reply: SlaveReply<HealthResponse>) -> Seq<char> {
    match reply {
        SlaveReply::Answer(r) => health_status_spec(r.alias@, r.status@),
        SlaveReply::NoAnswer => health_unreachable_spec(alias),
        SlaveReply::TaskFailed(e) => task_error_spec(e@),
    }
}

/// The lines of the health report for all nodes: one per slave, in the order
/// asked, then this node's own line.
pub fn health_report_lines(outcomes: &Vec<(String, SlaveReply<HealthResponse>)>, master_alias: &str) -> (lines: Vec<String>)
    ensures
        lines@.len() == outcomes@.len() + 1,
        forall|i: int|
            0 <= i < outcomes@.len() ==> (#[trigger] lines@[i])@ == health_line_spec(
                outcomes@[i].0@,
                outcomes@[i].1,
            ),
        lines@[outcomes@.len() as int]@ == healthy_line_spec(master_alias@),
{
    let mut lines: Vec<String> = Vec::new();
    let mut i: usize = 0;
    while i < outcomes.len()
        invariant
            i <= outcomes@.len(),
            lines@.len() == i,
            forall|k: int|
                0 <= k < i ==> (#[trigger] lines@[k])@ == health_line_spec(
                    outcomes@[k].0@,
                    outcomes@[k].1,
                ),
        decreases outcomes@.len() - i,
    {
        let (alias, reply) = &outcomes[i];
        let line = match reply {
            SlaveReply::Answer(r) => health_status_line(r),
            SlaveReply::NoAnswer => health_unreachable_line(alias.as_str()),
            SlaveReply::TaskFailed(e) => task_error_line(e.as_str()),
        };
        lines.push(line);
        i = i + 1;
    }
    lines.push(healthy_line(master_alias));
    lines
}

/// The node summary entry for a slave, by what came of asking it; a failed
/// task's text is escaped.
pub open spec fn summary_entry_spec(alias: Seq<char>, reply: SlaveReply<ListResponse>) -> Seq<char> {
    match reply {
        SlaveReply::Answer(r) => list_entry_spec(r.alias@, r.hostname@, r.ip@, r.uptime@),
        SlaveReply::NoAnswer => list_unreachable_spec(alias),
        SlaveReply::TaskFailed(e) => task_error_spec(escape_spec(e@)),
    }
}

/// The master's own summary entry, or the line for the task that was to make
/// it and failed (its text escaped).
pub open spec fn master_summary_spec(master: Result<Seq<char>, Seq<char>>) -> Seq<char> {
    match master {
        Ok(m) => m,
        Err(e) => task_error_spec(escape_spec(e)),
    }
}

/// The entries of the node summary: one per slave, in the order asked, then
/// the master's own.
pub fn node_summary_entries(
    outcomes: &Vec<(String, SlaveReply<ListResponse>)>,
    master: Result<String, String>,
) -> (lines: Vec<String>)
    ensures
        lines@.len() == outcomes@.len() + 1,
        forall|i: int|
            0 <= i < outcomes@.len() ==> (#[trigger] lines@[i])@ == summary_entry_spec(
                outcomes@[i].0@,
                outcomes@[i].1,
            ),
        lines@[outcomes@.len() as int]@ == master_summary_spec(
            match master {
                Ok(m) => Ok(m@),
                Err(e) => Err(e@),
            },
        ),
{
    let mut lines: Vec<String> = Vec::new();
    let mut i: usize = 0;
    while i < outcomes.len()
        invariant
            i <= outcomes@.len(),
            lines@.len() == i,
            forall|k: int|
                0 <= k < i ==> (#[trigger] lines@[k])@ == summary_entry_spec(
                    outcomes@[k].0@,
                    outcomes@[k].1,
                ),
        decreases outcomes@.len() - i,
    {
        let (alias, reply) = &outcomes[i];
        let line = match reply {
            SlaveReply::Answer(r) => list_entry(r),
            SlaveReply::NoAnswer => list_unreachable_entry(alias.as_str()),
            SlaveReply::TaskFailed(e) => task_error_line(escape(e.as_str()).as_str()),
        };
        lines.push(line);
        i = i + 1;
    }
    let last = match master {
        Ok(m) => m,
        Err(e) => task_error_line(escape(e.as_str()).as_str()),
    };
    lines.push(last);
    lines
}

} // verus!
