//! Message text for the chat bot, in Telegram's MarkdownV2 format.

use vstd::prelude::*;
use crate::models::Alert;
use crate::text::{chars_of, join, join_spec, push_char, views};

verus! {

/// The characters that MarkdownV2 reserves, each of which `escape` prefixes
/// with a backslash.
pub open spec fn is_reserved(c: char) -> bool {
    c == '_' || c == '*' || c == '[' || c == ']' || c == '(' || c == ')' || c == '~'
        || c == '`' || c == '#' || c == '+' || c == '-' || c == '=' || c == '|' || c == '{'
        || c == '}' || c == '.' || c == '!'
}

/// What `escape` makes of one character.
pub open spec fn escape_char(c: char) -> Seq<char> {
    if is_reserved(c) {
        seq!['\\', c]
    } else {
        seq![c]
    }
}

/// `s` with a backslash in front of every reserved character.
pub open spec fn escape_spec(s: Seq<char>) -> Seq<char>
    decreases s.len(),
{
    if s.len() == 0 {
        Seq::empty()
    } else {
        escape_spec(s.drop_last()) + escape_char(s.last())
    }
}

fn is_reserved_char(c: char) -> (b: bool)
    ensures
        b == is_reserved(c),
{
    c == '_' || c == '*' || c == '[' || c == ']' || c == '(' || c == ')' || c == '~'
        || c == '`' || c == '#' || c == '+' || c == '-' || c == '=' || c == '|' || c == '{'
        || c == '}' || c == '.' || c == '!'
}

/// Escapes `text` for MarkdownV2: a backslash goes in front of each reserved
/// character, every other character is kept.
pub fn escape(text: &str) -> (escaped: String)
    ensures
        escaped@ == escape_spec(text@),
{
    let chars = chars_of(text);
    let mut escaped = String::new();
    let mut i: usize = 0;
    while i < chars.len()
        invariant
            chars@ == text@,
            i <= chars@.len(),
            escaped@ == escape_spec(text@.take(i as int)),
        decreases chars@.len() - i,
    {
        let c = chars[i];
        if is_reserved_char(c) {
            push_char(&mut escaped, '\\');
        }
        push_char(&mut escaped, c);
        assert(text@.take(i + 1).drop_last() =~= text@.take(i as int));
        i = i + 1;
    }
    assert(text@.take(chars@.len() as int) =~= text@);
    escaped
}

/// How Telegram is to read a message's text.
#[derive(Clone, Copy, Debug, PartialEq, Eq, Structural)]
pub enum ParseMode {
    MarkdownV2,
    Html,
    Markdown,
}

/// Appends `escape(text)` to `out`.
pub(crate) fn push_escaped(out: &mut String, text: &str)
    ensures
        final(out)@ == old(out)@ + escape_spec(text@),
{
    let e = escape(text);
    out.append(e.as_str());
}

/// The text of an alert message.
pub open spec fn alert_text(a: Alert) -> Seq<char> {
    "🚨 *["@ + escape_spec(a.event_type@) + "] Alert from "@ + escape_spec(a.slave_alias@)
        + "* 🚨\n\n*Host:* `"@ + escape_spec(a.hostname@) + "`\n*IP:* `"@ + escape_spec(
        a.server_ip@,
    ) + "`\n\n*Log:*\n```\n"@ + a.log_line@ + "\n```"@
}

/// What an alert message holds before its log line: the escaped event type,
/// node, host and address.
pub open spec fn alert_header(a: Alert) -> Seq<char> {
    "🚨 *["@ + escape_spec(a.event_type@) + "] Alert from "@ + escape_spec(a.slave_alias@)
        + "* 🚨\n\n*Host:* `"@ + escape_spec(a.hostname@) + "`\n*IP:* `"@ + escape_spec(
        a.server_ip@,
    ) + "`\n\n*Log:*\n```\n"@
}

/// The message for an alert: event type, node, host and address escaped, the
/// log line verbatim in a code block.
pub fn format_alert(alert: &Alert) -> (res: (String, ParseMode))
    ensures
        res.0@ == alert_text(*alert),
        res.1 == ParseMode::MarkdownV2,
        res.0@ == alert_header(*alert) + alert.log_line@ + "\n```"@,
{
    let mut s = String::new();
    s.append("🚨 *[");
    push_escaped(&mut s, alert.event_type.as_str());
    s.append("] Alert from ");
    push_escaped(&mut s, alert.slave_alias.as_str());
    s.append("* 🚨\n\n*Host:* `");
    push_escaped(&mut s, alert.hostname.as_str());
    s.append("`\n*IP:* `");
    push_escaped(&mut s, alert.server_ip.as_str());
    s.append("`\n\n*Log:*\n```\n");
    s.append(alert.log_line.as_str());
    s.append("\n```");
    assert(s@ =~= alert_text(*alert));
    (s, ParseMode::MarkdownV2)
}

/// The escaped lines, each followed by a line break.
pub open spec fn escaped_lines(lines: Seq<Seq<char>>) -> Seq<char>
    decreases lines.len(),
{
    if lines.len() == 0 {
        Seq::empty()
    } else {
        escaped_lines(lines.drop_last()) + escape_spec(lines.last()) + "\n"@
    }
}

/// The text of a health report.
pub open spec fn health_report_text(lines: Seq<Seq<char>>) -> Seq<char> {
    "*— Health Report —*\n"@ + escaped_lines(lines)
}

/// The health report: a heading, then each line escaped on a line of its own.
pub fn format_health_report(report_lines: Vec<String>) -> (res: (String, ParseMode))
    ensures
        res.0@ == health_report_text(views(report_lines@)),
        res.1 == ParseMode::MarkdownV2,
{
    let mut report = String::new();
    report.append("*— Health Report —*\n");
    let mut i: usize = 0;
    while i < report_lines.len()
        invariant
            i <= report_lines@.len(),
            report@ == health_report_text(views(report_lines@).take(i as int)),
        decreases report_lines@.len() - i,
    {
        push_escaped(&mut report, report_lines[i].as_str());
        report.append("\n");
        assert(views(report_lines@).take(i + 1).drop_last() =~= views(report_lines@).take(
            i as int,
        ));
        assert(report@ =~= health_report_text(views(report_lines@).take(i + 1)));
        i = i + 1;
    }
    assert(views(report_lines@).take(report_lines@.len() as int) =~= views(report_lines@));
    (report, ParseMode::MarkdownV2)
}

/// The text of a `who` report.
pub open spec fn who_text(alias: Seq<char>, who_output: Seq<char>) -> Seq<char> {
    "*— Who on "@ + escape_spec(alias) + " —*\n```text\n"@ + who_output + "```"@
}

/// The `who` report of a node: its alias escaped, the output verbatim in a
/// code block.
pub fn format_who_output(alias: &str, who_output: &str) -> (res: (String, ParseMode))
    ensures
        res.0@ == who_text(alias@, who_output@),
        res.1 == ParseMode::MarkdownV2,
        res.0@ == "*— Who on "@ + escape_spec(alias@) + " —*\n```text\n"@ + who_output@ + "```"@,
{
    let mut s = String::new();
    s.append("*— Who on ");
    push_escaped(&mut s, alias);
    s.append(" —*\n```text\n");
    s.append(who_output);
    s.append("```");
    assert(s@ =~= who_text(alias@, who_output@));
    (s, ParseMode::MarkdownV2)
}

/// The text of a node summary.
pub open spec fn node_summary_text(lines: Seq<Seq<char>>) -> Seq<char> {
    "*— Node Summary —*\n\n"@ + join_spec(lines, "\n\n"@)
}

/// The node summary: a heading, then the entries (already in MarkdownV2)
/// separated by blank lines.
pub fn format_node_summary(summary_lines: Vec<String>) -> (res: (String, ParseMode))
    ensures
        res.0@ == node_summary_text(views(summary_lines@)),
        res.1 == ParseMode::MarkdownV2,
{
    let body = join(&summary_lines, "\n\n");
    let mut s = String::new();
    s.append("*— Node Summary —*\n\n");
    s.append(body.as_str());
    (s, ParseMode::MarkdownV2)
}

/// Reads escaped text back, from the end: a reserved character with a
/// backslash in front of it stands for itself, the backslash dropped.
pub open spec fn unescape_spec(e: Seq<char>) -> Seq<char>
    decreases e.len(),
{
    if e.len() >= 2 && is_reserved(e.last()) && e[e.len() - 2] == '\\' {
        unescape_spec(e.take(e.len() - 2)).push(e.last())
    } else if e.len() > 0 {
        unescape_spec(e.drop_last()).push(e.last())
    } else {
        Seq::empty()
    }
}

/// Escaping loses nothing: reading the escaped text back gives the text.
pub proof fn lemma_escape_reversible(s: Seq<char>)
    ensures
        unescape_spec(escape_spec(s)) == s,
    decreases s.len(),
{
    if s.len() > 0 {
        let p = s.drop_last();
        let c = s.last();
        lemma_escape_reversible(p);
        let e = escape_spec(s);
        assert(e == escape_spec(p) + escape_char(c));
        if is_reserved(c) {
            assert(e.take(e.len() - 2) =~= escape_spec(p));
        } else {
            assert(e.drop_last() =~= escape_spec(p));
        }
        assert(s =~= p.push(c));
    }
}

/// Different texts escape to different texts.
pub proof fn lemma_escape_injective(a: Seq<char>, b: Seq<char>)
    requires
        escape_spec(a) == escape_spec(b),
    ensures
        a == b,
{
    lemma_escape_reversible(a);
    lemma_escape_reversible(b);
}

/// In escaped text every reserved character has a backslash right in front
/// of it, so none of them is read as markup.
pub proof fn lemma_escape_marks_reserved(s: Seq<char>)
    ensures
        forall|i: int|
            0 <= i < escape_spec(s).len() && is_reserved(#[trigger] escape_spec(s)[i]) ==> i > 0
                && escape_spec(s)[i - 1] == '\\',
    decreases s.len(),
{
    if s.len() > 0 {
        let p = s.drop_last();
        lemma_escape_marks_reserved(p);
        let e = escape_spec(s);
        let ep = escape_spec(p);
        assert(e == ep + escape_char(s.last()));
        assert forall|i: int| 0 <= i < e.len() && is_reserved(#[trigger] e[i]) implies i > 0 && e[i
            - 1] == '\\' by {
            if i < ep.len() {
                assert(e[i] == ep[i]);
                assert(ep[i - 1] == e[i - 1]);
            }
        }
    }
}

/// Text without reserved characters is left as it is.
pub proof fn lemma_escape_plain(s: Seq<char>)
    requires
        forall|i: int| 0 <= i < s.len() ==> !is_reserved(#[trigger] s[i]),
    ensures
        escape_spec(s) == s,
    decreases s.len(),
{
    if s.len() > 0 {
        let p = s.drop_last();
        assert forall|i: int| 0 <= i < p.len() implies !is_reserved(#[trigger] p[i]) by {
            assert(p[i] == s[i]);
        }
        lemma_escape_plain(p);
        assert(!is_reserved(s[s.len() - 1]));
        assert(s =~= p.push(s.last()));
    }
}

/// An alert message carries its log line whole and verbatim: two alerts
/// that agree on everything but the log line give messages with the same
/// beginning, each followed by its own log line and the closing fence, so the
/// message grows by exactly the length of the log line.
pub proof fn lemma_alert_log_verbatim(a: Alert, b: Alert)
    requires
        a.event_type@ == b.event_type@,
        a.slave_alias@ == b.slave_alias@,
        a.hostname@ == b.hostname@,
        a.server_ip@ == b.server_ip@,
    ensures
        ({
            let k = alert_text(a).len() - a.log_line@.len() - 4;
            &&& alert_text(a).len() - a.log_line@.len() == alert_text(b).len() - b.log_line@.len()
            &&& 0 <= k
            &&& alert_text(a).take(k) == alert_text(b).take(k)
            &&& alert_text(a).skip(k) == a.log_line@ + "\n```"@
            &&& alert_text(b).skip(k) == b.log_line@ + "\n```"@
        }),
{
    let ha = alert_header(a);
    assert(alert_header(a) == alert_header(b));
    reveal_strlit("\n```");
    assert(alert_text(a) =~= ha + a.log_line@ + "\n```"@);
    assert(alert_text(b) =~= ha + b.log_line@ + "\n```"@);
    let k = alert_text(a).len() - a.log_line@.len() - 4;
    assert(k == ha.len());
    assert(alert_text(a).take(k) =~= ha);
    assert(alert_text(b).take(k) =~= ha);
    assert(alert_text(a).skip(k) =~= a.log_line@ + "\n```"@);
    assert(alert_text(b).skip(k) =~= b.log_line@ + "\n```"@);
}

/// A `who` report holds the output whole and verbatim: the report of any
/// output is the report of no output with the output put in before the
/// closing fence, so it is exactly as much longer as the output is long.
pub proof fn lemma_who_output_verbatim(alias: Seq<char>, out: Seq<char>)
    ensures
        ({
            let empty = who_text(alias, Seq::empty());
            &&& empty.len() >= 3
            &&& who_text(alias, out) == empty.take(empty.len() - 3) + out + "```"@
            &&& who_text(alias, out).len() == empty.len() + out.len()
        }),
{
    reveal_strlit("```");
    let h = "*— Who on "@ + escape_spec(alias) + " —*\n```text\n"@;
    let empty = who_text(alias, Seq::empty());
    assert(empty =~= h + "```"@);
    assert(empty.take(empty.len() - 3) =~= h);
    assert(who_text(alias, out) =~= h + out + "```"@);
}

} // verus!
