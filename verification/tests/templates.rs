use nightwatche::models::Alert;
use nightwatche::templates::{
    escape, format_alert, format_health_report, format_node_summary, format_who_output, ParseMode,
};

fn sample_alert() -> Alert {
    Alert {
        slave_alias: "web-1".to_string(),
        event_type: "SSH_LOGIN".to_string(),
        timestamp: "2024-01-01 00:00:00 +00:00".to_string(),
        log_line: "sshd[1]: Accepted password for root from 10.0.0.1".to_string(),
        server_ip: "10.0.0.5".to_string(),
        hostname: "host.example".to_string(),
    }
}

#[test]
fn escape_marks_every_reserved_character() {
    assert_eq!(escape("_*[]()~`#+-=|{}.!"), "\\_\\*\\[\\]\\(\\)\\~\\`\\#\\+\\-\\=\\|\\{\\}\\.\\!");
}

#[test]
fn escape_keeps_plain_text() {
    assert_eq!(escape("plain text 123"), "plain text 123");
    assert_eq!(escape(""), "");
    assert_eq!(escape("héllo ✅"), "héllo ✅");
}

#[test]
fn escape_leaves_backslash_alone() {
    assert_eq!(escape("a\\b"), "a\\b");
    assert_eq!(escape("\\_"), "\\\\_");
}

#[test]
fn escape_of_address() {
    assert_eq!(escape("192.168.1.10"), "192\\.168\\.1\\.10");
}

#[test]
fn escape_is_injective_on_examples() {
    assert_ne!(escape("a.b"), escape("a\\.b"));
    assert_ne!(escape("_"), escape("\\_"));
}

#[test]
fn alert_message_text() {
    let (text, mode) = format_alert(&sample_alert());
    assert_eq!(mode, ParseMode::MarkdownV2);
    assert_eq!(
        text,
        "🚨 *[SSH\\_LOGIN] Alert from web\\-1* 🚨\n\n*Host:* `host\\.example`\n*IP:* `10\\.0\\.0\\.5`\n\n*Log:*\n```\nsshd[1]: Accepted password for root from 10.0.0.1\n```"
    );
}

#[test]
fn health_report_text() {
    let (text, mode) = format_health_report(vec!["✅ [a.b] Healthy".to_string(), "x".to_string()]);
    assert_eq!(mode, ParseMode::MarkdownV2);
    assert_eq!(text, "*— Health Report —*\n✅ \\[a\\.b\\] Healthy\nx\n");
}

#[test]
fn health_report_without_lines() {
    let (text, _) = format_health_report(Vec::new());
    assert_eq!(text, "*— Health Report —*\n");
}

#[test]
fn who_output_text() {
    let (text, mode) = format_who_output("db-2", "root pts/0");
    assert_eq!(mode, ParseMode::MarkdownV2);
    assert_eq!(text, "*— Who on db\\-2 —*\n```text\nroot pts/0```");
}

#[test]
fn node_summary_text() {
    let (text, mode) = format_node_summary(vec!["one".to_string(), "two".to_string()]);
    assert_eq!(mode, ParseMode::MarkdownV2);
    assert_eq!(text, "*— Node Summary —*\n\none\n\ntwo");
    let (empty, _) = format_node_summary(Vec::new());
    assert_eq!(empty, "*— Node Summary —*\n\n");
}
