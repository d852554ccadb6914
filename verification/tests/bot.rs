use nightwatche::bot::{
    alert_messages, error_text, health_one_text, health_unreachable_line, healthy_line, health_status_line,
    is_whitelisted, list_entry, list_unreachable_entry, master_list_entry,
    plan_answer, task_error_line, BotCommand, BotPlan, health_report_lines, node_summary_entries, SlaveReply, master_uptime_text,
};
use nightwatche::config::TelegramTarget;
use nightwatche::models::{Alert, HealthResponse, ListResponse};
use nightwatche::registry::SlaveRegistry;
use nightwatche::templates::ParseMode;

fn registry() -> SlaveRegistry {
    let mut r = SlaveRegistry::new();
    r.insert("web".to_string(), "10.0.0.2:13001".to_string());
    r.insert("db".to_string(), "10.0.0.3:13001".to_string());
    r
}

#[test]
fn whitelist() {
    assert!(is_whitelisted(&vec![1, -5], -5));
    assert!(!is_whitelisted(&vec![1, -5], 5));
    assert!(!is_whitelisted(&Vec::new(), 0));
}

#[test]
fn alert_goes_to_every_target() {
    let a = Alert {
        slave_alias: "s".to_string(),
        event_type: "SUDO".to_string(),
        timestamp: String::new(),
        log_line: "l".to_string(),
        server_ip: "ip".to_string(),
        hostname: "h".to_string(),
    };
    let targets = vec![
        TelegramTarget { chat_id: 1, topic_id: None },
        TelegramTarget { chat_id: 2, topic_id: Some(7) },
    ];
    let msgs = alert_messages(&a, &targets);
    assert_eq!(msgs.len(), 2);
    assert_eq!((msgs[0].chat_id, msgs[0].thread_id), (1, None));
    assert_eq!((msgs[1].chat_id, msgs[1].thread_id), (2, Some(7)));
    assert_eq!(msgs[1].parse_mode, ParseMode::MarkdownV2);
    assert!(msgs[0].text.starts_with("🚨 *[SUDO] Alert from s* 🚨"));
}

#[test]
fn health_plans() {
    let r = registry();
    match plan_answer(&BotCommand::Health("ALL".to_string()), &r, "master") {
        BotPlan::HealthAll(v) => assert_eq!(
            v,
            vec![
                ("web".to_string(), "10.0.0.2:13001".to_string()),
                ("db".to_string(), "10.0.0.3:13001".to_string())
            ]
        ),
        _ => panic!("expected all"),
    }
    match plan_answer(&BotCommand::Health("Master".to_string()), &r, "boss") {
        BotPlan::Reply(t) => assert_eq!(t, "✅ [boss] Healthy"),
        _ => panic!("expected reply"),
    }
    match plan_answer(&BotCommand::Health("db".to_string()), &r, "m") {
        BotPlan::HealthOne { alias, addr } => {
            assert_eq!(alias, "db");
            assert_eq!(addr, "10.0.0.3:13001");
        }
        _ => panic!("expected one"),
    }
    match plan_answer(&BotCommand::Health("DB".to_string()), &r, "m") {
        BotPlan::Reply(t) => assert_eq!(t, "Unknown server alias: DB"),
        _ => panic!("alias matched in another case"),
    }
}

#[test]
fn who_and_list_plans() {
    let r = registry();
    assert!(matches!(plan_answer(&BotCommand::Who("MASTER".to_string()), &r, "m"), BotPlan::WhoLocal));
    match plan_answer(&BotCommand::Who("web".to_string()), &r, "m") {
        BotPlan::WhoSlave(addr) => assert_eq!(addr, "10.0.0.2:13001"),
        _ => panic!("expected slave"),
    }
    match plan_answer(&BotCommand::Who("nope".to_string()), &r, "m") {
        BotPlan::Reply(t) => assert_eq!(t, "Unknown server alias: nope"),
        _ => panic!("expected unknown"),
    }
    assert!(matches!(plan_answer(&BotCommand::List, &r, "m"), BotPlan::ListAll(v) if v.len() == 2));
    assert!(matches!(plan_answer(&BotCommand::Help, &r, "m"), BotPlan::Help));
}

#[test]
fn health_lines() {
    assert_eq!(health_unreachable_line("b"), "❌ [b] Timeout or Error");
    assert_eq!(healthy_line("m"), "✅ [m] Healthy");
    let r = HealthResponse { alias: "z".to_string(), status: "Busy".to_string() };
    assert_eq!(health_status_line(&r), "✅ [z] Busy");
    assert_eq!(health_one_text("t", &Ok(r)), "✅ [z] Busy");
    assert_eq!(health_one_text("t", &Err("boom".to_string())), "❌ [t] Error: boom");
    assert_eq!(error_text("x"), "Error: x");
    assert_eq!(task_error_line("p"), "Error joining task: p");
}

#[test]
fn list_lines() {
    let resp = ListResponse {
        alias: "web-1".to_string(),
        hostname: "h.x".to_string(),
        ip: "1.2.3.4".to_string(),
        uptime: "up 2 days".to_string(),
    };
    assert_eq!(
        list_entry(&resp),
        "✅ *web\\-1*\n  Host: `h\\.x`\n  IP: `1\\.2\\.3\\.4`\n  Uptime: `up 2 days`"
    );
    assert_eq!(list_unreachable_entry("db_1"), "❌ *db\\_1*\n  Unreachable");
    let m = master_list_entry("m", "h", "", "up");
    assert_eq!(m, "✅ *m \\(Master\\)*\n  Host: `h`\n  IP: ``\n  Uptime: `up`");
}

#[test]
fn health_report_assembly() {
    let outcomes = vec![
        ("a".to_string(), SlaveReply::Answer(HealthResponse { alias: "a1".to_string(), status: "Healthy".to_string() })),
        ("b".to_string(), SlaveReply::NoAnswer),
        ("c".to_string(), SlaveReply::TaskFailed("panic".to_string())),
    ];
    let lines = health_report_lines(&outcomes, "m");
    assert_eq!(
        lines,
        vec!["✅ [a1] Healthy", "❌ [b] Timeout or Error", "Error joining task: panic", "✅ [m] Healthy"]
    );
    assert_eq!(health_report_lines(&Vec::new(), "m"), vec!["✅ [m] Healthy"]);
}

#[test]
fn node_summary_assembly() {
    let resp = ListResponse {
        alias: "w".to_string(),
        hostname: "h".to_string(),
        ip: "1.2".to_string(),
        uptime: "up".to_string(),
    };
    let outcomes = vec![
        ("a".to_string(), SlaveReply::NoAnswer),
        ("b".to_string(), SlaveReply::Answer(resp)),
        ("c".to_string(), SlaveReply::TaskFailed("x.y".to_string())),
    ];
    let lines = node_summary_entries(&outcomes, Ok("M".to_string()));
    assert_eq!(lines.len(), 4);
    assert_eq!(lines[0], "❌ *a*\n  Unreachable");
    assert_eq!(lines[1], "✅ *w*\n  Host: `h`\n  IP: `1\\.2`\n  Uptime: `up`");
    assert_eq!(lines[2], "Error joining task: x\\.y");
    assert_eq!(lines[3], "M");
    let failed = node_summary_entries(&Vec::new(), Err("boom!".to_string()));
    assert_eq!(failed, vec!["Error joining task: boom\\!"]);
}

#[test]
fn master_uptime() {
    assert_eq!(master_uptime_text(Ok(" up 5 minutes\n".to_string())), "up 5 minutes");
    assert_eq!(master_uptime_text(Err("not found.".to_string())), "Error: not found\\.");
    let entry = master_list_entry("m", "h", "ip", &master_uptime_text(Err("a.b".to_string())));
    assert!(entry.ends_with("Uptime: `Error: a\\\\.b`"));
}
