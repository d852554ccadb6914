use nightwatche::pattern::CompiledPattern;
use nightwatche::informer::{
    create_alert, event_for, format_ipv4, relabel_alert, select_server_ip, EventKind,
    FailureTracker, LinePatterns, NetInterface,
};

#[test]
fn classifies_log_lines() {
    let p = LinePatterns::new().ok().unwrap();
    assert_eq!(
        p.classify("Jan 1 sshd[12]: Accepted publickey for bob from 1.2.3.4 port 22"),
        Some(EventKind::SshLogin)
    );
    assert_eq!(
        p.classify("sudo:   bob : TTY=pts/0 ; PWD=/ ; USER=root ; COMMAND=/bin/ls"),
        Some(EventKind::Sudo)
    );
    assert_eq!(p.classify("useradd[9]: new user: name=eve"), Some(EventKind::NewUserCreated));
    assert_eq!(p.classify("groupadd[9]: new group: name=ops"), Some(EventKind::NewGroupCreated));
    assert_eq!(p.classify("sshd[12]: Failed password for bob from 1.2.3.4"), None);
    assert_eq!(p.classify(""), None);
}

#[test]
fn first_pattern_wins() {
    let p = LinePatterns::new().ok().unwrap();
    assert_eq!(
        p.classify("sshd: Accepted password for a from b sudo: x COMMAND=y"),
        Some(EventKind::SshLogin)
    );
    assert_eq!(event_for(false, true, true, true), Some(EventKind::Sudo));
    assert_eq!(event_for(false, false, false, false), None);
}

#[test]
fn compile_errors_are_reported() {
    match CompiledPattern::compile("foo(bar") {
        Err(e) => {
            assert_eq!(e.pattern, "foo(bar");
            assert!(!e.message.is_empty());
        }
        Ok(_) => panic!("invalid pattern compiled"),
    }
    let ok = CompiledPattern::compile("a+b").ok().unwrap();
    assert!(ok.is_match("xaab"));
    assert!(!ok.is_match("b"));
}

#[test]
fn event_names() {
    assert_eq!(EventKind::SshLogin.name(), "SSH_LOGIN");
    assert_eq!(EventKind::Sudo.name(), "SUDO");
    assert_eq!(EventKind::NewUserCreated.name(), "NEW_USER_CREATED");
    assert_eq!(EventKind::NewGroupCreated.name(), "NEW_GROUP_CREATED");
}

#[test]
fn alert_fields() {
    let a = create_alert(
        "SUDO",
        "  sudo: x COMMAND=ls \n",
        "t".to_string(),
        None,
        Some("10.0.0.1".to_string()),
        None,
    );
    assert_eq!(a.event_type, "SUDO");
    assert_eq!(a.log_line, "sudo: x COMMAND=ls");
    assert_eq!(a.slave_alias, "unknown");
    assert_eq!(a.server_ip, "10.0.0.1");
    assert_eq!(a.hostname, "unknown");
    assert_eq!(a.timestamp, "t");
}

#[test]
fn server_ip_choice() {
    let itfs = vec![
        NetInterface { is_loopback: true, ipv4: Some((127, 0, 0, 1)) },
        NetInterface { is_loopback: false, ipv4: None },
        NetInterface { is_loopback: false, ipv4: Some((192, 168, 0, 17)) },
        NetInterface { is_loopback: false, ipv4: Some((10, 0, 0, 1)) },
    ];
    assert_eq!(select_server_ip(&itfs), Some("192.168.0.17".to_string()));
    assert_eq!(select_server_ip(&itfs[..2].to_vec()), None);
    assert_eq!(select_server_ip(&Vec::new()), None);
    assert_eq!(format_ipv4((255, 0, 10, 100)), "255.0.10.100");
}

#[test]
fn burst_reaches_limit() {
    let mut t = FailureTracker::new(3, 60);
    let now: i64 = 1_700_000_000_000_000_000;
    assert!(!t.record_and_check_at("1.1.1.1", now));
    assert!(!t.record_and_check_at("1.1.1.1", now));
    assert!(t.record_and_check_at("1.1.1.1", now));
    // cleared after reporting
    assert!(!t.record_and_check_at("1.1.1.1", now));
}

#[test]
fn addresses_are_counted_apart() {
    let mut t = FailureTracker::new(2, 60);
    assert!(!t.record_and_check_at("a", 0));
    assert!(!t.record_and_check_at("b", 0));
    assert!(t.record_and_check_at("a", 1));
    assert!(t.record_and_check_at("b", 1));
}

#[test]
fn stale_failures_do_not_count() {
    let mut t = FailureTracker::new(2, 10);
    assert!(!t.record_and_check_at("a", 0));
    // exactly the window later: no longer recent
    assert!(!t.record_and_check_at("a", 10_000_000_000));
    // within the window of the previous one, by one nanosecond
    assert!(t.record_and_check_at("a", 19_999_999_999));
}

#[test]
fn limit_of_one_or_zero_reports_every_failure() {
    let mut t = FailureTracker::new(1, 10);
    assert!(t.record_and_check_at("a", 0));
    assert!(t.record_and_check_at("a", 0));
    let mut z = FailureTracker::new(0, 10);
    assert!(z.record_and_check_at("a", 0));
}

#[test]
fn relabelled_alert_keeps_its_fields() {
    let a = create_alert("SUDO", "x", "t".to_string(), Some("slave".to_string()), None, None);
    let b = relabel_alert(a, "master".to_string());
    assert_eq!(b.slave_alias, "master");
    assert_eq!(b.event_type, "SUDO");
    assert_eq!(b.log_line, "x");
    assert_eq!(b.timestamp, "t");
    assert_eq!(b.server_ip, "unknown");
}
