use nightwatche::connector::{
    alert_delivery_result, command_url, health_response, list_response, output_text, probe_for,
    reply_to_command, who_response, admit_command, CommandReply, DeliveryError, LocalFacts, LocalProbe,
};
use nightwatche::models::Command;
use nightwatche::registry::SlaveRegistry;

#[test]
fn command_url_form() {
    assert_eq!(command_url("10.0.0.2:13001"), "http://10.0.0.2:13001/command");
}

#[test]
fn delivery_status() {
    assert_eq!(alert_delivery_result(200), Ok(()));
    assert_eq!(alert_delivery_result(299), Ok(()));
    assert_eq!(alert_delivery_result(199), Err(DeliveryError { status: 199 }));
    assert_eq!(alert_delivery_result(300), Err(DeliveryError { status: 300 }));
    assert_eq!(alert_delivery_result(403), Err(DeliveryError { status: 403 }));
}

#[test]
fn responses() {
    let h = health_response("n".to_string());
    assert_eq!((h.alias.as_str(), h.status.as_str()), ("n", "Healthy"));
    let w = who_response("n".to_string(), "root".to_string());
    assert_eq!(w.who_output, "root");
    let l = list_response("n".to_string(), "h".to_string(), "i".to_string(), "u".to_string());
    assert_eq!((l.hostname.as_str(), l.ip.as_str(), l.uptime.as_str()), ("h", "i", "u"));
}

#[test]
fn program_output_text() {
    assert_eq!(output_text(Ok(" up 3 hours\n".to_string()), "Error: ", true), "up 3 hours");
    assert_eq!(output_text(Ok(" a\n".to_string()), "Error: ", false), " a\n");
    assert_eq!(output_text(Err("no such file".to_string()), "Error: ", true), "Error: no such file");
}

#[test]
fn registry_insert_then_get() {
    let mut r = SlaveRegistry::new();
    r.insert("a".to_string(), "1".to_string());
    r.insert("b".to_string(), "2".to_string());
    r.insert("a".to_string(), "3".to_string());
    assert_eq!(r.get(&"a".to_string()), Some(&"3".to_string()));
    assert_eq!(r.get(&"b".to_string()), Some(&"2".to_string()));
    assert_eq!(r.get(&"c".to_string()), None);
    assert_eq!(r.len(), 2);
    let (k, v) = r.entry(0);
    assert_eq!((k.as_str(), v.as_str()), ("a", "3"));
}

fn facts(out: Result<String, String>) -> LocalFacts {
    LocalFacts { program_output: out, hostname: "h".to_string(), ip: "1.2.3.4".to_string() }
}

#[test]
fn command_probes() {
    assert_eq!(probe_for(Command::Health), LocalProbe::Nothing);
    assert_eq!(probe_for(Command::Who), LocalProbe::WhoOutput);
    assert_eq!(probe_for(Command::List), LocalProbe::NodeFacts);
}

#[test]
fn command_replies() {
    match reply_to_command(Command::Health, "n".to_string(), facts(Ok(String::new()))) {
        CommandReply::Health(h) => assert_eq!((h.alias.as_str(), h.status.as_str()), ("n", "Healthy")),
        _ => panic!("expected health"),
    }
    match reply_to_command(Command::Who, "n".to_string(), facts(Ok(" root \n".to_string()))) {
        CommandReply::Who(w) => assert_eq!(w.who_output, " root \n"),
        _ => panic!("expected who"),
    }
    match reply_to_command(Command::List, "n".to_string(), facts(Err("gone".to_string()))) {
        CommandReply::List(l) => {
            assert_eq!(l.uptime, "Error: gone");
            assert_eq!(l.hostname, "h");
            assert_eq!(l.ip, "1.2.3.4");
        }
        _ => panic!("expected list"),
    }
    match reply_to_command(Command::List, "n".to_string(), facts(Ok("up 1 hour\n".to_string()))) {
        CommandReply::List(l) => assert_eq!(l.uptime, "up 1 hour"),
        _ => panic!("expected list"),
    }
}

#[test]
fn commands_are_admitted_only_when_authenticated() {
    let hash = nightwatche::auth::api_key_hash("key");
    assert_eq!(admit_command(Some("Bearer key"), &hash, Command::List), Ok(LocalProbe::NodeFacts));
    assert_eq!(admit_command(Some("Bearer key"), &hash, Command::Health), Ok(LocalProbe::Nothing));
    assert_eq!(
        admit_command(Some("Bearer other"), &hash, Command::Who),
        Err(nightwatche::auth::AuthError::Forbidden)
    );
    assert_eq!(admit_command(None, &hash, Command::Who), Err(nightwatche::auth::AuthError::Unauthorized));
}
