use nightwatche::config::{
    config_from_env, master_bot_token, parse_app_mode, parse_chat_ids, parse_telegram_targets,
    slave_master_endpoint, AppMode, ConfigError, EnvValues, StartupError, TelegramTarget,
};

fn env(mode: Option<&str>, key: Option<&str>) -> EnvValues {
    EnvValues {
        app_mode: mode.map(|s| s.to_string()),
        internal_api_key: key.map(|s| s.to_string()),
        telegram_bot_token: None,
        telegram_chat_id: None,
        alert_targets: None,
        master_api_endpoint: None,
        listen_addr: None,
    }
}

#[test]
fn app_mode_values() {
    assert!(matches!(parse_app_mode(Some("MASTER")), Ok(AppMode::Master)));
    assert!(matches!(parse_app_mode(Some("SLAVE")), Ok(AppMode::Slave)));
    assert!(matches!(parse_app_mode(None), Err(ConfigError::MissingAppMode)));
    match parse_app_mode(Some("master")) {
        Err(ConfigError::InvalidAppMode(v)) => assert_eq!(v, "master"),
        _ => panic!("lower-case mode accepted"),
    }
}

#[test]
fn chat_ids_parse() {
    let ids = parse_chat_ids("TELEGRAM_CHAT_ID", Some(" 123, -456 ,789")).ok().unwrap();
    assert_eq!(ids, vec![123, -456, 789]);
    assert_eq!(parse_chat_ids("TELEGRAM_CHAT_ID", None).ok().unwrap(), Vec::<i64>::new());
    assert_eq!(parse_chat_ids("X", Some("+7")).ok().unwrap(), vec![7]);
}

#[test]
fn chat_ids_bounds() {
    assert_eq!(
        parse_chat_ids("X", Some("9223372036854775807,-9223372036854775808")).ok().unwrap(),
        vec![i64::MAX, i64::MIN]
    );
    assert!(parse_chat_ids("X", Some("9223372036854775808")).is_err());
    assert!(parse_chat_ids("X", Some("-9223372036854775809")).is_err());
}

#[test]
fn chat_ids_errors() {
    match parse_chat_ids("TELEGRAM_CHAT_ID", Some("1,abc")) {
        Err(ConfigError::InvalidList(name)) => assert_eq!(name, "TELEGRAM_CHAT_ID"),
        _ => panic!("bad list accepted"),
    }
    assert!(parse_chat_ids("X", Some("")).is_err());
    assert!(parse_chat_ids("X", Some("1,,2")).is_err());
    assert!(parse_chat_ids("X", Some("-")).is_err());
    assert!(parse_chat_ids("X", Some("1 2")).is_err());
}

#[test]
fn alert_targets_parse() {
    let t = parse_telegram_targets("ALERT_TARGETS", Some("-100123:45, 678 ,9:10:11")).ok().unwrap();
    assert_eq!(
        t,
        vec![
            TelegramTarget { chat_id: -100123, topic_id: Some(45) },
            TelegramTarget { chat_id: 678, topic_id: None },
            TelegramTarget { chat_id: 9, topic_id: Some(10) },
        ]
    );
}

#[test]
fn alert_targets_errors() {
    assert!(parse_telegram_targets("ALERT_TARGETS", Some("12 :3")).is_err());
    assert!(parse_telegram_targets("ALERT_TARGETS", Some("12:")).is_err());
    assert!(parse_telegram_targets("ALERT_TARGETS", Some("12:2147483648")).is_err());
    match parse_telegram_targets("ALERT_TARGETS", Some(":5")) {
        Err(ConfigError::InvalidList(name)) => assert_eq!(name, "ALERT_TARGETS"),
        _ => panic!("bad target accepted"),
    }
    assert_eq!(parse_telegram_targets("A", None).ok().unwrap(), Vec::<TelegramTarget>::new());
}

#[test]
fn config_defaults() {
    let c = config_from_env(&env(Some("SLAVE"), Some("key"))).ok().unwrap();
    assert!(matches!(c.app_mode, AppMode::Slave));
    assert_eq!(c.internal_api_key, "key");
    assert_eq!(c.listen_addr, "127.0.0.1:13001");
    assert!(c.telegram_chat_ids.is_empty());
    assert!(c.alert_targets.is_empty());
    assert_eq!(c.slaves.len(), 0);
    assert!(c.telegram_bot_token.is_none());
}

#[test]
fn config_full() {
    let mut e = env(Some("MASTER"), Some("key"));
    e.telegram_bot_token = Some("tok".to_string());
    e.telegram_chat_id = Some("1,2".to_string());
    e.alert_targets = Some("3:4".to_string());
    e.master_api_endpoint = Some("http://m/alert".to_string());
    e.listen_addr = Some("0.0.0.0:9000".to_string());
    let c = config_from_env(&e).ok().unwrap();
    assert!(matches!(c.app_mode, AppMode::Master));
    assert_eq!(c.telegram_chat_ids, vec![1, 2]);
    assert_eq!(c.alert_targets, vec![TelegramTarget { chat_id: 3, topic_id: Some(4) }]);
    assert_eq!(c.listen_addr, "0.0.0.0:9000");
    assert_eq!(c.master_api_endpoint.as_deref(), Some("http://m/alert"));
    assert_eq!(master_bot_token(&c).ok().unwrap(), "tok");
    assert_eq!(slave_master_endpoint(&c).ok().unwrap(), "http://m/alert");
}

#[test]
fn config_error_order() {
    assert!(matches!(config_from_env(&env(None, None)), Err(ConfigError::MissingAppMode)));
    assert!(matches!(config_from_env(&env(Some("X"), None)), Err(ConfigError::InvalidAppMode(_))));
    assert!(matches!(config_from_env(&env(Some("SLAVE"), None)), Err(ConfigError::MissingApiKey)));
    let mut e = env(Some("SLAVE"), Some("k"));
    e.telegram_chat_id = Some("x".to_string());
    e.alert_targets = Some("y".to_string());
    match config_from_env(&e) {
        Err(ConfigError::InvalidList(n)) => assert_eq!(n, "TELEGRAM_CHAT_ID"),
        _ => panic!("expected chat id error"),
    }
    e.telegram_chat_id = None;
    match config_from_env(&e) {
        Err(ConfigError::InvalidList(n)) => assert_eq!(n, "ALERT_TARGETS"),
        _ => panic!("expected target error"),
    }
}

#[test]
fn config_error_messages() {
    assert_eq!(ConfigError::MissingAppMode.message(), "APP_MODE must be set (MASTER or SLAVE)");
    assert_eq!(ConfigError::InvalidAppMode("x".to_string()).message(), "Invalid APP_MODE: x");
    assert_eq!(ConfigError::MissingApiKey.message(), "INTERNAL_API_KEY must be set");
    assert_eq!(
        ConfigError::InvalidList("ALERT_TARGETS".to_string()).message(),
        "Failed to parse environment variable ALERT_TARGETS"
    );
}

#[test]
fn startup_requirements() {
    let mut c = config_from_env(&env(Some("MASTER"), Some("k"))).ok().unwrap();
    assert_eq!(master_bot_token(&c), Err(StartupError::MissingBotToken));
    c.telegram_bot_token = Some("t".to_string());
    assert_eq!(master_bot_token(&c), Err(StartupError::MissingChatIds));
    c.telegram_chat_ids = vec![1];
    assert_eq!(master_bot_token(&c), Err(StartupError::MissingAlertTargets));
    c.alert_targets = vec![TelegramTarget { chat_id: 1, topic_id: None }];
    assert_eq!(master_bot_token(&c), Ok("t".to_string()));
    assert_eq!(slave_master_endpoint(&c), Err(StartupError::MissingMasterEndpoint));
    assert_eq!(
        StartupError::MissingMasterEndpoint.message(),
        "MASTER_API_ENDPOINT is required for SLAVE mode"
    );
    assert_eq!(StartupError::MissingBotToken.message(), "TELEGRAM_BOT_TOKEN is required for MASTER mode");
    assert_eq!(StartupError::MissingChatIds.message(), "TELEGRAM_CHAT_ID is required for MASTER mode");
    assert_eq!(StartupError::MissingAlertTargets.message(), "ALERT_TARGETS is required for MASTER mode");
}
