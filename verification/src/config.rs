//! Configuration of a node, and the parsing of its settings.

use vstd::prelude::*;
use crate::numbers::{parse_i32, parse_i64, parse_in_range};
use crate::registry::SlaveRegistry;
use crate::text::{concat2, copy_str, lemma_split_append, lemma_split_no_sep, split, split_spec, str_equal, trim, trim_spec};

verus! {

/// The role a node plays.
#[derive(Clone, Copy, Debug, PartialEq, Eq, Structural)]
pub enum AppMode {
    Master,
    Slave,
}

/// A chat, and optionally a forum topic in it, that receives alerts.
#[derive(Clone, Copy, Debug, PartialEq, Eq, Structural)]
pub struct TelegramTarget {
    pub chat_id: i64,
    pub topic_id: Option<i32>,
}

/// The settings of a node.
pub struct Config {
    pub app_mode: AppMode,
    pub telegram_bot_token: Option<String>,
    pub telegram_chat_ids: Vec<i64>,
    pub alert_targets: Vec<TelegramTarget>,
    pub master_api_endpoint: Option<String>,
    pub internal_api_key: String,
    pub listen_addr: String,
    pub slaves: SlaveRegistry,
}

/// The raw values of the environment variables that configure a node; `None`
/// where a variable is not set (or not valid Unicode).
pub struct EnvValues {
    pub app_mode: Option<String>,
    pub internal_api_key: Option<String>,
    pub telegram_bot_token: Option<String>,
    pub telegram_chat_id: Option<String>,
    pub alert_targets: Option<String>,
    pub master_api_endpoint: Option<String>,
    pub listen_addr: Option<String>,
}

/// Why the settings were refused.
pub enum ConfigError {
    /// `APP_MODE` is not set.
    MissingAppMode,
    /// `APP_MODE` is neither `MASTER` nor `SLAVE`; it holds the value.
    InvalidAppMode(String),
    /// `INTERNAL_API_KEY` is not set.
    MissingApiKey,
    /// A list variable holds an item that does not parse; it holds the
    /// variable's name.
    InvalidList(String),
}

/// `e` is the error for an unparsable list in the variable `name`.
pub open spec fn invalid_list(e: ConfigError, name: Seq<char>) -> bool {
    e matches ConfigError::InvalidList(n) && n@ == name
}

pub open spec fn opt_view(o: Option<String>) -> Option<Seq<char>> {
    match o {
        Some(s) => Some(s@),
        None => None,
    }
}

/// The mode that the value of `APP_MODE` names.
pub open spec fn app_mode_spec(value: Seq<char>) -> Option<AppMode> {
    if value == "MASTER"@ {
        Some(AppMode::Master)
    } else if value == "SLAVE"@ {
        Some(AppMode::Slave)
    } else {
        None
    }
}

/// Reads the value of `APP_MODE`.
pub fn parse_app_mode(value: Option<&str>) -> (res: Result<AppMode, ConfigError>)
    ensures
        match value {
            None => res is Err && res->Err_0 is MissingAppMode,
            Some(v) => match app_mode_spec(v@) {
                Some(m) => res == Ok::<AppMode, ConfigError>(m),
                None => res matches Err(ConfigError::InvalidAppMode(s)) && s@ == v@,
            },
        },
{
    match value {
        None => Err(ConfigError::MissingAppMode),
        Some(v) => {
            if str_equal(v, "MASTER") {
                Ok(AppMode::Master)
            } else if str_equal(v, "SLAVE") {
                Ok(AppMode::Slave)
            } else {
                Err(ConfigError::InvalidAppMode(copy_str(v)))
            }
        },
    }
}

/// The chat id that one item of `TELEGRAM_CHAT_ID` writes.
pub open spec fn chat_id_item(item: Seq<char>) -> Option<int> {
    parse_in_range(trim_spec(item), i64::MIN as int, i64::MAX as int)
}

/// The target that one item of `ALERT_TARGETS` writes: `chat[:topic[:...]]`,
/// trimmed; a third field and beyond are not read.
pub open spec fn target_item(item: Seq<char>) -> Option<TelegramTarget> {
    let parts = split_spec(trim_spec(item), ':');
    match parse_in_range(parts[0], i64::MIN as int, i64::MAX as int) {
        None => None,
        Some(chat) => if parts.len() >= 2 {
            match parse_in_range(parts[1], i32::MIN as int, i32::MAX as int) {
                None => None,
                Some(topic) => Some(TelegramTarget { chat_id: chat as i64, topic_id: Some(topic as i32) }),
            }
        } else {
            Some(TelegramTarget { chat_id: chat as i64, topic_id: None })
        },
    }
}

pub open spec fn str_opt(o: Option<&str>) -> Option<Seq<char>> {
    match o {
        Some(s) => Some(s@),
        None => None,
    }
}

/// Every item of the list (if the variable is set) is a chat id.
pub open spec fn chat_list_ok(value: Option<Seq<char>>) -> bool {
    match value {
        None => true,
        Some(s) => forall|i: int|
            0 <= i < split_spec(s, ',').len() ==> #[trigger] chat_id_item(split_spec(s, ',')[i]) is Some,
    }
}

/// `ids` are the chat ids that the list (if the variable is set) holds.
pub open spec fn chat_list_is(value: Option<Seq<char>>, ids: Seq<i64>) -> bool {
    match value {
        None => ids.len() == 0,
        Some(s) => ids.len() == split_spec(s, ',').len() && forall|i: int|
            0 <= i < ids.len() ==> #[trigger] chat_id_item(split_spec(s, ',')[i]) == Some(
                ids[i] as int,
            ),
    }
}

/// Every item of the list (if the variable is set) is an alert target.
pub open spec fn target_list_ok(value: Option<Seq<char>>) -> bool {
    match value {
        None => true,
        Some(s) => forall|i: int|
            0 <= i < split_spec(s, ',').len() ==> #[trigger] target_item(split_spec(s, ',')[i]) is Some,
    }
}

/// `targets` are the alert targets that the list (if the variable is set)
/// holds.
pub open spec fn target_list_is(value: Option<Seq<char>>, targets: Seq<TelegramTarget>) -> bool {
    match value {
        None => targets.len() == 0,
        Some(s) => targets.len() == split_spec(s, ',').len() && forall|i: int|
            0 <= i < targets.len() ==> #[trigger] target_item(split_spec(s, ',')[i]) == Some(
                targets[i],
            ),
    }
}

/// Reads a comma-separated list of chat ids, the value of the variable named
/// `var_name`; an unset variable gives an empty list.
pub fn parse_chat_ids(var_name: &str, value: Option<&str>) -> (res: Result<Vec<i64>, ConfigError>)
    ensures
        match res {
            Ok(v) => chat_list_is(str_opt(value), v@),
            Err(e) => !chat_list_ok(str_opt(value)) && invalid_list(e, var_name@),
        },
{
    match value {
        None => Ok(Vec::new()),
        Some(s) => {
            let items = split(s, ',');
            let mut out: Vec<i64> = Vec::new();
            let mut i: usize = 0;
            while i < items.len()
                invariant
                    value == Some(s),
                    items@.len() == split_spec(s@, ',').len(),
                    forall|k: int| 0 <= k < items@.len() ==> #[trigger] items@[k]@ == split_spec(
                        s@,
                        ',',
                    )[k],
                    i <= items@.len(),
                    out@.len() == i,
                    forall|k: int|
                        0 <= k < i ==> chat_id_item(#[trigger] split_spec(s@, ',')[k]) == Some(
                            out@[k] as int,
                        ),
                decreases items@.len() - i,
            {
                let t = trim(items[i].as_str());
                match parse_i64(t.as_str()) {
                    Some(v) => out.push(v),
                    None => {
                        assert(chat_id_item(split_spec(s@, ',')[i as int]) is None);
                        return Err(ConfigError::InvalidList(copy_str(var_name)));
                    },
                }
                i = i + 1;
            }
            Ok(out)
        },
    }
}

fn parse_target(item: &str) -> (res: Option<TelegramTarget>)
    ensures
        res == target_item(item@),
{
    let t = trim(item);
    let parts = split(t.as_str(), ':');
    proof {
        crate::text::lemma_split_nonempty(trim_spec(item@), ':');
    }
    match parse_i64(parts[0].as_str()) {
        None => None,
        Some(chat) => {
            if parts.len() >= 2 {
                match parse_i32(parts[1].as_str()) {
                    None => None,
                    Some(topic) => Some(TelegramTarget { chat_id: chat, topic_id: Some(topic) }),
                }
            } else {
                Some(TelegramTarget { chat_id: chat, topic_id: None })
            }
        },
    }
}

/// Reads a comma-separated list of alert targets, the value of the variable
/// named `var_name`; an unset variable gives an empty list.
pub fn parse_telegram_targets(var_name: &str, value: Option<&str>) -> (res: Result<
    Vec<TelegramTarget>,
    ConfigError,
>)
    ensures
        match res {
            Ok(v) => target_list_is(str_opt(value), v@),
            Err(e) => !target_list_ok(str_opt(value)) && invalid_list(e, var_name@),
        },
{
    match value {
        None => Ok(Vec::new()),
        Some(s) => {
            let items = split(s, ',');
            let mut out: Vec<TelegramTarget> = Vec::new();
            let mut i: usize = 0;
            while i < items.len()
                invariant
                    value == Some(s),
                    items@.len() == split_spec(s@, ',').len(),
                    forall|k: int| 0 <= k < items@.len() ==> #[trigger] items@[k]@ == split_spec(
                        s@,
                        ',',
                    )[k],
                    i <= items@.len(),
                    out@.len() == i,
                    forall|k: int|
                        0 <= k < i ==> target_item(#[trigger] split_spec(s@, ',')[k]) == Some(
                            out@[k],
                        ),
                decreases items@.len() - i,
            {
                match parse_target(items[i].as_str()) {
                    Some(t) => out.push(t),
                    None => {
                        assert(target_item(split_spec(s@, ',')[i as int]) is None);
                        return Err(ConfigError::InvalidList(copy_str(var_name)));
                    },
                }
                i = i + 1;
            }
            Ok(out)
        },
    }
}

fn as_str_opt(o: &Option<String>) -> (res: Option<&str>)
    ensures
        str_opt(res) == opt_view(*o),
{
    match o {
        Some(s) => Some(s.as_str()),
        None => None,
    }
}

fn clone_opt(o: &Option<String>) -> (res: Option<String>)
    ensures
        opt_view(res) == opt_view(*o),
{
    match o {
        Some(s) => Some(s.clone()),
        None => None,
    }
}

/// The address a node listens on where `LISTEN_ADDR` is not set.
pub open spec fn default_listen_addr() -> Seq<char> {
    "127.0.0.1:13001"@
}

/// The settings are accepted: `APP_MODE` names a mode, `INTERNAL_API_KEY` is
/// set, and both lists parse.
pub open spec fn env_accepted(env: EnvValues) -> bool {
    &&& env.app_mode is Some
    &&& app_mode_spec(env.app_mode->0@) is Some
    &&& env.internal_api_key is Some
    &&& chat_list_ok(opt_view(env.telegram_chat_id))
    &&& target_list_ok(opt_view(env.alert_targets))
}

/// Builds a node's settings from its environment, checking them in the order
/// `APP_MODE`, `INTERNAL_API_KEY`, `TELEGRAM_CHAT_ID`, `ALERT_TARGETS`. The
/// slaves of a master are added afterwards, from its servers file.
pub fn config_from_env(env: &EnvValues) -> (res: Result<Config, ConfigError>)
    ensures
        res is Ok <==> env_accepted(*env),
        env.app_mode is None ==> res matches Err(ConfigError::MissingAppMode),
        env.app_mode is Some && app_mode_spec(env.app_mode->0@) is None ==> (res matches Err(
            ConfigError::InvalidAppMode(s),
        ) && s@ == env.app_mode->0@),
        env.app_mode is Some && app_mode_spec(env.app_mode->0@) is Some
            && env.internal_api_key is None ==> (res matches Err(ConfigError::MissingApiKey)),
        env.app_mode is Some && app_mode_spec(env.app_mode->0@) is Some
            && env.internal_api_key is Some && !chat_list_ok(opt_view(env.telegram_chat_id)) ==> (
        res matches Err(e) && invalid_list(e, "TELEGRAM_CHAT_ID"@)),
        env.app_mode is Some && app_mode_spec(env.app_mode->0@) is Some
            && env.internal_api_key is Some && chat_list_ok(opt_view(env.telegram_chat_id))
            && !target_list_ok(opt_view(env.alert_targets)) ==> (res matches Err(e) && invalid_list(
            e,
            "ALERT_TARGETS"@,
        )),
        res matches Ok(c) ==> {
            &&& Some(c.app_mode) == app_mode_spec(env.app_mode->0@)
            &&& c.internal_api_key@ == env.internal_api_key->0@
            &&& opt_view(c.telegram_bot_token) == opt_view(env.telegram_bot_token)
            &&& chat_list_is(opt_view(env.telegram_chat_id), c.telegram_chat_ids@)
            &&& target_list_is(opt_view(env.alert_targets), c.alert_targets@)
            &&& opt_view(c.master_api_endpoint) == opt_view(env.master_api_endpoint)
            &&& c.listen_addr@ == match env.listen_addr {
                Some(a) => a@,
                None => default_listen_addr(),
            }
            &&& c.slaves@ == Map::<Seq<char>, Seq<char>>::empty()
        },
{
    let app_mode = match parse_app_mode(as_str_opt(&env.app_mode)) {
        Ok(m) => m,
        Err(e) => return Err(e),
    };
    let internal_api_key = match &env.internal_api_key {
        Some(k) => k.clone(),
        None => return Err(ConfigError::MissingApiKey),
    };
    let telegram_chat_ids = match parse_chat_ids("TELEGRAM_CHAT_ID", as_str_opt(&env.telegram_chat_id)) {
        Ok(v) => v,
        Err(e) => {
            proof {
                reveal_strlit("TELEGRAM_CHAT_ID");
            }
            return Err(e);
        },
    };
    let alert_targets = match parse_telegram_targets("ALERT_TARGETS", as_str_opt(&env.alert_targets)) {
        Ok(v) => v,
        Err(e) => {
            proof {
                reveal_strlit("ALERT_TARGETS");
            }
            return Err(e);
        },
    };
    let listen_addr = match &env.listen_addr {
        Some(a) => a.clone(),
        None => copy_str("127.0.0.1:13001"),
    };
    Ok(Config {
        app_mode,
        telegram_bot_token: clone_opt(&env.telegram_bot_token),
        telegram_chat_ids,
        alert_targets,
        master_api_endpoint: clone_opt(&env.master_api_endpoint),
        internal_api_key,
        listen_addr,
        slaves: SlaveRegistry::new(),
    })
}

/// Why a node refused to start in the mode its settings name.
#[derive(Clone, Copy, Debug, PartialEq, Eq, Structural)]
pub enum StartupError {
    MissingBotToken,
    MissingChatIds,
    MissingAlertTargets,
    MissingMasterEndpoint,
}

/// What a master needs before it starts: a bot token, at least one chat id and
/// at least one alert target, checked in that order. Gives the token.
pub fn master_bot_token(config: &Config) -> (res: Result<String, StartupError>)
    ensures
        config.telegram_bot_token is None ==> res == Err::<String, StartupError>(
            StartupError::MissingBotToken,
        ),
        config.telegram_bot_token is Some && config.telegram_chat_ids@.len() == 0 ==> res == Err::<
            String,
            StartupError,
        >(StartupError::MissingChatIds),
        config.telegram_bot_token is Some && config.telegram_chat_ids@.len() > 0
            && config.alert_targets@.len() == 0 ==> res == Err::<String, StartupError>(
            StartupError::MissingAlertTargets,
        ),
        config.telegram_bot_token is Some && config.telegram_chat_ids@.len() > 0
            && config.alert_targets@.len() > 0 ==> (res matches Ok(t) && t@
            == config.telegram_bot_token->0@),
{
    let token = match &config.telegram_bot_token {
        Some(t) => t.clone(),
        None => return Err(StartupError::MissingBotToken),
    };
    if config.telegram_chat_ids.len() == 0 {
        return Err(StartupError::MissingChatIds);
    }
    if config.alert_targets.len() == 0 {
        return Err(StartupError::MissingAlertTargets);
    }
    Ok(token)
}

/// What a slave needs before it starts: the master's endpoint, which it gives.
pub fn slave_master_endpoint(config: &Config) -> (res: Result<String, StartupError>)
    ensures
        match config.master_api_endpoint {
            Some(e) => res matches Ok(r) && r@ == e@,
            None => res == Err::<String, StartupError>(StartupError::MissingMasterEndpoint),
        },
{
    match &config.master_api_endpoint {
        Some(e) => Ok(e.clone()),
        None => Err(StartupError::MissingMasterEndpoint),
    }
}

impl ConfigError {
    /// The text of the error.
    pub fn message(&self) -> (m: String)
        ensures
            m@ == match self {
                ConfigError::MissingAppMode => "APP_MODE must be set (MASTER or SLAVE)"@,
                ConfigError::InvalidAppMode(v) => "Invalid APP_MODE: "@ + v@,
                ConfigError::MissingApiKey => "INTERNAL_API_KEY must be set"@,
                ConfigError::InvalidList(n) => "Failed to parse environment variable "@ + n@,
            },
    {
        match self {
            ConfigError::MissingAppMode => copy_str("APP_MODE must be set (MASTER or SLAVE)"),
            ConfigError::InvalidAppMode(v) => concat2("Invalid APP_MODE: ", v.as_str()),
            ConfigError::MissingApiKey => copy_str("INTERNAL_API_KEY must be set"),
            ConfigError::InvalidList(n) => concat2("Failed to parse environment variable ", n.as_str()),
        }
    }
}

impl StartupError {
    /// The text of the error.
    pub fn message(&self) -> (m: String)
        ensures
            m@ == match self {
                StartupError::MissingBotToken => "TELEGRAM_BOT_TOKEN is required for MASTER mode"@,
                StartupError::MissingChatIds => "TELEGRAM_CHAT_ID is required for MASTER mode"@,
                StartupError::MissingAlertTargets => "ALERT_TARGETS is required for MASTER mode"@,
                StartupError::MissingMasterEndpoint => "MASTER_API_ENDPOINT is required for SLAVE mode"@,
            },
    {
        match self {
            StartupError::MissingBotToken => copy_str("TELEGRAM_BOT_TOKEN is required for MASTER mode"),
            StartupError::MissingChatIds => copy_str("TELEGRAM_CHAT_ID is required for MASTER mode"),
            StartupError::MissingAlertTargets => copy_str("ALERT_TARGETS is required for MASTER mode"),
            StartupError::MissingMasterEndpoint => copy_str("MASTER_API_ENDPOINT is required for SLAVE mode"),
        }
    }
}

/// An alert target without a topic is its chat id read over the whole `i64`
/// range, as a chat id is: the trimmed item, if it holds no `:`, gives exactly
/// the chat it writes, and nothing where it writes no `i64`.
pub proof fn lemma_target_chat_only(item: Seq<char>)
    requires
        forall|i: int| 0 <= i < trim_spec(item).len() ==> trim_spec(item)[i] != ':',
    ensures
        target_item(item) == match parse_in_range(trim_spec(item), i64::MIN as int, i64::MAX as int) {
            Some(c) => Some(TelegramTarget { chat_id: c as i64, topic_id: None }),
            None => None,
        },
        target_item(item) is Some <==> chat_id_item(item) is Some,
{
    lemma_split_no_sep(trim_spec(item), ':');
}

/// An alert target `chat:topic` (trimmed, with no further `:`) is the chat
/// read over the whole `i64` range and the topic over the whole `i32` range;
/// it is refused exactly when one of them does not parse.
pub proof fn lemma_target_chat_and_topic(item: Seq<char>, chat: Seq<char>, topic: Seq<char>)
    requires
        trim_spec(item) == chat + seq![':'] + topic,
        forall|i: int| 0 <= i < chat.len() ==> chat[i] != ':',
        forall|i: int| 0 <= i < topic.len() ==> topic[i] != ':',
    ensures
        target_item(item) == match (
            parse_in_range(chat, i64::MIN as int, i64::MAX as int),
            parse_in_range(topic, i32::MIN as int, i32::MAX as int),
        ) {
            (Some(c), Some(t)) => Some(TelegramTarget { chat_id: c as i64, topic_id: Some(t as i32) }),
            _ => None,
        },
{
    lemma_split_append(chat, ':', topic);
    lemma_split_no_sep(chat, ':');
    assert(split_spec(trim_spec(item), ':') =~= seq![chat, topic]);
}

} // verus!
