//! The configuration of the bridge.
use crate::group_log;
use crate::json;
use crate::text::model;
use crate::text::number;
use crate::text::ops;
use vstd::prelude::*;
use vstd::string::*;

verus! {

/// What a configuration file sets.
pub struct FileConfig {
    pub bridge_port: Option<u16>,
    pub alma_api: Option<String>,
    pub alma_model: Option<String>,
    pub alma_timeout: Option<u64>,
    pub alma_max_retries: Option<u32>,
    pub alma_retry_delay_ms: Option<u64>,
    pub database_path: Option<String>,
    pub people_dir: Option<String>,
    pub onebot_api_timeout: Option<u64>,
    pub onebot_access_token: Option<String>,
    pub group_history_size: Option<usize>,
    pub thinking_message: Option<String>,
    pub show_thinking: Option<bool>,
}

/// What the environment sets, each by the variable of the same name in capitals.
pub struct EnvConfig {
    pub bridge_port: Option<String>,
    pub alma_api: Option<String>,
    pub people_dir: Option<String>,
    pub db_path: Option<String>,
    pub alma_model: Option<String>,
    pub alma_timeout: Option<String>,
    pub alma_max_retries: Option<String>,
    pub alma_retry_delay: Option<String>,
    pub onebot_api_timeout: Option<String>,
    pub access_token: Option<String>,
    pub group_history_size: Option<String>,
    pub thinking_message: Option<String>,
    pub show_thinking: Option<String>,
}

/// The configuration of the bridge.
pub struct Config {
    pub bridge_port: u16,
    pub alma_api: String,
    pub people_dir: String,
    pub db_path: String,
    /// The model for new threads, where one is chosen.
    pub alma_model: Option<String>,
    pub alma_run_timeout_secs: u64,
    pub alma_max_retries: u32,
    pub alma_retry_delay_ms: u64,
    pub onebot_api_timeout_secs: u64,
    pub access_token: Option<String>,
    /// How many messages of a group are kept; with 0 none are.
    pub group_history_size: usize,
    /// What is sent before Alma begins to write, if anything is.
    pub thinking_message: Option<String>,
    /// Whether the thoughts of Alma are sent too.
    pub show_thinking: bool,
}

/// A number that is set: by the environment, else by the file, else the default. A number that
/// cannot be read, or is greater than `max`, is not set.
pub open spec fn number_setting(
    var: Option<Seq<char>>,
    file: Option<nat>,
    default: nat,
    max: nat,
) -> nat {
    let otherwise = match file {
        Some(n) => n,
        None => default,
    };
    match var {
        Some(text) => match number::parsed_unsigned(model::trimmed(text), max) {
            Ok(n) => n,
            Err(_) => otherwise,
        },
        None => otherwise,
    }
}

/// The model of a number in a file.
pub open spec fn nat_view(o: Option<u64>) -> Option<nat> {
    match o {
        Some(n) => Some(n as nat),
        None => None,
    }
}

fn get_env_or(var: &Option<String>, file: Option<u64>, default: u64, max: u64) -> (r: u64)
    requires
        default <= max,
        file matches Some(n) ==> n <= max,
    ensures
        r == number_setting(json::text_view(*var), nat_view(file), default as nat, max as nat),
        r <= max,
{
    let otherwise: u64 = match file {
        Some(n) => n,
        None => default,
    };
    match var {
        Some(text) => match number::parse_unsigned(ops::trim(text), max) {
            Ok(n) => n,
            Err(_) => otherwise,
        },
        None => otherwise,
    }
}

/// The truth value that a text stands for.
pub open spec fn bool_value(text: Seq<char>) -> Option<bool> {
    let v = model::ascii_lowered(model::trimmed(text));
    if v == "true"@ || v == "1"@ || v == "yes"@ || v == "y"@ || v == "on"@ {
        Some(true)
    } else if v == "false"@ || v == "0"@ || v == "no"@ || v == "n"@ || v == "off"@ {
        Some(false)
    } else {
        None
    }
}

/// The truth value that a text stands for.
pub fn parse_bool_value(value: &str) -> (r: Option<bool>)
    ensures
        r == bool_value(value@),
{
    let v = ops::ascii_lowercase(ops::trim(value));
    if ops::same(&v, "true") || ops::same(&v, "1") || ops::same(&v, "yes") || ops::same(&v, "y")
        || ops::same(&v, "on") {
        Some(true)
    } else if ops::same(&v, "false") || ops::same(&v, "0") || ops::same(&v, "no") || ops::same(
        &v,
        "n",
    ) || ops::same(&v, "off") {
        Some(false)
    } else {
        None
    }
}

/// A truth value that is set: by the environment, else by the file, else the default.
pub open spec fn bool_setting(var: Option<Seq<char>>, file: Option<bool>, default: bool) -> bool {
    let otherwise = match file {
        Some(b) => b,
        None => default,
    };
    match var {
        Some(text) => match bool_value(text) {
            Some(b) => b,
            None => otherwise,
        },
        None => otherwise,
    }
}

fn get_env_or_bool(var: &Option<String>, file: Option<bool>, default: bool) -> (r: bool)
    ensures
        r == bool_setting(json::text_view(*var), file, default),
{
    let otherwise = match file {
        Some(b) => b,
        None => default,
    };
    match var {
        Some(text) => match parse_bool_value(text) {
            Some(b) => b,
            None => otherwise,
        },
        None => otherwise,
    }
}

/// A text that is set: by the environment, else by the file.
pub open spec fn text_setting(var: Option<Seq<char>>, file: Option<Seq<char>>) -> Option<Seq<char>> {
    if var is Some {
        var
    } else {
        file
    }
}

/// A text, or a default.
pub open spec fn or_default(text: Option<Seq<char>>, default: Seq<char>) -> Seq<char> {
    match text {
        Some(t) => t,
        None => default,
    }
}

/// A token, without the space around it; a blank one is none.
pub open spec fn token_setting(text: Option<Seq<char>>) -> Option<Seq<char>> {
    match text {
        Some(t) => if model::trimmed(t).len() > 0 {
            Some(model::trimmed(t))
        } else {
            None
        },
        None => None,
    }
}

fn choose_text(var: Option<String>, file: Option<String>) -> (r: Option<String>)
    ensures
        json::text_view(r) == text_setting(json::text_view(var), json::text_view(file)),
{
    match var {
        Some(t) => Some(t),
        None => file,
    }
}

fn choose_text_or(var: Option<String>, file: Option<String>, default: &str) -> (r: String)
    ensures
        r@ == or_default(
            text_setting(json::text_view(var), json::text_view(file)),
            default@,
        ),
{
    match choose_text(var, file) {
        Some(t) => t,
        None => default.to_owned(),
    }
}

fn choose_token(var: Option<String>, file: Option<String>) -> (r: Option<String>)
    ensures
        json::text_view(r) == token_setting(
            text_setting(json::text_view(var), json::text_view(file)),
        ),
{
    match choose_text(var, file) {
        Some(t) => {
            let t = ops::trim(&t);
            if t.is_empty() {
                None
            } else {
                Some(t.to_owned())
            }
        },
        None => None,
    }
}

fn widen16(o: Option<u16>) -> (r: Option<u64>)
    ensures
        match o {
            Some(n) => r == Some(n as u64),
            None => r is None,
        },
{
    match o {
        Some(n) => Some(n as u64),
        None => None,
    }
}

fn widen32(o: Option<u32>) -> (r: Option<u64>)
    ensures
        match o {
            Some(n) => r == Some(n as u64),
            None => r is None,
        },
{
    match o {
        Some(n) => Some(n as u64),
        None => None,
    }
}

fn widen_size(o: Option<usize>) -> (r: Option<u64>)
    ensures
        match o {
            Some(n) => r == Some(n as u64),
            None => r is None,
        },
{
    match o {
        Some(n) => Some(n as u64),
        None => None,
    }
}

/// The model of a small number in a file.
pub open spec fn port_view(o: Option<u16>) -> Option<nat> {
    match o {
        Some(n) => Some(n as nat),
        None => None,
    }
}

/// The model of a number of retries in a file.
pub open spec fn count_view(o: Option<u32>) -> Option<nat> {
    match o {
        Some(n) => Some(n as nat),
        None => None,
    }
}

/// The model of a size in a file.
pub open spec fn size_view(o: Option<usize>) -> Option<nat> {
    match o {
        Some(n) => Some(n as nat),
        None => None,
    }
}

impl Config {
    /// The configuration that the environment and a file set. `home` is the home directory.
    pub fn from_env(home: &str, file: FileConfig, vars: EnvConfig) -> (r: Config)
        ensures
            r.bridge_port == number_setting(
                json::text_view(vars.bridge_port),
                port_view(file.bridge_port),
                8090,
                u16::MAX as nat,
            ),
            r.alma_api@ == or_default(
                text_setting(json::text_view(vars.alma_api), json::text_view(file.alma_api)),
                "http://localhost:23001"@,
            ),
            r.people_dir@ == or_default(
                text_setting(json::text_view(vars.people_dir), json::text_view(file.people_dir)),
                group_log::path_below(home@, ".config/alma/people"@),
            ),
            r.db_path@ == or_default(
                text_setting(json::text_view(vars.db_path), json::text_view(file.database_path)),
                "bridge-state.db"@,
            ),
            json::text_view(r.alma_model) == text_setting(
                json::text_view(vars.alma_model),
                json::text_view(file.alma_model),
            ),
            r.alma_run_timeout_secs == number_setting(
                json::text_view(vars.alma_timeout),
                nat_view(file.alma_timeout),
                120,
                u64::MAX as nat,
            ),
            r.alma_max_retries == number_setting(
                json::text_view(vars.alma_max_retries),
                count_view(file.alma_max_retries),
                2,
                u32::MAX as nat,
            ),
            r.alma_retry_delay_ms == number_setting(
                json::text_view(vars.alma_retry_delay),
                nat_view(file.alma_retry_delay_ms),
                3000,
                u64::MAX as nat,
            ),
            r.onebot_api_timeout_secs == number_setting(
                json::text_view(vars.onebot_api_timeout),
                nat_view(file.onebot_api_timeout),
                30,
                u64::MAX as nat,
            ),
            json::text_view(r.access_token) == token_setting(
                text_setting(
                    json::text_view(vars.access_token),
                    json::text_view(file.onebot_access_token),
                ),
            ),
            r.group_history_size == number_setting(
                json::text_view(vars.group_history_size),
                size_view(file.group_history_size),
                30,
                usize::MAX as nat,
            ),
            json::text_view(r.thinking_message) == text_setting(
                json::text_view(vars.thinking_message),
                json::text_view(file.thinking_message),
            ),
            r.show_thinking == bool_setting(
                json::text_view(vars.show_thinking),
                file.show_thinking,
                false,
            ),
    {
        let people = group_log::join_path(home, ".config/alma/people");
        let bridge_port = get_env_or(
            &vars.bridge_port,
            widen16(file.bridge_port),
            8090,
            u16::MAX as u64,
        ) as u16;
        let alma_max_retries = get_env_or(
            &vars.alma_max_retries,
            widen32(file.alma_max_retries),
            2,
            u32::MAX as u64,
        ) as u32;
        let group_history_size = get_env_or(
            &vars.group_history_size,
            widen_size(file.group_history_size),
            30,
            usize::MAX as u64,
        ) as usize;
        Config {
            bridge_port,
            alma_api: choose_text_or(vars.alma_api, file.alma_api, "http://localhost:23001"),
            people_dir: choose_text_or(vars.people_dir, file.people_dir, &people),
            db_path: choose_text_or(vars.db_path, file.database_path, "bridge-state.db"),
            alma_model: choose_text(vars.alma_model, file.alma_model),
            alma_run_timeout_secs: get_env_or(
                &vars.alma_timeout,
                file.alma_timeout,
                120,
                u64::MAX,
            ),
            alma_max_retries,
            alma_retry_delay_ms: get_env_or(
                &vars.alma_retry_delay,
                file.alma_retry_delay_ms,
                3000,
                u64::MAX,
            ),
            onebot_api_timeout_secs: get_env_or(
                &vars.onebot_api_timeout,
                file.onebot_api_timeout,
                30,
                u64::MAX,
            ),
            access_token: choose_token(vars.access_token, file.onebot_access_token),
            group_history_size,
            thinking_message: choose_text(vars.thinking_message, file.thinking_message),
            show_thinking: get_env_or_bool(&vars.show_thinking, file.show_thinking, false),
        }
    }

    /// Takes over a configuration that was read anew. The port and the database stay as they
    /// are while the bridge runs. Says whether Alma is now found elsewhere.
    pub fn reload(&mut self, new: Config) -> (r: bool)
        ensures
            r == (old(self).alma_api@ != new.alma_api@),
            *final(self) == (Config {
                bridge_port: old(self).bridge_port,
                db_path: old(self).db_path,
                ..new
            }),
    {
        let changed = !ops::same(&self.alma_api, &new.alma_api);
        self.group_history_size = new.group_history_size;
        self.thinking_message = new.thinking_message;
        self.show_thinking = new.show_thinking;
        self.alma_run_timeout_secs = new.alma_run_timeout_secs;
        self.alma_max_retries = new.alma_max_retries;
        self.alma_retry_delay_ms = new.alma_retry_delay_ms;
        self.access_token = new.access_token;
        self.onebot_api_timeout_secs = new.onebot_api_timeout_secs;
        self.alma_model = new.alma_model;
        self.alma_api = new.alma_api;
        self.people_dir = new.people_dir;
        changed
    }
}

/// Where a configuration file is looked for: the first one that can be read counts.
pub fn config_file_candidates(home: &str) -> (r: Vec<String>)
    ensures
        model::texts(r@) == seq![
            "config.toml"@,
            "bridge.toml"@,
            group_log::path_below(home@, ".config/alma/bridge/config.toml"@),
        ],
{
    let mut out: Vec<String> = Vec::new();
    out.push("config.toml".to_owned());
    out.push("bridge.toml".to_owned());
    out.push(group_log::join_path(home, ".config/alma/bridge/config.toml"));
    assert(model::texts(out@) =~= seq![
        "config.toml"@,
        "bridge.toml"@,
        group_log::path_below(home@, ".config/alma/bridge/config.toml"@),
    ]);
    out
}

/// What the environment sets goes before what a file sets.
pub proof fn law_environment_goes_first(
    var: Option<Seq<char>>,
    file: Option<nat>,
    other: Option<nat>,
    default: nat,
    max: nat,
)
    requires
        var matches Some(text) && number::parsed_unsigned(model::trimmed(text), max) is Ok,
    ensures
        number_setting(var, file, default, max) == number_setting(var, other, default, max),
        number_setting(var, file, default, max) == number::parsed_unsigned(
            model::trimmed(var->0),
            max,
        )->Ok_0,
{
}

} // verus!
