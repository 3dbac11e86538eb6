use alma_onebot_bridge::config::{
    config_file_candidates, parse_bool_value, Config, EnvConfig, FileConfig,
};

fn no_file() -> FileConfig {
    FileConfig {
        bridge_port: None,
        alma_api: None,
        alma_model: None,
        alma_timeout: None,
        alma_max_retries: None,
        alma_retry_delay_ms: None,
        database_path: None,
        people_dir: None,
        onebot_api_timeout: None,
        onebot_access_token: None,
        group_history_size: None,
        thinking_message: None,
        show_thinking: None,
    }
}

fn no_vars() -> EnvConfig {
    EnvConfig {
        bridge_port: None,
        alma_api: None,
        people_dir: None,
        db_path: None,
        alma_model: None,
        alma_timeout: None,
        alma_max_retries: None,
        alma_retry_delay: None,
        onebot_api_timeout: None,
        access_token: None,
        group_history_size: None,
        thinking_message: None,
        show_thinking: None,
    }
}

#[test]
fn parse_bool_value_accepts_common_env_forms() {
    assert_eq!(parse_bool_value("true"), Some(true));
    assert_eq!(parse_bool_value("1"), Some(true));
    assert_eq!(parse_bool_value("ON"), Some(true));
    assert_eq!(parse_bool_value("false"), Some(false));
    assert_eq!(parse_bool_value("0"), Some(false));
    assert_eq!(parse_bool_value("off"), Some(false));
    assert_eq!(parse_bool_value("maybe"), None);
}

#[test]
fn defaults_count_where_nothing_is_set() {
    let c = Config::from_env("/home/a", no_file(), no_vars());
    assert_eq!(c.bridge_port, 8090);
    assert_eq!(c.alma_api, "http://localhost:23001");
    assert_eq!(c.people_dir, "/home/a/.config/alma/people");
    assert_eq!(c.db_path, "bridge-state.db");
    assert_eq!(c.alma_model, None);
    assert_eq!(c.alma_run_timeout_secs, 120);
    assert_eq!(c.alma_max_retries, 2);
    assert_eq!(c.alma_retry_delay_ms, 3000);
    assert_eq!(c.onebot_api_timeout_secs, 30);
    assert_eq!(c.access_token, None);
    assert_eq!(c.group_history_size, 30);
    assert_eq!(c.thinking_message, None);
    assert!(!c.show_thinking);
}

#[test]
fn the_environment_goes_before_the_file() {
    let mut file = no_file();
    file.bridge_port = Some(1);
    file.alma_max_retries = Some(7);
    file.onebot_access_token = Some("  file ".to_string());
    file.show_thinking = Some(true);
    let mut vars = no_vars();
    vars.bridge_port = Some(" 9000 ".to_string());
    vars.alma_max_retries = Some("lots".to_string());
    vars.access_token = Some("   ".to_string());
    vars.show_thinking = Some("maybe".to_string());
    let c = Config::from_env(".", file, vars);
    assert_eq!(c.bridge_port, 9000);
    assert_eq!(c.alma_max_retries, 7);
    assert_eq!(c.access_token, None);
    assert!(c.show_thinking);
}

#[test]
fn numbers_that_do_not_fit_are_not_set() {
    let mut vars = no_vars();
    vars.bridge_port = Some("65536".to_string());
    vars.alma_timeout = Some("18446744073709551615".to_string());
    let c = Config::from_env(".", no_file(), vars);
    assert_eq!(c.bridge_port, 8090);
    assert_eq!(c.alma_run_timeout_secs, u64::MAX);
}

#[test]
fn reloading_keeps_the_port_and_the_database() {
    let mut c = Config::from_env("/a", no_file(), no_vars());
    let mut file = no_file();
    file.bridge_port = Some(1);
    file.database_path = Some("other.db".to_string());
    file.alma_api = Some("http://elsewhere".to_string());
    file.group_history_size = Some(3);
    assert!(c.reload(Config::from_env("/b", file, no_vars())));
    assert_eq!(c.bridge_port, 8090);
    assert_eq!(c.db_path, "bridge-state.db");
    assert_eq!(c.alma_api, "http://elsewhere");
    assert_eq!(c.group_history_size, 3);
    assert_eq!(c.people_dir, "/b/.config/alma/people");
    let mut again = no_file();
    again.alma_api = Some("http://elsewhere".to_string());
    assert!(!c.reload(Config::from_env("/b", again, no_vars())));
}

#[test]
fn the_file_is_looked_for_in_three_places() {
    assert_eq!(
        config_file_candidates("/home/a"),
        vec!["config.toml", "bridge.toml", "/home/a/.config/alma/bridge/config.toml"]
    );
}
