use alma_onebot_bridge::bridge::{
    apply_debugger_defaults, database_error, first_available_port, listen_error, pid_file_path,
    rotate_log_file_if_needed, rotated_log_path, BridgeRunOptions, LogStep,
};
use alma_onebot_bridge::config::{Config, EnvConfig, FileConfig};

fn run(files: &mut Vec<Option<&'static str>>, steps: &[LogStep]) {
    for step in steps {
        match *step {
            LogStep::Remove(i) => files[i as usize] = None,
            LogStep::Rename(i, j) => {
                let content = files[i as usize].take();
                files[j as usize] = content;
            }
        }
    }
}

#[test]
fn rotates_log_when_it_exceeds_limit() {
    let mut files = vec![Some("current"), Some("previous"), None, None];
    let there: Vec<bool> = files.iter().map(|f| f.is_some()).collect();

    let steps = rotate_log_file_if_needed(Some("current".len() as u64), 3, 3, &there).unwrap();
    run(&mut files, &steps);

    assert_eq!(files[0], None);
    assert_eq!(files[1], Some("current"));
    assert_eq!(files[2], Some("previous"));
    assert_eq!(rotated_log_path("bridge.log", 1), "bridge.log.1");
}

#[test]
fn keeps_small_log_in_place() {
    let there = vec![true, false, false, false];

    let rotated = rotate_log_file_if_needed(Some("small".len() as u64), 10, 3, &there);

    assert!(rotated.is_none());
    assert!(rotate_log_file_if_needed(None, 10, 3, &there).is_none());
}

#[test]
fn the_oldest_log_is_dropped() {
    let mut files = vec![Some("0"), Some("1"), Some("2"), Some("3")];
    let steps = rotate_log_file_if_needed(Some(11), 10, 3, &vec![true; 4]).unwrap();
    run(&mut files, &steps);
    assert_eq!(files, vec![None, Some("0"), Some("1"), Some("2")]);
    let steps = rotate_log_file_if_needed(Some(11), 10, 0, &vec![true]).unwrap();
    assert!(steps == vec![LogStep::Remove(0)]);
}

#[test]
fn ports_are_tried_in_order() {
    assert_eq!(first_available_port(18090, 20, 0), Some(18090));
    assert_eq!(first_available_port(18090, 20, 19), Some(18109));
    assert_eq!(first_available_port(18090, 20, 20), None);
    assert_eq!(first_available_port(65535, 20, 1), None);
}

#[test]
fn a_debugged_bridge_is_kept_apart() {
    let file = FileConfig {
        bridge_port: None,
        alma_api: None,
        alma_model: None,
        alma_timeout: None,
        alma_max_retries: None,
        alma_retry_delay_ms: None,
        database_path: None,
        people_dir: None,
        onebot_api_timeout: None,
        onebot_access_token: None,
        group_history_size: None,
        thinking_message: None,
        show_thinking: None,
    };
    let vars = EnvConfig {
        bridge_port: None,
        alma_api: None,
        people_dir: None,
        db_path: None,
        alma_model: None,
        alma_timeout: None,
        alma_max_retries: None,
        alma_retry_delay: None,
        onebot_api_timeout: None,
        access_token: None,
        group_history_size: None,
        thinking_message: None,
        show_thinking: None,
    };
    let mut config = Config::from_env("/h", file, vars);
    apply_debugger_defaults(&mut config, "/tmp", 12, Some(18090));
    assert_eq!(config.db_path, "/tmp/alma-onebot-bridge-debugger-12.db");
    assert_eq!(config.bridge_port, 18090);
    apply_debugger_defaults(&mut config, "/tmp/", 13, None);
    assert_eq!(config.db_path, "/tmp/alma-onebot-bridge-debugger-13.db");
    assert_eq!(config.bridge_port, 18090);
}

#[test]
fn the_bridge_says_what_went_wrong() {
    assert_eq!(
        listen_error(8090, "in use"),
        "Cannot listen on 0.0.0.0:8090: in use. Stop the existing bridge or change bridge.port in config.toml."
    );
    assert!(database_error("locked").starts_with("Failed to initialize state database: locked. "));
    assert_eq!(pid_file_path("/h"), "/h/.config/alma/bridge/bridge.pid");
    let options = BridgeRunOptions::default();
    assert!(!options.debugger_mode && options.write_pid_file);
}
