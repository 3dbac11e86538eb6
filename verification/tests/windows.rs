use alma_onebot_bridge::windows::app_state::{
    snapshot_port, AppSnapshot, BridgeControl, BridgeStatus,
};
use alma_onebot_bridge::windows::config_model::ConfigModel;
use alma_onebot_bridge::windows::i18n::{
    app_description, detect_language, empty_disabled_placeholder, empty_model_placeholder,
    is_simplified_chinese_locale, shell_execute_error, tr, window_open_failed, Language, Text,
};
use alma_onebot_bridge::windows::resource::{version_tuple, windows_resource_script};
use alma_onebot_bridge::windows::shell::{open_path, open_url, wide_null, write_tip};
use alma_onebot_bridge::windows::ui::{
    handle_command, save_settings, settings_saved, settings_severity, show_menu, status_severity,
    GroupToggles, MenuEntry, Severity, TrayCommand,
};

fn snapshot(status: BridgeStatus, healthy: bool) -> AppSnapshot {
    AppSnapshot {
        status,
        port: 8090,
        healthy,
        config_dir: String::new(),
        config_file: String::new(),
        log_file: String::new(),
    }
}

#[test]
fn texts_are_known_in_both_languages() {
    assert_eq!(tr(Text::Quit, Language::En), "Quit");
    assert_eq!(tr(Text::Quit, Language::ZhHans), "退出");
    assert_eq!(tr(Text::Version, Language::En), "Version");
    assert_eq!(app_description(Language::En), "Windows native tray app powered by Rust and WinUI 3.");
    assert_eq!(empty_model_placeholder(Language::ZhHans), "留空则使用 Alma 默认模型");
    assert_eq!(empty_disabled_placeholder(Language::En), "Leave empty to disable");
    assert_eq!(
        window_open_failed("About", "/log", Language::En),
        "Could not open the About window.\n\nCheck the bridge log:\n/log"
    );
}

#[test]
fn the_language_follows_the_locale() {
    assert!(is_simplified_chinese_locale("zh_CN.UTF-8"));
    assert!(is_simplified_chinese_locale("ZH-Hans-SG"));
    assert!(is_simplified_chinese_locale("zh"));
    assert!(!is_simplified_chinese_locale("zh-TW"));
    let none: Vec<String> = Vec::new();
    assert!(detect_language(Some("zh-CN"), &none) == Language::ZhHans);
    assert!(detect_language(Some("en-US"), &none) == Language::En);
    assert!(detect_language(None, &vec!["C".to_string(), "zh_SG".to_string()]) == Language::ZhHans);
}

#[test]
fn the_status_is_told_with_its_port() {
    let line = |s, h| snapshot(s, h).status_line(Language::En);
    assert_eq!(line(BridgeStatus::Stopped, false), "Stopped");
    assert_eq!(line(BridgeStatus::Starting, false), "Starting on port 8090");
    assert_eq!(line(BridgeStatus::Running, true), "Running on port 8090 - port check passed");
    assert_eq!(line(BridgeStatus::Running, false), "Running on port 8090 - port check failed");
    assert_eq!(line(BridgeStatus::Stopping, true), "Stopping");
    assert_eq!(line(BridgeStatus::Failed("x".to_string()), true), "Failed: x");
    assert_eq!(BridgeStatus::Running.text(1, Language::ZhHans), "运行中：端口 1");
    assert!(status_severity(&snapshot(BridgeStatus::Running, true)) == Severity::Success);
    assert!(status_severity(&snapshot(BridgeStatus::Running, false)) == Severity::Warning);
    assert!(status_severity(&snapshot(BridgeStatus::Starting, false)) == Severity::Informational);
    assert!(
        status_severity(&snapshot(BridgeStatus::Failed(String::new()), false)) == Severity::Error
    );
}

#[test]
fn the_bridge_is_started_once() {
    let mut c = BridgeControl::new();
    assert!(c.start_bridge());
    assert!(!c.start_bridge());
    assert!(!c.is_healthy(true));
    c.on_listening();
    assert!(c.is_healthy(true));
    assert!(!c.is_healthy(false));
    assert!(c.stop_bridge());
    assert!(matches!(c.status(), BridgeStatus::Stopping));
    assert!(!c.stop_bridge());
    c.on_ended(Err("x".to_string()));
    assert!(matches!(c.status(), BridgeStatus::Failed(e) if e == "x"));
    assert!(c.start_bridge());
    c.on_ended(Ok(()));
    assert!(matches!(c.status(), BridgeStatus::Stopped));
}

#[test]
fn the_port_of_the_settings_is_shown() {
    assert_eq!(snapshot_port("1234"), 1234);
    assert_eq!(snapshot_port("x"), 8090);
    assert_eq!(snapshot_port("70000"), 8090);
}

#[test]
fn settings_are_kept_in_their_file() {
    let mut m = ConfigModel::with_home(Some("/h"));
    assert!(m.is_valid());
    assert_eq!(m.people_dir, "/h/.config/alma/people");
    m.alma_model = "  gpt ".to_string();
    m.bridge_port = "+9000".to_string();
    m.show_tool_calls = true;
    let loaded = ConfigModel::from_file(m.to_file(), Some("/h"));
    assert_eq!(loaded.alma_model, "gpt");
    assert_eq!(loaded.bridge_port, "9000");
    assert_eq!(loaded.db_path, "bridge-state.db");
    assert!(loaded.show_tool_calls && !loaded.show_thinking);
    let file = loaded.to_file();
    assert_eq!(file.port, Some(9000));
    assert_eq!(file.model.as_deref(), Some("gpt"));
    assert_eq!(file.access_token, None);
}

#[test]
fn settings_out_of_their_range_are_not_saved() {
    let change = |f: fn(&mut ConfigModel)| {
        let mut m = ConfigModel::with_home(None);
        f(&mut m);
        m.is_valid()
    };
    assert!(!change(|m| m.bridge_port = "0".to_string()));
    assert!(!change(|m| m.alma_api = "ftp://x".to_string()));
    assert!(change(|m| m.alma_api = "https://x".to_string()));
    assert!(!change(|m| m.alma_timeout = "3601".to_string()));
    assert!(!change(|m| m.alma_max_retries = "11".to_string()));
    assert!(!change(|m| m.alma_retry_delay_ms = "600001".to_string()));
    assert!(!change(|m| m.onebot_api_timeout = "0".to_string()));
    assert!(!change(|m| m.group_history_size = "-1".to_string()));
    let mut m = ConfigModel::with_home(None);
    assert!(settings_severity(&m) == Severity::Success);
    assert!(save_settings(&m, Language::En).is_ok());
    m.bridge_port = String::new();
    assert!(settings_severity(&m) == Severity::Error);
    match save_settings(&m, Language::En) {
        Ok(_) => panic!("the settings are not valid"),
        Err(e) => assert_eq!(e, "Some settings are invalid."),
    }
    assert_eq!(
        settings_saved(Ok(()), Language::En),
        ("Saved. Bridge restart requested.".to_string(), true)
    );
    assert_eq!(
        settings_saved(Err("x".to_string()), Language::En),
        ("Save failed: x".to_string(), false)
    );
}

#[test]
fn groups_that_are_not_listened_to_are_not_answered() {
    let t = GroupToggles { listen: true, respond: true };
    let off = t.set_listen(false);
    assert!(!off.listen && !off.respond && !off.shows_respond());
    assert!(!off.set_respond(true).respond);
    assert!(off.set_listen(true).set_respond(true).shows_respond());
}

#[test]
fn texts_are_handed_over_in_utf16() {
    assert_eq!(wide_null("aé你"), vec![0x61, 0xe9, 0x4f60, 0]);
    let face = "😀x";
    let want: Vec<u16> = face.encode_utf16().chain(std::iter::once(0)).collect();
    assert_eq!(wide_null(face), want);
    let mut buffer = vec![9; 4];
    write_tip(&mut buffer, "ab");
    assert_eq!(buffer, vec![0x61, 0x62, 0, 9]);
    write_tip(&mut buffer, "abcdef");
    assert_eq!(buffer, vec![0x61, 0x62, 0x63, 0]);
}

#[test]
fn the_shell_says_why_nothing_opened() {
    assert_eq!(open_path("/x", 33, Language::En), None);
    assert_eq!(
        open_url("u", 2, Language::En).as_deref(),
        Some("Could not open:\nu\n\nThe target file was not found.")
    );
    assert_eq!(shell_execute_error(-1, Language::En), "ShellExecuteW returned error code -1.");
    assert_eq!(shell_execute_error(5, Language::ZhHans), "访问被拒绝。");
}

#[test]
fn the_menu_names_its_commands() {
    let menu = show_menu();
    assert_eq!(menu.len(), 11);
    for entry in menu {
        if let MenuEntry::Command(c) = entry {
            assert!(handle_command(c.id()) == Some(c));
        }
    }
    assert!(handle_command(1) == None);
    assert!(TrayCommand::Quit.text() == Text::Quit);
}

#[test]
fn versions_become_four_numbers() {
    assert_eq!(version_tuple("1.2.3"), "1,2,3,0");
    assert_eq!(version_tuple("1.2.3-beta.4"), "1,2,3,4");
    assert_eq!(version_tuple("x.70000"), "0,0,0,0");
    let script = windows_resource_script("C:\\a.ico", "1.2.3");
    assert!(script.starts_with("#pragma code_page(65001)\n\n1 ICON \"C:\\\\a.ico\"\n"));
    assert!(script.contains("FILEVERSION 1,2,3,0\n"));
    assert!(script.contains("VALUE \"FileVersion\", \"1.2.3\\0\"\n"));
}
