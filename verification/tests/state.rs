use alma_onebot_bridge::state::connection::{get_default_model, OneBotConnections};
use alma_onebot_bridge::state::directory::{record_group_member, GroupDirectory, GroupTitles};
use alma_onebot_bridge::state::history::{GroupHistory, GroupMessage};
use alma_onebot_bridge::state::replies::{safe_prefix, sent_reply_matches, SentReplies};
use alma_onebot_bridge::state::sessions::{
    group_session_key, parse_target, private_session_key, SessionCache, SessionSource,
};

#[test]
fn safe_prefix_keeps_utf8_boundaries() {
    let prefix = safe_prefix("你好世界你好世界", 7);
    assert!(!prefix.contains('\u{fffd}'));
    assert!(prefix.len() <= 7);
}

#[test]
fn sent_reply_matches_short_exact_cjk_reply() {
    assert!(sent_reply_matches("萌依收到电报", "萌依收到电报"));
}

#[test]
fn sent_reply_matches_rejects_short_partial_match() {
    assert!(!sent_reply_matches("萌依收到电报", "萌依收到"));
}

#[test]
fn sent_reply_matches_long_prefix_equivalent_chunks() {
    let text = "这是一个足够长的回复，用来验证前缀匹配在长文本场景下仍然有效，而且不会被 UTF-8 截断搞坏。";
    let prefix_equivalent = "这是一个足够长的回复，用来验证前缀匹配在长文本场景下仍然有效，而且不会被 UTF-8 截断搞坏。后续补充";
    assert!(sent_reply_matches(text, prefix_equivalent));
}

#[test]
fn onebot_connection_epoch_keeps_only_latest_current() {
    let mut connections: OneBotConnections<&str> = OneBotConnections::new();

    let first = connections.register_onebot_connection();
    let second = connections.register_onebot_connection();

    assert!(!connections.is_current_onebot_connection(first));
    assert!(connections.is_current_onebot_connection(second));
}

#[test]
fn only_the_handle_of_the_newest_connection_is_used() {
    let mut connections: OneBotConnections<&str> = OneBotConnections::new();
    let first = connections.register_onebot_connection();
    connections.set_onebot_api_handle(first, "first");
    assert!(connections.has_onebot_api_handle());
    let second = connections.register_onebot_connection();
    assert!(!connections.has_onebot_api_handle());
    connections.set_onebot_api_handle(second, "second");
    connections.clear_onebot_api_handle(first);
    assert_eq!(connections.get_onebot_api_handle(), Some(&"second"));
    connections.clear_onebot_api_handle(second);
    assert_eq!(connections.get_onebot_api_handle(), None);
}

#[test]
fn the_configured_model_goes_first() {
    let a = Some("a".to_string());
    let b = Some("b".to_string());
    assert_eq!(get_default_model(a.clone(), b.clone()), a);
    assert_eq!(get_default_model(None, b.clone()), b);
}

#[test]
fn sent_replies_are_recognized_while_they_are_fresh() {
    let mut sent = SentReplies::new();
    sent.register_sent_reply("t", "hello", 1_000);
    assert!(sent.was_sent_recently("t", "hello", 1_001));
    assert!(!sent.was_sent_recently("t", "other", 1_001));
    assert!(!sent.was_sent_recently("u", "hello", 1_001));
    assert!(!sent.was_sent_recently("t", "hello", u64::MAX));
}

#[test]
fn histories_hold_the_last_messages_of_each_group() {
    let mut history = GroupHistory::new();
    for i in 0..4_i64 {
        history.record_group_message(
            "group:1",
            GroupMessage {
                display_name: "A".to_string(),
                text: format!("m{i}"),
                timestamp: 0,
                message_id: Some(i),
                is_bot: false,
            },
            2,
        );
    }
    let texts: Vec<String> =
        history.get_group_history("group:1").into_iter().map(|m| m.text).collect();
    assert_eq!(texts, vec!["m2", "m3"]);
    assert!(history.get_group_history("group:2").is_empty());
}

#[test]
fn no_history_is_kept_without_room() {
    let mut history = GroupHistory::new();
    history.record_group_message(
        "group:1",
        GroupMessage {
            display_name: "A".to_string(),
            text: "x".to_string(),
            timestamp: 0,
            message_id: None,
            is_bot: false,
        },
        0,
    );
    assert!(history.get_group_history("group:1").is_empty());
}

#[test]
fn session_keys_name_their_chats() {
    for (key, kind, id) in [
        (group_session_key(-5), "group", -5),
        (private_session_key(42), "private", 42),
    ] {
        let target = match parse_target(&key) {
            Ok(Some(t)) => t,
            _ => panic!("the key names a chat"),
        };
        assert_eq!(target.target_type, kind);
        assert_eq!(target.target_id, id);
    }
    assert!(matches!(parse_target("nothing"), Ok(None)));
    match parse_target("group:x") {
        Err(e) => assert_eq!(e, "Invalid session target id 'x': invalid digit found in string"),
        Ok(_) => panic!("x is no number"),
    }
}

#[test]
fn sessions_are_remembered_by_thread() {
    let mut cache = SessionCache::new();
    cache.cache_thread_mapping("t", "group:1");
    assert!(matches!(cache.session_of("t"), SessionSource::Known(key) if key == "group:1"));
    assert!(matches!(cache.session_of("u"), SessionSource::Unknown));
}

#[test]
fn directory_rows_are_gathered_by_group() {
    let mut directory = GroupDirectory::new();
    directory.add_group_row("2", "Two", "20").unwrap();
    directory.add_group_row("1", "", "10").unwrap();
    directory.add_member_row("1", "7", "Bo", "11").unwrap();
    assert!(directory.add_group_row("x", "", "0").is_err());
    assert!(directory.add_member_row("1", "x", "", "0").is_err());
    let mut titles = GroupTitles::new();
    titles.set_group_title(1, "One");
    directory.set_titles(&titles);
    let groups = directory.into_snapshot();
    assert_eq!(groups.len(), 2);
    assert_eq!(groups[0].group_id, 1);
    assert_eq!(groups[0].title.as_deref(), Some("One"));
    assert_eq!(groups[0].members.len(), 1);
    assert_eq!(groups[1].title.as_deref(), Some("Two"));
    assert_eq!(groups[1].last_active, 20);
}

#[test]
fn members_without_a_name_are_named_by_their_id() {
    assert_eq!(record_group_member(7, "  "), "QQ user 7");
    assert_eq!(record_group_member(7, " Bo "), "Bo");
}

#[test]
fn titles_are_noted_when_a_group_is_active() {
    let mut titles = GroupTitles::new();
    assert_eq!(titles.touch_group(1, Some(" One ")), "One");
    assert_eq!(titles.touch_group(1, Some("  ")), "");
    assert_eq!(titles.touch_group(2, None), "");
    assert_eq!(titles.get_group_title(1), Some("One"));
    assert_eq!(titles.get_group_title(2), None);
}

#[test]
fn replies_are_compared_by_their_first_characters() {
    let start = "字".repeat(40);
    let one = format!("{start}甲{}", "末".repeat(100));
    let other = format!("{start}乙{}", "末".repeat(100));
    assert!(!sent_reply_matches(&one, &other));
    let mut sent = SentReplies::new();
    sent.register_sent_reply("t", &one, 0);
    assert!(!sent.was_sent_recently("t", &other, 1));
    let long = "字".repeat(100);
    assert!(sent_reply_matches(&format!("{long}甲"), &format!("{long}乙")));
    assert!(sent_reply_matches(&"a".repeat(30), &"a".repeat(31)));
    assert!(!sent_reply_matches(&"a".repeat(29), &"a".repeat(31)));
}
