use alma_onebot_bridge::clock::Clock;
use alma_onebot_bridge::pipeline::context::{
    build_ephemeral_context, build_recent_chat_history_context,
    build_telegram_like_channel_system_context, build_telegram_like_message_text,
    cleaned_command_for_group, observed_message_text, thread_title, EphemeralContextInput,
};
use alma_onebot_bridge::pipeline::split::{
    floor_char_boundary, retry_delay_ms, single_line_preview, split_paragraphs, split_text,
    truncate_with_ellipsis,
};
use alma_onebot_bridge::state::history::GroupMessage;

fn clock() -> Clock {
    match Clock::new(1_718_000_000, 28_800) {
        Some(c) => c,
        None => panic!("the clock cannot show the present"),
    }
}

#[test]
fn single_line_preview_compacts_reply_context() {
    assert_eq!(
        single_line_preview("看看这个\n[Image]\n", 200),
        "看看这个 [Image]"
    );
}

#[test]
fn single_line_preview_truncates_on_char_boundary() {
    let preview = single_line_preview("你好世界你好世界你好世界", 7);
    assert!(preview.ends_with("..."));
    assert!(!preview.contains('\u{fffd}'));
}

#[test]
fn truncate_with_ellipsis_keeps_cjk_char_boundaries() {
    let preview = truncate_with_ellipsis("你好世界你好世界你好世界", 100);
    assert_eq!(preview, "你好世界你好世界你好世界");

    let preview = truncate_with_ellipsis("你好世界你好世界你好世界", 7);
    assert_eq!(preview, "你好...");
}

#[test]
fn retry_delay_saturates_instead_of_overflowing() {
    assert_eq!(retry_delay_ms(3_000, 1), 3_000);
    assert_eq!(retry_delay_ms(3_000, 2), 6_000);
    assert_eq!(retry_delay_ms(u64::MAX, 64), 60_000);
}

#[test]
fn group_reply_to_bot_uses_from_header_like_telegram() {
    let text = build_telegram_like_message_text(
        true,
        true,
        "群名片",
        Some("alice"),
        42,
        false,
        99,
        "你好",
        None,
        Some("[Replying to Alma's message: \"前文\"]"),
    );

    assert_eq!(
        text,
        "[From: 群名片 (@alice) [id:42] [msg:99]] [Replying to Alma's message: \"前文\"] 你好"
    );
}

#[test]
fn normal_group_message_uses_from_header_like_telegram() {
    let text = build_telegram_like_message_text(
        true,
        false,
        "Alice",
        None,
        42,
        false,
        100,
        "你好",
        Some("[Forwarded message]"),
        None,
    );

    assert_eq!(
        text,
        "[From: Alice [id:42] [msg:100]] [Forwarded message] 你好"
    );
}

#[test]
fn private_message_uses_msg_prefix_like_telegram() {
    let text = build_telegram_like_message_text(
        false, false, "Alice", None, 42, false, 100, "你好", None, None,
    );

    assert_eq!(text, "[msg:100] 你好");
}

#[test]
fn recent_chat_history_marks_alma_and_message_ids() {
    let history = vec![
        GroupMessage {
            display_name: "Alice".to_string(),
            text: "你好".to_string(),
            timestamp: 1_718_000_000,
            message_id: Some(100),
            is_bot: false,
        },
        GroupMessage {
            display_name: "Alma".to_string(),
            text: "在".to_string(),
            timestamp: 1_718_000_060,
            message_id: Some(101),
            is_bot: true,
        },
    ];

    let ctx = build_recent_chat_history_context(&history, &clock());

    assert!(ctx.starts_with("RECENT CHAT HISTORY:"));
    assert!(ctx.contains("[msg:100] [Alice]: 你好"));
    assert!(ctx.contains("[msg:101] [Alma (YOU)]: 在"));
    assert!(ctx.ends_with("---END HISTORY---"));
}

#[test]
fn split_text_keeps_cjk_char_boundaries() {
    let chunks = split_text("你好世界", 5);

    assert_eq!(chunks, vec!["你", "好", "世", "界"]);
}

#[test]
fn split_text_tiny_limit_still_makes_utf8_progress() {
    let chunks = split_text("你好", 1);

    assert_eq!(chunks, vec!["你", "好"]);
}

#[test]
fn recognized_group_commands_match_telegram_trigger_set() {
    assert!(cleaned_command_for_group("/start"));
    assert!(cleaned_command_for_group("/help@alma_bot hi"));
    assert!(cleaned_command_for_group("/settings"));
    assert!(!cleaned_command_for_group("/unknown"));
    assert!(!cleaned_command_for_group("hello"));
}

#[test]
fn group_system_context_matches_telegram_style_shape() {
    let ctx = build_telegram_like_channel_system_context(
        true,
        "alice",
        Some("测试群"),
        Some(123),
        8090,
        "linux",
    );

    assert!(ctx.starts_with("[System: The user is chatting with you via Telegram"));
    assert!(ctx.contains("username: @alice"));
    assert!(ctx.contains("in a GROUP CHAT named \"测试群\" (chatId: 123)"));
    assert!(ctx.contains("alma group history 123 100"));
    assert!(ctx.contains("http://127.0.0.1:8090/qq/group/123/send"));
    assert!(ctx.contains("do not use `alma group send`"));
}

#[test]
fn group_system_context_does_not_invent_zero_chat_id() {
    let ctx = build_telegram_like_channel_system_context(
        true,
        "alice",
        Some("测试群"),
        None,
        8090,
        "linux",
    );

    assert!(!ctx.contains("chatId: 0"));
    assert!(ctx.contains("did not include a valid QQ group id"));
}

#[test]
fn system_context_names_the_platform_and_braces_are_plain() {
    let ctx =
        build_telegram_like_channel_system_context(false, "  ", None, None, 8090, "linux");
    assert!(ctx.contains("(username: @unknown). But remember — you live on the user's linux computer"));
    assert!(ctx.contains("-d '{\"message\":\"...\"}'`."));
}

#[test]
fn history_shows_the_local_time_and_other_bots() {
    let history = vec![GroupMessage {
        display_name: "Helper".to_string(),
        text: "x".repeat(301),
        timestamp: 1_718_000_000,
        message_id: None,
        is_bot: true,
    }];
    let ctx = build_recent_chat_history_context(&history, &clock());
    let line = format!("\n[14:13] [Helper (BOT)]: {}...\n", "x".repeat(300));
    assert!(ctx.contains(&line), "{ctx}");
}

#[test]
fn chunks_end_at_line_feeds_and_lose_nothing_else() {
    let chunks = split_text("aaa\nbbb\nccc", 8);
    assert_eq!(chunks, vec!["aaa\nbbb", "ccc"]);
    assert_eq!(split_text("short", 4500), vec!["short"]);
    assert_eq!(split_text("", 4500), vec![""]);
}

#[test]
fn paragraphs_are_trimmed_and_blank_ones_dropped() {
    assert_eq!(split_paragraphs("one\n\n  two \n\n\n\nthree"), vec!["one", "two", "three"]);
    assert!(split_paragraphs(" \n\n ").is_empty());
}

#[test]
fn boundaries_are_those_of_characters() {
    assert_eq!(floor_char_boundary("你好", 5), 3);
    assert_eq!(floor_char_boundary("ab", 5), 2);
    assert_eq!(floor_char_boundary("你", 2), 0);
}

#[test]
fn retry_delay_doubles_and_stops_growing() {
    assert_eq!(retry_delay_ms(10, 0), 10);
    assert_eq!(retry_delay_ms(10, 4), 80);
    assert_eq!(retry_delay_ms(1, 21), 60_000);
    assert_eq!(retry_delay_ms(0, 99), 0);
}

#[test]
fn observed_text_marks_media() {
    let media = vec!["[Image]".to_string(), " ".to_string(), "[Video]".to_string()];
    assert_eq!(observed_message_text(" hi ", &media), "hi [Image] [Video]");
    assert_eq!(observed_message_text("", &media), "[Image] [Video]");
    assert_eq!(observed_message_text("  ", &Vec::new()), "");
}

#[test]
fn commands_are_words_of_their_own() {
    assert!(cleaned_command_for_group("  //NEW  thing"));
    assert!(!cleaned_command_for_group("/newer"));
    assert!(!cleaned_command_for_group("say /start"));
    assert!(!cleaned_command_for_group("/"));
}

#[test]
fn message_text_marks_bots() {
    let text = build_telegram_like_message_text(
        true, false, "Bot", None, 7, true, 8, "  hi ", Some(""), None,
    );
    assert_eq!(text, "[From: Bot [id:7] [msg:8] [BOT]] hi");
}

#[test]
fn ephemeral_context_gathers_what_is_known() {
    let history = vec![GroupMessage {
        display_name: "Alice".to_string(),
        text: "hey".to_string(),
        timestamp: 1_718_000_000,
        message_id: Some(5),
        is_bot: false,
    }];
    let group = build_ephemeral_context(
        EphemeralContextInput {
            is_group: true,
            sender_nickname: "alice",
            group_title: None,
            group_id: Some(9),
            bridge_port: 8090,
            platform: "linux",
        },
        Some("[block]"),
        2,
        &history,
        &clock(),
    );
    assert!(group.contains("named \"Unknown\" (chatId: 9)"));
    assert!(group.contains(".][block]\n\nPEOPLE PROFILES — You know 2 people. "), "{group}");
    assert!(group.ends_with("[14:13] [msg:5] [Alice]: hey\n---END HISTORY---"));
    let private = build_ephemeral_context(
        EphemeralContextInput {
            is_group: false,
            sender_nickname: "alice",
            group_title: None,
            group_id: None,
            bridge_port: 8090,
            platform: "linux",
        },
        None,
        0,
        &history,
        &clock(),
    );
    assert!(private.ends_with("Do not use Telegram-specific send commands for QQ.]"));
}

#[test]
fn threads_are_named_after_their_chats() {
    assert_eq!(thread_title(true, 123, "alice"), "QQ群 123");
    assert_eq!(thread_title(false, 123, "alice"), "QQ私聊 alice");
}
