use alma_onebot_bridge::json::{Json, JsonNumber};
use alma_onebot_bridge::onebot::api::{
    finish_call, get_forward_msg, get_group_name, get_msg_request, parse_quoted_message,
    send_reply_message, send_text_message, try_resolve_api_response, validate_api_response,
    CallOutcome, PendingCalls,
};
use alma_onebot_bridge::onebot::event::{
    clean_at_from_text, contains_at_bot, convert_faces_to_text, extract_files, extract_forward_id,
    extract_images, extract_media_summary, extract_reply_id, extract_text, has_media_segments,
    text_to_segments, ApiResponse, MessageSegment,
};

fn convert(v: &serde_json::Value) -> Json {
    match v {
        serde_json::Value::Null => Json::Null,
        serde_json::Value::Bool(b) => Json::Bool(*b),
        serde_json::Value::Number(n) => {
            Json::Number(JsonNumber { text: n.to_string(), int: n.as_i64() })
        }
        serde_json::Value::String(s) => Json::Str(s.clone()),
        serde_json::Value::Array(items) => Json::Array(items.iter().map(convert).collect()),
        serde_json::Value::Object(entries) => {
            Json::Object(entries.iter().map(|(k, v)| (k.clone(), convert(v))).collect())
        }
    }
}

fn json(text: &str) -> Json {
    let value: serde_json::Value = serde_json::from_str(text).unwrap();
    convert(&value)
}

fn segment(kind: &str, data: &str) -> MessageSegment {
    MessageSegment { segment_type: kind.to_string(), data: json(data) }
}

#[test]
fn quoted_image_message_becomes_media_summary_not_cq_code() {
    let quoted = parse_quoted_message(&json(
        r#"{
            "sender": { "nickname": "Alice" },
            "message": [
                {
                    "type": "image",
                    "data": {
                        "file": "abc.jpg",
                        "url": "https://example.com/abc.jpg"
                    }
                }
            ],
            "raw_message": "[CQ:image,file=abc.jpg,url=https://example.com/abc.jpg]"
        }"#,
    ));

    assert_eq!(quoted.sender_name, "Alice");
    assert_eq!(quoted.sender_id, None);
    assert_eq!(quoted.text, "[photo attached]");
    assert_eq!(quoted.image_urls, vec!["https://example.com/abc.jpg"]);
    assert!(!quoted.text.contains("[CQ:"));
}

#[test]
fn quoted_text_and_media_are_both_preserved() {
    let quoted = parse_quoted_message(&json(
        r#"{
            "sender": { "nickname": "Bob" },
            "message": [
                { "type": "text", "data": { "text": "看看这个" } },
                { "type": "image", "data": { "url": "https://example.com/img.png" } }
            ]
        }"#,
    ));

    assert_eq!(quoted.sender_id, None);
    assert_eq!(quoted.text, "看看这个\n[photo attached]");
    assert_eq!(quoted.image_urls, vec!["https://example.com/img.png"]);
}

#[test]
fn quoted_sender_prefers_group_card_and_keeps_sender_id() {
    let quoted = parse_quoted_message(&json(
        r#"{
            "sender": {
                "user_id": 123456,
                "nickname": "Alice",
                "card": "一群名片"
            },
            "message": [
                { "type": "text", "data": { "text": "收到" } }
            ]
        }"#,
    ));

    assert_eq!(quoted.sender_name, "一群名片");
    assert_eq!(quoted.sender_id, Some(123456));
    assert_eq!(quoted.text, "收到");
}

#[test]
fn api_response_nonzero_retcode_is_error() {
    let err = match validate_api_response(
        "send_msg",
        ApiResponse {
            status: "failed".to_string(),
            retcode: 1400,
            data: None,
            echo: Some("echo".to_string()),
            message: Some("bad request".to_string()),
            wording: None,
        },
    ) {
        Ok(_) => panic!("the answer reports an error"),
        Err(e) => e,
    };

    assert!(err.contains("send_msg"));
    assert!(err.contains("retcode=1400"));
    assert!(err.contains("bad request"));
}

#[test]
fn contains_at_bot_accepts_numeric_qq_field() {
    let segments = vec![segment("at", r#"{"qq": 123456}"#)];

    assert!(contains_at_bot(&segments, 123456));
}

#[test]
fn extract_reply_id_accepts_numeric_id_field() {
    let segments = vec![segment("reply", r#"{"id": 67890}"#)];

    assert_eq!(extract_reply_id(&segments).as_deref(), Some("67890"));
}

#[test]
fn extract_forward_id_accepts_numeric_id_field() {
    let segments = vec![segment("forward", r#"{"id": 13579}"#)];

    assert_eq!(extract_forward_id(&segments).as_deref(), Some("13579"));
}

#[test]
fn convert_faces_to_text_accepts_numeric_face_id() {
    let segments = vec![segment("face", r#"{"id": 178}"#)];

    assert_eq!(convert_faces_to_text(&segments), "[emoji:斜眼笑]");
}

#[test]
fn calls_end_as_their_outcome_says() {
    let closed = match finish_call("get_msg", CallOutcome::Closed, 5) {
        Ok(_) => panic!("nothing was answered"),
        Err(e) => e,
    };
    assert_eq!(closed, "response channel closed");
    let late = match finish_call("get_msg", CallOutcome::TimedOut, 5) {
        Ok(_) => panic!("nothing was answered"),
        Err(e) => e,
    };
    assert!(late.contains("5"), "{late}");
    let answer = ApiResponse {
        status: "ok".to_string(),
        retcode: 0,
        data: None,
        echo: None,
        message: None,
        wording: None,
    };
    assert!(finish_call("get_msg", CallOutcome::Answered(answer), 5).is_ok());
}

#[test]
fn each_call_has_an_echo_of_its_own() {
    let a = get_msg_request("1");
    let b = get_msg_request("1");
    assert_ne!(a.echo, b.echo);
    assert!(a.echo.starts_with("bridge-") && a.echo.ends_with("-get_msg"));
    assert_eq!(a.echo.len(), "bridge-".len() + 36 + "-get_msg".len());
}

#[test]
fn answers_find_the_calls_that_wait() {
    let mut pending: PendingCalls<u32> = PendingCalls::new();
    pending.register("one", 1);
    pending.register("two", 2);
    assert_eq!(try_resolve_api_response(&json(r#"{"echo": "two"}"#), &mut pending), Some(2));
    assert_eq!(try_resolve_api_response(&json(r#"{"echo": "two"}"#), &mut pending), None);
    assert_eq!(try_resolve_api_response(&json(r#"{}"#), &mut pending), None);
    assert_eq!(pending.take("one"), Some(1));
}

#[test]
fn replies_mention_the_sender_in_groups_only() {
    let group = send_reply_message("group", 5, "hi", "77", Some("9"));
    let segments = match group.params.get("message") {
        Some(Json::Array(items)) => items.len(),
        _ => 0,
    };
    assert_eq!(segments, 3);
    let private = send_reply_message("private", 5, "hi", "77", Some("9"));
    let segments = match private.params.get("message") {
        Some(Json::Array(items)) => items.len(),
        _ => 0,
    };
    assert_eq!(segments, 2);
    let plain = send_text_message("group", 5, "hi");
    assert_eq!(plain.action, "send_msg");
    assert_eq!(plain.params.get("group_id").and_then(|id| id.as_i64()), Some(5));
}

#[test]
fn faces_go_both_ways() {
    let segments = text_to_segments("a[emoji:斜眼笑]b[emoji:nothing]");
    assert_eq!(segments.len(), 4);
    assert_eq!(segments[1].segment_type, "face");
    assert_eq!(convert_faces_to_text(&segments), "[emoji:斜眼笑]");
    assert_eq!(extract_text(&segments), "ab[emoji:nothing]");
}

#[test]
fn segments_tell_of_their_media() {
    let segments = vec![
        segment("image", r#"{"url": "u1"}"#),
        segment("image", r#"{"type": "flash", "url": "u2"}"#),
        segment("record", "{}"),
        segment("file", r#"{"url": "u3", "file": "a.txt"}"#),
        segment("text", r#"{"text": " hi "}"#),
    ];
    assert_eq!(extract_images(&segments), vec!["u1", "u2"]);
    assert_eq!(extract_media_summary(&segments)[..2], ["[Image]", "[Flash image]"]);
    assert_eq!(extract_files(&segments), vec![("a.txt".to_string(), "u3".to_string())]);
    assert!(has_media_segments(&segments));
    assert!(!has_media_segments(&segments[4..]));
    assert_eq!(extract_text(&segments), "hi");
    assert_eq!(extract_reply_id(&segments), None);
    assert_eq!(extract_forward_id(&segments), None);
}

#[test]
fn everyone_is_also_the_bot() {
    assert!(contains_at_bot(&[segment("at", r#"{"qq": "all"}"#)], 1));
    assert!(!contains_at_bot(&[segment("at", r#"{"qq": "2"}"#)], 1));
    assert_eq!(clean_at_from_text("[CQ:at,qq=1] hello", 1), "hello");
    assert_eq!(clean_at_from_text("[CQ:at,qq=2] hello", 1), "[CQ:at,qq=2] hello");
    assert_eq!(clean_at_from_text("[CQ:at,qq=10001,name=Bot] hello", 10001), "hello");
    assert_eq!(clean_at_from_text("a[CQ:at,qq=1,name=x]b[CQ:at,qq=1,name=]c]", 1), "abc]");
    assert_eq!(clean_at_from_text("[CQ:at,qq=1,name=x", 1), "[CQ:at,qq=1,name=x");
    assert_eq!(clean_at_from_text("[CQ:at,qq=2,name=x] a", 1), "[CQ:at,qq=2,name=x] a");
}

#[test]
fn answers_without_what_was_asked_for_are_errors() {
    assert!(get_forward_msg(None).is_err());
    assert!(get_forward_msg(Some(&json("{}"))).is_err());
    assert!(get_group_name(None, 1).is_err());
    assert!(get_group_name(Some(&json("{}")), 1).is_err());
    let groups = json(r#"[{"group_id": 1, "group_name": "One"}, {"group_id": 2}]"#);
    assert_eq!(get_group_name(Some(&groups), 1).unwrap().as_deref(), Some("One"));
    assert_eq!(get_group_name(Some(&groups), 3).unwrap(), None);
}
