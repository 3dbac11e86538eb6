use alma_onebot_bridge::alma::{
    create_thread, fetch_default_model, fetch_thread_model, format_alma_http_error, settings_url,
    thread_exists, thread_url, threads_url,
};
use alma_onebot_bridge::auth::RemoteAddr;
use alma_onebot_bridge::handlers::http::{
    health_response, list_groups_handler, refuse_command, send_group_message_handler,
    send_private_message_handler, JsonResponse, SendAction, SendMessageRequest, SendOutcome,
    SendRun,
};
use alma_onebot_bridge::handlers::ws::{
    learn_self_id, log_friend_recall, log_group_recall, read_frame, route, Frame, FrameStep,
    Incoming,
};
use alma_onebot_bridge::json::{Json, JsonNumber};
use alma_onebot_bridge::state::directory::{GroupDirectoryEntry, GroupMember};
use alma_onebot_bridge::text::table::TextMap;

fn convert(v: &serde_json::Value) -> Json {
    match v {
        serde_json::Value::Null => Json::Null,
        serde_json::Value::Bool(b) => Json::Bool(*b),
        serde_json::Value::Number(n) => {
            Json::Number(JsonNumber { text: n.to_string(), int: n.as_i64() })
        }
        serde_json::Value::String(s) => Json::Str(s.clone()),
        serde_json::Value::Array(items) => Json::Array(items.iter().map(convert).collect()),
        serde_json::Value::Object(entries) => {
            Json::Object(entries.iter().map(|(k, v)| (k.clone(), convert(v))).collect())
        }
    }
}

fn json(text: &str) -> Json {
    let value: serde_json::Value = serde_json::from_str(text).unwrap();
    convert(&value)
}

fn request(message: &str) -> SendMessageRequest {
    SendMessageRequest {
        message: message.to_string(),
        reply_to_id: Some("5".to_string()),
        at_user_id: Some("6".to_string()),
    }
}

fn local() -> Option<RemoteAddr> {
    Some(RemoteAddr::V4(127, 0, 0, 1))
}

fn begin(kind: &str, message: &str, connected: bool) -> (SendRun, SendAction) {
    let query: TextMap<String> = TextMap::new();
    let r = if kind == "group" {
        send_group_message_handler(9, request(message), None, None, &query, local(), connected)
    } else {
        send_private_message_handler(9, request(message), None, None, &query, local(), connected)
    };
    match r {
        Ok(begun) => begun,
        Err(_) => panic!("the command is refused"),
    }
}

fn error_of(action: SendAction) -> (u16, String) {
    match action {
        SendAction::Respond(r) => (r.status, r.body.str_at("error").unwrap_or("").to_string()),
        _ => panic!("an answer is due"),
    }
}

#[test]
fn the_bridge_says_that_it_is_there() {
    let r = health_response();
    assert_eq!(r.status, 200);
    assert_eq!(r.body.str_at("status"), Some("ok"));
    assert_eq!(r.body.str_at("service"), Some("alma-onebot-bridge"));
}

#[test]
fn commands_from_elsewhere_are_refused() {
    let query: TextMap<String> = TextMap::new();
    let refusal: JsonResponse = match refuse_command(None, None, &query, None) {
        Some(r) => r,
        None => panic!("the command is obeyed"),
    };
    assert_eq!(refusal.status, 401);
    assert_eq!(refusal.body.str_at("error"), Some("unauthorized"));
    assert!(refuse_command(None, None, &query, local()).is_none());
    assert!(send_group_message_handler(1, request("x"), None, None, &query, None, true).is_err());
}

#[test]
fn groups_are_listed_with_their_members() {
    let groups = vec![GroupDirectoryEntry {
        group_id: 9,
        title: None,
        last_active: 5,
        members: vec![GroupMember {
            group_id: 9,
            user_id: 42,
            display_name: "Bo".to_string(),
            last_seen: 6,
        }],
    }];
    let r = list_groups_handler(Ok(groups), true, Some("/p"));
    assert_eq!(r.status, 200);
    assert_eq!(r.body.get("onebot_connected").and_then(|v| v.as_bool()), Some(true));
    assert_eq!(r.body.str_at("readme_path"), Some("/p"));
    let list = r.body.get("groups").and_then(|v| v.as_array()).unwrap();
    assert_eq!(list[0].get("group_id").and_then(|v| v.as_i64()), Some(9));
    assert!(matches!(list[0].get("title"), Some(Json::Null)));
    let members = list[0].get("members").and_then(|v| v.as_array()).unwrap();
    assert_eq!(members[0].str_at("display_name"), Some("Bo"));
    let r = list_groups_handler(Err("db".to_string()), true, None);
    assert_eq!((r.status, r.body.str_at("error")), (500, Some("db")));
}

#[test]
fn a_message_is_sent_recorded_and_answered() {
    let (run, action) = begin("group", "  hello  ", true);
    assert!(matches!(&action, SendAction::LookUp(key) if key == "group:9"));
    let (run, action) = run.progress(SendOutcome::Thread(Ok(Some("t".to_string()))));
    match action {
        SendAction::Send(out) => {
            assert_eq!(out.text, "hello");
            assert_eq!(out.reply_to.as_deref(), Some("5"));
            assert_eq!(out.at_user.as_deref(), Some("6"));
        }
        _ => panic!("the message is to be sent"),
    }
    let (run, action) = run.progress(SendOutcome::Sent(Ok(Some(77))));
    assert!(matches!(
        &action,
        SendAction::Record { group_id: 9, text, message_id: Some(77) } if text == "hello"
    ));
    let (run, action) = run.progress(SendOutcome::Done);
    assert!(
        matches!(&action, SendAction::Register { thread_id, text } if thread_id == "t" && text == "hello")
    );
    let (run, action) = run.progress(SendOutcome::Done);
    match action {
        SendAction::Respond(r) => {
            assert_eq!(r.status, 200);
            assert_eq!(r.body.str_at("target_type"), Some("group"));
            let ids = r.body.get("message_ids").and_then(|v| v.as_array()).unwrap();
            assert_eq!(ids.len(), 1);
            assert_eq!(ids[0].as_i64(), Some(77));
        }
        _ => panic!("an answer is due"),
    }
    assert!(matches!(run.progress(SendOutcome::Done).1, SendAction::Nothing));
}

#[test]
fn a_long_message_is_sent_in_parts() {
    let text = "x".repeat(4501);
    let (run, _) = begin("private", &text, true);
    let (run, action) = run.progress(SendOutcome::Thread(Ok(None)));
    assert!(matches!(&action, SendAction::Send(out) if out.text.len() == 4500));
    let (run, action) = run.progress(SendOutcome::Sent(Ok(None)));
    assert!(matches!(&action, SendAction::Send(out) if out.text == "x" && out.reply_to.is_none()));
    let (_, action) = run.progress(SendOutcome::Sent(Ok(Some(2))));
    assert!(matches!(&action, SendAction::Respond(r) if r.status == 200));
}

#[test]
fn a_message_that_cannot_be_sent_is_answered_with_an_error() {
    assert_eq!(
        error_of(begin("group", "  ", true).1),
        (400, "message must not be empty".to_string())
    );
    assert_eq!(
        error_of(begin("group", "x", false).1),
        (503, "no active OneBot reverse WebSocket connection".to_string())
    );
    let (run, _) = begin("group", "x", true);
    assert_eq!(
        error_of(run.progress(SendOutcome::Thread(Err("db".to_string()))).1),
        (500, "failed to resolve bridge thread mapping: db".to_string())
    );
    let (run, _) = begin("group", "x", true);
    let (run, _) = run.progress(SendOutcome::Thread(Ok(None)));
    assert_eq!(
        error_of(run.progress(SendOutcome::Sent(Err("lost".to_string()))).1),
        (502, "lost".to_string())
    );
}

#[test]
fn frames_are_read_while_the_connection_is_current() {
    assert!(matches!(read_frame(true, Frame::Text("{}".to_string())), FrameStep::Read(_)));
    assert!(matches!(read_frame(false, Frame::Text("{}".to_string())), FrameStep::Stop));
    assert!(matches!(read_frame(true, Frame::Other), FrameStep::Skip));
    assert!(matches!(read_frame(true, Frame::Close), FrameStep::Stop));
    assert!(matches!(read_frame(true, Frame::Failed), FrameStep::Stop));
    assert!(matches!(read_frame(true, Frame::Text("x".repeat(1_000_000))), FrameStep::Read(_)));
    assert!(matches!(read_frame(true, Frame::Text("x".repeat(1_000_001))), FrameStep::Stop));
}

#[test]
fn events_are_told_apart() {
    assert!(matches!(route(&json(r#"{"echo": "e", "retcode": 0}"#)), Incoming::Answer));
    assert!(matches!(route(&json(r#"{"echo": "e"}"#)), Incoming::Nothing));
    assert!(matches!(route(&json(r#"{"post_type": "message"}"#)), Incoming::Message));
    assert!(matches!(
        route(&json(r#"{"post_type": "meta_event", "meta_event_type": "heartbeat"}"#)),
        Incoming::Heartbeat
    ));
    assert!(matches!(
        route(&json(r#"{"post_type": "meta_event", "meta_event_type": "lifecycle"}"#)),
        Incoming::Lifecycle(sub) if sub == "unknown"
    ));
    assert!(matches!(
        route(&json(r#"{"post_type": "notice", "notice_type": "group_recall"}"#)),
        Incoming::GroupRecall
    ));
    assert!(matches!(
        route(&json(r#"{"post_type": "notice", "notice_type": "friend_recall"}"#)),
        Incoming::FriendRecall
    ));
    assert!(matches!(
        route(&json(r#"{"post_type": "notice"}"#)),
        Incoming::Notice(kind) if kind == "unknown"
    ));
    assert!(matches!(route(&json(r#"{"post_type": "request"}"#)), Incoming::Request));
    assert!(matches!(
        route(&json(r#"{"post_type": "other"}"#)),
        Incoming::Unknown(kind) if kind == "other"
    ));
}

#[test]
fn recalls_are_told_or_what_is_missing() {
    let own = json(r#"{"group_id": 1, "user_id": 2, "operator_id": 2, "message_id": 3}"#);
    assert_eq!(
        log_group_recall(&own),
        Ok("[Recall] User 2 recalled message 3 in group 1".to_string())
    );
    let admin = json(r#"{"group_id": 1, "user_id": 2, "operator_id": 4, "message_id": 3}"#);
    assert_eq!(
        log_group_recall(&admin),
        Ok("[Recall] Admin 4 recalled message 3 from user 2 in group 1".to_string())
    );
    assert_eq!(
        log_group_recall(&json(r#"{"group_id": 1, "user_id": 2}"#)),
        Err("[Recall] group_recall missing operator_id for user 2 in group 1".to_string())
    );
    assert!(log_group_recall(&json("{}")).is_err());
    assert_eq!(
        log_friend_recall(&json(r#"{"user_id": 2, "message_id": 3}"#)),
        Ok("[Recall] User 2 recalled private message 3".to_string())
    );
    assert!(log_friend_recall(&json(r#"{"user_id": 2}"#)).is_err());
}

#[test]
fn the_first_account_that_is_named_is_the_bots() {
    let e = json(r#"{"post_type": "message", "self_id": 5}"#);
    assert_eq!(learn_self_id(None, &e), Some(5));
    assert_eq!(learn_self_id(Some(4), &e), Some(4));
    assert_eq!(learn_self_id(None, &json(r#"{"self_id": 5}"#)), None);
    let answer = json(r#"{"post_type": "x", "self_id": 5, "echo": "e", "retcode": 0}"#);
    assert_eq!(learn_self_id(None, &answer), None);
}

#[test]
fn answers_of_alma_are_read() {
    assert_eq!(create_thread(Ok((201, json(r#"{"id": "t"}"#)))), Ok("t".to_string()));
    assert_eq!(
        create_thread(Ok((200, json("{}")))),
        Err("Response missing 'id' field".to_string())
    );
    assert_eq!(create_thread(Ok((500, Json::Null))), Err("Alma API returned status 500".to_string()));
    assert_eq!(create_thread(Err("x".to_string())), Err("x".to_string()));
    assert_eq!(
        create_thread(Err(format_alma_http_error("Timeout reached"))),
        Err("Create thread timed out after 180s".to_string())
    );
    assert_eq!(thread_exists("t", Ok((200, Json::Null))), Ok(true));
    assert_eq!(thread_exists("t", Ok((404, Json::Null))), Ok(false));
    assert_eq!(
        thread_exists("t", Ok((500, Json::Null))),
        Err("Thread API returned status 500 for t".to_string())
    );
    assert_eq!(
        thread_exists("t", Err("x".to_string())),
        Err("Failed to fetch thread t: x".to_string())
    );
    assert_eq!(
        fetch_thread_model("t", Ok((200, json(r#"{"model": "m"}"#)))),
        Ok(Some("m".to_string()))
    );
    assert_eq!(fetch_thread_model("t", Ok((200, json(r#"{"model": ""}"#)))), Ok(None));
    assert!(fetch_thread_model("t", Ok((404, Json::Null))).is_err());
    assert_eq!(
        fetch_thread_model("t", Err("timed out".to_string())),
        Err("Fetch thread t timed out after 180s".to_string())
    );
    assert_eq!(
        fetch_default_model(Ok((200, json(r#"{"chat": {"defaultModel": "m"}}"#)))),
        Ok("m".to_string())
    );
    assert_eq!(
        fetch_default_model(Ok((200, json("{}")))),
        Err("Settings missing 'chat.defaultModel' field".to_string())
    );
    assert_eq!(
        fetch_default_model(Ok((503, Json::Null))),
        Err("Settings API returned status 503".to_string())
    );
    assert_eq!(format_alma_http_error("refused"), "HTTP request failed: refused");
}

#[test]
fn alma_is_found_at_its_paths() {
    assert_eq!(threads_url("http://a"), "http://a/api/threads");
    assert_eq!(thread_url("http://a", "t"), "http://a/api/threads/t");
    assert_eq!(settings_url("http://a"), "http://a/api/settings");
}
