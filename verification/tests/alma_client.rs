use alma_onebot_bridge::alma_ws::client::{AlmaWsClient, Effect, GenerateStep, WaitOutcome};
use alma_onebot_bridge::alma_ws::link::{
    connection_supervisor, reconnect_delay_ms, run_connected_session, LinkAction, LinkEvent,
    SessionInput, SessionStep,
};
use alma_onebot_bridge::json::{Json, JsonNumber};

fn convert(v: &serde_json::Value) -> Json {
    match v {
        serde_json::Value::Null => Json::Null,
        serde_json::Value::Bool(b) => Json::Bool(*b),
        serde_json::Value::Number(n) => {
            Json::Number(JsonNumber { text: n.to_string(), int: n.as_i64() })
        }
        serde_json::Value::String(s) => Json::Str(s.clone()),
        serde_json::Value::Array(items) => Json::Array(items.iter().map(convert).collect()),
        serde_json::Value::Object(entries) => {
            Json::Object(entries.iter().map(|(k, v)| (k.clone(), convert(v))).collect())
        }
    }
}

fn json(text: &str) -> Json {
    let value: serde_json::Value = serde_json::from_str(text).unwrap();
    convert(&value)
}

fn client() -> AlmaWsClient {
    AlmaWsClient::connect("http://localhost:23001").1
}

fn begin(client: &mut AlmaWsClient, thread: &str) -> u64 {
    match client.generate(thread, None, "hi", Vec::new(), "telegram", "", false) {
        Ok(g) => g.generation_id,
        Err(e) => panic!("{e}"),
    }
}

fn append(client: &mut AlmaWsClient, thread: &str, text: &str) {
    let delta = Json::Object(vec![
        ("type".to_string(), Json::Str("text_append".to_string())),
        ("partType".to_string(), Json::Str("text".to_string())),
        ("text".to_string(), Json::Str(text.to_string())),
    ]);
    let data = Json::Object(vec![
        ("threadId".to_string(), Json::Str(thread.to_string())),
        ("deltas".to_string(), Json::Array(vec![delta])),
    ]);
    let msg = Json::Object(vec![
        ("type".to_string(), Json::Str("message_delta".to_string())),
        ("data".to_string(), data),
    ]);
    assert!(client.dispatch_event(&msg, 0).is_empty());
}

fn resolved(effects: Vec<Effect>) -> Result<String, String> {
    assert_eq!(effects.len(), 1);
    match effects.into_iter().next() {
        Some(Effect::Resolve { result: Ok(r), .. }) => Ok(r.text),
        Some(Effect::Resolve { result: Err(e), .. }) => Err(e),
        _ => panic!("no result"),
    }
}

fn updated(thread: &str, message: &str, text: &str) -> Json {
    let part = Json::Object(vec![
        ("type".to_string(), Json::Str("text".to_string())),
        ("text".to_string(), Json::Str(text.to_string())),
    ]);
    let inner = Json::Object(vec![
        ("id".to_string(), Json::Str(message.to_string())),
        ("role".to_string(), Json::Str("assistant".to_string())),
        ("parts".to_string(), Json::Array(vec![part])),
    ]);
    let data = Json::Object(vec![
        ("threadId".to_string(), Json::Str(thread.to_string())),
        ("id".to_string(), Json::Str(message.to_string())),
        ("message".to_string(), inner),
    ]);
    Json::Object(vec![
        ("type".to_string(), Json::Str("message_updated".to_string())),
        ("data".to_string(), data),
    ])
}

#[test]
fn generation_error_after_generating_false_keeps_real_error() {
    let mut c = client();
    begin(&mut c, "thread-1");
    let effects = c.dispatch_event(
        &json(r#"{"type": "thread_generating", "data": {"id": "thread-1", "isGenerating": false}}"#),
        0,
    );
    assert!(matches!(&effects[..], [Effect::StartEmptyGrace { thread_id }] if thread_id == "thread-1"));

    let effects = c.dispatch_event(
        &json(r#"{"type": "generation_error", "data": {"threadId": "thread-1", "error": "real alma error"}}"#),
        0,
    );
    assert_eq!(resolved(effects).unwrap_err(), "real alma error");
    assert!(c.resolve_empty_generation_after_grace("thread-1").is_empty());
}

#[test]
fn generation_completed_resolves_pending_text_without_generating_false() {
    let mut c = client();
    begin(&mut c, "thread-2");
    append(&mut c, "thread-2", "hello");
    let effects = c.dispatch_event(
        &json(r#"{"type": "generation_completed", "data": {"threadId": "thread-2"}}"#),
        0,
    );
    assert_eq!(resolved(effects).unwrap(), "hello");
}

#[test]
fn post_completion_message_updated_for_bridge_generation_is_suppressed() {
    let mut c = client();
    begin(&mut c, "thread-3");
    append(&mut c, "thread-3", "同一条回复");
    let effects = c.dispatch_event(
        &json(r#"{"type": "thread_generating", "data": {"id": "thread-3", "isGenerating": false}}"#),
        0,
    );
    assert_eq!(resolved(effects).unwrap(), "同一条回复");
    c.dispatch_event(&updated("thread-3", "assistant-msg-3", "同一条回复"), 0);
    assert!(c.try_recv_event().is_none());
}

#[test]
fn post_completion_message_updated_for_bridge_generation_is_suppressed_after_break_normalize() {
    let mut c = client();
    begin(&mut c, "thread-4");
    append(&mut c, "thread-4", "段落一\n\n段落二");
    let effects = c.dispatch_event(
        &json(r#"{"type": "generation_completed", "data": {"threadId": "thread-4"}}"#),
        0,
    );
    assert_eq!(resolved(effects).unwrap(), "段落一\n\n段落二");
    c.dispatch_event(&updated("thread-4", "assistant-msg-4", "段落一<br/>段落二"), 0);
    assert!(c.try_recv_event().is_none());
}

#[test]
fn post_completion_incremental_message_updated_prefix_is_suppressed() {
    let completed = "这是同一轮桥接生成的完整回复，长度足够超过前缀抑制阈值，用来模拟 Alma 在完成后继续发出递增 message_updated 的情况。最后一句是完整内容。";
    let prefix = "这是同一轮桥接生成的完整回复，长度足够超过前缀抑制阈值，用来模拟 Alma 在完成后继续发出递增 message_updated 的情况。";
    let mut c = client();
    begin(&mut c, "thread-5");
    append(&mut c, "thread-5", completed);
    let effects = c.dispatch_event(
        &json(r#"{"type": "generation_completed", "data": {"threadId": "thread-5"}}"#),
        0,
    );
    assert_eq!(resolved(effects).unwrap(), completed);
    c.dispatch_event(&updated("thread-5", "assistant-msg-5", prefix), 0);
    assert!(c.try_recv_event().is_none());
}

#[test]
fn late_bridge_owned_message_update_is_suppressed_after_pending_is_gone() {
    let mut c = client();
    let id = begin(&mut c, "thread-late");
    c.dispatch_event(
        &json(
            r#"{"type": "message_added", "data": {"threadId": "thread-late", "messageId": "assistant-late", "role": "assistant", "text": ""}}"#,
        ),
        0,
    );
    let step = c.generation_waited("thread-late", id, WaitOutcome::Closed, 0);
    assert!(matches!(step, GenerateStep::Finish(Err(e)) if e == "Generation channel closed unexpectedly"));
    c.dispatch_event(
        &json(
            r#"{"type": "message_updated", "data": {"threadId": "thread-late", "messageId": "assistant-late", "role": "assistant", "text": "this stale first attempt must not reach QQ"}}"#,
        ),
        0,
    );
    assert!(c.try_recv_event().is_none());
}

#[test]
fn unmarked_top_level_message_updated_still_flows_for_gui_forwarding() {
    let mut c = client();
    c.dispatch_event(
        &json(
            r#"{"type": "message_updated", "data": {"threadId": "thread-gui", "messageId": "assistant-gui", "role": "assistant", "text": "manual Alma GUI reply"}}"#,
        ),
        0,
    );
    let event = c.try_recv_event().unwrap();
    assert_eq!(event.thread_id, "thread-gui");
    assert_eq!(event.message_text, "manual Alma GUI reply");
    assert!(c.try_recv_event().is_none());
}

#[test]
fn timed_out_generation_sends_stop_and_suppresses_late_update() {
    let mut c = client();
    let id = begin(&mut c, "t");
    c.generation_sent("t", 1, 0);
    let stop = match c.generation_waited("t", id, WaitOutcome::TimedOut, 1_000) {
        GenerateStep::Stop(request) => request,
        _ => panic!("the generation is to be stopped"),
    };
    assert_eq!(stop.str_at("type"), Some("stop_generation"));
    assert_eq!(stop.get("data").and_then(|d| d.str_at("threadId")), Some("t"));
    assert!(matches!(c.wait_for_generation_drain("t", id, 0, 1), GenerateStep::Wait(100)));
    match c.wait_for_generation_drain("t", id, 20_000, 1) {
        GenerateStep::Finish(Err(e)) => assert_eq!(e, "Generation timed out after 1s"),
        _ => panic!("the wait is over"),
    }
    c.dispatch_event(&updated("t", "m", "a late reply"), 2_000);
    assert!(c.try_recv_event().is_none());
}

#[test]
fn empty_generation_is_an_error_after_its_grace() {
    let mut c = client();
    begin(&mut c, "t");
    c.dispatch_event(&json(r#"{"type": "generation_completed", "data": {"threadId": "t"}}"#), 0);
    let effects = c.resolve_empty_generation_after_grace("t");
    assert_eq!(resolved(effects).unwrap_err(), "Empty response from Alma");
}

#[test]
fn a_new_generation_takes_the_place_of_the_one_before() {
    let mut c = client();
    let first = begin(&mut c, "t");
    let g = match c.generate("t", Some("m"), "again", Vec::new(), "telegram", "ctx", false) {
        Ok(g) => g,
        Err(e) => panic!("{e}"),
    };
    assert_ne!(g.generation_id, first);
    assert_eq!(g.effects.len(), 1);
    assert_eq!(g.request.str_at("type"), Some("generate_response"));
    assert!(resolved(g.effects).is_err());
}

#[test]
fn nothing_is_generated_without_a_connection() {
    let mut c = client();
    assert!(c.is_connected(false));
    c.set_connected(false);
    assert!(!c.is_connected(false));
    match c.generate("t", None, "hi", Vec::new(), "telegram", "", false) {
        Ok(_) => panic!("there is no connection"),
        Err(e) => assert_eq!(e, "Alma WebSocket connection is closed"),
    }
    c.set_connected(true);
    assert!(c.generate("t", None, "hi", Vec::new(), "telegram", "", true).is_err());
    begin(&mut c, "t");
    let effects = c.fail_pending_generations("connection lost");
    assert_eq!(resolved(effects).unwrap_err(), "connection lost");
}

#[test]
fn a_request_that_cannot_be_sent_is_an_error() {
    let mut c = client();
    let id = begin(&mut c, "t");
    match c.generation_send_failed("t", id, "broken pipe") {
        Ok(_) => panic!("nothing was sent"),
        Err(e) => assert_eq!(e, "WebSocket send failed: broken pipe"),
    }
    assert!(c.fail_pending_generations("x").is_empty());
}

#[test]
fn stopped_generations_are_errors() {
    let mut c = client();
    begin(&mut c, "t");
    let effects =
        c.dispatch_event(&json(r#"{"type": "generation_stopped", "data": {"id": "t"}}"#), 0);
    assert_eq!(resolved(effects).unwrap_err(), "Generation stopped");
    begin(&mut c, "u");
    let effects =
        c.dispatch_event(&json(r#"{"type": "generation_error", "data": {"threadId": "u"}}"#), 0);
    assert_eq!(resolved(effects).unwrap_err(), "Unknown generation error");
}

#[test]
fn the_socket_is_found_from_the_api() {
    assert_eq!(AlmaWsClient::connect("http://a:1").0, "ws://a:1/ws/threads");
    assert_eq!(AlmaWsClient::connect("https://a").0, "wss://a/ws/threads");
}

#[test]
fn a_lost_connection_is_tried_again_with_growing_pauses() {
    assert_eq!(reconnect_delay_ms(1), 1_000);
    assert_eq!(reconnect_delay_ms(2), 2_000);
    assert_eq!(reconnect_delay_ms(100), 30_000);
    let (attempt, action) = connection_supervisor(0, LinkEvent::SessionEnded { reconnect: true });
    assert_eq!(attempt, 1);
    assert!(matches!(action, LinkAction::RetryAfter(1_000)));
    let (attempt, action) = connection_supervisor(attempt, LinkEvent::ConnectFailed);
    assert_eq!(attempt, 2);
    assert!(matches!(action, LinkAction::RetryAfter(2_000)));
    let (attempt, action) = connection_supervisor(attempt, LinkEvent::Reconnected);
    assert_eq!(attempt, 0);
    assert!(matches!(action, LinkAction::RunSession));
    assert!(matches!(connection_supervisor(0, LinkEvent::OutboundGone).1, LinkAction::Stop));
}

#[test]
fn a_session_ends_when_nobody_sends() {
    assert!(matches!(
        run_connected_session(SessionInput::OutboundClosed),
        SessionStep::End { reconnect: false }
    ));
    assert!(matches!(
        run_connected_session(SessionInput::ReadFailed),
        SessionStep::End { reconnect: true }
    ));
    assert!(matches!(run_connected_session(SessionInput::Ping), SessionStep::SendPong));
    assert!(matches!(run_connected_session(SessionInput::Text), SessionStep::Dispatch));
}

#[test]
fn an_update_waits_until_its_thread_is_done() {
    let mut c = client();
    c.dispatch_event(&json(r#"{"type": "thread_generating", "data": {"id": "t"}}"#), 0);
    c.dispatch_event(&updated("t", "m", "first"), 0);
    c.dispatch_event(&updated("t", "m", "second"), 0);
    assert!(c.try_recv_event().is_none());
    c.dispatch_event(
        &json(r#"{"type": "thread_generating", "data": {"id": "t", "isGenerating": false}}"#),
        0,
    );
    assert_eq!(c.try_recv_event().unwrap().message_text, "second");
    assert!(c.try_recv_event().is_none());
}
