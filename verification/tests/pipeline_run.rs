use alma_onebot_bridge::alma_ws::client::AlmaEvent;
use alma_onebot_bridge::clock::Clock;
use alma_onebot_bridge::json::Json;
use alma_onebot_bridge::onebot::api::QuotedMessage;
use alma_onebot_bridge::onebot::event::{MessageSegment, OneBotEvent, Sender};
use alma_onebot_bridge::pipeline::forward::{
    handle_alma_event, ForwardAction, ForwardOutcome, ForwardRun,
};
use alma_onebot_bridge::pipeline::message::{
    display_name, forward_context, reply_context, sender_nickname, should_process,
};
use alma_onebot_bridge::pipeline::record::{
    learn_group_title, record_alma_group_output, record_observed_group_message,
    resolve_checked_thread, resolve_group_title, resolve_thread_for_session,
    ObservedGroupMessage, ThreadStep, TitleSource,
};
use alma_onebot_bridge::pipeline::split::split_paragraphs;
use alma_onebot_bridge::pipeline::run::{Action, MessageRun, Outcome, RunSettings};
use alma_onebot_bridge::state::directory::GroupTitles;
use alma_onebot_bridge::state::history::GroupHistory;
use alma_onebot_bridge::state::replies::SentReplies;
use alma_onebot_bridge::state::sessions::QqTarget;

fn settings() -> RunSettings {
    RunSettings {
        thinking_message: None,
        show_thinking: false,
        fallback_model: "fallback".to_string(),
        max_retries: 1,
        retry_delay_ms: 50,
    }
}

fn event(kind: &str, segments: Vec<MessageSegment>) -> OneBotEvent {
    OneBotEvent {
        time: Some(1_718_000_000),
        self_id: 1,
        post_type: "message".to_string(),
        message_type: Some(kind.to_string()),
        sub_type: None,
        message_id: Some(77),
        user_id: Some(42),
        group_id: Some(9),
        message: Some(segments),
        raw_message: None,
        sender: Some(Sender {
            user_id: Some(42),
            nickname: Some("Alice".to_string()),
            sex: None,
            age: None,
            card: Some("Card".to_string()),
            role: None,
            title: None,
        }),
        meta_event_type: None,
        notice_type: None,
        operator_id: None,
        request_type: None,
    }
}

fn quoted(sender: i64) -> QuotedMessage {
    QuotedMessage {
        sender_name: "Bob".to_string(),
        sender_id: Some(sender),
        text: "two\nlines".to_string(),
        image_urls: vec!["http://e/q.png".to_string()],
    }
}

#[test]
fn a_private_message_is_answered() {
    let e = event("private", vec![MessageSegment::text("hello")]);
    let (run, action) = MessageRun::begin(&e, settings());
    assert!(matches!(action, Action::EnsureProfile));
    let (run, action) = run.advance(Outcome::Done);
    assert!(matches!(&action, Action::ResolveThread(key) if key == "private:42"));
    let (run, action) = run.advance(Outcome::Thread(Ok(("t".to_string(), false))));
    assert!(matches!(action, Action::Connect));
    let (run, action) = run.advance(Outcome::Connected(Ok(())));
    assert!(matches!(&action, Action::Prepare(downloads) if downloads.is_empty()));
    let (run, action) = run.advance(Outcome::Prepared {
        default_model: None,
        file_parts: Vec::new(),
        ephemeral_context: "ctx".to_string(),
    });
    assert!(matches!(action, Action::Connect));
    let (run, action) = run.advance(Outcome::Connected(Ok(())));
    let request = match action {
        Action::Generate(request) => request,
        _ => panic!("Alma is to be asked"),
    };
    assert_eq!(request.thread_id, "t");
    assert_eq!(request.model.as_deref(), Some("fallback"));
    assert_eq!(request.message, "[msg:77] hello");
    assert_eq!(request.source, "telegram");
    assert_eq!(request.ephemeral_context, "ctx");
    let (run, action) = run.advance(Outcome::Generated(Ok((
        "<think>hm</think>one\n\ntwo".to_string(),
        Some("hm".to_string()),
    ))));
    let first = match action {
        Action::Deliver(out) => out,
        _ => panic!("the reply is to be sent"),
    };
    assert_eq!(first.text, "one");
    assert_eq!(first.reply_to.as_deref(), Some("77"));
    assert_eq!(first.at_user, None);
    let (run, action) = run.advance(Outcome::Delivered(Ok(Some(5))));
    match action {
        Action::Remember { thread_id, text, message_id, group } => {
            assert_eq!((thread_id.as_str(), text.as_str()), ("t", "one"));
            assert_eq!(message_id, Some(5));
            assert_eq!(group, None);
        }
        _ => panic!("the reply is to be remembered"),
    }
    let (run, action) = run.advance(Outcome::Done);
    match action {
        Action::Deliver(out) => {
            assert_eq!(out.text, "two");
            assert_eq!(out.reply_to, None);
        }
        _ => panic!("the second part is to be sent"),
    }
    let (run, action) = run.advance(Outcome::Delivered(Err("gone".to_string())));
    assert!(matches!(action, Action::Finish(Ok(()))));
    assert!(matches!(run.advance(Outcome::Done).1, Action::Nothing));
}

#[test]
fn a_group_message_that_calls_nobody_is_recorded_and_left() {
    let e = event("group", vec![MessageSegment::text("hello all")]);
    let (run, action) = MessageRun::begin(&e, settings());
    assert!(matches!(action, Action::FindTitle(9)));
    let (run, action) = run.advance(Outcome::Title(Some("Nine".to_string())));
    match action {
        Action::Record { title, text } => {
            assert_eq!(title.as_deref(), Some("Nine"));
            assert_eq!(text, "hello all");
        }
        _ => panic!("the message is to be recorded"),
    }
    let (_, action) = run.advance(Outcome::Done);
    assert!(matches!(action, Action::Finish(Ok(()))));
}

#[test]
fn a_reply_without_a_mention_is_left() {
    let e = event("group", vec![MessageSegment::reply("5"), MessageSegment::text("why?")]);
    let (run, _) = MessageRun::begin(&e, settings());
    let (run, _) = run.advance(Outcome::Title(None));
    let (run, _) = run.advance(Outcome::Done);
    let (_, action) = run.advance(Outcome::Quoted(Some(quoted(1))));
    assert!(matches!(action, Action::Finish(Ok(()))));
}

#[test]
fn a_reply_that_mentions_the_bot_is_answered_in_a_group() {
    let e = event(
        "group",
        vec![MessageSegment::reply("5"), MessageSegment::at("1"), MessageSegment::text("why?")],
    );
    let (run, _) = MessageRun::begin(&e, settings());
    let (run, _) = run.advance(Outcome::Title(None));
    let (run, action) = run.advance(Outcome::Done);
    assert!(matches!(&action, Action::FetchQuoted(id) if id == "5"));
    let (run, action) = run.advance(Outcome::Quoted(Some(quoted(1))));
    assert!(matches!(action, Action::EnsureProfile));
    let (run, action) = run.advance(Outcome::Done);
    assert!(matches!(&action, Action::ResolveThread(key) if key == "group:9"));
    let (run, _) = run.advance(Outcome::Thread(Ok(("t".to_string(), true))));
    let (run, action) = run.advance(Outcome::Connected(Ok(())));
    assert!(matches!(&action, Action::Prepare(d) if d.len() == 1 && d[0].url == "http://e/q.png"));
    let (run, _) = run.advance(Outcome::Prepared {
        default_model: Some("m".to_string()),
        file_parts: Vec::new(),
        ephemeral_context: String::new(),
    });
    let (run, action) = run.advance(Outcome::Connected(Ok(())));
    let request = match action {
        Action::Generate(request) => request,
        _ => panic!("Alma is to be asked"),
    };
    assert_eq!(request.model, None);
    assert_eq!(
        request.message,
        "[From: Card [id:42] [msg:77]] [Replying to Alma's message: \"two lines\"] why?"
    );
    assert_eq!(request.source, "telegram-group");
    let (_, action) = run.advance(Outcome::Generated(Ok(("yes".to_string(), None))));
    match action {
        Action::Deliver(out) => assert_eq!(out.at_user.as_deref(), Some("42")),
        _ => panic!("the reply is to be sent"),
    }
}

fn prepared<'a>(e: &'a OneBotEvent, settings: RunSettings) -> (MessageRun<'a>, Action) {
    let (run, _) = MessageRun::begin(e, settings);
    let (run, _) = run.advance(Outcome::Done);
    let (run, _) = run.advance(Outcome::Thread(Ok(("t".to_string(), true))));
    let (run, _) = run.advance(Outcome::Connected(Ok(())));
    run.advance(Outcome::Prepared {
        default_model: None,
        file_parts: vec![Json::Null],
        ephemeral_context: String::new(),
    })
}

#[test]
fn failed_attempts_are_repeated_after_a_pause_and_then_told() {
    let e = event("private", vec![MessageSegment::text("hello")]);
    let (run, _) = prepared(&e, settings());
    let (run, action) = run.advance(Outcome::Connected(Err("down".to_string())));
    assert!(matches!(action, Action::Wait(50)));
    let (run, action) = run.advance(Outcome::Done);
    assert!(matches!(action, Action::Connect));
    let (run, _) = run.advance(Outcome::Connected(Ok(())));
    let (_, action) = run.advance(Outcome::Generated(Err("no".to_string())));
    match action {
        Action::Deliver(out) => assert_eq!(out.text, "抱歉，我暂时无法回复 >_<"),
        _ => panic!("the error is to be told"),
    }
}

#[test]
fn thoughts_are_sent_first_where_that_is_wished() {
    let e = event("private", vec![MessageSegment::text("hello")]);
    let mut s = settings();
    s.show_thinking = true;
    s.thinking_message = Some("...".to_string());
    let (run, action) = prepared(&e, s);
    assert!(matches!(&action, Action::Say(text) if text == "..."));
    let (run, _) = run.advance(Outcome::Done);
    let (run, _) = run.advance(Outcome::Connected(Ok(())));
    let (run, action) = run.advance(Outcome::Generated(Ok((
        "done".to_string(),
        Some(" a<br>b ".to_string()),
    ))));
    match action {
        Action::Deliver(out) => {
            assert_eq!(out.text, "a\nb");
            assert!(!out.is_reply);
        }
        _ => panic!("the thoughts are to be sent"),
    }
    let (_, action) = run.advance(Outcome::Delivered(Ok(None)));
    assert!(matches!(&action, Action::Deliver(out) if out.text == "done" && out.is_reply));
}

#[test]
fn an_empty_reply_is_not_sent() {
    let e = event("private", vec![MessageSegment::text("hello")]);
    let (run, _) = prepared(&e, settings());
    let (run, _) = run.advance(Outcome::Connected(Ok(())));
    let (_, action) = run.advance(Outcome::Generated(Ok(("<think>x".to_string(), None))));
    assert!(matches!(action, Action::Finish(Ok(()))));
}

#[test]
fn a_missing_client_is_told_and_ends_the_run() {
    let e = event("private", vec![MessageSegment::text("hello")]);
    let (run, _) = MessageRun::begin(&e, settings());
    let (run, _) = run.advance(Outcome::Done);
    let (run, _) = run.advance(Outcome::Thread(Ok(("t".to_string(), true))));
    let (run, action) = run.advance(Outcome::Connected(Err("down".to_string())));
    assert!(matches!(&action, Action::Say(text) if text == "抱歉，我暂时无法回复 >_<"));
    let (_, action) = run.advance(Outcome::Done);
    assert!(matches!(&action, Action::Finish(Err(e)) if e == "down"));
}

#[test]
fn a_missing_thread_ends_the_run() {
    let e = event("private", vec![MessageSegment::text("hello")]);
    let (run, _) = MessageRun::begin(&e, settings());
    let (run, _) = run.advance(Outcome::Done);
    let (_, action) = run.advance(Outcome::Thread(Err("no".to_string())));
    assert!(matches!(&action, Action::Finish(Err(e)) if e == "no"));
}

#[test]
fn messages_without_what_they_need_end_the_run() {
    let empty = event("private", Vec::new());
    assert!(matches!(MessageRun::begin(&empty, settings()).1, Action::Finish(Ok(()))));
    let mut e = event("private", vec![MessageSegment::text("x")]);
    e.user_id = None;
    let action = MessageRun::begin(&e, settings()).1;
    assert!(matches!(&action, Action::Finish(Err(m)) if m == "OneBot message event missing user_id"));
    let mut e = event("group", vec![MessageSegment::text("x")]);
    e.group_id = Some(0);
    let action = MessageRun::begin(&e, settings()).1;
    assert!(
        matches!(&action, Action::Finish(Err(m)) if m == "OneBot group message event missing group_id")
    );
    let mut e = event("private", vec![MessageSegment::text("x")]);
    e.message_id = None;
    let action = MessageRun::begin(&e, settings()).1;
    assert!(
        matches!(&action, Action::Finish(Err(m)) if m == "OneBot message event missing message_id")
    );
}

#[test]
fn forwarded_messages_are_fetched() {
    let forward = MessageSegment {
        segment_type: "forward".to_string(),
        data: Json::Object(vec![("id".to_string(), Json::Str("f".to_string()))]),
    };
    let e = event("private", vec![forward]);
    let (run, action) = MessageRun::begin(&e, settings());
    assert!(matches!(&action, Action::FetchForward(id) if id == "f"));
    let (_, action) = run.advance(Outcome::Forwarded(None));
    assert!(matches!(action, Action::EnsureProfile));
}

#[test]
fn groups_are_answered_where_the_bot_is_mentioned() {
    for text in ["hey", "alma, hello", "/help"] {
        let e = event("group", vec![MessageSegment::text(text)]);
        assert!(!should_process(&e));
        let e = event("private", vec![MessageSegment::text(text)]);
        assert!(should_process(&e));
    }
    for id in ["1", "all"] {
        let e = event("group", vec![MessageSegment::at(id), MessageSegment::text("hey")]);
        assert!(should_process(&e));
    }
    let e = event("group", vec![MessageSegment::at("2"), MessageSegment::text("hey")]);
    assert!(!should_process(&e));
}

#[test]
fn names_are_those_of_the_chat() {
    let e = event("group", Vec::new());
    assert_eq!(display_name(&e), "Card");
    let mut e = event("private", Vec::new());
    assert_eq!(display_name(&e), "Alice");
    e.sender = None;
    assert_eq!(sender_nickname(&e), "unknown");
}

#[test]
fn quotes_tell_who_is_quoted() {
    let r = reply_context(quoted(2), 1);
    assert_eq!(r.text, "[Replying to Bob's message: \"two lines\"]");
    assert!(!r.to_bot);
    let r = reply_context(quoted(1), 1);
    assert_eq!(r.text, "[Replying to Alma's message: \"two lines\"]");
    assert!(r.to_bot);
}

#[test]
fn forwards_are_told_up_to_a_limit() {
    assert_eq!(forward_context(&None), "[Forwarded message]");
    assert_eq!(forward_context(&Some(Vec::new())), "[Forwarded message]");
    let nodes = vec![("A".to_string(), "x".to_string()), ("B".to_string(), "y".to_string())];
    assert_eq!(
        forward_context(&Some(nodes)),
        "[Forwarded messages (2 total):A: \"x\", B: \"y\"]"
    );
    let many: Vec<(String, String)> =
        (0..22).map(|_| ("A".to_string(), "x".to_string())).collect();
    assert!(forward_context(&Some(many)).ends_with("A: \"x\" ... +2 more]"));
}

fn alma_event(text: &str) -> AlmaEvent {
    AlmaEvent {
        event_type: "message_updated".to_string(),
        thread_id: "t".to_string(),
        message_role: "assistant".to_string(),
        message_text: text.to_string(),
        thinking_text: Some("hm".to_string()),
    }
}

#[test]
fn what_alma_writes_is_forwarded_once() {
    let mut sent = SentReplies::new();
    let out = handle_alma_event(&alma_event("hi"), true, &mut sent, false, 0);
    assert_eq!(out.len(), 1);
    assert_eq!(out[0].text, "hi");
    sent.register_sent_reply("t", "hi", 0);
    assert!(handle_alma_event(&alma_event("hi"), true, &mut sent, false, 1).is_empty());
    assert!(handle_alma_event(&alma_event("other"), false, &mut sent, false, 1).is_empty());
    let mut e = alma_event("other");
    e.message_role = "user".to_string();
    assert!(handle_alma_event(&e, true, &mut sent, false, 1).is_empty());
    let out = handle_alma_event(&alma_event("other"), true, &mut sent, true, 1);
    assert_eq!(out.len(), 2);
    assert_eq!((out[0].text.as_str(), out[0].is_reply), ("hm", false));
    assert!(out[1].is_reply);
}

#[test]
fn a_reply_in_several_messages_is_not_forwarded() {
    let first = "x".repeat(30);
    let whole = format!("{first}\n\nsecond");
    let mut sent = SentReplies::new();
    for part in split_paragraphs(&whole) {
        sent.register_sent_reply("t", &part, 0);
    }
    assert!(handle_alma_event(&alma_event(&whole), true, &mut sent, false, 15_000).is_empty());
    assert_eq!(handle_alma_event(&alma_event(&whole), true, &mut sent, false, 15_001).len(), 1);

    let mut sent = SentReplies::new();
    sent.register_sent_reply("t", "first", 0);
    sent.register_sent_reply("t", "second", 0);
    let out = handle_alma_event(&alma_event("first\n\nsecond"), true, &mut sent, false, 1);
    assert_eq!(out.len(), 1);
}

#[test]
fn resolving_thread_does_not_touch_locked_alma_database() {
    match resolve_thread_for_session(None, true, 706968284, "萌依") {
        ThreadStep::Create(title) => assert_eq!(title, "QQ群 706968284"),
        _ => panic!("a thread is to be made"),
    }
    let step = resolve_thread_for_session(Some("t".to_string()), true, 706968284, "萌依");
    assert!(matches!(&step, ThreadStep::Check(id) if id == "t"));
    let step = resolve_checked_thread("t".to_string(), Ok(true), true, 706968284, "萌依");
    assert!(matches!(&step, ThreadStep::Use(id) if id == "t"));
    let step = resolve_checked_thread("t".to_string(), Ok(false), true, 706968284, "萌依");
    assert!(matches!(step, ThreadStep::Create(_)));
    let step =
        resolve_checked_thread("t".to_string(), Err("x".to_string()), true, 706968284, "萌依");
    assert!(matches!(&step, ThreadStep::Fail(e) if e == "x"));
}

#[test]
fn group_messages_are_kept_and_logged() {
    let clock = Clock::new(1_718_000_000, 0).unwrap();
    let mut titles = GroupTitles::new();
    let mut history = GroupHistory::new();
    let record = record_observed_group_message(
        &mut titles,
        &mut history,
        10,
        ObservedGroupMessage {
            group_id: 9,
            group_title: Some(" Nine "),
            user_id: 42,
            display_name: "Alice",
            text: "hello",
            timestamp_secs: 1_718_000_000,
            message_id: Some(7),
        },
        &clock,
    );
    assert_eq!(record.title, "Nine");
    assert_eq!(record.member.as_deref(), Some("Alice"));
    assert_eq!(record.log.file_name, "9_2024-06-10.log");
    assert_eq!(titles.get_group_title(9), Some("Nine"));
    let line =
        record_alma_group_output(&mut history, 10, 9, "hi", Some(8), 1_718_000_000, &clock);
    assert_eq!(line.line, "[06:13:20] [msg:8] [Alma (BOT)]: hi\n");
    let kept = history.get_group_history("group:9");
    assert_eq!(kept.len(), 2);
    assert!(!kept[0].is_bot && kept[1].is_bot);
}

#[test]
fn titles_are_asked_for_once() {
    let mut titles = GroupTitles::new();
    assert!(matches!(resolve_group_title(&titles, false, 9), TitleSource::Known(None)));
    assert!(matches!(resolve_group_title(&titles, true, 9), TitleSource::Unknown));
    assert_eq!(learn_group_title(&mut titles, 9, Err("x".to_string())), None);
    assert_eq!(learn_group_title(&mut titles, 9, Ok(None)), None);
    let learned = learn_group_title(&mut titles, 9, Ok(Some("Nine".to_string())));
    assert_eq!(learned.as_deref(), Some("Nine"));
    assert!(
        matches!(resolve_group_title(&titles, true, 9), TitleSource::Known(Some(t)) if t == "Nine")
    );
}

fn chat(target_type: &str, target_id: i64) -> Option<QqTarget> {
    Some(QqTarget { target_type: target_type.to_string(), target_id })
}

#[test]
fn a_forwarded_reply_is_noted_sent_and_recorded() {
    let mut sent = SentReplies::new();
    let e = alma_event("hi");
    let (run, action) = ForwardRun::begin(&e, chat("group", 9), &mut sent, true, 0);
    assert!(matches!(&action, ForwardAction::Send(o) if o.text == "hm" && !o.is_reply));
    let (run, action) = run.advance(ForwardOutcome::Sent(Ok(Some(1))));
    assert!(matches!(
        &action,
        ForwardAction::Register { thread_id, text } if thread_id == "t" && text == "hi"
    ));
    let (run, action) = run.advance(ForwardOutcome::Sent(Ok(None)));
    assert!(matches!(action, ForwardAction::Nothing));
    let (run, action) = run.advance(ForwardOutcome::Done);
    assert!(matches!(&action, ForwardAction::Send(o) if o.text == "hi" && o.is_reply));
    let (run, action) = run.advance(ForwardOutcome::Sent(Ok(Some(2))));
    assert!(matches!(
        &action,
        ForwardAction::Record { group_id: 9, text, message_id: Some(2) } if text == "hi"
    ));
    let (run, action) = run.advance(ForwardOutcome::Done);
    assert!(matches!(action, ForwardAction::Finish));
    assert!(matches!(run.advance(ForwardOutcome::Done).1, ForwardAction::Nothing));
}

#[test]
fn a_forwarded_reply_that_fails_is_passed_over() {
    let mut sent = SentReplies::new();
    let long = format!("{}\n{}", "a".repeat(4_400), "b".repeat(4_400));
    let (run, action) =
        ForwardRun::begin(&alma_event(&long), chat("group", 9), &mut sent, false, 0);
    assert!(matches!(action, ForwardAction::Register { .. }));
    let (run, _) = run.advance(ForwardOutcome::Done);
    let (run, action) = run.advance(ForwardOutcome::Sent(Err("timeout".to_string())));
    assert!(matches!(&action, ForwardAction::Register { text, .. } if text.contains('b')));
    let (run, _) = run.advance(ForwardOutcome::Done);
    let (_, action) = run.advance(ForwardOutcome::Sent(Ok(None)));
    assert!(matches!(action, ForwardAction::Record { message_id: None, .. }));
}

#[test]
fn what_is_forwarded_to_a_user_is_not_recorded() {
    let mut sent = SentReplies::new();
    let (run, _) = ForwardRun::begin(&alma_event("hi"), chat("private", 9), &mut sent, false, 0);
    let (run, _) = run.advance(ForwardOutcome::Done);
    let (_, action) = run.advance(ForwardOutcome::Sent(Ok(Some(2))));
    assert!(matches!(action, ForwardAction::Finish));
    let (_, action) = ForwardRun::begin(&alma_event("hi"), None, &mut sent, false, 0);
    assert!(matches!(action, ForwardAction::Finish));
}
