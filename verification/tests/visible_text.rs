use alma_onebot_bridge::alma_ws::visible_text::{
    extract_think_blocks, normalize_assistant_text, sanitize_visible_assistant_text, split_reply,
    strip_tag_blocks, visible_assistant_text_matches_for_dedup,
};

#[test]
fn normalizes_html_breaks_and_separates_thinking() {
    let normalized =
        normalize_assistant_text("<think>step 1<br>step 2</think><br>hello<br/>world");
    let (clean, thinking) = extract_think_blocks(&normalized);

    assert_eq!(clean.trim(), "hello\nworld");
    assert_eq!(thinking.as_deref(), Some("step 1\nstep 2"));
}

#[test]
fn strips_unclosed_think_block_from_visible_text() {
    let normalized = normalize_assistant_text("visible<think>hidden");
    let (clean, thinking) = extract_think_blocks(&normalized);

    assert_eq!(clean, "visible");
    assert_eq!(thinking.as_deref(), Some("hidden"));
}

#[test]
fn thinking_tag_is_not_parsed_as_short_think_tag() {
    let (clean, thinking) = extract_think_blocks("<thinking>hidden</thinking>visible");

    assert_eq!(clean, "visible");
    assert_eq!(thinking.as_deref(), Some("hidden"));
}

#[test]
fn strips_system_reminder_block_from_visible_text() {
    let text = "正常内容\n<system-reminder>\n内部提醒\n</system-reminder>\n更多内容";
    let clean = sanitize_visible_assistant_text(text);

    assert_eq!(clean, "正常内容\n\n更多内容");
}

#[test]
fn strips_system_reminder_and_think_together() {
    let text = "<think>hidden</think>hello<system-reminder>internal</system-reminder>world";
    let clean = sanitize_visible_assistant_text(text);

    assert_eq!(clean, "helloworld");
}

#[test]
fn normalized_short_reply_is_stable_for_dedup() {
    let text = normalize_assistant_text("萌依收到电报");
    assert_eq!(text.trim(), "萌依收到电报");
}

#[test]
fn every_break_becomes_one_line_feed() {
    assert_eq!(normalize_assistant_text("a\r\nb\rc<br>d<br/>e<br />f"), "a\nb\nc\nd\ne\nf");
    let once = normalize_assistant_text("a<br>b\r\n\r\nc");
    assert_eq!(normalize_assistant_text(&once), once);
}

#[test]
fn several_thoughts_are_told_with_a_blank_line_between() {
    let (clean, thinking) =
        extract_think_blocks("a<think>one</think>b<thinking>two</thinking>c");
    assert_eq!(clean, "abc");
    assert_eq!(thinking.as_deref(), Some("one\n\ntwo"));
}

#[test]
fn text_without_thoughts_is_left_alone() {
    let (clean, thinking) = extract_think_blocks("just text");
    assert_eq!(clean, "just text");
    assert_eq!(thinking, None);
    let (clean, thinking) = split_reply("  hi  ");
    assert_eq!(clean, "hi");
    assert_eq!(thinking, None);
}

#[test]
fn open_reminder_hides_the_rest() {
    assert_eq!(strip_tag_blocks("a[x]b[/x]c[x]d", "[x]", "[/x]"), "ac");
    assert_eq!(sanitize_visible_assistant_text("shown<system-reminder>not shown"), "shown");
}

#[test]
fn replies_are_the_same_by_their_visible_words() {
    assert!(visible_assistant_text_matches_for_dedup("a  b", "a<br>b"));
    assert!(visible_assistant_text_matches_for_dedup("<think>x</think>a b", "a b"));
    assert!(!visible_assistant_text_matches_for_dedup("a b", "a c"));
    assert!(!visible_assistant_text_matches_for_dedup("<think>x</think>", ""));
}
