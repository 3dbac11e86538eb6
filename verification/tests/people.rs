use alma_onebot_bridge::json::Json;
use alma_onebot_bridge::onebot::event::Sender;
use alma_onebot_bridge::people::cards::{
    extract_group_cards_from_body, format_group_cards_section, strip_group_cards_section,
    upsert_group_card, GroupCards,
};
use alma_onebot_bridge::people::frontmatter::{
    extract_frontmatter_field_from_lines, render_profile_content, split_frontmatter,
    upsert_frontmatter_field,
};
use alma_onebot_bridge::people::profile::{
    build_default_body, count_profiles, create_profile_file, ensure_people_profile,
    fallback_profile_name, find_profile_path_by_qq_id, find_sender_profile, finish_people_profile,
    sync_profile_file, ProfileFile, ProfilePlan,
};

fn file(name: &str, content: &str) -> ProfileFile {
    ProfileFile { name: name.to_string(), content: content.to_string() }
}

#[test]
fn create_profile_file_writes_structured_group_cards_section() {
    let mut group_cards = GroupCards::new();
    upsert_group_card(&mut group_cards, "123", "群名片A");

    let content = create_profile_file(42, "Alice", &group_cards, "2026-06-20");

    assert!(content.contains("telegram_id: \"42\""));
    assert!(content.contains("qq_id: \"42\""));
    assert!(!content.contains("group_cards:"));
    assert!(content.contains("- 群名片:\n  - 123: 群名片A"));
}

#[test]
fn resolve_profile_path_prefers_existing_qq_id_profile() {
    let files = vec![file(
        "Alice.md",
        r#"---
qq_id: "42"
username: "Alice"
---
# Alice
"#,
    )];

    let found = find_profile_path_by_qq_id(&files, "42");
    let resolved = match found {
        Some(i) => files[i].name.clone(),
        None => fallback_profile_name(42),
    };

    assert_eq!(resolved, "Alice.md");
    assert_ne!(resolved, fallback_profile_name(42));
    assert_eq!(fallback_profile_name(42), "42.md");
}

#[test]
fn find_sender_profile_matches_qq_id_exactly() {
    let files = vec![
        file(
            "Wrong.md",
            r#"---
qq_id: "12345"
username: "Wrong"
---
# Wrong
"#,
        ),
        file(
            "Right.md",
            r#"---
qq_id: "123"
username: "Right"
---
# Right
"#,
        ),
    ];

    let (_, profile) = find_sender_profile(None, &files, "123", "Someone").unwrap();

    assert!(profile.contains("SENDER PROFILE — Right"));
    assert!(!profile.contains("SENDER PROFILE — Wrong"));
}

#[test]
fn sync_profile_file_updates_structured_group_cards_section() {
    let existing = r#"---
telegram_id: "42"
qq_id: "42"
username: "Alice"
---
# Alice

- QQ 用户，ID: 42
- 昵称: Alice
- 首次互动: 2026-06-20
- 备注: 已有内容
- 群名片:
  - 100: 一群名片
"#;

    let content = sync_profile_file(
        existing,
        42,
        Some("Alice"),
        Some("200"),
        Some("二群名片"),
        "2026-06-21",
    )
    .unwrap();

    assert!(content.contains("- 备注: 已有内容"));
    assert!(content.contains("- 群名片:\n  - 100: 一群名片\n  - 200: 二群名片"));
}

#[test]
fn extract_group_cards_from_body_reads_structured_section() {
    let body = r#"# Alice

- QQ 用户，ID: 42
- 群名片:
  - 100: 旧名片
  - 200: 新名片
"#;

    let cards = extract_group_cards_from_body(body);
    assert_eq!(cards.get("100"), Some("旧名片"));
    assert_eq!(cards.get("200"), Some("新名片"));
}

#[test]
fn format_group_cards_section_is_structured_and_stable() {
    let mut group_cards = GroupCards::new();
    upsert_group_card(&mut group_cards, "200", "B");
    upsert_group_card(&mut group_cards, "100", "A");

    assert_eq!(
        format_group_cards_section(&group_cards),
        "- 群名片:\n  - 100: A\n  - 200: B"
    );
}

#[test]
fn build_default_body_appends_group_cards_section() {
    let mut group_cards = GroupCards::new();
    upsert_group_card(&mut group_cards, "100", "A");

    let body = build_default_body("Alice", "42", "2026-06-20", &group_cards);
    assert!(body.contains("# Alice"));
    assert!(body.contains("- 首次互动: 2026-06-20"));
    assert!(body.contains("- 群名片:\n  - 100: A"));
}

#[test]
fn cards_are_read_back_and_replaced() {
    let mut cards = GroupCards::new();
    upsert_group_card(&mut cards, "100", "first");
    upsert_group_card(&mut cards, "100", "second");
    upsert_group_card(&mut cards, "9", "nine");
    assert_eq!(cards.len(), 2);
    let read = extract_group_cards_from_body(&format_group_cards_section(&cards));
    assert_eq!(read.len(), 2);
    assert_eq!(read.get("100"), Some("second"));
    assert_eq!(read.get("9"), Some("nine"));
    assert_eq!(read.get("8"), None);
}

#[test]
fn a_section_is_stripped_and_the_notes_stay() {
    let body = "# Alice\n- 群名片:\n  - 1: a\n- 备注: x";
    let stripped = strip_group_cards_section(body);
    assert!(stripped.contains("- 备注: x"));
    assert!(!stripped.contains("群名片"));
}

#[test]
fn a_new_profile_belongs_to_its_user() {
    let content = create_profile_file(7, "Bo", &GroupCards::new(), "2026-01-02");
    let files = vec![file("Bo.md", &content)];
    assert_eq!(find_profile_path_by_qq_id(&files, "7"), Some(0));
    assert_eq!(find_profile_path_by_qq_id(&files, "8"), None);
    let (front, _) = split_frontmatter(&content);
    assert_eq!(extract_frontmatter_field_from_lines(&front, "username").as_deref(), Some("Bo"));
    assert_eq!(extract_frontmatter_field_from_lines(&front, "none"), None);
    assert_eq!(sync_profile_file(&content, 7, Some("Bo"), None, None, "2026-01-03"), None);
}

#[test]
fn profiles_are_counted_by_their_names() {
    let names = vec!["a.md".to_string(), "b.txt".to_string(), ".md".to_string()];
    assert_eq!(count_profiles(&names), 1);
}

#[test]
fn a_field_that_was_set_is_read_back() {
    let mut lines = vec!["qq_id: \"1\"".to_string()];
    upsert_frontmatter_field(&mut lines, "username", "Alice");
    upsert_frontmatter_field(&mut lines, "qq_id", "2");
    assert_eq!(lines, vec!["qq_id: \"2\"", "username: \"Alice\""]);
    let read = |field| extract_frontmatter_field_from_lines(&lines, field);
    assert_eq!(read("qq_id").as_deref(), Some("2"));
    assert_eq!(read("username").as_deref(), Some("Alice"));
    assert_eq!(read("title"), None);
}

#[test]
fn a_profile_of_500_characters_is_told() {
    let head = "---\nqq_id: \"7\"\n---\n";
    let content = format!("{head}{}", "字".repeat(500 - head.len()));
    let files = vec![file("P.md", &content)];
    let (_, block) = find_sender_profile(None, &files, "7", "x").unwrap();
    assert_eq!(block, format!("\n\n[SENDER PROFILE — P]:\n{content}\n[/SENDER PROFILE]"));
    let files = vec![file("P.md", &format!("{content}字"))];
    assert!(find_sender_profile(None, &files, "7", "x").is_none());
}

#[test]
fn a_new_profile_has_the_name_that_the_sender_gives() {
    let told = Json::Object(vec![("nickname".to_string(), Json::from_text("Bob"))]);
    let none = GroupCards::new();
    let made = |name, answer| finish_people_profile(42, name, &none, answer, "2024-06-10");
    assert!(made(Some("Alice"), Some(&told)).contains("username: \"Alice\""));
    assert!(made(None, Some(&told)).contains("username: \"Bob\""));
    assert!(made(None, None).contains("username: \"QQ用户42\""));
    let sender = |nickname: &str, card: &str| Sender {
        user_id: Some(42),
        nickname: Some(nickname.to_string()),
        sex: None,
        age: None,
        card: Some(card.to_string()),
        role: None,
        title: None,
    };
    for (s, want) in [
        (sender("Alice", "Card"), Some("Alice")),
        (sender("", "Card"), Some("Card")),
        (sender("", ""), None),
    ] {
        match ensure_people_profile(42, Some(&s), None, None, "2024-06-10") {
            ProfilePlan::Create { request, name, .. } => {
                assert_eq!(name.as_deref(), want);
                assert!(request.echo.ends_with("-get_stranger_info"));
            }
            _ => panic!("the profile is to be made"),
        }
    }
}

#[test]
fn a_written_profile_is_taken_apart_again() {
    let front = vec!["qq_id: \"7\"".to_string(), "".to_string()];
    for (front, body, want) in [
        (front, " \n# A\n\n---\nb\n ", "# A\n\n---\nb"),
        (Vec::new(), "x", "x"),
        (Vec::new(), " \n", ""),
    ] {
        let content = render_profile_content(&front, body);
        assert_eq!(split_frontmatter(&content), (front, want.to_string()));
    }
    assert_eq!(render_profile_content(&vec!["a: b".to_string()], " c "), "---\na: b\n---\nc\n");
}
