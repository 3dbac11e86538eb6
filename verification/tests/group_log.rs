use alma_onebot_bridge::clock::Clock;
use alma_onebot_bridge::face_map::{face_id, face_name};
use alma_onebot_bridge::group_log::{
    alma_groups_dir_at, append_alma_group_log_at, build_group_readme, collect_group_log_stats_at,
    merge_group_readme, write_group_readme_at, GroupLogStats,
};
use alma_onebot_bridge::id_table::IdTable;
use alma_onebot_bridge::state::directory::{GroupDirectoryEntry, GroupMember};

fn clock() -> Clock {
    match Clock::new(1_718_000_000, 28_800) {
        Some(c) => c,
        None => panic!("the clock cannot show the present"),
    }
}

#[test]
fn duplicate_face_names_keep_first_known_id() {
    assert_eq!(face_name("264"), Some("捂脸"));
    assert_eq!(face_name("319"), Some("捂脸"));
    assert_eq!(face_id("捂脸"), Some("264".to_string()));
}

#[test]
fn unknown_faces_have_no_name() {
    assert_eq!(face_name("99999"), None);
    assert_eq!(face_name("0264"), None);
    assert_eq!(face_name(""), None);
    assert_eq!(face_id("no such face"), None);
    assert_eq!(face_name("178"), Some("斜眼笑"));
}

#[test]
fn group_log_writes_alma_group_directory_format() {
    let line = append_alma_group_log_at(
        706968284,
        "萌依",
        "你好\n世界",
        false,
        1_718_000_000,
        Some(42),
        Some(1757176294),
        None,
        &clock(),
    );

    let stats = collect_group_log_stats_at(&vec![line.file_name.clone()]);
    let stats = stats.get(706968284).unwrap();
    assert_eq!(stats.days, 1);
    assert_eq!(stats.latest_file.as_deref(), Some(line.file_name.as_str()));
    assert_eq!(alma_groups_dir_at("/home/a"), "/home/a/.config/alma/groups");

    assert!(line.line.contains("[msg:42] [萌依 [id:1757176294]]: 你好 世界"));
}

#[test]
fn log_lines_carry_the_date_and_the_sender() {
    let line = append_alma_group_log_at(
        5, "Bo", "hi", false, 1_718_000_000, None, Some(7), Some("bo"), &clock(),
    );
    assert_eq!(line.file_name, "5_2024-06-10.log");
    assert_eq!(line.line, "[14:13:20] [Bo (@bo) [id:7]]: hi\n");
    let line =
        append_alma_group_log_at(5, "Alma", "hi", true, 1_718_000_000, Some(1), None, None, &clock());
    assert_eq!(line.line, "[14:13:20] [msg:1] [Alma (BOT)]: hi\n");
}

#[test]
fn stats_count_the_days_of_each_group() {
    let names = vec![
        "7_2024-06-10.log".to_string(),
        "7_2024-06-11.log".to_string(),
        "-8_2024-01-01.log".to_string(),
        "README.md".to_string(),
        "x_2024-01-01.log".to_string(),
    ];
    let stats = collect_group_log_stats_at(&names);
    assert_eq!(stats.len(), 2);
    assert_eq!(stats.get(7).unwrap().days, 2);
    assert_eq!(stats.get(7).unwrap().latest_file.as_deref(), Some("7_2024-06-11.log"));
    assert_eq!(stats.get(-8).unwrap().days, 1);
}

#[test]
fn readme_includes_history_and_qq_send_endpoint_without_members() {
    let entries = vec![GroupDirectoryEntry {
        group_id: 706968284,
        title: Some("测试群".to_string()),
        last_active: 1_718_000_000,
        members: vec![GroupMember {
            group_id: 706968284,
            user_id: 1757176294,
            display_name: "萌依".to_string(),
            last_seen: 1_718_000_000,
        }],
    }];
    let mut stats: IdTable<GroupLogStats> = IdTable::new();
    stats.put(
        706968284,
        GroupLogStats {
            days: 2,
            latest_file: Some("706968284_2026-06-21.log".to_string()),
        },
    );

    let readme = build_group_readme(&entries, &stats, 8090, &clock());

    assert!(readme.contains("### 测试群"));
    assert!(readme.contains("- Chat ID: `706968284`"));
    assert!(readme.contains("alma group history 706968284 100"));
    assert!(readme.contains("http://127.0.0.1:8090/qq/group/706968284/send"));
    assert!(!readme.contains("Known members"));
    assert!(!readme.contains("萌依 [id:1757176294]"));
    assert!(readme.contains("<!-- alma-onebot-bridge:start -->"));
    assert!(readme.contains("<!-- alma-onebot-bridge:end -->"));
}

#[test]
fn readme_merge_preserves_existing_non_bridge_content() {
    let existing = "# Alma Groups\n\nTelegram group directory stays here.\n";
    let bridge_section = "<!-- alma-onebot-bridge:start -->\n## QQ Groups\n\n- Chat ID: `706968284`\n<!-- alma-onebot-bridge:end -->\n";

    let merged = merge_group_readme(Some(existing), bridge_section);

    assert!(merged.contains("Telegram group directory stays here."));
    assert!(merged.contains("## QQ Groups"));
    assert!(merged.contains("<!-- alma-onebot-bridge:start -->"));
    assert!(merged.contains("<!-- alma-onebot-bridge:end -->"));
}

#[test]
fn readme_merge_replaces_only_existing_bridge_section() {
    let existing = "# Alma Groups\n\nBefore\n\n<!-- alma-onebot-bridge:start -->\nold bridge content\n<!-- alma-onebot-bridge:end -->\n\nAfter\n";
    let bridge_section = "<!-- alma-onebot-bridge:start -->\nnew bridge content\n<!-- alma-onebot-bridge:end -->\n";

    let merged = merge_group_readme(Some(existing), bridge_section);

    assert!(merged.contains("Before"));
    assert!(merged.contains("After"));
    assert!(merged.contains("new bridge content"));
    assert!(!merged.contains("old bridge content"));
}

#[test]
fn readme_merge_replaces_legacy_bridge_owned_file() {
    let existing =
        "# QQ Groups\n\nAuto-generated by alma-onebot-bridge.\n\n## Groups\n\nold content\n";
    let bridge_section = "<!-- alma-onebot-bridge:start -->\nnew bridge content\n<!-- alma-onebot-bridge:end -->\n";

    let merged = merge_group_readme(Some(existing), bridge_section);

    assert!(merged.starts_with("# Alma Group Logs"));
    assert!(merged.contains("new bridge content"));
    assert!(!merged.contains("old content"));
}

#[test]
fn merging_the_same_part_again_changes_nothing() {
    let part = "<!-- alma-onebot-bridge:start -->\npart\n<!-- alma-onebot-bridge:end -->\n";
    for existing in [None, Some(""), Some("notes"), Some("# QQ Groups\nalma-onebot-bridge")] {
        let once = merge_group_readme(existing, part);
        assert_eq!(merge_group_readme(Some(&once), part), once);
        assert_eq!(write_group_readme_at(Some(&once), part), None);
        assert_eq!(write_group_readme_at(existing, part), Some(once));
    }
}

#[test]
fn a_start_mark_without_an_end_mark_is_left_as_it_is() {
    let part = "<!-- alma-onebot-bridge:start -->\npart\n<!-- alma-onebot-bridge:end -->\n";
    let merged = merge_group_readme(Some("a\n<!-- alma-onebot-bridge:start -->\nb"), part);
    assert_eq!(merged, format!("a\n<!-- alma-onebot-bridge:start -->\nb\n\n{part}"));
}

#[test]
fn readme_lists_groups_known_from_logs_alone() {
    let stats = collect_group_log_stats_at(&vec!["7_2024-06-10.log".to_string()]);
    let readme = build_group_readme(&Vec::new(), &stats, 8090, &clock());
    assert!(readme.contains("- Chat ID: `7`"));
    let empty = build_group_readme(&Vec::new(), &IdTable::new(), 8090, &clock());
    assert!(empty.contains("No QQ group logs yet."));
}

fn listed(group_id: i64, title: &str) -> GroupDirectoryEntry {
    GroupDirectoryEntry {
        group_id,
        title: Some(title.to_string()),
        last_active: 0,
        members: Vec::new(),
    }
}

#[test]
fn each_group_is_listed_once_in_the_order_of_the_ids() {
    let names = vec!["5_2024-06-10.log".to_string(), "30_2024-06-10.log".to_string()];
    let stats = collect_group_log_stats_at(&names);
    let entries = vec![listed(30, "c"), listed(-4, "a"), listed(12, "b")];
    let readme = build_group_readme(&entries, &stats, 8090, &clock());
    let lines: Vec<&str> = readme.lines().collect();
    let ids: Vec<&str> =
        lines.iter().copied().filter(|line| line.starts_with("- Chat ID: `")).collect();
    assert_eq!(
        ids,
        vec!["- Chat ID: `-4`", "- Chat ID: `5`", "- Chat ID: `12`", "- Chat ID: `30`"]
    );
    assert_eq!(lines.first(), Some(&"<!-- alma-onebot-bridge:start -->"));
    assert_eq!(lines.last(), Some(&"<!-- alma-onebot-bridge:end -->"));
    let entries = vec![listed(12, "b"), listed(30, "c"), listed(-4, "a")];
    assert_eq!(build_group_readme(&entries, &stats, 8090, &clock()), readme);
}

#[test]
fn a_part_without_line_feeds_is_merged_once() {
    let part = "<!-- alma-onebot-bridge:start -->part<!-- alma-onebot-bridge:end -->\n";
    let old = "  a\n<!-- alma-onebot-bridge:start -->x<!-- alma-onebot-bridge:end -->\n\nb\n\n";
    for existing in [None, Some("notes\n\n"), Some(old)] {
        let once = merge_group_readme(existing, part);
        assert!(once.contains(part));
        assert!(once.ends_with('\n'));
        assert_eq!(merge_group_readme(Some(&once), part), once);
    }
    assert_eq!(merge_group_readme(Some(old), part), format!("a\n{part}b\n"));
}
