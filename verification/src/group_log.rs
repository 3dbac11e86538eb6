//! The logs of group chats in Alma's own format, and the directory of groups beside them.
use crate::clock;
use crate::clock::{Clock, ClockView};
use crate::id_table;
use crate::id_table::IdTable;
use crate::json;
use crate::state::directory;
use crate::state::directory::{EntryView, GroupDirectoryEntry};
use crate::text::facts;
use crate::text::model;
use crate::text::number;
use crate::text::ops;
use vstd::prelude::*;
use vstd::string::*;

verus! {

pub const BRIDGE_README_START: &'static str = "<!-- alma-onebot-bridge:start -->";

pub const BRIDGE_README_END: &'static str = "<!-- alma-onebot-bridge:end -->";

/// The logs of a group.
pub struct GroupLogStats {
    pub days: usize,
    pub latest_file: Option<String>,
}

/// The model of the logs of a group.
pub struct StatsView {
    pub days: nat,
    pub latest_file: Option<Seq<char>>,
}

impl View for GroupLogStats {
    type V = StatsView;

    open spec fn view(&self) -> StatsView {
        StatsView { days: self.days as nat, latest_file: json::text_view(self.latest_file) }
    }
}

/// A path below a directory.
pub open spec fn path_below(dir: Seq<char>, name: Seq<char>) -> Seq<char> {
    if dir.len() == 0 {
        name
    } else if dir.last() == '/' {
        dir + name
    } else {
        dir + "/"@ + name
    }
}

/// A path below a directory.
pub fn join_path(dir: &str, name: &str) -> (r: String)
    ensures
        r@ == path_below(dir@, name@),
{
    if dir.is_empty() {
        return name.to_owned();
    }
    let n: usize = dir.unicode_len();
    if dir.get_char(n - 1) == '/' {
        dir.to_owned().concat(name)
    } else {
        dir.to_owned().concat("/").concat(name)
    }
}

/// Where Alma keeps its group logs.
pub fn alma_groups_dir_at(home: &str) -> (r: String)
    ensures
        r@ == path_below(home@, ".config/alma/groups"@),
{
    join_path(home, ".config/alma/groups")
}

/// `s` with a space in place of every carriage return and line feed.
pub open spec fn in_one_line(s: Seq<char>) -> Seq<char> {
    s.map_values(
        |c: char|
            if c == '\r' || c == '\n' {
                ' '
            } else {
                c
            },
    )
}

fn one_line(text: &str) -> (r: String)
    ensures
        r@ == in_one_line(text@),
{
    let v = ops::to_chars(text);
    let mut out = String::new();
    let mut i: usize = 0;
    while i < v.len()
        invariant
            v@ == text@,
            i <= v@.len(),
            out@ == in_one_line(text@.take(i as int)),
        decreases v@.len() - i,
    {
        let c = if v[i] == '\r' || v[i] == '\n' {
            ' '
        } else {
            v[i]
        };
        out.push(c);
        i += 1;
        assert(out@ =~= in_one_line(text@.take(i as int)));
    }
    assert(text@.take(i as int) =~= text@);
    out
}

/// A mark of a message's id, where it has one.
pub open spec fn message_mark(message_id: Option<int>) -> Seq<char> {
    match message_id {
        Some(id) => " [msg:"@ + number::dec(id) + "]"@,
        None => seq![],
    }
}

/// A mark of a message's id, where it has one.
pub fn mark_message(message_id: Option<i64>) -> (r: String)
    ensures
        r@ == message_mark(json::int_view(message_id)),
{
    match message_id {
        Some(id) => " [msg:".to_owned().concat(&number::dec_i64(id)).concat("]"),
        None => String::new(),
    }
}

/// Who sent a message, as a log says it.
pub open spec fn log_sender(
    display_name: Seq<char>,
    is_alma: bool,
    user_id: Option<int>,
    username: Option<Seq<char>>,
) -> Seq<char> {
    if is_alma {
        "[Alma (BOT)]"@
    } else {
        match user_id {
            Some(id) => match username {
                Some(name) => if name.len() > 0 {
                    "["@ + display_name + " (@"@ + name + ") [id:"@ + number::dec(id) + "]]"@
                } else {
                    "["@ + display_name + " [id:"@ + number::dec(id) + "]]"@
                },
                None => "["@ + display_name + " [id:"@ + number::dec(id) + "]]"@,
            },
            None => "["@ + display_name + "]"@,
        }
    }
}

/// A line of a log, and the file that it belongs to.
pub struct LogLine {
    pub file_name: String,
    pub line: String,
}

/// The file that a group's messages of a day are logged in.
pub open spec fn log_file(chat_id: int, moment: (int, int, int, int, int, int)) -> Seq<char> {
    number::dec(chat_id) + "_"@ + clock::date_text(moment) + ".log"@
}

/// The line of a message.
pub open spec fn log_line(
    moment: (int, int, int, int, int, int),
    message_id: Option<int>,
    sender: Seq<char>,
    text: Seq<char>,
) -> Seq<char> {
    "["@ + clock::time_text(moment) + "]"@ + message_mark(message_id) + " "@ + sender + ": "@
        + in_one_line(text) + "\n"@
}

/// The line that logs a message, and its file.
pub fn append_alma_group_log_at(
    chat_id: i64,
    display_name: &str,
    text: &str,
    is_alma: bool,
    timestamp_secs: u64,
    message_id: Option<i64>,
    user_id: Option<i64>,
    username: Option<&str>,
    clock: &Clock,
) -> (r: LogLine)
    ensures
        r.file_name@ == log_file(
            chat_id as int,
            clock::local_moment(clock@, timestamp_secs),
        ),
        r.line@ == log_line(
            clock::local_moment(clock@, timestamp_secs),
            json::int_view(message_id),
            log_sender(
                display_name@,
                is_alma,
                json::int_view(user_id),
                json::str_view(username),
            ),
            text@,
        ),
{
    let moment = clock.local_time(timestamp_secs);
    let file_name = number::dec_i64(chat_id).concat("_").concat(&clock::format_date(&moment)).concat(
        ".log",
    );
    let sender = if is_alma {
        "[Alma (BOT)]".to_owned()
    } else {
        match user_id {
            Some(id) => {
                let id = number::dec_i64(id);
                match username {
                    Some(name) => if !name.is_empty() {
                        "[".to_owned().concat(display_name).concat(" (@").concat(name).concat(
                            ") [id:",
                        ).concat(&id).concat("]]")
                    } else {
                        "[".to_owned().concat(display_name).concat(" [id:").concat(&id).concat("]]")
                    },
                    None => "[".to_owned().concat(display_name).concat(" [id:").concat(&id).concat(
                        "]]",
                    ),
                }
            },
            None => "[".to_owned().concat(display_name).concat("]"),
        }
    };
    let line = "[".to_owned().concat(&clock::format_time(&moment)).concat("]").concat(
        &mark_message(message_id),
    ).concat(" ").concat(&sender).concat(": ").concat(&one_line(text)).concat("\n");
    LogLine { file_name, line }
}

/// The group that a log file belongs to, if it is one.
pub open spec fn logged_group(file_name: Seq<char>) -> Option<int> {
    if model::finishes_with(file_name, ".log"@) {
        match model::find_first(file_name, "_"@) {
            Some(i) => match number::parsed_i64(file_name.take(i)) {
                Ok(id) => Some(id),
                Err(_) => None,
            },
            None => None,
        }
    } else {
        None
    }
}

fn group_of_log(file_name: &str) -> (r: Option<i64>)
    ensures
        json::int_view(r) == logged_group(file_name@),
{
    if !ops::ends_with(file_name, ".log") {
        return None;
    }
    proof {
        facts::lemma_find_from(file_name@, "_"@, 0);
    }
    match ops::find(file_name, "_") {
        Some(i) => match number::parse_i64(file_name.substring_char(0, i)) {
            Ok(id) => Some(id),
            Err(_) => None,
        },
        None => None,
    }
}

/// The logs of a group with one more.
pub open spec fn with_file(stats: StatsView, file_name: Seq<char>) -> StatsView {
    StatsView {
        days: stats.days + 1,
        latest_file: match stats.latest_file {
            Some(latest) => if model::precedes(latest, file_name) {
                Some(file_name)
            } else {
                Some(latest)
            },
            None => Some(file_name),
        },
    }
}

/// The logs of a group that has none.
pub open spec fn no_logs() -> StatsView {
    StatsView { days: 0, latest_file: None }
}

/// The logs of a group among those of all.
pub open spec fn logs_of(stats: Seq<(i64, StatsView)>, group_id: i64) -> StatsView {
    if id_table::holds(stats, group_id) {
        id_table::value(stats, group_id)
    } else {
        no_logs()
    }
}

/// The logs of the groups, by their files.
pub open spec fn stats_of(names: Seq<Seq<char>>) -> Seq<(i64, StatsView)>
    decreases names.len(),
{
    if names.len() == 0 {
        seq![]
    } else {
        let before = stats_of(names.drop_last());
        match logged_group(names.last()) {
            Some(id) => id_table::with(
                before,
                id as i64,
                with_file(logs_of(before, id as i64), names.last()),
            ),
            None => before,
        }
    }
}

/// The models of the logs of groups.
pub open spec fn stats_views(v: Seq<(i64, GroupLogStats)>) -> Seq<(i64, StatsView)> {
    v.map_values(|e: (i64, GroupLogStats)| (e.0, e.1@))
}

proof fn lemma_stats_views(v: Seq<(i64, GroupLogStats)>, id: i64)
    ensures
        id_table::holds(v, id) == id_table::holds(stats_views(v), id),
        id_table::holds(v, id) ==> id_table::value(v, id)@ == id_table::value(stats_views(v), id),
{
    id_table::lemma_same_positions(v, stats_views(v), id, 0);
    id_table::lemma_position(v, id, 0);
}

proof fn lemma_stats_views_with(v: Seq<(i64, GroupLogStats)>, id: i64, e: GroupLogStats)
    ensures
        stats_views(id_table::with(v, id, e)) == id_table::with(stats_views(v), id, e@),
{
    id_table::lemma_same_positions(v, stats_views(v), id, 0);
    id_table::lemma_position(v, id, 0);
    assert(stats_views(id_table::with(v, id, e)) =~= id_table::with(stats_views(v), id, e@));
}

/// The days that are logged are no more than the files.
proof fn lemma_days_bound(names: Seq<Seq<char>>, id: i64)
    ensures
        id_table::is_sorted(stats_of(names)),
        logs_of(stats_of(names), id).days <= names.len(),
    decreases names.len(),
{
    if names.len() > 0 {
        lemma_days_bound(names.drop_last(), id);
        if let Some(group) = logged_group(names.last()) {
            let before = stats_of(names.drop_last());
            let g = group as i64;
            lemma_days_bound(names.drop_last(), g);
            id_table::lemma_with_is_sorted(before, g, with_file(logs_of(before, g), names.last()));
            id_table::law_value_is_kept(
                before,
                g,
                with_file(logs_of(before, g), names.last()),
                id,
            );
        }
    }
}

/// The logs of the groups, by the names of the files in the directory.
pub fn collect_group_log_stats_at(names: &Vec<String>) -> (r: IdTable<GroupLogStats>)
    ensures
        stats_views(r@) == stats_of(model::texts(names@)),
{
    let ghost views = model::texts(names@);
    let mut stats: IdTable<GroupLogStats> = IdTable::new();
    let mut i: usize = 0;
    assert(stats_views(stats@) =~= seq![]);
    while i < names.len()
        invariant
            views == model::texts(names@),
            i <= names@.len(),
            stats_views(stats@) == stats_of(views.take(i as int)),
        decreases names@.len() - i,
    {
        assert(views.take(i + 1).drop_last() =~= views.take(i as int));
        if let Some(id) = group_of_log(&names[i]) {
            proof {
                lemma_stats_views(stats@, id);
                lemma_days_bound(views.take(i as int), id);
            }
            let (days, latest): (usize, Option<String>) = match stats.get(id) {
                Some(s) => {
                    let latest = match &s.latest_file {
                        Some(l) => if ops::precedes(l, &names[i]) {
                            names[i].clone()
                        } else {
                            l.clone()
                        },
                        None => names[i].clone(),
                    };
                    (s.days, Some(latest))
                },
                None => (0, Some(names[i].clone())),
            };
            let entry = GroupLogStats { days: days + 1, latest_file: latest };
            proof {
                assert(entry@ == with_file(logs_of(stats_views(stats@), id), views[i as int]));
                lemma_stats_views_with(stats@, id, entry);
            }
            let _ = stats.put(id, entry);
        }
        i += 1;
    }
    assert(views.take(i as int) =~= views);
    stats
}

/// When a group was last active, in words.
pub open spec fn readme_time(clock: ClockView, timestamp: u64) -> Seq<char> {
    if timestamp == 0 {
        "unknown"@
    } else {
        let m = clock::local_moment(clock, timestamp);
        clock::date_text(m) + " "@ + clock::time_text(m)
    }
}

/// When a group was last active, in words.
pub fn format_timestamp_for_readme(timestamp_secs: u64, clock: &Clock) -> (r: String)
    ensures
        r@ == readme_time(clock@, timestamp_secs),
{
    if timestamp_secs == 0 {
        return "unknown".to_owned();
    }
    let m = clock.local_time(timestamp_secs);
    clock::format_date(&m).concat(" ").concat(&clock::format_time(&m))
}

/// The title of a group in the directory.
pub open spec fn readme_title(title: Option<Seq<char>>) -> Seq<char> {
    match title {
        Some(t) => if model::trimmed(t).len() > 0 {
            model::trimmed(t)
        } else {
            "Unknown QQ Group"@
        },
        None => "Unknown QQ Group"@,
    }
}

/// The line that tells the id of a group.
pub open spec fn id_line(group_id: i64) -> Seq<char> {
    "- Chat ID: `"@ + number::dec(group_id as int) + "`"@
}

/// What the directory says of the logs of a group.
pub open spec fn logs_text(days: nat) -> Seq<char> {
    "- Platform: QQ / OneBot\n- Type: group\n- Log files: "@ + number::dec(days as int)
        + " day(s)\n"@
}

/// The line that names the latest log of a group, if it has one.
pub open spec fn latest_text(file: Option<Seq<char>>) -> Seq<char> {
    match file {
        Some(f) => "- Latest log: `"@ + f + "`"@ + "\n"@,
        None => seq![],
    }
}

/// What the directory says of a group's activity, and how to use the group.
pub open spec fn usage_text(
    group_id: i64,
    last_active: u64,
    bridge_port: u16,
    clock: ClockView,
) -> Seq<char> {
    let id = number::dec(group_id as int);
    "- Last active: "@ + readme_time(clock, last_active) + "\n- View history: `alma group history "@
        + id
        + " 100`\n- Search logs: `alma group search <keyword>`\n- Send message: `curl -s -X POST http://127.0.0.1:"@
        + number::dec(bridge_port as int) + "/qq/group/"@ + id
        + "/send -H 'Content-Type: application/json' -d '{\"message\":\"...\"}'`\n\n"@
}

/// What the directory says of a group.
pub open spec fn group_section(
    group_id: i64,
    entry: EntryView,
    stats: StatsView,
    bridge_port: u16,
    clock: ClockView,
) -> Seq<char> {
    ("### "@ + readme_title(entry.title) + "\n"@) + (id_line(group_id) + "\n"@) + logs_text(
        stats.days,
    ) + latest_text(stats.latest_file) + usage_text(
        group_id,
        entry.last_active,
        bridge_port,
        clock,
    )
}

/// What the directory says before it comes to the groups.
pub open spec fn readme_head(bridge_port: u16) -> Seq<char> {
    "# QQ Groups\n\nAuto-generated by alma-onebot-bridge. Alma's `alma group list`, `alma group history`, `alma group search`, and local-log part of `alma group context` read this directory.\n\n"@
        + "For QQ / OneBot groups, `alma group send` is Telegram-only. To actively send a QQ group message, use the bridge endpoint from Alma tools:\n\n"@
        + "```bash\ncurl -s -X POST http://127.0.0.1:"@ + number::dec(bridge_port as int)
        + "/qq/group/<chatId>/send \\\n  -H 'Content-Type: application/json' \\\n  -d '{\"message\":\"...\"}'\n```\n\n"@
        + "If the bridge is exposed beyond loopback, set `onebot.access_token` in config.toml; loopback requests are accepted so Alma can call the endpoint locally without leaking the token into prompts.\n\n"@
}

/// The groups that are known, the last entry of each, and those that only have logs.
pub open spec fn listed_groups(
    entries: Seq<EntryView>,
    stats: Seq<(i64, StatsView)>,
) -> Seq<(i64, EntryView)> {
    with_logged(known_groups(entries), stats)
}

/// The groups by id, the last entry of each.
pub open spec fn known_groups(entries: Seq<EntryView>) -> Seq<(i64, EntryView)>
    decreases entries.len(),
{
    if entries.len() == 0 {
        seq![]
    } else {
        id_table::with(known_groups(entries.drop_last()), entries.last().group_id, entries.last())
    }
}

/// The groups with those that only have logs.
pub open spec fn with_logged(
    groups: Seq<(i64, EntryView)>,
    stats: Seq<(i64, StatsView)>,
) -> Seq<(i64, EntryView)>
    decreases stats.len(),
{
    if stats.len() == 0 {
        groups
    } else {
        let before = with_logged(groups, stats.drop_last());
        let id = stats.last().0;
        if id_table::holds(before, id) {
            before
        } else {
            id_table::with(before, id, directory::unknown_group(id))
        }
    }
}

/// What the directory says of the groups.
pub open spec fn group_sections(
    groups: Seq<(i64, EntryView)>,
    stats: Seq<(i64, StatsView)>,
    bridge_port: u16,
    clock: ClockView,
) -> Seq<char>
    decreases groups.len(),
{
    if groups.len() == 0 {
        seq![]
    } else {
        let (id, entry) = groups.last();
        group_sections(groups.drop_last(), stats, bridge_port, clock) + group_section(
            id,
            entry,
            logs_of(stats, id),
            bridge_port,
            clock,
        )
    }
}

/// The directory of groups.
pub open spec fn readme_body(
    entries: Seq<EntryView>,
    stats: Seq<(i64, StatsView)>,
    bridge_port: u16,
    clock: ClockView,
) -> Seq<char> {
    let groups = listed_groups(entries, stats);
    if groups.len() == 0 {
        readme_head(bridge_port) + "No QQ group logs yet.\n"@
    } else {
        readme_head(bridge_port) + "## Groups\n\n"@ + group_sections(
            groups,
            stats,
            bridge_port,
            clock,
        )
    }
}

/// The models of directory entries.
pub open spec fn directory_views(v: Seq<GroupDirectoryEntry>) -> Seq<EntryView> {
    v.map_values(|e: GroupDirectoryEntry| e@)
}

fn write_group_section(
    group_id: i64,
    title: Option<&str>,
    last_active: u64,
    days: usize,
    latest_file: Option<&str>,
    bridge_port: u16,
    clock: &Clock,
) -> (r: String)
    ensures
        forall|entry: EntryView, stats: StatsView|
            entry.title == json::str_view(title) && entry.last_active == last_active && stats.days
                == days && stats.latest_file == json::str_view(latest_file) ==> r@
                == #[trigger] group_section(group_id, entry, stats, bridge_port, clock@),
{
    let id = number::dec_i64(group_id);
    let title = match title {
        Some(t) => {
            let t = ops::trim(t);
            if !t.is_empty() {
                t
            } else {
                "Unknown QQ Group"
            }
        },
        None => "Unknown QQ Group",
    };
    let title_line = "### ".to_owned().concat(title).concat("\n");
    let id_line = "- Chat ID: `".to_owned().concat(&id).concat("`").concat("\n");
    let logs = "- Platform: QQ / OneBot\n- Type: group\n- Log files: ".to_owned().concat(
        &number::dec_u64(days as u64),
    ).concat(" day(s)\n");
    let latest = match latest_file {
        Some(file) => "- Latest log: `".to_owned().concat(file).concat("`").concat("\n"),
        None => String::new(),
    };
    let usage = "- Last active: ".to_owned().concat(
        &format_timestamp_for_readme(last_active, clock),
    ).concat("\n- View history: `alma group history ").concat(&id).concat(
        " 100`\n- Search logs: `alma group search <keyword>`\n- Send message: `curl -s -X POST http://127.0.0.1:",
    ).concat(&number::dec_u64(bridge_port as u64)).concat("/qq/group/").concat(&id).concat(
        "/send -H 'Content-Type: application/json' -d '{\"message\":\"...\"}'`\n\n",
    );
    title_line.concat(&id_line).concat(&logs).concat(&latest).concat(&usage)
}

/// The groups by id, each with the entry that tells of it: the one at an index, or the one of a
/// group of which nothing is known.
spec fn resolved(v: Seq<(i64, Option<usize>)>, entries: Seq<EntryView>) -> Seq<(i64, EntryView)> {
    v.map_values(
        |p: (i64, Option<usize>)|
            (
                p.0,
                match p.1 {
                    Some(j) => entries[j as int],
                    None => directory::unknown_group(p.0),
                },
            ),
    )
}

proof fn lemma_resolved_with(
    v: Seq<(i64, Option<usize>)>,
    entries: Seq<EntryView>,
    id: i64,
    o: Option<usize>,
)
    ensures
        id_table::holds(v, id) == id_table::holds(resolved(v, entries), id),
        resolved(id_table::with(v, id, o), entries) == id_table::with(
            resolved(v, entries),
            id,
            match o {
                Some(j) => entries[j as int],
                None => directory::unknown_group(id),
            },
        ),
{
    id_table::lemma_same_positions(v, resolved(v, entries), id, 0);
    id_table::lemma_position(v, id, 0);
    assert(resolved(id_table::with(v, id, o), entries) =~= id_table::with(
        resolved(v, entries),
        id,
        match o {
            Some(j) => entries[j as int],
            None => directory::unknown_group(id),
        },
    ));
}

spec fn indices_below(v: Seq<(i64, Option<usize>)>, n: nat) -> bool {
    forall|k: int| 0 <= k < v.len() ==> ((#[trigger] v[k]).1 matches Some(j) ==> j < n)
}

proof fn lemma_indices_with(v: Seq<(i64, Option<usize>)>, n: nat, id: i64, o: Option<usize>)
    requires
        indices_below(v, n),
        o matches Some(j) ==> j < n,
    ensures
        indices_below(id_table::with(v, id, o), n),
{
    id_table::lemma_position(v, id, 0);
    let p = id_table::position(v, id, 0);
    let w = id_table::with(v, id, o);
    assert forall|k: int| 0 <= k < w.len() implies ((#[trigger] w[k]).1 matches Some(j) ==> j < n) by {
        if k != p {
            let i = if id_table::holds(v, id) || k < p {
                k
            } else {
                k - 1
            };
            assert(w[k] == v[i]);
        }
    }
}

fn list_groups(entries: &Vec<GroupDirectoryEntry>, log_stats: &IdTable<GroupLogStats>) -> (r: IdTable<
    Option<usize>,
>)
    ensures
        resolved(r@, directory_views(entries@)) == listed_groups(
            directory_views(entries@),
            stats_views(log_stats@),
        ),
        indices_below(r@, entries@.len()),
{
    let ghost views = directory_views(entries@);
    let ghost stats = stats_views(log_stats@);
    let mut groups: IdTable<Option<usize>> = IdTable::new();
    let mut i: usize = 0;
    assert(resolved(groups@, views) =~= seq![]);
    while i < entries.len()
        invariant
            views == directory_views(entries@),
            i <= entries@.len(),
            resolved(groups@, views) == known_groups(views.take(i as int)),
            indices_below(groups@, entries@.len()),
        decreases entries@.len() - i,
    {
        assert(views.take(i + 1).drop_last() =~= views.take(i as int));
        let id = entries[i].group_id;
        proof {
            lemma_resolved_with(groups@, views, id, Some(i));
            lemma_indices_with(groups@, entries@.len(), id, Some(i));
        }
        let _ = groups.put(id, Some(i));
        i += 1;
    }
    assert(views.take(i as int) =~= views);
    let mut j: usize = 0;
    while j < log_stats.len()
        invariant
            stats == stats_views(log_stats@),
            views == directory_views(entries@),
            j <= stats.len(),
            resolved(groups@, views) == with_logged(known_groups(views), stats.take(j as int)),
            indices_below(groups@, entries@.len()),
        decreases stats.len() - j,
    {
        assert(stats.take(j + 1).drop_last() =~= stats.take(j as int));
        let id = log_stats.id_at(j);
        proof {
            lemma_resolved_with(groups@, views, id, None);
            lemma_indices_with(groups@, entries@.len(), id, None);
        }
        let listed = groups.get(id).is_some();
        if !listed {
            let _ = groups.put(id, None);
        }
        j += 1;
    }
    assert(stats.take(j as int) =~= stats);
    groups
}

fn as_str_opt(o: &Option<String>) -> (r: Option<&str>)
    ensures
        json::str_view(r) == json::text_view(*o),
{
    match o {
        Some(s) => Some(s.as_str()),
        None => None,
    }
}

/// Writes the directory of groups.
pub fn build_group_readme_body(
    entries: &Vec<GroupDirectoryEntry>,
    log_stats: &IdTable<GroupLogStats>,
    bridge_port: u16,
    clock: &Clock,
) -> (r: String)
    ensures
        r@ == readme_body(
            directory_views(entries@),
            stats_views(log_stats@),
            bridge_port,
            clock@,
        ),
{
    let ghost views = directory_views(entries@);
    let ghost stats = stats_views(log_stats@);
    let head = "# QQ Groups\n\nAuto-generated by alma-onebot-bridge. Alma's `alma group list`, `alma group history`, `alma group search`, and local-log part of `alma group context` read this directory.\n\n".to_owned().concat(
        "For QQ / OneBot groups, `alma group send` is Telegram-only. To actively send a QQ group message, use the bridge endpoint from Alma tools:\n\n",
    ).concat("```bash\ncurl -s -X POST http://127.0.0.1:").concat(&number::dec_u64(bridge_port as u64)).concat(
        "/qq/group/<chatId>/send \\\n  -H 'Content-Type: application/json' \\\n  -d '{\"message\":\"...\"}'\n```\n\n",
    ).concat(
        "If the bridge is exposed beyond loopback, set `onebot.access_token` in config.toml; loopback requests are accepted so Alma can call the endpoint locally without leaking the token into prompts.\n\n",
    );
    assert(head@ == readme_head(bridge_port));
    let groups = list_groups(entries, log_stats);
    let ghost listed = listed_groups(views, stats);
    assert(groups@.len() == listed.len());
    if groups.len() == 0 {
        return head.concat("No QQ group logs yet.\n");
    }
    let mut out = head.concat("## Groups\n\n");
    let ghost opening = out@;
    let mut i: usize = 0;
    assert(opening + Seq::<char>::empty() =~= opening);
    while i < groups.len()
        invariant
            views == directory_views(entries@),
            stats == stats_views(log_stats@),
            listed == resolved(groups@, views),
            indices_below(groups@, entries@.len()),
            i <= listed.len(),
            out@ == opening + group_sections(listed.take(i as int), stats, bridge_port, clock@),
        decreases listed.len() - i,
    {
        assert(listed.take(i + 1).drop_last() =~= listed.take(i as int));
        let id = groups.id_at(i);
        let ghost entry = listed[i as int].1;
        assert(listed[i as int].0 == id);
        assert(groups@[i as int].1 matches Some(j) ==> j < entries@.len());
        let (title, last_active): (Option<&str>, u64) = match groups.value_at(i) {
            Some(j) => {
                assert(entry == views[*j as int]);
                (as_str_opt(&entries[*j].title), entries[*j].last_active)
            },
            None => (None, 0),
        };
        proof {
            lemma_stats_views(log_stats@, id);
        }
        let (days, latest): (usize, Option<&str>) = match log_stats.get(id) {
            Some(s) => (s.days, as_str_opt(&s.latest_file)),
            None => (0, None),
        };
        let section = write_group_section(
            id,
            title,
            last_active,
            days,
            latest,
            bridge_port,
            clock,
        );
        proof {
            let logs = logs_of(stats, id);
            assert(section@ == group_section(id, entry, logs, bridge_port, clock@));
        }
        out.append(&section);
        i += 1;
        assert(out@ =~= opening + group_sections(listed.take(i as int), stats, bridge_port, clock@));
    }
    assert(listed.take(i as int) =~= listed);
    out
}

/// A text between the marks of the bridge's part of the README.
pub open spec fn marked_part(text: Seq<char>) -> Seq<char> {
    BRIDGE_README_START@ + text + BRIDGE_README_END@ + "\n"@
}

/// The part of the README that belongs to the bridge.
pub open spec fn bridge_section(body: Seq<char>) -> Seq<char> {
    marked_part("\n"@ + body)
}

/// Writes the part of the README that belongs to the bridge.
pub fn build_group_readme(
    entries: &Vec<GroupDirectoryEntry>,
    log_stats: &IdTable<GroupLogStats>,
    bridge_port: u16,
    clock: &Clock,
) -> (r: String)
    ensures
        r@ == bridge_section(
            readme_body(
                directory_views(entries@),
                stats_views(log_stats@),
                bridge_port,
                clock@,
            ),
        ),
{
    let body = build_group_readme_body(entries, log_stats, bridge_port, clock);
    assert(BRIDGE_README_START@ + "\n"@ + body@ =~= BRIDGE_README_START@ + ("\n"@ + body@));
    BRIDGE_README_START.to_owned().concat("\n").concat(&body).concat(BRIDGE_README_END).concat("\n")
}

/// `text` with one line feed at its end, and no other whitespace there.
pub open spec fn with_newline(text: Seq<char>) -> Seq<char> {
    model::trimmed_end(text).push('\n')
}

/// Ends a text with one line feed.
pub fn ensure_trailing_newline(text: &str) -> (r: String)
    ensures
        r@ == with_newline(text@),
{
    let mut out = ops::trim_end(text).to_owned();
    out.push('\n');
    out
}

/// A README that only the bridge has written to.
pub open spec fn default_readme(section: Seq<char>) -> Seq<char> {
    "# Alma Group Logs\n\nThis README may contain group directory sections from Alma and bridge integrations. alma-onebot-bridge only updates the marked section below.\n\n"@
        + section
}

/// A README that only the bridge has written to.
pub fn default_group_readme(section: &str) -> (r: String)
    ensures
        r@ == default_readme(section@),
{
    "# Alma Group Logs\n\nThis README may contain group directory sections from Alma and bridge integrations. alma-onebot-bridge only updates the marked section below.\n\n".to_owned().concat(
        section,
    )
}

/// Where the bridge's part of a README begins, and where it ends.
pub open spec fn marked_section(existing: Seq<char>) -> Option<(int, int)> {
    match model::find_first(existing, BRIDGE_README_START@) {
        Some(start) => match model::find_from(
            existing,
            BRIDGE_README_END@,
            start + BRIDGE_README_START@.len(),
        ) {
            Some(end) => Some((start, end + BRIDGE_README_END@.len())),
            None => None,
        },
        None => None,
    }
}

/// `s` with a line feed at its end.
pub open spec fn ended(s: Seq<char>) -> Seq<char> {
    if s.len() > 0 && s.last() == '\n' {
        s
    } else {
        s.push('\n')
    }
}

/// A README with the bridge's part replaced, if it has one.
pub open spec fn section_replaced(existing: Seq<char>, section: Seq<char>) -> Option<Seq<char>> {
    match marked_section(existing) {
        Some((start, end)) => Some(
            ended(
                existing.take(start) + section + model::trimmed_start_char(
                    existing.skip(end),
                    '\n',
                ),
            ),
        ),
        None => None,
    }
}

/// Replaces the bridge's part of a README, if it has one.
pub fn replace_bridge_section(existing: &str, section: &str) -> (r: Option<String>)
    ensures
        json::text_view(r) == section_replaced(existing@, section@),
{
    let v = ops::to_chars(existing);
    let start_mark = ops::to_chars(BRIDGE_README_START);
    let end_mark = ops::to_chars(BRIDGE_README_END);
    proof {
        facts::lemma_find_from(existing@, BRIDGE_README_START@, 0);
    }
    let start = match ops::find_from(&v, &start_mark, 0) {
        Some(i) => i,
        None => {
            return None;
        },
    };
    let search_from: usize = start + start_mark.len();
    proof {
        facts::lemma_find_from(existing@, BRIDGE_README_END@, search_from as int);
    }
    let end = match ops::find_from(&v, &end_mark, search_from) {
        Some(i) => i + end_mark.len(),
        None => {
            return None;
        },
    };
    let rest = existing.substring_char(end, v.len());
    assert(rest@ =~= existing@.skip(end as int));
    let mut out = existing.substring_char(0, start).to_owned();
    out.append(section);
    out.append(ops::trim_start_char(rest, '\n'));
    let n: usize = out.as_str().unicode_len();
    if n == 0 || out.as_str().get_char(n - 1) != '\n' {
        out.push('\n');
    }
    Some(out)
}

/// Whether a README was written by the bridge before it marked its part.
pub open spec fn is_legacy(existing: Seq<char>) -> bool {
    !model::has_part(existing, BRIDGE_README_START@) && model::begins_with(
        existing,
        "# QQ Groups"@,
    ) && model::has_part(existing, "alma-onebot-bridge"@)
}

/// Whether a README was written by the bridge before it marked its part.
pub fn legacy_bridge_readme(existing: &str) -> (r: bool)
    ensures
        r == is_legacy(existing@),
{
    !ops::contains(existing, BRIDGE_README_START) && ops::starts_with(existing, "# QQ Groups")
        && ops::contains(existing, "alma-onebot-bridge")
}

/// The README with the bridge's part in it. What others wrote stays.
pub open spec fn merged_readme(existing: Option<Seq<char>>, section: Seq<char>) -> Seq<char> {
    let part = with_newline(section);
    match existing {
        None => default_readme(part),
        Some(content) => {
            let text = model::trimmed(content);
            if text.len() == 0 || is_legacy(text) {
                default_readme(part)
            } else {
                match section_replaced(text, part) {
                    Some(merged) => merged,
                    None => model::trimmed_end(text) + "\n\n"@ + part,
                }
            }
        },
    }
}

/// Puts the bridge's part into a README.
pub fn merge_group_readme(existing: Option<&str>, bridge_section: &str) -> (r: String)
    ensures
        r@ == merged_readme(json::str_view(existing), bridge_section@),
{
    let part = ensure_trailing_newline(bridge_section);
    let text = match existing {
        None => {
            return default_group_readme(&part);
        },
        Some(content) => ops::trim(content),
    };
    if text.is_empty() || legacy_bridge_readme(text) {
        return default_group_readme(&part);
    }
    match replace_bridge_section(text, &part) {
        Some(merged) => merged,
        None => ops::trim_end(text).to_owned().concat("\n\n").concat(&part),
    }
}

/// The new content of a README, if it changes.
pub fn write_group_readme_at(existing: Option<&str>, bridge_section: &str) -> (r: Option<String>)
    ensures
        ({
            let merged = merged_readme(json::str_view(existing), bridge_section@);
            match r {
                Some(new) => new@ == merged && json::str_view(existing) != Some(merged),
                None => json::str_view(existing) == Some(merged),
            }
        }),
{
    let readme = merge_group_readme(existing, bridge_section);
    match existing {
        Some(content) => if ops::same(content, &readme) {
            None
        } else {
            Some(readme)
        },
        None => Some(readme),
    }
}

} // verus!
