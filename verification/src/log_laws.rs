//! What holds of the logs of groups.
use crate::bridge;
use crate::clock;
use crate::clock::ClockView;
use crate::group_log;
use crate::group_log::StatsView;
use crate::id_table;
use crate::state::directory::EntryView;
use crate::text::facts;
use crate::text::model;
use crate::text::number;
use vstd::prelude::*;

verus! {

/// The line of a message tells the time, its id if it has one, who sent it and its text, all in one
/// line.
pub proof fn law_log_line_tells_the_message(
    moment: (int, int, int, int, int, int),
    message_id: int,
    name: Seq<char>,
    user_id: int,
    text: Seq<char>,
)
    requires
        !text.contains('\r'),
        !text.contains('\n'),
    ensures
        ({
            let time = clock::time_text(moment);
            let theirs = group_log::log_sender(name, false, Some(user_id), None);
            let own = group_log::log_sender(name, true, Some(user_id), None);
            &&& group_log::log_line(moment, Some(message_id), theirs, text) == "["@ + time
                + "] [msg:"@ + number::dec(message_id) + "] ["@ + name + " [id:"@ + number::dec(
                user_id,
            ) + "]]: "@ + text + "\n"@
            &&& group_log::log_line(moment, None, theirs, text) == "["@ + time + "] ["@ + name
                + " [id:"@ + number::dec(user_id) + "]]: "@ + text + "\n"@
            &&& group_log::log_line(moment, None, own, text) == "["@ + time
                + "] [Alma (BOT)]: "@ + text + "\n"@
        }),
{
    reveal_strlit(" ");
    reveal_strlit("]");
    reveal_strlit("[");
    reveal_strlit("] [");
    reveal_strlit(": ");
    reveal_strlit("]]");
    reveal_strlit("]]: ");
    reveal_strlit(" [msg:");
    reveal_strlit("] [msg:");
    reveal_strlit("[Alma (BOT)]");
    reveal_strlit("] [Alma (BOT)]: ");
    assert forall|i: int| 0 <= i < text.len() implies text[i] != '\r' && text[i] != '\n' by {
        assert(text.contains(text[i]));
    }
    assert(group_log::in_one_line(text) =~= text);
    let time = clock::time_text(moment);
    let theirs = group_log::log_sender(name, false, Some(user_id), None);
    let own = group_log::log_sender(name, true, Some(user_id), None);
    assert(group_log::log_line(moment, Some(message_id), theirs, text) =~= "["@ + time + "] [msg:"@
        + number::dec(message_id) + "] ["@ + name + " [id:"@ + number::dec(user_id) + "]]: "@ + text
        + "\n"@);
    assert(group_log::log_line(moment, None, theirs, text) =~= "["@ + time + "] ["@ + name
        + " [id:"@ + number::dec(user_id) + "]]: "@ + text + "\n"@);
    assert(group_log::log_line(moment, None, own, text) =~= "["@ + time + "] [Alma (BOT)]: "@ + text
        + "\n"@);
}

/// The breaks of a text that is logged become spaces, and nothing else of it changes.
pub proof fn law_logged_text_is_one_line(text: Seq<char>, i: int)
    ensures
        group_log::in_one_line(text).len() == text.len(),
        !group_log::in_one_line(text).contains('\n'),
        !group_log::in_one_line(text).contains('\r'),
        0 <= i < text.len() ==> group_log::in_one_line(text)[i] == (if text[i] == '\n' || text[i]
            == '\r' {
            ' '
        } else {
            text[i]
        }),
{
}

/// The log of a group is named after the group, so that the group is told from the name.
pub proof fn law_log_names_its_group(
    group_id: i64,
    moment: (int, int, int, int, int, int),
    other: i64,
    then: (int, int, int, int, int, int),
)
    ensures
        group_log::logged_group(group_log::log_file(group_id as int, moment)) == Some(
            group_id as int,
        ),
        group_id != other ==> group_log::log_file(group_id as int, moment) != group_log::log_file(
            other as int,
            then,
        ),
{
    lemma_log_names(group_id, moment);
    lemma_log_names(other, then);
}

proof fn lemma_log_names(group_id: i64, moment: (int, int, int, int, int, int))
    ensures
        group_log::logged_group(group_log::log_file(group_id as int, moment)) == Some(
            group_id as int,
        ),
{
    reveal_strlit("_");
    reveal_strlit(".log");
    let id = number::dec(group_id as int);
    let name = group_log::log_file(group_id as int, moment);
    let at = id.len() as int;
    assert(name.subrange(name.len() - 4, name.len() as int) =~= ".log"@);
    assert(name.subrange(at, at + 1) =~= "_"@);
    let m = (if group_id < 0 {
        -(group_id as int)
    } else {
        group_id as int
    }) as nat;
    number::lemma_dec_nat_digits(m);
    let digits = number::dec_nat(m);
    assert forall|j: int| 0 <= j < at implies !model::occurs_at(name, "_"@, j) by {
        if model::occurs_at(name, "_"@, j) {
            assert(name.subrange(j, j + 1)[0] == name[j]);
            assert(name[j] == id[j]);
            if group_id >= 0 {
                assert(number::is_digit(digits[j]));
            } else if j > 0 {
                assert(number::is_digit(digits[j - 1]));
            }
        }
    }
    facts::lemma_find_is(name, "_"@, 0, at);
    assert(name.take(at) =~= id);
    number::lemma_parse_of_dec(group_id as int);
}

/// What ends otherwise than a log is none, and so is what begins with no group.
pub proof fn law_other_files_are_no_logs(name: Seq<char>)
    requires
        !model::finishes_with(name, ".log"@) || !name.contains('_'),
    ensures
        group_log::logged_group(name) is None,
{
    reveal_strlit("_");
    facts::lemma_find_from(name, "_"@, 0);
    if let Some(i) = model::find_first(name, "_"@) {
        assert(name.subrange(i, i + 1)[0] == name[i]);
        assert(name.contains('_'));
    }
}

/// Each log of a group counts as a day of it, and of no other group; the latest is the last by name.
pub proof fn law_logs_are_counted(names: Seq<Seq<char>>, name: Seq<char>, group_id: i64)
    ensures
        ({
            let before = group_log::logs_of(group_log::stats_of(names), group_id);
            let after = group_log::logs_of(group_log::stats_of(names.push(name)), group_id);
            &&& group_log::logged_group(name) == Some(group_id as int) ==> {
                &&& after.days == before.days + 1
                &&& after.latest_file is Some
                &&& after.latest_file == Some(name) || after.latest_file == before.latest_file
                &&& !model::precedes(after.latest_file->0, name)
                &&& before.latest_file matches Some(latest) ==> !model::precedes(
                    after.latest_file->0,
                    latest,
                )
            }
            &&& group_log::logged_group(name) != Some(group_id as int) ==> after == before
            &&& names.len() == 0 ==> before.days == 0 && before.latest_file is None
        }),
{
    let more = names.push(name);
    assert(more.drop_last() =~= names);
    let before = group_log::stats_of(names);
    lemma_stats_sorted(names);
    facts::lemma_precedes_irreflexive(name);
    match group_log::logged_group(name) {
        Some(id) => {
            lemma_logged_is_i64(name);
            let value = group_log::with_file(group_log::logs_of(before, id as i64), name);
            id_table::law_value_is_kept(before, id as i64, value, group_id);
            if let Some(latest) = group_log::logs_of(before, id as i64).latest_file {
                facts::lemma_precedes_irreflexive(latest);
                if model::precedes(latest, name) && model::precedes(name, latest) {
                    facts::lemma_precedes_transitive(latest, name, latest);
                }
            }
        },
        None => {},
    }
}

proof fn lemma_logged_is_i64(name: Seq<char>)
    requires
        group_log::logged_group(name) is Some,
    ensures
        i64::MIN <= group_log::logged_group(name)->0 <= i64::MAX,
{
    let i = model::find_first(name, "_"@)->0;
    number::lemma_parsed_i64_bounds(name.take(i));
}

proof fn lemma_stats_sorted(names: Seq<Seq<char>>)
    ensures
        id_table::is_sorted(group_log::stats_of(names)),
    decreases names.len(),
{
    if names.len() > 0 {
        lemma_stats_sorted(names.drop_last());
        let before = group_log::stats_of(names.drop_last());
        if let Some(id) = group_log::logged_group(names.last()) {
            id_table::lemma_with_is_sorted(
                before,
                id as i64,
                group_log::with_file(group_log::logs_of(before, id as i64), names.last()),
            );
        }
    }
}

/// A group without a title is unknown, and one with a title is called by it.
pub proof fn law_group_title(title: Seq<char>)
    ensures
        model::trimmed(title).len() > 0 ==> group_log::readme_title(Some(title)) == model::trimmed(
            title,
        ),
        model::trimmed(title).len() == 0 ==> group_log::readme_title(Some(title))
            == "Unknown QQ Group"@,
        group_log::readme_title(None) == "Unknown QQ Group"@,
{
}

/// The README describes every group that is listed.
pub proof fn law_each_group_is_described(
    entries: Seq<EntryView>,
    stats: Seq<(i64, StatsView)>,
    bridge_port: u16,
    clock: ClockView,
    i: int,
)
    requires
        0 <= i < group_log::listed_groups(entries, stats).len(),
    ensures
        ({
            let (id, entry) = group_log::listed_groups(entries, stats)[i];
            model::has_part(
                group_log::bridge_section(
                    group_log::readme_body(entries, stats, bridge_port, clock),
                ),
                group_log::group_section(
                    id,
                    entry,
                    group_log::logs_of(stats, id),
                    bridge_port,
                    clock,
                ),
            )
        }),
{
    let groups = group_log::listed_groups(entries, stats);
    let (id, entry) = groups[i];
    let section = group_log::group_section(
        id,
        entry,
        group_log::logs_of(stats, id),
        bridge_port,
        clock,
    );
    let body = group_log::readme_body(entries, stats, bridge_port, clock);
    let sections = group_log::group_sections(groups, stats, bridge_port, clock);
    lemma_section_is_there(groups, stats, bridge_port, clock, i);
    facts::lemma_part_of_either(
        group_log::readme_head(bridge_port) + "## Groups\n\n"@,
        sections,
        section,
    );
    facts::lemma_part_of_either("\n"@, body, section);
    let text = "\n"@ + body;
    facts::lemma_part_of_either(group_log::BRIDGE_README_START@, text, section);
    facts::lemma_part_of_either(
        group_log::BRIDGE_README_START@ + text,
        group_log::BRIDGE_README_END@,
        section,
    );
    facts::lemma_part_of_either(
        group_log::BRIDGE_README_START@ + text + group_log::BRIDGE_README_END@,
        "\n"@,
        section,
    );
}

proof fn lemma_section_is_there(
    groups: Seq<(i64, EntryView)>,
    stats: Seq<(i64, StatsView)>,
    bridge_port: u16,
    clock: ClockView,
    i: int,
)
    requires
        0 <= i < groups.len(),
    ensures
        model::has_part(
            group_log::group_sections(groups, stats, bridge_port, clock),
            group_log::group_section(
                groups[i].0,
                groups[i].1,
                group_log::logs_of(stats, groups[i].0),
                bridge_port,
                clock,
            ),
        ),
    decreases groups.len(),
{
    let section = group_log::group_section(
        groups[i].0,
        groups[i].1,
        group_log::logs_of(stats, groups[i].0),
        bridge_port,
        clock,
    );
    let (id, entry) = groups.last();
    let before = group_log::group_sections(groups.drop_last(), stats, bridge_port, clock);
    let last = group_log::group_section(
        id,
        entry,
        group_log::logs_of(stats, id),
        bridge_port,
        clock,
    );
    if i < groups.len() - 1 {
        lemma_section_is_there(groups.drop_last(), stats, bridge_port, clock, i);
        facts::lemma_part_of_either(before, last, section);
    } else {
        facts::lemma_part_of_itself(last);
        facts::lemma_part_of_either(before, last, section);
    }
}

/// What the README says of a group: its title, its number, how many logs it has and which is the
/// latest, when it was last active, and where it is written to.
pub proof fn law_group_is_described(
    group_id: i64,
    entry: EntryView,
    stats: StatsView,
    bridge_port: u16,
    clock: ClockView,
)
    ensures
        ({
            let told = group_log::group_section(group_id, entry, stats, bridge_port, clock);
            let id = number::dec(group_id as int);
            &&& model::begins_with(
                told,
                "### "@ + group_log::readme_title(entry.title) + "\n- Chat ID: `"@ + id + "`\n"@,
            )
            &&& model::has_part(
                told,
                "- Log files: "@ + number::dec(stats.days as int) + " day(s)"@,
            )
            &&& stats.latest_file is Some ==> model::has_part(
                told,
                "- Latest log: `"@ + stats.latest_file->0 + "`"@,
            )
            &&& entry.last_active == 0 ==> model::has_part(told, "- Last active: unknown"@)
            &&& entry.last_active != 0 ==> model::has_part(
                told,
                "- Last active: "@ + clock::date_text(
                    clock::local_moment(clock, entry.last_active),
                ) + " "@ + clock::time_text(clock::local_moment(clock, entry.last_active)),
            )
            &&& model::has_part(
                told,
                "http://127.0.0.1:"@ + number::dec(bridge_port as int) + "/qq/group/"@ + id
                    + "/send"@,
            )
        }),
{
    let told = group_log::group_section(group_id, entry, stats, bridge_port, clock);
    let id = number::dec(group_id as int);
    let title = group_log::readme_title(entry.title);
    let a = ("### "@ + title + "\n"@) + (group_log::id_line(group_id) + "\n"@);
    let logs = group_log::logs_text(stats.days);
    let latest = group_log::latest_text(stats.latest_file);
    let usage = group_log::usage_text(group_id, entry.last_active, bridge_port, clock);
    assert(told == a + logs + latest + usage);
    lemma_heading(title, group_id);
    let head = "### "@ + title + "\n- Chat ID: `"@ + id + "`\n"@;
    assert(told.subrange(0, head.len() as int) =~= head);
    lemma_logs_text(stats.days);
    let days = "- Log files: "@ + number::dec(stats.days as int) + " day(s)"@;
    facts::lemma_part_of_either(a, logs, days);
    facts::lemma_part_of_either(a + logs, latest, days);
    facts::lemma_part_of_either(a + logs + latest, usage, days);
    if stats.latest_file is Some {
        let file = "- Latest log: `"@ + stats.latest_file->0 + "`"@;
        facts::lemma_part_of_itself(file);
        facts::lemma_part_of_either(file, "\n"@, file);
        facts::lemma_part_of_either(a + logs, latest, file);
        facts::lemma_part_of_either(a + logs + latest, usage, file);
    }
    let time = group_log::readme_time(clock, entry.last_active);
    lemma_usage_text(group_id, entry.last_active, bridge_port, clock);
    facts::lemma_part_of_either(a + logs + latest, usage, "- Last active: "@ + time);
    let url = "http://127.0.0.1:"@ + number::dec(bridge_port as int) + "/qq/group/"@ + id
        + "/send"@;
    facts::lemma_part_of_either(a + logs + latest, usage, url);
    reveal_strlit("- Last active: unknown");
    reveal_strlit("- Last active: ");
    reveal_strlit("unknown");
    assert("- Last active: unknown"@ =~= "- Last active: "@ + "unknown"@);
    if entry.last_active != 0 {
        let m = clock::local_moment(clock, entry.last_active);
        assert("- Last active: "@ + clock::date_text(m) + " "@ + clock::time_text(m)
            =~= "- Last active: "@ + time);
    }
}

proof fn lemma_heading(title: Seq<char>, group_id: i64)
    ensures
        ("### "@ + title + "\n"@) + (group_log::id_line(group_id) + "\n"@) == "### "@ + title
            + "\n- Chat ID: `"@ + number::dec(group_id as int) + "`\n"@,
{
    reveal_strlit("\n");
    reveal_strlit("`");
    reveal_strlit("`\n");
    reveal_strlit("- Chat ID: `");
    reveal_strlit("\n- Chat ID: `");
    assert(("### "@ + title + "\n"@) + (group_log::id_line(group_id) + "\n"@) =~= "### "@ + title
        + "\n- Chat ID: `"@ + number::dec(group_id as int) + "`\n"@);
}

proof fn lemma_logs_text(days: nat)
    ensures
        model::has_part(
            group_log::logs_text(days),
            "- Log files: "@ + number::dec(days as int) + " day(s)"@,
        ),
{
    reveal_strlit("- Platform: QQ / OneBot\n- Type: group\n- Log files: ");
    reveal_strlit("- Log files: ");
    reveal_strlit(" day(s)\n");
    reveal_strlit(" day(s)");
    let p = "- Platform: QQ / OneBot\n- Type: group\n- Log files: "@;
    let k = p.len() - "- Log files: "@.len();
    let part = "- Log files: "@ + number::dec(days as int) + " day(s)"@;
    assert(group_log::logs_text(days) =~= p.take(k) + part + seq!['\n']);
    facts::lemma_part_between(p.take(k), part, seq!['\n']);
}

proof fn lemma_usage_text(group_id: i64, last_active: u64, bridge_port: u16, clock: ClockView)
    ensures
        ({
            let usage = group_log::usage_text(group_id, last_active, bridge_port, clock);
            &&& model::has_part(
                usage,
                "- Last active: "@ + group_log::readme_time(clock, last_active),
            )
            &&& model::has_part(
                usage,
                "http://127.0.0.1:"@ + number::dec(bridge_port as int) + "/qq/group/"@
                    + number::dec(group_id as int) + "/send"@,
            )
        }),
{
    let id = number::dec(group_id as int);
    let port = number::dec(bridge_port as int);
    let active = "- Last active: "@ + group_log::readme_time(clock, last_active);
    let p1 = "\n- View history: `alma group history "@;
    let p2 = " 100`\n- Search logs: `alma group search <keyword>`\n- Send message: `curl -s -X POST http://127.0.0.1:"@;
    let p3 = "/qq/group/"@;
    let p4 = "/send -H 'Content-Type: application/json' -d '{\"message\":\"...\"}'`\n\n"@;
    facts::lemma_part_of_itself(active);
    facts::lemma_part_of_either(active, p1, active);
    facts::lemma_part_of_either(active + p1, id, active);
    facts::lemma_part_of_either(active + p1 + id, p2, active);
    facts::lemma_part_of_either(active + p1 + id + p2, port, active);
    facts::lemma_part_of_either(active + p1 + id + p2 + port, p3, active);
    facts::lemma_part_of_either(active + p1 + id + p2 + port + p3, id, active);
    facts::lemma_part_of_either(active + p1 + id + p2 + port + p3 + id, p4, active);
    reveal_strlit(" 100`\n- Search logs: `alma group search <keyword>`\n- Send message: `curl -s -X POST http://127.0.0.1:");
    reveal_strlit("http://127.0.0.1:");
    reveal_strlit("/send -H 'Content-Type: application/json' -d '{\"message\":\"...\"}'`\n\n");
    reveal_strlit("/send");
    let k = p2.len() - "http://127.0.0.1:"@.len();
    assert(p2 =~= p2.take(k) + "http://127.0.0.1:"@);
    assert(p4 =~= "/send"@ + p4.skip(5));
    lemma_url(active + p1 + id, p2.take(k), port, id, p4.skip(5));
}

proof fn lemma_url(
    before: Seq<char>,
    word: Seq<char>,
    port: Seq<char>,
    id: Seq<char>,
    rest: Seq<char>,
)
    ensures
        model::has_part(
            before + (word + "http://127.0.0.1:"@) + port + "/qq/group/"@ + id + ("/send"@ + rest),
            "http://127.0.0.1:"@ + port + "/qq/group/"@ + id + "/send"@,
        ),
{
    let url = "http://127.0.0.1:"@ + port + "/qq/group/"@ + id + "/send"@;
    assert(before + (word + "http://127.0.0.1:"@) + port + "/qq/group/"@ + id + ("/send"@ + rest)
        =~= (before + word) + url + rest);
    facts::lemma_part_between(before + word, url, rest);
}

/// A path below a directory has one slash between, and none where there is no directory.
pub proof fn law_path_is_below(dir: Seq<char>, name: Seq<char>)
    ensures
        dir.len() > 0 && dir.last() != '/' ==> group_log::path_below(dir, name) == dir + "/"@ + name
            && group_log::path_below(dir + "/"@, name) == dir + "/"@ + name,
        group_log::path_below(seq![], name) == name,
{
    reveal_strlit("/");
}

/// A README of others is kept, whether or not it has a part of the bridge; one that the bridge wrote
/// before it marked its part is written anew, and so is an empty one.
pub proof fn law_readme_of_others_is_kept(content: Seq<char>, section: Seq<char>)
    ensures
        model::trimmed(content).len() > 0 && !model::begins_with(
            model::trimmed(content),
            "# QQ Groups"@,
        ) && !model::has_part(model::trimmed(content), "<!-- alma-onebot-bridge:start -->"@)
            ==> model::begins_with(
            group_log::merged_readme(Some(content), section),
            model::trimmed(content),
        ),
        model::begins_with(model::trimmed(content), "# QQ Groups"@) && model::has_part(
            model::trimmed(content),
            "alma-onebot-bridge"@,
        ) && !model::has_part(model::trimmed(content), "<!-- alma-onebot-bridge:start -->"@)
            ==> group_log::merged_readme(Some(content), section) == group_log::merged_readme(
            None,
            section,
        ),
        model::trimmed(content).len() == 0 ==> group_log::merged_readme(Some(content), section)
            == group_log::merged_readme(None, section),
{
    let text = model::trimmed(content);
    let merged = group_log::merged_readme(Some(content), section);
    if text.len() > 0 && !model::begins_with(text, "# QQ Groups"@) && !model::has_part(
        text,
        "<!-- alma-onebot-bridge:start -->"@,
    ) {
        facts::lemma_find_from(text, group_log::BRIDGE_README_START@, 0);
        if let Some(i) = model::find_first(text, group_log::BRIDGE_README_START@) {
            assert(model::occurs_at(text, group_log::BRIDGE_README_START@, i));
        }
        facts::lemma_trimmed_ends(content);
        assert(model::trimmed_end(text) == text);
        assert(merged.subrange(0, text.len() as int) =~= text);
    }
}

/// The README tells where groups are written to.
pub proof fn law_readme_tells_where_to_send(
    entries: Seq<EntryView>,
    stats: Seq<(i64, StatsView)>,
    bridge_port: u16,
    clock: ClockView,
)
    ensures
        model::has_part(
            group_log::readme_body(entries, stats, bridge_port, clock),
            "http://127.0.0.1:"@ + number::dec(bridge_port as int) + "/qq/group/<chatId>/send"@,
        ),
{
    let a = "# QQ Groups\n\nAuto-generated by alma-onebot-bridge. Alma's `alma group list`, `alma group history`, `alma group search`, and local-log part of `alma group context` read this directory.\n\n"@;
    let b = "For QQ / OneBot groups, `alma group send` is Telegram-only. To actively send a QQ group message, use the bridge endpoint from Alma tools:\n\n"@;
    let c = "```bash\ncurl -s -X POST http://127.0.0.1:"@;
    let port = number::dec(bridge_port as int);
    let d = "/qq/group/<chatId>/send \\\n  -H 'Content-Type: application/json' \\\n  -d '{\"message\":\"...\"}'\n```\n\n"@;
    let e = "If the bridge is exposed beyond loopback, set `onebot.access_token` in config.toml; loopback requests are accepted so Alma can call the endpoint locally without leaking the token into prompts.\n\n"@;
    let host = "http://127.0.0.1:"@;
    let path = "/qq/group/<chatId>/send"@;
    let url = host + port + path;
    lemma_head_words();
    let k = c.len() - host.len();
    assert(c =~= c.take(k) + host);
    assert(d =~= path + d.skip(path.len() as int));
    let x = a + b + c.take(k);
    let y = d.skip(path.len() as int);
    assert(a + b + c + port + d =~= x + url + y);
    facts::lemma_part_between(x, url, y);
    facts::lemma_part_of_either(a + b + c + port + d, e, url);
    let head = group_log::readme_head(bridge_port);
    facts::lemma_part_of_either(head, "No QQ group logs yet.\n"@, url);
    facts::lemma_part_of_either(head, "## Groups\n\n"@, url);
    facts::lemma_part_of_either(
        head + "## Groups\n\n"@,
        group_log::group_sections(
            group_log::listed_groups(entries, stats),
            stats,
            bridge_port,
            clock,
        ),
        url,
    );
}

proof fn lemma_head_words()
    ensures
        ({
            let c = "```bash\ncurl -s -X POST http://127.0.0.1:"@;
            let d = "/qq/group/<chatId>/send \\\n  -H 'Content-Type: application/json' \\\n  -d '{\"message\":\"...\"}'\n```\n\n"@;
            let host = "http://127.0.0.1:"@;
            let path = "/qq/group/<chatId>/send"@;
            &&& c.len() >= host.len()
            &&& c.skip(c.len() - host.len()) == host
            &&& d.len() >= path.len()
            &&& d.take(path.len() as int) == path
        }),
{
    reveal_strlit("```bash\ncurl -s -X POST http://127.0.0.1:");
    reveal_strlit("/qq/group/<chatId>/send \\\n  -H 'Content-Type: application/json' \\\n  -d '{\"message\":\"...\"}'\n```\n\n");
    reveal_strlit("http://127.0.0.1:");
    reveal_strlit("/qq/group/<chatId>/send");
    let c = "```bash\ncurl -s -X POST http://127.0.0.1:"@;
    let d = "/qq/group/<chatId>/send \\\n  -H 'Content-Type: application/json' \\\n  -d '{\"message\":\"...\"}'\n```\n\n"@;
    assert(c.skip(c.len() - "http://127.0.0.1:"@.len()) =~= "http://127.0.0.1:"@);
    assert(d.take("/qq/group/<chatId>/send"@.len() as int) =~= "/qq/group/<chatId>/send"@);
}

/// Old logs of the bridge are told apart by their numbers.
pub proof fn law_old_logs_are_told_apart(file: Seq<char>, a: u8, b: u8)
    requires
        a != b,
    ensures
        bridge::rotated_name(file, a) != bridge::rotated_name(file, b),
        model::begins_with(bridge::rotated_name(file, a), file),
{
    reveal_strlit(".");
    let x = bridge::rotated_name(file, a);
    let y = bridge::rotated_name(file, b);
    let n = (file.len() + 1) as int;
    assert(x.skip(n) =~= number::dec(a as int));
    assert(y.skip(n) =~= number::dec(b as int));
    number::lemma_parse_of_dec(a as int);
    number::lemma_parse_of_dec(b as int);
    assert(x.subrange(0, file.len() as int) =~= file);
}

/// Who sent a message is told by name, with the name of the account if there is one, and with the
/// number if it is known; what Alma sent is told as its own.
pub proof fn law_log_names_the_sender(name: Seq<char>, username: Seq<char>, user_id: int)
    ensures
        username.len() > 0 ==> group_log::log_sender(name, false, Some(user_id), Some(username))
            == "["@ + name + " (@"@ + username + ") [id:"@ + number::dec(user_id) + "]]"@,
        username.len() == 0 ==> group_log::log_sender(name, false, Some(user_id), Some(username))
            == group_log::log_sender(name, false, Some(user_id), None),
        group_log::log_sender(name, false, None, None) == "["@ + name + "]"@,
        group_log::log_sender(name, true, Some(user_id), Some(username)) == "[Alma (BOT)]"@,
{
}

} // verus!
