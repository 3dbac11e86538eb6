//! What holds of the list of groups in the README of the group logs.
use vstd::prelude::*;

use crate::clock;
use crate::clock::ClockView;
use crate::group_log;
use crate::group_log::{StatsView, BRIDGE_README_END, BRIDGE_README_START};
use crate::id_table;
use crate::state::directory;
use crate::state::directory::EntryView;
use crate::text::facts;
use crate::text::model;
use crate::text::number;

verus! {

/// Those of some lines that tell the id of a group.
pub open spec fn id_lines(lines: Seq<Seq<char>>) -> Seq<Seq<char>>
    decreases lines.len(),
{
    if lines.len() == 0 {
        seq![]
    } else if model::begins_with(lines.last(), "- Chat ID: `"@) {
        id_lines(lines.drop_last()).push(lines.last())
    } else {
        id_lines(lines.drop_last())
    }
}

/// The id lines of groups.
pub open spec fn lines_of_groups(groups: Seq<(i64, EntryView)>) -> Seq<Seq<char>> {
    groups.map_values(|g: (i64, EntryView)| group_log::id_line(g.0))
}

/// Whether a text is whole lines.
spec fn is_whole(s: Seq<char>) -> bool {
    s.len() > 0 ==> s.last() == '\n'
}

/// Whether a text has no `D`.
spec fn lacks_d(s: Seq<char>) -> bool {
    forall|i: int| 0 <= i < s.len() ==> #[trigger] s[i] != 'D'
}

proof fn lemma_lacks_d_add(a: Seq<char>, b: Seq<char>)
    requires
        lacks_d(a),
        lacks_d(b),
    ensures
        lacks_d(a + b),
{
    assert forall|i: int| 0 <= i < (a + b).len() implies #[trigger] (a + b)[i] != 'D' by {
        if i < a.len() {
            assert((a + b)[i] == a[i]);
        } else {
            assert((a + b)[i] == b[i - a.len()]);
        }
    }
}

/// The lines of `a + b` from inside `b` on are those of `b`.
proof fn lemma_lines_shift(a: Seq<char>, b: Seq<char>, from: int)
    requires
        0 <= from,
    ensures
        model::lines_from(a + b, a.len() + from) == model::lines_from(b, from),
    decreases b.len() - from,
{
    let s = a + b;
    let nl = seq!['\n'];
    if from < b.len() {
        facts::lemma_find_shift(a, b, nl, from);
        facts::lemma_find_from(b, nl, from);
        match model::find_from(b, nl, from) {
            Some(i) => {
                assert(s.subrange(a.len() + from, a.len() + i) =~= b.subrange(from, i));
                lemma_lines_shift(a, b, i + 1);
            },
            None => {
                assert(s.skip(a.len() + from) =~= b.skip(from));
            },
        }
    }
}

/// Whole lines and what follows them have the lines of both.
proof fn lemma_lines_add_from(a: Seq<char>, b: Seq<char>, from: int)
    requires
        is_whole(a),
        0 <= from <= a.len(),
    ensures
        model::lines_from(a + b, from) == model::lines_from(a, from) + model::lines_of(b),
    decreases a.len() - from,
{
    let s = a + b;
    let nl = seq!['\n'];
    if from == a.len() {
        lemma_lines_shift(a, b, 0);
        assert(model::lines_from(a, from) + model::lines_of(b) =~= model::lines_of(b));
    } else {
        let last = a.len() - 1;
        assert(a.subrange(last, last + 1) =~= nl);
        assert(model::occurs_at(a, nl, last));
        facts::lemma_find_from(a, nl, from);
        let i = model::find_from(a, nl, from)->0;
        assert(s.subrange(i, i + 1) =~= a.subrange(i, i + 1));
        assert forall|j: int| from <= j < i implies !model::occurs_at(s, nl, j) by {
            if model::occurs_at(s, nl, j) {
                assert(a.subrange(j, j + 1) =~= s.subrange(j, j + 1));
                assert(model::occurs_at(a, nl, j));
            }
        }
        facts::lemma_find_is(s, nl, from, i);
        assert(s.subrange(from, i) =~= a.subrange(from, i));
        lemma_lines_add_from(a, b, i + 1);
        let line = model::without_cr(a.subrange(from, i));
        assert(seq![line] + (model::lines_from(a, i + 1) + model::lines_of(b)) =~= seq![line]
            + model::lines_from(a, i + 1) + model::lines_of(b));
    }
}

proof fn lemma_id_lines_add(a: Seq<Seq<char>>, b: Seq<Seq<char>>)
    ensures
        id_lines(a + b) == id_lines(a) + id_lines(b),
    decreases b.len(),
{
    if b.len() == 0 {
        assert(a + b =~= a);
        assert(id_lines(a) + id_lines(b) =~= id_lines(a));
    } else {
        assert((a + b).drop_last() =~= a + b.drop_last());
        lemma_id_lines_add(a, b.drop_last());
        assert(id_lines(a + b) =~= id_lines(a) + id_lines(b));
    }
}

/// Whole lines and what follows them have the id lines of both.
proof fn lemma_text_add(a: Seq<char>, b: Seq<char>)
    requires
        is_whole(a),
    ensures
        model::lines_of(a + b) == model::lines_of(a) + model::lines_of(b),
        id_lines(model::lines_of(a + b)) == id_lines(model::lines_of(a)) + id_lines(
            model::lines_of(b),
        ),
{
    lemma_lines_add_from(a, b, 0);
    lemma_id_lines_add(model::lines_of(a), model::lines_of(b));
}

/// The lines of a text without `D` have no `D`.
proof fn lemma_lines_lack_d(s: Seq<char>, from: int)
    requires
        lacks_d(s),
        0 <= from,
    ensures
        forall|i: int|
            0 <= i < model::lines_from(s, from).len() ==> lacks_d(
                #[trigger] model::lines_from(s, from)[i],
            ),
    decreases s.len() - from,
{
    if from < s.len() {
        let nl = seq!['\n'];
        facts::lemma_find_from(s, nl, from);
        match model::find_from(s, nl, from) {
            Some(k) => {
                lemma_lines_lack_d(s, k + 1);
                let line = model::without_cr(s.subrange(from, k));
                assert forall|i: int| 0 <= i < line.len() implies #[trigger] line[i] != 'D' by {
                    assert(line[i] == s[from + i]);
                }
                let lines = model::lines_from(s, from);
                let rest = model::lines_from(s, k + 1);
                assert(lines == seq![line] + rest);
                assert forall|i: int| 0 <= i < lines.len() implies lacks_d(#[trigger] lines[i]) by {
                    if i > 0 {
                        assert(lines[i] == rest[i - 1]);
                    }
                }
            },
            None => {
                let line = s.skip(from);
                assert forall|i: int| 0 <= i < line.len() implies #[trigger] line[i] != 'D' by {
                    assert(line[i] == s[from + i]);
                }
            },
        }
    }
}

proof fn lemma_id_mark()
    ensures
        "- Chat ID: `"@ =~= seq!['-', ' ', 'C', 'h', 'a', 't', ' ', 'I', 'D', ':', ' ', '`'],
        "`"@ =~= seq!['`'],
        "\n"@ =~= seq!['\n'],
{
    reveal_strlit("- Chat ID: `");
    reveal_strlit("`");
    reveal_strlit("\n");
}

proof fn lemma_none_told(lines: Seq<Seq<char>>)
    requires
        forall|i: int| 0 <= i < lines.len() ==> lacks_d(#[trigger] lines[i]),
    ensures
        id_lines(lines) == Seq::<Seq<char>>::empty(),
    decreases lines.len(),
{
    if lines.len() > 0 {
        let line = lines.last();
        assert(lacks_d(lines[lines.len() - 1]));
        if model::begins_with(line, "- Chat ID: `"@) {
            lemma_id_mark();
            assert(line.subrange(0, 12)[8] == line[8]);
        }
        let before = lines.drop_last();
        assert forall|i: int| 0 <= i < before.len() implies lacks_d(#[trigger] before[i]) by {
            assert(before[i] == lines[i]);
        }
        lemma_none_told(before);
    }
}

/// A text without `D` tells no id.
proof fn lemma_text_without_d(s: Seq<char>)
    requires
        lacks_d(s),
    ensures
        id_lines(model::lines_of(s)) == Seq::<Seq<char>>::empty(),
{
    lemma_lines_lack_d(s, 0);
    lemma_none_told(model::lines_of(s));
}

/// The lines of a text of one line.
proof fn lemma_one_line(line: Seq<char>)
    requires
        facts::is_line(line),
    ensures
        model::lines_of(line + "\n"@) == seq![line],
        id_lines(model::lines_of(line + "\n"@)) == if model::begins_with(line, "- Chat ID: `"@) {
            seq![line]
        } else {
            seq![]
        },
{
    reveal_strlit("\n");
    let s = line + "\n"@;
    facts::lemma_lines_step(seq![], line, seq![]);
    assert(Seq::<char>::empty() + (line + "\n"@ + Seq::<char>::empty()) =~= s);
    assert(model::lines_of(s) =~= seq![line]);
    reveal_with_fuel(id_lines, 2);
    assert(seq![line].drop_last() =~= seq![]);
    assert(Seq::<Seq<char>>::empty().push(line) =~= seq![line]);
}

proof fn lemma_dec_lacks_d(i: int)
    ensures
        lacks_d(number::dec(i)),
        !number::dec(i).contains('\n'),
{
    let n = (if i < 0 {
        -i
    } else {
        i
    }) as nat;
    number::lemma_dec_nat_digits(n);
    let s = number::dec(i);
    let digits = number::dec_nat(n);
    assert forall|k: int| 0 <= k < s.len() implies #[trigger] s[k] != 'D' && s[k] != '\n' by {
        if i < 0 && k > 0 {
            assert(s[k] == digits[k - 1]);
        } else if i >= 0 {
            assert(s[k] == digits[k]);
        }
    }
}

proof fn lemma_zeros_lack_d(s: Seq<char>, width: nat)
    requires
        lacks_d(s),
    ensures
        lacks_d(number::zero_padded(s, width)),
    decreases width - s.len(),
{
    if s.len() < width {
        lemma_lacks_d_add(seq!['0'], s);
        lemma_zeros_lack_d(seq!['0'] + s, width);
    }
}

proof fn lemma_padded_lacks_d(i: int, width: nat)
    ensures
        lacks_d(clock::padded(i, width)),
{
    let n = (if i < 0 {
        -i
    } else {
        i
    }) as nat;
    lemma_dec_lacks_d(n as int);
    lemma_zeros_lack_d(number::dec_nat(n), width);
    if i < 0 {
        let less = (if width == 0 {
            0
        } else {
            width - 1
        }) as nat;
        lemma_zeros_lack_d(number::dec_nat(n), less);
        lemma_lacks_d_add(seq!['-'], number::zero_padded(number::dec_nat(n), less));
    }
}

proof fn lemma_time_lacks_d(clock: ClockView, timestamp: u64)
    ensures
        lacks_d(group_log::readme_time(clock, timestamp)),
{
    reveal_strlit("unknown");
    reveal_strlit("-");
    reveal_strlit(":");
    reveal_strlit(" ");
    if timestamp != 0 {
        let m = clock::local_moment(clock, timestamp);
        lemma_padded_lacks_d(m.0, 4);
        lemma_padded_lacks_d(m.1, 2);
        lemma_padded_lacks_d(m.2, 2);
        lemma_padded_lacks_d(m.3, 2);
        lemma_padded_lacks_d(m.4, 2);
        lemma_padded_lacks_d(m.5, 2);
        lemma_lacks_d_add(clock::padded(m.0, 4), "-"@);
        lemma_lacks_d_add(clock::padded(m.0, 4) + "-"@, clock::padded(m.1, 2));
        lemma_lacks_d_add(clock::padded(m.0, 4) + "-"@ + clock::padded(m.1, 2), "-"@);
        lemma_lacks_d_add(
            clock::padded(m.0, 4) + "-"@ + clock::padded(m.1, 2) + "-"@,
            clock::padded(m.2, 2),
        );
        lemma_lacks_d_add(clock::padded(m.3, 2), ":"@);
        lemma_lacks_d_add(clock::padded(m.3, 2) + ":"@, clock::padded(m.4, 2));
        lemma_lacks_d_add(clock::padded(m.3, 2) + ":"@ + clock::padded(m.4, 2), ":"@);
        lemma_lacks_d_add(
            clock::padded(m.3, 2) + ":"@ + clock::padded(m.4, 2) + ":"@,
            clock::padded(m.5, 2),
        );
        lemma_lacks_d_add(clock::date_text(m), " "@);
        lemma_lacks_d_add(clock::date_text(m) + " "@, clock::time_text(m));
    }
}

proof fn lemma_title_line(title: Option<Seq<char>>)
    requires
        title matches Some(t) ==> !t.contains('\n'),
    ensures
        facts::is_line("### "@ + group_log::readme_title(title)),
        !model::begins_with("### "@ + group_log::readme_title(title), "- Chat ID: `"@),
{
    reveal_strlit("### ");
    reveal_strlit("Unknown QQ Group");
    lemma_id_mark();
    let shown = group_log::readme_title(title);
    let line = "### "@ + shown;
    assert forall|k: int| 0 <= k < line.len() implies line[k] != '\n' by {
        if k >= 4 {
            assert(line[k] == shown[k - 4]);
            if let Some(t) = title {
                if model::trimmed(t).len() > 0 {
                    let a = facts::lemma_trimmed_place(t);
                    assert(shown[k - 4] == t[a + k - 4]);
                    assert(t.contains(t[a + k - 4]));
                }
            }
        }
    }
    if let Some(t) = title {
        facts::lemma_trimmed_ends(t);
    }
    assert(line.last() == shown.last());
    if model::begins_with(line, "- Chat ID: `"@) {
        assert(line.subrange(0, 12)[0] == line[0]);
    }
}

proof fn lemma_id_line(id: i64)
    ensures
        facts::is_line(group_log::id_line(id)),
        model::begins_with(group_log::id_line(id), "- Chat ID: `"@),
{
    lemma_id_mark();
    lemma_dec_lacks_d(id as int);
    let dec = number::dec(id as int);
    let line = group_log::id_line(id);
    assert forall|k: int| 0 <= k < line.len() implies line[k] != '\n' by {
        if 12 <= k < 12 + dec.len() {
            assert(line[k] == dec[k - 12]);
            assert(dec.contains(dec[k - 12]));
        }
    }
    assert(line.subrange(0, 12) =~= "- Chat ID: `"@);
}

proof fn lemma_logs_text(days: nat)
    ensures
        lacks_d(group_log::logs_text(days)),
        is_whole(group_log::logs_text(days)),
{
    reveal_strlit("- Platform: QQ / OneBot\n- Type: group\n- Log files: ");
    reveal_strlit(" day(s)\n");
    let dec = number::dec(days as int);
    lemma_dec_lacks_d(days as int);
    lemma_lacks_d_add("- Platform: QQ / OneBot\n- Type: group\n- Log files: "@, dec);
    lemma_lacks_d_add(
        "- Platform: QQ / OneBot\n- Type: group\n- Log files: "@ + dec,
        " day(s)\n"@,
    );
}

proof fn lemma_latest_text(file: Option<Seq<char>>)
    requires
        file matches Some(f) ==> !f.contains('\n'),
    ensures
        is_whole(group_log::latest_text(file)),
        id_lines(model::lines_of(group_log::latest_text(file))) == Seq::<Seq<char>>::empty(),
{
    reveal_strlit("- Latest log: `");
    lemma_id_mark();
    match file {
        Some(f) => {
            let line = "- Latest log: `"@ + f + "`"@;
            assert forall|k: int| 0 <= k < line.len() implies line[k] != '\n' by {
                if 15 <= k < 15 + f.len() {
                    assert(line[k] == f[k - 15]);
                    assert(f.contains(f[k - 15]));
                }
            }
            if model::begins_with(line, "- Chat ID: `"@) {
                assert(line.subrange(0, 12)[2] == line[2]);
            }
            lemma_one_line(line);
        },
        None => {
            lemma_text_without_d(seq![]);
        },
    }
}

proof fn lemma_usage_literals()
    ensures
        lacks_d("- Last active: "@),
        lacks_d("\n- View history: `alma group history "@),
        lacks_d(
            " 100`\n- Search logs: `alma group search <keyword>`\n- Send message: `curl -s -X POST http://127.0.0.1:"@,
        ),
        lacks_d("/qq/group/"@),
        lacks_d("/send -H 'Content-Type: application/json' -d '{\"message\":\"...\"}'`\n\n"@),
        "/send -H 'Content-Type: application/json' -d '{\"message\":\"...\"}'`\n\n"@.len() > 0,
        "/send -H 'Content-Type: application/json' -d '{\"message\":\"...\"}'`\n\n"@.last() == '\n',
{
    reveal_strlit("- Last active: ");
    reveal_strlit("\n- View history: `alma group history ");
    reveal_strlit(
        " 100`\n- Search logs: `alma group search <keyword>`\n- Send message: `curl -s -X POST http://127.0.0.1:",
    );
    reveal_strlit("/qq/group/");
    reveal_strlit("/send -H 'Content-Type: application/json' -d '{\"message\":\"...\"}'`\n\n");
}

proof fn lemma_usage_text(id: i64, last_active: u64, bridge_port: u16, clock: ClockView)
    ensures
        lacks_d(group_log::usage_text(id, last_active, bridge_port, clock)),
        is_whole(group_log::usage_text(id, last_active, bridge_port, clock)),
{
    lemma_usage_literals();
    lemma_dec_lacks_d(id as int);
    lemma_dec_lacks_d(bridge_port as int);
    lemma_time_lacks_d(clock, last_active);
    let dec = number::dec(id as int);
    let a = "- Last active: "@ + group_log::readme_time(clock, last_active);
    lemma_lacks_d_add("- Last active: "@, group_log::readme_time(clock, last_active));
    let b = a + "\n- View history: `alma group history "@;
    lemma_lacks_d_add(a, "\n- View history: `alma group history "@);
    let c = b + dec;
    lemma_lacks_d_add(b, dec);
    let d = c
        + " 100`\n- Search logs: `alma group search <keyword>`\n- Send message: `curl -s -X POST http://127.0.0.1:"@;
    lemma_lacks_d_add(
        c,
        " 100`\n- Search logs: `alma group search <keyword>`\n- Send message: `curl -s -X POST http://127.0.0.1:"@,
    );
    let e = d + number::dec(bridge_port as int);
    lemma_lacks_d_add(d, number::dec(bridge_port as int));
    let f = e + "/qq/group/"@;
    lemma_lacks_d_add(e, "/qq/group/"@);
    let g = f + dec;
    lemma_lacks_d_add(f, dec);
    lemma_lacks_d_add(
        g,
        "/send -H 'Content-Type: application/json' -d '{\"message\":\"...\"}'`\n\n"@,
    );
}

/// The ids that a text tells.
spec fn told(s: Seq<char>) -> Seq<Seq<char>> {
    id_lines(model::lines_of(s))
}

proof fn lemma_told_add(a: Seq<char>, b: Seq<char>)
    requires
        is_whole(a),
        is_whole(b),
    ensures
        is_whole(a + b),
        told(a + b) == told(a) + told(b),
{
    lemma_text_add(a, b);
    if b.len() == 0 {
        assert(a + b =~= a);
    } else {
        assert((a + b).last() == b.last());
    }
}

/// Whole lines around a line that tells an id tell that id.
proof fn lemma_told_among(
    a: Seq<char>,
    b: Seq<char>,
    c: Seq<char>,
    d: Seq<char>,
    e: Seq<char>,
    line: Seq<char>,
)
    requires
        is_whole(a) && is_whole(b) && is_whole(c) && is_whole(d) && is_whole(e),
        told(a) == Seq::<Seq<char>>::empty(),
        told(b) == seq![line],
        told(c) == Seq::<Seq<char>>::empty(),
        told(d) == Seq::<Seq<char>>::empty(),
        told(e) == Seq::<Seq<char>>::empty(),
    ensures
        is_whole(a + b + c + d + e),
        told(a + b + c + d + e) == seq![line],
{
    lemma_told_add(a, b);
    lemma_told_add(a + b, c);
    lemma_told_add(a + b + c, d);
    lemma_told_add(a + b + c + d, e);
    let none = Seq::<Seq<char>>::empty();
    assert(none + seq![line] + none + none + none =~= seq![line]);
}

proof fn lemma_told_title(title: Option<Seq<char>>)
    requires
        title matches Some(t) ==> !t.contains('\n'),
    ensures
        is_whole("### "@ + group_log::readme_title(title) + "\n"@),
        told("### "@ + group_log::readme_title(title) + "\n"@) == Seq::<Seq<char>>::empty(),
{
    reveal_strlit("\n");
    lemma_title_line(title);
    lemma_one_line("### "@ + group_log::readme_title(title));
}

proof fn lemma_told_id(id: i64)
    ensures
        is_whole(group_log::id_line(id) + "\n"@),
        told(group_log::id_line(id) + "\n"@) == seq![group_log::id_line(id)],
{
    reveal_strlit("\n");
    lemma_id_line(id);
    lemma_one_line(group_log::id_line(id));
}

/// A group's section tells the group's id, and no other.
proof fn lemma_section_ids(
    id: i64,
    entry: EntryView,
    stats: StatsView,
    bridge_port: u16,
    clock: ClockView,
)
    requires
        entry.title matches Some(t) ==> !t.contains('\n'),
        stats.latest_file matches Some(f) ==> !f.contains('\n'),
    ensures
        is_whole(group_log::group_section(id, entry, stats, bridge_port, clock)),
        told(group_log::group_section(id, entry, stats, bridge_port, clock)) == seq![
            group_log::id_line(id),
        ],
{
    lemma_told_title(entry.title);
    lemma_told_id(id);
    lemma_logs_text(stats.days);
    lemma_text_without_d(group_log::logs_text(stats.days));
    lemma_latest_text(stats.latest_file);
    lemma_usage_text(id, entry.last_active, bridge_port, clock);
    lemma_text_without_d(group_log::usage_text(id, entry.last_active, bridge_port, clock));
    lemma_told_among(
        "### "@ + group_log::readme_title(entry.title) + "\n"@,
        group_log::id_line(id) + "\n"@,
        group_log::logs_text(stats.days),
        group_log::latest_text(stats.latest_file),
        group_log::usage_text(id, entry.last_active, bridge_port, clock),
        group_log::id_line(id),
    );
}

/// Whether the titles of groups and the names of their latest logs are of one line each.
spec fn in_lines(groups: Seq<(i64, EntryView)>, stats: Seq<(i64, StatsView)>) -> bool {
    forall|i: int|
        0 <= i < groups.len() ==> {
            &&& (#[trigger] groups[i]).1.title matches Some(t) ==> !t.contains('\n')
            &&& group_log::logs_of(stats, groups[i].0).latest_file matches Some(f) ==> !f.contains(
                '\n',
            )
        }
}

proof fn lemma_in_lines_before(groups: Seq<(i64, EntryView)>, stats: Seq<(i64, StatsView)>)
    requires
        in_lines(groups, stats),
        groups.len() > 0,
    ensures
        in_lines(groups.drop_last(), stats),
        groups.last().1.title matches Some(t) ==> !t.contains('\n'),
        group_log::logs_of(stats, groups.last().0).latest_file matches Some(f) ==> !f.contains('\n'),
{
    let before = groups.drop_last();
    assert(groups[groups.len() - 1] == groups.last());
    assert forall|i: int| 0 <= i < before.len() implies {
        &&& (#[trigger] before[i]).1.title matches Some(t) ==> !t.contains('\n')
        &&& group_log::logs_of(stats, before[i].0).latest_file matches Some(f) ==> !f.contains('\n')
    } by {
        assert(before[i] == groups[i]);
    }
}

/// One more section tells one more id.
proof fn lemma_one_more(groups: Seq<(i64, EntryView)>, a: Seq<char>, b: Seq<char>)
    requires
        groups.len() > 0,
        is_whole(a),
        is_whole(b),
        told(a) == lines_of_groups(groups.drop_last()),
        told(b) == seq![group_log::id_line(groups.last().0)],
    ensures
        is_whole(a + b),
        told(a + b) == lines_of_groups(groups),
{
    lemma_told_add(a, b);
    assert(told(a + b) =~= lines_of_groups(groups));
}

/// The sections of groups tell their ids in order.
proof fn lemma_sections_ids(
    groups: Seq<(i64, EntryView)>,
    stats: Seq<(i64, StatsView)>,
    bridge_port: u16,
    clock: ClockView,
)
    requires
        in_lines(groups, stats),
    ensures
        is_whole(group_log::group_sections(groups, stats, bridge_port, clock)),
        told(group_log::group_sections(groups, stats, bridge_port, clock)) == lines_of_groups(
            groups,
        ),
    decreases groups.len(),
{
    if groups.len() == 0 {
        lemma_text_without_d(seq![]);
        assert(lines_of_groups(groups) =~= seq![]);
    } else {
        let before = groups.drop_last();
        let (id, entry) = groups.last();
        lemma_in_lines_before(groups, stats);
        lemma_sections_ids(before, stats, bridge_port, clock);
        let logs = group_log::logs_of(stats, id);
        lemma_section_ids(id, entry, logs, bridge_port, clock);
        lemma_one_more(
            groups,
            group_log::group_sections(before, stats, bridge_port, clock),
            group_log::group_section(id, entry, logs, bridge_port, clock),
        );
    }
}

proof fn lemma_head_opening()
    ensures
        lacks_d(
            "# QQ Groups\n\nAuto-generated by alma-onebot-bridge. Alma's `alma group list`, `alma group history`, `alma group search`, and local-log part of `alma group context` read this directory.\n\n"@,
        ),
{
    reveal_strlit(
        "# QQ Groups\n\nAuto-generated by alma-onebot-bridge. Alma's `alma group list`, `alma group history`, `alma group search`, and local-log part of `alma group context` read this directory.\n\n",
    );
}

proof fn lemma_head_sending()
    ensures
        lacks_d(
            "For QQ / OneBot groups, `alma group send` is Telegram-only. To actively send a QQ group message, use the bridge endpoint from Alma tools:\n\n"@,
        ),
{
    reveal_strlit(
        "For QQ / OneBot groups, `alma group send` is Telegram-only. To actively send a QQ group message, use the bridge endpoint from Alma tools:\n\n",
    );
}

proof fn lemma_head_request()
    ensures
        lacks_d("```bash\ncurl -s -X POST http://127.0.0.1:"@),
        lacks_d(
            "/qq/group/<chatId>/send \\\n  -H 'Content-Type: application/json' \\\n  -d '{\"message\":\"...\"}'\n```\n\n"@,
        ),
{
    reveal_strlit("```bash\ncurl -s -X POST http://127.0.0.1:");
    reveal_strlit(
        "/qq/group/<chatId>/send \\\n  -H 'Content-Type: application/json' \\\n  -d '{\"message\":\"...\"}'\n```\n\n",
    );
}

proof fn lemma_head_access()
    ensures
        lacks_d(
            "If the bridge is exposed beyond loopback, set `onebot.access_token` in config.toml; loopback requests are accepted so Alma can call the endpoint locally without leaking the token into prompts.\n\n"@,
        ),
        "If the bridge is exposed beyond loopback, set `onebot.access_token` in config.toml; loopback requests are accepted so Alma can call the endpoint locally without leaking the token into prompts.\n\n"@.len()
            > 0,
        "If the bridge is exposed beyond loopback, set `onebot.access_token` in config.toml; loopback requests are accepted so Alma can call the endpoint locally without leaking the token into prompts.\n\n"@.last()
            == '\n',
{
    reveal_strlit(
        "If the bridge is exposed beyond loopback, set `onebot.access_token` in config.toml; loopback requests are accepted so Alma can call the endpoint locally without leaking the token into prompts.\n\n",
    );
}

proof fn lemma_head_ids(bridge_port: u16)
    ensures
        is_whole(group_log::readme_head(bridge_port)),
        told(group_log::readme_head(bridge_port)) == Seq::<Seq<char>>::empty(),
{
    lemma_head_opening();
    lemma_head_sending();
    lemma_head_request();
    lemma_head_access();
    let port = number::dec(bridge_port as int);
    lemma_dec_lacks_d(bridge_port as int);
    let a =
        "# QQ Groups\n\nAuto-generated by alma-onebot-bridge. Alma's `alma group list`, `alma group history`, `alma group search`, and local-log part of `alma group context` read this directory.\n\n"@;
    let b =
        "For QQ / OneBot groups, `alma group send` is Telegram-only. To actively send a QQ group message, use the bridge endpoint from Alma tools:\n\n"@;
    let c = "```bash\ncurl -s -X POST http://127.0.0.1:"@;
    let d =
        "/qq/group/<chatId>/send \\\n  -H 'Content-Type: application/json' \\\n  -d '{\"message\":\"...\"}'\n```\n\n"@;
    let e =
        "If the bridge is exposed beyond loopback, set `onebot.access_token` in config.toml; loopback requests are accepted so Alma can call the endpoint locally without leaking the token into prompts.\n\n"@;
    lemma_lacks_d_add(a, b);
    lemma_lacks_d_add(a + b, c);
    lemma_lacks_d_add(a + b + c, port);
    lemma_lacks_d_add(a + b + c + port, d);
    lemma_lacks_d_add(a + b + c + port + d, e);
    assert((a + b + c + port + d + e).last() == e.last());
    lemma_text_without_d(group_log::readme_head(bridge_port));
}

/// Whether a group is among directory entries.
pub open spec fn has_group(entries: Seq<EntryView>, group_id: i64) -> bool {
    exists|i: int| 0 <= i < entries.len() && (#[trigger] entries[i]).group_id == group_id
}

/// The known groups are in order, and each has an entry of its own.
proof fn lemma_known(entries: Seq<EntryView>, id: i64)
    ensures
        ({
            let known = group_log::known_groups(entries);
            &&& id_table::is_sorted(known)
            &&& id_table::holds(known, id) == has_group(entries, id)
            &&& id_table::holds(known, id) ==> id_table::value(known, id).group_id == id
                && entries.contains(id_table::value(known, id))
        }),
    decreases entries.len(),
{
    if entries.len() > 0 {
        let before = entries.drop_last();
        let last = entries.last();
        lemma_known(before, id);
        let known = group_log::known_groups(before);
        id_table::lemma_with_is_sorted(known, last.group_id, last);
        id_table::law_value_is_kept(known, last.group_id, last, id);
        assert(entries[entries.len() - 1] == last);
        if has_group(before, id) {
            let i = choose|i: int| 0 <= i < before.len() && (#[trigger] before[i]).group_id == id;
            assert(entries[i].group_id == id);
        }
        if has_group(entries, id) && last.group_id != id {
            let i = choose|i: int| 0 <= i < entries.len() && (#[trigger] entries[i]).group_id == id;
            assert(before[i].group_id == id);
        }
        if id != last.group_id && id_table::holds(known, id) {
            let e = id_table::value(known, id);
            let i = choose|i: int| 0 <= i < before.len() && before[i] == e;
            assert(entries[i] == e);
        }
    }
}

/// The groups with those that have logs are in order. The known ones keep their entries.
proof fn lemma_logged(groups: Seq<(i64, EntryView)>, stats: Seq<(i64, StatsView)>, id: i64)
    requires
        id_table::is_sorted(groups),
    ensures
        ({
            let all = group_log::with_logged(groups, stats);
            let logged = exists|i: int| 0 <= i < stats.len() && (#[trigger] stats[i]).0 == id;
            &&& id_table::is_sorted(all)
            &&& id_table::holds(all, id) == (id_table::holds(groups, id) || logged)
            &&& id_table::holds(groups, id) ==> id_table::value(all, id) == id_table::value(
                groups,
                id,
            )
            &&& id_table::holds(all, id) && !id_table::holds(groups, id) ==> id_table::value(all, id)
                == directory::unknown_group(id)
        }),
    decreases stats.len(),
{
    if stats.len() > 0 {
        let before = stats.drop_last();
        let last = stats.last().0;
        lemma_logged(groups, before, id);
        lemma_logged(groups, before, last);
        let some = group_log::with_logged(groups, before);
        id_table::lemma_with_is_sorted(some, last, directory::unknown_group(last));
        id_table::law_value_is_kept(some, last, directory::unknown_group(last), id);
        assert(stats[stats.len() - 1].0 == last);
        if exists|i: int| 0 <= i < before.len() && (#[trigger] before[i]).0 == id {
            let i = choose|i: int| 0 <= i < before.len() && (#[trigger] before[i]).0 == id;
            assert(stats[i].0 == id);
        }
        if exists|i: int| 0 <= i < stats.len() && (#[trigger] stats[i]).0 == id {
            let i = choose|i: int| 0 <= i < stats.len() && (#[trigger] stats[i]).0 == id;
            if id != last {
                assert(before[i].0 == id);
            }
        }
    }
}

/// What is listed: the groups that have an entry or logs.
proof fn lemma_listed(entries: Seq<EntryView>, stats: Seq<(i64, StatsView)>, id: i64)
    requires
        id_table::is_sorted(stats),
    ensures
        ({
            let groups = group_log::listed_groups(entries, stats);
            &&& id_table::is_sorted(groups)
            &&& id_table::holds(groups, id) == (has_group(entries, id) || id_table::holds(stats, id))
            &&& id_table::holds(groups, id) ==> id_table::value(groups, id)
                == directory::unknown_group(id) || entries.contains(id_table::value(groups, id))
        }),
{
    lemma_known(entries, id);
    lemma_logged(group_log::known_groups(entries), stats, id);
    if exists|i: int| 0 <= i < stats.len() && (#[trigger] stats[i]).0 == id {
        let i = choose|i: int| 0 <= i < stats.len() && (#[trigger] stats[i]).0 == id;
        id_table::lemma_index_of(stats, i);
    }
    if id_table::holds(stats, id) {
        id_table::lemma_position(stats, id, 0);
        assert(stats[id_table::position(stats, id, 0)].0 == id);
    }
}

/// Whether the titles of entries are of one line each.
pub open spec fn has_plain_titles(entries: Seq<EntryView>) -> bool {
    forall|i: int|
        0 <= i < entries.len() ==> ((#[trigger] entries[i]).title matches Some(t) ==> !t.contains(
            '\n',
        ))
}

/// Whether the names of latest logs are of one line each.
pub open spec fn has_plain_files(stats: Seq<(i64, StatsView)>) -> bool {
    forall|i: int|
        0 <= i < stats.len() ==> ((#[trigger] stats[i]).1.latest_file matches Some(f)
            ==> !f.contains('\n'))
}

proof fn lemma_listed_in_lines(entries: Seq<EntryView>, stats: Seq<(i64, StatsView)>)
    requires
        id_table::is_sorted(stats),
        has_plain_titles(entries),
        has_plain_files(stats),
    ensures
        in_lines(group_log::listed_groups(entries, stats), stats),
{
    let groups = group_log::listed_groups(entries, stats);
    lemma_listed(entries, stats, 0);
    assert forall|i: int| 0 <= i < groups.len() implies {
        &&& (#[trigger] groups[i]).1.title matches Some(t) ==> !t.contains('\n')
        &&& group_log::logs_of(stats, groups[i].0).latest_file matches Some(f) ==> !f.contains('\n')
    } by {
        let id = groups[i].0;
        let entry = groups[i].1;
        lemma_listed(entries, stats, id);
        id_table::lemma_index_of(groups, i);
        if entries.contains(entry) {
            let k = choose|k: int| 0 <= k < entries.len() && entries[k] == entry;
            assert(entries[k].title == entry.title);
        }
        if id_table::holds(stats, id) {
            id_table::lemma_position(stats, id, 0);
            assert(stats[id_table::position(stats, id, 0)].1 == id_table::value(stats, id));
        }
    }
}

proof fn lemma_body_literals()
    ensures
        is_whole("## Groups\n\n"@),
        told("## Groups\n\n"@) == Seq::<Seq<char>>::empty(),
        is_whole("No QQ group logs yet.\n"@),
        told("No QQ group logs yet.\n"@) == Seq::<Seq<char>>::empty(),
        model::lines_of("No QQ group logs yet.\n"@) == seq!["No QQ group logs yet."@],
{
    reveal_strlit("## Groups\n\n");
    lemma_text_without_d("## Groups\n\n"@);
    lemma_none_line();
    lemma_text_without_d("No QQ group logs yet.\n"@);
    lemma_one_line("No QQ group logs yet."@);
}

proof fn lemma_none_line()
    ensures
        is_whole("No QQ group logs yet.\n"@),
        lacks_d("No QQ group logs yet.\n"@),
        "No QQ group logs yet.\n"@ == "No QQ group logs yet."@ + "\n"@,
        facts::is_line("No QQ group logs yet."@),
{
    reveal_strlit("No QQ group logs yet.\n");
    reveal_strlit("No QQ group logs yet.");
    reveal_strlit("\n");
    assert("No QQ group logs yet.\n"@ =~= "No QQ group logs yet."@ + "\n"@);
}

/// The directory tells the ids of the listed groups.
proof fn lemma_body_ids(
    entries: Seq<EntryView>,
    stats: Seq<(i64, StatsView)>,
    bridge_port: u16,
    clock: ClockView,
)
    requires
        id_table::is_sorted(stats),
        has_plain_titles(entries),
        has_plain_files(stats),
    ensures
        ({
            let groups = group_log::listed_groups(entries, stats);
            let body = group_log::readme_body(entries, stats, bridge_port, clock);
            &&& is_whole(body)
            &&& told(body) == lines_of_groups(groups)
            &&& groups.len() == 0 ==> model::lines_of(body).contains("No QQ group logs yet."@)
        }),
{
    let groups = group_log::listed_groups(entries, stats);
    let head = group_log::readme_head(bridge_port);
    lemma_head_ids(bridge_port);
    lemma_body_literals();
    if groups.len() == 0 {
        lemma_told_add(head, "No QQ group logs yet.\n"@);
        lemma_text_add(head, "No QQ group logs yet.\n"@);
        let lines = model::lines_of(head) + seq!["No QQ group logs yet."@];
        assert(lines[lines.len() - 1] == "No QQ group logs yet."@);
        assert(told(head + "No QQ group logs yet.\n"@) =~= lines_of_groups(groups));
    } else {
        lemma_listed_in_lines(entries, stats);
        lemma_sections_ids(groups, stats, bridge_port, clock);
        let sections = group_log::group_sections(groups, stats, bridge_port, clock);
        lemma_told_add(head, "## Groups\n\n"@);
        lemma_told_add(head + "## Groups\n\n"@, sections);
        assert(told(head + "## Groups\n\n"@ + sections) =~= lines_of_groups(groups));
    }
}

proof fn lemma_marks()
    ensures
        facts::is_line(BRIDGE_README_START@),
        facts::is_line(BRIDGE_README_END@),
        lacks_d(BRIDGE_README_START@ + "\n"@),
        lacks_d(BRIDGE_README_END@ + "\n"@),
{
    reveal_strlit("<!-- alma-onebot-bridge:start -->");
    reveal_strlit("<!-- alma-onebot-bridge:end -->");
    reveal_strlit("\n");
    lemma_lacks_d_add(BRIDGE_README_START@, "\n"@);
    lemma_lacks_d_add(BRIDGE_README_END@, "\n"@);
}

/// The lines of the bridge's part: the marks, and between them those of the directory.
proof fn lemma_part_lines(body: Seq<char>)
    requires
        is_whole(body),
    ensures
        model::lines_of(group_log::bridge_section(body)) == seq![BRIDGE_README_START@]
            + model::lines_of(body) + seq![BRIDGE_README_END@],
        told(group_log::bridge_section(body)) == told(body),
{
    lemma_marks();
    lemma_one_line(BRIDGE_README_START@);
    lemma_one_line(BRIDGE_README_END@);
    let a = BRIDGE_README_START@ + "\n"@;
    let b = BRIDGE_README_END@ + "\n"@;
    assert(is_whole(a) && is_whole(b)) by {
        reveal_strlit("\n");
    }
    lemma_text_without_d(a);
    lemma_text_without_d(b);
    assert(group_log::bridge_section(body) =~= a + body + b);
    lemma_told_add(a, body);
    lemma_told_add(a + body, b);
    lemma_text_add(a, body);
    lemma_text_add(a + body, b);
    assert(told(a + body + b) =~= told(body));
}

/// The bridge's part of the README lists each group that has a directory entry or logs once, in
/// the order of the ids, and no other. It begins with the line of the mark that begins it and
/// ends with the line of the mark that ends it, and where there is no group it says so. No title
/// and no name of a latest log may hold a line feed.
pub proof fn law_each_group_is_listed_once(
    entries: Seq<EntryView>,
    stats: Seq<(i64, StatsView)>,
    bridge_port: u16,
    clock: ClockView,
)
    requires
        id_table::is_sorted(stats),
        has_plain_titles(entries),
        has_plain_files(stats),
    ensures
        ({
            let groups = group_log::listed_groups(entries, stats);
            let part = group_log::bridge_section(
                group_log::readme_body(entries, stats, bridge_port, clock),
            );
            let lines = model::lines_of(part);
            &&& id_table::is_sorted(groups)
            &&& forall|id: i64| #[trigger]
                id_table::holds(groups, id) <==> has_group(entries, id) || id_table::holds(stats, id)
            &&& id_lines(lines) == lines_of_groups(groups)
            &&& lines.len() > 0
            &&& lines[0] == BRIDGE_README_START@
            &&& lines.last() == BRIDGE_README_END@
            &&& groups.len() == 0 ==> lines.contains("No QQ group logs yet."@)
        }),
{
    let groups = group_log::listed_groups(entries, stats);
    let body = group_log::readme_body(entries, stats, bridge_port, clock);
    let lines = model::lines_of(group_log::bridge_section(body));
    lemma_listed(entries, stats, 0);
    assert forall|id: i64| #[trigger]
        id_table::holds(groups, id) <==> has_group(entries, id) || id_table::holds(stats, id) by {
        lemma_listed(entries, stats, id);
    }
    lemma_body_ids(entries, stats, bridge_port, clock);
    lemma_part_lines(body);
    if groups.len() == 0 {
        let i = model::lines_of(body).index_of("No QQ group logs yet."@);
        assert(lines[i + 1] == "No QQ group logs yet."@);
    }
}

/// Two tables in order that hold the same ids with the same values are alike up to an index.
proof fn lemma_same_prefix(a: Seq<(i64, EntryView)>, b: Seq<(i64, EntryView)>, n: int)
    requires
        id_table::is_sorted(a),
        id_table::is_sorted(b),
        forall|id: i64| #[trigger] id_table::holds(a, id) == id_table::holds(b, id),
        forall|id: i64|
            #[trigger] id_table::holds(a, id) ==> id_table::value(a, id) == id_table::value(b, id),
        0 <= n <= a.len(),
    ensures
        n <= b.len(),
        forall|i: int| 0 <= i < n ==> #[trigger] a[i] == b[i],
    decreases n,
{
    if n > 0 {
        let i = n - 1;
        lemma_same_prefix(a, b, i);
        let id = a[i].0;
        id_table::lemma_index_of(a, i);
        assert(id_table::holds(b, id));
        id_table::lemma_position(b, id, 0);
        let q = id_table::position(b, id, 0);
        if q < i {
            assert(a[q] == b[q]);
            assert(a[q].0 < a[i].0);
        } else if q > i {
            assert(b[i].0 < b[q].0);
            id_table::lemma_index_of(b, i);
            assert(id_table::holds(a, b[i].0));
            id_table::lemma_position(a, b[i].0, 0);
            let k = id_table::position(a, b[i].0, 0);
            if k < i {
                assert(a[k] == b[k]);
                assert(b[k].0 < b[i].0);
            } else if k > i {
                assert(a[i].0 < a[k].0);
            }
        }
        assert(a[i] == (id, id_table::value(a, id)));
        assert(b[i] == (id, id_table::value(b, id)));
    }
}

/// The README does not depend on the order of the directory entries, where no group has two.
pub proof fn law_order_of_entries_is_of_no_account(
    entries: Seq<EntryView>,
    others: Seq<EntryView>,
    stats: Seq<(i64, StatsView)>,
    bridge_port: u16,
    clock: ClockView,
)
    requires
        entries.to_multiset() == others.to_multiset(),
        forall|i: int, j: int|
            #![trigger entries[i], entries[j]]
            0 <= i < j < entries.len() ==> entries[i].group_id != entries[j].group_id,
    ensures
        group_log::readme_body(entries, stats, bridge_port, clock) == group_log::readme_body(
            others,
            stats,
            bridge_port,
            clock,
        ),
{
    entries.to_multiset_ensures();
    others.to_multiset_ensures();
    let a = group_log::known_groups(entries);
    let b = group_log::known_groups(others);
    lemma_known(entries, 0);
    lemma_known(others, 0);
    assert forall|id: i64| #[trigger] id_table::holds(a, id) == id_table::holds(b, id) && (
    id_table::holds(a, id) ==> id_table::value(a, id) == id_table::value(b, id)) by {
        lemma_same_group(entries, others, id);
    }
    assert forall|id: i64| #[trigger] id_table::holds(b, id) == id_table::holds(a, id) && (
    id_table::holds(b, id) ==> id_table::value(b, id) == id_table::value(a, id)) by {
        lemma_same_group(entries, others, id);
    }
    lemma_same_prefix(a, b, a.len() as int);
    lemma_same_prefix(b, a, b.len() as int);
    assert(a =~= b);
}

proof fn lemma_same_group(entries: Seq<EntryView>, others: Seq<EntryView>, id: i64)
    requires
        entries.to_multiset() == others.to_multiset(),
        forall|i: int, j: int|
            #![trigger entries[i], entries[j]]
            0 <= i < j < entries.len() ==> entries[i].group_id != entries[j].group_id,
    ensures
        ({
            let a = group_log::known_groups(entries);
            let b = group_log::known_groups(others);
            &&& id_table::holds(a, id) == id_table::holds(b, id)
            &&& id_table::holds(a, id) ==> id_table::value(a, id) == id_table::value(b, id)
        }),
{
    entries.to_multiset_ensures();
    others.to_multiset_ensures();
    let a = group_log::known_groups(entries);
    let b = group_log::known_groups(others);
    lemma_known(entries, id);
    lemma_known(others, id);
    if has_group(entries, id) {
        let i = choose|i: int| 0 <= i < entries.len() && (#[trigger] entries[i]).group_id == id;
        assert(entries.contains(entries[i]));
        assert(others.to_multiset().count(entries[i]) > 0);
        assert(others.contains(entries[i]));
        let j = choose|j: int| 0 <= j < others.len() && others[j] == entries[i];
        assert(others[j].group_id == id);
    }
    if has_group(others, id) {
        let j = choose|j: int| 0 <= j < others.len() && (#[trigger] others[j]).group_id == id;
        assert(others.contains(others[j]));
        assert(entries.to_multiset().count(others[j]) > 0);
        assert(entries.contains(others[j]));
        let i = choose|i: int| 0 <= i < entries.len() && entries[i] == others[j];
        assert(entries[i].group_id == id);
        let e = id_table::value(a, id);
        let f = id_table::value(b, id);
        assert(others.contains(f));
        assert(entries.to_multiset().count(f) > 0);
        assert(entries.contains(f));
        let p = choose|p: int| 0 <= p < entries.len() && entries[p] == e;
        let q = choose|q: int| 0 <= q < entries.len() && entries[q] == f;
        assert(p == q);
    }
}

} // verus!
