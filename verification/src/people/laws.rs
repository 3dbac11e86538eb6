//! What holds of profiles.
use super::cards;
use super::frontmatter;
use super::profile;
use crate::text::facts;
use crate::text::model;
use crate::text::number;
use vstd::prelude::*;

verus! {

/// Whether a text can stand in a line of its own: it is not empty, has no line feed, and no
/// whitespace at its ends.
pub open spec fn is_plain(s: Seq<char>) -> bool {
    &&& s.len() > 0
    &&& !s.contains('\n')
    &&& !model::is_whitespace(s[0])
    &&& !model::is_whitespace(s.last())
}

/// Whether a group and a card can be read back from their line.
pub open spec fn is_plain_card(entry: (Seq<char>, Seq<char>)) -> bool {
    is_plain(entry.0) && is_plain(entry.1) && !entry.0.contains(':')
}

proof fn lemma_card_texts()
    ensures
        cards::CARDS_HEADING@ =~= seq!['-', ' ', '群', '名', '片', ':'],
        cards::CARD_INDENT@ =~= seq![' ', ' ', '-', ' '],
        ": "@ =~= seq![':', ' '],
        ":"@ =~= seq![':'],
        "- "@ =~= seq!['-', ' '],
{
    reveal_strlit("- 群名片:");
    reveal_strlit("  - ");
    reveal_strlit(": ");
    reveal_strlit(":");
    reveal_strlit("- ");
}

/// A card's line names the card.
proof fn lemma_card_line(entry: (Seq<char>, Seq<char>))
    requires
        is_plain_card(entry),
    ensures
        facts::is_line(cards::card_line(entry)),
        cards::card_line(entry).len() > 0,
        cards::in_section(cards::card_line(entry)),
        model::trimmed(cards::card_line(entry)).len() > 0,
        cards::entry_of(model::trimmed(cards::card_line(entry))) == Some(entry),
{
    lemma_card_texts();
    let (group, card) = entry;
    let line = cards::card_line(entry);
    let core = "- "@ + group + ": "@ + card;
    let lead = seq![' ', ' '];
    assert(line =~= lead + core + seq![]);
    assert(line.subrange(0, 4) =~= cards::CARD_INDENT@);
    assert forall|k: int| 0 <= k < line.len() implies line[k] != '\n' by {
        if 4 <= k < 4 + group.len() {
            assert(line[k] == group[k - 4]);
        } else if k >= 6 + group.len() {
            assert(line[k] == card[k - 6 - group.len()]);
        }
    }
    assert(core.last() == card.last());
    facts::lemma_trimmed_core(lead, core, seq![]);
    facts::lemma_trimmed_core(seq![], core, seq![]);
    assert(Seq::<char>::empty() + core + Seq::<char>::empty() =~= core);
    assert(core.subrange(0, 2) =~= "- "@);
    let e = group + ": "@ + card;
    assert(core.skip(2) =~= e);
    let at = group.len() as int;
    assert(e.subrange(at, at + 1) =~= ":"@);
    assert forall|j: int| 0 <= j < at implies !model::occurs_at(e, ":"@, j) by {
        if model::occurs_at(e, ":"@, j) {
            assert(e.subrange(j, j + 1)[0] == ':');
            assert(group[j] == ':');
        }
    }
    facts::lemma_find_is(e, ":"@, 0, at);
    assert(e.take(at) =~= group);
    assert(e.skip(at + 1) =~= seq![' '] + card + seq![]);
    facts::lemma_trimmed_core(seq![' '], card, seq![]);
    facts::lemma_trimmed_core(seq![], group, seq![]);
    assert(Seq::<char>::empty() + group + Seq::<char>::empty() =~= group);
}

/// A card of a group behind all others is put at the end.
proof fn lemma_with_last_card(
    known: Seq<(Seq<char>, Seq<char>)>,
    group: Seq<char>,
    card: Seq<char>,
    from: int,
)
    requires
        0 <= from <= known.len(),
        forall|i: int| 0 <= i < known.len() ==> model::precedes((#[trigger] known[i]).0, group),
    ensures
        cards::position(known, group, from) == known.len(),
    decreases known.len() - from,
{
    if from < known.len() {
        assert(model::precedes(known[from].0, group));
        lemma_with_last_card(known, group, card, from + 1);
    }
}

proof fn lemma_section_is_read(all: Seq<(Seq<char>, Seq<char>)>, from: int)
    requires
        cards::is_sorted(all),
        forall|i: int| 0 <= i < all.len() ==> is_plain_card(#[trigger] all[i]),
        0 <= from <= all.len(),
    ensures
        cards::with_lines(
            all.take(from),
            cards::section_lines(all),
            from + 1,
            (all.len() + 1) as int,
        ) == all,
        cards::section_end(cards::section_lines(all), from + 1) == all.len() + 1,
    decreases all.len() - from,
{
    let lines = cards::section_lines(all);
    if from == all.len() {
        assert(all.take(from) =~= all);
    } else {
        let entry = all[from];
        assert(is_plain_card(entry));
        assert(lines[from + 1] == cards::card_line(entry));
        lemma_card_line(entry);
        let known = all.take(from);
        assert forall|i: int| 0 <= i < known.len() implies model::precedes(
            (#[trigger] known[i]).0,
            entry.0,
        ) by {
            assert(known[i] == all[i]);
            assert(model::precedes(all[i].0, all[from].0));
        }
        lemma_with_last_card(known, entry.0, entry.1, 0);
        assert(cards::with_card(known, entry.0, entry.1) =~= all.take(from + 1));
        lemma_section_is_read(all, from + 1);
    }
}

/// Cards that were written into a section are read back from it.
pub proof fn law_written_cards_are_read_back(all: Seq<(Seq<char>, Seq<char>)>)
    requires
        all.len() > 0,
        cards::is_sorted(all),
        forall|i: int| 0 <= i < all.len() ==> is_plain_card(#[trigger] all[i]),
    ensures
        cards::cards_in(seq![], model::lines_of(cards::section(all)), 0) == all,
{
    let lines = cards::section_lines(all);
    lemma_card_texts();
    assert forall|i: int| 0 <= i < lines.len() implies facts::is_line(#[trigger] lines[i]) by {
        if i > 0 {
            assert(is_plain_card(all[i - 1]));
            lemma_card_line(all[i - 1]);
        }
    }
    assert(is_plain_card(all[all.len() - 1]));
    lemma_card_line(all[all.len() - 1]);
    facts::lemma_lines_of_joined(seq![], lines);
    assert(Seq::<char>::empty() + cards::section(all) =~= cards::section(all));
    let heading = cards::CARDS_HEADING@;
    facts::lemma_trimmed_core(seq![], heading, seq![]);
    assert(Seq::<char>::empty() + heading + Seq::<char>::empty() =~= heading);
    lemma_section_is_read(all, 0);
    assert(all.take(0) =~= seq![]);
    reveal_with_fuel(cards::cards_in, 2);
}

/// Removing the sections of cards leaves no section behind: the section itself leaves nothing.
pub proof fn law_section_leaves_no_notes(all: Seq<(Seq<char>, Seq<char>)>)
    requires
        all.len() > 0,
        cards::is_sorted(all),
        forall|i: int| 0 <= i < all.len() ==> is_plain_card(#[trigger] all[i]),
    ensures
        cards::without_sections(cards::section(all)) == Seq::<char>::empty(),
{
    let lines = cards::section_lines(all);
    lemma_card_texts();
    assert forall|i: int| 0 <= i < lines.len() implies facts::is_line(#[trigger] lines[i]) by {
        if i > 0 {
            assert(is_plain_card(all[i - 1]));
            lemma_card_line(all[i - 1]);
        }
    }
    assert(is_plain_card(all[all.len() - 1]));
    lemma_card_line(all[all.len() - 1]);
    facts::lemma_lines_of_joined(seq![], lines);
    assert(Seq::<char>::empty() + cards::section(all) =~= cards::section(all));
    let heading = cards::CARDS_HEADING@;
    facts::lemma_trimmed_core(seq![], heading, seq![]);
    assert(Seq::<char>::empty() + heading + Seq::<char>::empty() =~= heading);
    lemma_section_is_read(all, 0);
    reveal_with_fuel(cards::lines_outside, 2);
}

proof fn lemma_field_texts()
    ensures
        "---\n"@ =~= "---"@ + "\n"@,
        "---"@ =~= seq!['-', '-', '-'],
        "\n"@ =~= seq!['\n'],
        "telegram_id: \""@.len() > 0,
        "telegram_id: \""@[0] == 't',
        !"telegram_id: \""@.contains('\n'),
        "qq_id: \""@ =~= seq!['q', 'q', '_', 'i', 'd', ':', ' ', '"'],
        "qq_id"@ + ":"@ =~= seq!['q', 'q', '_', 'i', 'd', ':'],
        "\""@ =~= seq!['"'],
{
    reveal_strlit("---\n");
    reveal_strlit("---");
    reveal_strlit("\n");
    reveal_strlit("telegram_id: \"");
    reveal_strlit("qq_id: \"");
    reveal_strlit("qq_id");
    reveal_strlit(":");
    reveal_strlit("\"");
}

proof fn lemma_dec_is_plain(i: int)
    ensures
        is_plain(number::dec(i)),
        !number::dec(i).contains('"'),
        number::dec(i)[0] != '"',
        number::dec(i).last() != '"',
{
    let d = number::dec(i);
    if i < 0 {
        number::lemma_dec_nat_digits((-i) as nat);
        let n = number::dec_nat((-i) as nat);
        assert forall|k: int| 0 <= k < d.len() implies d[k] != '\n' && d[k] != '"'
            && !model::is_whitespace(d[k]) by {
            if k > 0 {
                assert(d[k] == n[k - 1]);
                assert(number::is_digit(n[k - 1]));
            }
        }
    } else {
        number::lemma_dec_nat_digits(i as nat);
        assert forall|k: int| 0 <= k < d.len() implies d[k] != '\n' && d[k] != '"'
            && !model::is_whitespace(d[k]) by {
            assert(number::is_digit(number::dec_nat(i as nat)[k]));
        }
    }
}

/// The line `qq_id: "ID"` gives the id.
proof fn lemma_id_line(id: Seq<char>)
    requires
        is_plain(id),
        !id.contains('"'),
    ensures
        ({
            let line = "qq_id: \""@ + id + "\""@;
            &&& facts::is_line(line)
            &&& line != "---"@
            &&& model::begins_with(line, "qq_id"@ + ":"@)
            &&& frontmatter::unquoted(
                model::trimmed(model::trimmed_start_text(line, "qq_id"@ + ":"@)),
            ) == id
        }),
{
    lemma_field_texts();
    let prefix = "qq_id"@ + ":"@;
    let line = "qq_id: \""@ + id + "\""@;
    let quoted = seq!['"'] + id + seq!['"'];
    assert(line.subrange(0, 6) =~= prefix);
    let rest = seq![' '] + quoted + seq![];
    assert(line.skip(6) =~= rest);
    assert(!model::begins_with(rest, prefix)) by {
        if model::begins_with(rest, prefix) {
            assert(rest.subrange(0, 6)[0] == ' ');
        }
    }
    reveal_with_fuel(model::trimmed_start_text, 2);
    assert(model::trimmed_start_text(line, prefix) == rest);
    facts::lemma_trimmed_core(seq![' '], quoted, seq![]);
    reveal_with_fuel(model::trimmed_start_char, 2);
    reveal_with_fuel(model::trimmed_end_char, 2);
    assert(quoted.skip(1) =~= id + seq!['"']);
    assert(id.contains(id[0]));
    assert(id.contains(id.last()));
    assert((id + seq!['"']).drop_last() =~= id);
    assert forall|k: int| 0 <= k < line.len() implies line[k] != '\n' by {
        if 8 <= k < 8 + id.len() {
            assert(line[k] == id[k - 8]);
        }
    }
    assert(line[0] != "---"@[0]);
}

/// The first two lines of a frontmatter.
proof fn lemma_front_of(a: Seq<char>, b: Seq<char>, tail: Seq<char>)
    requires
        facts::is_line(a),
        facts::is_line(b),
        a != "---"@,
        b != "---"@,
    ensures
        ({
            let front = frontmatter::front_lines("---\n"@ + (lines_text(seq![a, b]) + tail));
            front.len() >= 2 && front[0] == a && front[1] == b
        }),
{
    lemma_field_texts();
    let fence = "---"@;
    let nl = "\n"@;
    let two = seq![a, b];
    let middle = lines_text(two) + tail;
    let content = "---\n"@ + middle;
    assert(content =~= Seq::<char>::empty() + (fence + nl + middle));
    facts::lemma_lines_step(seq![], fence, middle);
    lemma_lines_of_text("---\n"@, two, tail);
    let lines = model::lines_of(content);
    let rest = model::lines_from(content, ("---\n"@.len() + lines_text(two).len()) as int);
    assert(lines =~= seq![fence] + (two + rest));
    assert(lines[1] == a);
    assert(lines[2] == b);
    assert(content.subrange(0, 4) =~= "---\n"@);
    reveal_with_fuel(frontmatter::fence_from, 3);
    frontmatter::lemma_fence(lines, 3);
}

proof fn lemma_telegram_line(id: Seq<char>)
    requires
        is_plain(id),
    ensures
        ({
            let line = "telegram_id: \""@ + id + "\""@;
            &&& facts::is_line(line)
            &&& line != "---"@
            &&& !model::begins_with(line, "qq_id"@ + ":"@)
        }),
{
    lemma_field_texts();
    let line = "telegram_id: \""@ + id + "\""@;
    let n = "telegram_id: \""@.len();
    assert forall|k: int| 0 <= k < line.len() implies line[k] != '\n' by {
        if k < n {
            assert("telegram_id: \""@.contains("telegram_id: \""@[k]));
        } else if k < n + id.len() {
            assert(line[k] == id[k - n]);
        }
    }
    assert(line[0] == 't');
    assert("---"@[0] == '-');
    if model::begins_with(line, "qq_id"@ + ":"@) {
        assert(line.subrange(0, 6)[0] == line[0]);
    }
}

/// A new profile is found again by the id of the person, whatever their nickname.
pub proof fn law_new_profile_is_theirs(
    user_id: int,
    nickname: Seq<char>,
    group_cards: Seq<(Seq<char>, Seq<char>)>,
    today: Seq<char>,
)
    ensures
        profile::is_profile_of(
            profile::new_profile(user_id, nickname, group_cards, today),
            number::dec(user_id),
        ),
{
    let id = number::dec(user_id);
    let content = profile::new_profile(user_id, nickname, group_cards, today);
    let telegram = "telegram_id: \""@ + id + "\""@;
    let qq = "qq_id: \""@ + id + "\""@;
    let username = frontmatter::field_line("username"@, nickname);
    let front = seq![telegram, qq, username];
    let body = profile::default_body(nickname, id, today, group_cards);
    lemma_dec_is_plain(user_id);
    lemma_id_line(id);
    lemma_telegram_line(id);
    let behind = if model::trimmed(body).len() == 0 {
        "---\n"@
    } else {
        ("---\n"@ + model::trimmed(body)).push('\n')
    };
    let tail = username + "\n"@ + behind;
    lemma_lines_text_is_joined(front);
    assert(lines_text(front) == lines_text(seq![telegram, qq]) + (username + "\n"@)) by {
        reveal_with_fuel(lines_text, 4);
        assert(front.skip(1) =~= seq![qq, username]);
        assert(front.skip(1).skip(1) =~= seq![username]);
        assert(front.skip(1).skip(1).skip(1) =~= seq![]);
        assert(seq![telegram, qq].skip(1) =~= seq![qq]);
        assert(seq![telegram, qq].skip(1).skip(1) =~= seq![]);
        assert(lines_text(front) =~= lines_text(seq![telegram, qq]) + (username + "\n"@));
    }
    assert(content =~= "---\n"@ + (lines_text(seq![telegram, qq]) + tail));
    lemma_front_of(telegram, qq, tail);
    let found = frontmatter::front_lines(content);
    reveal_with_fuel(frontmatter::field_from, 3);
    assert(frontmatter::field_from(found, "qq_id"@, 0) == 1);
}

/// A text of several lines is its lines, joined again.
proof fn lemma_lines_are_joined(pre: Seq<char>, text: Seq<char>)
    requires
        text.len() > 0,
        text.last() != '\n',
        text.last() != '\r',
        !model::has_part(text, "\r\n"@),
    ensures
        model::lines_from(pre + text.push('\n'), pre.len() as int).len() > 0,
        model::joined(model::lines_from(pre + text.push('\n'), pre.len() as int), "\n"@) == text,
    decreases text.len(),
{
    reveal_strlit("\n");
    reveal_strlit("\r\n");
    let nl = seq!['\n'];
    let s = pre + text.push('\n');
    facts::lemma_find_from(text, nl, 0);
    match model::find_first(text, nl) {
        Some(k) => {
            assert(text.subrange(k, k + 1)[0] == text[k]);
            let line = text.take(k);
            let rest = text.skip(k + 1);
            assert forall|j: int| 0 <= j < k implies line[j] != '\n' by {
                if line[j] == '\n' {
                    assert(text.subrange(j, j + 1) =~= nl);
                    assert(model::occurs_at(text, nl, j));
                }
            }
            if k > 0 && line.last() == '\r' {
                assert(text.subrange(k - 1, k + 1) =~= "\r\n"@);
                assert(model::occurs_at(text, "\r\n"@, k - 1));
            }
            if model::has_part(rest, "\r\n"@) {
                let i = choose|i: int| model::occurs_at(rest, "\r\n"@, i);
                facts::lemma_occurs_shift(text.take(k + 1), rest, "\r\n"@, i);
                assert(text.take(k + 1) + rest =~= text);
                assert(model::occurs_at(text, "\r\n"@, k + 1 + i));
            }
            assert(s =~= pre + (line + "\n"@ + rest.push('\n')));
            facts::lemma_lines_step(pre, line, rest.push('\n'));
            let more = pre + line + "\n"@;
            assert(s =~= more + rest.push('\n'));
            lemma_lines_are_joined(more, rest);
            let behind = model::lines_from(s, more.len() as int);
            let lines = seq![line] + behind;
            facts::lemma_joined_first(lines, "\n"@);
            assert(lines.skip(1) =~= behind);
            assert(line + "\n"@ + rest =~= text);
        },
        None => {
            assert forall|j: int| 0 <= j < text.len() implies text[j] != '\n' by {
                if text[j] == '\n' {
                    assert(text.subrange(j, j + 1) =~= nl);
                    assert(model::occurs_at(text, nl, j));
                }
            }
            assert(s =~= pre + (text + "\n"@ + Seq::<char>::empty()));
            facts::lemma_lines_step(pre, text, seq![]);
            assert(model::lines_from(s, pre.len() as int) =~= seq![text]);
        },
    }
}

/// The lines of a profile: its frontmatter between two fences, and those of its body.
proof fn lemma_rendered_lines(front: Seq<Seq<char>>, body: Seq<char>)
    requires
        forall|i: int|
            0 <= i < front.len() ==> facts::is_line(#[trigger] front[i]) && front[i] != "---"@,
    ensures
        ({
            let content = frontmatter::rendered(front, body);
            let ahead = fenced_text(front);
            &&& content == ahead + body_lines_text(body)
            &&& model::begins_with(content, "---\n"@)
            &&& model::lines_of(content) == seq!["---"@] + front + seq!["---"@] + model::lines_from(
                content,
                ahead.len() as int,
            )
        }),
{
    lemma_field_texts();
    let nl = "\n"@;
    let fence = "---"@;
    let content = frontmatter::rendered(front, body);
    let tail = body_lines_text(body);
    let behind = fence + nl + tail;
    let middle = lines_text(front) + behind;
    if front.len() > 0 {
        lemma_lines_text_is_joined(front);
    }
    assert(content =~= fence + nl + middle);
    assert(content =~= Seq::<char>::empty() + (fence + nl + middle));
    facts::lemma_lines_step(seq![], fence, middle);
    let one = fence + nl;
    lemma_lines_of_text(one, front, behind);
    assert(content =~= one + middle);
    let all = one + lines_text(front);
    assert(content =~= all + behind);
    facts::lemma_lines_step(all, fence, tail);
    let last = model::lines_from(content, fenced_text(front).len() as int);
    assert(model::lines_of(content) =~= seq![fence] + front + seq![fence] + last);
    assert(content =~= fenced_text(front) + tail);
    assert(content.subrange(0, 4) =~= "---\n"@);
}

/// The lines of a frontmatter between two fences.
spec fn fenced_text(front: Seq<Seq<char>>) -> Seq<char> {
    "---"@ + "\n"@ + lines_text(front) + "---"@ + "\n"@
}

/// What stands behind the frontmatter of a profile.
spec fn body_lines_text(body: Seq<char>) -> Seq<char> {
    if model::trimmed(body).len() == 0 {
        seq![]
    } else {
        model::trimmed(body).push('\n')
    }
}

/// A profile that was written is taken apart again: the lines of its frontmatter are read back,
/// where none of them is a fence, and so is its trimmed body, where none of the body's lines
/// ends with a carriage return.
pub proof fn law_profile_is_read_back(front: Seq<Seq<char>>, body: Seq<char>)
    requires
        forall|i: int|
            0 <= i < front.len() ==> facts::is_line(#[trigger] front[i]) && front[i] != "---"@,
    ensures
        frontmatter::front_lines(frontmatter::rendered(front, body)) == front,
        !model::has_part(model::trimmed(body), "\r\n"@) ==> frontmatter::body_text(
            frontmatter::rendered(front, body),
        ) == model::trimmed(body),
{
    let content = frontmatter::rendered(front, body);
    let lines = model::lines_of(content);
    let ahead = fenced_text(front);
    let text = model::trimmed(body);
    lemma_rendered_lines(front, body);
    lemma_fence_behind(lines, front, 1);
    assert(lines.subrange(1, (front.len() + 1) as int) =~= front);
    let last = model::lines_from(content, ahead.len() as int);
    assert(lines.skip((front.len() + 2) as int) =~= last);
    if text.len() == 0 {
        assert(ahead + Seq::<char>::empty() =~= ahead);
        assert(last =~= seq![]);
    } else if !model::has_part(text, "\r\n"@) {
        facts::lemma_trimmed_ends(body);
        lemma_lines_are_joined(ahead, text);
    }
}

/// Lines, each with a line feed behind it.
spec fn lines_text(lines: Seq<Seq<char>>) -> Seq<char>
    decreases lines.len(),
{
    if lines.len() == 0 {
        seq![]
    } else {
        lines[0] + "\n"@ + lines_text(lines.skip(1))
    }
}

proof fn lemma_lines_text_is_joined(lines: Seq<Seq<char>>)
    requires
        lines.len() > 0,
    ensures
        lines_text(lines) == model::joined(lines, "\n"@).push('\n'),
    decreases lines.len(),
{
    reveal_strlit("\n");
    if lines.len() == 1 {
        reveal_with_fuel(lines_text, 2);
        assert(lines_text(lines) =~= lines[0].push('\n'));
    } else {
        lemma_lines_text_is_joined(lines.skip(1));
        facts::lemma_joined_first(lines, "\n"@);
        assert(lines_text(lines) =~= model::joined(lines, "\n"@).push('\n'));
    }
}

proof fn lemma_lines_of_text(pre: Seq<char>, lines: Seq<Seq<char>>, rest: Seq<char>)
    requires
        forall|i: int| 0 <= i < lines.len() ==> facts::is_line(#[trigger] lines[i]),
    ensures
        model::lines_from(pre + (lines_text(lines) + rest), pre.len() as int) == lines
            + model::lines_from(
            pre + (lines_text(lines) + rest),
            (pre.len() + lines_text(lines).len()) as int,
        ),
    decreases lines.len(),
{
    reveal_strlit("\n");
    let s = pre + (lines_text(lines) + rest);
    if lines.len() > 0 {
        let first = lines[0];
        let more = lines_text(lines.skip(1)) + rest;
        assert(facts::is_line(first));
        assert(s =~= pre + (first + "\n"@ + more));
        facts::lemma_lines_step(pre, first, more);
        let next = pre + first + "\n"@;
        assert(s =~= next + more);
        lemma_lines_of_text(next, lines.skip(1), rest);
        assert(seq![first] + lines.skip(1) =~= lines);
    } else {
        assert(lines =~= seq![]);
    }
}

proof fn lemma_fence_behind(lines: Seq<Seq<char>>, front: Seq<Seq<char>>, from: int)
    requires
        1 <= from <= front.len() + 1,
        lines.len() > front.len() + 1,
        lines[(front.len() + 1) as int] == "---"@,
        forall|i: int| 0 <= i < front.len() ==> front[i] != "---"@ && lines[i + 1] == #[trigger] front[i],
    ensures
        frontmatter::fence_from(lines, from) == front.len() + 1,
    decreases front.len() + 1 - from,
{
    if from <= front.len() {
        assert(lines[from] == front[from - 1]);
        lemma_fence_behind(lines, front, from + 1);
    }
}

/// Syncing a profile keeps the person's own notes: they open what follows the frontmatter.
pub proof fn law_sync_keeps_the_notes(
    content: Seq<char>,
    user_id: int,
    preferred_name: Option<Seq<char>>,
    group_id: Option<Seq<char>>,
    card: Option<Seq<char>>,
    today: Seq<char>,
)
    requires
        model::trimmed(cards::without_sections(frontmatter::body_text(content))).len() > 0,
    ensures
        exists|fields: Seq<Seq<char>>, more: Seq<char>|
            profile::synced_profile(content, user_id, preferred_name, group_id, card, today)
                == #[trigger] frontmatter::rendered(
                fields,
                model::trimmed(cards::without_sections(frontmatter::body_text(content))) + more,
            ),
{
    let front = frontmatter::front_lines(content);
    let body = frontmatter::body_text(content);
    let id = profile::profile_id(front, user_id);
    let name = profile::profile_name(front, id, preferred_name);
    let fields = frontmatter::with_field(
        frontmatter::with_field(frontmatter::with_field(front, "telegram_id"@, id), "qq_id"@, id),
        "username"@,
        name,
    );
    let group_cards = profile::synced_cards(body, group_id, card);
    let notes = model::trimmed(cards::without_sections(body));
    let more = if group_cards.len() == 0 {
        seq![]
    } else {
        "\n\n"@ + cards::section(group_cards)
    };
    assert(notes + more =~= (if group_cards.len() == 0 {
        notes
    } else {
        notes + "\n\n"@ + cards::section(group_cards)
    }));
    assert(profile::synced_profile(content, user_id, preferred_name, group_id, card, today)
        == frontmatter::rendered(fields, notes + more));
}

proof fn lemma_section_is_read_behind(
    pre: Seq<Seq<char>>,
    all: Seq<(Seq<char>, Seq<char>)>,
    from: int,
)
    requires
        cards::is_sorted(all),
        forall|i: int| 0 <= i < all.len() ==> is_plain_card(#[trigger] all[i]),
        0 <= from <= all.len(),
    ensures
        cards::with_lines(
            all.take(from),
            pre + cards::section_lines(all),
            pre.len() + from + 1,
            (pre.len() + all.len() + 1) as int,
        ) == all,
        cards::section_end(pre + cards::section_lines(all), pre.len() + from + 1) == pre.len()
            + all.len() + 1,
    decreases all.len() - from,
{
    let lines = pre + cards::section_lines(all);
    if from == all.len() {
        assert(all.take(from) =~= all);
    } else {
        let entry = all[from];
        assert(is_plain_card(entry));
        assert(lines[pre.len() + from + 1] == cards::card_line(entry));
        lemma_card_line(entry);
        let known = all.take(from);
        assert forall|i: int| 0 <= i < known.len() implies model::precedes(
            (#[trigger] known[i]).0,
            entry.0,
        ) by {
            assert(known[i] == all[i]);
            assert(model::precedes(all[i].0, all[from].0));
        }
        lemma_with_last_card(known, entry.0, entry.1, 0);
        assert(cards::with_card(known, entry.0, entry.1) =~= all.take(from + 1));
        lemma_section_is_read_behind(pre, all, from + 1);
    }
}

/// Lines before any section are no cards, and stay.
proof fn lemma_before_section(lines: Seq<Seq<char>>, n: int, from: int)
    requires
        0 <= from <= n <= lines.len(),
        forall|i: int| 0 <= i < n ==> !cards::is_heading(#[trigger] lines[i]),
    ensures
        cards::cards_in(seq![], lines, from) == cards::cards_in(seq![], lines, n),
        cards::lines_outside(lines, from) == lines.subrange(from, n) + cards::lines_outside(
            lines,
            n,
        ),
    decreases n - from,
{
    if from < n {
        lemma_before_section(lines, n, from + 1);
        assert(!cards::is_heading(lines[from]));
        let rest = cards::lines_outside(lines, n);
        assert(seq![lines[from]] + (lines.subrange(from + 1, n) + rest) =~= lines.subrange(from, n)
            + rest);
    } else {
        assert(lines.subrange(from, n) + cards::lines_outside(lines, n) =~= cards::lines_outside(
            lines,
            n,
        ));
    }
}

/// The notes and the cards of a profile are parted: of notes, an empty line and a section of cards
/// the cards are read back, and the notes are what is left.
pub proof fn law_notes_and_cards_are_parted(
    notes: Seq<Seq<char>>,
    all: Seq<(Seq<char>, Seq<char>)>,
)
    requires
        notes.len() > 0,
        forall|i: int|
            0 <= i < notes.len() ==> facts::is_line(#[trigger] notes[i]) && model::trimmed(notes[i])
                != "- 群名片:"@,
        notes[0].len() > 0 && !model::is_whitespace(notes[0][0]),
        notes.last().len() > 0 && !model::is_whitespace(notes.last().last()),
        all.len() > 0,
        cards::is_sorted(all),
        forall|i: int| 0 <= i < all.len() ==> is_plain_card(#[trigger] all[i]),
    ensures
        ({
            let text = model::joined(notes, "\n"@);
            let body = text + "\n\n"@ + cards::section(all);
            &&& cards::cards_in(seq![], model::lines_of(body), 0) == all
            &&& cards::without_sections(body) == text
        }),
{
    lemma_card_texts();
    reveal_strlit("\n");
    reveal_strlit("\n\n");
    let none = Seq::<char>::empty();
    let text = model::joined(notes, "\n"@);
    let body = text + "\n\n"@ + cards::section(all);
    let pre = notes.push(none);
    let lines = pre + cards::section_lines(all);
    let n = pre.len() as int;
    lemma_joined_of_parts(notes, cards::section_lines(all));
    assert(model::joined(lines, "\n"@) == body);
    assert forall|i: int| 0 <= i < lines.len() implies facts::is_line(#[trigger] lines[i]) by {
        if i < notes.len() {
            assert(lines[i] == notes[i]);
        } else if i > n {
            assert(lines[i] == cards::card_line(all[i - n - 1]));
            assert(is_plain_card(all[i - n - 1]));
            lemma_card_line(all[i - n - 1]);
        }
    }
    assert(is_plain_card(all[all.len() - 1]));
    lemma_card_line(all[all.len() - 1]);
    assert(lines.last() == cards::card_line(all[all.len() - 1]));
    facts::lemma_lines_of_joined(none, lines);
    assert(none + body =~= body);
    assert(model::lines_of(body) == lines);
    let heading = cards::CARDS_HEADING@;
    facts::lemma_trimmed_core(none, heading, none);
    assert(none + heading + none =~= heading);
    assert forall|i: int| 0 <= i < n implies !cards::is_heading(#[trigger] lines[i]) by {
        if i < notes.len() {
            assert(lines[i] == notes[i]);
        } else {
            assert(lines[i] == none);
            assert(model::trimmed(none) =~= none);
        }
    }
    lemma_before_section(lines, n, 0);
    lemma_section_is_read_behind(pre, all, 0);
    assert(all.take(0) =~= seq![]);
    assert(cards::is_heading(lines[n]));
    assert(cards::cards_in(all, lines, lines.len() as int) == all);
    assert(cards::lines_outside(lines, lines.len() as int) =~= seq![]);
    assert(lines.subrange(0, n) + Seq::<Seq<char>>::empty() =~= pre);
    assert(pre.drop_last() =~= notes);
    assert(model::joined(pre, "\n"@) =~= text + "\n"@);
    lemma_joined_ends(notes);
    facts::lemma_trimmed_core(none, text, "\n"@);
    assert(none + text + "\n"@ =~= text + "\n"@);
}

proof fn lemma_joined_ends(notes: Seq<Seq<char>>)
    requires
        notes.len() > 0,
        notes[0].len() > 0,
        notes.last().len() > 0,
    ensures
        ({
            let text = model::joined(notes, "\n"@);
            &&& text.len() > 0
            &&& text[0] == notes[0][0]
            &&& text.last() == notes.last().last()
        }),
{
    if notes.len() > 1 {
        facts::lemma_joined_first(notes, "\n"@);
    }
}

/// Lines, an empty line and more lines make up two texts with an empty line between.
proof fn lemma_joined_of_parts(a: Seq<Seq<char>>, b: Seq<Seq<char>>)
    requires
        a.len() > 0,
        b.len() > 0,
    ensures
        model::joined(a.push(seq![]) + b, "\n"@) == model::joined(a, "\n"@) + "\n\n"@ + model::joined(
            b,
            "\n"@,
        ),
    decreases b.len(),
{
    reveal_strlit("\n");
    reveal_strlit("\n\n");
    let pre = a.push(seq![]);
    let all = pre + b;
    if b.len() == 1 {
        assert(all.drop_last() =~= pre);
        assert(pre.drop_last() =~= a);
        assert(model::joined(pre, "\n"@) =~= model::joined(a, "\n"@) + "\n"@);
        assert(model::joined(all, "\n"@) =~= model::joined(a, "\n"@) + "\n\n"@ + b[0]);
    } else {
        lemma_joined_of_parts(a, b.drop_last());
        assert(all.drop_last() =~= pre + b.drop_last());
        assert(model::joined(all, "\n"@) =~= model::joined(a, "\n"@) + "\n\n"@ + model::joined(
            b,
            "\n"@,
        ));
    }
}

} // verus!
