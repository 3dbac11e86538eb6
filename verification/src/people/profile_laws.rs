//! What profiles tell, and of whom.
use super::cards;
use super::frontmatter;
use super::laws::is_plain;
use super::profile;
use super::profile::ProfileFile;
use crate::json;
use crate::json::JsonView;
use crate::onebot::event::Sender;
use crate::text::facts;
use crate::text::model;
use crate::text::number;
use vstd::prelude::*;

verus! {

/// Whether a value needs no escapes.
pub open spec fn is_simple(s: Seq<char>) -> bool {
    is_plain(s) && !s.contains('"') && !s.contains('\\')
}

proof fn lemma_simple(s: Seq<char>)
    requires
        is_simple(s),
    ensures
        frontmatter::escaped(s) == s,
{
    reveal_strlit("\\");
    reveal_strlit("\"");
    if model::has_part(s, "\\"@) {
        let i = choose|i: int| model::occurs_at(s, "\\"@, i);
        assert(s.subrange(i, i + 1)[0] == s[i]);
        assert(s.contains(s[i]));
    }
    if model::has_part(s, "\""@) {
        let i = choose|i: int| model::occurs_at(s, "\""@, i);
        assert(s.subrange(i, i + 1)[0] == s[i]);
        assert(s.contains(s[i]));
    }
    facts::lemma_replaced_absent(s, "\\"@, "\\\\"@);
    facts::lemma_replaced_absent(s, "\""@, "\\\""@);
}

proof fn lemma_rendered_holds(front: Seq<Seq<char>>, body: Seq<char>, i: int, pat: Seq<char>)
    ensures
        0 <= i < front.len() ==> model::has_part(frontmatter::rendered(front, body), front[i]),
        model::has_part(model::trimmed(body), pat) && pat.len() > 0 ==> model::has_part(
            frontmatter::rendered(front, body),
            pat,
        ),
{
    let all = model::joined(front, "\n"@);
    let nl = seq!['\n'];
    let head = if front.len() == 0 {
        "---\n"@
    } else {
        "---\n"@ + all + nl
    };
    let fenced = head + "---\n"@;
    let text = model::trimmed(body);
    let content = frontmatter::rendered(front, body);
    assert(("---\n"@ + all).push('\n') =~= "---\n"@ + all + nl);
    assert((fenced + text).push('\n') =~= fenced + text + nl);
    if 0 <= i < front.len() {
        facts::lemma_joined_holds(front, "\n"@, i);
        facts::lemma_part_between("---\n"@, all, nl);
        facts::lemma_part_of_part(head, all, front[i]);
        facts::lemma_part_of_either(head, "---\n"@, front[i]);
        facts::lemma_part_of_either(fenced, text, front[i]);
        facts::lemma_part_of_either(fenced + text, nl, front[i]);
    }
    if model::has_part(text, pat) && pat.len() > 0 {
        let at = choose|at: int| model::occurs_at(text, pat, at);
        assert(text.len() > 0);
        facts::lemma_part_of_either(fenced, text, pat);
        facts::lemma_part_of_either(fenced + text, nl, pat);
    }
}

/// A new profile tells the number of the person, their name and the day, and their name in each group
/// that they have one in.
pub proof fn law_new_profile_tells_of_the_person(
    user_id: int,
    name: Seq<char>,
    group_cards: Seq<(Seq<char>, Seq<char>)>,
    today: Seq<char>,
    i: int,
)
    requires
        is_simple(name),
        is_plain(today),
    ensures
        ({
            let content = profile::new_profile(user_id, name, group_cards, today);
            let id = number::dec(user_id);
            &&& model::has_part(content, "telegram_id: \""@ + id + "\""@)
            &&& model::has_part(content, "qq_id: \""@ + id + "\""@)
            &&& model::has_part(content, "username: \""@ + name + "\""@)
            &&& model::has_part(content, "# "@ + name)
            &&& model::has_part(content, "- QQ 用户，ID: "@ + id)
            &&& model::has_part(content, "- 昵称: "@ + name)
            &&& model::has_part(content, "- 首次互动: "@ + today)
            &&& 0 <= i < group_cards.len() && is_plain(group_cards[i].1) ==> model::has_part(
                content,
                "- "@ + group_cards[i].0 + ": "@ + group_cards[i].1,
            )
        }),
{
    let id = number::dec(user_id);
    let content = profile::new_profile(user_id, name, group_cards, today);
    let body = profile::default_body(name, id, today, group_cards);
    let front = seq![
        "telegram_id: \""@ + id + "\""@,
        "qq_id: \""@ + id + "\""@,
        frontmatter::field_line("username"@, name),
    ];
    lemma_simple(name);
    lemma_username_line(name);
    lemma_rendered_holds(front, body, 0, seq![]);
    lemma_rendered_holds(front, body, 1, seq![]);
    lemma_rendered_holds(front, body, 2, seq![]);
    lemma_default_body_tells(name, id, today, group_cards, i);
    lemma_rendered_holds(front, body, 0, "# "@ + name);
    lemma_rendered_holds(front, body, 0, "- QQ 用户，ID: "@ + id);
    lemma_rendered_holds(front, body, 0, "- 昵称: "@ + name);
    lemma_rendered_holds(front, body, 0, "- 首次互动: "@ + today);
    if 0 <= i < group_cards.len() && is_plain(group_cards[i].1) {
        reveal_strlit("- ");
        lemma_rendered_holds(
            front,
            body,
            0,
            "- "@ + group_cards[i].0 + ": "@ + group_cards[i].1,
        );
    }
}

proof fn lemma_username_line(name: Seq<char>)
    requires
        is_simple(name),
    ensures
        frontmatter::field_line("username"@, name) == "username: \""@ + name + "\""@,
{
    lemma_simple(name);
    reveal_strlit("username");
    reveal_strlit(": \"");
    reveal_strlit("username: \"");
    assert("username"@ + ": \""@ =~= "username: \""@);
}

/// A line of a text is held by the text when it is trimmed, if the line has no whitespace at its
/// ends.
proof fn lemma_line_held(lines: Seq<Seq<char>>, i: int)
    requires
        0 <= i < lines.len(),
        lines[i].len() > 0,
        !model::is_whitespace(lines[i][0]),
        !model::is_whitespace(lines[i].last()),
    ensures
        model::has_part(model::trimmed(model::joined(lines, "\n"@)), lines[i]),
{
    facts::lemma_joined_holds(lines, "\n"@, i);
    facts::lemma_part_of_trimmed(model::joined(lines, "\n"@), lines[i]);
}

proof fn lemma_default_body_tells(
    name: Seq<char>,
    id: Seq<char>,
    today: Seq<char>,
    group_cards: Seq<(Seq<char>, Seq<char>)>,
    i: int,
)
    requires
        is_plain(name),
        is_plain(today),
        exists|n: int| id == #[trigger] number::dec(n),
    ensures
        ({
            let body = model::trimmed(profile::default_body(name, id, today, group_cards));
            &&& model::has_part(body, "# "@ + name)
            &&& model::has_part(body, "- QQ 用户，ID: "@ + id)
            &&& model::has_part(body, "- 昵称: "@ + name)
            &&& model::has_part(body, "- 首次互动: "@ + today)
            &&& 0 <= i < group_cards.len() && is_plain(group_cards[i].1) ==> model::has_part(
                body,
                "- "@ + group_cards[i].0 + ": "@ + group_cards[i].1,
            )
        }),
{
    let lines = profile::default_lines(name, id, today);
    let all = if group_cards.len() == 0 {
        lines
    } else {
        lines + seq![seq![], cards::section(group_cards)]
    };
    let n = choose|n: int| id == #[trigger] number::dec(n);
    lemma_dec_ends(n);
    lemma_marks();
    lemma_marked_line_held(all, 0, "# "@, name);
    lemma_marked_line_held(all, 2, "- QQ 用户，ID: "@, id);
    lemma_marked_line_held(all, 3, "- 昵称: "@, name);
    lemma_marked_line_held(all, 4, "- 首次互动: "@, today);
    if 0 <= i < group_cards.len() && is_plain(group_cards[i].1) {
        lemma_section_holds(group_cards, i);
        lemma_entry_ends(group_cards[i].0, group_cards[i].1);
        assert(all[6] == cards::section(group_cards));
        lemma_entry_held(all, 6, "- "@ + group_cards[i].0 + ": "@ + group_cards[i].1);
    }
}

proof fn lemma_marks()
    ensures
        "# "@.len() > 0 && "# "@[0] == '#',
        "- QQ 用户，ID: "@.len() > 0 && "- QQ 用户，ID: "@[0] == '-',
        "- 昵称: "@.len() > 0 && "- 昵称: "@[0] == '-',
        "- 首次互动: "@.len() > 0 && "- 首次互动: "@[0] == '-',
{
    reveal_strlit("# ");
    reveal_strlit("- QQ 用户，ID: ");
    reveal_strlit("- 昵称: ");
    reveal_strlit("- 首次互动: ");
}

proof fn lemma_marked_line_held(lines: Seq<Seq<char>>, i: int, mark: Seq<char>, text: Seq<char>)
    requires
        0 <= i < lines.len(),
        lines[i] == mark + text,
        mark.len() > 0,
        text.len() > 0,
        !model::is_whitespace(mark[0]),
        !model::is_whitespace(text.last()),
    ensures
        model::has_part(model::trimmed(model::joined(lines, "\n"@)), mark + text),
{
    lemma_line_held(lines, i);
}

proof fn lemma_entry_held(lines: Seq<Seq<char>>, i: int, entry: Seq<char>)
    requires
        0 <= i < lines.len(),
        model::has_part(lines[i], entry),
        entry.len() > 0,
        !model::is_whitespace(entry[0]),
        !model::is_whitespace(entry.last()),
    ensures
        model::has_part(model::trimmed(model::joined(lines, "\n"@)), entry),
{
    let body = model::joined(lines, "\n"@);
    facts::lemma_joined_holds(lines, "\n"@, i);
    facts::lemma_part_of_part(body, lines[i], entry);
    facts::lemma_part_of_trimmed(body, entry);
}

proof fn lemma_entry_ends(group: Seq<char>, card: Seq<char>)
    requires
        is_plain(card),
    ensures
        ({
            let entry = "- "@ + group + ": "@ + card;
            &&& entry.len() > 0
            &&& entry[0] == '-'
            &&& entry.last() == card.last()
        }),
{
    reveal_strlit("- ");
}

proof fn lemma_dec_ends(n: int)
    ensures
        number::dec(n).len() > 0,
        !model::is_whitespace(number::dec(n)[0]),
        !model::is_whitespace(number::dec(n).last()),
{
    let m = (if n < 0 {
        -n
    } else {
        n
    }) as nat;
    number::lemma_dec_nat_digits(m);
    let d = number::dec_nat(m);
    assert(number::is_digit(d[0]));
    assert(number::is_digit(d[d.len() - 1]));
    assert(number::dec(n).last() == d.last());
}

proof fn lemma_section_holds(group_cards: Seq<(Seq<char>, Seq<char>)>, i: int)
    requires
        0 <= i < group_cards.len(),
    ensures
        model::has_part(
            cards::section(group_cards),
            "- "@ + group_cards[i].0 + ": "@ + group_cards[i].1,
        ),
{
    reveal_strlit("  - ");
    reveal_strlit("- ");
    let lines = cards::section_lines(group_cards);
    let line = cards::card_line(group_cards[i]);
    let entry = "- "@ + group_cards[i].0 + ": "@ + group_cards[i].1;
    assert(lines[i + 1] == line);
    facts::lemma_joined_holds(lines, "\n"@, i + 1);
    assert(line =~= seq![' ', ' '] + entry + Seq::<char>::empty());
    facts::lemma_part_between(seq![' ', ' '], entry, Seq::empty());
    facts::lemma_part_of_part(cards::section(group_cards), line, entry);
}

/// A profile that is brought up to date names the person by the name that it had, or else by the one
/// that they are known by now, or else by their number, and keeps the number that it had.
pub proof fn law_synced_profile_names_the_person(
    content: Seq<char>,
    user_id: int,
    preferred: Option<Seq<char>>,
    group: Option<Seq<char>>,
    card: Option<Seq<char>>,
    today: Seq<char>,
    name: Seq<char>,
    id: Seq<char>,
)
    requires
        is_simple(name),
        is_simple(id),
        ({
            let front = frontmatter::front_lines(content);
            &&& frontmatter::field_value(front, "qq_id"@) == Some(id) || frontmatter::field_value(
                front,
                "qq_id"@,
            ) is None && id == number::dec(user_id)
            &&& {
                ||| frontmatter::field_value(front, "username"@) == Some(name)
                ||| frontmatter::field_value(front, "username"@) is None && preferred == Some(name)
                ||| frontmatter::field_value(front, "username"@) is None && preferred is None
                    && name == "QQ用户"@ + id
            }
        }),
    ensures
        ({
            let synced = profile::synced_profile(content, user_id, preferred, group, card, today);
            &&& model::has_part(synced, "telegram_id: \""@ + id + "\""@)
            &&& model::has_part(synced, "qq_id: \""@ + id + "\""@)
            &&& model::has_part(synced, "username: \""@ + name + "\""@)
        }),
{
    let front = frontmatter::front_lines(content);
    assert(profile::profile_id(front, user_id) == id);
    assert(profile::profile_name(front, id, preferred) == name);
    let a = frontmatter::with_field(front, "telegram_id"@, id);
    let b = frontmatter::with_field(a, "qq_id"@, id);
    let c = frontmatter::with_field(b, "username"@, name);
    let telegram = frontmatter::field_line("telegram_id"@, id);
    let qq = frontmatter::field_line("qq_id"@, id);
    let username = frontmatter::field_line("username"@, name);
    lemma_simple(id);
    lemma_username_line(name);
    lemma_field_names(id);
    lemma_with_field_holds(front, "telegram_id"@, id, seq![]);
    lemma_with_field_holds(a, "qq_id"@, id, telegram);
    lemma_with_field_holds(b, "username"@, name, telegram);
    lemma_with_field_holds(b, "username"@, name, qq);
    let body = choose|body: Seq<char>| #[trigger]
        frontmatter::rendered(c, body) == profile::synced_profile(
            content,
            user_id,
            preferred,
            group,
            card,
            today,
        );
    let i = choose|i: int| 0 <= i < c.len() && c[i] == telegram;
    let j = choose|j: int| 0 <= j < c.len() && c[j] == qq;
    let k = choose|k: int| 0 <= k < c.len() && c[k] == username;
    lemma_rendered_holds(c, body, i, seq![]);
    lemma_rendered_holds(c, body, j, seq![]);
    lemma_rendered_holds(c, body, k, seq![]);
}

proof fn lemma_field_names(id: Seq<char>)
    requires
        frontmatter::escaped(id) == id,
    ensures
        frontmatter::field_line("telegram_id"@, id) == "telegram_id: \""@ + id + "\""@,
        frontmatter::field_line("qq_id"@, id) == "qq_id: \""@ + id + "\""@,
        !model::begins_with("telegram_id: \""@ + id + "\""@, "qq_id"@ + ":"@),
        !model::begins_with("telegram_id: \""@ + id + "\""@, "username"@ + ":"@),
        !model::begins_with("qq_id: \""@ + id + "\""@, "username"@ + ":"@),
{
    reveal_strlit("telegram_id");
    reveal_strlit("qq_id");
    reveal_strlit("username");
    reveal_strlit(": \"");
    reveal_strlit(":");
    reveal_strlit("telegram_id: \"");
    reveal_strlit("qq_id: \"");
    assert("telegram_id"@ + ": \""@ =~= "telegram_id: \""@);
    assert("qq_id"@ + ": \""@ =~= "qq_id: \""@);
    let t = "telegram_id: \""@ + id + "\""@;
    let q = "qq_id: \""@ + id + "\""@;
    if model::begins_with(t, "qq_id"@ + ":"@) {
        assert(t.subrange(0, 6)[0] == t[0]);
    }
    if model::begins_with(t, "username"@ + ":"@) {
        assert(t.subrange(0, 9)[0] == t[0]);
    }
    if model::begins_with(q, "username"@ + ":"@) {
        assert(q.subrange(0, 9)[0] == q[0]);
    }
}

/// A field that is set is among the lines, and so is every other line.
proof fn lemma_with_field_holds(
    lines: Seq<Seq<char>>,
    field: Seq<char>,
    value: Seq<char>,
    line: Seq<char>,
)
    ensures
        frontmatter::with_field(lines, field, value).contains(frontmatter::field_line(field, value)),
        lines.contains(line) && !model::begins_with(line, field + ":"@) ==> frontmatter::with_field(
            lines,
            field,
            value,
        ).contains(line),
{
    let more = frontmatter::with_field(lines, field, value);
    let i = frontmatter::field_from(lines, field, 0);
    lemma_field_at(lines, field, 0);
    if i < lines.len() {
        assert(more[i] == frontmatter::field_line(field, value));
    } else {
        assert(more[lines.len() as int] == frontmatter::field_line(field, value));
    }
    if lines.contains(line) && !model::begins_with(line, field + ":"@) {
        let j = choose|j: int| 0 <= j < lines.len() && lines[j] == line;
        assert(more[j] == line);
    }
}

proof fn lemma_field_at(lines: Seq<Seq<char>>, field: Seq<char>, from: int)
    requires
        0 <= from <= lines.len(),
    ensures
        ({
            let i = frontmatter::field_from(lines, field, from);
            &&& from <= i <= lines.len()
            &&& i < lines.len() ==> model::begins_with(lines[i], field + ":"@)
        }),
    decreases lines.len() - from,
{
    if from < lines.len() && !model::begins_with(lines[from], field + ":"@) {
        lemma_field_at(lines, field, from + 1);
    }
}

/// A profile that is brought up to date shows the name that the person has in the group.
pub proof fn law_synced_profile_shows_the_card(
    content: Seq<char>,
    user_id: int,
    preferred: Option<Seq<char>>,
    group: Seq<char>,
    card: Seq<char>,
    today: Seq<char>,
)
    requires
        is_plain(card),
    ensures
        model::has_part(
            profile::synced_profile(content, user_id, preferred, Some(group), Some(card), today),
            "- "@ + group + ": "@ + card,
        ),
{
    let entry = "- "@ + group + ": "@ + card;
    let front = frontmatter::front_lines(content);
    let body = frontmatter::body_text(content);
    let known = cards::cards_in(seq![], model::lines_of(body), 0);
    let all = cards::with_card(known, group, card);
    assert(all == profile::synced_cards(body, Some(group), Some(card)));
    lemma_position_bounds(known, group, 0);
    let p = cards::position(known, group, 0);
    assert(all[p] == (group, card));
    lemma_section_holds(all, p);
    let id = profile::profile_id(front, user_id);
    let name = profile::profile_name(front, id, preferred);
    let fields = frontmatter::with_field(
        frontmatter::with_field(frontmatter::with_field(front, "telegram_id"@, id), "qq_id"@, id),
        "username"@,
        name,
    );
    let notes = model::trimmed(cards::without_sections(body));
    let first = match profile::labelled_value(content, "首次互动:"@) {
        Some(day) => day,
        None => today,
    };
    let new_body = if notes.len() == 0 {
        profile::default_body(name, id, first, all)
    } else {
        notes + "\n\n"@ + cards::section(all)
    };
    lemma_entry_ends(group, card);
    if notes.len() == 0 {
        lemma_card_in_default(name, id, first, all, entry);
    } else {
        lemma_card_behind_notes(notes, cards::section(all), entry);
    }
    lemma_rendered_holds(fields, new_body, 0, entry);
}

proof fn lemma_card_in_default(
    name: Seq<char>,
    id: Seq<char>,
    first: Seq<char>,
    all: Seq<(Seq<char>, Seq<char>)>,
    entry: Seq<char>,
)
    requires
        all.len() > 0,
        model::has_part(cards::section(all), entry),
        entry.len() > 0,
        !model::is_whitespace(entry[0]),
        !model::is_whitespace(entry.last()),
    ensures
        model::has_part(model::trimmed(profile::default_body(name, id, first, all)), entry),
{
    let lines = profile::default_lines(name, id, first) + seq![seq![], cards::section(all)];
    assert(lines[6] == cards::section(all));
    lemma_entry_held(lines, 6, entry);
}

proof fn lemma_card_behind_notes(notes: Seq<char>, section: Seq<char>, entry: Seq<char>)
    requires
        model::has_part(section, entry),
        entry.len() > 0,
        !model::is_whitespace(entry[0]),
        !model::is_whitespace(entry.last()),
    ensures
        model::has_part(model::trimmed(notes + "\n\n"@ + section), entry),
{
    facts::lemma_part_of_either(notes + "\n\n"@, section, entry);
    facts::lemma_part_of_trimmed(notes + "\n\n"@ + section, entry);
}

proof fn lemma_position_bounds(all: Seq<(Seq<char>, Seq<char>)>, group: Seq<char>, from: int)
    requires
        0 <= from <= all.len(),
    ensures
        from <= cards::position(all, group, from) <= all.len(),
    decreases all.len() - from,
{
    if from < all.len() && model::precedes(all[from].0, group) {
        lemma_position_bounds(all, group, from + 1);
    }
}

/// A sender is known by the nickname, or else by the name in the group; each counts only if it is not
/// empty.
pub proof fn law_sender_is_known_by(sender: Sender, name: Seq<char>, card: Seq<char>)
    ensures
        json::text_view(sender.nickname) == Some(name) && name.len() > 0 ==> profile::sender_name(
            Some(sender),
        ) == Some(name),
        (sender.nickname is None || sender.nickname->0@.len() == 0) && json::text_view(sender.card)
            == Some(card) && card.len() > 0 ==> profile::sender_name(Some(sender)) == Some(card),
        json::text_view(sender.card) == Some(card) && card.len() > 0 ==> profile::sender_card(
            Some(sender),
        ) == Some(card),
        sender.card is None || sender.card->0@.len() == 0 ==> profile::sender_card(Some(sender))
            is None,
        profile::sender_name(None) is None,
{
}

/// A new profile bears the name that the sender is known by, or else the nickname that was told, or
/// else one made of the number.
pub proof fn law_new_profile_is_named(
    name: Seq<char>,
    answer: Option<JsonView>,
    user_id: int,
    nickname: Seq<char>,
)
    ensures
        profile::told_name(Some(name), answer, user_id) == name,
        answer matches Some(data) && data.get("nickname"@) == Some(JsonView::Str(nickname))
            && nickname.len() > 0 ==> profile::told_name(None, answer, user_id) == nickname,
        answer is None ==> profile::told_name(None, answer, user_id) == "QQ用户"@ + number::dec(
            user_id,
        ),
{
}

/// A new profile begins with the name of the sender in the group, if they have one there.
pub proof fn law_first_card(sender: Sender, group: i64, card: Seq<char>)
    ensures
        json::text_view(sender.card) == Some(card) && card.len() > 0 ==> profile::first_cards(
            Some(sender),
            Some(group),
        ) == seq![(number::dec(group as int), card)],
        profile::first_cards(Some(sender), None).len() == 0,
        sender.card is None ==> profile::first_cards(Some(sender), Some(group)).len() == 0,
{
    let none = Seq::<(Seq<char>, Seq<char>)>::empty();
    assert(cards::with_card(none, number::dec(group as int), card) =~= seq![
        (number::dec(group as int), card),
    ]);
}

/// Profiles are the files with the extension `md`, whatever their order.
pub proof fn law_profiles_are_counted(a: Seq<Seq<char>>, b: Seq<Seq<char>>, name: Seq<char>)
    ensures
        profile::profile_count(a + b) == profile::profile_count(a) + profile::profile_count(b),
        name.len() > 0 ==> profile::profile_count(seq![name + ".md"@]) == 1 && profile::stem(
            name + ".md"@,
        ) == name,
        !model::finishes_with(name, ".md"@) ==> profile::profile_count(seq![name]) == 0
            && profile::stem(name) == name,
    decreases b.len(),
{
    reveal_strlit(".md");
    reveal_with_fuel(profile::profile_count, 2);
    let file = name + ".md"@;
    assert(file.subrange(file.len() - 3, file.len() as int) =~= ".md"@);
    assert(file.take(file.len() - 3) =~= name);
    assert(seq![file].drop_last() =~= seq![]);
    assert(seq![name].drop_last() =~= seq![]);
    if b.len() == 0 {
        assert(a + b =~= a);
    } else {
        law_profiles_are_counted(a, b.drop_last(), name);
        assert((a + b).drop_last() =~= a + b.drop_last());
    }
}

/// Alma is told of a profile, by its name and whole, if it is the sender's by number or by name and
/// has no more than five hundred characters; of no other.
pub proof fn law_profile_is_told(
    name: Seq<char>,
    content: Seq<char>,
    qq_id: Seq<char>,
    display_name: Seq<char>,
)
    requires
        name.len() > 0,
    ensures
        ({
            let told = profile::profile_block(name + ".md"@, content, qq_id, display_name);
            let theirs = frontmatter::field_value(frontmatter::front_lines(content), "qq_id"@)
                == Some(qq_id) || name == display_name || model::ascii_lowered(name)
                == model::ascii_lowered(display_name);
            &&& theirs && content.len() <= 500 ==> told == Some(
                "\n\n[SENDER PROFILE — "@ + name + "]:\n"@ + content + "\n[/SENDER PROFILE]"@,
            )
            &&& !theirs || content.len() > 500 ==> told is None
        }),
{
    law_profiles_are_counted(seq![], seq![], name);
}

/// The first profile that is the sender's is told; the ones before it, which are not, are passed over.
pub proof fn law_first_profile_is_told(
    files: Seq<ProfileFile>,
    qq_id: Seq<char>,
    display_name: Seq<char>,
    i: int,
    block: Seq<char>,
)
    requires
        0 <= i < files.len(),
        model::finishes_with(files[i].name@, ".md"@),
        files[i].name@.len() > 3,
        profile::profile_block(files[i].name@, files[i].content@, qq_id, display_name) == Some(block),
        forall|j: int|
            0 <= j < i ==> !model::finishes_with((#[trigger] files[j]).name@, ".md"@)
                || profile::profile_block(files[j].name@, files[j].content@, qq_id, display_name)
                is None,
    ensures
        profile::first_block(files, qq_id, display_name, 0) == Some((i, block)),
{
    lemma_first_block(files, qq_id, display_name, i, block, 0);
}

proof fn lemma_first_block(
    files: Seq<ProfileFile>,
    qq_id: Seq<char>,
    display_name: Seq<char>,
    i: int,
    block: Seq<char>,
    from: int,
)
    requires
        0 <= from <= i < files.len(),
        model::finishes_with(files[i].name@, ".md"@),
        files[i].name@.len() > 3,
        profile::profile_block(files[i].name@, files[i].content@, qq_id, display_name) == Some(block),
        forall|j: int|
            0 <= j < i ==> !model::finishes_with((#[trigger] files[j]).name@, ".md"@)
                || profile::profile_block(files[j].name@, files[j].content@, qq_id, display_name)
                is None,
    ensures
        profile::first_block(files, qq_id, display_name, from) == Some((i, block)),
    decreases i - from,
{
    if from < i {
        assert(!model::finishes_with(files[from].name@, ".md"@) || profile::profile_block(
            files[from].name@,
            files[from].content@,
            qq_id,
            display_name,
        ) is None);
        lemma_first_block(files, qq_id, display_name, i, block, from + 1);
    }
}

/// What follows a label in its line is found, wherever the line stands.
pub proof fn law_labelled_value_is_found(
    lines: Seq<Seq<char>>,
    i: int,
    before: Seq<char>,
    label: Seq<char>,
    value: Seq<char>,
)
    requires
        0 <= i < lines.len(),
        lines.last().len() > 0,
        forall|j: int| 0 <= j < lines.len() ==> facts::is_line(#[trigger] lines[j]),
        forall|j: int| 0 <= j < i ==> !model::has_part(#[trigger] lines[j], label),
        label.len() > 0,
        lines[i] == before + label + value,
        model::find_first(lines[i], label) == Some(before.len() as int),
        !model::has_part(value, label),
    ensures
        profile::labelled_value(model::joined(lines, "\n"@), label) == Some(model::trimmed(value)),
{
    facts::lemma_lines_of_joined(seq![], lines);
    assert(Seq::<char>::empty() + model::joined(lines, "\n"@) =~= model::joined(lines, "\n"@));
    facts::lemma_part_between(before, label, value);
    lemma_labelled_line(lines, label, i, 0);
    let line = lines[i];
    let end = (before.len() + label.len()) as int;
    assert forall|j: int| end <= j implies !model::occurs_at(line, label, j) by {
        if model::occurs_at(line, label, j) {
            assert(value.subrange(j - end, j - end + label.len()) =~= line.subrange(
                j,
                j + label.len(),
            ));
            assert(model::occurs_at(value, label, j - end));
        }
    }
    facts::lemma_find_none(line, label, end);
    assert(line.skip(end) =~= value);
    assert(model::split_from(line, label, end) == seq![value]);
    assert(model::split_on(line, label) == seq![line.subrange(0, before.len() as int)]
        + seq![value]);
}

proof fn lemma_labelled_line(lines: Seq<Seq<char>>, label: Seq<char>, i: int, from: int)
    requires
        0 <= from <= i < lines.len(),
        model::has_part(lines[i], label),
        forall|j: int| 0 <= j < i ==> !model::has_part(#[trigger] lines[j], label),
    ensures
        profile::labelled_line(lines, label, from) == Some(lines[i]),
    decreases i - from,
{
    if from < i {
        lemma_labelled_line(lines, label, i, from + 1);
    }
}

/// A field that is set is read back, and the other fields stay as they are.
pub proof fn law_field_is_read_back(
    lines: Seq<Seq<char>>,
    field: Seq<char>,
    value: Seq<char>,
    other: Seq<char>,
)
    requires
        is_simple(value),
        field.len() > 0,
        !model::is_whitespace(field[0]),
        !field.contains(':'),
        !other.contains(':'),
        field != other,
    ensures
        frontmatter::field_value(frontmatter::with_field(lines, field, value), field) == Some(value),
        frontmatter::field_value(frontmatter::with_field(lines, field, value), other)
            == frontmatter::field_value(lines, other),
{
    let line = frontmatter::field_line(field, value);
    let more = frontmatter::with_field(lines, field, value);
    let i = frontmatter::field_from(lines, field, 0);
    lemma_simple(value);
    lemma_field_at(lines, field, 0);
    lemma_field_line_value(field, value);
    lemma_set_here(lines, more, field, line, i, 0);
    if i < lines.len() {
        lemma_other_field(lines[i], field, other);
    }
    lemma_other_field(line, field, other);
    lemma_set_elsewhere(lines, more, other, i, 0);
}

proof fn lemma_other_field(line: Seq<char>, field: Seq<char>, other: Seq<char>)
    requires
        model::begins_with(line, field + ":"@),
        !field.contains(':'),
        !other.contains(':'),
        field != other,
    ensures
        !model::begins_with(line, other + ":"@),
{
    reveal_strlit(":");
    if model::begins_with(line, other + ":"@) {
        let a = field + ":"@;
        let b = other + ":"@;
        assert(line.subrange(0, a.len() as int) == a);
        assert(line.subrange(0, b.len() as int) == b);
        assert forall|k: int| 0 <= k < a.len() implies a[k] == line[k] by {
            assert(line.subrange(0, a.len() as int)[k] == line[k]);
        }
        assert forall|k: int| 0 <= k < b.len() implies b[k] == line[k] by {
            assert(line.subrange(0, b.len() as int)[k] == line[k]);
        }
        let m = field.len() as int;
        let n = other.len() as int;
        assert(a[m] == ':' && b[n] == ':');
        if m < n {
            assert(b[m] == ':');
            assert(other[m] == ':');
        } else if n < m {
            assert(a[n] == ':');
            assert(field[n] == ':');
        } else {
            assert forall|k: int| 0 <= k < m implies field[k] == other[k] by {
                assert(a[k] == b[k]);
            }
            assert(field =~= other);
        }
    }
}

proof fn lemma_set_here(
    lines: Seq<Seq<char>>,
    more: Seq<Seq<char>>,
    field: Seq<char>,
    line: Seq<char>,
    i: int,
    from: int,
)
    requires
        0 <= from <= i <= lines.len(),
        i == frontmatter::field_from(lines, field, from),
        i < more.len(),
        more[i] == line,
        model::begins_with(line, field + ":"@),
        forall|j: int| 0 <= j < i ==> more[j] == lines[j],
    ensures
        frontmatter::field_from(more, field, from) == i,
    decreases i - from,
{
    if from < i {
        assert(more[from] == lines[from]);
        lemma_set_here(lines, more, field, line, i, from + 1);
    }
}

proof fn lemma_set_elsewhere(
    lines: Seq<Seq<char>>,
    more: Seq<Seq<char>>,
    other: Seq<char>,
    i: int,
    from: int,
)
    requires
        0 <= from <= lines.len(),
        0 <= i <= lines.len(),
        more.len() == lines.len() && i < lines.len() || more.len() == lines.len() + 1 && i
            == lines.len(),
        !model::begins_with(more[i], other + ":"@),
        i < lines.len() ==> !model::begins_with(lines[i], other + ":"@),
        forall|j: int| 0 <= j < lines.len() && j != i ==> more[j] == lines[j],
    ensures
        ({
            let a = frontmatter::field_from(lines, other, from);
            let b = frontmatter::field_from(more, other, from);
            &&& a < lines.len() <==> b < more.len()
            &&& a < lines.len() ==> a == b && lines[a] == more[b]
        }),
    decreases lines.len() - from,
{
    lemma_field_at(lines, other, from);
    if from < lines.len() {
        if from != i {
            assert(more[from] == lines[from]);
        }
        if !model::begins_with(lines[from], other + ":"@) {
            lemma_set_elsewhere(lines, more, other, i, from + 1);
        }
    } else if from < more.len() {
        assert(from == i);
        assert(frontmatter::field_from(more, other, from + 1) == from + 1);
    }
}

/// The line of a field holds its value.
proof fn lemma_field_line_value(field: Seq<char>, value: Seq<char>)
    requires
        is_simple(value),
        frontmatter::escaped(value) == value,
        field.len() > 0,
        !model::is_whitespace(field[0]),
    ensures
        ({
            let line = frontmatter::field_line(field, value);
            &&& model::begins_with(line, field + ":"@)
            &&& frontmatter::unquoted(
                model::trimmed(model::trimmed_start_text(line, field + ":"@)),
            ) == value
        }),
{
    reveal_strlit(":");
    reveal_strlit(": \"");
    reveal_strlit("\"");
    let name = field + ":"@;
    let line = frontmatter::field_line(field, value);
    let n = name.len() as int;
    let quoted = seq!['"'] + value + seq!['"'];
    assert(line.subrange(0, n) =~= name);
    assert(line.skip(n) =~= seq![' '] + quoted + Seq::<char>::empty());
    let rest = line.skip(n);
    assert(rest[0] == ' ');
    reveal_with_fuel(model::trimmed_start_text, 2);
    assert(model::trimmed_start_text(line, name) == rest) by {
        if model::begins_with(rest, name) {
            assert(rest.subrange(0, n)[0] == rest[0]);
            assert(name[0] == field[0]);
        }
    }
    facts::lemma_trimmed_core(seq![' '], quoted, Seq::empty());
    lemma_unquoted(value);
}

proof fn lemma_unquoted(value: Seq<char>)
    requires
        is_simple(value),
    ensures
        frontmatter::unquoted(seq!['"'] + value + seq!['"']) == value,
{
    let quoted = seq!['"'] + value + seq!['"'];
    let open = quoted.skip(1);
    assert(open =~= value + seq!['"']);
    assert(value.contains(value[0]));
    assert(open[0] == value[0]);
    assert(model::trimmed_start_char(open, '"') == open);
    assert(model::trimmed_start_char(quoted, '"') == open);
    assert(open.drop_last() =~= value);
    assert(value.contains(value[value.len() - 1]));
    assert(model::trimmed_end_char(value, '"') == value);
}

/// An entry of the section of cards names the group before the first colon, and the card behind it.
pub proof fn law_card_entry_is_read(group: Seq<char>, card: Seq<char>)
    requires
        is_plain(group),
        is_plain(card),
        !group.contains(':'),
        !model::begins_with(group, "- "@),
    ensures
        cards::entry_of("- "@ + group + ": "@ + card) == Some((group, card)),
        cards::entry_of(group + ": "@ + card) == Some((group, card)),
        cards::entry_of(group) is None,
{
    let e = group + ": "@ + card;
    lemma_colon(group, card);
    lemma_entry_is_trimmed(group, card);
    lemma_no_dash(group, card);
    lemma_no_colon(group);
}

proof fn lemma_entry_is_trimmed(group: Seq<char>, card: Seq<char>)
    requires
        is_plain(group),
        is_plain(card),
    ensures
        ({
            let e = group + ": "@ + card;
            let long = "- "@ + group + ": "@ + card;
            &&& model::trimmed(e) == e
            &&& model::trimmed(long) == long
            &&& model::trimmed(group) == group
            &&& model::begins_with(long, "- "@)
            &&& long.skip("- "@.len() as int) == e
            &&& ":"@.len() == 1
        }),
{
    reveal_strlit("- ");
    reveal_strlit(":");
    let none = Seq::<char>::empty();
    let e = group + ": "@ + card;
    let long = "- "@ + group + ": "@ + card;
    assert(long[0] == '-');
    assert(e[0] == group[0]);
    assert(e.last() == card.last());
    assert(long.last() == card.last());
    facts::lemma_trimmed_core(none, long, none);
    assert(none + long + none =~= long);
    facts::lemma_trimmed_core(none, e, none);
    assert(none + e + none =~= e);
    facts::lemma_trimmed_core(none, group, none);
    assert(none + group + none =~= group);
    assert(long.subrange(0, 2) =~= "- "@);
    assert(long.skip(2) =~= e);
}

proof fn lemma_no_dash(group: Seq<char>, card: Seq<char>)
    requires
        is_plain(group),
        !model::begins_with(group, "- "@),
    ensures
        !model::begins_with(group + ": "@ + card, "- "@),
{
    reveal_strlit("- ");
    reveal_strlit(": ");
    let e = group + ": "@ + card;
    if model::begins_with(e, "- "@) {
        let part = e.subrange(0, 2);
        assert(part[0] == e[0]);
        assert(part[1] == e[1]);
        if group.len() >= 2 {
            assert(group.subrange(0, 2) =~= part);
        } else {
            assert(e[1] == ':');
        }
    }
}

proof fn lemma_no_colon(group: Seq<char>)
    requires
        !group.contains(':'),
    ensures
        model::find_first(group, ":"@) is None,
{
    reveal_strlit(":");
    assert forall|j: int| 0 <= j implies !model::occurs_at(group, ":"@, j) by {
        if model::occurs_at(group, ":"@, j) {
            assert(group.subrange(j, j + 1)[0] == group[j]);
        }
    }
    facts::lemma_find_none(group, ":"@, 0);
}

proof fn lemma_colon(group: Seq<char>, card: Seq<char>)
    requires
        is_plain(group),
        is_plain(card),
        !group.contains(':'),
    ensures
        ({
            let e = group + ": "@ + card;
            let i = group.len() as int;
            &&& model::find_first(e, ":"@) == Some(i)
            &&& model::trimmed(e.take(i)) == group
            &&& model::trimmed(e.skip(i + 1)) == card
        }),
{
    reveal_strlit(": ");
    reveal_strlit(":");
    let none = Seq::<char>::empty();
    let e = group + ": "@ + card;
    let i = group.len() as int;
    assert(e.subrange(i, i + 1) =~= ":"@);
    assert forall|j: int| 0 <= j < i implies !model::occurs_at(e, ":"@, j) by {
        if model::occurs_at(e, ":"@, j) {
            assert(e.subrange(j, j + 1)[0] == e[j]);
            assert(e[j] == group[j]);
        }
    }
    facts::lemma_find_is(e, ":"@, 0, i);
    assert(e.take(i) =~= group);
    assert(e.skip(i + 1) =~= seq![' '] + card + none);
    facts::lemma_trimmed_core(seq![' '], card, none);
    facts::lemma_trimmed_core(none, group, none);
    assert(none + group + none =~= group);
}

} // verus!
