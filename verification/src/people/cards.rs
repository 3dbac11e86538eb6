//! The names that people go by in groups (群名片).
use crate::json;
use crate::text::facts;
use crate::text::model;
use crate::text::ops;
use vstd::prelude::*;
use vstd::string::*;

verus! {

pub const CARDS_HEADING: &'static str = "- 群名片:";

pub const CARD_INDENT: &'static str = "  - ";

/// Whether the entries are in the order of their groups, no group twice.
pub open spec fn is_sorted(cards: Seq<(Seq<char>, Seq<char>)>) -> bool {
    forall|i: int, j: int|
        #![trigger cards[i], cards[j]]
        0 <= i < j < cards.len() ==> model::precedes(cards[i].0, cards[j].0)
}

/// The first index from `from` on at which a group does not stand before the given one.
pub open spec fn position(cards: Seq<(Seq<char>, Seq<char>)>, group: Seq<char>, from: int) -> int
    decreases cards.len() - from,
{
    if 0 <= from < cards.len() && model::precedes(cards[from].0, group) {
        position(cards, group, from + 1)
    } else {
        from
    }
}

/// The cards with the card of a group, in place of the one that the group had.
pub open spec fn with_card(
    cards: Seq<(Seq<char>, Seq<char>)>,
    group: Seq<char>,
    card: Seq<char>,
) -> Seq<(Seq<char>, Seq<char>)> {
    let p = position(cards, group, 0);
    if p < cards.len() && cards[p].0 == group {
        cards.update(p, (group, card))
    } else {
        cards.insert(p, (group, card))
    }
}

/// The card of a group.
pub open spec fn card_of(cards: Seq<(Seq<char>, Seq<char>)>, group: Seq<char>) -> Option<Seq<char>> {
    let p = position(cards, group, 0);
    if p < cards.len() && cards[p].0 == group {
        Some(cards[p].1)
    } else {
        None
    }
}

proof fn lemma_position(cards: Seq<(Seq<char>, Seq<char>)>, group: Seq<char>, from: int)
    requires
        0 <= from <= cards.len(),
    ensures
        from <= position(cards, group, from) <= cards.len(),
        forall|i: int|
            from <= i < position(cards, group, from) ==> model::precedes(
                (#[trigger] cards[i]).0,
                group,
            ),
        position(cards, group, from) < cards.len() ==> !model::precedes(
            cards[position(cards, group, from)].0,
            group,
        ),
    decreases cards.len() - from,
{
    if from < cards.len() && model::precedes(cards[from].0, group) {
        lemma_position(cards, group, from + 1);
    }
}

/// The position of a group is the only one with smaller groups before it, and no smaller one at it.
proof fn lemma_position_is(cards: Seq<(Seq<char>, Seq<char>)>, group: Seq<char>, p: int, from: int)
    requires
        0 <= from <= p <= cards.len(),
        forall|i: int| from <= i < p ==> model::precedes((#[trigger] cards[i]).0, group),
        p < cards.len() ==> !model::precedes(cards[p].0, group),
    ensures
        position(cards, group, from) == p,
    decreases p - from,
{
    if from < p {
        assert(model::precedes(cards[from].0, group));
        lemma_position_is(cards, group, p, from + 1);
    }
}

proof fn lemma_with_card_sorted(
    cards: Seq<(Seq<char>, Seq<char>)>,
    group: Seq<char>,
    card: Seq<char>,
)
    requires
        is_sorted(cards),
    ensures
        is_sorted(with_card(cards, group, card)),
{
    lemma_position(cards, group, 0);
    let p = position(cards, group, 0);
    let more = with_card(cards, group, card);
    assert forall|i: int, j: int|
        #![trigger more[i], more[j]]
        0 <= i < j < more.len() implies model::precedes(more[i].0, more[j].0) by {
        if p < cards.len() && cards[p].0 == group {
            assert(more[i].0 == cards[i].0);
            assert(more[j].0 == cards[j].0);
        } else {
            if p < cards.len() {
                facts::lemma_precedes_total(cards[p].0, group);
            }
            let a = if i < p {
                i
            } else {
                i - 1
            };
            let b = if j < p {
                j
            } else {
                j - 1
            };
            if i == p {
                if b > p {
                    assert(model::precedes(cards[p].0, cards[b].0));
                    facts::lemma_precedes_transitive(group, cards[p].0, cards[b].0);
                }
            } else if j == p {
                assert(model::precedes(cards[a].0, group));
            } else {
                assert(model::precedes(cards[a].0, cards[b].0));
            }
        }
    }
}

/// A group that gets a card has it, and the cards of the other groups stay as they are.
pub proof fn law_card_is_kept(
    cards: Seq<(Seq<char>, Seq<char>)>,
    group: Seq<char>,
    card: Seq<char>,
    other: Seq<char>,
)
    requires
        is_sorted(cards),
    ensures
        card_of(with_card(cards, group, card), group) == Some(card),
        other != group ==> card_of(with_card(cards, group, card), other) == card_of(cards, other),
{
    let more = with_card(cards, group, card);
    lemma_position(cards, group, 0);
    lemma_with_card_sorted(cards, group, card);
    let p = position(cards, group, 0);
    facts::lemma_precedes_irreflexive(group);
    assert(more[p] == (group, card));
    assert forall|i: int| 0 <= i < p implies model::precedes((#[trigger] more[i]).0, group) by {
        assert(model::precedes(cards[i].0, group));
    }
    lemma_position_is(more, group, p, 0);
    if other != group {
        let q = position(cards, other, 0);
        lemma_position(cards, other, 0);
        facts::lemma_precedes_total(group, other);
        let replaced = p < cards.len() && cards[p].0 == group;
        let q2 = if !replaced && p <= q && (p < q || model::precedes(group, other)) {
            q + 1
        } else {
            q
        };
        if !replaced && p < q {
            // The group at p is not before `group`, and it is before `other`.
            facts::lemma_precedes_total(cards[p].0, group);
            assert(model::precedes(cards[p].0, other));
            facts::lemma_precedes_transitive(group, cards[p].0, other);
        }
        if !replaced && q < p {
            // The group at q is before `group`, and it is not before `other`.
            assert(model::precedes(cards[q].0, group));
            facts::lemma_precedes_total(cards[q].0, other);
            if cards[q].0 != other {
                facts::lemma_precedes_transitive(other, cards[q].0, group);
            }
            if model::precedes(group, other) {
                facts::lemma_precedes_transitive(group, other, group);
            }
        }
        assert forall|i: int| 0 <= i < q2 implies model::precedes((#[trigger] more[i]).0, other) by {
            if replaced {
                assert(model::precedes(cards[i].0, other));
            } else if i < p {
                assert(model::precedes(cards[i].0, other));
            } else if i > p {
                assert(model::precedes(cards[i - 1].0, other));
            }
        }
        if q2 < more.len() && q2 != p {
            let k = if replaced || q2 < p {
                q2
            } else {
                q2 - 1
            };
            assert(more[q2].0 == cards[k].0);
        }
        if q2 == p && q2 < more.len() && !replaced {
            assert(!model::precedes(group, other));
        }
        lemma_position_is(more, other, q2, 0);
    }
}

/// The cards of a person, by group.
pub struct GroupCards {
    entries: Vec<(String, String)>,
}

spec fn card_views(v: Seq<(String, String)>) -> Seq<(Seq<char>, Seq<char>)> {
    v.map_values(|p: (String, String)| (p.0@, p.1@))
}

impl View for GroupCards {
    type V = Seq<(Seq<char>, Seq<char>)>;

    closed spec fn view(&self) -> Seq<(Seq<char>, Seq<char>)> {
        card_views(self.entries@)
    }
}

impl GroupCards {
    #[verifier::type_invariant]
    spec fn entries_are_sorted(self) -> bool {
        is_sorted(card_views(self.entries@))
    }

    /// No cards.
    pub fn new() -> (r: Self)
        ensures
            r@ == Seq::<(Seq<char>, Seq<char>)>::empty(),
    {
        let r = GroupCards { entries: Vec::new() };
        assert(r@ =~= Seq::<(Seq<char>, Seq<char>)>::empty());
        r
    }

    /// The number of groups. The cards are in the order of the groups.
    pub fn len(&self) -> (r: usize)
        ensures
            r == self@.len(),
            is_sorted(self@),
    {
        proof {
            use_type_invariant(self);
        }
        self.entries.len()
    }

    fn find(&self, group: &str) -> (r: usize)
        ensures
            r == position(self@, group@, 0),
            r <= self@.len(),
    {
        let mut i: usize = 0;
        while i < self.entries.len() && ops::precedes(&self.entries[i].0, group)
            invariant
                i <= self.entries@.len(),
                position(self@, group@, 0) == position(self@, group@, i as int),
            decreases self.entries@.len() - i,
        {
            i += 1;
        }
        i
    }

    /// The card of a group.
    pub fn get(&self, group: &str) -> (r: Option<&str>)
        ensures
            json::str_view(r) == card_of(self@, group@),
    {
        let i = self.find(group);
        if i < self.entries.len() && ops::same(&self.entries[i].0, group) {
            Some(self.entries[i].1.as_str())
        } else {
            None
        }
    }

    /// Gives a group a card, in place of the one that it had.
    pub fn upsert(&mut self, group: &str, card: &str)
        ensures
            final(self)@ == with_card(old(self)@, group@, card@),
    {
        proof {
            use_type_invariant(&*self);
            lemma_with_card_sorted(self@, group@, card@);
        }
        let i = self.find(group);
        let found = i < self.entries.len() && ops::same(&self.entries[i].0, group);
        let entry = (group.to_owned(), card.to_owned());
        let mut entries: Vec<(String, String)> = Vec::new();
        std::mem::swap(&mut entries, &mut self.entries);
        let ghost before = entries@;
        if found {
            let _ = entries.remove(i);
        }
        let ghost between = entries@;
        entries.insert(i, entry);
        assert(card_views(entries@) =~= with_card(card_views(before), group@, card@));
        self.entries = entries;
    }

    /// The group and the card at an index.
    pub fn entry(&self, i: usize) -> (r: (&str, &str))
        requires
            i < self@.len(),
        ensures
            (r.0@, r.1@) == self@[i as int],
    {
        (self.entries[i].0.as_str(), self.entries[i].1.as_str())
    }
}

/// Gives a group a card, in place of the one that it had.
pub fn upsert_group_card(group_cards: &mut GroupCards, group_id: &str, card: &str)
    ensures
        final(group_cards)@ == with_card(old(group_cards)@, group_id@, card@),
{
    group_cards.upsert(group_id, card);
}

/// The line of a card.
pub open spec fn card_line(entry: (Seq<char>, Seq<char>)) -> Seq<char> {
    CARD_INDENT@ + entry.0 + ": "@ + entry.1
}

/// The lines of the section of cards.
pub open spec fn section_lines(cards: Seq<(Seq<char>, Seq<char>)>) -> Seq<Seq<char>> {
    seq![CARDS_HEADING@] + cards.map_values(|e: (Seq<char>, Seq<char>)| card_line(e))
}

/// The section of cards, in the order of the groups.
pub open spec fn section(cards: Seq<(Seq<char>, Seq<char>)>) -> Seq<char> {
    if cards.len() == 0 {
        seq![]
    } else {
        model::joined(section_lines(cards), "\n"@)
    }
}

/// Writes the section of cards, in the order of the groups.
pub fn format_group_cards_section(group_cards: &GroupCards) -> (r: String)
    ensures
        r@ == section(group_cards@),
        is_sorted(group_cards@),
{
    if group_cards.len() == 0 {
        return String::new();
    }
    let mut lines: Vec<String> = Vec::new();
    lines.push(CARDS_HEADING.to_owned());
    let ghost cards = group_cards@;
    let mut i: usize = 0;
    assert(model::texts(lines@) =~= section_lines(cards.take(0)));
    while i < group_cards.len()
        invariant
            cards == group_cards@,
            i <= cards.len(),
            model::texts(lines@) == section_lines(cards.take(i as int)),
        decreases cards.len() - i,
    {
        let (group, card) = group_cards.entry(i);
        let line = CARD_INDENT.to_owned().concat(group).concat(": ").concat(card);
        proof {
            facts::lemma_texts_push(lines@, line);
            assert(section_lines(cards.take(i + 1)) =~= section_lines(cards.take(i as int)).push(
                line@,
            ));
        }
        lines.push(line);
        i += 1;
    }
    assert(cards.take(i as int) =~= cards);
    ops::join(&lines, "\n")
}

/// Whether a line belongs to a section of cards, once the section has begun.
pub open spec fn in_section(line: Seq<char>) -> bool {
    model::trimmed(line).len() == 0 || model::begins_with(line, CARD_INDENT@)
}

/// Where the section of cards ends whose lines begin at `from`.
pub open spec fn section_end(lines: Seq<Seq<char>>, from: int) -> int
    decreases lines.len() - from,
{
    if 0 <= from < lines.len() && in_section(lines[from]) {
        section_end(lines, from + 1)
    } else {
        from
    }
}

/// Whether a line heads a section of cards.
pub open spec fn is_heading(line: Seq<char>) -> bool {
    model::trimmed(line) == CARDS_HEADING@
}

/// The group and the card that an entry names.
pub open spec fn entry_of(entry: Seq<char>) -> Option<(Seq<char>, Seq<char>)> {
    let t = model::trimmed(entry);
    let e = if model::begins_with(t, "- "@) {
        t.skip("- "@.len() as int)
    } else {
        t
    };
    match model::find_first(e, ":"@) {
        None => None,
        Some(i) => {
            let group = model::trimmed(e.take(i));
            let card = model::trimmed(e.skip(i + ":"@.len()));
            if group.len() == 0 || card.len() == 0 {
                None
            } else {
                Some((group, card))
            }
        },
    }
}

/// The cards with those that a line of a section names.
pub open spec fn with_line(
    cards: Seq<(Seq<char>, Seq<char>)>,
    line: Seq<char>,
) -> Seq<(Seq<char>, Seq<char>)> {
    if model::trimmed(line).len() == 0 {
        cards
    } else {
        match entry_of(model::trimmed(line)) {
            Some(e) => with_card(cards, e.0, e.1),
            None => cards,
        }
    }
}

/// The cards with those that the lines of a section from `from` to `to` name.
pub open spec fn with_lines(
    cards: Seq<(Seq<char>, Seq<char>)>,
    lines: Seq<Seq<char>>,
    from: int,
    to: int,
) -> Seq<(Seq<char>, Seq<char>)>
    decreases to - from,
{
    if from < 0 || from >= to || to > lines.len() {
        cards
    } else {
        with_lines(with_line(cards, lines[from]), lines, from + 1, to)
    }
}

/// The cards with those that the sections among the lines from `from` on name.
pub open spec fn cards_in(
    cards: Seq<(Seq<char>, Seq<char>)>,
    lines: Seq<Seq<char>>,
    from: int,
) -> Seq<(Seq<char>, Seq<char>)>
    decreases lines.len() - from,
{
    if from < 0 || from >= lines.len() {
        cards
    } else if is_heading(lines[from]) {
        let end = section_end(lines, from + 1);
        if from < end <= lines.len() {
            cards_in(with_lines(cards, lines, from + 1, end), lines, end)
        } else {
            cards
        }
    } else {
        cards_in(cards, lines, from + 1)
    }
}

/// The lines from `from` on outside the sections of cards.
pub open spec fn lines_outside(lines: Seq<Seq<char>>, from: int) -> Seq<Seq<char>>
    decreases lines.len() - from,
{
    if from < 0 || from >= lines.len() {
        seq![]
    } else if is_heading(lines[from]) {
        let end = section_end(lines, from + 1);
        if from < end <= lines.len() {
            lines_outside(lines, end)
        } else {
            seq![]
        }
    } else {
        seq![lines[from]] + lines_outside(lines, from + 1)
    }
}

proof fn lemma_section_end(lines: Seq<Seq<char>>, from: int)
    requires
        0 <= from <= lines.len(),
    ensures
        from <= section_end(lines, from) <= lines.len(),
    decreases lines.len() - from,
{
    if from < lines.len() && in_section(lines[from]) {
        lemma_section_end(lines, from + 1);
    }
}

fn is_in_section(line: &str) -> (r: bool)
    ensures
        r == in_section(line@),
{
    ops::trim(line).is_empty() || ops::starts_with(line, CARD_INDENT)
}

fn heads_section(line: &str) -> (r: bool)
    ensures
        r == is_heading(line@),
{
    ops::same(ops::trim(line), CARDS_HEADING)
}

/// The group and the card that an entry such as `- 100: Name` names.
pub fn parse_group_card_entry(entry: &str) -> (r: Option<(String, String)>)
    ensures
        match r {
            Some((group, card)) => entry_of(entry@) == Some((group@, card@)),
            None => entry_of(entry@) is None,
        },
{
    proof {
        reveal_strlit("- ");
        reveal_strlit(":");
    }
    let t = ops::trim(entry);
    let e = if ops::starts_with(t, "- ") {
        let n: usize = t.unicode_len();
        let rest = t.substring_char(2, n);
        assert(rest@ =~= t@.skip(2));
        rest
    } else {
        t
    };
    proof {
        facts::lemma_find_from(e@, ":"@, 0);
    }
    match ops::find(e, ":") {
        None => None,
        Some(i) => {
            let n: usize = e.unicode_len();
            let group = ops::trim(e.substring_char(0, i));
            assert(e@.subrange(i + 1, n as int) =~= e@.skip(i + 1));
            let card = ops::trim(e.substring_char(i + 1, n));
            if group.is_empty() || card.is_empty() {
                None
            } else {
                Some((group.to_owned(), card.to_owned()))
            }
        },
    }
}

/// The cards that the sections of a profile name.
pub fn extract_group_cards_from_body(body: &str) -> (r: GroupCards)
    ensures
        r@ == cards_in(seq![], model::lines_of(body@), 0),
{
    let lines = ops::lines(body);
    let ghost views = model::lines_of(body@);
    let mut cards = GroupCards::new();
    let mut i: usize = 0;
    while i < lines.len()
        invariant
            views == model::texts(lines@),
            i <= lines@.len(),
            cards_in(seq![], views, 0) == cards_in(cards@, views, i as int),
        decreases lines@.len() - i,
    {
        if heads_section(&lines[i]) {
            i += 1;
            let ghost start = i as int;
            let ghost before = cards@;
            proof {
                lemma_section_end(views, start);
            }
            while i < lines.len() && is_in_section(&lines[i])
                invariant
                    views == model::texts(lines@),
                    start <= i <= section_end(views, start) <= views.len(),
                    0 < start <= lines@.len(),
                    section_end(views, start) == section_end(views, i as int),
                    with_lines(before, views, start, section_end(views, start)) == with_lines(
                        cards@,
                        views,
                        i as int,
                        section_end(views, start),
                    ),
                decreases lines@.len() - i,
            {
                proof {
                    lemma_section_end(views, i + 1);
                }
                let nested = ops::trim(&lines[i]);
                if !nested.is_empty() {
                    if let Some((group, card)) = parse_group_card_entry(nested) {
                        cards.upsert(&group, &card);
                    }
                }
                i += 1;
            }
        } else {
            i += 1;
        }
    }
    cards
}

/// A profile without its sections of cards.
pub open spec fn without_sections(body: Seq<char>) -> Seq<char> {
    model::trimmed(model::joined(lines_outside(model::lines_of(body), 0), "\n"@))
}

/// Removes the sections of cards from a profile.
pub fn strip_group_cards_section(body: &str) -> (r: String)
    ensures
        r@ == without_sections(body@),
{
    let lines = ops::lines(body);
    let ghost views = model::lines_of(body@);
    let mut kept: Vec<String> = Vec::new();
    let mut i: usize = 0;
    while i < lines.len()
        invariant
            views == model::texts(lines@),
            i <= lines@.len(),
            lines_outside(views, 0) == model::texts(kept@) + lines_outside(views, i as int),
        decreases lines@.len() - i,
    {
        if heads_section(&lines[i]) {
            i += 1;
            let ghost start = i as int;
            proof {
                lemma_section_end(views, start);
            }
            while i < lines.len() && is_in_section(&lines[i])
                invariant
                    views == model::texts(lines@),
                    start <= i <= lines@.len(),
                    0 < start,
                    section_end(views, start) == section_end(views, i as int),
                decreases lines@.len() - i,
            {
                i += 1;
            }
        } else {
            let line = lines[i].clone();
            proof {
                facts::lemma_texts_push(kept@, line);
            }
            kept.push(line);
            i += 1;
        }
    }
    assert(lines_outside(views, i as int) =~= seq![]);
    assert(model::texts(kept@) + Seq::<Seq<char>>::empty() =~= model::texts(kept@));
    ops::trim(&ops::join(&kept, "\n")).to_owned()
}

} // verus!
