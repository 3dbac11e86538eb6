//! What holds of the directory of groups, of histories and of the keys of chats.
use super::directory;
use super::directory::EntryView;
use super::history;
use super::history::MessageView;
use super::sessions;
use crate::id_table;
use crate::text::facts;
use crate::text::model;
use crate::text::number;
use vstd::prelude::*;

verus! {

/// A group that is read has its title, unless that is blank, and its time; the other groups stay as
/// they are.
pub proof fn law_group_is_read(
    entries: Seq<(i64, EntryView)>,
    group_id: i64,
    title: Seq<char>,
    last_active: u64,
    other: i64,
)
    requires
        id_table::is_sorted(entries),
    ensures
        ({
            let after = directory::with_group(entries, group_id, title, last_active);
            let group = directory::known(after, group_id);
            &&& id_table::holds(after, group_id)
            &&& model::trimmed(title).len() > 0 ==> group.title == Some(title)
            &&& model::trimmed(title).len() == 0 ==> group.title is None
            &&& group.group_id == group_id
            &&& group.last_active == last_active
            &&& group.members.len() == 0
            &&& other != group_id ==> directory::known(after, other) == directory::known(
                entries,
                other,
            )
        }),
{
    let value = EntryView {
        group_id,
        title: directory::nonblank(title),
        last_active,
        members: seq![],
    };
    id_table::law_value_is_kept(entries, group_id, value, other);
    id_table::law_value_is_kept(entries, group_id, value, group_id);
}

/// The groups get the titles that they were last seen with, each its own, and keep all else; a group
/// without such a title stays as it is.
pub proof fn law_seen_titles_are_taken(
    entries: Seq<(i64, EntryView)>,
    titles: Seq<(i64, Seq<char>)>,
    i: int,
    other: i64,
)
    requires
        id_table::is_sorted(entries),
        id_table::is_sorted(titles),
    ensures
        id_table::is_sorted(directory::with_titles(entries, titles)),
        0 <= i < titles.len() ==> {
            let after = directory::known(directory::with_titles(entries, titles), titles[i].0);
            &&& after.title == Some(titles[i].1)
            &&& after.members == directory::known(entries, titles[i].0).members
            &&& after.last_active == directory::known(entries, titles[i].0).last_active
        },
        (forall|j: int| 0 <= j < titles.len() ==> (#[trigger] titles[j]).0 != other)
            ==> directory::known(directory::with_titles(entries, titles), other)
            == directory::known(entries, other),
    decreases titles.len(),
{
    if titles.len() > 0 {
        let some = titles.drop_last();
        let last = titles.last();
        law_seen_titles_are_taken(entries, some, i, other);
        law_seen_titles_are_taken(entries, some, i, last.0);
        let before = directory::with_titles(entries, some);
        assert forall|j: int| 0 <= j < some.len() implies (#[trigger] some[j]).0 != last.0 by {
            assert(titles[j].0 < titles[titles.len() - 1].0);
        }
        let value = EntryView { title: Some(last.1), ..directory::known(before, last.0) };
        id_table::lemma_with_is_sorted(before, last.0, value);
        id_table::law_value_is_kept(before, last.0, value, last.0);
        id_table::law_value_is_kept(before, last.0, value, other);
        if 0 <= i < titles.len() - 1 {
            assert(titles[i].0 < titles[titles.len() - 1].0);
            id_table::law_value_is_kept(before, last.0, value, titles[i].0);
            assert(some[i] == titles[i]);
        }
        if forall|j: int| 0 <= j < titles.len() ==> (#[trigger] titles[j]).0 != other {
            assert forall|j: int| 0 <= j < some.len() implies (#[trigger] some[j]).0 != other by {
                assert(titles[j].0 != other);
            }
            assert(titles[titles.len() - 1].0 != other);
        }
    }
}

/// A member is listed under their name, or under their number if they have none.
pub proof fn law_member_is_named(user_id: int, name: Seq<char>)
    ensures
        model::trimmed(name).len() > 0 ==> directory::listed_name(user_id, name) == model::trimmed(
            name,
        ),
        model::trimmed(name).len() == 0 ==> directory::listed_name(user_id, name) == "QQ user "@
            + number::dec(user_id),
{
}

/// Numbers and times that were written into a column are read back from it.
pub proof fn law_columns_are_read_back(what: Seq<char>, id: i64, time: u64)
    ensures
        directory::id_column(what, number::dec(id as int)) == Ok::<int, Seq<char>>(id as int),
        directory::time_column(what, number::dec(time as int)) == Ok::<int, Seq<char>>(time as int),
        directory::id_column(what, seq![]) is Err,
        directory::time_column(what, seq![]) is Err,
{
    number::lemma_parse_of_dec(id as int);
    number::lemma_parse_of_dec_unsigned(time as nat, u64::MAX as nat);
}

/// With no room for messages nothing is kept of them.
pub proof fn law_no_room_keeps_nothing(
    m: Map<Seq<char>, Seq<MessageView>>,
    session: Seq<char>,
    msg: MessageView,
)
    ensures
        history::recorded(m, session, msg, 0) == m,
{
}

/// A key without a colon names no chat, and one whose number cannot be read is an error.
pub proof fn law_bad_keys_name_no_chat(kind: Seq<char>, key: Seq<char>)
    ensures
        !key.contains(':') ==> sessions::parsed_target(key) == Ok::<
            Option<(Seq<char>, int)>,
            Seq<char>,
        >(None),
        !kind.contains(':') ==> sessions::parsed_target(kind + ":"@) is Err,
{
    reveal_strlit(":");
    if !key.contains(':') {
        assert forall|j: int| 0 <= j implies !model::occurs_at(key, ":"@, j) by {
            if model::occurs_at(key, ":"@, j) {
                assert(key.subrange(j, j + 1)[0] == key[j]);
            }
        }
        facts::lemma_find_none(key, ":"@, 0);
    }
    if !kind.contains(':') {
        let s = kind + ":"@;
        let at = kind.len() as int;
        assert(s.subrange(at, at + 1) =~= ":"@);
        assert forall|j: int| 0 <= j < at implies !model::occurs_at(s, ":"@, j) by {
            if model::occurs_at(s, ":"@, j) {
                assert(s.subrange(j, j + 1)[0] == s[j]);
                assert(s[j] == kind[j]);
            }
        }
        facts::lemma_find_is(s, ":"@, 0, at);
        assert(s.skip(at + 1) =~= seq![]);
    }
}

} // verus!
