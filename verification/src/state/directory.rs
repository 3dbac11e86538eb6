//! The directory of the groups that the bridge knows.
use crate::id_table;
use crate::id_table::IdTable;
use crate::json;
use crate::text::model;
use crate::text::number;
use crate::text::ops;
use vstd::prelude::*;
use vstd::string::*;

verus! {

/// A member of a group.
pub struct GroupMember {
    pub group_id: i64,
    pub user_id: i64,
    pub display_name: String,
    pub last_seen: u64,
}

/// The model of a member.
pub struct MemberView {
    pub group_id: i64,
    pub user_id: i64,
    pub display_name: Seq<char>,
    pub last_seen: u64,
}

impl View for GroupMember {
    type V = MemberView;

    open spec fn view(&self) -> MemberView {
        MemberView {
            group_id: self.group_id,
            user_id: self.user_id,
            display_name: self.display_name@,
            last_seen: self.last_seen,
        }
    }
}

/// The models of members.
pub open spec fn member_views(v: Seq<GroupMember>) -> Seq<MemberView> {
    v.map_values(|m: GroupMember| m@)
}

/// What the bridge knows of a group.
pub struct GroupDirectoryEntry {
    pub group_id: i64,
    pub title: Option<String>,
    pub last_active: u64,
    pub members: Vec<GroupMember>,
}

/// The model of what is known of a group.
pub struct EntryView {
    pub group_id: i64,
    pub title: Option<Seq<char>>,
    pub last_active: u64,
    pub members: Seq<MemberView>,
}

impl View for GroupDirectoryEntry {
    type V = EntryView;

    open spec fn view(&self) -> EntryView {
        EntryView {
            group_id: self.group_id,
            title: json::text_view(self.title),
            last_active: self.last_active,
            members: member_views(self.members@),
        }
    }
}

/// A group of which nothing is known.
pub open spec fn unknown_group(group_id: i64) -> EntryView {
    EntryView { group_id, title: None, last_active: 0, members: seq![] }
}

impl GroupDirectoryEntry {
    /// A group of which nothing is known.
    pub fn unknown(group_id: i64) -> (r: Self)
        ensures
            r@ == unknown_group(group_id),
    {
        let members: Vec<GroupMember> = Vec::new();
        assert(member_views(members@) =~= seq![]);
        GroupDirectoryEntry { group_id, title: None, last_active: 0, members }
    }
}

/// The models of entries, each under its id.
pub open spec fn entry_views(v: Seq<(i64, GroupDirectoryEntry)>) -> Seq<(i64, EntryView)> {
    v.map_values(|e: (i64, GroupDirectoryEntry)| (e.0, e.1@))
}

/// What is known of a group, if only that it is there.
pub open spec fn known(entries: Seq<(i64, EntryView)>, group_id: i64) -> EntryView {
    if id_table::holds(entries, group_id) {
        id_table::value(entries, group_id)
    } else {
        unknown_group(group_id)
    }
}

/// The title, where it is not blank.
pub open spec fn nonblank(title: Seq<char>) -> Option<Seq<char>> {
    if model::trimmed(title).len() == 0 {
        None
    } else {
        Some(title)
    }
}

/// The entries with a group, in place of what was known of it.
pub open spec fn with_group(
    entries: Seq<(i64, EntryView)>,
    group_id: i64,
    title: Seq<char>,
    last_active: u64,
) -> Seq<(i64, EntryView)> {
    id_table::with(
        entries,
        group_id,
        EntryView { group_id, title: nonblank(title), last_active, members: seq![] },
    )
}

/// The entries with one more member of a group.
pub open spec fn with_member(entries: Seq<(i64, EntryView)>, member: MemberView) -> Seq<
    (i64, EntryView),
> {
    let group = known(entries, member.group_id);
    id_table::with(
        entries,
        member.group_id,
        EntryView { members: group.members.push(member), ..group },
    )
}

/// The entries with the title of a group.
pub open spec fn with_title(entries: Seq<(i64, EntryView)>, group_id: i64, title: Seq<char>) -> Seq<
    (i64, EntryView),
> {
    let group = known(entries, group_id);
    id_table::with(entries, group_id, EntryView { title: Some(title), ..group })
}

/// The entries with the titles of groups, one after the other.
pub open spec fn with_titles(
    entries: Seq<(i64, EntryView)>,
    titles: Seq<(i64, Seq<char>)>,
) -> Seq<(i64, EntryView)>
    decreases titles.len(),
{
    if titles.len() == 0 {
        entries
    } else {
        with_title(with_titles(entries, titles.drop_last()), titles.last().0, titles.last().1)
    }
}

/// The number in a column, or what is wrong with it.
pub open spec fn id_column(what: Seq<char>, text: Seq<char>) -> Result<int, Seq<char>> {
    match number::parsed_i64(text) {
        Ok(n) => Ok(n),
        Err(e) => Err("Invalid "@ + what + " in DB: "@ + e.spec_message()),
    }
}

/// The time in a column, or what is wrong with it.
pub open spec fn time_column(what: Seq<char>, text: Seq<char>) -> Result<int, Seq<char>> {
    match number::parsed_unsigned(text, u64::MAX as nat) {
        Ok(n) => Ok(n as int),
        Err(e) => Err("Invalid "@ + what + " in DB: "@ + e.spec_message()),
    }
}

fn read_id(what: &str, text: &str) -> (r: Result<i64, String>)
    ensures
        match r {
            Ok(n) => id_column(what@, text@) == Ok::<int, Seq<char>>(n as int),
            Err(e) => id_column(what@, text@) == Err::<int, Seq<char>>(e@),
        },
{
    match number::parse_i64(text) {
        Ok(n) => Ok(n),
        Err(e) => Err(
            "Invalid ".to_owned().concat(what).concat(" in DB: ").concat(e.message()),
        ),
    }
}

fn read_time(what: &str, text: &str) -> (r: Result<u64, String>)
    ensures
        match r {
            Ok(n) => time_column(what@, text@) == Ok::<int, Seq<char>>(n as int),
            Err(e) => time_column(what@, text@) == Err::<int, Seq<char>>(e@),
        },
{
    match number::parse_unsigned(text, u64::MAX) {
        Ok(n) => Ok(n),
        Err(e) => Err(
            "Invalid ".to_owned().concat(what).concat(" in DB: ").concat(e.message()),
        ),
    }
}

/// A directory that is being put together from the rows of the database.
pub struct GroupDirectory {
    groups: IdTable<GroupDirectoryEntry>,
}

impl View for GroupDirectory {
    type V = Seq<(i64, EntryView)>;

    closed spec fn view(&self) -> Seq<(i64, EntryView)> {
        entry_views(self.groups@)
    }
}

proof fn lemma_entry_views(v: Seq<(i64, GroupDirectoryEntry)>, id: i64)
    ensures
        id_table::position(v, id, 0) == id_table::position(entry_views(v), id, 0),
        id_table::holds(v, id) == id_table::holds(entry_views(v), id),
        id_table::holds(v, id) ==> id_table::value(v, id)@ == id_table::value(entry_views(v), id),
{
    id_table::lemma_same_positions(v, entry_views(v), id, 0);
    id_table::lemma_position(v, id, 0);
}

proof fn lemma_entry_views_with(
    v: Seq<(i64, GroupDirectoryEntry)>,
    id: i64,
    e: GroupDirectoryEntry,
)
    ensures
        entry_views(id_table::with(v, id, e)) == id_table::with(entry_views(v), id, e@),
{
    lemma_entry_views(v, id);
    id_table::lemma_position(v, id, 0);
    assert(entry_views(id_table::with(v, id, e)) =~= id_table::with(entry_views(v), id, e@));
}

impl GroupDirectory {
    pub fn new() -> (r: Self)
        ensures
            r@ == Seq::<(i64, EntryView)>::empty(),
    {
        let r = GroupDirectory { groups: IdTable::new() };
        assert(r@ =~= Seq::<(i64, EntryView)>::empty());
        r
    }

    fn take_known(&mut self, group_id: i64) -> (r: GroupDirectoryEntry)
        ensures
            r@ == known(old(self)@, group_id),
            forall|e: GroupDirectoryEntry|
                #![trigger id_table::with(final(self).groups@, group_id, e)]
                id_table::with(final(self).groups@, group_id, e) == id_table::with(
                    old(self).groups@,
                    group_id,
                    e,
                ),
    {
        let _ = self.groups.len();
        proof {
            lemma_entry_views(self.groups@, group_id);
            assert forall|e: GroupDirectoryEntry| id_table::holds(
                old(self).groups@,
                group_id,
            ) implies #[trigger] id_table::with(
                old(self).groups@.remove(id_table::position(old(self).groups@, group_id, 0)),
                group_id,
                e,
            ) == id_table::with(old(self).groups@, group_id, e) by {
                id_table::lemma_put_back(old(self).groups@, group_id, e);
            }
        }
        match self.groups.take(group_id) {
            Some(entry) => entry,
            None => GroupDirectoryEntry::unknown(group_id),
        }
    }

    fn put_back(&mut self, group_id: i64, entry: GroupDirectoryEntry)
        ensures
            final(self).groups@ == id_table::with(old(self).groups@, group_id, entry),
            final(self)@ == id_table::with(old(self)@, group_id, entry@),
    {
        proof {
            lemma_entry_views_with(self.groups@, group_id, entry);
        }
        let _ = self.groups.put(group_id, entry);
    }

    /// Adds a row of the table of groups: the id, the title, and when the group was last active.
    pub fn add_group_row(&mut self, group_id: &str, title: &str, last_active: &str) -> (r: Result<
        (),
        String,
    >)
        ensures
            match (id_column("group_id"@, group_id@), time_column("last_active"@, last_active@)) {
                (Err(e), _) => r is Err && r->Err_0@ == e && final(self)@ == old(self)@,
                (Ok(_), Err(e)) => r is Err && r->Err_0@ == e && final(self)@ == old(self)@,
                (Ok(id), Ok(time)) => r is Ok && final(self)@ == with_group(
                    old(self)@,
                    id as i64,
                    title@,
                    time as u64,
                ),
            },
    {
        let id = match read_id("group_id", group_id) {
            Ok(id) => id,
            Err(e) => {
                return Err(e);
            },
        };
        let last_active = match read_time("last_active", last_active) {
            Ok(t) => t,
            Err(e) => {
                return Err(e);
            },
        };
        let title = if ops::trim(title).is_empty() {
            None
        } else {
            Some(title.to_owned())
        };
        let members: Vec<GroupMember> = Vec::new();
        assert(member_views(members@) =~= seq![]);
        self.put_back(id, GroupDirectoryEntry { group_id: id, title, last_active, members });
        Ok(())
    }

    /// Adds a row of the table of members: the ids of the group and of the user, the name, and
    /// when the member was last seen.
    pub fn add_member_row(
        &mut self,
        group_id: &str,
        user_id: &str,
        display_name: &str,
        last_seen: &str,
    ) -> (r: Result<(), String>)
        ensures
            match (
                id_column("member group_id"@, group_id@),
                id_column("member user_id"@, user_id@),
                time_column("last_seen"@, last_seen@),
            ) {
                (Err(e), _, _) => r is Err && r->Err_0@ == e && final(self)@ == old(self)@,
                (Ok(_), Err(e), _) => r is Err && r->Err_0@ == e && final(self)@ == old(self)@,
                (Ok(_), Ok(_), Err(e)) => r is Err && r->Err_0@ == e && final(self)@ == old(self)@,
                (Ok(group), Ok(user), Ok(time)) => r is Ok && final(self)@ == with_member(
                    old(self)@,
                    MemberView {
                        group_id: group as i64,
                        user_id: user as i64,
                        display_name: display_name@,
                        last_seen: time as u64,
                    },
                ),
            },
    {
        let group_id = match read_id("member group_id", group_id) {
            Ok(id) => id,
            Err(e) => {
                return Err(e);
            },
        };
        let user_id = match read_id("member user_id", user_id) {
            Ok(id) => id,
            Err(e) => {
                return Err(e);
            },
        };
        let last_seen = match read_time("last_seen", last_seen) {
            Ok(t) => t,
            Err(e) => {
                return Err(e);
            },
        };
        let mut entry = self.take_known(group_id);
        let ghost before = entry@;
        let member = GroupMember {
            group_id,
            user_id,
            display_name: display_name.to_owned(),
            last_seen,
        };
        entry.members.push(member);
        proof {
            assert(member_views(entry.members@) =~= before.members.push(member@));
            assert(entry@ == EntryView { members: before.members.push(member@), ..before });
            lemma_entry_views_with(old(self).groups@, group_id, entry);
        }
        self.put_back(group_id, entry);
        Ok(())
    }

    /// Gives a group the title that it was last seen with.
    pub fn set_title(&mut self, group_id: i64, title: &str)
        ensures
            final(self)@ == with_title(old(self)@, group_id, title@),
    {
        let entry = self.take_known(group_id);
        let ghost before = entry@;
        let titled = GroupDirectoryEntry { title: Some(title.to_owned()), ..entry };
        proof {
            assert(titled@ == EntryView { title: Some(title@), ..before });
            lemma_entry_views_with(old(self).groups@, group_id, titled);
        }
        self.put_back(group_id, titled);
    }

    /// Gives the groups the titles that they were last seen with.
    pub fn set_titles(&mut self, titles: &GroupTitles)
        ensures
            final(self)@ == with_titles(old(self)@, titles@),
    {
        let ghost views = titles@;
        let mut i: usize = 0;
        while i < titles.len()
            invariant
                views == titles@,
                i <= views.len(),
                self@ == with_titles(old(self)@, views.take(i as int)),
            decreases views.len() - i,
        {
            assert(views.take(i + 1).drop_last() =~= views.take(i as int));
            let (id, title) = titles.title_at(i);
            self.set_title(id, title);
            i += 1;
        }
        assert(views.take(i as int) =~= views);
    }

    /// The groups, in the order of their ids.
    pub fn into_snapshot(self) -> (r: Vec<GroupDirectoryEntry>)
        ensures
            r@.len() == self@.len(),
            forall|i: int| 0 <= i < r@.len() ==> (#[trigger] r@[i])@ == self@[i].1,
            id_table::is_sorted(self@),
    {
        let ghost views = self@;
        let mut entries = self.groups.into_entries();
        let ghost all = entries@;
        assert forall|i: int, j: int|
            #![trigger views[i], views[j]]
            0 <= i < j < views.len() implies views[i].0 < views[j].0 by {
            assert(all[i].0 < all[j].0);
        }
        let mut out: Vec<GroupDirectoryEntry> = Vec::new();
        while entries.len() > 0
            invariant
                entries@.len() + out@.len() == all.len(),
                forall|i: int| 0 <= i < entries@.len() ==> entries@[i] == #[trigger] all[i],
                forall|i: int|
                    0 <= i < out@.len() ==> (#[trigger] out@[i]) == all[all.len() - 1 - i].1,
            decreases entries@.len(),
        {
            let ghost before = entries@;
            if let Some((_, entry)) = entries.pop() {
                assert(before[before.len() - 1] == all[before.len() - 1]);
                out.push(entry);
            }
        }
        let mut r: Vec<GroupDirectoryEntry> = Vec::new();
        let ghost back = out@;
        while out.len() > 0
            invariant
                out@.len() + r@.len() == all.len(),
                back.len() == all.len(),
                forall|i: int| 0 <= i < back.len() ==> (#[trigger] back[i]) == all[all.len() - 1 - i].1,
                forall|i: int| 0 <= i < out@.len() ==> out@[i] == #[trigger] back[i],
                forall|i: int| 0 <= i < r@.len() ==> (#[trigger] r@[i]) == all[i].1,
            decreases out@.len(),
        {
            let ghost before = out@;
            if let Some(entry) = out.pop() {
                assert(before[before.len() - 1] == back[before.len() - 1]);
                r.push(entry);
            }
        }
        r
    }
}

/// Whether each group stands under its own id.
pub open spec fn is_filed(entries: Seq<(i64, EntryView)>) -> bool {
    forall|i: int| 0 <= i < entries.len() ==> (#[trigger] entries[i]).1.group_id == entries[i].0
}

/// Each group stands under its own id, whatever rows and titles are added: so a snapshot is in
/// the order of the ids of its groups.
pub proof fn law_groups_stand_under_their_ids(
    entries: Seq<(i64, EntryView)>,
    group_id: i64,
    title: Seq<char>,
    last_active: u64,
    member: MemberView,
)
    requires
        is_filed(entries),
    ensures
        is_filed(Seq::empty()),
        is_filed(with_group(entries, group_id, title, last_active)),
        is_filed(with_member(entries, member)),
        is_filed(with_title(entries, group_id, title)),
{
    lemma_filed_with(
        entries,
        group_id,
        EntryView { group_id, title: nonblank(title), last_active, members: seq![] },
    );
    let group = known(entries, member.group_id);
    lemma_known_is_filed(entries, member.group_id);
    lemma_filed_with(
        entries,
        member.group_id,
        EntryView { members: group.members.push(member), ..group },
    );
    lemma_known_is_filed(entries, group_id);
    lemma_filed_with(
        entries,
        group_id,
        EntryView { title: Some(title), ..known(entries, group_id) },
    );
}

proof fn lemma_known_is_filed(entries: Seq<(i64, EntryView)>, group_id: i64)
    requires
        is_filed(entries),
    ensures
        known(entries, group_id).group_id == group_id,
{
    id_table::lemma_position(entries, group_id, 0);
    let p = id_table::position(entries, group_id, 0);
    if id_table::holds(entries, group_id) {
        assert(entries[p].1.group_id == entries[p].0);
    }
}

proof fn lemma_filed_with(entries: Seq<(i64, EntryView)>, group_id: i64, entry: EntryView)
    requires
        is_filed(entries),
        entry.group_id == group_id,
    ensures
        is_filed(id_table::with(entries, group_id, entry)),
{
    id_table::lemma_position(entries, group_id, 0);
    let p = id_table::position(entries, group_id, 0);
    let more = id_table::with(entries, group_id, entry);
    assert forall|i: int| 0 <= i < more.len() implies (#[trigger] more[i]).1.group_id == more[i].0 by {
        if i != p {
            let k = if id_table::holds(entries, group_id) || i < p {
                i
            } else {
                i - 1
            };
            assert(more[i] == entries[k]);
        }
    }
}

/// The titles that groups were last seen with.
pub struct GroupTitles {
    titles: IdTable<String>,
}

/// The models of titles, each under its id.
pub open spec fn title_views(v: Seq<(i64, String)>) -> Seq<(i64, Seq<char>)> {
    v.map_values(|t: (i64, String)| (t.0, t.1@))
}

impl View for GroupTitles {
    type V = Seq<(i64, Seq<char>)>;

    closed spec fn view(&self) -> Seq<(i64, Seq<char>)> {
        title_views(self.titles@)
    }
}

impl GroupTitles {
    pub fn new() -> (r: Self)
        ensures
            r@ == Seq::<(i64, Seq<char>)>::empty(),
    {
        let r = GroupTitles { titles: IdTable::new() };
        assert(r@ =~= Seq::<(i64, Seq<char>)>::empty());
        r
    }

    /// The number of groups.
    pub fn len(&self) -> (r: usize)
        ensures
            r == self@.len(),
    {
        self.titles.len()
    }

    fn title_at(&self, i: usize) -> (r: (i64, &str))
        requires
            i < self@.len(),
        ensures
            (r.0, r.1@) == self@[i as int],
    {
        (self.titles.id_at(i), self.titles.value_at(i).as_str())
    }

    /// Takes note of the title of a group.
    pub fn set_group_title(&mut self, group_id: i64, title: &str)
        ensures
            final(self)@ == id_table::with(old(self)@, group_id, title@),
    {
        let owned = title.to_owned();
        proof {
            id_table::lemma_same_positions(self.titles@, self@, group_id, 0);
            id_table::lemma_position(self.titles@, group_id, 0);
            assert(title_views(id_table::with(self.titles@, group_id, owned)) =~= id_table::with(
                self@,
                group_id,
                title@,
            ));
        }
        let _ = self.titles.put(group_id, owned);
    }

    /// The title of a group.
    pub fn get_group_title(&self, group_id: i64) -> (r: Option<&str>)
        ensures
            json::str_view(r) == (if id_table::holds(self@, group_id) {
                Some(id_table::value(self@, group_id))
            } else {
                None
            }),
    {
        proof {
            id_table::lemma_same_positions(self.titles@, self@, group_id, 0);
            id_table::lemma_position(self.titles@, group_id, 0);
        }
        match self.titles.get(group_id) {
            Some(t) => Some(t.as_str()),
            None => None,
        }
    }

    /// A group was active, under a title where it has one: a title that is not blank is noted,
    /// trimmed. The title to store is handed back; a blank one is empty.
    pub fn touch_group(&mut self, group_id: i64, title: Option<&str>) -> (r: String)
        ensures
            r@ == (match title {
                Some(t) => model::trimmed(t@),
                None => Seq::<char>::empty(),
            }),
            final(self)@ == (if r@.len() == 0 {
                old(self)@
            } else {
                id_table::with(old(self)@, group_id, r@)
            }),
    {
        match title {
            Some(t) => {
                let t = ops::trim(t);
                if !t.is_empty() {
                    self.set_group_title(group_id, t);
                }
                t.to_owned()
            },
            None => String::new(),
        }
    }
}

/// The name that a member is listed under.
pub open spec fn listed_name(user_id: int, display_name: Seq<char>) -> Seq<char> {
    if model::trimmed(display_name).len() == 0 {
        "QQ user "@ + number::dec(user_id)
    } else {
        model::trimmed(display_name)
    }
}

/// The name that a member is listed under: the trimmed display name, or one made of the id.
pub fn record_group_member(user_id: i64, display_name: &str) -> (r: String)
    ensures
        r@ == listed_name(user_id as int, display_name@),
{
    let name = ops::trim(display_name);
    if name.is_empty() {
        "QQ user ".to_owned().concat(&number::dec_i64(user_id))
    } else {
        name.to_owned()
    }
}

/// A title that a group was last seen with goes before the one in the database.
pub proof fn law_seen_title_wins(
    entries: Seq<(i64, EntryView)>,
    group_id: i64,
    title: Seq<char>,
)
    requires
        id_table::is_sorted(entries),
    ensures
        known(with_title(entries, group_id, title), group_id).title == Some(title),
        known(with_title(entries, group_id, title), group_id).members == known(
            entries,
            group_id,
        ).members,
{
    let group = known(entries, group_id);
    id_table::law_value_is_kept(
        entries,
        group_id,
        EntryView { title: Some(title), ..group },
        group_id,
    );
}

/// A member is listed in their group, and in no other.
pub proof fn law_member_is_listed_once(
    entries: Seq<(i64, EntryView)>,
    member: MemberView,
    other: i64,
)
    requires
        id_table::is_sorted(entries),
        other != member.group_id,
    ensures
        known(with_member(entries, member), member.group_id).members == known(
            entries,
            member.group_id,
        ).members.push(member),
        known(with_member(entries, member), other) == known(entries, other),
{
    let group = known(entries, member.group_id);
    let more = EntryView { members: group.members.push(member), ..group };
    id_table::law_value_is_kept(entries, member.group_id, more, other);
}

} // verus!
