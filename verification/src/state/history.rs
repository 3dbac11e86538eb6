//! The last messages of each group.
use super::replies;
use crate::json;
use crate::text::table::TextMap;
use vstd::prelude::*;

verus! {

/// A message in a group.
pub struct GroupMessage {
    pub display_name: String,
    pub text: String,
    pub timestamp: u64,
    pub message_id: Option<i64>,
    pub is_bot: bool,
}

/// The model of a message in a group.
pub struct MessageView {
    pub display_name: Seq<char>,
    pub text: Seq<char>,
    pub timestamp: u64,
    pub message_id: Option<int>,
    pub is_bot: bool,
}

impl View for GroupMessage {
    type V = MessageView;

    open spec fn view(&self) -> MessageView {
        MessageView {
            display_name: self.display_name@,
            text: self.text@,
            timestamp: self.timestamp,
            message_id: json::int_view(self.message_id),
            is_bot: self.is_bot,
        }
    }
}

impl GroupMessage {
    fn copy(&self) -> (r: GroupMessage)
        ensures
            r@ == self@,
    {
        GroupMessage {
            display_name: self.display_name.clone(),
            text: self.text.clone(),
            timestamp: self.timestamp,
            message_id: self.message_id,
            is_bot: self.is_bot,
        }
    }
}

/// The models of messages.
pub open spec fn message_views(v: Seq<GroupMessage>) -> Seq<MessageView> {
    v.map_values(|m: GroupMessage| m@)
}

/// The last messages of each group, by session.
pub struct GroupHistory {
    sessions: TextMap<Vec<GroupMessage>>,
}

impl View for GroupHistory {
    type V = Map<Seq<char>, Seq<MessageView>>;

    closed spec fn view(&self) -> Map<Seq<char>, Seq<MessageView>> {
        self.sessions@.map_values(|v: Vec<GroupMessage>| message_views(v@))
    }
}

/// The messages of a session, or none.
pub open spec fn messages_of(
    m: Map<Seq<char>, Seq<MessageView>>,
    session: Seq<char>,
) -> Seq<MessageView> {
    if m.dom().contains(session) {
        m[session]
    } else {
        seq![]
    }
}

/// The histories with one more message of a session. With no room for messages nothing is kept.
pub open spec fn recorded(
    m: Map<Seq<char>, Seq<MessageView>>,
    session: Seq<char>,
    msg: MessageView,
    max_size: nat,
) -> Map<Seq<char>, Seq<MessageView>> {
    if max_size == 0 {
        m
    } else {
        m.insert(session, replies::last_of(messages_of(m, session).push(msg), max_size))
    }
}

impl GroupHistory {
    pub fn new() -> (r: Self)
        ensures
            r@ == Map::<Seq<char>, Seq<MessageView>>::empty(),
    {
        let r = GroupHistory { sessions: TextMap::new() };
        assert(r@ =~= Map::<Seq<char>, Seq<MessageView>>::empty());
        r
    }

    /// Takes note of a message, and forgets the oldest ones beyond `max_size`.
    pub fn record_group_message(&mut self, session_key: &str, msg: GroupMessage, max_size: usize)
        ensures
            final(self)@ == recorded(old(self)@, session_key@, msg@, max_size as nat),
    {
        if max_size == 0 {
            return;
        }
        let mut list = match self.sessions.remove(session_key) {
            Some(list) => list,
            None => Vec::new(),
        };
        let ghost before = messages_of(old(self)@, session_key@);
        assert(message_views(list@) =~= before);
        list.push(msg);
        let ghost more = before.push(msg@);
        assert(message_views(list@) =~= more);
        let ghost mut dropped: int = 0;
        assert(more.skip(0) =~= more);
        while list.len() > max_size
            invariant
                0 <= dropped <= more.len(),
                list@.len() == more.len() - dropped,
                dropped > 0 ==> list@.len() >= max_size,
                message_views(list@) == more.skip(dropped),
            decreases list@.len(),
        {
            let ghost prior = list@;
            let _ = list.remove(0);
            proof {
                dropped = dropped + 1;
                assert(message_views(list@) =~= message_views(prior).skip(1));
                assert(more.skip(dropped) =~= more.skip(dropped - 1).skip(1));
            }
        }
        let ghost kept = message_views(list@);
        assert(kept =~= replies::last_of(more, max_size as nat));
        self.sessions.insert(session_key, list);
        assert(self@ =~= old(self)@.insert(session_key@, kept));
    }

    /// The last messages of a session, the oldest first.
    pub fn get_group_history(&self, session_key: &str) -> (r: Vec<GroupMessage>)
        ensures
            message_views(r@) == messages_of(self@, session_key@),
    {
        let mut out: Vec<GroupMessage> = Vec::new();
        if let Some(list) = self.sessions.get(session_key) {
            let ghost views = message_views(list@);
            assert(views == self@[session_key@]);
            let mut i: usize = 0;
            while i < list.len()
                invariant
                    i <= list@.len(),
                    views == message_views(list@),
                    message_views(out@) =~= views.take(i as int),
                decreases list@.len() - i,
            {
                let item = list[i].copy();
                let ghost before = out@;
                out.push(item);
                assert(message_views(out@) =~= message_views(before).push(item@));
                assert(views[i as int] == item@);
                i += 1;
            }
            assert(views.take(i as int) =~= views);
        } else {
            assert(message_views(out@) =~= seq![]);
        }
        out
    }
}

/// A history never outgrows its room, and ends with the message that came last.
pub proof fn law_history_is_bounded(
    m: Map<Seq<char>, Seq<MessageView>>,
    session: Seq<char>,
    msg: MessageView,
    max_size: nat,
)
    requires
        max_size > 0,
    ensures
        messages_of(recorded(m, session, msg, max_size), session).len() <= max_size,
        messages_of(recorded(m, session, msg, max_size), session).last() == msg,
{
}

/// A message in one group leaves the histories of the others alone.
pub proof fn law_histories_are_apart(
    m: Map<Seq<char>, Seq<MessageView>>,
    session: Seq<char>,
    msg: MessageView,
    max_size: nat,
    other: Seq<char>,
)
    requires
        session != other,
    ensures
        messages_of(recorded(m, session, msg, max_size), other) == messages_of(m, other),
{
}

/// A message that was recorded is the last of its history, behind what was there before.
pub proof fn law_recorded_message_is_last(
    m: Map<Seq<char>, Seq<MessageView>>,
    session: Seq<char>,
    msg: MessageView,
    max_size: nat,
)
    requires
        max_size > 0,
    ensures
        ({
            let before = messages_of(m, session);
            let after = messages_of(recorded(m, session, msg, max_size), session);
            &&& after.len() > 0
            &&& after.last() == msg
            &&& after.drop_last() == before.skip(before.len() + 1 - after.len())
        }),
{
    let before = messages_of(m, session);
    let after = messages_of(recorded(m, session, msg, max_size), session);
    assert(after.drop_last() =~= before.skip(before.len() + 1 - after.len()));
}

} // verus!
