//! Which QQ chat an Alma thread belongs to.
use crate::text::facts;
use crate::text::model;
use crate::text::number;
use crate::text::ops;
use crate::text::table::TextMap;
use vstd::prelude::*;
use vstd::string::*;

verus! {

/// How many threads are remembered.
pub const SESSION_REVERSE_LIMIT: usize = 4096;

/// A QQ chat that messages are forwarded to.
pub struct QqTarget {
    /// `private` or `group`.
    pub target_type: String,
    /// The id of the user or the group.
    pub target_id: i64,
}

/// The session key of a chat.
pub open spec fn session_key(target_type: Seq<char>, target_id: int) -> Seq<char> {
    target_type + ":"@ + number::dec(target_id)
}

/// The session key of a group.
pub fn group_session_key(group_id: i64) -> (r: String)
    ensures
        r@ == session_key("group"@, group_id as int),
{
    "group".to_owned().concat(":").concat(&number::dec_i64(group_id))
}

/// The session key of a user.
pub fn private_session_key(user_id: i64) -> (r: String)
    ensures
        r@ == session_key("private"@, user_id as int),
{
    "private".to_owned().concat(":").concat(&number::dec_i64(user_id))
}

/// The chat that a session key names: what stands before the first colon is its type, and what
/// follows is its id. A key without a colon names none.
pub open spec fn parsed_target(key: Seq<char>) -> Result<Option<(Seq<char>, int)>, Seq<char>> {
    match model::find_first(key, ":"@) {
        None => Ok(None),
        Some(i) => {
            let id = key.skip(i + ":"@.len());
            match number::parsed_i64(id) {
                Ok(n) => Ok(Some((key.take(i), n))),
                Err(e) => Err("Invalid session target id '"@ + id + "': "@ + e.spec_message()),
            }
        },
    }
}

/// The chat that a session key names.
pub fn parse_target(key: &str) -> (r: Result<Option<QqTarget>, String>)
    ensures
        match r {
            Ok(Some(t)) => parsed_target(key@) == Ok::<Option<(Seq<char>, int)>, Seq<char>>(
                Some((t.target_type@, t.target_id as int)),
            ),
            Ok(None) => parsed_target(key@) == Ok::<Option<(Seq<char>, int)>, Seq<char>>(None),
            Err(e) => parsed_target(key@) == Err::<Option<(Seq<char>, int)>, Seq<char>>(e@),
        },
{
    proof {
        reveal_strlit(":");
        facts::lemma_find_from(key@, ":"@, 0);
    }
    match ops::find(key, ":") {
        None => Ok(None),
        Some(i) => {
            let n: usize = key.unicode_len();
            let id = key.substring_char(i + 1, n);
            assert(id@ =~= key@.skip(i + 1));
            match number::parse_i64(id) {
                Ok(target_id) => Ok(
                    Some(
                        QqTarget { target_type: key.substring_char(0, i).to_owned(), target_id },
                    ),
                ),
                Err(e) => Err(
                    "Invalid session target id '".to_owned().concat(id).concat("': ").concat(
                        e.message(),
                    ),
                ),
            }
        },
    }
}

/// The session keys of the threads that were met last.
pub struct SessionCache {
    threads: TextMap<String>,
}

impl View for SessionCache {
    type V = Map<Seq<char>, Seq<char>>;

    closed spec fn view(&self) -> Map<Seq<char>, Seq<char>> {
        self.threads@.map_values(|s: String| s@)
    }
}

/// Where the session key of a thread comes from.
pub enum SessionSource {
    /// It is remembered.
    Known(String),
    /// It has to be looked up.
    Unknown,
}

impl SessionCache {
    #[verifier::type_invariant]
    spec fn is_bounded(self) -> bool {
        self.threads@.dom().finite() && self.threads@.len() <= SESSION_REVERSE_LIMIT
    }

    pub fn new() -> (r: Self)
        ensures
            r@ == Map::<Seq<char>, Seq<char>>::empty(),
    {
        let threads: TextMap<String> = TextMap::new();
        assert(threads@.dom() =~= Set::empty());
        let r = SessionCache { threads };
        assert(r@ =~= Map::<Seq<char>, Seq<char>>::empty());
        r
    }

    /// Remembers the session key of a thread. Where there are too many threads, some are
    /// forgotten.
    pub fn cache_thread_mapping(&mut self, thread_id: &str, session_key: &str)
        ensures
            final(self)@.submap_of(old(self)@.insert(thread_id@, session_key@)),
            old(self)@.insert(thread_id@, session_key@).len() > SESSION_REVERSE_LIMIT
                ==> final(self)@.len() == SESSION_REVERSE_LIMIT,
            old(self)@.insert(thread_id@, session_key@).len() <= SESSION_REVERSE_LIMIT
                ==> final(self)@ == old(self)@.insert(thread_id@, session_key@),
    {
        let mut threads: TextMap<String> = TextMap::new();
        assert(threads@.dom() =~= Set::empty());
        std::mem::swap(&mut threads, &mut self.threads);
        let key = session_key.to_owned();
        threads.insert(thread_id, key);
        let ghost want = old(self)@.insert(thread_id@, session_key@);
        assert(threads@.map_values(|s: String| s@) =~= want);
        let ghost full = threads@;
        proof {
            assert(want.dom() =~= full.dom());
        }
        if threads.len() <= SESSION_REVERSE_LIMIT {
            self.threads = threads;
            assert(self@.dom() =~= full.dom());
            return;
        }
        while threads.len() > SESSION_REVERSE_LIMIT
            invariant
                threads@.submap_of(full),
                threads@.dom().finite(),
                threads@.len() >= SESSION_REVERSE_LIMIT,
            decreases threads.size(),
        {
            let _ = threads.pop();
        }
        let _ = threads.len();
        self.threads = threads;
        assert(self@.dom() =~= threads@.dom());
        assert(self@.submap_of(want)) by {
            assert forall|t: Seq<char>| self@.dom().contains(t) implies want.dom().contains(t)
                && self@[t] == want[t] by {
                assert(full.dom().contains(t) && full[t] == threads@[t]);
            }
        }
    }

    /// The session key of a thread, if it is remembered.
    pub fn session_of(&self, thread_id: &str) -> (r: SessionSource)
        ensures
            match r {
                SessionSource::Known(key) => self@.dom().contains(thread_id@) && key@
                    == self@[thread_id@],
                SessionSource::Unknown => !self@.dom().contains(thread_id@),
            },
    {
        match self.threads.get(thread_id) {
            Some(key) => SessionSource::Known(key.clone()),
            None => SessionSource::Unknown,
        }
    }
}

/// The chat that a thread belongs to, by the session key that was remembered or looked up.
pub fn get_qq_target(session_key: Option<&str>) -> (r: Result<Option<QqTarget>, String>)
    ensures
        match session_key {
            None => r == Ok::<Option<QqTarget>, String>(None),
            Some(key) => match r {
                Ok(Some(t)) => parsed_target(key@) == Ok::<Option<(Seq<char>, int)>, Seq<char>>(
                    Some((t.target_type@, t.target_id as int)),
                ),
                Ok(None) => parsed_target(key@) == Ok::<Option<(Seq<char>, int)>, Seq<char>>(None),
                Err(e) => parsed_target(key@) == Err::<Option<(Seq<char>, int)>, Seq<char>>(e@),
            },
        },
{
    match session_key {
        None => Ok(None),
        Some(key) => parse_target(key),
    }
}

/// A chat's session key names the chat: what is forwarded to a thread's session goes back to
/// where the thread came from.
pub proof fn law_session_key_names_its_chat(target_type: Seq<char>, target_id: int)
    requires
        !target_type.contains(':'),
        i64::MIN <= target_id <= i64::MAX,
    ensures
        parsed_target(session_key(target_type, target_id)) == Ok::<
            Option<(Seq<char>, int)>,
            Seq<char>,
        >(Some((target_type, target_id))),
{
    reveal_strlit(":");
    let key = session_key(target_type, target_id);
    let at = target_type.len() as int;
    assert(key.subrange(at, at + 1) =~= ":"@);
    assert forall|j: int| 0 <= j < at implies !model::occurs_at(key, ":"@, j) by {
        if model::occurs_at(key, ":"@, j) {
            assert(key.subrange(j, j + 1)[0] == ':');
            assert(target_type[j] == ':');
        }
    }
    facts::lemma_find_is(key, ":"@, 0, at);
    assert(key.take(at) =~= target_type);
    assert(key.skip(at + 1) =~= number::dec(target_id));
    number::lemma_parse_of_dec(target_id);
}

} // verus!
