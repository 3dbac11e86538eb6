//! The replies that were sent lately, so that none is sent twice.
use crate::text::model;
use crate::text::ops;
use crate::text::table::TextMap;
use vstd::prelude::*;
use vstd::string::*;

verus! {

/// How long a sent reply is remembered, in milliseconds.
pub const SENT_REPLY_TTL_MS: u64 = 15_000;

/// How many sent replies of a thread are remembered.
pub const SENT_REPLY_LIMIT: usize = 20;

/// The longest prefix of at most `max_bytes` bytes.
pub fn safe_prefix<'a>(s: &'a str, max_bytes: usize) -> (r: &'a str)
    ensures
        r@ == model::byte_prefix(s@, max_bytes as nat),
{
    ops::byte_prefix(s, max_bytes)
}

/// How many characters of two texts are held against each other.
pub const COMPARED_CHARS: usize = 100;

/// How many characters of two texts are held against each other: as many as both have, up to
/// the limit.
pub open spec fn compared_length(a: Seq<char>, b: Seq<char>) -> int {
    if a.len() <= b.len() && a.len() <= COMPARED_CHARS {
        a.len() as int
    } else if b.len() <= COMPARED_CHARS {
        b.len() as int
    } else {
        COMPARED_CHARS as int
    }
}

/// Whether a text is a reply that was sent: it is the same, or both begin with the same
/// characters, as many as are held against each other, and these have 30 bytes or more.
pub open spec fn is_same_reply(sent: Seq<char>, candidate: Seq<char>) -> bool {
    let n = compared_length(sent, candidate);
    sent == candidate || (sent.take(n) == candidate.take(n) && model::byte_len(sent.take(n)) >= 30)
}

/// Whether a text is a reply that was sent.
pub fn sent_reply_matches(sent: &str, candidate: &str) -> (r: bool)
    ensures
        r == is_same_reply(sent@, candidate@),
{
    if ops::same(sent, candidate) {
        return true;
    }
    let a = ops::to_chars(sent);
    let b = ops::to_chars(candidate);
    let n: usize = if a.len() <= b.len() && a.len() <= COMPARED_CHARS {
        a.len()
    } else if b.len() <= COMPARED_CHARS {
        b.len()
    } else {
        COMPARED_CHARS
    };
    let start = ops::from_chars(&a, 0, n);
    let other = ops::from_chars(&b, 0, n);
    ops::same(&start, &other) && ops::byte_length(&start) >= 30
}

/// A reply that was sent.
pub struct SentReply {
    pub text: String,
    pub sent_at: u64,
}

/// The model of a sent reply.
pub struct SentView {
    pub text: Seq<char>,
    pub sent_at: u64,
}

impl View for SentReply {
    type V = SentView;

    open spec fn view(&self) -> SentView {
        SentView { text: self.text@, sent_at: self.sent_at }
    }
}

spec fn sent_list(v: Seq<SentReply>) -> Seq<SentView> {
    v.map_values(|r: SentReply| r@)
}

/// The replies that were sent lately, by thread.
pub struct SentReplies {
    threads: TextMap<Vec<SentReply>>,
}

impl View for SentReplies {
    type V = Map<Seq<char>, Seq<SentView>>;

    closed spec fn view(&self) -> Map<Seq<char>, Seq<SentView>> {
        self.threads@.map_values(|v: Vec<SentReply>| sent_list(v@))
    }
}

/// The replies of a thread, or none.
pub open spec fn replies_of(m: Map<Seq<char>, Seq<SentView>>, thread: Seq<char>) -> Seq<SentView> {
    if m.dom().contains(thread) {
        m[thread]
    } else {
        seq![]
    }
}

/// The last entries of a list, no more than `limit`.
pub open spec fn last_of<A>(list: Seq<A>, limit: nat) -> Seq<A> {
    if list.len() > limit {
        list.skip(list.len() - limit)
    } else {
        list
    }
}

/// The replies of a thread with one more.
pub open spec fn with_reply(list: Seq<SentView>, text: Seq<char>, now: u64) -> Seq<SentView> {
    last_of(list.push(SentView { text, sent_at: now }), SENT_REPLY_LIMIT as nat)
}

/// The replies without those at the front that are too old.
pub open spec fn recent(list: Seq<SentView>, now: u64) -> Seq<SentView>
    decreases list.len(),
{
    if list.len() > 0 && now - list[0].sent_at > SENT_REPLY_TTL_MS {
        recent(list.skip(1), now)
    } else {
        list
    }
}

/// Whether a text is one of the replies.
pub open spec fn is_among(list: Seq<SentView>, text: Seq<char>) -> bool {
    exists|i: int| 0 <= i < list.len() && is_same_reply((#[trigger] list[i]).text, text)
}

impl SentReplies {
    pub fn new() -> (r: Self)
        ensures
            r@ == Map::<Seq<char>, Seq<SentView>>::empty(),
    {
        let r = SentReplies { threads: TextMap::new() };
        assert(r@ =~= Map::<Seq<char>, Seq<SentView>>::empty());
        r
    }

    /// Takes note of a reply that is sent.
    pub fn register_sent_reply(&mut self, thread_id: &str, text: &str, now: u64)
        ensures
            final(self)@ == old(self)@.insert(
                thread_id@,
                with_reply(replies_of(old(self)@, thread_id@), text@, now),
            ),
    {
        let mut list = match self.threads.remove(thread_id) {
            Some(list) => list,
            None => Vec::new(),
        };
        let ghost before = replies_of(old(self)@, thread_id@);
        assert(sent_list(list@) =~= before);
        let entry = SentReply { text: text.to_owned(), sent_at: now };
        list.push(entry);
        let ghost more = before.push(entry@);
        assert(sent_list(list@) =~= more);
        let ghost mut dropped: int = 0;
        assert(more.skip(0) =~= more);
        while list.len() > SENT_REPLY_LIMIT
            invariant
                0 <= dropped <= more.len(),
                list@.len() == more.len() - dropped,
                dropped > 0 ==> list@.len() >= SENT_REPLY_LIMIT,
                sent_list(list@) == more.skip(dropped),
            decreases list@.len(),
        {
            let ghost prior = list@;
            let _ = list.remove(0);
            proof {
                dropped = dropped + 1;
                assert(sent_list(list@) =~= sent_list(prior).skip(1));
                assert(more.skip(dropped) =~= more.skip(dropped - 1).skip(1));
            }
        }
        let ghost kept = sent_list(list@);
        assert(kept =~= with_reply(before, text@, now));
        self.threads.insert(thread_id, list);
        assert(self@ =~= old(self)@.insert(thread_id@, kept));
    }

    /// Whether a text was sent lately as a reply. Replies that are too old are forgotten.
    pub fn was_sent_recently(&mut self, thread_id: &str, text: &str, now: u64) -> (r: bool)
        ensures
            final(self)@ == (if old(self)@.dom().contains(thread_id@) {
                old(self)@.insert(thread_id@, recent(old(self)@[thread_id@], now))
            } else {
                old(self)@
            }),
            r == is_among(recent(replies_of(old(self)@, thread_id@), now), text@),
    {
        let mut list = match self.threads.remove(thread_id) {
            Some(list) => list,
            None => {
                assert(self@ =~= old(self)@);
                return false;
            },
        };
        let ghost all = sent_list(list@);
        assert(all == old(self)@[thread_id@]);
        while list.len() > 0 && now.saturating_sub(list[0].sent_at) > SENT_REPLY_TTL_MS
            invariant
                recent(all, now) == recent(sent_list(list@), now),
            decreases list@.len(),
        {
            let ghost prior = list@;
            let _ = list.remove(0);
            assert(sent_list(list@) =~= sent_list(prior).skip(1));
        }
        let ghost views = sent_list(list@);
        assert(views == recent(all, now));
        let mut found = false;
        let mut i: usize = 0;
        while i < list.len() && !found
            invariant
                i <= list@.len(),
                views == sent_list(list@),
                found == exists|k: int| 0 <= k < i && is_same_reply((#[trigger] views[k]).text, text@),
            decreases list@.len() - i,
        {
            assert(views[i as int] == list@[i as int]@);
            found = sent_reply_matches(&list[i].text, text);
            i += 1;
        }
        self.threads.insert(thread_id, list);
        assert(self@ =~= old(self)@.insert(thread_id@, views));
        found
    }
}

/// A reply that was registered is recognized for as long as it is remembered.
pub proof fn law_registered_reply_is_recognized(
    list: Seq<SentView>,
    text: Seq<char>,
    now: u64,
    then: u64,
)
    requires
        now <= then <= now + SENT_REPLY_TTL_MS,
    ensures
        is_among(recent(with_reply(list, text, now), then), text),
{
    let more = with_reply(list, text, now);
    assert(more.last() == (SentView { text, sent_at: now }));
    lemma_recent_keeps(more, then, more.len() - 1);
    let kept = recent(more, then);
    assert(is_same_reply(kept[kept.len() - 1].text, text));
}

proof fn lemma_recent_keeps(list: Seq<SentView>, now: u64, k: int)
    requires
        0 <= k < list.len(),
        now - list[k].sent_at <= SENT_REPLY_TTL_MS,
    ensures
        recent(list, now).len() >= list.len() - k,
        recent(list, now)[recent(list, now).len() - (list.len() - k)] == list[k],
    decreases list.len(),
{
    if now - list[0].sent_at > SENT_REPLY_TTL_MS {
        assert(list.skip(1)[k - 1] == list[k]);
        lemma_recent_keeps(list.skip(1), now, k - 1);
    }
}

/// The replies of a thread with more of them, one after the other.
pub open spec fn with_replies(list: Seq<SentView>, texts: Seq<Seq<char>>, now: u64) -> Seq<
    SentView,
>
    decreases texts.len(),
{
    if texts.len() == 0 {
        list
    } else {
        with_reply(with_replies(list, texts.drop_last(), now), texts.last(), now)
    }
}

proof fn lemma_with_replies(list: Seq<SentView>, texts: Seq<Seq<char>>, now: u64, k: int)
    requires
        0 <= k < texts.len() <= SENT_REPLY_LIMIT,
    ensures
        ({
            let all = with_replies(list, texts, now);
            &&& all.len() >= texts.len()
            &&& all[all.len() - texts.len() + k] == (SentView { text: texts[k], sent_at: now })
        }),
    decreases texts.len(),
{
    let init = texts.drop_last();
    let before = with_replies(list, init, now);
    if init.len() > 0 {
        lemma_with_replies(
            list,
            init,
            now,
            if k < init.len() {
                k
            } else {
                0
            },
        );
    }
    let more = before.push(SentView { text: texts.last(), sent_at: now });
    let all = with_replies(list, texts, now);
    assert(all == last_of(more, SENT_REPLY_LIMIT as nat));
    assert(all[all.len() - texts.len() + k] == more[more.len() - texts.len() + k]);
}

/// Each of the messages of a reply is recognized for as long as it is remembered, as is every
/// text that begins as it does; there are no more messages than are remembered.
pub proof fn law_registered_replies_are_recognized(
    list: Seq<SentView>,
    texts: Seq<Seq<char>>,
    k: int,
    candidate: Seq<char>,
    now: u64,
    then: u64,
)
    requires
        0 <= k < texts.len() <= SENT_REPLY_LIMIT,
        is_same_reply(texts[k], candidate),
        now <= then <= now + SENT_REPLY_TTL_MS,
    ensures
        is_among(recent(with_replies(list, texts, now), then), candidate),
{
    let all = with_replies(list, texts, now);
    lemma_with_replies(list, texts, now, k);
    let at = all.len() - texts.len() + k;
    lemma_recent_keeps(all, then, at);
    let kept = recent(all, then);
    assert(is_same_reply(kept[kept.len() - (all.len() - at)].text, candidate));
}

/// No more replies of a thread are remembered than the limit.
pub proof fn law_sent_replies_are_bounded(list: Seq<SentView>, text: Seq<char>, now: u64)
    ensures
        with_reply(list, text, now).len() <= SENT_REPLY_LIMIT,
{
}

/// Whether a text is a reply that was sent does not depend on which of the two came first.
pub proof fn law_same_reply_is_symmetric(a: Seq<char>, b: Seq<char>)
    ensures
        is_same_reply(a, b) == is_same_reply(b, a),
        is_same_reply(a, a),
{
}

} // verus!
