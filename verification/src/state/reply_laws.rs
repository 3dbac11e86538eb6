//! What holds of the replies that are told apart.
use super::replies;
use super::replies::SentView;
use crate::text::facts;
use crate::text::model;
use vstd::prelude::*;

verus! {

/// Replies that differ within their first hundred characters are told apart, and so are short ones
/// that differ at all.
pub proof fn law_other_replies_are_told_apart(a: Seq<char>, b: Seq<char>, i: int)
    ensures
        0 <= i < 100 && i < a.len() && i < b.len() && a[i] != b[i] ==> !replies::is_same_reply(a, b),
        a != b && model::byte_len(a) < 30 ==> !replies::is_same_reply(a, b),
{
    let n = replies::compared_length(a, b);
    if 0 <= i < 100 && i < a.len() && i < b.len() && a[i] != b[i] {
        assert(a.take(n)[i] != b.take(n)[i]);
    }
    if a != b && model::byte_len(a) < 30 {
        facts::lemma_byte_len_take_monotone(a, n, a.len() as int);
        assert(a.take(a.len() as int) =~= a);
    }
}

/// Long replies that begin with the same hundred characters count as one, and so does a long reply
/// with the beginning of it.
pub proof fn law_long_replies_are_known_by_their_beginning(a: Seq<char>, b: Seq<char>)
    ensures
        a.len() >= 100 && b.len() >= 100 && a.take(100) == b.take(100) ==> replies::is_same_reply(
            a,
            b,
        ),
        model::begins_with(b, a) && model::byte_len(a) >= 30 ==> replies::is_same_reply(a, b),
{
    if a.len() >= 100 && b.len() >= 100 && a.take(100) == b.take(100) {
        facts::lemma_byte_len_take_monotone(a, 0, 100);
        lemma_bytes_at_least(a.take(100));
        assert(replies::compared_length(a, b) == 100);
    }
    if model::begins_with(b, a) && model::byte_len(a) >= 30 {
        let n = replies::compared_length(a, b);
        assert(b.subrange(0, a.len() as int) == a);
        assert(a.take(n) =~= b.take(n));
        if a.len() <= 100 {
            assert(a.take(n) =~= a);
        } else {
            lemma_bytes_at_least(a.take(100));
        }
    }
}

proof fn lemma_bytes_at_least(s: Seq<char>)
    ensures
        model::byte_len(s) >= s.len(),
    decreases s.len(),
{
    if s.len() > 0 {
        lemma_bytes_at_least(s.drop_last());
    }
}

/// A reply that was sent is known for fifteen seconds and no longer.
pub proof fn law_sent_reply_is_forgotten(text: Seq<char>, sent_at: u64, now: u64)
    requires
        sent_at <= now,
    ensures
        replies::is_among(replies::recent(seq![SentView { text, sent_at }], now), text) == (now
            - sent_at <= 15_000),
{
    let list = seq![SentView { text, sent_at }];
    assert(list.skip(1) =~= seq![]);
    if now - sent_at <= 15_000 {
        assert(replies::recent(list, now) == list);
        assert(replies::is_same_reply(list[0].text, text));
    } else {
        reveal_with_fuel(replies::recent, 2);
        assert(replies::recent(list, now) =~= seq![]);
    }
}

/// Of the replies of a thread only the last twenty are known, in the order in which they were sent.
pub proof fn law_last_replies_are_known(list: Seq<SentView>, text: Seq<char>, now: u64)
    ensures
        list.len() < 20 ==> replies::with_reply(list, text, now) == list.push(
            SentView { text, sent_at: now },
        ),
        list.len() == 20 ==> replies::with_reply(list, text, now) == list.skip(1).push(
            SentView { text, sent_at: now },
        ),
{
    let more = list.push(SentView { text, sent_at: now });
    if list.len() == 20 {
        assert(more.skip(1) =~= list.skip(1).push(SentView { text, sent_at: now }));
    }
}

} // verus!
