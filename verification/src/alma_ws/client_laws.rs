//! What holds of the client, whatever events come.
use super::client;
use super::client::{ClientView, EffectView, EventView, ResponseView};
use super::message;
use super::visible_text;
use crate::json::JsonView;
use crate::text::model;
use vstd::prelude::*;

verus! {

/// Whether `b` is `a`, or `a` and one more behind it.
pub open spec fn at_most_one_more(a: Seq<EventView>, b: Seq<EventView>) -> bool {
    b == a || exists|e: EventView| b == #[trigger] a.push(e)
}

proof fn lemma_completed_events(c: ClientView, thread: Seq<char>, now: u64)
    ensures
        at_most_one_more(c.events, client::completed(c, thread, now).0.events),
{
}

proof fn lemma_aborted_events(c: ClientView, thread: Seq<char>, reason: Seq<char>, now: u64)
    ensures
        client::aborted(c, thread, reason, now).0.events == c.events,
{
}

proof fn lemma_updated_events(c: ClientView, thread: Seq<char>, data: JsonView, now: u64)
    ensures
        at_most_one_more(c.events, client::updated(c, thread, data, now).events),
{
}

proof fn lemma_added_events(c: ClientView, thread: Seq<char>, data: JsonView, now: u64)
    ensures
        client::added(c, thread, data, now).events == c.events,
{
}

/// An event brings at most one new event to be forwarded, behind those that wait already.
#[verifier::rlimit(60)]
pub proof fn law_events_keep_their_order(c: ClientView, msg: JsonView, now: u64)
    ensures
        at_most_one_more(c.events, client::dispatched(c, msg, now).0.events),
{
    let kind = client::event_type(msg);
    let after = client::dispatched(c, msg, now).0;
    if let Some(data) = msg.get("data"@) {
        if kind == "thread_generating"@ {
            if let Some(thread) = data.str_at("id"@) {
                lemma_completed_events(c, thread, now);
            }
        } else if kind == "generation_stopped"@ {
            if let Some(thread) = message::either_string(data, "threadId"@, "id"@) {
                lemma_aborted_events(c, thread, "Generation stopped"@, now);
            }
        } else if let Some(thread) = data.str_at("threadId"@) {
            if kind == "message_delta"@ {
                assert(after == client::extended(c, thread, data));
            } else if kind == "generation_error"@ {
                lemma_aborted_events(c, thread, client::error_text(data), now);
                assert(after == client::aborted(c, thread, client::error_text(data), now).0);
            } else if kind == "message_updated"@ {
                lemma_updated_events(c, thread, data, now);
                assert(after == client::updated(c, thread, data, now));
            } else if kind == "message_added"@ {
                lemma_added_events(c, thread, data, now);
                assert(after == client::added(c, thread, data, now));
            } else {
                lemma_completed_events(c, thread, now);
            }
        }
    }
}

/// A generation that an event resolves was pending, and is no longer.
pub proof fn law_resolved_generation_is_gone(c: ClientView, msg: JsonView, now: u64, i: int)
    requires
        0 <= i < client::dispatched(c, msg, now).1.len(),
        client::dispatched(c, msg, now).1[i] is Resolve,
    ensures
        exists|thread: Seq<char>| #[trigger]
            client::is_pending(
                c,
                thread,
                client::dispatched(c, msg, now).1[i]->generation_id,
            ) && !client::dispatched(c, msg, now).0.pending.dom().contains(thread),
{
    let (after, effects) = client::dispatched(c, msg, now);
    let data = msg.get("data"@)->0;
    let kind = client::event_type(msg);
    let thread = if kind == "thread_generating"@ {
        data.str_at("id"@)->0
    } else if kind == "generation_stopped"@ {
        message::either_string(data, "threadId"@, "id"@)->0
    } else {
        data.str_at("threadId"@)->0
    };
    assert(client::is_pending(c, thread, effects[i]->generation_id));
}

/// A generation without a reply is not given up when its thread is done: an error that follows
/// still reaches its waiter.
pub proof fn law_late_error_is_not_lost(
    c: ClientView,
    thread: Seq<char>,
    reason: Seq<char>,
    now: u64,
    then: u64,
)
    requires
        c.pending.dom().contains(thread),
        visible_text::visible(c.pending[thread].text).len() == 0,
    ensures
        ({
            let (kept, _) = client::completed(c, thread, now);
            &&& kept.pending.dom().contains(thread)
            &&& client::aborted(kept, thread, reason, then).1 == seq![
                EffectView::Resolve {
                    generation_id: c.pending[thread].generation_id,
                    result: Err::<ResponseView, Seq<char>>(reason),
                },
            ]
        }),
{
}

/// The moment that an empty generation is kept for starts once.
pub proof fn law_grace_starts_once(c: ClientView, thread: Seq<char>, now: u64, then: u64)
    requires
        c.pending.dom().contains(thread),
        visible_text::visible(c.pending[thread].text).len() == 0,
    ensures
        client::completed(client::completed(c, thread, now).0, thread, then).1 == Seq::<
            EffectView,
        >::empty(),
{
}

/// An assistant's update in a thread whose generation is pending is not forwarded, and neither
/// is any later update of the same message while it is known to be the bridge's own.
pub proof fn law_own_message_is_not_forwarded(
    c: ClientView,
    thread: Seq<char>,
    data: JsonView,
    now: u64,
    later: ClientView,
    other: JsonView,
    then: u64,
)
    requires
        c.pending.dom().contains(thread),
        message::message_role(data) == "assistant"@,
        client::update_event(thread, data).message_text.len() > 0,
        model::trimmed(client::id_or_empty(data)).len() > 0,
        client::id_or_empty(data).len() > 0,
        later.owned_until == client::updated(c, thread, data, now).owned_until,
        client::id_or_empty(other) == client::id_or_empty(data),
        message::message_role(other) == "assistant"@,
        then < client::later(now, client::BRIDGE_OWNED_ASSISTANT_MESSAGE_TTL_MS),
    ensures
        client::updated(c, thread, data, now).events == c.events,
        client::updated(later, thread, other, then).events == later.events,
{
}

/// For a while after a bridge's own generation is done, no assistant's update of its thread is
/// forwarded.
pub proof fn law_update_after_own_generation_is_not_forwarded(
    c: ClientView,
    thread: Seq<char>,
    now: u64,
    data: JsonView,
    then: u64,
)
    requires
        c.pending.dom().contains(thread),
        visible_text::visible(c.pending[thread].text).len() > 0,
        message::message_role(data) == "assistant"@,
        then < client::later(now, client::RECENT_BRIDGE_GENERATION_TTL_MS),
    ensures
        ({
            let (after, _) = client::completed(c, thread, now);
            client::updated(after, thread, data, then).events == after.events
        }),
{
}

/// A reply that the bridge got is recognized for as long as it is remembered, even where the
/// thread's updates are no longer kept back: an update with the same words is not forwarded.
pub proof fn law_repeated_reply_is_not_forwarded(
    c: ClientView,
    thread: Seq<char>,
    text: Seq<char>,
    now: u64,
    data: JsonView,
    then: u64,
)
    requires
        visible_text::canonical(text).len() > 0,
        message::message_role(data) == "assistant"@,
        visible_text::canonical(client::update_event(thread, data).message_text)
            == visible_text::canonical(text),
        !c.pending.dom().contains(thread),
        now <= then <= now + client::RECENT_BRIDGE_GENERATION_TTL_MS,
    ensures
        ({
            let after = client::with_recent(c, thread, text, now);
            client::updated(after, thread, data, then).events == after.events
        }),
{
    let after = client::with_recent(c, thread, text, now);
    let words = visible_text::canonical(text);
    let list = after.recent[thread];
    assert(list.last().text == words && list.last().completed_at == now);
    lemma_fresh_keeps_last(list, then);
    let kept = client::fresh(list, then);
    assert(kept[kept.len() - 1].text == words);
    assert(client::repeats(kept, client::update_event(thread, data).message_text));
}

proof fn lemma_fresh_keeps_last(list: Seq<client::RecentView>, now: u64)
    requires
        list.len() > 0,
        now - list.last().completed_at <= client::RECENT_BRIDGE_GENERATION_TTL_MS,
    ensures
        client::fresh(list, now).len() > 0,
        client::fresh(list, now).last() == list.last(),
    decreases list.len(),
{
    if now - list[0].completed_at > client::RECENT_BRIDGE_GENERATION_TTL_MS {
        assert(list.len() > 1);
        assert(list.skip(1).last() == list.last());
        lemma_fresh_keeps_last(list.skip(1), now);
    }
}

/// No more replies of a thread are remembered than the limit.
pub proof fn law_recent_replies_are_bounded(
    c: ClientView,
    thread: Seq<char>,
    text: Seq<char>,
    now: u64,
)
    requires
        visible_text::canonical(text).len() > 0,
    ensures
        client::with_recent(c, thread, text, now).recent[thread].len()
            <= client::RECENT_BRIDGE_GENERATION_LIMIT,
{
}

/// An update that came while a thread was generating is forwarded when the thread is done, if
/// the generation was not the bridge's own; else it is dropped.
pub proof fn law_buffered_update_is_released(c: ClientView, thread: Seq<char>, now: u64)
    requires
        c.buffered.dom().contains(thread),
    ensures
        ({
            let (after, _) = client::completed(c, thread, now);
            &&& !after.buffered.dom().contains(thread)
            &&& after.events == (if c.pending.dom().contains(thread) {
                c.events
            } else {
                c.events.push(c.buffered[thread])
            })
        }),
{
}

/// What happens in one thread leaves the generations and the kept updates of the others alone.
pub proof fn law_threads_do_not_disturb_each_other(
    c: ClientView,
    thread: Seq<char>,
    other: Seq<char>,
    data: JsonView,
    reason: Seq<char>,
    now: u64,
)
    requires
        thread != other,
    ensures
        same_thread(c, client::completed(c, thread, now).0, other),
        same_thread(c, client::aborted(c, thread, reason, now).0, other),
        same_thread(c, client::updated(c, thread, data, now), other),
        same_thread(c, client::added(c, thread, data, now), other),
        same_thread(c, client::extended(c, thread, data), other),
        same_thread(c, client::begun(c, thread), other),
{
}

/// Whether two states of the client agree on a thread.
pub open spec fn same_thread(a: ClientView, b: ClientView, thread: Seq<char>) -> bool {
    &&& a.pending.dom().contains(thread) == b.pending.dom().contains(thread)
    &&& a.pending.dom().contains(thread) ==> a.pending[thread] == b.pending[thread]
    &&& a.buffered.dom().contains(thread) == b.buffered.dom().contains(thread)
    &&& a.buffered.dom().contains(thread) ==> a.buffered[thread] == b.buffered[thread]
    &&& a.recent.dom().contains(thread) == b.recent.dom().contains(thread)
    &&& a.recent.dom().contains(thread) ==> a.recent[thread] == b.recent[thread]
    &&& a.generating.contains(thread) == b.generating.contains(thread)
}

/// A generation that replaced another is not touched by the late cleanup of the other.
pub proof fn law_cleanup_spares_a_newer_generation(c: ClientView, thread: Seq<char>, stale: u64)
    requires
        stale != c.next_generation_id,
    ensures
        client::dropped(client::begun(c, thread), thread, stale) == client::begun(c, thread),
        client::is_pending(client::begun(c, thread), thread, c.next_generation_id),
{
}

/// The reply that a waiter gets is the visible part of all that arrived, in order.
pub proof fn law_reply_is_what_arrived(
    c: ClientView,
    thread: Seq<char>,
    first: JsonView,
    second: JsonView,
    now: u64,
)
    requires
        ({
            let text = message::appended_text(first) + message::appended_text(second);
            visible_text::visible(text).len() > 0
        }),
    ensures
        ({
            let start = client::begun(c, thread);
            let more = client::extended(client::extended(start, thread, first), thread, second);
            let text = message::appended_text(first) + message::appended_text(second);
            let (after, effects) = client::completed(more, thread, now);
            &&& effects.len() == 1
            &&& effects[0] is Resolve
            &&& effects[0]->generation_id == c.next_generation_id
            &&& effects[0]->result is Ok
            &&& effects[0]->result->Ok_0.text == visible_text::visible(text)
            &&& effects[0]->result->Ok_0.thinking == visible_text::thinking(text)
        }),
{
    let a = message::appended_text(first);
    let b = message::appended_text(second);
    assert(Seq::<char>::empty() + a + b =~= a + b);
}

} // verus!
