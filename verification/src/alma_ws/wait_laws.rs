//! What holds of what the client waits for and keeps back.
use super::client;
use super::client::{ClientView, EffectView, EventView, RecentView, ResponseView};
use super::event_laws::{is_event, says};
use super::link;
use super::link::{LinkAction, LinkEvent, SessionInput, SessionStep};
use super::message;
use super::reply_laws;
use super::visible_text;
use crate::json::JsonView;
use crate::text::facts;
use crate::text::model;
use crate::text::number;
use vstd::arithmetic::power2;
use vstd::prelude::*;

verus! {

/// What was kept back of a thread is forwarded again once the time is over: an update of a message
/// that is not the bridge's own, of a thread in which nothing is pending or being written, and that
/// repeats no reply that is still remembered.
pub proof fn law_updates_are_kept_back_no_longer(
    c: ClientView,
    msg: JsonView,
    data: JsonView,
    thread: Seq<char>,
    text: Seq<char>,
    now: u64,
)
    requires
        is_event(msg, "message_updated"@, data),
        says(data, "threadId"@, thread),
        says(data, "role"@, "assistant"@),
        message::message_text(data) == text,
        visible_text::visible(text).len() > 0,
        !c.pending.dom().contains(thread),
        !c.generating.contains(thread),
        c.suppressed_until.dom().contains(thread) ==> c.suppressed_until[thread] <= now,
        forall|id: Seq<char>| #[trigger] c.owned_until.dom().contains(id) ==> c.owned_until[id]
            <= now,
        c.recent.dom().contains(thread) ==> (forall|i: int|
            0 <= i < c.recent[thread].len() ==> now - (
            #[trigger] c.recent[thread][i]).completed_at > 30_000),
    ensures
        client::dispatched(c, msg, now).1.len() == 0,
        client::dispatched(c, msg, now).0.events == c.events.push(
            EventView {
                event_type: "message_updated"@,
                thread_id: thread,
                message_role: "assistant"@,
                message_text: visible_text::visible(text),
                thinking_text: visible_text::thinking(text),
            },
        ),
{
    super::event_laws::lemma_kinds();
    if c.recent.dom().contains(thread) {
        lemma_all_old(c.recent[thread], now);
    }
    let after = client::dispatched(c, msg, now).0;
    assert(after == client::updated(c, thread, data, now));
}

proof fn lemma_all_old(list: Seq<RecentView>, now: u64)
    requires
        forall|i: int| 0 <= i < list.len() ==> now - (#[trigger] list[i]).completed_at > 30_000,
    ensures
        client::fresh(list, now).len() == 0,
    decreases list.len(),
{
    if list.len() > 0 {
        assert forall|i: int| 0 <= i < list.skip(1).len() implies now - (
        #[trigger] list.skip(1)[i]).completed_at > 30_000 by {
            assert(list.skip(1)[i] == list[i + 1]);
        }
        lemma_all_old(list.skip(1), now);
    }
}

/// A reply with other words than those that are remembered is not kept back on their account, unless
/// it is long.
pub proof fn law_other_replies_are_forwarded(
    c: ClientView,
    msg: JsonView,
    data: JsonView,
    thread: Seq<char>,
    text: Seq<char>,
    now: u64,
)
    requires
        is_event(msg, "message_updated"@, data),
        says(data, "threadId"@, thread),
        says(data, "role"@, "assistant"@),
        message::message_text(data) == text,
        visible_text::visible(text).len() > 0,
        !c.pending.dom().contains(thread),
        !c.generating.contains(thread),
        !c.suppressed_until.dom().contains(thread),
        forall|id: Seq<char>| !#[trigger] c.owned_until.dom().contains(id),
        c.recent.dom().contains(thread),
        ({
            let words = visible_text::canonical(visible_text::visible(text));
            &&& model::byte_len(words) < 80
            &&& forall|i: int|
                0 <= i < c.recent[thread].len() ==> (#[trigger] c.recent[thread][i]).text != words
        }),
    ensures
        client::dispatched(c, msg, now).0.events.len() == c.events.len() + 1,
        client::dispatched(c, msg, now).0.events.last().message_text == visible_text::visible(text),
{
    super::event_laws::lemma_kinds();
    let list = c.recent[thread];
    lemma_fresh_is_a_part(list, now);
    let k = choose|k: int| 0 <= k <= list.len() && client::fresh(list, now) == list.skip(k);
    assert forall|i: int| 0 <= i < list.skip(k).len() implies (#[trigger] list.skip(k)[i]).text
        != visible_text::canonical(visible_text::visible(text)) by {
        assert(list.skip(k)[i] == list[i + k]);
    }
    let after = client::dispatched(c, msg, now).0;
    assert(after == client::updated(c, thread, data, now));
}

proof fn lemma_fresh_is_a_part(list: Seq<RecentView>, now: u64)
    ensures
        exists|k: int| 0 <= k <= list.len() && client::fresh(list, now) == #[trigger] list.skip(k),
    decreases list.len(),
{
    if list.len() > 0 && now - list[0].completed_at > client::RECENT_BRIDGE_GENERATION_TTL_MS {
        lemma_fresh_is_a_part(list.skip(1), now);
        let k = choose|k: int|
            0 <= k <= list.skip(1).len() && client::fresh(list.skip(1), now) == #[trigger] list.skip(
                1,
            ).skip(k);
        assert(list.skip(1).skip(k) =~= list.skip(k + 1));
        assert(client::fresh(list, now) == list.skip(k + 1));
    } else {
        assert(list.skip(0) =~= list);
    }
}

/// Updates of a thread are kept back for as long as was asked for, never for less than before; the
/// other threads are left alone.
pub proof fn law_keeping_back_is_never_shortened(
    c: ClientView,
    thread: Seq<char>,
    now: u64,
    ttl: u64,
    other: Seq<char>,
)
    requires
        now + ttl <= u64::MAX,
    ensures
        ({
            let after = client::with_activity(c, thread, now, ttl);
            &&& after.suppressed_until.dom().contains(thread)
            &&& after.suppressed_until[thread] >= now + ttl
            &&& c.suppressed_until.dom().contains(thread) ==> after.suppressed_until[thread]
                >= c.suppressed_until[thread]
            &&& after.suppressed_until[thread] == now + ttl || c.suppressed_until.dom().contains(
                thread,
            ) && after.suppressed_until[thread] == c.suppressed_until[thread]
            &&& other != thread ==> after.suppressed_until.dom().contains(other)
                == c.suppressed_until.dom().contains(other)
            &&& other != thread && c.suppressed_until.dom().contains(other)
                ==> after.suppressed_until[other] == c.suppressed_until[other]
            &&& after.pending == c.pending
            &&& after.events == c.events
        }),
{
}

/// Updates are kept back for as long as a reply is waited for, and fifty seconds more. A reply that
/// took too long is told of with the time.
pub proof fn law_window_covers_the_generation(timeout_secs: u64)
    ensures
        timeout_secs <= 1_000_000_000 ==> client::generation_window(timeout_secs) == timeout_secs
            * 1000 + 50_000,
        client::timeout_text(timeout_secs) == "Generation timed out after "@ + number::dec(
            timeout_secs as int,
        ) + "s"@,
{
}

/// Where all generations fail, each waiter is told so once, and nobody else is.
pub proof fn law_each_waiter_is_told(
    c: ClientView,
    effects: Seq<EffectView>,
    reason: Seq<char>,
    thread: Seq<char>,
    i: int,
)
    requires
        client::all_failed(c, effects, reason),
    ensures
        effects.len() == c.pending.dom().len(),
        c.pending.dom().contains(thread) ==> effects.contains(
            EffectView::Resolve {
                generation_id: c.pending[thread].generation_id,
                result: Err::<ResponseView, Seq<char>>(reason),
            },
        ),
        0 <= i < effects.len() ==> effects[i] is Resolve && effects[i]->result == Err::<
            ResponseView,
            Seq<char>,
        >(reason),
{
    let threads = choose|threads: Seq<Seq<char>>| #[trigger]
        client::failed_in_order(c, effects, reason, threads);
    threads.unique_seq_to_set();
    if c.pending.dom().contains(thread) {
        assert(threads.to_set().contains(thread));
        let k = choose|k: int| 0 <= k < threads.len() && threads[k] == thread;
        assert(effects[k] == EffectView::Resolve {
            generation_id: c.pending[thread].generation_id,
            result: Err::<ResponseView, Seq<char>>(reason),
        });
    }
}

/// A new connection knows nothing of what is being written, but keeps the waiters and the events.
pub proof fn law_reconnecting_keeps_the_waiters(c: ClientView, thread: Seq<char>)
    ensures
        client::reconnected(c).pending == c.pending,
        client::reconnected(c).events == c.events,
        client::reconnected(c).connected == c.connected,
        client::reconnected(c).next_generation_id == c.next_generation_id,
        !client::reconnected(c).generating.contains(thread),
        !client::reconnected(c).buffered.dom().contains(thread),
        !client::reconnected(c).recent.dom().contains(thread),
{
}

/// A client begins connected, with nothing pending and nothing to be forwarded.
pub proof fn law_client_begins_empty(thread: Seq<char>)
    ensures
        client::fresh_client().connected,
        client::fresh_client().events.len() == 0,
        !client::fresh_client().pending.dom().contains(thread),
        !client::fresh_client().generating.contains(thread),
        !client::fresh_client().suppressed_until.dom().contains(thread),
{
}

/// Two texts overlap if and only if both are long and one begins the other, whichever came first.
pub proof fn law_overlap(a: Seq<char>, b: Seq<char>, i: int)
    ensures
        client::overlaps(a, b) == client::overlaps(b, a),
        model::begins_with(b, a) && model::byte_len(a) >= 80 && model::byte_len(b) >= 80
            ==> client::overlaps(a, b),
        model::byte_len(a) < 80 ==> !client::overlaps(a, b),
        0 <= i < a.len() && i < b.len() && a[i] != b[i] ==> !client::overlaps(a, b),
{
    if 0 <= i < a.len() && i < b.len() && a[i] != b[i] {
        if model::begins_with(a, b) {
            assert(a.subrange(0, b.len() as int)[i] == a[i]);
        }
        if model::begins_with(b, a) {
            assert(b.subrange(0, a.len() as int)[i] == b[i]);
        }
    }
}

/// A generation that is resolved as it is hands back what shows of it, or fails if nothing does.
pub proof fn law_generation_is_resolved_as_it_is(pg: client::PendingView)
    ensures
        visible_text::visible(pg.text).len() == 0 ==> client::result_of(pg) == Err::<
            ResponseView,
            Seq<char>,
        >("Empty response from Alma"@),
        visible_text::visible(pg.text).len() > 0 ==> client::result_of(pg) == Ok::<
            ResponseView,
            Seq<char>,
        >(
            ResponseView {
                text: visible_text::visible(pg.text),
                user_message_id: pg.user_message_id,
                thinking: visible_text::thinking(pg.text),
            },
        ),
{
}

/// A thread of which an event does not say whether it is writing is writing; one that is not is done.
pub proof fn law_silence_means_writing(
    c: ClientView,
    msg: JsonView,
    data: JsonView,
    thread: Seq<char>,
    now: u64,
)
    requires
        is_event(msg, "thread_generating"@, data),
        says(data, "id"@, thread),
        data.get("isGenerating"@) is None,
    ensures
        client::dispatched(c, msg, now).0.generating == c.generating.insert(thread),
        client::dispatched(c, msg, now).1.len() == 0,
{
    super::event_laws::lemma_kinds();
}

/// An error without words is unknown.
pub proof fn law_error_without_words(
    c: ClientView,
    msg: JsonView,
    data: JsonView,
    thread: Seq<char>,
    now: u64,
)
    requires
        is_event(msg, "generation_error"@, data),
        says(data, "threadId"@, thread),
        data.get("error"@) is None,
        c.pending.dom().contains(thread),
    ensures
        client::dispatched(c, msg, now).1 == seq![
            EffectView::Resolve {
                generation_id: c.pending[thread].generation_id,
                result: Err::<ResponseView, Seq<char>>("Unknown generation error"@),
            },
        ],
{
    super::event_laws::lemma_kinds();
}

/// A session writes what is to be sent, reads what comes, answers pings, and ends where the
/// connection fails; it ends for good only where nobody is left to send.
pub proof fn law_session_steps(input: SessionInput)
    ensures
        input is Outbound ==> link::session_step(input) is Write,
        input is Text ==> link::session_step(input) is Dispatch,
        input is Ping ==> link::session_step(input) is SendPong,
        input is Pong || input is Other ==> link::session_step(input) is Continue,
        input is WriteFailed || input is Close || input is ReadFailed || input is StreamEnded
            ==> link::session_step(input) == (SessionStep::End { reconnect: true }),
        link::session_step(input) == (SessionStep::End { reconnect: false }) <==> input
            is OutboundClosed,
{
}

/// Each failed attempt to connect is followed by one after twice the delay, from a second up to half
/// a minute.
pub proof fn law_reconnect_delay_doubles(attempt: nat)
    ensures
        link::reconnect_delay(0) == 1000,
        link::reconnect_delay(1) == 1000,
        attempt >= 1 ==> link::reconnect_delay(attempt + 1) == (if 2 * link::reconnect_delay(
            attempt,
        ) > 30_000 {
            30_000
        } else {
            2 * link::reconnect_delay(attempt)
        }),
{
    power2::lemma2_to64();
    assert(power2::pow2(0) == 1 && power2::pow2(1) == 2 && power2::pow2(2) == 4 && power2::pow2(3)
        == 8 && power2::pow2(4) == 16 && power2::pow2(5) == 32);
}

/// The attempts are counted, and the delay before each is the one for its number.
pub proof fn law_attempts_are_counted(attempt: u32)
    requires
        attempt < u32::MAX,
    ensures
        link::supervised(attempt, LinkEvent::ConnectFailed) == (
            (attempt + 1) as u32,
            LinkAction::RetryAfter(link::reconnect_delay((attempt + 1) as nat) as u64),
        ),
        link::supervised(attempt, LinkEvent::Reconnected) == (0u32, LinkAction::RunSession),
        link::supervised(attempt, LinkEvent::OutboundGone).1 is Stop,
        link::supervised(attempt, LinkEvent::SessionEnded { reconnect: false }).1 is Stop,
{
}

/// Whether texts are words: none is empty, and none has whitespace.
pub open spec fn are_words(words: Seq<Seq<char>>) -> bool {
    forall|i: int|
        0 <= i < words.len() ==> (#[trigger] words[i]).len() > 0 && (forall|k: int|
            0 <= k < words[i].len() ==> !model::is_whitespace(#[trigger] words[i][k]))
}

proof fn lemma_word_end_at(s: Seq<char>, from: int, n: int)
    requires
        0 <= from <= n <= s.len(),
        forall|i: int| from <= i < n ==> !model::is_whitespace(#[trigger] s[i]),
        n < s.len() ==> model::is_whitespace(s[n]),
    ensures
        model::word_end(s, from) == n,
    decreases n - from,
{
    if from < n {
        lemma_word_end_at(s, from + 1, n);
    }
}

/// Words that are joined by spaces are the words of the result.
proof fn lemma_words_of_joined(pre: Seq<char>, words: Seq<Seq<char>>)
    requires
        words.len() > 0,
        are_words(words),
    ensures
        model::words_from(pre + model::joined(words, " "@), pre.len() as int) == words,
    decreases words.len(),
{
    reveal_strlit(" ");
    let first = words[0];
    let from = pre.len() as int;
    let s = pre + model::joined(words, " "@);
    let n = from + first.len();
    assert(first.len() > 0);
    if words.len() == 1 {
        assert(s == pre + first);
        assert forall|i: int| from <= i < n implies !model::is_whitespace(#[trigger] s[i]) by {
            assert(s[i] == words[0][i - from]);
        }
        lemma_word_end_at(s, from, n);
        assert(s.subrange(from, n) =~= first);
        assert(model::words_from(s, n) =~= seq![]);
        assert(words =~= seq![first] + Seq::<Seq<char>>::empty());
    } else {
        facts::lemma_joined_first(words, " "@);
        let others = words.skip(1);
        let rest = model::joined(others, " "@);
        assert(s =~= pre + first + " "@ + rest);
        assert(s[n] == ' ');
        assert forall|i: int| from <= i < n implies !model::is_whitespace(#[trigger] s[i]) by {
            assert(s[i] == words[0][i - from]);
        }
        lemma_word_end_at(s, from, n);
        assert(s.subrange(from, n) =~= first);
        let more = pre + first + " "@;
        assert(more + rest =~= s);
        assert forall|i: int| 0 <= i < others.len() implies (#[trigger] others[i]).len() > 0 && (
        forall|k: int|
            0 <= k < others[i].len() ==> !model::is_whitespace(#[trigger] others[i][k])) by {
            assert(others[i] == words[i + 1]);
        }
        lemma_words_of_joined(more, others);
        assert(model::words_from(s, n) == model::words_from(s, n + 1));
        assert(seq![first] + others =~= words);
    }
}

/// Replies of plain words are told apart by their words.
pub proof fn law_replies_are_told_apart_by_their_words(a: Seq<Seq<char>>, b: Seq<Seq<char>>)
    requires
        a.len() > 0,
        b.len() > 0,
        are_words(a),
        are_words(b),
        reply_laws::is_plain(model::joined(a, " "@)),
        reply_laws::is_plain(model::joined(b, " "@)),
    ensures
        visible_text::canonical(model::joined(a, " "@)) == model::joined(a, " "@),
        visible_text::same_reply(model::joined(a, " "@), model::joined(b, " "@)) == (a == b),
{
    lemma_canonical(a);
    lemma_canonical(b);
    let none = Seq::<char>::empty();
    lemma_words_of_joined(none, a);
    lemma_words_of_joined(none, b);
    assert(none + model::joined(a, " "@) =~= model::joined(a, " "@));
    assert(none + model::joined(b, " "@) =~= model::joined(b, " "@));
}

proof fn lemma_canonical(words: Seq<Seq<char>>)
    requires
        words.len() > 0,
        are_words(words),
        reply_laws::is_plain(model::joined(words, " "@)),
    ensures
        visible_text::canonical(model::joined(words, " "@)) == model::joined(words, " "@),
{
    let s = model::joined(words, " "@);
    reply_laws::lemma_is_without_tags(s);
    reply_laws::law_text_without_tags_shows(s);
    let none = Seq::<char>::empty();
    assert(none + s =~= s);
    lemma_words_of_joined(none, words);
    assert(words[0].len() > 0);
    assert(words[words.len() - 1].len() > 0);
    assert(s.len() > 0 && s[0] == words[0][0]) by {
        if words.len() > 1 {
            facts::lemma_joined_first(words, " "@);
        }
    }
    let last = words[words.len() - 1];
    assert(s.last() == last[last.len() - 1]);
    facts::lemma_trimmed_core(none, s, none);
    assert(none + s + none =~= s);
}

/// Whitespace between the words of a reply is of no account.
pub proof fn law_spacing_is_of_no_account(a: Seq<char>, gap: Seq<char>, b: Seq<char>)
    requires
        are_words(seq![a, b]),
        gap.len() > 0,
        model::is_blank(gap),
        reply_laws::is_plain(a + gap + b),
    ensures
        visible_text::canonical(a + gap + b) == a + " "@ + b,
{
    let s = a + gap + b;
    let words = seq![a, b];
    assert(words[0].len() > 0 && words[1].len() > 0);
    reply_laws::lemma_is_without_tags(s);
    reply_laws::law_text_without_tags_shows(s);
    let none = Seq::<char>::empty();
    assert(s[0] == words[0][0]);
    assert(s.last() == words[1][b.len() - 1]);
    facts::lemma_trimmed_core(none, s, none);
    assert(none + s + none =~= s);
    let n = a.len() as int;
    let m = n + gap.len();
    assert forall|i: int| 0 <= i < n implies !model::is_whitespace(#[trigger] s[i]) by {
        assert(s[i] == words[0][i]);
    }
    assert(s[n] == gap[0]);
    lemma_word_end_at(s, 0, n);
    assert(s.subrange(0, n) =~= a);
    assert forall|i: int| n <= i < m implies model::is_whitespace(#[trigger] s[i]) by {
        assert(s[i] == gap[i - n]);
    }
    lemma_gap(s, n, m);
    assert forall|i: int| m <= i < s.len() implies !model::is_whitespace(#[trigger] s[i]) by {
        assert(s[i] == words[1][i - m]);
    }
    lemma_word_end_at(s, m, s.len() as int);
    assert(s.subrange(m, s.len() as int) =~= b);
    assert(!model::is_whitespace(s[m]));
    assert(model::words_from(s, s.len() as int) =~= seq![]);
    assert(model::words_from(s, m) =~= seq![b]);
    assert(model::words_of(s) =~= words);
    reveal_with_fuel(model::joined, 2);
    assert(words.drop_last() =~= seq![a]);
}

proof fn lemma_gap(s: Seq<char>, n: int, m: int)
    requires
        0 <= n <= m <= s.len(),
        forall|i: int| n <= i < m ==> model::is_whitespace(#[trigger] s[i]),
    ensures
        model::words_from(s, n) == model::words_from(s, m),
    decreases m - n,
{
    if n < m {
        lemma_gap(s, n + 1, m);
    }
}

/// What Alma only thinks is forwarded too; an update that shows nothing is not.
pub proof fn law_thoughts_are_forwarded(
    c: ClientView,
    msg: JsonView,
    data: JsonView,
    thread: Seq<char>,
    text: Seq<char>,
    now: u64,
)
    requires
        is_event(msg, "message_updated"@, data),
        says(data, "threadId"@, thread),
        says(data, "role"@, "assistant"@),
        message::message_text(data) == text,
        visible_text::visible(text).len() == 0,
        !c.pending.dom().contains(thread),
        !c.generating.contains(thread),
        !c.recent.dom().contains(thread),
        !c.suppressed_until.dom().contains(thread),
        forall|id: Seq<char>| !#[trigger] c.owned_until.dom().contains(id),
    ensures
        ({
            let after = client::dispatched(c, msg, now).0;
            &&& visible_text::thinking(text) is None ==> after == c
            &&& visible_text::thinking(text) is Some ==> {
                &&& after.events.len() == c.events.len() + 1
                &&& after.events.drop_last() == c.events
                &&& after.events.last().thread_id == thread
                &&& after.events.last().message_text.len() == 0
                &&& after.events.last().thinking_text == visible_text::thinking(text)
            }
        }),
{
    super::event_laws::lemma_kinds();
    let after = client::dispatched(c, msg, now).0;
    assert(after == client::updated(c, thread, data, now));
    if visible_text::thinking(text) is Some {
        assert(after.events.drop_last() =~= c.events);
    }
}

/// What others than Alma write is forwarded at once, whatever goes on in the thread.
pub proof fn law_updates_of_others_are_forwarded(
    c: ClientView,
    msg: JsonView,
    data: JsonView,
    thread: Seq<char>,
    role: Seq<char>,
    text: Seq<char>,
    now: u64,
)
    requires
        is_event(msg, "message_updated"@, data),
        says(data, "threadId"@, thread),
        says(data, "role"@, role),
        role != "assistant"@,
        message::message_text(data) == text,
        visible_text::visible(text).len() > 0,
    ensures
        ({
            let after = client::dispatched(c, msg, now).0;
            &&& after.events.len() == c.events.len() + 1
            &&& after.events.last().message_role == role
            &&& after.events.last().message_text == visible_text::visible(text)
            &&& after.pending == c.pending
        }),
{
    super::event_laws::lemma_kinds();
    let after = client::dispatched(c, msg, now).0;
    assert(after == client::updated(c, thread, data, now));
}

/// A message that Alma adds to a thread in which a generation is pending is the bridge's own for an
/// hour.
pub proof fn law_added_message_is_own(
    c: ClientView,
    msg: JsonView,
    data: JsonView,
    thread: Seq<char>,
    id: Seq<char>,
    now: u64,
)
    requires
        is_event(msg, "message_added"@, data),
        says(data, "threadId"@, thread),
        says(data, "messageId"@, id),
        says(data, "role"@, "assistant"@),
        model::trimmed(id).len() > 0,
        now + 3_600_000 <= u64::MAX,
    ensures
        ({
            let after = client::dispatched(c, msg, now).0;
            &&& c.pending.dom().contains(thread) ==> after.owned_until.dom().contains(id)
                && after.owned_until[id] == now + 3_600_000
            &&& !c.pending.dom().contains(thread) ==> after == c
            &&& after.pending == c.pending
            &&& after.events == c.events
        }),
{
    super::event_laws::lemma_kinds();
    let a = facts::lemma_trimmed_place(id);
    assert(id.len() > 0);
    reveal_strlit("user");
    reveal_strlit("assistant");
    assert("user"@.len() == 4);
    assert("assistant"@.len() == 9);
}

/// More of a reply that nobody waits for is of no account.
pub proof fn law_unawaited_delta_is_of_no_account(
    c: ClientView,
    msg: JsonView,
    data: JsonView,
    thread: Seq<char>,
    now: u64,
)
    requires
        is_event(msg, "message_delta"@, data),
        says(data, "threadId"@, thread),
        !c.pending.dom().contains(thread),
    ensures
        client::dispatched(c, msg, now) == (c, Seq::<EffectView>::empty()),
{
    super::event_laws::lemma_kinds();
}

/// After an error nothing is kept of the thread: it is no longer writing, what waited is dropped, and
/// its updates are kept back for two minutes if the bridge waited for it.
pub proof fn law_error_clears_the_thread(
    c: ClientView,
    msg: JsonView,
    data: JsonView,
    thread: Seq<char>,
    now: u64,
)
    requires
        is_event(msg, "generation_error"@, data),
        says(data, "threadId"@, thread),
        now + 120_000 <= u64::MAX,
    ensures
        ({
            let (after, effects) = client::dispatched(c, msg, now);
            &&& !after.generating.contains(thread)
            &&& !after.buffered.dom().contains(thread)
            &&& after.events == c.events
            &&& c.pending.dom().contains(thread) ==> after.suppressed_until.dom().contains(thread)
                && after.suppressed_until[thread] >= now + 120_000
            &&& !c.pending.dom().contains(thread) ==> effects.len() == 0
                && after.suppressed_until == c.suppressed_until
        }),
{
    super::event_laws::lemma_kinds();
}

/// A thread that is done without a reply is given a moment, and then resolved as it is.
pub proof fn law_empty_reply_is_given_a_moment(
    c: ClientView,
    msg: JsonView,
    data: JsonView,
    thread: Seq<char>,
    now: u64,
)
    requires
        is_event(msg, "generation_completed"@, data),
        says(data, "threadId"@, thread),
        c.pending.dom().contains(thread),
        visible_text::visible(c.pending[thread].text).len() == 0,
        !c.pending[thread].empty_response_grace_started,
    ensures
        ({
            let (after, effects) = client::dispatched(c, msg, now);
            &&& effects == seq![EffectView::StartEmptyGrace { thread_id: thread }]
            &&& after.pending.dom().contains(thread)
            &&& after.pending[thread].generation_id == c.pending[thread].generation_id
            &&& after.pending[thread].text == c.pending[thread].text
        }),
{
    super::event_laws::lemma_kinds();
}

/// Once a reply is there, the updates of its thread are kept back for half a minute.
pub proof fn law_done_thread_is_kept_back(
    c: ClientView,
    msg: JsonView,
    data: JsonView,
    thread: Seq<char>,
    now: u64,
)
    requires
        is_event(msg, "generation_completed"@, data),
        says(data, "threadId"@, thread),
        now + 30_000 <= u64::MAX,
    ensures
        ({
            let after = client::dispatched(c, msg, now).0;
            &&& c.pending.dom().contains(thread) ==> after.suppressed_until.dom().contains(thread)
                && after.suppressed_until[thread] >= now + 30_000
            &&& !c.pending.dom().contains(thread) ==> after.suppressed_until == c.suppressed_until
            &&& !c.pending.dom().contains(thread) && !c.buffered.dom().contains(thread)
                ==> after.events == c.events
        }),
{
    super::event_laws::lemma_kinds();
}

/// A reply that was handed back is remembered by its words, the last of its thread; nothing is
/// remembered of a thread that nobody waited for, or that is done without a reply.
pub proof fn law_reply_is_remembered(
    c: ClientView,
    msg: JsonView,
    data: JsonView,
    thread: Seq<char>,
    now: u64,
)
    requires
        is_event(msg, "generation_completed"@, data),
        says(data, "threadId"@, thread),
    ensures
        ({
            let after = client::dispatched(c, msg, now).0;
            let reply = visible_text::visible(c.pending[thread].text);
            let words = visible_text::canonical(reply);
            &&& c.pending.dom().contains(thread) && reply.len() > 0 && words.len() > 0 ==> {
                &&& after.recent.dom().contains(thread)
                &&& after.recent[thread].len() > 0
                &&& after.recent[thread].last() == (RecentView { text: words, completed_at: now })
            }
            &&& !c.pending.dom().contains(thread) || reply.len() == 0 ==> after.recent == c.recent
        }),
{
    super::event_laws::lemma_kinds();
}

} // verus!
