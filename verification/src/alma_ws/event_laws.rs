//! What holds of the events of Alma, as they are written in JSON.
use super::client;
use super::client::{ClientView, EffectView, EventView, ResponseView};
use super::message;
use super::visible_text;
use crate::json::JsonView;
use crate::text::facts;
use crate::text::model;
use vstd::prelude::*;

verus! {

pub proof fn lemma_kinds()
    ensures
        "message_delta"@ != "thread_generating"@,
        "message_delta"@ != "generation_error"@,
        "message_delta"@ != "generation_stopped"@,
        "message_delta"@ != "message_updated"@,
        "message_delta"@ != "message_added"@,
        "message_delta"@ != "generation_completed"@,
        "thread_generating"@ != "generation_error"@,
        "thread_generating"@ != "generation_stopped"@,
        "thread_generating"@ != "message_updated"@,
        "thread_generating"@ != "message_added"@,
        "thread_generating"@ != "generation_completed"@,
        "generation_error"@ != "generation_stopped"@,
        "generation_error"@ != "message_updated"@,
        "generation_error"@ != "message_added"@,
        "generation_error"@ != "generation_completed"@,
        "generation_stopped"@ != "message_updated"@,
        "generation_stopped"@ != "message_added"@,
        "generation_stopped"@ != "generation_completed"@,
        "message_updated"@ != "message_added"@,
        "message_updated"@ != "generation_completed"@,
        "message_added"@ != "generation_completed"@,
        "user"@ != "assistant"@,
{
    reveal_strlit("message_delta");
    reveal_strlit("thread_generating");
    reveal_strlit("generation_error");
    reveal_strlit("generation_stopped");
    reveal_strlit("message_updated");
    reveal_strlit("message_added");
    reveal_strlit("generation_completed");
    reveal_strlit("user");
    reveal_strlit("assistant");
    assert("message_delta"@.len() == 13);
    assert("thread_generating"@.len() == 17);
    assert("generation_error"@.len() == 16);
    assert("generation_stopped"@.len() == 18);
    assert("message_updated"@.len() == 15);
    assert("message_added"@.len() == 13);
    assert("generation_completed"@.len() == 20);
    assert("user"@.len() == 4);
    assert("assistant"@.len() == 9);
    assert("message_delta"@[8] != "message_added"@[8]);
}

/// Whether a message is an event of a kind with some data.
pub open spec fn is_event(msg: JsonView, kind: Seq<char>, data: JsonView) -> bool {
    msg.get("type"@) == Some(JsonView::Str(kind)) && msg.get("data"@) == Some(data)
}

/// Whether a value has a text under a key.
pub open spec fn says(v: JsonView, key: Seq<char>, text: Seq<char>) -> bool {
    v.get(key) == Some(JsonView::Str(text))
}

/// An event that says that a thread is done.
pub open spec fn says_done(msg: JsonView, data: JsonView, thread: Seq<char>) -> bool {
    ||| is_event(msg, "generation_completed"@, data) && says(data, "threadId"@, thread)
    ||| is_event(msg, "thread_generating"@, data) && says(data, "id"@, thread) && data.get(
        "isGenerating"@,
    ) == Some(JsonView::Bool(false))
}

/// Once a thread is done, the waiter of its generation gets all that can be seen of what has
/// arrived, with the id of the user's message, and the generation is no longer pending. This is
/// so whichever of the two events says that the thread is done.
pub proof fn law_done_thread_hands_its_reply_back(
    c: ClientView,
    msg: JsonView,
    data: JsonView,
    thread: Seq<char>,
    now: u64,
)
    requires
        says_done(msg, data, thread),
        c.pending.dom().contains(thread),
        visible_text::visible(c.pending[thread].text).len() > 0,
    ensures
        ({
            let (after, effects) = client::dispatched(c, msg, now);
            &&& !after.pending.dom().contains(thread)
            &&& !after.generating.contains(thread)
            &&& effects == seq![
                EffectView::Resolve {
                    generation_id: c.pending[thread].generation_id,
                    result: Ok(
                        ResponseView {
                            text: visible_text::visible(c.pending[thread].text),
                            user_message_id: c.pending[thread].user_message_id,
                            thinking: visible_text::thinking(c.pending[thread].text),
                        },
                    ),
                },
            ]
        }),
{
    lemma_kinds();
}

/// An error of a generation reaches its waiter in the words of the event, and the generation is
/// no longer pending.
pub proof fn law_error_is_handed_on(
    c: ClientView,
    msg: JsonView,
    data: JsonView,
    thread: Seq<char>,
    error: Seq<char>,
    now: u64,
)
    requires
        is_event(msg, "generation_error"@, data),
        says(data, "threadId"@, thread),
        says(data, "error"@, error),
        c.pending.dom().contains(thread),
    ensures
        ({
            let (after, effects) = client::dispatched(c, msg, now);
            &&& !after.pending.dom().contains(thread)
            &&& effects == seq![
                EffectView::Resolve {
                    generation_id: c.pending[thread].generation_id,
                    result: Err::<ResponseView, Seq<char>>(error),
                },
            ]
        }),
{
    lemma_kinds();
}

/// A generation that was stopped fails: its waiter is told so.
pub proof fn law_stopped_generation_fails(
    c: ClientView,
    msg: JsonView,
    data: JsonView,
    thread: Seq<char>,
    now: u64,
)
    requires
        is_event(msg, "generation_stopped"@, data),
        says(data, "threadId"@, thread) || data.get("threadId"@) is None && says(
            data,
            "id"@,
            thread,
        ),
        c.pending.dom().contains(thread),
    ensures
        ({
            let (after, effects) = client::dispatched(c, msg, now);
            &&& !after.pending.dom().contains(thread)
            &&& effects == seq![
                EffectView::Resolve {
                    generation_id: c.pending[thread].generation_id,
                    result: Err::<ResponseView, Seq<char>>("Generation stopped"@),
                },
            ]
        }),
{
    lemma_kinds();
}

/// The id of the user's message, once Alma has given it one, is known of the pending generation.
pub proof fn law_user_message_gives_its_id(
    c: ClientView,
    msg: JsonView,
    data: JsonView,
    message: JsonView,
    thread: Seq<char>,
    id: Seq<char>,
    now: u64,
)
    requires
        is_event(msg, "message_added"@, data),
        says(data, "threadId"@, thread),
        data.get("messageId"@) is None,
        data.get("id"@) is None,
        data.get("role"@) is None,
        data.get("message"@) == Some(message),
        message.get("messageId"@) is None,
        says(message, "id"@, id),
        says(message, "role"@, "user"@),
        c.pending.dom().contains(thread),
    ensures
        ({
            let (after, effects) = client::dispatched(c, msg, now);
            &&& after.pending[thread].user_message_id == Some(id)
            &&& after.pending[thread].text == c.pending[thread].text
            &&& after.pending[thread].generation_id == c.pending[thread].generation_id
            &&& after.pending.dom() == c.pending.dom()
            &&& effects.len() == 0
        }),
{
    lemma_kinds();
    assert(client::dispatched(c, msg, now).0.pending.dom() =~= c.pending.dom());
}

/// What Alma writes by itself in a thread is forwarded, if the bridge has nothing to do with the
/// thread: the event names the thread, and its text is what can be seen of the message.
pub proof fn law_foreign_update_is_forwarded(
    c: ClientView,
    msg: JsonView,
    data: JsonView,
    thread: Seq<char>,
    text: Seq<char>,
    now: u64,
)
    requires
        is_event(msg, "message_updated"@, data),
        says(data, "threadId"@, thread),
        says(data, "role"@, "assistant"@),
        message::message_text(data) == text,
        visible_text::visible(text).len() > 0,
        !c.pending.dom().contains(thread),
        !c.generating.contains(thread),
        !c.recent.dom().contains(thread),
        !c.suppressed_until.dom().contains(thread),
        forall|id: Seq<char>| !#[trigger] c.owned_until.dom().contains(id),
    ensures
        client::dispatched(c, msg, now).1.len() == 0,
        client::dispatched(c, msg, now).0.events == c.events.push(
            EventView {
                event_type: "message_updated"@,
                thread_id: thread,
                message_role: "assistant"@,
                message_text: visible_text::visible(text),
                thinking_text: visible_text::thinking(text),
            },
        ),
{
    lemma_kinds();
}

/// What Alma writes while a thread is generating waits until the thread is done, and is then
/// forwarded, if the bridge has nothing to do with it.
pub proof fn law_update_waits_for_its_thread(
    c: ClientView,
    msg: JsonView,
    data: JsonView,
    done: JsonView,
    done_data: JsonView,
    thread: Seq<char>,
    text: Seq<char>,
    now: u64,
    then: u64,
)
    requires
        is_event(msg, "message_updated"@, data),
        says(data, "threadId"@, thread),
        says(data, "role"@, "assistant"@),
        message::message_text(data) == text,
        visible_text::visible(text).len() > 0,
        !c.pending.dom().contains(thread),
        c.generating.contains(thread),
        forall|id: Seq<char>| !#[trigger] c.owned_until.dom().contains(id),
        says_done(done, done_data, thread),
    ensures
        ({
            let (waiting, _) = client::dispatched(c, msg, now);
            let (after, effects) = client::dispatched(waiting, done, then);
            &&& waiting.events == c.events
            &&& after.events.len() == c.events.len() + 1
            &&& after.events.last().thread_id == thread
            &&& after.events.last().message_text == visible_text::visible(text)
            &&& after.events.last().message_role == "assistant"@
            &&& effects.len() == 0
        }),
{
    lemma_kinds();
}

/// An event that says that a thread has begun to write marks the thread, and no other.
pub proof fn law_writing_thread_is_marked(
    c: ClientView,
    msg: JsonView,
    data: JsonView,
    thread: Seq<char>,
    now: u64,
)
    requires
        is_event(msg, "thread_generating"@, data),
        says(data, "id"@, thread),
        data.get("isGenerating"@) == Some(JsonView::Bool(true)),
    ensures
        client::dispatched(c, msg, now).0.generating == c.generating.insert(thread),
        client::dispatched(c, msg, now).0.pending == c.pending,
        client::dispatched(c, msg, now).1.len() == 0,
{
    lemma_kinds();
}

/// What an event of another kind says is of no account, and neither is one without data.
pub proof fn law_other_events_are_of_no_account(c: ClientView, msg: JsonView, now: u64)
    requires
        msg.get("data"@) is None || forall|kind: Seq<char>|
            msg.get("type"@) == Some(JsonView::Str(kind)) ==> kind != "message_delta"@ && kind
                != "thread_generating"@ && kind != "generation_error"@ && kind
                != "generation_stopped"@ && kind != "message_updated"@ && kind
                != "message_added"@ && kind != "generation_completed"@,
    ensures
        client::dispatched(c, msg, now) == (c, Seq::<EffectView>::empty()),
{
    reveal_strlit("");
    reveal_strlit("message_delta");
    reveal_strlit("thread_generating");
    reveal_strlit("generation_error");
    reveal_strlit("generation_stopped");
    reveal_strlit("message_updated");
    reveal_strlit("message_added");
    reveal_strlit("generation_completed");
    assert(""@.len() == 0);
    if let Some(v) = msg.get("type"@) {
        if let JsonView::Str(kind) = v {
            assert(msg.get("type"@) == Some(JsonView::Str(kind)));
        }
    }
}

/// A generation that begins is empty, has a number of its own, and is the one that is pending for
/// its thread. The waiter of one that it takes the place of is told so.
pub proof fn law_generation_begins_empty(c: ClientView, thread: Seq<char>)
    ensures
        client::begun(c, thread).pending[thread].text.len() == 0,
        client::begun(c, thread).pending[thread].generation_id == c.next_generation_id,
        client::begun(c, thread).pending[thread].user_message_id is None,
        client::begun(c, thread).pending.dom() == c.pending.dom().insert(thread),
        client::begun(c, thread).next_generation_id != c.next_generation_id,
        !c.pending.dom().contains(thread) ==> client::replaced_effects(c, thread).len() == 0,
        c.pending.dom().contains(thread) ==> {
            let effects = client::replaced_effects(c, thread);
            &&& effects.len() == 1
            &&& effects[0] is Resolve
            &&& effects[0]->generation_id == c.pending[thread].generation_id
            &&& effects[0]->result is Err
        },
{
    assert(client::begun(c, thread).pending.dom() =~= c.pending.dom().insert(thread));
}

/// Who wrote a message: the event says so itself, or else its message does; where neither says
/// so, it is not known.
pub proof fn law_role_of_a_message(data: JsonView, message: JsonView, role: Seq<char>)
    ensures
        says(data, "role"@, role) ==> message::message_role(data) == role,
        data.get("role"@) is None && data.get("message"@) == Some(message) && says(
            message,
            "role"@,
            role,
        ) ==> message::message_role(data) == role,
        data.get("role"@) is None && data.get("message"@) is None ==> message::message_role(data)
            == "unknown"@,
{
}

/// The id of a message: that of the event goes before that of its message, and `messageId`
/// before `id`.
pub proof fn law_id_of_a_message(data: JsonView, message: JsonView, id: Seq<char>)
    ensures
        says(data, "messageId"@, id) ==> message::message_id(data) == Some(id),
        data.get("messageId"@) is None && says(data, "id"@, id) ==> message::message_id(data)
            == Some(id),
        data.get("messageId"@) is None && data.get("id"@) is None && data.get("message"@) == Some(
            message,
        ) && says(message, "messageId"@, id) ==> message::message_id(data) == Some(id),
        data.get("messageId"@) is None && data.get("id"@) is None && data.get("message"@) == Some(
            message,
        ) && message.get("messageId"@) is None && says(message, "id"@, id) ==> message::message_id(
            data,
        ) == Some(id),
{
}

/// The text of an update is its own, where it has one.
pub proof fn law_text_of_an_update(data: JsonView, text: Seq<char>)
    requires
        says(data, "text"@, text),
    ensures
        message::message_text(data) == text,
{
}

/// Whether an update shows its message in parts.
pub open spec fn has_parts(data: JsonView, message: JsonView, parts: Seq<JsonView>) -> bool {
    &&& data.get("text"@) is None
    &&& data.get("message"@) == Some(message)
    &&& message.get("parts"@) == Some(JsonView::Array(parts))
}

/// The text of an update in parts is the texts of its text parts, each on a line of its own.
pub proof fn law_text_parts_are_lines(
    data: JsonView,
    message: JsonView,
    parts: Seq<JsonView>,
    texts: Seq<Seq<char>>,
)
    requires
        has_parts(data, message, parts),
        parts.len() == texts.len(),
        forall|i: int|
            0 <= i < parts.len() ==> says(#[trigger] parts[i], "type"@, "text"@) && says(
                parts[i],
                "text"@,
                texts[i],
            ) && texts[i].len() > 0,
    ensures
        message::message_text(data) == model::joined(texts, "\n"@),
{
    lemma_text_parts(parts, texts);
}

proof fn lemma_text_parts(parts: Seq<JsonView>, texts: Seq<Seq<char>>)
    requires
        parts.len() == texts.len(),
        forall|i: int|
            0 <= i < parts.len() ==> says(#[trigger] parts[i], "type"@, "text"@) && says(
                parts[i],
                "text"@,
                texts[i],
            ) && texts[i].len() > 0,
    ensures
        message::parts_text(parts) == model::joined(texts, "\n"@),
        parts.len() > 0 ==> message::parts_text(parts).len() > 0,
    decreases parts.len(),
{
    reveal_strlit("\n");
    if parts.len() > 0 {
        let before = parts.drop_last();
        assert forall|i: int| 0 <= i < before.len() implies says(
            #[trigger] before[i],
            "type"@,
            "text"@,
        ) && says(before[i], "text"@, texts.drop_last()[i]) && texts.drop_last()[i].len() > 0 by {
            assert(before[i] == parts[i]);
        }
        lemma_text_parts(before, texts.drop_last());
        let last = parts[parts.len() - 1];
        assert(says(last, "text"@, texts.last()));
        assert(message::part_text(last) == Some(texts.last()));
        let start = message::parts_text(before);
        if parts.len() == 1 {
            assert(before =~= seq![]);
            assert(start + texts.last() =~= texts.last());
        } else {
            assert(start.push('\n') + texts.last() =~= start + "\n"@ + texts.last());
        }
    }
}

/// A part that is no text, such as the reasoning, can be left out of an update.
pub proof fn law_other_parts_are_left_out(
    data: JsonView,
    message: JsonView,
    other: JsonView,
    other_message: JsonView,
    parts: Seq<JsonView>,
    i: int,
)
    requires
        0 <= i < parts.len(),
        has_parts(data, message, parts),
        has_parts(other, other_message, parts.remove(i)),
        parts[i].get("type"@) != Some(JsonView::Str("text"@)),
    ensures
        message::message_text(data) == message::message_text(other),
{
    lemma_part_left_out(parts, i);
}

proof fn lemma_part_left_out(parts: Seq<JsonView>, i: int)
    requires
        0 <= i < parts.len(),
        parts[i].get("type"@) != Some(JsonView::Str("text"@)),
    ensures
        message::parts_text(parts) == message::parts_text(parts.remove(i)),
    decreases parts.len(),
{
    if i < parts.len() - 1 {
        lemma_part_left_out(parts.drop_last(), i);
        assert(parts.remove(i).drop_last() =~= parts.drop_last().remove(i));
        assert(parts.remove(i).last() == parts.last());
    } else {
        assert(parts.remove(i) =~= parts.drop_last());
    }
}

proof fn lemma_replaced_start(pat: Seq<char>, with: Seq<char>, rest: Seq<char>)
    requires
        pat.len() > 0,
        !model::has_part(rest, pat),
    ensures
        model::replaced(pat + rest, pat, with) == with + rest,
{
    let s = pat + rest;
    let n = pat.len() as int;
    assert(s.subrange(0, n) =~= pat);
    facts::lemma_find_is(s, pat, 0, 0);
    assert forall|j: int| n <= j implies !model::occurs_at(s, pat, j) by {
        facts::lemma_occurs_shift(pat, rest, pat, j - n);
    }
    facts::lemma_find_none(s, pat, n);
    reveal_with_fuel(model::replaced_from, 2);
    assert(s.subrange(0, 0) + with + s.skip(n) =~= with + rest);
}

proof fn lemma_schemes()
    ensures
        "http://"@ =~= seq!['h', 't', 't', 'p', ':', '/', '/'],
        "https://"@ =~= seq!['h', 't', 't', 'p', 's', ':', '/', '/'],
        "ws://"@ =~= seq!['w', 's', ':', '/', '/'],
        "wss://"@ =~= seq!['w', 's', 's', ':', '/', '/'],
{
    reveal_strlit("http://");
    reveal_strlit("https://");
    reveal_strlit("ws://");
    reveal_strlit("wss://");
}

/// The events of an Alma are had over a WebSocket at the host of its API, over one that is
/// encrypted where the API is.
pub proof fn law_socket_is_at_the_host(host: Seq<char>)
    requires
        !model::has_part(host, "http://"@),
        !model::has_part(host, "https://"@),
    ensures
        client::socket_url("http://"@ + host) == "ws://"@ + host + "/ws/threads"@,
        client::socket_url("https://"@ + host) == "wss://"@ + host + "/ws/threads"@,
{
    lemma_schemes();
    let plain = "http://"@;
    let safe = "https://"@;
    lemma_replaced_start(plain, "ws://"@, host);
    let a = "ws://"@ + host;
    if model::has_part(a, safe) {
        let j = choose|j: int| model::occurs_at(a, safe, j);
        assert(a.subrange(j, j + 8)[0] == a[j]);
        facts::lemma_occurs_shift("ws://"@, host, safe, j - 5);
        assert(model::occurs_at(host, safe, j - 5));
    }
    facts::lemma_replaced_absent(a, safe, "wss://"@);
    let b = safe + host;
    if model::has_part(b, plain) {
        let j = choose|j: int| model::occurs_at(b, plain, j);
        assert(b.subrange(j, j + 7)[0] == b[j]);
        assert(b.subrange(j, j + 7)[4] == b[j + 4]);
        facts::lemma_occurs_shift(safe, host, plain, j - 8);
        assert(model::occurs_at(host, plain, j - 8));
    }
    facts::lemma_replaced_absent(b, plain, "ws://"@);
    lemma_replaced_start(safe, "wss://"@, host);
}

/// Of two keys the first counts, and the second only where there is no first.
pub proof fn law_first_key_counts(data: JsonView, a: Seq<char>, b: Seq<char>, text: Seq<char>)
    ensures
        says(data, a, text) ==> message::either_string(data, a, b) == Some(text),
        data.get(a) is None && says(data, b, text) ==> message::either_string(data, a, b) == Some(
            text,
        ),
        data.get(a) is None && data.get(b) is None ==> message::either_string(data, a, b) is None,
{
}

} // verus!
