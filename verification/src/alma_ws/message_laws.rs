//! What holds of the messages that the bridge and Alma exchange.
use super::client;
use super::client::ClientView;
use super::message;
use crate::json;
use crate::json::JsonView;
use crate::text::model;
use vstd::prelude::*;

verus! {

/// Whether the deltas of an event are these.
pub open spec fn has_deltas(data: JsonView, deltas: Seq<JsonView>) -> bool {
    data.get("deltas"@) == Some(JsonView::Array(deltas))
}

/// Whether a delta appends a text to the visible text of a reply.
pub open spec fn appends(delta: JsonView, text: Seq<char>) -> bool {
    &&& delta.get("type"@) == Some(JsonView::Str("text_append"@))
    &&& delta.get("partType"@) == Some(JsonView::Str("text"@))
    &&& delta.get("text"@) == Some(JsonView::Str(text))
}

proof fn lemma_deltas_add(a: Seq<JsonView>, b: Seq<JsonView>)
    ensures
        message::deltas_text(a + b) == message::deltas_text(a) + message::deltas_text(b),
    decreases b.len(),
{
    if b.len() == 0 {
        assert(a + b =~= a);
        assert(message::deltas_text(a) + message::deltas_text(b) =~= message::deltas_text(a));
    } else {
        lemma_deltas_add(a, b.drop_last());
        assert((a + b).drop_last() =~= a + b.drop_last());
        assert(message::deltas_text(a + b) =~= message::deltas_text(a) + message::deltas_text(b));
    }
}

proof fn lemma_one_delta(delta: JsonView)
    ensures
        message::deltas_text(seq![delta]) == (match message::delta_text(delta) {
            Some(text) => text,
            None => seq![],
        }),
{
    reveal_with_fuel(message::deltas_text, 2);
    assert(seq![delta].drop_last() =~= seq![]);
    match message::delta_text(delta) {
        Some(text) => {
            assert(Seq::<char>::empty() + text =~= text);
        },
        None => {},
    }
}

/// Only what is written of the reply itself is appended to it: a delta of another part, such as
/// the reasoning, can be left out, and so can one that appends no text.
pub proof fn law_reasoning_is_not_appended(
    data: JsonView,
    other: JsonView,
    deltas: Seq<JsonView>,
    i: int,
)
    requires
        has_deltas(data, deltas),
        0 <= i < deltas.len(),
        has_deltas(other, deltas.remove(i)),
        deltas[i].get("partType"@) != Some(JsonView::Str("text"@)) || deltas[i].get("type"@) != Some(
            JsonView::Str("text_append"@),
        ),
    ensures
        message::appended_text(data) == message::appended_text(other),
{
    let a = deltas.take(i);
    let b = deltas.skip(i + 1);
    let mid = seq![deltas[i]];
    assert(deltas =~= a + mid + b);
    assert(deltas.remove(i) =~= a + b);
    lemma_deltas_add(a, mid);
    lemma_deltas_add(a + mid, b);
    lemma_deltas_add(a, b);
    lemma_one_delta(deltas[i]);
    assert(message::deltas_text(a) + Seq::<char>::empty() =~= message::deltas_text(a));
}

/// Deltas that each append a text append all of these texts, in order, and nothing else.
pub proof fn law_texts_are_appended_in_order(
    data: JsonView,
    deltas: Seq<JsonView>,
    texts: Seq<Seq<char>>,
)
    requires
        has_deltas(data, deltas),
        deltas.len() == texts.len(),
        forall|i: int| 0 <= i < deltas.len() ==> appends(#[trigger] deltas[i], texts[i]),
    ensures
        message::appended_text(data) == texts.flatten(),
    decreases deltas.len(),
{
    if deltas.len() == 0 {
        assert(texts =~= seq![]);
    } else {
        let some = deltas.drop_last();
        let before = JsonView::Object(seq![("deltas"@, JsonView::Array(some))]);
        assert(has_deltas(before, some));
        assert forall|i: int| 0 <= i < some.len() implies appends(
            #[trigger] some[i],
            texts.drop_last()[i],
        ) by {
            assert(some[i] == deltas[i]);
        }
        law_texts_are_appended_in_order(before, some, texts.drop_last());
        assert(appends(deltas[deltas.len() - 1], texts.last()));
        texts.lemma_flatten_and_flatten_alt_are_equivalent();
        texts.drop_last().lemma_flatten_and_flatten_alt_are_equivalent();
    }
}

/// A delta event of a thread adds what it appends to the thread's reply, and to no other.
pub proof fn law_delta_extends_its_reply(
    c: ClientView,
    msg: JsonView,
    data: JsonView,
    thread: Seq<char>,
    other: Seq<char>,
    now: u64,
)
    requires
        msg.get("type"@) == Some(JsonView::Str("message_delta"@)),
        msg.get("data"@) == Some(data),
        data.get("threadId"@) == Some(JsonView::Str(thread)),
        c.pending.dom().contains(thread),
    ensures
        ({
            let (after, effects) = client::dispatched(c, msg, now);
            &&& after.pending.dom() == c.pending.dom()
            &&& after.pending[thread].text == c.pending[thread].text + message::appended_text(data)
            &&& after.pending[thread].generation_id == c.pending[thread].generation_id
            &&& other != thread ==> after.pending[other] == c.pending[other]
            &&& effects.len() == 0
        }),
{
    assert(client::dispatched(c, msg, now).0.pending.dom() =~= c.pending.dom());
}

proof fn lemma_request_keys()
    ensures
        "type"@ != "data"@,
        "type"@ != "text"@,
        "role"@ != "parts"@,
        "threadId"@ != "userMessage"@,
        "threadId"@ != "source"@,
        "threadId"@ != "model"@,
        "threadId"@ != "ephemeralContext"@,
        "userMessage"@ != "source"@,
        "userMessage"@ != "model"@,
        "userMessage"@ != "ephemeralContext"@,
        "source"@ != "model"@,
        "source"@ != "ephemeralContext"@,
        "model"@ != "ephemeralContext"@,
{
    reveal_strlit("type");
    reveal_strlit("data");
    reveal_strlit("text");
    reveal_strlit("role");
    reveal_strlit("parts");
    reveal_strlit("threadId");
    reveal_strlit("userMessage");
    reveal_strlit("source");
    reveal_strlit("model");
    reveal_strlit("ephemeralContext");
    assert("type"@.len() == 4);
    assert("data"@.len() == 4);
    assert("text"@.len() == 4);
    assert("role"@.len() == 4);
    assert("parts"@.len() == 5);
    assert("threadId"@.len() == 8);
    assert("userMessage"@.len() == 11);
    assert("source"@.len() == 6);
    assert("model"@.len() == 5);
    assert("ephemeralContext"@.len() == 16);
    assert("type"@[0] != "data"@[0]);
    assert("type"@[1] != "text"@[1]);
}

proof fn lemma_request_data(
    thread: Seq<char>,
    user_message: JsonView,
    source: Seq<char>,
    model: Option<Seq<char>>,
    context: Option<Seq<char>>,
)
    ensures
        ({
            let data = JsonView::Object(
                seq![
                    ("threadId"@, JsonView::Str(thread)),
                    ("userMessage"@, user_message),
                    ("source"@, JsonView::Str(source)),
                ] + client::optional_entry("model"@, model) + client::optional_entry(
                    "ephemeralContext"@,
                    context,
                ),
            );
            &&& data.get("threadId"@) == Some(JsonView::Str(thread))
            &&& data.get("userMessage"@) == Some(user_message)
            &&& data.get("source"@) == Some(JsonView::Str(source))
            &&& data.get("model"@) == (match model {
                Some(m) => Some(JsonView::Str(m)),
                None => None,
            })
            &&& data.get("ephemeralContext"@) == (match context {
                Some(m) => Some(JsonView::Str(m)),
                None => None,
            })
        }),
{
    lemma_request_keys();
    let entries = seq![
        ("threadId"@, JsonView::Str(thread)),
        ("userMessage"@, user_message),
        ("source"@, JsonView::Str(source)),
    ] + client::optional_entry("model"@, model) + client::optional_entry(
        "ephemeralContext"@,
        context,
    );
    json::lemma_entry_at(entries, "threadId"@, 0, 0);
    json::lemma_entry_at(entries, "userMessage"@, 0, 1);
    json::lemma_entry_at(entries, "source"@, 0, 2);
    match model {
        Some(_) => {
            json::lemma_entry_at(entries, "model"@, 0, 3);
        },
        None => {
            json::lemma_no_entry(entries, "model"@, 0);
        },
    }
    match context {
        Some(_) => {
            json::lemma_entry_at(entries, "ephemeralContext"@, 0, entries.len() - 1);
        },
        None => {
            json::lemma_no_entry(entries, "ephemeralContext"@, 0);
        },
    }
}

/// What a request for a reply asks for can be read from it: the thread, the words and the files
/// of the user, where they come from, the model if one is named, and the context if there is any.
pub proof fn law_request_is_read_back(
    thread: Seq<char>,
    model: Option<Seq<char>>,
    text: Seq<char>,
    file_parts: Seq<JsonView>,
    source: Seq<char>,
    ephemeral_context: Seq<char>,
)
    ensures
        ({
            let r = client::generate_request(
                thread,
                model,
                text,
                file_parts,
                source,
                ephemeral_context,
            );
            &&& r.get("type"@) == Some(JsonView::Str("generate_response"@))
            &&& r.get("data"@) matches Some(data) && {
                &&& data.get("threadId"@) == Some(JsonView::Str(thread))
                &&& data.get("source"@) == Some(JsonView::Str(source))
                &&& data.get("model"@) == (match model {
                    Some(m) => Some(JsonView::Str(m)),
                    None => None,
                })
                &&& data.get("ephemeralContext"@) == (if ephemeral_context.len() > 0 {
                    Some(JsonView::Str(ephemeral_context))
                } else {
                    None
                })
                &&& data.get("userMessage"@) matches Some(user) && {
                    &&& user.get("role"@) == Some(JsonView::Str("user"@))
                    &&& user.get("parts"@) matches Some(JsonView::Array(parts)) && {
                        &&& parts.len() == file_parts.len() + 1
                        &&& parts[0].get("type"@) == Some(JsonView::Str("text"@))
                        &&& parts[0].get("text"@) == Some(JsonView::Str(text))
                        &&& parts.skip(1) == file_parts
                    }
                }
            }
        }),
{
    lemma_request_keys();
    let text_part = JsonView::Object(
        seq![("type"@, JsonView::Str("text"@)), ("text"@, JsonView::Str(text))],
    );
    json::lemma_two_entries("type"@, JsonView::Str("text"@), "text"@, JsonView::Str(text));
    let parts = seq![text_part] + file_parts;
    assert(parts.skip(1) =~= file_parts);
    let user = JsonView::Object(
        seq![("role"@, JsonView::Str("user"@)), ("parts"@, JsonView::Array(parts))],
    );
    json::lemma_two_entries("role"@, JsonView::Str("user"@), "parts"@, JsonView::Array(parts));
    let context = if ephemeral_context.len() == 0 {
        None
    } else {
        Some(ephemeral_context)
    };
    lemma_request_data(thread, user, source, model, context);
    let data = JsonView::Object(
        seq![
            ("threadId"@, JsonView::Str(thread)),
            ("userMessage"@, user),
            ("source"@, JsonView::Str(source)),
        ] + client::optional_entry("model"@, model) + client::optional_entry(
            "ephemeralContext"@,
            context,
        ),
    );
    json::lemma_two_entries("type"@, JsonView::Str("generate_response"@), "data"@, data);
}

/// Requests that differ in the thread, in the words, in the files, in the model or in the
/// context are different requests.
pub proof fn law_requests_differ(
    thread: Seq<char>,
    model: Option<Seq<char>>,
    text: Seq<char>,
    files: Seq<JsonView>,
    context: Seq<char>,
    thread2: Seq<char>,
    model2: Option<Seq<char>>,
    text2: Seq<char>,
    files2: Seq<JsonView>,
    context2: Seq<char>,
    source: Seq<char>,
)
    requires
        client::generate_request(thread, model, text, files, source, context)
            == client::generate_request(thread2, model2, text2, files2, source, context2),
    ensures
        thread == thread2,
        model == model2,
        text == text2,
        files == files2,
        context == context2,
{
    law_request_is_read_back(thread, model, text, files, source, context);
    law_request_is_read_back(thread2, model2, text2, files2, source, context2);
    if context.len() == 0 && context2.len() == 0 {
        assert(context =~= context2);
    }
}

/// A request to stop names the thread that is to stop.
pub proof fn law_stop_request_names_its_thread(thread: Seq<char>)
    ensures
        client::stop_request(thread).get("type"@) == Some(JsonView::Str("stop_generation"@)),
        client::stop_request(thread).get("data"@) matches Some(data) && data.get("threadId"@)
            == Some(JsonView::Str(thread)),
{
    lemma_request_keys();
    let data = JsonView::Object(seq![("threadId"@, JsonView::Str(thread))]);
    json::lemma_two_entries("type"@, JsonView::Str("stop_generation"@), "data"@, data);
    json::lemma_entry_at(seq![("threadId"@, JsonView::Str(thread))], "threadId"@, 0, 0);
}

} // verus!
