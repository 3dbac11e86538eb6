//! What an event of Alma says of a message.
use crate::json;
use crate::json::{Json, JsonView};
use crate::text::ops;
use vstd::prelude::*;
use vstd::string::*;

verus! {

/// The first of the two values that there is.
pub open spec fn first_of(a: Option<JsonView>, b: Option<JsonView>) -> Option<JsonView> {
    if a is Some {
        a
    } else {
        b
    }
}

/// The value under a key of an optional value.
pub open spec fn part_at(v: Option<JsonView>, key: Seq<char>) -> Option<JsonView> {
    match v {
        Some(j) => j.get(key),
        None => None,
    }
}

/// The string that an optional value is.
pub open spec fn string_in(v: Option<JsonView>) -> Option<Seq<char>> {
    match v {
        Some(j) => j.as_str(),
        None => None,
    }
}

fn get_in<'a>(v: Option<&'a Json>, key: &str) -> (r: Option<&'a Json>)
    ensures
        json::ref_view(r) == part_at(json::ref_view(v), key@),
{
    match v {
        Some(j) => j.get(key),
        None => None,
    }
}

fn first<'a>(a: Option<&'a Json>, b: Option<&'a Json>) -> (r: Option<&'a Json>)
    ensures
        json::ref_view(r) == first_of(json::ref_view(a), json::ref_view(b)),
{
    match a {
        Some(_) => a,
        None => b,
    }
}

fn string_of<'a>(v: Option<&'a Json>) -> (r: Option<&'a str>)
    ensures
        json::str_view(r) == string_in(json::ref_view(v)),
{
    match v {
        Some(j) => j.as_str(),
        None => None,
    }
}

/// The id of the message of an event: of the event itself, or else of its message.
pub open spec fn message_id(data: JsonView) -> Option<Seq<char>> {
    let message = data.get("message"@);
    string_in(
        first_of(
            first_of(data.get("messageId"@), data.get("id"@)),
            first_of(part_at(message, "messageId"@), part_at(message, "id"@)),
        ),
    )
}

/// The id of the message of an event.
pub fn event_message_id(data: &Json) -> (r: Option<&str>)
    ensures
        json::str_view(r) == message_id(data@),
{
    let message = data.get("message");
    string_of(
        first(
            first(data.get("messageId"), data.get("id")),
            first(get_in(message, "messageId"), get_in(message, "id")),
        ),
    )
}

/// The role of the author of an event's message.
pub open spec fn message_role(data: JsonView) -> Seq<char> {
    match string_in(first_of(data.get("role"@), part_at(data.get("message"@), "role"@))) {
        Some(role) => role,
        None => "unknown"@,
    }
}

/// The role of the author of an event's message.
pub fn event_message_role(data: &Json) -> (r: &str)
    ensures
        r@ == message_role(data@),
{
    match string_of(first(data.get("role"), get_in(data.get("message"), "role"))) {
        Some(role) => role,
        None => "unknown",
    }
}

/// The text of a text part of a message.
pub open spec fn part_text(part: JsonView) -> Option<Seq<char>> {
    if part.str_at("type"@) == Some("text"@) {
        part.str_at("text"@)
    } else {
        None
    }
}

/// The texts of the text parts of a message, each on a line of its own.
pub open spec fn parts_text(parts: Seq<JsonView>) -> Seq<char>
    decreases parts.len(),
{
    if parts.len() == 0 {
        seq![]
    } else {
        let before = parts_text(parts.drop_last());
        match part_text(parts.last()) {
            Some(text) => if before.len() > 0 {
                before.push('\n') + text
            } else {
                before + text
            },
            None => before,
        }
    }
}

/// The text of the parts of a message.
pub open spec fn text_of_parts(message: JsonView) -> Seq<char> {
    match message.get("parts"@) {
        Some(JsonView::Array(parts)) => parts_text(parts),
        _ => seq![],
    }
}

/// The text of the parts of a message. Reasoning and other parts are left out.
pub fn extract_text_from_parts(message: &Json) -> (r: String)
    ensures
        r@ == text_of_parts(message@),
{
    let parts = match message.get("parts") {
        Some(Json::Array(parts)) => parts,
        _ => {
            return String::new();
        },
    };
    let mut text = String::new();
    let mut i: usize = 0;
    let ghost views = json::views_of(parts@);
    proof {
        json::lemma_views(parts@);
    }
    while i < parts.len()
        invariant
            views == json::views_of(parts@),
            views.len() == parts@.len(),
            forall|k: int| 0 <= k < parts@.len() ==> #[trigger] views[k] == parts@[k]@,
            i <= parts@.len(),
            text@ == parts_text(views.take(i as int)),
        decreases parts@.len() - i,
    {
        assert(views.take(i + 1).drop_last() =~= views.take(i as int));
        let part = &parts[i];
        assert(views[i as int] == part@);
        let is_text = match part.str_at("type") {
            Some(t) => ops::same(t, "text"),
            None => false,
        };
        if is_text {
            if let Some(t) = part.str_at("text") {
                if !text.as_str().is_empty() {
                    text.push('\n');
                }
                text.append(t);
            }
        }
        i += 1;
    }
    assert(views.take(i as int) =~= views);
    text
}

/// The text of the message of an event: its own text, or else that of its message's parts.
pub open spec fn message_text(data: JsonView) -> Seq<char> {
    match data.str_at("text"@) {
        Some(text) => text,
        None => match data.get("message"@) {
            Some(message) => text_of_parts(message),
            None => seq![],
        },
    }
}

/// The text of the message of an event.
pub fn event_message_text(data: &Json) -> (r: String)
    ensures
        r@ == message_text(data@),
{
    match data.str_at("text") {
        Some(text) => text.to_owned(),
        None => match data.get("message") {
            Some(message) => extract_text_from_parts(message),
            None => String::new(),
        },
    }
}

/// The text that a delta appends to a reply.
pub open spec fn delta_text(delta: JsonView) -> Option<Seq<char>> {
    if delta.str_at("type"@) == Some("text_append"@) && delta.str_at("partType"@) == Some("text"@) {
        delta.str_at("text"@)
    } else {
        None
    }
}

/// The text that deltas append to a reply.
pub open spec fn deltas_text(deltas: Seq<JsonView>) -> Seq<char>
    decreases deltas.len(),
{
    if deltas.len() == 0 {
        seq![]
    } else {
        let before = deltas_text(deltas.drop_last());
        match delta_text(deltas.last()) {
            Some(text) => before + text,
            None => before,
        }
    }
}

/// The text that an event appends to a reply.
pub open spec fn appended_text(data: JsonView) -> Seq<char> {
    match data.get("deltas"@) {
        Some(JsonView::Array(deltas)) => deltas_text(deltas),
        _ => seq![],
    }
}

fn has_string(delta: &Json, key: &str, value: &str) -> (r: bool)
    ensures
        r == (delta@.str_at(key@) == Some(value@)),
{
    match delta.str_at(key) {
        Some(s) => ops::same(s, value),
        None => false,
    }
}

/// The text that an event appends to a reply.
pub fn event_appended_text(data: &Json) -> (r: String)
    ensures
        r@ == appended_text(data@),
{
    let deltas = match data.get("deltas") {
        Some(Json::Array(deltas)) => deltas,
        _ => {
            return String::new();
        },
    };
    let mut text = String::new();
    let mut i: usize = 0;
    let ghost views = json::views_of(deltas@);
    proof {
        json::lemma_views(deltas@);
    }
    while i < deltas.len()
        invariant
            views == json::views_of(deltas@),
            views.len() == deltas@.len(),
            forall|k: int| 0 <= k < deltas@.len() ==> #[trigger] views[k] == deltas@[k]@,
            i <= deltas@.len(),
            text@ == deltas_text(views.take(i as int)),
        decreases deltas@.len() - i,
    {
        assert(views.take(i + 1).drop_last() =~= views.take(i as int));
        let delta = &deltas[i];
        assert(views[i as int] == delta@);
        if has_string(delta, "type", "text_append") && has_string(delta, "partType", "text") {
            if let Some(t) = delta.str_at("text") {
                text.append(t);
            }
        }
        i += 1;
    }
    assert(views.take(i as int) =~= views);
    text
}

/// The first of the strings under two keys: the second counts where there is no first.
pub open spec fn either_string(data: JsonView, a: Seq<char>, b: Seq<char>) -> Option<Seq<char>> {
    string_in(first_of(data.get(a), data.get(b)))
}

/// The first of the strings under two keys: the second counts where there is no first.
pub fn either_str<'a>(data: &'a Json, a: &str, b: &str) -> (r: Option<&'a str>)
    ensures
        json::str_view(r) == either_string(data@, a@, b@),
{
    string_of(first(data.get(a), data.get(b)))
}

} // verus!
