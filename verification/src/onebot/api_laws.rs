//! What holds of the calls of the OneBot API, and of what is read from their answers.
use super::api;
use super::event;
use super::event::{Part, SegmentView};
use super::event_laws;
use crate::face_map;
use crate::json;
use crate::json::JsonView;
use crate::text::facts;
use crate::text::model;
use crate::text::number;
use vstd::prelude::*;

verus! {

proof fn lemma_keys()
    ensures
        "message_type"@ != "group_id"@,
        "message_type"@ != "message"@,
        "group_id"@ != "message"@,
        "message_type"@ != "user_id"@,
        "user_id"@ != "message"@,
        "group_id"@ != "user_id"@,
        "message"@ != "user_id"@,
        "type"@ != "data"@,
        "group"@ != "private"@,
        "text"@ != "face"@,
{
    reveal_strlit("message_type");
    reveal_strlit("group_id");
    reveal_strlit("message");
    reveal_strlit("user_id");
    reveal_strlit("type");
    reveal_strlit("data");
    reveal_strlit("group");
    reveal_strlit("private");
    reveal_strlit("text");
    reveal_strlit("face");
    assert("message_type"@.len() == 12);
    assert("group_id"@.len() == 8);
    assert("message"@.len() == 7);
    assert("user_id"@.len() == 7);
    assert("type"@.len() == 4);
    assert("data"@.len() == 4);
    assert("group"@.len() == 5);
    assert("private"@.len() == 7);
    assert("text"@.len() == 4);
    assert("face"@.len() == 4);
    assert("user_id"@[0] != "message"@[0]);
    assert("message"@[0] != "user_id"@[0]);
    assert("type"@[0] != "data"@[0]);
    assert("text"@[0] != "face"@[0]);
}

/// Whether the parameters of a call hold these segments as the message.
pub open spec fn holds_segments(params: JsonView, segments: Seq<SegmentView>) -> bool {
    params.get("message"@) matches Some(JsonView::Array(items)) && {
        &&& items.len() == segments.len()
        &&& forall|i: int|
            0 <= i < items.len() ==> (#[trigger] items[i]).get("type"@) == Some(
                JsonView::Str(segments[i].segment_type),
            ) && items[i].get("data"@) == Some(segments[i].data)
    }
}

proof fn lemma_send_params(message_type: Seq<char>, target_id: int, segments: Seq<SegmentView>)
    ensures
        ({
            let params = api::send_params(message_type, target_id, segments);
            let kind = if message_type == "group"@ {
                "group"@
            } else {
                "private"@
            };
            let key = if message_type == "group"@ {
                "group_id"@
            } else {
                "user_id"@
            };
            let other = if message_type == "group"@ {
                "user_id"@
            } else {
                "group_id"@
            };
            &&& params.get("message_type"@) == Some(JsonView::Str(kind))
            &&& params.get(key) == Some(JsonView::Number(number::dec(target_id), Some(target_id)))
            &&& params.get(other) is None
            &&& holds_segments(params, segments)
        }),
{
    lemma_keys();
    let target = JsonView::Number(number::dec(target_id), Some(target_id));
    let kind = if message_type == "group"@ {
        "group"@
    } else {
        "private"@
    };
    let key = if message_type == "group"@ {
        "group_id"@
    } else {
        "user_id"@
    };
    let other = if message_type == "group"@ {
        "user_id"@
    } else {
        "group_id"@
    };
    let entries = seq![
        ("message_type"@, JsonView::Str(kind)),
        (key, target),
        ("message"@, api::segments_json(segments)),
    ];
    assert(api::send_params(message_type, target_id, segments) == JsonView::Object(entries));
    json::lemma_entry_at(entries, "message_type"@, 0, 0);
    json::lemma_entry_at(entries, key, 0, 1);
    json::lemma_entry_at(entries, "message"@, 0, 2);
    json::lemma_no_entry(entries, other, 0);
    let items = segments.map_values(|s: SegmentView| api::segment_json(s));
    assert forall|i: int| 0 <= i < items.len() implies (#[trigger] items[i]).get("type"@) == Some(
        JsonView::Str(segments[i].segment_type),
    ) && items[i].get("data"@) == Some(segments[i].data) by {
        let seg = segments[i];
        assert(items[i] == api::segment_json(seg));
        json::lemma_two_entries("type"@, JsonView::Str(seg.segment_type), "data"@, seg.data);
    }
}

/// A message to a group goes to the group, and names no user.
pub proof fn law_group_message_goes_to_the_group(group_id: int, segments: Seq<SegmentView>)
    ensures
        ({
            let params = api::send_params("group"@, group_id, segments);
            &&& params.get("message_type"@) == Some(JsonView::Str("group"@))
            &&& params.get("group_id"@) matches Some(id) && id.as_i64() == Some(group_id)
            &&& params.get("user_id"@) is None
            &&& holds_segments(params, segments)
        }),
{
    lemma_send_params("group"@, group_id, segments);
}

/// A message of any other type goes to the user, and names no group.
pub proof fn law_private_message_goes_to_the_user(
    message_type: Seq<char>,
    user_id: int,
    segments: Seq<SegmentView>,
)
    requires
        message_type != "group"@,
    ensures
        ({
            let params = api::send_params(message_type, user_id, segments);
            &&& params.get("message_type"@) == Some(JsonView::Str("private"@))
            &&& params.get("user_id"@) matches Some(id) && id.as_i64() == Some(user_id)
            &&& params.get("group_id"@) is None
            &&& holds_segments(params, segments)
        }),
{
    lemma_send_params(message_type, user_id, segments);
}

/// Messages to different chats, or of different segments, are different calls.
pub proof fn law_calls_tell_chats_apart(
    target_id: int,
    segments: Seq<SegmentView>,
    other_id: int,
    others: Seq<SegmentView>,
)
    ensures
        api::send_params("group"@, target_id, segments) != api::send_params(
            "private"@,
            other_id,
            others,
        ),
        api::send_params("group"@, target_id, segments) == api::send_params(
            "group"@,
            other_id,
            others,
        ) ==> target_id == other_id && segments == others,
        api::send_params("private"@, target_id, segments) == api::send_params(
            "private"@,
            other_id,
            others,
        ) ==> target_id == other_id && segments == others,
{
    lemma_keys();
    lemma_send_params("group"@, target_id, segments);
    lemma_send_params("group"@, other_id, others);
    lemma_send_params("private"@, target_id, segments);
    lemma_send_params("private"@, other_id, others);
    let a = api::send_params("group"@, target_id, segments);
    if a == api::send_params("group"@, other_id, others) {
        lemma_same_segments(a, segments, others);
    }
    let b = api::send_params("private"@, target_id, segments);
    if b == api::send_params("private"@, other_id, others) {
        lemma_same_segments(b, segments, others);
    }
}

proof fn lemma_same_segments(params: JsonView, a: Seq<SegmentView>, b: Seq<SegmentView>)
    requires
        holds_segments(params, a),
        holds_segments(params, b),
    ensures
        a == b,
{
    let items = params.get("message"@)->0->Array_0;
    assert forall|i: int| 0 <= i < a.len() implies a[i] == b[i] by {
        assert(items[i].get("type"@) == Some(JsonView::Str(a[i].segment_type)));
        assert(items[i].get("type"@) == Some(JsonView::Str(b[i].segment_type)));
    }
    assert(a =~= b);
}

/// A reply names the message that it replies to first; in a group it then mentions the user, if
/// there is one to mention; and then comes its text. In a private chat nobody is mentioned.
pub proof fn law_reply_names_what_it_answers(
    message_type: Seq<char>,
    text: Seq<char>,
    reply_to: Seq<char>,
    at_user: Option<Seq<char>>,
)
    ensures
        ({
            let segments = api::reply_segments(message_type, text, reply_to, at_user);
            let told = event::segments_from(text, 0);
            &&& segments.len() >= 1
            &&& event_laws::is_segment(segments[0], "reply"@, "id"@, reply_to)
            &&& message_type == "group"@ && at_user is Some ==> {
                &&& segments.len() == told.len() + 2
                &&& event_laws::is_segment(segments[1], "at"@, "qq"@, at_user->0)
                &&& segments.skip(2) == told
            }
            &&& message_type != "group"@ || at_user is None ==> segments.skip(1) == told
        }),
{
    let segments = api::reply_segments(message_type, text, reply_to, at_user);
    let told = event::segments_from(text, 0);
    json::lemma_entry_at(seq![("id"@, JsonView::Str(reply_to))], "id"@, 0, 0);
    if message_type == "group"@ && at_user is Some {
        json::lemma_entry_at(seq![("qq"@, JsonView::Str(at_user->0))], "qq"@, 0, 0);
        assert(segments.skip(2) =~= told);
    } else {
        assert(segments.skip(1) =~= told);
    }
}

/// A text without emojis is sent as one text segment, as it is; an empty one as none.
pub proof fn law_plain_text_is_one_segment(text: Seq<char>)
    requires
        !model::has_part(text, "[emoji:"@),
    ensures
        text.len() > 0 ==> event::segments_from(text, 0).len() == 1 && event_laws::is_segment(
            event::segments_from(text, 0)[0],
            "text"@,
            "text"@,
            text,
        ),
        text.len() == 0 ==> event::segments_from(text, 0).len() == 0,
{
    facts::lemma_find_none(text, "[emoji:"@, 0);
    assert(text.skip(0) =~= text);
    json::lemma_entry_at(seq![("text"@, JsonView::Str(text))], "text"@, 0, 0);
}

/// The segments of a text behind another are its own.
proof fn lemma_segments_shift(a: Seq<char>, b: Seq<char>, from: int)
    requires
        0 <= from <= b.len(),
    ensures
        event::segments_from(a + b, a.len() + from) == event::segments_from(b, from),
    decreases b.len() - from,
{
    let s = a + b;
    let n = a.len() as int;
    let open = "[emoji:"@;
    facts::lemma_find_shift(a, b, open, from);
    facts::lemma_find_from(b, open, from);
    assert(s.skip(n + from) =~= b.skip(from));
    if let Some(start) = model::find_from(b, open, from) {
        facts::lemma_find_shift(a, b, "]"@, start);
        facts::lemma_find_from(b, "]"@, start);
        if let Some(end) = model::find_from(b, "]"@, start) {
            if start + open.len() <= end < b.len() {
                assert(s.subrange(n + from, n + start) =~= b.subrange(from, start));
                assert(s.subrange(n + start + open.len(), n + end) =~= b.subrange(
                    start + open.len(),
                    end,
                ));
                lemma_segments_shift(a, b, end + 1);
            }
        }
    }
}

/// An emoji with the name of a face is sent as a face of that name, between what stands before
/// it and what stands behind it. An emoji with another name is sent as it is written.
pub proof fn law_named_emoji_is_a_face(a: Seq<char>, name: Seq<char>, b: Seq<char>)
    requires
        !a.contains('['),
        !name.contains(']'),
    ensures
        ({
            let before = event::segments_from(a, 0);
            let segments = event::segments_from(a + ("[emoji:"@ + name + "]"@) + b, 0);
            let seg = segments[before.len() as int];
            &&& segments.len() == before.len() + 1 + event::segments_from(b, 0).len()
            &&& segments.take(before.len() as int) == before
            &&& segments.skip(before.len() as int + 1) == event::segments_from(b, 0)
            &&& (exists|id: Seq<char>| #[trigger] face_map::name_of(id) == Some(name))
                ==> seg.segment_type == "face"@ && (exists|id: Seq<char>|
                seg.data.get("id"@) == Some(JsonView::Str(id)) && #[trigger] face_map::name_of(id)
                    == Some(name))
            &&& (forall|id: Seq<char>| #[trigger] face_map::name_of(id) != Some(name))
                ==> event_laws::is_segment(seg, "text"@, "text"@, "[emoji:"@ + name + "]"@)
        }),
{
    reveal_strlit("[emoji:");
    reveal_strlit("]");
    let open = "[emoji:"@;
    let emoji = open + name + "]"@;
    let s = a + emoji + b;
    let n = a.len() as int;
    let end = n + 7 + name.len();
    assert forall|j: int| 0 <= j < n implies !model::occurs_at(s, open, j) by {
        if model::occurs_at(s, open, j) {
            assert(s.subrange(j, j + 7)[0] == s[j]);
            assert(a.contains(a[j]));
        }
    }
    assert(s.subrange(n, n + 7) =~= open);
    facts::lemma_find_is(s, open, 0, n);
    assert forall|j: int| n <= j < end implies !model::occurs_at(s, "]"@, j) by {
        if model::occurs_at(s, "]"@, j) {
            assert(s.subrange(j, j + 1)[0] == s[j]);
            if j >= n + 7 {
                assert(name.contains(name[j - n - 7]));
            } else {
                assert(s[j] == open[j - n]);
            }
        }
    }
    assert(s.subrange(end, end + 1) =~= "]"@);
    facts::lemma_find_is(s, "]"@, n, end);
    assert(s.subrange(0, n) =~= a);
    assert(s.subrange(n + 7, end) =~= name);
    let front = a + emoji;
    assert(s =~= front + b);
    lemma_segments_shift(front, b, 0);
    assert(front.len() == end + 1);
    assert forall|j: int| 0 <= j implies !model::occurs_at(a, open, j) by {
        if model::occurs_at(a, open, j) {
            assert(a.subrange(j, j + 7)[0] == a[j]);
            assert(a.contains(a[j]));
        }
    }
    facts::lemma_find_none(a, open, 0);
    assert(a.skip(0) =~= a);
    let before = event::segments_from(a, 0);
    let seg = event::emoji_segment(name);
    let behind = event::segments_from(b, 0);
    let segments = event::segments_from(s, 0);
    assert(segments == before + seq![seg] + behind);
    assert(segments.take(before.len() as int) =~= before);
    assert(segments.skip(before.len() as int + 1) =~= behind);
    face_map::law_face_of_a_name_has_the_name(name);
    match face_map::least_number(name, 0) {
        Some(k) => {
            let id = number::dec(k);
            json::lemma_entry_at(seq![("id"@, JsonView::Str(id))], "id"@, 0, 0);
            assert(face_map::name_of(id) == Some(name));
        },
        None => {
            assert forall|id: Seq<char>| #[trigger] face_map::name_of(id) != Some(name) by {
                face_map::law_every_named_face_is_found(id);
            }
            json::lemma_entry_at(seq![("text"@, JsonView::Str(emoji))], "text"@, 0, 0);
        },
    }
}

/// Whether JSON is a text segment with a text.
pub open spec fn is_text_item(item: JsonView, text: Seq<char>) -> bool {
    &&& item.get("type"@) == Some(JsonView::Str("text"@))
    &&& item.get("data"@) matches Some(data) && data.get("text"@) == Some(JsonView::Str(text))
}

/// Whether JSON is a forwarded message with some data.
pub open spec fn is_node(node: JsonView, data: JsonView, content: Seq<JsonView>) -> bool {
    node.get("data"@) == Some(data) && data.get("content"@) == Some(JsonView::Array(content))
}

/// The forwarded messages are those of the first nodes and then those of the others.
pub proof fn law_forwarded_messages_are_in_order(a: Seq<JsonView>, b: Seq<JsonView>)
    ensures
        api::forwarded_nodes(a + b) == api::forwarded_nodes(a) + api::forwarded_nodes(b),
    decreases b.len(),
{
    if b.len() == 0 {
        assert(a + b =~= a);
        assert(api::forwarded_nodes(a) + api::forwarded_nodes(b) =~= api::forwarded_nodes(a));
    } else {
        law_forwarded_messages_are_in_order(a, b.drop_last());
        assert((a + b).drop_last() =~= a + b.drop_last());
        assert(api::forwarded_nodes(a + b) =~= api::forwarded_nodes(a) + api::forwarded_nodes(b));
    }
}

/// No forwarded message is told without a text.
pub proof fn law_forwarded_messages_have_a_text(nodes: Seq<JsonView>)
    ensures
        forall|i: int|
            0 <= i < api::forwarded_nodes(nodes).len() ==> (#[trigger] api::forwarded_nodes(
                nodes,
            )[i]).1.len() > 0,
        api::forwarded_nodes(nodes).len() <= nodes.len(),
    decreases nodes.len(),
{
    if nodes.len() > 0 {
        law_forwarded_messages_have_a_text(nodes.drop_last());
        let before = api::forwarded_nodes(nodes.drop_last());
        let all = api::forwarded_nodes(nodes);
        assert forall|i: int| 0 <= i < all.len() implies (#[trigger] all[i]).1.len() > 0 by {
            if i < before.len() {
                assert(all[i] == before[i]);
            }
        }
    }
}

proof fn lemma_text_items(items: Seq<JsonView>, texts: Seq<Seq<char>>)
    requires
        items.len() == texts.len(),
        forall|i: int| 0 <= i < items.len() ==> is_text_item(#[trigger] items[i], texts[i]),
    ensures
        api::content_texts(items) == texts,
    decreases items.len(),
{
    if items.len() == 0 {
        assert(texts =~= seq![]);
    } else {
        let some = items.drop_last();
        assert forall|i: int| 0 <= i < some.len() implies is_text_item(
            #[trigger] some[i],
            texts.drop_last()[i],
        ) by {
            assert(some[i] == items[i]);
        }
        lemma_text_items(some, texts.drop_last());
        assert(is_text_item(items[items.len() - 1], texts.last()));
        assert(texts.drop_last().push(texts.last()) =~= texts);
    }
}

proof fn lemma_one_node(node: JsonView)
    ensures
        api::forwarded_nodes(seq![node]) == (match api::forwarded_node(node) {
            Some(pair) => seq![pair],
            None => seq![],
        }),
{
    reveal_with_fuel(api::forwarded_nodes, 2);
    assert(seq![node].drop_last() =~= seq![]);
    assert(api::forwarded_nodes(seq![node]) =~= (match api::forwarded_node(node) {
        Some(pair) => seq![pair],
        None => seq![],
    }));
}

/// A forwarded message is told with the name of its sender, which is the nickname, or else the
/// name, and with its texts, one behind the other and trimmed. One whose text is blank is left
/// out.
pub proof fn law_forwarded_message_is_told(
    node: JsonView,
    data: JsonView,
    content: Seq<JsonView>,
    texts: Seq<Seq<char>>,
    name: Seq<char>,
)
    requires
        is_node(node, data, content),
        content.len() == texts.len(),
        forall|i: int| 0 <= i < content.len() ==> is_text_item(#[trigger] content[i], texts[i]),
    ensures
        ({
            let told = api::forwarded_nodes(seq![node]);
            let text = model::trimmed(texts.flatten());
            &&& text.len() == 0 ==> told.len() == 0
            &&& text.len() > 0 && data.get("nickname"@) == Some(JsonView::Str(name)) ==> told
                == seq![(name, text)]
            &&& text.len() > 0 && data.get("nickname"@) is None && data.get("name"@) == Some(
                JsonView::Str(name),
            ) ==> told == seq![(name, text)]
            &&& text.len() > 0 && data.get("nickname"@) is None && data.get("name"@) is None
                ==> told == seq![("unknown"@, text)]
        }),
{
    lemma_text_items(content, texts);
    facts::lemma_joined_flat(texts);
    lemma_one_node(node);
}

/// Forwarded messages of one text each are told one by one, each with its sender.
pub proof fn law_forwarded_messages_are_told(
    nodes: Seq<JsonView>,
    names: Seq<Seq<char>>,
    texts: Seq<Seq<char>>,
)
    requires
        nodes.len() == names.len(),
        nodes.len() == texts.len(),
        forall|i: int|
            0 <= i < nodes.len() ==> {
                &&& (#[trigger] nodes[i]).get("data"@) matches Some(data) && {
                    &&& data.get("nickname"@) == Some(JsonView::Str(names[i]))
                    &&& data.get("content"@) matches Some(JsonView::Array(content))
                        && content.len() == 1 && is_text_item(content[0], texts[i])
                }
                &&& model::trimmed(texts[i]).len() > 0
            },
    ensures
        api::forwarded_nodes(nodes).len() == nodes.len(),
        forall|i: int|
            0 <= i < nodes.len() ==> #[trigger] api::forwarded_nodes(nodes)[i] == (
                names[i],
                model::trimmed(texts[i]),
            ),
    decreases nodes.len(),
{
    if nodes.len() > 0 {
        let some = nodes.drop_last();
        let last = nodes[nodes.len() - 1];
        assert forall|i: int| 0 <= i < some.len() implies {
            &&& (#[trigger] some[i]).get("data"@) matches Some(data) && {
                &&& data.get("nickname"@) == Some(JsonView::Str(names.drop_last()[i]))
                &&& data.get("content"@) matches Some(JsonView::Array(content)) && content.len()
                    == 1 && is_text_item(content[0], texts.drop_last()[i])
            }
            &&& model::trimmed(texts.drop_last()[i]).len() > 0
        } by {
            assert(some[i] == nodes[i]);
        }
        law_forwarded_messages_are_told(some, names.drop_last(), texts.drop_last());
        let data = last.get("data"@)->0;
        let content = data.get("content"@)->0->Array_0;
        let one = seq![texts.last()];
        one.lemma_flatten_one_element();
        law_forwarded_message_is_told(last, data, content, one, names.last());
        law_forwarded_messages_are_in_order(some, seq![last]);
        assert(some + seq![last] =~= nodes);
    }
}

/// What a forwarded message shows beside its texts can be left out.
pub proof fn law_forwarded_texts_only(
    node: JsonView,
    data: JsonView,
    other: JsonView,
    other_data: JsonView,
    content: Seq<JsonView>,
    i: int,
)
    requires
        0 <= i < content.len(),
        is_node(node, data, content),
        is_node(other, other_data, content.remove(i)),
        data.get("nickname"@) == other_data.get("nickname"@),
        data.get("name"@) == other_data.get("name"@),
        content[i].get("type"@) != Some(JsonView::Str("text"@)),
    ensures
        api::forwarded_nodes(seq![node]) == api::forwarded_nodes(seq![other]),
{
    lemma_item_left_out(content, i);
    lemma_one_node(node);
    lemma_one_node(other);
}

proof fn lemma_item_left_out(items: Seq<JsonView>, i: int)
    requires
        0 <= i < items.len(),
        items[i].get("type"@) != Some(JsonView::Str("text"@)),
    ensures
        api::content_texts(items) == api::content_texts(items.remove(i)),
    decreases items.len(),
{
    if i < items.len() - 1 {
        lemma_item_left_out(items.drop_last(), i);
        assert(items.remove(i).drop_last() =~= items.drop_last().remove(i));
        assert(items.remove(i).last() == items.last());
    } else {
        assert(items.remove(i) =~= items.drop_last());
    }
}

/// Who sent a quoted message: the name in the group, if it is not empty, else the nickname, and
/// the number of the account, be it a number or a text.
pub proof fn law_quoted_sender(
    quoted: api::QuotedMessage,
    data: JsonView,
    sender: JsonView,
    name: Seq<char>,
    id: i64,
)
    requires
        api::is_quote_of(quoted, data),
        data.get("sender"@) == Some(sender),
    ensures
        sender.get("card"@) == Some(JsonView::Str(name)) && name.len() > 0 ==> quoted.sender_name@
            == name,
        (sender.get("card"@) is None || sender.get("card"@) == Some(JsonView::Str(seq![])))
            && sender.get("nickname"@) == Some(JsonView::Str(name)) && name.len() > 0
            ==> quoted.sender_name@ == name,
        (exists|text: Seq<char>|
            sender.get("user_id"@) == Some(#[trigger] numbered(text, id as int)))
            ==> quoted.sender_id == Some(id),
        sender.get("user_id"@) == Some(JsonView::Str(number::dec(id as int))) ==> quoted.sender_id
            == Some(id),
        sender.get("user_id"@) is None ==> quoted.sender_id is None,
{
    number::lemma_parse_of_dec(id as int);
}

/// A number in JSON, with how it is written.
pub open spec fn numbered(text: Seq<char>, value: int) -> JsonView {
    JsonView::Number(text, Some(value))
}

/// Whether JSON is a segment of a kind with some data: an object of both, or an array of both.
pub open spec fn is_item(item: JsonView, seg: SegmentView) -> bool {
    ||| {
        &&& item is Object
        &&& item.get("type"@) == Some(JsonView::Str(seg.segment_type))
        &&& item.get("data"@) == Some(seg.data)
    }
    ||| item == JsonView::Array(seq![JsonView::Str(seg.segment_type), seg.data])
}

proof fn lemma_items(items: Seq<JsonView>, segments: Seq<SegmentView>)
    requires
        items.len() == segments.len(),
        forall|i: int| 0 <= i < items.len() ==> is_item(#[trigger] items[i], segments[i]),
    ensures
        api::segments_in(items) == Some(segments),
    decreases items.len(),
{
    if items.len() == 0 {
        assert(segments =~= seq![]);
    } else {
        let some = items.drop_last();
        assert forall|i: int| 0 <= i < some.len() implies is_item(
            #[trigger] some[i],
            segments.drop_last()[i],
        ) by {
            assert(some[i] == items[i]);
        }
        lemma_items(some, segments.drop_last());
        assert(is_item(items[items.len() - 1], segments.last()));
        assert(segments.drop_last().push(segments.last()) =~= segments);
    }
}

/// A message in JSON is read as the segments that its items are, in order; what was written as
/// JSON to be sent is read back.
pub proof fn law_segments_are_read(
    params: JsonView,
    items: Seq<JsonView>,
    segments: Seq<SegmentView>,
)
    ensures
        items.len() == segments.len() && (forall|i: int|
            0 <= i < items.len() ==> is_item(#[trigger] items[i], segments[i]))
            ==> api::message_segments(Some(JsonView::Array(items))) == segments,
        api::message_segments(Some(api::segments_json(segments))) == segments,
{
    lemma_keys();
    if items.len() == segments.len() && (forall|i: int|
        0 <= i < items.len() ==> is_item(#[trigger] items[i], segments[i])) {
        lemma_items(items, segments);
    }
    let written = segments.map_values(|s: SegmentView| api::segment_json(s));
    assert forall|i: int| 0 <= i < written.len() implies is_item(#[trigger] written[i], segments[i]) by {
        let seg = segments[i];
        assert(written[i] == api::segment_json(seg));
        json::lemma_two_entries("type"@, JsonView::Str(seg.segment_type), "data"@, seg.data);
    }
    lemma_items(written, segments);
}

/// A quoted message of text segments is told by its text.
pub proof fn law_quoted_text_is_told(
    quoted: api::QuotedMessage,
    data: JsonView,
    items: Seq<JsonView>,
    texts: Seq<Seq<char>>,
)
    requires
        api::is_quote_of(quoted, data),
        data.get("message"@) == Some(JsonView::Array(items)),
        items.len() == texts.len(),
        forall|i: int|
            0 <= i < items.len() ==> (#[trigger] items[i]) is Object && is_text_item(
                items[i],
                texts[i],
            ),
        model::trimmed(texts.flatten()).len() > 0,
    ensures
        quoted.text@ == model::trimmed(texts.flatten()),
        quoted.image_urls@.len() == 0,
{
    let segments = Seq::new(
        items.len(),
        |i: int| SegmentView { segment_type: "text"@, data: items[i].get("data"@)->0 },
    );
    assert forall|i: int| 0 <= i < items.len() implies is_item(#[trigger] items[i], segments[i]) by {
        assert(is_text_item(items[i], texts[i]));
    }
    lemma_items(items, segments);
    assert forall|i: int| 0 <= i < segments.len() implies event_laws::is_segment(
        #[trigger] segments[i],
        "text"@,
        "text"@,
        texts[i],
    ) by {
        assert(is_text_item(items[i], texts[i]));
    }
    event_laws::law_plain_text_is_all_texts(segments, texts);
    lemma_text_has_no_media(segments);
    assert(model::texts(quoted.image_urls@).len() == quoted.image_urls@.len());
}

proof fn lemma_text_has_no_media(segments: Seq<SegmentView>)
    requires
        forall|i: int| 0 <= i < segments.len() ==> (#[trigger] segments[i]).segment_type == "text"@,
    ensures
        event::parts_of(segments, Part::Image).len() == 0,
        event::parts_of(segments, Part::Media).len() == 0,
        event::files_of(segments).len() == 0,
        api::media_hints(segments).len() == 0,
    decreases segments.len(),
{
    event_laws::lemma_types();
    if segments.len() > 0 {
        let some = segments.drop_last();
        assert forall|i: int| 0 <= i < some.len() implies (#[trigger] some[i]).segment_type
            == "text"@ by {
            assert(some[i] == segments[i]);
        }
        lemma_text_has_no_media(some);
        assert(segments[segments.len() - 1].segment_type == "text"@);
    }
}

/// A quoted message of images is told by how many there are, and hands on where each can be had,
/// in order.
pub proof fn law_quoted_images_are_told(
    quoted: api::QuotedMessage,
    data: JsonView,
    items: Seq<JsonView>,
    urls: Seq<Seq<char>>,
)
    requires
        api::is_quote_of(quoted, data),
        data.get("message"@) == Some(JsonView::Array(items)),
        items.len() == urls.len(),
        items.len() > 0,
        forall|i: int|
            0 <= i < items.len() ==> {
                &&& (#[trigger] items[i]) is Object
                &&& items[i].get("type"@) == Some(JsonView::Str("image"@))
                &&& items[i].get("data"@) matches Some(d) && d.get("url"@) == Some(
                    JsonView::Str(urls[i]),
                ) && d.get("type"@) is None
            },
    ensures
        model::texts(quoted.image_urls@) == urls,
        urls.len() == 1 ==> quoted.text@ == "[photo attached]"@,
        urls.len() > 1 ==> quoted.text@ == "["@ + number::dec(urls.len() as int)
            + " photos attached]"@,
{
    let segments = Seq::new(
        items.len(),
        |i: int| SegmentView { segment_type: "image"@, data: items[i].get("data"@)->0 },
    );
    assert forall|i: int| 0 <= i < items.len() implies is_item(#[trigger] items[i], segments[i]) by {
        assert(items[i] is Object);
    }
    lemma_items(items, segments);
    assert forall|i: int| 0 <= i < segments.len() implies event_laws::is_segment(
        #[trigger] segments[i],
        "image"@,
        "url"@,
        urls[i],
    ) && segments[i].data.get("type"@) is None by {
        assert(items[i] is Object);
    }
    lemma_images(segments, urls);
    reveal_strlit("[photo attached]");
    reveal_strlit(" photos attached]");
    reveal_strlit("\n");
    reveal_strlit("");
    assert(model::trimmed(Seq::<char>::empty()) =~= seq![]);
    let hints = api::media_hints(segments);
    assert(hints =~= api::photo_hints(urls.len()));
    assert(hints.len() == 1);
    assert(model::joined(hints, "\n"@) == hints[0]);
}

proof fn lemma_images(segments: Seq<SegmentView>, urls: Seq<Seq<char>>)
    requires
        segments.len() == urls.len(),
        forall|i: int|
            0 <= i < segments.len() ==> event_laws::is_segment(
                #[trigger] segments[i],
                "image"@,
                "url"@,
                urls[i],
            ) && segments[i].data.get("type"@) is None,
    ensures
        event::parts_of(segments, Part::Image) == urls,
        event::parts_of(segments, Part::Text).len() == 0,
        event::files_of(segments).len() == 0,
        api::telling_lines(event::parts_of(segments, Part::Media)).len() == 0,
    decreases segments.len(),
{
    event_laws::lemma_types();
    if segments.len() == 0 {
        assert(urls =~= seq![]);
    } else {
        let some = segments.drop_last();
        assert forall|i: int| 0 <= i < some.len() implies event_laws::is_segment(
            #[trigger] some[i],
            "image"@,
            "url"@,
            urls.drop_last()[i],
        ) && some[i].data.get("type"@) is None by {
            assert(some[i] == segments[i]);
        }
        lemma_images(some, urls.drop_last());
        assert(event_laws::is_segment(segments[segments.len() - 1], "image"@, "url"@, urls.last()));
        assert(urls.drop_last().push(urls.last()) =~= urls);
        let lines = event::parts_of(segments, Part::Media);
        assert(lines.drop_last() =~= event::parts_of(some, Part::Media));
    }
}

/// A quoted message that is told only by its raw text is told by that, unless the raw text is CQ
/// codes.
pub proof fn law_quoted_raw_text_is_told(
    quoted: api::QuotedMessage,
    data: JsonView,
    raw: Seq<char>,
)
    requires
        api::is_quote_of(quoted, data),
        data.get("message"@) is None,
        data.get("raw_message"@) == Some(JsonView::Str(raw)),
    ensures
        model::trimmed(raw).len() > 0 && !model::has_part(raw, "[CQ:"@) ==> quoted.text@
            == model::trimmed(raw),
        model::has_part(raw, "[CQ:"@) ==> quoted.text@.len() == 0,
{
    reveal_strlit("[CQ:");
    reveal_strlit("");
    assert(model::trimmed(Seq::<char>::empty()) =~= seq![]);
    let none = Seq::<SegmentView>::empty();
    assert(api::media_hints(none) =~= seq![]);
    assert(event::plain_text(none) =~= seq![]);
    facts::lemma_trimmed_twice(raw);
    let t = model::trimmed(raw);
    if model::has_part(raw, "[CQ:"@) {
        assert(!model::is_whitespace("[CQ:"@[0]));
        assert("[CQ:"@.len() == 4);
        assert("[CQ:"@.last() == "[CQ:"@[3]);
        facts::lemma_part_of_trimmed(raw, "[CQ:"@);
    } else if model::has_part(t, "[CQ:"@) {
        let a = facts::lemma_trimmed_place(raw);
        let i = choose|i: int| model::occurs_at(t, "[CQ:"@, i);
        assert(raw.subrange(a + i, a + i + 4) =~= t.subrange(i, i + 4));
        assert(model::occurs_at(raw, "[CQ:"@, a + i));
    }
}

/// The name of a group is the trimmed name of the first group in the list with its number, be the
/// number a number or a text. Groups with other numbers are of no account.
pub proof fn law_group_name_is_looked_up(
    groups: Seq<JsonView>,
    i: int,
    group_id: i64,
    name: Seq<char>,
    others: Seq<i64>,
)
    requires
        0 <= i < groups.len(),
        others.len() == i,
        forall|j: int|
            0 <= j < i ==> (#[trigger] groups[j]).get("group_id"@) == Some(
                JsonView::Str(number::dec(others[j] as int)),
            ) && others[j] != group_id,
        groups[i].get("group_id"@) == Some(numbered(number::dec(group_id as int), group_id as int))
            || groups[i].get("group_id"@) == Some(JsonView::Str(number::dec(group_id as int))),
        groups[i].get("group_name"@) == Some(JsonView::Str(name)),
    ensures
        api::group_name_from(groups, group_id as int, 0) == (if model::trimmed(name).len() > 0 {
            Some(model::trimmed(name))
        } else {
            None
        }),
{
    number::lemma_parse_of_dec(group_id as int);
    assert(api::is_group(groups[i], group_id as int));
    assert forall|j: int| 0 <= j < i implies !api::is_group(
        #[trigger] groups[j],
        group_id as int,
    ) by {
        number::lemma_parse_of_dec(others[j] as int);
    }
    lemma_group_at(groups, group_id as int, 0, i);
}

proof fn lemma_group_at(groups: Seq<JsonView>, group_id: int, from: int, i: int)
    requires
        0 <= from <= i < groups.len(),
        api::is_group(groups[i], group_id),
        forall|j: int| 0 <= j < i ==> !api::is_group(#[trigger] groups[j], group_id),
    ensures
        api::group_name_from(groups, group_id, from) == api::listed_name(groups[i]),
    decreases i - from,
{
    if from < i {
        lemma_group_at(groups, group_id, from + 1, i);
    }
}

/// A call that failed is told of with its action, its status and code, and the message of the
/// answer, or else its wording.
pub proof fn law_failure_tells_what_went_wrong(action: Seq<char>, resp: event::ApiResponse)
    ensures
        ({
            let told = api::failure_text(action, resp);
            &&& model::has_part(told, action)
            &&& model::has_part(told, "status="@ + resp.status@)
            &&& model::has_part(told, "retcode="@ + number::dec(resp.retcode as int))
            &&& resp.message is Some ==> model::has_part(told, resp.message->0@)
            &&& resp.message is None && resp.wording is Some ==> model::has_part(
                told,
                resp.wording->0@,
            )
        }),
{
    reveal_strlit(" failed: status=");
    reveal_strlit("status=");
    reveal_strlit(", retcode=");
    reveal_strlit("retcode=");
    let why = match (resp.message, resp.wording) {
        (Some(m), _) => m@,
        (None, Some(w)) => w@,
        (None, None) => "no error message"@,
    };
    let told = api::failure_text(action, resp);
    let code = number::dec(resp.retcode as int);
    let head = "OneBot API "@ + action + " failed: "@;
    reveal_strlit(" failed: ");
    let status = "status="@ + resp.status@;
    let retcode = "retcode="@ + code;
    assert(" failed: status="@ =~= " failed: "@ + "status="@);
    reveal_strlit(", ");
    assert(", retcode="@ =~= ", "@ + "retcode="@);
    assert(told =~= "OneBot API "@ + action + (" failed: "@ + status + ", "@ + retcode + ", "@ + why));
    facts::lemma_part_between(
        "OneBot API "@,
        action,
        " failed: "@ + status + ", "@ + retcode + ", "@ + why,
    );
    assert(told =~= head + status + (", "@ + retcode + ", "@ + why));
    facts::lemma_part_between(head, status, ", "@ + retcode + ", "@ + why);
    assert(told =~= (head + status + ", "@) + retcode + (", "@ + why));
    facts::lemma_part_between(head + status + ", "@, retcode, ", "@ + why);
    assert(told =~= (head + status + ", "@ + retcode + ", "@) + why + Seq::<char>::empty());
    facts::lemma_part_between(head + status + ", "@ + retcode + ", "@, why, Seq::empty());
}

/// The echoes of two calls differ, and so do those of calls of different actions.
pub proof fn law_echoes_differ(a: Seq<char>, b: Seq<char>, action: Seq<char>, other: Seq<char>)
    requires
        a.len() == 36,
        b.len() == 36,
        a != b || action != other,
    ensures
        api::echo_text(a, action) != api::echo_text(b, other),
        model::finishes_with(api::echo_text(a, action), action),
{
    reveal_strlit("bridge-");
    reveal_strlit("-");
    let x = api::echo_text(a, action);
    let y = api::echo_text(b, other);
    assert(x.subrange(7, 43) =~= a);
    assert(y.subrange(7, 43) =~= b);
    assert(x.skip(44) =~= action);
    assert(y.skip(44) =~= other);
    assert(x.subrange(x.len() - action.len(), x.len() as int) =~= action);
}

/// A call succeeded if and only if its answer says so and brings no error code.
pub proof fn law_success_is_told(resp: event::ApiResponse)
    ensures
        api::is_success(resp) <==> resp.status@ == "ok"@ && resp.retcode == 0,
{
}

/// From a segment that is made are read its kind and what it was made of.
pub proof fn law_segments_are_made(text: Seq<char>, key: Seq<char>)
    ensures
        event_laws::is_segment(event::text_segment(text), "text"@, "text"@, text),
        event_laws::is_segment(event::at_segment(text), "at"@, "qq"@, text),
        event_laws::is_segment(event::reply_segment(text), "reply"@, "id"@, text),
        event::one_string(key, text).get(key) == Some(JsonView::Str(text)),
{
    lemma_one_string("text"@, text);
    lemma_one_string("qq"@, text);
    lemma_one_string("id"@, text);
    lemma_one_string(key, text);
}

proof fn lemma_one_string(key: Seq<char>, text: Seq<char>)
    ensures
        event::one_string(key, text).get(key) == Some(JsonView::Str(text)),
{
    json::lemma_entry_at(seq![(key, JsonView::Str(text))], key, 0, 0);
}

/// A message with an item that is no segment is not read at all.
pub proof fn law_broken_message_is_not_read(items: Seq<JsonView>, i: int)
    requires
        0 <= i < items.len(),
        !(items[i] is Object) && !(items[i] is Array) || items[i] is Object && items[i].get(
            "type"@,
        ) is None,
    ensures
        api::message_segments(Some(JsonView::Array(items))).len() == 0,
{
    lemma_broken(items, i);
}

proof fn lemma_broken(items: Seq<JsonView>, i: int)
    requires
        0 <= i < items.len(),
        api::segment_in(items[i]) is None,
    ensures
        api::segments_in(items) is None,
    decreases items.len(),
{
    if i < items.len() - 1 {
        lemma_broken(items.drop_last(), i);
    }
}

/// A quoted message is told with every text of it, with the name of every file, with how many images
/// it has, and with marks for its voice messages and videos.
pub proof fn law_quoted_message_is_told_whole(
    quoted: api::QuotedMessage,
    data: JsonView,
    items: Seq<JsonView>,
    segments: Seq<SegmentView>,
    i: int,
    text: Seq<char>,
    url: Seq<char>,
)
    requires
        api::is_quote_of(quoted, data),
        data.get("message"@) == Some(JsonView::Array(items)),
        items.len() == segments.len(),
        forall|k: int| 0 <= k < items.len() ==> is_item(#[trigger] items[k], segments[k]),
        0 <= i < segments.len(),
        url.len() > 0,
    ensures
        event_laws::is_segment(segments[i], "text"@, "text"@, text) && model::trimmed(text).len()
            > 0 ==> model::has_part(quoted.text@, model::trimmed(text)),
        event_laws::is_segment(segments[i], "file"@, "file"@, text) && segments[i].data.get("url"@)
            == Some(JsonView::Str(url)) ==> model::has_part(quoted.text@, "[file: "@ + text + "]"@),
        segments[i].segment_type == "record"@ ==> model::has_part(
            quoted.text@,
            "[Voice message]"@,
        ),
        segments[i].segment_type == "video"@ ==> model::has_part(quoted.text@, "[Video]"@),
{
    lemma_items(items, segments);
    let plain = event::plain_text(segments);
    let hints = api::media_hints(segments);
    event_laws::lemma_types();
    if event_laws::is_segment(segments[i], "text"@, "text"@, text) && model::trimmed(text).len()
        > 0 {
        let t = model::trimmed(text);
        event_laws::lemma_part_is_told(segments, Part::Text, i);
        let texts = event::parts_of(segments, Part::Text);
        let j = choose|j: int| 0 <= j < texts.len() && texts[j] == text;
        facts::lemma_joined_holds(texts, ""@, j);
        let a = facts::lemma_trimmed_place(text);
        assert(model::occurs_at(text, t, a));
        facts::lemma_part_of_part(model::joined(texts, ""@), text, t);
        facts::lemma_trimmed_ends(text);
        facts::lemma_part_of_trimmed(model::joined(texts, ""@), t);
        let at = choose|at: int| model::occurs_at(plain, t, at);
        assert(plain.len() > 0);
        facts::lemma_part_of_either(plain, "\n"@, t);
        facts::lemma_part_of_either(plain + "\n"@, model::joined(hints, "\n"@), t);
    }
    if event_laws::is_segment(segments[i], "file"@, "file"@, text) && segments[i].data.get("url"@)
        == Some(JsonView::Str(url)) {
        event_laws::law_file_segment_is_a_file(segments[i], url, text);
        lemma_file_is_told(segments, i, (text, url));
        let files = event::files_of(segments);
        let j = choose|j: int| 0 <= j < files.len() && files[j] == (text, url);
        let photos = api::photo_hints(event::parts_of(segments, Part::Image).len());
        assert(hints[photos.len() + j] == "[file: "@ + text + "]"@);
        reveal_strlit("[file: ");
        lemma_hint_is_told(quoted, data, segments, (photos.len() + j) as int);
    }
    if segments[i].segment_type == "record"@ {
        reveal_strlit("[Voice message]");
        lemma_media_hint(quoted, data, segments, i, "[Voice message]"@);
    }
    if segments[i].segment_type == "video"@ {
        reveal_strlit("[Video]");
        lemma_media_hint(quoted, data, segments, i, "[Video]"@);
    }
}

proof fn lemma_file_is_told(
    segments: Seq<SegmentView>,
    i: int,
    file: (Seq<char>, Seq<char>),
)
    requires
        0 <= i < segments.len(),
        event::files_of(seq![segments[i]]) == seq![file],
    ensures
        event::files_of(segments).contains(file),
{
    let a = segments.take(i);
    let b = segments.skip(i + 1);
    let mid = seq![segments[i]];
    assert(segments =~= a + mid + b);
    event_laws::law_files_are_told_in_order(a, mid);
    event_laws::law_files_are_told_in_order(a + mid, b);
    let before = event::files_of(a);
    assert(event::files_of(segments)[before.len() as int] == file);
}

proof fn lemma_hint_is_told(
    quoted: api::QuotedMessage,
    data: JsonView,
    segments: Seq<SegmentView>,
    j: int,
)
    requires
        api::is_quote_of(quoted, data),
        api::message_segments(data.get("message"@)) == segments,
        0 <= j < api::media_hints(segments).len(),
        api::media_hints(segments)[j].len() > 0,
    ensures
        model::has_part(quoted.text@, api::media_hints(segments)[j]),
{
    let plain = event::plain_text(segments);
    let hints = api::media_hints(segments);
    let all = model::joined(hints, "\n"@);
    facts::lemma_joined_holds(hints, "\n"@, j);
    let at = choose|at: int| model::occurs_at(all, hints[j], at);
    assert(all.len() > 0);
    facts::lemma_part_of_either(plain + "\n"@, all, hints[j]);
}

proof fn lemma_media_hint(
    quoted: api::QuotedMessage,
    data: JsonView,
    segments: Seq<SegmentView>,
    i: int,
    mark: Seq<char>,
)
    requires
        api::is_quote_of(quoted, data),
        api::message_segments(data.get("message"@)) == segments,
        0 <= i < segments.len(),
        event::part_of(segments[i], Part::Media) == Some(mark),
        mark.len() > 0,
        mark == "[Voice message]"@ || mark == "[Video]"@,
    ensures
        model::has_part(quoted.text@, mark),
{
    reveal_strlit("[Voice message]");
    reveal_strlit("[Video]");
    reveal_strlit("[Image]");
    reveal_strlit("[File]");
    assert("[Image]"@.len() == 7 && "[File]"@.len() == 6);
    assert("[Image]"@[1] == 'I');
    event_laws::lemma_part_is_told(segments, Part::Media, i);
    let lines = event::parts_of(segments, Part::Media);
    let j = choose|j: int| 0 <= j < lines.len() && lines[j] == mark;
    assert(mark[1] == 'V');
    lemma_line_tells(lines, j);
    let telling = api::telling_lines(lines);
    let k = choose|k: int| 0 <= k < telling.len() && telling[k] == mark;
    let hints = api::media_hints(segments);
    let n = hints.len() - telling.len();
    assert(hints[n + k] == mark);
    lemma_hint_is_told(quoted, data, segments, n + k);
}

/// A media line that is no bare mark of an image or a file is told.
pub proof fn lemma_line_tells(lines: Seq<Seq<char>>, i: int)
    requires
        0 <= i < lines.len(),
        lines[i] != "[Image]"@,
        lines[i] != "[File]"@,
    ensures
        api::telling_lines(lines).contains(lines[i]),
    decreases lines.len(),
{
    let all = api::telling_lines(lines);
    if i == lines.len() - 1 {
        assert(all.last() == lines[i]);
    } else {
        lemma_line_tells(lines.drop_last(), i);
        let some = api::telling_lines(lines.drop_last());
        let j = choose|j: int| 0 <= j < some.len() && some[j] == lines[i];
        assert(all[j] == lines[i]);
    }
}

} // verus!
