//! What holds of the messages that the bridge reads and of how Alma is told of them.
use super::context;
use super::message;
use super::split;
use super::split_laws;
use crate::face_map;
use crate::json;
use crate::onebot::api;
use crate::onebot::api_laws;
use crate::onebot::event;
use crate::onebot::event::{OneBotEvent, Part, SegmentView};
use crate::onebot::event_laws;
use crate::onebot::event_laws::{is_segment, is_written};
use crate::text::facts;
use crate::text::model;
use crate::text::number;
use vstd::prelude::*;

verus! {

/// Whether a message has some segments.
pub open spec fn is_made_of(e: OneBotEvent, segments: Seq<SegmentView>) -> bool {
    e.message matches Some(m) && m@.len() == segments.len() && forall|i: int|
        0 <= i < segments.len() ==> (#[trigger] m@[i])@ == segments[i]
}

proof fn lemma_made_of(e: OneBotEvent, segments: Seq<SegmentView>)
    requires
        is_made_of(e, segments),
    ensures
        message::segments_of(e) == segments,
{
    assert(message::segments_of(e) =~= segments);
}

/// Whether a segment is a face, and how a text shows it: by its name, or by its id where it has
/// none.
pub open spec fn is_face(seg: SegmentView, shown: Seq<char>) -> bool {
    &&& seg.segment_type == "face"@
    &&& exists|id: Seq<char>| #[trigger]
        is_written(seg.data.get("id"@), id) && shown == (match face_map::name_of(id) {
            Some(name) => "[emoji:"@ + name + "]"@,
            None => "[emoji:face_"@ + id + "]"@,
        })
}

pub proof fn lemma_face_ends(seg: SegmentView, shown: Seq<char>)
    requires
        is_face(seg, shown),
    ensures
        shown.len() > 7,
        shown[0] == '[',
        shown[1] == 'e',
        shown.last() == ']',
        event::part_of(seg, Part::Face) == Some(shown),
{
    reveal_strlit("[emoji:");
    reveal_strlit("[emoji:face_");
    reveal_strlit("]");
    let id = choose|id: Seq<char>| #[trigger]
        is_written(seg.data.get("id"@), id) && shown == (match face_map::name_of(id) {
            Some(name) => "[emoji:"@ + name + "]"@,
            None => "[emoji:face_"@ + id + "]"@,
        });
    assert(event::part_of(seg, Part::Face) == Some(shown));
}

proof fn lemma_face_is_told(segments: Seq<SegmentView>, i: int, shown: Seq<char>)
    requires
        0 <= i < segments.len(),
        is_face(segments[i], shown),
    ensures
        model::has_part(model::joined(event::parts_of(segments, Part::Face), " "@), shown),
{
    lemma_face_ends(segments[i], shown);
    event_laws::lemma_part_is_told(segments, Part::Face, i);
    let faces = event::parts_of(segments, Part::Face);
    let j = choose|j: int| 0 <= j < faces.len() && faces[j] == shown;
    facts::lemma_joined_holds(faces, " "@, j);
}

/// Both of two spaced texts are held by the result.
proof fn lemma_spaced_holds(a: Seq<char>, b: Seq<char>, pat: Seq<char>)
    ensures
        model::has_part(a, pat) && pat.len() > 0 ==> model::has_part(context::spaced(a, b), pat),
        model::has_part(b, pat) && pat.len() > 0 ==> model::has_part(context::spaced(a, b), pat),
        a.len() > 0 || b.len() > 0 ==> context::spaced(a, b).len() > 0,
{
    facts::lemma_part_of_either(a, " "@, pat);
    facts::lemma_part_of_either(a + " "@, b, pat);
}

/// A message with a face shows it in its text, wherever the face stands; so the text is not empty,
/// and the message is looked at or an error.
pub proof fn law_face_is_in_the_text(
    e: OneBotEvent,
    segments: Seq<SegmentView>,
    i: int,
    shown: Seq<char>,
)
    requires
        is_made_of(e, segments),
        0 <= i < segments.len(),
        is_face(segments[i], shown),
    ensures
        model::has_part(message::text_of(e), shown),
        message::text_of(e).len() > 0,
        message::looked_at(e) != Ok::<bool, Seq<char>>(false),
{
    lemma_made_of(e, segments);
    lemma_face_ends(segments[i], shown);
    lemma_face_is_told(segments, i, shown);
    lemma_spaced_holds(
        event::plain_text(segments),
        model::joined(event::parts_of(segments, Part::Face), " "@),
        shown,
    );
}

/// The text of a message holds the text of each of its text segments, up to whitespace at its
/// ends.
pub proof fn law_text_is_in_the_text(
    e: OneBotEvent,
    segments: Seq<SegmentView>,
    i: int,
    text: Seq<char>,
)
    requires
        is_made_of(e, segments),
        0 <= i < segments.len(),
        is_segment(segments[i], "text"@, "text"@, text),
        model::trimmed(text).len() > 0,
    ensures
        model::has_part(message::text_of(e), model::trimmed(text)),
        message::looked_at(e) != Ok::<bool, Seq<char>>(false),
{
    lemma_made_of(e, segments);
    event_laws::lemma_part_is_told(segments, Part::Text, i);
    let texts = event::parts_of(segments, Part::Text);
    let j = choose|j: int| 0 <= j < texts.len() && texts[j] == text;
    let t = model::trimmed(text);
    facts::lemma_joined_holds(texts, ""@, j);
    lemma_holds_trimmed(text);
    facts::lemma_part_of_part(model::joined(texts, ""@), text, t);
    facts::lemma_trimmed_ends(text);
    facts::lemma_part_of_trimmed(model::joined(texts, ""@), t);
    lemma_spaced_holds(
        event::plain_text(segments),
        model::joined(event::parts_of(segments, Part::Face), " "@),
        t,
    );
}

proof fn lemma_holds_trimmed(s: Seq<char>)
    ensures
        model::has_part(s, model::trimmed(s)),
{
    let a = facts::lemma_trimmed_place(s);
    assert(model::occurs_at(s, model::trimmed(s), a));
}

/// The text of a message of text segments is their texts, one behind the other, without the
/// whitespace at its ends.
pub proof fn law_text_of_texts(
    e: OneBotEvent,
    segments: Seq<SegmentView>,
    texts: Seq<Seq<char>>,
)
    requires
        is_made_of(e, segments),
        segments.len() == texts.len(),
        forall|i: int|
            0 <= i < segments.len() ==> is_segment(#[trigger] segments[i], "text"@, "text"@, texts[i]),
    ensures
        message::text_of(e) == model::trimmed(texts.flatten()),
{
    lemma_made_of(e, segments);
    event_laws::law_plain_text_is_all_texts(segments, texts);
    lemma_texts_show_nothing(segments, texts);
}

proof fn lemma_texts_show_nothing(segments: Seq<SegmentView>, texts: Seq<Seq<char>>)
    requires
        segments.len() == texts.len(),
        forall|i: int|
            0 <= i < segments.len() ==> is_segment(#[trigger] segments[i], "text"@, "text"@, texts[i]),
    ensures
        event::parts_of(segments, Part::Face).len() == 0,
        event::parts_of(segments, Part::Media).len() == 0,
{
    event_laws::lemma_types();
    assert forall|i: int| 0 <= i < segments.len() implies event::part_of(
        #[trigger] segments[i],
        Part::Face,
    ) is None && event::part_of(segments[i], Part::Media) is None by {
        assert(is_segment(segments[i], "text"@, "text"@, texts[i]));
    }
    lemma_no_parts(segments, Part::Face);
    lemma_no_parts(segments, Part::Media);
}

proof fn lemma_no_parts(segments: Seq<SegmentView>, part: Part)
    requires
        forall|i: int| 0 <= i < segments.len() ==> event::part_of(#[trigger] segments[i], part) is None,
    ensures
        event::parts_of(segments, part).len() == 0,
    decreases segments.len(),
{
    if segments.len() > 0 {
        let some = segments.drop_last();
        assert forall|i: int| 0 <= i < some.len() implies event::part_of(
            #[trigger] some[i],
            part,
        ) is None by {
            assert(some[i] == segments[i]);
        }
        lemma_no_parts(some, part);
        assert(event::part_of(segments[segments.len() - 1], part) is None);
    }
}

/// The text of a message of faces shows them in order, with spaces between.
pub proof fn law_text_of_faces(
    e: OneBotEvent,
    segments: Seq<SegmentView>,
    shown: Seq<Seq<char>>,
)
    requires
        is_made_of(e, segments),
        segments.len() == shown.len(),
        forall|i: int| 0 <= i < segments.len() ==> is_face(#[trigger] segments[i], shown[i]),
    ensures
        message::text_of(e) == model::joined(shown, " "@),
{
    reveal_strlit("");
    lemma_made_of(e, segments);
    lemma_all_faces(segments, shown);
    assert(model::trimmed(Seq::<char>::empty()) =~= seq![]);
    assert(event::plain_text(segments) =~= seq![]);
}

proof fn lemma_all_faces(segments: Seq<SegmentView>, shown: Seq<Seq<char>>)
    requires
        segments.len() == shown.len(),
        forall|i: int| 0 <= i < segments.len() ==> is_face(#[trigger] segments[i], shown[i]),
    ensures
        event::parts_of(segments, Part::Face) == shown,
        event::parts_of(segments, Part::Text).len() == 0,
    decreases segments.len(),
{
    event_laws::lemma_types();
    if segments.len() == 0 {
        assert(shown =~= seq![]);
    } else {
        let some = segments.drop_last();
        assert forall|i: int| 0 <= i < some.len() implies is_face(
            #[trigger] some[i],
            shown.drop_last()[i],
        ) by {
            assert(some[i] == segments[i]);
        }
        lemma_all_faces(some, shown.drop_last());
        lemma_face_ends(segments[segments.len() - 1], shown.last());
        assert(shown.drop_last().push(shown.last()) =~= shown);
    }
}

/// The faces of a message stand behind its text.
pub proof fn law_faces_stand_behind_the_text(
    e: OneBotEvent,
    segments: Seq<SegmentView>,
    text: Seq<char>,
    shown: Seq<char>,
)
    requires
        is_made_of(e, segments),
        segments.len() == 2,
        is_segment(segments[0], "text"@, "text"@, text) && is_face(segments[1], shown) || is_face(
            segments[0],
            shown,
        ) && is_segment(segments[1], "text"@, "text"@, text),
        model::trimmed(text).len() > 0,
    ensures
        message::text_of(e) == model::trimmed(text) + " "@ + shown,
{
    event_laws::lemma_types();
    lemma_made_of(e, segments);
    let texts = event::parts_of(segments, Part::Text);
    let faces = event::parts_of(segments, Part::Face);
    reveal_with_fuel(event::parts_of, 3);
    if is_face(segments[1], shown) {
        lemma_face_ends(segments[1], shown);
    } else {
        lemma_face_ends(segments[0], shown);
    }
    assert(texts =~= seq![text]);
    assert(faces =~= seq![shown]);
    assert(model::joined(texts, ""@) == text);
    assert(model::joined(faces, " "@) == shown);
}

/// A message is looked at if and only if it has a text or media; then it must have a sender, and a
/// group if it is to one.
pub proof fn law_what_is_looked_at(e: OneBotEvent, segments: Seq<SegmentView>, i: int)
    requires
        is_made_of(e, segments),
    ensures
        ({
            let kind = json::text_view(e.message_type);
            let looked = message::text_of(e).len() > 0 || (0 <= i < segments.len() && (
            segments[i].segment_type == "image"@ || segments[i].segment_type == "record"@
                || segments[i].segment_type == "video"@ || segments[i].segment_type == "share"@
                || segments[i].segment_type == "location"@ || segments[i].segment_type
                == "forward"@ || segments[i].segment_type == "file"@));
            &&& looked && e.user_id is Some && kind != Some("group"@) ==> message::looked_at(e)
                == Ok::<bool, Seq<char>>(true)
            &&& looked && e.user_id is Some && (e.group_id matches Some(g) && g > 0)
                ==> message::looked_at(e) == Ok::<bool, Seq<char>>(true)
            &&& looked && e.user_id is None ==> message::looked_at(e) is Err
            &&& looked && kind == Some("group"@) && !(e.group_id matches Some(g) && g > 0)
                ==> message::looked_at(e) is Err
        }),
        message::text_of(e).len() == 0 && (forall|j: int|
            0 <= j < segments.len() ==> (#[trigger] segments[j]).segment_type == "text"@
                || segments[j].segment_type == "at"@ || segments[j].segment_type == "reply"@)
            ==> message::looked_at(e) == Ok::<bool, Seq<char>>(false),
{
    event_laws::lemma_types();
    lemma_made_of(e, segments);
    if 0 <= i < segments.len() {
        event_laws::law_media_kinds(segments[i]);
    }
    if forall|j: int|
        0 <= j < segments.len() ==> (#[trigger] segments[j]).segment_type == "text"@
            || segments[j].segment_type == "at"@ || segments[j].segment_type == "reply"@ {
        assert forall|j: int| 0 <= j < segments.len() implies !event::is_media(
            #[trigger] segments[j],
        ) by {
            event_laws::law_media_kinds(segments[j]);
        }
    }
}

/// Every message of a private chat is answered; one of a group is where a segment mentions the bot
/// or everyone, and is not where none mentions anyone.
pub proof fn law_what_is_answered(e: OneBotEvent, segments: Seq<SegmentView>, i: int)
    requires
        is_made_of(e, segments),
    ensures
        json::text_view(e.message_type) != Some("group"@) ==> message::answered(e),
        0 <= i < segments.len() && segments[i].segment_type == "at"@ && (is_written(
            segments[i].data.get("qq"@),
            number::dec(e.self_id as int),
        ) || is_written(segments[i].data.get("qq"@), "all"@)) ==> message::answered(e),
        json::text_view(e.message_type) == Some("group"@) && (forall|j: int|
            0 <= j < segments.len() ==> (#[trigger] segments[j]).segment_type != "at"@)
            ==> !message::answered(e),
{
    lemma_made_of(e, segments);
    if 0 <= i < segments.len() {
        event_laws::law_mention_names_the_bot(segments[i], e.self_id as int, seq![]);
    }
}

/// What the sender is called: in a group by the name that they have there, if it is not empty, else
/// by the nickname, which is unknown where it is not told.
pub proof fn law_name_of_the_sender(e: OneBotEvent, sender: event::Sender, name: Seq<char>)
    requires
        e.sender == Some(sender),
    ensures
        json::text_view(e.message_type) == Some("group"@) && json::text_view(sender.card) == Some(
            name,
        ) && name.len() > 0 ==> message::display_name_of(e) == name,
        (json::text_view(e.message_type) != Some("group"@) || sender.card is None
            || sender.card->0@.len() == 0) && json::text_view(sender.nickname) == Some(name)
            ==> message::display_name_of(e) == name,
        json::text_view(sender.nickname) == Some(name) ==> message::nickname_of(e) == name,
        sender.nickname is None ==> message::nickname_of(e) == "unknown"@,
        sender.user_id is Some ==> message::sender_id_of(e) == sender.user_id->0,
        sender.user_id is None && e.user_id is Some ==> message::sender_id_of(e) == e.user_id->0,
{
}

/// The chat of a message: its user, and its group if it was sent to one.
pub proof fn law_chat_of_a_message(e: OneBotEvent)
    ensures
        e.user_id is Some ==> message::user_of(e) == e.user_id->0,
        e.group_id is Some && json::text_view(e.message_type) == Some("group"@)
            ==> message::group_of(e) == e.group_id->0,
        json::text_view(e.message_type) != Some("group"@) ==> message::group_of(e) == 0,
{
}

/// What Alma is told a message replies to: whose message, or that it is Alma's, and its text, if
/// that is one line and not too long.
pub proof fn law_reply_tells_the_quoted_text(to_bot: bool, sender: Seq<char>, text: Seq<char>)
    requires
        facts::is_line(text),
        model::trimmed(text) == text,
        model::byte_len(text) <= 200,
    ensures
        to_bot ==> message::reply_words(to_bot, sender, text) == "[Replying to Alma's message: \""@
            + text + "\"]"@,
        !to_bot ==> message::reply_words(to_bot, sender, text) == "[Replying to "@ + sender
            + "'s message: \""@ + text + "\"]"@,
{
    lemma_one_line(text);
    reveal_strlit("[Replying to Alma's message: \"");
    reveal_strlit("[Replying to ");
    reveal_strlit("'s message: \"");
    reveal_strlit("Alma");
    assert("[Replying to Alma's message: \""@ =~= "[Replying to "@ + "Alma"@ + "'s message: \""@);
}

/// A text of one line is told as it is, without the whitespace at its ends.
pub proof fn lemma_one_line(text: Seq<char>)
    requires
        facts::is_line(text),
        model::trimmed(text) == text,
    ensures
        split::one_line(text) == text,
{
    reveal_strlit("");
    if text.len() > 0 {
        let none = Seq::<char>::empty();
        facts::lemma_lines_last(none, text);
        assert(none + text =~= text);
        reveal_with_fuel(model::trimmed_nonblank, 2);
        assert(seq![text].drop_last() =~= seq![]);
        assert(model::trimmed_nonblank(seq![text]) =~= seq![text]);
        assert(model::joined(seq![text], " "@) == text);
    } else {
        assert(model::lines_of(text) =~= seq![]);
        assert(split::one_line(text) =~= text);
    }
}

/// Alma is told how many messages were forwarded, and of each of the first twenty the sender and
/// the text, if that is not too long.
pub proof fn law_forwarded_messages_are_told_of(nodes: Seq<(Seq<char>, Seq<char>)>, i: int)
    requires
        nodes.len() > 0,
    ensures
        ({
            let words = message::forward_words(Some(nodes));
            &&& model::begins_with(
                words,
                "[Forwarded messages ("@ + number::dec(nodes.len() as int) + " total):"@,
            )
            &&& 0 <= i < nodes.len() && i < 20 && model::byte_len(nodes[i].1) <= 100
                ==> model::has_part(words, nodes[i].0 + ": \""@ + nodes[i].1 + "\""@)
            &&& nodes.len() > 20 ==> model::finishes_with(
                words,
                " ... +"@ + number::dec(nodes.len() - 20) + " more]"@,
            )
        }),
{
    reveal_strlit("");
    reveal_strlit(" more]");
    reveal_strlit(" more");
    reveal_strlit("]");
    let words = message::forward_words(Some(nodes));
    let told = message::told_nodes(nodes);
    let lines = told.map_values(|p: (Seq<char>, Seq<char>)| message::forwarded_line(p));
    let head = "[Forwarded messages ("@ + number::dec(nodes.len() as int) + " total):"@;
    let tail = if nodes.len() > 20 {
        " ... +"@ + number::dec_nat((nodes.len() - 20) as nat) + " more"@
    } else {
        ""@
    };
    let body = model::joined(lines, ", "@);
    assert(words =~= head + body + (tail + "]"@));
    assert(words.subrange(0, head.len() as int) =~= head);
    if 0 <= i < nodes.len() && i < 20 && model::byte_len(nodes[i].1) <= 100 {
        facts::lemma_joined_holds(lines, ", "@, i);
        assert(lines[i] == nodes[i].0 + ": \""@ + nodes[i].1 + "\""@);
        facts::lemma_part_between(head, body, tail + "]"@);
        facts::lemma_part_of_part(words, body, lines[i]);
    }
    if nodes.len() > 20 {
        assert(" more]"@ =~= " more"@ + "]"@);
        let end = " ... +"@ + number::dec(nodes.len() - 20) + " more]"@;
        assert(end =~= tail + "]"@);
        assert(words.subrange(words.len() - end.len(), words.len() as int) =~= end);
    }
}

/// A message to a private chat goes to Alma with its id and its text.
pub proof fn law_private_message_is_told(
    e: OneBotEvent,
    message_id: int,
    segments: Seq<SegmentView>,
    texts: Seq<Seq<char>>,
)
    requires
        is_made_of(e, segments),
        segments.len() == texts.len(),
        forall|i: int|
            0 <= i < segments.len() ==> is_segment(#[trigger] segments[i], "text"@, "text"@, texts[i]),
        json::text_view(e.message_type) != Some("group"@),
    ensures
        message::outgoing_text(e, message_id, None, None) == "[msg:"@ + number::dec(message_id)
            + "] "@ + model::trimmed(texts.flatten()),
{
    lemma_made_of(e, segments);
    law_text_of_texts(e, segments, texts);
    lemma_texts_show_nothing(segments, texts);
    let text = model::trimmed(texts.flatten());
    facts::lemma_trimmed_twice(texts.flatten());
    reveal_strlit("");
    let out = "[msg:"@ + number::dec(message_id) + "] "@ + text;
    assert(out + ""@ =~= out);
}

/// A message to a group goes to Alma with the name and the account of its sender, its id and its
/// text.
pub proof fn law_group_message_is_told(
    e: OneBotEvent,
    message_id: int,
    segments: Seq<SegmentView>,
    texts: Seq<Seq<char>>,
    sender: event::Sender,
    name: Seq<char>,
    id: i64,
)
    requires
        is_made_of(e, segments),
        segments.len() == texts.len(),
        forall|i: int|
            0 <= i < segments.len() ==> is_segment(#[trigger] segments[i], "text"@, "text"@, texts[i]),
        !model::has_part(texts.flatten(), "[CQ:at,qq="@),
        json::text_view(e.message_type) == Some("group"@),
        e.sender == Some(sender),
        sender.user_id == Some(id),
        json::text_view(sender.card) == Some(name) && name.len() > 0 || sender.card is None
            && json::text_view(sender.nickname) == Some(name),
    ensures
        message::outgoing_text(e, message_id, None, None) == "[From: "@ + name + " [id:"@
            + number::dec(id as int) + "] [msg:"@ + number::dec(message_id) + "]] "@
            + model::trimmed(texts.flatten()),
{
    lemma_made_of(e, segments);
    law_text_of_texts(e, segments, texts);
    lemma_texts_show_nothing(segments, texts);
    let all = texts.flatten();
    let text = model::trimmed(all);
    facts::lemma_trimmed_twice(all);
    if model::has_part(text, "[CQ:at,qq="@) {
        lemma_holds_trimmed(all);
        facts::lemma_part_of_part(all, text, "[CQ:at,qq="@);
    }
    event_laws::law_cleaning_leaves_other_text(text, e.self_id as int);
    reveal_strlit("");
    reveal_strlit("] ");
    reveal_strlit("]");
    reveal_strlit("]] ");
    let out = message::outgoing_text(e, message_id, None, None);
    assert(out =~= "[From: "@ + name + " [id:"@ + number::dec(id as int) + "] [msg:"@
        + number::dec(message_id) + "]] "@ + text);
}

/// What a message replies to and what it forwards stand before its text, in this order, and what
/// it shows beside its images and files stands behind it.
pub proof fn law_contexts_stand_before_the_text(
    e: OneBotEvent,
    message_id: int,
    forward: Seq<char>,
    reply: Seq<char>,
)
    requires
        forward.len() > 0,
        reply.len() > 0,
    ensures
        ({
            let head = if json::text_view(e.message_type) == Some("group"@) {
                "[From: "@ + message::display_name_of(e) + " [id:"@ + number::dec(
                    message::sender_id_of(e),
                ) + "] [msg:"@ + number::dec(message_id) + "]] "@
            } else {
                "[msg:"@ + number::dec(message_id) + "] "@
            };
            &&& model::begins_with(
                message::outgoing_text(e, message_id, Some(forward), Some(reply)),
                head + reply + " "@ + forward,
            )
            &&& model::begins_with(
                message::outgoing_text(e, message_id, None, Some(reply)),
                head + reply,
            )
            &&& model::begins_with(
                message::outgoing_text(e, message_id, Some(forward), None),
                head + forward,
            )
            &&& model::begins_with(message::outgoing_text(e, message_id, None, None), head)
        }),
{
    reveal_strlit("");
    reveal_strlit(" ");
    reveal_strlit("] ");
    reveal_strlit("]");
    reveal_strlit("]] ");
    let head = if json::text_view(e.message_type) == Some("group"@) {
        "[From: "@ + message::display_name_of(e) + " [id:"@ + number::dec(
            message::sender_id_of(e),
        ) + "] [msg:"@ + number::dec(message_id) + "]] "@
    } else {
        "[msg:"@ + number::dec(message_id) + "] "@
    };
    let long = head + reply + " "@ + forward;
    let a = message::outgoing_text(e, message_id, Some(forward), Some(reply));
    assert(a.take(long.len() as int) =~= long);
    let b = message::outgoing_text(e, message_id, None, Some(reply));
    assert(b.take((head + reply).len() as int) =~= head + reply);
    let c = message::outgoing_text(e, message_id, Some(forward), None);
    assert(c.take((head + forward).len() as int) =~= head + forward);
    let d = message::outgoing_text(e, message_id, None, None);
    assert(d.take(head.len() as int) =~= head);
}

/// A message to a private chat goes to Alma with every text and face that it holds, whatever it
/// replies to or forwards.
pub proof fn law_private_message_is_told_whole(
    e: OneBotEvent,
    message_id: int,
    forward: Option<Seq<char>>,
    reply: Option<Seq<char>>,
    segments: Seq<SegmentView>,
    i: int,
    told: Seq<char>,
)
    requires
        is_made_of(e, segments),
        json::text_view(e.message_type) != Some("group"@),
        0 <= i < segments.len(),
        is_face(segments[i], told) || (exists|text: Seq<char>| #[trigger]
            is_segment(segments[i], "text"@, "text"@, text) && told == model::trimmed(text)
                && told.len() > 0),
    ensures
        model::has_part(message::outgoing_text(e, message_id, forward, reply), told),
{
    let text = message::text_of(e);
    if is_face(segments[i], told) {
        law_face_is_in_the_text(e, segments, i, told);
        lemma_face_ends(segments[i], told);
        reveal_strlit("[emoji:");
    } else {
        let t = choose|text: Seq<char>| #[trigger]
            is_segment(segments[i], "text"@, "text"@, text) && told == model::trimmed(text);
        law_text_is_in_the_text(e, segments, i, t);
        facts::lemma_trimmed_ends(t);
    }
    facts::lemma_part_of_trimmed(text, told);
    facts::lemma_trimmed_twice(text);
    let body = model::trimmed(text);
    let inner = context::prefixed(forward, body);
    if forward is Some {
        lemma_spaced_holds(forward->0, body, told);
    }
    let outer = context::prefixed(reply, inner);
    if reply is Some {
        lemma_spaced_holds(reply->0, inner, told);
    }
    let head = "[msg:"@ + number::dec(message_id) + "] "@;
    facts::lemma_part_of_either(head, outer, told);
    facts::lemma_part_of_either(head + outer, message::suffix_of(message::media_lines_of(e)), told);
}

/// Voice messages, videos, links, places and flash images go to Alma as marks.
pub proof fn law_media_are_marked(
    e: OneBotEvent,
    message_id: int,
    forward: Option<Seq<char>>,
    reply: Option<Seq<char>>,
    segments: Seq<SegmentView>,
    i: int,
    a: Seq<char>,
    b: Seq<char>,
)
    requires
        is_made_of(e, segments),
        0 <= i < segments.len(),
    ensures
        ({
            let out = message::outgoing_text(e, message_id, forward, reply);
            let seg = segments[i];
            &&& seg.segment_type == "record"@ ==> model::has_part(out, "[Voice message]"@)
            &&& seg.segment_type == "video"@ ==> model::has_part(out, "[Video]"@)
            &&& is_segment(seg, "image"@, "type"@, "flash"@) ==> model::has_part(
                out,
                "[Flash image]"@,
            )
            &&& is_segment(seg, "share"@, "title"@, a) && seg.data.get("url"@) == Some(
                json::JsonView::Str(b),
            ) ==> model::has_part(out, "[Share: "@ + a + " — "@ + b + "]"@)
            &&& is_segment(seg, "location"@, "lat"@, a) && seg.data.get("lon"@) == Some(
                json::JsonView::Str(b),
            ) ==> model::has_part(out, "[Location: "@ + a + ", "@ + b + "]"@)
        }),
{
    let seg = segments[i];
    event_laws::law_media_segments_tell_their_kind(seg, a, b);
    if event::part_of(seg, Part::Media) is Some {
        let line = event::part_of(seg, Part::Media)->0;
        reveal_with_fuel(event::parts_of, 2);
        assert(event::parts_of(seq![seg], Part::Media)[0] == line) by {
            assert(seq![seg].drop_last() =~= seq![]);
        }
        lemma_marks();
        reveal_strlit("[Share: ");
        reveal_strlit("[Location: ");
        if line != "[Image]"@ && line != "[File]"@ {
            lemma_mark_is_told(e, message_id, forward, reply, segments, i, line);
        } else {
            assert(line[1] == 'I' || line[1] == 'F');
        }
    } else {
        event_laws::lemma_types();
    }
}

proof fn lemma_marks()
    ensures
        "[Voice message]"@.len() == 15,
        "[Video]"@.len() == 7,
        "[Flash image]"@.len() == 13,
        "[Image]"@.len() == 7,
        "[File]"@.len() == 6,
        "[Video]"@[1] == 'V',
        "[Image]"@[1] == 'I',
        "[File]"@[1] == 'F',
{
    reveal_strlit("[Voice message]");
    reveal_strlit("[Video]");
    reveal_strlit("[Flash image]");
    reveal_strlit("[Image]");
    reveal_strlit("[File]");
}

proof fn lemma_mark_is_told(
    e: OneBotEvent,
    message_id: int,
    forward: Option<Seq<char>>,
    reply: Option<Seq<char>>,
    segments: Seq<SegmentView>,
    i: int,
    line: Seq<char>,
)
    requires
        is_made_of(e, segments),
        0 <= i < segments.len(),
        event::part_of(segments[i], Part::Media) == Some(line),
        line != "[Image]"@,
        line != "[File]"@,
    ensures
        model::has_part(message::outgoing_text(e, message_id, forward, reply), line),
{
    lemma_made_of(e, segments);
    event_laws::lemma_part_is_told(segments, Part::Media, i);
    let lines = event::parts_of(segments, Part::Media);
    let j = choose|j: int| 0 <= j < lines.len() && lines[j] == line;
    api_laws::lemma_line_tells(lines, j);
    let telling = api::telling_lines(lines);
    let k = choose|k: int| 0 <= k < telling.len() && telling[k] == line;
    facts::lemma_joined_holds(telling, "\n\n"@, k);
    facts::lemma_part_of_either("\n\n"@, model::joined(telling, "\n\n"@), line);
    let suffix = message::suffix_of(lines);
    let out = message::outgoing_text(e, message_id, forward, reply);
    let body = out.take(out.len() - suffix.len());
    assert(out =~= body + suffix);
    facts::lemma_part_of_either(body, suffix, line);
}

/// A text of two lines is told in one, with a space between them.
pub proof fn law_lines_are_told_in_one(a: Seq<char>, b: Seq<char>)
    requires
        facts::is_line(a),
        facts::is_line(b),
        a.len() > 0,
        b.len() > 0,
        model::trimmed(a) == a,
        model::trimmed(b) == b,
    ensures
        split::one_line(a + "\n"@ + b) == a + " "@ + b,
{
    reveal_with_fuel(model::joined, 3);
    reveal_with_fuel(model::trimmed_nonblank, 3);
    let lines = seq![a, b];
    let none = Seq::<char>::empty();
    assert(lines.drop_last() =~= seq![a]);
    assert(model::joined(lines, "\n"@) == a + "\n"@ + b);
    facts::lemma_lines_of_joined(none, lines);
    assert(none + (a + "\n"@ + b) =~= a + "\n"@ + b);
    assert(lines.drop_last().drop_last() =~= seq![]);
    assert(model::trimmed_nonblank(lines) =~= lines);
    assert(model::joined(lines, " "@) == a + " "@ + b);
}

/// What is quoted of a long message is its beginning, as much of it as two hundred bytes hold, with a
/// mark that it was cut; of a forwarded message a hundred bytes are told.
pub proof fn law_long_texts_are_cut(
    text: Seq<char>,
    n: int,
    sender: Seq<char>,
    nodes: Seq<(Seq<char>, Seq<char>)>,
    i: int,
)
    requires
        0 <= n < text.len(),
    ensures
        facts::is_line(text) && model::trimmed(text) == text && model::byte_len(text.take(n)) <= 200
            && model::byte_len(text.take(n + 1)) > 200 ==> message::reply_words(false, sender, text)
            == "[Replying to "@ + sender + "'s message: \""@ + text.take(n) + "..."@ + "\"]"@,
        0 <= i < nodes.len() && i < 20 && nodes[i].1 == text && model::byte_len(text.take(n)) <= 100
            && model::byte_len(text.take(n + 1)) > 100 ==> model::has_part(
            message::forward_words(Some(nodes)),
            nodes[i].0 + ": \""@ + text.take(n) + "...\""@,
        ),
{
    facts::lemma_byte_len_take_monotone(text, n + 1, text.len() as int);
    assert(text.take(text.len() as int) =~= text);
    split_laws::law_short_text_is_kept(text, 200, n);
    split_laws::law_short_text_is_kept(text, 100, n);
    if facts::is_line(text) && model::trimmed(text) == text {
        lemma_one_line(text);
        if model::byte_len(text.take(n)) <= 200 && model::byte_len(text.take(n + 1)) > 200 {
            assert(message::reply_words(false, sender, text) =~= "[Replying to "@ + sender
                + "'s message: \""@ + text.take(n) + "..."@ + "\"]"@);
        }
    }
    if 0 <= i < nodes.len() && i < 20 && nodes[i].1 == text && model::byte_len(text.take(n)) <= 100
        && model::byte_len(text.take(n + 1)) > 100 {
        reveal_strlit("...");
        reveal_strlit("...\"");
        reveal_strlit("\"");
        let words = message::forward_words(Some(nodes));
        let told = message::told_nodes(nodes);
        let lines = told.map_values(|p: (Seq<char>, Seq<char>)| message::forwarded_line(p));
        let line = nodes[i].0 + ": \""@ + text.take(n) + "...\""@;
        assert(lines[i] =~= line);
        facts::lemma_joined_holds(lines, ", "@, i);
        let body = model::joined(lines, ", "@);
        let head = "[Forwarded messages ("@ + number::dec(nodes.len() as int) + " total):"@;
        let tail = words.skip((head + body).len() as int);
        assert(words =~= head + body + tail);
        facts::lemma_part_between(head, body, tail);
        facts::lemma_part_of_part(words, body, line);
    }
}

/// Images and files are handed on themselves: they leave no mark in the text that goes to Alma.
pub proof fn law_images_leave_no_mark(
    e: OneBotEvent,
    message_id: int,
    segments: Seq<SegmentView>,
    text: Seq<char>,
)
    requires
        is_made_of(e, segments),
        segments.len() > 0,
        is_segment(segments[0], "text"@, "text"@, text),
        forall|i: int|
            1 <= i < segments.len() ==> ((#[trigger] segments[i]).segment_type == "image"@
                && segments[i].data.get("type"@) is None || segments[i].segment_type == "file"@),
        json::text_view(e.message_type) != Some("group"@),
    ensures
        message::outgoing_text(e, message_id, None, None) == "[msg:"@ + number::dec(message_id)
            + "] "@ + model::trimmed(text),
{
    lemma_made_of(e, segments);
    lemma_no_marks(segments, text);
    assert(model::joined(seq![text], ""@) == text);
    facts::lemma_trimmed_twice(text);
    reveal_strlit("");
    let out = "[msg:"@ + number::dec(message_id) + "] "@ + model::trimmed(text);
    assert(out + ""@ =~= out);
}

proof fn lemma_no_marks(segments: Seq<SegmentView>, text: Seq<char>)
    requires
        segments.len() > 0,
        is_segment(segments[0], "text"@, "text"@, text),
        forall|i: int|
            1 <= i < segments.len() ==> ((#[trigger] segments[i]).segment_type == "image"@
                && segments[i].data.get("type"@) is None || segments[i].segment_type == "file"@),
    ensures
        event::parts_of(segments, Part::Text) == seq![text],
        event::parts_of(segments, Part::Face).len() == 0,
        api::telling_lines(event::parts_of(segments, Part::Media)).len() == 0,
    decreases segments.len(),
{
    event_laws::lemma_types();
    let some = segments.drop_last();
    let lines = event::parts_of(segments, Part::Media);
    if segments.len() == 1 {
        reveal_with_fuel(event::parts_of, 2);
        assert(some =~= seq![]);
        assert(event::parts_of(segments, Part::Text) =~= seq![text]);
    } else {
        assert(some[0] == segments[0]);
        assert forall|i: int| 1 <= i < some.len() implies ((#[trigger] some[i]).segment_type
            == "image"@ && some[i].data.get("type"@) is None || some[i].segment_type == "file"@) by {
            assert(some[i] == segments[i]);
        }
        lemma_no_marks(some, text);
        let last = segments[segments.len() - 1];
        assert(last.segment_type == "image"@ || last.segment_type == "file"@);
        if lines.len() > event::parts_of(some, Part::Media).len() {
            assert(lines.drop_last() =~= event::parts_of(some, Part::Media));
        }
    }
}

} // verus!
