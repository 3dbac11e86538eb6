//! What holds of the segments of messages.
use super::event;
use super::event::{Part, SegmentView};
use crate::face_map;
use crate::json::JsonView;
use crate::text::facts;
use crate::text::model;
use crate::text::number;
use vstd::prelude::*;

verus! {

pub proof fn lemma_types()
    ensures
        "text"@ != "face"@,
        "text"@ != "image"@,
        "text"@ != "record"@,
        "text"@ != "video"@,
        "text"@ != "share"@,
        "text"@ != "location"@,
        "text"@ != "at"@,
        "text"@ != "reply"@,
        "text"@ != "forward"@,
        "text"@ != "file"@,
        "face"@ != "image"@,
        "face"@ != "record"@,
        "face"@ != "video"@,
        "face"@ != "share"@,
        "face"@ != "location"@,
        "face"@ != "at"@,
        "face"@ != "reply"@,
        "face"@ != "forward"@,
        "face"@ != "file"@,
        "image"@ != "record"@,
        "image"@ != "video"@,
        "image"@ != "share"@,
        "image"@ != "location"@,
        "image"@ != "at"@,
        "image"@ != "reply"@,
        "image"@ != "forward"@,
        "image"@ != "file"@,
        "record"@ != "video"@,
        "record"@ != "share"@,
        "record"@ != "location"@,
        "record"@ != "at"@,
        "record"@ != "reply"@,
        "record"@ != "forward"@,
        "record"@ != "file"@,
        "video"@ != "share"@,
        "video"@ != "location"@,
        "video"@ != "at"@,
        "video"@ != "reply"@,
        "video"@ != "forward"@,
        "video"@ != "file"@,
        "share"@ != "location"@,
        "share"@ != "at"@,
        "share"@ != "reply"@,
        "share"@ != "forward"@,
        "share"@ != "file"@,
        "location"@ != "at"@,
        "location"@ != "reply"@,
        "location"@ != "forward"@,
        "location"@ != "file"@,
        "at"@ != "reply"@,
        "at"@ != "forward"@,
        "at"@ != "file"@,
        "reply"@ != "forward"@,
        "reply"@ != "file"@,
        "forward"@ != "file"@,
{
    reveal_strlit("text");
    reveal_strlit("face");
    reveal_strlit("image");
    reveal_strlit("record");
    reveal_strlit("video");
    reveal_strlit("share");
    reveal_strlit("location");
    reveal_strlit("at");
    reveal_strlit("reply");
    reveal_strlit("forward");
    reveal_strlit("file");
    assert("text"@.len() == 4);
    assert("face"@.len() == 4);
    assert("image"@.len() == 5);
    assert("record"@.len() == 6);
    assert("video"@.len() == 5);
    assert("share"@.len() == 5);
    assert("location"@.len() == 8);
    assert("at"@.len() == 2);
    assert("reply"@.len() == 5);
    assert("forward"@.len() == 7);
    assert("file"@.len() == 4);
    assert("text"@[0] != "face"@[0]);
    assert("text"@[0] != "file"@[0]);
    assert("face"@[1] != "file"@[1]);
    assert("image"@[0] != "video"@[0]);
    assert("image"@[0] != "share"@[0]);
    assert("image"@[0] != "reply"@[0]);
    assert("video"@[0] != "share"@[0]);
    assert("video"@[0] != "reply"@[0]);
    assert("share"@[0] != "reply"@[0]);
}

/// Whether a segment is of a kind and has a text under a key.
pub open spec fn is_segment(seg: SegmentView, kind: Seq<char>, key: Seq<char>, text: Seq<char>) -> bool {
    seg.segment_type == kind && seg.data.get(key) == Some(JsonView::Str(text))
}

/// Whether a value is a text, or a number that is written so.
pub open spec fn is_written(v: Option<JsonView>, text: Seq<char>) -> bool {
    match v {
        Some(JsonView::Str(t)) => t == text,
        Some(JsonView::Number(t, _)) => t == text,
        _ => false,
    }
}

/// What a message tells is what its first segments tell and then what the others tell.
pub proof fn law_parts_are_told_in_order(a: Seq<SegmentView>, b: Seq<SegmentView>, part: Part)
    ensures
        event::parts_of(a + b, part) == event::parts_of(a, part) + event::parts_of(b, part),
    decreases b.len(),
{
    if b.len() == 0 {
        assert(a + b =~= a);
        assert(event::parts_of(a, part) + event::parts_of(b, part) =~= event::parts_of(a, part));
    } else {
        law_parts_are_told_in_order(a, b.drop_last(), part);
        assert((a + b).drop_last() =~= a + b.drop_last());
        assert(event::parts_of(a + b, part) =~= event::parts_of(a, part) + event::parts_of(
            b,
            part,
        ));
    }
}

proof fn lemma_one_part(seg: SegmentView, part: Part)
    ensures
        event::parts_of(seq![seg], part) == (match event::part_of(seg, part) {
            Some(text) => seq![text],
            None => seq![],
        }),
{
    reveal_with_fuel(event::parts_of, 2);
    assert(seq![seg].drop_last() =~= seq![]);
    assert(event::parts_of(seq![seg], part) =~= (match event::part_of(seg, part) {
        Some(text) => seq![text],
        None => seq![],
    }));
}

/// A text segment tells its text, and no other segment tells one.
pub proof fn law_text_segment_tells_its_text(seg: SegmentView, text: Seq<char>)
    ensures
        is_segment(seg, "text"@, "text"@, text) ==> event::parts_of(seq![seg], Part::Text) == seq![
            text,
        ],
        seg.segment_type != "text"@ ==> event::parts_of(seq![seg], Part::Text).len() == 0,
{
    lemma_one_part(seg, Part::Text);
}

/// A face tells its name between brackets, or its id where it has no name; no other segment tells
/// of a face.
pub proof fn law_face_segment_tells_its_name(seg: SegmentView, id: Seq<char>, name: Seq<char>)
    ensures
        seg.segment_type == "face"@ && is_written(seg.data.get("id"@), id) ==> {
            &&& face_map::name_of(id) == Some(name) ==> event::parts_of(seq![seg], Part::Face)
                == seq!["[emoji:"@ + name + "]"@]
            &&& face_map::name_of(id) is None ==> event::parts_of(seq![seg], Part::Face) == seq![
                "[emoji:face_"@ + id + "]"@,
            ]
        },
        seg.segment_type != "face"@ || seg.data.get("id"@) is None ==> event::parts_of(
            seq![seg],
            Part::Face,
        ).len() == 0,
{
    lemma_one_part(seg, Part::Face);
}

/// An image tells where it can be had, and no other segment does.
pub proof fn law_image_segment_tells_its_url(seg: SegmentView, url: Seq<char>)
    ensures
        is_segment(seg, "image"@, "url"@, url) ==> event::parts_of(seq![seg], Part::Image) == seq![
            url,
        ],
        seg.segment_type != "image"@ ==> event::parts_of(seq![seg], Part::Image).len() == 0,
{
    lemma_one_part(seg, Part::Image);
}

/// Media are told of by their kind: images and flash images, voice messages, videos, links with
/// title and address, and places with latitude and longitude. Nothing else is.
pub proof fn law_media_segments_tell_their_kind(seg: SegmentView, a: Seq<char>, b: Seq<char>)
    ensures
        ({
            let told = event::parts_of(seq![seg], Part::Media);
            &&& is_segment(seg, "image"@, "type"@, "flash"@) ==> told == seq!["[Flash image]"@]
            &&& seg.segment_type == "image"@ && seg.data.get("type"@) != Some(
                JsonView::Str("flash"@),
            ) ==> told == seq!["[Image]"@]
            &&& seg.segment_type == "record"@ ==> told == seq!["[Voice message]"@]
            &&& seg.segment_type == "video"@ ==> told == seq!["[Video]"@]
            &&& is_segment(seg, "share"@, "title"@, a) && seg.data.get("url"@) == Some(
                JsonView::Str(b),
            ) ==> told == seq!["[Share: "@ + a + " — "@ + b + "]"@]
            &&& is_segment(seg, "location"@, "lat"@, a) && seg.data.get("lon"@) == Some(
                JsonView::Str(b),
            ) ==> told == seq!["[Location: "@ + a + ", "@ + b + "]"@]
            &&& is_segment(seg, "share"@, "url"@, b) && seg.data.get("title"@) is None ==> told
                == seq!["[Share: shared link — "@ + b + "]"@]
            &&& seg.segment_type == "location"@ && seg.data.get("lat"@) is None && seg.data.get(
                "lon"@,
            ) is None ==> told == seq!["[Location: ?, ?]"@]
            &&& seg.segment_type != "image"@ && seg.segment_type != "record"@ && seg.segment_type
                != "video"@ && seg.segment_type != "share"@ && seg.segment_type != "location"@
                ==> told.len() == 0
        }),
{
    lemma_types();
    lemma_one_part(seg, Part::Media);
    lemma_default_words();
}

proof fn lemma_default_words()
    ensures
        "[Share: "@ + "shared link"@ + " — "@ == "[Share: shared link — "@,
        "[Location: "@ + "?"@ + ", "@ + "?"@ + "]"@ == "[Location: ?, ?]"@,
{
    reveal_strlit("[Share: ");
    reveal_strlit("shared link");
    reveal_strlit(" — ");
    reveal_strlit("[Share: shared link — ");
    reveal_strlit("[Location: ");
    reveal_strlit("?");
    reveal_strlit(", ");
    reveal_strlit("]");
    reveal_strlit("[Location: ?, ?]");
    assert("[Share: "@ + "shared link"@ + " — "@ =~= "[Share: shared link — "@);
    assert("[Location: "@ + "?"@ + ", "@ + "?"@ + "]"@ =~= "[Location: ?, ?]"@);
}

/// What one segment tells, the message tells.
pub proof fn lemma_part_is_told(segments: Seq<SegmentView>, part: Part, i: int)
    requires
        0 <= i < segments.len(),
        event::part_of(segments[i], part) is Some,
    ensures
        event::parts_of(segments, part).contains(event::part_of(segments[i], part)->0),
{
    let a = segments.take(i);
    let b = segments.skip(i + 1);
    let mid = seq![segments[i]];
    assert(segments =~= a + mid + b);
    law_parts_are_told_in_order(a, mid, part);
    law_parts_are_told_in_order(a + mid, b, part);
    lemma_one_part(segments[i], part);
    let before = event::parts_of(a, part);
    let all = event::parts_of(segments, part);
    assert(all[before.len() as int] == event::part_of(segments[i], part)->0);
}

/// The text of a message of text segments is their texts, one behind the other, without the
/// whitespace at its ends.
pub proof fn law_plain_text_is_all_texts(segments: Seq<SegmentView>, texts: Seq<Seq<char>>)
    requires
        segments.len() == texts.len(),
        forall|i: int|
            0 <= i < segments.len() ==> is_segment(#[trigger] segments[i], "text"@, "text"@, texts[i]),
    ensures
        event::plain_text(segments) == model::trimmed(texts.flatten()),
{
    lemma_all_texts(segments, texts);
    facts::lemma_joined_flat(texts);
}

proof fn lemma_all_texts(segments: Seq<SegmentView>, texts: Seq<Seq<char>>)
    requires
        segments.len() == texts.len(),
        forall|i: int|
            0 <= i < segments.len() ==> is_segment(#[trigger] segments[i], "text"@, "text"@, texts[i]),
    ensures
        event::parts_of(segments, Part::Text) == texts,
    decreases segments.len(),
{
    if segments.len() == 0 {
        assert(texts =~= seq![]);
    } else {
        let some = segments.drop_last();
        assert forall|i: int| 0 <= i < some.len() implies is_segment(
            #[trigger] some[i],
            "text"@,
            "text"@,
            texts.drop_last()[i],
        ) by {
            assert(some[i] == segments[i]);
        }
        lemma_all_texts(some, texts.drop_last());
        assert(is_segment(segments[segments.len() - 1], "text"@, "text"@, texts.last()));
        assert(texts.drop_last().push(texts.last()) =~= texts);
    }
}

/// A segment that is no text is not in the plain text of a message: it can be left out.
pub proof fn law_plain_text_is_only_text(segments: Seq<SegmentView>, i: int)
    requires
        0 <= i < segments.len(),
        segments[i].segment_type != "text"@,
    ensures
        event::plain_text(segments) == event::plain_text(segments.remove(i)),
{
    let a = segments.take(i);
    let b = segments.skip(i + 1);
    let mid = seq![segments[i]];
    assert(segments =~= a + mid + b);
    assert(segments.remove(i) =~= a + b);
    law_parts_are_told_in_order(a, mid, Part::Text);
    law_parts_are_told_in_order(a + mid, b, Part::Text);
    law_parts_are_told_in_order(a, b, Part::Text);
    lemma_one_part(segments[i], Part::Text);
    assert(event::parts_of(a, Part::Text) + Seq::<Seq<char>>::empty() =~= event::parts_of(
        a,
        Part::Text,
    ));
}

/// A segment mentions the bot if and only if it is an `at` of the bot's account or of everyone,
/// be the account a text or a number.
pub proof fn law_mention_names_the_bot(seg: SegmentView, bot_id: int, other: Seq<char>)
    ensures
        seg.segment_type == "at"@ && (is_written(seg.data.get("qq"@), number::dec(bot_id))
            || is_written(seg.data.get("qq"@), "all"@)) ==> event::mentions(seg, bot_id),
        seg.segment_type != "at"@ ==> !event::mentions(seg, bot_id),
        is_written(seg.data.get("qq"@), other) && other != number::dec(bot_id) && other != "all"@
            ==> !event::mentions(seg, bot_id),
        seg.data.get("qq"@) is None ==> !event::mentions(seg, bot_id),
{
}

/// A message replies to the message that its first segment names, if that is a reply; a reply
/// elsewhere is of no account.
pub proof fn law_reply_is_the_first_segment(segments: Seq<SegmentView>, id: Seq<char>)
    ensures
        segments.len() > 0 && segments[0].segment_type == "reply"@ && is_written(
            segments[0].data.get("id"@),
            id,
        ) ==> event::reply_id(segments) == Some(id),
        segments.len() > 0 && segments[0].segment_type != "reply"@ ==> event::reply_id(segments)
            is None,
        segments.len() == 0 ==> event::reply_id(segments) is None,
{
}

/// The forwarded messages of a message are those that its first forward segment names, wherever
/// that stands.
pub proof fn law_forward_is_found_anywhere(segments: Seq<SegmentView>, i: int, id: Seq<char>)
    ensures
        0 <= i < segments.len() && segments[i].segment_type == "forward"@ && is_written(
            segments[i].data.get("id"@),
            id,
        ) && (forall|j: int| 0 <= j < i ==> (#[trigger] segments[j]).segment_type != "forward"@)
            ==> event::forward_id_from(segments, 0) == Some(id),
        (forall|j: int|
            0 <= j < segments.len() ==> (#[trigger] segments[j]).segment_type != "forward"@)
            ==> event::forward_id_from(segments, 0) is None,
{
    if 0 <= i < segments.len() && segments[i].segment_type == "forward"@ && is_written(
        segments[i].data.get("id"@),
        id,
    ) && (forall|j: int| 0 <= j < i ==> (#[trigger] segments[j]).segment_type != "forward"@) {
        lemma_forward_at(segments, i, 0);
    }
    if forall|j: int|
        0 <= j < segments.len() ==> (#[trigger] segments[j]).segment_type != "forward"@ {
        lemma_no_forward(segments, 0);
    }
}

proof fn lemma_forward_at(segments: Seq<SegmentView>, i: int, from: int)
    requires
        0 <= from <= i < segments.len(),
        event::id_in(segments[i], "forward"@) is Some,
        forall|j: int| 0 <= j < i ==> (#[trigger] segments[j]).segment_type != "forward"@,
    ensures
        event::forward_id_from(segments, from) == event::id_in(segments[i], "forward"@),
    decreases i - from,
{
    if from < i {
        assert(segments[from].segment_type != "forward"@);
        lemma_forward_at(segments, i, from + 1);
    }
}

proof fn lemma_no_forward(segments: Seq<SegmentView>, from: int)
    requires
        0 <= from,
        forall|j: int|
            0 <= j < segments.len() ==> (#[trigger] segments[j]).segment_type != "forward"@,
    ensures
        event::forward_id_from(segments, from) is None,
    decreases segments.len() - from,
{
    if from < segments.len() {
        assert(segments[from].segment_type != "forward"@);
        lemma_no_forward(segments, from + 1);
    }
}

/// Media are images, voice messages, videos, links, places, forwarded messages and files, and
/// nothing else.
pub proof fn law_media_kinds(seg: SegmentView)
    ensures
        event::is_media(seg) <==> seg.segment_type == "image"@ || seg.segment_type == "record"@
            || seg.segment_type == "video"@ || seg.segment_type == "share"@ || seg.segment_type
            == "location"@ || seg.segment_type == "forward"@ || seg.segment_type == "file"@,
{
}

/// The files of a message are those of its first segments and then those of the others.
pub proof fn law_files_are_told_in_order(a: Seq<SegmentView>, b: Seq<SegmentView>)
    ensures
        event::files_of(a + b) == event::files_of(a) + event::files_of(b),
    decreases b.len(),
{
    if b.len() == 0 {
        assert(a + b =~= a);
        assert(event::files_of(a) + event::files_of(b) =~= event::files_of(a));
    } else {
        law_files_are_told_in_order(a, b.drop_last());
        assert((a + b).drop_last() =~= a + b.drop_last());
        assert(event::files_of(a + b) =~= event::files_of(a) + event::files_of(b));
    }
}

/// A file segment with an address is a file, under the name that `file` or else `name` gives it;
/// one without an address is none, and neither is any other segment.
pub proof fn law_file_segment_is_a_file(seg: SegmentView, url: Seq<char>, name: Seq<char>)
    ensures
        is_segment(seg, "file"@, "url"@, url) && url.len() > 0 ==> {
            &&& seg.data.get("file"@) == Some(JsonView::Str(name)) ==> event::files_of(seq![seg])
                == seq![(name, url)]
            &&& seg.data.get("file"@) is None && seg.data.get("name"@) == Some(JsonView::Str(name))
                ==> event::files_of(seq![seg]) == seq![(name, url)]
            &&& seg.data.get("file"@) is None && seg.data.get("name"@) is None ==> event::files_of(
                seq![seg],
            ) == seq![("file"@, url)]
        },
        seg.segment_type != "file"@ || seg.data.get("url"@) is None ==> event::files_of(
            seq![seg],
        ).len() == 0,
{
    reveal_strlit("");
    assert(""@.len() == 0);
    reveal_with_fuel(event::files_of, 2);
    assert(seq![seg].drop_last() =~= seq![]);
    if let Some(file) = event::file_in(seg) {
        assert(event::files_of(seq![seg]) =~= seq![file]);
    }
}

proof fn lemma_code(bot_id: int)
    ensures
        ({
            let code = "[CQ:at,qq="@ + number::dec(bot_id);
            &&& code.len() > 10
            &&& code[0] == '['
            &&& code.len() == 10 + number::dec(bot_id).len()
            &&& forall|i: int| 1 <= i < code.len() ==> #[trigger] code[i] != '[' && code[i] != ']'
            &&& forall|i: int|
                10 <= i < code.len() ==> #[trigger] code[i] == number::dec(bot_id)[i - 10]
        }),
        "[CQ:at,qq="@.len() == 10,
        "]"@ =~= seq![']'],
        ",name="@ =~= seq![',', 'n', 'a', 'm', 'e', '='],
{
    reveal_strlit("[CQ:at,qq=");
    reveal_strlit("]");
    reveal_strlit(",name=");
    lemma_dec_chars(bot_id);
    let code = "[CQ:at,qq="@ + number::dec(bot_id);
    assert forall|i: int| 1 <= i < code.len() implies #[trigger] code[i] != '[' && code[i] != ']' by {
        if i >= 10 {
            assert(code[i] == number::dec(bot_id)[i - 10]);
        }
    }
}

proof fn lemma_dec_chars(i: int)
    ensures
        number::dec(i).len() > 0,
        forall|k: int|
            0 <= k < number::dec(i).len() ==> #[trigger] number::dec(i)[k] == '-' || number::is_digit(
                number::dec(i)[k],
            ),
{
    let n = (if i < 0 {
        -i
    } else {
        i
    }) as nat;
    number::lemma_dec_nat_digits(n);
    let digits = number::dec_nat(n);
    assert forall|k: int| 0 <= k < number::dec(i).len() implies #[trigger] number::dec(i)[k] == '-'
        || number::is_digit(number::dec(i)[k]) by {
        if i < 0 && k > 0 {
            assert(number::dec(i)[k] == digits[k - 1]);
        } else if i >= 0 {
            assert(number::dec(i)[k] == digits[k]);
        }
    }
}

/// A text without a character has no code that begins with it.
proof fn lemma_no_code(s: Seq<char>, open: Seq<char>, from: int)
    requires
        open.len() > 0,
        0 <= from <= s.len(),
        forall|i: int| from <= i < s.len() ==> #[trigger] s[i] != open[0],
    ensures
        model::find_from(s, open, from) is None,
{
    assert forall|j: int| from <= j implies !model::occurs_at(s, open, j) by {
        if model::occurs_at(s, open, j) {
            assert(s.subrange(j, j + open.len())[0] == s[j]);
        }
    }
    facts::lemma_find_none(s, open, from);
}

/// A code stands in a text where the only character that it can begin with stands, or nowhere.
proof fn lemma_only_code(s: Seq<char>, open: Seq<char>, at: int)
    requires
        open.len() > 0,
        0 <= at < s.len(),
        forall|i: int| 0 <= i < s.len() && i != at ==> #[trigger] s[i] != open[0],
    ensures
        model::occurs_at(s, open, at) ==> model::find_from(s, open, 0) == Some(at),
        !model::occurs_at(s, open, at) ==> model::find_from(s, open, 0) is None,
{
    assert forall|j: int| 0 <= j && j != at implies !model::occurs_at(s, open, j) by {
        if model::occurs_at(s, open, j) {
            assert(s.subrange(j, j + open.len())[0] == s[j]);
        }
    }
    if model::occurs_at(s, open, at) {
        facts::lemma_find_is(s, open, 0, at);
    } else {
        facts::lemma_find_none(s, open, 0);
    }
}

/// Whether a text has no brackets.
pub open spec fn lacks_brackets(s: Seq<char>) -> bool {
    !s.contains('[') && !s.contains(']')
}

/// A text without codes that mention anyone is cleaned of nothing but the whitespace at its ends.
pub proof fn law_cleaning_leaves_other_text(text: Seq<char>, bot_id: int)
    requires
        !model::has_part(text, "[CQ:at,qq="@),
    ensures
        event::without_mentions(text, bot_id) == model::trimmed(text),
{
    lemma_code(bot_id);
    let code = "[CQ:at,qq="@ + number::dec(bot_id);
    lemma_longer_code(text, "[CQ:at,qq="@, number::dec(bot_id) + "]"@);
    lemma_longer_code(text, "[CQ:at,qq="@, number::dec(bot_id) + ",name="@);
    assert(code + "]"@ =~= "[CQ:at,qq="@ + (number::dec(bot_id) + "]"@));
    assert(code + ",name="@ =~= "[CQ:at,qq="@ + (number::dec(bot_id) + ",name="@));
    facts::lemma_replaced_absent(text, code + "]"@, ""@);
    assert forall|j: int| 0 <= j implies !model::occurs_at(text, code + ",name="@, j) by {
        if model::occurs_at(text, code + ",name="@, j) {
            assert(model::has_part(text, code + ",name="@));
        }
    }
    facts::lemma_find_none(text, code + ",name="@, 0);
    assert(text.skip(0) =~= text);
}

proof fn lemma_longer_code(s: Seq<char>, code: Seq<char>, more: Seq<char>)
    requires
        !model::has_part(s, code),
    ensures
        !model::has_part(s, code + more),
{
    if model::has_part(s, code + more) {
        facts::lemma_part_of_itself(code);
        facts::lemma_part_of_either(code, more, code);
        facts::lemma_part_of_part(s, code + more, code);
    }
}

/// A mention of the bot is cleaned away, and what stands before and behind it stays.
pub proof fn law_mention_is_cleaned_away(a: Seq<char>, b: Seq<char>, bot_id: int)
    requires
        lacks_brackets(a),
        lacks_brackets(b),
    ensures
        event::without_mentions(a + ("[CQ:at,qq="@ + number::dec(bot_id) + "]"@) + b, bot_id)
            == model::trimmed(a + b),
{
    reveal_strlit("");
    lemma_code(bot_id);
    let open = "[CQ:at,qq="@ + number::dec(bot_id);
    let code = open + "]"@;
    let s = a + code + b;
    let n = a.len() as int;
    let end = n + code.len();
    assert forall|i: int| 0 <= i < s.len() && i != n implies #[trigger] s[i] != '[' by {
        if i < n {
            assert(a.contains(a[i]));
        } else if i >= end {
            assert(b.contains(b[i - end]));
        } else {
            assert(s[i] == code[i - n]);
        }
    }
    assert(s.subrange(n, end) =~= code);
    lemma_only_code(s, code, n);
    lemma_no_code(s, code, end);
    reveal_with_fuel(model::replaced_from, 2);
    assert(s.subrange(0, n) + ""@ + s.skip(end) =~= a + b);
    assert(model::replaced(s, code, ""@) == a + b);
    let rest = a + b;
    assert forall|i: int| 0 <= i < rest.len() implies #[trigger] rest[i] != '[' by {
        if i < n {
            assert(a.contains(a[i]));
        } else {
            assert(b.contains(b[i - n]));
        }
    }
    lemma_no_code(rest, open + ",name="@, 0);
    assert(rest.skip(0) =~= rest);
}

/// A mention of the bot that carries a name is cleaned away with the name.
pub proof fn law_named_mention_is_cleaned_away(
    a: Seq<char>,
    name: Seq<char>,
    b: Seq<char>,
    bot_id: int,
)
    requires
        lacks_brackets(a),
        lacks_brackets(name),
        lacks_brackets(b),
    ensures
        event::without_mentions(
            a + ("[CQ:at,qq="@ + number::dec(bot_id) + ",name="@ + name + "]"@) + b,
            bot_id,
        ) == model::trimmed(a + b),
{
    lemma_code(bot_id);
    let bare = "[CQ:at,qq="@ + number::dec(bot_id);
    let open = bare + ",name="@;
    let code = open + name + "]"@;
    let s = a + code + b;
    let n = a.len() as int;
    let close = n + open.len() + name.len();
    assert forall|i: int| 0 <= i < s.len() && i != n implies #[trigger] s[i] != '[' by {
        if i < n {
            assert(a.contains(a[i]));
        } else if i > close {
            assert(b.contains(b[i - close - 1]));
        } else if n + open.len() <= i < close {
            assert(name.contains(name[i - n - open.len()]));
        } else {
            assert(s[i] == code[i - n]);
        }
    }
    let short = bare + "]"@;
    if model::occurs_at(s, short, n) {
        assert(s.subrange(n, n + short.len())[bare.len() as int] == s[n + bare.len()]);
    }
    lemma_only_code(s, short, n);
    assert(s.skip(0) =~= s);
    assert(model::replaced(s, short, ""@) == s);
    assert(s.subrange(n, n + open.len()) =~= open);
    lemma_only_code(s, open, n);
    assert(s.subrange(close, close + 1) =~= "]"@);
    assert forall|j: int| n + open.len() <= j < close implies !model::occurs_at(s, "]"@, j) by {
        if model::occurs_at(s, "]"@, j) {
            assert(s.subrange(j, j + 1)[0] == s[j]);
            assert(name.contains(name[j - n - open.len()]));
        }
    }
    facts::lemma_find_is(s, "]"@, n + open.len(), close);
    lemma_no_code(s, open, close + 1);
    reveal_with_fuel(event::without_codes, 2);
    assert(s.subrange(0, n) + s.skip(close + 1) =~= a + b);
}

/// A mention of someone else stays where it is.
pub proof fn law_mention_of_another_stays(b: Seq<char>, other: i64, bot_id: i64)
    requires
        other != bot_id,
        lacks_brackets(b),
    ensures
        ({
            let text = "[CQ:at,qq="@ + number::dec(other as int) + "]"@ + b;
            event::without_mentions(text, bot_id as int) == model::trimmed(text)
        }),
{
    lemma_code(bot_id as int);
    lemma_code(other as int);
    number::lemma_parse_of_dec(other as int);
    number::lemma_parse_of_dec(bot_id as int);
    let x = number::dec(other as int);
    let y = number::dec(bot_id as int);
    let theirs = "[CQ:at,qq="@ + x;
    let bare = "[CQ:at,qq="@ + y;
    let s = theirs + "]"@ + b;
    assert forall|i: int| 0 <= i < s.len() && i != 0 implies #[trigger] s[i] != '[' by {
        if i > theirs.len() {
            assert(b.contains(b[i - theirs.len() - 1]));
        } else if i < theirs.len() {
            assert(s[i] == theirs[i]);
        }
    }
    assert(s[theirs.len() as int] == ']');
    let short = bare + "]"@;
    if model::occurs_at(s, short, 0) {
        let part = s.subrange(0, short.len() as int);
        assert(part[bare.len() as int] == s[bare.len() as int]);
        assert(short[bare.len() as int] == ']');
        if bare.len() < theirs.len() {
            assert(theirs[bare.len() as int] == ']');
        } else if bare.len() > theirs.len() {
            assert(part[theirs.len() as int] == s[theirs.len() as int]);
            assert(short[theirs.len() as int] == bare[theirs.len() as int]);
        } else {
            assert(x =~= y) by {
                assert forall|k: int| 0 <= k < x.len() implies x[k] == y[k] by {
                    assert(part[10 + k] == s[10 + k]);
                    assert(s[10 + k] == theirs[10 + k]);
                    assert(short[10 + k] == bare[10 + k]);
                }
            }
        }
    }
    lemma_only_code(s, short, 0);
    let named = bare + ",name="@;
    if model::occurs_at(s, named, 0) {
        let part = s.subrange(0, named.len() as int);
        assert(part[bare.len() as int] == s[bare.len() as int]);
        assert(named[bare.len() as int] == ',');
        if bare.len() < theirs.len() {
            lemma_dec_chars(other as int);
            assert(s[bare.len() as int] == theirs[bare.len() as int]);
            assert(theirs[bare.len() as int] == x[bare.len() - 10]);
        } else if bare.len() > theirs.len() {
            assert(part[theirs.len() as int] == s[theirs.len() as int]);
            assert(named[theirs.len() as int] == bare[theirs.len() as int]);
        }
    }
    lemma_only_code(s, named, 0);
    assert(s.skip(0) =~= s);
}

} // verus!
