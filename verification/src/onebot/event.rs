//! OneBot v11 events and message segments.
use crate::face_map;
use crate::json;
use crate::json::{Json, JsonView};
use crate::text::facts;
use crate::text::model;
use crate::text::number;
use crate::text::ops;
use vstd::prelude::*;
use vstd::string::*;

verus! {

/// A OneBot event. `self_id` is always there; the rest depends on `post_type`.
pub struct OneBotEvent {
    pub time: Option<u64>,
    pub self_id: i64,
    pub post_type: String,
    pub message_type: Option<String>,
    pub sub_type: Option<String>,
    pub message_id: Option<i64>,
    pub user_id: Option<i64>,
    pub group_id: Option<i64>,
    pub message: Option<Vec<MessageSegment>>,
    pub raw_message: Option<String>,
    pub sender: Option<Sender>,
    pub meta_event_type: Option<String>,
    pub notice_type: Option<String>,
    pub operator_id: Option<i64>,
    pub request_type: Option<String>,
}

/// Who sent a message.
pub struct Sender {
    pub user_id: Option<i64>,
    pub nickname: Option<String>,
    pub sex: Option<String>,
    pub age: Option<i32>,
    pub card: Option<String>,
    pub role: Option<String>,
    pub title: Option<String>,
}

/// One segment of a message.
pub struct MessageSegment {
    pub segment_type: String,
    pub data: Json,
}

/// A call of the OneBot API.
pub struct ApiRequest {
    pub action: String,
    pub params: Json,
    pub echo: String,
}

/// The answer to a call of the OneBot API.
pub struct ApiResponse {
    pub status: String,
    pub retcode: i32,
    pub data: Option<Json>,
    pub echo: Option<String>,
    pub message: Option<String>,
    pub wording: Option<String>,
}

/// The model of a message segment.
pub struct SegmentView {
    pub segment_type: Seq<char>,
    pub data: JsonView,
}

impl View for MessageSegment {
    type V = SegmentView;

    open spec fn view(&self) -> SegmentView {
        SegmentView { segment_type: self.segment_type@, data: self.data@ }
    }
}

/// The models of several segments.
pub open spec fn segment_views(segments: Seq<MessageSegment>) -> Seq<SegmentView> {
    segments.map_values(|s: MessageSegment| s@)
}

/// An object with one entry whose value is a string.
pub open spec fn one_string(key: Seq<char>, value: Seq<char>) -> JsonView {
    JsonView::Object(seq![(key, JsonView::Str(value))])
}

/// An object with one entry whose value is a string.
pub fn one_string_object(key: &str, value: &str) -> (r: Json)
    ensures
        r@ == one_string(key@, value@),
{
    let mut entries: Vec<(String, Json)> = Vec::new();
    entries.push((key.to_owned(), Json::from_text(value)));
    proof {
        json::lemma_entry_views(entries@);
        assert(json::entry_views_of(entries@) =~= seq![(key@, JsonView::Str(value@))]);
    }
    Json::Object(entries)
}

pub open spec fn text_segment(content: Seq<char>) -> SegmentView {
    SegmentView { segment_type: "text"@, data: one_string("text"@, content) }
}

pub open spec fn at_segment(qq: Seq<char>) -> SegmentView {
    SegmentView { segment_type: "at"@, data: one_string("qq"@, qq) }
}

pub open spec fn reply_segment(message_id: Seq<char>) -> SegmentView {
    SegmentView { segment_type: "reply"@, data: one_string("id"@, message_id) }
}

pub open spec fn face_segment(id: Seq<char>) -> SegmentView {
    SegmentView { segment_type: "face"@, data: one_string("id"@, id) }
}

impl MessageSegment {
    pub fn text(content: &str) -> (r: Self)
        ensures
            r@ == text_segment(content@),
    {
        MessageSegment {
            segment_type: "text".to_owned(),
            data: one_string_object("text", content),
        }
    }

    pub fn at(qq: &str) -> (r: Self)
        ensures
            r@ == at_segment(qq@),
    {
        MessageSegment { segment_type: "at".to_owned(), data: one_string_object("qq", qq) }
    }

    pub fn reply(message_id: &str) -> (r: Self)
        ensures
            r@ == reply_segment(message_id@),
    {
        MessageSegment { segment_type: "reply".to_owned(), data: one_string_object("id", message_id) }
    }

    fn face(id: &str) -> (r: Self)
        ensures
            r@ == face_segment(id@),
    {
        MessageSegment { segment_type: "face".to_owned(), data: one_string_object("id", id) }
    }
}

/// What a segment can contribute to a message's text.
#[derive(Clone, Copy)]
pub enum Part {
    Text,
    Face,
    Image,
    Media,
}

/// The text of the value under a key: a string, or a number as it is written.
pub open spec fn text_at(data: JsonView, key: Seq<char>) -> Option<Seq<char>> {
    match data.get(key) {
        Some(v) => v.as_text(),
        None => None,
    }
}

fn data_text(data: &Json, key: &str) -> (r: Option<String>)
    ensures
        json::text_view(r) == text_at(data@, key@),
{
    match data.get(key) {
        Some(v) => v.as_text(),
        None => None,
    }
}

/// The string under a key, or a default.
pub open spec fn str_or(data: JsonView, key: Seq<char>, default: Seq<char>) -> Seq<char> {
    match data.str_at(key) {
        Some(s) => s,
        None => default,
    }
}

/// The string under a key, or a default.
pub fn data_str_or<'a>(data: &'a Json, key: &str, default: &'a str) -> (r: &'a str)
    ensures
        r@ == str_or(data@, key@, default@),
{
    match data.str_at(key) {
        Some(s) => s,
        None => default,
    }
}

/// How a face is written in a text.
pub open spec fn face_text(id: Seq<char>) -> Seq<char> {
    match face_map::name_of(id) {
        Some(name) => "[emoji:"@ + name + "]"@,
        None => "[emoji:face_"@ + id + "]"@,
    }
}

/// How a media segment is described.
pub open spec fn media_text(seg: SegmentView) -> Option<Seq<char>> {
    if seg.segment_type == "image"@ {
        if seg.data.str_at("type"@) == Some("flash"@) {
            Some("[Flash image]"@)
        } else {
            Some("[Image]"@)
        }
    } else if seg.segment_type == "record"@ {
        Some("[Voice message]"@)
    } else if seg.segment_type == "video"@ {
        Some("[Video]"@)
    } else if seg.segment_type == "share"@ {
        Some(
            "[Share: "@ + str_or(seg.data, "title"@, "shared link"@) + " — "@ + str_or(
                seg.data,
                "url"@,
                ""@,
            ) + "]"@,
        )
    } else if seg.segment_type == "location"@ {
        Some(
            "[Location: "@ + str_or(seg.data, "lat"@, "?"@) + ", "@ + str_or(
                seg.data,
                "lon"@,
                "?"@,
            ) + "]"@,
        )
    } else {
        None
    }
}

/// What a segment contributes.
pub open spec fn part_of(seg: SegmentView, part: Part) -> Option<Seq<char>> {
    match part {
        Part::Text => if seg.segment_type == "text"@ {
            seg.data.str_at("text"@)
        } else {
            None
        },
        Part::Face => if seg.segment_type == "face"@ {
            match text_at(seg.data, "id"@) {
                Some(id) => Some(face_text(id)),
                None => None,
            }
        } else {
            None
        },
        Part::Image => if seg.segment_type == "image"@ {
            seg.data.str_at("url"@)
        } else {
            None
        },
        Part::Media => media_text(seg),
    }
}

/// What the segments contribute, in order.
pub open spec fn parts_of(segments: Seq<SegmentView>, part: Part) -> Seq<Seq<char>>
    decreases segments.len(),
{
    if segments.len() == 0 {
        seq![]
    } else {
        let before = parts_of(segments.drop_last(), part);
        match part_of(segments.last(), part) {
            Some(text) => before.push(text),
            None => before,
        }
    }
}

fn owned(o: Option<&str>) -> (r: Option<String>)
    ensures
        json::text_view(r) == json::str_view(o),
{
    match o {
        Some(s) => Some(s.to_owned()),
        None => None,
    }
}

fn segment_part(seg: &MessageSegment, part: Part) -> (r: Option<String>)
    ensures
        json::text_view(r) == part_of(seg@, part),
{
    let kind = seg.segment_type.as_str();
    match part {
        Part::Text => if ops::same(kind, "text") {
            owned(seg.data.str_at("text"))
        } else {
            None
        },
        Part::Face => if ops::same(kind, "face") {
            match data_text(&seg.data, "id") {
                Some(id) => Some(
                    match face_map::face_name(&id) {
                        Some(name) => "[emoji:".to_owned().concat(name).concat("]"),
                        None => "[emoji:face_".to_owned().concat(&id).concat("]"),
                    },
                ),
                None => None,
            }
        } else {
            None
        },
        Part::Image => if ops::same(kind, "image") {
            owned(seg.data.str_at("url"))
        } else {
            None
        },
        Part::Media => if ops::same(kind, "image") {
            let flash = match seg.data.str_at("type") {
                Some(t) => ops::same(t, "flash"),
                None => false,
            };
            if flash {
                Some("[Flash image]".to_owned())
            } else {
                Some("[Image]".to_owned())
            }
        } else if ops::same(kind, "record") {
            Some("[Voice message]".to_owned())
        } else if ops::same(kind, "video") {
            Some("[Video]".to_owned())
        } else if ops::same(kind, "share") {
            let url = data_str_or(&seg.data, "url", "");
            let title = data_str_or(&seg.data, "title", "shared link");
            Some("[Share: ".to_owned().concat(title).concat(" — ").concat(url).concat("]"))
        } else if ops::same(kind, "location") {
            let lat = data_str_or(&seg.data, "lat", "?");
            let lon = data_str_or(&seg.data, "lon", "?");
            Some("[Location: ".to_owned().concat(lat).concat(", ").concat(lon).concat("]"))
        } else {
            None
        },
    }
}

fn segment_parts(segments: &[MessageSegment], part: Part) -> (r: Vec<String>)
    ensures
        model::texts(r@) == parts_of(segment_views(segments@), part),
{
    let mut out: Vec<String> = Vec::new();
    let mut i: usize = 0;
    let ghost views = segment_views(segments@);
    while i < segments.len()
        invariant
            views == segment_views(segments@),
            i <= segments@.len(),
            model::texts(out@) == parts_of(views.take(i as int), part),
        decreases segments@.len() - i,
    {
        assert(views.take(i + 1).drop_last() =~= views.take(i as int));
        if let Some(text) = segment_part(&segments[i], part) {
            proof {
                facts::lemma_texts_push(out@, text);
            }
            out.push(text);
        }
        i += 1;
    }
    assert(views.take(i as int) =~= views);
    out
}

/// The plain text of a message.
pub open spec fn plain_text(segments: Seq<SegmentView>) -> Seq<char> {
    model::trimmed(model::joined(parts_of(segments, Part::Text), ""@))
}

/// The plain text of a message.
pub fn extract_text(segments: &[MessageSegment]) -> (r: String)
    ensures
        r@ == plain_text(segment_views(segments@)),
{
    ops::trim(&ops::join(&segment_parts(segments, Part::Text), "")).to_owned()
}

/// The faces of a message, each written as `[emoji:NAME]`.
pub fn convert_faces_to_text(segments: &[MessageSegment]) -> (r: String)
    ensures
        r@ == model::joined(parts_of(segment_views(segments@), Part::Face), " "@),
{
    ops::join(&segment_parts(segments, Part::Face), " ")
}

/// The URLs of the images of a message.
pub fn extract_images(segments: &[MessageSegment]) -> (r: Vec<String>)
    ensures
        model::texts(r@) == parts_of(segment_views(segments@), Part::Image),
{
    segment_parts(segments, Part::Image)
}

/// Lines such as `[Image]` and `[Video]`, one for each media segment.
pub fn extract_media_summary(segments: &[MessageSegment]) -> (r: Vec<String>)
    ensures
        model::texts(r@) == parts_of(segment_views(segments@), Part::Media),
{
    segment_parts(segments, Part::Media)
}

/// Whether a segment mentions the bot, or everyone.
pub open spec fn mentions(seg: SegmentView, bot_id: int) -> bool {
    seg.segment_type == "at"@ && (match text_at(seg.data, "qq"@) {
        Some(q) => q == number::dec(bot_id) || q == "all"@,
        None => false,
    })
}

/// Whether the message mentions the bot, or everyone.
pub fn contains_at_bot(segments: &[MessageSegment], bot_id: i64) -> (r: bool)
    ensures
        r == exists|i: int|
            0 <= i < segments@.len() && mentions(#[trigger] segment_views(segments@)[i], bot_id as int),
{
    let bot = number::dec_i64(bot_id);
    let mut i: usize = 0;
    while i < segments.len()
        invariant
            i <= segments@.len(),
            bot@ == number::dec(bot_id as int),
            forall|k: int|
                0 <= k < i ==> !mentions(#[trigger] segment_views(segments@)[k], bot_id as int),
        decreases segments@.len() - i,
    {
        let seg = &segments[i];
        assert(segment_views(segments@)[i as int] == seg@);
        if ops::same(&seg.segment_type, "at") {
            if let Some(q) = data_text(&seg.data, "qq") {
                if ops::same(&q, &bot) || ops::same(&q, "all") {
                    return true;
                }
            }
        }
        i += 1;
    }
    false
}

/// `s` from `from` on without the codes that begin with `open`, each up to the next bracket. A
/// code that is not closed stays.
pub open spec fn without_codes(s: Seq<char>, open: Seq<char>, from: int) -> Seq<char>
    decreases s.len() - from,
{
    match model::find_from(s, open, from) {
        None => s.skip(from),
        Some(start) => match model::find_from(s, "]"@, start + open.len()) {
            None => s.skip(from),
            Some(end) => if from <= start <= end < s.len() {
                s.subrange(from, start) + without_codes(s, open, end + 1)
            } else {
                s.skip(from)
            },
        },
    }
}

fn remove_codes(text: &str, code: &str) -> (r: String)
    ensures
        r@ == without_codes(text@, code@, 0),
{
    let v = ops::to_chars(text);
    let open = ops::to_chars(code);
    let close = ops::to_chars("]");
    let mut out = String::new();
    let mut from: usize = 0;
    let ghost s = text@;
    proof {
        reveal_strlit("]");
    }
    loop
        invariant
            s == text@,
            v@ == s,
            open@ == code@,
            close@ == "]"@,
            "]"@.len() == 1,
            from <= s.len(),
            without_codes(s, open@, 0) == out@ + without_codes(s, open@, from as int),
        decreases s.len() - from,
    {
        proof {
            facts::lemma_find_from(s, open@, from as int);
            assert(s.skip(from as int) =~= s.subrange(from as int, s.len() as int));
        }
        let start = match ops::find_from(&v, &open, from) {
            None => {
                out.append(&ops::from_chars(&v, from, v.len()));
                return out;
            },
            Some(start) => start,
        };
        let body: usize = start + open.len();
        proof {
            facts::lemma_find_from(s, close@, body as int);
        }
        match ops::find_from(&v, &close, body) {
            None => {
                out.append(&ops::from_chars(&v, from, v.len()));
                return out;
            },
            Some(end) => {
                let ghost before = out@;
                assert(model::occurs_at(s, close@, end as int));
                assert(end < s.len() && s.len() == v.len());
                out.append(&ops::from_chars(&v, from, start));
                proof {
                    let piece = s.subrange(from as int, start as int);
                    let rest = without_codes(s, open@, end + 1);
                    assert(before + (piece + rest) =~= (before + piece) + rest);
                }
                from = end + 1;
            },
        }
    }
}

/// A text without the mentions of the bot that CQ codes make, be it with its name or without.
pub open spec fn without_mentions(text: Seq<char>, bot_id: int) -> Seq<char> {
    let code = "[CQ:at,qq="@ + number::dec(bot_id);
    let a = model::replaced(text, code + "]"@, ""@);
    model::trimmed(without_codes(a, code + ",name="@, 0))
}

/// Removes the mentions of the bot from a text.
pub fn clean_at_from_text(text: &str, bot_id: i64) -> (r: String)
    ensures
        r@ == without_mentions(text@, bot_id as int),
{
    proof {
        reveal_strlit("[CQ:at,qq=");
    }
    let code = "[CQ:at,qq=".to_owned().concat(&number::dec_i64(bot_id));
    let a = ops::replace(text, &code.as_str().to_owned().concat("]"), "");
    let b = remove_codes(&a, &code.concat(",name="));
    ops::trim(&b).to_owned()
}

/// The id that a segment of the given kind holds.
pub open spec fn id_in(seg: SegmentView, kind: Seq<char>) -> Option<Seq<char>> {
    if seg.segment_type == kind {
        text_at(seg.data, "id"@)
    } else {
        None
    }
}

fn segment_id(seg: &MessageSegment, kind: &str) -> (r: Option<String>)
    ensures
        json::text_view(r) == id_in(seg@, kind@),
{
    if ops::same(&seg.segment_type, kind) {
        data_text(&seg.data, "id")
    } else {
        None
    }
}

/// The id of the message that a message replies to: its first segment says so.
pub open spec fn reply_id(segments: Seq<SegmentView>) -> Option<Seq<char>> {
    if segments.len() == 0 {
        None
    } else {
        id_in(segments[0], "reply"@)
    }
}

/// The id of the message that a message replies to, if its first segment is a reply.
pub fn extract_reply_id(segments: &[MessageSegment]) -> (r: Option<String>)
    ensures
        json::text_view(r) == reply_id(segment_views(segments@)),
{
    if segments.len() == 0 {
        None
    } else {
        segment_id(&segments[0], "reply")
    }
}

/// The id of the first forward segment from `from` on that has one.
pub open spec fn forward_id_from(segments: Seq<SegmentView>, from: int) -> Option<Seq<char>>
    decreases segments.len() - from,
{
    if from < 0 || from >= segments.len() {
        None
    } else if id_in(segments[from], "forward"@) is Some {
        id_in(segments[from], "forward"@)
    } else {
        forward_id_from(segments, from + 1)
    }
}

/// The id of the forwarded messages in a message, if there are any.
pub fn extract_forward_id(segments: &[MessageSegment]) -> (r: Option<String>)
    ensures
        json::text_view(r) == forward_id_from(segment_views(segments@), 0),
{
    let mut i: usize = 0;
    while i < segments.len()
        invariant
            i <= segments@.len(),
            forward_id_from(segment_views(segments@), 0) == forward_id_from(
                segment_views(segments@),
                i as int,
            ),
        decreases segments@.len() - i,
    {
        let id = segment_id(&segments[i], "forward");
        if id.is_some() {
            return id;
        }
        i += 1;
    }
    None
}

/// Whether a segment holds media.
pub open spec fn is_media(seg: SegmentView) -> bool {
    ||| seg.segment_type == "image"@
    ||| seg.segment_type == "record"@
    ||| seg.segment_type == "video"@
    ||| seg.segment_type == "share"@
    ||| seg.segment_type == "location"@
    ||| seg.segment_type == "forward"@
    ||| seg.segment_type == "file"@
}

/// Whether a message holds media.
pub fn has_media_segments(segments: &[MessageSegment]) -> (r: bool)
    ensures
        r == exists|i: int| 0 <= i < segments@.len() && is_media(#[trigger] segment_views(segments@)[i]),
{
    let mut i: usize = 0;
    while i < segments.len()
        invariant
            i <= segments@.len(),
            forall|k: int| 0 <= k < i ==> !is_media(#[trigger] segment_views(segments@)[k]),
        decreases segments@.len() - i,
    {
        let kind = segments[i].segment_type.as_str();
        assert(segment_views(segments@)[i as int].segment_type == kind@);
        if ops::same(kind, "image") || ops::same(kind, "record") || ops::same(kind, "video")
            || ops::same(kind, "share") || ops::same(kind, "location") || ops::same(kind, "forward")
            || ops::same(kind, "file") {
            return true;
        }
        i += 1;
    }
    false
}

/// The name and the URL of the file that a segment holds.
pub open spec fn file_in(seg: SegmentView) -> Option<(Seq<char>, Seq<char>)> {
    let url = str_or(seg.data, "url"@, ""@);
    if seg.segment_type != "file"@ || url.len() == 0 {
        None
    } else {
        let name = match seg.data.get("file"@) {
            Some(v) => v.as_str(),
            None => seg.data.str_at("name"@),
        };
        Some(
            (
                match name {
                    Some(n) => n,
                    None => "file"@,
                },
                url,
            ),
        )
    }
}

/// The files of a message, each with its name and URL.
pub open spec fn files_of(segments: Seq<SegmentView>) -> Seq<(Seq<char>, Seq<char>)>
    decreases segments.len(),
{
    if segments.len() == 0 {
        seq![]
    } else {
        let before = files_of(segments.drop_last());
        match file_in(segments.last()) {
            Some(file) => before.push(file),
            None => before,
        }
    }
}

/// The views of pairs of strings.
pub open spec fn pair_views(v: Seq<(String, String)>) -> Seq<(Seq<char>, Seq<char>)> {
    v.map_values(|p: (String, String)| (p.0@, p.1@))
}

/// The files of a message, each with its name and URL.
pub fn extract_files(segments: &[MessageSegment]) -> (r: Vec<(String, String)>)
    ensures
        pair_views(r@) == files_of(segment_views(segments@)),
{
    let mut out: Vec<(String, String)> = Vec::new();
    let mut i: usize = 0;
    let ghost views = segment_views(segments@);
    proof {
        reveal_strlit("");
    }
    while i < segments.len()
        invariant
            views == segment_views(segments@),
            i <= segments@.len(),
            ""@.len() == 0,
            pair_views(out@) == files_of(views.take(i as int)),
        decreases segments@.len() - i,
    {
        assert(views.take(i + 1).drop_last() =~= views.take(i as int));
        let seg = &segments[i];
        assert(views[i as int] == seg@);
        if ops::same(&seg.segment_type, "file") {
            let url = data_str_or(&seg.data, "url", "");
            if !url.is_empty() {
                let name = match seg.data.get("file") {
                    Some(v) => v.as_str(),
                    None => seg.data.str_at("name"),
                };
                let name = match name {
                    Some(n) => n,
                    None => "file",
                };
                let file = (name.to_owned(), url.to_owned());
                let ghost before = out@;
                out.push(file);
                assert(pair_views(out@) =~= pair_views(before).push((file.0@, file.1@)));
            }
        }
        i += 1;
    }
    assert(views.take(i as int) =~= views);
    out
}

pub const EMOJI_OPEN: &'static str = "[emoji:";

/// The segment of an emoji in a text: a face where the name is known, else the text itself.
pub open spec fn emoji_segment(name: Seq<char>) -> SegmentView {
    match face_map::least_number(name, 0) {
        Some(n) => face_segment(number::dec(n)),
        None => text_segment(EMOJI_OPEN@ + name + "]"@),
    }
}

/// A text segment, where there is any text.
pub open spec fn maybe_text(content: Seq<char>) -> Seq<SegmentView> {
    if content.len() == 0 {
        seq![]
    } else {
        seq![text_segment(content)]
    }
}

/// The segments of a text from `from` on.
pub open spec fn segments_from(s: Seq<char>, from: int) -> Seq<SegmentView>
    decreases s.len() - from,
{
    match model::find_from(s, EMOJI_OPEN@, from) {
        None => maybe_text(s.skip(from)),
        Some(start) => match model::find_from(s, "]"@, start) {
            None => maybe_text(s.skip(from)),
            Some(end) => if from <= start && start + EMOJI_OPEN@.len() <= end < s.len() {
                maybe_text(s.subrange(from, start)) + seq![
                    emoji_segment(s.subrange(start + EMOJI_OPEN@.len(), end)),
                ] + segments_from(s, end + 1)
            } else {
                maybe_text(s.skip(from))
            },
        },
    }
}

proof fn lemma_segment_views_push(v: Seq<MessageSegment>, seg: MessageSegment)
    ensures
        segment_views(v.push(seg)) == segment_views(v) + seq![seg@],
{
    assert(segment_views(v.push(seg)) =~= segment_views(v) + seq![seg@]);
}

fn push_text(out: &mut Vec<MessageSegment>, content: &str)
    ensures
        segment_views(final(out)@) == segment_views(old(out)@) + maybe_text(content@),
{
    if !content.is_empty() {
        let seg = MessageSegment::text(content);
        proof {
            lemma_segment_views_push(out@, seg);
        }
        out.push(seg);
    } else {
        assert(segment_views(out@) + maybe_text(content@) =~= segment_views(out@));
    }
}

proof fn lemma_emoji_texts()
    ensures
        EMOJI_OPEN@ =~= seq!['[', 'e', 'm', 'o', 'j', 'i', ':'],
        "]"@ =~= seq![']'],
{
    reveal_strlit("[emoji:");
    reveal_strlit("]");
}

/// The `]` that closes an emoji stands behind the emoji's opening.
proof fn lemma_emoji_end(s: Seq<char>, start: int)
    requires
        model::occurs_at(s, EMOJI_OPEN@, start),
    ensures
        EMOJI_OPEN@.len() == 7,
        model::find_from(s, "]"@, start) matches Some(end) ==> start + 7 <= end < s.len(),
{
    lemma_emoji_texts();
    facts::lemma_find_from(s, "]"@, start);
    if let Some(end) = model::find_from(s, "]"@, start) {
        assert(s.subrange(end, end + 1)[0] == s[end]);
        if end < start + 7 {
            assert(s.subrange(start, start + 7)[end - start] == s[end]);
        }
    }
}

/// The segments of a text: `[emoji:NAME]` becomes a face where the name is known, and all
/// else stays text.
pub fn text_to_segments(text: &str) -> (r: Vec<MessageSegment>)
    ensures
        segment_views(r@) == segments_from(text@, 0),
{
    let v = ops::to_chars(text);
    let open = ops::to_chars(EMOJI_OPEN);
    let close = ops::to_chars("]");
    let mut out: Vec<MessageSegment> = Vec::new();
    let mut from: usize = 0;
    let ghost s = text@;
    assert(segment_views(out@) =~= seq![]);
    loop
        invariant
            s == text@,
            v@ == s,
            open@ == EMOJI_OPEN@,
            close@ == "]"@,
            from <= s.len(),
            segments_from(s, 0) == segment_views(out@) + segments_from(s, from as int),
        decreases s.len() - from,
    {
        proof {
            facts::lemma_find_from(s, EMOJI_OPEN@, from as int);
        }
        let start = match ops::find_from(&v, &open, from) {
            Some(start) => start,
            None => {
                let rest = ops::from_chars(&v, from, v.len());
                assert(rest@ =~= s.skip(from as int));
                push_text(&mut out, &rest);
                return out;
            },
        };
        proof {
            lemma_emoji_end(s, start as int);
        }
        let end = match ops::find_from(&v, &close, start) {
            Some(end) => end,
            None => {
                let rest = ops::from_chars(&v, from, v.len());
                assert(rest@ =~= s.skip(from as int));
                push_text(&mut out, &rest);
                return out;
            },
        };
        push_text(&mut out, &ops::from_chars(&v, from, start));
        let name = ops::from_chars(&v, start + 7, end);
        let seg = match face_map::face_id(&name) {
            Some(id) => MessageSegment::face(&id),
            None => MessageSegment::text(&EMOJI_OPEN.to_owned().concat(&name).concat("]")),
        };
        proof {
            lemma_segment_views_push(out@, seg);
        }
        out.push(seg);
        from = end + 1;
    }
}

/// The text that a segment stands for.
pub open spec fn written(seg: SegmentView) -> Seq<char> {
    if seg.segment_type == "face"@ {
        face_text(str_or(seg.data, "id"@, ""@))
    } else {
        str_or(seg.data, "text"@, ""@)
    }
}

/// The text that segments stand for.
pub open spec fn all_written(segments: Seq<SegmentView>) -> Seq<char>
    decreases segments.len(),
{
    if segments.len() == 0 {
        seq![]
    } else {
        all_written(segments.drop_last()) + written(segments.last())
    }
}

proof fn lemma_all_written_add(a: Seq<SegmentView>, b: Seq<SegmentView>)
    ensures
        all_written(a + b) == all_written(a) + all_written(b),
    decreases b.len(),
{
    if b.len() == 0 {
        assert(a + b =~= a);
    } else {
        lemma_all_written_add(a, b.drop_last());
        assert((a + b).drop_last() =~= a + b.drop_last());
    }
}

proof fn lemma_one_string(key: Seq<char>, value: Seq<char>)
    ensures
        one_string(key, value).str_at(key) == Some(value),
{
}

proof fn lemma_text_is_no_face()
    ensures
        "text"@ != "face"@,
{
    reveal_strlit("text");
    reveal_strlit("face");
    assert("text"@[0] != "face"@[0]);
}

proof fn lemma_maybe_text_written(content: Seq<char>)
    ensures
        all_written(maybe_text(content)) == content,
{
    reveal_with_fuel(all_written, 2);
    lemma_text_is_no_face();
    lemma_one_string("text"@, content);
    if content.len() > 0 {
        assert(maybe_text(content).drop_last() =~= seq![]);
        assert(all_written(maybe_text(content)) =~= content);
    } else {
        assert(content =~= seq![]);
    }
}

proof fn lemma_emoji_written(name: Seq<char>)
    ensures
        all_written(seq![emoji_segment(name)]) == EMOJI_OPEN@ + name + "]"@,
{
    reveal_with_fuel(all_written, 2);
    lemma_text_is_no_face();
    let seg = emoji_segment(name);
    assert(seq![seg].drop_last() =~= seq![]);
    assert(all_written(seq![seg]) =~= written(seg));
    match face_map::least_number(name, 0) {
        Some(n) => {
            face_map::law_face_of_a_name_has_the_name(name);
            lemma_one_string("id"@, number::dec(n));
        },
        None => {
            lemma_one_string("text"@, EMOJI_OPEN@ + name + "]"@);
        },
    }
}

/// A text is what stands before an emoji, the emoji, and what stands behind it.
proof fn lemma_emoji_span(s: Seq<char>, from: int, start: int, end: int)
    requires
        0 <= from <= start,
        model::occurs_at(s, EMOJI_OPEN@, start),
        EMOJI_OPEN@.len() == 7,
        start + 7 <= end,
        model::occurs_at(s, "]"@, end),
    ensures
        s.subrange(from, start) + (EMOJI_OPEN@ + s.subrange(start + EMOJI_OPEN@.len(), end) + "]"@)
            + s.skip(end + 1) == s.skip(from),
{
    reveal_strlit("]");
    assert("]"@.len() == 1);
    let open = s.subrange(start, start + 7);
    let close = s.subrange(end, end + 1);
    assert(EMOJI_OPEN@ == open);
    assert("]"@ == close);
    assert(open + s.subrange(start + 7, end) + close =~= s.subrange(start, end + 1));
    assert(s.subrange(from, start) + s.subrange(start, end + 1) + s.skip(end + 1) =~= s.skip(from));
}

proof fn lemma_segments_keep_the_text(s: Seq<char>, from: int)
    requires
        0 <= from <= s.len(),
    ensures
        all_written(segments_from(s, from)) == s.skip(from),
    decreases s.len() - from,
{
    facts::lemma_find_from(s, EMOJI_OPEN@, from);
    lemma_maybe_text_written(s.skip(from));
    if let Some(start) = model::find_from(s, EMOJI_OPEN@, from) {
        lemma_emoji_end(s, start);
        facts::lemma_find_from(s, "]"@, start);
        if let Some(end) = model::find_from(s, "]"@, start) {
            let before = maybe_text(s.subrange(from, start));
            let name = s.subrange(start + EMOJI_OPEN@.len(), end);
            let emoji = seq![emoji_segment(name)];
            lemma_segments_keep_the_text(s, end + 1);
            lemma_maybe_text_written(s.subrange(from, start));
            lemma_emoji_written(name);
            lemma_all_written_add(before, emoji);
            lemma_all_written_add(before + emoji, segments_from(s, end + 1));
            lemma_emoji_span(s, from, start, end);
        }
    }
}

/// The segments of a text, written as text again, are the text: nothing is lost, and every
/// emoji comes back under its name.
pub proof fn law_segments_keep_the_text(s: Seq<char>)
    ensures
        all_written(segments_from(s, 0)) == s,
{
    lemma_segments_keep_the_text(s, 0);
    assert(s.skip(0) =~= s);
}

} // verus!
