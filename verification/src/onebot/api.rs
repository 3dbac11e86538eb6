//! The OneBot API: the requests that the bridge makes, and what it reads from the answers.
use crate::json::{Json, JsonView};
use crate::json;
use crate::text::facts;
use crate::text::model;
use crate::text::number;
use crate::text::ops;
use crate::text::table::TextMap;
use super::event::{ApiRequest, ApiResponse, MessageSegment, Part, SegmentView};
use super::event;
use vstd::prelude::*;
use vstd::string::*;

verus! {

/// The calls that wait for an answer, each under its echo.
pub struct PendingCalls<T> {
    calls: TextMap<T>,
}

impl<T> View for PendingCalls<T> {
    type V = Map<Seq<char>, T>;

    closed spec fn view(&self) -> Map<Seq<char>, T> {
        self.calls@
    }
}

impl<T> PendingCalls<T> {
    pub fn new() -> (r: Self)
        ensures
            r@ == Map::<Seq<char>, T>::empty(),
    {
        PendingCalls { calls: TextMap::new() }
    }

    /// Has a call wait for its answer.
    pub fn register(&mut self, echo: &str, waiter: T)
        ensures
            final(self)@ == old(self)@.insert(echo@, waiter),
    {
        self.calls.insert(echo, waiter);
    }

    /// Takes out the call with an echo: it waits no longer.
    pub fn take(&mut self, echo: &str) -> (r: Option<T>)
        ensures
            final(self)@ == old(self)@.remove(echo@),
            match r {
                Some(w) => old(self)@.dom().contains(echo@) && old(self)@[echo@] == w,
                None => !old(self)@.dom().contains(echo@),
            },
    {
        self.calls.remove(echo)
    }
}

/// The call that a message answers, if it answers one: the waiter is taken out, so that no
/// call is answered twice.
pub fn try_resolve_api_response<T>(msg: &Json, pending: &mut PendingCalls<T>) -> (r: Option<T>)
    ensures
        match msg@.str_at("echo"@) {
            Some(echo) => {
                &&& final(pending)@ == old(pending)@.remove(echo)
                &&& match r {
                    Some(w) => old(pending)@.dom().contains(echo) && old(pending)@[echo] == w,
                    None => !old(pending)@.dom().contains(echo),
                }
            },
            None => r is None && final(pending)@ == old(pending)@,
        },
{
    match msg.str_at("echo") {
        Some(echo) => pending.take(echo),
        None => None,
    }
}

/// `uuid::Uuid::new_v4` makes a random UUID; its text is 32 hexadecimal digits and 4 hyphens.
#[verifier::external_body]
fn new_uuid() -> (r: String)
    ensures
        r@.len() == 36,
{
    uuid::Uuid::new_v4().to_string()
}

/// The echo of a call with a UUID.
pub open spec fn echo_text(uuid: Seq<char>, action: Seq<char>) -> Seq<char> {
    "bridge-"@ + uuid + "-"@ + action
}

/// The echo by which the answer to a call is known.
pub fn echo_for(uuid: &str, action: &str) -> (r: String)
    ensures
        r@ == echo_text(uuid@, action@),
{
    "bridge-".to_owned().concat(uuid).concat("-").concat(action)
}

/// A call of the API, with an echo of its own.
pub fn call_api(action: &str, params: Json) -> (r: ApiRequest)
    ensures
        r.action@ == action@,
        r.params == params,
        exists|uuid: Seq<char>| uuid.len() == 36 && r.echo@ == #[trigger] echo_text(uuid, action@),
{
    let uuid = new_uuid();
    let echo = echo_for(&uuid, action);
    assert(echo@ == echo_text(uuid@, action@));
    ApiRequest { action: action.to_owned(), params, echo }
}

/// How the wait for an answer ended.
pub enum CallOutcome {
    Answered(ApiResponse),
    Closed,
    TimedOut,
}

/// What went wrong with a call, in words.
pub open spec fn failure_text(action: Seq<char>, resp: ApiResponse) -> Seq<char> {
    "OneBot API "@ + action + " failed: status="@ + resp.status@ + ", retcode="@ + number::dec(
        resp.retcode as int,
    ) + ", "@ + (match (resp.message, resp.wording) {
        (Some(m), _) => m@,
        (None, Some(w)) => w@,
        (None, None) => "no error message"@,
    })
}

/// Whether an answer reports success.
pub open spec fn is_success(resp: ApiResponse) -> bool {
    resp.status@ == "ok"@ && resp.retcode == 0
}

/// An answer, if it reports success, and else the error that it reports.
pub fn validate_api_response(action: &str, resp: ApiResponse) -> (r: Result<ApiResponse, String>)
    ensures
        match r {
            Ok(ok) => is_success(resp) && ok == resp,
            Err(e) => !is_success(resp) && e@ == failure_text(action@, resp),
        },
{
    if ops::same(&resp.status, "ok") && resp.retcode == 0 {
        return Ok(resp);
    }
    let head = "OneBot API ".to_owned().concat(action).concat(" failed: status=").concat(
        &resp.status,
    ).concat(", retcode=").concat(&number::dec_i64(resp.retcode as i64)).concat(", ");
    let error = match (&resp.message, &resp.wording) {
        (Some(m), _) => head.concat(m),
        (None, Some(w)) => head.concat(w),
        (None, None) => head.concat("no error message"),
    };
    Err(error)
}

/// The result of a call.
pub fn finish_call(action: &str, outcome: CallOutcome, timeout_secs: u64) -> (r: Result<
    ApiResponse,
    String,
>)
    ensures
        match outcome {
            CallOutcome::Answered(resp) => match r {
                Ok(ok) => is_success(resp) && ok == resp,
                Err(e) => !is_success(resp) && e@ == failure_text(action@, resp),
            },
            CallOutcome::Closed => r is Err && r->Err_0@ == "response channel closed"@,
            CallOutcome::TimedOut => r is Err && r->Err_0@ == "API call timeout: "@ + action@
                + " ("@ + number::dec(timeout_secs as int) + "s)"@,
        },
{
    match outcome {
        CallOutcome::Answered(resp) => validate_api_response(action, resp),
        CallOutcome::Closed => Err("response channel closed".to_owned()),
        CallOutcome::TimedOut => Err(
            "API call timeout: ".to_owned().concat(action).concat(" (").concat(
                &number::dec_u64(timeout_secs),
            ).concat("s)"),
        ),
    }
}

/// A segment as JSON.
pub open spec fn segment_json(seg: SegmentView) -> JsonView {
    JsonView::Object(seq![("type"@, JsonView::Str(seg.segment_type)), ("data"@, seg.data)])
}

/// Segments as JSON.
pub open spec fn segments_json(segments: Seq<SegmentView>) -> JsonView {
    JsonView::Array(segments.map_values(|s: SegmentView| segment_json(s)))
}

fn segment_to_json(seg: &MessageSegment) -> (r: Json)
    ensures
        r@ == segment_json(seg@),
{
    let mut entries: Vec<(String, Json)> = Vec::new();
    entries.push(("type".to_owned(), Json::Str(seg.segment_type.clone())));
    entries.push(("data".to_owned(), json::copy(&seg.data)));
    proof {
        json::lemma_entry_views(entries@);
        assert(json::entry_views_of(entries@) =~= seq![
            ("type"@, JsonView::Str(seg.segment_type@)),
            ("data"@, seg.data@),
        ]);
    }
    Json::Object(entries)
}

fn segments_to_json(segments: &Vec<MessageSegment>) -> (r: Json)
    ensures
        r@ == segments_json(event::segment_views(segments@)),
{
    let mut out: Vec<Json> = Vec::new();
    let mut i: usize = 0;
    while i < segments.len()
        invariant
            i <= segments@.len(),
            out@.len() == i,
            forall|k: int| 0 <= k < i ==> (#[trigger] out@[k])@ == segment_json(segments@[k]@),
        decreases segments@.len() - i,
    {
        out.push(segment_to_json(&segments[i]));
        i += 1;
    }
    proof {
        json::lemma_views(out@);
        assert(json::views_of(out@) =~= event::segment_views(segments@).map_values(
            |s: SegmentView| segment_json(s),
        ));
    }
    Json::Array(out)
}

/// The parameters of a message to a group or to a user.
pub open spec fn send_params(
    message_type: Seq<char>,
    target_id: int,
    segments: Seq<SegmentView>,
) -> JsonView {
    let target = JsonView::Number(number::dec(target_id), Some(target_id));
    if message_type == "group"@ {
        JsonView::Object(
            seq![
                ("message_type"@, JsonView::Str("group"@)),
                ("group_id"@, target),
                ("message"@, segments_json(segments)),
            ],
        )
    } else {
        JsonView::Object(
            seq![
                ("message_type"@, JsonView::Str("private"@)),
                ("user_id"@, target),
                ("message"@, segments_json(segments)),
            ],
        )
    }
}

fn send_request(message_type: &str, target_id: i64, segments: &Vec<MessageSegment>) -> (r: ApiRequest)
    ensures
        r.action@ == "send_msg"@,
        r.params@ == send_params(message_type@, target_id as int, event::segment_views(segments@)),
        exists|uuid: Seq<char>| uuid.len() == 36 && r.echo@ == #[trigger] echo_text(uuid, "send_msg"@),
{
    let mut entries: Vec<(String, Json)> = Vec::new();
    let group = ops::same(message_type, "group");
    if group {
        entries.push(("message_type".to_owned(), Json::from_text("group")));
        entries.push(("group_id".to_owned(), Json::from_i64(target_id)));
    } else {
        entries.push(("message_type".to_owned(), Json::from_text("private")));
        entries.push(("user_id".to_owned(), Json::from_i64(target_id)));
    }
    entries.push(("message".to_owned(), segments_to_json(segments)));
    let params = Json::Object(entries);
    proof {
        json::lemma_entry_views(entries@);
        assert(params@ == send_params(
            message_type@,
            target_id as int,
            event::segment_views(segments@),
        )) by {
            let want = send_params(
                message_type@,
                target_id as int,
                event::segment_views(segments@),
            );
            assert(json::entry_views_of(entries@) =~= want->Object_0);
        }
    }
    call_api("send_msg", params)
}

/// The call that sends a text to a group or to a user. Every `[emoji:NAME]` with a known
/// name becomes a face.
pub fn send_text_message(message_type: &str, target_id: i64, text: &str) -> (r: ApiRequest)
    ensures
        r.action@ == "send_msg"@,
        r.params@ == send_params(message_type@, target_id as int, event::segments_from(text@, 0)),
        exists|uuid: Seq<char>| uuid.len() == 36 && r.echo@ == #[trigger] echo_text(uuid, "send_msg"@),
{
    send_request(message_type, target_id, &event::text_to_segments(text))
}

/// The segments of a reply: the message that is replied to, in a group the user that is
/// mentioned, and the text.
pub open spec fn reply_segments(
    message_type: Seq<char>,
    text: Seq<char>,
    reply_to_id: Seq<char>,
    at_user_id: Option<Seq<char>>,
) -> Seq<SegmentView> {
    let mention = match at_user_id {
        Some(user) => if message_type == "group"@ {
            seq![event::at_segment(user)]
        } else {
            seq![]
        },
        None => seq![],
    };
    seq![event::reply_segment(reply_to_id)] + mention + event::segments_from(text, 0)
}

/// The call that sends a text as a reply. QQ clients then show the quoted message; in a group
/// the user can be mentioned too.
pub fn send_reply_message(
    message_type: &str,
    target_id: i64,
    text: &str,
    reply_to_id: &str,
    at_user_id: Option<&str>,
) -> (r: ApiRequest)
    ensures
        r.action@ == "send_msg"@,
        r.params@ == send_params(
            message_type@,
            target_id as int,
            reply_segments(message_type@, text@, reply_to_id@, json::str_view(at_user_id)),
        ),
        exists|uuid: Seq<char>| uuid.len() == 36 && r.echo@ == #[trigger] echo_text(uuid, "send_msg"@),
{
    let mut segments: Vec<MessageSegment> = Vec::new();
    segments.push(MessageSegment::reply(reply_to_id));
    if ops::same(message_type, "group") {
        if let Some(user) = at_user_id {
            segments.push(MessageSegment::at(user));
        }
    }
    let ghost head = segments@;
    let mut tail = event::text_to_segments(text);
    let ghost behind = tail@;
    segments.append(&mut tail);
    proof {
        let want = reply_segments(message_type@, text@, reply_to_id@, json::str_view(at_user_id));
        assert(event::segment_views(segments@) =~= event::segment_views(head)
            + event::segment_views(behind));
        assert(event::segment_views(segments@) =~= want);
    }
    send_request(message_type, target_id, &segments)
}

/// The call that asks for a message.
pub fn get_msg_request(message_id: &str) -> (r: ApiRequest)
    ensures
        r.action@ == "get_msg"@,
        r.params@ == event::one_string("message_id"@, message_id@),
        exists|uuid: Seq<char>| uuid.len() == 36 && r.echo@ == #[trigger] echo_text(uuid, "get_msg"@),
{
    call_api("get_msg", event::one_string_object("message_id", message_id))
}

/// The call that asks for forwarded messages.
pub fn get_forward_msg_request(forward_id: &str) -> (r: ApiRequest)
    ensures
        r.action@ == "get_forward_msg"@,
        r.params@ == event::one_string("id"@, forward_id@),
        exists|uuid: Seq<char>|
            uuid.len() == 36 && r.echo@ == #[trigger] echo_text(uuid, "get_forward_msg"@),
{
    call_api("get_forward_msg", event::one_string_object("id", forward_id))
}

/// The call that asks for the groups.
pub fn get_group_list_request() -> (r: ApiRequest)
    ensures
        r.action@ == "get_group_list"@,
        r.params@ == JsonView::Object(seq![]),
        exists|uuid: Seq<char>|
            uuid.len() == 36 && r.echo@ == #[trigger] echo_text(uuid, "get_group_list"@),
{
    let entries: Vec<(String, Json)> = Vec::new();
    assert(json::entry_views_of(entries@) =~= seq![]);
    call_api("get_group_list", Json::Object(entries))
}

/// A message that another message quotes.
pub struct QuotedMessage {
    pub sender_name: String,
    pub sender_id: Option<i64>,
    pub text: String,
    pub image_urls: Vec<String>,
}

/// The string under a key of a part of a value, where it is not empty.
pub open spec fn nonempty_at(data: Option<JsonView>, key: Seq<char>) -> Option<Seq<char>> {
    match data {
        Some(d) => match d.str_at(key) {
            Some(s) => if s.len() > 0 {
                Some(s)
            } else {
                None
            },
            None => None,
        },
        None => None,
    }
}

fn nonempty_str<'a>(data: Option<&'a Json>, key: &str) -> (r: Option<&'a str>)
    ensures
        json::str_view(r) == nonempty_at(json::ref_view(data), key@),
{
    match data {
        Some(d) => match d.str_at(key) {
            Some(s) => if !s.is_empty() {
                Some(s)
            } else {
                None
            },
            None => None,
        },
        None => None,
    }
}

/// Who sent a quoted message: by the name in the group, else by the nickname.
pub open spec fn quoted_sender(data: JsonView) -> Seq<char> {
    let sender = data.get("sender"@);
    match nonempty_at(sender, "card"@) {
        Some(card) => card,
        None => match nonempty_at(sender, "nickname"@) {
            Some(nickname) => nickname,
            None => "unknown"@,
        },
    }
}

/// The segment that a JSON value stands for: an object with a type and, if it has any, data;
/// or an array of a type and, if it has any, data.
pub open spec fn segment_in(item: JsonView) -> Option<SegmentView> {
    match item {
        JsonView::Object(_) => match item.str_at("type"@) {
            Some(segment_type) => Some(
                SegmentView {
                    segment_type,
                    data: match item.get("data"@) {
                        Some(d) => d,
                        None => JsonView::Null,
                    },
                },
            ),
            None => None,
        },
        JsonView::Array(items) => if items.len() == 1 || items.len() == 2 {
            match items[0].as_str() {
                Some(segment_type) => Some(
                    SegmentView {
                        segment_type,
                        data: if items.len() == 2 {
                            items[1]
                        } else {
                            JsonView::Null
                        },
                    },
                ),
                None => None,
            }
        } else {
            None
        },
        _ => None,
    }
}

/// The segments that JSON values stand for, if each of them stands for one.
pub open spec fn segments_in(items: Seq<JsonView>) -> Option<Seq<SegmentView>>
    decreases items.len(),
{
    if items.len() == 0 {
        Some(seq![])
    } else {
        match (segments_in(items.drop_last()), segment_in(items.last())) {
            (Some(before), Some(last)) => Some(before.push(last)),
            _ => None,
        }
    }
}

/// The segments of a message in JSON. A message that is not well-formed has none.
pub open spec fn message_segments(message: Option<JsonView>) -> Seq<SegmentView> {
    match message {
        Some(JsonView::Array(items)) => match segments_in(items) {
            Some(segments) => segments,
            None => seq![],
        },
        _ => seq![],
    }
}

fn segment_from_json(item: &Json) -> (r: Option<MessageSegment>)
    ensures
        match r {
            Some(seg) => segment_in(item@) == Some(seg@),
            None => segment_in(item@) is None,
        },
{
    match item {
        Json::Object(_) => match item.str_at("type") {
            Some(t) => {
                let data = match item.get("data") {
                    Some(d) => json::copy(d),
                    None => Json::Null,
                };
                Some(MessageSegment { segment_type: t.to_owned(), data })
            },
            None => None,
        },
        Json::Array(items) => {
            proof {
                json::lemma_views(items@);
            }
            if items.len() == 1 || items.len() == 2 {
                assert(json::views_of(items@)[0] == items@[0]@);
                match items[0].as_str() {
                    Some(t) => {
                        let data = if items.len() == 2 {
                            assert(json::views_of(items@)[1] == items@[1]@);
                            json::copy(&items[1])
                        } else {
                            Json::Null
                        };
                        Some(MessageSegment { segment_type: t.to_owned(), data })
                    },
                    None => None,
                }
            } else {
                None
            }
        },
        _ => None,
    }
}

fn segments_from_json(message: Option<&Json>) -> (r: Vec<MessageSegment>)
    ensures
        event::segment_views(r@) == message_segments(json::ref_view(message)),
{
    let items = match message {
        Some(Json::Array(items)) => items,
        _ => {
            let none: Vec<MessageSegment> = Vec::new();
            assert(event::segment_views(none@) =~= seq![]);
            return none;
        },
    };
    let mut out: Vec<MessageSegment> = Vec::new();
    let mut i: usize = 0;
    let ghost views = json::views_of(items@);
    proof {
        json::lemma_views(items@);
        assert(event::segment_views(out@) =~= seq![]);
    }
    while i < items.len()
        invariant
            views == json::views_of(items@),
            views.len() == items@.len(),
            forall|k: int| 0 <= k < items@.len() ==> #[trigger] views[k] == items@[k]@,
            json::ref_view(message) == Some(JsonView::Array(views)),
            i <= items@.len(),
            segments_in(views.take(i as int)) == Some(event::segment_views(out@)),
        decreases items@.len() - i,
    {
        assert(views.take(i + 1).drop_last() =~= views.take(i as int));
        match segment_from_json(&items[i]) {
            Some(seg) => {
                let ghost before = out@;
                out.push(seg);
                assert(event::segment_views(out@) =~= event::segment_views(before).push(seg@));
            },
            None => {
                proof {
                    lemma_segments_in_fails(views, i as int);
                }
                let none: Vec<MessageSegment> = Vec::new();
                assert(event::segment_views(none@) =~= seq![]);
                return none;
            },
        }
        i += 1;
    }
    assert(views.take(i as int) =~= views);
    out
}

proof fn lemma_segments_in_fails(items: Seq<JsonView>, at: int)
    requires
        0 <= at < items.len(),
        segment_in(items[at]) is None,
    ensures
        segments_in(items) is None,
    decreases items.len(),
{
    if at < items.len() - 1 {
        lemma_segments_in_fails(items.drop_last(), at);
    }
}

/// What a quoted message says of its photos.
pub open spec fn photo_hints(count: nat) -> Seq<Seq<char>> {
    if count == 0 {
        seq![]
    } else if count == 1 {
        seq!["[photo attached]"@]
    } else {
        seq!["["@ + number::dec(count as int) + " photos attached]"@]
    }
}

/// What a quoted message says of its files.
pub open spec fn file_hints(files: Seq<(Seq<char>, Seq<char>)>) -> Seq<Seq<char>> {
    files.map_values(|f: (Seq<char>, Seq<char>)| "[file: "@ + f.0 + "]"@)
}

/// The media lines that say more than that there is an image or a file.
pub open spec fn telling_lines(lines: Seq<Seq<char>>) -> Seq<Seq<char>>
    decreases lines.len(),
{
    if lines.len() == 0 {
        seq![]
    } else {
        let before = telling_lines(lines.drop_last());
        if lines.last() == "[Image]"@ || lines.last() == "[File]"@ {
            before
        } else {
            before.push(lines.last())
        }
    }
}

/// What a quoted message says of its media.
pub open spec fn media_hints(segments: Seq<SegmentView>) -> Seq<Seq<char>> {
    photo_hints(event::parts_of(segments, Part::Image).len()) + file_hints(event::files_of(segments))
        + telling_lines(event::parts_of(segments, Part::Media))
}

/// Whether a text holds a CQ code.
pub open spec fn has_cq_code(text: Seq<char>) -> bool {
    model::has_part(model::trimmed(text), "[CQ:"@)
}

/// The text of a quoted message: its plain text and what it says of its media; else its raw
/// text, unless that is CQ codes.
pub open spec fn quoted_text(data: JsonView, segments: Seq<SegmentView>) -> Seq<char> {
    let plain = event::plain_text(segments);
    let hints = media_hints(segments);
    let text = if hints.len() == 0 {
        plain
    } else if plain.len() == 0 {
        model::joined(hints, "\n"@)
    } else {
        plain + "\n"@ + model::joined(hints, "\n"@)
    };
    let raw = model::trimmed(event::str_or(data, "raw_message"@, ""@));
    if text.len() > 0 {
        text
    } else if raw.len() > 0 && !has_cq_code(raw) {
        raw
    } else if event::parts_of(segments, Part::Image).len() > 0 {
        "[photo attached]"@
    } else {
        text
    }
}

/// Whether a text holds a CQ code.
pub fn looks_like_cq_code(text: &str) -> (r: bool)
    ensures
        r == has_cq_code(text@),
{
    ops::contains(ops::trim(text), "[CQ:")
}

fn quoted_hints(segments: &Vec<MessageSegment>, images: usize) -> (r: Vec<String>)
    requires
        images == event::parts_of(event::segment_views(segments@), Part::Image).len(),
    ensures
        model::texts(r@) == media_hints(event::segment_views(segments@)),
{
    let mut out: Vec<String> = Vec::new();
    let ghost views = event::segment_views(segments@);
    if images == 1 {
        let hint = "[photo attached]".to_owned();
        proof {
            facts::lemma_texts_push(out@, hint);
        }
        out.push(hint);
    } else if images > 1 {
        let hint = "[".to_owned().concat(&number::dec_u64(images as u64)).concat(" photos attached]");
        proof {
            facts::lemma_texts_push(out@, hint);
        }
        out.push(hint);
    }
    let ghost photos = photo_hints(images as nat);
    assert(model::texts(out@) =~= photos);
    let files = event::extract_files(segments);
    let ghost file_views = event::files_of(views);
    let mut i: usize = 0;
    while i < files.len()
        invariant
            i <= files@.len(),
            event::pair_views(files@) == file_views,
            model::texts(out@) == photos + file_hints(file_views.take(i as int)),
        decreases files@.len() - i,
    {
        let hint = "[file: ".to_owned().concat(&files[i].0).concat("]");
        proof {
            facts::lemma_texts_push(out@, hint);
            assert(event::pair_views(files@)[i as int].0 == files@[i as int].0@);
            assert(file_hints(file_views.take(i + 1)) =~= file_hints(file_views.take(i as int)).push(
                hint@,
            ));
        }
        out.push(hint);
        i += 1;
    }
    assert(file_views.take(i as int) =~= file_views);
    let ghost before = photos + file_hints(file_views);
    let lines = event::extract_media_summary(segments);
    let ghost line_views = event::parts_of(views, Part::Media);
    let mut j: usize = 0;
    while j < lines.len()
        invariant
            j <= lines@.len(),
            model::texts(lines@) == line_views,
            model::texts(out@) == before + telling_lines(line_views.take(j as int)),
        decreases lines@.len() - j,
    {
        assert(line_views.take(j + 1).drop_last() =~= line_views.take(j as int));
        assert(line_views[j as int] == lines@[j as int]@);
        if !ops::same(&lines[j], "[Image]") && !ops::same(&lines[j], "[File]") {
            let line = lines[j].clone();
            proof {
                facts::lemma_texts_push(out@, line);
            }
            out.push(line);
        }
        j += 1;
    }
    assert(line_views.take(j as int) =~= line_views);
    out
}

/// Whether `quoted` is the message that the data of an answer describes.
pub open spec fn is_quote_of(quoted: QuotedMessage, data: JsonView) -> bool {
    let segments = message_segments(data.get("message"@));
    &&& quoted.sender_name@ == quoted_sender(data)
    &&& json::int_view(quoted.sender_id) == (match data.get("sender"@) {
        Some(s) => match s.get("user_id"@) {
            Some(id) => id.as_id(),
            None => None,
        },
        None => None,
    })
    &&& quoted.text@ == quoted_text(data, segments)
    &&& model::texts(quoted.image_urls@) == event::parts_of(segments, Part::Image)
}

/// The quoted message that the data of an answer describes.
pub fn parse_quoted_message(data: &Json) -> (r: QuotedMessage)
    ensures
        is_quote_of(r, data@),
{
    let sender = data.get("sender");
    let sender_name = match nonempty_str(sender, "card") {
        Some(card) => card.to_owned(),
        None => match nonempty_str(sender, "nickname") {
            Some(nickname) => nickname.to_owned(),
            None => "unknown".to_owned(),
        },
    };
    let sender_id = match sender {
        Some(s) => match s.get("user_id") {
            Some(id) => id.as_id(),
            None => None,
        },
        None => None,
    };
    let segments = segments_from_json(data.get("message"));
    let image_urls = event::extract_images(&segments);
    let plain = event::extract_text(&segments);
    let hints = quoted_hints(&segments, image_urls.len());
    let mut text = if hints.len() == 0 {
        plain
    } else {
        let media_summary = ops::join(&hints, "\n");
        if plain.as_str().is_empty() {
            media_summary
        } else {
            plain.concat("\n").concat(&media_summary)
        }
    };
    if text.as_str().is_empty() {
        let raw = ops::trim(event::data_str_or(data, "raw_message", ""));
        if !raw.is_empty() && !looks_like_cq_code(raw) {
            text = raw.to_owned();
        } else if image_urls.len() > 0 {
            text = "[photo attached]".to_owned();
        }
    }
    QuotedMessage { sender_name, sender_id, text, image_urls }
}

/// The message that an answer to `get_msg` holds.
pub fn get_msg(data: Option<&Json>) -> (r: Result<QuotedMessage, String>)
    ensures
        match data {
            Some(d) => r is Ok && is_quote_of(r->Ok_0, d@),
            None => r is Err && r->Err_0@ == "get_msg: no data"@,
        },
{
    match data {
        Some(d) => Ok(parse_quoted_message(d)),
        None => Err("get_msg: no data".to_owned()),
    }
}

/// The texts of the text segments among JSON values.
pub open spec fn content_texts(items: Seq<JsonView>) -> Seq<Seq<char>>
    decreases items.len(),
{
    if items.len() == 0 {
        seq![]
    } else {
        let before = content_texts(items.drop_last());
        match content_text(items.last()) {
            Some(text) => before.push(text),
            None => before,
        }
    }
}

/// The text of a text segment in JSON.
pub open spec fn content_text(item: JsonView) -> Option<Seq<char>> {
    if item.str_at("type"@) == Some("text"@) {
        match item.get("data"@) {
            Some(d) => d.str_at("text"@),
            None => None,
        }
    } else {
        None
    }
}

/// The sender and the text of a forwarded message, where it has a text.
pub open spec fn forwarded_node(node: JsonView) -> Option<(Seq<char>, Seq<char>)> {
    match node.get("data"@) {
        None => None,
        Some(data) => {
            let name = match data.get("nickname"@) {
                Some(n) => n.as_str(),
                None => data.str_at("name"@),
            };
            let text = match data.get("content"@) {
                Some(JsonView::Array(items)) => model::trimmed(
                    model::joined(content_texts(items), ""@),
                ),
                _ => seq![],
            };
            if text.len() == 0 {
                None
            } else {
                Some(
                    (
                        match name {
                            Some(n) => n,
                            None => "unknown"@,
                        },
                        text,
                    ),
                )
            }
        },
    }
}

/// The forwarded messages that have a text.
pub open spec fn forwarded_nodes(nodes: Seq<JsonView>) -> Seq<(Seq<char>, Seq<char>)>
    decreases nodes.len(),
{
    if nodes.len() == 0 {
        seq![]
    } else {
        let before = forwarded_nodes(nodes.drop_last());
        match forwarded_node(nodes.last()) {
            Some(node) => before.push(node),
            None => before,
        }
    }
}

fn content_plain_text(content: Option<&Json>) -> (r: String)
    ensures
        r@ == (match json::ref_view(content) {
            Some(JsonView::Array(items)) => model::trimmed(
                model::joined(content_texts(items), ""@),
            ),
            _ => seq![],
        }),
{
    let items = match content {
        Some(Json::Array(items)) => items,
        _ => {
            return String::new();
        },
    };
    let mut texts: Vec<String> = Vec::new();
    let mut i: usize = 0;
    let ghost views = json::views_of(items@);
    proof {
        json::lemma_views(items@);
        assert(model::texts(texts@) =~= seq![]);
    }
    while i < items.len()
        invariant
            views == json::views_of(items@),
            views.len() == items@.len(),
            forall|k: int| 0 <= k < items@.len() ==> #[trigger] views[k] == items@[k]@,
            i <= items@.len(),
            model::texts(texts@) == content_texts(views.take(i as int)),
        decreases items@.len() - i,
    {
        assert(views.take(i + 1).drop_last() =~= views.take(i as int));
        let item = &items[i];
        assert(views[i as int] == item@);
        let is_text = match item.str_at("type") {
            Some(t) => ops::same(t, "text"),
            None => false,
        };
        if is_text {
            if let Some(d) = item.get("data") {
                if let Some(t) = d.str_at("text") {
                    let owned = t.to_owned();
                    proof {
                        facts::lemma_texts_push(texts@, owned);
                    }
                    texts.push(owned);
                }
            }
        }
        i += 1;
    }
    assert(views.take(i as int) =~= views);
    ops::trim(&ops::join(&texts, "")).to_owned()
}

/// The messages that an answer to `get_forward_msg` holds: the sender and the text of each.
pub fn get_forward_msg(data: Option<&Json>) -> (r: Result<Vec<(String, String)>, String>)
    ensures
        match data {
            Some(d) => match d@.get("message"@) {
                Some(JsonView::Array(nodes)) => r is Ok && event::pair_views(r->Ok_0@)
                    == forwarded_nodes(nodes),
                _ => r is Err && r->Err_0@ == "get_forward_msg: no message array"@,
            },
            None => r is Err && r->Err_0@ == "get_forward_msg: no data"@,
        },
{
    let data = match data {
        Some(d) => d,
        None => {
            return Err("get_forward_msg: no data".to_owned());
        },
    };
    let nodes = match data.get("message") {
        Some(Json::Array(nodes)) => nodes,
        _ => {
            return Err("get_forward_msg: no message array".to_owned());
        },
    };
    let mut out: Vec<(String, String)> = Vec::new();
    let mut i: usize = 0;
    let ghost views = json::views_of(nodes@);
    proof {
        json::lemma_views(nodes@);
        assert(event::pair_views(out@) =~= seq![]);
    }
    while i < nodes.len()
        invariant
            views == json::views_of(nodes@),
            views.len() == nodes@.len(),
            forall|k: int| 0 <= k < nodes@.len() ==> #[trigger] views[k] == nodes@[k]@,
            i <= nodes@.len(),
            event::pair_views(out@) == forwarded_nodes(views.take(i as int)),
        decreases nodes@.len() - i,
    {
        assert(views.take(i + 1).drop_last() =~= views.take(i as int));
        assert(views[i as int] == nodes@[i as int]@);
        if let Some(node_data) = nodes[i].get("data") {
            let name = match node_data.get("nickname") {
                Some(n) => n.as_str(),
                None => node_data.str_at("name"),
            };
            let name = match name {
                Some(n) => n,
                None => "unknown",
            };
            let text = content_plain_text(node_data.get("content"));
            if !text.as_str().is_empty() {
                let pair = (name.to_owned(), text);
                let ghost before = out@;
                out.push(pair);
                assert(event::pair_views(out@) =~= event::pair_views(before).push(
                    (pair.0@, pair.1@),
                ));
            }
        }
        i += 1;
    }
    assert(views.take(i as int) =~= views);
    Ok(out)
}

/// The trimmed name of a group in JSON, where it is not blank.
pub open spec fn listed_name(group: JsonView) -> Option<Seq<char>> {
    match group.str_at("group_name"@) {
        Some(name) => if model::trimmed(name).len() > 0 {
            Some(model::trimmed(name))
        } else {
            None
        },
        None => None,
    }
}

/// Whether JSON describes the group with an id.
pub open spec fn is_group(group: JsonView, group_id: int) -> bool {
    match group.get("group_id"@) {
        Some(id) => id.as_id() == Some(group_id),
        None => false,
    }
}

/// The name of the first group from `from` on with an id.
pub open spec fn group_name_from(groups: Seq<JsonView>, group_id: int, from: int) -> Option<Seq<char>>
    decreases groups.len() - from,
{
    if from < 0 || from >= groups.len() {
        None
    } else if is_group(groups[from], group_id) {
        listed_name(groups[from])
    } else {
        group_name_from(groups, group_id, from + 1)
    }
}

/// The name of a group that an answer to `get_group_list` holds.
pub fn get_group_name(data: Option<&Json>, group_id: i64) -> (r: Result<Option<String>, String>)
    ensures
        match data {
            Some(d) => match d@ {
                JsonView::Array(groups) => r is Ok && json::text_view(r->Ok_0) == group_name_from(
                    groups,
                    group_id as int,
                    0,
                ),
                _ => r is Err && r->Err_0@ == "get_group_list: response is not an array"@,
            },
            None => r is Err && r->Err_0@ == "get_group_list: no data"@,
        },
{
    let groups = match data {
        None => {
            return Err("get_group_list: no data".to_owned());
        },
        Some(Json::Array(groups)) => groups,
        Some(_) => {
            return Err("get_group_list: response is not an array".to_owned());
        },
    };
    let mut i: usize = 0;
    let ghost views = json::views_of(groups@);
    proof {
        json::lemma_views(groups@);
    }
    while i < groups.len()
        invariant
            data is Some && data->0@ == JsonView::Array(views),
            views.len() == groups@.len(),
            forall|k: int| 0 <= k < groups@.len() ==> #[trigger] views[k] == groups@[k]@,
            i <= groups@.len(),
            group_name_from(views, group_id as int, 0) == group_name_from(
                views,
                group_id as int,
                i as int,
            ),
        decreases groups@.len() - i,
    {
        let group = &groups[i];
        assert(views[i as int] == group@);
        let wanted = match group.get("group_id") {
            Some(id) => match id.as_id() {
                Some(found) => found == group_id,
                None => false,
            },
            None => false,
        };
        if wanted {
            let name = match group.str_at("group_name") {
                Some(name) => {
                    let name = ops::trim(name);
                    if !name.is_empty() {
                        Some(name.to_owned())
                    } else {
                        None
                    }
                },
                None => None,
            };
            return Ok(name);
        }
        i += 1;
    }
    Ok(None)
}

} // verus!
