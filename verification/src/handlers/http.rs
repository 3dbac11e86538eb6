//! The commands that the bridge takes over HTTP.
use crate::auth;
use crate::auth::RemoteAddr;
use crate::json;
use crate::json::{Json, JsonView};
use crate::pipeline::run;
use crate::pipeline::run::{Outgoing, OutgoingView};
use crate::pipeline::split;
use crate::state::directory::{EntryView, GroupDirectoryEntry, GroupMember, MemberView};
use crate::state::sessions;
use crate::text::model;
use crate::text::number;
use crate::text::ops;
use crate::text::table::TextMap;
use vstd::prelude::*;
use vstd::string::*;

verus! {

/// An answer: its status and its body.
pub struct JsonResponse {
    pub status: u16,
    pub body: Json,
}

impl JsonResponse {
    pub fn new(status: u16, value: Json) -> (r: Self)
        ensures
            r.status == status,
            r.body == value,
    {
        JsonResponse { status, body: value }
    }
}

/// A JSON object of two texts.
pub open spec fn two_texts(
    key: Seq<char>,
    value: Seq<char>,
    key2: Seq<char>,
    value2: Seq<char>,
) -> JsonView {
    JsonView::Object(seq![(key, JsonView::Str(value)), (key2, JsonView::Str(value2))])
}

fn two_text_object(key: &str, value: &str, key2: &str, value2: &str) -> (r: Json)
    ensures
        r@ == two_texts(key@, value@, key2@, value2@),
{
    let mut entries: Vec<(String, Json)> = Vec::new();
    entries.push((key.to_owned(), Json::from_text(value)));
    entries.push((key2.to_owned(), Json::from_text(value2)));
    proof {
        json::lemma_entry_views(entries@);
        assert(json::entry_views_of(entries@) =~= seq![
            (key@, JsonView::Str(value@)),
            (key2@, JsonView::Str(value2@)),
        ]);
    }
    Json::Object(entries)
}

/// Whether an answer tells of an error.
pub open spec fn is_error(r: JsonResponse, status: u16, message: Seq<char>) -> bool {
    r.status == status && r.body@ == two_texts("status"@, "error"@, "error"@, message)
}

/// An answer that tells of an error.
pub fn json_error(message: &str, status: u16) -> (r: JsonResponse)
    ensures
        is_error(r, status, message@),
{
    JsonResponse::new(status, two_text_object("status", "error", "error", message))
}

/// The answer to the question whether the bridge is there.
pub fn health_response() -> (r: JsonResponse)
    ensures
        r.status == 200,
        r.body@ == two_texts("status"@, "ok"@, "service"@, "alma-onebot-bridge"@),
{
    JsonResponse::new(200, two_text_object("status", "ok", "service", "alma-onebot-bridge"))
}

/// A message that is to be sent.
pub struct SendMessageRequest {
    pub message: String,
    pub reply_to_id: Option<String>,
    pub at_user_id: Option<String>,
}

/// A number in JSON.
pub open spec fn number_json(n: int) -> JsonView {
    JsonView::Number(
        number::dec(n),
        if i64::MIN <= n <= i64::MAX {
            Some(n)
        } else {
            None
        },
    )
}

fn u64_json(n: u64) -> (r: Json)
    ensures
        r@ == number_json(n as int),
{
    let value: Option<i64> = if n <= i64::MAX as u64 {
        Some(n as i64)
    } else {
        None
    };
    Json::Number(json::JsonNumber { text: number::dec_u64(n), int: value })
}

/// A text in JSON, where there is one.
pub open spec fn text_json(text: Option<Seq<char>>) -> JsonView {
    match text {
        Some(t) => JsonView::Str(t),
        None => JsonView::Null,
    }
}

fn opt_text_json(text: Option<&str>) -> (r: Json)
    ensures
        r@ == text_json(json::str_view(text)),
{
    match text {
        Some(t) => Json::from_text(t),
        None => Json::Null,
    }
}

/// A member of a group in JSON.
pub open spec fn member_json(m: MemberView) -> JsonView {
    JsonView::Object(
        seq![
            ("group_id"@, number_json(m.group_id as int)),
            ("user_id"@, number_json(m.user_id as int)),
            ("display_name"@, JsonView::Str(m.display_name)),
            ("last_seen"@, number_json(m.last_seen as int)),
        ],
    )
}

fn write_member(m: &GroupMember) -> (r: Json)
    ensures
        r@ == member_json(m@),
{
    let mut entries: Vec<(String, Json)> = Vec::new();
    entries.push(("group_id".to_owned(), Json::from_i64(m.group_id)));
    entries.push(("user_id".to_owned(), Json::from_i64(m.user_id)));
    entries.push(("display_name".to_owned(), Json::from_text(&m.display_name)));
    entries.push(("last_seen".to_owned(), u64_json(m.last_seen)));
    proof {
        json::lemma_entry_views(entries@);
        assert(json::entry_views_of(entries@) =~= seq![
            ("group_id"@, number_json(m.group_id as int)),
            ("user_id"@, number_json(m.user_id as int)),
            ("display_name"@, JsonView::Str(m.display_name@)),
            ("last_seen"@, number_json(m.last_seen as int)),
        ]);
    }
    Json::Object(entries)
}

/// A group in JSON.
pub open spec fn group_json(g: EntryView) -> JsonView {
    JsonView::Object(
        seq![
            ("group_id"@, number_json(g.group_id as int)),
            ("title"@, text_json(g.title)),
            ("last_active"@, number_json(g.last_active as int)),
            (
                "members"@,
                JsonView::Array(g.members.map_values(|m: MemberView| member_json(m))),
            ),
        ],
    )
}

fn write_group(g: &GroupDirectoryEntry) -> (r: Json)
    ensures
        r@ == group_json(g@),
{
    let mut members: Vec<Json> = Vec::new();
    let ghost all = g@.members.map_values(|m: MemberView| member_json(m));
    let mut i: usize = 0;
    while i < g.members.len()
        invariant
            i <= g.members@.len(),
            members@.len() == i,
            forall|k: int| 0 <= k < i ==> (#[trigger] members@[k])@ == member_json(g.members@[k]@),
        decreases g.members@.len() - i,
    {
        members.push(write_member(&g.members[i]));
        i += 1;
    }
    proof {
        json::lemma_views(members@);
        assert(json::views_of(members@) =~= all);
    }
    let title = match &g.title {
        Some(t) => Some(t.as_str()),
        None => None,
    };
    let mut entries: Vec<(String, Json)> = Vec::new();
    entries.push(("group_id".to_owned(), Json::from_i64(g.group_id)));
    entries.push(("title".to_owned(), opt_text_json(title)));
    entries.push(("last_active".to_owned(), u64_json(g.last_active)));
    entries.push(("members".to_owned(), Json::Array(members)));
    proof {
        json::lemma_entry_views(entries@);
        assert(json::entry_views_of(entries@) =~= seq![
            ("group_id"@, number_json(g.group_id as int)),
            ("title"@, text_json(g@.title)),
            ("last_active"@, number_json(g.last_active as int)),
            ("members"@, JsonView::Array(all)),
        ]);
    }
    Json::Object(entries)
}

/// The answer that lists the groups.
pub open spec fn groups_json(
    connected: bool,
    readme_path: Option<Seq<char>>,
    groups: Seq<EntryView>,
) -> JsonView {
    JsonView::Object(
        seq![
            ("status"@, JsonView::Str("ok"@)),
            ("onebot_connected"@, JsonView::Bool(connected)),
            ("readme_path"@, text_json(readme_path)),
            ("groups"@, JsonView::Array(groups.map_values(|g: EntryView| group_json(g)))),
        ],
    )
}

/// The models of groups.
pub open spec fn group_views(v: Seq<GroupDirectoryEntry>) -> Seq<EntryView> {
    v.map_values(|g: GroupDirectoryEntry| g@)
}

fn write_groups(connected: bool, readme_path: Option<&str>, groups: &Vec<GroupDirectoryEntry>) -> (r:
    Json)
    ensures
        r@ == groups_json(connected, json::str_view(readme_path), group_views(groups@)),
{
    let mut list: Vec<Json> = Vec::new();
    let ghost all = group_views(groups@).map_values(|g: EntryView| group_json(g));
    let mut i: usize = 0;
    while i < groups.len()
        invariant
            i <= groups@.len(),
            list@.len() == i,
            forall|k: int| 0 <= k < i ==> (#[trigger] list@[k])@ == group_json(groups@[k]@),
        decreases groups@.len() - i,
    {
        list.push(write_group(&groups[i]));
        i += 1;
    }
    proof {
        json::lemma_views(list@);
        assert(json::views_of(list@) =~= all);
    }
    let mut entries: Vec<(String, Json)> = Vec::new();
    entries.push(("status".to_owned(), Json::from_text("ok")));
    entries.push(("onebot_connected".to_owned(), Json::Bool(connected)));
    entries.push(("readme_path".to_owned(), opt_text_json(readme_path)));
    entries.push(("groups".to_owned(), Json::Array(list)));
    proof {
        json::lemma_entry_views(entries@);
        assert(json::entry_views_of(entries@) =~= seq![
            ("status"@, JsonView::Str("ok"@)),
            ("onebot_connected"@, JsonView::Bool(connected)),
            ("readme_path"@, text_json(json::str_view(readme_path))),
            ("groups"@, JsonView::Array(all)),
        ]);
    }
    Json::Object(entries)
}

/// Refuses a command that may not be given.
pub fn refuse_command(
    access_token: Option<&str>,
    auth_header: Option<&str>,
    query: &TextMap<String>,
    remote: Option<RemoteAddr>,
) -> (r: Option<JsonResponse>)
    ensures
        match r {
            Some(refusal) => !auth::may_command(
                json::str_view(access_token),
                json::str_view(auth_header),
                query@,
                remote,
            ) && is_error(refusal, 401, "unauthorized"@),
            None => auth::may_command(
                json::str_view(access_token),
                json::str_view(auth_header),
                query@,
                remote,
            ),
        },
{
    if auth::is_http_command_authorized(access_token, auth_header, query, remote) {
        None
    } else {
        Some(json_error("unauthorized", 401))
    }
}

/// The answer to the command that asks for the groups, once it is not refused.
pub fn list_groups_handler(
    groups: Result<Vec<GroupDirectoryEntry>, String>,
    connected: bool,
    readme_path: Option<&str>,
) -> (r: JsonResponse)
    ensures
        match groups {
            Ok(list) => r.status == 200 && r.body@ == groups_json(
                connected,
                json::str_view(readme_path),
                group_views(list@),
            ),
            Err(e) => is_error(r, 500, e@),
        },
{
    match groups {
        Ok(list) => JsonResponse::new(200, write_groups(connected, readme_path, &list)),
        Err(e) => json_error(&e, 500),
    }
}

/// What the sending of a message waits for.
#[derive(Clone, Copy, PartialEq, Eq, Structural)]
pub enum SendStage {
    LookUp,
    Send,
    Record,
    Register,
    Done,
}

/// What is to be done next to send a message.
pub enum SendAction {
    /// Look up the thread of the session.
    LookUp(String),
    Send(Outgoing),
    /// Record what was sent in the history of the group.
    Record { group_id: i64, text: String, message_id: Option<i64> },
    /// Take note of what was sent, so that it is not forwarded again.
    Register { thread_id: String, text: String },
    Respond(JsonResponse),
    /// Nothing: the outcome was not waited for.
    Nothing,
}

/// How the last thing done went.
pub enum SendOutcome {
    Done,
    /// The thread of the session, if it has one.
    Thread(Result<Option<String>, String>),
    /// The id of the message that was sent, if it has one.
    Sent(Result<Option<i64>, String>),
}

/// The model of what is to be done next.
pub enum SendActionView {
    LookUp(Seq<char>),
    Send(OutgoingView),
    Record(int, Seq<char>, Option<int>),
    Register(Seq<char>, Seq<char>),
    Respond(u16, JsonView),
    Nothing,
}

impl View for SendAction {
    type V = SendActionView;

    open spec fn view(&self) -> SendActionView {
        match *self {
            SendAction::LookUp(key) => SendActionView::LookUp(key@),
            SendAction::Send(o) => SendActionView::Send(o@),
            SendAction::Record { group_id, text, message_id } => SendActionView::Record(
                group_id as int,
                text@,
                json::int_view(message_id),
            ),
            SendAction::Register { thread_id, text } => SendActionView::Register(
                thread_id@,
                text@,
            ),
            SendAction::Respond(r) => SendActionView::Respond(r.status, r.body@),
            SendAction::Nothing => SendActionView::Nothing,
        }
    }
}

/// How far the sending of a message has come.
#[verifier::ext_equal]
pub struct SendView {
    pub target_type: Seq<char>,
    pub target_id: int,
    pub message: Seq<char>,
    pub reply_to: Option<Seq<char>>,
    pub at_user: Option<Seq<char>>,
    pub stage: SendStage,
    pub thread_id: Option<Seq<char>>,
    pub message_ids: Seq<int>,
    pub sent: nat,
}

/// What is done next, and how far the sending has come then.
pub type SendNext = (SendView, SendActionView);

/// The answer that tells of an error.
pub open spec fn error_answer(status: u16, message: Seq<char>) -> SendActionView {
    SendActionView::Respond(status, two_texts("status"@, "error"@, "error"@, message))
}

/// The end of the sending.
pub open spec fn answered(s: SendView, answer: SendActionView) -> SendNext {
    (SendView { stage: SendStage::Done, ..s }, answer)
}

/// The texts that a message is sent in.
pub open spec fn message_chunks(s: SendView) -> Seq<Seq<char>> {
    split::split_into(s.message, split::QQ_MSG_LIMIT as nat)
}

/// One of the messages: the first one replies, where that is wished.
pub open spec fn chunk_message(s: SendView, i: int) -> OutgoingView {
    if i == 0 && s.reply_to is Some {
        OutgoingView {
            text: message_chunks(s)[i],
            reply_to: s.reply_to,
            at_user: s.at_user,
            is_reply: true,
        }
    } else {
        run::plain_message(message_chunks(s)[i], true)
    }
}

/// The answer once all is sent.
pub open spec fn sent_json(s: SendView) -> JsonView {
    JsonView::Object(
        seq![
            ("status"@, JsonView::Str("ok"@)),
            ("target_type"@, JsonView::Str(s.target_type)),
            ("target_id"@, number_json(s.target_id)),
            (
                "message_ids"@,
                JsonView::Array(s.message_ids.map_values(|id: int| number_json(id))),
            ),
        ],
    )
}

/// The next message to be sent. Where all are, that is noted and answered.
pub open spec fn sending(s: SendView) -> SendNext {
    if s.sent < message_chunks(s).len() {
        (
            SendView { stage: SendStage::Send, ..s },
            SendActionView::Send(chunk_message(s, s.sent as int)),
        )
    } else {
        match s.thread_id {
            Some(thread_id) => (
                SendView { stage: SendStage::Register, ..s },
                SendActionView::Register(thread_id, s.message),
            ),
            None => answered(s, SendActionView::Respond(200, sent_json(s))),
        }
    }
}

/// The start of the sending: a blank message is refused, and so is one while no OneBot client is
/// connected.
pub open spec fn begun(s: SendView, connected: bool) -> SendNext {
    if s.message.len() == 0 {
        answered(s, error_answer(400, "message must not be empty"@))
    } else if !connected {
        answered(s, error_answer(503, "no active OneBot reverse WebSocket connection"@))
    } else {
        (
            SendView { stage: SendStage::LookUp, ..s },
            SendActionView::LookUp(sessions::session_key(s.target_type, s.target_id)),
        )
    }
}

/// What is done once it is known how the last thing done went.
pub open spec fn progressed(s: SendView, outcome: SendOutcome) -> SendNext {
    match (s.stage, outcome) {
        (SendStage::LookUp, SendOutcome::Thread(Err(e))) => answered(
            s,
            error_answer(500, "failed to resolve bridge thread mapping: "@ + e@),
        ),
        (SendStage::LookUp, SendOutcome::Thread(Ok(thread_id))) => sending(
            SendView { thread_id: json::text_view(thread_id), ..s },
        ),
        (SendStage::Send, SendOutcome::Sent(Err(e))) => answered(s, error_answer(502, e@)),
        (SendStage::Send, SendOutcome::Sent(Ok(message_id))) => {
            let t = SendView {
                message_ids: match message_id {
                    Some(id) => s.message_ids.push(id as int),
                    None => s.message_ids,
                },
                ..s
            };
            if s.target_type == "group"@ {
                (
                    SendView { stage: SendStage::Record, ..t },
                    SendActionView::Record(
                        s.target_id,
                        message_chunks(s)[s.sent as int],
                        json::int_view(message_id),
                    ),
                )
            } else {
                sending(SendView { sent: s.sent + 1, ..t })
            }
        },
        (SendStage::Record, SendOutcome::Done) => sending(SendView { sent: s.sent + 1, ..s }),
        (SendStage::Register, SendOutcome::Done) => answered(
            s,
            SendActionView::Respond(200, sent_json(s)),
        ),
        _ => (s, SendActionView::Nothing),
    }
}

/// The sending of a message to a chat.
pub struct SendRun {
    target_type: &'static str,
    target_id: i64,
    message: String,
    reply_to: Option<String>,
    at_user: Option<String>,
    stage: SendStage,
    thread_id: Option<String>,
    message_ids: Vec<i64>,
    chunks: Vec<String>,
    sent: usize,
}

/// The values of ids.
pub open spec fn id_values(ids: Seq<i64>) -> Seq<int> {
    ids.map_values(|id: i64| id as int)
}

impl View for SendRun {
    type V = SendView;

    closed spec fn view(&self) -> SendView {
        SendView {
            target_type: self.target_type@,
            target_id: self.target_id as int,
            message: self.message@,
            reply_to: json::text_view(self.reply_to),
            at_user: json::text_view(self.at_user),
            stage: self.stage,
            thread_id: json::text_view(self.thread_id),
            message_ids: id_values(self.message_ids@),
            sent: self.sent as nat,
        }
    }
}

fn copy_text(o: &Option<String>) -> (r: Option<String>)
    ensures
        json::text_view(r) == json::text_view(*o),
{
    match o {
        Some(s) => Some(s.clone()),
        None => None,
    }
}

impl SendRun {
    #[verifier::type_invariant]
    spec fn is_sound(self) -> bool {
        &&& model::texts(self.chunks@) == split::split_into(
            self.message@,
            split::QQ_MSG_LIMIT as nat,
        )
        &&& self.sent <= self.chunks@.len()
        &&& (self.stage is Send || self.stage is Record) ==> self.sent < self.chunks@.len()
    }

    /// Begins to send a message, once the command is not refused. `connected` tells whether a
    /// OneBot client is connected.
    pub fn begin(
        target_type: &'static str,
        target_id: i64,
        request: SendMessageRequest,
        connected: bool,
    ) -> (r: (SendRun, SendAction))
        ensures
            (r.0@, r.1@) == begun(
                SendView {
                    target_type: target_type@,
                    target_id: target_id as int,
                    message: model::trimmed(request.message@),
                    reply_to: json::text_view(request.reply_to_id),
                    at_user: json::text_view(request.at_user_id),
                    stage: SendStage::Done,
                    thread_id: None,
                    message_ids: seq![],
                    sent: 0,
                },
                connected,
            ),
    {
        let message = ops::trim(&request.message).to_owned();
        let chunks = split::split_text(&message, split::QQ_MSG_LIMIT);
        let empty = message.as_str().is_empty();
        let run = SendRun {
            target_type,
            target_id,
            message,
            reply_to: request.reply_to_id,
            at_user: request.at_user_id,
            stage: SendStage::Done,
            thread_id: None,
            message_ids: Vec::new(),
            chunks,
            sent: 0,
        };
        assert(run@.message_ids =~= seq![]);
        if empty {
            return run.answer(json_error("message must not be empty", 400));
        }
        if !connected {
            return run.answer(json_error("no active OneBot reverse WebSocket connection", 503));
        }
        let key = target_type.to_owned().concat(":").concat(&number::dec_i64(target_id));
        (SendRun { stage: SendStage::LookUp, ..run }, SendAction::LookUp(key))
    }

    fn answer(self, response: JsonResponse) -> (r: (SendRun, SendAction))
        ensures
            (r.0@, r.1@) == answered(
                self@,
                SendActionView::Respond(response.status, response.body@),
            ),
    {
        proof {
            use_type_invariant(&self);
        }
        (SendRun { stage: SendStage::Done, ..self }, SendAction::Respond(response))
    }

    fn report(&self) -> (r: JsonResponse)
        ensures
            r.status == 200,
            r.body@ == sent_json(self@),
    {
        let mut ids: Vec<Json> = Vec::new();
        let ghost all = self@.message_ids.map_values(|id: int| number_json(id));
        let mut i: usize = 0;
        while i < self.message_ids.len()
            invariant
                i <= self.message_ids@.len(),
                ids@.len() == i,
                forall|k: int|
                    0 <= k < i ==> (#[trigger] ids@[k])@ == number_json(
                        self.message_ids@[k] as int,
                    ),
            decreases self.message_ids@.len() - i,
        {
            ids.push(Json::from_i64(self.message_ids[i]));
            i += 1;
        }
        proof {
            json::lemma_views(ids@);
            assert(json::views_of(ids@) =~= all);
        }
        let mut entries: Vec<(String, Json)> = Vec::new();
        entries.push(("status".to_owned(), Json::from_text("ok")));
        entries.push(("target_type".to_owned(), Json::from_text(self.target_type)));
        entries.push(("target_id".to_owned(), Json::from_i64(self.target_id)));
        entries.push(("message_ids".to_owned(), Json::Array(ids)));
        proof {
            json::lemma_entry_views(entries@);
            assert(json::entry_views_of(entries@) =~= seq![
                ("status"@, JsonView::Str("ok"@)),
                ("target_type"@, JsonView::Str(self@.target_type)),
                ("target_id"@, number_json(self@.target_id)),
                ("message_ids"@, JsonView::Array(all)),
            ]);
        }
        JsonResponse::new(200, Json::Object(entries))
    }

    fn send_from(self, sent: usize) -> (r: (SendRun, SendAction))
        requires
            sent <= message_chunks(self@).len(),
        ensures
            (r.0@, r.1@) == sending(SendView { sent: sent as nat, ..self@ }),
    {
        proof {
            use_type_invariant(&self);
            assert(model::texts(self.chunks@).len() == self.chunks@.len());
        }
        let run = SendRun { stage: SendStage::Done, sent, ..self };
        if sent < run.chunks.len() {
            assert(model::texts(run.chunks@)[sent as int] == run.chunks@[sent as int]@);
            let text = run.chunks[sent].clone();
            let next = if sent == 0 && run.reply_to.is_some() {
                Outgoing {
                    text,
                    reply_to: copy_text(&run.reply_to),
                    at_user: copy_text(&run.at_user),
                    is_reply: true,
                }
            } else {
                Outgoing { text, reply_to: None, at_user: None, is_reply: true }
            };
            (SendRun { stage: SendStage::Send, ..run }, SendAction::Send(next))
        } else {
            match copy_text(&run.thread_id) {
                Some(thread_id) => {
                    let text = run.message.clone();
                    (
                        SendRun { stage: SendStage::Register, ..run },
                        SendAction::Register { thread_id, text },
                    )
                },
                None => {
                    let report = run.report();
                    run.answer(report)
                },
            }
        }
    }

    fn note_sent(self, message_id: Option<i64>) -> (r: (SendRun, SendAction))
        requires
            self@.stage is Send,
        ensures
            (r.0@, r.1@) == progressed(self@, SendOutcome::Sent(Ok(message_id))),
    {
        proof {
            use_type_invariant(&self);
            assert(model::texts(self.chunks@).len() == self.chunks@.len());
        }
        let sent = self.sent;
        let target_id = self.target_id;
        let in_group = ops::same(self.target_type, "group");
        assert(model::texts(self.chunks@)[sent as int] == self.chunks@[sent as int]@);
        let text = self.chunks[sent].clone();
        let ghost before = self@;
        let mut message_ids = self.message_ids;
        let ghost ids = message_ids@;
        if let Some(id) = message_id {
            message_ids.push(id);
            assert(id_values(message_ids@) =~= id_values(ids).push(id as int));
        }
        let run = SendRun {
            target_type: self.target_type,
            target_id: self.target_id,
            message: self.message,
            reply_to: self.reply_to,
            at_user: self.at_user,
            stage: self.stage,
            thread_id: self.thread_id,
            message_ids,
            chunks: self.chunks,
            sent: self.sent,
        };
        if in_group {
            (
                SendRun { stage: SendStage::Record, ..run },
                SendAction::Record { group_id: target_id, text, message_id },
            )
        } else {
            assert(sent < run.chunks.len());
            run.send_from(sent + 1)
        }
    }

    /// Says what is done next, given how the last thing done went.
    pub fn progress(self, outcome: SendOutcome) -> (r: (SendRun, SendAction))
        ensures
            (r.0@, r.1@) == progressed(self@, outcome),
    {
        proof {
            use_type_invariant(&self);
            assert(model::texts(self.chunks@).len() == self.chunks@.len());
        }
        match (self.stage, outcome) {
            (SendStage::LookUp, SendOutcome::Thread(Err(e))) => self.answer(
                json_error(
                    &"failed to resolve bridge thread mapping: ".to_owned().concat(&e),
                    500,
                ),
            ),
            (SendStage::LookUp, SendOutcome::Thread(Ok(thread_id))) => {
                let sent = self.sent;
                let run = SendRun { thread_id, ..self };
                assert((SendView { sent: sent as nat, ..run@ }) =~= run@);
                run.send_from(sent)
            },
            (SendStage::Send, SendOutcome::Sent(Err(e))) => self.answer(json_error(&e, 502)),
            (SendStage::Send, SendOutcome::Sent(Ok(message_id))) => self.note_sent(message_id),
            (SendStage::Record, SendOutcome::Done) => {
                assert(self.sent < self.chunks.len());
                let sent: usize = self.sent + 1;
                self.send_from(sent)
            },
            (SendStage::Register, SendOutcome::Done) => {
                let report = self.report();
                self.answer(report)
            },
            _ => (self, SendAction::Nothing),
        }
    }
}

/// Whether a sending can go on: a message is left to be sent while one is being sent.
pub open spec fn is_in_bounds(s: SendView) -> bool {
    (s.stage is Send || s.stage is Record) ==> s.sent < message_chunks(s).len()
}

/// How far a sending is from its end.
pub open spec fn distance(s: SendView) -> int {
    let unsent = 2 * (message_chunks(s).len() - s.sent);
    match s.stage {
        SendStage::LookUp => 2 * message_chunks(s).len() as int + 4,
        SendStage::Send => unsent + 3,
        SendStage::Record => unsent + 2,
        SendStage::Register => 1,
        SendStage::Done => 0,
    }
}

/// Every sending comes to its end: each outcome that is waited for brings it nearer. At its end
/// it is answered, once.
pub proof fn law_sending_is_answered(s: SendView, outcome: SendOutcome)
    requires
        is_in_bounds(s),
    ensures
        is_in_bounds(progressed(s, outcome).0),
        progressed(s, outcome).1 is Nothing || 0 <= distance(progressed(s, outcome).0) < distance(
            s,
        ),
        progressed(s, outcome).1 is Respond <==> s.stage !is Done && progressed(
            s,
            outcome,
        ).0.stage is Done,
        s.stage is Done ==> progressed(s, outcome) == (s, SendActionView::Nothing),
{
}

fn handle_send(
    target_type: &'static str,
    target_id: i64,
    body: SendMessageRequest,
    access_token: Option<&str>,
    auth_header: Option<&str>,
    query: &TextMap<String>,
    remote: Option<RemoteAddr>,
    connected: bool,
) -> (r: Result<(SendRun, SendAction), JsonResponse>)
    ensures
        is_handled(
            r,
            target_type@,
            target_id as int,
            body,
            auth::may_command(
                json::str_view(access_token),
                json::str_view(auth_header),
                query@,
                remote,
            ),
            connected,
        ),
{
    match refuse_command(access_token, auth_header, query, remote) {
        Some(refusal) => Err(refusal),
        None => Ok(SendRun::begin(target_type, target_id, body, connected)),
    }
}

/// Whether a command to send a message is refused where it may not be given, and else begun.
pub open spec fn is_handled(
    r: Result<(SendRun, SendAction), JsonResponse>,
    target_type: Seq<char>,
    target_id: int,
    body: SendMessageRequest,
    allowed: bool,
    connected: bool,
) -> bool {
    match r {
        Ok((run, action)) => allowed && (run@, action@) == begun(
            SendView {
                target_type,
                target_id,
                message: model::trimmed(body.message@),
                reply_to: json::text_view(body.reply_to_id),
                at_user: json::text_view(body.at_user_id),
                stage: SendStage::Done,
                thread_id: None,
                message_ids: seq![],
                sent: 0,
            },
            connected,
        ),
        Err(refusal) => !allowed && is_error(refusal, 401, "unauthorized"@),
    }
}

/// Handles the command to send a message to a group.
pub fn send_group_message_handler(
    group_id: i64,
    body: SendMessageRequest,
    access_token: Option<&str>,
    auth_header: Option<&str>,
    query: &TextMap<String>,
    remote: Option<RemoteAddr>,
    connected: bool,
) -> (r: Result<(SendRun, SendAction), JsonResponse>)
    ensures
        is_handled(
            r,
            "group"@,
            group_id as int,
            body,
            auth::may_command(
                json::str_view(access_token),
                json::str_view(auth_header),
                query@,
                remote,
            ),
            connected,
        ),
{
    handle_send("group", group_id, body, access_token, auth_header, query, remote, connected)
}

/// Handles the command to send a message to a user.
pub fn send_private_message_handler(
    user_id: i64,
    body: SendMessageRequest,
    access_token: Option<&str>,
    auth_header: Option<&str>,
    query: &TextMap<String>,
    remote: Option<RemoteAddr>,
    connected: bool,
) -> (r: Result<(SendRun, SendAction), JsonResponse>)
    ensures
        is_handled(
            r,
            "private"@,
            user_id as int,
            body,
            auth::may_command(
                json::str_view(access_token),
                json::str_view(auth_header),
                query@,
                remote,
            ),
            connected,
        ),
{
    handle_send("private", user_id, body, access_token, auth_header, query, remote, connected)
}

} // verus!
