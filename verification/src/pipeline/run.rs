//! How one message is brought to Alma and the reply back: what is done next, given how the
//! last thing done went.
use super::media;
use super::media::{Download, DownloadView};
use super::message;
use super::split;
use crate::alma_ws::visible_text;
use crate::json;
use crate::json::{Json, JsonView};
use crate::onebot::api::QuotedMessage;
use crate::onebot::event;
use crate::onebot::event::{OneBotEvent, Part};
use crate::state::sessions;
use crate::text::model;
use crate::text::number;
use crate::text::ops;
use vstd::prelude::*;
use vstd::string::*;

verus! {

/// What is sent where Alma cannot answer.
pub const ALMA_ERROR_REPLY: &'static str = "抱歉，我暂时无法回复 >_<";

/// The settings that a run goes by.
pub struct RunSettings {
    /// What is sent before Alma begins to write, if anything is.
    pub thinking_message: Option<String>,
    /// Whether the thoughts of Alma are sent too.
    pub show_thinking: bool,
    /// The model of a new thread, where none is chosen.
    pub fallback_model: String,
    pub max_retries: u32,
    pub retry_delay_ms: u64,
}

/// What a run waits for.
#[derive(Clone, Copy, PartialEq, Eq, Structural)]
pub enum Stage {
    Title,
    Record,
    Quote,
    Forward,
    Profile,
    Thread,
    Client,
    Refusal,
    Prepare,
    Notice,
    Pause,
    Connect,
    Generate,
    Deliver,
    Remember,
    Done,
}

/// A message to be sent to the chat.
pub struct Outgoing {
    pub text: String,
    /// The message that it replies to.
    pub reply_to: Option<String>,
    /// The user that it mentions.
    pub at_user: Option<String>,
    /// Whether it is a part of the reply, and not of Alma's thoughts.
    pub is_reply: bool,
}

/// The model of a message to be sent to the chat.
pub struct OutgoingView {
    pub text: Seq<char>,
    pub reply_to: Option<Seq<char>>,
    pub at_user: Option<Seq<char>>,
    pub is_reply: bool,
}

impl View for Outgoing {
    type V = OutgoingView;

    open spec fn view(&self) -> OutgoingView {
        OutgoingView {
            text: self.text@,
            reply_to: json::text_view(self.reply_to),
            at_user: json::text_view(self.at_user),
            is_reply: self.is_reply,
        }
    }
}

/// The models of messages to be sent.
pub open spec fn outgoing_views(v: Seq<Outgoing>) -> Seq<OutgoingView> {
    v.map_values(|o: Outgoing| o@)
}

/// What Alma is asked to write.
pub struct GenerationRequest {
    pub thread_id: String,
    pub model: Option<String>,
    pub message: String,
    pub file_parts: Vec<Json>,
    pub source: &'static str,
    pub ephemeral_context: String,
}

/// The model of what Alma is asked to write.
pub struct RequestView {
    pub thread_id: Seq<char>,
    pub model: Option<Seq<char>>,
    pub message: Seq<char>,
    pub file_parts: Seq<JsonView>,
    pub source: Seq<char>,
    pub ephemeral_context: Seq<char>,
}

impl View for GenerationRequest {
    type V = RequestView;

    open spec fn view(&self) -> RequestView {
        RequestView {
            thread_id: self.thread_id@,
            model: json::text_view(self.model),
            message: self.message@,
            file_parts: json::views_of(self.file_parts@),
            source: self.source@,
            ephemeral_context: self.ephemeral_context@,
        }
    }
}

/// What is to be done next.
pub enum Action {
    /// Find the title of the group.
    FindTitle(i64),
    /// Record the message in the history of its group.
    Record { title: Option<String>, text: String },
    /// Fetch the message that is replied to.
    FetchQuoted(String),
    /// Fetch the forwarded messages.
    FetchForward(String),
    /// See that the sender has a profile.
    EnsureProfile,
    /// Find or make the thread of the session.
    ResolveThread(String),
    /// See that there is a client of Alma.
    Connect,
    /// Download the files, and gather what Alma is told beside the message.
    Prepare(Vec<Download>),
    /// Send a text that is no reply.
    Say(String),
    /// Wait for some milliseconds.
    Wait(u64),
    /// Have Alma write.
    Generate(GenerationRequest),
    /// Send a message.
    Deliver(Outgoing),
    /// Take note of a reply that was sent, under the id of its message if it has one; and in a
    /// group record it in the group's history.
    Remember { thread_id: String, text: String, message_id: Option<i64>, group: Option<i64> },
    /// The run is at its end.
    Finish(Result<(), String>),
    /// Nothing: the outcome was not waited for.
    Nothing,
}

/// The model of what is to be done next.
pub enum ActionView {
    FindTitle(int),
    Record(Option<Seq<char>>, Seq<char>),
    FetchQuoted(Seq<char>),
    FetchForward(Seq<char>),
    EnsureProfile,
    ResolveThread(Seq<char>),
    Connect,
    Prepare(Seq<DownloadView>),
    Say(Seq<char>),
    Wait(nat),
    Generate(RequestView),
    Deliver(OutgoingView),
    Remember(Seq<char>, Seq<char>, Option<int>, Option<int>),
    Finish(Result<(), Seq<char>>),
    Nothing,
}

impl View for Action {
    type V = ActionView;

    open spec fn view(&self) -> ActionView {
        match *self {
            Action::FindTitle(id) => ActionView::FindTitle(id as int),
            Action::Record { title, text } => ActionView::Record(json::text_view(title), text@),
            Action::FetchQuoted(id) => ActionView::FetchQuoted(id@),
            Action::FetchForward(id) => ActionView::FetchForward(id@),
            Action::EnsureProfile => ActionView::EnsureProfile,
            Action::ResolveThread(key) => ActionView::ResolveThread(key@),
            Action::Connect => ActionView::Connect,
            Action::Prepare(downloads) => ActionView::Prepare(media::download_views(downloads@)),
            Action::Say(text) => ActionView::Say(text@),
            Action::Wait(ms) => ActionView::Wait(ms as nat),
            Action::Generate(request) => ActionView::Generate(request@),
            Action::Deliver(out) => ActionView::Deliver(out@),
            Action::Remember { thread_id, text, message_id, group } => ActionView::Remember(
                thread_id@,
                text@,
                json::int_view(message_id),
                json::int_view(group),
            ),
            Action::Finish(Ok(_)) => ActionView::Finish(Ok(())),
            Action::Finish(Err(e)) => ActionView::Finish(Err(e@)),
            Action::Nothing => ActionView::Nothing,
        }
    }
}

/// How the last thing done went.
pub enum Outcome {
    /// It is done, or could not be done and is let be.
    Done,
    /// The title of the group, if it has one.
    Title(Option<String>),
    /// The message that is replied to, if it could be had.
    Quoted(Option<QuotedMessage>),
    /// The forwarded messages, if they could be had.
    Forwarded(Option<Vec<(String, String)>>),
    /// The thread of the session, and whether it was there before.
    Thread(Result<(String, bool), String>),
    Connected(Result<(), String>),
    /// The model that is set for new threads, the files, and what Alma is told beside the
    /// message.
    Prepared { default_model: Option<String>, file_parts: Vec<Json>, ephemeral_context: String },
    /// What Alma wrote, and what it thought.
    Generated(Result<(String, Option<String>), String>),
    /// The id of the message that was sent, if it has one.
    Delivered(Result<Option<i64>, String>),
}

/// How far a run has come.
#[verifier::ext_equal]
pub struct RunView {
    pub stage: Stage,
    pub title: Option<Seq<char>>,
    pub reply_context: Option<Seq<char>>,
    pub to_bot: bool,
    pub quoted_images: Seq<Seq<char>>,
    pub forward_context: Option<Seq<char>>,
    pub thread_id: Seq<char>,
    pub existing: bool,
    pub failure: Seq<char>,
    pub model: Option<Seq<char>>,
    pub file_parts: Seq<JsonView>,
    pub ephemeral_context: Seq<char>,
    pub attempt: nat,
    pub queue: Seq<OutgoingView>,
    pub sent: nat,
}

/// What a run does next, and how far it has come then.
pub type Next = (RunView, ActionView);

/// The run with nothing known yet.
pub open spec fn unstarted() -> RunView {
    RunView {
        stage: Stage::Done,
        title: None,
        reply_context: None,
        to_bot: false,
        quoted_images: seq![],
        forward_context: None,
        thread_id: seq![],
        existing: false,
        failure: seq![],
        model: None,
        file_parts: seq![],
        ephemeral_context: seq![],
        attempt: 0,
        queue: seq![],
        sent: 0,
    }
}

/// The end of a run.
pub open spec fn finished(s: RunView, r: Result<(), Seq<char>>) -> Next {
    (RunView { stage: Stage::Done, ..s }, ActionView::Finish(r))
}

/// The start of a run. A message that is not looked at ends it.
pub open spec fn started(e: OneBotEvent) -> Next {
    match message::looked_at(e) {
        Err(m) => finished(unstarted(), Err(m)),
        Ok(false) => finished(unstarted(), Ok(())),
        Ok(true) => if message::in_group(e) {
            (
                RunView { stage: Stage::Title, ..unstarted() },
                ActionView::FindTitle(message::group_of(e)),
            )
        } else {
            with_id(e, unstarted())
        },
    }
}

/// What is recorded of a message.
pub open spec fn recorded_text(e: OneBotEvent) -> Seq<char> {
    super::context::observed_text(message::text_of(e), message::media_lines_of(e))
}

/// What is done once the title of the group is known: the message is recorded.
pub open spec fn titled(e: OneBotEvent, s: RunView, title: Option<Seq<char>>) -> Next {
    let s = RunView { title, ..s };
    if recorded_text(e).len() > 0 {
        (RunView { stage: Stage::Record, ..s }, ActionView::Record(title, recorded_text(e)))
    } else {
        with_id(e, s)
    }
}

/// What is done once the message is recorded: the message that it replies to is fetched. A
/// message without an id ends the run.
pub open spec fn with_id(e: OneBotEvent, s: RunView) -> Next {
    if e.message_id is None {
        finished(s, Err("OneBot message event missing message_id"@))
    } else {
        match event::reply_id(message::segments_of(e)) {
            Some(id) => (RunView { stage: Stage::Quote, ..s }, ActionView::FetchQuoted(id)),
            None => decided(e, s),
        }
    }
}

/// What is known once the message that is replied to was fetched, or could not be had.
pub open spec fn quoting(e: OneBotEvent, s: RunView, quoted: Option<QuotedMessage>) -> RunView {
    match quoted {
        Some(q) => {
            let to_bot = q.sender_id == Some(e.self_id);
            RunView {
                reply_context: Some(message::reply_words(to_bot, q.sender_name@, q.text@)),
                to_bot,
                quoted_images: model::texts(q.image_urls@),
                ..s
            }
        },
        None => s,
    }
}

/// What is done once it is known what the message replies to: one that is not meant for the bot
/// ends the run.
pub open spec fn decided(e: OneBotEvent, s: RunView) -> Next {
    if !message::answered(e) {
        finished(s, Ok(()))
    } else {
        match event::forward_id_from(message::segments_of(e), 0) {
            Some(id) => (RunView { stage: Stage::Forward, ..s }, ActionView::FetchForward(id)),
            None => (RunView { stage: Stage::Profile, ..s }, ActionView::EnsureProfile),
        }
    }
}

/// The session that a message belongs to.
pub open spec fn session_of(e: OneBotEvent) -> Seq<char> {
    if message::in_group(e) {
        sessions::session_key("group"@, message::group_of(e))
    } else {
        sessions::session_key("private"@, message::user_of(e))
    }
}

/// What is downloaded for a message.
pub open spec fn files_for(e: OneBotEvent, s: RunView) -> Seq<DownloadView> {
    media::downloads_for(
        event::parts_of(message::segments_of(e), Part::Image),
        s.quoted_images,
        message::segments_of(e),
    )
}

/// What Alma is asked to write.
pub open spec fn request_for(e: OneBotEvent, s: RunView) -> RequestView {
    RequestView {
        thread_id: s.thread_id,
        model: s.model,
        message: message::outgoing_text(
            e,
            json::int_view(e.message_id)->0,
            s.forward_context,
            s.reply_context,
        ),
        file_parts: s.file_parts,
        source: if message::in_group(e) {
            "telegram-group"@
        } else {
            "telegram"@
        },
        ephemeral_context: s.ephemeral_context,
    }
}

/// The next attempt to have Alma write: after a failed one there is a pause. Where there were
/// enough attempts, the error is told.
pub open spec fn attempted(e: OneBotEvent, set: RunSettings, s: RunView) -> Next {
    if s.attempt > set.max_retries {
        replied(e, set, s, ALMA_ERROR_REPLY@, None)
    } else if s.attempt == 0 {
        (RunView { stage: Stage::Connect, ..s }, ActionView::Connect)
    } else {
        (
            RunView { stage: Stage::Pause, ..s },
            ActionView::Wait(split::retry_delay(set.retry_delay_ms as nat, s.attempt)),
        )
    }
}

/// A plain message.
pub open spec fn plain_message(text: Seq<char>, is_reply: bool) -> OutgoingView {
    OutgoingView { text, reply_to: None, at_user: None, is_reply }
}

/// The messages that Alma's thoughts are sent in.
pub open spec fn thought_messages(set: RunSettings, thinking: Option<Seq<char>>) -> Seq<
    OutgoingView,
> {
    match thinking {
        Some(t) => {
            let thought = model::trimmed(visible_text::normalized(t));
            if set.show_thinking && thought.len() > 0 {
                split::split_into(thought, split::QQ_MSG_LIMIT as nat).map_values(
                    |text: Seq<char>| plain_message(text, false),
                )
            } else {
                seq![]
            }
        },
        None => seq![],
    }
}

/// The texts that paragraphs are sent in.
pub open spec fn paragraph_texts(paragraphs: Seq<Seq<char>>) -> Seq<Seq<char>>
    decreases paragraphs.len(),
{
    if paragraphs.len() == 0 {
        seq![]
    } else {
        paragraph_texts(paragraphs.drop_last()) + split::split_into(
            paragraphs.last(),
            split::QQ_MSG_LIMIT as nat,
        )
    }
}

/// One of the messages that a reply is sent in: the first replies to the message that was
/// answered and, in a group, mentions its sender.
pub open spec fn reply_message(e: OneBotEvent, text: Seq<char>, first: bool) -> OutgoingView {
    if first {
        OutgoingView {
            text,
            reply_to: Some(number::dec(json::int_view(e.message_id)->0)),
            at_user: if message::in_group(e) {
                Some(number::dec(message::user_of(e)))
            } else {
                None
            },
            is_reply: true,
        }
    } else {
        plain_message(text, true)
    }
}

/// The messages that a reply is sent in.
pub open spec fn reply_messages(e: OneBotEvent, visible: Seq<char>) -> Seq<OutgoingView> {
    let texts = paragraph_texts(split::paragraphs(visible));
    Seq::new(texts.len(), |i: int| reply_message(e, texts[i], i == 0))
}

/// What is done once Alma has written: what can be seen of it is sent. An empty reply ends the
/// run.
pub open spec fn replied(
    e: OneBotEvent,
    set: RunSettings,
    s: RunView,
    reply: Seq<char>,
    thinking: Option<Seq<char>>,
) -> Next {
    let visible = visible_text::visible(reply);
    if visible.len() == 0 {
        finished(s, Ok(()))
    } else {
        delivering(
            RunView {
                queue: thought_messages(set, thinking) + reply_messages(e, visible),
                sent: 0,
                ..s
            },
        )
    }
}

/// The next message to be sent.
pub open spec fn delivering(s: RunView) -> Next {
    if s.sent < s.queue.len() {
        (RunView { stage: Stage::Deliver, ..s }, ActionView::Deliver(s.queue[s.sent as int]))
    } else {
        finished(s, Ok(()))
    }
}

/// What is done once it is known how the last thing done went.
pub open spec fn advanced(e: OneBotEvent, set: RunSettings, s: RunView, outcome: Outcome) -> Next {
    match (s.stage, outcome) {
        (Stage::Title, Outcome::Title(title)) => titled(e, s, json::text_view(title)),
        (Stage::Record, Outcome::Done) => with_id(e, s),
        (Stage::Quote, Outcome::Quoted(quoted)) => decided(e, quoting(e, s, quoted)),
        (Stage::Forward, Outcome::Forwarded(nodes)) => (
            RunView {
                stage: Stage::Profile,
                forward_context: Some(message::forward_words(message::nodes_view(nodes))),
                ..s
            },
            ActionView::EnsureProfile,
        ),
        (Stage::Profile, Outcome::Done) => (
            RunView { stage: Stage::Thread, ..s },
            ActionView::ResolveThread(session_of(e)),
        ),
        (Stage::Thread, Outcome::Thread(Err(m))) => finished(s, Err(m@)),
        (Stage::Thread, Outcome::Thread(Ok((thread_id, existing)))) => (
            RunView { stage: Stage::Client, thread_id: thread_id@, existing, ..s },
            ActionView::Connect,
        ),
        (Stage::Client, Outcome::Connected(Err(m))) => (
            RunView { stage: Stage::Refusal, failure: m@, ..s },
            ActionView::Say(ALMA_ERROR_REPLY@),
        ),
        (Stage::Refusal, Outcome::Done) => finished(s, Err(s.failure)),
        (Stage::Client, Outcome::Connected(Ok(_))) => (
            RunView { stage: Stage::Prepare, ..s },
            ActionView::Prepare(files_for(e, s)),
        ),
        (
            Stage::Prepare,
            Outcome::Prepared { default_model, file_parts, ephemeral_context },
        ) => {
            let model = if s.existing {
                None
            } else {
                match default_model {
                    Some(m) => Some(m@),
                    None => Some(set.fallback_model@),
                }
            };
            let s = RunView {
                model,
                file_parts: json::views_of(file_parts@),
                ephemeral_context: ephemeral_context@,
                ..s
            };
            match set.thinking_message {
                Some(text) => (RunView { stage: Stage::Notice, ..s }, ActionView::Say(text@)),
                None => attempted(e, set, s),
            }
        },
        (Stage::Notice, Outcome::Done) => attempted(e, set, s),
        (Stage::Pause, Outcome::Done) => (
            RunView { stage: Stage::Connect, ..s },
            ActionView::Connect,
        ),
        (Stage::Connect, Outcome::Connected(Ok(_))) => (
            RunView { stage: Stage::Generate, ..s },
            ActionView::Generate(request_for(e, s)),
        ),
        (Stage::Connect, Outcome::Connected(Err(_))) => attempted(
            e,
            set,
            RunView { attempt: s.attempt + 1, ..s },
        ),
        (Stage::Generate, Outcome::Generated(Ok((reply, thinking)))) => replied(
            e,
            set,
            s,
            reply@,
            json::text_view(thinking),
        ),
        (Stage::Generate, Outcome::Generated(Err(_))) => attempted(
            e,
            set,
            RunView { attempt: s.attempt + 1, ..s },
        ),
        (Stage::Deliver, Outcome::Delivered(Ok(message_id))) => if s.sent < s.queue.len()
            && s.queue[s.sent as int].is_reply {
            (
                RunView { stage: Stage::Remember, ..s },
                ActionView::Remember(
                    s.thread_id,
                    s.queue[s.sent as int].text,
                    json::int_view(message_id),
                    if message::in_group(e) {
                        Some(message::group_of(e))
                    } else {
                        None
                    },
                ),
            )
        } else {
            delivering(RunView { sent: s.sent + 1, ..s })
        },
        (Stage::Deliver, Outcome::Delivered(Err(_))) => delivering(RunView { sent: s.sent + 1, ..s }),
        (Stage::Remember, Outcome::Done) => delivering(RunView { sent: s.sent + 1, ..s }),
        _ => (s, ActionView::Nothing),
    }
}

/// A run: how one message is brought to Alma and the reply back.
pub struct MessageRun<'a> {
    event: &'a OneBotEvent,
    settings: RunSettings,
    stage: Stage,
    title: Option<String>,
    reply_context: Option<String>,
    to_bot: bool,
    quoted_images: Vec<String>,
    forward_context: Option<String>,
    thread_id: String,
    existing: bool,
    failure: String,
    model: Option<String>,
    file_parts: Vec<Json>,
    ephemeral_context: String,
    attempt: u64,
    queue: Vec<Outgoing>,
    sent: usize,
}

impl<'a> View for MessageRun<'a> {
    type V = RunView;

    closed spec fn view(&self) -> RunView {
        RunView {
            stage: self.stage,
            title: json::text_view(self.title),
            reply_context: json::text_view(self.reply_context),
            to_bot: self.to_bot,
            quoted_images: model::texts(self.quoted_images@),
            forward_context: json::text_view(self.forward_context),
            thread_id: self.thread_id@,
            existing: self.existing,
            failure: self.failure@,
            model: json::text_view(self.model),
            file_parts: json::views_of(self.file_parts@),
            ephemeral_context: self.ephemeral_context@,
            attempt: self.attempt as nat,
            queue: outgoing_views(self.queue@),
            sent: self.sent as nat,
        }
    }
}

fn copy_text(o: &Option<String>) -> (r: Option<String>)
    ensures
        json::text_view(r) == json::text_view(*o),
{
    match o {
        Some(s) => Some(s.clone()),
        None => None,
    }
}

fn text_ref(o: &Option<String>) -> (r: Option<&str>)
    ensures
        json::str_view(r) == json::text_view(*o),
{
    match o {
        Some(s) => Some(s.as_str()),
        None => None,
    }
}

fn copy_parts(parts: &Vec<Json>) -> (r: Vec<Json>)
    ensures
        json::views_of(r@) == json::views_of(parts@),
{
    let mut out: Vec<Json> = Vec::new();
    let mut i: usize = 0;
    while i < parts.len()
        invariant
            i <= parts@.len(),
            out@.len() == i,
            forall|k: int| 0 <= k < i ==> (#[trigger] out@[k])@ == parts@[k]@,
        decreases parts@.len() - i,
    {
        out.push(json::copy(&parts[i]));
        i += 1;
    }
    proof {
        json::lemma_views(out@);
        json::lemma_views(parts@);
        assert(json::views_of(out@) =~= json::views_of(parts@));
    }
    out
}

pub(crate) fn copy_outgoing(o: &Outgoing) -> (r: Outgoing)
    ensures
        r@ == o@,
{
    Outgoing {
        text: o.text.clone(),
        reply_to: copy_text(&o.reply_to),
        at_user: copy_text(&o.at_user),
        is_reply: o.is_reply,
    }
}

fn push_thoughts(settings: &RunSettings, thinking: Option<&str>, out: &mut Vec<Outgoing>)
    ensures
        outgoing_views(final(out)@) == outgoing_views(old(out)@) + thought_messages(
            *settings,
            json::str_view(thinking),
        ),
{
    let ghost before = outgoing_views(out@);
    assert(before + Seq::<OutgoingView>::empty() =~= before);
    let thinking = match thinking {
        Some(t) => t,
        None => {
            return ;
        },
    };
    let normal = visible_text::normalize_assistant_text(thinking);
    let thought = ops::trim(&normal);
    if !settings.show_thinking || thought.is_empty() {
        return ;
    }
    let chunks = split::split_text(thought, split::QQ_MSG_LIMIT);
    let ghost all = model::texts(chunks@).map_values(|text: Seq<char>| plain_message(text, false));
    let mut i: usize = 0;
    assert(all.take(0) =~= seq![]);
    while i < chunks.len()
        invariant
            i <= chunks@.len(),
            all == model::texts(chunks@).map_values(|text: Seq<char>| plain_message(text, false)),
            outgoing_views(out@) == before + all.take(i as int),
        decreases chunks@.len() - i,
    {
        let o = Outgoing { text: chunks[i].clone(), reply_to: None, at_user: None, is_reply: false };
        let ghost was = out@;
        assert(o@ == all[i as int]);
        out.push(o);
        i += 1;
        assert(outgoing_views(out@) =~= outgoing_views(was).push(o@));
        assert(all.take(i as int) =~= all.take(i - 1).push(all[i - 1]));
        assert(outgoing_views(out@) =~= before + all.take(i as int));
    }
    assert(all.take(i as int) =~= all);
}

fn reply_texts(visible: &str) -> (r: Vec<String>)
    ensures
        model::texts(r@) == paragraph_texts(split::paragraphs(visible@)),
{
    let paragraphs = split::split_paragraphs(visible);
    let ghost all = model::texts(paragraphs@);
    let mut out: Vec<String> = Vec::new();
    let mut i: usize = 0;
    assert(model::texts(out@) =~= seq![]);
    assert(all.take(0) =~= seq![]);
    while i < paragraphs.len()
        invariant
            i <= paragraphs@.len(),
            all == model::texts(paragraphs@),
            model::texts(out@) == paragraph_texts(all.take(i as int)),
        decreases paragraphs@.len() - i,
    {
        let mut chunks = split::split_text(&paragraphs[i], split::QQ_MSG_LIMIT);
        proof {
            assert(all.take(i + 1).drop_last() =~= all.take(i as int));
            assert(all.take(i + 1).last() == paragraphs@[i as int]@);
            assert(model::texts(out@ + chunks@) =~= model::texts(out@) + model::texts(chunks@));
        }
        out.append(&mut chunks);
        i += 1;
    }
    assert(all.take(i as int) =~= all);
    out
}

fn push_replies(e: &OneBotEvent, message_id: i64, visible: &str, out: &mut Vec<Outgoing>)
    requires
        e.message_id == Some(message_id),
    ensures
        outgoing_views(final(out)@) == outgoing_views(old(out)@) + reply_messages(*e, visible@),
{
    let texts = reply_texts(visible);
    let ghost before = outgoing_views(out@);
    let ghost all = reply_messages(*e, visible@);
    let mut i: usize = 0;
    assert(before + all.take(0) =~= before);
    while i < texts.len()
        invariant
            i <= texts@.len(),
            e.message_id == Some(message_id),
            model::texts(texts@) == paragraph_texts(split::paragraphs(visible@)),
            all == reply_messages(*e, visible@),
            outgoing_views(out@) == before + all.take(i as int),
        decreases texts@.len() - i,
    {
        assert(model::texts(texts@)[i as int] == texts@[i as int]@);
        let o = if i == 0 {
            let at_user = if message::is_group(e) {
                Some(number::dec_i64(message::user_id(e)))
            } else {
                None
            };
            Outgoing {
                text: texts[i].clone(),
                reply_to: Some(number::dec_i64(message_id)),
                at_user,
                is_reply: true,
            }
        } else {
            Outgoing { text: texts[i].clone(), reply_to: None, at_user: None, is_reply: true }
        };
        let ghost was = out@;
        assert(o@ == all[i as int]);
        out.push(o);
        i += 1;
        assert(outgoing_views(out@) =~= outgoing_views(was).push(o@));
        assert(all.take(i as int) =~= all.take(i - 1).push(all[i - 1]));
        assert(outgoing_views(out@) =~= before + all.take(i as int));
    }
    assert(all.take(i as int) =~= all);
}

impl<'a> MessageRun<'a> {
    #[verifier::type_invariant]
    spec fn is_sound(self) -> bool {
        &&& self.attempt <= self.settings.max_retries + 1
        &&& (self.stage is Pause || self.stage is Connect || self.stage is Generate)
            ==> self.attempt <= self.settings.max_retries
        &&& (self.stage is Deliver || self.stage is Remember) ==> self.sent < self.queue@.len()
        &&& !(self.stage is Title || self.stage is Record || self.stage is Done)
            ==> self.event.message_id is Some
    }

    /// The message that the run is about.
    pub closed spec fn event(self) -> OneBotEvent {
        *self.event
    }

    /// The settings that the run goes by.
    pub closed spec fn settings(self) -> RunSettings {
        self.settings
    }

    /// Begins a run, and says what is done first.
    pub fn begin(event: &'a OneBotEvent, settings: RunSettings) -> (r: (MessageRun<'a>, Action))
        ensures
            (r.0@, r.1@) == started(*event),
            r.0.event() == *event,
            r.0.settings() == settings,
    {
        let run = MessageRun {
            event,
            settings,
            stage: Stage::Done,
            title: None,
            reply_context: None,
            to_bot: false,
            quoted_images: Vec::new(),
            forward_context: None,
            thread_id: String::new(),
            existing: false,
            failure: String::new(),
            model: None,
            file_parts: Vec::new(),
            ephemeral_context: String::new(),
            attempt: 0,
            queue: Vec::new(),
            sent: 0,
        };
        proof {
            json::lemma_views(run.file_parts@);
            assert(run@ =~= unstarted());
        }
        match message::is_looked_at(event) {
            Err(m) => run.finish(Err(m)),
            Ok(false) => run.finish(Ok(())),
            Ok(true) => if message::is_group(event) {
                (
                    MessageRun { stage: Stage::Title, ..run },
                    Action::FindTitle(message::group_id(event)),
                )
            } else {
                run.with_id()
            },
        }
    }

    fn finish(self, result: Result<(), String>) -> (r: (MessageRun<'a>, Action))
        ensures
            (r.0@, r.1@) == finished(
                self@,
                match result {
                    Ok(_) => Ok(()),
                    Err(e) => Err(e@),
                },
            ),
            r.0.event() == self.event(),
            r.0.settings() == self.settings(),
    {
        proof {
            use_type_invariant(&self);
        }
        (MessageRun { stage: Stage::Done, ..self }, Action::Finish(result))
    }

    fn with_id(self) -> (r: (MessageRun<'a>, Action))
        ensures
            (r.0@, r.1@) == with_id(self.event(), self@),
            r.0.event() == self.event(),
            r.0.settings() == self.settings(),
    {
        proof {
            use_type_invariant(&self);
        }
        if self.event.message_id.is_none() {
            return self.finish(Err("OneBot message event missing message_id".to_owned()));
        }
        match event::extract_reply_id(message::segments(self.event)) {
            Some(id) => (MessageRun { stage: Stage::Quote, ..self }, Action::FetchQuoted(id)),
            None => self.decide(),
        }
    }

    fn decide(self) -> (r: (MessageRun<'a>, Action))
        requires
            self.event().message_id is Some,
        ensures
            (r.0@, r.1@) == decided(self.event(), self@),
            r.0.event() == self.event(),
            r.0.settings() == self.settings(),
    {
        proof {
            use_type_invariant(&self);
        }
        if !message::should_process(self.event) {
            return self.finish(Ok(()));
        }
        match event::extract_forward_id(message::segments(self.event)) {
            Some(id) => (MessageRun { stage: Stage::Forward, ..self }, Action::FetchForward(id)),
            None => (MessageRun { stage: Stage::Profile, ..self }, Action::EnsureProfile),
        }
    }

    fn set_title(self, title: Option<String>) -> (r: (MessageRun<'a>, Action))
        ensures
            (r.0@, r.1@) == titled(self.event(), self@, json::text_view(title)),
            r.0.event() == self.event(),
            r.0.settings() == self.settings(),
    {
        proof {
            use_type_invariant(&self);
        }
        let text = super::context::observed_message_text(
            &message::message_text(self.event),
            &event::extract_media_summary(message::segments(self.event)),
        );
        if !text.as_str().is_empty() {
            let told = copy_text(&title);
            (
                MessageRun { stage: Stage::Record, title, ..self },
                Action::Record { title: told, text },
            )
        } else {
            let run = MessageRun { title, ..self };
            run.with_id()
        }
    }

    fn set_quoted(self, quoted: Option<QuotedMessage>) -> (r: (MessageRun<'a>, Action))
        requires
            self.event().message_id is Some,
        ensures
            (r.0@, r.1@) == decided(self.event(), quoting(self.event(), self@, quoted)),
            r.0.event() == self.event(),
            r.0.settings() == self.settings(),
    {
        proof {
            use_type_invariant(&self);
        }
        match quoted {
            Some(q) => {
                let reply = message::reply_context(q, self.event.self_id);
                let run = MessageRun {
                    reply_context: Some(reply.text),
                    to_bot: reply.to_bot,
                    quoted_images: reply.image_urls,
                    ..self
                };
                assert(run@ =~= quoting(self.event(), self@, quoted));
                run.decide()
            },
            None => self.decide(),
        }
    }

    fn attempt_next(self, attempt: u64) -> (r: (MessageRun<'a>, Action))
        requires
            self.event().message_id is Some,
            attempt <= self.settings().max_retries + 1,
        ensures
            (r.0@, r.1@) == attempted(
                self.event(),
                self.settings(),
                RunView { attempt: attempt as nat, ..self@ },
            ),
            r.0.event() == self.event(),
            r.0.settings() == self.settings(),
    {
        proof {
            use_type_invariant(&self);
        }
        let run = MessageRun { stage: Stage::Done, attempt, ..self };
        let ghost s = RunView { attempt: attempt as nat, ..self@ };
        assert(run@ =~= (RunView { stage: Stage::Done, ..s }));
        if attempt > run.settings.max_retries as u64 {
            return run.reply_with(ALMA_ERROR_REPLY, None);
        }
        if attempt == 0 {
            return (MessageRun { stage: Stage::Connect, ..run }, Action::Connect);
        }
        let delay = split::retry_delay_ms(run.settings.retry_delay_ms, attempt as u32);
        (MessageRun { stage: Stage::Pause, ..run }, Action::Wait(delay))
    }

    fn reply_with(self, reply: &str, thinking: Option<&str>) -> (r: (MessageRun<'a>, Action))
        requires
            self.event().message_id is Some,
        ensures
            (r.0@, r.1@) == replied(
                self.event(),
                self.settings(),
                self@,
                reply@,
                json::str_view(thinking),
            ),
            r.0.event() == self.event(),
            r.0.settings() == self.settings(),
    {
        proof {
            use_type_invariant(&self);
        }
        let visible = visible_text::sanitize_visible_assistant_text(reply);
        if visible.as_str().is_empty() {
            return self.finish(Ok(()));
        }
        let mut queue: Vec<Outgoing> = Vec::new();
        assert(outgoing_views(queue@) =~= seq![]);
        push_thoughts(&self.settings, thinking, &mut queue);
        push_replies(self.event, self.event.message_id.unwrap(), &visible, &mut queue);
        let run = MessageRun { stage: Stage::Done, queue, sent: 0, ..self };
        proof {
            let thoughts = thought_messages(self.settings(), json::str_view(thinking));
            assert(Seq::<OutgoingView>::empty() + thoughts =~= thoughts);
        }
        run.deliver_from(0)
    }

    fn deliver_from(self, sent: usize) -> (r: (MessageRun<'a>, Action))
        requires
            self.event().message_id is Some,
            sent <= self@.queue.len(),
        ensures
            (r.0@, r.1@) == delivering(RunView { sent: sent as nat, ..self@ }),
            r.0.event() == self.event(),
            r.0.settings() == self.settings(),
    {
        proof {
            use_type_invariant(&self);
        }
        let run = MessageRun { stage: Stage::Done, sent, ..self };
        if sent < run.queue.len() {
            let next = copy_outgoing(&run.queue[sent]);
            assert(next@ == run@.queue[sent as int]);
            (MessageRun { stage: Stage::Deliver, ..run }, Action::Deliver(next))
        } else {
            run.finish(Ok(()))
        }
    }

    fn request(&self) -> (r: GenerationRequest)
        requires
            self.event().message_id is Some,
        ensures
            r@ == request_for(self.event(), self@),
    {
        let text = message::format_message(
            self.event,
            self.event.message_id.unwrap(),
            text_ref(&self.forward_context),
            text_ref(&self.reply_context),
            self.to_bot,
        );
        let source = if message::is_group(self.event) {
            "telegram-group"
        } else {
            "telegram"
        };
        GenerationRequest {
            thread_id: self.thread_id.clone(),
            model: copy_text(&self.model),
            message: text,
            file_parts: copy_parts(&self.file_parts),
            source,
            ephemeral_context: self.ephemeral_context.clone(),
        }
    }

    fn set_prepared(
        self,
        default_model: Option<String>,
        file_parts: Vec<Json>,
        ephemeral_context: String,
    ) -> (r: (MessageRun<'a>, Action))
        requires
            self@.stage is Prepare,
        ensures
            (r.0@, r.1@) == advanced(
                self.event(),
                self.settings(),
                self@,
                Outcome::Prepared { default_model, file_parts, ephemeral_context },
            ),
            r.0.event() == self.event(),
            r.0.settings() == self.settings(),
    {
        proof {
            use_type_invariant(&self);
        }
        let model = if self.existing {
            None
        } else {
            match default_model {
                Some(m) => Some(m),
                None => Some(self.settings.fallback_model.clone()),
            }
        };
        let attempt = self.attempt;
        let notice = copy_text(&self.settings.thinking_message);
        let run = MessageRun { model, file_parts, ephemeral_context, ..self };
        match notice {
            Some(text) => (MessageRun { stage: Stage::Notice, ..run }, Action::Say(text)),
            None => {
                assert((RunView { attempt: attempt as nat, ..run@ }) =~= run@);
                run.attempt_next(attempt)
            },
        }
    }

    fn set_delivered(self, message_id: Option<i64>) -> (r: (MessageRun<'a>, Action))
        requires
            self@.stage is Deliver,
        ensures
            (r.0@, r.1@) == advanced(
                self.event(),
                self.settings(),
                self@,
                Outcome::Delivered(Ok(message_id)),
            ),
            r.0.event() == self.event(),
            r.0.settings() == self.settings(),
    {
        proof {
            use_type_invariant(&self);
        }
        let sent = self.sent;
        assert(self@.queue[sent as int] == self.queue@[sent as int]@);
        if self.queue[sent].is_reply {
            let text = self.queue[sent].text.clone();
            let thread_id = self.thread_id.clone();
            let group = if message::is_group(self.event) {
                Some(message::group_id(self.event))
            } else {
                None
            };
            (
                MessageRun { stage: Stage::Remember, ..self },
                Action::Remember { thread_id, text, message_id, group },
            )
        } else {
            assert(sent < self.queue.len());
            self.deliver_from(sent + 1)
        }
    }

    /// Says what is done next, given how the last thing done went.
    pub fn advance(self, outcome: Outcome) -> (r: (MessageRun<'a>, Action))
        ensures
            (r.0@, r.1@) == advanced(self.event(), self.settings(), self@, outcome),
            r.0.event() == self.event(),
            r.0.settings() == self.settings(),
    {
        proof {
            use_type_invariant(&self);
        }
        match (self.stage, outcome) {
            (Stage::Title, Outcome::Title(title)) => self.set_title(title),
            (Stage::Record, Outcome::Done) => self.with_id(),
            (Stage::Quote, Outcome::Quoted(quoted)) => self.set_quoted(quoted),
            (Stage::Forward, Outcome::Forwarded(nodes)) => {
                let words = message::forward_context(&nodes);
                (
                    MessageRun { stage: Stage::Profile, forward_context: Some(words), ..self },
                    Action::EnsureProfile,
                )
            },
            (Stage::Profile, Outcome::Done) => {
                let key = if message::is_group(self.event) {
                    sessions::group_session_key(message::group_id(self.event))
                } else {
                    sessions::private_session_key(message::user_id(self.event))
                };
                (MessageRun { stage: Stage::Thread, ..self }, Action::ResolveThread(key))
            },
            (Stage::Thread, Outcome::Thread(Err(m))) => self.finish(Err(m)),
            (Stage::Thread, Outcome::Thread(Ok((thread_id, existing)))) => (
                MessageRun { stage: Stage::Client, thread_id, existing, ..self },
                Action::Connect,
            ),
            (Stage::Client, Outcome::Connected(Err(m))) => (
                MessageRun { stage: Stage::Refusal, failure: m, ..self },
                Action::Say(ALMA_ERROR_REPLY.to_owned()),
            ),
            (Stage::Refusal, Outcome::Done) => {
                let failure = self.failure.clone();
                self.finish(Err(failure))
            },
            (Stage::Client, Outcome::Connected(Ok(_))) => {
                let segments = message::segments(self.event);
                let downloads = media::build_downloads(
                    &event::extract_images(segments),
                    &self.quoted_images,
                    segments,
                );
                (MessageRun { stage: Stage::Prepare, ..self }, Action::Prepare(downloads))
            },
            (
                Stage::Prepare,
                Outcome::Prepared { default_model, file_parts, ephemeral_context },
            ) => self.set_prepared(default_model, file_parts, ephemeral_context),
            (Stage::Notice, Outcome::Done) => {
                let attempt = self.attempt;
                assert((RunView { attempt: attempt as nat, ..self@ }) =~= self@);
                self.attempt_next(attempt)
            },
            (Stage::Pause, Outcome::Done) => (
                MessageRun { stage: Stage::Connect, ..self },
                Action::Connect,
            ),
            (Stage::Connect, Outcome::Connected(Ok(_))) => {
                let request = self.request();
                (MessageRun { stage: Stage::Generate, ..self }, Action::Generate(request))
            },
            (Stage::Connect, Outcome::Connected(Err(_))) => {
                let attempt: u64 = self.attempt + 1;
                self.attempt_next(attempt)
            },
            (Stage::Generate, Outcome::Generated(Ok((reply, thinking)))) => self.reply_with(
                &reply,
                text_ref(&thinking),
            ),
            (Stage::Generate, Outcome::Generated(Err(_))) => {
                let attempt: u64 = self.attempt + 1;
                self.attempt_next(attempt)
            },
            (Stage::Deliver, Outcome::Delivered(Ok(message_id))) => self.set_delivered(message_id),
            (Stage::Deliver, Outcome::Delivered(Err(_))) => {
                assert(self.sent < self.queue.len());
                let sent: usize = self.sent + 1;
                self.deliver_from(sent)
            },
            (Stage::Remember, Outcome::Done) => {
                assert(self.sent < self.queue.len());
                let sent: usize = self.sent + 1;
                self.deliver_from(sent)
            },
            _ => (self, Action::Nothing),
        }
    }
}

} // verus!
