//! How what Alma writes of its own accord is forwarded to QQ.
use super::run;
use super::run::{Outgoing, OutgoingView};
use super::split;
use crate::alma_ws::client::{AlmaEvent, EventView};
use crate::json;
use crate::state::replies;
use crate::state::replies::{SentReplies, SentView};
use crate::state::sessions::QqTarget;
use crate::text::model;
use crate::text::ops;
use vstd::prelude::*;
use vstd::string::*;

verus! {

/// Whether an event tells of something that Alma wrote.
pub open spec fn tells_of_reply(event: EventView) -> bool {
    event.event_type == "message_updated"@ && event.message_role == "assistant"@
}

/// Whether an event tells of something that Alma wrote.
pub fn is_assistant_update(event: &AlmaEvent) -> (r: bool)
    ensures
        r == tells_of_reply(event@),
{
    ops::same(&event.event_type, "message_updated") && ops::same(&event.message_role, "assistant")
}

/// A text in as many messages as it needs.
pub open spec fn plain_messages(text: Seq<char>, is_reply: bool) -> Seq<OutgoingView> {
    split::split_into(text, split::QQ_MSG_LIMIT as nat).map_values(
        |t: Seq<char>| run::plain_message(t, is_reply),
    )
}

/// The messages that an event is forwarded in: Alma's thoughts, if they are to be shown, and
/// what it wrote.
pub open spec fn forwarded(event: EventView, show_thinking: bool) -> Seq<OutgoingView> {
    (match event.thinking_text {
        Some(t) => if show_thinking && t.len() > 0 {
            plain_messages(t, false)
        } else {
            seq![]
        },
        None => seq![],
    }) + (if event.message_text.len() == 0 {
        seq![]
    } else {
        plain_messages(event.message_text, true)
    })
}

fn push_plain(text: &str, is_reply: bool, out: &mut Vec<Outgoing>)
    ensures
        run::outgoing_views(final(out)@) == run::outgoing_views(old(out)@) + plain_messages(
            text@,
            is_reply,
        ),
{
    let ghost before = run::outgoing_views(out@);
    let chunks = split::split_text(text, split::QQ_MSG_LIMIT);
    let ghost all = plain_messages(text@, is_reply);
    let mut i: usize = 0;
    assert(before + all.take(0) =~= before);
    while i < chunks.len()
        invariant
            i <= chunks@.len(),
            all == model::texts(chunks@).map_values(
                |t: Seq<char>| run::plain_message(t, is_reply),
            ),
            run::outgoing_views(out@) == before + all.take(i as int),
        decreases chunks@.len() - i,
    {
        let o = Outgoing { text: chunks[i].clone(), reply_to: None, at_user: None, is_reply };
        let ghost was = out@;
        assert(o@ == all[i as int]);
        out.push(o);
        i += 1;
        assert(run::outgoing_views(out@) =~= run::outgoing_views(was).push(o@));
        assert(all.take(i as int) =~= all.take(i - 1).push(all[i - 1]));
        assert(run::outgoing_views(out@) =~= before + all.take(i as int));
    }
    assert(all.take(i as int) =~= all);
}

/// The messages that an event is forwarded in to the chat of its thread: none where the event
/// tells of nothing that Alma wrote, or of what was sent to the chat before, nor where its thread
/// has no chat.
pub open spec fn handled(
    sent: Map<Seq<char>, Seq<SentView>>,
    event: EventView,
    has_target: bool,
    show_thinking: bool,
    now: u64,
) -> Seq<OutgoingView> {
    let known = replies::recent(replies::replies_of(sent, event.thread_id), now);
    if !tells_of_reply(event) || !has_target || replies::is_among(known, event.message_text) {
        seq![]
    } else {
        forwarded(event, show_thinking)
    }
}

/// What is known of the replies that were sent once an event was handled: those of its thread
/// that are no longer recent are forgotten.
pub open spec fn handled_replies(
    sent: Map<Seq<char>, Seq<SentView>>,
    event: EventView,
    has_target: bool,
    now: u64,
) -> Map<Seq<char>, Seq<SentView>> {
    if tells_of_reply(event) && has_target && sent.dom().contains(event.thread_id) {
        sent.insert(event.thread_id, replies::recent(sent[event.thread_id], now))
    } else {
        sent
    }
}

/// The messages that an event is forwarded in to the chat of its thread. An event that tells of
/// nothing that Alma wrote, or of what was sent to the chat before, is not forwarded, nor is one
/// of a thread without a chat.
pub fn handle_alma_event(
    event: &AlmaEvent,
    has_target: bool,
    sent: &mut SentReplies,
    show_thinking: bool,
    now: u64,
) -> (r: Vec<Outgoing>)
    ensures
        run::outgoing_views(r@) == handled(old(sent)@, event@, has_target, show_thinking, now),
        final(sent)@ == handled_replies(old(sent)@, event@, has_target, now),
{
    let mut out: Vec<Outgoing> = Vec::new();
    assert(run::outgoing_views(out@) =~= seq![]);
    if !is_assistant_update(event) || !has_target {
        return out;
    }
    if sent.was_sent_recently(&event.thread_id, &event.message_text, now) {
        return out;
    }
    if show_thinking {
        if let Some(thoughts) = &event.thinking_text {
            if !thoughts.as_str().is_empty() {
                push_plain(thoughts, false, &mut out);
            }
        }
    }
    let ghost thoughts = run::outgoing_views(out@);
    if !event.message_text.as_str().is_empty() {
        push_plain(&event.message_text, true, &mut out);
    } else {
        assert(thoughts + Seq::<OutgoingView>::empty() =~= thoughts);
    }
    assert(run::outgoing_views(out@) =~= forwarded(event@, show_thinking));
    out
}

/// What the forwarding of an event waits for.
#[derive(Clone, Copy, PartialEq, Eq, Structural)]
pub enum ForwardStage {
    Register,
    Send,
    Record,
    Done,
}

/// What is to be done next to forward an event.
pub enum ForwardAction {
    /// Take note of what is about to be sent, so that it is not forwarded again.
    Register { thread_id: String, text: String },
    Send(Outgoing),
    /// Record what was sent in the history of the group.
    Record { group_id: i64, text: String, message_id: Option<i64> },
    Finish,
    /// Nothing: the outcome was not waited for.
    Nothing,
}

/// How the last thing done went.
pub enum ForwardOutcome {
    Done,
    /// The id of the message that was sent, if it has one.
    Sent(Result<Option<i64>, String>),
}

/// The model of what is to be done next.
pub enum ForwardActionView {
    Register(Seq<char>, Seq<char>),
    Send(OutgoingView),
    Record(int, Seq<char>, Option<int>),
    Finish,
    Nothing,
}

impl View for ForwardAction {
    type V = ForwardActionView;

    open spec fn view(&self) -> ForwardActionView {
        match *self {
            ForwardAction::Register { thread_id, text } => ForwardActionView::Register(
                thread_id@,
                text@,
            ),
            ForwardAction::Send(o) => ForwardActionView::Send(o@),
            ForwardAction::Record { group_id, text, message_id } => ForwardActionView::Record(
                group_id as int,
                text@,
                json::int_view(message_id),
            ),
            ForwardAction::Finish => ForwardActionView::Finish,
            ForwardAction::Nothing => ForwardActionView::Nothing,
        }
    }
}

/// How far the forwarding of an event has come.
#[verifier::ext_equal]
pub struct ForwardView {
    pub thread_id: Seq<char>,
    /// The group that the messages go to, if they go to one.
    pub group: Option<int>,
    pub messages: Seq<OutgoingView>,
    pub stage: ForwardStage,
    pub sent: nat,
}

/// What is done next, and how far the forwarding has come then.
pub type ForwardNext = (ForwardView, ForwardActionView);

/// The group of a chat, if the chat is one.
pub open spec fn group_of(target: Option<QqTarget>) -> Option<int> {
    match target {
        Some(t) => if t.target_type@ == "group"@ {
            Some(t.target_id as int)
        } else {
            None
        },
        None => None,
    }
}

/// What is done about the message whose turn it is: a part of a reply is noted before it is
/// sent. Behind the last one the forwarding ends.
pub open spec fn forwarding(s: ForwardView) -> ForwardNext {
    if s.sent >= s.messages.len() {
        (ForwardView { stage: ForwardStage::Done, ..s }, ForwardActionView::Finish)
    } else {
        let message = s.messages[s.sent as int];
        if message.is_reply {
            (
                ForwardView { stage: ForwardStage::Register, ..s },
                ForwardActionView::Register(s.thread_id, message.text),
            )
        } else {
            (ForwardView { stage: ForwardStage::Send, ..s }, ForwardActionView::Send(message))
        }
    }
}

/// What is done first to forward an event to the chat of its thread.
pub open spec fn forwarding_begun(
    sent: Map<Seq<char>, Seq<SentView>>,
    event: EventView,
    target: Option<QqTarget>,
    show_thinking: bool,
    now: u64,
) -> ForwardNext {
    forwarding(
        ForwardView {
            thread_id: event.thread_id,
            group: group_of(target),
            messages: handled(sent, event, target is Some, show_thinking, now),
            stage: ForwardStage::Done,
            sent: 0,
        },
    )
}

/// What is done next, given how the last thing done went. A part of a reply that was sent to a
/// group is recorded; one that could not be sent is passed over.
pub open spec fn forwarded_step(s: ForwardView, outcome: ForwardOutcome) -> ForwardNext {
    let message = s.messages[s.sent as int];
    let behind = ForwardView { sent: s.sent + 1, ..s };
    match (s.stage, outcome) {
        (ForwardStage::Register, ForwardOutcome::Done) => (
            ForwardView { stage: ForwardStage::Send, ..s },
            ForwardActionView::Send(message),
        ),
        (ForwardStage::Send, ForwardOutcome::Sent(Ok(message_id))) => match s.group {
            Some(group_id) => if message.is_reply {
                (
                    ForwardView { stage: ForwardStage::Record, ..s },
                    ForwardActionView::Record(group_id, message.text, json::int_view(message_id)),
                )
            } else {
                forwarding(behind)
            },
            None => forwarding(behind),
        },
        (ForwardStage::Send, ForwardOutcome::Sent(Err(_))) => forwarding(behind),
        (ForwardStage::Record, ForwardOutcome::Done) => forwarding(behind),
        _ => (s, ForwardActionView::Nothing),
    }
}

/// The forwarding of an event to the chat of its thread.
pub struct ForwardRun {
    thread_id: String,
    group: Option<i64>,
    messages: Vec<Outgoing>,
    stage: ForwardStage,
    sent: usize,
}

impl View for ForwardRun {
    type V = ForwardView;

    closed spec fn view(&self) -> ForwardView {
        ForwardView {
            thread_id: self.thread_id@,
            group: json::int_view(self.group),
            messages: run::outgoing_views(self.messages@),
            stage: self.stage,
            sent: self.sent as nat,
        }
    }
}

impl ForwardRun {
    #[verifier::type_invariant]
    spec fn is_sound(self) -> bool {
        &&& self.sent <= self.messages@.len()
        &&& self.stage !is Done ==> self.sent < self.messages@.len()
    }

    /// Begins to forward an event to the chat of its thread, if the thread has one.
    pub fn begin(
        event: &AlmaEvent,
        target: Option<QqTarget>,
        sent: &mut SentReplies,
        show_thinking: bool,
        now: u64,
    ) -> (r: (ForwardRun, ForwardAction))
        ensures
            (r.0@, r.1@) == forwarding_begun(old(sent)@, event@, target, show_thinking, now),
            final(sent)@ == handled_replies(old(sent)@, event@, target is Some, now),
    {
        let messages = handle_alma_event(event, target.is_some(), sent, show_thinking, now);
        let group = match &target {
            Some(t) => if ops::same(&t.target_type, "group") {
                Some(t.target_id)
            } else {
                None
            },
            None => None,
        };
        assert(json::int_view(group) == group_of(target));
        let run = ForwardRun {
            thread_id: event.thread_id.clone(),
            group,
            messages,
            stage: ForwardStage::Done,
            sent: 0,
        };
        assert((ForwardView { sent: 0, ..run@ }) =~= run@);
        run.forward_from(0)
    }

    fn forward_from(self, sent: usize) -> (r: (ForwardRun, ForwardAction))
        requires
            sent <= self@.messages.len(),
        ensures
            (r.0@, r.1@) == forwarding(ForwardView { sent: sent as nat, ..self@ }),
    {
        let run = ForwardRun { stage: ForwardStage::Done, sent, ..self };
        if sent >= run.messages.len() {
            return (run, ForwardAction::Finish);
        }
        assert(run@.messages[sent as int] == run.messages@[sent as int]@);
        if run.messages[sent].is_reply {
            let thread_id = run.thread_id.clone();
            let text = run.messages[sent].text.clone();
            (
                ForwardRun { stage: ForwardStage::Register, ..run },
                ForwardAction::Register { thread_id, text },
            )
        } else {
            let message = run::copy_outgoing(&run.messages[sent]);
            (ForwardRun { stage: ForwardStage::Send, ..run }, ForwardAction::Send(message))
        }
    }

    /// Says what is done next, given how the last thing done went.
    pub fn advance(self, outcome: ForwardOutcome) -> (r: (ForwardRun, ForwardAction))
        ensures
            (r.0@, r.1@) == forwarded_step(self@, outcome),
    {
        proof {
            use_type_invariant(&self);
        }
        let sent = self.sent;
        let group = self.group;
        assert(self.stage !is Done ==> sent < self.messages.len());
        assert(sent < self.messages@.len() ==> self@.messages[sent as int]
            == self.messages@[sent as int]@);
        match (self.stage, outcome) {
            (ForwardStage::Register, ForwardOutcome::Done) => {
                let message = run::copy_outgoing(&self.messages[sent]);
                (ForwardRun { stage: ForwardStage::Send, ..self }, ForwardAction::Send(message))
            },
            (ForwardStage::Send, ForwardOutcome::Sent(Ok(message_id))) => match group {
                Some(group_id) => if self.messages[sent].is_reply {
                    let text = self.messages[sent].text.clone();
                    (
                        ForwardRun { stage: ForwardStage::Record, ..self },
                        ForwardAction::Record { group_id, text, message_id },
                    )
                } else {
                    self.forward_from(sent + 1)
                },
                None => self.forward_from(sent + 1),
            },
            (ForwardStage::Send, ForwardOutcome::Sent(Err(_))) => self.forward_from(sent + 1),
            (ForwardStage::Record, ForwardOutcome::Done) => self.forward_from(sent + 1),
            _ => (self, ForwardAction::Nothing),
        }
    }
}

} // verus!
