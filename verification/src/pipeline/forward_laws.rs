//! What holds of what is forwarded: nothing is sent to a chat twice, and what is sent is noted.
use super::forward;
use super::forward::{ForwardActionView, ForwardOutcome, ForwardStage, ForwardView};
use super::run;
use super::run::OutgoingView;
use super::split;
use crate::alma_ws::client::EventView;
use crate::alma_ws::visible_text;
use crate::json;
use crate::state::replies;
use crate::state::replies::SentView;
use crate::state::sessions::QqTarget;
use crate::text::facts;
use crate::text::model;
use vstd::prelude::*;

verus! {

/// What is known of the replies of a thread once these were sent.
pub open spec fn noted(
    sent: Map<Seq<char>, Seq<SentView>>,
    thread_id: Seq<char>,
    texts: Seq<Seq<char>>,
    now: u64,
) -> Map<Seq<char>, Seq<SentView>> {
    sent.insert(
        thread_id,
        replies::with_replies(replies::replies_of(sent, thread_id), texts, now),
    )
}

/// A reply that the bridge sent in one message is not forwarded again while the message is
/// remembered.
pub proof fn law_sent_reply_is_not_forwarded(
    sent: Map<Seq<char>, Seq<SentView>>,
    event: EventView,
    has_target: bool,
    show_thinking: bool,
    sent_at: u64,
    now: u64,
)
    requires
        sent_at <= now <= sent_at + replies::SENT_REPLY_TTL_MS,
    ensures
        forward::handled(
            noted(sent, event.thread_id, seq![event.message_text], sent_at),
            event,
            has_target,
            show_thinking,
            now,
        ) == Seq::<run::OutgoingView>::empty(),
{
    replies::law_registered_replies_are_recognized(
        replies::replies_of(sent, event.thread_id),
        seq![event.message_text],
        0,
        event.message_text,
        sent_at,
        now,
    );
}

/// A text is taken for one that begins it and has 30 bytes or more.
proof fn lemma_same_start(first: Seq<char>, text: Seq<char>)
    requires
        model::begins_with(text, first),
        model::byte_len(first) >= 30,
    ensures
        replies::is_same_reply(first, text),
{
    let n = replies::compared_length(first, text);
    assert(text.take(n) =~= first.take(n)) by {
        assert(text.subrange(0, first.len() as int).take(n) =~= text.take(n));
    }
    if n == first.len() {
        assert(first.take(n) =~= first);
    } else {
        facts::lemma_byte_len_take_monotone(first, 0, n);
    }
}

proof fn lemma_first_nonblank(parts: Seq<Seq<char>>)
    requires
        parts.len() > 0,
        model::trimmed(parts[0]).len() > 0,
    ensures
        model::trimmed_nonblank(parts).len() > 0,
        model::trimmed_nonblank(parts)[0] == model::trimmed(parts[0]),
    decreases parts.len(),
{
    if parts.len() > 1 {
        lemma_first_nonblank(parts.drop_last());
    } else {
        assert(model::trimmed_nonblank(parts.drop_last()) =~= seq![]);
    }
}

proof fn lemma_trimmed_end_is_start(s: Seq<char>)
    ensures
        model::begins_with(s, model::trimmed_end(s)),
        s.len() > 0 && !model::is_whitespace(s[0]) ==> model::trimmed_end(s).len() > 0,
    decreases s.len(),
{
    if s.len() > 0 && model::is_whitespace(s.last()) {
        lemma_trimmed_end_is_start(s.drop_last());
        let t = model::trimmed_end(s);
        assert(s.subrange(0, t.len() as int) =~= s.drop_last().subrange(0, t.len() as int));
    } else {
        assert(s.subrange(0, s.len() as int) =~= s);
    }
}

/// The first paragraph of a text that begins with no white space begins the text.
proof fn lemma_first_paragraph(text: Seq<char>)
    requires
        text.len() > 0,
        !model::is_whitespace(text[0]),
    ensures
        split::paragraphs(text).len() > 0,
        split::paragraphs(text)[0].len() > 0,
        model::begins_with(text, split::paragraphs(text)[0]),
{
    reveal_strlit("\n\n");
    let sep = "\n\n"@;
    let parts = model::split_on(text, sep);
    facts::lemma_find_from(text, sep, 0);
    if model::occurs_at(text, sep, 0) {
        assert(text.subrange(0, 2)[0] == '\n');
    }
    let first = parts[0];
    assert(first =~= text.subrange(0, first.len() as int));
    assert(first.len() > 0 && first[0] == text[0]);
    assert(model::trimmed_start(first) == first);
    lemma_trimmed_end_is_start(first);
    let p = model::trimmed(first);
    lemma_first_nonblank(parts);
    assert(text.subrange(0, p.len() as int) =~= first.subrange(0, p.len() as int));
}

proof fn lemma_first_text(paragraphs: Seq<Seq<char>>)
    requires
        paragraphs.len() > 0,
        paragraphs[0].len() > 0,
    ensures
        run::paragraph_texts(paragraphs).len() > 0,
        model::begins_with(paragraphs[0], run::paragraph_texts(paragraphs)[0]),
    decreases paragraphs.len(),
{
    if paragraphs.len() > 1 {
        lemma_first_text(paragraphs.drop_last());
    } else {
        assert(run::paragraph_texts(paragraphs.drop_last()) =~= seq![]);
        let p = paragraphs[0];
        let limit = split::QQ_MSG_LIMIT as nat;
        let texts = split::split_into(p, limit);
        assert(run::paragraph_texts(paragraphs) =~= texts);
        if model::byte_len(p) > split::split_limit(limit) {
            split::lemma_chunk_len(p, split::split_limit(limit));
        } else {
            assert(p.subrange(0, p.len() as int) =~= p);
        }
    }
}

/// A reply that the bridge sent, in as many messages as it needs, is not forwarded when Alma
/// tells of it, while its messages are remembered. What is forwarded all the same is a reply of
/// several messages whose first has less than 30 bytes, and one of more messages than are
/// remembered.
pub proof fn law_delivered_reply_is_not_forwarded(
    sent: Map<Seq<char>, Seq<SentView>>,
    event: EventView,
    reply: Seq<char>,
    has_target: bool,
    show_thinking: bool,
    sent_at: u64,
    now: u64,
)
    requires
        event.message_text == visible_text::visible(reply),
        event.message_text.len() > 0,
        ({
            let texts = run::paragraph_texts(split::paragraphs(event.message_text));
            &&& texts[0] == event.message_text || model::byte_len(texts[0]) >= 30
            &&& texts.len() <= replies::SENT_REPLY_LIMIT
        }),
        sent_at <= now <= sent_at + replies::SENT_REPLY_TTL_MS,
    ensures
        forward::handled(
            noted(
                sent,
                event.thread_id,
                run::paragraph_texts(split::paragraphs(event.message_text)),
                sent_at,
            ),
            event,
            has_target,
            show_thinking,
            now,
        ) == Seq::<run::OutgoingView>::empty(),
{
    let text = event.message_text;
    facts::lemma_trimmed_ends(
        visible_text::outside_blocks(visible_text::without_reminders(reply), 0),
    );
    lemma_first_paragraph(text);
    let paragraphs = split::paragraphs(text);
    lemma_first_text(paragraphs);
    let texts = run::paragraph_texts(paragraphs);
    let first = texts[0];
    let p = paragraphs[0];
    assert(text.subrange(0, first.len() as int) =~= p.subrange(0, first.len() as int));
    if first != text {
        lemma_same_start(first, text);
    }
    replies::law_registered_replies_are_recognized(
        replies::replies_of(sent, event.thread_id),
        texts,
        0,
        text,
        sent_at,
        now,
    );
}

/// Whether a forwarding can go on: a message is left while something is done about one, and what
/// is noted or recorded is a part of a reply.
pub open spec fn is_in_bounds(s: ForwardView) -> bool {
    &&& s.stage !is Done ==> s.sent < s.messages.len()
    &&& s.stage is Register ==> s.messages[s.sent as int].is_reply
    &&& s.stage is Record ==> s.messages[s.sent as int].is_reply && s.group is Some
}

/// How far a forwarding is from its end.
pub open spec fn distance(s: ForwardView) -> int {
    let left = 3 * (s.messages.len() - s.sent);
    match s.stage {
        ForwardStage::Register => left + 3,
        ForwardStage::Send => left + 2,
        ForwardStage::Record => left + 1,
        ForwardStage::Done => 0,
    }
}

/// Every forwarding comes to its end: each outcome that is waited for brings it nearer, also
/// where a message could not be sent. It ends behind its last message, once.
pub proof fn law_forwarding_ends(s: ForwardView, outcome: ForwardOutcome)
    requires
        is_in_bounds(s),
    ensures
        ({
            let (next, action) = forward::forwarded_step(s, outcome);
            &&& is_in_bounds(next)
            &&& action is Nothing || 0 <= distance(next) < distance(s)
            &&& action is Finish <==> s.stage !is Done && next.stage is Done
            &&& action is Finish ==> next.sent == next.messages.len()
            &&& next.messages == s.messages
            &&& next.thread_id == s.thread_id
            &&& next.group == s.group
        }),
{
}

/// A forwarding begins with its first message.
pub proof fn law_forwarding_begins(
    sent: Map<Seq<char>, Seq<SentView>>,
    event: EventView,
    target: Option<QqTarget>,
    show_thinking: bool,
    now: u64,
)
    ensures
        ({
            let messages = forward::handled(sent, event, target is Some, show_thinking, now);
            let (s, action) = forward::forwarding_begun(sent, event, target, show_thinking, now);
            &&& is_in_bounds(s)
            &&& s.messages == messages
            &&& s.thread_id == event.thread_id
            &&& s.sent == 0
            &&& action is Finish <==> messages.len() == 0
        }),
{
}

/// The messages are sent in their order, and each part of a reply is noted before it is sent:
/// it is sent only once noting it is done, and it is noted under the thread of the event.
pub proof fn law_replies_are_noted_before_they_are_sent(s: ForwardView, outcome: ForwardOutcome)
    requires
        is_in_bounds(s),
    ensures
        ({
            let (next, action) = forward::forwarded_step(s, outcome);
            &&& action matches ForwardActionView::Send(message) ==> {
                &&& message == next.messages[next.sent as int]
                &&& message.is_reply ==> s.stage is Register && outcome is Done && next.sent
                    == s.sent
            }
            &&& action matches ForwardActionView::Register(thread_id, text) ==> {
                &&& thread_id == s.thread_id
                &&& next.stage is Register
                &&& next.sent == s.sent + 1
                &&& text == next.messages[next.sent as int].text
            }
        }),
{
}

/// A part of a reply is recorded if and only if it was sent to a group and the sending
/// succeeded, with the id of the message that was sent.
pub proof fn law_sent_replies_are_recorded(s: ForwardView, outcome: ForwardOutcome)
    requires
        is_in_bounds(s),
    ensures
        ({
            let (next, action) = forward::forwarded_step(s, outcome);
            let message = s.messages[s.sent as int];
            &&& action is Record <==> s.stage is Send && s.group is Some && message.is_reply
                && outcome is Sent && outcome->Sent_0 is Ok
            &&& action is Record ==> action == ForwardActionView::Record(
                s.group->0,
                message.text,
                json::int_view(outcome->Sent_0->Ok_0),
            )
        }),
{
}

/// What Alma wrote in a thread of a chat, and was not sent there, is forwarded as it is, if it fits:
/// it replies to nothing and mentions no one. Its thoughts are forwarded before it, if that is
/// wished.
pub proof fn law_foreign_reply_is_forwarded(
    sent: Map<Seq<char>, Seq<SentView>>,
    event: EventView,
    show_thinking: bool,
    now: u64,
)
    requires
        event.event_type == "message_updated"@,
        event.message_role == "assistant"@,
        !sent.dom().contains(event.thread_id) || sent[event.thread_id].len() == 0,
        0 < event.message_text.len(),
        model::byte_len(event.message_text) <= 4500,
        event.thinking_text matches Some(t) ==> 0 < t.len() && model::byte_len(t) <= 4500,
    ensures
        ({
            let messages = forward::handled(sent, event, true, show_thinking, now);
            let reply = OutgoingView {
                text: event.message_text,
                reply_to: None,
                at_user: None,
                is_reply: true,
            };
            let thought = OutgoingView {
                text: event.thinking_text->0,
                reply_to: None,
                at_user: None,
                is_reply: false,
            };
            &&& show_thinking && event.thinking_text is Some ==> messages == seq![thought, reply]
            &&& !show_thinking || event.thinking_text is None ==> messages == seq![reply]
        }),
{
    let messages = forward::handled(sent, event, true, show_thinking, now);
    let known = replies::recent(replies::replies_of(sent, event.thread_id), now);
    assert(replies::replies_of(sent, event.thread_id).len() == 0);
    assert(known.len() == 0);
    assert(!replies::is_among(known, event.message_text));
    let reply = OutgoingView {
        text: event.message_text,
        reply_to: None,
        at_user: None,
        is_reply: true,
    };
    if show_thinking && event.thinking_text is Some {
        let thought = OutgoingView {
            text: event.thinking_text->0,
            reply_to: None,
            at_user: None,
            is_reply: false,
        };
        assert(messages =~= seq![thought, reply]);
    } else {
        assert(messages =~= seq![reply]);
    }
}

/// Nothing is forwarded of a thread without a chat, nor of an event that tells of nothing that Alma
/// wrote.
pub proof fn law_other_events_are_not_forwarded(
    sent: Map<Seq<char>, Seq<SentView>>,
    event: EventView,
    has_target: bool,
    show_thinking: bool,
    now: u64,
)
    requires
        !has_target || event.event_type != "message_updated"@ || event.message_role
            != "assistant"@,
    ensures
        forward::handled(sent, event, has_target, show_thinking, now).len() == 0,
        forward::handled_replies(sent, event, has_target, now) == sent,
{
}

/// A forwarded reply is recorded with the group that it was sent to; a private chat has none.
pub proof fn law_forwarding_knows_its_group(
    sent: Map<Seq<char>, Seq<SentView>>,
    event: EventView,
    target: QqTarget,
    show_thinking: bool,
    now: u64,
)
    ensures
        target.target_type@ == "group"@ ==> forward::forwarding_begun(
            sent,
            event,
            Some(target),
            show_thinking,
            now,
        ).0.group == Some(target.target_id as int),
        target.target_type@ != "group"@ ==> forward::forwarding_begun(
            sent,
            event,
            Some(target),
            show_thinking,
            now,
        ).0.group is None,
{
}

} // verus!
