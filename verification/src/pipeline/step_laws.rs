//! What the steps of a run do, one by one.
use super::context;
use super::context_laws;
use super::media::DownloadView;
use super::message;
use super::message_laws;
use super::message_laws::is_made_of;
use super::run;
use super::run::{ActionView, Outcome, OutgoingView, RunSettings, RunView, Stage};
use super::split;
use super::split_laws;
use crate::alma_ws::reply_laws;
use crate::json;
use crate::onebot::api::QuotedMessage;
use crate::onebot::event;
use crate::onebot::event::{OneBotEvent, Part, SegmentView};
use crate::onebot::event_laws;
use crate::onebot::event_laws::{is_segment, is_written};
use crate::text::facts;
use crate::text::model;
use crate::text::number;
use vstd::prelude::*;

verus! {

/// Whether a message is of a group.
pub open spec fn is_of_group(e: OneBotEvent) -> bool {
    json::text_view(e.message_type) == Some("group"@)
}

/// A run begins with the title of the group, if the message is of one; a message without anything
/// to look at ends it.
pub proof fn law_run_begins(e: OneBotEvent)
    ensures
        message::looked_at(e) == Ok::<bool, Seq<char>>(true) && is_of_group(e) ==> run::started(e).1
            == ActionView::FindTitle(e.group_id->0 as int),
        message::looked_at(e) == Ok::<bool, Seq<char>>(false) ==> run::started(e).1
            == ActionView::Finish(Ok(())),
        message::looked_at(e) is Err ==> run::started(e).1 == ActionView::Finish(
            Err(message::looked_at(e)->Err_0),
        ),
{
}

/// A message that replies to another has that one fetched, once the message is recorded; a message
/// without an id ends the run. A message of a private chat is not recorded.
pub proof fn law_quoted_message_is_fetched(
    e: OneBotEvent,
    set: RunSettings,
    s: RunView,
    segments: Seq<SegmentView>,
    id: Seq<char>,
)
    requires
        is_made_of(e, segments),
        segments.len() > 0,
        segments[0].segment_type == "reply"@,
        is_written(segments[0].data.get("id"@), id),
    ensures
        message::looked_at(e) == Ok::<bool, Seq<char>>(true) && !is_of_group(e) && e.message_id
            is Some ==> run::started(e).1 == ActionView::FetchQuoted(id),
        s.stage is Record && e.message_id is Some ==> run::advanced(e, set, s, Outcome::Done).1
            == ActionView::FetchQuoted(id),
        s.stage is Record && e.message_id is None ==> run::advanced(e, set, s, Outcome::Done).1
            == ActionView::Finish(Err("OneBot message event missing message_id"@)),
        message::looked_at(e) == Ok::<bool, Seq<char>>(true) && !is_of_group(e) && e.message_id
            is None ==> run::started(e).1 == ActionView::Finish(
            Err("OneBot message event missing message_id"@),
        ),
{
    assert(message::segments_of(e) =~= segments);
}

/// What a message replies to is told to Alma: whose message it is, its text, and its images.
pub proof fn law_quoted_message_is_known(
    e: OneBotEvent,
    set: RunSettings,
    s: RunView,
    quoted: QuotedMessage,
)
    requires
        s.stage is Quote,
    ensures
        ({
            let t = run::advanced(e, set, s, Outcome::Quoted(Some(quoted))).0;
            &&& t.to_bot == (quoted.sender_id == Some(e.self_id))
            &&& t.reply_context == Some(
                message::reply_words(
                    quoted.sender_id == Some(e.self_id),
                    quoted.sender_name@,
                    quoted.text@,
                ),
            )
            &&& t.quoted_images.len() == quoted.image_urls@.len()
            &&& forall|i: int|
                0 <= i < t.quoted_images.len() ==> #[trigger] t.quoted_images[i]
                    == quoted.image_urls@[i]@
        }),
        run::advanced(e, set, s, Outcome::Quoted(None)).0.reply_context == s.reply_context,
        run::advanced(e, set, s, Outcome::Quoted(None)).0.quoted_images == s.quoted_images,
{
}

/// A message that is answered has the messages that it forwards fetched, if it forwards any, and
/// else its sender is looked up; one that is not answered ends the run.
pub proof fn law_answered_message_goes_on(
    e: OneBotEvent,
    set: RunSettings,
    s: RunView,
    quoted: Option<QuotedMessage>,
    segments: Seq<SegmentView>,
    i: int,
    id: Seq<char>,
)
    requires
        is_made_of(e, segments),
        s.stage is Quote,
    ensures
        ({
            let a = run::advanced(e, set, s, Outcome::Quoted(quoted)).1;
            &&& !message::answered(e) ==> a == ActionView::Finish(Ok(()))
            &&& message::answered(e) && 0 <= i < segments.len() && segments[i].segment_type
                == "forward"@ && is_written(segments[i].data.get("id"@), id) && (forall|j: int|
                0 <= j < i ==> (#[trigger] segments[j]).segment_type != "forward"@) ==> a
                == ActionView::FetchForward(id)
            &&& message::answered(e) && (forall|j: int|
                0 <= j < segments.len() ==> (#[trigger] segments[j]).segment_type != "forward"@)
                ==> a == ActionView::EnsureProfile
        }),
{
    assert(message::segments_of(e) =~= segments);
    event_laws::law_forward_is_found_anywhere(segments, i, id);
}

/// A message of a private chat that neither replies nor forwards has its sender looked up at once.
pub proof fn law_private_message_goes_on(e: OneBotEvent, segments: Seq<SegmentView>)
    requires
        is_made_of(e, segments),
        message::looked_at(e) == Ok::<bool, Seq<char>>(true),
        !is_of_group(e),
        e.message_id is Some,
        forall|j: int|
            0 <= j < segments.len() ==> (#[trigger] segments[j]).segment_type != "forward"@
                && segments[j].segment_type != "reply"@,
    ensures
        run::started(e).1 == ActionView::EnsureProfile,
{
    assert(message::segments_of(e) =~= segments);
    event_laws::law_forward_is_found_anywhere(segments, 0, seq![]);
    event_laws::law_reply_is_the_first_segment(segments, seq![]);
}

/// The forwarded messages are told to Alma, and the sender is looked up.
pub proof fn law_forwarded_messages_are_known(
    e: OneBotEvent,
    set: RunSettings,
    s: RunView,
    nodes: Option<Vec<(String, String)>>,
)
    requires
        s.stage is Forward,
    ensures
        ({
            let (t, a) = run::advanced(e, set, s, Outcome::Forwarded(nodes));
            &&& t.forward_context == Some(message::forward_words(message::nodes_view(nodes)))
            &&& a is EnsureProfile
        }),
{
}

/// The thread of a chat is looked up under the chat's own name, once the sender is known.
pub proof fn law_thread_is_of_the_chat(e: OneBotEvent, set: RunSettings, s: RunView)
    requires
        s.stage is Profile,
    ensures
        is_of_group(e) && e.group_id is Some ==> run::advanced(e, set, s, Outcome::Done).1
            == ActionView::ResolveThread("group:"@ + number::dec(e.group_id->0 as int)),
        !is_of_group(e) && e.user_id is Some ==> run::advanced(e, set, s, Outcome::Done).1
            == ActionView::ResolveThread("private:"@ + number::dec(e.user_id->0 as int)),
{
    reveal_strlit("group:");
    reveal_strlit("group");
    reveal_strlit("private:");
    reveal_strlit("private");
    reveal_strlit(":");
    assert("group:"@ =~= "group"@ + ":"@);
    assert("private:"@ =~= "private"@ + ":"@);
}

/// The thread that was found is the one that is used; where none was found, the run fails with the
/// reason.
pub proof fn law_found_thread_is_used(
    e: OneBotEvent,
    set: RunSettings,
    s: RunView,
    thread: String,
    existing: bool,
    reason: String,
)
    requires
        s.stage is Thread,
    ensures
        run::advanced(e, set, s, Outcome::Thread(Ok((thread, existing)))).0.thread_id == thread@,
        run::advanced(e, set, s, Outcome::Thread(Ok((thread, existing)))).0.existing == existing,
        run::advanced(e, set, s, Outcome::Thread(Ok((thread, existing)))).1 is Connect,
        run::advanced(e, set, s, Outcome::Thread(Err(reason))).1 == ActionView::Finish(
            Err(reason@),
        ),
{
}

/// Where Alma cannot be reached, the chat is told so, and the run fails with the reason.
pub proof fn law_chat_is_told_that_alma_is_away(
    e: OneBotEvent,
    set: RunSettings,
    s: RunView,
    reason: String,
)
    requires
        s.stage is Client,
    ensures
        ({
            let (t, a) = run::advanced(e, set, s, Outcome::Connected(Err(reason)));
            &&& a == ActionView::Say("抱歉，我暂时无法回复 >_<"@)
            &&& run::advanced(e, set, t, Outcome::Done).1 == ActionView::Finish(Err(reason@))
        }),
{
}

/// What is downloaded for a message: its images, the images of the message that it quotes, and its
/// files, each in order and under a name.
pub proof fn law_files_are_downloaded(
    e: OneBotEvent,
    set: RunSettings,
    s: RunView,
    segments: Seq<SegmentView>,
    i: int,
)
    requires
        is_made_of(e, segments),
        s.stage is Client,
    ensures
        ({
            let images = event::parts_of(segments, Part::Image);
            let quoted = s.quoted_images;
            let files = event::files_of(segments);
            match run::advanced(e, set, s, Outcome::Connected(Ok(()))).1 {
                ActionView::Prepare(downloads) => {
                    &&& downloads.len() == images.len() + quoted.len() + files.len()
                    &&& 0 <= i < images.len() ==> downloads[i] == (DownloadView {
                        kind: "image"@,
                        filename: "image_"@ + number::dec(i + 1) + ".png"@,
                        url: images[i],
                    })
                    &&& 0 <= i < quoted.len() ==> downloads[images.len() + i] == (DownloadView {
                        kind: "quoted image"@,
                        filename: "quoted_image_"@ + number::dec(i + 1) + ".png"@,
                        url: quoted[i],
                    })
                    &&& 0 <= i < files.len() ==> downloads[images.len() + quoted.len() + i] == (
                    DownloadView { kind: "file"@, filename: files[i].0, url: files[i].1 })
                },
                _ => false,
            }
        }),
{
    assert(message::segments_of(e) =~= segments);
}

/// Before Alma is asked the chat is told that it thinks, if that is wished; then Alma is asked.
pub proof fn law_chat_is_told_that_alma_thinks(
    e: OneBotEvent,
    set: RunSettings,
    s: RunView,
    default_model: Option<String>,
    file_parts: Vec<json::Json>,
    ephemeral_context: String,
)
    requires
        s.stage is Prepare,
        s.attempt == 0,
    ensures
        ({
            let (t, a) = run::advanced(
                e,
                set,
                s,
                Outcome::Prepared { default_model, file_parts, ephemeral_context },
            );
            &&& set.thinking_message is Some ==> a == ActionView::Say(set.thinking_message->0@)
                && run::advanced(e, set, t, Outcome::Done).1 is Connect
            &&& set.thinking_message is None ==> a is Connect
            &&& t.ephemeral_context == ephemeral_context@
            &&& t.file_parts.len() == file_parts@.len()
            &&& forall|i: int|
                0 <= i < t.file_parts.len() ==> #[trigger] t.file_parts[i] == file_parts@[i]@
        }),
{
    let (t, a) = run::advanced(
        e,
        set,
        s,
        Outcome::Prepared { default_model, file_parts, ephemeral_context },
    );
    json::lemma_views(file_parts@);
    assert(t.file_parts == json::views_of(file_parts@));
}

/// Alma is asked in the thread of the chat, with the model of the thread, with the message, its
/// files and what it is told beside it; it is told whether the chat is a group.
pub proof fn law_alma_is_asked_for_the_message(e: OneBotEvent, set: RunSettings, s: RunView)
    requires
        s.stage is Connect,
        e.message_id is Some,
    ensures
        match run::advanced(e, set, s, Outcome::Connected(Ok(()))).1 {
            ActionView::Generate(request) => {
                &&& request.thread_id == s.thread_id
                &&& request.model == s.model
                &&& request.message == message::outgoing_text(
                    e,
                    e.message_id->0 as int,
                    s.forward_context,
                    s.reply_context,
                )
                &&& request.file_parts == s.file_parts
                &&& request.ephemeral_context == s.ephemeral_context
                &&& is_of_group(e) ==> request.source == "telegram-group"@
                &&& !is_of_group(e) ==> request.source == "telegram"@
            },
            _ => false,
        },
{
}

/// A failed attempt is followed by another, after a pause, as long as there were not too many; the
/// pause is as long as the attempts before it make it.
pub proof fn law_failed_attempt_is_made_again(
    e: OneBotEvent,
    set: RunSettings,
    s: RunView,
    reason: String,
)
    requires
        s.stage is Connect || s.stage is Generate,
        s.attempt < set.max_retries,
    ensures
        ({
            let (t, a) = run::advanced(
                e,
                set,
                s,
                if s.stage is Connect {
                    Outcome::Connected(Err(reason))
                } else {
                    Outcome::Generated(Err(reason))
                },
            );
            &&& a == ActionView::Wait(
                split::retry_delay(set.retry_delay_ms as nat, s.attempt + 1),
            )
            &&& t.attempt == s.attempt + 1
            &&& run::advanced(e, set, t, Outcome::Done).1 is Connect
            &&& run::advanced(e, set, t, Outcome::Done).0.attempt == s.attempt + 1
        }),
{
}

/// After the last attempt the chat is told, as the answer to the message, that there is none.
pub proof fn law_last_failure_is_the_answer(
    e: OneBotEvent,
    set: RunSettings,
    s: RunView,
    reason: String,
)
    requires
        s.stage is Connect || s.stage is Generate,
        s.attempt == set.max_retries,
        e.message_id is Some,
        e.user_id is Some,
    ensures
        ({
            let (t, a) = run::advanced(
                e,
                set,
                s,
                if s.stage is Connect {
                    Outcome::Connected(Err(reason))
                } else {
                    Outcome::Generated(Err(reason))
                },
            );
            &&& a == ActionView::Deliver(answer(e, "抱歉，我暂时无法回复 >_<"@))
            &&& t.queue.len() == 1
        }),
{
    lemma_error_reply();
    let text = "抱歉，我暂时无法回复 >_<"@;
    reply_laws::law_text_without_tags_shows(text);
    let t = RunView { attempt: s.attempt + 1, ..s };
    law_answer_is_one_message(e, text);
    let queue = run::thought_messages(set, None) + run::reply_messages(e, text);
    assert(queue =~= seq![answer(e, text)]);
}

proof fn lemma_error_reply()
    ensures
        ({
            let text = "抱歉，我暂时无法回复 >_<"@;
            &&& !text.contains('\r')
            &&& forall|i: int| 0 <= i < text.len() - 1 ==> #[trigger] text[i] != '<'
            &&& split_laws::is_paragraph(text)
            &&& model::byte_len(text) <= 4500
        }),
{
    reveal_strlit("抱歉，我暂时无法回复 >_<");
    reveal_strlit("\n\n");
    let text = "抱歉，我暂时无法回复 >_<"@;
    assert(text.len() == 14);
    if model::has_part(text, "\n\n"@) {
        let i = choose|i: int| model::occurs_at(text, "\n\n"@, i);
        assert(text.subrange(i, i + 2)[0] == text[i]);
    }
    facts::lemma_byte_len_take_monotone(text, 0, 14);
    assert(text.take(14) =~= text);
    assert(text.take(0) =~= seq![]);
}

/// The first message of an answer: it replies to the message, and in a group it mentions its sender.
pub open spec fn answer(e: OneBotEvent, text: Seq<char>) -> OutgoingView {
    OutgoingView {
        text,
        reply_to: Some(number::dec(e.message_id->0 as int)),
        at_user: if is_of_group(e) {
            Some(number::dec(e.user_id->0 as int))
        } else {
            None
        },
        is_reply: true,
    }
}

/// What shows of a reply is sent as one message for each of its paragraphs, in order, if they fit:
/// the first is the answer to the message, and none of the others replies or mentions anyone.
pub proof fn law_paragraphs_are_sent_in_order(e: OneBotEvent, parts: Seq<Seq<char>>)
    requires
        e.message_id is Some,
        e.user_id is Some,
        forall|i: int|
            0 <= i < parts.len() ==> split_laws::is_paragraph(#[trigger] parts[i])
                && model::byte_len(parts[i]) <= 4500,
    ensures
        ({
            let sent = run::reply_messages(e, model::joined(parts, "\n\n"@));
            &&& sent.len() == parts.len()
            &&& forall|i: int|
                0 <= i < parts.len() ==> #[trigger] sent[i] == (if i == 0 {
                    answer(e, parts[0])
                } else {
                    OutgoingView { text: parts[i], reply_to: None, at_user: None, is_reply: true }
                })
        }),
{
    split_laws::law_paragraphs_are_found(parts);
    lemma_fitting_paragraphs(parts);
}

proof fn lemma_fitting_paragraphs(parts: Seq<Seq<char>>)
    requires
        forall|i: int| 0 <= i < parts.len() ==> model::byte_len(#[trigger] parts[i]) <= 4500,
    ensures
        run::paragraph_texts(parts) == parts,
    decreases parts.len(),
{
    if parts.len() == 0 {
        assert(parts =~= seq![]);
    } else {
        let some = parts.drop_last();
        assert forall|i: int| 0 <= i < some.len() implies model::byte_len(#[trigger] some[i])
            <= 4500 by {
            assert(some[i] == parts[i]);
        }
        lemma_fitting_paragraphs(some);
        assert(model::byte_len(parts[parts.len() - 1]) <= 4500);
        assert(some + seq![parts.last()] =~= parts);
    }
}

/// A reply of one paragraph that fits is sent as one message, the answer.
pub proof fn law_answer_is_one_message(e: OneBotEvent, text: Seq<char>)
    requires
        e.message_id is Some,
        e.user_id is Some,
        split_laws::is_paragraph(text),
        model::byte_len(text) <= 4500,
    ensures
        run::reply_messages(e, text) == seq![answer(e, text)],
{
    let parts = seq![text];
    assert(model::joined(parts, "\n\n"@) == text);
    law_paragraphs_are_sent_in_order(e, parts);
    assert(run::reply_messages(e, text) =~= seq![answer(e, text)]);
}

/// What Alma wrote is sent as the answer to the message; its thoughts are sent before it, if that is
/// wished.
pub proof fn law_reply_is_sent(
    e: OneBotEvent,
    set: RunSettings,
    s: RunView,
    reply: String,
    thinking: Option<String>,
)
    requires
        s.stage is Generate,
        e.message_id is Some,
        e.user_id is Some,
        reply_laws::is_plain(reply@),
        split_laws::is_paragraph(reply@),
        model::byte_len(reply@) <= 4500,
        thinking matches Some(t) ==> reply_laws::is_plain(t@) && model::trimmed(t@) == t@
            && t@.len() > 0 && model::byte_len(t@) <= 4500,
    ensures
        ({
            let (t, a) = run::advanced(e, set, s, Outcome::Generated(Ok((reply, thinking))));
            let thought = OutgoingView {
                text: thinking->0@,
                reply_to: None,
                at_user: None,
                is_reply: false,
            };
            &&& thinking is None || !set.show_thinking ==> t.queue == seq![answer(e, reply@)] && a
                == ActionView::Deliver(answer(e, reply@))
            &&& thinking is Some && set.show_thinking ==> t.queue == seq![
                thought,
                answer(e, reply@),
            ] && a == ActionView::Deliver(thought)
        }),
{
    reply_laws::lemma_is_without_tags(reply@);
    reply_laws::law_text_without_tags_shows(reply@);
    law_answer_is_one_message(e, reply@);
    if thinking is Some {
        reply_laws::lemma_is_without_tags(thinking->0@);
        reply_laws::law_text_without_tags_shows(thinking->0@);
    }
    let (t, a) = run::advanced(e, set, s, Outcome::Generated(Ok((reply, thinking))));
    if thinking is None || !set.show_thinking {
        assert(t.queue =~= seq![answer(e, reply@)]);
    } else {
        let thought = OutgoingView {
            text: thinking->0@,
            reply_to: None,
            at_user: None,
            is_reply: false,
        };
        assert(split::split_into(thinking->0@, 4500) == seq![thinking->0@]);
        assert(t.queue =~= seq![thought, answer(e, reply@)]);
    }
}

/// A reply of which nothing shows is not sent.
pub proof fn law_empty_reply_is_not_sent(
    e: OneBotEvent,
    set: RunSettings,
    s: RunView,
    reply: String,
    thinking: Option<String>,
)
    requires
        s.stage is Generate,
        reply_laws::is_plain(reply@),
        model::is_blank(reply@),
    ensures
        run::advanced(e, set, s, Outcome::Generated(Ok((reply, thinking)))).1
            == ActionView::Finish(Ok(())),
{
    reply_laws::lemma_is_without_tags(reply@);
    reply_laws::law_text_without_tags_shows(reply@);
    let a = facts::lemma_trimmed_place(reply@);
    facts::lemma_trimmed_ends(reply@);
    let shown = model::trimmed(reply@);
    if shown.len() > 0 {
        assert(shown[0] == reply@[a]);
    }
}

/// A part of a reply that was sent is remembered with its thread, its text, the id under which it
/// was sent and the group; a thought is not. Then the next message is sent, or the run ends.
pub proof fn law_sent_reply_is_remembered(
    e: OneBotEvent,
    set: RunSettings,
    s: RunView,
    id: Option<i64>,
    reason: String,
)
    requires
        s.stage is Deliver,
        s.sent < s.queue.len(),
    ensures
        ({
            let (t, a) = run::advanced(e, set, s, Outcome::Delivered(Ok(id)));
            let next = if s.sent + 1 < s.queue.len() {
                ActionView::Deliver(s.queue[(s.sent + 1) as int])
            } else {
                ActionView::Finish(Ok(()))
            };
            &&& s.queue[s.sent as int].is_reply ==> {
                &&& a == ActionView::Remember(
                    s.thread_id,
                    s.queue[s.sent as int].text,
                    json::int_view(id),
                    if is_of_group(e) && e.group_id is Some {
                        Some(e.group_id->0 as int)
                    } else if is_of_group(e) {
                        Some(0)
                    } else {
                        None
                    },
                )
                &&& run::advanced(e, set, t, Outcome::Done).1 == next
                &&& run::advanced(e, set, t, Outcome::Done).0.sent == s.sent + 1
                &&& run::advanced(e, set, t, Outcome::Done).0.queue == s.queue
            }
            &&& !s.queue[s.sent as int].is_reply ==> a == next && t.sent == s.sent + 1 && t.queue
                == s.queue
            &&& run::advanced(e, set, s, Outcome::Delivered(Err(reason))).1 == next
        }),
{
}

/// Whether two states of a run know the same.
pub open spec fn know_the_same(s: RunView, t: RunView) -> bool {
    &&& t.title == s.title
    &&& t.reply_context == s.reply_context
    &&& t.quoted_images == s.quoted_images
    &&& t.to_bot == s.to_bot
    &&& t.forward_context == s.forward_context
    &&& t.thread_id == s.thread_id
    &&& t.existing == s.existing
    &&& t.model == s.model
    &&& t.file_parts == s.file_parts
    &&& t.ephemeral_context == s.ephemeral_context
}

proof fn lemma_helpers_keep(e: OneBotEvent, set: RunSettings, s: RunView)
    ensures
        know_the_same(s, run::decided(e, s).0),
        know_the_same(s, run::with_id(e, s).0),
        know_the_same(s, run::delivering(s).0),
{
}

proof fn lemma_replied_keeps(
    e: OneBotEvent,
    set: RunSettings,
    s: RunView,
    reply: Seq<char>,
    thinking: Option<Seq<char>>,
)
    ensures
        know_the_same(s, run::replied(e, set, s, reply, thinking).0),
{
}

proof fn lemma_attempted_keeps(e: OneBotEvent, set: RunSettings, s: RunView)
    ensures
        know_the_same(s, run::attempted(e, set, s).0),
{
    lemma_replied_keeps(e, set, s, run::ALMA_ERROR_REPLY@, None);
}

/// What a step learns stays known: only the steps that find out the title, what is quoted, what is
/// forwarded, the thread and what is needed to ask Alma change anything of it, each its own part.
pub proof fn law_what_is_known_stays_known(
    e: OneBotEvent,
    set: RunSettings,
    s: RunView,
    outcome: Outcome,
)
    ensures
        ({
            let t = run::advanced(e, set, s, outcome).0;
            &&& !(s.stage is Title || s.stage is Quote || s.stage is Forward || s.stage is Thread
                || s.stage is Prepare) ==> know_the_same(s, t)
            &&& s.stage is Title ==> know_the_same(RunView { title: t.title, ..s }, t)
            &&& s.stage is Quote ==> know_the_same(
                RunView {
                    reply_context: t.reply_context,
                    quoted_images: t.quoted_images,
                    to_bot: t.to_bot,
                    ..s
                },
                t,
            )
            &&& s.stage is Forward ==> know_the_same(
                RunView { forward_context: t.forward_context, ..s },
                t,
            )
            &&& s.stage is Thread ==> know_the_same(
                RunView { thread_id: t.thread_id, existing: t.existing, ..s },
                t,
            )
            &&& s.stage is Prepare ==> know_the_same(
                RunView {
                    model: t.model,
                    file_parts: t.file_parts,
                    ephemeral_context: t.ephemeral_context,
                    ..s
                },
                t,
            )
        }),
{
    let t = run::advanced(e, set, s, outcome).0;
    match (s.stage, outcome) {
        (Stage::Title, Outcome::Title(title)) => {
            lemma_helpers_keep(e, set, RunView { title: json::text_view(title), ..s });
        },
        (Stage::Record, Outcome::Done) => {
            lemma_helpers_keep(e, set, s);
        },
        (Stage::Quote, Outcome::Quoted(quoted)) => {
            lemma_helpers_keep(e, set, run::quoting(e, s, quoted));
        },
        (Stage::Prepare, Outcome::Prepared { default_model, file_parts, ephemeral_context }) => {
            let known = RunView {
                model: t.model,
                file_parts: json::views_of(file_parts@),
                ephemeral_context: ephemeral_context@,
                ..s
            };
            let model = if s.existing {
                None
            } else {
                match default_model {
                    Some(m) => Some(m@),
                    None => Some(set.fallback_model@),
                }
            };
            lemma_attempted_keeps(e, set, RunView { model, ..known });
        },
        (Stage::Notice, Outcome::Done) => {
            lemma_attempted_keeps(e, set, s);
        },
        (Stage::Connect, Outcome::Connected(Err(_))) => {
            lemma_attempted_keeps(e, set, RunView { attempt: s.attempt + 1, ..s });
        },
        (Stage::Generate, Outcome::Generated(Err(_))) => {
            lemma_attempted_keeps(e, set, RunView { attempt: s.attempt + 1, ..s });
        },
        (Stage::Generate, Outcome::Generated(Ok((reply, thinking)))) => {
            lemma_replied_keeps(e, set, s, reply@, json::text_view(thinking));
        },
        (Stage::Deliver, Outcome::Delivered(_)) => {
            lemma_helpers_keep(e, set, RunView { sent: s.sent + 1, ..s });
        },
        (Stage::Remember, Outcome::Done) => {
            lemma_helpers_keep(e, set, RunView { sent: s.sent + 1, ..s });
        },
        _ => {},
    }
}

/// What is recorded of a message of a group holds every text and face of it, and a mark for each of
/// its media.
pub proof fn law_group_message_is_recorded_whole(
    e: OneBotEvent,
    set: RunSettings,
    s: RunView,
    title: Option<String>,
    segments: Seq<SegmentView>,
    i: int,
    told: Seq<char>,
)
    requires
        is_made_of(e, segments),
        s.stage is Title,
        0 <= i < segments.len(),
        told.len() > 0,
        ({
            ||| message_laws::is_face(segments[i], told)
            ||| exists|text: Seq<char>| #[trigger]
                is_segment(segments[i], "text"@, "text"@, text) && told == model::trimmed(text)
            ||| segments[i].segment_type == "record"@ && told == "[Voice message]"@
            ||| segments[i].segment_type == "video"@ && told == "[Video]"@
            ||| segments[i].segment_type == "image"@ && segments[i].data.get("type"@) is None
                && told == "[Image]"@
        }),
    ensures
        match run::advanced(e, set, s, Outcome::Title(title)).1 {
            ActionView::Record(t, text) => t == json::text_view(title) && model::has_part(
                text,
                told,
            ),
            _ => false,
        },
{
    let text = message::text_of(e);
    let marks = message::media_lines_of(e);
    let kept = context::observed_text(text, marks);
    assert(message::segments_of(e) =~= segments);
    if message_laws::is_face(segments[i], told) {
        message_laws::law_face_is_in_the_text(e, segments, i, told);
        message_laws::lemma_face_ends(segments[i], told);
        lemma_kept_text(text, marks, told);
    } else if exists|t: Seq<char>| #[trigger]
        is_segment(segments[i], "text"@, "text"@, t) && told == model::trimmed(t) {
        let t = choose|t: Seq<char>| #[trigger]
            is_segment(segments[i], "text"@, "text"@, t) && told == model::trimmed(t);
        message_laws::law_text_is_in_the_text(e, segments, i, t);
        facts::lemma_trimmed_ends(t);
        lemma_kept_text(text, marks, told);
    } else {
        event_laws::law_media_segments_tell_their_kind(segments[i], seq![], seq![]);
        lemma_one_mark(segments[i], told);
        event_laws::lemma_part_is_told(segments, Part::Media, i);
        let j = choose|j: int| 0 <= j < marks.len() && marks[j] == told;
        lemma_mark_ends(told);
        context_laws::law_observed_text(text, marks, j);
    }
    let at = choose|at: int| model::occurs_at(kept, told, at);
    assert(kept.len() > 0);
}

proof fn lemma_one_mark(seg: SegmentView, told: Seq<char>)
    requires
        event::parts_of(seq![seg], Part::Media) == seq![told],
    ensures
        event::part_of(seg, Part::Media) == Some(told),
{
    reveal_with_fuel(event::parts_of, 2);
    assert(seq![seg].drop_last() =~= seq![]);
    assert(event::parts_of(seq![seg], Part::Media)[0] == told);
}

proof fn lemma_mark_ends(told: Seq<char>)
    requires
        told == "[Voice message]"@ || told == "[Video]"@ || told == "[Image]"@,
    ensures
        model::trimmed(told) == told,
        told.len() > 0,
{
    reveal_strlit("[Voice message]");
    reveal_strlit("[Video]");
    reveal_strlit("[Image]");
    let none = Seq::<char>::empty();
    assert(told[0] == '[' && told.last() == ']');
    facts::lemma_trimmed_core(none, told, none);
    assert(none + told + none =~= told);
}

proof fn lemma_kept_text(text: Seq<char>, marks: Seq<Seq<char>>, told: Seq<char>)
    requires
        model::has_part(text, told),
        told.len() > 0,
        !model::is_whitespace(told[0]),
        !model::is_whitespace(told.last()),
    ensures
        model::has_part(context::observed_text(text, marks), told),
{
    facts::lemma_part_of_trimmed(text, told);
    let t = model::trimmed(text);
    let at = choose|at: int| model::occurs_at(t, told, at);
    assert(t.len() > 0);
    let rest = model::joined(model::trimmed_nonblank(marks), " "@);
    facts::lemma_part_of_either(t, " "@, told);
    facts::lemma_part_of_either(t + " "@, rest, told);
}

} // verus!
