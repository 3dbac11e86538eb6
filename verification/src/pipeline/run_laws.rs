//! What holds of every run of the bridge.
use super::message;
use super::run;
use super::run::{ActionView, Outcome, RunSettings, RunView, Stage};
use super::split;
use super::split_laws;
use crate::json;
use crate::json::Json;
use crate::onebot::event::OneBotEvent;
use crate::text::model;
use vstd::prelude::*;

verus! {

proof fn lemma_with_id(e: OneBotEvent, s: RunView)
    ensures
        ({
            let (t, a) = run::with_id(e, s);
            ||| t.stage is Done && a is Finish
            ||| t.stage is Quote && a is FetchQuoted
            ||| t.stage is Forward && a is FetchForward
            ||| t.stage is Profile && a is EnsureProfile
        }),
{
}

proof fn lemma_replied(
    e: OneBotEvent,
    set: RunSettings,
    s: RunView,
    reply: Seq<char>,
    thinking: Option<Seq<char>>,
)
    ensures
        ({
            let (t, a) = run::replied(e, set, s, reply, thinking);
            ||| t.stage is Done && a is Finish
            ||| t.stage is Deliver && a is Deliver && t.sent < t.queue.len()
        }),
{
}

proof fn lemma_attempted(e: OneBotEvent, set: RunSettings, s: RunView)
    ensures
        ({
            let (t, a) = run::attempted(e, set, s);
            ||| t.stage is Done && a is Finish
            ||| t.stage is Deliver && a is Deliver && t.sent < t.queue.len()
            ||| t.stage is Connect && a is Connect && t.attempt == s.attempt <= set.max_retries
            ||| t.stage is Pause && a is Wait && t.attempt == s.attempt <= set.max_retries
        }),
{
    if s.attempt > set.max_retries {
        lemma_replied(e, set, s, run::ALMA_ERROR_REPLY@, None);
    }
}

/// How a step of a run goes: where it stands then, and what it does.
spec fn is_step(set: RunSettings, s: RunView, t: RunView, a: ActionView) -> bool {
    match s.stage {
        Stage::Title => {
            ||| t.stage is Record && a is Record
            ||| t.stage is Done && a is Finish
            ||| t.stage is Quote && a is FetchQuoted
            ||| t.stage is Forward && a is FetchForward
            ||| t.stage is Profile && a is EnsureProfile
        },
        Stage::Record => {
            ||| t.stage is Done && a is Finish
            ||| t.stage is Quote && a is FetchQuoted
            ||| t.stage is Forward && a is FetchForward
            ||| t.stage is Profile && a is EnsureProfile
        },
        Stage::Quote => {
            ||| t.stage is Done && a is Finish
            ||| t.stage is Forward && a is FetchForward
            ||| t.stage is Profile && a is EnsureProfile
        },
        Stage::Forward => t.stage is Profile && a is EnsureProfile,
        Stage::Profile => t.stage is Thread && a is ResolveThread,
        Stage::Thread => {
            ||| t.stage is Done && a is Finish
            ||| t.stage is Client && a is Connect
        },
        Stage::Client => {
            ||| t.stage is Refusal && a is Say
            ||| t.stage is Prepare && a is Prepare
        },
        Stage::Refusal => t.stage is Done && a is Finish,
        Stage::Prepare => {
            ||| t.stage is Notice && a is Say
            ||| is_attempt(set, s.attempt, t, a)
        },
        Stage::Notice => is_attempt(set, s.attempt, t, a),
        Stage::Pause => t.stage is Connect && a is Connect && t.attempt == s.attempt,
        Stage::Connect => {
            ||| t.stage is Generate && a is Generate && t.attempt == s.attempt
            ||| is_attempt(set, s.attempt + 1, t, a)
        },
        Stage::Generate => is_attempt(set, s.attempt + 1, t, a),
        Stage::Deliver => {
            ||| t.stage is Remember && a is Remember && t.sent == s.sent && t.queue == s.queue
            ||| is_delivery(s, t, a)
        },
        Stage::Remember => is_delivery(s, t, a),
        Stage::Done => false,
    }
}

spec fn is_attempt(set: RunSettings, attempt: nat, t: RunView, a: ActionView) -> bool {
    ||| t.stage is Done && a is Finish
    ||| t.stage is Deliver && a is Deliver && t.sent < t.queue.len()
    ||| t.stage is Connect && a is Connect && t.attempt == attempt <= set.max_retries
    ||| t.stage is Pause && a is Wait && t.attempt == attempt <= set.max_retries
}

spec fn is_delivery(s: RunView, t: RunView, a: ActionView) -> bool {
    ||| t.stage is Done && a is Finish
    ||| t.stage is Deliver && a is Deliver && t.sent == s.sent + 1 && t.queue == s.queue && t.sent
        < t.queue.len()
}

proof fn lemma_step(e: OneBotEvent, set: RunSettings, s: RunView, outcome: Outcome)
    requires
        is_in_bounds(set, s),
    ensures
        ({
            let (t, a) = run::advanced(e, set, s, outcome);
            ||| t == s && a is Nothing
            ||| is_step(set, s, t, a)
        }),
{
    match (s.stage, outcome) {
        (Stage::Title, Outcome::Title(title)) => {
            lemma_with_id(e, RunView { title: json::text_view(title), ..s });
        },
        (Stage::Record, Outcome::Done) => {
            lemma_with_id(e, s);
        },
        (
            Stage::Prepare,
            Outcome::Prepared { default_model, file_parts, ephemeral_context },
        ) => {
            let model = if s.existing {
                None
            } else {
                match default_model {
                    Some(m) => Some(m@),
                    None => Some(set.fallback_model@),
                }
            };
            let ready = RunView {
                model,
                file_parts: json::views_of(file_parts@),
                ephemeral_context: ephemeral_context@,
                ..s
            };
            lemma_attempted(e, set, ready);
        },
        (Stage::Notice, Outcome::Done) => {
            lemma_attempted(e, set, s);
        },
        (Stage::Connect, Outcome::Connected(Err(_))) => {
            lemma_attempted(e, set, RunView { attempt: s.attempt + 1, ..s });
        },
        (Stage::Generate, Outcome::Generated(Ok((reply, thinking)))) => {
            lemma_replied(e, set, s, reply@, json::text_view(thinking));
        },
        (Stage::Generate, Outcome::Generated(Err(_))) => {
            lemma_attempted(e, set, RunView { attempt: s.attempt + 1, ..s });
        },
        _ => {},
    }
}

/// Whether a run has gone on past the point where it is decided if the message is answered.
pub open spec fn is_past_decision(s: RunView) -> bool {
    !(s.stage is Title || s.stage is Record || s.stage is Quote || s.stage is Done)
}

/// Alma is asked, and the chat is written to, only for a message that is meant for the bot, in
/// a group only for one that mentions it: a run goes past that point for no other, and stays so
/// whatever happens.
pub proof fn law_only_calls_are_answered(
    e: OneBotEvent,
    set: RunSettings,
    s: RunView,
    outcome: Outcome,
)
    requires
        is_past_decision(s) ==> message::answered(e),
    ensures
        is_past_decision(run::started(e).0) ==> message::answered(e),
        is_past_decision(run::advanced(e, set, s, outcome).0) ==> message::answered(e),
{
}

/// Whether an action asks Alma or writes to the chat.
pub open spec fn is_outward(a: ActionView) -> bool {
    ||| a is EnsureProfile
    ||| a is ResolveThread
    ||| a is Connect
    ||| a is Prepare
    ||| a is Say
    ||| a is Generate
    ||| a is Deliver
}

/// A step that asks Alma or writes to the chat leaves the run past that point.
pub proof fn law_outward_steps_follow_the_decision(
    e: OneBotEvent,
    set: RunSettings,
    s: RunView,
    outcome: Outcome,
)
    requires
        is_in_bounds(set, s),
    ensures
        is_outward(run::started(e).1) ==> is_past_decision(run::started(e).0),
        is_outward(run::advanced(e, set, s, outcome).1) ==> is_past_decision(
            run::advanced(e, set, s, outcome).0,
        ),
{
    lemma_with_id(e, run::unstarted());
    lemma_step(e, set, s, outcome);
}

/// A message to a group that says anything is recorded before it is decided whether it is
/// answered, whatever the group is called.
pub proof fn law_group_message_is_recorded(
    e: OneBotEvent,
    set: RunSettings,
    title: Option<String>,
)
    requires
        message::looked_at(e) == Ok::<bool, Seq<char>>(true),
        message::in_group(e),
        run::recorded_text(e).len() > 0,
    ensures
        run::started(e).1 == ActionView::FindTitle(message::group_of(e)),
        run::advanced(e, set, run::started(e).0, Outcome::Title(title)).1 == ActionView::Record(
            json::text_view(title),
            run::recorded_text(e),
        ),
{
}

/// How far a run is from its end: first by its phase, and in a phase by what is left of it.
pub open spec fn distance(set: RunSettings, s: RunView) -> (int, int) {
    let left = set.max_retries - s.attempt;
    let unsent = s.queue.len() - s.sent;
    match s.stage {
        Stage::Title => (2, 9),
        Stage::Record => (2, 8),
        Stage::Quote => (2, 7),
        Stage::Forward => (2, 6),
        Stage::Profile => (2, 5),
        Stage::Thread => (2, 4),
        Stage::Client => (2, 3),
        Stage::Refusal => (2, 2),
        Stage::Prepare => (2, 1),
        Stage::Notice => (2, 0),
        Stage::Pause => (1, 3 * left + 2),
        Stage::Connect => (1, 3 * left + 1),
        Stage::Generate => (1, 3 * left),
        Stage::Deliver => (0, 2 * unsent + 1),
        Stage::Remember => (0, 2 * unsent),
        Stage::Done => (0, 0),
    }
}

/// Whether `a` is nearer to the end than `b`.
pub open spec fn is_nearer(a: (int, int), b: (int, int)) -> bool {
    a.0 < b.0 || (a.0 == b.0 && 0 <= a.1 < b.1)
}

/// Whether the counters of a run are within their bounds.
pub open spec fn is_in_bounds(set: RunSettings, s: RunView) -> bool {
    &&& (s.stage is Pause || s.stage is Connect || s.stage is Generate) ==> s.attempt
        <= set.max_retries
    &&& (s.stage is Deliver || s.stage is Remember) ==> s.sent < s.queue.len()
}

/// Every run comes to its end: each outcome that is waited for brings it nearer, and there are
/// no more attempts than were set, nor more messages than there are to send.
pub proof fn law_every_outcome_brings_the_end_nearer(
    e: OneBotEvent,
    set: RunSettings,
    s: RunView,
    outcome: Outcome,
)
    requires
        is_in_bounds(set, s),
    ensures
        is_in_bounds(set, run::started(e).0),
        is_in_bounds(set, run::advanced(e, set, s, outcome).0),
        run::advanced(e, set, s, outcome).1 is Nothing || is_nearer(
            distance(set, run::advanced(e, set, s, outcome).0),
            distance(set, s),
        ),
{
    lemma_with_id(e, run::unstarted());
    lemma_step(e, set, s, outcome);
}

/// Once a run is at its end, nothing more is done.
pub proof fn law_finished_run_stays_finished(
    e: OneBotEvent,
    set: RunSettings,
    s: RunView,
    outcome: Outcome,
)
    ensures
        run::advanced(e, set, s, outcome).1 is Finish ==> run::advanced(e, set, s, outcome).0.stage
            is Done,
        s.stage is Done ==> run::advanced(e, set, s, outcome) == (s, ActionView::Nothing),
{
}

/// A thread that was there before keeps its own model.
pub proof fn law_existing_thread_keeps_its_model(
    e: OneBotEvent,
    set: RunSettings,
    s: RunView,
    outcome: Outcome,
)
    requires
        is_past_prepare(s) && s.existing ==> s.model is None,
    ensures
        is_past_prepare(run::advanced(e, set, s, outcome).0) && run::advanced(
            e,
            set,
            s,
            outcome,
        ).0.existing ==> run::advanced(e, set, s, outcome).0.model is None,
{
}

/// A new thread always gets a model: the one that is set for new threads, or else the fallback.
pub proof fn law_new_thread_gets_a_model(
    e: OneBotEvent,
    set: RunSettings,
    s: RunView,
    default_model: Option<String>,
    file_parts: Vec<Json>,
    ephemeral_context: String,
)
    requires
        s.stage is Prepare,
        !s.existing,
    ensures
        run::advanced(
            e,
            set,
            s,
            Outcome::Prepared { default_model, file_parts, ephemeral_context },
        ).0.model == (match default_model {
            Some(m) => Some(m@),
            None => Some(set.fallback_model@),
        }),
{
}

/// Whether a run has what it needs to ask Alma.
pub open spec fn is_past_prepare(s: RunView) -> bool {
    s.stage is Notice || s.stage is Pause || s.stage is Connect || s.stage is Generate
}

proof fn lemma_paragraph_texts(paragraphs: Seq<Seq<char>>)
    requires
        forall|i: int| 0 <= i < paragraphs.len() ==> (#[trigger] paragraphs[i]).len() > 0,
    ensures
        forall|i: int|
            0 <= i < run::paragraph_texts(paragraphs).len() ==> {
                let text = #[trigger] run::paragraph_texts(paragraphs)[i];
                0 < text.len() && model::byte_len(text) <= split::QQ_MSG_LIMIT
            },
        paragraphs.len() > 0 ==> run::paragraph_texts(paragraphs).len() > 0,
    decreases paragraphs.len(),
{
    if paragraphs.len() > 0 {
        let init = paragraphs.drop_last();
        assert forall|i: int| 0 <= i < init.len() implies (#[trigger] init[i]).len() > 0 by {
            assert(init[i] == paragraphs[i]);
        }
        lemma_paragraph_texts(init);
        let last = paragraphs.last();
        assert(paragraphs[paragraphs.len() - 1].len() > 0);
        split_laws::law_chunks_fit(last, split::QQ_MSG_LIMIT as nat);
        split_laws::law_chunks_are_not_empty(last, split::QQ_MSG_LIMIT as nat);
        let before = run::paragraph_texts(init);
        let chunks = split::split_into(last, split::QQ_MSG_LIMIT as nat);
        assert forall|i: int| 0 <= i < (before + chunks).len() implies {
            let text = #[trigger] (before + chunks)[i];
            0 < text.len() && model::byte_len(text) <= split::QQ_MSG_LIMIT
        } by {
            if i >= before.len() {
                assert((before + chunks)[i] == chunks[i - before.len()]);
            } else {
                assert((before + chunks)[i] == before[i]);
            }
        }
    }
}

proof fn lemma_nonblank(parts: Seq<Seq<char>>)
    ensures
        forall|i: int|
            0 <= i < model::trimmed_nonblank(parts).len() ==> (#[trigger] model::trimmed_nonblank(
                parts,
            )[i]).len() > 0,
    decreases parts.len(),
{
    if parts.len() > 0 {
        lemma_nonblank(parts.drop_last());
        let rest = model::trimmed_nonblank(parts.drop_last());
        let last = model::trimmed(parts.last());
        if last.len() > 0 {
            assert forall|i: int| 0 <= i < rest.push(last).len() implies (#[trigger] rest.push(
                last,
            )[i]).len() > 0 by {
                if i < rest.len() {
                    assert(rest.push(last)[i] == rest[i]);
                }
            }
        }
    }
}

/// Every message that a reply is sent in holds something and fits into a QQ message, and the
/// first one alone replies to the message that was answered.
pub proof fn law_reply_messages_fit(e: OneBotEvent, visible: Seq<char>)
    ensures
        forall|i: int|
            0 <= i < run::reply_messages(e, visible).len() ==> {
                let m = #[trigger] run::reply_messages(e, visible)[i];
                &&& m.is_reply
                &&& 0 < m.text.len()
                &&& model::byte_len(m.text) <= split::QQ_MSG_LIMIT
                &&& m.reply_to is Some == (i == 0)
                &&& m.at_user is Some == (i == 0 && message::in_group(e))
            },
{
    lemma_nonblank(model::split_on(visible, "\n\n"@));
    lemma_paragraph_texts(split::paragraphs(visible));
}

/// The thoughts of Alma are sent only where that is wished, and never as a reply.
pub proof fn law_thoughts_are_sent_only_if_wished(set: RunSettings, thinking: Option<Seq<char>>)
    ensures
        !set.show_thinking ==> run::thought_messages(set, thinking).len() == 0,
        forall|i: int|
            0 <= i < run::thought_messages(set, thinking).len() ==> !(
            #[trigger] run::thought_messages(set, thinking)[i]).is_reply,
{
}

/// After the last attempt has failed the chat is told so: the error is what is delivered.
pub proof fn law_last_failure_is_told(e: OneBotEvent, set: RunSettings, s: RunView, m: String)
    requires
        s.stage is Generate,
        s.attempt == set.max_retries,
    ensures
        run::advanced(e, set, s, Outcome::Generated(Err(m))) == run::replied(
            e,
            set,
            RunView { attempt: s.attempt + 1, ..s },
            run::ALMA_ERROR_REPLY@,
            None,
        ),
{
}

} // verus!
