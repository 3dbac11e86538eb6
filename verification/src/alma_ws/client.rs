//! The state of the connection to Alma: which generations are pending, which threads and
//! messages belong to the bridge, and which events wait to be forwarded.
use crate::json::{Json, JsonView};
use crate::json;
use crate::text::model;
use crate::text::number;
use crate::text::ops;
use crate::text::table::TextMap;
use crate::text::table;
use super::message;
use super::visible_text;
use vstd::prelude::*;
use vstd::string::*;

verus! {

/// How long a completed reply is remembered, in milliseconds.
pub const RECENT_BRIDGE_GENERATION_TTL_MS: u64 = 30_000;

/// How many completed replies of a thread are remembered.
pub const RECENT_BRIDGE_GENERATION_LIMIT: usize = 8;

/// How long updates of a thread are kept back after a failed generation, in milliseconds.
pub const STALE_BRIDGE_GENERATION_SUPPRESSION_TTL_MS: u64 = 120_000;

/// How long a message is known to be the bridge's own, in milliseconds.
pub const BRIDGE_OWNED_ASSISTANT_MESSAGE_TTL_MS: u64 = 3_600_000;

/// An event of Alma that is to be forwarded.
pub struct AlmaEvent {
    pub event_type: String,
    pub thread_id: String,
    pub message_role: String,
    pub message_text: String,
    pub thinking_text: Option<String>,
}

/// The model of an event.
pub struct EventView {
    pub event_type: Seq<char>,
    pub thread_id: Seq<char>,
    pub message_role: Seq<char>,
    pub message_text: Seq<char>,
    pub thinking_text: Option<Seq<char>>,
}

impl View for AlmaEvent {
    type V = EventView;

    open spec fn view(&self) -> EventView {
        EventView {
            event_type: self.event_type@,
            thread_id: self.thread_id@,
            message_role: self.message_role@,
            message_text: self.message_text@,
            thinking_text: json::text_view(self.thinking_text),
        }
    }
}

/// A generation whose reply is still awaited.
pub struct PendingGeneration {
    /// The bridge's own number of the generation. It keeps a late cleanup from removing a
    /// newer attempt.
    pub generation_id: u64,
    /// What has arrived of the reply.
    pub text: String,
    /// The id that Alma gave to the user's message.
    pub user_message_id: Option<String>,
    /// A thread can be reported as done just before the error that ended it. An empty
    /// generation is kept for a moment, so that the error is not lost.
    pub empty_response_grace_started: bool,
}

/// The model of a pending generation.
pub struct PendingView {
    pub generation_id: u64,
    pub text: Seq<char>,
    pub user_message_id: Option<Seq<char>>,
    pub empty_response_grace_started: bool,
}

impl View for PendingGeneration {
    type V = PendingView;

    open spec fn view(&self) -> PendingView {
        PendingView {
            generation_id: self.generation_id,
            text: self.text@,
            user_message_id: json::text_view(self.user_message_id),
            empty_response_grace_started: self.empty_response_grace_started,
        }
    }
}

/// A reply that the bridge got and sent.
pub struct RecentBridgeGeneration {
    pub text: String,
    pub completed_at: u64,
}

/// The model of a remembered reply.
pub struct RecentView {
    pub text: Seq<char>,
    pub completed_at: u64,
}

impl View for RecentBridgeGeneration {
    type V = RecentView;

    open spec fn view(&self) -> RecentView {
        RecentView { text: self.text@, completed_at: self.completed_at }
    }
}

/// The reply of a generation.
pub struct GenerationResponse {
    pub text: String,
    pub user_message_id: Option<String>,
    pub thinking: Option<String>,
}

/// The model of a reply.
pub struct ResponseView {
    pub text: Seq<char>,
    pub user_message_id: Option<Seq<char>>,
    pub thinking: Option<Seq<char>>,
}

impl View for GenerationResponse {
    type V = ResponseView;

    open spec fn view(&self) -> ResponseView {
        ResponseView {
            text: self.text@,
            user_message_id: json::text_view(self.user_message_id),
            thinking: json::text_view(self.thinking),
        }
    }
}

/// What is to be done after a step of the client.
pub enum Effect {
    /// The one who waits for a generation gets its result.
    Resolve { generation_id: u64, result: Result<GenerationResponse, String> },
    /// After a second the thread's generation is resolved as it is by then.
    StartEmptyGrace { thread_id: String },
}

/// The model of an effect.
pub enum EffectView {
    Resolve { generation_id: u64, result: Result<ResponseView, Seq<char>> },
    StartEmptyGrace { thread_id: Seq<char> },
}

/// The model of a result.
pub open spec fn result_view(r: Result<GenerationResponse, String>) -> Result<
    ResponseView,
    Seq<char>,
> {
    match r {
        Ok(v) => Ok(v@),
        Err(e) => Err(e@),
    }
}

impl View for Effect {
    type V = EffectView;

    open spec fn view(&self) -> EffectView {
        match *self {
            Effect::Resolve { generation_id, result } => EffectView::Resolve {
                generation_id,
                result: result_view(result),
            },
            Effect::StartEmptyGrace { thread_id } => EffectView::StartEmptyGrace {
                thread_id: thread_id@,
            },
        }
    }
}

/// The models of effects.
pub open spec fn effect_views(v: Seq<Effect>) -> Seq<EffectView> {
    v.map_values(|e: Effect| e@)
}

/// The model of the client.
#[verifier::ext_equal]
pub struct ClientView {
    pub connected: bool,
    pub next_generation_id: u64,
    /// The pending generation of each thread.
    pub pending: Map<Seq<char>, PendingView>,
    /// Until when updates of a thread are the bridge's own.
    pub suppressed_until: Map<Seq<char>, u64>,
    /// Until when a message is known to be the bridge's own.
    pub owned_until: Map<Seq<char>, u64>,
    /// The threads that are generating.
    pub generating: Set<Seq<char>>,
    /// The last update of a thread that came while it was generating.
    pub buffered: Map<Seq<char>, EventView>,
    /// The last replies of a thread that the bridge got.
    pub recent: Map<Seq<char>, Seq<RecentView>>,
    /// The events that wait to be forwarded, in order.
    pub events: Seq<EventView>,
}

/// The time `ttl` after `now`.
pub open spec fn later(now: u64, ttl: u64) -> u64 {
    if now + ttl > u64::MAX {
        u64::MAX
    } else {
        (now + ttl) as u64
    }
}

/// The reply of a pending generation.
pub open spec fn response_of(pg: PendingView) -> ResponseView {
    ResponseView {
        text: visible_text::visible(pg.text),
        user_message_id: pg.user_message_id,
        thinking: visible_text::thinking(pg.text),
    }
}

/// The result of a pending generation as it is: an error where nothing of it is visible.
pub open spec fn result_of(pg: PendingView) -> Result<ResponseView, Seq<char>> {
    if visible_text::visible(pg.text).len() == 0 {
        Err("Empty response from Alma"@)
    } else {
        Ok(response_of(pg))
    }
}

/// The client after updates of a thread are kept back until `ttl` from now, at the least.
pub open spec fn with_activity(c: ClientView, thread: Seq<char>, now: u64, ttl: u64) -> ClientView {
    let until = later(now, ttl);
    if c.suppressed_until.dom().contains(thread) && c.suppressed_until[thread] >= until {
        c
    } else {
        ClientView { suppressed_until: c.suppressed_until.insert(thread, until), ..c }
    }
}

/// The last replies of a thread, with one more.
pub open spec fn remembered(list: Seq<RecentView>, text: Seq<char>, now: u64) -> Seq<RecentView> {
    let more = list.push(RecentView { text, completed_at: now });
    if more.len() > RECENT_BRIDGE_GENERATION_LIMIT {
        more.skip(more.len() - RECENT_BRIDGE_GENERATION_LIMIT)
    } else {
        more
    }
}

/// The client after a reply of a thread is remembered by its words.
pub open spec fn with_recent(c: ClientView, thread: Seq<char>, text: Seq<char>, now: u64) -> ClientView {
    let words = visible_text::canonical(text);
    if words.len() == 0 {
        c
    } else {
        let list = if c.recent.dom().contains(thread) {
            c.recent[thread]
        } else {
            seq![]
        };
        ClientView { recent: c.recent.insert(thread, remembered(list, words, now)), ..c }
    }
}

/// The remembered replies without those at the front that are too old.
pub open spec fn fresh(list: Seq<RecentView>, now: u64) -> Seq<RecentView>
    decreases list.len(),
{
    if list.len() > 0 && now - list[0].completed_at > RECENT_BRIDGE_GENERATION_TTL_MS {
        fresh(list.skip(1), now)
    } else {
        list
    }
}

/// Whether one of two long texts is the start of the other.
pub open spec fn overlaps(completed: Seq<char>, candidate: Seq<char>) -> bool {
    &&& model::byte_len(completed) >= 80
    &&& model::byte_len(candidate) >= 80
    &&& model::begins_with(completed, candidate) || model::begins_with(candidate, completed)
}

/// Whether a text repeats one of the remembered replies.
pub open spec fn repeats(list: Seq<RecentView>, text: Seq<char>) -> bool {
    let words = visible_text::canonical(text);
    words.len() > 0 && exists|i: int|
        0 <= i < list.len() && ((#[trigger] list[i]).text == words || overlaps(list[i].text, words))
}

/// The client after it is known that a message is the bridge's own.
pub open spec fn with_owned(c: ClientView, id: Seq<char>, now: u64) -> ClientView {
    if model::trimmed(id).len() == 0 {
        c
    } else {
        ClientView {
            owned_until: table::greater_than(c.owned_until, now).insert(
                id,
                later(now, BRIDGE_OWNED_ASSISTANT_MESSAGE_TTL_MS),
            ),
            ..c
        }
    }
}

/// A thread is done: its generation is resolved, or, where nothing of it is visible, kept for
/// a moment; an update that came meanwhile is forwarded, unless it is the bridge's own.
pub open spec fn completed(c: ClientView, thread: Seq<char>, now: u64) -> (ClientView, Seq<EffectView>) {
    let had = c.pending.dom().contains(thread);
    let pg = c.pending[thread];
    let empty = visible_text::visible(pg.text).len() == 0;
    let c1 = ClientView { generating: c.generating.remove(thread), ..c };
    let c2 = if had && empty {
        ClientView {
            pending: c1.pending.insert(
                thread,
                PendingView { empty_response_grace_started: true, ..pg },
            ),
            ..c1
        }
    } else if had {
        ClientView { pending: c1.pending.remove(thread), ..c1 }
    } else {
        c1
    };
    let c3 = if had {
        with_activity(c2, thread, now, RECENT_BRIDGE_GENERATION_TTL_MS)
    } else {
        c2
    };
    let c4 = if had && !empty {
        with_recent(c3, thread, visible_text::visible(pg.text), now)
    } else {
        c3
    };
    let c5 = if c4.buffered.dom().contains(thread) {
        ClientView {
            buffered: c4.buffered.remove(thread),
            events: if had {
                c4.events
            } else {
                c4.events.push(c4.buffered[thread])
            },
            ..c4
        }
    } else {
        c4
    };
    let effects = if had && empty && !pg.empty_response_grace_started {
        seq![EffectView::StartEmptyGrace { thread_id: thread }]
    } else if had && !empty {
        seq![EffectView::Resolve { generation_id: pg.generation_id, result: Ok(response_of(pg)) }]
    } else {
        seq![]
    };
    (c5, effects)
}

/// A generation ended without a reply: its waiter gets the reason, and what was kept of the
/// thread is dropped.
pub open spec fn aborted(c: ClientView, thread: Seq<char>, reason: Seq<char>, now: u64) -> (
    ClientView,
    Seq<EffectView>,
) {
    let had = c.pending.dom().contains(thread);
    let c1 = if had {
        with_activity(
            ClientView { pending: c.pending.remove(thread), ..c },
            thread,
            now,
            STALE_BRIDGE_GENERATION_SUPPRESSION_TTL_MS,
        )
    } else {
        c
    };
    let c2 = ClientView {
        generating: c1.generating.remove(thread),
        buffered: c1.buffered.remove(thread),
        ..c1
    };
    let effects = if had {
        seq![
            EffectView::Resolve {
                generation_id: c.pending[thread].generation_id,
                result: Err::<ResponseView, Seq<char>>(reason),
            },
        ]
    } else {
        seq![]
    };
    (c2, effects)
}

/// The event that forwards an update.
pub open spec fn update_event(thread: Seq<char>, data: JsonView) -> EventView {
    EventView {
        event_type: "message_updated"@,
        thread_id: thread,
        message_role: message::message_role(data),
        message_text: visible_text::visible(message::message_text(data)),
        thinking_text: visible_text::thinking(message::message_text(data)),
    }
}

/// The id of an event's message, or nothing.
pub open spec fn id_or_empty(data: JsonView) -> Seq<char> {
    match message::message_id(data) {
        Some(id) => id,
        None => ""@,
    }
}

/// A message of a thread was updated: the update is forwarded, unless it is the bridge's own,
/// and kept back while the thread is generating.
pub open spec fn updated(c: ClientView, thread: Seq<char>, data: JsonView, now: u64) -> ClientView {
    let event = update_event(thread, data);
    let id = id_or_empty(data);
    if event.message_text.len() == 0 && event.thinking_text is None {
        c
    } else if event.message_role != "assistant"@ {
        ClientView { events: c.events.push(event), ..c }
    } else if c.pending.dom().contains(thread) && id.len() > 0 {
        with_owned(c, id, now)
    } else {
        let named = model::trimmed(id).len() > 0;
        let c1 = if named {
            ClientView { owned_until: table::greater_than(c.owned_until, now), ..c }
        } else {
            c
        };
        if named && c1.owned_until.dom().contains(id) {
            c1
        } else if c1.generating.contains(thread) {
            ClientView { buffered: c1.buffered.insert(thread, event), ..c1 }
        } else {
            let known = c1.recent.dom().contains(thread);
            let c2 = if known {
                ClientView { recent: c1.recent.insert(thread, fresh(c1.recent[thread], now)), ..c1 }
            } else {
                c1
            };
            if known && repeats(c2.recent[thread], event.message_text) {
                c2
            } else {
                let c3 = ClientView {
                    suppressed_until: table::greater_than(c2.suppressed_until, now),
                    ..c2
                };
                if c3.suppressed_until.dom().contains(thread) {
                    c3
                } else {
                    ClientView { events: c3.events.push(event), ..c3 }
                }
            }
        }
    }
}

/// A message was added to a thread: of a pending generation the user's message gives its id,
/// and the assistant's message is the bridge's own.
pub open spec fn added(c: ClientView, thread: Seq<char>, data: JsonView, now: u64) -> ClientView {
    let role = message::message_role(data);
    if !c.pending.dom().contains(thread) {
        c
    } else if role == "user"@ {
        match message::message_id(data) {
            Some(id) => ClientView {
                pending: c.pending.insert(
                    thread,
                    PendingView { user_message_id: Some(id), ..c.pending[thread] },
                ),
                ..c
            },
            None => c,
        }
    } else if role == "assistant"@ && id_or_empty(data).len() > 0 {
        with_owned(c, id_or_empty(data), now)
    } else {
        c
    }
}

/// More of a reply arrived.
pub open spec fn extended(c: ClientView, thread: Seq<char>, data: JsonView) -> ClientView {
    if c.pending.dom().contains(thread) {
        let pg = c.pending[thread];
        ClientView {
            pending: c.pending.insert(
                thread,
                PendingView { text: pg.text + message::appended_text(data), ..pg },
            ),
            ..c
        }
    } else {
        c
    }
}

/// The type of an event.
pub open spec fn event_type(msg: JsonView) -> Seq<char> {
    match msg.str_at("type"@) {
        Some(t) => t,
        None => ""@,
    }
}

/// The client after an event, and what is to be done then.
pub open spec fn dispatched(c: ClientView, msg: JsonView, now: u64) -> (ClientView, Seq<EffectView>) {
    let nothing = Seq::<EffectView>::empty();
    let kind = event_type(msg);
    match msg.get("data"@) {
        None => (c, nothing),
        Some(data) => if kind == "message_delta"@ {
            match data.str_at("threadId"@) {
                Some(thread) => (extended(c, thread, data), nothing),
                None => (c, nothing),
            }
        } else if kind == "thread_generating"@ {
            match data.str_at("id"@) {
                Some(thread) => if is_generating(data) {
                    (ClientView { generating: c.generating.insert(thread), ..c }, nothing)
                } else {
                    completed(c, thread, now)
                },
                None => (c, nothing),
            }
        } else if kind == "generation_error"@ {
            match data.str_at("threadId"@) {
                Some(thread) => aborted(c, thread, error_text(data), now),
                None => (c, nothing),
            }
        } else if kind == "generation_stopped"@ {
            match message::either_string(data, "threadId"@, "id"@) {
                Some(thread) => aborted(c, thread, "Generation stopped"@, now),
                None => (c, nothing),
            }
        } else if kind == "message_updated"@ {
            match data.str_at("threadId"@) {
                Some(thread) => (updated(c, thread, data, now), nothing),
                None => (c, nothing),
            }
        } else if kind == "message_added"@ {
            match data.str_at("threadId"@) {
                Some(thread) => (added(c, thread, data, now), nothing),
                None => (c, nothing),
            }
        } else if kind == "generation_completed"@ {
            match data.str_at("threadId"@) {
                Some(thread) => completed(c, thread, now),
                None => (c, nothing),
            }
        } else {
            (c, nothing)
        },
    }
}

/// Whether an event says that a thread is generating. Where it does not say, it is.
pub open spec fn is_generating(data: JsonView) -> bool {
    match data.get("isGenerating"@) {
        Some(v) => match v.as_bool() {
            Some(b) => b,
            None => true,
        },
        None => true,
    }
}

/// The error that an event reports.
pub open spec fn error_text(data: JsonView) -> Seq<char> {
    match data.str_at("error"@) {
        Some(e) => e,
        None => "Unknown generation error"@,
    }
}

spec fn pending_views(m: Map<Seq<char>, PendingGeneration>) -> Map<Seq<char>, PendingView> {
    m.map_values(|p: PendingGeneration| p@)
}

spec fn update_views(m: Map<Seq<char>, AlmaEvent>) -> Map<Seq<char>, EventView> {
    m.map_values(|e: AlmaEvent| e@)
}

spec fn recent_list(v: Seq<RecentBridgeGeneration>) -> Seq<RecentView> {
    v.map_values(|r: RecentBridgeGeneration| r@)
}

spec fn recent_views(m: Map<Seq<char>, Vec<RecentBridgeGeneration>>) -> Map<
    Seq<char>,
    Seq<RecentView>,
> {
    m.map_values(|v: Vec<RecentBridgeGeneration>| recent_list(v@))
}

/// The client of Alma's WebSocket.
pub struct AlmaWsClient {
    connected: bool,
    generation_seq: u64,
    pending: TextMap<PendingGeneration>,
    bridge_suppressions: TextMap<u64>,
    bridge_owned_assistant_messages: TextMap<u64>,
    generating_threads: TextMap<()>,
    pending_assistant_updates: TextMap<AlmaEvent>,
    recent_bridge_generations: TextMap<Vec<RecentBridgeGeneration>>,
    events: Vec<AlmaEvent>,
}

impl View for AlmaWsClient {
    type V = ClientView;

    closed spec fn view(&self) -> ClientView {
        ClientView {
            connected: self.connected,
            next_generation_id: self.generation_seq,
            pending: pending_views(self.pending@),
            suppressed_until: self.bridge_suppressions@,
            owned_until: self.bridge_owned_assistant_messages@,
            generating: self.generating_threads@.dom(),
            buffered: update_views(self.pending_assistant_updates@),
            recent: recent_views(self.recent_bridge_generations@),
            events: self.events@.map_values(|e: AlmaEvent| e@),
        }
    }
}

fn add_time(now: u64, ttl: u64) -> (r: u64)
    ensures
        r == later(now, ttl),
{
    now.saturating_add(ttl)
}

impl AlmaWsClient {
    fn remember_bridge_activity(&mut self, thread: &str, now: u64, ttl: u64)
        ensures
            final(self)@ == with_activity(old(self)@, thread@, now, ttl),
    {
        let until: u64 = add_time(now, ttl);
        let known = match self.bridge_suppressions.get(thread) {
            Some(u) => *u >= until,
            None => false,
        };
        if !known {
            self.bridge_suppressions.insert(thread, until);
        }
    }

    fn remember_bridge_owned_assistant_message(&mut self, id: &str, now: u64)
        ensures
            final(self)@ == with_owned(old(self)@, id@, now),
    {
        if !ops::trim(id).is_empty() {
            self.bridge_owned_assistant_messages.keep_greater(now);
            self.bridge_owned_assistant_messages.insert(
                id,
                add_time(now, BRIDGE_OWNED_ASSISTANT_MESSAGE_TTL_MS),
            );
        }
    }

    fn remember_bridge_generation(&mut self, thread: &str, text: &str, now: u64)
        ensures
            final(self)@ == with_recent(old(self)@, thread@, text@, now),
    {
        let words = visible_text::canonical_visible_assistant_text_for_dedup(text);
        if words.as_str().is_empty() {
            return;
        }
        let mut list = match self.recent_bridge_generations.remove(thread) {
            Some(list) => list,
            None => Vec::new(),
        };
        let ghost before = list@;
        let ghost old_list = if old(self)@.recent.dom().contains(thread@) {
            old(self)@.recent[thread@]
        } else {
            seq![]
        };
        assert(recent_list(before) =~= old_list);
        let entry = RecentBridgeGeneration { text: words, completed_at: now };
        list.push(entry);
        let ghost more = old_list.push(entry@);
        assert(recent_list(list@) =~= more);
        assert(more.skip(0) =~= more);
        let ghost mut dropped: int = 0;
        while list.len() > RECENT_BRIDGE_GENERATION_LIMIT
            invariant
                0 <= dropped <= more.len(),
                list@.len() == more.len() - dropped,
                dropped > 0 ==> list@.len() >= RECENT_BRIDGE_GENERATION_LIMIT,
                recent_list(list@) == more.skip(dropped),
            decreases list@.len(),
        {
            let ghost prior = list@;
            let _ = list.remove(0);
            proof {
                dropped = dropped + 1;
                assert(recent_list(list@) =~= recent_list(prior).skip(1));
                assert(more.skip(dropped) =~= more.skip(dropped - 1).skip(1));
            }
        }
        let ghost kept = list@;
        self.recent_bridge_generations.insert(thread, list);
        assert(recent_list(kept) =~= remembered(old_list, entry.text@, now));
        assert(self@.recent =~= old(self)@.recent.insert(
            thread@,
            remembered(old_list, entry.text@, now),
        ));
    }

    /// Drops the replies of a thread that are too old, and tells whether the text repeats one
    /// of the others.
    fn is_recent_bridge_generation_update(&mut self, thread: &str, text: &str, now: u64) -> (r: bool)
        ensures
            ({
                let c = old(self)@;
                let known = c.recent.dom().contains(thread@);
                let list = fresh(c.recent[thread@], now);
                &&& final(self)@ == (if known {
                    ClientView { recent: c.recent.insert(thread@, list), ..c }
                } else {
                    c
                })
                &&& r == (known && repeats(list, text@))
            }),
    {
        let mut list = match self.recent_bridge_generations.remove(thread) {
            Some(list) => list,
            None => {
                assert(self@ =~= old(self)@);
                return false;
            },
        };
        let ghost all = recent_list(list@);
        assert(all == old(self)@.recent[thread@]);
        while list.len() > 0 && now.saturating_sub(list[0].completed_at)
            > RECENT_BRIDGE_GENERATION_TTL_MS
            invariant
                fresh(all, now) == fresh(recent_list(list@), now),
            decreases list@.len(),
        {
            let ghost prior = list@;
            let _ = list.remove(0);
            assert(recent_list(list@) =~= recent_list(prior).skip(1));
        }
        let words = visible_text::canonical_visible_assistant_text_for_dedup(text);
        let mut found = false;
        let ghost views = recent_list(list@);
        if !words.as_str().is_empty() {
            let mut i: usize = 0;
            while i < list.len() && !found
                invariant
                    i <= list@.len(),
                    views == recent_list(list@),
                    found == exists|k: int|
                        0 <= k < i && ((#[trigger] views[k]).text == words@ || overlaps(
                            views[k].text,
                            words@,
                        )),
                decreases list@.len() - i,
            {
                assert(views[i as int] == list@[i as int]@);
                found = ops::same(&list[i].text, &words) || is_generation_text_overlap(
                    &list[i].text,
                    &words,
                );
                i += 1;
            }
        }
        let ghost kept = list@;
        self.recent_bridge_generations.insert(thread, list);
        assert(self@.recent =~= old(self)@.recent.insert(thread@, recent_list(kept)));
        assert(self@ =~= ClientView {
            recent: old(self)@.recent.insert(thread@, fresh(all, now)),
            ..old(self)@
        });
        found
    }

    /// A thread is done.
    fn complete(&mut self, thread: &str, now: u64) -> (r: Vec<Effect>)
        ensures
            (final(self)@, effect_views(r@)) == completed(old(self)@, thread@, now),
    {
        let mut effects: Vec<Effect> = Vec::new();
        let _ = self.generating_threads.remove(thread);
        let ghost c1 = ClientView {
            generating: old(self)@.generating.remove(thread@),
            ..old(self)@
        };
        assert(self@ =~= c1);
        let had = match self.pending.remove(thread) {
            Some(pg) => {
                assert(pg@ == old(self)@.pending[thread@]);
                let (text, thinking) = visible_text::split_reply(&pg.text);
                if text.as_str().is_empty() {
                    if !pg.empty_response_grace_started {
                        effects.push(Effect::StartEmptyGrace { thread_id: thread.to_owned() });
                    }
                    let kept = PendingGeneration { empty_response_grace_started: true, ..pg };
                    self.pending.insert(thread, kept);
                    assert(self@.pending =~= c1.pending.insert(
                        thread@,
                        PendingView {
                            empty_response_grace_started: true,
                            ..old(self)@.pending[thread@]
                        },
                    ));
                    self.remember_bridge_activity(thread, now, RECENT_BRIDGE_GENERATION_TTL_MS);
                } else {
                    assert(self@.pending =~= c1.pending.remove(thread@));
                    self.remember_bridge_activity(thread, now, RECENT_BRIDGE_GENERATION_TTL_MS);
                    self.remember_bridge_generation(thread, &text, now);
                    effects.push(
                        Effect::Resolve {
                            generation_id: pg.generation_id,
                            result: Ok(
                                GenerationResponse {
                                    text,
                                    user_message_id: pg.user_message_id,
                                    thinking,
                                },
                            ),
                        },
                    );
                }
                true
            },
            None => {
                assert(self@ =~= c1);
                false
            },
        };
        let ghost c4 = self@;
        match self.pending_assistant_updates.remove(thread) {
            Some(event) => {
                assert(self@.buffered =~= c4.buffered.remove(thread@));
                if !had {
                    self.events.push(event);
                    assert(self@.events =~= c4.events.push(event@));
                }
            },
            None => {
                assert(self@ =~= c4);
            },
        }
        proof {
            let want = completed(old(self)@, thread@, now);
            assert(effect_views(effects@) =~= want.1);
            assert(self@ =~= want.0);
        }
        effects
    }

    /// A generation ended without a reply.
    fn abort(&mut self, thread: &str, reason: &str, now: u64) -> (r: Vec<Effect>)
        ensures
            (final(self)@, effect_views(r@)) == aborted(old(self)@, thread@, reason@, now),
    {
        let mut effects: Vec<Effect> = Vec::new();
        match self.pending.remove(thread) {
            Some(pg) => {
                assert(pg@ == old(self)@.pending[thread@]);
                assert(self@.pending =~= old(self)@.pending.remove(thread@));
                effects.push(
                    Effect::Resolve {
                        generation_id: pg.generation_id,
                        result: Err(reason.to_owned()),
                    },
                );
                self.remember_bridge_activity(
                    thread,
                    now,
                    STALE_BRIDGE_GENERATION_SUPPRESSION_TTL_MS,
                );
            },
            None => {
                assert(self@ =~= old(self)@);
            },
        }
        let ghost c1 = self@;
        let _ = self.generating_threads.remove(thread);
        let _ = self.pending_assistant_updates.remove(thread);
        proof {
            let want = aborted(old(self)@, thread@, reason@, now);
            assert(self@.buffered =~= c1.buffered.remove(thread@));
            assert(self@.generating =~= c1.generating.remove(thread@));
            assert(effect_views(effects@) =~= want.1);
            assert(self@ =~= want.0);
        }
        effects
    }

    /// A message of a thread was updated.
    fn update(&mut self, thread: &str, data: &Json, now: u64)
        ensures
            final(self)@ == updated(old(self)@, thread@, data@, now),
    {
        let ghost c = old(self)@;
        let role = message::event_message_role(data);
        let id = match message::event_message_id(data) {
            Some(id) => id,
            None => "",
        };
        let raw = message::event_message_text(data);
        let (text, thinking) = visible_text::split_reply(&raw);
        if text.as_str().is_empty() && thinking.is_none() {
            return;
        }
        let event = AlmaEvent {
            event_type: "message_updated".to_owned(),
            thread_id: thread.to_owned(),
            message_role: role.to_owned(),
            message_text: text,
            thinking_text: thinking,
        };
        assert(event@ == update_event(thread@, data@));
        if !ops::same(role, "assistant") {
            self.events.push(event);
            assert(self@.events =~= c.events.push(event@));
            assert(self@ =~= ClientView { events: c.events.push(event@), ..c });
            return;
        }
        if self.pending.contains_key(thread) && !id.is_empty() {
            self.remember_bridge_owned_assistant_message(id, now);
            return;
        }
        let named = !ops::trim(id).is_empty();
        if named {
            self.bridge_owned_assistant_messages.keep_greater(now);
        }
        let ghost c1 = self@;
        if named && self.bridge_owned_assistant_messages.contains_key(id) {
            return;
        }
        if self.generating_threads.contains_key(thread) {
            self.pending_assistant_updates.insert(thread, event);
            assert(self@.buffered =~= c1.buffered.insert(thread@, event@));
            assert(self@ =~= ClientView { buffered: c1.buffered.insert(thread@, event@), ..c1 });
            return;
        }
        if self.is_recent_bridge_generation_update(thread, &event.message_text, now) {
            return;
        }
        let ghost c2 = self@;
        self.bridge_suppressions.keep_greater(now);
        let ghost c3 = self@;
        if self.bridge_suppressions.contains_key(thread) {
            return;
        }
        self.events.push(event);
        assert(self@.events =~= c3.events.push(event@));
        assert(self@ =~= ClientView { events: c3.events.push(event@), ..c3 });
    }

    /// A message was added to a thread.
    fn add(&mut self, thread: &str, data: &Json, now: u64)
        ensures
            final(self)@ == added(old(self)@, thread@, data@, now),
    {
        let ghost c = old(self)@;
        if !self.pending.contains_key(thread) {
            return;
        }
        let role = message::event_message_role(data);
        if ops::same(role, "user") {
            if let Some(id) = message::event_message_id(data) {
                if let Some(pg) = self.pending.remove(thread) {
                    assert(pg@ == c.pending[thread@]);
                    let kept = PendingGeneration { user_message_id: Some(id.to_owned()), ..pg };
                    self.pending.insert(thread, kept);
                    assert(self@.pending =~= c.pending.insert(
                        thread@,
                        PendingView { user_message_id: Some(id@), ..c.pending[thread@] },
                    ));
                    assert(self@ =~= added(c, thread@, data@, now));
                }
            }
        } else if ops::same(role, "assistant") {
            if let Some(id) = message::event_message_id(data) {
                if !id.is_empty() {
                    self.remember_bridge_owned_assistant_message(id, now);
                }
            } else {
                proof {
                    reveal_strlit("");
                }
            }
        }
    }

    /// More of a reply arrived.
    fn extend(&mut self, thread: &str, data: &Json)
        ensures
            final(self)@ == extended(old(self)@, thread@, data@),
    {
        let ghost c = old(self)@;
        match self.pending.remove(thread) {
            Some(pg) => {
                assert(pg@ == c.pending[thread@]);
                let text = message::event_appended_text(data);
                let ghost more = pg.text@ + text@;
                let kept = PendingGeneration { text: pg.text.concat(&text), ..pg };
                assert(kept@ == PendingView { text: more, ..c.pending[thread@] });
                self.pending.insert(thread, kept);
                assert(self@.pending =~= c.pending.insert(thread@, kept@));
                assert(self@ =~= extended(c, thread@, data@));
            },
            None => {
                assert(self@ =~= c);
            },
        }
    }

    /// Takes note of an event of Alma, and says what is to be done then.
    pub fn dispatch_event(&mut self, msg: &Json, now: u64) -> (r: Vec<Effect>)
        ensures
            (final(self)@, effect_views(r@)) == dispatched(old(self)@, msg@, now),
    {
        let nothing: Vec<Effect> = Vec::new();
        assert(effect_views(nothing@) =~= Seq::<EffectView>::empty());
        let kind = match msg.str_at("type") {
            Some(t) => t,
            None => "",
        };
        let data = match msg.get("data") {
            Some(d) => d,
            None => {
                return nothing;
            },
        };
        if ops::same(kind, "message_delta") {
            if let Some(thread) = data.str_at("threadId") {
                self.extend(thread, data);
            }
            nothing
        } else if ops::same(kind, "thread_generating") {
            match data.str_at("id") {
                Some(thread) => {
                    let generating = match data.get("isGenerating") {
                        Some(v) => match v.as_bool() {
                            Some(b) => b,
                            None => true,
                        },
                        None => true,
                    };
                    if generating {
                        self.generating_threads.insert(thread, ());
                        assert(self@.generating =~= old(self)@.generating.insert(thread@));
                        assert(self@ =~= ClientView {
                            generating: old(self)@.generating.insert(thread@),
                            ..old(self)@
                        });
                        nothing
                    } else {
                        self.complete(thread, now)
                    }
                },
                None => nothing,
            }
        } else if ops::same(kind, "generation_error") {
            match data.str_at("threadId") {
                Some(thread) => {
                    let error = match data.str_at("error") {
                        Some(e) => e,
                        None => "Unknown generation error",
                    };
                    self.abort(thread, error, now)
                },
                None => nothing,
            }
        } else if ops::same(kind, "generation_stopped") {
            match message::either_str(data, "threadId", "id") {
                Some(thread) => self.abort(thread, "Generation stopped", now),
                None => nothing,
            }
        } else if ops::same(kind, "message_updated") {
            if let Some(thread) = data.str_at("threadId") {
                self.update(thread, data, now);
            }
            nothing
        } else if ops::same(kind, "message_added") {
            if let Some(thread) = data.str_at("threadId") {
                self.add(thread, data, now);
            }
            nothing
        } else if ops::same(kind, "generation_completed") {
            match data.str_at("threadId") {
                Some(thread) => self.complete(thread, now),
                None => nothing,
            }
        } else {
            nothing
        }
    }
}

/// A client that has just connected.
pub open spec fn fresh_client() -> ClientView {
    ClientView {
        connected: true,
        next_generation_id: 1,
        pending: Map::empty(),
        suppressed_until: Map::empty(),
        owned_until: Map::empty(),
        generating: Set::empty(),
        buffered: Map::empty(),
        recent: Map::empty(),
        events: Seq::empty(),
    }
}

/// The address of the WebSocket of an Alma API.
pub open spec fn socket_url(alma_api: Seq<char>) -> Seq<char> {
    model::replaced(model::replaced(alma_api, "http://"@, "ws://"@), "https://"@, "wss://"@)
        + "/ws/threads"@
}

/// The client after it connected anew: what was known of running generations is void.
pub open spec fn reconnected(c: ClientView) -> ClientView {
    ClientView { generating: Set::empty(), buffered: Map::empty(), recent: Map::empty(), ..c }
}

/// The client after a generation of a thread was registered.
pub open spec fn begun(c: ClientView, thread: Seq<char>) -> ClientView {
    ClientView {
        next_generation_id: if c.next_generation_id == u64::MAX {
            0
        } else {
            (c.next_generation_id + 1) as u64
        },
        pending: c.pending.insert(
            thread,
            PendingView {
                generation_id: c.next_generation_id,
                text: seq![],
                user_message_id: None,
                empty_response_grace_started: false,
            },
        ),
        ..c
    }
}

/// What the waiter of a generation that a newer one replaces is told.
pub open spec fn replaced_effects(c: ClientView, thread: Seq<char>) -> Seq<EffectView> {
    if c.pending.dom().contains(thread) {
        seq![
            EffectView::Resolve {
                generation_id: c.pending[thread].generation_id,
                result: Err::<ResponseView, Seq<char>>(
                    "Generation for thread "@ + thread + " was replaced by a newer request"@,
                ),
            },
        ]
    } else {
        seq![]
    }
}

/// The client without a thread's generation, if that is the one with the given number.
pub open spec fn dropped(c: ClientView, thread: Seq<char>, generation_id: u64) -> ClientView {
    if is_pending(c, thread, generation_id) {
        ClientView { pending: c.pending.remove(thread), ..c }
    } else {
        c
    }
}

/// Whether a thread's pending generation is the one with the given number.
pub open spec fn is_pending(c: ClientView, thread: Seq<char>, generation_id: u64) -> bool {
    c.pending.dom().contains(thread) && c.pending[thread].generation_id == generation_id
}

/// A JSON object of an optional string under a key, in front of nothing else.
pub open spec fn optional_entry(key: Seq<char>, value: Option<Seq<char>>) -> Seq<
    (Seq<char>, JsonView),
> {
    match value {
        Some(v) => seq![(key, JsonView::Str(v))],
        None => seq![],
    }
}

/// The request for a reply.
pub open spec fn generate_request(
    thread: Seq<char>,
    model: Option<Seq<char>>,
    text: Seq<char>,
    file_parts: Seq<JsonView>,
    source: Seq<char>,
    ephemeral_context: Seq<char>,
) -> JsonView {
    let text_part = JsonView::Object(
        seq![("type"@, JsonView::Str("text"@)), ("text"@, JsonView::Str(text))],
    );
    let user_message = JsonView::Object(
        seq![
            ("role"@, JsonView::Str("user"@)),
            ("parts"@, JsonView::Array(seq![text_part] + file_parts)),
        ],
    );
    let context = if ephemeral_context.len() == 0 {
        None
    } else {
        Some(ephemeral_context)
    };
    let data = JsonView::Object(
        seq![
            ("threadId"@, JsonView::Str(thread)),
            ("userMessage"@, user_message),
            ("source"@, JsonView::Str(source)),
        ] + optional_entry("model"@, model) + optional_entry("ephemeralContext"@, context),
    );
    JsonView::Object(seq![("type"@, JsonView::Str("generate_response"@)), ("data"@, data)])
}

/// The request to stop a thread's generation.
pub open spec fn stop_request(thread: Seq<char>) -> JsonView {
    JsonView::Object(
        seq![
            ("type"@, JsonView::Str("stop_generation"@)),
            ("data"@, JsonView::Object(seq![("threadId"@, JsonView::Str(thread))])),
        ],
    )
}

/// A generation that was begun: its number, the request to send, and what is to be done first.
pub struct Generation {
    pub generation_id: u64,
    pub request: Json,
    pub effects: Vec<Effect>,
}

/// How the wait for a reply ended.
pub enum WaitOutcome {
    Answered(Result<GenerationResponse, String>),
    Closed,
    TimedOut,
}

/// What follows a wait for a reply.
pub enum GenerateStep {
    /// The generation is over.
    Finish(Result<GenerationResponse, String>),
    /// The request is sent, and the thread is looked at again and again until it has stopped.
    Stop(Json),
    /// The thread is looked at again after some milliseconds.
    Wait(u64),
}

/// How long a generation without text is waited for once it is said to be complete, in
/// milliseconds.
pub const EMPTY_RESPONSE_GRACE_MS: u64 = 1_000;

/// How long a stopped generation is waited for, in milliseconds.
pub const STOP_GENERATION_DRAIN_TIMEOUT_MS: u64 = 20_000;

/// How often a stopped generation is looked at, in milliseconds.
pub const STOP_GENERATION_DRAIN_POLL_MS: u64 = 100;

/// Seconds as milliseconds.
pub open spec fn millis(secs: u64) -> u64 {
    if secs * 1000 > u64::MAX {
        u64::MAX
    } else {
        (secs * 1000) as u64
    }
}

/// How long updates of a thread are kept back once a generation was requested.
pub open spec fn generation_window(timeout_secs: u64) -> u64 {
    later(
        later(millis(timeout_secs), STOP_GENERATION_DRAIN_TIMEOUT_MS),
        RECENT_BRIDGE_GENERATION_TTL_MS,
    )
}

/// What is said of a generation that took too long.
pub open spec fn timeout_text(timeout_secs: u64) -> Seq<char> {
    "Generation timed out after "@ + number::dec(timeout_secs as int) + "s"@
}

fn object2(k1: &str, v1: Json, k2: &str, v2: Json) -> (r: Json)
    ensures
        r@ == JsonView::Object(seq![(k1@, v1@), (k2@, v2@)]),
{
    let ghost want = seq![(k1@, v1@), (k2@, v2@)];
    let mut entries: Vec<(String, Json)> = Vec::new();
    entries.push((k1.to_owned(), v1));
    entries.push((k2.to_owned(), v2));
    proof {
        json::lemma_entry_views(entries@);
        assert(json::entry_views_of(entries@) =~= want);
    }
    Json::Object(entries)
}

fn build_generate_request(
    thread: &str,
    model: Option<&str>,
    text: &str,
    file_parts: Vec<Json>,
    source: &str,
    ephemeral_context: &str,
) -> (r: Json)
    ensures
        r@ == generate_request(
            thread@,
            json::str_view(model),
            text@,
            json::views_of(file_parts@),
            source@,
            ephemeral_context@,
        ),
{
    let mut parts: Vec<Json> = Vec::new();
    parts.push(object2("type", Json::from_text("text"), "text", Json::from_text(text)));
    let ghost text_part = parts@[0]@;
    let mut more = file_parts;
    parts.append(&mut more);
    proof {
        json::lemma_views(parts@);
        json::lemma_views(file_parts@);
        assert(json::views_of(parts@) =~= seq![text_part] + json::views_of(file_parts@));
    }
    let user_message = object2("role", Json::from_text("user"), "parts", Json::Array(parts));
    let ghost user_view = user_message@;
    let mut data: Vec<(String, Json)> = Vec::new();
    data.push(("threadId".to_owned(), Json::from_text(thread)));
    data.push(("userMessage".to_owned(), user_message));
    data.push(("source".to_owned(), Json::from_text(source)));
    if let Some(m) = model {
        data.push(("model".to_owned(), Json::from_text(m)));
    }
    if !ephemeral_context.is_empty() {
        data.push(("ephemeralContext".to_owned(), Json::from_text(ephemeral_context)));
    }
    proof {
        json::lemma_entry_views(data@);
        let context = if ephemeral_context@.len() == 0 {
            None
        } else {
            Some(ephemeral_context@)
        };
        assert(json::entry_views_of(data@) =~= seq![
            ("threadId"@, JsonView::Str(thread@)),
            ("userMessage"@, user_view),
            ("source"@, JsonView::Str(source@)),
        ] + optional_entry("model"@, json::str_view(model)) + optional_entry(
            "ephemeralContext"@,
            context,
        ));
    }
    object2("type", Json::from_text("generate_response"), "data", Json::Object(data))
}

fn build_stop_request(thread: &str) -> (r: Json)
    ensures
        r@ == stop_request(thread@),
{
    let mut data: Vec<(String, Json)> = Vec::new();
    data.push(("threadId".to_owned(), Json::from_text(thread)));
    proof {
        json::lemma_entry_views(data@);
        assert(json::entry_views_of(data@) =~= seq![("threadId"@, JsonView::Str(thread@))]);
    }
    object2("type", Json::from_text("stop_generation"), "data", Json::Object(data))
}

/// Whether `effects` tell the waiter of each of `c`'s generations, once, that it failed.
pub open spec fn all_failed(c: ClientView, effects: Seq<EffectView>, reason: Seq<char>) -> bool {
    exists|threads: Seq<Seq<char>>| #[trigger] failed_in_order(c, effects, reason, threads)
}

/// Whether `threads` are the threads of all of `c`'s generations, each once, and `effects`
/// tell their waiters in this order that they failed.
pub open spec fn failed_in_order(
    c: ClientView,
    effects: Seq<EffectView>,
    reason: Seq<char>,
    threads: Seq<Seq<char>>,
) -> bool {
    &&& threads.no_duplicates()
    &&& threads.to_set() == c.pending.dom()
    &&& effects == threads.map_values(
        |t: Seq<char>|
            EffectView::Resolve {
                generation_id: c.pending[t].generation_id,
                result: Err::<ResponseView, Seq<char>>(reason),
            },
    )
}

impl AlmaWsClient {
    /// Where to connect to, and the client once it is connected there.
    pub fn connect(alma_api: &str) -> (r: (String, AlmaWsClient))
        ensures
            r.0@ == socket_url(alma_api@),
            r.1@ == fresh_client(),
    {
        proof {
            reveal_strlit("http://");
            reveal_strlit("https://");
        }
        let url = ops::replace(
            &ops::replace(alma_api, "http://", "ws://"),
            "https://",
            "wss://",
        ).concat("/ws/threads");
        let client = AlmaWsClient {
            connected: true,
            generation_seq: 1,
            pending: TextMap::new(),
            bridge_suppressions: TextMap::new(),
            bridge_owned_assistant_messages: TextMap::new(),
            generating_threads: TextMap::new(),
            pending_assistant_updates: TextMap::new(),
            recent_bridge_generations: TextMap::new(),
            events: Vec::new(),
        };
        assert(client@ =~= fresh_client());
        (url, client)
    }

    /// Whether the connection is alive: it is up, and its writer takes messages.
    pub fn is_connected(&self, writer_closed: bool) -> (r: bool)
        ensures
            r == (self@.connected && !writer_closed),
    {
        self.connected && !writer_closed
    }

    /// Takes note of whether the connection is up.
    pub fn set_connected(&mut self, connected: bool)
        ensures
            final(self)@ == (ClientView { connected, ..old(self)@ }),
    {
        self.connected = connected;
        assert(self@ =~= ClientView { connected, ..old(self)@ });
    }

    /// Begins a session of a new connection.
    pub fn start_session(&mut self)
        ensures
            final(self)@ == reconnected(old(self)@),
    {
        self.generating_threads = TextMap::new();
        self.pending_assistant_updates = TextMap::new();
        self.recent_bridge_generations = TextMap::new();
        assert(self@ =~= reconnected(old(self)@));
    }

    /// The event that has waited longest, if one waits.
    pub fn try_recv_event(&mut self) -> (r: Option<AlmaEvent>)
        ensures
            match r {
                Some(e) => old(self)@.events.len() > 0 && e@ == old(self)@.events[0] && final(self)@
                    == (ClientView { events: old(self)@.events.skip(1), ..old(self)@ }),
                None => old(self)@.events.len() == 0 && final(self)@ == old(self)@,
            },
    {
        if self.events.len() == 0 {
            return None;
        }
        let e = self.events.remove(0);
        assert(self@.events =~= old(self)@.events.skip(1));
        assert(self@ =~= ClientView { events: old(self)@.events.skip(1), ..old(self)@ });
        Some(e)
    }

    /// Registers a generation of a thread, in place of one that is still pending, and makes
    /// the request for it.
    ///
    /// Without a `model` Alma takes the thread's own. `source` names the platform, and
    /// `ephemeral_context` adds to the system prompt for this turn.
    pub fn generate(
        &mut self,
        thread_id: &str,
        model: Option<&str>,
        message: &str,
        file_parts: Vec<Json>,
        source: &str,
        ephemeral_context: &str,
        writer_closed: bool,
    ) -> (r: Result<Generation, String>)
        ensures
            match r {
                Ok(g) => {
                    &&& old(self)@.connected && !writer_closed
                    &&& g.generation_id == old(self)@.next_generation_id
                    &&& final(self)@ == begun(old(self)@, thread_id@)
                    &&& effect_views(g.effects@) == replaced_effects(old(self)@, thread_id@)
                    &&& g.request@ == generate_request(
                        thread_id@,
                        json::str_view(model),
                        message@,
                        json::views_of(file_parts@),
                        source@,
                        ephemeral_context@,
                    )
                },
                Err(e) => {
                    &&& !old(self)@.connected || writer_closed
                    &&& final(self)@ == old(self)@
                    &&& e@ == "Alma WebSocket connection is closed"@
                },
            },
    {
        if !self.is_connected(writer_closed) {
            return Err("Alma WebSocket connection is closed".to_owned());
        }
        let generation_id = self.generation_seq;
        self.generation_seq = generation_id.wrapping_add(1);
        let mut effects: Vec<Effect> = Vec::new();
        if let Some(existing) = self.pending.remove(thread_id) {
            effects.push(
                Effect::Resolve {
                    generation_id: existing.generation_id,
                    result: Err(
                        "Generation for thread ".to_owned().concat(thread_id).concat(
                            " was replaced by a newer request",
                        ),
                    ),
                },
            );
        }
        assert(effect_views(effects@) =~= replaced_effects(old(self)@, thread_id@));
        let slot = PendingGeneration {
            generation_id,
            text: String::new(),
            user_message_id: None,
            empty_response_grace_started: false,
        };
        assert(slot@.text =~= seq![]);
        self.pending.insert(thread_id, slot);
        assert(self@.pending =~= begun(old(self)@, thread_id@).pending);
        assert(self@ =~= begun(old(self)@, thread_id@));
        let request = build_generate_request(
            thread_id,
            model,
            message,
            file_parts,
            source,
            ephemeral_context,
        );
        Ok(Generation { generation_id, request, effects })
    }

    fn remove_pending_generation_if_matches(&mut self, thread_id: &str, generation_id: u64)
        ensures
            final(self)@ == dropped(old(self)@, thread_id@, generation_id),
    {
        let matching = match self.pending.get(thread_id) {
            Some(pg) => pg.generation_id == generation_id,
            None => false,
        };
        if matching {
            let _ = self.pending.remove(thread_id);
            assert(self@.pending =~= old(self)@.pending.remove(thread_id@));
            assert(self@ =~= dropped(old(self)@, thread_id@, generation_id));
        }
    }

    /// The request of a generation could not be sent.
    pub fn generation_send_failed(&mut self, thread_id: &str, generation_id: u64, error: &str) -> (r:
        Result<GenerationResponse, String>)
        ensures
            final(self)@ == dropped(old(self)@, thread_id@, generation_id),
            r is Err && r->Err_0@ == "WebSocket send failed: "@ + error@,
    {
        self.remove_pending_generation_if_matches(thread_id, generation_id);
        Err("WebSocket send failed: ".to_owned().concat(error))
    }

    /// The request of a generation was sent: updates of the thread are now the bridge's own.
    pub fn generation_sent(&mut self, thread_id: &str, timeout_secs: u64, now: u64)
        ensures
            final(self)@ == with_activity(
                old(self)@,
                thread_id@,
                now,
                generation_window(timeout_secs),
            ),
    {
        let millis: u64 = if timeout_secs > u64::MAX / 1000 {
            u64::MAX
        } else {
            timeout_secs * 1000
        };
        let window: u64 = add_time(
            add_time(millis, STOP_GENERATION_DRAIN_TIMEOUT_MS),
            RECENT_BRIDGE_GENERATION_TTL_MS,
        );
        self.remember_bridge_activity(thread_id, now, window);
    }

    /// The wait for the reply of a generation is over.
    pub fn generation_waited(
        &mut self,
        thread_id: &str,
        generation_id: u64,
        outcome: WaitOutcome,
        now: u64,
    ) -> (r: GenerateStep)
        ensures
            match outcome {
                WaitOutcome::Answered(result) => {
                    &&& r == GenerateStep::Finish(result)
                    &&& final(self)@ == with_activity(
                        old(self)@,
                        thread_id@,
                        now,
                        RECENT_BRIDGE_GENERATION_TTL_MS,
                    )
                },
                WaitOutcome::Closed => {
                    &&& r is Finish
                    &&& result_view(r->Finish_0) == Err::<ResponseView, Seq<char>>(
                        "Generation channel closed unexpectedly"@,
                    )
                    &&& final(self)@ == dropped(old(self)@, thread_id@, generation_id)
                },
                WaitOutcome::TimedOut => {
                    &&& r is Stop
                    &&& r->Stop_0@ == stop_request(thread_id@)
                    &&& final(self)@ == with_activity(
                        old(self)@,
                        thread_id@,
                        now,
                        STALE_BRIDGE_GENERATION_SUPPRESSION_TTL_MS,
                    )
                },
            },
    {
        match outcome {
            WaitOutcome::Answered(result) => {
                self.remember_bridge_activity(thread_id, now, RECENT_BRIDGE_GENERATION_TTL_MS);
                GenerateStep::Finish(result)
            },
            WaitOutcome::Closed => {
                self.remove_pending_generation_if_matches(thread_id, generation_id);
                GenerateStep::Finish(Err("Generation channel closed unexpectedly".to_owned()))
            },
            WaitOutcome::TimedOut => {
                self.remember_bridge_activity(
                    thread_id,
                    now,
                    STALE_BRIDGE_GENERATION_SUPPRESSION_TTL_MS,
                );
                GenerateStep::Stop(build_stop_request(thread_id))
            },
        }
    }

    /// Looks at a stopped generation: it is over once it is no longer pending, or once it was
    /// waited for long enough.
    pub fn wait_for_generation_drain(
        &mut self,
        thread_id: &str,
        generation_id: u64,
        elapsed_ms: u64,
        timeout_secs: u64,
    ) -> (r: GenerateStep)
        ensures
            if is_pending(old(self)@, thread_id@, generation_id) && elapsed_ms
                < STOP_GENERATION_DRAIN_TIMEOUT_MS {
                &&& r == GenerateStep::Wait(STOP_GENERATION_DRAIN_POLL_MS)
                &&& final(self)@ == old(self)@
            } else {
                &&& r is Finish
                &&& result_view(r->Finish_0) == Err::<ResponseView, Seq<char>>(
                    timeout_text(timeout_secs),
                )
                &&& final(self)@ == dropped(old(self)@, thread_id@, generation_id)
            },
    {
        let still_pending = match self.pending.get(thread_id) {
            Some(pg) => pg.generation_id == generation_id,
            None => false,
        };
        if still_pending && elapsed_ms < STOP_GENERATION_DRAIN_TIMEOUT_MS {
            return GenerateStep::Wait(STOP_GENERATION_DRAIN_POLL_MS);
        }
        self.remove_pending_generation_if_matches(thread_id, generation_id);
        GenerateStep::Finish(
            Err(
                "Generation timed out after ".to_owned().concat(&number::dec_u64(timeout_secs)).concat(
                    "s",
                ),
            ),
        )
    }

    /// The moment that an empty generation was kept for is over: it is resolved as it is.
    pub fn resolve_empty_generation_after_grace(&mut self, thread_id: &str) -> (r: Vec<Effect>)
        ensures
            final(self)@ == (ClientView {
                pending: old(self)@.pending.remove(thread_id@),
                ..old(self)@
            }),
            effect_views(r@) == (if old(self)@.pending.dom().contains(thread_id@) {
                seq![
                    EffectView::Resolve {
                        generation_id: old(self)@.pending[thread_id@].generation_id,
                        result: result_of(old(self)@.pending[thread_id@]),
                    },
                ]
            } else {
                seq![]
            }),
    {
        let mut effects: Vec<Effect> = Vec::new();
        let ghost c = old(self)@;
        if let Some(pg) = self.pending.remove(thread_id) {
            assert(pg@ == c.pending[thread_id@]);
            let ghost view = pg@;
            let (text, thinking) = visible_text::split_reply(&pg.text);
            let result = if text.as_str().is_empty() {
                Err("Empty response from Alma".to_owned())
            } else {
                Ok(GenerationResponse { text, user_message_id: pg.user_message_id, thinking })
            };
            assert(result_view(result) == result_of(view));
            effects.push(Effect::Resolve { generation_id: pg.generation_id, result });
            assert(effect_views(effects@) =~= seq![
                EffectView::Resolve {
                    generation_id: view.generation_id,
                    result: result_of(view),
                },
            ]);
        } else {
            assert(effect_views(effects@) =~= seq![]);
        }
        assert(self@.pending =~= c.pending.remove(thread_id@));
        assert(self@ =~= ClientView { pending: c.pending.remove(thread_id@), ..c });
        effects
    }

    /// Every pending generation fails.
    pub fn fail_pending_generations(&mut self, reason: &str) -> (r: Vec<Effect>)
        ensures
            final(self)@ == (ClientView { pending: Map::empty(), ..old(self)@ }),
            all_failed(old(self)@, effect_views(r@), reason@),
    {
        let mut effects: Vec<Effect> = Vec::new();
        let ghost c = old(self)@;
        let ghost mut threads: Seq<Seq<char>> = seq![];
        let ghost resolve = |t: Seq<char>|
            EffectView::Resolve {
                generation_id: c.pending[t].generation_id,
                result: Err::<ResponseView, Seq<char>>(reason@),
            };
        assert(effect_views(effects@) =~= threads.map_values(resolve));
        assert(self@.pending =~= c.pending.remove_keys(threads.to_set()));
        loop
            invariant
                c == old(self)@,
                threads.no_duplicates(),
                threads.to_set().subset_of(c.pending.dom()),
                resolve == (|t: Seq<char>|
                    EffectView::Resolve {
                        generation_id: c.pending[t].generation_id,
                        result: Err::<ResponseView, Seq<char>>(reason@),
                    }),
                effect_views(effects@) == threads.map_values(resolve),
                self@.pending == c.pending.remove_keys(threads.to_set()),
                self@ == (ClientView { pending: self@.pending, ..c }),
            decreases self.pending.size(),
        {
            let ghost before = self@;
            let ghost done = effects@;
            match self.pending.pop() {
                Some((thread, pg)) => {
                    assert(before.pending.dom().contains(thread@));
                    assert(pg@ == before.pending[thread@]);
                    let effect = Effect::Resolve {
                        generation_id: pg.generation_id,
                        result: Err(reason.to_owned()),
                    };
                    assert(effect@ == resolve(thread@));
                    effects.push(effect);
                    proof {
                        let more = threads.push(thread@);
                        assert(effect_views(effects@) =~= effect_views(done).push(effect@));
                        assert(more.map_values(resolve) =~= threads.map_values(resolve).push(
                            resolve(thread@),
                        ));
                        assert(!threads.contains(thread@)) by {
                            if threads.contains(thread@) {
                                assert(threads.to_set().contains(thread@));
                            }
                        }
                        assert(more.to_set() =~= threads.to_set().insert(thread@)) by {
                            broadcast use vstd::seq_lib::group_seq_properties;

                        }
                        assert(self@.pending =~= before.pending.remove(thread@));
                        assert(self@.pending =~= c.pending.remove_keys(more.to_set()));
                        threads = more;
                    }
                },
                None => {
                    proof {
                        assert(before.pending =~= Map::<Seq<char>, PendingView>::empty());
                        assert(threads.to_set() =~= c.pending.dom()) by {
                            assert forall|t: Seq<char>| c.pending.dom().contains(t) implies
                                threads.to_set().contains(t) by {
                                if !threads.to_set().contains(t) {
                                    assert(before.pending.dom().contains(t));
                                }
                            }
                        }
                        assert(self@ =~= ClientView { pending: Map::empty(), ..c });
                        assert(failed_in_order(c, effect_views(effects@), reason@, threads));
                    }
                    return effects;
                },
            }
        }
    }
}

/// Whether one of two long texts is the start of the other.
pub fn is_generation_text_overlap(completed: &str, candidate: &str) -> (r: bool)
    ensures
        r == overlaps(completed@, candidate@),
{
    ops::byte_length(completed) >= 80 && ops::byte_length(candidate) >= 80 && (ops::starts_with(
        completed,
        candidate,
    ) || ops::starts_with(candidate, completed))
}

} // verus!
