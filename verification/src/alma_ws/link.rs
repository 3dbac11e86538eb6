//! How the connection to Alma is kept up.
use vstd::arithmetic::power2;
use vstd::prelude::*;

verus! {

/// The greatest delay before the next attempt to connect, in milliseconds.
pub const MAX_RECONNECT_DELAY_MS: u64 = 30_000;

/// The delay before an attempt: a second, doubled with every attempt after the first.
pub open spec fn reconnect_delay(attempt: nat) -> nat {
    let doublings: nat = if attempt == 0 {
        0
    } else if attempt > 6 {
        5
    } else {
        (attempt - 1) as nat
    };
    let delay = 1000 * power2::pow2(doublings);
    if delay > MAX_RECONNECT_DELAY_MS {
        MAX_RECONNECT_DELAY_MS as nat
    } else {
        delay
    }
}

/// The delay before an attempt, in milliseconds.
pub fn reconnect_delay_ms(attempt: u32) -> (r: u64)
    ensures
        r == reconnect_delay(attempt as nat),
{
    proof {
        power2::lemma2_to64();
    }
    if attempt <= 1 {
        1_000
    } else if attempt == 2 {
        2_000
    } else if attempt == 3 {
        4_000
    } else if attempt == 4 {
        8_000
    } else if attempt == 5 {
        16_000
    } else {
        MAX_RECONNECT_DELAY_MS
    }
}

/// What happens to the connection.
pub enum LinkEvent {
    /// Nobody is left to send messages.
    OutboundGone,
    /// A new connection stands.
    Reconnected,
    /// An attempt to connect failed.
    ConnectFailed,
    /// A session ended, and another is wanted or not.
    SessionEnded { reconnect: bool },
}

/// What is done about it.
#[derive(Clone, Copy)]
pub enum LinkAction {
    Stop,
    RunSession,
    /// Connect again after some milliseconds.
    RetryAfter(u64),
}

/// The number of the next attempt.
pub open spec fn next_attempt(attempt: u32) -> u32 {
    if attempt == u32::MAX {
        attempt
    } else {
        (attempt + 1) as u32
    }
}

/// The number of the attempt after an event, and what is done about the event.
pub open spec fn supervised(attempt: u32, event: LinkEvent) -> (u32, LinkAction) {
    let next = next_attempt(attempt);
    match event {
        LinkEvent::OutboundGone => (attempt, LinkAction::Stop),
        LinkEvent::Reconnected => (0, LinkAction::RunSession),
        LinkEvent::ConnectFailed => (
            next,
            LinkAction::RetryAfter(reconnect_delay(next as nat) as u64),
        ),
        LinkEvent::SessionEnded { reconnect } => if reconnect {
            (next, LinkAction::RetryAfter(reconnect_delay(next as nat) as u64))
        } else {
            (attempt, LinkAction::Stop)
        },
    }
}

/// One step of keeping the connection up.
pub fn connection_supervisor(attempt: u32, event: LinkEvent) -> (r: (u32, LinkAction))
    ensures
        r == supervised(attempt, event),
{
    let next: u32 = attempt.saturating_add(1);
    match event {
        LinkEvent::OutboundGone => (attempt, LinkAction::Stop),
        LinkEvent::Reconnected => (0, LinkAction::RunSession),
        LinkEvent::ConnectFailed => (next, LinkAction::RetryAfter(reconnect_delay_ms(next))),
        LinkEvent::SessionEnded { reconnect } => if reconnect {
            (next, LinkAction::RetryAfter(reconnect_delay_ms(next)))
        } else {
            (attempt, LinkAction::Stop)
        },
    }
}

/// What a session meets.
#[derive(Clone, Copy)]
pub enum SessionInput {
    /// A message is to be sent.
    Outbound,
    /// Nobody is left to send messages.
    OutboundClosed,
    /// A message, or an answer to a ping, could not be sent.
    WriteFailed,
    Text,
    Ping,
    Pong,
    /// Binary data, or a bare frame.
    Other,
    Close,
    ReadFailed,
    StreamEnded,
}

/// What a session does.
#[derive(Clone, Copy)]
pub enum SessionStep {
    Continue,
    Write,
    Dispatch,
    SendPong,
    End { reconnect: bool },
}

/// What a session does about what it meets: it ends for good when nobody is left to send, and
/// is renewed whenever the connection fails.
pub open spec fn session_step(input: SessionInput) -> SessionStep {
    match input {
        SessionInput::Outbound => SessionStep::Write,
        SessionInput::OutboundClosed => SessionStep::End { reconnect: false },
        SessionInput::Text => SessionStep::Dispatch,
        SessionInput::Ping => SessionStep::SendPong,
        SessionInput::Pong | SessionInput::Other => SessionStep::Continue,
        SessionInput::WriteFailed | SessionInput::Close | SessionInput::ReadFailed
        | SessionInput::StreamEnded => SessionStep::End { reconnect: true },
    }
}

/// One step of a session.
pub fn run_connected_session(input: SessionInput) -> (r: SessionStep)
    ensures
        r == session_step(input),
{
    match input {
        SessionInput::Outbound => SessionStep::Write,
        SessionInput::OutboundClosed => SessionStep::End { reconnect: false },
        SessionInput::Text => SessionStep::Dispatch,
        SessionInput::Ping => SessionStep::SendPong,
        SessionInput::Pong | SessionInput::Other => SessionStep::Continue,
        SessionInput::WriteFailed | SessionInput::Close | SessionInput::ReadFailed
        | SessionInput::StreamEnded => SessionStep::End { reconnect: true },
    }
}

/// A delay lies between one second and the greatest one, and never falls with another attempt.
pub proof fn law_reconnect_delay_grows_to_its_limit(attempt: nat)
    ensures
        1000 <= reconnect_delay(attempt) <= MAX_RECONNECT_DELAY_MS,
        reconnect_delay(attempt) <= reconnect_delay(attempt + 1),
{
    power2::lemma2_to64();
}

/// A lost connection is always tried again, and a new connection starts the delays anew.
pub proof fn law_lost_connection_is_retried(attempt: u32)
    ensures
        supervised(attempt, LinkEvent::ConnectFailed).1 is RetryAfter,
        supervised(attempt, LinkEvent::SessionEnded { reconnect: true }).1 is RetryAfter,
        ({
            let (zero, _) = supervised(attempt, LinkEvent::Reconnected);
            supervised(zero, LinkEvent::SessionEnded { reconnect: true }).1
                == LinkAction::RetryAfter(1000)
        }),
{
    power2::lemma2_to64();
}

} // verus!
