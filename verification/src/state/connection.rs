//! Which OneBot connection is the current one.
use vstd::prelude::*;

verus! {

/// The OneBot connections: only the newest one counts.
pub struct OneBotConnections<H> {
    epoch: u64,
    handle: Option<(u64, H)>,
}

/// The model of the connections.
pub struct ConnectionsView<H> {
    /// The number of the newest connection.
    pub current: u64,
    /// The connection that API calls go through, and its number.
    pub handle: Option<(u64, H)>,
}

impl<H> View for OneBotConnections<H> {
    type V = ConnectionsView<H>;

    closed spec fn view(&self) -> ConnectionsView<H> {
        ConnectionsView { current: self.epoch, handle: self.handle }
    }
}

/// Whether API calls go through the newest connection.
pub open spec fn has_current<H>(c: ConnectionsView<H>) -> bool {
    match c.handle {
        Some((id, _)) => id == c.current,
        None => false,
    }
}

/// The number after a connection's. After the greatest one comes 0.
pub open spec fn next_connection(current: u64) -> u64 {
    if current == u64::MAX {
        0
    } else {
        (current + 1) as u64
    }
}

impl<H> OneBotConnections<H> {
    pub fn new() -> (r: Self)
        ensures
            r@ == (ConnectionsView { current: 0, handle: None::<(u64, H)> }),
    {
        OneBotConnections { epoch: 0, handle: None }
    }

    /// A new connection gets the next number, and is the current one.
    pub fn register_onebot_connection(&mut self) -> (r: u64)
        ensures
            r == next_connection(old(self)@.current),
            final(self)@ == (ConnectionsView { current: r, ..old(self)@ }),
    {
        self.epoch = self.epoch.wrapping_add(1);
        self.epoch
    }

    /// Whether a connection is the newest one.
    pub fn is_current_onebot_connection(&self, connection_id: u64) -> (r: bool)
        ensures
            r == (connection_id == self@.current),
    {
        self.epoch == connection_id
    }

    /// Has API calls go through a connection.
    pub fn set_onebot_api_handle(&mut self, connection_id: u64, handle: H)
        ensures
            final(self)@ == (ConnectionsView { handle: Some((connection_id, handle)), ..old(self)@ }),
    {
        self.handle = Some((connection_id, handle));
    }

    /// The connection that API calls go through, if it is the newest one.
    pub fn get_onebot_api_handle(&self) -> (r: Option<&H>)
        ensures
            match r {
                Some(h) => self@.handle == Some((self@.current, *h)),
                None => !has_current(self@),
            },
    {
        match &self.handle {
            Some((id, h)) => if *id == self.epoch {
                Some(h)
            } else {
                None
            },
            None => None,
        }
    }

    /// A connection is closed: API calls no longer go through it.
    pub fn clear_onebot_api_handle(&mut self, connection_id: u64)
        ensures
            final(self)@ == (match old(self)@.handle {
                Some((id, _)) => if id == connection_id {
                    ConnectionsView { handle: None, ..old(self)@ }
                } else {
                    old(self)@
                },
                None => old(self)@,
            }),
    {
        let matching = match &self.handle {
            Some((id, _)) => *id == connection_id,
            None => false,
        };
        if matching {
            self.handle = None;
        }
    }

    /// Whether API calls can be made.
    pub fn has_onebot_api_handle(&self) -> (r: bool)
        ensures
            r == has_current(self@),
    {
        self.get_onebot_api_handle().is_some()
    }
}

/// A new connection is the current one, and the one before it no longer is.
pub proof fn law_only_the_latest_connection_is_current(current: u64)
    ensures
        next_connection(current) != current,
{
}

/// The model that replies are asked of: the one that is configured, else Alma's own default.
pub fn get_default_model(configured: Option<String>, default_model: Option<String>) -> (r: Option<
    String,
>)
    ensures
        r == (if configured is Some {
            configured
        } else {
            default_model
        }),
{
    match configured {
        Some(m) => Some(m),
        None => default_model,
    }
}

} // verus!
