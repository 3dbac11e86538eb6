//! How the tray app runs the bridge.
use super::i18n;
use super::i18n::Language;
use crate::text::number;
use vstd::prelude::*;
use vstd::string::*;

verus! {

/// What the bridge does.
pub enum BridgeStatus {
    Stopped,
    Starting,
    Running,
    Stopping,
    /// It failed, for a reason.
    Failed(String),
}

impl BridgeStatus {
    /// What the bridge does, in words.
    pub open spec fn words(self, port: u16, language: Language) -> Seq<char> {
        match self {
            BridgeStatus::Stopped => match language {
                Language::ZhHans => "已停止"@,
                Language::En => "Stopped"@,
            },
            BridgeStatus::Starting => i18n::starting_text(port, language),
            BridgeStatus::Running => i18n::running_text(port, language),
            BridgeStatus::Stopping => match language {
                Language::ZhHans => "正在停止"@,
                Language::En => "Stopping"@,
            },
            BridgeStatus::Failed(reason) => i18n::failed_text(reason@, language),
        }
    }

    /// What the bridge does, in words.
    pub fn text(&self, port: u16, language: Language) -> (r: String)
        ensures
            r@ == self.words(port, language),
    {
        match self {
            BridgeStatus::Stopped => i18n::status_stopped(language).to_owned(),
            BridgeStatus::Starting => i18n::status_starting(port, language),
            BridgeStatus::Running => i18n::status_running(port, language),
            BridgeStatus::Stopping => i18n::status_stopping(language).to_owned(),
            BridgeStatus::Failed(reason) => i18n::status_failed(reason, language),
        }
    }

    fn copy(&self) -> (r: BridgeStatus)
        ensures
            same_status(r, *self),
    {
        match self {
            BridgeStatus::Stopped => BridgeStatus::Stopped,
            BridgeStatus::Starting => BridgeStatus::Starting,
            BridgeStatus::Running => BridgeStatus::Running,
            BridgeStatus::Stopping => BridgeStatus::Stopping,
            BridgeStatus::Failed(reason) => BridgeStatus::Failed(reason.clone()),
        }
    }
}

/// Whether two statuses say the same.
pub open spec fn same_status(a: BridgeStatus, b: BridgeStatus) -> bool {
    match (a, b) {
        (BridgeStatus::Failed(x), BridgeStatus::Failed(y)) => x@ == y@,
        _ => a == b,
    }
}

/// What the app shows.
pub struct AppSnapshot {
    pub status: BridgeStatus,
    pub port: u16,
    pub healthy: bool,
    pub config_dir: String,
    pub config_file: String,
    pub log_file: String,
}

impl AppSnapshot {
    /// The line that tells of the bridge.
    pub open spec fn line(self, language: Language) -> Seq<char> {
        if self.status is Running {
            i18n::checked_text(self.status.words(self.port, language), self.healthy, language)
        } else {
            self.status.words(self.port, language)
        }
    }

    /// The line that tells of the bridge. While it runs, it tells too whether its port is open.
    pub fn status_line(&self, language: Language) -> (r: String)
        ensures
            r@ == self.line(language),
    {
        let text = self.status.text(self.port, language);
        match &self.status {
            BridgeStatus::Running => i18n::status_port_check(&text, self.healthy, language),
            _ => text,
        }
    }
}

/// The bridge as the app controls it: what it does, and whether it can be told to stop.
pub struct BridgeControl {
    status: BridgeStatus,
    stoppable: bool,
}

/// The model of the bridge as the app controls it.
pub struct ControlView {
    pub status: BridgeStatus,
    pub stoppable: bool,
}

impl View for BridgeControl {
    type V = ControlView;

    closed spec fn view(&self) -> ControlView {
        ControlView { status: self.status, stoppable: self.stoppable }
    }
}

/// The bridge once it is told to start. One that can be told to stop is not started again.
pub open spec fn started(c: ControlView) -> ControlView {
    if c.stoppable {
        c
    } else {
        ControlView { status: BridgeStatus::Starting, stoppable: true }
    }
}

/// The bridge once it listens.
pub open spec fn listening(c: ControlView) -> ControlView {
    if c.status is Starting {
        ControlView { status: BridgeStatus::Running, ..c }
    } else {
        c
    }
}

/// The bridge once it is told to stop.
pub open spec fn stopped(c: ControlView) -> ControlView {
    ControlView {
        status: if c.stoppable {
            BridgeStatus::Stopping
        } else {
            BridgeStatus::Stopped
        },
        stoppable: false,
    }
}

/// The bridge once it has come to its end.
pub open spec fn ended(result: Result<(), String>) -> ControlView {
    ControlView {
        status: match result {
            Ok(_) => BridgeStatus::Stopped,
            Err(reason) => BridgeStatus::Failed(reason),
        },
        stoppable: false,
    }
}

impl BridgeControl {
    /// A bridge that was not started yet.
    pub fn new() -> (r: Self)
        ensures
            r@ == (ControlView { status: BridgeStatus::Stopped, stoppable: false }),
    {
        BridgeControl { status: BridgeStatus::Stopped, stoppable: false }
    }

    /// Tells the bridge to start. Says whether it is to be run.
    pub fn start_bridge(&mut self) -> (r: bool)
        ensures
            r == !old(self)@.stoppable,
            final(self)@ == started(old(self)@),
    {
        if self.stoppable {
            return false;
        }
        self.status = BridgeStatus::Starting;
        self.stoppable = true;
        true
    }

    /// The bridge listens.
    pub fn on_listening(&mut self)
        ensures
            final(self)@ == listening(old(self)@),
    {
        let starting = match &self.status {
            BridgeStatus::Starting => true,
            _ => false,
        };
        if starting {
            self.status = BridgeStatus::Running;
        }
    }

    /// The bridge has come to its end.
    pub fn on_ended(&mut self, result: Result<(), String>)
        ensures
            final(self)@ == ended(result),
    {
        self.stoppable = false;
        self.status = match result {
            Ok(_) => BridgeStatus::Stopped,
            Err(reason) => BridgeStatus::Failed(reason),
        };
    }

    /// Tells the bridge to stop. Says whether it is to be told.
    pub fn stop_bridge(&mut self) -> (r: bool)
        ensures
            r == old(self)@.stoppable,
            final(self)@ == stopped(old(self)@),
    {
        let told = self.stoppable;
        self.stoppable = false;
        self.status = if told {
            BridgeStatus::Stopping
        } else {
            BridgeStatus::Stopped
        };
        told
    }

    /// What the bridge does.
    pub fn status(&self) -> (r: BridgeStatus)
        ensures
            same_status(r, self@.status),
    {
        self.status.copy()
    }

    /// Whether the bridge is well: it runs, and its port is open.
    pub fn is_healthy(&self, port_open: bool) -> (r: bool)
        ensures
            r == (self@.status is Running && port_open),
    {
        match &self.status {
            BridgeStatus::Running => port_open,
            _ => false,
        }
    }
}

/// The port that the settings name, or the usual one.
pub fn snapshot_port(bridge_port: &str) -> (r: u16)
    ensures
        r == (match number::parsed_unsigned(bridge_port@, u16::MAX as nat) {
            Ok(port) => port,
            Err(_) => 8090,
        }),
{
    match number::parse_unsigned(bridge_port, u16::MAX as u64) {
        Ok(port) => port as u16,
        Err(_) => 8090,
    }
}

/// A bridge that was started is not started a second time before it is told to stop or has come
/// to its end.
pub proof fn law_bridge_is_started_once(c: ControlView)
    ensures
        started(started(c)) == started(c),
        listening(started(c)).stoppable,
        started(listening(started(c))) == listening(started(c)),
{
}

/// A bridge that was told to stop, and came to its end without an error, is stopped; and it can
/// be started again.
pub proof fn law_stopped_bridge_can_be_started(c: ControlView)
    ensures
        !stopped(c).stoppable,
        started(stopped(c)).status is Starting,
        ended(Ok(())).status is Stopped,
        started(ended(Ok(()))).status is Starting,
{
}

} // verus!
