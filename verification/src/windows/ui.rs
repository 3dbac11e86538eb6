//! What the windows and the menu of the tray app show and do.
use super::app_state::{AppSnapshot, BridgeStatus};
use super::config_model;
use super::config_model::{ConfigModel, SettingsFile};
use super::i18n;
use super::i18n::{Language, Text};
use vstd::prelude::*;
use vstd::string::*;

verus! {

/// How a status is marked.
#[derive(Clone, Copy, PartialEq, Eq, Structural)]
pub enum Severity {
    Success,
    Error,
    Informational,
    Warning,
}

/// How the status of the bridge is marked.
pub fn status_severity(snapshot: &AppSnapshot) -> (r: Severity)
    ensures
        r == (match snapshot.status {
            BridgeStatus::Running => if snapshot.healthy {
                Severity::Success
            } else {
                Severity::Warning
            },
            BridgeStatus::Failed(_) => Severity::Error,
            BridgeStatus::Starting | BridgeStatus::Stopping => Severity::Informational,
            BridgeStatus::Stopped => Severity::Warning,
        }),
{
    match &snapshot.status {
        BridgeStatus::Running => if snapshot.healthy {
            Severity::Success
        } else {
            Severity::Warning
        },
        BridgeStatus::Failed(_) => Severity::Error,
        BridgeStatus::Starting | BridgeStatus::Stopping => Severity::Informational,
        BridgeStatus::Stopped => Severity::Warning,
    }
}

/// How the message about the settings is marked.
pub fn settings_severity(settings: &ConfigModel) -> (r: Severity)
    ensures
        r == (if config_model::valid(settings@) {
            Severity::Success
        } else {
            Severity::Error
        }),
{
    if settings.is_valid() {
        Severity::Success
    } else {
        Severity::Error
    }
}

/// The file that settings are to be saved in, or why they are not saved.
pub fn save_settings(settings: &ConfigModel, language: Language) -> (r: Result<
    SettingsFile,
    String,
>)
    ensures
        match r {
            Ok(file) => config_model::valid(settings@) && file@ == config_model::saved(settings@),
            Err(message) => !config_model::valid(settings@) && message@ == (match language {
                Language::ZhHans => "部分设置无效。"@,
                Language::En => "Some settings are invalid."@,
            }),
        },
{
    if settings.is_valid() {
        Ok(settings.to_file())
    } else {
        Err(i18n::invalid_settings_message(language).to_owned())
    }
}

/// What is said once settings were saved, and whether the bridge is restarted.
pub fn settings_saved(result: Result<(), String>, language: Language) -> (r: (String, bool))
    ensures
        r.1 == result is Ok,
        r.0@ == (match result {
            Ok(_) => match language {
                Language::ZhHans => "已保存，桥接服务正在重启。"@,
                Language::En => "Saved. Bridge restart requested."@,
            },
            Err(e) => i18n::save_failed_text(e@, language),
        }),
{
    match result {
        Ok(_) => (i18n::saved_restart_message(language).to_owned(), true),
        Err(e) => (i18n::save_failed_message(&e, language), false),
    }
}

/// Whether messages of groups are listened to, and whether they are answered.
#[derive(Clone, Copy, PartialEq, Eq, Structural)]
pub struct GroupToggles {
    pub listen: bool,
    pub respond: bool,
}

impl GroupToggles {
    /// Turns the listening on or off. Without it there are no answers.
    pub fn set_listen(self, value: bool) -> (r: GroupToggles)
        ensures
            r == (GroupToggles { listen: value, respond: self.respond && value }),
    {
        GroupToggles { listen: value, respond: self.respond && value }
    }

    /// Turns the answers on or off, where the groups are listened to.
    pub fn set_respond(self, value: bool) -> (r: GroupToggles)
        ensures
            r == (GroupToggles {
                listen: self.listen,
                respond: if self.listen {
                    value
                } else {
                    self.respond
                },
            }),
    {
        GroupToggles {
            listen: self.listen,
            respond: if self.listen {
                value
            } else {
                self.respond
            },
        }
    }

    /// Whether the answers are shown as turned on.
    pub fn shows_respond(self) -> (r: bool)
        ensures
            r == (self.respond && self.listen),
    {
        self.respond && self.listen
    }
}

/// A command of the menu.
#[derive(Clone, Copy, PartialEq, Eq, Structural)]
pub enum TrayCommand {
    Settings,
    Start,
    Stop,
    Restart,
    OpenConfig,
    OpenLog,
    About,
    Quit,
}

impl TrayCommand {
    /// The number of a command.
    pub open spec fn number(self) -> usize {
        match self {
            TrayCommand::Settings => 1001,
            TrayCommand::Start => 1002,
            TrayCommand::Stop => 1003,
            TrayCommand::Restart => 1004,
            TrayCommand::OpenConfig => 1005,
            TrayCommand::OpenLog => 1006,
            TrayCommand::About => 1007,
            TrayCommand::Quit => 1008,
        }
    }

    /// The words of a command.
    pub open spec fn label(self) -> Text {
        match self {
            TrayCommand::Settings => Text::Settings,
            TrayCommand::Start => Text::StartBridge,
            TrayCommand::Stop => Text::StopBridge,
            TrayCommand::Restart => Text::RestartBridge,
            TrayCommand::OpenConfig => Text::OpenConfigDirectory,
            TrayCommand::OpenLog => Text::OpenBridgeLog,
            TrayCommand::About => Text::About,
            TrayCommand::Quit => Text::Quit,
        }
    }

    /// The number of a command.
    pub fn id(self) -> (r: usize)
        ensures
            r == self.number(),
    {
        match self {
            TrayCommand::Settings => 1001,
            TrayCommand::Start => 1002,
            TrayCommand::Stop => 1003,
            TrayCommand::Restart => 1004,
            TrayCommand::OpenConfig => 1005,
            TrayCommand::OpenLog => 1006,
            TrayCommand::About => 1007,
            TrayCommand::Quit => 1008,
        }
    }

    /// The words of a command.
    pub fn text(self) -> (r: Text)
        ensures
            r == self.label(),
    {
        match self {
            TrayCommand::Settings => Text::Settings,
            TrayCommand::Start => Text::StartBridge,
            TrayCommand::Stop => Text::StopBridge,
            TrayCommand::Restart => Text::RestartBridge,
            TrayCommand::OpenConfig => Text::OpenConfigDirectory,
            TrayCommand::OpenLog => Text::OpenBridgeLog,
            TrayCommand::About => Text::About,
            TrayCommand::Quit => Text::Quit,
        }
    }
}

/// The command with a number, if there is one.
pub fn handle_command(id: usize) -> (r: Option<TrayCommand>)
    ensures
        match r {
            Some(c) => c.number() == id,
            None => forall|c: TrayCommand| #[trigger] c.number() != id,
        },
{
    if id == 1001 {
        Some(TrayCommand::Settings)
    } else if id == 1002 {
        Some(TrayCommand::Start)
    } else if id == 1003 {
        Some(TrayCommand::Stop)
    } else if id == 1004 {
        Some(TrayCommand::Restart)
    } else if id == 1005 {
        Some(TrayCommand::OpenConfig)
    } else if id == 1006 {
        Some(TrayCommand::OpenLog)
    } else if id == 1007 {
        Some(TrayCommand::About)
    } else if id == 1008 {
        Some(TrayCommand::Quit)
    } else {
        None
    }
}

/// An entry of the menu.
#[derive(Clone, Copy, PartialEq, Eq, Structural)]
pub enum MenuEntry {
    Command(TrayCommand),
    Separator,
    /// The line that tells of the bridge.
    StatusLine,
}

/// The entries of the menu.
pub fn show_menu() -> (r: Vec<MenuEntry>)
    ensures
        r@ == seq![
            MenuEntry::Command(TrayCommand::Settings),
            MenuEntry::Command(TrayCommand::Start),
            MenuEntry::Command(TrayCommand::Stop),
            MenuEntry::Command(TrayCommand::Restart),
            MenuEntry::Command(TrayCommand::OpenConfig),
            MenuEntry::Command(TrayCommand::OpenLog),
            MenuEntry::Command(TrayCommand::About),
            MenuEntry::Separator,
            MenuEntry::StatusLine,
            MenuEntry::Separator,
            MenuEntry::Command(TrayCommand::Quit),
        ],
{
    vec![
        MenuEntry::Command(TrayCommand::Settings),
        MenuEntry::Command(TrayCommand::Start),
        MenuEntry::Command(TrayCommand::Stop),
        MenuEntry::Command(TrayCommand::Restart),
        MenuEntry::Command(TrayCommand::OpenConfig),
        MenuEntry::Command(TrayCommand::OpenLog),
        MenuEntry::Command(TrayCommand::About),
        MenuEntry::Separator,
        MenuEntry::StatusLine,
        MenuEntry::Separator,
        MenuEntry::Command(TrayCommand::Quit),
    ]
}

} // verus!
