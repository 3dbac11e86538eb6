//! The words of the tray app, in English and in simplified Chinese.
use crate::json;
use crate::text::model;
use crate::text::number;
use crate::text::ops;
use vstd::prelude::*;
use vstd::string::*;

verus! {

/// A language of the app.
#[derive(Clone, Copy, PartialEq, Eq, Structural)]
pub enum Language {
    En,
    ZhHans,
}

/// A text of the app.
#[derive(Clone, Copy, PartialEq, Eq, Structural)]
pub enum Text {
    About,
    AboutWindowTitle,
    AccessToken,
    AlmaApi,
    AppAlreadyRunning,
    Author,
    BridgeService,
    BridgeStatus,
    Config,
    ConfigDir,
    DatabasePath,
    Disabled,
    GenerationTimeout,
    GroupHistorySize,
    ListenPort,
    ListenToGroupMessages,
    License,
    Log,
    MaxRetries,
    ModelOverride,
    OneBotAndChat,
    OneBotTimeout,
    Off,
    On,
    OpenBridgeLog,
    OpenConfig,
    OpenConfigDirectory,
    OpenLog,
    PeopleDirectory,
    Project,
    Quit,
    Restart,
    RestartBridge,
    RespondToGroupMessages,
    RetryDelayMs,
    Runtime,
    SaveAndRestartBridge,
    SegmentReplies,
    Settings,
    SettingsWindowName,
    SettingsWindowTitle,
    ShowThinkingInQq,
    ShowToolCalls,
    Start,
    StartBridge,
    Status,
    Stop,
    StopBridge,
    Storage,
    ThinkingMessage,
    Version,
}

/// A text in English.
pub open spec fn english(text: Text) -> Seq<char> {
    match text {
        Text::About => "About"@,
        Text::AboutWindowTitle => "About Alma OneBot Bridge"@,
        Text::AccessToken => "Access token"@,
        Text::AlmaApi => "Alma API"@,
        Text::AppAlreadyRunning => "Alma OneBot Bridge is already running in the notification area."@,
        Text::Author => "Author"@,
        Text::BridgeService => "Bridge service"@,
        Text::BridgeStatus => "Bridge status"@,
        Text::Config => "Config"@,
        Text::ConfigDir => "Config dir"@,
        Text::DatabasePath => "Database path"@,
        Text::Disabled => "Disabled"@,
        Text::GenerationTimeout => "Generation timeout"@,
        Text::GroupHistorySize => "Group history size"@,
        Text::ListenPort => "Listen port"@,
        Text::ListenToGroupMessages => "Listen to group messages"@,
        Text::License => "License"@,
        Text::Log => "Log"@,
        Text::MaxRetries => "Max retries"@,
        Text::ModelOverride => "Model override"@,
        Text::OneBotAndChat => "OneBot and chat"@,
        Text::OneBotTimeout => "OneBot timeout"@,
        Text::Off => "Off"@,
        Text::On => "On"@,
        Text::OpenBridgeLog => "Open Bridge Log"@,
        Text::OpenConfig => "Open config"@,
        Text::OpenConfigDirectory => "Open Config Directory"@,
        Text::OpenLog => "Open log"@,
        Text::PeopleDirectory => "People directory"@,
        Text::Project => "Project"@,
        Text::Quit => "Quit"@,
        Text::Restart => "Restart"@,
        Text::RestartBridge => "Restart Bridge"@,
        Text::RespondToGroupMessages => "Respond to group messages"@,
        Text::RetryDelayMs => "Retry delay ms"@,
        Text::Runtime => "Runtime"@,
        Text::SaveAndRestartBridge => "Save and restart bridge"@,
        Text::SegmentReplies => "Segment replies"@,
        Text::Settings => "Settings"@,
        Text::SettingsWindowName => "Settings"@,
        Text::SettingsWindowTitle => "Alma OneBot Bridge"@,
        Text::ShowThinkingInQq => "Show thinking in QQ"@,
        Text::ShowToolCalls => "Show tool calls"@,
        Text::Start => "Start"@,
        Text::StartBridge => "Start Bridge"@,
        Text::Status => "Status"@,
        Text::Stop => "Stop"@,
        Text::StopBridge => "Stop Bridge"@,
        Text::Storage => "Storage"@,
        Text::ThinkingMessage => "Thinking message"@,
        Text::Version => "Version"@,
    }
}

/// A text in simplified Chinese.
pub open spec fn chinese(text: Text) -> Seq<char> {
    match text {
        Text::About => "关于"@,
        Text::AboutWindowTitle => "关于 Alma OneBot Bridge"@,
        Text::AccessToken => "访问令牌"@,
        Text::AlmaApi => "Alma API"@,
        Text::AppAlreadyRunning => "Alma OneBot Bridge 已在通知区域运行。"@,
        Text::Author => "作者"@,
        Text::BridgeService => "桥接服务"@,
        Text::BridgeStatus => "桥接状态"@,
        Text::Config => "配置"@,
        Text::ConfigDir => "配置目录"@,
        Text::DatabasePath => "数据库路径"@,
        Text::Disabled => "禁用"@,
        Text::GenerationTimeout => "生成超时"@,
        Text::GroupHistorySize => "群聊历史条数"@,
        Text::ListenPort => "监听端口"@,
        Text::ListenToGroupMessages => "监听群聊消息"@,
        Text::License => "许可证"@,
        Text::Log => "日志"@,
        Text::MaxRetries => "最大重试次数"@,
        Text::ModelOverride => "模型覆盖"@,
        Text::OneBotAndChat => "OneBot 与聊天"@,
        Text::OneBotTimeout => "OneBot 超时"@,
        Text::Off => "关闭"@,
        Text::On => "开启"@,
        Text::OpenBridgeLog => "打开桥接日志"@,
        Text::OpenConfig => "打开配置"@,
        Text::OpenConfigDirectory => "打开配置目录"@,
        Text::OpenLog => "打开日志"@,
        Text::PeopleDirectory => "People 目录"@,
        Text::Project => "项目"@,
        Text::Quit => "退出"@,
        Text::Restart => "重启"@,
        Text::RestartBridge => "重启桥接服务"@,
        Text::RespondToGroupMessages => "响应群聊消息"@,
        Text::RetryDelayMs => "重试延迟（毫秒）"@,
        Text::Runtime => "运行时"@,
        Text::SaveAndRestartBridge => "保存并重启桥接服务"@,
        Text::SegmentReplies => "分段式回复"@,
        Text::Settings => "设置"@,
        Text::SettingsWindowName => "设置"@,
        Text::SettingsWindowTitle => "Alma OneBot Bridge"@,
        Text::ShowThinkingInQq => "在 QQ 中显示思考"@,
        Text::ShowToolCalls => "显示工具调用"@,
        Text::Start => "启动"@,
        Text::StartBridge => "启动桥接服务"@,
        Text::Status => "状态"@,
        Text::Stop => "停止"@,
        Text::StopBridge => "停止桥接服务"@,
        Text::Storage => "存储"@,
        Text::ThinkingMessage => "思考提示消息"@,
        Text::Version => "版本"@,
    }
}

/// A text in English.
pub fn en(text: Text) -> (r: &'static str)
    ensures
        r@ == english(text),
{
    match text {
        Text::About => "About",
        Text::AboutWindowTitle => "About Alma OneBot Bridge",
        Text::AccessToken => "Access token",
        Text::AlmaApi => "Alma API",
        Text::AppAlreadyRunning => "Alma OneBot Bridge is already running in the notification area.",
        Text::Author => "Author",
        Text::BridgeService => "Bridge service",
        Text::BridgeStatus => "Bridge status",
        Text::Config => "Config",
        Text::ConfigDir => "Config dir",
        Text::DatabasePath => "Database path",
        Text::Disabled => "Disabled",
        Text::GenerationTimeout => "Generation timeout",
        Text::GroupHistorySize => "Group history size",
        Text::ListenPort => "Listen port",
        Text::ListenToGroupMessages => "Listen to group messages",
        Text::License => "License",
        Text::Log => "Log",
        Text::MaxRetries => "Max retries",
        Text::ModelOverride => "Model override",
        Text::OneBotAndChat => "OneBot and chat",
        Text::OneBotTimeout => "OneBot timeout",
        Text::Off => "Off",
        Text::On => "On",
        Text::OpenBridgeLog => "Open Bridge Log",
        Text::OpenConfig => "Open config",
        Text::OpenConfigDirectory => "Open Config Directory",
        Text::OpenLog => "Open log",
        Text::PeopleDirectory => "People directory",
        Text::Project => "Project",
        Text::Quit => "Quit",
        Text::Restart => "Restart",
        Text::RestartBridge => "Restart Bridge",
        Text::RespondToGroupMessages => "Respond to group messages",
        Text::RetryDelayMs => "Retry delay ms",
        Text::Runtime => "Runtime",
        Text::SaveAndRestartBridge => "Save and restart bridge",
        Text::SegmentReplies => "Segment replies",
        Text::Settings => "Settings",
        Text::SettingsWindowName => "Settings",
        Text::SettingsWindowTitle => "Alma OneBot Bridge",
        Text::ShowThinkingInQq => "Show thinking in QQ",
        Text::ShowToolCalls => "Show tool calls",
        Text::Start => "Start",
        Text::StartBridge => "Start Bridge",
        Text::Status => "Status",
        Text::Stop => "Stop",
        Text::StopBridge => "Stop Bridge",
        Text::Storage => "Storage",
        Text::ThinkingMessage => "Thinking message",
        Text::Version => "Version",
    }
}

/// A text in simplified Chinese.
pub fn zh_hans(text: Text) -> (r: &'static str)
    ensures
        r@ == chinese(text),
{
    match text {
        Text::About => "关于",
        Text::AboutWindowTitle => "关于 Alma OneBot Bridge",
        Text::AccessToken => "访问令牌",
        Text::AlmaApi => "Alma API",
        Text::AppAlreadyRunning => "Alma OneBot Bridge 已在通知区域运行。",
        Text::Author => "作者",
        Text::BridgeService => "桥接服务",
        Text::BridgeStatus => "桥接状态",
        Text::Config => "配置",
        Text::ConfigDir => "配置目录",
        Text::DatabasePath => "数据库路径",
        Text::Disabled => "禁用",
        Text::GenerationTimeout => "生成超时",
        Text::GroupHistorySize => "群聊历史条数",
        Text::ListenPort => "监听端口",
        Text::ListenToGroupMessages => "监听群聊消息",
        Text::License => "许可证",
        Text::Log => "日志",
        Text::MaxRetries => "最大重试次数",
        Text::ModelOverride => "模型覆盖",
        Text::OneBotAndChat => "OneBot 与聊天",
        Text::OneBotTimeout => "OneBot 超时",
        Text::Off => "关闭",
        Text::On => "开启",
        Text::OpenBridgeLog => "打开桥接日志",
        Text::OpenConfig => "打开配置",
        Text::OpenConfigDirectory => "打开配置目录",
        Text::OpenLog => "打开日志",
        Text::PeopleDirectory => "People 目录",
        Text::Project => "项目",
        Text::Quit => "退出",
        Text::Restart => "重启",
        Text::RestartBridge => "重启桥接服务",
        Text::RespondToGroupMessages => "响应群聊消息",
        Text::RetryDelayMs => "重试延迟（毫秒）",
        Text::Runtime => "运行时",
        Text::SaveAndRestartBridge => "保存并重启桥接服务",
        Text::SegmentReplies => "分段式回复",
        Text::Settings => "设置",
        Text::SettingsWindowName => "设置",
        Text::SettingsWindowTitle => "Alma OneBot Bridge",
        Text::ShowThinkingInQq => "在 QQ 中显示思考",
        Text::ShowToolCalls => "显示工具调用",
        Text::Start => "启动",
        Text::StartBridge => "启动桥接服务",
        Text::Status => "状态",
        Text::Stop => "停止",
        Text::StopBridge => "停止桥接服务",
        Text::Storage => "存储",
        Text::ThinkingMessage => "思考提示消息",
        Text::Version => "版本",
    }
}

/// A text in a language.
pub open spec fn worded(text: Text, language: Language) -> Seq<char> {
    match language {
        Language::ZhHans => chinese(text),
        Language::En => english(text),
    }
}

/// A text in a language.
pub fn tr(text: Text, language: Language) -> (r: &'static str)
    ensures
        r@ == worded(text, language),
{
    match language {
        Language::ZhHans => zh_hans(text),
        Language::En => en(text),
    }
}

/// What the app is.
pub fn app_description(language: Language) -> (r: &'static str)
    ensures
        r@ == (match language {
            Language::ZhHans => "由 Rust 和 WinUI 3 驱动的 Windows 原生托盘应用。"@,
            Language::En => "Windows native tray app powered by Rust and WinUI 3."@,
        }),
{
    match language {
        Language::ZhHans => "由 Rust 和 WinUI 3 驱动的 Windows 原生托盘应用。",
        Language::En => "Windows native tray app powered by Rust and WinUI 3.",
    }
}

/// What an empty field for the model means.
pub fn empty_model_placeholder(language: Language) -> (r: &'static str)
    ensures
        r@ == (match language {
            Language::ZhHans => "留空则使用 Alma 默认模型"@,
            Language::En => "Leave empty to use Alma default"@,
        }),
{
    match language {
        Language::ZhHans => "留空则使用 Alma 默认模型",
        Language::En => "Leave empty to use Alma default",
    }
}

/// What an empty field for a text means.
pub fn empty_disabled_placeholder(language: Language) -> (r: &'static str)
    ensures
        r@ == (match language {
            Language::ZhHans => "留空则禁用"@,
            Language::En => "Leave empty to disable"@,
        }),
{
    match language {
        Language::ZhHans => "留空则禁用",
        Language::En => "Leave empty to disable",
    }
}

/// That the bridge is stopped.
pub fn status_stopped(language: Language) -> (r: &'static str)
    ensures
        r@ == (match language {
            Language::ZhHans => "已停止"@,
            Language::En => "Stopped"@,
        }),
{
    match language {
        Language::ZhHans => "已停止",
        Language::En => "Stopped",
    }
}

/// That the bridge is being stopped.
pub fn status_stopping(language: Language) -> (r: &'static str)
    ensures
        r@ == (match language {
            Language::ZhHans => "正在停止"@,
            Language::En => "Stopping"@,
        }),
{
    match language {
        Language::ZhHans => "正在停止",
        Language::En => "Stopping",
    }
}

/// That settings are not valid.
pub fn invalid_settings_message(language: Language) -> (r: &'static str)
    ensures
        r@ == (match language {
            Language::ZhHans => "部分设置无效。"@,
            Language::En => "Some settings are invalid."@,
        }),
{
    match language {
        Language::ZhHans => "部分设置无效。",
        Language::En => "Some settings are invalid.",
    }
}

/// That settings are saved.
pub fn saved_restart_message(language: Language) -> (r: &'static str)
    ensures
        r@ == (match language {
            Language::ZhHans => "已保存，桥接服务正在重启。"@,
            Language::En => "Saved. Bridge restart requested."@,
        }),
{
    match language {
        Language::ZhHans => "已保存，桥接服务正在重启。",
        Language::En => "Saved. Bridge restart requested.",
    }
}

/// That the bridge is being started on a port.
pub open spec fn starting_text(port: u16, language: Language) -> Seq<char> {
    match language {
        Language::ZhHans => "正在启动：端口 "@ + number::dec_nat(port as nat),
        Language::En => "Starting on port "@ + number::dec_nat(port as nat),
    }
}

/// That the bridge is being started on a port.
pub fn status_starting(port: u16, language: Language) -> (r: String)
    ensures
        r@ == starting_text(port, language),
{
    match language {
        Language::ZhHans => "正在启动：端口 ".to_owned().concat(&number::dec_u64(port as u64)),
        Language::En => "Starting on port ".to_owned().concat(&number::dec_u64(port as u64)),
    }
}

/// That the bridge runs on a port.
pub open spec fn running_text(port: u16, language: Language) -> Seq<char> {
    match language {
        Language::ZhHans => "运行中：端口 "@ + number::dec_nat(port as nat),
        Language::En => "Running on port "@ + number::dec_nat(port as nat),
    }
}

/// That the bridge runs on a port.
pub fn status_running(port: u16, language: Language) -> (r: String)
    ensures
        r@ == running_text(port, language),
{
    match language {
        Language::ZhHans => "运行中：端口 ".to_owned().concat(&number::dec_u64(port as u64)),
        Language::En => "Running on port ".to_owned().concat(&number::dec_u64(port as u64)),
    }
}

/// Why the bridge failed.
pub open spec fn failed_text(reason: Seq<char>, language: Language) -> Seq<char> {
    match language {
        Language::ZhHans => "失败："@ + reason,
        Language::En => "Failed: "@ + reason,
    }
}

/// Why the bridge failed.
pub fn status_failed(reason: &str, language: Language) -> (r: String)
    ensures
        r@ == failed_text(reason@, language),
{
    match language {
        Language::ZhHans => "失败：".to_owned().concat(reason),
        Language::En => "Failed: ".to_owned().concat(reason),
    }
}

/// Why settings could not be saved.
pub open spec fn save_failed_text(error: Seq<char>, language: Language) -> Seq<char> {
    match language {
        Language::ZhHans => "保存失败："@ + error,
        Language::En => "Save failed: "@ + error,
    }
}

/// Why settings could not be saved.
pub fn save_failed_message(error: &str, language: Language) -> (r: String)
    ensures
        r@ == save_failed_text(error@, language),
{
    match language {
        Language::ZhHans => "保存失败：".to_owned().concat(error),
        Language::En => "Save failed: ".to_owned().concat(error),
    }
}

/// That a window could not be opened.
pub open spec fn window_failed_text(window_name: Seq<char>, log_path: Seq<char>, language: Language) -> Seq<char> {
    match language {
        Language::ZhHans => "无法打开"@ + window_name + "窗口。\n\n请检查桥接日志：\n"@ + log_path,
        Language::En => "Could not open the "@ + window_name + " window.\n\nCheck the bridge log:\n"@ + log_path,
    }
}

/// That a window could not be opened.
pub fn window_open_failed(window_name: &str, log_path: &str, language: Language) -> (r: String)
    ensures
        r@ == window_failed_text(window_name@, log_path@, language),
{
    match language {
        Language::ZhHans => "无法打开".to_owned().concat(window_name).concat("窗口。\n\n请检查桥接日志：\n").concat(log_path),
        Language::En => "Could not open the ".to_owned().concat(window_name).concat(" window.\n\nCheck the bridge log:\n").concat(log_path),
    }
}

/// Why a file or a page could not be opened.
pub open spec fn open_failed_text(target: Seq<char>, error: Seq<char>, language: Language) -> Seq<char> {
    match language {
        Language::ZhHans => "无法打开：\n"@ + target + "\n\n"@ + error,
        Language::En => "Could not open:\n"@ + target + "\n\n"@ + error,
    }
}

/// Why a file or a page could not be opened.
pub fn open_target_failed(target: &str, error: &str, language: Language) -> (r: String)
    ensures
        r@ == open_failed_text(target@, error@, language),
{
    match language {
        Language::ZhHans => "无法打开：\n".to_owned().concat(target).concat("\n\n").concat(error),
        Language::En => "Could not open:\n".to_owned().concat(target).concat("\n\n").concat(error),
    }
}

/// A status with what the check of the port gave.
pub open spec fn checked_text(base: Seq<char>, healthy: bool, language: Language) -> Seq<char> {
    base + (match (language, healthy) {
        (Language::ZhHans, true) => " - 端口检查通过"@,
        (Language::ZhHans, false) => " - 端口检查失败"@,
        (Language::En, true) => " - port check passed"@,
        (Language::En, false) => " - port check failed"@,
    })
}

/// A status with what the check of the port gave.
pub fn status_port_check(base: &str, healthy: bool, language: Language) -> (r: String)
    ensures
        r@ == checked_text(base@, healthy, language),
{
    base.to_owned().concat(
        match (language, healthy) {
            (Language::ZhHans, true) => " - 端口检查通过",
            (Language::ZhHans, false) => " - 端口检查失败",
            (Language::En, true) => " - port check passed",
            (Language::En, false) => " - port check failed",
        },
    )
}

/// What an error code of the shell means.
pub open spec fn shell_error_text(code: isize, language: Language) -> Seq<char> {
    match language {
        Language::ZhHans => if code == 0 {
            "操作系统内存或资源不足。"@
        } else if code == 2 {
            "目标文件不存在。"@
        } else if code == 3 {
            "目标路径不存在。"@
        } else if code == 5 {
            "访问被拒绝。"@
        } else if code == 8 {
            "内存不足，无法完成操作。"@
        } else if code == 26 {
            "发生共享冲突。"@
        } else if code == 27 {
            "文件关联不完整或无效。"@
        } else if code == 28 {
            "DDE 事务超时。"@
        } else if code == 29 {
            "DDE 事务失败。"@
        } else if code == 30 {
            "DDE 事务正忙。"@
        } else if code == 31 {
            "没有应用与目标关联。"@
        } else if code == 32 {
            "未找到动态链接库。"@
        } else {
            "ShellExecuteW 返回错误码 "@ + number::dec(code as int) + "。"@
        },
        Language::En => if code == 0 {
            "The operating system is out of memory or resources."@
        } else if code == 2 {
            "The target file was not found."@
        } else if code == 3 {
            "The target path was not found."@
        } else if code == 5 {
            "Access was denied."@
        } else if code == 8 {
            "There is not enough memory to complete the operation."@
        } else if code == 26 {
            "A sharing violation occurred."@
        } else if code == 27 {
            "The file association is incomplete or invalid."@
        } else if code == 28 {
            "The DDE transaction timed out."@
        } else if code == 29 {
            "The DDE transaction failed."@
        } else if code == 30 {
            "The DDE transaction is busy."@
        } else if code == 31 {
            "No application is associated with the target."@
        } else if code == 32 {
            "The dynamic-link library was not found."@
        } else {
            "ShellExecuteW returned error code "@ + number::dec(code as int) + "."@
        },
    }
}

/// What an error code of the shell means.
pub fn shell_execute_error(code: isize, language: Language) -> (r: String)
    ensures
        r@ == shell_error_text(code, language),
{
    match language {
        Language::ZhHans => if code == 0 {
            "操作系统内存或资源不足。".to_owned()
        } else if code == 2 {
            "目标文件不存在。".to_owned()
        } else if code == 3 {
            "目标路径不存在。".to_owned()
        } else if code == 5 {
            "访问被拒绝。".to_owned()
        } else if code == 8 {
            "内存不足，无法完成操作。".to_owned()
        } else if code == 26 {
            "发生共享冲突。".to_owned()
        } else if code == 27 {
            "文件关联不完整或无效。".to_owned()
        } else if code == 28 {
            "DDE 事务超时。".to_owned()
        } else if code == 29 {
            "DDE 事务失败。".to_owned()
        } else if code == 30 {
            "DDE 事务正忙。".to_owned()
        } else if code == 31 {
            "没有应用与目标关联。".to_owned()
        } else if code == 32 {
            "未找到动态链接库。".to_owned()
        } else {
            "ShellExecuteW 返回错误码 ".to_owned().concat(&number::dec_i64(code as i64)).concat("。")
        },
        Language::En => if code == 0 {
            "The operating system is out of memory or resources.".to_owned()
        } else if code == 2 {
            "The target file was not found.".to_owned()
        } else if code == 3 {
            "The target path was not found.".to_owned()
        } else if code == 5 {
            "Access was denied.".to_owned()
        } else if code == 8 {
            "There is not enough memory to complete the operation.".to_owned()
        } else if code == 26 {
            "A sharing violation occurred.".to_owned()
        } else if code == 27 {
            "The file association is incomplete or invalid.".to_owned()
        } else if code == 28 {
            "The DDE transaction timed out.".to_owned()
        } else if code == 29 {
            "The DDE transaction failed.".to_owned()
        } else if code == 30 {
            "The DDE transaction is busy.".to_owned()
        } else if code == 31 {
            "No application is associated with the target.".to_owned()
        } else if code == 32 {
            "The dynamic-link library was not found.".to_owned()
        } else {
            "ShellExecuteW returned error code ".to_owned().concat(&number::dec_i64(code as i64)).concat(".")
        },
    }
}

/// Whether a locale is one of simplified Chinese.
pub open spec fn names_chinese(locale: Seq<char>) -> bool {
    let name = model::ascii_lowered(model::replaced(locale, "_"@, "-"@));
    ||| model::begins_with(name, "zh-hans"@)
    ||| model::begins_with(name, "zh-cn"@)
    ||| model::begins_with(name, "zh-sg"@)
    ||| name == "zh"@
}

/// Whether a locale is one of simplified Chinese.
pub fn is_simplified_chinese_locale(locale: &str) -> (r: bool)
    ensures
        r == names_chinese(locale@),
{
    proof {
        reveal_strlit("_");
    }
    let name = ops::ascii_lowercase(&ops::replace(locale, "_", "-"));
    ops::starts_with(&name, "zh-hans") || ops::starts_with(&name, "zh-cn") || ops::starts_with(
        &name,
        "zh-sg",
    ) || ops::same(&name, "zh")
}

/// The language of the app: simplified Chinese where the locale of the user, or one of the
/// settings of the environment, is one of it.
pub open spec fn language_of(user_locale: Option<Seq<char>>, settings: Seq<Seq<char>>) -> Language {
    if (user_locale matches Some(l) && names_chinese(l)) || exists|i: int|
        0 <= i < settings.len() && names_chinese(#[trigger] settings[i]) {
        Language::ZhHans
    } else {
        Language::En
    }
}

/// The language of the app. `settings` are those of the environment that are set.
pub fn detect_language(user_locale: Option<&str>, settings: &Vec<String>) -> (r: Language)
    ensures
        r == language_of(json::str_view(user_locale), model::texts(settings@)),
{
    if let Some(l) = user_locale {
        if is_simplified_chinese_locale(l) {
            return Language::ZhHans;
        }
    }
    let ghost all = model::texts(settings@);
    let mut i: usize = 0;
    while i < settings.len()
        invariant
            i <= settings@.len(),
            all == model::texts(settings@),
            !(json::str_view(user_locale) matches Some(l) && names_chinese(l)),
            forall|k: int| 0 <= k < i ==> !names_chinese(#[trigger] all[k]),
        decreases settings@.len() - i,
    {
        assert(all[i as int] == settings@[i as int]@);
        if is_simplified_chinese_locale(&settings[i]) {
            return Language::ZhHans;
        }
        i += 1;
    }
    Language::En
}

} // verus!
