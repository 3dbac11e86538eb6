//! What holds of the tray app.
use super::app_state::{AppSnapshot, BridgeStatus};
use super::config_model;
use super::config_model::{FileView, ModelView};
use super::i18n;
use super::i18n::Language;
use super::resource;
use super::ui::TrayCommand;
use crate::text::facts;
use crate::text::model;
use crate::text::number;
use vstd::prelude::*;

verus! {

/// What a file sets is what counts, each field for itself; what it does not set is as usual.
pub proof fn law_file_is_loaded(file: FileView, home: Seq<char>)
    ensures
        ({
            let m = config_model::loaded(file, Some(home));
            &&& file.port is Some ==> m.bridge_port == number::dec(file.port->0 as int)
            &&& file.port is None ==> m.bridge_port == "8090"@
            &&& file.api is Some ==> m.alma_api == file.api->0
            &&& file.api is None ==> m.alma_api == "http://localhost:23001"@
            &&& file.model is Some ==> m.alma_model == file.model->0
            &&& file.model is None ==> m.alma_model.len() == 0
            &&& file.timeout is Some ==> m.alma_timeout == number::dec(file.timeout->0 as int)
            &&& file.timeout is None ==> m.alma_timeout == "120"@
            &&& file.max_retries is Some ==> m.alma_max_retries == number::dec(
                file.max_retries->0 as int,
            )
            &&& file.max_retries is None ==> m.alma_max_retries == "2"@
            &&& file.retry_delay_ms is Some ==> m.alma_retry_delay_ms == number::dec(
                file.retry_delay_ms->0 as int,
            )
            &&& file.retry_delay_ms is None ==> m.alma_retry_delay_ms == "3000"@
            &&& file.api_timeout is Some ==> m.onebot_api_timeout == number::dec(
                file.api_timeout->0 as int,
            )
            &&& file.api_timeout is None ==> m.onebot_api_timeout == "30"@
            &&& file.access_token is Some ==> m.access_token == file.access_token->0
            &&& file.group_history_size is Some ==> m.group_history_size == number::dec(
                file.group_history_size->0 as int,
            )
            &&& file.group_history_size is None ==> m.group_history_size == "30"@
            &&& file.thinking_message is Some ==> m.thinking_message == file.thinking_message->0
            &&& m.show_thinking == (file.show_thinking == Some(true))
            &&& m.show_tool_calls == (file.show_tool_calls == Some(true))
            &&& m.segmented_replies == (file.segmented_replies == Some(true))
            &&& file.people_dir is Some ==> m.people_dir == file.people_dir->0
            &&& file.database_path is Some ==> m.db_path == file.database_path->0
            &&& file.database_path is None ==> m.db_path == "bridge-state.db"@
        }),
{
}

/// What is set is saved, each field for itself; a blank text is left out.
pub proof fn law_settings_are_saved(m: ModelView, port: u16, timeout: u64)
    ensures
        ({
            let file = config_model::saved(m);
            &&& m.bridge_port == number::dec(port as int) ==> file.port == Some(port as nat)
            &&& m.alma_timeout == number::dec(timeout as int) ==> file.timeout == Some(
                timeout as nat,
            )
            &&& m.alma_retry_delay_ms == number::dec(timeout as int) ==> file.retry_delay_ms == Some(
                timeout as nat,
            )
            &&& m.onebot_api_timeout == number::dec(timeout as int) ==> file.api_timeout == Some(
                timeout as nat,
            )
            &&& file.api == Some(model::trimmed(m.alma_api))
            &&& model::trimmed(m.alma_model).len() > 0 ==> file.model == Some(
                model::trimmed(m.alma_model),
            )
            &&& model::trimmed(m.alma_model).len() == 0 ==> file.model is None
            &&& model::trimmed(m.access_token).len() > 0 ==> file.access_token == Some(
                model::trimmed(m.access_token),
            )
            &&& model::trimmed(m.access_token).len() == 0 ==> file.access_token is None
            &&& model::trimmed(m.thinking_message).len() > 0 ==> file.thinking_message == Some(
                model::trimmed(m.thinking_message),
            )
            &&& model::trimmed(m.thinking_message).len() == 0 ==> file.thinking_message is None
            &&& model::trimmed(m.people_dir).len() > 0 ==> file.people_dir == Some(
                model::trimmed(m.people_dir),
            )
            &&& model::trimmed(m.db_path).len() > 0 ==> file.database_path == Some(
                model::trimmed(m.db_path),
            )
            &&& file.show_thinking == Some(m.show_thinking)
            &&& file.show_tool_calls == Some(m.show_tool_calls)
            &&& file.segmented_replies == Some(m.segmented_replies)
        }),
{
    number::lemma_parse_of_dec_unsigned(port as nat, u16::MAX as nat);
    number::lemma_parse_of_dec_unsigned(timeout as nat, u64::MAX as nat);
}

/// Which settings can be saved: those with a port, with an address of the web, and with numbers in
/// their ranges.
pub proof fn law_valid_settings(
    m: ModelView,
    port: u16,
    host: Seq<char>,
    timeout: u64,
    retries: u64,
    delay: u64,
    call: u64,
    size: usize,
)
    requires
        m.bridge_port == number::dec(port as int),
        m.alma_api == "http://"@ + host || m.alma_api == "https://"@ + host,
        m.alma_timeout == number::dec(timeout as int),
        m.alma_max_retries == number::dec(retries as int),
        m.alma_retry_delay_ms == number::dec(delay as int),
        m.onebot_api_timeout == number::dec(call as int),
        m.group_history_size == number::dec(size as int),
    ensures
        config_model::valid(m) == (port > 0 && 1 <= timeout <= 3600 && retries <= 10 && delay
            <= 600_000 && 1 <= call <= 600),
{
    number::lemma_parse_of_dec_unsigned(port as nat, u16::MAX as nat);
    number::lemma_parse_of_dec_unsigned(timeout as nat, u64::MAX as nat);
    number::lemma_parse_of_dec_unsigned(retries as nat, u64::MAX as nat);
    number::lemma_parse_of_dec_unsigned(delay as nat, u64::MAX as nat);
    number::lemma_parse_of_dec_unsigned(call as nat, u64::MAX as nat);
    number::lemma_parse_of_dec_unsigned(size as nat, usize::MAX as nat);
    let a = "http://"@ + host;
    let b = "https://"@ + host;
    assert(a.subrange(0, "http://"@.len() as int) =~= "http://"@);
    assert(b.subrange(0, "https://"@.len() as int) =~= "https://"@);
}

/// The line that tells of the bridge names its port while it starts and runs, tells whether the port
/// is open while it runs, and why it failed if it did.
pub proof fn law_status_is_told(s: AppSnapshot, language: Language, reason: String)
    ensures
        ({
            let line = s.line(language);
            let port = number::dec(s.port as int);
            &&& s.status is Starting ==> model::finishes_with(line, port)
            &&& s.status is Running ==> model::has_part(line, port)
            &&& s.status is Running && language is En && s.healthy ==> model::finishes_with(
                line,
                "port check passed"@,
            )
            &&& s.status is Running && language is En && !s.healthy ==> model::finishes_with(
                line,
                "port check failed"@,
            )
            &&& s.status == BridgeStatus::Failed(reason) ==> model::finishes_with(line, reason@)
            &&& s.status is Stopped && language is En ==> line == "Stopped"@
        }),
{
    let line = s.line(language);
    let port = number::dec(s.port as int);
    reveal_strlit(" - port check passed");
    reveal_strlit(" - port check failed");
    reveal_strlit("port check passed");
    reveal_strlit("port check failed");
    if s.status is Starting {
        assert(line.subrange(line.len() - port.len(), line.len() as int) =~= port);
    }
    if s.status is Running {
        let words = i18n::running_text(s.port, language);
        let head = match language {
            Language::ZhHans => "运行中：端口 "@,
            Language::En => "Running on port "@,
        };
        let end = match (language, s.healthy) {
            (Language::ZhHans, true) => " - 端口检查通过"@,
            (Language::ZhHans, false) => " - 端口检查失败"@,
            (Language::En, true) => " - port check passed"@,
            (Language::En, false) => " - port check failed"@,
        };
        assert(line =~= head + port + end);
        facts::lemma_part_between(head, port, end);
        if language is En {
            let told = if s.healthy {
                "port check passed"@
            } else {
                "port check failed"@
            };
            assert(end.subrange(3, end.len() as int) =~= told);
            assert(line.subrange(line.len() - told.len(), line.len() as int) =~= told);
        }
    }
    if s.status == BridgeStatus::Failed(reason) {
        assert(line.subrange(line.len() - reason@.len(), line.len() as int) =~= reason@);
    }
}

/// Each command of the menu has a number of its own.
pub proof fn law_commands_have_their_numbers(a: TrayCommand, b: TrayCommand)
    ensures
        a.number() == b.number() ==> a == b,
        a.label() == b.label() ==> a == b,
{
}

/// A version of three numbers is written as four, the last of which is zero.
pub proof fn law_version_is_four_numbers(a: u16, b: u16, c: u16)
    ensures
        resource::tuple_text(
            number::dec(a as int) + "."@ + number::dec(b as int) + "."@ + number::dec(c as int),
        ) == number::dec(a as int) + ","@ + number::dec(b as int) + ","@ + number::dec(c as int)
            + ",0"@,
{
    reveal_strlit(".");
    reveal_strlit(",");
    reveal_strlit("0");
    reveal_strlit(",0");
    let x = number::dec(a as int);
    let y = number::dec(b as int);
    let z = number::dec(c as int);
    let s = x + "."@ + y + "."@ + z;
    lemma_digits(a as nat);
    lemma_digits(b as nat);
    lemma_digits(c as nat);
    let none = Seq::<char>::empty();
    let p = x + "."@;
    let q = x + "."@ + y + "."@;
    lemma_piece(none, x, y + "."@ + z);
    assert(none + (x + "."@ + (y + "."@ + z)) =~= s);
    lemma_piece(p, y, z);
    assert(p + (y + "."@ + z) =~= s);
    lemma_last_piece(q, z);
    assert(q + z =~= s);
    let parts = model::split_on(s, "."@);
    assert(parts =~= seq![x, y, z]);
    lemma_part_number(a);
    lemma_part_number(b);
    lemma_part_number(c);
    reveal_with_fuel(number::dec_nat, 2);
    assert(number::dec_nat(0) =~= "0"@);
    assert(resource::tuple_text(s) =~= x + ","@ + y + ","@ + z + ",0"@);
}

proof fn lemma_digits(n: nat)
    ensures
        number::dec(n as int).len() > 0,
        forall|i: int|
            0 <= i < number::dec(n as int).len() ==> number::is_digit(
                #[trigger] number::dec(n as int)[i],
            ),
{
    number::lemma_dec_nat_digits(n);
    assert(number::dec(n as int) == number::dec_nat(n));
    assert forall|i: int| 0 <= i < number::dec(n as int).len() implies number::is_digit(
        #[trigger] number::dec(n as int)[i],
    ) by {
        assert(number::is_digit(number::dec_nat(n)[i]));
    }
}

proof fn lemma_piece(pre: Seq<char>, part: Seq<char>, rest: Seq<char>)
    requires
        forall|i: int| 0 <= i < part.len() ==> number::is_digit(#[trigger] part[i]),
    ensures
        model::split_from(pre + (part + "."@ + rest), "."@, pre.len() as int) == seq![part]
            + model::split_from(
            pre + (part + "."@ + rest),
            "."@,
            (pre.len() + part.len() + 1) as int,
        ),
{
    reveal_strlit(".");
    let s = pre + (part + "."@ + rest);
    let from = pre.len() as int;
    let at = (pre.len() + part.len()) as int;
    assert(s[at] == '.');
    assert(s.subrange(at, at + 1) =~= "."@);
    assert forall|j: int| from <= j < at implies !model::occurs_at(s, "."@, j) by {
        if model::occurs_at(s, "."@, j) {
            assert(s.subrange(j, j + 1)[0] == s[j]);
            assert(s[j] == part[j - from]);
        }
    }
    facts::lemma_find_is(s, "."@, from, at);
    assert(s.subrange(from, at) =~= part);
}

proof fn lemma_last_piece(pre: Seq<char>, part: Seq<char>)
    requires
        forall|i: int| 0 <= i < part.len() ==> number::is_digit(#[trigger] part[i]),
    ensures
        model::split_from(pre + part, "."@, pre.len() as int) == seq![part],
{
    reveal_strlit(".");
    let s = pre + part;
    let from = pre.len() as int;
    assert forall|j: int| from <= j implies !model::occurs_at(s, "."@, j) by {
        if model::occurs_at(s, "."@, j) {
            assert(s.subrange(j, j + 1)[0] == s[j]);
            assert(s[j] == part[j - from]);
        }
    }
    facts::lemma_find_none(s, "."@, from);
    assert(s.skip(from) =~= part);
}

proof fn lemma_part_number(n: u16)
    ensures
        resource::part_number(number::dec(n as int)) == n,
{
    lemma_digits(n as nat);
    lemma_leading(number::dec(n as int));
    number::lemma_parse_of_dec_unsigned(n as nat, u16::MAX as nat);
}

proof fn lemma_leading(s: Seq<char>)
    requires
        forall|i: int| 0 <= i < s.len() ==> number::is_digit(#[trigger] s[i]),
    ensures
        resource::leading_digits(s) == s,
    decreases s.len(),
{
    if s.len() > 0 {
        assert forall|i: int| 0 <= i < s.skip(1).len() implies number::is_digit(
            #[trigger] s.skip(1)[i],
        ) by {
            assert(number::is_digit(s[i + 1]));
        }
        lemma_leading(s.skip(1));
        assert(number::is_digit(s[0]));
        assert(seq![s[0]] + s.skip(1) =~= s);
    } else {
        assert(s =~= seq![]);
    }
}

/// The two languages word the commands of the menu differently.
pub proof fn law_languages_differ(command: TrayCommand)
    ensures
        i18n::worded(command.label(), Language::En) != i18n::worded(
            command.label(),
            Language::ZhHans,
        ),
{
    reveal_strlit("Settings");
    reveal_strlit("设置");
    reveal_strlit("Start Bridge");
    reveal_strlit("启动桥接服务");
    reveal_strlit("Stop Bridge");
    reveal_strlit("停止桥接服务");
    reveal_strlit("Restart Bridge");
    reveal_strlit("重启桥接服务");
    reveal_strlit("Open Config Directory");
    reveal_strlit("打开配置目录");
    reveal_strlit("Open Bridge Log");
    reveal_strlit("打开桥接日志");
    reveal_strlit("About");
    reveal_strlit("关于");
    reveal_strlit("Quit");
    reveal_strlit("退出");
    let a = i18n::worded(command.label(), Language::En);
    let b = i18n::worded(command.label(), Language::ZhHans);
    assert(a.len() != b.len());
}

/// The app speaks Chinese if the locale of the user or any setting names it, and else English.
pub proof fn law_language_is_detected(
    locale: Option<Seq<char>>,
    settings: Seq<Seq<char>>,
    i: int,
)
    ensures
        locale matches Some(l) && i18n::names_chinese(l) ==> i18n::language_of(locale, settings)
            is ZhHans,
        0 <= i < settings.len() && i18n::names_chinese(settings[i]) ==> i18n::language_of(
            locale,
            settings,
        ) is ZhHans,
        locale is None && settings.len() == 0 ==> i18n::language_of(locale, settings) is En,
{
}

/// Simplified Chinese is named by its tags, in whatever case and with either separator; no tag of
/// another language names it.
pub proof fn law_chinese_is_named(tag: Seq<char>)
    requires
        !tag.contains('_'),
    ensures
        model::ascii_lowered(tag) == "zh"@ ==> i18n::names_chinese(tag),
        model::begins_with(model::ascii_lowered(tag), "zh-cn"@) ==> i18n::names_chinese(tag),
        model::begins_with(model::ascii_lowered(tag), "zh-hans"@) ==> i18n::names_chinese(tag),
        model::begins_with(model::ascii_lowered(tag), "zh-sg"@) ==> i18n::names_chinese(tag),
        !model::begins_with(model::ascii_lowered(tag), "zh"@) ==> !i18n::names_chinese(tag),
        model::begins_with(model::ascii_lowered(tag), "zh-tw"@) ==> !i18n::names_chinese(tag),
{
    reveal_strlit("_");
    reveal_strlit("zh");
    reveal_strlit("zh-cn");
    reveal_strlit("zh-hans");
    reveal_strlit("zh-sg");
    reveal_strlit("zh-tw");
    if model::has_part(tag, "_"@) {
        let i = choose|i: int| model::occurs_at(tag, "_"@, i);
        assert(tag.subrange(i, i + 1)[0] == tag[i]);
        assert(tag.contains(tag[i]));
    }
    facts::lemma_replaced_absent(tag, "_"@, "-"@);
    let name = model::ascii_lowered(tag);
    if !model::begins_with(name, "zh"@) {
        if model::begins_with(name, "zh-cn"@) {
            assert(name.subrange(0, 2) =~= name.subrange(0, 5).subrange(0, 2));
            assert("zh-cn"@.subrange(0, 2) =~= "zh"@);
        }
        if model::begins_with(name, "zh-hans"@) {
            assert(name.subrange(0, 2) =~= name.subrange(0, 7).subrange(0, 2));
            assert("zh-hans"@.subrange(0, 2) =~= "zh"@);
        }
        if model::begins_with(name, "zh-sg"@) {
            assert(name.subrange(0, 2) =~= name.subrange(0, 5).subrange(0, 2));
            assert("zh-sg"@.subrange(0, 2) =~= "zh"@);
        }
        if name == "zh"@ {
            assert(name.subrange(0, 2) =~= "zh"@);
        }
    }
    if model::begins_with(name, "zh-tw"@) {
        assert(name.subrange(0, 5)[3] == name[3]);
        assert("zh-tw"@[3] == 't');
        if model::begins_with(name, "zh-cn"@) {
            assert("zh-cn"@[3] == 'c');
        }
        if model::begins_with(name, "zh-hans"@) {
            assert(name.subrange(0, 7)[3] == name[3]);
            assert("zh-hans"@[3] == 'h');
        }
        if model::begins_with(name, "zh-sg"@) {
            assert("zh-sg"@[3] == 's');
        }
        assert(name.len() >= 5);
        assert("zh"@.len() == 2);
    }
}

} // verus!
