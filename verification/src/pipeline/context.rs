//! The texts that tell Alma of a message and of the chat that it came from.
use super::split;
use crate::clock;
use crate::clock::{Clock, ClockView};
use crate::json;
use crate::state::history;
use crate::state::history::{GroupMessage, MessageView};
use crate::text::facts;
use crate::text::model;
use crate::text::number;
use crate::text::ops;
use vstd::prelude::*;
use vstd::string::*;

verus! {

/// `a` and `b` with a space between, where both hold anything.
pub open spec fn spaced(a: Seq<char>, b: Seq<char>) -> Seq<char> {
    if a.len() == 0 {
        b
    } else if b.len() == 0 {
        a
    } else {
        a + " "@ + b
    }
}

/// `a` and `b` with a space between, where both hold anything.
pub fn join_spaced(a: &str, b: &str) -> (r: String)
    ensures
        r@ == spaced(a@, b@),
{
    if a.is_empty() {
        b.to_owned()
    } else if b.is_empty() {
        a.to_owned()
    } else {
        a.to_owned().concat(" ").concat(b)
    }
}

/// What is kept of a message: its text, and a mark for each of its media.
pub open spec fn observed_text(text: Seq<char>, media_lines: Seq<Seq<char>>) -> Seq<char> {
    spaced(
        model::trimmed(text),
        model::joined(model::trimmed_nonblank(media_lines), " "@),
    )
}

/// What is kept of a message: its text, and a mark for each of its media.
pub fn observed_message_text(text: &str, media_lines: &Vec<String>) -> (r: String)
    ensures
        r@ == observed_text(text@, model::texts(media_lines@)),
{
    let media = ops::join(&ops::trim_nonblank(media_lines), " ");
    join_spaced(ops::trim(text), &media)
}

/// The time of day of a message, in hours and minutes.
pub fn format_history_time(timestamp_secs: u64, clock: &Clock) -> (r: String)
    ensures
        r@ == clock::short_time_text(clock::local_moment(clock@, timestamp_secs)),
{
    clock::format_short_time(&clock.local_time(timestamp_secs))
}

/// The line of the history that tells of a message.
pub open spec fn history_line(msg: MessageView, clock: ClockView) -> Seq<char> {
    let id = match msg.message_id {
        Some(id) => " [msg:"@ + number::dec(id) + "]"@,
        None => ""@,
    };
    let sender = if msg.is_bot && msg.display_name == "Alma"@ {
        "[Alma (YOU)]"@
    } else if msg.is_bot {
        "["@ + msg.display_name + " (BOT)]"@
    } else {
        "["@ + msg.display_name + "]"@
    };
    "["@ + clock::short_time_text(clock::local_moment(clock, msg.timestamp)) + "]"@ + id + " "@
        + sender + ": "@ + split::shortened(msg.text, 300)
}

fn write_history_line(msg: &GroupMessage, clock: &Clock) -> (r: String)
    ensures
        r@ == history_line(msg@, clock@),
{
    let id = match msg.message_id {
        Some(id) => " [msg:".to_owned().concat(&number::dec_i64(id)).concat("]"),
        None => "".to_owned(),
    };
    let sender = if msg.is_bot && ops::same(&msg.display_name, "Alma") {
        "[Alma (YOU)]".to_owned()
    } else if msg.is_bot {
        "[".to_owned().concat(&msg.display_name).concat(" (BOT)]")
    } else {
        "[".to_owned().concat(&msg.display_name).concat("]")
    };
    "[".to_owned().concat(&format_history_time(msg.timestamp, clock)).concat("]").concat(
        &id,
    ).concat(" ").concat(&sender).concat(": ").concat(
        &split::truncate_with_ellipsis(&msg.text, 300),
    )
}

/// The lines of the history of a chat.
pub open spec fn history_lines(history: Seq<MessageView>, clock: ClockView) -> Seq<Seq<char>> {
    seq![
        "RECENT CHAT HISTORY:"@,
        "NOTE: Messages marked [Alma (YOU)] are YOUR OWN previous messages. When someone directs commands at [Alma (YOU)], they are talking to YOU, not your owner."@,
    ] + history.map_values(|m: MessageView| history_line(m, clock)) + seq!["---END HISTORY---"@]
}

/// The history of a chat, for Alma to read.
pub fn build_recent_chat_history_context(history: &Vec<GroupMessage>, clock: &Clock) -> (r: String)
    ensures
        r@ == model::joined(history_lines(history::message_views(history@), clock@), "\n"@),
{
    let mut lines: Vec<String> = Vec::new();
    lines.push("RECENT CHAT HISTORY:".to_owned());
    lines.push(
        "NOTE: Messages marked [Alma (YOU)] are YOUR OWN previous messages. When someone directs commands at [Alma (YOU)], they are talking to YOU, not your owner.".to_owned(),
    );
    let ghost head = model::texts(lines@);
    let ghost all = history::message_views(history@).map_values(
        |m: MessageView| history_line(m, clock@),
    );
    let mut i: usize = 0;
    assert(head + all.take(0) =~= head);
    while i < history.len()
        invariant
            i <= history@.len(),
            all == history::message_views(history@).map_values(
                |m: MessageView| history_line(m, clock@),
            ),
            model::texts(lines@) == head + all.take(i as int),
        decreases history@.len() - i,
    {
        let line = write_history_line(&history[i], clock);
        proof {
            facts::lemma_texts_push(lines@, line);
            assert(all.take(i + 1) =~= all.take(i as int).push(all[i as int]));
            assert((head + all.take(i as int)).push(line@) =~= head + all.take(i + 1));
        }
        lines.push(line);
        i += 1;
    }
    assert(all.take(i as int) =~= all);
    let last = "---END HISTORY---".to_owned();
    proof {
        facts::lemma_texts_push(lines@, last);
        assert(head =~= seq![
            "RECENT CHAT HISTORY:"@,
            "NOTE: Messages marked [Alma (YOU)] are YOUR OWN previous messages. When someone directs commands at [Alma (YOU)], they are talking to YOU, not your owner."@,
        ]);
    }
    lines.push(last);
    ops::join(&lines, "\n")
}

/// What stands before the first `@` of a word.
pub open spec fn before_at(s: Seq<char>) -> Seq<char> {
    match model::find_first(s, "@"@) {
        Some(i) => s.take(i),
        None => s,
    }
}

/// The command that a text begins with, if it begins with one: its first word, without slashes,
/// without the name of the bot that it is for, and in lower case.
pub open spec fn command_in(text: Seq<char>) -> Option<Seq<char>> {
    let words = model::words_of(text);
    if words.len() > 0 && words[0][0] == '/' {
        Some(model::ascii_lowered(before_at(model::trimmed_start_char(words[0], '/'))))
    } else {
        None
    }
}

/// Whether a text begins with a command that the bot answers to in a group.
pub open spec fn is_group_command(text: Seq<char>) -> bool {
    match command_in(text) {
        Some(cmd) => {
            ||| cmd == "start"@
            ||| cmd == "help"@
            ||| cmd == "new"@
            ||| cmd == "list"@
            ||| cmd == "switch"@
            ||| cmd == "status"@
            ||| cmd == "settings"@
        },
        None => false,
    }
}

/// Whether a text begins with a command that the bot answers to in a group.
pub fn cleaned_command_for_group(text: &str) -> (r: bool)
    ensures
        r == is_group_command(text@),
{
    let words = ops::words(text);
    proof {
        facts::lemma_words_nonempty(text@, 0);
    }
    if words.len() == 0 {
        assert(model::words_of(text@).len() == 0);
        return false;
    }
    assert(model::words_of(text@)[0] == words@[0]@);
    if words[0].as_str().get_char(0) != '/' {
        return false;
    }
    let cmd = ops::trim_start_char(&words[0], '/');
    let name = match ops::find(cmd, "@") {
        Some(i) => {
            proof {
                facts::lemma_find_from(cmd@, "@"@, 0);
            }
            cmd.substring_char(0, i)
        },
        None => cmd,
    };
    assert(name@ == before_at(cmd@));
    let name = ops::ascii_lowercase(name);
    ops::same(&name, "start") || ops::same(&name, "help") || ops::same(&name, "new") || ops::same(
        &name,
        "list",
    ) || ops::same(&name, "switch") || ops::same(&name, "status") || ops::same(&name, "settings")
}

/// A text with what goes before it.
pub open spec fn prefixed(prefix: Option<Seq<char>>, body: Seq<char>) -> Seq<char> {
    match prefix {
        Some(p) => spaced(p, body),
        None => body,
    }
}

fn prefix_body(prefix: Option<&str>, body: String) -> (r: String)
    ensures
        r@ == prefixed(json::str_view(prefix), body@),
{
    match prefix {
        Some(p) => join_spaced(p, &body),
        None => body,
    }
}

/// Who sent a message to a group, and its id.
pub open spec fn group_header(
    display_name: Seq<char>,
    username: Option<Seq<char>>,
    user_id: int,
    is_bot_sender: bool,
    message_id: int,
) -> Seq<char> {
    "[From: "@ + display_name + (match username {
        Some(u) => " (@"@ + u + ")"@,
        None => ""@,
    }) + " [id:"@ + number::dec(user_id) + "] [msg:"@ + number::dec(message_id) + "]"@ + (
    if is_bot_sender {
        " [BOT]"@
    } else {
        ""@
    }) + "] "@
}

/// A message as Alma reads it: who sent it, what it replies to, what it forwards, and its text.
pub open spec fn message_text(
    header: Seq<char>,
    text: Seq<char>,
    forward_context: Option<Seq<char>>,
    reply_context: Option<Seq<char>>,
) -> Seq<char> {
    header + prefixed(reply_context, prefixed(forward_context, model::trimmed(text)))
}

/// Writes a message as Alma reads those of its Telegram channel.
pub fn build_telegram_like_message_text(
    is_group: bool,
    _is_reply_to_bot: bool,
    display_name: &str,
    username: Option<&str>,
    user_id: i64,
    is_bot_sender: bool,
    message_id: i64,
    text: &str,
    forward_context: Option<&str>,
    reply_context: Option<&str>,
) -> (r: String)
    ensures
        r@ == message_text(
            if is_group {
                group_header(
                    display_name@,
                    json::str_view(username),
                    user_id as int,
                    is_bot_sender,
                    message_id as int,
                )
            } else {
                "[msg:"@ + number::dec(message_id as int) + "] "@
            },
            text@,
            json::str_view(forward_context),
            json::str_view(reply_context),
        ),
{
    let body = prefix_body(forward_context, ops::trim(text).to_owned());
    let body = prefix_body(reply_context, body);
    let header = if is_group {
        let username_part = match username {
            Some(u) => " (@".to_owned().concat(u).concat(")"),
            None => "".to_owned(),
        };
        let bot_suffix = if is_bot_sender {
            " [BOT]"
        } else {
            ""
        };
        "[From: ".to_owned().concat(display_name).concat(&username_part).concat(" [id:").concat(
            &number::dec_i64(user_id),
        ).concat("] [msg:").concat(&number::dec_i64(message_id)).concat("]").concat(
            bot_suffix,
        ).concat("] ")
    } else {
        "[msg:".to_owned().concat(&number::dec_i64(message_id)).concat("] ")
    };
    header.concat(&body)
}

/// What Alma is told of a group with a known id.
pub open spec fn group_context(
    username: Seq<char>,
    title: Seq<char>,
    chat_id: int,
    platform: Seq<char>,
    bridge_port: u16,
) -> Seq<char> {
    "[System: The user is chatting with you via Telegram (username: @"@
        + username
        + ") in a GROUP CHAT named \""@
        + title
        + "\" (chatId: "@
        + number::dec(chat_id)
        + "). But remember — you live on the user's "@
        + platform
        + " computer, not inside Telegram. Telegram is just the communication channel. You have full access to the operating system: you can take screenshots, run commands, read/write files, browse the web, and do anything a desktop AI agent can do.]\n\n[QQ BRIDGE: This Telegram-compatible channel is actually QQ / OneBot. For QQ group reading, `alma group list`, `alma group history "@
        + number::dec(chat_id)
        + " 100`, `alma group search <keyword>`, and `cat ~/.config/alma/groups/README.md` work because alma-onebot-bridge writes QQ logs in Alma's native group-log format. `alma group context "@
        + number::dec(chat_id)
        + "` can read local logs, but Telegram-only API details may be unavailable for QQ. For active QQ group sending, do not use `alma group send`; that command targets Telegram. Use `curl -s -X POST http://127.0.0.1:"@
        + number::dec_nat(bridge_port as nat)
        + "/qq/group/"@
        + number::dec(chat_id)
        + "/send -H 'Content-Type: application/json' -d '{\"message\":\"...\"}'`.]"@
}

/// What Alma is told of a group without a valid id.
pub open spec fn unnumbered_group_context(
    username: Seq<char>,
    title: Seq<char>,
    platform: Seq<char>,
) -> Seq<char> {
    "[System: The user is chatting with you via Telegram (username: @"@
        + username
        + ") in a GROUP CHAT named \""@
        + title
        + "\". But remember — you live on the user's "@
        + platform
        + " computer, not inside Telegram. Telegram is just the communication channel. You have full access to the operating system: you can take screenshots, run commands, read/write files, browse the web, and do anything a desktop AI agent can do.]\n\n[QQ BRIDGE: This Telegram-compatible channel is actually QQ / OneBot, but this message did not include a valid QQ group id. Do not invent chatId 0 or use group-send commands for this turn.]"@
}

/// What Alma is told of a private chat.
pub open spec fn private_context(
    username: Seq<char>,
    platform: Seq<char>,
    bridge_port: u16,
) -> Seq<char> {
    "[System: The user is chatting with you via Telegram (username: @"@
        + username
        + "). But remember — you live on the user's "@
        + platform
        + " computer, not inside Telegram. Telegram is just the communication channel. You have full access to the operating system: you can take screenshots, run commands, read/write files, browse the web, and do anything a desktop AI agent can do.]\n\n[QQ BRIDGE: This Telegram-compatible private chat is actually QQ / OneBot. For active QQ private sending, use `curl -s -X POST http://127.0.0.1:"@
        + number::dec_nat(bridge_port as nat)
        + "/qq/private/<userId>/send -H 'Content-Type: application/json' -d '{\"message\":\"...\"}'`. Do not use Telegram-specific send commands for QQ.]"@
}

/// What Alma is told of the chat that a message came from.
pub open spec fn channel_context(
    is_group: bool,
    username: Seq<char>,
    group_title: Option<Seq<char>>,
    group_id: Option<int>,
    bridge_port: u16,
    platform: Seq<char>,
) -> Seq<char> {
    let name = if model::trimmed(username).len() == 0 {
        "unknown"@
    } else {
        model::trimmed(username)
    };
    let title = match group_title {
        Some(t) => t,
        None => "Unknown"@,
    };
    if is_group {
        match group_id {
            Some(chat_id) => group_context(name, title, chat_id, platform, bridge_port),
            None => unnumbered_group_context(name, title, platform),
        }
    } else {
        private_context(name, platform, bridge_port)
    }
}

fn write_group_context(
    username: &str,
    title: &str,
    chat_id: i64,
    platform: &str,
    bridge_port: u16,
) -> (r: String)
    ensures
        r@ == group_context(username@, title@, chat_id as int, platform@, bridge_port),
{
    let id = number::dec_i64(chat_id);
    let port = number::dec_u64(bridge_port as u64);
    "[System: The user is chatting with you via Telegram (username: @".to_owned().concat(
        username,
    ).concat(
        ") in a GROUP CHAT named \"",
    ).concat(
        title,
    ).concat(
        "\" (chatId: ",
    ).concat(
        &id,
    ).concat(
        "). But remember — you live on the user's ",
    ).concat(
        platform,
    ).concat(
        " computer, not inside Telegram. Telegram is just the communication channel. You have full access to the operating system: you can take screenshots, run commands, read/write files, browse the web, and do anything a desktop AI agent can do.]\n\n[QQ BRIDGE: This Telegram-compatible channel is actually QQ / OneBot. For QQ group reading, `alma group list`, `alma group history ",
    ).concat(
        &id,
    ).concat(
        " 100`, `alma group search <keyword>`, and `cat ~/.config/alma/groups/README.md` work because alma-onebot-bridge writes QQ logs in Alma's native group-log format. `alma group context ",
    ).concat(
        &id,
    ).concat(
        "` can read local logs, but Telegram-only API details may be unavailable for QQ. For active QQ group sending, do not use `alma group send`; that command targets Telegram. Use `curl -s -X POST http://127.0.0.1:",
    ).concat(
        &port,
    ).concat(
        "/qq/group/",
    ).concat(
        &id,
    ).concat(
        "/send -H 'Content-Type: application/json' -d '{\"message\":\"...\"}'`.]",
    )
}

/// Writes what Alma is told of the chat that a message came from. `platform` is the operating
/// system that the bridge runs on.
pub fn build_telegram_like_channel_system_context(
    is_group: bool,
    username: &str,
    group_title: Option<&str>,
    group_id: Option<i64>,
    bridge_port: u16,
    platform: &str,
) -> (r: String)
    ensures
        r@ == channel_context(
            is_group,
            username@,
            json::str_view(group_title),
            json::int_view(group_id),
            bridge_port,
            platform@,
        ),
{
    let trimmed = ops::trim(username);
    let username = if trimmed.is_empty() {
        "unknown"
    } else {
        trimmed
    };
    let port = number::dec_u64(bridge_port as u64);
    if is_group {
        let title = match group_title {
            Some(t) => t,
            None => "Unknown",
        };
        match group_id {
            Some(chat_id) => write_group_context(username, title, chat_id, platform, bridge_port),
            None => "[System: The user is chatting with you via Telegram (username: @".to_owned().concat(
        username,
    ).concat(
        ") in a GROUP CHAT named \"",
    ).concat(
        title,
    ).concat(
        "\". But remember — you live on the user's ",
    ).concat(
        platform,
    ).concat(
        " computer, not inside Telegram. Telegram is just the communication channel. You have full access to the operating system: you can take screenshots, run commands, read/write files, browse the web, and do anything a desktop AI agent can do.]\n\n[QQ BRIDGE: This Telegram-compatible channel is actually QQ / OneBot, but this message did not include a valid QQ group id. Do not invent chatId 0 or use group-send commands for this turn.]",
    ),
        }
    } else {
        "[System: The user is chatting with you via Telegram (username: @".to_owned().concat(
        username,
    ).concat(
        "). But remember — you live on the user's ",
    ).concat(
        platform,
    ).concat(
        " computer, not inside Telegram. Telegram is just the communication channel. You have full access to the operating system: you can take screenshots, run commands, read/write files, browse the web, and do anything a desktop AI agent can do.]\n\n[QQ BRIDGE: This Telegram-compatible private chat is actually QQ / OneBot. For active QQ private sending, use `curl -s -X POST http://127.0.0.1:",
    ).concat(
        &port,
    ).concat(
        "/qq/private/<userId>/send -H 'Content-Type: application/json' -d '{\"message\":\"...\"}'`. Do not use Telegram-specific send commands for QQ.]",
    )
    }
}

/// What Alma is told beside a message: of the chat, of the sender, of how many people it knows,
/// and of what was said in the group before.
pub open spec fn ephemeral_context(
    channel: Seq<char>,
    profile_block: Option<Seq<char>>,
    profile_count: nat,
    history: Seq<MessageView>,
    clock: ClockView,
) -> Seq<char> {
    channel + (match profile_block {
        Some(block) => block,
        None => ""@,
    }) + (if profile_count > 0 {
        "\n\nPEOPLE PROFILES — You know "@ + number::dec_nat(profile_count)
            + " people. Use `alma people list` or `alma people show <name>` to look up profiles on demand."@
    } else {
        ""@
    }) + (if history.len() > 0 {
        "\n\n"@ + model::joined(history_lines(history, clock), "\n"@)
    } else {
        ""@
    })
}

/// The chat that a message came from.
pub struct EphemeralContextInput<'a> {
    pub is_group: bool,
    pub sender_nickname: &'a str,
    pub group_title: Option<&'a str>,
    pub group_id: Option<i64>,
    pub bridge_port: u16,
    pub platform: &'a str,
}

/// Writes what Alma is told beside a message. `history` is what was said in the group before;
/// in a private chat it is not told.
pub fn build_ephemeral_context(
    input: EphemeralContextInput<'_>,
    profile_block: Option<&str>,
    profile_count: usize,
    history: &Vec<GroupMessage>,
    clock: &Clock,
) -> (r: String)
    ensures
        r@ == ephemeral_context(
            channel_context(
                input.is_group,
                input.sender_nickname@,
                json::str_view(input.group_title),
                json::int_view(input.group_id),
                input.bridge_port,
                input.platform@,
            ),
            json::str_view(profile_block),
            profile_count as nat,
            if input.is_group {
                history::message_views(history@)
            } else {
                seq![]
            },
            clock@,
        ),
{
    let channel = build_telegram_like_channel_system_context(
        input.is_group,
        input.sender_nickname,
        input.group_title,
        input.group_id,
        input.bridge_port,
        input.platform,
    );
    let block = match profile_block {
        Some(b) => b,
        None => "",
    };
    let people = if profile_count > 0 {
        "\n\nPEOPLE PROFILES — You know ".to_owned().concat(
            &number::dec_u64(profile_count as u64),
        ).concat(
            " people. Use `alma people list` or `alma people show <name>` to look up profiles on demand.",
        )
    } else {
        "".to_owned()
    };
    let before = if input.is_group && history.len() > 0 {
        "\n\n".to_owned().concat(&build_recent_chat_history_context(history, clock))
    } else {
        "".to_owned()
    };
    channel.concat(block).concat(&people).concat(&before)
}

/// The title of a new thread.
pub open spec fn title_of_thread(is_group: bool, group_id: int, sender_nickname: Seq<char>) -> Seq<
    char,
> {
    if is_group {
        "QQ群 "@ + number::dec(group_id)
    } else {
        "QQ私聊 "@ + sender_nickname
    }
}

/// The title of a new thread.
pub fn thread_title(is_group: bool, group_id: i64, sender_nickname: &str) -> (r: String)
    ensures
        r@ == title_of_thread(is_group, group_id as int, sender_nickname@),
{
    if is_group {
        "QQ群 ".to_owned().concat(&number::dec_i64(group_id))
    } else {
        "QQ私聊 ".to_owned().concat(sender_nickname)
    }
}

} // verus!
