//! What holds of what Alma is told beside a message.
use super::context;
use super::split_laws;
use crate::clock;
use crate::clock::ClockView;
use crate::state::history::MessageView;
use crate::text::facts;
use crate::text::model;
use crate::text::number;
use vstd::prelude::*;

verus! {

/// What is kept of a message is its text, and the marks of its media behind it.
pub proof fn law_observed_text(text: Seq<char>, lines: Seq<Seq<char>>, i: int)
    ensures
        ({
            let kept = context::observed_text(text, lines);
            let t = model::trimmed(text);
            &&& lines.len() == 0 ==> kept == t
            &&& lines.len() == 1 && t.len() > 0 && model::trimmed(lines[0]).len() > 0 ==> kept == t
                + " "@ + model::trimmed(lines[0])
            &&& lines.len() == 1 && t.len() == 0 ==> kept == model::trimmed(lines[0])
            &&& t.len() > 0 ==> model::begins_with(kept, t)
            &&& 0 <= i < lines.len() && model::trimmed(lines[i]).len() > 0 ==> model::has_part(
                kept,
                model::trimmed(lines[i]),
            )
        }),
{
    let kept = context::observed_text(text, lines);
    let t = model::trimmed(text);
    let marks = model::trimmed_nonblank(lines);
    let told = model::joined(marks, " "@);
    if lines.len() == 1 {
        reveal_with_fuel(model::trimmed_nonblank, 2);
        assert(lines.drop_last() =~= seq![]);
        if model::trimmed(lines[0]).len() > 0 {
            assert(marks =~= seq![model::trimmed(lines[0])]);
        } else {
            assert(marks =~= seq![]);
            assert(kept =~= t);
            assert(model::trimmed(lines[0]) =~= seq![]);
        }
    }
    if t.len() > 0 {
        assert(kept.take(t.len() as int) =~= t);
    }
    if 0 <= i < lines.len() && model::trimmed(lines[i]).len() > 0 {
        let mark = model::trimmed(lines[i]);
        let j = lemma_mark_is_kept(lines, i);
        facts::lemma_joined_holds(marks, " "@, j);
        facts::lemma_part_of_either(t + " "@, told, mark);
        assert(told.len() > 0) by {
            let at = choose|at: int| model::occurs_at(told, mark, at);
        }
    }
}

proof fn lemma_mark_is_kept(lines: Seq<Seq<char>>, i: int) -> (j: int)
    requires
        0 <= i < lines.len(),
        model::trimmed(lines[i]).len() > 0,
    ensures
        0 <= j < model::trimmed_nonblank(lines).len(),
        model::trimmed_nonblank(lines)[j] == model::trimmed(lines[i]),
    decreases lines.len(),
{
    if i == lines.len() - 1 {
        model::trimmed_nonblank(lines).len() - 1
    } else {
        lemma_mark_is_kept(lines.drop_last(), i)
    }
}

/// A line of the history tells the time, the id of the message if it has one, who sent it and the
/// text, if that is not too long. What Alma sent is marked as its own, and what another bot sent as
/// a bot's.
pub proof fn law_history_line(msg: MessageView, clock: ClockView)
    requires
        model::byte_len(msg.text) <= 300,
    ensures
        ({
            let time = clock::short_time_text(clock::local_moment(clock, msg.timestamp));
            let line = context::history_line(msg, clock);
            let head = match msg.message_id {
                Some(id) => "["@ + time + "] [msg:"@ + number::dec(id) + "] "@,
                None => "["@ + time + "] "@,
            };
            &&& !msg.is_bot ==> line == head + "["@ + msg.display_name + "]: "@ + msg.text
            &&& msg.is_bot && msg.display_name != "Alma"@ ==> line == head + "["@ + msg.display_name
                + " (BOT)]: "@ + msg.text
            &&& msg.is_bot && msg.display_name == "Alma"@ ==> line == head + "[Alma (YOU)]: "@
                + msg.text
        }),
{
    reveal_strlit("");
    reveal_strlit(" ");
    reveal_strlit("]");
    reveal_strlit("] ");
    reveal_strlit(": ");
    reveal_strlit("]: ");
    reveal_strlit(" [msg:");
    reveal_strlit("] [msg:");
    reveal_strlit(" (BOT)]");
    reveal_strlit(" (BOT)]: ");
    reveal_strlit("[Alma (YOU)]");
    reveal_strlit("[Alma (YOU)]: ");
    let time = clock::short_time_text(clock::local_moment(clock, msg.timestamp));
    let line = context::history_line(msg, clock);
    let head = match msg.message_id {
        Some(id) => "["@ + time + "] [msg:"@ + number::dec(id) + "] "@,
        None => "["@ + time + "] "@,
    };
    if !msg.is_bot {
        assert(line =~= head + "["@ + msg.display_name + "]: "@ + msg.text);
    } else if msg.display_name != "Alma"@ {
        assert(line =~= head + "["@ + msg.display_name + " (BOT)]: "@ + msg.text);
    } else {
        assert(line =~= head + "[Alma (YOU)]: "@ + msg.text);
    }
}

/// The history is told message by message, the oldest first, between a heading and an end.
pub proof fn law_history_is_told_in_order(history: Seq<MessageView>, clock: ClockView, i: int)
    ensures
        ({
            let lines = context::history_lines(history, clock);
            &&& lines.len() == history.len() + 3
            &&& lines[0] == "RECENT CHAT HISTORY:"@
            &&& lines.last() == "---END HISTORY---"@
            &&& 0 <= i < history.len() ==> lines[i + 2] == context::history_line(history[i], clock)
        }),
{
}

/// What Alma is told begins with the chat; then come the profile of the sender, how many people it
/// knows, and what was said before, each if there is any.
pub proof fn law_everything_known_is_told(
    channel: Seq<char>,
    block: Option<Seq<char>>,
    count: nat,
    history: Seq<MessageView>,
    clock: ClockView,
    i: int,
)
    ensures
        ({
            let told = context::ephemeral_context(channel, block, count, history, clock);
            let profile = match block {
                Some(b) => b,
                None => ""@,
            };
            &&& model::begins_with(told, channel + profile)
            &&& count > 0 ==> model::has_part(
                told,
                "You know "@ + number::dec(count as int) + " people."@,
            )
            &&& 0 <= i < history.len() ==> model::has_part(
                told,
                context::history_line(history[i], clock),
            )
            &&& count == 0 && history.len() == 0 ==> told == channel + profile
        }),
{
    reveal_strlit("");
    let told = context::ephemeral_context(channel, block, count, history, clock);
    let profile = match block {
        Some(b) => b,
        None => ""@,
    };
    let known = if count > 0 {
        "\n\nPEOPLE PROFILES — You know "@ + number::dec_nat(count)
            + " people. Use `alma people list` or `alma people show <name>` to look up profiles on demand."@
    } else {
        ""@
    };
    let lines = context::history_lines(history, clock);
    let said = if history.len() > 0 {
        "\n\n"@ + model::joined(lines, "\n"@)
    } else {
        ""@
    };
    assert(told == channel + profile + known + said);
    assert(told.take((channel + profile).len() as int) =~= channel + profile);
    if count > 0 {
        lemma_count_is_told(count);
        facts::lemma_part_between(channel + profile, known, said);
        facts::lemma_part_of_part(
            told,
            known,
            "You know "@ + number::dec(count as int) + " people."@,
        );
    }
    if 0 <= i < history.len() {
        let line = context::history_line(history[i], clock);
        law_history_is_told_in_order(history, clock, i);
        facts::lemma_joined_holds(lines, "\n"@, i + 2);
        facts::lemma_part_of_either("\n\n"@, model::joined(lines, "\n"@), line);
        facts::lemma_part_of_either(channel + profile + known, said, line);
    }
    if count == 0 && history.len() == 0 {
        assert(told =~= channel + profile);
    }
}

proof fn lemma_count_is_told(count: nat)
    ensures
        model::has_part(
            "\n\nPEOPLE PROFILES — You know "@ + number::dec_nat(count)
                + " people. Use `alma people list` or `alma people show <name>` to look up profiles on demand."@,
            "You know "@ + number::dec(count as int) + " people."@,
        ),
{
    reveal_strlit("\n\nPEOPLE PROFILES — You know ");
    reveal_strlit("You know ");
    reveal_strlit(
        " people. Use `alma people list` or `alma people show <name>` to look up profiles on demand.",
    );
    reveal_strlit(" people.");
    let a = "\n\nPEOPLE PROFILES — You know "@;
    let b = " people. Use `alma people list` or `alma people show <name>` to look up profiles on demand."@;
    let n = number::dec_nat(count);
    let k = a.len() - "You know "@.len();
    let part = "You know "@ + n + " people."@;
    assert(a.skip(k) =~= "You know "@);
    assert(b.take(8) =~= " people."@);
    assert(a + n + b =~= a.take(k) + part + b.skip(8));
    facts::lemma_part_between(a.take(k), part, b.skip(8));
}

/// What Alma is told of a group: what the group is called, its number, who writes, on what kind of
/// computer it lives, and where it can send to the group.
pub proof fn law_group_is_told(
    username: Seq<char>,
    title: Seq<char>,
    chat_id: int,
    port: u16,
    platform: Seq<char>,
)
    requires
        model::trimmed(username).len() > 0,
    ensures
        ({
            let told = context::channel_context(
                true,
                username,
                Some(title),
                Some(chat_id),
                port,
                platform,
            );
            &&& model::has_part(told, "(username: @"@ + model::trimmed(username) + ")"@)
            &&& model::has_part(told, "in a GROUP CHAT named \""@ + title + "\""@)
            &&& model::has_part(told, "(chatId: "@ + number::dec(chat_id) + ")"@)
            &&& model::has_part(told, "the user's "@ + platform + " computer"@)
            &&& model::has_part(
                told,
                "http://127.0.0.1:"@ + number::dec(port as int) + "/qq/group/"@ + number::dec(
                    chat_id,
                ) + "/send"@,
            )
        }),
{
    let name = model::trimmed(username);
    let id = number::dec(chat_id);
    let port_text = number::dec_nat(port as nat);
    lemma_group_words();
    let a = "[System: The user is chatting with you via Telegram (username: @"@ + name;
    let b = a + ") in a GROUP CHAT named \""@ + title;
    let c = b + "\" (chatId: "@ + id;
    let d = c + "). But remember — you live on the user's "@ + platform;
    let e = d + " computer, not inside Telegram. Telegram is just the communication channel. You have full access to the operating system: you can take screenshots, run commands, read/write files, browse the web, and do anything a desktop AI agent can do.]\n\n[QQ BRIDGE: This Telegram-compatible channel is actually QQ / OneBot. For QQ group reading, `alma group list`, `alma group history "@ + id;
    let f = e + " 100`, `alma group search <keyword>`, and `cat ~/.config/alma/groups/README.md` work because alma-onebot-bridge writes QQ logs in Alma's native group-log format. `alma group context "@ + id;
    let g = f + "` can read local logs, but Telegram-only API details may be unavailable for QQ. For active QQ group sending, do not use `alma group send`; that command targets Telegram. Use `curl -s -X POST http://127.0.0.1:"@ + port_text;
    let h = g + "/qq/group/"@ + id;
    let last = "/send -H 'Content-Type: application/json' -d '{\"message\":\"...\"}'`.]"@;
    let who = "(username: @"@ + name + ")"@;
    let group = "in a GROUP CHAT named \""@ + title + "\""@;
    let number = "(chatId: "@ + id + ")"@;
    let home = "the user's "@ + platform + " computer"@;
    let url = "http://127.0.0.1:"@ + port_text + "/qq/group/"@ + id + "/send"@;
    let p1 = ") in a GROUP CHAT named \""@;
    let p2 = "\" (chatId: "@;
    let p3 = "). But remember — you live on the user's "@;
    let p4 = " computer, not inside Telegram. Telegram is just the communication channel. You have full access to the operating system: you can take screenshots, run commands, read/write files, browse the web, and do anything a desktop AI agent can do.]\n\n[QQ BRIDGE: This Telegram-compatible channel is actually QQ / OneBot. For QQ group reading, `alma group list`, `alma group history "@;
    let p5 = " 100`, `alma group search <keyword>`, and `cat ~/.config/alma/groups/README.md` work because alma-onebot-bridge writes QQ logs in Alma's native group-log format. `alma group context "@;
    let p6 = "` can read local logs, but Telegram-only API details may be unavailable for QQ. For active QQ group sending, do not use `alma group send`; that command targets Telegram. Use `curl -s -X POST http://127.0.0.1:"@;
    let p7 = "/qq/group/"@;
    let p8 = "/send -H 'Content-Type: application/json' -d '{\"message\":\"...\"}'`.]"@;
    lemma_spans(Seq::empty(), "[System: The user is chatting with you via Telegram (username: @"@, name, p1, "(username: @"@, ")"@);
    assert(Seq::<char>::empty() + "[System: The user is chatting with you via Telegram (username: @"@ =~= "[System: The user is chatting with you via Telegram (username: @"@);
    facts::lemma_part_of_either(a + p1, title, who);
    facts::lemma_part_of_either(b, p2, who);
    facts::lemma_part_of_either(b + p2, id, who);
    facts::lemma_part_of_either(c, p3, who);
    facts::lemma_part_of_either(c + p3, platform, who);
    facts::lemma_part_of_either(d, p4, who);
    facts::lemma_part_of_either(d + p4, id, who);
    facts::lemma_part_of_either(e, p5, who);
    facts::lemma_part_of_either(e + p5, id, who);
    facts::lemma_part_of_either(f, p6, who);
    facts::lemma_part_of_either(f + p6, port_text, who);
    facts::lemma_part_of_either(g, p7, who);
    facts::lemma_part_of_either(g + p7, id, who);
    facts::lemma_part_of_either(h, p8, who);
    lemma_spans(a, p1, title, p2, "in a GROUP CHAT named \""@, "\""@);
    facts::lemma_part_of_either(b + p2, id, group);
    facts::lemma_part_of_either(c, p3, group);
    facts::lemma_part_of_either(c + p3, platform, group);
    facts::lemma_part_of_either(d, p4, group);
    facts::lemma_part_of_either(d + p4, id, group);
    facts::lemma_part_of_either(e, p5, group);
    facts::lemma_part_of_either(e + p5, id, group);
    facts::lemma_part_of_either(f, p6, group);
    facts::lemma_part_of_either(f + p6, port_text, group);
    facts::lemma_part_of_either(g, p7, group);
    facts::lemma_part_of_either(g + p7, id, group);
    facts::lemma_part_of_either(h, p8, group);
    lemma_spans(b, p2, id, p3, "(chatId: "@, ")"@);
    facts::lemma_part_of_either(c + p3, platform, number);
    facts::lemma_part_of_either(d, p4, number);
    facts::lemma_part_of_either(d + p4, id, number);
    facts::lemma_part_of_either(e, p5, number);
    facts::lemma_part_of_either(e + p5, id, number);
    facts::lemma_part_of_either(f, p6, number);
    facts::lemma_part_of_either(f + p6, port_text, number);
    facts::lemma_part_of_either(g, p7, number);
    facts::lemma_part_of_either(g + p7, id, number);
    facts::lemma_part_of_either(h, p8, number);
    lemma_spans(c, p3, platform, p4, "the user's "@, " computer"@);
    facts::lemma_part_of_either(d + p4, id, home);
    facts::lemma_part_of_either(e, p5, home);
    facts::lemma_part_of_either(e + p5, id, home);
    facts::lemma_part_of_either(f, p6, home);
    facts::lemma_part_of_either(f + p6, port_text, home);
    facts::lemma_part_of_either(g, p7, home);
    facts::lemma_part_of_either(g + p7, id, home);
    facts::lemma_part_of_either(h, p8, home);
    lemma_spans(f, p6, port_text, p7 + id + p8, "http://127.0.0.1:"@, "/qq/group/"@ + id + "/send"@);
    assert(h + p8 =~= f + p6 + port_text + (p7 + id + p8));
    assert("http://127.0.0.1:"@ + port_text + ("/qq/group/"@ + id + "/send"@) =~= url);
}

/// A text that ends one piece, a second piece and a text that begins a third stand in a row.
proof fn lemma_spans(
    before: Seq<char>,
    a: Seq<char>,
    x: Seq<char>,
    b: Seq<char>,
    end: Seq<char>,
    start: Seq<char>,
)
    requires
        model::finishes_with(a, end),
        model::begins_with(b, start),
    ensures
        model::has_part(before + a + x + b, end + x + start),
{
    let k = a.len() - end.len();
    let l = start.len() as int;
    assert(a =~= a.take(k) + end);
    assert(b =~= start + b.skip(l));
    assert(before + a + x + b =~= (before + a.take(k)) + (end + x + start) + b.skip(l));
    facts::lemma_part_between(before + a.take(k), end + x + start, b.skip(l));
}

proof fn lemma_group_words()
    ensures
        model::finishes_with("[System: The user is chatting with you via Telegram (username: @"@, "(username: @"@),
        model::finishes_with(") in a GROUP CHAT named \""@, "in a GROUP CHAT named \""@),
        model::finishes_with("\" (chatId: "@, "(chatId: "@),
        model::finishes_with("). But remember — you live on the user's "@, "the user's "@),
        model::finishes_with("` can read local logs, but Telegram-only API details may be unavailable for QQ. For active QQ group sending, do not use `alma group send`; that command targets Telegram. Use `curl -s -X POST http://127.0.0.1:"@, "http://127.0.0.1:"@),
        model::begins_with(") in a GROUP CHAT named \""@, ")"@),
        model::begins_with("\" (chatId: "@, "\""@),
        model::begins_with("). But remember — you live on the user's "@, ")"@),
        model::begins_with(" computer, not inside Telegram. Telegram is just the communication channel. You have full access to the operating system: you can take screenshots, run commands, read/write files, browse the web, and do anything a desktop AI agent can do.]\n\n[QQ BRIDGE: This Telegram-compatible channel is actually QQ / OneBot. For QQ group reading, `alma group list`, `alma group history "@, " computer"@),
        forall|id: Seq<char>| #[trigger] model::begins_with("/qq/group/"@ + id + "/send -H 'Content-Type: application/json' -d '{\"message\":\"...\"}'`.]"@, "/qq/group/"@ + id + "/send"@),
{
    lemma_group_word_a();
    lemma_group_word_b();
    lemma_group_word_c();
    lemma_group_word_d();
    lemma_group_word_e();
    lemma_group_word_f();
    lemma_group_word_g();
    lemma_group_word_h();
    lemma_group_word_i();
    reveal_strlit("/send -H 'Content-Type: application/json' -d '{\"message\":\"...\"}'`.]");
    reveal_strlit("/send");
    assert forall|id: Seq<char>| #[trigger]
        model::begins_with("/qq/group/"@ + id + "/send -H 'Content-Type: application/json' -d '{\"message\":\"...\"}'`.]"@, "/qq/group/"@ + id + "/send"@) by {
        let whole = "/qq/group/"@ + id + "/send -H 'Content-Type: application/json' -d '{\"message\":\"...\"}'`.]"@;
        let part = "/qq/group/"@ + id + "/send"@;
        assert(whole.subrange(0, part.len() as int) =~= part);
    }
}

proof fn lemma_group_word_a()
    ensures
        model::finishes_with("[System: The user is chatting with you via Telegram (username: @"@, "(username: @"@),
{
    reveal_strlit("[System: The user is chatting with you via Telegram (username: @");
    reveal_strlit("(username: @");
    assert("[System: The user is chatting with you via Telegram (username: @"@.skip("[System: The user is chatting with you via Telegram (username: @"@.len() - "(username: @"@.len()) =~= "(username: @"@);
    assert("[System: The user is chatting with you via Telegram (username: @"@.subrange("[System: The user is chatting with you via Telegram (username: @"@.len() - "(username: @"@.len(), "[System: The user is chatting with you via Telegram (username: @"@.len() as int) =~= "[System: The user is chatting with you via Telegram (username: @"@.skip("[System: The user is chatting with you via Telegram (username: @"@.len() - "(username: @"@.len()));
}

proof fn lemma_group_word_b()
    ensures
        model::finishes_with(") in a GROUP CHAT named \""@, "in a GROUP CHAT named \""@),
{
    reveal_strlit(") in a GROUP CHAT named \"");
    reveal_strlit("in a GROUP CHAT named \"");
    assert(") in a GROUP CHAT named \""@.skip(") in a GROUP CHAT named \""@.len() - "in a GROUP CHAT named \""@.len()) =~= "in a GROUP CHAT named \""@);
    assert(") in a GROUP CHAT named \""@.subrange(") in a GROUP CHAT named \""@.len() - "in a GROUP CHAT named \""@.len(), ") in a GROUP CHAT named \""@.len() as int) =~= ") in a GROUP CHAT named \""@.skip(") in a GROUP CHAT named \""@.len() - "in a GROUP CHAT named \""@.len()));
}

proof fn lemma_group_word_c()
    ensures
        model::finishes_with("\" (chatId: "@, "(chatId: "@),
{
    reveal_strlit("\" (chatId: ");
    reveal_strlit("(chatId: ");
    assert("\" (chatId: "@.skip("\" (chatId: "@.len() - "(chatId: "@.len()) =~= "(chatId: "@);
    assert("\" (chatId: "@.subrange("\" (chatId: "@.len() - "(chatId: "@.len(), "\" (chatId: "@.len() as int) =~= "\" (chatId: "@.skip("\" (chatId: "@.len() - "(chatId: "@.len()));
}

proof fn lemma_group_word_d()
    ensures
        model::finishes_with("). But remember — you live on the user's "@, "the user's "@),
{
    reveal_strlit("). But remember — you live on the user's ");
    reveal_strlit("the user's ");
    assert("). But remember — you live on the user's "@.skip("). But remember — you live on the user's "@.len() - "the user's "@.len()) =~= "the user's "@);
    assert("). But remember — you live on the user's "@.subrange("). But remember — you live on the user's "@.len() - "the user's "@.len(), "). But remember — you live on the user's "@.len() as int) =~= "). But remember — you live on the user's "@.skip("). But remember — you live on the user's "@.len() - "the user's "@.len()));
}

proof fn lemma_group_word_e()
    ensures
        model::finishes_with("` can read local logs, but Telegram-only API details may be unavailable for QQ. For active QQ group sending, do not use `alma group send`; that command targets Telegram. Use `curl -s -X POST http://127.0.0.1:"@, "http://127.0.0.1:"@),
{
    reveal_strlit("` can read local logs, but Telegram-only API details may be unavailable for QQ. For active QQ group sending, do not use `alma group send`; that command targets Telegram. Use `curl -s -X POST http://127.0.0.1:");
    reveal_strlit("http://127.0.0.1:");
    assert("` can read local logs, but Telegram-only API details may be unavailable for QQ. For active QQ group sending, do not use `alma group send`; that command targets Telegram. Use `curl -s -X POST http://127.0.0.1:"@.skip("` can read local logs, but Telegram-only API details may be unavailable for QQ. For active QQ group sending, do not use `alma group send`; that command targets Telegram. Use `curl -s -X POST http://127.0.0.1:"@.len() - "http://127.0.0.1:"@.len()) =~= "http://127.0.0.1:"@);
    assert("` can read local logs, but Telegram-only API details may be unavailable for QQ. For active QQ group sending, do not use `alma group send`; that command targets Telegram. Use `curl -s -X POST http://127.0.0.1:"@.subrange("` can read local logs, but Telegram-only API details may be unavailable for QQ. For active QQ group sending, do not use `alma group send`; that command targets Telegram. Use `curl -s -X POST http://127.0.0.1:"@.len() - "http://127.0.0.1:"@.len(), "` can read local logs, but Telegram-only API details may be unavailable for QQ. For active QQ group sending, do not use `alma group send`; that command targets Telegram. Use `curl -s -X POST http://127.0.0.1:"@.len() as int) =~= "` can read local logs, but Telegram-only API details may be unavailable for QQ. For active QQ group sending, do not use `alma group send`; that command targets Telegram. Use `curl -s -X POST http://127.0.0.1:"@.skip("` can read local logs, but Telegram-only API details may be unavailable for QQ. For active QQ group sending, do not use `alma group send`; that command targets Telegram. Use `curl -s -X POST http://127.0.0.1:"@.len() - "http://127.0.0.1:"@.len()));
}

proof fn lemma_group_word_f()
    ensures
        model::begins_with(") in a GROUP CHAT named \""@, ")"@),
{
    reveal_strlit(") in a GROUP CHAT named \"");
    reveal_strlit(")");
    assert(") in a GROUP CHAT named \""@.take(")"@.len() as int) =~= ")"@);
}

proof fn lemma_group_word_g()
    ensures
        model::begins_with("\" (chatId: "@, "\""@),
{
    reveal_strlit("\" (chatId: ");
    reveal_strlit("\"");
    assert("\" (chatId: "@.take("\""@.len() as int) =~= "\""@);
}

proof fn lemma_group_word_h()
    ensures
        model::begins_with("). But remember — you live on the user's "@, ")"@),
{
    reveal_strlit("). But remember — you live on the user's ");
    reveal_strlit(")");
    assert("). But remember — you live on the user's "@.take(")"@.len() as int) =~= ")"@);
}

proof fn lemma_group_word_i()
    ensures
        model::begins_with(" computer, not inside Telegram. Telegram is just the communication channel. You have full access to the operating system: you can take screenshots, run commands, read/write files, browse the web, and do anything a desktop AI agent can do.]\n\n[QQ BRIDGE: This Telegram-compatible channel is actually QQ / OneBot. For QQ group reading, `alma group list`, `alma group history "@, " computer"@),
{
    reveal_strlit(" computer, not inside Telegram. Telegram is just the communication channel. You have full access to the operating system: you can take screenshots, run commands, read/write files, browse the web, and do anything a desktop AI agent can do.]\n\n[QQ BRIDGE: This Telegram-compatible channel is actually QQ / OneBot. For QQ group reading, `alma group list`, `alma group history ");
    reveal_strlit(" computer");
    assert(" computer, not inside Telegram. Telegram is just the communication channel. You have full access to the operating system: you can take screenshots, run commands, read/write files, browse the web, and do anything a desktop AI agent can do.]\n\n[QQ BRIDGE: This Telegram-compatible channel is actually QQ / OneBot. For QQ group reading, `alma group list`, `alma group history "@.take(" computer"@.len() as int) =~= " computer"@);
}

/// What Alma is told of a private chat: who writes, on what kind of computer it lives, and where it
/// can send to a user.
pub proof fn law_private_chat_is_told(
    username: Seq<char>,
    title: Option<Seq<char>>,
    chat_id: Option<int>,
    port: u16,
    platform: Seq<char>,
)
    requires
        model::trimmed(username).len() > 0,
    ensures
        ({
            let told = context::channel_context(false, username, title, chat_id, port, platform);
            &&& model::has_part(told, "(username: @"@ + model::trimmed(username) + ")"@)
            &&& model::has_part(told, "the user's "@ + platform + " computer"@)
            &&& model::has_part(
                told,
                "http://127.0.0.1:"@ + number::dec(port as int) + "/qq/private/"@,
            )
        }),
{
    let name = model::trimmed(username);
    let port_text = number::dec_nat(port as nat);
    lemma_private_words();
    let p0 = "[System: The user is chatting with you via Telegram (username: @"@;
    let p1 = "). But remember — you live on the user's "@;
    let p2 = " computer, not inside Telegram. Telegram is just the communication channel. You have full access to the operating system: you can take screenshots, run commands, read/write files, browse the web, and do anything a desktop AI agent can do.]\n\n[QQ BRIDGE: This Telegram-compatible private chat is actually QQ / OneBot. For active QQ private sending, use `curl -s -X POST http://127.0.0.1:"@;
    let p3 = "/qq/private/<userId>/send -H 'Content-Type: application/json' -d '{\"message\":\"...\"}'`. Do not use Telegram-specific send commands for QQ.]"@;
    let a = p0 + name;
    let b = a + p1 + platform;
    let c = b + p2 + port_text;
    let who = "(username: @"@ + name + ")"@;
    let home = "the user's "@ + platform + " computer"@;
    lemma_spans(Seq::empty(), p0, name, p1, "(username: @"@, ")"@);
    assert(Seq::<char>::empty() + p0 =~= p0);
    facts::lemma_part_of_either(a + p1, platform, who);
    facts::lemma_part_of_either(b, p2, who);
    facts::lemma_part_of_either(b + p2, port_text, who);
    facts::lemma_part_of_either(c, p3, who);
    lemma_spans(a, p1, platform, p2, "the user's "@, " computer"@);
    facts::lemma_part_of_either(b + p2, port_text, home);
    facts::lemma_part_of_either(c, p3, home);
    lemma_spans(b, p2, port_text, p3, "http://127.0.0.1:"@, "/qq/private/"@);
}

/// What Alma is told of a group without a number: what the group is called, who writes, and that it
/// is not to send anything there.
pub proof fn law_group_without_a_number_is_told(
    username: Seq<char>,
    title: Seq<char>,
    port: u16,
    platform: Seq<char>,
)
    requires
        model::trimmed(username).len() > 0,
    ensures
        ({
            let told = context::channel_context(true, username, Some(title), None, port, platform);
            &&& model::has_part(told, "(username: @"@ + model::trimmed(username) + ")"@)
            &&& model::has_part(told, "in a GROUP CHAT named \""@ + title + "\""@)
            &&& model::finishes_with(
                told,
                "Do not invent chatId 0 or use group-send commands for this turn.]"@,
            )
        }),
{
    let name = model::trimmed(username);
    lemma_group_words();
    lemma_unnumbered_words();
    let told = context::channel_context(true, username, Some(title), None, port, platform);
    let p0 = "[System: The user is chatting with you via Telegram (username: @"@;
    let p1 = ") in a GROUP CHAT named \""@;
    let p2 = "\". But remember — you live on the user's "@;
    let p3 = " computer, not inside Telegram. Telegram is just the communication channel. You have full access to the operating system: you can take screenshots, run commands, read/write files, browse the web, and do anything a desktop AI agent can do.]\n\n[QQ BRIDGE: This Telegram-compatible channel is actually QQ / OneBot, but this message did not include a valid QQ group id. Do not invent chatId 0 or use group-send commands for this turn.]"@;
    let a = p0 + name;
    let b = a + p1 + title;
    let c = b + p2 + platform;
    let who = "(username: @"@ + name + ")"@;
    let group = "in a GROUP CHAT named \""@ + title + "\""@;
    lemma_spans(Seq::empty(), p0, name, p1, "(username: @"@, ")"@);
    assert(Seq::<char>::empty() + p0 =~= p0);
    facts::lemma_part_of_either(a + p1, title, who);
    facts::lemma_part_of_either(b, p2, who);
    facts::lemma_part_of_either(b + p2, platform, who);
    facts::lemma_part_of_either(c, p3, who);
    lemma_spans(a, p1, title, p2, "in a GROUP CHAT named \""@, "\""@);
    facts::lemma_part_of_either(b + p2, platform, group);
    facts::lemma_part_of_either(c, p3, group);
    let end = "Do not invent chatId 0 or use group-send commands for this turn.]"@;
    assert(told == c + p3);
    assert((c + p3).subrange((c + p3).len() - end.len(), (c + p3).len() as int) =~= p3.subrange(
        p3.len() - end.len(),
        p3.len() as int,
    ));
}

/// A blank name is told as unknown, and so is a group without a title.
pub proof fn law_unnamed_is_unknown(
    is_group: bool,
    username: Seq<char>,
    title: Option<Seq<char>>,
    chat_id: Option<int>,
    port: u16,
    platform: Seq<char>,
)
    ensures
        model::trimmed(username).len() == 0 ==> context::channel_context(
            is_group,
            username,
            title,
            chat_id,
            port,
            platform,
        ) == context::channel_context(is_group, "unknown"@, title, chat_id, port, platform),
        context::channel_context(is_group, username, None, chat_id, port, platform)
            == context::channel_context(
            is_group,
            username,
            Some("Unknown"@),
            chat_id,
            port,
            platform,
        ),
{
    reveal_strlit("unknown");
    let s = "unknown"@;
    let none = Seq::<char>::empty();
    assert(!model::is_whitespace(s[0]) && !model::is_whitespace(s.last()));
    facts::lemma_trimmed_core(none, s, none);
    assert(none + s + none =~= s);
}

/// The threads of two groups have different titles, and the thread of a private chat is named after
/// the sender.
pub proof fn law_thread_titles(a: int, b: int, name: Seq<char>, other: Seq<char>)
    requires
        i64::MIN <= a <= i64::MAX,
        i64::MIN <= b <= i64::MAX,
        a != b,
    ensures
        model::finishes_with(context::title_of_thread(true, a, name), number::dec(a)),
        model::finishes_with(context::title_of_thread(false, a, name), name),
        context::title_of_thread(true, a, name) != context::title_of_thread(true, b, other),
        context::title_of_thread(true, a, name) != context::title_of_thread(false, b, other),
        context::title_of_thread(false, a, name) == context::title_of_thread(false, b, name),
{
    reveal_strlit("QQ群 ");
    reveal_strlit("QQ私聊 ");
    let t = context::title_of_thread(true, a, name);
    let u = context::title_of_thread(true, b, other);
    let p = context::title_of_thread(false, a, name);
    assert(t.subrange(t.len() - number::dec(a).len(), t.len() as int) =~= number::dec(a));
    assert(p.subrange(p.len() - name.len(), p.len() as int) =~= name);
    assert(t.skip(4) =~= number::dec(a));
    assert(u.skip(4) =~= number::dec(b));
    number::lemma_parse_of_dec(a);
    number::lemma_parse_of_dec(b);
    let q = context::title_of_thread(false, b, other);
    assert(t[2] != q[2]);
}

/// Whether a word is one of the commands that the bot answers to in a group.
pub open spec fn is_known_command(word: Seq<char>) -> bool {
    word == "start"@ || word == "help"@ || word == "new"@ || word == "list"@ || word == "switch"@
        || word == "status"@ || word == "settings"@
}

/// A text is a command if it begins with a slash and a known word, in whatever case, and with
/// nothing behind it but the name of a bot or other words; no other word makes it one.
pub proof fn law_commands_are_recognized(
    word: Seq<char>,
    bot: Seq<char>,
    rest: Seq<char>,
)
    requires
        forall|i: int|
            0 <= i < word.len() ==> !model::is_whitespace(#[trigger] word[i]) && word[i] != '/' && word[i]
                != '@',
        bot.len() > 0 ==> bot[0] == '@',
        forall|i: int| 0 <= i < bot.len() ==> !model::is_whitespace(#[trigger] bot[i]),
        rest.len() > 0 ==> model::is_whitespace(rest[0]),
    ensures
        context::is_group_command("/"@ + word + bot + rest) == is_known_command(
            model::ascii_lowered(word),
        ),
{
    reveal_strlit("/");
    reveal_strlit("@");
    let s = "/"@ + word + bot + rest;
    let first = "/"@ + word + bot;
    let n = first.len() as int;
    assert forall|i: int| 0 <= i < n implies !model::is_whitespace(#[trigger] s[i]) by {
        if i == 0 {
            assert(s[i] == '/');
        } else if i <= word.len() {
            assert(s[i] == word[i - 1]);
        } else {
            assert(s[i] == bot[i - 1 - word.len()]);
        }
    }
    if n < s.len() {
        assert(s[n] == rest[0]);
    }
    lemma_word_end(s, 0, n);
    assert(s.subrange(0, n) =~= first);
    let words = model::words_of(s);
    assert(words[0] == first);
    let cut = model::trimmed_start_char(first, '/');
    assert(first.skip(1) =~= word + bot);
    lemma_no_slash(word + bot, word, bot);
    assert(cut == word + bot);
    if bot.len() == 0 {
        assert(cut =~= word);
        assert forall|j: int| 0 <= j implies !model::occurs_at(cut, "@"@, j) by {
            if model::occurs_at(cut, "@"@, j) {
                assert(cut.subrange(j, j + 1)[0] == word[j]);
            }
        }
        facts::lemma_find_none(cut, "@"@, 0);
    } else {
        let at = word.len() as int;
        assert(cut.subrange(at, at + 1) =~= "@"@);
        assert forall|j: int| 0 <= j < at implies !model::occurs_at(cut, "@"@, j) by {
            if model::occurs_at(cut, "@"@, j) {
                assert(cut.subrange(j, j + 1)[0] == word[j]);
            }
        }
        facts::lemma_find_is(cut, "@"@, 0, at);
        assert(cut.take(at) =~= word);
    }
}

proof fn lemma_no_slash(s: Seq<char>, word: Seq<char>, bot: Seq<char>)
    requires
        s == word + bot,
        forall|i: int| 0 <= i < word.len() ==> #[trigger] word[i] != '/',
        bot.len() > 0 ==> bot[0] == '@',
    ensures
        model::trimmed_start_char(s, '/') == s,
{
    if s.len() > 0 {
        if word.len() > 0 {
            assert(s[0] == word[0]);
        } else {
            assert(s[0] == bot[0]);
        }
    }
}

proof fn lemma_word_end(s: Seq<char>, from: int, n: int)
    requires
        0 <= from <= n <= s.len(),
        forall|i: int| from <= i < n ==> !model::is_whitespace(#[trigger] s[i]),
        n < s.len() ==> model::is_whitespace(s[n]),
    ensures
        model::word_end(s, from) == n,
    decreases n - from,
{
    if from < n {
        lemma_word_end(s, from + 1, n);
    }
}

/// A text whose first word does not begin with a slash is no command.
pub proof fn law_other_texts_are_no_commands(text: Seq<char>)
    requires
        text.len() > 0,
        !model::is_whitespace(text[0]),
        text[0] != '/',
    ensures
        !context::is_group_command(text),
{
    let end = model::word_end(text, 0);
    lemma_word_end_bounds(text, 1);
    assert(model::words_of(text)[0] == text.subrange(0, end));
}

proof fn lemma_word_end_bounds(s: Seq<char>, from: int)
    requires
        0 <= from <= s.len(),
    ensures
        from <= model::word_end(s, from) <= s.len(),
    decreases s.len() - from,
{
    if from < s.len() && !model::is_whitespace(s[from]) {
        lemma_word_end_bounds(s, from + 1);
    }
}

proof fn lemma_private_words()
    ensures
        model::finishes_with("[System: The user is chatting with you via Telegram (username: @"@, "(username: @"@),
        model::begins_with("). But remember — you live on the user's "@, ")"@),
        model::finishes_with("). But remember — you live on the user's "@, "the user's "@),
        model::begins_with(" computer, not inside Telegram. Telegram is just the communication channel. You have full access to the operating system: you can take screenshots, run commands, read/write files, browse the web, and do anything a desktop AI agent can do.]\n\n[QQ BRIDGE: This Telegram-compatible private chat is actually QQ / OneBot. For active QQ private sending, use `curl -s -X POST http://127.0.0.1:"@, " computer"@),
        model::finishes_with(" computer, not inside Telegram. Telegram is just the communication channel. You have full access to the operating system: you can take screenshots, run commands, read/write files, browse the web, and do anything a desktop AI agent can do.]\n\n[QQ BRIDGE: This Telegram-compatible private chat is actually QQ / OneBot. For active QQ private sending, use `curl -s -X POST http://127.0.0.1:"@, "http://127.0.0.1:"@),
        model::begins_with("/qq/private/<userId>/send -H 'Content-Type: application/json' -d '{\"message\":\"...\"}'`. Do not use Telegram-specific send commands for QQ.]"@, "/qq/private/"@),
{
    reveal_strlit("[System: The user is chatting with you via Telegram (username: @");
    reveal_strlit("(username: @");
    reveal_strlit("). But remember — you live on the user's ");
    reveal_strlit(")");
    reveal_strlit("the user's ");
    reveal_strlit(" computer, not inside Telegram. Telegram is just the communication channel. You have full access to the operating system: you can take screenshots, run commands, read/write files, browse the web, and do anything a desktop AI agent can do.]\n\n[QQ BRIDGE: This Telegram-compatible private chat is actually QQ / OneBot. For active QQ private sending, use `curl -s -X POST http://127.0.0.1:");
    reveal_strlit(" computer");
    reveal_strlit("http://127.0.0.1:");
    reveal_strlit("/qq/private/<userId>/send -H 'Content-Type: application/json' -d '{\"message\":\"...\"}'`. Do not use Telegram-specific send commands for QQ.]");
    reveal_strlit("/qq/private/");
    assert("[System: The user is chatting with you via Telegram (username: @"@.subrange("[System: The user is chatting with you via Telegram (username: @"@.len() - "(username: @"@.len(), "[System: The user is chatting with you via Telegram (username: @"@.len() as int) =~= "(username: @"@);
    assert("). But remember — you live on the user's "@.subrange(0, ")"@.len() as int) =~= ")"@);
    assert("). But remember — you live on the user's "@.subrange("). But remember — you live on the user's "@.len() - "the user's "@.len(), "). But remember — you live on the user's "@.len() as int) =~= "the user's "@);
    assert(" computer, not inside Telegram. Telegram is just the communication channel. You have full access to the operating system: you can take screenshots, run commands, read/write files, browse the web, and do anything a desktop AI agent can do.]\n\n[QQ BRIDGE: This Telegram-compatible private chat is actually QQ / OneBot. For active QQ private sending, use `curl -s -X POST http://127.0.0.1:"@.subrange(0, " computer"@.len() as int) =~= " computer"@);
    assert(" computer, not inside Telegram. Telegram is just the communication channel. You have full access to the operating system: you can take screenshots, run commands, read/write files, browse the web, and do anything a desktop AI agent can do.]\n\n[QQ BRIDGE: This Telegram-compatible private chat is actually QQ / OneBot. For active QQ private sending, use `curl -s -X POST http://127.0.0.1:"@.subrange(" computer, not inside Telegram. Telegram is just the communication channel. You have full access to the operating system: you can take screenshots, run commands, read/write files, browse the web, and do anything a desktop AI agent can do.]\n\n[QQ BRIDGE: This Telegram-compatible private chat is actually QQ / OneBot. For active QQ private sending, use `curl -s -X POST http://127.0.0.1:"@.len() - "http://127.0.0.1:"@.len(), " computer, not inside Telegram. Telegram is just the communication channel. You have full access to the operating system: you can take screenshots, run commands, read/write files, browse the web, and do anything a desktop AI agent can do.]\n\n[QQ BRIDGE: This Telegram-compatible private chat is actually QQ / OneBot. For active QQ private sending, use `curl -s -X POST http://127.0.0.1:"@.len() as int) =~= "http://127.0.0.1:"@);
    assert("/qq/private/<userId>/send -H 'Content-Type: application/json' -d '{\"message\":\"...\"}'`. Do not use Telegram-specific send commands for QQ.]"@.subrange(0, "/qq/private/"@.len() as int) =~= "/qq/private/"@);
}

proof fn lemma_unnumbered_words()
    ensures
        model::begins_with("\". But remember — you live on the user's "@, "\""@),
        model::finishes_with(" computer, not inside Telegram. Telegram is just the communication channel. You have full access to the operating system: you can take screenshots, run commands, read/write files, browse the web, and do anything a desktop AI agent can do.]\n\n[QQ BRIDGE: This Telegram-compatible channel is actually QQ / OneBot, but this message did not include a valid QQ group id. Do not invent chatId 0 or use group-send commands for this turn.]"@, "Do not invent chatId 0 or use group-send commands for this turn.]"@),
{
    reveal_strlit("\". But remember — you live on the user's ");
    reveal_strlit("\"");
    reveal_strlit(" computer, not inside Telegram. Telegram is just the communication channel. You have full access to the operating system: you can take screenshots, run commands, read/write files, browse the web, and do anything a desktop AI agent can do.]\n\n[QQ BRIDGE: This Telegram-compatible channel is actually QQ / OneBot, but this message did not include a valid QQ group id. Do not invent chatId 0 or use group-send commands for this turn.]");
    reveal_strlit("Do not invent chatId 0 or use group-send commands for this turn.]");
    assert("\". But remember — you live on the user's "@.subrange(0, "\""@.len() as int) =~= "\""@);
    assert(" computer, not inside Telegram. Telegram is just the communication channel. You have full access to the operating system: you can take screenshots, run commands, read/write files, browse the web, and do anything a desktop AI agent can do.]\n\n[QQ BRIDGE: This Telegram-compatible channel is actually QQ / OneBot, but this message did not include a valid QQ group id. Do not invent chatId 0 or use group-send commands for this turn.]"@.subrange(" computer, not inside Telegram. Telegram is just the communication channel. You have full access to the operating system: you can take screenshots, run commands, read/write files, browse the web, and do anything a desktop AI agent can do.]\n\n[QQ BRIDGE: This Telegram-compatible channel is actually QQ / OneBot, but this message did not include a valid QQ group id. Do not invent chatId 0 or use group-send commands for this turn.]"@.len() - "Do not invent chatId 0 or use group-send commands for this turn.]"@.len(), " computer, not inside Telegram. Telegram is just the communication channel. You have full access to the operating system: you can take screenshots, run commands, read/write files, browse the web, and do anything a desktop AI agent can do.]\n\n[QQ BRIDGE: This Telegram-compatible channel is actually QQ / OneBot, but this message did not include a valid QQ group id. Do not invent chatId 0 or use group-send commands for this turn.]"@.len() as int) =~= "Do not invent chatId 0 or use group-send commands for this turn.]"@);
}

/// Of a long message the history tells the beginning, as much of it as three hundred bytes hold.
pub proof fn law_long_history_line(msg: MessageView, clock: ClockView, n: int)
    requires
        0 <= n < msg.text.len(),
        model::byte_len(msg.text.take(n)) <= 300,
        model::byte_len(msg.text.take(n + 1)) > 300,
    ensures
        model::finishes_with(
            context::history_line(msg, clock),
            ": "@ + msg.text.take(n) + "..."@,
        ),
{
    facts::lemma_byte_len_take_monotone(msg.text, n + 1, msg.text.len() as int);
    assert(msg.text.take(msg.text.len() as int) =~= msg.text);
    split_laws::law_short_text_is_kept(msg.text, 300, n);
    let line = context::history_line(msg, clock);
    let end = ": "@ + msg.text.take(n) + "..."@;
    assert(line.subrange(line.len() - end.len(), line.len() as int) =~= end);
}

/// The header of a message to a group tells the name of its sender, the name of the account if it has
/// one, the two ids, and whether a bot wrote it.
pub proof fn law_group_header(
    name: Seq<char>,
    username: Seq<char>,
    user_id: int,
    message_id: int,
)
    ensures
        ({
            let ids = " [id:"@ + number::dec(user_id) + "] [msg:"@ + number::dec(message_id);
            &&& context::group_header(name, None, user_id, false, message_id) == "[From: "@ + name
                + ids + "]] "@
            &&& context::group_header(name, Some(username), user_id, false, message_id)
                == "[From: "@ + name + " (@"@ + username + ")"@ + ids + "]] "@
            &&& context::group_header(name, None, user_id, true, message_id) == "[From: "@ + name
                + ids + "] [BOT]] "@
        }),
{
    reveal_strlit("");
    reveal_strlit("]");
    reveal_strlit("] ");
    reveal_strlit("]] ");
    reveal_strlit(" [BOT]");
    reveal_strlit("] [BOT]] ");
    let ids = " [id:"@ + number::dec(user_id) + "] [msg:"@ + number::dec(message_id);
    assert(context::group_header(name, None, user_id, false, message_id) =~= "[From: "@ + name + ids
        + "]] "@);
    assert(context::group_header(name, Some(username), user_id, false, message_id) =~= "[From: "@
        + name + " (@"@ + username + ")"@ + ids + "]] "@);
    assert(context::group_header(name, None, user_id, true, message_id) =~= "[From: "@ + name + ids
        + "] [BOT]] "@);
}

} // verus!
