//! What the bridge reads out of a message event.
use super::context;
use super::split;
use crate::json;
use crate::onebot::api;
use crate::onebot::api::QuotedMessage;
use crate::onebot::event;
use crate::onebot::event::{MessageSegment, OneBotEvent, Part, SegmentView};
use crate::text::facts;
use crate::text::model;
use crate::text::number;
use crate::text::ops;
use vstd::prelude::*;
use vstd::string::*;

verus! {

/// The segments of a message event.
pub open spec fn segments_of(e: OneBotEvent) -> Seq<SegmentView> {
    match e.message {
        Some(segments) => event::segment_views(segments@),
        None => seq![],
    }
}

/// The segments of a message event.
pub fn segments<'a>(e: &'a OneBotEvent) -> (r: &'a [MessageSegment])
    ensures
        event::segment_views(r@) == segments_of(*e),
{
    match &e.message {
        Some(segments) => segments.as_slice(),
        None => {
            let none: &'a [MessageSegment] = &[];
            assert(event::segment_views(none@) =~= seq![]);
            none
        },
    }
}

/// Whether a message was sent to a group.
pub open spec fn in_group(e: OneBotEvent) -> bool {
    json::text_view(e.message_type) == Some("group"@)
}

/// Whether a message was sent to a group.
pub fn is_group(e: &OneBotEvent) -> (r: bool)
    ensures
        r == in_group(*e),
{
    match &e.message_type {
        Some(t) => ops::same(t, "group"),
        None => false,
    }
}

/// The text of a message, with its faces.
pub open spec fn text_of(e: OneBotEvent) -> Seq<char> {
    context::spaced(
        event::plain_text(segments_of(e)),
        model::joined(event::parts_of(segments_of(e), Part::Face), " "@),
    )
}

/// The text of a message, with its faces.
pub fn message_text(e: &OneBotEvent) -> (r: String)
    ensures
        r@ == text_of(*e),
{
    let s = segments(e);
    context::join_spaced(&event::extract_text(s), &event::convert_faces_to_text(s))
}

/// The marks for the media of a message.
pub open spec fn media_lines_of(e: OneBotEvent) -> Seq<Seq<char>> {
    event::parts_of(segments_of(e), Part::Media)
}

/// Whether a message holds any media.
pub open spec fn holds_media(e: OneBotEvent) -> bool {
    exists|i: int| 0 <= i < segments_of(e).len() && event::is_media(#[trigger] segments_of(e)[i])
}

/// Whether a message mentions the bot.
pub open spec fn mentions_bot(e: OneBotEvent) -> bool {
    exists|i: int|
        0 <= i < segments_of(e).len() && event::mentions(
            #[trigger] segments_of(e)[i],
            e.self_id as int,
        )
}

/// Whether a message is looked at: it holds text or media. One without a sender, or one to a
/// group without the group's id, is an error.
pub open spec fn looked_at(e: OneBotEvent) -> Result<bool, Seq<char>> {
    if text_of(e).len() == 0 && !holds_media(e) {
        Ok(false)
    } else if e.user_id is None {
        Err("OneBot message event missing user_id"@)
    } else if in_group(e) && !(e.group_id matches Some(id) && id > 0) {
        Err("OneBot group message event missing group_id"@)
    } else {
        Ok(true)
    }
}

/// Whether a message is looked at.
pub fn is_looked_at(e: &OneBotEvent) -> (r: Result<bool, String>)
    ensures
        match r {
            Ok(b) => looked_at(*e) == Ok::<bool, Seq<char>>(b),
            Err(m) => looked_at(*e) == Err::<bool, Seq<char>>(m@),
        },
{
    if message_text(e).as_str().is_empty() && !event::has_media_segments(segments(e)) {
        return Ok(false);
    }
    if e.user_id.is_none() {
        return Err("OneBot message event missing user_id".to_owned());
    }
    if is_group(e) {
        let valid = match e.group_id {
            Some(id) => id > 0,
            None => false,
        };
        if !valid {
            return Err("OneBot group message event missing group_id".to_owned());
        }
    }
    Ok(true)
}

/// The nickname of the sender.
pub open spec fn nickname_of(e: OneBotEvent) -> Seq<char> {
    match e.sender {
        Some(s) => match s.nickname {
            Some(n) => n@,
            None => "unknown"@,
        },
        None => "unknown"@,
    }
}

/// The nickname of the sender.
pub fn sender_nickname(e: &OneBotEvent) -> (r: &str)
    ensures
        r@ == nickname_of(*e),
{
    match &e.sender {
        Some(s) => match &s.nickname {
            Some(n) => n.as_str(),
            None => "unknown",
        },
        None => "unknown",
    }
}

/// What the sender is called: in a group by the name that they have there, if they have one.
pub open spec fn display_name_of(e: OneBotEvent) -> Seq<char> {
    match e.sender {
        Some(s) => match s.card {
            Some(card) => if in_group(e) && card@.len() > 0 {
                card@
            } else {
                nickname_of(e)
            },
            None => nickname_of(e),
        },
        None => nickname_of(e),
    }
}

/// What the sender is called.
pub fn display_name(e: &OneBotEvent) -> (r: &str)
    ensures
        r@ == display_name_of(*e),
{
    if is_group(e) {
        if let Some(s) = &e.sender {
            if let Some(card) = &s.card {
                if !card.as_str().is_empty() {
                    return card.as_str();
                }
            }
        }
    }
    sender_nickname(e)
}

/// The id of the sender: the one in the account of the sender, else the one of the event.
pub open spec fn sender_id_of(e: OneBotEvent) -> int {
    match e.sender {
        Some(s) => match s.user_id {
            Some(id) => id as int,
            None => user_of(e),
        },
        None => user_of(e),
    }
}

/// The user that a message came from.
pub open spec fn user_of(e: OneBotEvent) -> int {
    match e.user_id {
        Some(id) => id as int,
        None => 0,
    }
}

/// The group that a message was sent to.
pub open spec fn group_of(e: OneBotEvent) -> int {
    match e.group_id {
        Some(id) => if in_group(e) {
            id as int
        } else {
            0
        },
        None => 0,
    }
}

/// The user that a message came from.
pub fn user_id(e: &OneBotEvent) -> (r: i64)
    ensures
        r == user_of(*e),
{
    match e.user_id {
        Some(id) => id,
        None => 0,
    }
}

/// The group that a message was sent to.
pub fn group_id(e: &OneBotEvent) -> (r: i64)
    ensures
        r == group_of(*e),
{
    match e.group_id {
        Some(id) => if is_group(e) {
            id
        } else {
            0
        },
        None => 0,
    }
}

/// The id of the sender.
pub fn sender_id(e: &OneBotEvent) -> (r: i64)
    ensures
        r == sender_id_of(*e),
{
    if let Some(s) = &e.sender {
        if let Some(id) = s.user_id {
            return id;
        }
    }
    user_id(e)
}

/// What is known of the message that a message replies to.
pub struct ReplyContext {
    /// The words that tell Alma of it.
    pub text: String,
    /// Whether the bot wrote it.
    pub to_bot: bool,
    /// The images that it shows.
    pub image_urls: Vec<String>,
}

/// The words that tell Alma what a message replies to.
pub open spec fn reply_words(to_bot: bool, sender: Seq<char>, text: Seq<char>) -> Seq<char> {
    "[Replying to "@ + (if to_bot {
        "Alma"@
    } else {
        sender
    }) + "'s message: \""@ + split::shortened(split::one_line(text), 200) + "\"]"@
}

/// Tells of the message that a message replies to. `bot_id` is the account of the bot.
pub fn reply_context(quoted: QuotedMessage, bot_id: i64) -> (r: ReplyContext)
    ensures
        r.to_bot == (quoted.sender_id == Some(bot_id)),
        r.text@ == reply_words(r.to_bot, quoted.sender_name@, quoted.text@),
        r.image_urls == quoted.image_urls,
{
    let to_bot = match quoted.sender_id {
        Some(id) => id == bot_id,
        None => false,
    };
    let label = if to_bot {
        "Alma"
    } else {
        quoted.sender_name.as_str()
    };
    let preview = split::single_line_preview(&quoted.text, 200);
    let text = "[Replying to ".to_owned().concat(label).concat("'s message: \"").concat(
        &preview,
    ).concat("\"]");
    ReplyContext { text, to_bot, image_urls: quoted.image_urls }
}

/// Whether a message is answered: in a private chat each is, in a group one that mentions the
/// bot.
pub open spec fn answered(e: OneBotEvent) -> bool {
    in_group(e) ==> mentions_bot(e)
}

/// Whether a message is answered.
pub fn should_process(e: &OneBotEvent) -> (r: bool)
    ensures
        r == answered(*e),
{
    !is_group(e) || event::contains_at_bot(segments(e), e.self_id)
}

/// How one of several forwarded messages is told.
pub open spec fn forwarded_line(node: (Seq<char>, Seq<char>)) -> Seq<char> {
    node.0 + ": \""@ + split::shortened(node.1, 100) + "\""@
}

/// How many forwarded messages are told.
pub const FORWARD_LIMIT: usize = 20;

/// The forwarded messages that are told.
pub open spec fn told_nodes(nodes: Seq<(Seq<char>, Seq<char>)>) -> Seq<(Seq<char>, Seq<char>)> {
    if nodes.len() > FORWARD_LIMIT {
        nodes.take(FORWARD_LIMIT as int)
    } else {
        nodes
    }
}

/// The words that tell Alma of forwarded messages.
pub open spec fn forward_words(nodes: Option<Seq<(Seq<char>, Seq<char>)>>) -> Seq<char> {
    match nodes {
        None => "[Forwarded message]"@,
        Some(n) => if n.len() == 0 {
            "[Forwarded message]"@
        } else {
            "[Forwarded messages ("@ + number::dec_nat(n.len()) + " total):"@ + model::joined(
                told_nodes(n).map_values(|p: (Seq<char>, Seq<char>)| forwarded_line(p)),
                ", "@,
            ) + (if n.len() > FORWARD_LIMIT {
                " ... +"@ + number::dec_nat((n.len() - FORWARD_LIMIT) as nat) + " more"@
            } else {
                ""@
            }) + "]"@
        },
    }
}

/// The model of forwarded messages, if they could be had.
pub open spec fn nodes_view(nodes: Option<Vec<(String, String)>>) -> Option<
    Seq<(Seq<char>, Seq<char>)>,
> {
    match nodes {
        Some(v) => Some(event::pair_views(v@)),
        None => None,
    }
}

/// Tells of forwarded messages, each with its sender and its text, or that they could not be
/// had.
pub fn forward_context(nodes: &Option<Vec<(String, String)>>) -> (r: String)
    ensures
        r@ == forward_words(nodes_view(*nodes)),
{
    let nodes = match nodes {
        None => {
            return "[Forwarded message]".to_owned();
        },
        Some(n) => n,
    };
    if nodes.len() == 0 {
        return "[Forwarded message]".to_owned();
    }
    let ghost views = event::pair_views(nodes@);
    let ghost lines = told_nodes(views).map_values(
        |p: (Seq<char>, Seq<char>)| forwarded_line(p),
    );
    let told: usize = if nodes.len() > FORWARD_LIMIT {
        FORWARD_LIMIT
    } else {
        nodes.len()
    };
    let mut out: Vec<String> = Vec::new();
    let mut i: usize = 0;
    assert(model::texts(out@) =~= lines.take(0));
    while i < told
        invariant
            i <= told <= nodes@.len(),
            told == told_nodes(views).len(),
            views == event::pair_views(nodes@),
            lines == told_nodes(views).map_values(
                |p: (Seq<char>, Seq<char>)| forwarded_line(p),
            ),
            model::texts(out@) == lines.take(i as int),
        decreases told - i,
    {
        let line = nodes[i].0.clone().concat(": \"").concat(
            &split::truncate_with_ellipsis(&nodes[i].1, 100),
        ).concat("\"");
        proof {
            assert(views[i as int] == (nodes@[i as int].0@, nodes@[i as int].1@));
            assert(line@ == lines[i as int]);
            facts::lemma_texts_push(out@, line);
            assert(lines.take(i + 1) =~= lines.take(i as int).push(line@));
        }
        out.push(line);
        i += 1;
    }
    assert(lines.take(i as int) =~= lines);
    let suffix = if nodes.len() > FORWARD_LIMIT {
        " ... +".to_owned().concat(&number::dec_u64((nodes.len() - FORWARD_LIMIT) as u64)).concat(
            " more",
        )
    } else {
        "".to_owned()
    };
    "[Forwarded messages (".to_owned().concat(&number::dec_u64(nodes.len() as u64)).concat(
        " total):",
    ).concat(&ops::join(&out, ", ")).concat(&suffix).concat("]")
}

/// What is added to a message of its media, beside its images and files.
pub open spec fn suffix_of(media_lines: Seq<Seq<char>>) -> Seq<char> {
    let lines = api::telling_lines(media_lines);
    if lines.len() == 0 {
        ""@
    } else {
        "\n\n"@ + model::joined(lines, "\n\n"@)
    }
}

/// What is added to a message of its media. Its images and files are handed on themselves.
pub fn media_suffix(media_lines: &Vec<String>) -> (r: String)
    ensures
        r@ == suffix_of(model::texts(media_lines@)),
{
    let ghost all = model::texts(media_lines@);
    let mut out: Vec<String> = Vec::new();
    let mut i: usize = 0;
    assert(model::texts(out@) =~= seq![]);
    assert(all.take(0) =~= seq![]);
    while i < media_lines.len()
        invariant
            i <= media_lines@.len(),
            all == model::texts(media_lines@),
            model::texts(out@) == api::telling_lines(all.take(i as int)),
        decreases media_lines@.len() - i,
    {
        assert(all.take(i + 1).drop_last() =~= all.take(i as int));
        assert(all[i as int] == media_lines@[i as int]@);
        if !ops::same(&media_lines[i], "[Image]") && !ops::same(&media_lines[i], "[File]") {
            let line = media_lines[i].clone();
            proof {
                facts::lemma_texts_push(out@, line);
            }
            out.push(line);
        }
        i += 1;
    }
    assert(all.take(i as int) =~= all);
    assert(model::texts(out@).len() == out@.len());
    if out.len() == 0 {
        "".to_owned()
    } else {
        "\n\n".to_owned().concat(&ops::join(&out, "\n\n"))
    }
}

/// The message as it goes to Alma.
pub open spec fn outgoing_text(
    e: OneBotEvent,
    message_id: int,
    forward: Option<Seq<char>>,
    reply: Option<Seq<char>>,
) -> Seq<char> {
    let cleaned = if in_group(e) {
        event::without_mentions(text_of(e), e.self_id as int)
    } else {
        text_of(e)
    };
    let header = if in_group(e) {
        context::group_header(display_name_of(e), None, sender_id_of(e), false, message_id)
    } else {
        "[msg:"@ + number::dec(message_id) + "] "@
    };
    context::message_text(header, model::trimmed(cleaned), forward, reply) + suffix_of(
        media_lines_of(e),
    )
}

/// Writes the message as it goes to Alma.
pub fn format_message(
    e: &OneBotEvent,
    message_id: i64,
    forward: Option<&str>,
    reply: Option<&str>,
    to_bot: bool,
) -> (r: String)
    ensures
        r@ == outgoing_text(*e, message_id as int, json::str_view(forward), json::str_view(reply)),
{
    let group = is_group(e);
    let text = message_text(e);
    let cleaned = if group {
        event::clean_at_from_text(&text, e.self_id)
    } else {
        text
    };
    let body = context::build_telegram_like_message_text(
        group,
        to_bot,
        display_name(e),
        None,
        sender_id(e),
        false,
        message_id,
        ops::trim(&cleaned),
        forward,
        reply,
    );
    body.concat(&media_suffix(&event::extract_media_summary(segments(e))))
}

} // verus!
