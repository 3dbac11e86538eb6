//! What a frame of a OneBot connection asks of the bridge.
use crate::json;
use crate::json::{Json, JsonView};
use crate::text::model;
use crate::text::number;
use crate::text::ops;
use vstd::prelude::*;
use vstd::string::*;

verus! {

/// The greatest size of a text frame, in bytes.
pub const MAX_INCOMING_TEXT_BYTES: usize = 1_000_000;

/// What was read from a connection.
pub enum Frame {
    Text(String),
    Close,
    /// A frame that holds no text.
    Other,
    /// The connection could not be read.
    Failed,
}

/// What is done with a frame.
pub enum FrameStep {
    /// Its text is read as JSON.
    Read(String),
    /// It is passed over.
    Skip,
    /// The connection is closed.
    Stop,
}

/// Decides what is done with a frame. `is_current` tells whether no newer connection has taken
/// the place of this one.
pub fn read_frame(is_current: bool, frame: Frame) -> (r: FrameStep)
    ensures
        r == (match frame {
            Frame::Text(text) => if is_current && model::byte_len(text@)
                <= MAX_INCOMING_TEXT_BYTES {
                FrameStep::Read(text)
            } else {
                FrameStep::Stop
            },
            Frame::Other => if is_current {
                FrameStep::Skip
            } else {
                FrameStep::Stop
            },
            _ => FrameStep::Stop,
        }),
{
    if !is_current {
        return FrameStep::Stop;
    }
    match frame {
        Frame::Text(text) => if ops::byte_length(&text) > MAX_INCOMING_TEXT_BYTES {
            FrameStep::Stop
        } else {
            FrameStep::Read(text)
        },
        Frame::Other => FrameStep::Skip,
        _ => FrameStep::Stop,
    }
}

/// What a JSON value from a OneBot client is.
pub enum Incoming {
    /// The answer to a call of the API.
    Answer,
    /// A message.
    Message,
    Heartbeat,
    /// The connection begins or ends, as the text says.
    Lifecycle(String),
    /// A message in a group was recalled.
    GroupRecall,
    /// A message in a private chat was recalled.
    FriendRecall,
    /// Another notice.
    Notice(String),
    /// A request to join a group or to become friends.
    Request,
    /// Another event.
    Unknown(String),
    /// Nothing that the bridge knows of.
    Nothing,
}

/// The model of what a JSON value is.
pub enum IncomingView {
    Answer,
    Message,
    Heartbeat,
    Lifecycle(Seq<char>),
    GroupRecall,
    FriendRecall,
    Notice(Seq<char>),
    Request,
    Unknown(Seq<char>),
    Nothing,
}

impl View for Incoming {
    type V = IncomingView;

    open spec fn view(&self) -> IncomingView {
        match *self {
            Incoming::Answer => IncomingView::Answer,
            Incoming::Message => IncomingView::Message,
            Incoming::Heartbeat => IncomingView::Heartbeat,
            Incoming::Lifecycle(s) => IncomingView::Lifecycle(s@),
            Incoming::GroupRecall => IncomingView::GroupRecall,
            Incoming::FriendRecall => IncomingView::FriendRecall,
            Incoming::Notice(s) => IncomingView::Notice(s@),
            Incoming::Request => IncomingView::Request,
            Incoming::Unknown(s) => IncomingView::Unknown(s@),
            Incoming::Nothing => IncomingView::Nothing,
        }
    }
}

/// The string under a key, or `unknown`.
pub open spec fn str_or_unknown(v: JsonView, key: Seq<char>) -> Seq<char> {
    match v.str_at(key) {
        Some(s) => s,
        None => "unknown"@,
    }
}

/// What a JSON value from a OneBot client is: an answer has an echo and a return code, and an
/// event says what it is.
pub open spec fn incoming(v: JsonView) -> IncomingView {
    if v.get("echo"@) is Some && v.get("retcode"@) is Some {
        IncomingView::Answer
    } else {
        match v.str_at("post_type"@) {
            None => IncomingView::Nothing,
            Some(post_type) => if post_type == "message"@ {
                IncomingView::Message
            } else if post_type == "meta_event"@ {
                if v.str_at("meta_event_type"@) == Some("heartbeat"@) {
                    IncomingView::Heartbeat
                } else if v.str_at("meta_event_type"@) == Some("lifecycle"@) {
                    IncomingView::Lifecycle(str_or_unknown(v, "sub_type"@))
                } else {
                    IncomingView::Nothing
                }
            } else if post_type == "notice"@ {
                let notice = str_or_unknown(v, "notice_type"@);
                if notice == "group_recall"@ {
                    IncomingView::GroupRecall
                } else if notice == "friend_recall"@ {
                    IncomingView::FriendRecall
                } else {
                    IncomingView::Notice(notice)
                }
            } else if post_type == "request"@ {
                IncomingView::Request
            } else {
                IncomingView::Unknown(post_type)
            },
        }
    }
}

fn read_str_or_unknown<'a>(v: &'a Json, key: &str) -> (r: &'a str)
    ensures
        r@ == str_or_unknown(v@, key@),
{
    match v.str_at(key) {
        Some(s) => s,
        None => "unknown",
    }
}

/// Tells what a JSON value from a OneBot client is.
pub fn route(v: &Json) -> (r: Incoming)
    ensures
        r@ == incoming(v@),
{
    if v.get("echo").is_some() && v.get("retcode").is_some() {
        return Incoming::Answer;
    }
    let post_type = match v.str_at("post_type") {
        None => {
            return Incoming::Nothing;
        },
        Some(t) => t,
    };
    if ops::same(post_type, "message") {
        return Incoming::Message;
    }
    if ops::same(post_type, "meta_event") {
        return match v.str_at("meta_event_type") {
            Some(kind) => if ops::same(kind, "heartbeat") {
                Incoming::Heartbeat
            } else if ops::same(kind, "lifecycle") {
                Incoming::Lifecycle(read_str_or_unknown(v, "sub_type").to_owned())
            } else {
                Incoming::Nothing
            },
            None => Incoming::Nothing,
        };
    }
    if ops::same(post_type, "notice") {
        let notice = read_str_or_unknown(v, "notice_type");
        return if ops::same(notice, "group_recall") {
            Incoming::GroupRecall
        } else if ops::same(notice, "friend_recall") {
            Incoming::FriendRecall
        } else {
            Incoming::Notice(notice.to_owned())
        };
    }
    if ops::same(post_type, "request") {
        return Incoming::Request;
    }
    Incoming::Unknown(post_type.to_owned())
}

/// The number under a key.
pub open spec fn int_at(v: JsonView, key: Seq<char>) -> Option<int> {
    match v.get(key) {
        Some(n) => n.as_i64(),
        None => None,
    }
}

fn json_i64(v: &Json, key: &str) -> (r: Option<i64>)
    ensures
        json::int_view(r) == int_at(v@, key@),
{
    match v.get(key) {
        Some(n) => n.as_i64(),
        None => None,
    }
}

/// Whether a JSON value from a OneBot client is an event.
pub open spec fn is_event(v: JsonView) -> bool {
    !(incoming(v) is Answer) && v.str_at("post_type"@) is Some
}

/// The account of the bot: the first one that an event names. Answers to calls are no events.
pub fn learn_self_id(known: Option<i64>, v: &Json) -> (r: Option<i64>)
    ensures
        match known {
            Some(_) => r == known,
            None => json::int_view(r) == (if is_event(v@) {
                int_at(v@, "self_id"@)
            } else {
                None
            }),
        },
{
    if known.is_some() {
        return known;
    }
    if v.get("echo").is_some() && v.get("retcode").is_some() {
        return None;
    }
    if v.str_at("post_type").is_some() {
        json_i64(v, "self_id")
    } else {
        None
    }
}

/// What is said of a recalled message of a group, or what is missing to say it.
pub open spec fn group_recall(v: JsonView) -> Result<Seq<char>, Seq<char>> {
    match (
        int_at(v, "group_id"@),
        int_at(v, "user_id"@),
        int_at(v, "operator_id"@),
        int_at(v, "message_id"@),
    ) {
        (None, _, _, _) => Err("[Recall] group_recall missing group_id"@),
        (Some(group), None, _, _) => Err(
            "[Recall] group_recall missing user_id in group "@ + number::dec(group),
        ),
        (Some(group), Some(user), None, _) => Err(
            "[Recall] group_recall missing operator_id for user "@ + number::dec(user)
                + " in group "@ + number::dec(group),
        ),
        (Some(group), Some(user), Some(_), None) => Err(
            "[Recall] group_recall missing message_id for user "@ + number::dec(user)
                + " in group "@ + number::dec(group),
        ),
        (Some(group), Some(user), Some(operator), Some(message)) => Ok(
            if user == operator {
                "[Recall] User "@ + number::dec(user) + " recalled message "@ + number::dec(
                    message,
                ) + " in group "@ + number::dec(group)
            } else {
                "[Recall] Admin "@ + number::dec(operator) + " recalled message "@ + number::dec(
                    message,
                ) + " from user "@ + number::dec(user) + " in group "@ + number::dec(group)
            },
        ),
    }
}

/// The model of a line for the log, or of a warning.
pub open spec fn line_view(r: Result<String, String>) -> Result<Seq<char>, Seq<char>> {
    match r {
        Ok(s) => Ok(s@),
        Err(s) => Err(s@),
    }
}

/// What is said of a recalled message of a group, or what is missing to say it.
pub fn log_group_recall(v: &Json) -> (r: Result<String, String>)
    ensures
        line_view(r) == group_recall(v@),
{
    let group = match json_i64(v, "group_id") {
        Some(id) => number::dec_i64(id),
        None => {
            return Err("[Recall] group_recall missing group_id".to_owned());
        },
    };
    let user_id = match json_i64(v, "user_id") {
        Some(id) => id,
        None => {
            return Err(
                "[Recall] group_recall missing user_id in group ".to_owned().concat(&group),
            );
        },
    };
    let user = number::dec_i64(user_id);
    let operator_id = match json_i64(v, "operator_id") {
        Some(id) => id,
        None => {
            return Err(
                "[Recall] group_recall missing operator_id for user ".to_owned().concat(
                    &user,
                ).concat(" in group ").concat(&group),
            );
        },
    };
    let message = match json_i64(v, "message_id") {
        Some(id) => number::dec_i64(id),
        None => {
            return Err(
                "[Recall] group_recall missing message_id for user ".to_owned().concat(
                    &user,
                ).concat(" in group ").concat(&group),
            );
        },
    };
    if user_id == operator_id {
        Ok(
            "[Recall] User ".to_owned().concat(&user).concat(" recalled message ").concat(
                &message,
            ).concat(" in group ").concat(&group),
        )
    } else {
        Ok(
            "[Recall] Admin ".to_owned().concat(&number::dec_i64(operator_id)).concat(
                " recalled message ",
            ).concat(&message).concat(" from user ").concat(&user).concat(" in group ").concat(
                &group,
            ),
        )
    }
}

/// What is said of a recalled message of a private chat, or what is missing to say it.
pub open spec fn friend_recall(v: JsonView) -> Result<Seq<char>, Seq<char>> {
    match (int_at(v, "user_id"@), int_at(v, "message_id"@)) {
        (None, _) => Err("[Recall] friend_recall missing user_id"@),
        (Some(user), None) => Err(
            "[Recall] friend_recall missing message_id for user "@ + number::dec(user),
        ),
        (Some(user), Some(message)) => Ok(
            "[Recall] User "@ + number::dec(user) + " recalled private message "@ + number::dec(
                message,
            ),
        ),
    }
}

/// What is said of a recalled message of a private chat, or what is missing to say it.
pub fn log_friend_recall(v: &Json) -> (r: Result<String, String>)
    ensures
        line_view(r) == friend_recall(v@),
{
    let user = match json_i64(v, "user_id") {
        Some(id) => number::dec_i64(id),
        None => {
            return Err("[Recall] friend_recall missing user_id".to_owned());
        },
    };
    match json_i64(v, "message_id") {
        Some(id) => Ok(
            "[Recall] User ".to_owned().concat(&user).concat(" recalled private message ").concat(
                &number::dec_i64(id),
            ),
        ),
        None => Err(
            "[Recall] friend_recall missing message_id for user ".to_owned().concat(&user),
        ),
    }
}

} // verus!
