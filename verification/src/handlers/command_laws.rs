//! What holds of the commands that the bridge obeys.
use super::http;
use super::http::{SendActionView, SendOutcome, SendView};
use crate::json;
use crate::json::JsonView;
use crate::pipeline::run::OutgoingView;
use crate::pipeline::split;
use crate::state::directory::{EntryView, MemberView};
use crate::text::model;
use crate::text::number;
use vstd::prelude::*;

verus! {

proof fn lemma_keys()
    ensures
        "status"@ != "error"@,
        "group_id"@ != "user_id"@,
        "group_id"@ != "display_name"@,
        "group_id"@ != "last_seen"@,
        "user_id"@ != "display_name"@,
        "user_id"@ != "last_seen"@,
        "display_name"@ != "last_seen"@,
        "group_id"@ != "title"@,
        "group_id"@ != "last_active"@,
        "group_id"@ != "members"@,
        "title"@ != "last_active"@,
        "title"@ != "members"@,
        "last_active"@ != "members"@,
        "status"@ != "onebot_connected"@,
        "status"@ != "readme_path"@,
        "status"@ != "groups"@,
        "onebot_connected"@ != "readme_path"@,
        "onebot_connected"@ != "groups"@,
        "readme_path"@ != "groups"@,
        "status"@ != "target_type"@,
        "status"@ != "target_id"@,
        "status"@ != "message_ids"@,
        "target_type"@ != "target_id"@,
        "target_type"@ != "message_ids"@,
        "target_id"@ != "message_ids"@,
        "group"@ != "private"@,
{
    reveal_strlit("status");
    reveal_strlit("error");
    reveal_strlit("group_id");
    reveal_strlit("user_id");
    reveal_strlit("display_name");
    reveal_strlit("last_seen");
    reveal_strlit("title");
    reveal_strlit("last_active");
    reveal_strlit("members");
    reveal_strlit("onebot_connected");
    reveal_strlit("readme_path");
    reveal_strlit("groups");
    reveal_strlit("target_type");
    reveal_strlit("target_id");
    reveal_strlit("message_ids");
    reveal_strlit("group");
    reveal_strlit("private");
    assert("status"@.len() == 6);
    assert("error"@.len() == 5);
    assert("group_id"@.len() == 8);
    assert("user_id"@.len() == 7);
    assert("display_name"@.len() == 12);
    assert("last_seen"@.len() == 9);
    assert("title"@.len() == 5);
    assert("last_active"@.len() == 11);
    assert("members"@.len() == 7);
    assert("onebot_connected"@.len() == 16);
    assert("readme_path"@.len() == 11);
    assert("groups"@.len() == 6);
    assert("target_type"@.len() == 11);
    assert("target_id"@.len() == 9);
    assert("message_ids"@.len() == 11);
    assert("group"@.len() == 5);
    assert("private"@.len() == 7);
    assert("status"@[0] != "groups"@[0]);
    assert("target_type"@[0] != "message_ids"@[0]);
}

/// Whether an answer is an error with a message.
pub open spec fn tells_error(body: JsonView, message: Seq<char>) -> bool {
    body.get("status"@) == Some(JsonView::Str("error"@)) && body.get("error"@) == Some(
        JsonView::Str(message),
    )
}

proof fn lemma_error(message: Seq<char>)
    ensures
        tells_error(http::two_texts("status"@, "error"@, "error"@, message), message),
{
    lemma_keys();
    json::lemma_two_entries(
        "status"@,
        JsonView::Str("error"@),
        "error"@,
        JsonView::Str(message),
    );
}

/// A sending begins with the thread of the chat; a blank message is refused, and so is any while
/// there is no connection.
pub proof fn law_sending_begins(s: SendView, connected: bool)
    ensures
        s.message.len() > 0 && connected ==> http::begun(s, connected).1 == SendActionView::LookUp(
            s.target_type + ":"@ + number::dec(s.target_id),
        ),
        s.message.len() == 0 ==> {
            http::begun(s, connected).1 matches SendActionView::Respond(status, body) && status
                == 400 && tells_error(body, "message must not be empty"@)
        },
        s.message.len() > 0 && !connected ==> {
            http::begun(s, connected).1 matches SendActionView::Respond(status, body) && status
                == 503 && tells_error(body, "no active OneBot reverse WebSocket connection"@)
        },
{
    lemma_error("message must not be empty"@);
    lemma_error("no active OneBot reverse WebSocket connection"@);
}

/// A message that fits is sent whole. It replies to the message that was named, and mentions who was
/// named with it; without such a message it does neither.
pub proof fn law_message_is_sent_whole(s: SendView, thread: Option<String>, reason: String)
    requires
        s.stage is LookUp,
        s.sent == 0,
        s.message.len() > 0,
        model::byte_len(s.message) <= 4500,
    ensures
        http::progressed(s, SendOutcome::Thread(Ok(thread))).1 == SendActionView::Send(
            OutgoingView {
                text: s.message,
                reply_to: s.reply_to,
                at_user: if s.reply_to is Some {
                    s.at_user
                } else {
                    None
                },
                is_reply: true,
            },
        ),
        http::progressed(s, SendOutcome::Thread(Ok(thread))).0.thread_id == json::text_view(thread),
        http::progressed(s, SendOutcome::Thread(Err(reason))).1 is Respond,
        http::progressed(s, SendOutcome::Thread(Err(reason))).1->Respond_0 == 500,
        tells_error(
            http::progressed(s, SendOutcome::Thread(Err(reason))).1->Respond_1,
            "failed to resolve bridge thread mapping: "@ + reason@,
        ),
{
    lemma_error("failed to resolve bridge thread mapping: "@ + reason@);
    assert(http::message_chunks(s) == seq![s.message]);
}

/// What was sent to a group is recorded there, with its id, before anything else is done; what was
/// sent to a user is not. A failure is answered at once.
pub proof fn law_sent_message_is_recorded(s: SendView, id: Option<i64>, reason: String)
    requires
        s.stage is Send,
        s.sent < http::message_chunks(s).len(),
    ensures
        s.target_type == "group"@ ==> http::progressed(s, SendOutcome::Sent(Ok(id))).1
            == SendActionView::Record(
            s.target_id,
            split::split_into(s.message, 4500)[s.sent as int],
            json::int_view(id),
        ),
        s.target_type != "group"@ ==> !(http::progressed(s, SendOutcome::Sent(Ok(id))).1 is Record),
        id is Some ==> http::progressed(s, SendOutcome::Sent(Ok(id))).0.message_ids
            == s.message_ids.push(id->0 as int),
        id is None ==> http::progressed(s, SendOutcome::Sent(Ok(id))).0.message_ids
            == s.message_ids,
        http::progressed(s, SendOutcome::Sent(Err(reason))).1 is Respond,
        http::progressed(s, SendOutcome::Sent(Err(reason))).1->Respond_0 == 502,
        tells_error(http::progressed(s, SendOutcome::Sent(Err(reason))).1->Respond_1, reason@),
{
    lemma_error(reason@);
}

/// What a message is sent in is sent in order; the parts behind the first neither reply nor mention
/// anyone.
pub proof fn law_parts_are_sent_in_order(s: SendView, id: Option<i64>)
    requires
        s.stage is Send && s.target_type != "group"@ || s.stage is Record,
        s.sent + 1 < split::split_into(s.message, 4500).len(),
    ensures
        ({
            let outcome = if s.stage is Send {
                SendOutcome::Sent(Ok(id))
            } else {
                SendOutcome::Done
            };
            let (t, a) = http::progressed(s, outcome);
            &&& t.sent == s.sent + 1
            &&& a == SendActionView::Send(
                OutgoingView {
                    text: split::split_into(s.message, 4500)[(s.sent + 1) as int],
                    reply_to: None,
                    at_user: None,
                    is_reply: true,
                },
            )
        }),
{
}

/// Once all is sent, the whole message is noted as a reply of the chat's thread, if it has one, and
/// the command is answered: with the chat, and with the ids of the messages in order.
pub proof fn law_sending_is_noted_and_answered(s: SendView, id: Option<i64>)
    requires
        s.stage is Send && s.target_type != "group"@ && s.sent + 1 == split::split_into(
            s.message,
            4500,
        ).len() || s.stage is Record && s.sent + 1 == split::split_into(s.message, 4500).len(),
    ensures
        ({
            let outcome = if s.stage is Send {
                SendOutcome::Sent(Ok(id))
            } else {
                SendOutcome::Done
            };
            let (t, a) = http::progressed(s, outcome);
            &&& s.thread_id is Some ==> a == SendActionView::Register(s.thread_id->0, s.message)
                && is_done(t, http::progressed(t, SendOutcome::Done).1)
            &&& s.thread_id is None ==> is_done(t, a)
        }),
{
    let outcome = if s.stage is Send {
        SendOutcome::Sent(Ok(id))
    } else {
        SendOutcome::Done
    };
    let (t, a) = http::progressed(s, outcome);
    lemma_sent_json(t);
}

/// Whether a command is answered with what was sent.
pub open spec fn is_done(s: SendView, a: SendActionView) -> bool {
    a matches SendActionView::Respond(status, body) && {
        &&& status == 200
        &&& body.get("status"@) == Some(JsonView::Str("ok"@))
        &&& body.get("target_type"@) == Some(JsonView::Str(s.target_type))
        &&& body.get("target_id"@) == Some(number_of(s.target_id))
        &&& body.get("message_ids"@) matches Some(JsonView::Array(ids)) && ids.len()
            == s.message_ids.len() && forall|i: int|
            0 <= i < ids.len() ==> #[trigger] ids[i] == number_of(s.message_ids[i])
    }
}

/// A number in JSON.
pub open spec fn number_of(n: int) -> JsonView {
    JsonView::Number(
        number::dec(n),
        if i64::MIN <= n <= i64::MAX {
            Some(n)
        } else {
            None
        },
    )
}

proof fn lemma_sent_json(s: SendView)
    ensures
        is_done(s, SendActionView::Respond(200, http::sent_json(s))),
{
    lemma_keys();
    let body = http::sent_json(s);
    let entries = body->Object_0;
    json::lemma_entry_at(entries, "status"@, 0, 0);
    json::lemma_entry_at(entries, "target_type"@, 0, 1);
    json::lemma_entry_at(entries, "target_id"@, 0, 2);
    json::lemma_entry_at(entries, "message_ids"@, 0, 3);
}

/// Whether JSON tells of a member of a group.
pub open spec fn tells_member(v: JsonView, m: MemberView) -> bool {
    &&& v.get("group_id"@) == Some(number_of(m.group_id as int))
    &&& v.get("user_id"@) == Some(number_of(m.user_id as int))
    &&& v.get("display_name"@) == Some(JsonView::Str(m.display_name))
    &&& v.get("last_seen"@) == Some(number_of(m.last_seen as int))
}

/// Whether JSON tells of a group and its members.
pub open spec fn tells_group(v: JsonView, g: EntryView) -> bool {
    &&& v.get("group_id"@) == Some(number_of(g.group_id as int))
    &&& g.title is Some ==> v.get("title"@) == Some(JsonView::Str(g.title->0))
    &&& g.title is None ==> v.get("title"@) == Some(JsonView::Null)
    &&& v.get("last_active"@) == Some(number_of(g.last_active as int))
    &&& v.get("members"@) matches Some(JsonView::Array(members)) && members.len()
        == g.members.len() && forall|i: int|
        0 <= i < members.len() ==> tells_member(#[trigger] members[i], g.members[i])
}

/// The answer that lists the groups tells of each group and each member, in order, whether there is a
/// connection, and where the README is.
pub proof fn law_groups_are_listed(
    connected: bool,
    readme_path: Option<Seq<char>>,
    groups: Seq<EntryView>,
)
    ensures
        ({
            let body = http::groups_json(connected, readme_path, groups);
            &&& body.get("status"@) == Some(JsonView::Str("ok"@))
            &&& body.get("onebot_connected"@) == Some(JsonView::Bool(connected))
            &&& readme_path is Some ==> body.get("readme_path"@) == Some(
                JsonView::Str(readme_path->0),
            )
            &&& readme_path is None ==> body.get("readme_path"@) == Some(JsonView::Null)
            &&& body.get("groups"@) matches Some(JsonView::Array(listed)) && listed.len()
                == groups.len() && forall|i: int|
                0 <= i < listed.len() ==> tells_group(#[trigger] listed[i], groups[i])
        }),
{
    lemma_keys();
    let body = http::groups_json(connected, readme_path, groups);
    let entries = body->Object_0;
    json::lemma_entry_at(entries, "status"@, 0, 0);
    json::lemma_entry_at(entries, "onebot_connected"@, 0, 1);
    json::lemma_entry_at(entries, "readme_path"@, 0, 2);
    json::lemma_entry_at(entries, "groups"@, 0, 3);
    let listed = groups.map_values(|g: EntryView| http::group_json(g));
    assert forall|i: int| 0 <= i < listed.len() implies tells_group(#[trigger] listed[i], groups[i]) by {
        assert(listed[i] == http::group_json(groups[i]));
        lemma_group(groups[i]);
    }
}

proof fn lemma_group(g: EntryView)
    ensures
        tells_group(http::group_json(g), g),
{
    lemma_keys();
    let entries = http::group_json(g)->Object_0;
    json::lemma_entry_at(entries, "group_id"@, 0, 0);
    json::lemma_entry_at(entries, "title"@, 0, 1);
    json::lemma_entry_at(entries, "last_active"@, 0, 2);
    json::lemma_entry_at(entries, "members"@, 0, 3);
    let members = g.members.map_values(|m: MemberView| http::member_json(m));
    assert forall|i: int| 0 <= i < members.len() implies tells_member(
        #[trigger] members[i],
        g.members[i],
    ) by {
        assert(members[i] == http::member_json(g.members[i]));
        lemma_member(g.members[i]);
    }
}

proof fn lemma_member(m: MemberView)
    ensures
        tells_member(http::member_json(m), m),
{
    lemma_keys();
    let entries = http::member_json(m)->Object_0;
    json::lemma_entry_at(entries, "group_id"@, 0, 0);
    json::lemma_entry_at(entries, "user_id"@, 0, 1);
    json::lemma_entry_at(entries, "display_name"@, 0, 2);
    json::lemma_entry_at(entries, "last_seen"@, 0, 3);
}

/// A command that may be given is begun for its own chat, with its message and with what that replies
/// to; one that may not is refused.
pub proof fn law_command_is_handled(
    r: Result<(http::SendRun, http::SendAction), http::JsonResponse>,
    target_type: Seq<char>,
    target_id: int,
    body: http::SendMessageRequest,
    allowed: bool,
    connected: bool,
)
    requires
        http::is_handled(r, target_type, target_id, body, allowed, connected),
    ensures
        allowed <==> r is Ok,
        allowed && connected && model::trimmed(body.message@).len() > 0 ==> {
            &&& r->Ok_0.1@ == SendActionView::LookUp(target_type + ":"@ + number::dec(target_id))
            &&& r->Ok_0.0@.message == model::trimmed(body.message@)
            &&& r->Ok_0.0@.reply_to == json::text_view(body.reply_to_id)
            &&& r->Ok_0.0@.at_user == json::text_view(body.at_user_id)
            &&& r->Ok_0.0@.target_type == target_type
            &&& r->Ok_0.0@.target_id == target_id
            &&& r->Ok_0.0@.sent == 0
            &&& r->Ok_0.0@.message_ids.len() == 0
        },
        allowed && model::trimmed(body.message@).len() == 0 ==> {
            r->Ok_0.1@ matches SendActionView::Respond(status, answer) && status == 400
                && tells_error(answer, "message must not be empty"@)
        },
        !allowed ==> r->Err_0.status == 401 && tells_error(r->Err_0.body@, "unauthorized"@),
{
    lemma_error("unauthorized"@);
    lemma_error("message must not be empty"@);
}

/// An error is answered with its status and its message.
pub proof fn law_errors_are_told(r: http::JsonResponse, status: u16, message: Seq<char>)
    requires
        http::is_error(r, status, message),
    ensures
        r.status == status,
        tells_error(r.body@, message),
{
    lemma_error(message);
}

} // verus!
