//! What holds of the frames that OneBot clients send.
use super::ws;
use super::ws::IncomingView;
use crate::json::JsonView;
use crate::text::facts;
use crate::text::model;
use crate::text::number;
use vstd::prelude::*;

verus! {

proof fn lemma_kinds()
    ensures
        "message"@ != "meta_event"@,
        "message"@ != "notice"@,
        "message"@ != "request"@,
        "meta_event"@ != "notice"@,
        "meta_event"@ != "request"@,
        "notice"@ != "request"@,
        "heartbeat"@ != "lifecycle"@,
        "group_recall"@ != "friend_recall"@,
{
    reveal_strlit("message");
    reveal_strlit("meta_event");
    reveal_strlit("notice");
    reveal_strlit("request");
    reveal_strlit("heartbeat");
    reveal_strlit("lifecycle");
    reveal_strlit("group_recall");
    reveal_strlit("friend_recall");
    assert("message"@.len() == 7);
    assert("meta_event"@.len() == 10);
    assert("notice"@.len() == 6);
    assert("request"@.len() == 7);
    assert("heartbeat"@.len() == 9);
    assert("lifecycle"@.len() == 9);
    assert("group_recall"@.len() == 12);
    assert("friend_recall"@.len() == 13);
    assert("message"@[0] != "request"@[0]);
    assert("heartbeat"@[0] != "lifecycle"@[0]);
}

/// Whether JSON has a text under a key.
pub open spec fn says(v: JsonView, key: Seq<char>, text: Seq<char>) -> bool {
    v.get(key) == Some(JsonView::Str(text))
}

/// An answer to a call is told by its echo and its return code, whatever else it says.
pub proof fn law_answers_are_told(v: JsonView, echo: JsonView, code: JsonView)
    ensures
        v.get("echo"@) == Some(echo) && v.get("retcode"@) == Some(code) ==> ws::incoming(v)
            is Answer && !ws::is_event(v),
        v.get("echo"@) is None || v.get("retcode"@) is None ==> !(ws::incoming(v) is Answer),
{
}

/// An event is what it says it is.
pub proof fn law_events_are_told(v: JsonView, kind: Seq<char>)
    requires
        v.get("echo"@) is None || v.get("retcode"@) is None,
    ensures
        says(v, "post_type"@, "message"@) ==> ws::incoming(v) is Message,
        says(v, "post_type"@, "meta_event"@) && says(v, "meta_event_type"@, "heartbeat"@)
            ==> ws::incoming(v) is Heartbeat,
        says(v, "post_type"@, "meta_event"@) && says(v, "meta_event_type"@, "lifecycle"@) && says(
            v,
            "sub_type"@,
            kind,
        ) ==> ws::incoming(v) == IncomingView::Lifecycle(kind),
        says(v, "post_type"@, "notice"@) && says(v, "notice_type"@, "group_recall"@)
            ==> ws::incoming(v) is GroupRecall,
        says(v, "post_type"@, "notice"@) && says(v, "notice_type"@, "friend_recall"@)
            ==> ws::incoming(v) is FriendRecall,
        says(v, "post_type"@, "notice"@) && says(v, "notice_type"@, kind) && kind
            != "group_recall"@ && kind != "friend_recall"@ ==> ws::incoming(v)
            == IncomingView::Notice(kind),
        says(v, "post_type"@, "request"@) ==> ws::incoming(v) is Request,
        says(v, "post_type"@, kind) && kind != "message"@ && kind != "meta_event"@ && kind
            != "notice"@ && kind != "request"@ ==> ws::incoming(v) == IncomingView::Unknown(kind),
        says(v, "post_type"@, kind) ==> ws::is_event(v),
        v.get("post_type"@) is None ==> ws::incoming(v) is Nothing && !ws::is_event(v),
{
    lemma_kinds();
}

/// Whether JSON has a number under a key.
pub open spec fn counts(v: JsonView, key: Seq<char>, n: int) -> bool {
    v.get(key) matches Some(JsonView::Number(_, Some(value))) && value == n
}

/// A recalled message of a group is told of with its id, the group, its sender, and who recalled it if
/// that was not the sender. Nothing is told where one of them is missing.
pub proof fn law_group_recall_is_told(
    v: JsonView,
    group: int,
    user: int,
    operator: int,
    message: int,
)
    ensures
        counts(v, "group_id"@, group) && counts(v, "user_id"@, user) && counts(
            v,
            "operator_id"@,
            operator,
        ) && counts(v, "message_id"@, message) ==> {
            &&& ws::group_recall(v) is Ok
            &&& user == operator ==> model::begins_with(
                ws::group_recall(v)->Ok_0,
                "[Recall] User "@ + number::dec(user) + " recalled message "@ + number::dec(message),
            )
            &&& user != operator ==> model::begins_with(
                ws::group_recall(v)->Ok_0,
                "[Recall] Admin "@ + number::dec(operator) + " recalled message "@ + number::dec(
                    message,
                ) + " from user "@ + number::dec(user),
            )
            &&& model::finishes_with(ws::group_recall(v)->Ok_0, " in group "@ + number::dec(group))
        },
        v.get("group_id"@) is None || v.get("user_id"@) is None || v.get("operator_id"@) is None
            || v.get("message_id"@) is None ==> ws::group_recall(v) is Err,
{
    if counts(v, "group_id"@, group) && counts(v, "user_id"@, user) && counts(
        v,
        "operator_id"@,
        operator,
    ) && counts(v, "message_id"@, message) {
        let told = ws::group_recall(v)->Ok_0;
        let end = " in group "@ + number::dec(group);
        let head = if user == operator {
            "[Recall] User "@ + number::dec(user) + " recalled message "@ + number::dec(message)
        } else {
            "[Recall] Admin "@ + number::dec(operator) + " recalled message "@ + number::dec(
                message,
            ) + " from user "@ + number::dec(user)
        };
        assert(told =~= head + end);
        assert(told.subrange(0, head.len() as int) =~= head);
        assert(told.subrange(told.len() - end.len(), told.len() as int) =~= end);
    }
}

/// A recalled message of a private chat is told of with its sender and its id.
pub proof fn law_friend_recall_is_told(v: JsonView, user: int, message: int)
    ensures
        counts(v, "user_id"@, user) && counts(v, "message_id"@, message) ==> {
            &&& ws::friend_recall(v) is Ok
            &&& model::has_part(ws::friend_recall(v)->Ok_0, "User "@ + number::dec(user))
            &&& model::finishes_with(
                ws::friend_recall(v)->Ok_0,
                "private message "@ + number::dec(message),
            )
        },
        v.get("user_id"@) is None || v.get("message_id"@) is None ==> ws::friend_recall(v) is Err,
{
    if counts(v, "user_id"@, user) && counts(v, "message_id"@, message) {
        let told = ws::friend_recall(v)->Ok_0;
        reveal_strlit("[Recall] User ");
        reveal_strlit("User ");
        reveal_strlit(" recalled private message ");
        reveal_strlit("private message ");
        let who = "User "@ + number::dec(user);
        let end = "private message "@ + number::dec(message);
        let rest = " recalled private message "@ + number::dec(message);
        let p = "[Recall] User "@;
        let q = " recalled private message "@;
        assert(p =~= p.take(9) + "User "@);
        assert(q =~= q.take(10) + "private message "@);
        assert(told =~= p.take(9) + who + rest);
        facts::lemma_part_between(p.take(9), who, rest);
        assert(told.subrange(told.len() - end.len(), told.len() as int) =~= end);
    }
}

} // verus!
