//! What holds of the answers of Alma.
use crate::alma;
use crate::json::JsonView;
use crate::text::facts;
use crate::text::model;
use crate::text::number;
use vstd::prelude::*;

verus! {

/// A new thread is the one that a successful answer names.
pub proof fn law_created_thread_is_named(status: u16, body: JsonView, id: Seq<char>)
    ensures
        200 <= status <= 299 && body.get("id"@) == Some(JsonView::Str(id)) ==> alma::created_id(
            Ok((status, body)),
        ) == Ok::<Seq<char>, Seq<char>>(id),
        200 <= status <= 299 && body.get("id"@) is None ==> alma::created_id(Ok((status, body)))
            is Err,
        status < 200 || status > 299 ==> alma::created_id(Ok((status, body))) is Err,
{
}

/// A thread exists if the answer is a success, and does not if it was not found; any other answer
/// tells nothing.
pub proof fn law_thread_exists_if_found(
    thread: Seq<char>,
    status: u16,
    body: JsonView,
    reason: Seq<char>,
)
    ensures
        200 <= status <= 299 ==> alma::existence(thread, Ok((status, body))) == Ok::<
            bool,
            Seq<char>,
        >(true),
        status == 404 ==> alma::existence(thread, Ok((status, body))) == Ok::<bool, Seq<char>>(
            false,
        ),
        (status < 200 || status > 299) && status != 404 ==> alma::existence(
            thread,
            Ok((status, body)),
        ) is Err,
        alma::existence(thread, Err(reason)) is Err,
{
}

/// The model of a thread is the one that it names, if it names one.
pub proof fn law_thread_names_its_model(
    thread: Seq<char>,
    status: u16,
    body: JsonView,
    model: Seq<char>,
)
    requires
        200 <= status <= 299,
    ensures
        body.get("model"@) == Some(JsonView::Str(model)) && model.len() > 0 ==> alma::thread_model(
            thread,
            Ok((status, body)),
        ) == Ok::<Option<Seq<char>>, Seq<char>>(Some(model)),
        body.get("model"@) is None || body.get("model"@) == Some(JsonView::Str(seq![]))
            ==> alma::thread_model(thread, Ok((status, body))) == Ok::<
            Option<Seq<char>>,
            Seq<char>,
        >(None),
{
}

/// The model that Alma is set to stands in its settings for chats.
pub proof fn law_settings_name_the_model(
    status: u16,
    body: JsonView,
    chat: JsonView,
    model: Seq<char>,
)
    requires
        200 <= status <= 299,
    ensures
        body.get("chat"@) == Some(chat) && chat.get("defaultModel"@) == Some(JsonView::Str(model))
            ==> alma::default_model(Ok((status, body))) == Ok::<Seq<char>, Seq<char>>(model),
        body.get("chat"@) is None ==> alma::default_model(Ok((status, body))) is Err,
        body.get("chat"@) == Some(chat) && chat.get("defaultModel"@) is None
            ==> alma::default_model(Ok((status, body))) is Err,
{
}

/// An answer without success is an error that tells its status.
pub proof fn law_failures_tell_their_status(thread: Seq<char>, status: u16, body: JsonView)
    requires
        status < 200 || status > 299,
    ensures
        ({
            let code = number::dec(status as int);
            &&& alma::created_id(Ok((status, body))) matches Err(e) && model::has_part(e, code)
            &&& alma::default_model(Ok((status, body))) matches Err(e) && model::has_part(e, code)
            &&& alma::thread_model(thread, Ok((status, body))) matches Err(e) && model::has_part(
                e,
                code,
            ) && model::has_part(e, thread)
            &&& status != 404 ==> (alma::existence(thread, Ok((status, body))) matches Err(e)
                && model::has_part(e, code) && model::has_part(e, thread))
        }),
{
    let code = number::dec(status as int);
    let none = Seq::<char>::empty();
    facts::lemma_part_between("Alma API returned status "@, code, none);
    assert("Alma API returned status "@ + code + none =~= "Alma API returned status "@ + code);
    facts::lemma_part_between("Settings API returned status "@, code, none);
    assert("Settings API returned status "@ + code + none =~= "Settings API returned status "@
        + code);
    let e = "Thread API returned status "@ + code + " for "@ + thread;
    facts::lemma_part_between("Thread API returned status "@, code, " for "@ + thread);
    assert(e =~= "Thread API returned status "@ + code + (" for "@ + thread));
    facts::lemma_part_between("Thread API returned status "@ + code + " for "@, thread, none);
    assert(e =~= "Thread API returned status "@ + code + " for "@ + thread + none);
}

/// A request that took too long is told of as such, in whatever case it says so; of any other failure
/// the reason is told.
pub proof fn law_timeouts_are_told(message: Seq<char>)
    ensures
        model::has_part(model::ascii_lowered(message), "timeout"@) || model::has_part(
            model::ascii_lowered(message),
            "timed out"@,
        ) ==> model::begins_with(alma::http_error(message), "HTTP request timed out after "@),
        !model::has_part(model::ascii_lowered(message), "timeout"@) && !model::has_part(
            model::ascii_lowered(message),
            "timed out"@,
        ) ==> model::finishes_with(alma::http_error(message), message),
{
    let e = alma::http_error(message);
    if model::has_part(model::ascii_lowered(message), "timeout"@) || model::has_part(
        model::ascii_lowered(message),
        "timed out"@,
    ) {
        let head = "HTTP request timed out after "@;
        assert(e.subrange(0, head.len() as int) =~= head);
    } else {
        assert(e.subrange(e.len() - message.len(), e.len() as int) =~= message);
    }
}

/// A request that took too long is told of with what was asked for; of any other failure the reason
/// is told.
pub proof fn law_failed_requests_are_told(thread: Seq<char>, reason: Seq<char>)
    ensures
        model::has_part(reason, "timed out"@) ==> {
            &&& alma::created_id(Err(reason)) == Err::<Seq<char>, Seq<char>>(
                "Create thread timed out after 180s"@,
            )
            &&& alma::default_model(Err(reason)) == Err::<Seq<char>, Seq<char>>(
                "Fetch settings timed out after 180s"@,
            )
            &&& alma::thread_model(thread, Err(reason)) == Err::<Option<Seq<char>>, Seq<char>>(
                "Fetch thread "@ + thread + " timed out after 180s"@,
            )
        },
        !model::has_part(reason, "timed out"@) ==> {
            &&& alma::created_id(Err(reason)) == Err::<Seq<char>, Seq<char>>(reason)
            &&& alma::default_model(Err(reason)) == Err::<Seq<char>, Seq<char>>(
                "Failed to fetch settings: "@ + reason,
            )
            &&& alma::thread_model(thread, Err(reason)) == Err::<Option<Seq<char>>, Seq<char>>(
                "Failed to fetch thread "@ + thread + ": "@ + reason,
            )
            &&& alma::existence(thread, Err(reason)) == Err::<bool, Seq<char>>(
                "Failed to fetch thread "@ + thread + ": "@ + reason,
            )
        },
{
    reveal_strlit("");
    reveal_strlit("s");
    reveal_strlit(" timed out after ");
    reveal_strlit(" timed out after 180s");
    reveal_strlit("Create thread");
    reveal_strlit("Create thread timed out after 180s");
    reveal_strlit("Fetch settings");
    reveal_strlit("Fetch settings timed out after 180s");
    reveal_with_fuel(number::dec_nat, 4);
    assert(number::dec_nat(180) =~= seq!['1', '8', '0']);
    let end = " timed out after "@ + number::dec_nat(180) + "s"@;
    assert(end =~= " timed out after 180s"@);
    assert("Create thread"@ + " timed out after "@ + number::dec_nat(180) + "s"@
        =~= "Create thread timed out after 180s"@);
    assert("Fetch settings"@ + " timed out after "@ + number::dec_nat(180) + "s"@
        =~= "Fetch settings timed out after 180s"@);
    let what = "Fetch thread "@ + thread;
    assert(what + " timed out after "@ + number::dec_nat(180) + "s"@ =~= what
        + " timed out after 180s"@);
    assert(""@ + reason =~= reason);
}

} // verus!
