//! What the answers of Alma's REST API say.
use crate::json;
use crate::json::{Json, JsonView};
use crate::text::model;
use crate::text::number;
use crate::text::ops;
use vstd::prelude::*;
use vstd::string::*;

verus! {

/// How long an answer is waited for, in seconds.
pub const ALMA_REST_TIMEOUT_SECS: u64 = 180;

/// What went wrong with a request, in words: it took too long, or something else.
pub open spec fn http_error(message: Seq<char>) -> Seq<char> {
    let lower = model::ascii_lowered(message);
    if model::has_part(lower, "timeout"@) || model::has_part(lower, "timed out"@) {
        "HTTP request timed out after "@ + number::dec_nat(ALMA_REST_TIMEOUT_SECS as nat) + "s"@
    } else {
        "HTTP request failed: "@ + message
    }
}

/// What went wrong with a request, in words.
pub fn format_alma_http_error(message: &str) -> (r: String)
    ensures
        r@ == http_error(message@),
{
    let lower = ops::ascii_lowercase(message);
    if ops::contains(&lower, "timeout") || ops::contains(&lower, "timed out") {
        "HTTP request timed out after ".to_owned().concat(
            &number::dec_u64(ALMA_REST_TIMEOUT_SECS),
        ).concat("s")
    } else {
        "HTTP request failed: ".to_owned().concat(message)
    }
}

/// Whether a status tells of success.
pub open spec fn is_success(status: u16) -> bool {
    200 <= status < 300
}

/// An error of a request: that it took too long is said of what was asked for.
pub open spec fn told_error(what: Seq<char>, failed: Seq<char>, e: Seq<char>) -> Seq<char> {
    if model::has_part(e, "timed out"@) {
        what + " timed out after "@ + number::dec_nat(ALMA_REST_TIMEOUT_SECS as nat) + "s"@
    } else {
        failed + e
    }
}

fn tell_error(what: &str, failed: &str, e: &str) -> (r: String)
    ensures
        r@ == told_error(what@, failed@, e@),
{
    if ops::contains(e, "timed out") {
        what.to_owned().concat(" timed out after ").concat(
            &number::dec_u64(ALMA_REST_TIMEOUT_SECS),
        ).concat("s")
    } else {
        failed.to_owned().concat(e)
    }
}

/// Where threads are made.
pub fn threads_url(alma_api: &str) -> (r: String)
    ensures
        r@ == alma_api@ + "/api/threads"@,
{
    alma_api.to_owned().concat("/api/threads")
}

/// Where a thread is found.
pub fn thread_url(alma_api: &str, thread_id: &str) -> (r: String)
    ensures
        r@ == alma_api@ + "/api/threads/"@ + thread_id@,
{
    alma_api.to_owned().concat("/api/threads/").concat(thread_id)
}

/// Where the settings are found.
pub fn settings_url(alma_api: &str) -> (r: String)
    ensures
        r@ == alma_api@ + "/api/settings"@,
{
    alma_api.to_owned().concat("/api/settings")
}

/// The model of an answer: its status and its body, or what went wrong.
pub open spec fn answer_view(answer: Result<(u16, Json), String>) -> Result<
    (u16, JsonView),
    Seq<char>,
> {
    match answer {
        Ok((status, body)) => Ok((status, body@)),
        Err(e) => Err(e@),
    }
}

/// The model of a text, or of what went wrong.
pub open spec fn text_result(r: Result<String, String>) -> Result<Seq<char>, Seq<char>> {
    match r {
        Ok(s) => Ok(s@),
        Err(e) => Err(e@),
    }
}

/// The id of the thread that was made.
pub open spec fn created_id(answer: Result<(u16, JsonView), Seq<char>>) -> Result<
    Seq<char>,
    Seq<char>,
> {
    match answer {
        Err(e) => Err(told_error("Create thread"@, ""@, e)),
        Ok((status, body)) => if !is_success(status) {
            Err("Alma API returned status "@ + number::dec_nat(status as nat))
        } else {
            match body.str_at("id"@) {
                Some(id) => Ok(id),
                None => Err("Response missing 'id' field"@),
            }
        },
    }
}

/// The id of the thread that was made.
pub fn create_thread(answer: Result<(u16, Json), String>) -> (r: Result<String, String>)
    ensures
        text_result(r) == created_id(answer_view(answer)),
{
    match answer {
        Err(e) => Err(tell_error("Create thread", "", &e)),
        Ok((status, body)) => if status < 200 || status >= 300 {
            Err("Alma API returned status ".to_owned().concat(&number::dec_u64(status as u64)))
        } else {
            match body.str_at("id") {
                Some(id) => Ok(id.to_owned()),
                None => Err("Response missing 'id' field".to_owned()),
            }
        },
    }
}

/// What is said where a thread is not had.
pub open spec fn thread_status_error(status: u16, thread_id: Seq<char>) -> Seq<char> {
    "Thread API returned status "@ + number::dec_nat(status as nat) + " for "@ + thread_id
}

fn tell_thread_status(status: u16, thread_id: &str) -> (r: String)
    ensures
        r@ == thread_status_error(status, thread_id@),
{
    "Thread API returned status ".to_owned().concat(&number::dec_u64(status as u64)).concat(
        " for ",
    ).concat(thread_id)
}

/// The model of a thread, if it names one.
pub open spec fn thread_model(
    thread_id: Seq<char>,
    answer: Result<(u16, JsonView), Seq<char>>,
) -> Result<Option<Seq<char>>, Seq<char>> {
    match answer {
        Err(e) => Err(
            told_error(
                "Fetch thread "@ + thread_id,
                "Failed to fetch thread "@ + thread_id + ": "@,
                e,
            ),
        ),
        Ok((status, body)) => if !is_success(status) {
            Err(thread_status_error(status, thread_id))
        } else {
            match body.str_at("model"@) {
                Some(m) => Ok(
                    if m.len() > 0 {
                        Some(m)
                    } else {
                        None
                    },
                ),
                None => Ok(None),
            }
        },
    }
}

/// The model of a thread, if it names one.
pub fn fetch_thread_model(thread_id: &str, answer: Result<(u16, Json), String>) -> (r: Result<
    Option<String>,
    String,
>)
    ensures
        (match r {
            Ok(m) => Ok(json::text_view(m)),
            Err(e) => Err(e@),
        }) == thread_model(thread_id@, answer_view(answer)),
{
    match answer {
        Err(e) => Err(
            tell_error(
                &"Fetch thread ".to_owned().concat(thread_id),
                &"Failed to fetch thread ".to_owned().concat(thread_id).concat(": "),
                &e,
            ),
        ),
        Ok((status, body)) => if status < 200 || status >= 300 {
            Err(tell_thread_status(status, thread_id))
        } else {
            match body.str_at("model") {
                Some(m) => if m.is_empty() {
                    Ok(None)
                } else {
                    Ok(Some(m.to_owned()))
                },
                None => Ok(None),
            }
        },
    }
}

/// The model that Alma is set to.
pub open spec fn default_model(answer: Result<(u16, JsonView), Seq<char>>) -> Result<
    Seq<char>,
    Seq<char>,
> {
    match answer {
        Err(e) => Err(told_error("Fetch settings"@, "Failed to fetch settings: "@, e)),
        Ok((status, body)) => if !is_success(status) {
            Err("Settings API returned status "@ + number::dec_nat(status as nat))
        } else {
            let found = match body.get("chat"@) {
                Some(chat) => chat.str_at("defaultModel"@),
                None => None,
            };
            match found {
                Some(m) => Ok(m),
                None => Err("Settings missing 'chat.defaultModel' field"@),
            }
        },
    }
}

/// The model that Alma is set to.
pub fn fetch_default_model(answer: Result<(u16, Json), String>) -> (r: Result<String, String>)
    ensures
        text_result(r) == default_model(answer_view(answer)),
{
    match answer {
        Err(e) => Err(tell_error("Fetch settings", "Failed to fetch settings: ", &e)),
        Ok((status, body)) => {
            if status < 200 || status >= 300 {
                return Err(
                    "Settings API returned status ".to_owned().concat(
                        &number::dec_u64(status as u64),
                    ),
                );
            }
            if let Some(chat) = body.get("chat") {
                if let Some(m) = chat.str_at("defaultModel") {
                    return Ok(m.to_owned());
                }
            }
            Err("Settings missing 'chat.defaultModel' field".to_owned())
        },
    }
}

/// Whether a thread exists.
pub open spec fn existence(
    thread_id: Seq<char>,
    answer: Result<(u16, JsonView), Seq<char>>,
) -> Result<bool, Seq<char>> {
    match answer {
        Err(e) => Err(
            told_error(
                "Thread "@ + thread_id + " existence check"@,
                "Failed to fetch thread "@ + thread_id + ": "@,
                e,
            ),
        ),
        Ok((status, _)) => if is_success(status) {
            Ok(true)
        } else if status == 404 {
            Ok(false)
        } else {
            Err(thread_status_error(status, thread_id))
        },
    }
}

/// Whether a thread exists.
pub fn thread_exists(thread_id: &str, answer: Result<(u16, Json), String>) -> (r: Result<
    bool,
    String,
>)
    ensures
        (match r {
            Ok(b) => Ok(b),
            Err(e) => Err(e@),
        }) == existence(thread_id@, answer_view(answer)),
{
    match answer {
        Err(e) => Err(
            tell_error(
                &"Thread ".to_owned().concat(thread_id).concat(" existence check"),
                &"Failed to fetch thread ".to_owned().concat(thread_id).concat(": "),
                &e,
            ),
        ),
        Ok((status, _)) => if 200 <= status && status < 300 {
            Ok(true)
        } else if status == 404 {
            Ok(false)
        } else {
            Err(tell_thread_status(status, thread_id))
        },
    }
}

} // verus!
