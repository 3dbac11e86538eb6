//! What the HTTP server makes of a request before it is handled.
use crate::auth;
use crate::handlers::http;
use crate::handlers::http::JsonResponse;
use crate::json;
use crate::onebot::event;
use crate::text::model;
use crate::text::number;
use crate::text::ops;
use crate::text::table::TextMap;
use vstd::prelude::*;
use vstd::string::*;

verus! {

/// The greatest size of the body of a request, in bytes.
pub const MAX_HTTP_JSON_BODY_BYTES: usize = 65_536;

/// The names and values that a query string holds.
pub uninterp spec fn form_pairs(query: Seq<char>) -> Seq<(Seq<char>, Seq<char>)>;

/// `url::form_urlencoded::parse` reads the names and values of a query string, in their order.
#[verifier::external_body]
fn parse_form(query: &str) -> (r: Vec<(String, String)>)
    ensures
        event::pair_views(r@) == form_pairs(query@),
{
    url::form_urlencoded::parse(query.as_bytes()).into_owned().collect()
}

/// The last value under a name.
pub open spec fn last_value(pairs: Seq<(Seq<char>, Seq<char>)>, key: Seq<char>) -> Option<
    Seq<char>,
>
    decreases pairs.len(),
{
    if pairs.len() == 0 {
        None
    } else if pairs.last().0 == key {
        Some(pairs.last().1)
    } else {
        last_value(pairs.drop_last(), key)
    }
}

/// Whether a map holds the last value under each name.
pub open spec fn holds_last(
    m: Map<Seq<char>, String>,
    pairs: Seq<(Seq<char>, Seq<char>)>,
) -> bool {
    forall|key: Seq<char>| #[trigger] auth::value_in(m, key) == last_value(pairs, key)
}

/// The values of a query under their names. Of several values under one name the last counts.
pub fn collect_pairs(pairs: &Vec<(String, String)>) -> (r: TextMap<String>)
    ensures
        holds_last(r@, event::pair_views(pairs@)),
{
    let ghost all = event::pair_views(pairs@);
    let mut out: TextMap<String> = TextMap::new();
    let mut i: usize = 0;
    assert(all.take(0) =~= seq![]);
    while i < pairs.len()
        invariant
            i <= pairs@.len(),
            all == event::pair_views(pairs@),
            holds_last(out@, all.take(i as int)),
        decreases pairs@.len() - i,
    {
        let value = pairs[i].1.clone();
        let ghost before = out@;
        out.insert(&pairs[i].0, value);
        proof {
            let more = all.take(i + 1);
            assert(more.drop_last() =~= all.take(i as int));
            assert(more.last() == (pairs@[i as int].0@, pairs@[i as int].1@));
            assert forall|key: Seq<char>| #[trigger]
                auth::value_in(out@, key) == last_value(more, key) by {
                assert(auth::value_in(before, key) == last_value(all.take(i as int), key));
            }
        }
        i += 1;
    }
    assert(all.take(i as int) =~= all);
    out
}

/// The values of a query string under their names.
pub fn query_map(query: &str) -> (r: TextMap<String>)
    ensures
        holds_last(r@, form_pairs(query@)),
{
    collect_pairs(&parse_form(query))
}

/// The value of a header, if it is not blank.
pub open spec fn header_value(value: Option<Seq<char>>) -> Option<Seq<char>> {
    match value {
        Some(v) => if model::trimmed(v).len() > 0 {
            Some(model::trimmed(v))
        } else {
            None
        },
        None => None,
    }
}

/// The value of a header, if it is not blank.
pub fn header_string(value: Option<&str>) -> (r: Option<String>)
    ensures
        json::text_view(r) == header_value(json::str_view(value)),
{
    match value {
        Some(v) => {
            let v = ops::trim(v);
            if v.is_empty() {
                None
            } else {
                Some(v.to_owned())
            }
        },
        None => None,
    }
}

/// The id in the path of a request, if it is a number.
pub fn parse_route_id(param: Option<&str>) -> (r: Option<i64>)
    ensures
        match param {
            Some(text) => match number::parsed_i64(text@) {
                Ok(id) => r is Some && r->0 == id,
                Err(_) => r is None,
            },
            None => r is None,
        },
{
    match param {
        Some(text) => match number::parse_i64(text) {
            Ok(id) => Some(id),
            Err(_) => None,
        },
        None => None,
    }
}

/// Refuses a request that announces too long a body. A length that cannot be read says nothing.
pub fn check_announced_length(content_length: Option<&str>) -> (r: Result<(), JsonResponse>)
    ensures
        ({
            let too_long = match content_length {
                Some(text) => match number::parsed_unsigned(text@, usize::MAX as nat) {
                    Ok(n) => n > MAX_HTTP_JSON_BODY_BYTES,
                    Err(_) => false,
                },
                None => false,
            };
            match r {
                Ok(_) => !too_long,
                Err(e) => too_long && http::is_error(e, 413, "request body too large"@),
            }
        }),
{
    if let Some(text) = content_length {
        if let Ok(n) = number::parse_unsigned(text, usize::MAX as u64) {
            if n > MAX_HTTP_JSON_BODY_BYTES as u64 {
                return Err(http::json_error("request body too large", 413));
            }
        }
    }
    Ok(())
}

/// Refuses a body that is too long.
pub fn check_body(body: &str) -> (r: Result<(), JsonResponse>)
    ensures
        match r {
            Ok(_) => model::byte_len(body@) <= MAX_HTTP_JSON_BODY_BYTES,
            Err(e) => model::byte_len(body@) > MAX_HTTP_JSON_BODY_BYTES && http::is_error(
                e,
                413,
                "request body too large"@,
            ),
        },
{
    if ops::byte_length(body) > MAX_HTTP_JSON_BODY_BYTES {
        Err(http::json_error("request body too large", 413))
    } else {
        Ok(())
    }
}

} // verus!
