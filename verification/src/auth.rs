//! Who may connect to the bridge, and who may give it commands.
use crate::json;
use crate::text::model;
use crate::text::ops;
use crate::text::table::TextMap;
use vstd::prelude::*;
use vstd::string::*;

verus! {

/// The address that a request came from.
#[derive(Clone, Copy, PartialEq, Eq, Structural)]
pub enum RemoteAddr {
    /// The four numbers of an address.
    V4(u8, u8, u8, u8),
    /// The 128 bits of an address.
    V6(u128),
}

impl RemoteAddr {
    /// Whether the address is one of the machine itself.
    pub open spec fn names_loopback(self) -> bool {
        match self {
            RemoteAddr::V4(a, _, _, _) => a == 127,
            RemoteAddr::V6(bits) => bits == 1,
        }
    }

    /// Whether the address is one of the machine itself.
    pub fn is_loopback(&self) -> (r: bool)
        ensures
            r == self.names_loopback(),
    {
        match self {
            RemoteAddr::V4(a, _, _, _) => *a == 127,
            RemoteAddr::V6(bits) => *bits == 1,
        }
    }
}

/// The value of a parameter of a query.
pub open spec fn value_in(query: Map<Seq<char>, String>, key: Seq<char>) -> Option<Seq<char>> {
    if query.dom().contains(key) {
        Some(query[key]@)
    } else {
        None
    }
}

/// The token that is expected, if one is: a blank one is none.
pub open spec fn required_token(expected_token: Option<Seq<char>>) -> Option<Seq<char>> {
    match expected_token {
        Some(t) => if model::trimmed(t).len() > 0 {
            Some(model::trimmed(t))
        } else {
            None
        },
        None => None,
    }
}

fn require_token(expected_token: Option<&str>) -> (r: Option<&str>)
    ensures
        json::str_view(r) == required_token(json::str_view(expected_token)),
{
    match expected_token {
        Some(t) => {
            let t = ops::trim(t);
            if t.is_empty() {
                None
            } else {
                Some(t)
            }
        },
        None => None,
    }
}

/// The token in an authorization header: what follows the name of a scheme, or the whole where
/// there is no space in it.
pub open spec fn header_token(header: Seq<char>) -> Option<Seq<char>> {
    let h = model::trimmed(header);
    if model::begins_with(h, "Bearer "@) {
        Some(h.skip("Bearer "@.len() as int))
    } else if model::begins_with(h, "bearer "@) {
        Some(h.skip("bearer "@.len() as int))
    } else if model::begins_with(h, "Token "@) {
        Some(h.skip("Token "@.len() as int))
    } else if model::begins_with(h, "token "@) {
        Some(h.skip("token "@.len() as int))
    } else if model::has_part(h, " "@) {
        None
    } else {
        Some(h)
    }
}

fn strip_scheme<'a>(header: &'a str, scheme: &str) -> (r: Option<&'a str>)
    ensures
        json::str_view(r) == (if model::begins_with(header@, scheme@) {
            Some(header@.skip(scheme@.len() as int))
        } else {
            None
        }),
{
    if ops::starts_with(header, scheme) {
        let n: usize = header.unicode_len();
        let rest = header.substring_char(scheme.unicode_len(), n);
        assert(rest@ =~= header@.skip(scheme@.len() as int));
        Some(rest)
    } else {
        None
    }
}

fn extract_authorization_token(header: &str) -> (r: Option<&str>)
    ensures
        json::str_view(r) == header_token(header@),
{
    let trimmed = ops::trim(header);
    if let Some(t) = strip_scheme(trimmed, "Bearer ") {
        return Some(t);
    }
    if let Some(t) = strip_scheme(trimmed, "bearer ") {
        return Some(t);
    }
    if let Some(t) = strip_scheme(trimmed, "Token ") {
        return Some(t);
    }
    if let Some(t) = strip_scheme(trimmed, "token ") {
        return Some(t);
    }
    if ops::contains(trimmed, " ") {
        None
    } else {
        Some(trimmed)
    }
}

/// The token that a request brings: in its header, else in its query.
pub open spec fn brought_token(
    auth_header: Option<Seq<char>>,
    query: Map<Seq<char>, String>,
) -> Option<Seq<char>> {
    let in_header = match auth_header {
        Some(h) => header_token(h),
        None => None,
    };
    if in_header is Some {
        in_header
    } else if value_in(query, "access_token"@) is Some {
        value_in(query, "access_token"@)
    } else {
        value_in(query, "token"@)
    }
}

/// Whether a request brings a token.
pub open spec fn brings(
    expected: Seq<char>,
    auth_header: Option<Seq<char>>,
    query: Map<Seq<char>, String>,
) -> bool {
    match brought_token(auth_header, query) {
        Some(t) => model::trimmed(t) == expected,
        None => false,
    }
}

fn token_matches(expected: &str, auth_header: Option<&str>, query: &TextMap<String>) -> (r: bool)
    ensures
        r == brings(expected@, json::str_view(auth_header), query@),
{
    let in_header = match auth_header {
        Some(h) => extract_authorization_token(h),
        None => None,
    };
    let token = match in_header {
        Some(t) => Some(t),
        None => match query.get("access_token") {
            Some(t) => Some(t.as_str()),
            None => match query.get("token") {
                Some(t) => Some(t.as_str()),
                None => None,
            },
        },
    };
    match token {
        Some(t) => ops::same(ops::trim(t), expected),
        None => false,
    }
}

/// Whether a OneBot client may connect: with the token that is set, or anyhow where none is.
pub open spec fn may_connect(
    expected_token: Option<Seq<char>>,
    auth_header: Option<Seq<char>>,
    query: Map<Seq<char>, String>,
) -> bool {
    match required_token(expected_token) {
        Some(expected) => brings(expected, auth_header, query),
        None => true,
    }
}

/// Whether a OneBot client may connect.
pub fn is_ws_authorized(
    expected_token: Option<&str>,
    auth_header: Option<&str>,
    query: &TextMap<String>,
) -> (r: bool)
    ensures
        r == may_connect(json::str_view(expected_token), json::str_view(auth_header), query@),
{
    match require_token(expected_token) {
        Some(expected) => token_matches(expected, auth_header, query),
        None => true,
    }
}

/// Whether a command is obeyed: from the machine itself each is, and from elsewhere one with the
/// token that is set.
pub open spec fn may_command(
    expected_token: Option<Seq<char>>,
    auth_header: Option<Seq<char>>,
    query: Map<Seq<char>, String>,
    remote: Option<RemoteAddr>,
) -> bool {
    (remote matches Some(addr) && addr.names_loopback()) || (match required_token(expected_token) {
        Some(expected) => brings(expected, auth_header, query),
        None => false,
    })
}

/// Whether a command is obeyed.
pub fn is_http_command_authorized(
    expected_token: Option<&str>,
    auth_header: Option<&str>,
    query: &TextMap<String>,
    remote: Option<RemoteAddr>,
) -> (r: bool)
    ensures
        r == may_command(
            json::str_view(expected_token),
            json::str_view(auth_header),
            query@,
            remote,
        ),
{
    if let Some(addr) = remote {
        if addr.is_loopback() {
            return true;
        }
    }
    match require_token(expected_token) {
        Some(expected) => token_matches(expected, auth_header, query),
        None => false,
    }
}

/// A command from another machine is obeyed only where a token is set and the request brings it.
pub proof fn law_remote_command_needs_the_token(
    expected_token: Option<Seq<char>>,
    auth_header: Option<Seq<char>>,
    query: Map<Seq<char>, String>,
    remote: Option<RemoteAddr>,
)
    requires
        !(remote matches Some(addr) && addr.names_loopback()),
        may_command(expected_token, auth_header, query, remote),
    ensures
        required_token(expected_token) is Some,
        brought_token(auth_header, query) is Some,
        model::trimmed(brought_token(auth_header, query)->0) == required_token(expected_token)->0,
{
}

/// Who may give commands from another machine may also connect.
pub proof fn law_commander_may_connect(
    expected_token: Option<Seq<char>>,
    auth_header: Option<Seq<char>>,
    query: Map<Seq<char>, String>,
)
    requires
        may_command(expected_token, auth_header, query, None),
    ensures
        may_connect(expected_token, auth_header, query),
{
}

} // verus!
