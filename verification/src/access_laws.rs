//! What holds of who may connect and command, of requests, and of settings.
use crate::auth;
use crate::auth::RemoteAddr;
use crate::config;
use crate::server;
use crate::text::facts;
use crate::text::model;
use crate::text::number;
use vstd::prelude::*;

verus! {

/// Whether a text is a token: it is not empty, and has no whitespace.
pub open spec fn is_token(t: Seq<char>) -> bool {
    t.len() > 0 && forall|i: int| 0 <= i < t.len() ==> !model::is_whitespace(#[trigger] t[i])
}

proof fn lemma_trimmed_same(t: Seq<char>)
    requires
        t.len() > 0,
        !model::is_whitespace(t[0]),
        !model::is_whitespace(t.last()),
    ensures
        model::trimmed(t) == t,
{
    let none = Seq::<char>::empty();
    facts::lemma_trimmed_core(none, t, none);
    assert(none + t + none =~= t);
}

proof fn lemma_schemes()
    ensures
        "Bearer "@ =~= seq!['B', 'e', 'a', 'r', 'e', 'r', ' '],
        "bearer "@ =~= seq!['b', 'e', 'a', 'r', 'e', 'r', ' '],
        "Token "@ =~= seq!['T', 'o', 'k', 'e', 'n', ' '],
        "token "@ =~= seq!['t', 'o', 'k', 'e', 'n', ' '],
        " "@ =~= seq![' '],
{
    reveal_strlit("Bearer ");
    reveal_strlit("bearer ");
    reveal_strlit("Token ");
    reveal_strlit("token ");
    reveal_strlit(" ");
}

proof fn lemma_other_start(s: Seq<char>, pat: Seq<char>, k: int)
    requires
        0 <= k < s.len(),
        k < pat.len(),
        s[k] != pat[k],
    ensures
        !model::begins_with(s, pat),
{
    if model::begins_with(s, pat) {
        assert(s.subrange(0, pat.len() as int)[k] == s[k]);
    }
}

proof fn lemma_no_space(t: Seq<char>, pat: Seq<char>, k: int)
    requires
        is_token(t),
        0 <= k < pat.len(),
        pat[k] == ' ',
    ensures
        !model::has_part(t, pat),
{
    if model::has_part(t, pat) {
        let i = choose|i: int| model::occurs_at(t, pat, i);
        assert(t.subrange(i, i + pat.len())[k] == t[i + k]);
        assert(model::is_whitespace(' '));
    }
}

/// What a header of a scheme and a token brings.
proof fn lemma_scheme_header(scheme: Seq<char>, t: Seq<char>)
    requires
        is_token(t),
        scheme.len() > 0,
        !model::is_whitespace(scheme[0]),
    ensures
        model::trimmed(scheme + t) == scheme + t,
        model::begins_with(scheme + t, scheme),
        (scheme + t).skip(scheme.len() as int) == t,
{
    let h = scheme + t;
    assert(h.last() == t[t.len() - 1]);
    lemma_trimmed_same(h);
    assert(h.subrange(0, scheme.len() as int) =~= scheme);
    assert(h.skip(scheme.len() as int) =~= t);
}

/// A header brings its token, behind the name of a scheme or alone.
pub proof fn law_header_brings_its_token(t: Seq<char>)
    requires
        is_token(t),
    ensures
        auth::header_token("Bearer "@ + t) == Some(t),
        auth::header_token("bearer "@ + t) == Some(t),
        auth::header_token("Token "@ + t) == Some(t),
        auth::header_token("token "@ + t) == Some(t),
        auth::header_token(t) == Some(t),
        auth::header_token("Basic "@ + t) is None,
{
    lemma_schemes();
    lemma_scheme_header("Bearer "@, t);
    lemma_scheme_header("bearer "@, t);
    lemma_scheme_header("Token "@, t);
    lemma_scheme_header("token "@, t);
    lemma_other_start("bearer "@ + t, "Bearer "@, 0);
    lemma_other_start("Token "@ + t, "Bearer "@, 0);
    lemma_other_start("Token "@ + t, "bearer "@, 0);
    lemma_other_start("token "@ + t, "Bearer "@, 0);
    lemma_other_start("token "@ + t, "bearer "@, 0);
    lemma_other_start("token "@ + t, "Token "@, 0);
    assert(t.last() == t[t.len() - 1]);
    lemma_trimmed_same(t);
    lemma_no_space(t, "Bearer "@, 6);
    lemma_no_space(t, "bearer "@, 6);
    lemma_no_space(t, "Token "@, 5);
    lemma_no_space(t, "token "@, 5);
    lemma_no_space(t, " "@, 0);
    reveal_strlit("Basic ");
    lemma_scheme_header("Basic "@, t);
    let b = "Basic "@ + t;
    lemma_other_start(b, "Bearer "@, 1);
    lemma_other_start(b, "bearer "@, 0);
    lemma_other_start(b, "Token "@, 0);
    lemma_other_start(b, "token "@, 0);
    assert(b.subrange(5, 6) =~= " "@);
    assert(model::occurs_at(b, " "@, 5));
}

/// Who brings the token that is set may connect and command, and who brings another may not. A
/// request brings the token in its header, or else in its query.
pub proof fn law_token_decides(
    expected: Seq<char>,
    brought: Seq<char>,
    query: Map<Seq<char>, String>,
    far: Option<RemoteAddr>,
)
    requires
        is_token(expected),
        is_token(brought),
        far matches Some(addr) ==> !addr.names_loopback(),
    ensures
        auth::may_connect(Some(expected), Some("Bearer "@ + brought), query) == (expected
            == brought),
        auth::may_connect(Some(expected), Some(brought), query) == (expected == brought),
        auth::may_command(Some(expected), Some("Bearer "@ + brought), query, far) == (expected
            == brought),
        query.dom().contains("access_token"@) && query["access_token"@]@ == brought ==> {
            &&& auth::may_connect(Some(expected), None, query) == (expected == brought)
            &&& auth::may_command(Some(expected), None, query, far) == (expected == brought)
        },
        !query.dom().contains("access_token"@) && query.dom().contains("token"@)
            && query["token"@]@ == brought ==> {
            &&& auth::may_connect(Some(expected), None, query) == (expected == brought)
            &&& auth::may_command(Some(expected), None, query, far) == (expected == brought)
        },
        !query.dom().contains("access_token"@) && !query.dom().contains("token"@) ==> {
            &&& !auth::may_connect(Some(expected), None, query)
            &&& !auth::may_command(Some(expected), None, query, far)
        },
{
    law_header_brings_its_token(brought);
    assert(expected.last() == expected[expected.len() - 1]);
    assert(brought.last() == brought[brought.len() - 1]);
    lemma_trimmed_same(expected);
    lemma_trimmed_same(brought);
}

/// Without a token, or with a blank one, everyone may connect, and commands are obeyed from the
/// machine itself only. From there they always are.
pub proof fn law_own_machine_commands(
    token: Option<Seq<char>>,
    header: Option<Seq<char>>,
    query: Map<Seq<char>, String>,
    remote: RemoteAddr,
    b: u8,
    c: u8,
    d: u8,
)
    ensures
        token is None || model::trimmed(token->0).len() == 0 ==> {
            &&& auth::may_connect(token, header, query)
            &&& !auth::may_command(token, header, query, None)
            &&& !remote.names_loopback() ==> !auth::may_command(token, header, query, Some(remote))
        },
        auth::may_command(token, header, query, Some(RemoteAddr::V4(127, b, c, d))),
        auth::may_command(token, header, query, Some(RemoteAddr::V6(1))),
        !RemoteAddr::V4(10, b, c, d).names_loopback(),
{
}

/// The last value under a name counts, and the values under other names are of no account.
pub proof fn law_last_value_counts(
    pairs: Seq<(Seq<char>, Seq<char>)>,
    key: Seq<char>,
    value: Seq<char>,
    other: Seq<char>,
)
    ensures
        server::last_value(pairs.push((key, value)), key) == Some(value),
        other != key ==> server::last_value(pairs.push((key, value)), other) == server::last_value(
            pairs,
            other,
        ),
        server::last_value(seq![], key) is None,
{
    assert(pairs.push((key, value)).drop_last() =~= pairs);
}

/// A header counts without the whitespace at its ends, and a blank one does not count.
pub proof fn law_blank_header_is_none(value: Seq<char>)
    ensures
        model::trimmed(value).len() > 0 ==> server::header_value(Some(value)) == Some(
            model::trimmed(value),
        ),
        model::is_blank(value) ==> server::header_value(Some(value)) is None,
        server::header_value(None) is None,
{
    if model::is_blank(value) {
        let a = facts::lemma_trimmed_place(value);
        facts::lemma_trimmed_ends(value);
        if model::trimmed(value).len() > 0 {
            assert(model::trimmed(value)[0] == value[a]);
        }
    }
}

/// A number is set by the environment, if it can be read there, else by the file, else by default.
pub proof fn law_number_is_set(n: nat, file: Option<nat>, text: Seq<char>, default: nat, max: nat)
    requires
        n <= max,
    ensures
        config::number_setting(Some(number::dec(n as int)), file, default, max) == n,
        file is Some ==> config::number_setting(None, file, default, max) == file->0,
        config::number_setting(None, None, default, max) == default,
        model::trimmed(text).len() == 0 ==> config::number_setting(Some(text), file, default, max)
            == config::number_setting(None, file, default, max),
{
    number::lemma_parse_of_dec_unsigned(n, max);
    number::lemma_dec_nat_digits(n);
    let d = number::dec_nat(n);
    assert(number::is_digit(d[0]));
    assert(number::is_digit(d[d.len() - 1]));
    lemma_trimmed_same(d);
}

/// A switch is set by the words for on and off, in whatever case; other words set nothing.
pub proof fn law_switch_is_set(text: Seq<char>, file: Option<bool>, default: bool)
    requires
        text.len() > 0,
        !model::is_whitespace(text[0]),
        !model::is_whitespace(text.last()),
    ensures
        ({
            let word = model::ascii_lowered(text);
            let on = word == "true"@ || word == "1"@ || word == "yes"@ || word == "y"@ || word
                == "on"@;
            let off = word == "false"@ || word == "0"@ || word == "no"@ || word == "n"@ || word
                == "off"@;
            &&& on ==> config::bool_setting(Some(text), file, default)
            &&& off ==> !config::bool_setting(Some(text), file, default)
            &&& !on && !off ==> config::bool_setting(Some(text), file, default)
                == config::bool_setting(None, file, default)
        }),
        file is Some ==> config::bool_setting(None, file, default) == file->0,
        config::bool_setting(None, None, default) == default,
{
    lemma_trimmed_same(text);
    lemma_words();
}

proof fn lemma_words()
    ensures
        "true"@ != "false"@,
        "true"@ != "0"@,
        "true"@ != "no"@,
        "true"@ != "n"@,
        "true"@ != "off"@,
        "1"@ != "false"@,
        "1"@ != "0"@,
        "1"@ != "no"@,
        "1"@ != "n"@,
        "1"@ != "off"@,
        "yes"@ != "false"@,
        "yes"@ != "0"@,
        "yes"@ != "no"@,
        "yes"@ != "n"@,
        "yes"@ != "off"@,
        "y"@ != "false"@,
        "y"@ != "0"@,
        "y"@ != "no"@,
        "y"@ != "n"@,
        "y"@ != "off"@,
        "on"@ != "false"@,
        "on"@ != "0"@,
        "on"@ != "no"@,
        "on"@ != "n"@,
        "on"@ != "off"@,
{
    reveal_strlit("true");
    reveal_strlit("false");
    reveal_strlit("0");
    reveal_strlit("no");
    reveal_strlit("n");
    reveal_strlit("off");
    reveal_strlit("1");
    reveal_strlit("yes");
    reveal_strlit("y");
    reveal_strlit("on");
    assert("true"@.len() == 4);
    assert("false"@.len() == 5);
    assert("0"@.len() == 1);
    assert("no"@.len() == 2);
    assert("n"@.len() == 1);
    assert("off"@.len() == 3);
    assert("1"@.len() == 1);
    assert("yes"@.len() == 3);
    assert("y"@.len() == 1);
    assert("on"@.len() == 2);
    assert("1"@[0] != "0"@[0]);
    assert("1"@[0] != "n"@[0]);
    assert("yes"@[0] != "off"@[0]);
    assert("y"@[0] != "0"@[0]);
    assert("y"@[0] != "n"@[0]);
    assert("on"@[0] != "no"@[0]);
}

/// A text is set by the environment, else by the file; a blank token is none.
pub proof fn law_text_is_set(text: Seq<char>, file: Option<Seq<char>>, default: Seq<char>)
    ensures
        config::text_setting(Some(text), file) == Some(text),
        config::text_setting(None, file) == file,
        config::or_default(Some(text), default) == text,
        config::or_default(None, default) == default,
        model::trimmed(text).len() > 0 ==> config::token_setting(Some(text)) == Some(
            model::trimmed(text),
        ),
        model::trimmed(text).len() == 0 ==> config::token_setting(Some(text)) is None,
        config::token_setting(None) is None,
{
}

/// Whitespace around a header, around its token, or around the token that is set is of no account.
pub proof fn law_blanks_around_tokens(
    t: Seq<char>,
    left: Seq<char>,
    right: Seq<char>,
    query: Map<Seq<char>, String>,
)
    requires
        is_token(t),
        model::is_blank(left),
        model::is_blank(right),
    ensures
        auth::may_connect(Some(t), Some(left + ("Bearer "@ + t) + right), query),
        auth::may_connect(Some(t), Some("Bearer "@ + left + t), query),
        auth::may_connect(Some(left + t + right), Some("Bearer "@ + t), query),
{
    law_header_brings_its_token(t);
    lemma_schemes();
    let none = Seq::<char>::empty();
    let h = "Bearer "@ + t;
    assert(t.last() == t[t.len() - 1]);
    assert(h.last() == t.last());
    lemma_trimmed_same(t);
    lemma_trimmed_same(h);
    facts::lemma_trimmed_core(left, h, right);
    facts::lemma_trimmed_core(left, t, right);
    let wide = "Bearer "@ + left + t;
    assert(wide.last() == t.last());
    lemma_trimmed_same(wide);
    assert(wide.subrange(0, 7) =~= "Bearer "@);
    assert(wide.skip(7) =~= left + t + none);
    facts::lemma_trimmed_core(left, t, none);
}

/// A query holds the last value under each name, and nothing under other names.
pub proof fn law_query_holds_its_values(
    m: Map<Seq<char>, String>,
    pairs: Seq<(Seq<char>, Seq<char>)>,
    key: Seq<char>,
    value: Seq<char>,
    other: Seq<char>,
)
    requires
        server::holds_last(m, pairs.push((key, value))),
    ensures
        m.dom().contains(key),
        m[key]@ == value,
        (forall|i: int| 0 <= i < pairs.len() ==> (#[trigger] pairs[i]).0 != other) && other != key
            ==> !m.dom().contains(other),
{
    law_last_value_counts(pairs, key, value, other);
    assert(auth::value_in(m, key) == Some(value));
    if (forall|i: int| 0 <= i < pairs.len() ==> (#[trigger] pairs[i]).0 != other) && other != key {
        lemma_no_value(pairs, other);
        assert(auth::value_in(m, other) is None);
    }
}

proof fn lemma_no_value(pairs: Seq<(Seq<char>, Seq<char>)>, key: Seq<char>)
    requires
        forall|i: int| 0 <= i < pairs.len() ==> (#[trigger] pairs[i]).0 != key,
    ensures
        server::last_value(pairs, key) is None,
    decreases pairs.len(),
{
    if pairs.len() > 0 {
        let some = pairs.drop_last();
        assert forall|i: int| 0 <= i < some.len() implies (#[trigger] some[i]).0 != key by {
            assert(some[i] == pairs[i]);
        }
        lemma_no_value(some, key);
        assert(pairs[pairs.len() - 1].0 != key);
    }
}

} // verus!
