//! What holds of what shows of a reply.
use super::visible_laws;
use super::visible_text;
use crate::text::facts;
use crate::text::model;
use vstd::prelude::*;

verus! {

/// Whether a text has neither a tag nor a carriage return.
pub open spec fn is_plain(s: Seq<char>) -> bool {
    !s.contains('<') && !s.contains('\r')
}

/// Whether every `<` of a text is followed by a character, and none by `c`.
spec fn never_opens(s: Seq<char>, c: char) -> bool {
    forall|i: int| 0 <= i < s.len() && #[trigger] s[i] == '<' ==> i + 1 < s.len() && s[i + 1] != c
}

proof fn lemma_plain(s: Seq<char>, c: char)
    requires
        is_plain(s),
    ensures
        never_opens(s, c),
        forall|i: int| 0 <= i < s.len() ==> #[trigger] s[i] != '\r' && s[i] != '<',
{
    assert forall|i: int| 0 <= i < s.len() implies #[trigger] s[i] != '\r' && s[i] != '<' by {
        assert(s.contains(s[i]));
    }
}

proof fn lemma_never_opens_add(a: Seq<char>, b: Seq<char>, c: char)
    requires
        never_opens(a, c),
        never_opens(b, c),
    ensures
        never_opens(a + b, c),
{
    let s = a + b;
    assert forall|i: int| 0 <= i < s.len() && #[trigger] s[i] == '<' implies i + 1 < s.len() && s[i
        + 1] != c by {
        if i < a.len() {
            assert(a[i] == '<');
            assert(s[i + 1] == a[i + 1]);
        } else {
            assert(b[i - a.len()] == '<');
            assert(s[i + 1] == b[i - a.len() + 1]);
        }
    }
}

proof fn lemma_lacks_tag(s: Seq<char>, tag: Seq<char>)
    requires
        tag.len() >= 2,
        tag[0] == '<',
        forall|i: int| 0 <= i < s.len() - 1 && #[trigger] s[i] == '<' ==> s[i + 1] != tag[1],
    ensures
        !model::has_part(s, tag),
{
    if model::has_part(s, tag) {
        let i = choose|i: int| model::occurs_at(s, tag, i);
        let part = s.subrange(i, i + tag.len());
        assert(part[0] == s[i]);
        assert(part[1] == s[i + 1]);
    }
}

proof fn lemma_lacks_break(s: Seq<char>)
    requires
        forall|i: int| 0 <= i < s.len() - 1 && #[trigger] s[i] == '<' ==> s[i + 1] != 'b',
        forall|i: int| 0 <= i < s.len() ==> #[trigger] s[i] != '\r',
    ensures
        visible_text::normalized(s) == s,
{
    visible_text::lemma_break_texts();
    lemma_lacks_tag(s, "<br />"@);
    lemma_lacks_tag(s, "<br/>"@);
    lemma_lacks_tag(s, "<br>"@);
    if model::has_part(s, "\r\n"@) {
        let i = choose|i: int| model::occurs_at(s, "\r\n"@, i);
        assert(s.subrange(i, i + 2)[0] == s[i]);
    }
    if model::has_part(s, "\r"@) {
        let i = choose|i: int| model::occurs_at(s, "\r"@, i);
        assert(s.subrange(i, i + 1)[0] == s[i]);
    }
    facts::lemma_replaced_absent(s, "\r\n"@, "\n"@);
    facts::lemma_replaced_absent(s, "\r"@, "\n"@);
    facts::lemma_replaced_absent(s, "<br />"@, "\n"@);
    facts::lemma_replaced_absent(s, "<br/>"@, "\n"@);
    facts::lemma_replaced_absent(s, "<br>"@, "\n"@);
}

proof fn lemma_lacks_reminder(s: Seq<char>)
    requires
        forall|i: int|
            0 <= i < s.len() - 1 && #[trigger] s[i] == '<' ==> s[i + 1] != 's' && s[i + 1] != 'b',
        forall|i: int| 0 <= i < s.len() ==> #[trigger] s[i] != '\r',
    ensures
        visible_text::without_reminders(s) == s,
{
    reveal_strlit("<system-reminder>");
    lemma_lacks_break(s);
    lemma_lacks_tag(s, "<system-reminder>"@);
    lemma_not_found(s, "<system-reminder>"@);
    assert(s.skip(0) =~= s);
}

proof fn lemma_not_found(s: Seq<char>, pat: Seq<char>)
    requires
        !model::has_part(s, pat),
    ensures
        model::find_from(s, pat, 0) is None,
{
    assert forall|j: int| 0 <= j implies !model::occurs_at(s, pat, j) by {
        if model::occurs_at(s, pat, j) {
            assert(model::has_part(s, pat));
        }
    }
    facts::lemma_find_none(s, pat, 0);
}

proof fn lemma_thinking_tags()
    ensures
        "<think>"@ =~= seq!['<', 't', 'h', 'i', 'n', 'k', '>'],
        "<thinking>"@ =~= seq!['<', 't', 'h', 'i', 'n', 'k', 'i', 'n', 'g', '>'],
        "</think>"@ =~= seq!['<', '/', 't', 'h', 'i', 'n', 'k', '>'],
        "</thinking>"@ =~= seq!['<', '/', 't', 'h', 'i', 'n', 'k', 'i', 'n', 'g', '>'],
{
    reveal_strlit("<think>");
    reveal_strlit("<thinking>");
    reveal_strlit("</think>");
    reveal_strlit("</thinking>");
}

/// A plain text has no tags.
pub proof fn lemma_is_without_tags(s: Seq<char>)
    requires
        is_plain(s),
    ensures
        forall|i: int|
            0 <= i < s.len() - 1 && #[trigger] s[i] == '<' ==> s[i + 1] != 'b' && s[i + 1] != 's'
                && s[i + 1] != 't',
{
    lemma_plain(s, 'b');
}

/// A text without tags shows as it is, without the whitespace at its ends, and holds no thoughts. A
/// `<` that begins none of the tags is of no account.
pub proof fn law_text_without_tags_shows(s: Seq<char>)
    requires
        !s.contains('\r'),
        forall|i: int|
            0 <= i < s.len() - 1 && #[trigger] s[i] == '<' ==> s[i + 1] != 'b' && s[i + 1] != 's'
                && s[i + 1] != 't',
    ensures
        visible_text::visible(s) == model::trimmed(s),
        visible_text::thinking(s) is None,
        visible_text::normalized(s) == s,
{
    assert forall|i: int| 0 <= i < s.len() implies #[trigger] s[i] != '\r' by {
        assert(s.contains(s[i]));
    }
    lemma_lacks_break(s);
    lemma_lacks_reminder(s);
    lemma_thinking_tags();
    lemma_lacks_tag(s, "<think>"@);
    lemma_lacks_tag(s, "<thinking>"@);
    lemma_not_found(s, "<think>"@);
    lemma_not_found(s, "<thinking>"@);
    assert(s.skip(0) =~= s);
}

/// The thoughts of a reply do not show, but are handed on; what stands before and behind them shows,
/// without the line feeds that follow them.
pub proof fn law_thoughts_do_not_show(
    pre: Seq<char>,
    long: bool,
    hidden: Seq<char>,
    breaks: Seq<char>,
    post: Seq<char>,
)
    requires
        is_plain(pre),
        is_plain(hidden),
        is_plain(post),
        forall|i: int| 0 <= i < breaks.len() ==> breaks[i] == '\n',
        post.len() > 0 ==> post[0] != '\n',
    ensures
        ({
            let reply = if long {
                pre + ("<thinking>"@ + (hidden + ("</thinking>"@ + (breaks + post))))
            } else {
                pre + ("<think>"@ + (hidden + ("</think>"@ + (breaks + post))))
            };
            &&& visible_text::visible(reply) == model::trimmed(pre + post)
            &&& model::trimmed(hidden).len() > 0 ==> visible_text::thinking(reply) == Some(
                model::trimmed(hidden),
            )
            &&& model::trimmed(hidden).len() == 0 ==> visible_text::thinking(reply) is None
        }),
{
    lemma_thinking_tags();
    let open = visible_text::open_tag(long);
    let close = visible_text::close_tag(long);
    let rest = breaks + post;
    let reply = pre + (open + (hidden + (close + rest)));
    assert(is_plain(rest)) by {
        lemma_plain(post, 's');
        if rest.contains('<') || rest.contains('\r') {
            let i = choose|i: int| 0 <= i < rest.len() && (rest[i] == '<' || rest[i] == '\r');
            if i < breaks.len() {
                assert(breaks[i] == '\n');
            } else {
                assert(rest[i] == post[i - breaks.len()]);
            }
        }
    }
    lemma_built(pre, open, hidden, close, rest, 's');
    lemma_built(pre, open, hidden, close, rest, 'b');
    lemma_lacks_reminder(reply);
    lemma_plain(pre, 't');
    lemma_lacks_tag(pre, "<think>"@);
    lemma_lacks_tag(pre, "<thinking>"@);
    lemma_plain(hidden, '/');
    lemma_lacks_tag(hidden, close);
    visible_laws::law_closed_block_is_hidden(pre, long, hidden, rest);
    lemma_breaks(breaks, post, 0);
    let k = breaks.len() as int;
    lemma_plain(rest, 't');
    lemma_lacks_tag(rest, "<think>"@);
    lemma_lacks_tag(rest, "<thinking>"@);
    lemma_not_found_from(rest, "<think>"@, k);
    lemma_not_found_from(rest, "<thinking>"@, k);
    assert(rest.skip(k) =~= post);
    visible_laws::lemma_block_is_thought(pre, long, hidden, rest);
    let blocks = visible_text::thought(hidden);
    facts::lemma_trimmed_twice(hidden);
    if model::trimmed(hidden).len() > 0 {
        assert(model::joined(blocks, "\n\n"@) == model::trimmed(hidden));
    }
}

proof fn lemma_not_found_from(s: Seq<char>, pat: Seq<char>, from: int)
    requires
        !model::has_part(s, pat),
        0 <= from,
    ensures
        model::find_from(s, pat, from) is None,
{
    assert forall|j: int| from <= j implies !model::occurs_at(s, pat, j) by {
        if model::occurs_at(s, pat, j) {
            assert(model::has_part(s, pat));
        }
    }
    facts::lemma_find_none(s, pat, from);
}

proof fn lemma_breaks(breaks: Seq<char>, post: Seq<char>, from: int)
    requires
        0 <= from <= breaks.len(),
        forall|i: int| 0 <= i < breaks.len() ==> breaks[i] == '\n',
        post.len() > 0 ==> post[0] != '\n',
    ensures
        visible_text::past_newlines(breaks + post, from) == breaks.len(),
    decreases breaks.len() - from,
{
    let s = breaks + post;
    if from < breaks.len() {
        assert(s[from] == breaks[from]);
        lemma_breaks(breaks, post, from + 1);
    } else if post.len() > 0 {
        assert(s[from] == post[0]);
    }
}

/// A text of plain pieces and tags opens only those tags.
proof fn lemma_built(
    pre: Seq<char>,
    open: Seq<char>,
    hidden: Seq<char>,
    close: Seq<char>,
    post: Seq<char>,
    c: char,
)
    requires
        is_plain(pre),
        is_plain(hidden),
        is_plain(post),
        never_opens(open, c),
        never_opens(close, c),
        !open.contains('\r'),
        !close.contains('\r'),
    ensures
        never_opens(pre + (open + (hidden + (close + post))), c),
        forall|i: int|
            0 <= i < (pre + (open + (hidden + (close + post)))).len() ==> #[trigger] (pre + (open + (
            hidden + (close + post))))[i] != '\r',
{
    lemma_plain(pre, c);
    lemma_plain(hidden, c);
    lemma_plain(post, c);
    lemma_never_opens_add(close, post, c);
    lemma_never_opens_add(hidden, close + post, c);
    lemma_never_opens_add(open, hidden + (close + post), c);
    lemma_never_opens_add(pre, open + (hidden + (close + post)), c);
    let s = pre + (open + (hidden + (close + post)));
    assert forall|i: int| 0 <= i < s.len() implies #[trigger] s[i] != '\r' by {
        assert(forall|k: int| 0 <= k < open.len() ==> open.contains(#[trigger] open[k]));
        assert(forall|k: int| 0 <= k < close.len() ==> close.contains(#[trigger] close[k]));
    }
}

/// The reminders of a reply do not show; what stands before and behind them does.
pub proof fn law_reminders_do_not_show(pre: Seq<char>, hidden: Seq<char>, post: Seq<char>)
    requires
        is_plain(pre),
        is_plain(hidden),
        is_plain(post),
    ensures
        visible_text::visible(
            pre + ("<system-reminder>"@ + (hidden + ("</system-reminder>"@ + post))),
        ) == model::trimmed(pre + post),
{
    let reply = pre + ("<system-reminder>"@ + (hidden + ("</system-reminder>"@ + post)));
    lemma_reminder_is_no_break(pre, hidden, post);
    lemma_reminder_lacks(pre, hidden, post);
    visible_laws::law_reminder_is_hidden(pre, hidden, post);
    lemma_no_blocks(pre, post);
}

proof fn lemma_reminder_is_no_break(pre: Seq<char>, hidden: Seq<char>, post: Seq<char>)
    requires
        is_plain(pre),
        is_plain(hidden),
        is_plain(post),
    ensures
        ({
            let reply = pre + ("<system-reminder>"@ + (hidden + ("</system-reminder>"@ + post)));
            visible_text::normalized(reply) == reply
        }),
{
    reveal_strlit("<system-reminder>");
    reveal_strlit("</system-reminder>");
    let open = "<system-reminder>"@;
    let close = "</system-reminder>"@;
    assert(never_opens(open, 'b'));
    assert(never_opens(close, 'b'));
    lemma_built(pre, open, hidden, close, post, 'b');
    lemma_lacks_break(pre + (open + (hidden + (close + post))));
}

proof fn lemma_reminder_lacks(pre: Seq<char>, hidden: Seq<char>, post: Seq<char>)
    requires
        is_plain(pre),
        is_plain(hidden),
        is_plain(post),
    ensures
        !model::has_part(pre, "<system-reminder>"@),
        !model::has_part(hidden, "</system-reminder>"@),
        visible_text::stripped_from(post, "<system-reminder>"@, "</system-reminder>"@, 0) == post,
{
    reveal_strlit("<system-reminder>");
    reveal_strlit("</system-reminder>");
    lemma_plain(pre, 's');
    lemma_lacks_tag(pre, "<system-reminder>"@);
    lemma_plain(hidden, '/');
    lemma_lacks_tag(hidden, "</system-reminder>"@);
    lemma_plain(post, 's');
    lemma_lacks_tag(post, "<system-reminder>"@);
    lemma_not_found(post, "<system-reminder>"@);
    assert(post.skip(0) =~= post);
}

proof fn lemma_no_blocks(pre: Seq<char>, post: Seq<char>)
    requires
        is_plain(pre),
        is_plain(post),
    ensures
        visible_text::outside_blocks(pre + post, 0) == pre + post,
{
    let shown = pre + post;
    lemma_thinking_tags();
    lemma_plain(pre, 't');
    lemma_plain(post, 't');
    lemma_never_opens_add(pre, post, 't');
    lemma_lacks_tag(shown, "<think>"@);
    lemma_lacks_tag(shown, "<thinking>"@);
    lemma_not_found(shown, "<think>"@);
    lemma_not_found(shown, "<thinking>"@);
    assert(shown.skip(0) =~= shown);
}

/// A break of HTML shows as a line feed, and so does every end of a line.
pub proof fn law_breaks_show_as_line_feeds(a: Seq<char>, b: Seq<char>)
    requires
        is_plain(a),
        is_plain(b),
    ensures
        visible_text::normalized(a + "<br>"@ + b) == a + "\n"@ + b,
        visible_text::normalized(a + "<br/>"@ + b) == a + "\n"@ + b,
        visible_text::normalized(a + "<br />"@ + b) == a + "\n"@ + b,
        visible_text::normalized(a + "\r\n"@ + b) == a + "\n"@ + b,
        (b.len() > 0 ==> b[0] != '\n') ==> visible_text::normalized(a + "\r"@ + b) == a + "\n"@ + b,
{
    lemma_plain(a, 'b');
    lemma_plain(b, 'b');
    lemma_html_breaks(a, b);
    lemma_line_ends(a, b);
}

spec fn is_clear(s: Seq<char>) -> bool {
    forall|i: int| 0 <= i < s.len() ==> #[trigger] s[i] != '\r' && s[i] != '<'
}

proof fn lemma_html_breaks(a: Seq<char>, b: Seq<char>)
    requires
        is_clear(a),
        is_clear(b),
    ensures
        visible_text::normalized(a + "<br>"@ + b) == a + "\n"@ + b,
        visible_text::normalized(a + "<br/>"@ + b) == a + "\n"@ + b,
        visible_text::normalized(a + "<br />"@ + b) == a + "\n"@ + b,
{
    visible_text::lemma_break_texts();
    lemma_lacks_each(a, b);
    lemma_other_break(a, "<br>"@, b, "\r\n"@, 0);
    lemma_other_break(a, "<br>"@, b, "\r"@, 0);
    lemma_other_break(a, "<br>"@, b, "<br />"@, 3);
    lemma_other_break(a, "<br>"@, b, "<br/>"@, 3);
    lemma_this_break(a, "<br>"@, b);
    lemma_other_break(a, "<br/>"@, b, "\r\n"@, 0);
    lemma_other_break(a, "<br/>"@, b, "\r"@, 0);
    lemma_other_break(a, "<br/>"@, b, "<br />"@, 3);
    lemma_this_break(a, "<br/>"@, b);
    lemma_other_break(a, "<br />"@, b, "\r\n"@, 0);
    lemma_other_break(a, "<br />"@, b, "\r"@, 0);
    lemma_this_break(a, "<br />"@, b);
}

proof fn lemma_line_ends(a: Seq<char>, b: Seq<char>)
    requires
        is_clear(a),
        is_clear(b),
    ensures
        visible_text::normalized(a + "\r\n"@ + b) == a + "\n"@ + b,
        (b.len() > 0 ==> b[0] != '\n') ==> visible_text::normalized(a + "\r"@ + b) == a + "\n"@ + b,
{
    visible_text::lemma_break_texts();
    lemma_lacks_each(a, b);
    lemma_this_break(a, "\r\n"@, b);
    lemma_this_break(a, "\r"@, b);
    if b.len() > 0 ==> b[0] != '\n' {
        let s = a + "\r"@ + b;
        if model::has_part(s, "\r\n"@) {
            let i = choose|i: int| model::occurs_at(s, "\r\n"@, i);
            let part = s.subrange(i, i + 2);
            assert(part[0] == s[i]);
            assert(part[1] == s[i + 1]);
            if i < a.len() {
                assert(s[i] == a[i]);
            } else if i > a.len() {
                assert(s[i] == b[i - a.len() - 1]);
            } else {
                assert(s[i + 1] == b[0]);
            }
        }
        facts::lemma_replaced_absent(s, "\r\n"@, "\n"@);
    }
}

proof fn lemma_lacks_each(a: Seq<char>, b: Seq<char>)
    requires
        is_clear(a),
        is_clear(b),
    ensures
        model::replaced(a + "\n"@ + b, "\r\n"@, "\n"@) == a + "\n"@ + b,
        model::replaced(a + "\n"@ + b, "\r"@, "\n"@) == a + "\n"@ + b,
        model::replaced(a + "\n"@ + b, "<br />"@, "\n"@) == a + "\n"@ + b,
        model::replaced(a + "\n"@ + b, "<br/>"@, "\n"@) == a + "\n"@ + b,
        model::replaced(a + "\n"@ + b, "<br>"@, "\n"@) == a + "\n"@ + b,
{
    visible_text::lemma_break_texts();
    let s = a + "\n"@ + b;
    assert forall|i: int| 0 <= i < s.len() implies #[trigger] s[i] != '\r' && s[i] != '<' by {
        if i < a.len() {
            assert(s[i] == a[i]);
        } else if i > a.len() {
            assert(s[i] == b[i - a.len() - 1]);
        }
    }
    lemma_absent_first(s, "\r\n"@);
    lemma_absent_first(s, "\r"@);
    lemma_absent_first(s, "<br />"@);
    lemma_absent_first(s, "<br/>"@);
    lemma_absent_first(s, "<br>"@);
}

proof fn lemma_absent_first(s: Seq<char>, pat: Seq<char>)
    requires
        pat.len() > 0,
        forall|i: int| 0 <= i < s.len() ==> #[trigger] s[i] != pat[0],
    ensures
        model::replaced(s, pat, "\n"@) == s,
{
    if model::has_part(s, pat) {
        let i = choose|i: int| model::occurs_at(s, pat, i);
        assert(s.subrange(i, i + pat.len())[0] == s[i]);
    }
    facts::lemma_replaced_absent(s, pat, "\n"@);
}

spec fn is_break(pat: Seq<char>) -> bool {
    &&& pat.len() > 0
    &&& pat[0] == '<' || pat[0] == '\r'
    &&& forall|i: int| 0 < i < pat.len() ==> #[trigger] pat[i] != '\r' && pat[i] != '<'
}

proof fn lemma_only_here(a: Seq<char>, pat: Seq<char>, b: Seq<char>, other: Seq<char>, j: int)
    requires
        is_clear(a),
        is_clear(b),
        is_break(pat),
        is_break(other),
        model::occurs_at(a + pat + b, other, j),
    ensures
        j == a.len(),
{
    let s = a + pat + b;
    assert(s.subrange(j, j + other.len())[0] == s[j]);
    if j < a.len() {
        assert(s[j] == a[j]);
    } else if j >= a.len() + pat.len() {
        assert(s[j] == b[j - a.len() - pat.len()]);
    } else {
        assert(s[j] == pat[j - a.len()]);
    }
}

proof fn lemma_other_break(a: Seq<char>, pat: Seq<char>, b: Seq<char>, other: Seq<char>, k: int)
    requires
        is_clear(a),
        is_clear(b),
        is_break(pat),
        is_break(other),
        0 <= k < pat.len(),
        k < other.len(),
        pat[k] != other[k],
    ensures
        model::replaced(a + pat + b, other, "\n"@) == a + pat + b,
{
    let s = a + pat + b;
    if model::has_part(s, other) {
        let i = choose|i: int| model::occurs_at(s, other, i);
        lemma_only_here(a, pat, b, other, i);
        assert(s.subrange(i, i + other.len())[k] == s[i + k]);
        assert(s[i + k] == pat[k]);
    }
    facts::lemma_replaced_absent(s, other, "\n"@);
}

proof fn lemma_this_break(a: Seq<char>, pat: Seq<char>, b: Seq<char>)
    requires
        is_clear(a),
        is_clear(b),
        is_break(pat),
    ensures
        model::replaced(a + pat + b, pat, "\n"@) == a + "\n"@ + b,
{
    let s = a + pat + b;
    let at = a.len() as int;
    let end = (at + pat.len()) as int;
    assert(s.subrange(at, end) =~= pat);
    assert forall|j: int| 0 <= j && j != at implies !model::occurs_at(s, pat, j) by {
        if model::occurs_at(s, pat, j) {
            lemma_only_here(a, pat, b, pat, j);
        }
    }
    facts::lemma_find_is(s, pat, 0, at);
    facts::lemma_find_none(s, pat, end);
    assert(s.subrange(0, at) =~= a);
    assert(s.skip(end) =~= b);
    assert(model::replaced_from(s, pat, "\n"@, end) == b);
}

} // verus!
