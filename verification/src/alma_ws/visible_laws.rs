//! What holds of the visible part of a reply.
use super::visible_text;
use crate::text::facts;
use crate::text::model;
use vstd::prelude::*;

verus! {

/// A normalized text has no carriage return and no HTML break.
pub proof fn law_normalized_has_no_breaks(s: Seq<char>)
    ensures
        !model::has_part(visible_text::normalized(s), "\r"@),
        !model::has_part(visible_text::normalized(s), "<br />"@),
        !model::has_part(visible_text::normalized(s), "<br/>"@),
        !model::has_part(visible_text::normalized(s), "<br>"@),
{
    visible_text::lemma_break_texts();
    let a = model::replaced(s, "\r\n"@, "\n"@);
    let b = model::replaced(a, "\r"@, "\n"@);
    let c = model::replaced(b, "<br />"@, "\n"@);
    let d = model::replaced(c, "<br/>"@, "\n"@);
    facts::lemma_replaced_leaves_none(a, "\r"@, '\n');
    facts::lemma_replaced_brings_none(b, "<br />"@, '\n', "\r"@);
    facts::lemma_replaced_brings_none(c, "<br/>"@, '\n', "\r"@);
    facts::lemma_replaced_brings_none(d, "<br>"@, '\n', "\r"@);
    facts::lemma_replaced_leaves_none(b, "<br />"@, '\n');
    facts::lemma_replaced_brings_none(c, "<br/>"@, '\n', "<br />"@);
    facts::lemma_replaced_brings_none(d, "<br>"@, '\n', "<br />"@);
    facts::lemma_replaced_leaves_none(c, "<br/>"@, '\n');
    facts::lemma_replaced_brings_none(d, "<br>"@, '\n', "<br/>"@);
    facts::lemma_replaced_leaves_none(d, "<br>"@, '\n');
}

/// Normalizing a normalized text changes nothing.
pub proof fn law_normalizing_twice_is_normalizing_once(s: Seq<char>)
    ensures
        visible_text::normalized(visible_text::normalized(s)) == visible_text::normalized(s),
{
    visible_text::lemma_break_texts();
    law_normalized_has_no_breaks(s);
    let n = visible_text::normalized(s);
    if model::has_part(n, "\r\n"@) {
        let i = choose|i: int| model::occurs_at(n, "\r\n"@, i);
        assert(n.subrange(i, i + 2)[0] == '\r');
        assert(n.subrange(i, i + 1) =~= "\r"@);
        assert(model::occurs_at(n, "\r"@, i));
    }
    facts::lemma_replaced_absent(n, "\r\n"@, "\n"@);
    facts::lemma_replaced_absent(n, "\r"@, "\n"@);
    facts::lemma_replaced_absent(n, "<br />"@, "\n"@);
    facts::lemma_replaced_absent(n, "<br/>"@, "\n"@);
    facts::lemma_replaced_absent(n, "<br>"@, "\n"@);
}

/// A tag that begins with `<` and has no other `<` cannot straddle the start of a text that
/// begins with `<`.
proof fn lemma_tag_before(a: Seq<char>, b: Seq<char>, tag: Seq<char>, i: int)
    requires
        tag.len() > 0,
        forall|k: int| 0 < k < tag.len() ==> tag[k] != '<',
        b.len() > 0,
        b[0] == '<',
        0 <= i < a.len(),
        model::occurs_at(a + b, tag, i),
    ensures
        model::occurs_at(a, tag, i),
{
    if i + tag.len() > a.len() {
        assert((a + b).subrange(i, i + tag.len())[a.len() - i] == '<');
        assert(tag[a.len() - i] == '<');
    } else {
        assert((a + b).subrange(i, i + tag.len()) =~= a.subrange(i, i + tag.len()));
    }
}

proof fn lemma_past_newlines_shift(a: Seq<char>, b: Seq<char>, from: int)
    requires
        0 <= from <= b.len(),
    ensures
        visible_text::past_newlines(a + b, a.len() + from) == a.len() + visible_text::past_newlines(
            b,
            from,
        ),
        from <= visible_text::past_newlines(b, from) <= b.len(),
    decreases b.len() - from,
{
    if from < b.len() && b[from] == '\n' {
        lemma_past_newlines_shift(a, b, from + 1);
    }
}

/// What stands before the place where a reading begins does not matter.
proof fn lemma_outside_shift(a: Seq<char>, b: Seq<char>, from: int)
    requires
        0 <= from <= b.len(),
    ensures
        visible_text::outside_blocks(a + b, a.len() + from) == visible_text::outside_blocks(b, from),
    decreases b.len() - from,
{
    visible_text::lemma_tag_lengths();
    facts::lemma_find_shift(a, b, visible_text::THINK_OPEN@, from);
    facts::lemma_find_shift(a, b, visible_text::THINKING_OPEN@, from);
    facts::lemma_find_from(b, visible_text::THINK_OPEN@, from);
    facts::lemma_find_from(b, visible_text::THINKING_OPEN@, from);
    match visible_text::next_open(b, from) {
        None => {
            assert((a + b).skip(a.len() + from) =~= b.skip(from));
        },
        Some((start, long)) => {
            let body = start + visible_text::open_tag(long).len();
            let close = visible_text::close_tag(long);
            facts::lemma_find_shift(a, b, close, body);
            facts::lemma_find_from(b, close, body);
            assert((a + b).subrange(a.len() + from, a.len() + start) =~= b.subrange(from, start));
            if let Some(end) = model::find_from(b, close, body) {
                lemma_past_newlines_shift(a, b, end + close.len());
                lemma_outside_shift(a, b, visible_text::past_newlines(b, end + close.len()));
            }
        },
    }
}

proof fn lemma_tag_shapes(long: bool)
    ensures
        visible_text::open_tag(long).len() > 0,
        visible_text::open_tag(long)[0] == '<',
        forall|k: int|
            0 < k < visible_text::open_tag(long).len() ==> visible_text::open_tag(long)[k] != '<',
        visible_text::close_tag(long).len() > 0,
        visible_text::close_tag(long)[0] == '<',
        forall|k: int|
            0 < k < visible_text::close_tag(long).len() ==> visible_text::close_tag(long)[k] != '<',
        !model::occurs_at(visible_text::open_tag(long), visible_text::open_tag(!long), 0),
{
    reveal_strlit("<think>");
    reveal_strlit("<thinking>");
    reveal_strlit("</think>");
    reveal_strlit("</thinking>");
    let a = visible_text::open_tag(long);
    let b = visible_text::open_tag(!long);
    if b.len() <= a.len() {
        assert(a.subrange(0, b.len() as int)[6] != b[6]);
    }
}

/// The next block that opens in `pre + open + rest` is the one behind `pre`.
proof fn lemma_next_open_behind(pre: Seq<char>, long: bool, rest: Seq<char>)
    requires
        !model::has_part(pre, visible_text::THINK_OPEN@),
        !model::has_part(pre, visible_text::THINKING_OPEN@),
    ensures
        visible_text::next_open(pre + (visible_text::open_tag(long) + rest), 0) == Some(
            (pre.len() as int, long),
        ),
{
    let tail = visible_text::open_tag(long) + rest;
    let s = pre + tail;
    lemma_tag_shapes(long);
    lemma_tag_shapes(!long);
    let open = visible_text::open_tag(long);
    let other = visible_text::open_tag(!long);
    assert(s.subrange(pre.len() as int, (pre.len() + open.len()) as int) =~= open);
    assert(model::occurs_at(s, open, pre.len() as int));
    assert forall|j: int| 0 <= j < pre.len() implies !model::occurs_at(s, open, j) by {
        if model::occurs_at(s, open, j) {
            lemma_tag_before(pre, tail, open, j);
        }
    }
    assert forall|j: int| 0 <= j < pre.len() implies !model::occurs_at(s, other, j) by {
        if model::occurs_at(s, other, j) {
            lemma_tag_before(pre, tail, other, j);
        }
    }
    facts::lemma_find_is(s, open, 0, pre.len() as int);
    facts::lemma_find_from(s, other, 0);
    if model::occurs_at(s, other, pre.len() as int) {
        reveal_strlit("<think>");
        reveal_strlit("<thinking>");
        assert(s.subrange(pre.len() as int, (pre.len() + other.len()) as int)[6] == s[pre.len() as int + 6]);
        assert(s[pre.len() as int + 6] == open[6]);
    }
}

/// Whether a text begins with `<` and has no other `<`.
spec fn is_tag(tag: Seq<char>) -> bool {
    tag.len() > 0 && tag[0] == '<' && forall|k: int| 0 < k < tag.len() ==> tag[k] != '<'
}

/// The first `tag` in `before + (text + (tag + post))` behind `before` is the one behind `text`.
proof fn lemma_tag_behind(before: Seq<char>, text: Seq<char>, tag: Seq<char>, post: Seq<char>)
    requires
        is_tag(tag),
        !model::has_part(text, tag),
    ensures
        model::find_from(before + (text + (tag + post)), tag, before.len() as int) == Some(
            (before.len() + text.len()) as int,
        ),
{
    let tail = tag + post;
    assert forall|j: int| 0 <= j < text.len() implies !model::occurs_at(text + tail, tag, j) by {
        if model::occurs_at(text + tail, tag, j) {
            lemma_tag_before(text, tail, tag, j);
        }
    }
    assert((text + tail).subrange(text.len() as int, (text.len() + tag.len()) as int) =~= tag);
    facts::lemma_find_is(text + tail, tag, 0, text.len() as int);
    facts::lemma_find_shift(before, text + tail, tag, 0);
}

/// What a thinking block hides does not show: of `pre`, a block and `post`, where the block is
/// the first to open and the first to close, `pre` shows, and what shows of `post` without the
/// line feeds at its start.
pub proof fn law_closed_block_is_hidden(
    pre: Seq<char>,
    long: bool,
    hidden: Seq<char>,
    post: Seq<char>,
)
    requires
        !model::has_part(pre, visible_text::THINK_OPEN@),
        !model::has_part(pre, visible_text::THINKING_OPEN@),
        !model::has_part(hidden, visible_text::close_tag(long)),
    ensures
        visible_text::outside_blocks(
            pre + (visible_text::open_tag(long) + (hidden + (visible_text::close_tag(long) + post))),
            0,
        ) == pre + visible_text::outside_blocks(post, visible_text::past_newlines(post, 0)),
{
    let open = visible_text::open_tag(long);
    let close = visible_text::close_tag(long);
    let rest = hidden + (close + post);
    let s = pre + (open + rest);
    lemma_next_open_behind(pre, long, rest);
    lemma_tag_shapes(long);
    let before = pre + open;
    assert(s =~= before + rest);
    lemma_tag_behind(before, hidden, close, post);
    let upto = pre + open + hidden + close;
    assert(s =~= upto + post);
    lemma_past_newlines_shift(upto, post, 0);
    lemma_outside_shift(upto, post, visible_text::past_newlines(post, 0));
    assert(s.subrange(0, pre.len() as int) =~= pre);
}

/// What a thinking block hides is a thought, and comes before the thoughts behind the block.
pub proof fn lemma_block_is_thought(
    pre: Seq<char>,
    long: bool,
    hidden: Seq<char>,
    post: Seq<char>,
)
    requires
        !model::has_part(pre, visible_text::THINK_OPEN@),
        !model::has_part(pre, visible_text::THINKING_OPEN@),
        !model::has_part(hidden, visible_text::close_tag(long)),
        !model::has_part(post, visible_text::THINK_OPEN@),
        !model::has_part(post, visible_text::THINKING_OPEN@),
    ensures
        visible_text::inside_blocks(
            pre + (visible_text::open_tag(long) + (hidden + (visible_text::close_tag(long) + post))),
            0,
        ) == visible_text::thought(hidden),
{
    let open = visible_text::open_tag(long);
    let close = visible_text::close_tag(long);
    let rest = hidden + (close + post);
    let s = pre + (open + rest);
    lemma_next_open_behind(pre, long, rest);
    lemma_tag_shapes(long);
    let before = pre + open;
    assert(s =~= before + rest);
    lemma_tag_behind(before, hidden, close, post);
    let upto = pre + open + hidden + close;
    assert(s =~= upto + post);
    lemma_past_newlines_shift(upto, post, 0);
    let k = visible_text::past_newlines(post, 0);
    facts::lemma_find_shift(upto, post, visible_text::THINK_OPEN@, k);
    facts::lemma_find_shift(upto, post, visible_text::THINKING_OPEN@, k);
    facts::lemma_find_from(post, visible_text::THINK_OPEN@, k);
    facts::lemma_find_from(post, visible_text::THINKING_OPEN@, k);
    if let Some(i) = model::find_from(post, visible_text::THINK_OPEN@, k) {
        assert(model::occurs_at(post, visible_text::THINK_OPEN@, i));
    }
    if let Some(i) = model::find_from(post, visible_text::THINKING_OPEN@, k) {
        assert(model::occurs_at(post, visible_text::THINKING_OPEN@, i));
    }
    assert(visible_text::next_open(s, upto.len() + k) is None);
    let body = (pre.len() + open.len()) as int;
    assert(s.subrange(body, body + hidden.len()) =~= hidden);
    assert(visible_text::inside_blocks(s, upto.len() + k) == Seq::<Seq<char>>::empty());
    let none = Seq::<Seq<char>>::empty();
    assert(visible_text::thought(hidden) + none =~= visible_text::thought(hidden));
}

/// A thinking block that is not closed hides all that follows it.
pub proof fn law_open_block_hides_the_rest(pre: Seq<char>, long: bool, hidden: Seq<char>)
    requires
        !model::has_part(pre, visible_text::THINK_OPEN@),
        !model::has_part(pre, visible_text::THINKING_OPEN@),
        !model::has_part(hidden, visible_text::close_tag(long)),
    ensures
        visible_text::outside_blocks(pre + (visible_text::open_tag(long) + hidden), 0) == pre,
{
    let open = visible_text::open_tag(long);
    let close = visible_text::close_tag(long);
    let s = pre + (open + hidden);
    lemma_next_open_behind(pre, long, hidden);
    let before = pre + open;
    assert(s =~= before + hidden);
    facts::lemma_find_none(hidden, close, 0);
    facts::lemma_find_shift(before, hidden, close, 0);
    assert(s.subrange(0, pre.len() as int) =~= pre);
}

/// Of a text with one reminder the two sides stay, whatever the reminder says.
pub proof fn law_reminder_is_hidden(pre: Seq<char>, hidden: Seq<char>, post: Seq<char>)
    requires
        !model::has_part(pre, visible_text::REMINDER_OPEN@),
        !model::has_part(hidden, visible_text::REMINDER_CLOSE@),
    ensures
        visible_text::stripped_from(
            pre + (visible_text::REMINDER_OPEN@ + (hidden + (visible_text::REMINDER_CLOSE@ + post))),
            visible_text::REMINDER_OPEN@,
            visible_text::REMINDER_CLOSE@,
            0,
        ) == pre + visible_text::stripped_from(
            post,
            visible_text::REMINDER_OPEN@,
            visible_text::REMINDER_CLOSE@,
            0,
        ),
{
    let open = visible_text::REMINDER_OPEN@;
    let close = visible_text::REMINDER_CLOSE@;
    let rest = hidden + (close + post);
    let s = pre + (open + rest);
    lemma_reminder_tags();
    lemma_tag_behind(seq![], pre, open, rest);
    assert(seq![] + s =~= s);
    let before = pre + open;
    assert(s =~= before + rest);
    lemma_tag_behind(before, hidden, close, post);
    let upto = pre + open + hidden + close;
    assert(s =~= upto + post);
    lemma_stripped_shift(upto, post, open, close, 0);
    assert(s.subrange(0, pre.len() as int) =~= pre);
}

proof fn lemma_reminder_tags()
    ensures
        is_tag(visible_text::REMINDER_OPEN@),
        is_tag(visible_text::REMINDER_CLOSE@),
{
    reveal_strlit("<system-reminder>");
    reveal_strlit("</system-reminder>");
}

proof fn lemma_stripped_shift(
    a: Seq<char>,
    b: Seq<char>,
    open: Seq<char>,
    close: Seq<char>,
    from: int,
)
    requires
        0 <= from <= b.len(),
        open.len() > 0,
    ensures
        visible_text::stripped_from(a + b, open, close, a.len() + from)
            == visible_text::stripped_from(b, open, close, from),
    decreases b.len() - from,
{
    facts::lemma_find_shift(a, b, open, from);
    facts::lemma_find_from(b, open, from);
    match model::find_from(b, open, from) {
        None => {
            assert((a + b).skip(a.len() + from) =~= b.skip(from));
        },
        Some(start) => {
            let body = start + open.len();
            facts::lemma_find_shift(a, b, close, body);
            facts::lemma_find_from(b, close, body);
            assert((a + b).subrange(a.len() + from, a.len() + start) =~= b.subrange(from, start));
            if let Some(end) = model::find_from(b, close, body) {
                lemma_stripped_shift(a, b, open, close, end + close.len());
            }
        },
    }
}

/// Telling replies apart does not depend on their order, and a reply is always itself.
pub proof fn law_same_reply_is_symmetric(a: Seq<char>, b: Seq<char>)
    ensures
        visible_text::same_reply(a, b) == visible_text::same_reply(b, a),
        visible_text::same_reply(a, a),
{
}

} // verus!
