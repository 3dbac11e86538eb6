//! What of an assistant's reply a chat partner may see.
use crate::json;
use crate::text::facts;
use crate::text::model;
use crate::text::ops;
use vstd::prelude::*;
use vstd::string::*;

verus! {

pub const THINK_OPEN: &'static str = "<think>";

pub const THINK_CLOSE: &'static str = "</think>";

pub const THINKING_OPEN: &'static str = "<thinking>";

pub const THINKING_CLOSE: &'static str = "</thinking>";

pub const REMINDER_OPEN: &'static str = "<system-reminder>";

pub const REMINDER_CLOSE: &'static str = "</system-reminder>";

/// Where the next block opens from `from` on, and whether it is one of the long tags.
pub open spec fn next_open(s: Seq<char>, from: int) -> Option<(int, bool)> {
    match (model::find_from(s, THINK_OPEN@, from), model::find_from(s, THINKING_OPEN@, from)) {
        (Some(a), Some(b)) => if b <= a {
            Some((b, true))
        } else {
            Some((a, false))
        },
        (Some(a), None) => Some((a, false)),
        (None, Some(b)) => Some((b, true)),
        (None, None) => None,
    }
}

pub open spec fn open_tag(long: bool) -> Seq<char> {
    if long {
        THINKING_OPEN@
    } else {
        THINK_OPEN@
    }
}

pub open spec fn close_tag(long: bool) -> Seq<char> {
    if long {
        THINKING_CLOSE@
    } else {
        THINK_CLOSE@
    }
}

/// The index of the first character from `from` on that is no line feed.
pub open spec fn past_newlines(s: Seq<char>, from: int) -> int
    decreases s.len() - from,
{
    if 0 <= from < s.len() && s[from] == '\n' {
        past_newlines(s, from + 1)
    } else {
        from
    }
}

/// The trimmed text of a block, where there is any.
pub open spec fn thought(s: Seq<char>) -> Seq<Seq<char>> {
    if model::trimmed(s).len() == 0 {
        seq![]
    } else {
        seq![model::trimmed(s)]
    }
}

/// The text of `s` from `from` on outside its blocks.
pub open spec fn outside_blocks(s: Seq<char>, from: int) -> Seq<char>
    decreases s.len() - from,
{
    match next_open(s, from) {
        None => s.skip(from),
        Some((start, long)) => match model::find_from(s, close_tag(long), start + open_tag(long).len()) {
            None => s.subrange(from, start),
            Some(end) => if from < past_newlines(s, end + close_tag(long).len()) <= s.len() {
                s.subrange(from, start) + outside_blocks(
                    s,
                    past_newlines(s, end + close_tag(long).len()),
                )
            } else {
                s.subrange(from, start)
            },
        },
    }
}

/// The texts of the blocks of `s` from `from` on. A block that is not closed reaches to
/// the end.
pub open spec fn inside_blocks(s: Seq<char>, from: int) -> Seq<Seq<char>>
    decreases s.len() - from,
{
    match next_open(s, from) {
        None => seq![],
        Some((start, long)) => {
            let body = start + open_tag(long).len();
            match model::find_from(s, close_tag(long), body) {
                None => thought(s.skip(body)),
                Some(end) => if from < past_newlines(s, end + close_tag(long).len()) <= s.len() {
                    thought(s.subrange(body, end)) + inside_blocks(
                        s,
                        past_newlines(s, end + close_tag(long).len()),
                    )
                } else {
                    thought(s.subrange(body, end))
                },
            }
        },
    }
}

pub proof fn lemma_tag_lengths()
    ensures
        THINK_OPEN@.len() == 7,
        THINKING_OPEN@.len() == 10,
        THINK_CLOSE@.len() == 8,
        THINKING_CLOSE@.len() == 11,
{
    reveal_strlit("<think>");
    reveal_strlit("<thinking>");
    reveal_strlit("</think>");
    reveal_strlit("</thinking>");
}

fn find_open(v: &[char], from: usize) -> (r: Option<(usize, bool)>)
    ensures
        match r {
            Some((start, long)) => next_open(v@, from as int) == Some((start as int, long)) && from
                <= start && start + open_tag(long).len() <= v@.len(),
            None => next_open(v@, from as int) is None,
        },
{
    proof {
        facts::lemma_find_from(v@, THINK_OPEN@, from as int);
        facts::lemma_find_from(v@, THINKING_OPEN@, from as int);
    }
    let a = ops::find_from(v, &ops::to_chars(THINK_OPEN), from);
    let b = ops::find_from(v, &ops::to_chars(THINKING_OPEN), from);
    match (a, b) {
        (Some(a), Some(b)) => if b <= a {
            Some((b, true))
        } else {
            Some((a, false))
        },
        (Some(a), None) => Some((a, false)),
        (None, Some(b)) => Some((b, true)),
        (None, None) => None,
    }
}

fn find_close(v: &[char], long: bool, body: usize) -> (r: Option<usize>)
    ensures
        match r {
            Some(end) => model::find_from(v@, close_tag(long), body as int) == Some(end as int)
                && body <= end && end + close_tag(long).len() <= v@.len(),
            None => model::find_from(v@, close_tag(long), body as int) is None,
        },
{
    proof {
        facts::lemma_find_from(v@, close_tag(long), body as int);
    }
    if long {
        ops::find_from(v, &ops::to_chars(THINKING_CLOSE), body)
    } else {
        ops::find_from(v, &ops::to_chars(THINK_CLOSE), body)
    }
}

fn skip_newlines(v: &[char], from: usize) -> (r: usize)
    requires
        from <= v@.len(),
    ensures
        r == past_newlines(v@, from as int),
        from <= r <= v@.len(),
{
    let mut next: usize = from;
    while next < v.len() && v[next] == '\n'
        invariant
            from <= next <= v@.len(),
            past_newlines(v@, from as int) == past_newlines(v@, next as int),
        decreases v@.len() - next,
    {
        next += 1;
    }
    next
}

/// Parts a reply into what stands outside its thinking blocks and what stands inside.
/// The texts of several blocks are joined by an empty line.
pub fn extract_think_blocks(text: &str) -> (r: (String, Option<String>))
    ensures
        r.0@ == outside_blocks(text@, 0),
        inside_blocks(text@, 0).len() == 0 ==> r.1 is None,
        inside_blocks(text@, 0).len() > 0 ==> r.1 is Some && r.1->0@ == model::joined(
            inside_blocks(text@, 0),
            "\n\n"@,
        ),
{
    let v = ops::to_chars(text);
    let mut clean = String::new();
    let mut parts: Vec<String> = Vec::new();
    let mut from: usize = 0;
    let ghost s = text@;
    loop
        invariant
            s == text@,
            v@ == s,
            from <= s.len(),
            outside_blocks(s, 0) == clean@ + outside_blocks(s, from as int),
            inside_blocks(s, 0) == model::texts(parts@) + inside_blocks(s, from as int),
        decreases s.len() - from,
    {
        proof {
            lemma_tag_lengths();
        }
        match find_open(&v, from) {
            None => {
                clean.append(&ops::from_chars(&v, from, v.len()));
                assert(s.skip(from as int) =~= s.subrange(from as int, s.len() as int));
                assert(inside_blocks(s, 0) =~= model::texts(parts@));
                return (clean, joined_parts(parts));
            },
            Some((start, long)) => {
                clean.append(&ops::from_chars(&v, from, start));
                let body: usize = start + (if long {
                    10
                } else {
                    7
                });
                match find_close(&v, long, body) {
                    None => {
                        push_thought(&mut parts, &ops::from_chars(&v, body, v.len()));
                        assert(s.skip(body as int) =~= s.subrange(body as int, s.len() as int));
                        return (clean, joined_parts(parts));
                    },
                    Some(end) => {
                        push_thought(&mut parts, &ops::from_chars(&v, body, end));
                        let after: usize = end + (if long {
                            11
                        } else {
                            8
                        });
                        from = skip_newlines(&v, after);
                    },
                }
            },
        }
    }
}

fn push_thought(parts: &mut Vec<String>, block: &str)
    ensures
        model::texts(final(parts)@) == model::texts(old(parts)@) + thought(block@),
{
    let t = ops::trim(block);
    if !t.is_empty() {
        let owned = t.to_owned();
        proof {
            facts::lemma_texts_push(parts@, owned);
        }
        parts.push(owned);
    } else {
        assert(model::texts(parts@) + thought(block@) =~= model::texts(parts@));
    }
}

fn joined_parts(parts: Vec<String>) -> (r: Option<String>)
    ensures
        parts@.len() == 0 ==> r is None,
        parts@.len() > 0 ==> r is Some && r->0@ == model::joined(model::texts(parts@), "\n\n"@),
{
    if parts.len() == 0 {
        None
    } else {
        Some(ops::join(&parts, "\n\n"))
    }
}

/// `s` from `from` on without the blocks between `open` and `close`. A block that is not
/// closed reaches to the end.
pub open spec fn stripped_from(s: Seq<char>, open: Seq<char>, close: Seq<char>, from: int) -> Seq<
    char,
>
    decreases s.len() - from,
{
    match model::find_from(s, open, from) {
        None => s.skip(from),
        Some(start) => match model::find_from(s, close, start + open.len()) {
            None => s.subrange(from, start),
            Some(end) => if from < end + close.len() <= s.len() {
                s.subrange(from, start) + stripped_from(s, open, close, end + close.len())
            } else {
                s.subrange(from, start)
            },
        },
    }
}

/// `text` without its blocks between `start_tag` and `end_tag`.
pub fn strip_tag_blocks(text: &str, start_tag: &str, end_tag: &str) -> (r: String)
    requires
        start_tag@.len() + end_tag@.len() > 0,
    ensures
        r@ == stripped_from(text@, start_tag@, end_tag@, 0),
{
    let v = ops::to_chars(text);
    let open = ops::to_chars(start_tag);
    let close = ops::to_chars(end_tag);
    let mut out = String::new();
    let mut from: usize = 0;
    let ghost s = text@;
    loop
        invariant
            s == text@,
            v@ == s,
            open@ == start_tag@,
            close@ == end_tag@,
            open@.len() + close@.len() > 0,
            from <= s.len(),
            stripped_from(s, open@, close@, 0) == out@ + stripped_from(s, open@, close@, from as int),
        decreases s.len() - from,
    {
        proof {
            facts::lemma_find_from(s, open@, from as int);
        }
        match ops::find_from(&v, &open, from) {
            None => {
                out.append(&ops::from_chars(&v, from, v.len()));
                assert(s.skip(from as int) =~= s.subrange(from as int, s.len() as int));
                return out;
            },
            Some(start) => {
                out.append(&ops::from_chars(&v, from, start));
                let body: usize = start + open.len();
                proof {
                    facts::lemma_find_from(s, close@, body as int);
                }
                match ops::find_from(&v, &close, body) {
                    None => {
                        return out;
                    },
                    Some(end) => {
                        from = end + close.len();
                    },
                }
            },
        }
    }
}

/// A text with every line break and every HTML break as one line feed.
pub open spec fn normalized(s: Seq<char>) -> Seq<char> {
    let a = model::replaced(s, "\r\n"@, "\n"@);
    let b = model::replaced(a, "\r"@, "\n"@);
    let c = model::replaced(b, "<br />"@, "\n"@);
    let d = model::replaced(c, "<br/>"@, "\n"@);
    model::replaced(d, "<br>"@, "\n"@)
}

pub proof fn lemma_break_texts()
    ensures
        "\r\n"@ =~= seq!['\r', '\n'],
        "\r"@ =~= seq!['\r'],
        "\n"@ =~= seq!['\n'],
        "<br />"@ =~= seq!['<', 'b', 'r', ' ', '/', '>'],
        "<br/>"@ =~= seq!['<', 'b', 'r', '/', '>'],
        "<br>"@ =~= seq!['<', 'b', 'r', '>'],
{
    reveal_strlit("\r\n");
    reveal_strlit("\r");
    reveal_strlit("\n");
    reveal_strlit("<br />");
    reveal_strlit("<br/>");
    reveal_strlit("<br>");
}

/// Writes every line break and every HTML break as one line feed.
pub fn normalize_assistant_text(text: &str) -> (r: String)
    ensures
        r@ == normalized(text@),
{
    proof {
        lemma_break_texts();
    }
    let a = ops::replace(text, "\r\n", "\n");
    let b = ops::replace(&a, "\r", "\n");
    let c = ops::replace(&b, "<br />", "\n");
    let d = ops::replace(&c, "<br/>", "\n");
    ops::replace(&d, "<br>", "\n")
}

/// What of a reply is visible: its normalized text without reminders and thinking blocks.
pub open spec fn visible(s: Seq<char>) -> Seq<char> {
    model::trimmed(outside_blocks(without_reminders(s), 0))
}

/// A reply without its reminders, its breaks as line feeds.
pub open spec fn without_reminders(s: Seq<char>) -> Seq<char> {
    stripped_from(normalized(s), REMINDER_OPEN@, REMINDER_CLOSE@, 0)
}

/// What a reply thinks, where it is not blank.
pub open spec fn thinking(s: Seq<char>) -> Option<Seq<char>> {
    let blocks = inside_blocks(without_reminders(s), 0);
    let text = model::trimmed(model::joined(blocks, "\n\n"@));
    if blocks.len() == 0 || text.len() == 0 {
        None
    } else {
        Some(text)
    }
}

/// The visible part of a reply, and what it thinks.
pub fn split_reply(text: &str) -> (r: (String, Option<String>))
    ensures
        r.0@ == visible(text@),
        json::text_view(r.1) == thinking(text@),
{
    let normal = normalize_assistant_text(text);
    proof {
        reveal_strlit("<system-reminder>");
    }
    let without = strip_tag_blocks(&normal, REMINDER_OPEN, REMINDER_CLOSE);
    let (clean, thoughts) = extract_think_blocks(&without);
    let thinking = match thoughts {
        Some(t) => {
            let t = ops::trim(&t);
            if !t.is_empty() {
                Some(t.to_owned())
            } else {
                None
            }
        },
        None => None,
    };
    (ops::trim(&clean).to_owned(), thinking)
}

/// The visible part of a reply.
pub fn sanitize_visible_assistant_text(text: &str) -> (r: String)
    ensures
        r@ == visible(text@),
{
    let (clean, _) = split_reply(text);
    clean
}

/// The words of the visible part of a reply, one space between each two.
pub open spec fn canonical(s: Seq<char>) -> Seq<char> {
    model::joined(model::words_of(visible(s)), " "@)
}

/// The form of a reply by which replies are told apart.
pub fn canonical_visible_assistant_text_for_dedup(text: &str) -> (r: String)
    ensures
        r@ == canonical(text@),
{
    let clean = sanitize_visible_assistant_text(text);
    ops::join(&ops::words(&clean), " ")
}

/// Whether two replies count as one: they are the same text, or have the same visible words.
pub open spec fn same_reply(a: Seq<char>, b: Seq<char>) -> bool {
    a == b || (canonical(a).len() > 0 && canonical(a) == canonical(b))
}

/// Whether two replies count as one.
pub fn visible_assistant_text_matches_for_dedup(left: &str, right: &str) -> (r: bool)
    ensures
        r == same_reply(left@, right@),
{
    if ops::same(left, right) {
        return true;
    }
    let left = canonical_visible_assistant_text_for_dedup(left);
    let right = canonical_visible_assistant_text_for_dedup(right);
    !left.as_str().is_empty() && ops::same(&left, &right)
}

} // verus!
