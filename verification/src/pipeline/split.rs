//! Cutting replies to the length of a QQ message, and shortening texts.
use crate::text::facts;
use crate::text::model;
use crate::text::ops;
use vstd::arithmetic::power2;
use vstd::prelude::*;
use vstd::string::*;

verus! {

/// The greatest number of bytes of one QQ message.
pub const QQ_MSG_LIMIT: usize = 4500;

/// The greatest delay before another attempt, in milliseconds.
pub const MAX_RETRY_DELAY_MS: u64 = 60_000;

/// The paragraphs of a text: what stands between empty lines, trimmed, where it is not blank.
pub open spec fn paragraphs(s: Seq<char>) -> Seq<Seq<char>> {
    model::trimmed_nonblank(model::split_on(s, "\n\n"@))
}

/// Splits a text at its empty lines. Each paragraph becomes a QQ message of its own.
pub fn split_paragraphs(text: &str) -> (r: Vec<String>)
    ensures
        model::texts(r@) == paragraphs(text@),
{
    proof {
        reveal_strlit("\n\n");
    }
    ops::trim_nonblank(&ops::split(text, "\n\n"))
}

/// The length of the first chunk of a text that does not fit: as much as fits, but no more
/// than up to its last line feed, unless that is its first character.
pub open spec fn chunk_len(s: Seq<char>, limit: nat) -> int {
    let fit = model::fitting_chars(s, limit);
    match model::find_last(s.take(fit), '\n') {
        Some(i) => if i > 0 {
            i
        } else {
            fit
        },
        None => fit,
    }
}

/// `s` without a line feed at its start.
pub open spec fn past_break(s: Seq<char>) -> Seq<char> {
    if s.len() > 0 && s[0] == '\n' {
        s.skip(1)
    } else {
        s
    }
}

/// The chunks of a text, each of at most `limit` bytes. A line feed at which a chunk ends
/// belongs to no chunk.
pub open spec fn chunks(s: Seq<char>, limit: nat) -> Seq<Seq<char>>
    decreases s.len(),
{
    if s.len() == 0 {
        seq![]
    } else if model::byte_len(s) <= limit {
        seq![s]
    } else {
        let n = chunk_len(s, limit);
        if 0 < n <= s.len() {
            seq![s.take(n)] + chunks(past_break(s.skip(n)), limit)
        } else {
            seq![]
        }
    }
}

/// The limit that a split goes by: room for one character at the least.
pub open spec fn split_limit(limit: nat) -> nat {
    if limit < 4 {
        4
    } else {
        limit
    }
}

/// What a text is split into.
pub open spec fn split_into(s: Seq<char>, limit: nat) -> Seq<Seq<char>> {
    if model::byte_len(s) <= split_limit(limit) {
        seq![s]
    } else {
        chunks(s, split_limit(limit))
    }
}

pub proof fn lemma_chunk_len(s: Seq<char>, limit: nat)
    requires
        s.len() > 0,
        4 <= limit,
    ensures
        0 < model::fitting_chars(s, limit) <= s.len(),
        0 < chunk_len(s, limit) <= model::fitting_chars(s, limit),
        model::byte_len(s.take(chunk_len(s, limit))) <= limit,
{
    let fit = model::fitting_chars(s, limit);
    facts::lemma_fitting_from(s, limit, s.len() as int);
    assert(fit > 0) by {
        assert(s.take(0) =~= seq![]);
        facts::lemma_byte_len_take_monotone(s, 0, 1);
        assert(model::byte_len(s.take(1)) <= 4);
    }
    lemma_find_last_bound(s.take(fit), '\n');
    facts::lemma_byte_len_take_monotone(s, chunk_len(s, limit), fit);
}

proof fn lemma_find_last_bound(s: Seq<char>, c: char)
    ensures
        model::find_last(s, c) matches Some(i) ==> 0 <= i < s.len(),
    decreases s.len(),
{
    if s.len() > 0 && s.last() != c {
        lemma_find_last_bound(s.drop_last(), c);
    }
}

/// Splits a text into chunks of at most `limit` bytes, at line feeds where there are any.
///
/// A limit below the bytes of one character is taken as that many, so that a chunk always
/// holds whole characters.
pub fn split_text(text: &str, limit: usize) -> (r: Vec<String>)
    ensures
        model::texts(r@) == split_into(text@, limit as nat),
{
    let max: usize = if limit < 4 {
        4
    } else {
        limit
    };
    let mut out: Vec<String> = Vec::new();
    if ops::byte_length(text) <= max {
        let whole = text.to_owned();
        proof {
            facts::lemma_texts_push(out@, whole);
        }
        out.push(whole);
        return out;
    }
    let v = ops::to_chars(text);
    let mut from: usize = 0;
    let ghost s = text@;
    assert(s.skip(0) =~= s);
    while from < v.len()
        invariant
            s == text@,
            v@ == s,
            from <= v@.len(),
            max == split_limit(limit as nat),
            model::byte_len(s) > max,
            chunks(s, max as nat) == model::texts(out@) + chunks(s.skip(from as int), max as nat),
        decreases v@.len() - from,
    {
        let rest = text.substring_char(from, v.len());
        assert(rest@ =~= s.skip(from as int));
        if ops::byte_length(rest) <= max {
            let whole = rest.to_owned();
            proof {
                facts::lemma_texts_push(out@, whole);
            }
            out.push(whole);
            return out;
        }
        proof {
            lemma_chunk_len(rest@, max as nat);
        }
        let head = ops::byte_prefix(rest, max);
        let fit: usize = head.unicode_len();
        let w = ops::to_chars(rest);
        let n: usize = match ops::find_last(&w, fit, '\n') {
            Some(i) => if i > 0 {
                i
            } else {
                fit
            },
            None => fit,
        };
        let piece = rest.substring_char(0, n).to_owned();
        proof {
            facts::lemma_texts_push(out@, piece);
            assert(piece@ =~= rest@.take(n as int));
            assert(rest@.skip(n as int) =~= s.skip(from + n));
            assert(past_break(rest@.skip(n as int)) =~= (if from + n < s.len() && s[from + n] == '\n' {
                s.skip(from + n + 1)
            } else {
                s.skip(from + n)
            }));
        }
        out.push(piece);
        from += n;
        if from < v.len() && v[from] == '\n' {
            from += 1;
        }
    }
    out
}

/// `s` cut to `limit` bytes, with an ellipsis where something was cut.
pub open spec fn shortened(s: Seq<char>, limit: nat) -> Seq<char> {
    if model::byte_len(s) <= limit {
        s
    } else {
        model::byte_prefix(s, limit) + "..."@
    }
}

/// Cuts a text to `limit` bytes and marks the cut.
pub fn truncate_with_ellipsis(text: &str, limit: usize) -> (r: String)
    ensures
        r@ == shortened(text@, limit as nat),
{
    if ops::byte_length(text) <= limit {
        return text.to_owned();
    }
    ops::byte_prefix(text, limit).to_owned().concat("...")
}

/// The nonblank lines of a text, trimmed, in one line.
pub open spec fn one_line(s: Seq<char>) -> Seq<char> {
    model::joined(model::trimmed_nonblank(model::lines_of(s)), " "@)
}

/// The text in one line, cut to `limit` bytes.
pub fn single_line_preview(text: &str, limit: usize) -> (r: String)
    ensures
        r@ == shortened(one_line(text@), limit as nat),
{
    let compact = ops::join(&ops::trim_nonblank(&ops::lines(text)), " ");
    truncate_with_ellipsis(&compact, limit)
}

/// The greatest index, in bytes, of a character boundary of the text that is at most
/// `max_bytes`.
pub fn floor_char_boundary(text: &str, max_bytes: usize) -> (r: usize)
    ensures
        r == model::byte_len(model::byte_prefix(text@, max_bytes as nat)),
{
    ops::byte_length(ops::byte_prefix(text, max_bytes))
}

/// The delay before an attempt: the base delay, doubled with every attempt after the first.
pub open spec fn retry_delay(base_delay_ms: nat, attempt: nat) -> nat {
    let doublings: nat = if attempt == 0 {
        0
    } else if attempt > 21 {
        20
    } else {
        (attempt - 1) as nat
    };
    let delay = base_delay_ms * power2::pow2(doublings);
    if delay > MAX_RETRY_DELAY_MS {
        MAX_RETRY_DELAY_MS as nat
    } else {
        delay
    }
}

/// The delay before an attempt, in milliseconds.
pub fn retry_delay_ms(base_delay_ms: u64, attempt: u32) -> (r: u64)
    ensures
        r == retry_delay(base_delay_ms as nat, attempt as nat),
{
    let doublings: u32 = if attempt == 0 {
        0
    } else if attempt > 21 {
        20
    } else {
        attempt - 1
    };
    let mut delay: u128 = base_delay_ms as u128;
    let mut i: u32 = 0;
    proof {
        power2::lemma2_to64();
    }
    while i < doublings
        invariant
            i <= doublings <= 20,
            delay == base_delay_ms * power2::pow2(i as nat),
            power2::pow2(i as nat) <= 0x100000,
            delay <= u64::MAX * power2::pow2(i as nat),
            power2::pow2(20) == 0x100000,
        decreases doublings - i,
    {
        proof {
            power2::lemma_pow2_unfold((i + 1) as nat);
            assert(delay * 2 == base_delay_ms * (2 * power2::pow2(i as nat))) by (nonlinear_arith)
                requires
                    delay == base_delay_ms * power2::pow2(i as nat),
            ;
            assert(delay <= u64::MAX * 0x100000) by (nonlinear_arith)
                requires
                    delay <= u64::MAX * power2::pow2(i as nat),
                    power2::pow2(i as nat) <= 0x100000,
            ;
            if i + 1 < 20 {
                power2::lemma_pow2_strictly_increases((i + 1) as nat, 20);
            }
        }
        delay = delay * 2;
        i += 1;
        assert(delay <= u64::MAX * power2::pow2(i as nat)) by (nonlinear_arith)
            requires
                delay == base_delay_ms * power2::pow2(i as nat),
                base_delay_ms <= u64::MAX,
        ;
    }
    if delay > MAX_RETRY_DELAY_MS as u128 {
        MAX_RETRY_DELAY_MS
    } else {
        delay as u64
    }
}

} // verus!
