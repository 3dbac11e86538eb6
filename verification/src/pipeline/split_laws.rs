//! What holds of split and shortened texts, and of delays.
use super::split;
use crate::text::facts;
use crate::text::model;
use vstd::arithmetic::power2;
use vstd::prelude::*;

verus! {

/// Whether `s` is the given chunks in order, with at most one line feed left out between
/// each two neighbours, and at the end.
pub open spec fn is_cut_into(s: Seq<char>, chunks: Seq<Seq<char>>) -> bool
    decreases chunks.len(),
{
    if chunks.len() == 0 {
        s.len() == 0
    } else {
        let first = chunks[0];
        &&& model::begins_with(s, first)
        &&& is_cut_into(split::past_break(s.skip(first.len() as int)), chunks.drop_first())
            || is_cut_into(s.skip(first.len() as int), chunks.drop_first())
    }
}

/// Every chunk of a split text has at most as many bytes as the limit, or as the limit's
/// smallest value allows.
pub proof fn law_chunks_fit(s: Seq<char>, limit: nat)
    ensures
        forall|i: int|
            0 <= i < split::split_into(s, limit).len() ==> model::byte_len(
                #[trigger] split::split_into(s, limit)[i],
            ) <= split::split_limit(limit),
{
    if model::byte_len(s) > split::split_limit(limit) {
        lemma_chunks_fit(s, split::split_limit(limit));
    }
}

proof fn lemma_chunks_fit(s: Seq<char>, limit: nat)
    requires
        4 <= limit,
    ensures
        forall|i: int|
            0 <= i < split::chunks(s, limit).len() ==> 0 < (#[trigger] split::chunks(
                s,
                limit,
            )[i]).len() && model::byte_len(split::chunks(s, limit)[i]) <= limit,
    decreases s.len(),
{
    if s.len() > 0 && model::byte_len(s) > limit {
        split::lemma_chunk_len(s, limit);
        let n = split::chunk_len(s, limit);
        let rest = split::past_break(s.skip(n));
        lemma_chunks_fit(rest, limit);
        assert forall|i: int| 0 <= i < split::chunks(s, limit).len() implies 0 < (
        #[trigger] split::chunks(s, limit)[i]).len() && model::byte_len(split::chunks(s, limit)[i])
            <= limit by {
            if i > 0 {
                assert(split::chunks(s, limit)[i] == split::chunks(rest, limit)[i - 1]);
            }
        }
    }
}

/// A text that is not empty is split into chunks that are not empty, at least one of them.
pub proof fn law_chunks_are_not_empty(s: Seq<char>, limit: nat)
    requires
        s.len() > 0,
    ensures
        split::split_into(s, limit).len() > 0,
        forall|i: int|
            0 <= i < split::split_into(s, limit).len() ==> (#[trigger] split::split_into(
                s,
                limit,
            )[i]).len() > 0,
{
    if model::byte_len(s) > split::split_limit(limit) {
        lemma_chunks_fit(s, split::split_limit(limit));
        split::lemma_chunk_len(s, split::split_limit(limit));
    }
}

/// A split loses nothing but line feeds at the ends of chunks.
pub proof fn law_split_keeps_the_text(s: Seq<char>, limit: nat)
    ensures
        is_cut_into(s, split::split_into(s, limit)),
{
    if model::byte_len(s) > split::split_limit(limit) {
        lemma_chunks_keep_the_text(s, split::split_limit(limit));
    } else {
        reveal_with_fuel(is_cut_into, 2);
        assert(s.subrange(0, s.len() as int) =~= s);
        assert(s.skip(s.len() as int) =~= seq![]);
    }
}

proof fn lemma_chunks_keep_the_text(s: Seq<char>, limit: nat)
    requires
        4 <= limit,
    ensures
        is_cut_into(s, split::chunks(s, limit)),
    decreases s.len(),
{
    reveal_with_fuel(is_cut_into, 2);
    if s.len() == 0 {
    } else if model::byte_len(s) <= limit {
        assert(s.subrange(0, s.len() as int) =~= s);
        assert(s.skip(s.len() as int) =~= seq![]);
    } else {
        split::lemma_chunk_len(s, limit);
        let n = split::chunk_len(s, limit);
        let rest = split::past_break(s.skip(n));
        lemma_chunks_keep_the_text(rest, limit);
        assert(split::chunks(s, limit).drop_first() =~= split::chunks(rest, limit));
        assert(s.subrange(0, n) =~= s.take(n));
    }
}

/// A shortened text has at most the limit's bytes and an ellipsis, and its start is the
/// start of the text.
pub proof fn law_shortened_is_a_start(s: Seq<char>, limit: nat)
    ensures
        model::byte_len(split::shortened(s, limit)) <= limit + 3,
        split::shortened(s, limit) == s || exists|n: int|
            0 <= n <= s.len() && split::shortened(s, limit) == #[trigger] s.take(n) + "..."@,
{
    reveal_strlit("...");
    facts::lemma_fitting_from(s, limit, s.len() as int);
    facts::lemma_byte_len_add(model::byte_prefix(s, limit), "..."@);
    reveal_with_fuel(model::byte_len, 4);
    assert(model::byte_len("..."@) == 3);
    assert(s.take(model::fitting_chars(s, limit)) == model::byte_prefix(s, limit));
}

/// A cut never falls inside a character: the longest prefix that fits is taken, and one
/// character more would not fit.
pub proof fn law_prefix_is_the_longest(s: Seq<char>, max: nat, n: int)
    requires
        0 <= n <= s.len(),
        model::byte_len(s.take(n)) <= max,
    ensures
        n <= model::fitting_chars(s, max),
        model::byte_len(model::byte_prefix(s, max)) <= max,
{
    facts::lemma_fitting_from(s, max, s.len() as int);
}

/// A delay never exceeds the greatest one, and never falls with another attempt.
pub proof fn law_retry_delay_grows_to_its_limit(base: nat, attempt: nat)
    ensures
        split::retry_delay(base, attempt) <= split::MAX_RETRY_DELAY_MS,
        split::retry_delay(base, attempt) <= split::retry_delay(base, attempt + 1),
{
    if 1 <= attempt < 21 {
        power2::lemma_pow2_unfold(attempt);
        assert(base * power2::pow2((attempt - 1) as nat) <= base * power2::pow2(attempt))
            by (nonlinear_arith)
            requires
                power2::pow2(attempt) == 2 * power2::pow2((attempt - 1) as nat),
        ;
    }
}

/// A text that fits is kept as it is; of another as many characters are kept as fit.
pub proof fn law_short_text_is_kept(s: Seq<char>, limit: nat, n: int)
    ensures
        model::byte_len(s) <= limit ==> split::shortened(s, limit) == s,
        model::byte_len(s) > limit && 0 <= n < s.len() && model::byte_len(s.take(n)) <= limit
            && model::byte_len(s.take(n + 1)) > limit ==> split::shortened(s, limit) == s.take(n)
            + "..."@,
{
    if model::byte_len(s) > limit && 0 <= n < s.len() && model::byte_len(s.take(n)) <= limit
        && model::byte_len(s.take(n + 1)) > limit {
        lemma_fit_is(s, limit, n);
    }
}

proof fn lemma_fit_is(s: Seq<char>, limit: nat, n: int)
    requires
        0 <= n < s.len(),
        model::byte_len(s.take(n)) <= limit,
        model::byte_len(s.take(n + 1)) > limit,
    ensures
        model::fitting_chars(s, limit) == n,
{
    law_prefix_is_the_longest(s, limit, n);
    facts::lemma_fitting_from(s, limit, s.len() as int);
    let m = model::fitting_chars(s, limit);
    if m > n {
        facts::lemma_byte_len_take_monotone(s, n + 1, m);
    }
}

/// The first attempt waits for the base delay, each further one twice as long as the one before, up
/// to a minute.
pub proof fn law_retry_delay_doubles(base: nat, attempt: nat)
    ensures
        attempt <= 1 ==> split::retry_delay(base, attempt) == (if base > 60_000 {
            60_000
        } else {
            base
        }),
        1 <= attempt < 21 ==> split::retry_delay(base, attempt + 1) == (if 2 * split::retry_delay(
            base,
            attempt,
        ) > 60_000 {
            60_000
        } else {
            2 * split::retry_delay(base, attempt)
        }),
{
    power2::lemma2_to64();
    if 1 <= attempt < 21 {
        power2::lemma_pow2_unfold(attempt);
        assert(base * power2::pow2(attempt) == 2 * (base * power2::pow2((attempt - 1) as nat)))
            by (nonlinear_arith)
            requires
                power2::pow2(attempt) == 2 * power2::pow2((attempt - 1) as nat),
        ;
    }
}

/// Whether a text can be a paragraph: it is not empty, has no whitespace at its ends, and no empty
/// line in it.
pub open spec fn is_paragraph(s: Seq<char>) -> bool {
    s.len() > 0 && model::trimmed(s) == s && !model::has_part(s, "\n\n"@)
}

/// Paragraphs with empty lines between them are the paragraphs of the text, in order.
pub proof fn law_paragraphs_are_found(parts: Seq<Seq<char>>)
    requires
        forall|i: int| 0 <= i < parts.len() ==> is_paragraph(#[trigger] parts[i]),
    ensures
        split::paragraphs(model::joined(parts, "\n\n"@)) == parts,
{
    reveal_strlit("\n\n");
    if parts.len() == 0 {
        let s = model::joined(parts, "\n\n"@);
        assert(s =~= seq![]);
        assert("\n\n"@.len() == 2);
        assert(s.skip(0) =~= s);
        assert(model::split_on(s, "\n\n"@) =~= seq![s]);
        reveal_with_fuel(model::trimmed_nonblank, 2);
        assert(seq![s].drop_last() =~= seq![]);
        assert(split::paragraphs(s) =~= parts);
    } else {
        lemma_split_joined(seq![], parts);
        assert(seq![] + model::joined(parts, "\n\n"@) =~= model::joined(parts, "\n\n"@));
        lemma_kept_nonblank(parts);
    }
}

proof fn lemma_kept_nonblank(parts: Seq<Seq<char>>)
    requires
        forall|i: int| 0 <= i < parts.len() ==> is_paragraph(#[trigger] parts[i]),
    ensures
        model::trimmed_nonblank(parts) == parts,
    decreases parts.len(),
{
    if parts.len() == 0 {
        assert(parts =~= seq![]);
    } else {
        let some = parts.drop_last();
        assert forall|i: int| 0 <= i < some.len() implies is_paragraph(#[trigger] some[i]) by {
            assert(some[i] == parts[i]);
        }
        lemma_kept_nonblank(some);
        assert(is_paragraph(parts[parts.len() - 1]));
        assert(some.push(parts.last()) =~= parts);
    }
}

proof fn lemma_split_joined(pre: Seq<char>, parts: Seq<Seq<char>>)
    requires
        parts.len() > 0,
        forall|i: int| 0 <= i < parts.len() ==> is_paragraph(#[trigger] parts[i]),
    ensures
        model::split_from(pre + model::joined(parts, "\n\n"@), "\n\n"@, pre.len() as int) == parts,
    decreases parts.len(),
{
    reveal_strlit("\n\n");
    let sep = "\n\n"@;
    let first = parts[0];
    assert(is_paragraph(parts[0]));
    if parts.len() == 1 {
        assert(model::joined(parts, sep) == first);
        assert forall|j: int| 0 <= j implies !model::occurs_at(first, sep, j) by {
            if model::occurs_at(first, sep, j) {
                assert(model::has_part(first, sep));
            }
        }
        facts::lemma_find_none(first, sep, 0);
        facts::lemma_find_shift(pre, first, sep, 0);
        assert((pre + first).skip(pre.len() as int) =~= first);
        assert(parts =~= seq![first]);
    } else {
        facts::lemma_joined_first(parts, sep);
        let rest = model::joined(parts.skip(1), sep);
        let tail = first + sep + rest;
        let at = first.len() as int;
        assert(tail.subrange(at, at + 2) =~= sep);
        facts::lemma_trimmed_ends(first);
        assert forall|j: int| 0 <= j < at implies !model::occurs_at(tail, sep, j) by {
            if model::occurs_at(tail, sep, j) {
                let part = tail.subrange(j, j + 2);
                assert(part[0] == tail[j]);
                assert(tail[j] == first[j]);
                if j + 2 <= at {
                    assert(first.subrange(j, j + 2) =~= part);
                    assert(model::occurs_at(first, sep, j));
                } else {
                    assert(first[j] == first.last());
                    assert(model::is_whitespace('\n'));
                }
            }
        }
        facts::lemma_find_is(tail, sep, 0, at);
        facts::lemma_find_shift(pre, tail, sep, 0);
        let more = pre + first + sep;
        assert(more + rest =~= pre + tail);
        let others = parts.skip(1);
        assert forall|i: int| 0 <= i < others.len() implies is_paragraph(#[trigger] others[i]) by {
            assert(others[i] == parts[i + 1]);
        }
        lemma_split_joined(more, others);
        assert((pre + tail).subrange(pre.len() as int, pre.len() + at) =~= first);
        assert(seq![first] + others =~= parts);
    }
}

/// A text that is too long is cut at the last line feed of what fits, which is left out, and the
/// rest is split in the same way.
pub proof fn law_long_text_is_cut_at_a_line(s: Seq<char>, limit: nat, i: int)
    requires
        limit >= 4,
        model::byte_len(s) > limit,
        0 < i < s.len() - 1,
        s[i] == '\n',
        model::byte_len(s.take(i + 1)) <= limit,
        forall|j: int|
            i < j < s.len() && #[trigger] s[j] == '\n' ==> model::byte_len(s.take(j + 1)) > limit,
    ensures
        split::split_into(s, limit) == seq![s.take(i)] + split::split_into(s.skip(i + 1), limit),
{
    let fit = model::fitting_chars(s, limit);
    law_prefix_is_the_longest(s, limit, i + 1);
    facts::lemma_fitting_from(s, limit, s.len() as int);
    let head = s.take(fit);
    assert forall|j: int| i < j < fit implies head[j] != '\n' by {
        if head[j] == '\n' {
            assert(s[j] == '\n');
            facts::lemma_byte_len_take_monotone(s, j + 1, fit);
        }
    }
    assert(head[i] == '\n');
    lemma_last_at(head, '\n', i);
    let rest = s.skip(i);
    assert(rest[0] == '\n');
    assert(rest.skip(1) =~= s.skip(i + 1));
    assert(split::chunk_len(s, limit) == i);
    assert(split::past_break(rest) == s.skip(i + 1));
    assert(split::chunks(s, limit) == seq![s.take(i)] + split::chunks(s.skip(i + 1), limit));
}

proof fn lemma_last_at(s: Seq<char>, c: char, i: int)
    requires
        0 <= i < s.len(),
        s[i] == c,
        forall|j: int| i < j < s.len() ==> s[j] != c,
    ensures
        model::find_last(s, c) == Some(i),
    decreases s.len(),
{
    if i < s.len() - 1 {
        lemma_last_at(s.drop_last(), c, i);
    }
}

/// A text that is too long, and of which no line ends within what fits, is cut behind as many
/// characters as fit.
pub proof fn law_long_line_is_cut_where_it_fits(s: Seq<char>, limit: nat, n: int)
    requires
        limit >= 4,
        model::byte_len(s) > limit,
        0 < n < s.len(),
        model::byte_len(s.take(n)) <= limit,
        model::byte_len(s.take(n + 1)) > limit,
        !s.take(n).contains('\n'),
    ensures
        split::split_into(s, limit).len() > 0,
        split::split_into(s, limit)[0] == s.take(n),
{
    lemma_fit_is(s, limit, n);
    lemma_last_none(s.take(n), '\n');
}

proof fn lemma_last_none(s: Seq<char>, c: char)
    requires
        !s.contains(c),
    ensures
        model::find_last(s, c) is None,
    decreases s.len(),
{
    if s.len() > 0 {
        assert(s.contains(s[s.len() - 1]));
        assert forall|j: int| 0 <= j < s.drop_last().len() implies s.drop_last()[j] != c by {
            assert(s.contains(s[j]));
        }
        lemma_last_none(s.drop_last(), c);
    }
}

/// No paragraph is empty, and none has whitespace at its ends.
pub proof fn law_paragraphs_are_trimmed(s: Seq<char>, i: int)
    requires
        0 <= i < split::paragraphs(s).len(),
    ensures
        split::paragraphs(s)[i].len() > 0,
        model::trimmed(split::paragraphs(s)[i]) == split::paragraphs(s)[i],
{
    lemma_trimmed_parts(model::split_on(s, "\n\n"@), i);
}

proof fn lemma_trimmed_parts(parts: Seq<Seq<char>>, i: int)
    requires
        0 <= i < model::trimmed_nonblank(parts).len(),
    ensures
        model::trimmed_nonblank(parts)[i].len() > 0,
        model::trimmed(model::trimmed_nonblank(parts)[i]) == model::trimmed_nonblank(parts)[i],
    decreases parts.len(),
{
    let rest = model::trimmed_nonblank(parts.drop_last());
    if i < rest.len() {
        lemma_trimmed_parts(parts.drop_last(), i);
    } else {
        facts::lemma_trimmed_twice(parts.last());
    }
}

} // verus!
