//! Facts about the text models.
use super::model;
use vstd::prelude::*;

verus! {

/// A search from `from` on gives the least index at or after `from` at which `pat` stands,
/// and nothing only where there is no such index.
pub proof fn lemma_find_from(s: Seq<char>, pat: Seq<char>, from: int)
    requires
        0 <= from,
    ensures
        model::find_from(s, pat, from) matches Some(i) ==> {
            &&& from <= i
            &&& model::occurs_at(s, pat, i)
            &&& forall|j: int| from <= j < i ==> !model::occurs_at(s, pat, j)
        },
        model::find_from(s, pat, from) is None ==> forall|j: int|
            from <= j ==> !model::occurs_at(s, pat, j),
    decreases s.len() - from,
{
    if from + pat.len() <= s.len() && !model::occurs_at(s, pat, from) {
        lemma_find_from(s, pat, from + 1);
    }
}

pub proof fn lemma_texts_push(v: Seq<String>, s: String)
    ensures
        model::texts(v.push(s)) == model::texts(v).push(s@),
        model::texts(v.push(s)) == model::texts(v) + seq![s@],
{
    assert(model::texts(v.push(s)) =~= model::texts(v).push(s@));
    assert(model::texts(v).push(s@) =~= model::texts(v) + seq![s@]);
}

/// The bytes of a text are those of its first character and of the rest.
pub proof fn lemma_byte_len_first(s: Seq<char>)
    requires
        s.len() > 0,
    ensures
        model::byte_len(s) == model::char_width(s[0]) + model::byte_len(s.drop_first()),
    decreases s.len(),
{
    if s.len() == 1 {
        assert(s.drop_last() =~= seq![]);
        assert(s.drop_first() =~= seq![]);
    } else {
        lemma_byte_len_first(s.drop_last());
        assert(s.drop_last().drop_first() =~= s.drop_first().drop_last());
    }
}

/// `byte_len` counts the bytes of the UTF-8 encoding.
pub proof fn lemma_byte_len_is_encoding_len(s: Seq<char>)
    ensures
        model::byte_len(s) == vstd::utf8::encode_utf8(s).len(),
    decreases s.len(),
{
    if s.len() > 0 {
        lemma_byte_len_first(s);
        lemma_byte_len_is_encoding_len(s.drop_first());
        vstd::utf8::char_is_scalar(s[0]);
    }
}

pub proof fn lemma_byte_len_add(a: Seq<char>, b: Seq<char>)
    ensures
        model::byte_len(a + b) == model::byte_len(a) + model::byte_len(b),
    decreases b.len(),
{
    if b.len() == 0 {
        assert(a + b =~= a);
    } else {
        lemma_byte_len_add(a, b.drop_last());
        assert((a + b).drop_last() =~= a + b.drop_last());
    }
}

/// A longer prefix has no fewer bytes.
pub proof fn lemma_byte_len_take_monotone(s: Seq<char>, i: int, j: int)
    requires
        0 <= i <= j <= s.len(),
    ensures
        model::byte_len(s.take(i)) + (j - i) <= model::byte_len(s.take(j)),
        model::byte_len(s.take(j)) <= model::byte_len(s.take(i)) + 4 * (j - i),
    decreases j - i,
{
    if i < j {
        lemma_byte_len_take_monotone(s, i, j - 1);
        assert(s.take(j).drop_last() =~= s.take(j - 1));
    }
}

/// The length of the longest fitting prefix is the greatest index up to which the bytes fit.
pub proof fn lemma_fitting_from(s: Seq<char>, max: nat, from: int)
    requires
        0 <= from <= s.len(),
    ensures
        0 <= model::fitting_from(s, max, from) <= from,
        model::byte_len(s.take(model::fitting_from(s, max, from))) <= max,
        forall|k: int|
            model::fitting_from(s, max, from) < k <= from ==> model::byte_len(#[trigger] s.take(k))
                > max,
    decreases from,
{
    if from == 0 {
        assert(s.take(0) =~= seq![]);
    } else if model::byte_len(s.take(from)) > max {
        lemma_fitting_from(s, max, from - 1);
    }
}

/// What stands in `b` at `i` stands in `a + b` at `a.len() + i`.
pub proof fn lemma_occurs_shift(a: Seq<char>, b: Seq<char>, pat: Seq<char>, i: int)
    requires
        0 <= i,
    ensures
        model::occurs_at(a + b, pat, a.len() + i) == model::occurs_at(b, pat, i),
{
    if i + pat.len() <= b.len() {
        assert((a + b).subrange(a.len() + i, a.len() + i + pat.len()) =~= b.subrange(
            i,
            i + pat.len(),
        ));
    }
}

/// A search in `a + b` that begins in `b` is a search in `b`.
pub proof fn lemma_find_shift(a: Seq<char>, b: Seq<char>, pat: Seq<char>, from: int)
    requires
        0 <= from,
    ensures
        model::find_from(a + b, pat, a.len() + from) == (match model::find_from(b, pat, from) {
            Some(i) => Some(a.len() + i),
            None => None,
        }),
    decreases b.len() - from,
{
    lemma_occurs_shift(a, b, pat, from);
    if from + pat.len() <= b.len() && !model::occurs_at(b, pat, from) {
        lemma_find_shift(a, b, pat, from + 1);
    }
}

/// Where the first occurrence is known, a search gives it.
pub proof fn lemma_find_is(s: Seq<char>, pat: Seq<char>, from: int, at: int)
    requires
        0 <= from <= at,
        model::occurs_at(s, pat, at),
        forall|j: int| from <= j < at ==> !model::occurs_at(s, pat, j),
    ensures
        model::find_from(s, pat, from) == Some(at),
    decreases at - from,
{
    if from < at {
        lemma_find_is(s, pat, from + 1, at);
    }
}

/// Where there is no occurrence, a search gives none.
pub proof fn lemma_find_none(s: Seq<char>, pat: Seq<char>, from: int)
    requires
        0 <= from,
        forall|j: int| from <= j ==> !model::occurs_at(s, pat, j),
    ensures
        model::find_from(s, pat, from) is None,
    decreases s.len() - from,
{
    if from + pat.len() <= s.len() {
        lemma_find_none(s, pat, from + 1);
    }
}

/// A text that the pattern does not occur in is left as it is.
pub proof fn lemma_replaced_absent(s: Seq<char>, pat: Seq<char>, with: Seq<char>)
    requires
        pat.len() > 0,
        !model::has_part(s, pat),
    ensures
        model::replaced(s, pat, with) == s,
{
    lemma_find_none(s, pat, 0);
    assert(s.skip(0) =~= s);
}

/// A pattern without the character `n` that occurs in `a + [n] + b` occurs in `a` or in `b`.
proof fn lemma_part_beside(a: Seq<char>, n: char, b: Seq<char>, pat: Seq<char>, i: int)
    requires
        model::occurs_at(a + seq![n] + b, pat, i),
        !pat.contains(n),
        pat.len() > 0,
    ensures
        model::occurs_at(a, pat, i) || model::occurs_at(b, pat, i - a.len() - 1),
{
    let s = a + seq![n] + b;
    if i <= a.len() < i + pat.len() {
        assert(s.subrange(i, i + pat.len())[a.len() - i] == n);
        assert(pat[a.len() - i] == n);
    } else if i + pat.len() <= a.len() {
        assert(s.subrange(i, i + pat.len()) =~= a.subrange(i, i + pat.len()));
    } else {
        let k = i - a.len() - 1;
        assert(s.subrange(i, i + pat.len()) =~= b.subrange(k, k + pat.len()));
    }
}

/// Replacing `pat` by one character that occurs neither in `pat` nor in `other` leaves no `pat`,
/// and brings in no `other`.
proof fn lemma_replaced_parts(
    s: Seq<char>,
    pat: Seq<char>,
    n: char,
    other: Seq<char>,
    from: int,
    i: int,
)
    requires
        pat.len() > 0,
        other.len() > 0,
        0 <= from <= s.len(),
        !other.contains(n),
        model::occurs_at(model::replaced_from(s, pat, seq![n], from), other, i),
    ensures
        model::has_part(s, other),
        other != pat,
    decreases s.len() - from,
{
    lemma_find_from(s, pat, from);
    match model::find_from(s, pat, from) {
        None => {
            let k = from + i;
            assert(s.skip(from).subrange(i, i + other.len()) =~= s.subrange(k, k + other.len()));
            assert(model::occurs_at(s, other, k));
        },
        Some(at) => {
            let head = s.subrange(from, at);
            let rest = model::replaced_from(s, pat, seq![n], at + pat.len());
            lemma_part_beside(head, n, rest, other, i);
            if model::occurs_at(head, other, i) {
                let k = from + i;
                assert(head.subrange(i, i + other.len()) =~= s.subrange(k, k + other.len()));
                assert(model::occurs_at(s, other, k));
            } else {
                lemma_replaced_parts(s, pat, n, other, at + pat.len(), i - head.len() - 1);
            }
        },
    }
}

/// Replacing `pat` by one character that does not occur in it leaves no `pat`.
pub proof fn lemma_replaced_leaves_none(s: Seq<char>, pat: Seq<char>, n: char)
    requires
        pat.len() > 0,
        !pat.contains(n),
    ensures
        !model::has_part(model::replaced(s, pat, seq![n]), pat),
{
    if model::has_part(model::replaced(s, pat, seq![n]), pat) {
        let i = choose|i: int| model::occurs_at(model::replaced(s, pat, seq![n]), pat, i);
        lemma_replaced_parts(s, pat, n, pat, 0, i);
    }
}

/// Replacing `pat` by one character that does not occur in `other` brings in no `other`.
pub proof fn lemma_replaced_brings_none(s: Seq<char>, pat: Seq<char>, n: char, other: Seq<char>)
    requires
        pat.len() > 0,
        other.len() > 0,
        !other.contains(n),
        !model::has_part(s, other),
    ensures
        !model::has_part(model::replaced(s, pat, seq![n]), other),
{
    if model::has_part(model::replaced(s, pat, seq![n]), other) {
        let i = choose|i: int| model::occurs_at(model::replaced(s, pat, seq![n]), other, i);
        lemma_replaced_parts(s, pat, n, other, 0, i);
    }
}

pub proof fn lemma_precedes_irreflexive(a: Seq<char>)
    ensures
        !model::precedes(a, a),
    decreases a.len(),
{
    if a.len() > 0 {
        lemma_precedes_irreflexive(a.skip(1));
    }
}

pub proof fn lemma_precedes_transitive(a: Seq<char>, b: Seq<char>, c: Seq<char>)
    requires
        model::precedes(a, b),
        model::precedes(b, c),
    ensures
        model::precedes(a, c),
    decreases a.len(),
{
    if a.len() > 0 && a[0] == b[0] && b[0] == c[0] {
        lemma_precedes_transitive(a.skip(1), b.skip(1), c.skip(1));
    }
}

pub proof fn lemma_precedes_total(a: Seq<char>, b: Seq<char>)
    ensures
        a == b || model::precedes(a, b) || model::precedes(b, a),
    decreases a.len(),
{
    if a.len() > 0 && b.len() > 0 && a[0] == b[0] {
        lemma_precedes_total(a.skip(1), b.skip(1));
        if a.skip(1) == b.skip(1) {
            assert(a =~= seq![a[0]] + a.skip(1));
            assert(b =~= seq![b[0]] + b.skip(1));
        }
    } else if a.len() == 0 && b.len() == 0 {
        assert(a =~= b);
    }
}

/// A text whose two ends are no whitespace is trimmed already, and whitespace around it is
/// trimmed off.
pub proof fn lemma_trimmed_core(left: Seq<char>, core: Seq<char>, right: Seq<char>)
    requires
        model::is_blank(left),
        model::is_blank(right),
        core.len() > 0,
        !model::is_whitespace(core[0]),
        !model::is_whitespace(core.last()),
    ensures
        model::trimmed(left + core + right) == core,
{
    lemma_trimmed_start_blank(left, core + right);
    assert(left + core + right =~= left + (core + right));
    lemma_trimmed_end_blank(core, right);
}

proof fn lemma_trimmed_start_blank(left: Seq<char>, rest: Seq<char>)
    requires
        model::is_blank(left),
        rest.len() > 0,
        !model::is_whitespace(rest[0]),
    ensures
        model::trimmed_start(left + rest) == rest,
    decreases left.len(),
{
    if left.len() == 0 {
        assert(left + rest =~= rest);
    } else {
        assert(model::is_whitespace(left[0]));
        assert((left + rest).skip(1) =~= left.skip(1) + rest);
        lemma_trimmed_start_blank(left.skip(1), rest);
    }
}

pub proof fn lemma_trimmed_end_blank(rest: Seq<char>, right: Seq<char>)
    requires
        model::is_blank(right),
        rest.len() > 0,
        !model::is_whitespace(rest.last()),
    ensures
        model::trimmed_end(rest + right) == rest,
    decreases right.len(),
{
    if right.len() == 0 {
        assert(rest + right =~= rest);
    } else {
        assert(model::is_whitespace(right.last()));
        assert((rest + right).drop_last() =~= rest + right.drop_last());
        lemma_trimmed_end_blank(rest, right.drop_last());
    }
}

/// Trimming leaves no whitespace at the ends, and leaves nothing only of a blank text.
pub proof fn lemma_trimmed_ends(s: Seq<char>)
    ensures
        model::trimmed(s).len() > 0 ==> !model::is_whitespace(model::trimmed(s)[0])
            && !model::is_whitespace(model::trimmed(s).last()),
        model::trimmed(s).len() <= s.len(),
{
    lemma_trimmed_start_ends(s);
    lemma_trimmed_end_ends(model::trimmed_start(s));
}

proof fn lemma_trimmed_start_ends(s: Seq<char>)
    ensures
        model::trimmed_start(s).len() > 0 ==> !model::is_whitespace(model::trimmed_start(s)[0]),
        model::trimmed_start(s).len() <= s.len(),
    decreases s.len(),
{
    if s.len() > 0 && model::is_whitespace(s[0]) {
        lemma_trimmed_start_ends(s.skip(1));
    }
}

proof fn lemma_trimmed_end_ends(s: Seq<char>)
    ensures
        model::trimmed_end(s).len() > 0 ==> !model::is_whitespace(model::trimmed_end(s).last())
            && model::trimmed_end(s)[0] == s[0],
        model::trimmed_end(s).len() <= s.len(),
    decreases s.len(),
{
    if s.len() > 0 && model::is_whitespace(s.last()) {
        lemma_trimmed_end_ends(s.drop_last());
    }
}

/// Where the trimmed text stands in a text: only whitespace stands around it.
pub proof fn lemma_trimmed_place(s: Seq<char>) -> (a: int)
    ensures
        0 <= a <= a + model::trimmed(s).len() <= s.len(),
        model::trimmed(s) == s.subrange(a, a + model::trimmed(s).len()),
        model::is_blank(s.take(a)),
        model::is_blank(s.skip(a + model::trimmed(s).len())),
{
    let t = model::trimmed_start(s);
    let a = s.len() - t.len();
    lemma_trimmed_start_place(s);
    lemma_trimmed_end_place(t);
    let n = model::trimmed(s).len();
    assert(model::trimmed(s) =~= s.subrange(a, a + n));
    assert forall|i: int| 0 <= i < s.skip(a + n).len() implies model::is_whitespace(
        #[trigger] s.skip(a + n)[i],
    ) by {
        assert(s.skip(a + n)[i] == t.skip(n as int)[i]);
    }
    a
}

/// A pattern without whitespace at its ends that occurs in a text occurs in it trimmed.
pub proof fn lemma_occurs_in_core(s: Seq<char>, pat: Seq<char>, i: int, a: int)
    requires
        model::occurs_at(s, pat, i),
        pat.len() > 0,
        !model::is_whitespace(pat[0]),
        !model::is_whitespace(pat.last()),
        0 <= a <= a + model::trimmed(s).len() <= s.len(),
        model::trimmed(s) == s.subrange(a, a + model::trimmed(s).len()),
        model::is_blank(s.take(a)),
        model::is_blank(s.skip(a + model::trimmed(s).len())),
    ensures
        model::occurs_at(model::trimmed(s), pat, i - a),
{
    let t = model::trimmed(s);
    let b = a + t.len();
    let part = s.subrange(i, i + pat.len());
    assert(part[0] == s[i]);
    assert(part.last() == s[i + pat.len() - 1]);
    if i < a {
        assert(model::is_whitespace(s.take(a)[i]));
    }
    if i + pat.len() > b {
        assert(model::is_whitespace(s.skip(b)[i + pat.len() - 1 - b]));
    }
    assert(t.subrange(i - a, i - a + pat.len()) =~= part);
}

/// What a text holds, it holds too when it is trimmed, if that has no whitespace at its ends.
pub proof fn lemma_part_of_trimmed(s: Seq<char>, pat: Seq<char>)
    requires
        model::has_part(s, pat),
        pat.len() > 0,
        !model::is_whitespace(pat[0]),
        !model::is_whitespace(pat.last()),
    ensures
        model::has_part(model::trimmed(s), pat),
{
    let a = lemma_trimmed_place(s);
    let i = choose|i: int| model::occurs_at(s, pat, i);
    lemma_occurs_in_core(s, pat, i, a);
}

/// What one of two texts holds, both together hold.
pub proof fn lemma_part_of_either(a: Seq<char>, b: Seq<char>, pat: Seq<char>)
    ensures
        model::has_part(a, pat) ==> model::has_part(a + b, pat),
        model::has_part(b, pat) ==> model::has_part(a + b, pat),
{
    if model::has_part(a, pat) {
        let i = choose|i: int| model::occurs_at(a, pat, i);
        assert((a + b).subrange(i, i + pat.len()) =~= a.subrange(i, i + pat.len()));
        assert(model::occurs_at(a + b, pat, i));
    }
    if model::has_part(b, pat) {
        let i = choose|i: int| model::occurs_at(b, pat, i);
        lemma_occurs_shift(a, b, pat, i);
        assert(model::occurs_at(a + b, pat, a.len() + i));
    }
}

/// A text holds itself.
pub proof fn lemma_part_of_itself(s: Seq<char>)
    ensures
        model::has_part(s, s),
{
    assert(s.subrange(0, s.len() as int) =~= s);
    assert(model::occurs_at(s, s, 0));
}

/// A text that stands between two others is held by all three together.
pub proof fn lemma_part_between(a: Seq<char>, s: Seq<char>, b: Seq<char>)
    ensures
        model::has_part(a + s + b, s),
{
    lemma_part_of_itself(s);
    lemma_part_of_either(a, s, s);
    lemma_part_of_either(a + s, b, s);
}

/// What a text holds of a text that holds a third, it holds of the third.
pub proof fn lemma_part_of_part(s: Seq<char>, mid: Seq<char>, pat: Seq<char>)
    requires
        model::has_part(s, mid),
        model::has_part(mid, pat),
    ensures
        model::has_part(s, pat),
{
    let i = choose|i: int| model::occurs_at(s, mid, i);
    let j = choose|j: int| model::occurs_at(mid, pat, j);
    let part = s.subrange(i, i + mid.len());
    assert(part == mid);
    assert(s.subrange(i + j, i + j + pat.len()) =~= part.subrange(j, j + pat.len()));
    assert(model::occurs_at(s, pat, i + j));
}

/// Parts that are joined are held by the whole.
pub proof fn lemma_joined_holds(parts: Seq<Seq<char>>, sep: Seq<char>, i: int)
    requires
        0 <= i < parts.len(),
    ensures
        model::has_part(model::joined(parts, sep), parts[i]),
    decreases parts.len(),
{
    if parts.len() == 1 {
        lemma_part_of_itself(parts[0]);
    } else {
        let before = model::joined(parts.drop_last(), sep);
        if i < parts.len() - 1 {
            lemma_joined_holds(parts.drop_last(), sep, i);
            lemma_part_of_either(before, sep, parts[i]);
            lemma_part_of_either(before + sep, parts.last(), parts[i]);
        } else {
            lemma_part_of_itself(parts.last());
            lemma_part_of_either(before + sep, parts.last(), parts.last());
        }
    }
}

/// Parts that are joined with nothing between them are put one behind the other.
pub proof fn lemma_joined_flat(parts: Seq<Seq<char>>)
    ensures
        model::joined(parts, ""@) == parts.flatten(),
    decreases parts.len(),
{
    reveal_strlit("");
    assert(""@ =~= seq![]);
    parts.lemma_flatten_and_flatten_alt_are_equivalent();
    if parts.len() == 1 {
        parts.lemma_flatten_one_element();
    } else if parts.len() > 1 {
        let before = parts.drop_last();
        lemma_joined_flat(before);
        before.lemma_flatten_and_flatten_alt_are_equivalent();
        assert(before.flatten() + ""@ + parts.last() =~= before.flatten() + parts.last());
    }
}

proof fn lemma_trimmed_start_place(s: Seq<char>)
    ensures
        ({
            let t = model::trimmed_start(s);
            &&& t.len() <= s.len()
            &&& t == s.skip(s.len() - t.len())
            &&& model::is_blank(s.take(s.len() - t.len()))
        }),
    decreases s.len(),
{
    let t = model::trimmed_start(s);
    if s.len() > 0 && model::is_whitespace(s[0]) {
        lemma_trimmed_start_place(s.skip(1));
        let n = s.len() - t.len();
        assert(s.skip(1).skip(n - 1) =~= s.skip(n));
        assert forall|i: int| 0 <= i < n implies model::is_whitespace(#[trigger] s.take(n)[i]) by {
            if i > 0 {
                assert(s.skip(1).take(n - 1)[i - 1] == s[i]);
            }
        }
    } else {
        assert(s.skip(0) =~= s);
    }
}

proof fn lemma_trimmed_end_place(s: Seq<char>)
    ensures
        ({
            let t = model::trimmed_end(s);
            &&& t.len() <= s.len()
            &&& t == s.take(t.len() as int)
            &&& model::is_blank(s.skip(t.len() as int))
        }),
    decreases s.len(),
{
    let t = model::trimmed_end(s);
    if s.len() > 0 && model::is_whitespace(s.last()) {
        lemma_trimmed_end_place(s.drop_last());
        let n = t.len() as int;
        assert(s.drop_last().take(n) =~= s.take(n));
        assert forall|i: int| 0 <= i < s.len() - n implies model::is_whitespace(
            #[trigger] s.skip(n)[i],
        ) by {
            if n + i < s.len() - 1 {
                assert(s.drop_last().skip(n)[i] == s[n + i]);
            }
        }
    } else {
        assert(s.take(s.len() as int) =~= s);
    }
}

/// Trimming twice is trimming once.
pub proof fn lemma_trimmed_twice(s: Seq<char>)
    ensures
        model::trimmed(model::trimmed(s)) == model::trimmed(s),
{
    let t = model::trimmed(s);
    lemma_trimmed_ends(s);
    if t.len() > 0 {
        lemma_trimmed_core(seq![], t, seq![]);
        assert(Seq::<char>::empty() + t + Seq::<char>::empty() =~= t);
    }
}

/// Whether a text can be a line: it has no line feed, and no carriage return at its end.
pub open spec fn is_line(s: Seq<char>) -> bool {
    !s.contains('\n') && (s.len() > 0 ==> s.last() != '\r')
}

/// The lines of a text that begins with a line and a line feed.
pub proof fn lemma_lines_step(pre: Seq<char>, line: Seq<char>, rest: Seq<char>)
    requires
        is_line(line),
    ensures
        model::lines_from(pre + (line + "\n"@ + rest), pre.len() as int) == seq![line]
            + model::lines_from(pre + (line + "\n"@ + rest), (pre.len() + line.len() + 1) as int),
{
    reveal_strlit("\n");
    let s = pre + (line + "\n"@ + rest);
    let nl = seq!['\n'];
    let at = (pre.len() + line.len()) as int;
    assert(s[at] == '\n');
    assert(s.subrange(at, at + 1) =~= nl);
    assert forall|j: int| pre.len() <= j < at implies !model::occurs_at(s, nl, j) by {
        if model::occurs_at(s, nl, j) {
            assert(s.subrange(j, j + 1)[0] == '\n');
            assert(line[j - pre.len()] == '\n');
        }
    }
    lemma_find_is(s, nl, pre.len() as int, at);
    assert(s.subrange(pre.len() as int, at) =~= line);
}

/// The last line of a text, with no line feed behind it.
pub proof fn lemma_lines_last(pre: Seq<char>, line: Seq<char>)
    requires
        !line.contains('\n'),
        line.len() > 0,
    ensures
        model::lines_from(pre + line, pre.len() as int) == seq![line],
{
    let s = pre + line;
    let nl = seq!['\n'];
    assert forall|j: int| pre.len() <= j implies !model::occurs_at(s, nl, j) by {
        if model::occurs_at(s, nl, j) {
            assert(s.subrange(j, j + 1)[0] == '\n');
            assert(line[j - pre.len()] == '\n');
        }
    }
    lemma_find_none(s, nl, pre.len() as int);
    assert(s.skip(pre.len() as int) =~= line);
}

/// Joining from the front.
pub proof fn lemma_joined_first(parts: Seq<Seq<char>>, sep: Seq<char>)
    requires
        parts.len() > 1,
    ensures
        model::joined(parts, sep) == parts[0] + sep + model::joined(parts.skip(1), sep),
    decreases parts.len(),
{
    if parts.len() == 2 {
        assert(parts.drop_last() =~= seq![parts[0]]);
        assert(parts.skip(1) =~= seq![parts[1]]);
        assert(model::joined(parts.drop_last(), sep) == parts[0]);
    } else {
        lemma_joined_first(parts.drop_last(), sep);
        assert(parts.drop_last().skip(1) =~= parts.skip(1).drop_last());
        let mid = model::joined(parts.skip(1).drop_last(), sep);
        assert(parts[0] + sep + mid + sep + parts.last() =~= parts[0] + sep + (mid + sep
            + parts.last()));
    }
}

/// Lines that are joined by line feeds are the lines of the result, unless the last is empty.
pub proof fn lemma_lines_of_joined(pre: Seq<char>, lines: Seq<Seq<char>>)
    requires
        lines.len() > 0,
        lines.last().len() > 0,
        forall|i: int| 0 <= i < lines.len() ==> is_line(#[trigger] lines[i]),
    ensures
        model::lines_from(pre + model::joined(lines, "\n"@), pre.len() as int) == lines,
    decreases lines.len(),
{
    if lines.len() == 1 {
        lemma_lines_last(pre, lines[0]);
        assert(lines =~= seq![lines[0]]);
    } else {
        reveal_strlit("\n");
        lemma_joined_first(lines, "\n"@);
        let rest = model::joined(lines.skip(1), "\n"@);
        lemma_lines_step(pre, lines[0], rest);
        let more = pre + lines[0] + "\n"@;
        assert(more + rest =~= pre + (lines[0] + "\n"@ + rest));
        lemma_lines_of_joined(more, lines.skip(1));
        assert(seq![lines[0]] + lines.skip(1) =~= lines);
    }
}

/// No word is empty.
pub proof fn lemma_words_nonempty(s: Seq<char>, from: int)
    ensures
        forall|i: int|
            0 <= i < model::words_from(s, from).len() ==> (#[trigger] model::words_from(
                s,
                from,
            )[i]).len() > 0,
    decreases s.len() - from,
{
    if 0 <= from < s.len() {
        if model::is_whitespace(s[from]) {
            lemma_words_nonempty(s, from + 1);
            assert(model::words_from(s, from) == model::words_from(s, from + 1));
        } else {
            let end = model::word_end(s, from);
            if from < end <= s.len() {
                lemma_words_nonempty(s, end);
                let rest = model::words_from(s, end);
                let all = seq![s.subrange(from, end)] + rest;
                assert forall|i: int| 0 <= i < all.len() implies (#[trigger] all[i]).len() > 0 by {
                    if i > 0 {
                        assert(all[i] == rest[i - 1]);
                    }
                }
                assert(model::words_from(s, from) == all);
            }
        }
    }
}

} // verus!
