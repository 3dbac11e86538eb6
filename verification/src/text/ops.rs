//! Text operations on `str` and `String`.
use super::facts;
use super::model;
use vstd::prelude::*;
use vstd::string::*;

verus! {

/// `String::push` appends the given character.
pub assume_specification[ String::push ](s: &mut String, c: char)
    ensures
        final(s)@ == old(s)@.push(c),
;

/// The characters of a string, in order.
pub fn to_chars(s: &str) -> (v: Vec<char>)
    ensures
        v@ == s@,
{
    let mut v: Vec<char> = Vec::new();
    for c in it: s.chars()
        invariant
            v@ == it.seq().take(it.index() as int),
            it.seq() == s@,
    {
        v.push(c);
    }
    v
}

/// The string of the characters `v[from..to]`.
pub fn from_chars(v: &[char], from: usize, to: usize) -> (s: String)
    requires
        from <= to <= v@.len(),
    ensures
        s@ == v@.subrange(from as int, to as int),
{
    let mut s = String::new();
    let mut i: usize = from;
    while i < to
        invariant
            from <= i <= to <= v@.len(),
            s@ == v@.subrange(from as int, i as int),
        decreases to - i,
    {
        s.push(v[i]);
        i += 1;
        assert(s@ =~= v@.subrange(from as int, i as int));
    }
    s
}

/// Whether a character has the Unicode `White_Space` property.
pub fn is_whitespace(c: char) -> (r: bool)
    ensures
        r == model::is_whitespace(c),
{
    let u: u32 = c as u32;
    (0x09 <= u && u <= 0x0d) || u == 0x20 || u == 0x85 || u == 0xa0 || u == 0x1680 || (0x2000 <= u
        && u <= 0x200a) || u == 0x2028 || u == 0x2029 || u == 0x202f || u == 0x205f || u == 0x3000
}

/// Whether `pat` stands in `v` at index `i`.
pub fn occurs_at(v: &[char], pat: &[char], i: usize) -> (r: bool)
    ensures
        r == model::occurs_at(v@, pat@, i as int),
{
    if pat.len() > v.len() || i > v.len() - pat.len() {
        return false;
    }
    let mut j: usize = 0;
    while j < pat.len()
        invariant
            j <= pat@.len(),
            i + pat@.len() <= v@.len() <= usize::MAX,
            forall|k: int| 0 <= k < j ==> v@[i + k] == pat@[k],
        decreases pat@.len() - j,
    {
        if v[i + j] != pat[j] {
            assert(v@.subrange(i as int, i + pat@.len())[j as int] != pat@[j as int]);
            return false;
        }
        j += 1;
    }
    true
}

/// Whether two strings have the same characters.
pub fn same(a: &str, b: &str) -> (r: bool)
    ensures
        r == (a@ == b@),
{
    let x = to_chars(a);
    let y = to_chars(b);
    if x.len() != y.len() {
        return false;
    }
    let r = occurs_at(&x, &y, 0);
    assert(x@.subrange(0, y@.len() as int) =~= x@);
    r
}

/// The least index from `from` on at which `pat` stands in `v`.
pub fn find_from(v: &[char], pat: &[char], from: usize) -> (r: Option<usize>)
    ensures
        r matches Some(i) ==> model::find_from(v@, pat@, from as int) == Some(i as int),
        r is None ==> model::find_from(v@, pat@, from as int) is None,
{
    if pat.len() > v.len() {
        return None;
    }
    let last: usize = v.len() - pat.len();
    let mut i: usize = from;
    while i <= last
        invariant
            from <= i,
            last == v@.len() - pat@.len(),
            v@.len() <= usize::MAX,
            model::find_from(v@, pat@, from as int) == model::find_from(v@, pat@, i as int),
        decreases last + 1 - i,
    {
        if occurs_at(v, pat, i) {
            return Some(i);
        }
        if i == last {
            assert(model::find_from(v@, pat@, i + 1) is None);
            return None;
        }
        i += 1;
    }
    None
}

/// The least index, counted in characters, at which `pat` stands in `s`.
pub fn find(s: &str, pat: &str) -> (r: Option<usize>)
    ensures
        r matches Some(i) ==> model::find_first(s@, pat@) == Some(i as int),
        r is None ==> model::find_first(s@, pat@) is None,
{
    let v = to_chars(s);
    let p = to_chars(pat);
    find_from(&v, &p, 0)
}

/// Whether `pat` stands somewhere in `s`.
pub fn contains(s: &str, pat: &str) -> (r: bool)
    ensures
        r == model::has_part(s@, pat@),
{
    proof {
        facts::lemma_find_from(s@, pat@, 0);
    }
    find(s, pat).is_some()
}

/// Whether `s` begins with `pat`.
pub fn starts_with(s: &str, pat: &str) -> (r: bool)
    ensures
        r == model::begins_with(s@, pat@),
{
    let v = to_chars(s);
    let p = to_chars(pat);
    occurs_at(&v, &p, 0)
}

/// Whether `s` ends with `pat`.
pub fn ends_with(s: &str, pat: &str) -> (r: bool)
    ensures
        r == model::finishes_with(s@, pat@),
{
    let v = to_chars(s);
    let p = to_chars(pat);
    if p.len() > v.len() {
        return false;
    }
    occurs_at(&v, &p, v.len() - p.len())
}

/// `s` without its leading whitespace.
pub fn trim_start<'a>(s: &'a str) -> (r: &'a str)
    ensures
        r@ == model::trimmed_start(s@),
{
    let v = to_chars(s);
    let mut i: usize = 0;
    assert(s@.skip(0) =~= s@);
    while i < v.len() && is_whitespace(v[i])
        invariant
            v@ == s@,
            i <= v@.len(),
            model::trimmed_start(s@) == model::trimmed_start(s@.skip(i as int)),
        decreases v@.len() - i,
    {
        assert(s@.skip(i as int).skip(1) =~= s@.skip(i + 1));
        i += 1;
    }
    assert(s@.subrange(i as int, v@.len() as int) =~= s@.skip(i as int));
    s.substring_char(i, v.len())
}

/// `s` without its trailing whitespace.
pub fn trim_end<'a>(s: &'a str) -> (r: &'a str)
    ensures
        r@ == model::trimmed_end(s@),
{
    let v = to_chars(s);
    let mut n: usize = v.len();
    assert(s@.take(n as int) =~= s@);
    while n > 0 && is_whitespace(v[n - 1])
        invariant
            v@ == s@,
            n <= v@.len(),
            model::trimmed_end(s@) == model::trimmed_end(s@.take(n as int)),
        decreases n,
    {
        assert(s@.take(n as int).drop_last() =~= s@.take(n - 1));
        n -= 1;
    }
    s.substring_char(0, n)
}

/// `s` without its leading and trailing whitespace.
pub fn trim<'a>(s: &'a str) -> (r: &'a str)
    ensures
        r@ == model::trimmed(s@),
{
    trim_end(trim_start(s))
}

/// `s` without the characters `c` at its start.
pub fn trim_start_char<'a>(s: &'a str, c: char) -> (r: &'a str)
    ensures
        r@ == model::trimmed_start_char(s@, c),
{
    let v = to_chars(s);
    let mut i: usize = 0;
    assert(s@.skip(0) =~= s@);
    while i < v.len() && v[i] == c
        invariant
            v@ == s@,
            i <= v@.len(),
            model::trimmed_start_char(s@, c) == model::trimmed_start_char(s@.skip(i as int), c),
        decreases v@.len() - i,
    {
        assert(s@.skip(i as int).skip(1) =~= s@.skip(i + 1));
        i += 1;
    }
    assert(s@.subrange(i as int, v@.len() as int) =~= s@.skip(i as int));
    s.substring_char(i, v.len())
}

/// `s` without the characters `c` at its end.
pub fn trim_end_char<'a>(s: &'a str, c: char) -> (r: &'a str)
    ensures
        r@ == model::trimmed_end_char(s@, c),
{
    let v = to_chars(s);
    let mut n: usize = v.len();
    assert(s@.take(n as int) =~= s@);
    while n > 0 && v[n - 1] == c
        invariant
            v@ == s@,
            n <= v@.len(),
            model::trimmed_end_char(s@, c) == model::trimmed_end_char(s@.take(n as int), c),
        decreases n,
    {
        assert(s@.take(n as int).drop_last() =~= s@.take(n - 1));
        n -= 1;
    }
    s.substring_char(0, n)
}

/// `s` with each occurrence of `pat` replaced by `with`.
pub fn replace(s: &str, pat: &str, with: &str) -> (r: String)
    requires
        pat@.len() > 0,
    ensures
        r@ == model::replaced(s@, pat@, with@),
{
    let v = to_chars(s);
    let p = to_chars(pat);
    let mut out = String::new();
    let mut from: usize = 0;
    loop
        invariant
            v@ == s@,
            p@ == pat@,
            p@.len() > 0,
            from <= v@.len(),
            out@ + model::replaced_from(s@, pat@, with@, from as int) == model::replaced(
                s@,
                pat@,
                with@,
            ),
        decreases v@.len() - from,
    {
        proof {
            facts::lemma_find_from(s@, pat@, from as int);
        }
        match find_from(&v, &p, from) {
            Some(i) => {
                out.append(&from_chars(&v, from, i));
                out.append(with);
                from = i + p.len();
            },
            None => {
                out.append(&from_chars(&v, from, v.len()));
                assert(s@.skip(from as int) =~= s@.subrange(from as int, v@.len() as int));
                return out;
            },
        }
    }
}

/// The pieces of `s` between the occurrences of `sep`.
pub fn split(s: &str, sep: &str) -> (r: Vec<String>)
    requires
        sep@.len() > 0,
    ensures
        model::texts(r@) == model::split_on(s@, sep@),
{
    let v = to_chars(s);
    let p = to_chars(sep);
    let mut out: Vec<String> = Vec::new();
    let mut from: usize = 0;
    loop
        invariant
            v@ == s@,
            p@ == sep@,
            p@.len() > 0,
            from <= v@.len(),
            model::texts(out@) + model::split_from(s@, sep@, from as int) == model::split_on(
                s@,
                sep@,
            ),
        decreases v@.len() - from,
    {
        proof {
            facts::lemma_find_from(s@, sep@, from as int);
        }
        let ghost before = out@;
        match find_from(&v, &p, from) {
            Some(i) => {
                let piece = from_chars(&v, from, i);
                out.push(piece);
                proof {
                    facts::lemma_texts_push(before, piece);
                }
                from = i + p.len();
            },
            None => {
                let piece = from_chars(&v, from, v.len());
                out.push(piece);
                proof {
                    facts::lemma_texts_push(before, piece);
                    assert(s@.skip(from as int) =~= s@.subrange(from as int, v@.len() as int));
                }
                return out;
            },
        }
    }
}

/// The lines of `s`.
pub fn lines(s: &str) -> (r: Vec<String>)
    ensures
        model::texts(r@) == model::lines_of(s@),
{
    let v = to_chars(s);
    let mut out: Vec<String> = Vec::new();
    let mut from: usize = 0;
    while from < v.len()
        invariant
            v@ == s@,
            from <= v@.len(),
            model::texts(out@) + model::lines_from(s@, from as int) == model::lines_of(s@),
        decreases v@.len() - from,
    {
        let p: Vec<char> = vec!['\n'];
        proof {
            assert(p@ =~= seq!['\n']);
            facts::lemma_find_from(s@, p@, from as int);
        }
        let ghost before = out@;
        match find_from(&v, &p, from) {
            Some(i) => {
                let end: usize = if i > from && v[i - 1] == '\r' {
                    i - 1
                } else {
                    i
                };
                let piece = from_chars(&v, from, end);
                out.push(piece);
                proof {
                    assert(piece@ =~= model::without_cr(s@.subrange(from as int, i as int)));
                    facts::lemma_texts_push(before, piece);
                }
                from = i + 1;
            },
            None => {
                let piece = from_chars(&v, from, v.len());
                out.push(piece);
                proof {
                    facts::lemma_texts_push(before, piece);
                    assert(s@.skip(from as int) =~= s@.subrange(from as int, v@.len() as int));
                }
                return out;
            },
        }
    }
    out
}

/// The maximal runs of characters of `s` that are not whitespace.
pub fn words(s: &str) -> (r: Vec<String>)
    ensures
        model::texts(r@) == model::words_of(s@),
{
    let v = to_chars(s);
    let mut out: Vec<String> = Vec::new();
    let mut from: usize = 0;
    while from < v.len()
        invariant
            v@ == s@,
            from <= v@.len(),
            model::texts(out@) + model::words_from(s@, from as int) == model::words_of(s@),
        decreases v@.len() - from,
    {
        if is_whitespace(v[from]) {
            from += 1;
        } else {
            let mut end: usize = from + 1;
            while end < v.len() && !is_whitespace(v[end])
                invariant
                    v@ == s@,
                    from < end <= v@.len(),
                    model::word_end(s@, from as int) == model::word_end(s@, end as int),
                decreases v@.len() - end,
            {
                end += 1;
            }
            let piece = from_chars(&v, from, end);
            let ghost before = out@;
            out.push(piece);
            proof {
                facts::lemma_texts_push(before, piece);
            }
            from = end;
        }
    }
    out
}

/// The parts in order, with `sep` between each two neighbours.
pub fn join(parts: &Vec<String>, sep: &str) -> (r: String)
    ensures
        r@ == model::joined(model::texts(parts@), sep@),
{
    let mut out = String::new();
    let mut i: usize = 0;
    while i < parts.len()
        invariant
            i <= parts@.len(),
            out@ == model::joined(model::texts(parts@).take(i as int), sep@),
        decreases parts@.len() - i,
    {
        let ghost head = model::texts(parts@).take(i + 1);
        assert(head.drop_last() =~= model::texts(parts@).take(i as int));
        if i > 0 {
            out.append(sep);
        }
        out.append(&parts[i]);
        i += 1;
        if i == 1 {
            assert(out@ =~= head[0]);
        }
    }
    assert(model::texts(parts@).take(i as int) =~= model::texts(parts@));
    out
}

/// `s` with its ASCII letters in lower case.
pub fn ascii_lowercase(s: &str) -> (r: String)
    ensures
        r@ == model::ascii_lowered(s@),
{
    let v = to_chars(s);
    let mut out = String::new();
    let mut i: usize = 0;
    while i < v.len()
        invariant
            v@ == s@,
            i <= v@.len(),
            out@ == model::ascii_lowered(s@.take(i as int)),
        decreases v@.len() - i,
    {
        let c = v[i];
        let d = if 'A' <= c && c <= 'Z' {
            (c as u8 + 32) as char
        } else {
            c
        };
        out.push(d);
        i += 1;
        assert(out@ =~= model::ascii_lowered(s@.take(i as int)));
    }
    assert(s@.take(i as int) =~= s@);
    out
}

/// The number of bytes of a string.
pub fn byte_length(s: &str) -> (n: usize)
    ensures
        n == model::byte_len(s@),
{
    proof {
        facts::lemma_byte_len_is_encoding_len(s@);
    }
    s.as_bytes().len()
}

/// The longest prefix of `s` of at most `max` bytes.
pub fn byte_prefix<'a>(s: &'a str, max: usize) -> (r: &'a str)
    ensures
        r@ == model::byte_prefix(s@, max as nat),
{
    let v = to_chars(s);
    let total: usize = byte_length(s);
    let mut n: usize = v.len();
    let mut bytes: usize = total;
    assert(s@.take(n as int) =~= s@);
    while bytes > max
        invariant
            v@ == s@,
            n <= v@.len(),
            bytes == model::byte_len(s@.take(n as int)),
            model::fitting_chars(s@, max as nat) == model::fitting_from(s@, max as nat, n as int),
        decreases n,
    {
        assert(n > 0) by {
            if n == 0 {
                assert(s@.take(0) =~= seq![]);
            }
        }
        assert(s@.take(n as int).drop_last() =~= s@.take(n - 1));
        n -= 1;
        bytes -= char_width(v[n]);
    }
    s.substring_char(0, n)
}

/// The number of bytes of a character.
pub fn char_width(c: char) -> (n: usize)
    ensures
        n == model::char_width(c),
{
    let u: u32 = c as u32;
    if u <= 0x7f {
        1
    } else if u <= 0x7ff {
        2
    } else if u <= 0xffff {
        3
    } else {
        4
    }
}

/// The greatest index, counted in characters, at which `c` stands in `v[..n]`.
pub fn find_last(v: &[char], n: usize, c: char) -> (r: Option<usize>)
    requires
        n <= v@.len(),
    ensures
        r matches Some(i) ==> i < n && v@[i as int] == c && model::find_last(v@.take(n as int), c)
            == Some(i as int),
        r is None ==> model::find_last(v@.take(n as int), c) is None,
{
    let mut i: usize = n;
    while i > 0
        invariant
            i <= n <= v@.len(),
            model::find_last(v@.take(n as int), c) == model::find_last(v@.take(i as int), c),
        decreases i,
    {
        assert(v@.take(i as int).drop_last() =~= v@.take(i - 1));
        i -= 1;
        if v[i] == c {
            return Some(i);
        }
    }
    None
}

/// The given texts, trimmed, without the blank ones.
pub fn trim_nonblank(parts: &Vec<String>) -> (r: Vec<String>)
    ensures
        model::texts(r@) == model::trimmed_nonblank(model::texts(parts@)),
{
    let mut out: Vec<String> = Vec::new();
    let mut i: usize = 0;
    while i < parts.len()
        invariant
            i <= parts@.len(),
            model::texts(out@) == model::trimmed_nonblank(model::texts(parts@).take(i as int)),
        decreases parts@.len() - i,
    {
        let t = trim(&parts[i]);
        assert(model::texts(parts@).take(i + 1).drop_last() =~= model::texts(parts@).take(i as int));
        if !t.is_empty() {
            let owned = t.to_owned();
            proof {
                facts::lemma_texts_push(out@, owned);
            }
            out.push(owned);
        }
        i += 1;
    }
    assert(model::texts(parts@).take(i as int) =~= model::texts(parts@));
    out
}

/// `s` without the copies of `pat` at its start.
pub fn trim_start_text<'a>(s: &'a str, pat: &str) -> (r: &'a str)
    ensures
        r@ == model::trimmed_start_text(s@, pat@),
{
    let n: usize = pat.unicode_len();
    if n == 0 {
        return s;
    }
    let mut rest = s;
    let mut len: usize = s.unicode_len();
    while starts_with(rest, pat)
        invariant
            n == pat@.len(),
            n > 0,
            len == rest@.len(),
            model::trimmed_start_text(s@, pat@) == model::trimmed_start_text(rest@, pat@),
        decreases len,
    {
        let ghost before = rest@;
        rest = rest.substring_char(n, len);
        len = len - n;
        assert(rest@ =~= before.skip(n as int));
    }
    rest
}

/// Whether `a` stands before `b` in the order by characters.
pub fn precedes(a: &str, b: &str) -> (r: bool)
    ensures
        r == model::precedes(a@, b@),
{
    let v = to_chars(a);
    let w = to_chars(b);
    let mut i: usize = 0;
    assert(v@.skip(0) =~= v@);
    assert(w@.skip(0) =~= w@);
    while i < v.len() && i < w.len() && v[i] == w[i]
        invariant
            v@ == a@,
            w@ == b@,
            i <= v@.len(),
            i <= w@.len(),
            model::precedes(a@, b@) == model::precedes(v@.skip(i as int), w@.skip(i as int)),
        decreases v@.len() - i,
    {
        assert(v@.skip(i as int).skip(1) =~= v@.skip(i + 1));
        assert(w@.skip(i as int).skip(1) =~= w@.skip(i + 1));
        i += 1;
    }
    if i >= w.len() {
        false
    } else if i >= v.len() {
        true
    } else {
        v[i] < w[i]
    }
}

/// Whether two strings are the same but for the case of ASCII letters.
pub fn same_ignoring_ascii_case(a: &str, b: &str) -> (r: bool)
    ensures
        r == (model::ascii_lowered(a@) == model::ascii_lowered(b@)),
{
    same(&ascii_lowercase(a), &ascii_lowercase(b))
}

} // verus!
