//! How texts are handed to the shell of Windows.
use super::i18n;
use super::i18n::Language;
use crate::text::ops;
use vstd::prelude::*;

verus! {

/// The UTF-16 form of a character: one unit, or two surrogates.
pub open spec fn char_units(c: char) -> Seq<u16> {
    let u = c as u32 as int;
    if u < 0x10000 {
        seq![u as u16]
    } else {
        seq![
            (0xd800 + (u - 0x10000) / 0x400) as u16,
            (0xdc00 + (u - 0x10000) % 0x400) as u16,
        ]
    }
}

/// The UTF-16 form of a text.
pub open spec fn text_units(s: Seq<char>) -> Seq<u16>
    decreases s.len(),
{
    if s.len() == 0 {
        seq![]
    } else {
        text_units(s.drop_last()) + char_units(s.last())
    }
}

/// The UTF-16 form of a text.
pub fn utf16(value: &str) -> (r: Vec<u16>)
    ensures
        r@ == text_units(value@),
{
    let v = ops::to_chars(value);
    let mut out: Vec<u16> = Vec::new();
    let mut i: usize = 0;
    assert(v@.take(0) =~= seq![]);
    while i < v.len()
        invariant
            v@ == value@,
            i <= v@.len(),
            out@ == text_units(v@.take(i as int)),
        decreases v@.len() - i,
    {
        let ghost before = out@;
        assert(v@.take(i + 1).drop_last() =~= v@.take(i as int));
        let u: u32 = v[i] as u32;
        if u < 0x10000 {
            out.push(u as u16);
            assert(out@ =~= before + char_units(v@[i as int]));
        } else {
            let rest: u32 = u - 0x10000;
            out.push((0xd800 + rest / 0x400) as u16);
            out.push((0xdc00 + rest % 0x400) as u16);
            assert(out@ =~= before + char_units(v@[i as int]));
        }
        i += 1;
    }
    assert(v@.take(i as int) =~= value@);
    out
}

/// A text as Windows takes it: in UTF-16, with a zero at its end.
pub fn wide_null(value: &str) -> (r: Vec<u16>)
    ensures
        r@ == text_units(value@).push(0),
{
    let mut out = utf16(value);
    out.push(0);
    out
}

/// The character that stands at `i` in UTF-16, and how many units it takes.
pub open spec fn char_at(units: Seq<u16>, i: int) -> (char, int) {
    let u = units[i] as int;
    if 0xd800 <= u < 0xdc00 && i + 1 < units.len() {
        (((0x10000 + (u - 0xd800) * 0x400 + (units[i + 1] as int - 0xdc00)) as u32) as char, 2)
    } else {
        ((u as u32) as char, 1)
    }
}

/// The text that stands in UTF-16 from `from` on.
pub open spec fn read_units(units: Seq<u16>, from: int) -> Seq<char>
    decreases units.len() - from,
{
    if from < 0 || from >= units.len() {
        seq![]
    } else {
        let (c, n) = char_at(units, from);
        if n > 0 {
            seq![c] + read_units(units, from + n)
        } else {
            seq![]
        }
    }
}

proof fn lemma_units_first(s: Seq<char>)
    requires
        s.len() > 0,
    ensures
        text_units(s) == char_units(s[0]) + text_units(s.skip(1)),
    decreases s.len(),
{
    if s.len() == 1 {
        assert(s.drop_last() =~= seq![]);
        assert(s.skip(1) =~= seq![]);
        assert(text_units(s) =~= char_units(s[0]) + text_units(s.skip(1)));
    } else {
        lemma_units_first(s.drop_last());
        assert(s.drop_last().skip(1) =~= s.skip(1).drop_last());
        assert(text_units(s) =~= char_units(s[0]) + text_units(s.skip(1)));
    }
}

proof fn lemma_read_back(pre: Seq<u16>, s: Seq<char>)
    ensures
        read_units(pre + text_units(s), pre.len() as int) == s,
    decreases s.len(),
{
    if s.len() > 0 {
        lemma_units_first(s);
        let units = pre + text_units(s);
        let first = char_units(s[0]);
        let rest = s.skip(1);
        lemma_read_back(pre + first, rest);
        assert(units =~= (pre + first) + text_units(rest));
        let at = pre.len() as int;
        let c = s[0];
        vstd::utf8::char_is_scalar(c);
        vstd::utf8::char_u32_cast(c, c as u32);
        let u = c as u32 as int;
        assert(units[at] == first[0]);
        if u >= 0x10000 {
            let high = (u - 0x10000) / 0x400;
            let low = (u - 0x10000) % 0x400;
            assert(units[at + 1] == first[1]);
            assert(high * 0x400 + low == u - 0x10000);
            assert(0 <= high < 0x400);
            assert(first[0] as int == 0xd800 + high);
            assert(first[1] as int == 0xdc00 + low);
            assert(0x10000 + (first[0] as int - 0xd800) * 0x400 + (first[1] as int - 0xdc00) == u);
        } else {
            assert(first[0] as int == u);
            assert(!(0xd800 <= u < 0xdc00));
        }
        assert(char_at(units, at) == (c, first.len() as int));
        assert(seq![s[0]] + rest =~= s);
    } else {
        assert(read_units(pre + text_units(s), pre.len() as int) =~= s);
    }
}

/// A text that is handed to Windows is read there as it was.
pub proof fn law_wide_text_is_read_back(s: Seq<char>)
    ensures
        read_units(text_units(s), 0) == s,
{
    lemma_read_back(seq![], s);
    assert(Seq::<u16>::empty() + text_units(s) =~= text_units(s));
}

/// What came of opening a file or a page: `code` is what the shell answered.
pub fn shell_execute(code: isize, language: Language) -> (r: Result<(), String>)
    ensures
        match r {
            Ok(_) => code > 32,
            Err(e) => code <= 32 && e@ == i18n::shell_error_text(code, language),
        },
{
    if code > 32 {
        Ok(())
    } else {
        Err(i18n::shell_execute_error(code, language))
    }
}

/// Why a file or a page could not be opened, where it could not be.
fn open_target(target: &str, code: isize, language: Language) -> (r: Option<String>)
    ensures
        match r {
            None => code > 32,
            Some(message) => code <= 32 && message@ == i18n::open_failed_text(
                target@,
                i18n::shell_error_text(code, language),
                language,
            ),
        },
{
    match shell_execute(code, language) {
        Ok(_) => None,
        Err(e) => Some(i18n::open_target_failed(target, &e, language)),
    }
}

/// Why a file could not be opened, where it could not be. `code` is what the shell answered.
pub fn open_path(path: &str, code: isize, language: Language) -> (r: Option<String>)
    ensures
        match r {
            None => code > 32,
            Some(message) => code <= 32 && message@ == i18n::open_failed_text(
                path@,
                i18n::shell_error_text(code, language),
                language,
            ),
        },
{
    open_target(path, code, language)
}

/// Why a page could not be opened, where it could not be. `code` is what the shell answered.
pub fn open_url(url: &str, code: isize, language: Language) -> (r: Option<String>)
    ensures
        match r {
            None => code > 32,
            Some(message) => code <= 32 && message@ == i18n::open_failed_text(
                url@,
                i18n::shell_error_text(code, language),
                language,
            ),
        },
{
    open_target(url, code, language)
}

/// Writes the tip of the tray icon into a buffer, with a zero at its end: as much of it as fits.
pub fn write_tip(buffer: &mut Vec<u16>, text: &str)
    requires
        old(buffer)@.len() > 0,
    ensures
        final(buffer)@.len() == old(buffer)@.len(),
        ({
            let units = text_units(text@);
            let n = if units.len() < old(buffer)@.len() {
                units.len() as int
            } else {
                old(buffer)@.len() - 1
            };
            &&& final(buffer)@.take(n) == units.take(n)
            &&& final(buffer)@[n] == 0
            &&& final(buffer)@.skip(n + 1) == old(buffer)@.skip(n + 1)
        }),
{
    let wide = utf16(text);
    let n: usize = if wide.len() < buffer.len() {
        wide.len()
    } else {
        buffer.len() - 1
    };
    let ghost before = buffer@;
    let mut i: usize = 0;
    while i < n
        invariant
            i <= n < buffer@.len(),
            n <= wide@.len(),
            buffer@.len() == before.len(),
            forall|k: int| 0 <= k < i ==> buffer@[k] == wide@[k],
            forall|k: int| i <= k < before.len() ==> buffer@[k] == before[k],
        decreases n - i,
    {
        buffer.set(i, wide[i]);
        i += 1;
    }
    buffer.set(n, 0);
    assert(buffer@.take(n as int) =~= wide@.take(n as int));
    assert(buffer@.skip(n + 1) =~= before.skip(n + 1));
}

} // verus!
