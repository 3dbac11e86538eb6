//! What holds of the README of the group logs.
use vstd::prelude::*;

use crate::group_log;
use crate::group_log::{BRIDGE_README_END, BRIDGE_README_START};
use crate::text::facts;
use crate::text::model;

verus! {

proof fn lemma_start_mark()
    ensures
        BRIDGE_README_START@.len() > 0,
        BRIDGE_README_START@[0] == '<',
        !BRIDGE_README_START@.contains('\n'),
{
    reveal_strlit("<!-- alma-onebot-bridge:start -->");
}

proof fn lemma_start_mark_end()
    ensures
        BRIDGE_README_START@.last() == '>',
{
    reveal_strlit("<!-- alma-onebot-bridge:start -->");
}

proof fn lemma_end_mark()
    ensures
        BRIDGE_README_END@.len() > 0,
        BRIDGE_README_END@[0] == '<',
        BRIDGE_README_END@.last() == '>',
        forall|i: int|
            0 <= i < BRIDGE_README_END@.len() - 1 ==> #[trigger] BRIDGE_README_END@[i] != '>',
{
    reveal_strlit("<!-- alma-onebot-bridge:end -->");
}

/// A marked part without its last line feed.
spec fn marked(body: Seq<char>) -> Seq<char> {
    BRIDGE_README_START@ + body + BRIDGE_README_END@
}

/// Whether the start mark occurs in `p` followed by the mark at the end of `p` only.
spec fn unmarked(p: Seq<char>) -> bool {
    forall|j: int|
        0 <= j < p.len() ==> !#[trigger] model::occurs_at(
            p + BRIDGE_README_START@,
            BRIDGE_README_START@,
            j,
        )
}

proof fn lemma_found_start(p: Seq<char>, body: Seq<char>, q: Seq<char>)
    requires
        unmarked(p),
    ensures
        model::find_first(p + marked(body) + q, BRIDGE_README_START@) == Some(p.len() as int),
{
    let mark = BRIDGE_README_START@;
    let s = p + marked(body) + q;
    assert(s.subrange(p.len() as int, (p.len() + mark.len()) as int) =~= mark);
    assert forall|j: int| 0 <= j < p.len() implies !model::occurs_at(s, mark, j) by {
        if model::occurs_at(s, mark, j) {
            assert((p + mark).subrange(j, j + mark.len()) =~= s.subrange(j, j + mark.len()));
            assert(model::occurs_at(p + mark, mark, j));
        }
    }
    facts::lemma_find_is(s, mark, 0, p.len() as int);
}

proof fn lemma_found_end(p: Seq<char>, body: Seq<char>, q: Seq<char>)
    requires
        !model::has_part(body, BRIDGE_README_END@),
    ensures
        model::find_from(
            p + marked(body) + q,
            BRIDGE_README_END@,
            (p.len() + BRIDGE_README_START@.len()) as int,
        ) == Some(p.len() + marked(body).len() - BRIDGE_README_END@.len()),
{
    lemma_end_mark();
    let mark = BRIDGE_README_END@;
    let s = p + marked(body) + q;
    let from = (p.len() + BRIDGE_README_START@.len()) as int;
    let at = from + body.len();
    assert(s.subrange(at, at + mark.len()) =~= mark);
    assert forall|j: int| from <= j < at implies !model::occurs_at(s, mark, j) by {
        if model::occurs_at(s, mark, j) {
            let part = s.subrange(j, j + mark.len());
            assert(part[mark.len() - 1] == s[j + mark.len() - 1]);
            if j + mark.len() <= at {
                assert(body.subrange(j - from, j - from + mark.len()) =~= part);
                assert(model::occurs_at(body, mark, j - from));
            } else {
                let i = j + mark.len() - 1 - at;
                assert(s[j + mark.len() - 1] == mark[i]);
            }
        }
    }
    facts::lemma_find_is(s, mark, from, at);
}

proof fn lemma_section_ended(body: Seq<char>)
    ensures
        group_log::with_newline(group_log::marked_part(body)) == group_log::marked_part(body),
        group_log::marked_part(body) == marked(body) + seq!['\n'],
{
    reveal_strlit("\n");
    lemma_end_mark();
    assert(group_log::marked_part(body) =~= marked(body) + seq!['\n']);
    facts::lemma_trimmed_end_blank(marked(body), seq!['\n']);
    assert(marked(body).push('\n') =~= marked(body) + seq!['\n']);
}

/// A marked part is found where it stands.
proof fn lemma_found_part(p: Seq<char>, body: Seq<char>, q: Seq<char>)
    requires
        unmarked(p),
        !model::has_part(body, BRIDGE_README_END@),
    ensures
        ({
            let text = p + marked(body) + q;
            let end = (p.len() + marked(body).len()) as int;
            &&& model::has_part(text, BRIDGE_README_START@)
            &&& group_log::marked_section(text) == Some((p.len() as int, end))
            &&& text.take(p.len() as int) == p
            &&& text.skip(end) == q
        }),
{
    let text = p + marked(body) + q;
    lemma_found_start(p, body, q);
    lemma_found_end(p, body, q);
    facts::lemma_find_from(text, BRIDGE_README_START@, 0);
    assert(model::occurs_at(text, BRIDGE_README_START@, p.len() as int));
    assert(text.take(p.len() as int) =~= p);
    assert(text.skip((p.len() + marked(body).len()) as int) =~= q);
}

/// A README of what stands before the bridge's part, that part, and what stands behind it.
proof fn lemma_merged_again(p: Seq<char>, body: Seq<char>, r: Seq<char>)
    requires
        unmarked(p),
        p.len() > 0 ==> !model::is_whitespace(p[0]),
        !model::has_part(body, BRIDGE_README_END@),
        r.len() > 0 ==> r[0] != '\n' && !model::is_whitespace(r.last()),
    ensures
        ({
            let section = group_log::marked_part(body);
            let merged = group_log::ended(p + section + r);
            group_log::merged_readme(Some(merged), section) == merged
        }),
{
    lemma_section_ended(body);
    lemma_start_mark();
    lemma_end_mark();
    let section = group_log::marked_part(body);
    let merged = group_log::ended(p + section + r);
    let q = if r.len() == 0 {
        Seq::<char>::empty()
    } else {
        seq!['\n'] + r
    };
    let text = p + marked(body) + q;
    assert(merged =~= Seq::<char>::empty() + text + seq!['\n']);
    assert(text.len() > 0);
    assert(text[0] == if p.len() > 0 {
        p[0]
    } else {
        '<'
    });
    assert(text.last() == if r.len() > 0 {
        r.last()
    } else {
        '>'
    });
    facts::lemma_trimmed_core(Seq::empty(), text, seq!['\n']);
    lemma_found_part(p, body, q);
    reveal_with_fuel(model::trimmed_start_char, 2);
    if r.len() > 0 {
        assert(q.skip(1) =~= r);
    } else {
        assert(q =~= r);
    }
    assert(model::trimmed_start_char(q, '\n') == r);
}

proof fn lemma_without_line_feeds(s: Seq<char>)
    ensures
        ({
            let r = model::trimmed_start_char(s, '\n');
            &&& r.len() > 0 ==> r[0] != '\n' && r.last() == s.last()
            &&& r.len() <= s.len()
            &&& r == s.skip(s.len() - r.len())
        }),
    decreases s.len(),
{
    if s.len() > 0 && s[0] == '\n' {
        lemma_without_line_feeds(s.skip(1));
        let r = model::trimmed_start_char(s.skip(1), '\n');
        assert(s.skip(1).skip(s.len() - 1 - r.len()) =~= s.skip(s.len() - r.len()));
    } else {
        assert(s.skip(0) =~= s);
    }
}

proof fn lemma_default_text()
    ensures
        ({
            let p = group_log::default_readme(Seq::empty());
            &&& p.len() > 0
            &&& p[0] == '#'
            &&& forall|j: int| 0 <= j < p.len() ==> #[trigger] p[j] != '<'
        }),
{
    reveal_strlit(
        "# Alma Group Logs\n\nThis README may contain group directory sections from Alma and bridge integrations. alma-onebot-bridge only updates the marked section below.\n\n",
    );
}

proof fn lemma_default_unmarked()
    ensures
        unmarked(group_log::default_readme(Seq::empty())),
        group_log::default_readme(Seq::empty()).len() > 0,
        !model::is_whitespace(group_log::default_readme(Seq::empty())[0]),
{
    lemma_default_text();
    lemma_start_mark();
    let p = group_log::default_readme(Seq::empty());
    let mark = BRIDGE_README_START@;
    assert forall|j: int| 0 <= j < p.len() implies !#[trigger] model::occurs_at(p + mark, mark, j) by {
        if model::occurs_at(p + mark, mark, j) {
            assert((p + mark).subrange(j, j + mark.len())[0] == p[j]);
            assert(p[j] == '<');
        }
    }
}

/// The marks of a README are found in it without the whitespace at its ends.
proof fn lemma_marks_in_trimmed(content: Seq<char>)
    requires
        model::has_part(content, BRIDGE_README_START@) ==> group_log::marked_section(content) is Some,
    ensures
        model::has_part(model::trimmed(content), BRIDGE_README_START@)
            ==> group_log::marked_section(model::trimmed(content)) is Some,
{
    let text = model::trimmed(content);
    let start_mark = BRIDGE_README_START@;
    let end_mark = BRIDGE_README_END@;
    if model::has_part(text, start_mark) {
        lemma_start_mark();
        lemma_start_mark_end();
        lemma_end_mark();
        let a = facts::lemma_trimmed_place(content);
        let i = choose|i: int| model::occurs_at(text, start_mark, i);
        assert(text.subrange(i, i + start_mark.len()) =~= content.subrange(
            a + i,
            a + i + start_mark.len(),
        ));
        assert(model::occurs_at(content, start_mark, a + i));
        let start = model::find_first(content, start_mark)->0;
        facts::lemma_find_from(content, start_mark, 0);
        let from = start + start_mark.len();
        facts::lemma_find_from(content, end_mark, from);
        let end = model::find_from(content, end_mark, from)->0;
        facts::lemma_occurs_in_core(content, start_mark, start, a);
        facts::lemma_occurs_in_core(content, end_mark, end, a);
        facts::lemma_find_from(text, start_mark, 0);
        let found = model::find_first(text, start_mark)->0;
        assert(found <= start - a);
        facts::lemma_find_from(text, end_mark, found + start_mark.len());
    }
}

/// Writing the same part into a README a second time leaves the README as it is. The text
/// between the part's marks must not hold the mark that ends it, and the README must not hold
/// the mark that begins it without the one that ends it.
pub proof fn law_merging_again_changes_nothing(existing: Option<Seq<char>>, body: Seq<char>)
    requires
        !model::has_part(body, BRIDGE_README_END@),
        existing matches Some(content) ==> model::has_part(content, BRIDGE_README_START@)
            ==> group_log::marked_section(content) is Some,
    ensures
        ({
            let section = group_log::marked_part(body);
            let merged = group_log::merged_readme(existing, section);
            group_log::merged_readme(Some(merged), section) == merged
        }),
{
    let section = group_log::marked_part(body);
    lemma_section_ended(body);
    lemma_default_unmarked();
    let head = group_log::default_readme(Seq::empty());
    lemma_merged_again(head, body, Seq::empty());
    assert(group_log::ended(head + section + Seq::empty()) =~= group_log::default_readme(section));
    if let Some(content) = existing {
        let text = model::trimmed(content);
        facts::lemma_trimmed_ends(content);
        lemma_marks_in_trimmed(content);
        if text.len() > 0 && !group_log::is_legacy(text) {
            facts::lemma_find_from(text, BRIDGE_README_START@, 0);
            match group_log::marked_section(text) {
                Some((start, end)) => {
                    facts::lemma_find_from(
                        text,
                        BRIDGE_README_END@,
                        start + BRIDGE_README_START@.len(),
                    );
                    let p = text.take(start);
                    let r = model::trimmed_start_char(text.skip(end), '\n');
                    lemma_without_line_feeds(text.skip(end));
                    lemma_taken_unmarked(text, start);
                    lemma_merged_again(p, body, r);
                },
                None => {
                    let p = model::trimmed_end(text) + "\n\n"@;
                    reveal_strlit("\n\n");
                    facts::lemma_find_from(text, BRIDGE_README_START@, 0);
                    lemma_appended_unmarked(text);
                    lemma_merged_again(p, body, Seq::empty());
                    assert(group_log::ended(p + section + Seq::empty()) =~= p + section);
                },
            }
        }
    }
}

proof fn lemma_occurs_in_longer(text: Seq<char>, n: int, pat: Seq<char>, j: int)
    requires
        0 <= n <= text.len(),
        model::occurs_at(text.take(n), pat, j),
    ensures
        model::occurs_at(text, pat, j),
{
    assert(text.take(n).subrange(j, j + pat.len()) =~= text.subrange(j, j + pat.len()));
}

proof fn lemma_take_and_pattern(text: Seq<char>, pat: Seq<char>, at: int)
    requires
        model::occurs_at(text, pat, at),
    ensures
        text.take(at) + pat == text.take(at + pat.len()),
{
    let part = text.subrange(at, at + pat.len());
    assert(part == pat);
    assert(text.take(at) + part =~= text.take(at + pat.len()));
}

proof fn lemma_taken_unmarked(text: Seq<char>, start: int)
    requires
        model::find_first(text, BRIDGE_README_START@) == Some(start),
    ensures
        unmarked(text.take(start)),
{
    let mark = BRIDGE_README_START@;
    facts::lemma_find_from(text, mark, 0);
    lemma_take_and_pattern(text, mark, start);
    let p = text.take(start);
    assert forall|j: int| 0 <= j < p.len() implies !#[trigger] model::occurs_at(p + mark, mark, j) by {
        if model::occurs_at(p + mark, mark, j) {
            lemma_occurs_in_longer(text, start + mark.len(), mark, j);
        }
    }
}

proof fn lemma_appended_unmarked(text: Seq<char>)
    requires
        !model::has_part(text, BRIDGE_README_START@),
    ensures
        unmarked(text + "\n\n"@),
{
    reveal_strlit("\n\n");
    lemma_start_mark();
    let mark = BRIDGE_README_START@;
    let p = text + "\n\n"@;
    assert forall|j: int| 0 <= j < p.len() implies !#[trigger] model::occurs_at(p + mark, mark, j) by {
        if model::occurs_at(p + mark, mark, j) {
            let part = (p + mark).subrange(j, j + mark.len());
            assert(part[0] == (p + mark)[j]);
            assert(p[text.len() as int] == '\n' && p[text.len() as int + 1] == '\n');
            assert(j < text.len());
            if j + mark.len() > text.len() {
                let i = text.len() - j;
                assert(part[i] == (p + mark)[text.len() as int]);
                assert(mark[i] == '\n');
                assert(mark.contains('\n'));
            } else {
                assert(text.subrange(j, j + mark.len()) =~= part);
                assert(model::occurs_at(text, mark, j));
            }
        }
    }
}

/// A README that a part was written into holds the part, and ends with a line feed.
pub proof fn law_merged_holds_the_part(existing: Option<Seq<char>>, body: Seq<char>)
    ensures
        ({
            let part = group_log::marked_part(body);
            let merged = group_log::merged_readme(existing, part);
            &&& model::has_part(merged, part)
            &&& merged.len() > 0
            &&& merged.last() == '\n'
        }),
{
    let part = group_log::marked_part(body);
    let merged = group_log::merged_readme(existing, part);
    lemma_section_ended(body);
    let head = group_log::default_readme(Seq::empty());
    assert(group_log::default_readme(part) =~= head + part);
    assert(part.last() == '\n');
    let at: int = match existing {
        None => head.len() as int,
        Some(content) => {
            let text = model::trimmed(content);
            if text.len() == 0 || group_log::is_legacy(text) {
                head.len() as int
            } else {
                match group_log::marked_section(text) {
                    Some((start, end)) => {
                        facts::lemma_find_from(text, BRIDGE_README_START@, 0);
                        start
                    },
                    None => (model::trimmed_end(text) + "\n\n"@).len() as int,
                }
            }
        },
    };
    assert(merged.subrange(at, at + part.len()) =~= part);
    assert(model::occurs_at(merged, part, at));
}

/// Writing the bridge's part into a README that others wrote to keeps what they wrote: all of it
/// before the part, where the README has no part of the bridge yet; else what stands before the
/// part and, but for the line feeds between, what stands behind it.
pub proof fn law_merging_keeps_what_others_wrote(content: Seq<char>, section: Seq<char>)
    requires
        model::trimmed(content).len() > 0,
        !group_log::is_legacy(model::trimmed(content)),
    ensures
        ({
            let text = model::trimmed(content);
            let merged = group_log::merged_readme(Some(content), section);
            match group_log::marked_section(text) {
                Some((start, end)) => {
                    &&& model::begins_with(merged, text.take(start))
                    &&& model::has_part(merged, model::trimmed_start_char(text.skip(end), '\n'))
                },
                None => model::begins_with(merged, text),
            }
        }),
{
    let text = model::trimmed(content);
    let merged = group_log::merged_readme(Some(content), section);
    let part = group_log::with_newline(section);
    facts::lemma_trimmed_ends(content);
    match group_log::marked_section(text) {
        Some((start, end)) => {
            facts::lemma_find_from(text, BRIDGE_README_START@, 0);
            let p = text.take(start);
            let r = model::trimmed_start_char(text.skip(end), '\n');
            assert(merged.subrange(0, p.len() as int) =~= p);
            let at = (p.len() + part.len()) as int;
            assert(merged.subrange(at, at + r.len()) =~= r);
            assert(model::occurs_at(merged, r, at));
        },
        None => {
            assert(merged.subrange(0, text.len() as int) =~= text);
        },
    }
}

} // verus!
