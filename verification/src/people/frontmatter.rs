//! The frontmatter of a profile: the lines between two fences at its start.
use crate::json;
use crate::text::facts;
use crate::text::model;
use crate::text::ops;
use vstd::prelude::*;
use vstd::string::*;

verus! {

/// The index of the first line from `from` on that is a fence, or the number of lines.
pub open spec fn fence_from(lines: Seq<Seq<char>>, from: int) -> int
    decreases lines.len() - from,
{
    if from < 0 || from >= lines.len() || lines[from] == "---"@ {
        from
    } else {
        fence_from(lines, from + 1)
    }
}

/// The lines of the frontmatter. A text that does not begin with a fence has none.
pub open spec fn front_lines(content: Seq<char>) -> Seq<Seq<char>> {
    let lines = model::lines_of(content);
    if model::begins_with(content, "---\n"@) {
        lines.subrange(1, fence_from(lines, 1))
    } else {
        seq![]
    }
}

/// What follows the frontmatter.
pub open spec fn body_text(content: Seq<char>) -> Seq<char> {
    let lines = model::lines_of(content);
    let end = fence_from(lines, 1);
    if !model::begins_with(content, "---\n"@) {
        content
    } else if end < lines.len() {
        model::joined(lines.skip(end + 1), "\n"@)
    } else {
        seq![]
    }
}

pub proof fn lemma_fence(lines: Seq<Seq<char>>, from: int)
    requires
        0 <= from <= lines.len(),
    ensures
        from <= fence_from(lines, from) <= lines.len(),
    decreases lines.len() - from,
{
    if from < lines.len() && lines[from] != "---"@ {
        lemma_fence(lines, from + 1);
    }
}

/// A text that begins with a fence has a first line.
proof fn lemma_has_line(content: Seq<char>)
    requires
        model::begins_with(content, "---\n"@),
    ensures
        model::lines_of(content).len() >= 1,
{
    reveal_strlit("---\n");
    facts::lemma_find_from(content, seq!['\n'], 0);
    assert(content.subrange(3, 4) =~= seq!['\n']) by {
        assert(content[3] == content.subrange(0, 4)[3]);
    }
    assert(model::occurs_at(content, seq!['\n'], 3));
}

/// Parts a text into the lines of its frontmatter and what follows it.
pub fn split_frontmatter(content: &str) -> (r: (Vec<String>, String))
    ensures
        model::texts(r.0@) == front_lines(content@),
        r.1@ == body_text(content@),
{
    let mut front: Vec<String> = Vec::new();
    if !ops::starts_with(content, "---\n") {
        assert(model::texts(front@) =~= seq![]);
        return (front, content.to_owned());
    }
    let lines = ops::lines(content);
    let ghost views = model::lines_of(content@);
    proof {
        lemma_has_line(content@);
        lemma_fence(views, 1);
    }
    let mut i: usize = 1;
    assert(model::texts(front@) =~= views.subrange(1, 1));
    while i < lines.len() && !ops::same(&lines[i], "---")
        invariant
            views == model::texts(lines@),
            1 <= i <= views.len(),
            fence_from(views, 1) == fence_from(views, i as int),
            model::texts(front@) == views.subrange(1, i as int),
        decreases lines@.len() - i,
    {
        let line = lines[i].clone();
        proof {
            facts::lemma_texts_push(front@, line);
            assert(views.subrange(1, i + 1) =~= views.subrange(1, i as int).push(views[i as int]));
        }
        front.push(line);
        i += 1;
    }
    if i >= lines.len() {
        return (front, String::new());
    }
    let mut body: Vec<String> = Vec::new();
    let ghost end = i as int;
    i += 1;
    assert(model::texts(body@) =~= views.subrange(end + 1, end + 1));
    while i < lines.len()
        invariant
            views == model::texts(lines@),
            0 <= end < i <= views.len(),
            model::texts(body@) == views.subrange(end + 1, i as int),
        decreases lines@.len() - i,
    {
        let line = lines[i].clone();
        proof {
            facts::lemma_texts_push(body@, line);
            assert(views.subrange(end + 1, i + 1) =~= views.subrange(end + 1, i as int).push(
                views[i as int],
            ));
        }
        body.push(line);
        i += 1;
    }
    assert(views.subrange(end + 1, i as int) =~= views.skip(end + 1));
    (front, ops::join(&body, "\n"))
}

/// A profile with a frontmatter and what follows it.
pub open spec fn rendered(front: Seq<Seq<char>>, body: Seq<char>) -> Seq<char> {
    let head = if front.len() == 0 {
        "---\n"@
    } else {
        ("---\n"@ + model::joined(front, "\n"@)).push('\n')
    };
    let fenced = head + "---\n"@;
    if model::trimmed(body).len() == 0 {
        fenced
    } else {
        (fenced + model::trimmed(body)).push('\n')
    }
}

/// Writes a profile.
pub fn render_profile_content(frontmatter: &Vec<String>, body: &str) -> (r: String)
    ensures
        r@ == rendered(model::texts(frontmatter@), body@),
{
    let mut content = "---\n".to_owned();
    if frontmatter.len() > 0 {
        content.append(&ops::join(frontmatter, "\n"));
        content.push('\n');
    }
    content.append("---\n");
    let body = ops::trim(body);
    if !body.is_empty() {
        content.append(body);
        content.push('\n');
    }
    content
}

/// A value with its backslashes and double quotes escaped.
pub open spec fn escaped(value: Seq<char>) -> Seq<char> {
    model::replaced(model::replaced(value, "\\"@, "\\\\"@), "\""@, "\\\""@)
}

/// Escapes the backslashes and double quotes of a value.
pub fn escape_frontmatter_value(value: &str) -> (r: String)
    ensures
        r@ == escaped(value@),
{
    proof {
        reveal_strlit("\\");
        reveal_strlit("\"");
    }
    ops::replace(&ops::replace(value, "\\", "\\\\"), "\"", "\\\"")
}

/// The index of the first line from `from` on of a field, or the number of lines.
pub open spec fn field_from(lines: Seq<Seq<char>>, field: Seq<char>, from: int) -> int
    decreases lines.len() - from,
{
    if from < 0 || from >= lines.len() || model::begins_with(lines[from], field + ":"@) {
        from
    } else {
        field_from(lines, field, from + 1)
    }
}

/// `s` without the double quotes at its two ends.
pub open spec fn unquoted(s: Seq<char>) -> Seq<char> {
    model::trimmed_end_char(model::trimmed_start_char(s, '"'), '"')
}

/// The value of a field: what follows the name in its first line, without quotes.
pub open spec fn field_value(lines: Seq<Seq<char>>, field: Seq<char>) -> Option<Seq<char>> {
    let i = field_from(lines, field, 0);
    if i < lines.len() {
        Some(unquoted(model::trimmed(model::trimmed_start_text(lines[i], field + ":"@))))
    } else {
        None
    }
}

fn find_field(lines: &Vec<String>, field: &str) -> (r: usize)
    ensures
        r == field_from(model::texts(lines@), field@, 0),
        r <= lines@.len(),
{
    let prefix = field.to_owned().concat(":");
    let ghost views = model::texts(lines@);
    let mut i: usize = 0;
    while i < lines.len() && !ops::starts_with(&lines[i], &prefix)
        invariant
            views == model::texts(lines@),
            prefix@ == field@ + ":"@,
            i <= lines@.len(),
            field_from(views, field@, 0) == field_from(views, field@, i as int),
        decreases lines@.len() - i,
    {
        i += 1;
    }
    i
}

/// The value of a field such as `qq_id: "123456"`.
pub fn extract_frontmatter_field_from_lines(lines: &Vec<String>, field: &str) -> (r: Option<String>)
    ensures
        json::text_view(r) == field_value(model::texts(lines@), field@),
{
    let i = find_field(lines, field);
    if i < lines.len() {
        let prefix = field.to_owned().concat(":");
        let value = ops::trim(ops::trim_start_text(&lines[i], &prefix));
        Some(ops::trim_end_char(ops::trim_start_char(value, '"'), '"').to_owned())
    } else {
        None
    }
}

/// The line of a field.
pub open spec fn field_line(field: Seq<char>, value: Seq<char>) -> Seq<char> {
    field + ": \""@ + escaped(value) + "\""@
}

/// The lines with a field, in place of the first line that it had.
pub open spec fn with_field(
    lines: Seq<Seq<char>>,
    field: Seq<char>,
    value: Seq<char>,
) -> Seq<Seq<char>> {
    let i = field_from(lines, field, 0);
    if i < lines.len() {
        lines.update(i, field_line(field, value))
    } else {
        lines.push(field_line(field, value))
    }
}

/// The line of a field.
pub fn render_field(field: &str, value: &str) -> (r: String)
    ensures
        r@ == field_line(field@, value@),
{
    field.to_owned().concat(": \"").concat(&escape_frontmatter_value(value)).concat("\"")
}

/// Sets a field.
pub fn upsert_frontmatter_field(lines: &mut Vec<String>, field: &str, value: &str)
    ensures
        model::texts(final(lines)@) == with_field(model::texts(old(lines)@), field@, value@),
{
    let i = find_field(lines, field);
    let line = render_field(field, value);
    let ghost before = lines@;
    if i < lines.len() {
        let _ = lines.remove(i);
        lines.insert(i, line);
        assert(model::texts(lines@) =~= model::texts(before).update(i as int, line@));
    } else {
        lines.push(line);
        assert(model::texts(lines@) =~= model::texts(before).push(line@));
    }
}

} // verus!
