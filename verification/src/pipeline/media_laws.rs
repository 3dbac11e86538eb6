//! What holds of the files that are handed on.
use super::media;
use crate::json;
use crate::json::{Json, JsonView};
use crate::text::facts;
use crate::text::model;
use vstd::prelude::*;

verus! {

/// Files are downloaded from the web and from nowhere else, and the URL stays as it was read.
pub proof fn law_only_web_urls_are_taken(scheme: Seq<char>, path: Seq<char>, reason: Seq<char>)
    ensures
        scheme == "http"@ || scheme == "https"@ ==> media::media_url(Ok((scheme, path))) == Ok::<
            (Seq<char>, Seq<char>),
            Seq<char>,
        >((scheme, path)),
        scheme != "http"@ && scheme != "https"@ ==> media::media_url(Ok((scheme, path))) == Err::<
            (Seq<char>, Seq<char>),
            Seq<char>,
        >("Unsupported media URL scheme: "@ + scheme),
        media::media_url(Err(reason)) == Err::<(Seq<char>, Seq<char>), Seq<char>>(
            "Invalid media URL: "@ + reason,
        ),
{
}

/// An answer is read if it reports success and announces no more than twenty mebibytes.
pub proof fn law_answers_are_read(status: u16, status_text: Seq<char>, length: Option<u64>)
    ensures
        200 <= status <= 299 && (length matches Some(n) ==> n <= 20 * 1024 * 1024)
            <==> media::refused_answer(status, status_text, length) is None,
        status < 200 || status > 299 ==> media::refused_answer(status, status_text, length) == Some(
            "HTTP status error: "@ + status_text,
        ),
{
}

/// The kind of a file is the one that the answer names; else the end of its path tells it.
pub proof fn law_kind_of_a_file(header: Option<Seq<char>>, path: Seq<char>, start: Seq<char>)
    ensures
        header is Some ==> media::content_type_of(header, path) == header->0,
        media::content_type_of(None, start + ".png"@) == "image/png"@,
        media::content_type_of(None, start + ".jpg"@) == "image/jpeg"@,
        media::content_type_of(None, start + ".jpeg"@) == "image/jpeg"@,
        media::content_type_of(None, start + ".gif"@) == "image/gif"@,
        !path.contains('.') ==> media::content_type_of(None, path) == "application/octet-stream"@,
{
    reveal_strlit(".png");
    reveal_strlit(".jpg");
    reveal_strlit(".jpeg");
    reveal_strlit(".gif");
    lemma_ends(start, ".png"@);
    lemma_ends(start, ".jpg"@);
    lemma_ends(start, ".jpeg"@);
    lemma_ends(start, ".gif"@);
    lemma_last_char(start + ".gif"@, ".png"@);
    lemma_last_char(start + ".gif"@, ".jpg"@);
    lemma_last_char(start + ".gif"@, ".jpeg"@);
    if model::finishes_with(start + ".jpg"@, ".png"@) {
        let s = start + ".jpg"@;
        assert(s.subrange(s.len() - 4, s.len() as int)[1] == s[s.len() - 3]);
        assert(s[s.len() - 3] == 'j');
    }
    if model::finishes_with(start + ".jpeg"@, ".png"@) {
        let s = start + ".jpeg"@;
        assert(s.subrange(s.len() - 4, s.len() as int)[0] == s[s.len() - 4]);
        assert(s[s.len() - 4] == 'j');
    }
    if !path.contains('.') {
        lemma_no_dot(path, ".png"@);
        lemma_no_dot(path, ".jpg"@);
        lemma_no_dot(path, ".jpeg"@);
        lemma_no_dot(path, ".gif"@);
    }
}

proof fn lemma_ends(start: Seq<char>, end: Seq<char>)
    ensures
        model::finishes_with(start + end, end),
{
    let s = start + end;
    assert(s.subrange(s.len() - end.len(), s.len() as int) =~= end);
}

proof fn lemma_last_char(s: Seq<char>, end: Seq<char>)
    requires
        s.len() > 0,
        end.len() > 0,
        s.last() != end.last(),
    ensures
        !model::finishes_with(s, end),
{
    if model::finishes_with(s, end) {
        let part = s.subrange(s.len() - end.len(), s.len() as int);
        assert(part.last() == s.last());
    }
}

proof fn lemma_no_dot(s: Seq<char>, end: Seq<char>)
    requires
        !s.contains('.'),
        end.len() > 0,
        end[0] == '.',
    ensures
        !model::finishes_with(s, end),
{
    if model::finishes_with(s, end) {
        let at = s.len() - end.len();
        assert(s.subrange(at, s.len() as int)[0] == s[at]);
    }
}

/// A file is named as the last part of its path, if that has a dot in it, and else as it is to be
/// named by default.
pub proof fn law_name_of_a_file(start: Seq<char>, name: Seq<char>, default: Seq<char>)
    requires
        name.len() > 0,
        !name.contains('/'),
    ensures
        media::filename_of("/"@ + start + "/"@ + name, default) == (if name.contains('.') {
            name
        } else {
            default
        }),
        media::filename_of("/"@ + name, default) == (if name.contains('.') {
            name
        } else {
            default
        }),
        media::filename_of("/"@, default) == default,
        media::filename_of(seq![], default) == default,
{
    reveal_strlit("/");
    lemma_dot(name);
    let s = "/"@ + start + "/"@ + name;
    assert(s.skip(1) =~= start + "/"@ + name);
    lemma_last_part(start, name);
    let t = "/"@ + name;
    assert(t.skip(1) =~= name);
    lemma_only_part(name);
    assert(media::last_nonempty(seq![name]) == Some(name)) by {
        assert(seq![name].last() == name);
    }
    let none = Seq::<char>::empty();
    assert("/"@.skip(1) =~= none);
    lemma_only_part(none);
    reveal_with_fuel(media::last_nonempty, 2);
    assert(seq![none].drop_last() =~= seq![]);
}

proof fn lemma_dot(name: Seq<char>)
    ensures
        model::has_part(name, "."@) == name.contains('.'),
{
    reveal_strlit(".");
    if model::has_part(name, "."@) {
        let i = choose|i: int| model::occurs_at(name, "."@, i);
        assert(name.subrange(i, i + 1)[0] == name[i]);
        assert(name[i] == '.');
    }
    if name.contains('.') {
        let i = choose|i: int| 0 <= i < name.len() && name[i] == '.';
        assert(name.subrange(i, i + 1) =~= "."@);
        assert(model::occurs_at(name, "."@, i));
    }
}

proof fn lemma_only_part(name: Seq<char>)
    requires
        !name.contains('/'),
    ensures
        model::split_on(name, "/"@) == seq![name],
{
    reveal_strlit("/");
    assert forall|j: int| 0 <= j implies !model::occurs_at(name, "/"@, j) by {
        if model::occurs_at(name, "/"@, j) {
            assert(name.subrange(j, j + 1)[0] == name[j]);
            assert(name.contains(name[j]));
        }
    }
    facts::lemma_find_none(name, "/"@, 0);
    assert(name.skip(0) =~= name);
}

proof fn lemma_last_part(start: Seq<char>, name: Seq<char>)
    requires
        name.len() > 0,
        !name.contains('/'),
    ensures
        media::last_nonempty(model::split_on(start + "/"@ + name, "/"@)) == Some(name),
{
    reveal_strlit("/");
    lemma_last_piece(start, name, 0);
    let parts = model::split_on(start + "/"@ + name, "/"@);
    assert(parts.last() == name);
}

proof fn lemma_last_piece(start: Seq<char>, name: Seq<char>, from: int)
    requires
        0 <= from <= start.len() + 1,
        !name.contains('/'),
    ensures
        model::split_from(start + "/"@ + name, "/"@, from).len() > 0,
        model::split_from(start + "/"@ + name, "/"@, from).last() == name || from > start.len(),
        from == start.len() + 1 ==> model::split_from(start + "/"@ + name, "/"@, from).last()
            == name,
    decreases start.len() + 1 - from,
{
    reveal_strlit("/");
    let s = start + "/"@ + name;
    let at = start.len() as int;
    facts::lemma_find_from(s, "/"@, from);
    if from <= at {
        assert(s[at] == '/');
        assert(s.subrange(at, at + 1) =~= "/"@);
        assert(model::occurs_at(s, "/"@, at));
        let i = model::find_from(s, "/"@, from)->0;
        assert(model::find_from(s, "/"@, from) is Some);
        assert(i <= at);
        lemma_last_piece(start, name, i + 1);
        let rest = model::split_from(s, "/"@, i + 1);
        assert((seq![s.subrange(from, i)] + rest).last() == rest.last());
    } else {
        assert forall|j: int| from <= j implies !model::occurs_at(s, "/"@, j) by {
            if model::occurs_at(s, "/"@, j) {
                assert(s.subrange(j, j + 1)[0] == s[j]);
                assert(s[j] == name[j - from]);
                assert(name.contains(name[j - from]));
            }
        }
        facts::lemma_find_none(s, "/"@, from);
        assert(s.skip(from) =~= name);
    }
}

/// From a file part are read its kind, its name and its bytes, which stand in a data URL.
pub proof fn law_file_part_is_read_back(kind: Seq<char>, data: Seq<char>, name: Seq<char>)
    ensures
        ({
            let part = media::file_part(kind, data, name);
            &&& part.get("type"@) == Some(JsonView::Str("file"@))
            &&& part.get("mediaType"@) == Some(JsonView::Str(kind))
            &&& part.get("filename"@) == Some(JsonView::Str(name))
            &&& part.get("url"@) == Some(JsonView::Str("data:"@ + kind + ";base64,"@ + data))
        }),
{
    reveal_strlit("type");
    reveal_strlit("mediaType");
    reveal_strlit("url");
    reveal_strlit("filename");
    assert("type"@.len() == 4);
    assert("mediaType"@.len() == 9);
    assert("url"@.len() == 3);
    assert("filename"@.len() == 8);
    let part = media::file_part(kind, data, name);
    let entries = part->Object_0;
    json::lemma_entry_at(entries, "type"@, 0, 0);
    json::lemma_entry_at(entries, "mediaType"@, 0, 1);
    json::lemma_entry_at(entries, "url"@, 0, 2);
    json::lemma_entry_at(entries, "filename"@, 0, 3);
}

/// The files that could be had are handed on in order, and no others.
pub proof fn law_had_files_are_handed_on(
    a: Seq<Result<Json, String>>,
    b: Seq<Result<Json, String>>,
    part: Json,
    reason: String,
)
    ensures
        media::had_parts(a + b) == media::had_parts(a) + media::had_parts(b),
        media::had_parts(seq![Ok(part)]) == seq![part],
        media::had_parts(seq![Err(reason)]).len() == 0,
    decreases b.len(),
{
    reveal_with_fuel(media::had_parts, 2);
    assert(seq![Ok::<Json, String>(part)].drop_last() =~= seq![]);
    assert(seq![Err::<Json, String>(reason)].drop_last() =~= seq![]);
    assert(media::had_parts(seq![Ok(part)]) =~= seq![part]);
    if b.len() == 0 {
        assert(a + b =~= a);
        assert(media::had_parts(a) + media::had_parts(b) =~= media::had_parts(a));
    } else {
        law_had_files_are_handed_on(a, b.drop_last(), part, reason);
        assert((a + b).drop_last() =~= a + b.drop_last());
        assert(media::had_parts(a + b) =~= media::had_parts(a) + media::had_parts(b));
    }
}

} // verus!
