//! Making, syncing and finding profiles.
use super::cards;
use super::cards::GroupCards;
use super::frontmatter;
use crate::json;
use crate::json::{Json, JsonView};
use crate::onebot::api;
use crate::onebot::event::{ApiRequest, Sender};
use crate::text::facts;
use crate::text::model;
use crate::text::number;
use crate::text::ops;
use vstd::prelude::*;
use vstd::string::*;

verus! {

/// The lines that open a new profile.
pub open spec fn default_lines(
    nickname: Seq<char>,
    qq_id: Seq<char>,
    first_interaction: Seq<char>,
) -> Seq<Seq<char>> {
    seq![
        "# "@ + nickname,
        seq![],
        "- QQ 用户，ID: "@ + qq_id,
        "- 昵称: "@ + nickname,
        "- 首次互动: "@ + first_interaction,
    ]
}

/// What a profile says of a person of whom nothing else is known.
pub open spec fn default_body(
    nickname: Seq<char>,
    qq_id: Seq<char>,
    first_interaction: Seq<char>,
    group_cards: Seq<(Seq<char>, Seq<char>)>,
) -> Seq<char> {
    let lines = default_lines(nickname, qq_id, first_interaction);
    model::joined(
        if group_cards.len() == 0 {
            lines
        } else {
            lines + seq![seq![], cards::section(group_cards)]
        },
        "\n"@,
    )
}

/// What a profile says of a person of whom nothing else is known.
pub fn build_default_body(
    nickname: &str,
    qq_id: &str,
    first_interaction: &str,
    group_cards: &GroupCards,
) -> (r: String)
    ensures
        r@ == default_body(nickname@, qq_id@, first_interaction@, group_cards@),
{
    let mut lines: Vec<String> = Vec::new();
    lines.push("# ".to_owned().concat(nickname));
    lines.push(String::new());
    lines.push("- QQ 用户，ID: ".to_owned().concat(qq_id));
    lines.push("- 昵称: ".to_owned().concat(nickname));
    lines.push("- 首次互动: ".to_owned().concat(first_interaction));
    assert(model::texts(lines@) =~= default_lines(nickname@, qq_id@, first_interaction@));
    let ghost head = lines@;
    if group_cards.len() > 0 {
        lines.push(String::new());
        lines.push(cards::format_group_cards_section(group_cards));
        assert(model::texts(lines@) =~= model::texts(head) + seq![
            seq![],
            cards::section(group_cards@),
        ]);
    }
    ops::join(&lines, "\n")
}

/// A new profile.
pub open spec fn new_profile(
    user_id: int,
    nickname: Seq<char>,
    group_cards: Seq<(Seq<char>, Seq<char>)>,
    today: Seq<char>,
) -> Seq<char> {
    let id = number::dec(user_id);
    frontmatter::rendered(
        seq![
            "telegram_id: \""@ + id + "\""@,
            "qq_id: \""@ + id + "\""@,
            frontmatter::field_line("username"@, nickname),
        ],
        default_body(nickname, id, today, group_cards),
    )
}

/// The content of a new profile.
pub fn create_profile_file(user_id: i64, nickname: &str, group_cards: &GroupCards, today: &str) -> (r:
    String)
    ensures
        r@ == new_profile(user_id as int, nickname@, group_cards@, today@),
{
    let id = number::dec_i64(user_id);
    let mut front: Vec<String> = Vec::new();
    front.push("telegram_id: \"".to_owned().concat(&id).concat("\""));
    front.push("qq_id: \"".to_owned().concat(&id).concat("\""));
    front.push(frontmatter::render_field("username", nickname));
    proof {
        assert(model::texts(front@) =~= seq![
            "telegram_id: \""@ + id@ + "\""@,
            "qq_id: \""@ + id@ + "\""@,
            frontmatter::field_line("username"@, nickname@),
        ]);
    }
    let body = build_default_body(nickname, &id, today, group_cards);
    frontmatter::render_profile_content(&front, &body)
}

/// The first line from `from` on that holds a label.
pub open spec fn labelled_line(lines: Seq<Seq<char>>, label: Seq<char>, from: int) -> Option<Seq<char>>
    decreases lines.len() - from,
{
    if from < 0 || from >= lines.len() {
        None
    } else if model::has_part(lines[from], label) {
        Some(lines[from])
    } else {
        labelled_line(lines, label, from + 1)
    }
}

/// What follows a label in the first line that holds it, up to the next such label.
pub open spec fn labelled_value(content: Seq<char>, label: Seq<char>) -> Option<Seq<char>> {
    match labelled_line(model::lines_of(content), label, 0) {
        Some(line) => Some(model::trimmed(model::split_on(line, label)[1])),
        None => None,
    }
}

proof fn lemma_split_has_two(s: Seq<char>, sep: Seq<char>)
    requires
        sep.len() > 0,
        model::has_part(s, sep),
    ensures
        model::split_on(s, sep).len() >= 2,
{
    reveal_with_fuel(model::split_from, 2);
    facts::lemma_find_from(s, sep, 0);
    let i = model::find_from(s, sep, 0)->0;
    facts::lemma_find_from(s, sep, i + sep.len());
}

/// The value of a line such as `- 首次互动: 2026-06-20`.
fn extract_body_line(content: &str, label: &str) -> (r: Option<String>)
    requires
        label@.len() > 0,
    ensures
        json::text_view(r) == labelled_value(content@, label@),
{
    let lines = ops::lines(content);
    let ghost views = model::lines_of(content@);
    let mut i: usize = 0;
    while i < lines.len()
        invariant
            views == model::texts(lines@),
            views == model::lines_of(content@),
            label@.len() > 0,
            i <= lines@.len(),
            labelled_line(views, label@, 0) == labelled_line(views, label@, i as int),
        decreases lines@.len() - i,
    {
        if ops::contains(&lines[i], label) {
            let parts = ops::split(&lines[i], label);
            proof {
                lemma_split_has_two(lines@[i as int]@, label@);
            }
            return Some(ops::trim(&parts[1]).to_owned());
        }
        i += 1;
    }
    None
}

/// The value of a field, where it is not empty.
pub open spec fn nonempty_field(front: Seq<Seq<char>>, field: Seq<char>) -> Option<Seq<char>> {
    match frontmatter::field_value(front, field) {
        Some(v) => if v.len() > 0 {
            Some(v)
        } else {
            None
        },
        None => None,
    }
}

fn field_or_none(front: &Vec<String>, field: &str) -> (r: Option<String>)
    ensures
        json::text_view(r) == nonempty_field(model::texts(front@), field@),
{
    match frontmatter::extract_frontmatter_field_from_lines(front, field) {
        Some(v) => if !v.as_str().is_empty() {
            Some(v)
        } else {
            None
        },
        None => None,
    }
}

/// The id that a profile belongs to.
pub open spec fn profile_id(front: Seq<Seq<char>>, user_id: int) -> Seq<char> {
    match nonempty_field(front, "qq_id"@) {
        Some(id) => id,
        None => number::dec(user_id),
    }
}

/// The name in a profile: the one that it has, or the one that is preferred.
pub open spec fn profile_name(
    front: Seq<Seq<char>>,
    id: Seq<char>,
    preferred_name: Option<Seq<char>>,
) -> Seq<char> {
    match nonempty_field(front, "username"@) {
        Some(name) => name,
        None => match preferred_name {
            Some(name) => name,
            None => "QQ用户"@ + id,
        },
    }
}

/// The cards of a profile, with the card of a group where there is one.
pub open spec fn synced_cards(
    body: Seq<char>,
    group_id: Option<Seq<char>>,
    card: Option<Seq<char>>,
) -> Seq<(Seq<char>, Seq<char>)> {
    let known = cards::cards_in(seq![], model::lines_of(body), 0);
    match (group_id, card) {
        (Some(group), Some(card)) => if card.len() > 0 {
            cards::with_card(known, group, card)
        } else {
            known
        },
        _ => known,
    }
}

/// A profile brought up to date: its frontmatter names the person, its notes stay as they are,
/// and its cards stand in one section at its end.
pub open spec fn synced_profile(
    content: Seq<char>,
    user_id: int,
    preferred_name: Option<Seq<char>>,
    group_id: Option<Seq<char>>,
    card: Option<Seq<char>>,
    today: Seq<char>,
) -> Seq<char> {
    let front = frontmatter::front_lines(content);
    let body = frontmatter::body_text(content);
    let id = profile_id(front, user_id);
    let name = profile_name(front, id, preferred_name);
    let fields = frontmatter::with_field(
        frontmatter::with_field(frontmatter::with_field(front, "telegram_id"@, id), "qq_id"@, id),
        "username"@,
        name,
    );
    let group_cards = synced_cards(body, group_id, card);
    let notes = model::trimmed(cards::without_sections(body));
    let first = match labelled_value(content, "首次互动:"@) {
        Some(day) => day,
        None => today,
    };
    let new_body = if notes.len() == 0 {
        default_body(name, id, first, group_cards)
    } else if group_cards.len() == 0 {
        notes
    } else {
        notes + "\n\n"@ + cards::section(group_cards)
    };
    frontmatter::rendered(fields, new_body)
}

/// The new content of a profile, if it changes.
pub fn sync_profile_file(
    content: &str,
    user_id: i64,
    preferred_name: Option<&str>,
    group_id: Option<&str>,
    card: Option<&str>,
    today: &str,
) -> (r: Option<String>)
    ensures
        ({
            let synced = synced_profile(
                content@,
                user_id as int,
                json::str_view(preferred_name),
                json::str_view(group_id),
                json::str_view(card),
                today@,
            );
            match r {
                Some(new) => new@ == synced && synced != content@,
                None => synced == content@,
            }
        }),
{
    let (mut front, body) = frontmatter::split_frontmatter(content);
    let qq_id = match field_or_none(&front, "qq_id") {
        Some(id) => id,
        None => number::dec_i64(user_id),
    };
    let username = match field_or_none(&front, "username") {
        Some(name) => name,
        None => match preferred_name {
            Some(name) => name.to_owned(),
            None => "QQ用户".to_owned().concat(&qq_id),
        },
    };
    frontmatter::upsert_frontmatter_field(&mut front, "telegram_id", &qq_id);
    frontmatter::upsert_frontmatter_field(&mut front, "qq_id", &qq_id);
    frontmatter::upsert_frontmatter_field(&mut front, "username", &username);
    let mut group_cards = cards::extract_group_cards_from_body(&body);
    if let Some(group) = group_id {
        if let Some(card) = card {
            if !card.is_empty() {
                cards::upsert_group_card(&mut group_cards, group, card);
            }
        }
    }
    let stripped = cards::strip_group_cards_section(&body);
    let notes = ops::trim(&stripped);
    let new_body = if notes.is_empty() {
        proof {
            reveal_strlit("首次互动:");
        }
        let first = match extract_body_line(content, "首次互动:") {
            Some(day) => day,
            None => today.to_owned(),
        };
        build_default_body(&username, &qq_id, &first, &group_cards)
    } else if group_cards.len() == 0 {
        notes.to_owned()
    } else {
        notes.to_owned().concat("\n\n").concat(&cards::format_group_cards_section(&group_cards))
    };
    let new_content = frontmatter::render_profile_content(&front, &new_body);
    if ops::same(&new_content, content) {
        None
    } else {
        Some(new_content)
    }
}

/// The string, where it is not empty.
pub open spec fn nonempty(s: Option<Seq<char>>) -> Option<Seq<char>> {
    match s {
        Some(t) => if t.len() > 0 {
            s
        } else {
            None
        },
        None => None,
    }
}

fn nonempty_str(s: &Option<String>) -> (r: Option<&str>)
    ensures
        json::str_view(r) == nonempty(json::text_view(*s)),
{
    match s {
        Some(t) => if !t.as_str().is_empty() {
            Some(t.as_str())
        } else {
            None
        },
        None => None,
    }
}

/// The card of a sender in a group.
pub open spec fn sender_card(sender: Option<Sender>) -> Option<Seq<char>> {
    match sender {
        Some(s) => nonempty(json::text_view(s.card)),
        None => None,
    }
}

/// The name that a sender is best known by: the nickname, else the card.
pub open spec fn sender_name(sender: Option<Sender>) -> Option<Seq<char>> {
    match sender {
        Some(s) => match nonempty(json::text_view(s.nickname)) {
            Some(n) => Some(n),
            None => nonempty(json::text_view(s.card)),
        },
        None => None,
    }
}

/// The first cards of a new profile.
pub open spec fn first_cards(sender: Option<Sender>, group_id: Option<i64>) -> Seq<
    (Seq<char>, Seq<char>),
> {
    match (sender_card(sender), group_id) {
        (Some(card), Some(group)) => cards::with_card(seq![], number::dec(group as int), card),
        _ => seq![],
    }
}

/// What is to be done to have a profile of a sender.
pub enum ProfilePlan {
    /// The profile is there. Where it changes, this is its new content.
    Sync(Option<String>),
    /// The profile is to be made. `name` is what the sender is known by; the request asks for
    /// the person's own nickname, for where that is nothing.
    Create { request: ApiRequest, name: Option<String>, group_cards: GroupCards },
}

/// The name of a person of whom no name is known.
pub open spec fn placeholder_name(user_id: int) -> Seq<char> {
    "QQ用户"@ + number::dec(user_id)
}

/// Plans the profile of a sender: `existing` is its content, if there is one.
pub fn ensure_people_profile(
    user_id: i64,
    sender: Option<&Sender>,
    group_id: Option<i64>,
    existing: Option<&str>,
    today: &str,
) -> (r: ProfilePlan)
    ensures
        ({
            let s = match sender {
                Some(x) => Some(*x),
                None => None,
            };
            match existing {
                Some(content) => {
                    let group = match group_id {
                        Some(g) => Some(number::dec(g as int)),
                        None => None,
                    };
                    let synced = synced_profile(
                        content@,
                        user_id as int,
                        sender_name(s),
                        group,
                        sender_card(s),
                        today@,
                    );
                    match r {
                        ProfilePlan::Sync(Some(new)) => new@ == synced && synced != content@,
                        ProfilePlan::Sync(None) => synced == content@,
                        _ => false,
                    }
                },
                None => match r {
                    ProfilePlan::Create { request, name, group_cards } => {
                        &&& request.action@ == "get_stranger_info"@
                        &&& request.params@ == JsonView::Object(
                            seq![
                                (
                                    "user_id"@,
                                    JsonView::Number(
                                        number::dec(user_id as int),
                                        Some(user_id as int),
                                    ),
                                ),
                            ],
                        )
                        &&& exists|uuid: Seq<char>|
                            uuid.len() == 36 && request.echo@ == #[trigger] api::echo_text(
                                uuid,
                                "get_stranger_info"@,
                            )
                        &&& json::text_view(name) == sender_name(s)
                        &&& group_cards@ == first_cards(s, group_id)
                    },
                    _ => false,
                },
            }
        }),
{
    let card = match sender {
        Some(s) => nonempty_str(&s.card),
        None => None,
    };
    let preferred = match sender {
        Some(s) => match nonempty_str(&s.nickname) {
            Some(n) => Some(n),
            None => card,
        },
        None => None,
    };
    match existing {
        Some(content) => {
            let group = match group_id {
                Some(g) => Some(number::dec_i64(g)),
                None => None,
            };
            let group_str = match &group {
                Some(g) => Some(g.as_str()),
                None => None,
            };
            ProfilePlan::Sync(
                sync_profile_file(content, user_id, preferred, group_str, card, today),
            )
        },
        None => {
            let name = match preferred {
                Some(n) => Some(n.to_owned()),
                None => None,
            };
            let mut group_cards = GroupCards::new();
            if let Some(card) = card {
                if let Some(g) = group_id {
                    cards::upsert_group_card(&mut group_cards, &number::dec_i64(g), card);
                }
            }
            let mut entries: Vec<(String, Json)> = Vec::new();
            entries.push(("user_id".to_owned(), Json::from_i64(user_id)));
            proof {
                json::lemma_entry_views(entries@);
                assert(json::entry_views_of(entries@) =~= seq![
                    (
                        "user_id"@,
                        JsonView::Number(number::dec(user_id as int), Some(user_id as int)),
                    ),
                ]);
            }
            let request = api::call_api("get_stranger_info", Json::Object(entries));
            ProfilePlan::Create { request, name, group_cards }
        },
    }
}

/// The name of a new profile: what the sender is known by, else what the answer to
/// `get_stranger_info` says, else one made of the number.
pub open spec fn told_name(
    name: Option<Seq<char>>,
    answer: Option<JsonView>,
    user_id: int,
) -> Seq<char> {
    let told = match answer {
        Some(data) => nonempty(data.str_at("nickname"@)),
        None => None,
    };
    match (name, told) {
        (Some(n), _) => n,
        (None, Some(n)) => n,
        (None, None) => placeholder_name(user_id),
    }
}

/// The content of a new profile, once the person's nickname was asked for. `name` is what the
/// sender is known by.
pub fn finish_people_profile(
    user_id: i64,
    name: Option<&str>,
    group_cards: &GroupCards,
    answer: Option<&Json>,
    today: &str,
) -> (r: String)
    ensures
        r@ == new_profile(
            user_id as int,
            told_name(json::str_view(name), json::ref_view(answer), user_id as int),
            group_cards@,
            today@,
        ),
{
    if let Some(n) = name {
        return create_profile_file(user_id, n, group_cards, today);
    }
    if let Some(data) = answer {
        if let Some(n) = data.str_at("nickname") {
            if !n.is_empty() {
                return create_profile_file(user_id, n, group_cards, today);
            }
        }
    }
    let placeholder = "QQ用户".to_owned().concat(&number::dec_i64(user_id));
    create_profile_file(user_id, &placeholder, group_cards, today)
}

/// A profile on disk.
pub struct ProfileFile {
    pub name: String,
    pub content: String,
}

/// Whether a file name is that of a profile.
pub open spec fn is_profile_name(name: Seq<char>) -> bool {
    model::finishes_with(name, ".md"@) && name.len() > 3
}

/// A file name without its extension.
pub open spec fn stem(name: Seq<char>) -> Seq<char> {
    if is_profile_name(name) {
        name.take(name.len() - 3)
    } else {
        name
    }
}

/// Whether a file name is that of a profile: it has the extension `md`.
pub fn has_profile_name(name: &str) -> (r: bool)
    ensures
        r == is_profile_name(name@),
{
    ops::ends_with(name, ".md") && name.unicode_len() > 3
}

/// The name of a profile without its extension.
pub fn profile_stem<'a>(name: &'a str) -> (r: &'a str)
    ensures
        r@ == stem(name@),
{
    if has_profile_name(name) {
        let n: usize = name.unicode_len();
        name.substring_char(0, n - 3)
    } else {
        name
    }
}

/// The file name of the profile of a user of whom no profile is known.
pub fn fallback_profile_name(user_id: i64) -> (r: String)
    ensures
        r@ == number::dec(user_id as int) + ".md"@,
{
    number::dec_i64(user_id).concat(".md")
}

/// The number of profiles among file names.
pub open spec fn profile_count(names: Seq<Seq<char>>) -> nat
    decreases names.len(),
{
    if names.len() == 0 {
        0
    } else {
        profile_count(names.drop_last()) + (if is_profile_name(names.last()) {
            1nat
        } else {
            0
        })
    }
}

/// The number of profiles among file names.
pub fn count_profiles(names: &Vec<String>) -> (r: usize)
    ensures
        r == profile_count(model::texts(names@)),
{
    let ghost views = model::texts(names@);
    let mut n: usize = 0;
    let mut i: usize = 0;
    while i < names.len()
        invariant
            views == model::texts(names@),
            n <= i <= names@.len(),
            n == profile_count(views.take(i as int)),
        decreases names@.len() - i,
    {
        assert(views.take(i + 1).drop_last() =~= views.take(i as int));
        if has_profile_name(&names[i]) {
            n += 1;
        }
        i += 1;
    }
    assert(views.take(i as int) =~= views);
    n
}

/// Whether a profile is that of a QQ user.
pub open spec fn is_profile_of(content: Seq<char>, qq_id: Seq<char>) -> bool {
    frontmatter::field_value(frontmatter::front_lines(content), "qq_id"@) == Some(qq_id)
}

fn belongs_to(content: &str, qq_id: &str) -> (r: bool)
    ensures
        r == is_profile_of(content@, qq_id@),
{
    let (front, _) = frontmatter::split_frontmatter(content);
    match frontmatter::extract_frontmatter_field_from_lines(&front, "qq_id") {
        Some(id) => ops::same(&id, qq_id),
        None => false,
    }
}

/// Whether a file is a profile of a QQ user.
pub open spec fn file_matches(file: ProfileFile, qq_id: Seq<char>) -> bool {
    is_profile_name(file.name@) && is_profile_of(file.content@, qq_id)
}

/// The profile of a QQ user among files: of several, the first by name.
pub fn find_profile_path_by_qq_id(files: &Vec<ProfileFile>, qq_id: &str) -> (r: Option<usize>)
    ensures
        match r {
            Some(i) => {
                &&& i < files@.len()
                &&& file_matches(files@[i as int], qq_id@)
                &&& forall|k: int|
                    0 <= k < files@.len() && file_matches(#[trigger] files@[k], qq_id@)
                        ==> !model::precedes(files@[k].name@, files@[i as int].name@)
            },
            None => forall|k: int|
                0 <= k < files@.len() ==> !file_matches(#[trigger] files@[k], qq_id@),
        },
{
    let mut best: Option<usize> = None;
    let mut i: usize = 0;
    while i < files.len()
        invariant
            i <= files@.len(),
            match best {
                Some(b) => {
                    &&& b < i
                    &&& file_matches(files@[b as int], qq_id@)
                    &&& forall|k: int|
                        0 <= k < i && file_matches(#[trigger] files@[k], qq_id@)
                            ==> !model::precedes(files@[k].name@, files@[b as int].name@)
                },
                None => forall|k: int| 0 <= k < i ==> !file_matches(#[trigger] files@[k], qq_id@),
            },
        decreases files@.len() - i,
    {
        if has_profile_name(&files[i].name) && belongs_to(&files[i].content, qq_id) {
            match best {
                None => {
                    proof {
                        facts::lemma_precedes_irreflexive(files@[i as int].name@);
                    }
                    best = Some(i);
                },
                Some(b) => {
                    if ops::precedes(&files[i].name, &files[b].name) {
                        proof {
                            facts::lemma_precedes_irreflexive(files@[i as int].name@);
                            assert forall|k: int|
                                0 <= k < i + 1 && file_matches(
                                    #[trigger] files@[k],
                                    qq_id@,
                                ) implies !model::precedes(
                                files@[k].name@,
                                files@[i as int].name@,
                            ) by {
                                if model::precedes(files@[k].name@, files@[i as int].name@) {
                                    if k < i {
                                        facts::lemma_precedes_transitive(
                                            files@[k].name@,
                                            files@[i as int].name@,
                                            files@[b as int].name@,
                                        );
                                    }
                                }
                            }
                        }
                        best = Some(i);
                    }
                },
            }
        }
        i += 1;
    }
    best
}

/// How many characters a profile may have for Alma to be told of it.
pub const PROFILE_LIMIT: usize = 500;

/// The block that tells of a sender: the profile, if it is theirs by id or by name, and short.
pub open spec fn profile_block(
    name: Seq<char>,
    content: Seq<char>,
    qq_id: Seq<char>,
    display_name: Seq<char>,
) -> Option<Seq<char>> {
    let theirs = is_profile_of(content, qq_id) || model::ascii_lowered(stem(name))
        == model::ascii_lowered(display_name);
    if theirs && content.len() <= PROFILE_LIMIT {
        Some(
            "\n\n[SENDER PROFILE — "@ + stem(name) + "]:\n"@ + content + "\n[/SENDER PROFILE]"@,
        )
    } else {
        None
    }
}

/// The block that tells of a sender, if a profile is theirs.
pub fn profile_block_from_path(file: &ProfileFile, qq_id: &str, display_name: &str) -> (r: Option<
    String,
>)
    ensures
        json::text_view(r) == profile_block(
            file.name@,
            file.content@,
            qq_id@,
            display_name@,
        ),
{
    let name = profile_stem(&file.name);
    let theirs = belongs_to(&file.content, qq_id) || ops::same_ignoring_ascii_case(
        name,
        display_name,
    );
    if theirs && file.content.as_str().unicode_len() <= PROFILE_LIMIT {
        Some(
            "\n\n[SENDER PROFILE — ".to_owned().concat(name).concat("]:\n").concat(
                &file.content,
            ).concat("\n[/SENDER PROFILE]"),
        )
    } else {
        None
    }
}

/// The block of the first profile from `from` on that is a sender's, and its index.
pub open spec fn first_block(
    files: Seq<ProfileFile>,
    qq_id: Seq<char>,
    display_name: Seq<char>,
    from: int,
) -> Option<(int, Seq<char>)>
    decreases files.len() - from,
{
    if from < 0 || from >= files.len() {
        None
    } else {
        let f = files[from];
        let block = profile_block(f.name@, f.content@, qq_id, display_name);
        if is_profile_name(f.name@) && block is Some {
            Some((from, block->0))
        } else {
            first_block(files, qq_id, display_name, from + 1)
        }
    }
}

/// The block that tells of a sender: of the profile that was theirs last, or else of the first
/// among the files that is theirs. With it comes the index of the file, unless it is the former.
pub fn find_sender_profile(
    cached: Option<&ProfileFile>,
    files: &Vec<ProfileFile>,
    qq_id: &str,
    display_name: &str,
) -> (r: Option<(Option<usize>, String)>)
    ensures
        ({
            let known = match cached {
                Some(f) => profile_block(f.name@, f.content@, qq_id@, display_name@),
                None => None,
            };
            match r {
                Some((None, block)) => known == Some(block@),
                Some((Some(i), block)) => known is None && first_block(
                    files@,
                    qq_id@,
                    display_name@,
                    0,
                ) == Some((i as int, block@)),
                None => known is None && first_block(files@, qq_id@, display_name@, 0) is None,
            }
        }),
{
    if let Some(f) = cached {
        if let Some(block) = profile_block_from_path(f, qq_id, display_name) {
            return Some((None, block));
        }
    }
    let mut i: usize = 0;
    while i < files.len()
        invariant
            i <= files@.len(),
            first_block(files@, qq_id@, display_name@, 0) == first_block(
                files@,
                qq_id@,
                display_name@,
                i as int,
            ),
            match cached {
                Some(f) => profile_block(f.name@, f.content@, qq_id@, display_name@) is None,
                None => true,
            },
        decreases files@.len() - i,
    {
        if has_profile_name(&files[i].name) {
            if let Some(block) = profile_block_from_path(&files[i], qq_id, display_name) {
                return Some((Some(i), block));
            }
        }
        i += 1;
    }
    None
}

} // verus!
