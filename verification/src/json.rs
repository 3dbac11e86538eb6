//! JSON values.
use crate::text::number;
use crate::text::ops;
use vstd::prelude::*;
use vstd::string::*;

verus! {

/// A JSON number: how it is written, and its value where that is in the range of `i64`.
pub struct JsonNumber {
    pub text: String,
    pub int: Option<i64>,
}

/// A JSON value. The keys of an object are in the order of its entries.
pub enum Json {
    Null,
    Bool(bool),
    Number(JsonNumber),
    Str(String),
    Array(Vec<Json>),
    Object(Vec<(String, Json)>),
}

/// The model of a JSON value.
pub enum JsonView {
    Null,
    Bool(bool),
    Number(Seq<char>, Option<int>),
    Str(Seq<char>),
    Array(Seq<JsonView>),
    Object(Seq<(Seq<char>, JsonView)>),
}

pub open spec fn number_view(n: JsonNumber) -> JsonView {
    JsonView::Number(
        n.text@,
        match n.int {
            Some(i) => Some(i as int),
            None => None,
        },
    )
}

pub open spec fn view_of(j: Json) -> JsonView
    decreases j,
{
    match j {
        Json::Null => JsonView::Null,
        Json::Bool(b) => JsonView::Bool(b),
        Json::Number(n) => number_view(n),
        Json::Str(s) => JsonView::Str(s@),
        Json::Array(items) => JsonView::Array(views_of(items@)),
        Json::Object(entries) => JsonView::Object(entry_views_of(entries@)),
    }
}

pub open spec fn views_of(items: Seq<Json>) -> Seq<JsonView>
    decreases items,
{
    if items.len() == 0 {
        seq![]
    } else {
        views_of(items.drop_last()).push(view_of(items.last()))
    }
}

pub open spec fn entry_views_of(entries: Seq<(String, Json)>) -> Seq<(Seq<char>, JsonView)>
    decreases entries,
{
    if entries.len() == 0 {
        seq![]
    } else {
        entry_views_of(entries.drop_last()).push((entries.last().0@, view_of(entries.last().1)))
    }
}

impl View for Json {
    type V = JsonView;

    open spec fn view(&self) -> JsonView {
        view_of(*self)
    }
}

pub proof fn lemma_views(items: Seq<Json>)
    ensures
        views_of(items).len() == items.len(),
        forall|i: int| 0 <= i < items.len() ==> #[trigger] views_of(items)[i] == items[i]@,
    decreases items.len(),
{
    if items.len() > 0 {
        lemma_views(items.drop_last());
    }
}

pub proof fn lemma_entry_views(entries: Seq<(String, Json)>)
    ensures
        entry_views_of(entries).len() == entries.len(),
        forall|i: int|
            0 <= i < entries.len() ==> #[trigger] entry_views_of(entries)[i] == (
                entries[i].0@,
                entries[i].1@,
            ),
    decreases entries.len(),
{
    if entries.len() > 0 {
        lemma_entry_views(entries.drop_last());
    }
}

/// The value of the first entry from `from` on with the given key.
pub open spec fn entry_from(
    entries: Seq<(Seq<char>, JsonView)>,
    key: Seq<char>,
    from: int,
) -> Option<JsonView>
    decreases entries.len() - from,
{
    if from < 0 || from >= entries.len() {
        None
    } else if entries[from].0 == key {
        Some(entries[from].1)
    } else {
        entry_from(entries, key, from + 1)
    }
}

/// A key's value is that of the first entry with the key.
pub proof fn lemma_entry_at(entries: Seq<(Seq<char>, JsonView)>, key: Seq<char>, from: int, i: int)
    requires
        0 <= from <= i < entries.len(),
        entries[i].0 == key,
        forall|j: int| from <= j < i ==> (#[trigger] entries[j]).0 != key,
    ensures
        entry_from(entries, key, from) == Some(entries[i].1),
    decreases i - from,
{
    if from < i {
        lemma_entry_at(entries, key, from + 1, i);
    }
}

/// A key without an entry has no value.
pub proof fn lemma_no_entry(entries: Seq<(Seq<char>, JsonView)>, key: Seq<char>, from: int)
    requires
        0 <= from,
        forall|j: int| from <= j < entries.len() ==> (#[trigger] entries[j]).0 != key,
    ensures
        entry_from(entries, key, from) is None,
    decreases entries.len() - from,
{
    if from < entries.len() {
        lemma_no_entry(entries, key, from + 1);
    }
}

/// What stands under the two keys of an object of two entries.
pub proof fn lemma_two_entries(k1: Seq<char>, v1: JsonView, k2: Seq<char>, v2: JsonView)
    requires
        k1 != k2,
    ensures
        JsonView::Object(seq![(k1, v1), (k2, v2)]).get(k1) == Some(v1),
        JsonView::Object(seq![(k1, v1), (k2, v2)]).get(k2) == Some(v2),
{
    let entries = seq![(k1, v1), (k2, v2)];
    lemma_entry_at(entries, k1, 0, 0);
    lemma_entry_at(entries, k2, 0, 1);
}

impl JsonView {
    /// The value under a key, where this is an object that has the key.
    pub open spec fn get(self, key: Seq<char>) -> Option<JsonView> {
        match self {
            JsonView::Object(entries) => entry_from(entries, key, 0),
            _ => None,
        }
    }

    pub open spec fn as_str(self) -> Option<Seq<char>> {
        match self {
            JsonView::Str(s) => Some(s),
            _ => None,
        }
    }

    pub open spec fn as_i64(self) -> Option<int> {
        match self {
            JsonView::Number(_, i) => i,
            _ => None,
        }
    }

    pub open spec fn as_bool(self) -> Option<bool> {
        match self {
            JsonView::Bool(b) => Some(b),
            _ => None,
        }
    }

    pub open spec fn as_array(self) -> Option<Seq<JsonView>> {
        match self {
            JsonView::Array(items) => Some(items),
            _ => None,
        }
    }

    /// The string under a key.
    pub open spec fn str_at(self, key: Seq<char>) -> Option<Seq<char>> {
        match self.get(key) {
            Some(v) => v.as_str(),
            None => None,
        }
    }

    /// A string, or a number as it is written.
    pub open spec fn as_text(self) -> Option<Seq<char>> {
        match self {
            JsonView::Str(s) => Some(s),
            JsonView::Number(text, _) => Some(text),
            _ => None,
        }
    }

    /// A number in the range of `i64`, or a string that is one in decimal form.
    pub open spec fn as_id(self) -> Option<int> {
        match self {
            JsonView::Number(_, i) => i,
            JsonView::Str(s) => match number::parsed_i64(s) {
                Ok(i) => Some(i),
                Err(_) => None,
            },
            _ => None,
        }
    }
}

/// The views of an optional string.
pub open spec fn text_view(o: Option<String>) -> Option<Seq<char>> {
    match o {
        Some(s) => Some(s@),
        None => None,
    }
}

/// The view of an optional borrowed string.
pub open spec fn str_view(o: Option<&str>) -> Option<Seq<char>> {
    match o {
        Some(s) => Some(s@),
        None => None,
    }
}

/// The view of an optional integer.
pub open spec fn int_view(o: Option<i64>) -> Option<int> {
    match o {
        Some(i) => Some(i as int),
        None => None,
    }
}

/// The view of an optional borrowed value.
pub open spec fn ref_view(o: Option<&Json>) -> Option<JsonView> {
    match o {
        Some(j) => Some(j@),
        None => None,
    }
}

impl Json {
    /// The value under a key, where this is an object that has the key.
    pub fn get(&self, key: &str) -> (r: Option<&Json>)
        ensures
            ref_view(r) == self@.get(key@),
    {
        match self {
            Json::Object(entries) => {
                proof {
                    lemma_entry_views(entries@);
                }
                let mut i: usize = 0;
                while i < entries.len()
                    invariant
                        i <= entries@.len(),
                        entry_views_of(entries@).len() == entries@.len(),
                        forall|k: int|
                            0 <= k < entries@.len() ==> #[trigger] entry_views_of(entries@)[k] == (
                                entries@[k].0@,
                                entries@[k].1@,
                            ),
                        self@ == JsonView::Object(entry_views_of(entries@)),
                        entry_from(entry_views_of(entries@), key@, 0) == entry_from(
                            entry_views_of(entries@),
                            key@,
                            i as int,
                        ),
                    decreases entries@.len() - i,
                {
                    assert(entry_views_of(entries@)[i as int] == (
                        entries@[i as int].0@,
                        entries@[i as int].1@,
                    ));
                    if ops::same(&entries[i].0, key) {
                        return Some(&entries[i].1);
                    }
                    i += 1;
                }
                None
            },
            _ => None,
        }
    }

    pub fn as_str(&self) -> (r: Option<&str>)
        ensures
            str_view(r) == self@.as_str(),
    {
        match self {
            Json::Str(s) => Some(s.as_str()),
            _ => None,
        }
    }

    pub fn as_i64(&self) -> (r: Option<i64>)
        ensures
            int_view(r) == self@.as_i64(),
    {
        match self {
            Json::Number(n) => n.int,
            _ => None,
        }
    }

    pub fn as_bool(&self) -> (r: Option<bool>)
        ensures
            r == self@.as_bool(),
    {
        match self {
            Json::Bool(b) => Some(*b),
            _ => None,
        }
    }

    pub fn as_array(&self) -> (r: Option<&Vec<Json>>)
        ensures
            match r {
                Some(v) => self@.as_array() == Some(views_of(v@)) && v@.len() == views_of(v@).len()
                    && forall|i: int| 0 <= i < v@.len() ==> #[trigger] views_of(v@)[i] == v@[i]@,
                None => self@.as_array() is None,
            },
    {
        match self {
            Json::Array(v) => {
                proof {
                    lemma_views(v@);
                }
                Some(v)
            },
            _ => None,
        }
    }

    /// The string under a key.
    pub fn str_at(&self, key: &str) -> (r: Option<&str>)
        ensures
            str_view(r) == self@.str_at(key@),
    {
        match self.get(key) {
            Some(v) => v.as_str(),
            None => None,
        }
    }

    /// A string, or a number as it is written.
    pub fn as_text(&self) -> (r: Option<String>)
        ensures
            text_view(r) == self@.as_text(),
    {
        match self {
            Json::Str(s) => Some(s.clone()),
            Json::Number(n) => Some(n.text.clone()),
            _ => None,
        }
    }

    /// A number in the range of `i64`, or a string that is one in decimal form.
    pub fn as_id(&self) -> (r: Option<i64>)
        ensures
            int_view(r) == self@.as_id(),
    {
        match self {
            Json::Number(n) => n.int,
            Json::Str(s) => match number::parse_i64(s) {
                Ok(i) => Some(i),
                Err(_) => None,
            },
            _ => None,
        }
    }

    /// A JSON string.
    pub fn from_text(s: &str) -> (r: Json)
        ensures
            r@ == JsonView::Str(s@),
    {
        Json::Str(s.to_owned())
    }

    /// A JSON number.
    pub fn from_i64(i: i64) -> (r: Json)
        ensures
            r@ == JsonView::Number(number::dec(i as int), Some(i as int)),
    {
        Json::Number(JsonNumber { text: number::dec_i64(i), int: Some(i) })
    }
}

/// A deep copy of a value.
pub fn copy(j: &Json) -> (r: Json)
    ensures
        r@ == j@,
    decreases *j,
{
    match j {
        Json::Null => Json::Null,
        Json::Bool(b) => Json::Bool(*b),
        Json::Number(n) => Json::Number(JsonNumber { text: n.text.clone(), int: n.int }),
        Json::Str(s) => Json::Str(s.clone()),
        Json::Array(items) => Json::Array(copy_items(items)),
        Json::Object(entries) => Json::Object(copy_entries(entries)),
    }
}

fn copy_items(items: &Vec<Json>) -> (r: Vec<Json>)
    ensures
        views_of(r@) == views_of(items@),
    decreases *items,
{
    let mut out: Vec<Json> = Vec::new();
    let mut i: usize = 0;
    proof {
        lemma_views(items@);
    }
    while i < items.len()
        invariant
            i <= items@.len(),
            views_of(out@) == views_of(items@).take(i as int),
            views_of(items@).len() == items@.len(),
            forall|k: int| 0 <= k < items@.len() ==> #[trigger] views_of(items@)[k] == items@[k]@,
        decreases items@.len() - i,
    {
        assert(decreases_to!(*items => items@));
        assert(decreases_to!(items@ => items@[i as int]));
        let item = copy(&items[i]);
        assert(out@.push(item).drop_last() =~= out@);
        out.push(item);
        assert(views_of(items@).take(i + 1) =~= views_of(items@).take(i as int).push(
            views_of(items@)[i as int],
        ));
        i += 1;
    }
    assert(views_of(items@).take(i as int) =~= views_of(items@));
    out
}

fn copy_entries(entries: &Vec<(String, Json)>) -> (r: Vec<(String, Json)>)
    ensures
        entry_views_of(r@) == entry_views_of(entries@),
    decreases *entries,
{
    let mut out: Vec<(String, Json)> = Vec::new();
    let mut i: usize = 0;
    proof {
        lemma_entry_views(entries@);
    }
    while i < entries.len()
        invariant
            i <= entries@.len(),
            entry_views_of(out@) == entry_views_of(entries@).take(i as int),
            entry_views_of(entries@).len() == entries@.len(),
            forall|k: int|
                0 <= k < entries@.len() ==> #[trigger] entry_views_of(entries@)[k] == (
                    entries@[k].0@,
                    entries@[k].1@,
                ),
        decreases entries@.len() - i,
    {
        assert(decreases_to!(*entries => entries@));
        assert(decreases_to!(entries@ => entries@[i as int]));
        assert(decreases_to!(entries@[i as int] => entries@[i as int].1));
        let item = (entries[i].0.clone(), copy(&entries[i].1));
        assert(out@.push(item).drop_last() =~= out@);
        out.push(item);
        assert(entry_views_of(entries@).take(i + 1) =~= entry_views_of(entries@).take(i as int).push(
            entry_views_of(entries@)[i as int],
        ));
        i += 1;
    }
    assert(entry_views_of(entries@).take(i as int) =~= entry_views_of(entries@));
    out
}

} // verus!
