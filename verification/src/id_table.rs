//! A table of values by number, in the order of the numbers.
use vstd::prelude::*;

verus! {

/// Whether the entries are in the order of their ids, no id twice.
pub open spec fn is_sorted<V>(entries: Seq<(i64, V)>) -> bool {
    forall|i: int, j: int|
        #![trigger entries[i], entries[j]]
        0 <= i < j < entries.len() ==> entries[i].0 < entries[j].0
}

/// The first index from `from` on whose id is not smaller.
pub open spec fn position<V>(entries: Seq<(i64, V)>, id: i64, from: int) -> int
    decreases entries.len() - from,
{
    if 0 <= from < entries.len() && entries[from].0 < id {
        position(entries, id, from + 1)
    } else {
        from
    }
}

/// Whether there is an entry with an id.
pub open spec fn holds<V>(entries: Seq<(i64, V)>, id: i64) -> bool {
    position(entries, id, 0) < entries.len() && entries[position(entries, id, 0)].0 == id
}

/// The value of an id.
pub open spec fn value<V>(entries: Seq<(i64, V)>, id: i64) -> V {
    entries[position(entries, id, 0)].1
}

/// The entries with a value for an id, in place of the one that it had.
pub open spec fn with<V>(entries: Seq<(i64, V)>, id: i64, v: V) -> Seq<(i64, V)> {
    let p = position(entries, id, 0);
    if holds(entries, id) {
        entries.update(p, (id, v))
    } else {
        entries.insert(p, (id, v))
    }
}

pub proof fn lemma_position<V>(entries: Seq<(i64, V)>, id: i64, from: int)
    requires
        0 <= from <= entries.len(),
    ensures
        from <= position(entries, id, from) <= entries.len(),
        forall|i: int| from <= i < position(entries, id, from) ==> (#[trigger] entries[i]).0 < id,
        position(entries, id, from) < entries.len() ==> entries[position(entries, id, from)].0
            >= id,
    decreases entries.len() - from,
{
    if from < entries.len() && entries[from].0 < id {
        lemma_position(entries, id, from + 1);
    }
}

/// The position of an id depends on the ids alone.
pub proof fn lemma_same_positions<V, W>(
    a: Seq<(i64, V)>,
    b: Seq<(i64, W)>,
    id: i64,
    from: int,
)
    requires
        0 <= from <= a.len(),
        a.len() == b.len(),
        forall|i: int| 0 <= i < a.len() ==> (#[trigger] a[i]).0 == b[i].0,
    ensures
        position(a, id, from) == position(b, id, from),
    decreases a.len() - from,
{
    if from < a.len() && a[from].0 < id {
        lemma_same_positions(a, b, id, from + 1);
    }
}

pub proof fn lemma_with_is_sorted<V>(entries: Seq<(i64, V)>, id: i64, v: V)
    requires
        is_sorted(entries),
    ensures
        is_sorted(with(entries, id, v)),
{
    lemma_position(entries, id, 0);
    let p = position(entries, id, 0);
    let more = with(entries, id, v);
    assert forall|i: int, j: int|
        #![trigger more[i], more[j]]
        0 <= i < j < more.len() implies more[i].0 < more[j].0 by {
        if holds(entries, id) {
            assert(more[i].0 == entries[i].0);
            assert(more[j].0 == entries[j].0);
        } else {
            let a = if i < p {
                i
            } else {
                i - 1
            };
            let b = if j < p {
                j
            } else {
                j - 1
            };
            if i == p {
                assert(more[j] == entries[b]);
                if b > p {
                    assert(entries[p].0 < entries[b].0);
                }
            } else if j == p {
                assert(more[i] == entries[a]);
            } else {
                assert(more[i] == entries[a]);
                assert(more[j] == entries[b]);
                assert(entries[a].0 < entries[b].0);
            }
        }
    }
}

/// An id that gets a value has it, and every other id keeps its own.
pub proof fn law_value_is_kept<V>(entries: Seq<(i64, V)>, id: i64, v: V, other: i64)
    requires
        is_sorted(entries),
    ensures
        holds(with(entries, id, v), id),
        value(with(entries, id, v), id) == v,
        other != id ==> holds(with(entries, id, v), other) == holds(entries, other),
        other != id && holds(entries, other) ==> value(with(entries, id, v), other) == value(
            entries,
            other,
        ),
{
    let more = with(entries, id, v);
    lemma_with_is_sorted(entries, id, v);
    lemma_position(entries, id, 0);
    lemma_position(more, id, 0);
    lemma_position(entries, other, 0);
    lemma_position(more, other, 0);
    let p = position(entries, id, 0);
    assert(more[p] == (id, v));
    lemma_index_of(more, p);
    if other != id {
        let q = position(entries, other, 0);
        if holds(entries, other) {
            let k = if holds(entries, id) || q < p {
                q
            } else {
                q + 1
            };
            assert(more[k] == entries[q]);
            lemma_index_of(more, k);
        } else if holds(more, other) {
            let k = position(more, other, 0);
            let j = if holds(entries, id) || k < p {
                k
            } else {
                k - 1
            };
            assert(more[k].0 == entries[j].0);
            lemma_index_of(entries, j);
        }
    }
}

/// The position of the id of an entry is the entry's index.
pub proof fn lemma_index_of<V>(entries: Seq<(i64, V)>, i: int)
    requires
        is_sorted(entries),
        0 <= i < entries.len(),
    ensures
        position(entries, entries[i].0, 0) == i,
        holds(entries, entries[i].0),
{
    let id = entries[i].0;
    lemma_position(entries, id, 0);
    let p = position(entries, id, 0);
    if p < i {
        assert(entries[p].0 < entries[i].0);
    }
}

/// Taking a value out and putting another in is putting the other in.
pub proof fn lemma_put_back<V>(entries: Seq<(i64, V)>, id: i64, v: V)
    requires
        is_sorted(entries),
        holds(entries, id),
    ensures
        with(entries.remove(position(entries, id, 0)), id, v) == with(entries, id, v),
{
    let p = position(entries, id, 0);
    let less = entries.remove(p);
    lemma_position(entries, id, 0);
    lemma_position(less, id, 0);
    let q = position(less, id, 0);
    if q < p {
        assert(less[q] == entries[q]);
    } else if p < q {
        assert(less[p].0 < id);
        assert(less[p] == entries[p + 1]);
        assert(entries[p].0 < entries[p + 1].0);
    }
    if q < less.len() {
        assert(less[q] == entries[q + 1]);
        assert(entries[p].0 < entries[q + 1].0);
    }
    assert(with(less, id, v) =~= with(entries, id, v));
}

/// A table of values by id.
pub struct IdTable<V> {
    entries: Vec<(i64, V)>,
}

impl<V> View for IdTable<V> {
    type V = Seq<(i64, V)>;

    closed spec fn view(&self) -> Seq<(i64, V)> {
        self.entries@
    }
}

impl<V> IdTable<V> {
    #[verifier::type_invariant]
    spec fn entries_are_sorted(self) -> bool {
        is_sorted(self.entries@)
    }

    /// The empty table.
    pub fn new() -> (r: Self)
        ensures
            r@ == Seq::<(i64, V)>::empty(),
    {
        IdTable { entries: Vec::new() }
    }

    /// The number of entries.
    pub fn len(&self) -> (r: usize)
        ensures
            r == self@.len(),
            is_sorted(self@),
    {
        proof {
            use_type_invariant(self);
        }
        self.entries.len()
    }

    fn find(&self, id: i64) -> (r: usize)
        ensures
            r == position(self@, id, 0),
            r <= self@.len(),
    {
        let mut i: usize = 0;
        while i < self.entries.len() && self.entries[i].0 < id
            invariant
                i <= self.entries@.len(),
                position(self@, id, 0) == position(self@, id, i as int),
            decreases self.entries@.len() - i,
        {
            i += 1;
        }
        i
    }

    /// The value of an id.
    pub fn get(&self, id: i64) -> (r: Option<&V>)
        ensures
            match r {
                Some(v) => holds(self@, id) && *v == value(self@, id),
                None => !holds(self@, id),
            },
    {
        let i = self.find(id);
        if i < self.entries.len() && self.entries[i].0 == id {
            Some(&self.entries[i].1)
        } else {
            None
        }
    }

    /// The id at an index.
    pub fn id_at(&self, i: usize) -> (r: i64)
        requires
            i < self@.len(),
        ensures
            r == self@[i as int].0,
    {
        self.entries[i].0
    }

    /// The value at an index.
    pub fn value_at(&self, i: usize) -> (r: &V)
        requires
            i < self@.len(),
        ensures
            *r == self@[i as int].1,
    {
        &self.entries[i].1
    }

    /// Gives an id a value, and hands back the one that it had.
    pub fn put(&mut self, id: i64, v: V) -> (r: Option<V>)
        ensures
            final(self)@ == with(old(self)@, id, v),
            match r {
                Some(before) => holds(old(self)@, id) && before == value(old(self)@, id),
                None => !holds(old(self)@, id),
            },
    {
        proof {
            use_type_invariant(&*self);
            lemma_with_is_sorted(self@, id, v);
        }
        let i = self.find(id);
        let found = i < self.entries.len() && self.entries[i].0 == id;
        let mut entries: Vec<(i64, V)> = Vec::new();
        std::mem::swap(&mut entries, &mut self.entries);
        let ghost before = entries@;
        let r = if found {
            let (_, value) = entries.remove(i);
            Some(value)
        } else {
            None
        };
        entries.insert(i, (id, v));
        assert(entries@ =~= with(before, id, v));
        self.entries = entries;
        r
    }

    /// Takes the values out, in the order of their ids.
    pub fn into_entries(self) -> (r: Vec<(i64, V)>)
        ensures
            r@ == self@,
            is_sorted(r@),
    {
        proof {
            use_type_invariant(&self);
        }
        self.entries
    }

    /// Takes the value of an id out.
    pub fn take(&mut self, id: i64) -> (r: Option<V>)
        ensures
            match r {
                Some(v) => {
                    &&& holds(old(self)@, id)
                    &&& v == value(old(self)@, id)
                    &&& final(self)@ == old(self)@.remove(position(old(self)@, id, 0))
                },
                None => !holds(old(self)@, id) && final(self)@ == old(self)@,
            },
    {
        proof {
            use_type_invariant(&*self);
        }
        let i = self.find(id);
        if i < self.entries.len() && self.entries[i].0 == id {
            let mut entries: Vec<(i64, V)> = Vec::new();
            std::mem::swap(&mut entries, &mut self.entries);
            let ghost before = entries@;
            let (_, value) = entries.remove(i);
            proof {
                assert forall|a: int, b: int|
                    #![trigger entries@[a], entries@[b]]
                    0 <= a < b < entries@.len() implies entries@[a].0 < entries@[b].0 by {
                    let c = if a < i {
                        a
                    } else {
                        a + 1
                    };
                    let d = if b < i {
                        b
                    } else {
                        b + 1
                    };
                    assert(before[c].0 < before[d].0);
                }
            }
            self.entries = entries;
            Some(value)
        } else {
            None
        }
    }
}

} // verus!
