//! A map from texts to values.
use super::ops;
use vstd::prelude::*;

verus! {

/// A map from texts to values. No text is a key twice.
pub struct TextMap<V> {
    entries: Vec<(String, V)>,
}

/// The index of the first entry from `from` on with a key, or the number of entries.
spec fn key_index<V>(entries: Seq<(String, V)>, key: Seq<char>, from: int) -> int
    decreases entries.len() - from,
{
    if from < 0 || from >= entries.len() || entries[from].0@ == key {
        from
    } else {
        key_index(entries, key, from + 1)
    }
}

spec fn distinct_keys<V>(entries: Seq<(String, V)>) -> bool {
    forall|i: int, j: int|
        #![trigger entries[i], entries[j]]
        0 <= i < j < entries.len() ==> entries[i].0@ != entries[j].0@
}

spec fn map_of<V>(entries: Seq<(String, V)>) -> Map<Seq<char>, V> {
    Map::new(
        |key: Seq<char>| key_index(entries, key, 0) < entries.len(),
        |key: Seq<char>| entries[key_index(entries, key, 0)].1,
    )
}

proof fn lemma_key_index<V>(entries: Seq<(String, V)>, key: Seq<char>, from: int)
    requires
        0 <= from <= entries.len(),
    ensures
        from <= key_index(entries, key, from) <= entries.len(),
        key_index(entries, key, from) < entries.len() ==> entries[key_index(
            entries,
            key,
            from,
        )].0@ == key,
        forall|i: int| from <= i < key_index(entries, key, from) ==> (#[trigger] entries[i]).0@ != key,
    decreases entries.len() - from,
{
    if from < entries.len() && entries[from].0@ != key {
        lemma_key_index(entries, key, from + 1);
    }
}

proof fn lemma_key_index_is<V>(entries: Seq<(String, V)>, i: int)
    requires
        distinct_keys(entries),
        0 <= i < entries.len(),
    ensures
        key_index(entries, entries[i].0@, 0) == i,
{
    lemma_key_index(entries, entries[i].0@, 0);
    let k = key_index(entries, entries[i].0@, 0);
    if k < i {
        assert(entries[k].0@ != entries[i].0@);
    }
}

proof fn lemma_pushed<V>(entries: Seq<(String, V)>, key: String, value: V)
    requires
        distinct_keys(entries),
        !map_of(entries).dom().contains(key@),
    ensures
        distinct_keys(entries.push((key, value))),
        map_of(entries.push((key, value))) == map_of(entries).insert(key@, value),
{
    let more = entries.push((key, value));
    lemma_key_index(entries, key@, 0);
    assert forall|i: int, j: int| 0 <= i < j < more.len() implies more[i].0@ != more[j].0@ by {
        if j == entries.len() {
            assert(entries[i].0@ != key@);
        }
    }
    assert forall|k: Seq<char>| #[trigger]
        map_of(more).dom().contains(k) == map_of(entries).insert(key@, value).dom().contains(k) && (
        map_of(more).dom().contains(k) ==> map_of(more)[k] == map_of(entries).insert(key@, value)[k]) by {
        lemma_key_index(more, k, 0);
        lemma_key_index(entries, k, 0);
        let a = key_index(entries, k, 0);
        let b = key_index(more, k, 0);
        if a < entries.len() {
            assert(more[a] == entries[a]);
            lemma_key_index_is(more, a);
        } else if b < entries.len() {
            assert(more[b] == entries[b]);
        } else if k == key@ {
            lemma_key_index_is(more, entries.len() as int);
        }
    }
    assert(map_of(more) =~= map_of(entries).insert(key@, value));
}

proof fn lemma_removed<V>(entries: Seq<(String, V)>, i: int)
    requires
        distinct_keys(entries),
        0 <= i < entries.len(),
    ensures
        distinct_keys(entries.remove(i)),
        map_of(entries.remove(i)) == map_of(entries).remove(entries[i].0@),
{
    let less = entries.remove(i);
    let key = entries[i].0@;
    assert forall|a: int, b: int| 0 <= a < b < less.len() implies less[a].0@ != less[b].0@ by {
        let c = if a < i {
            a
        } else {
            a + 1
        };
        let d = if b < i {
            b
        } else {
            b + 1
        };
        assert(entries[c].0@ != entries[d].0@);
    }
    assert forall|k: Seq<char>| #[trigger]
        map_of(less).dom().contains(k) == map_of(entries).remove(key).dom().contains(k) && (map_of(
            less,
        ).dom().contains(k) ==> map_of(less)[k] == map_of(entries).remove(key)[k]) by {
        lemma_key_index(entries, k, 0);
        lemma_key_index(less, k, 0);
        lemma_key_index_is(entries, i);
        let a = key_index(entries, k, 0);
        let b = key_index(less, k, 0);
        if k == key {
            if b < less.len() {
                let d = if b < i {
                    b
                } else {
                    b + 1
                };
                assert(less[b] == entries[d]);
                lemma_key_index_is(entries, d);
            }
        } else if a < entries.len() {
            let c = if a < i {
                a
            } else {
                a - 1
            };
            assert(less[c] == entries[a]);
            lemma_key_index_is(less, c);
        } else if b < less.len() {
            let d = if b < i {
                b
            } else {
                b + 1
            };
            assert(less[b] == entries[d]);
        }
    }
    assert(map_of(less) =~= map_of(entries).remove(key));
}

impl<V> View for TextMap<V> {
    type V = Map<Seq<char>, V>;

    closed spec fn view(&self) -> Map<Seq<char>, V> {
        map_of(self.entries@)
    }
}

impl<V> TextMap<V> {
    #[verifier::type_invariant]
    spec fn keys_are_distinct(self) -> bool {
        distinct_keys(self.entries@)
    }

    /// The empty map.
    pub fn new() -> (r: Self)
        ensures
            r@ == Map::<Seq<char>, V>::empty(),
    {
        let r = TextMap { entries: Vec::new() };
        assert(r@ =~= Map::<Seq<char>, V>::empty());
        r
    }

    fn position(&self, key: &str) -> (r: usize)
        ensures
            r == key_index(self.entries@, key@, 0),
            r <= self.entries@.len(),
    {
        let mut i: usize = 0;
        while i < self.entries.len()
            invariant
                i <= self.entries@.len(),
                key_index(self.entries@, key@, 0) == key_index(self.entries@, key@, i as int),
            decreases self.entries@.len() - i,
        {
            if ops::same(&self.entries[i].0, key) {
                return i;
            }
            i += 1;
        }
        i
    }

    /// The value under a key.
    pub fn get(&self, key: &str) -> (r: Option<&V>)
        ensures
            match r {
                Some(v) => self@.dom().contains(key@) && self@[key@] == *v,
                None => !self@.dom().contains(key@),
            },
    {
        let i = self.position(key);
        if i < self.entries.len() {
            Some(&self.entries[i].1)
        } else {
            None
        }
    }

    /// Whether there is a value under a key.
    pub fn contains_key(&self, key: &str) -> (r: bool)
        ensures
            r == self@.dom().contains(key@),
    {
        self.position(key) < self.entries.len()
    }

    /// Takes the value under a key out of the map.
    pub fn remove(&mut self, key: &str) -> (r: Option<V>)
        ensures
            final(self)@ == old(self)@.remove(key@),
            match r {
                Some(v) => old(self)@.dom().contains(key@) && old(self)@[key@] == v,
                None => !old(self)@.dom().contains(key@),
            },
    {
        proof {
            use_type_invariant(&*self);
            lemma_key_index(self.entries@, key@, 0);
        }
        let i = self.position(key);
        if i < self.entries.len() {
            proof {
                lemma_removed(self.entries@, i as int);
            }
            let mut entries: Vec<(String, V)> = Vec::new();
            std::mem::swap(&mut entries, &mut self.entries);
            let (_, value) = entries.remove(i);
            self.entries = entries;
            Some(value)
        } else {
            assert(self@.remove(key@) =~= self@);
            None
        }
    }

    /// Puts a value under a key, in place of the one that was there.
    pub fn insert(&mut self, key: &str, value: V)
        ensures
            final(self)@ == old(self)@.insert(key@, value),
    {
        let before = self.remove(key);
        proof {
            use_type_invariant(&*self);
        }
        let owned = key.to_owned();
        proof {
            lemma_pushed(self.entries@, owned, value);
        }
        let mut entries: Vec<(String, V)> = Vec::new();
        std::mem::swap(&mut entries, &mut self.entries);
        entries.push((owned, value));
        self.entries = entries;
        assert(old(self)@.remove(key@).insert(key@, value) =~= old(self)@.insert(key@, value));
    }

    /// Takes some entry out of the map.
    pub fn pop(&mut self) -> (r: Option<(String, V)>)
        ensures
            match r {
                Some((key, value)) => old(self)@.dom().contains(key@) && old(self)@[key@] == value
                    && final(self)@ == old(self)@.remove(key@),
                None => old(self)@ == Map::<Seq<char>, V>::empty() && final(self)@ == old(self)@,
            },
            r is Some ==> final(self).size() < old(self).size(),
    {
        proof {
            use_type_invariant(&*self);
        }
        let mut entries: Vec<(String, V)> = Vec::new();
        std::mem::swap(&mut entries, &mut self.entries);
        if entries.len() > 0 {
            let last: usize = entries.len() - 1;
            proof {
                lemma_removed(entries@, last as int);
                lemma_key_index_is(entries@, last as int);
            }
            let entry = entries.remove(last);
            self.entries = entries;
            Some(entry)
        } else {
            self.entries = entries;
            assert(map_of(entries@) =~= Map::<Seq<char>, V>::empty());
            None
        }
    }

    /// The number of entries.
    pub closed spec fn size(&self) -> nat {
        self.entries@.len()
    }

    /// The number of keys.
    pub fn len(&self) -> (r: usize)
        ensures
            r == self@.len(),
            self@.dom().finite(),
    {
        proof {
            use_type_invariant(self);
            lemma_len(self.entries@);
        }
        self.entries.len()
    }
}

/// The entries of a map of numbers whose numbers are greater than `bound`.
pub open spec fn greater_than(m: Map<Seq<char>, u64>, bound: u64) -> Map<Seq<char>, u64> {
    Map::new(|k: Seq<char>| m.dom().contains(k) && m[k] > bound, |k: Seq<char>| m[k])
}

impl TextMap<u64> {
    /// Keeps the entries whose numbers are greater than `bound`.
    pub fn keep_greater(&mut self, bound: u64)
        ensures
            final(self)@ == greater_than(old(self)@, bound),
    {
        proof {
            use_type_invariant(&*self);
        }
        let mut entries: Vec<(String, u64)> = Vec::new();
        std::mem::swap(&mut entries, &mut self.entries);
        let mut i: usize = 0;
        while i < entries.len()
            invariant
                i <= entries@.len(),
                distinct_keys(entries@),
                greater_than(map_of(entries@), bound) == greater_than(old(self)@, bound),
                forall|k: int| 0 <= k < i ==> (#[trigger] entries@[k]).1 > bound,
            decreases entries@.len() - i,
        {
            if entries[i].1 > bound {
                i += 1;
            } else {
                proof {
                    lemma_removed(entries@, i as int);
                    lemma_key_index_is(entries@, i as int);
                }
                let ghost before = entries@;
                let _ = entries.remove(i);
                assert(greater_than(map_of(entries@), bound) =~= greater_than(
                    map_of(before),
                    bound,
                ));
            }
        }
        assert(greater_than(map_of(entries@), bound) =~= map_of(entries@)) by {
            assert forall|k: Seq<char>| map_of(entries@).dom().contains(k) implies map_of(
                entries@,
            )[k] > bound by {
                lemma_key_index(entries@, k, 0);
                assert(entries@[key_index(entries@, k, 0)].1 > bound);
            }
        }
        self.entries = entries;
    }
}

proof fn lemma_len<V>(entries: Seq<(String, V)>)
    requires
        distinct_keys(entries),
    ensures
        map_of(entries).dom().finite(),
        map_of(entries).len() == entries.len(),
    decreases entries.len(),
{
    if entries.len() == 0 {
        assert(map_of(entries) =~= Map::<Seq<char>, V>::empty());
    } else {
        let last = entries.last();
        let less = entries.drop_last();
        assert forall|i: int, j: int| 0 <= i < j < less.len() implies less[i].0@ != less[j].0@ by {
            assert(entries[i].0@ != entries[j].0@);
        }
        lemma_len(less);
        lemma_key_index(less, last.0@, 0);
        let k = key_index(less, last.0@, 0);
        if k < less.len() {
            assert(entries[k].0@ != entries[entries.len() - 1].0@);
        }
        lemma_pushed(less, last.0, last.1);
        assert(less.push((last.0, last.1)) =~= entries);
    }
}

} // verus!
