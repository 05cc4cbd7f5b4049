//! Collections keyed by text.

use crate::text::same;
use vstd::prelude::*;

verus! {

/// The models of a list of texts.
pub open spec fn text_views(texts: Seq<String>) -> Seq<Seq<char>> {
    texts.map_values(|t: String| t@)
}

/// Whether `texts` lists `text`.
pub fn lists(texts: &Vec<String>, text: &str) -> (r: bool)
    ensures
        r == text_views(texts@).contains(text@),
{
    let mut i: usize = 0;
    while i < texts.len()
        invariant
            i <= texts@.len(),
            forall|k: int| 0 <= k < i ==> (#[trigger] texts@[k])@ != text@,
        decreases texts@.len() - i,
    {
        if same(texts[i].as_str(), text) {
            assert(text_views(texts@)[i as int] == text@);
            return true;
        }
        i = i + 1;
    }
    assert forall|k: int| 0 <= k < text_views(texts@).len() implies text_views(texts@)[k]
        != text@ by {
        assert(texts@[k]@ != text@);
    }
    false
}

/// A list with the same texts.
pub fn copy_texts(texts: &Vec<String>) -> (r: Vec<String>)
    ensures
        r@ == texts@,
{
    let mut out: Vec<String> = Vec::new();
    let mut i: usize = 0;
    while i < texts.len()
        invariant
            i <= texts@.len(),
            out@ =~= texts@.take(i as int),
        decreases texts@.len() - i,
    {
        out.push(texts[i].clone());
        i = i + 1;
    }
    out
}

/// The set of the texts in a list.
pub open spec fn text_set(texts: Seq<String>) -> Set<Seq<char>> {
    text_views(texts).to_set()
}

/// A set of texts.
pub struct TextSet {
    texts: Vec<String>,
}

impl View for TextSet {
    type V = Set<Seq<char>>;

    closed spec fn view(&self) -> Set<Seq<char>> {
        text_set(self.texts@)
    }
}

impl TextSet {
    /// The empty set.
    pub fn new() -> (r: TextSet)
        ensures
            r@ == Set::<Seq<char>>::empty(),
    {
        let r = TextSet { texts: Vec::new() };
        assert(r@ =~= Set::<Seq<char>>::empty());
        r
    }

    /// Whether `text` is in the set.
    pub fn contains(&self, text: &str) -> (r: bool)
        ensures
            r == self@.contains(text@),
    {
        lists(&self.texts, text)
    }

    /// Puts `text` into the set.
    pub fn insert(&mut self, text: String)
        ensures
            final(self)@ == old(self)@.insert(text@),
    {
        let ghost before = text_views(self.texts@);
        self.texts.push(text);
        let ghost after = text_views(self.texts@);
        proof {
            assert(after =~= before.push(text@));
            assert forall|t: Seq<char>| after.contains(t) == (before.contains(t) || t == text@) by {
                if before.contains(t) {
                    let k = choose|k: int| 0 <= k < before.len() && before[k] == t;
                    assert(after[k] == t);
                }
                if t == text@ {
                    assert(after[before.len() as int] == t);
                }
            }
            assert(self@ =~= old(self)@.insert(text@));
        }
    }
}

/// The place of the first entry with the key `key`, from `from` on.
pub open spec fn place_from<V>(entries: Seq<(String, V)>, key: Seq<char>, from: int) -> Option<int>
    decreases entries.len() - from,
{
    if from < 0 || from >= entries.len() {
        None
    } else if entries[from].0@ == key {
        Some(from)
    } else {
        place_from(entries, key, from + 1)
    }
}

/// The map that a list of entries stands for.
pub open spec fn map_of<V>(entries: Seq<(String, V)>) -> Map<Seq<char>, V> {
    Map::new(
        |k: Seq<char>| place_from(entries, k, 0) is Some,
        |k: Seq<char>| entries[place_from(entries, k, 0)->0].1,
    )
}

/// Whether no two entries have the same key.
pub open spec fn keys_differ<V>(entries: Seq<(String, V)>) -> bool {
    forall|i: int, j: int|
        0 <= i < j < entries.len() ==> (#[trigger] entries[i]).0@ != (#[trigger] entries[j]).0@
}

proof fn lemma_place_from<V>(entries: Seq<(String, V)>, key: Seq<char>, from: int)
    requires
        0 <= from,
    ensures
        place_from(entries, key, from) matches Some(i) ==> from <= i < entries.len()
            && entries[i].0@ == key,
        place_from(entries, key, from) is None ==> (forall|j: int|
            from <= j < entries.len() ==> (#[trigger] entries[j]).0@ != key),
    decreases entries.len() - from,
{
    if from < entries.len() && entries[from].0@ != key {
        lemma_place_from(entries, key, from + 1);
    }
}

/// Where keys differ, an entry is what its key maps to.
pub proof fn lemma_entry_in_map<V>(entries: Seq<(String, V)>, i: int)
    requires
        keys_differ(entries),
        0 <= i < entries.len(),
    ensures
        map_of(entries).contains_key(entries[i].0@),
        map_of(entries)[entries[i].0@] == entries[i].1,
        place_from(entries, entries[i].0@, 0) == Some(i),
{
    let key = entries[i].0@;
    lemma_place_from(entries, key, 0);
    match place_from(entries, key, 0) {
        Some(k) => {
            if k < i {
                assert(entries[k].0@ != entries[i].0@);
            }
            if i < k {
                assert(entries[i].0@ != entries[k].0@);
            }
        },
        None => {
            assert(entries[i].0@ != key);
        },
    }
}

/// A key of the map is the key of an entry.
pub proof fn lemma_key_has_entry<V>(entries: Seq<(String, V)>, key: Seq<char>)
    requires
        map_of(entries).contains_key(key),
    ensures
        exists|i: int| 0 <= i < entries.len() && (#[trigger] entries[i]).0@ == key,
{
    lemma_place_from(entries, key, 0);
    let i = place_from(entries, key, 0)->0;
    assert(entries[i].0@ == key);
}

/// A map from texts to values.
#[derive(Debug)]
pub struct TextMap<V> {
    entries: Vec<(String, V)>,
}

impl<V> View for TextMap<V> {
    type V = Map<Seq<char>, V>;

    closed spec fn view(&self) -> Map<Seq<char>, V> {
        map_of(self.entries@)
    }
}

impl<V> TextMap<V> {
    #[verifier::type_invariant]
    spec fn inv(self) -> bool {
        keys_differ(self.entries@)
    }

    /// The empty map.
    pub fn new() -> (r: TextMap<V>)
        ensures
            r@ == Map::<Seq<char>, V>::empty(),
    {
        let r = TextMap { entries: Vec::new() };
        assert(r@ =~= Map::<Seq<char>, V>::empty());
        r
    }

    fn place(entries: &Vec<(String, V)>, key: &str) -> (r: Option<usize>)
        ensures
            (match r {
                Some(i) => place_from(entries@, key@, 0) == Some(i as int) && i < entries@.len()
                    && entries@[i as int].0@ == key@,
                None => place_from(entries@, key@, 0) is None && (forall|j: int|
                    0 <= j < entries@.len() ==> (#[trigger] entries@[j]).0@ != key@),
            }),
    {
        proof {
            lemma_place_from(entries@, key@, 0);
        }
        let mut i: usize = 0;
        while i < entries.len()
            invariant
                i <= entries@.len(),
                place_from(entries@, key@, 0) == place_from(entries@, key@, i as int),
            decreases entries@.len() - i,
        {
            if same(entries[i].0.as_str(), key) {
                return Some(i);
            }
            i = i + 1;
        }
        None
    }

    /// The value under `key`.
    pub fn get(&self, key: &str) -> (r: Option<&V>)
        ensures
            (match r {
                Some(v) => self@.contains_key(key@) && self@[key@] == *v,
                None => !self@.contains_key(key@),
            }),
    {
        match Self::place(&self.entries, key) {
            Some(i) => Some(&self.entries[i].1),
            None => None,
        }
    }

    /// Puts `value` under `key`.
    pub fn insert(&mut self, key: String, value: V)
        ensures
            final(self)@ == old(self)@.insert(key@, value),
    {
        proof {
            use_type_invariant(&*self);
        }
        let ghost before = self.entries@;
        let ghost key_view = key@;
        let mut entries: Vec<(String, V)> = Vec::new();
        std::mem::swap(&mut entries, &mut self.entries);
        match Self::place(&entries, key.as_str()) {
            Some(i) => {
                entries.set(i, (key, value));
                proof {
                    let after = entries@;
                    assert(keys_differ(after)) by {
                        assert forall|a: int, b: int|
                            0 <= a < b < after.len() implies (#[trigger] after[a]).0@ != (
                        #[trigger] after[b]).0@ by {
                            assert(before[a].0@ != before[b].0@);
                        }
                    }
                    lemma_same_keys_update(before, after, i as int, key_view, value);
                }
            },
            None => {
                entries.push((key, value));
                proof {
                    let after = entries@;
                    assert forall|a: int, b: int| 0 <= a < b < after.len() implies (
                    #[trigger] after[a]).0@ != (#[trigger] after[b]).0@ by {
                        if b < before.len() {
                            assert(before[a].0@ != before[b].0@);
                        } else {
                            assert(before[a].0@ != key_view);
                        }
                    }
                    lemma_push_entry(before, after, key_view, value);
                }
            },
        }
        self.entries = entries;
    }

    /// Takes away what stands under `key`.
    pub fn remove(&mut self, key: &str) -> (r: Option<V>)
        ensures
            final(self)@ == old(self)@.remove(key@),
            (match r {
                Some(v) => old(self)@.contains_key(key@) && old(self)@[key@] == v,
                None => !old(self)@.contains_key(key@),
            }),
    {
        proof {
            use_type_invariant(&*self);
        }
        let ghost before = self.entries@;
        let mut entries: Vec<(String, V)> = Vec::new();
        std::mem::swap(&mut entries, &mut self.entries);
        match Self::place(&entries, key) {
            Some(i) => {
                let taken = entries.remove(i);
                proof {
                    let after = entries@;
                    assert forall|a: int, b: int| 0 <= a < b < after.len() implies (
                    #[trigger] after[a]).0@ != (#[trigger] after[b]).0@ by {
                        let a2 = if a < i {
                            a
                        } else {
                            a + 1
                        };
                        let b2 = if b < i {
                            b
                        } else {
                            b + 1
                        };
                        assert(before[a2].0@ != before[b2].0@);
                    }
                    lemma_remove_entry(before, after, i as int, key@);
                }
                self.entries = entries;
                Some(taken.1)
            },
            None => {
                self.entries = entries;
                assert(final(self)@ =~= old(self)@.remove(key@));
                None
            },
        }
    }

    /// Empties the map.
    pub fn clear(&mut self)
        ensures
            final(self)@ == Map::<Seq<char>, V>::empty(),
    {
        self.entries = Vec::new();
        assert(self@ =~= Map::<Seq<char>, V>::empty());
    }

    /// Whether the map is empty.
    pub fn is_empty(&self) -> (r: bool)
        ensures
            r == (self@ == Map::<Seq<char>, V>::empty()),
    {
        let r = self.entries.len() == 0;
        proof {
            use_type_invariant(self);
            if r {
                assert(self@ =~= Map::<Seq<char>, V>::empty());
            } else {
                lemma_entry_in_map(self.entries@, 0);
            }
        }
        r
    }

    /// The entries: each key of the map once, with its value.
    pub fn entries(&self) -> (r: &Vec<(String, V)>)
        ensures
            keys_differ(r@),
            self@ == map_of(r@),
    {
        proof {
            use_type_invariant(self);
        }
        &self.entries
    }
}

proof fn lemma_same_keys_update<V>(
    before: Seq<(String, V)>,
    after: Seq<(String, V)>,
    i: int,
    key: Seq<char>,
    value: V,
)
    requires
        keys_differ(before),
        keys_differ(after),
        0 <= i < before.len(),
        before[i].0@ == key,
        after.len() == before.len(),
        after[i].0@ == key,
        after[i].1 == value,
        forall|j: int| 0 <= j < before.len() && j != i ==> after[j] == before[j],
    ensures
        map_of(after) == map_of(before).insert(key, value),
{
    assert forall|k: Seq<char>| #[trigger]
        map_of(after).contains_key(k) == map_of(before).insert(key, value).contains_key(k) && (
    map_of(after).contains_key(k) ==> map_of(after)[k] == map_of(before).insert(
        key,
        value,
    )[k]) by {
        lemma_entry_in_map(after, i);
        lemma_place_from(before, k, 0);
        lemma_place_from(after, k, 0);
        if k != key {
            match place_from(before, k, 0) {
                Some(p) => {
                    lemma_entry_in_map(before, p);
                    lemma_entry_in_map(after, p);
                },
                None => {
                    match place_from(after, k, 0) {
                        Some(p) => {
                            assert(after[p] == before[p]);
                        },
                        None => {},
                    }
                },
            }
        }
    }
    assert(map_of(after) =~= map_of(before).insert(key, value));
}

proof fn lemma_push_entry<V>(
    before: Seq<(String, V)>,
    after: Seq<(String, V)>,
    key: Seq<char>,
    value: V,
)
    requires
        keys_differ(before),
        keys_differ(after),
        after.len() == before.len() + 1,
        after.last().0@ == key,
        after.last().1 == value,
        forall|j: int| 0 <= j < before.len() ==> after[j] == before[j],
    ensures
        map_of(after) == map_of(before).insert(key, value),
{
    let n = before.len() as int;
    assert forall|k: Seq<char>| #[trigger]
        map_of(after).contains_key(k) == map_of(before).insert(key, value).contains_key(k) && (
    map_of(after).contains_key(k) ==> map_of(after)[k] == map_of(before).insert(
        key,
        value,
    )[k]) by {
        lemma_entry_in_map(after, n);
        lemma_place_from(before, k, 0);
        lemma_place_from(after, k, 0);
        if k != key {
            match place_from(before, k, 0) {
                Some(p) => {
                    lemma_entry_in_map(before, p);
                    lemma_entry_in_map(after, p);
                },
                None => {
                    match place_from(after, k, 0) {
                        Some(p) => {
                            assert(p < n);
                            assert(after[p] == before[p]);
                        },
                        None => {},
                    }
                },
            }
        }
    }
    assert(map_of(after) =~= map_of(before).insert(key, value));
}

proof fn lemma_remove_entry<V>(
    before: Seq<(String, V)>,
    after: Seq<(String, V)>,
    i: int,
    key: Seq<char>,
)
    requires
        keys_differ(before),
        keys_differ(after),
        0 <= i < before.len(),
        before[i].0@ == key,
        after == before.remove(i),
    ensures
        map_of(after) == map_of(before).remove(key),
        map_of(before)[key] == before[i].1,
{
    lemma_entry_in_map(before, i);
    assert forall|k: Seq<char>| #[trigger]
        map_of(after).contains_key(k) == map_of(before).remove(key).contains_key(k) && (
    map_of(after).contains_key(k) ==> map_of(after)[k] == map_of(before).remove(key)[k]) by {
        lemma_place_from(before, k, 0);
        lemma_place_from(after, k, 0);
        match place_from(after, k, 0) {
            Some(p) => {
                let q = if p < i {
                    p
                } else {
                    p + 1
                };
                assert(after[p] == before[q]);
                lemma_entry_in_map(before, q);
                if k == key {
                    lemma_entry_in_map(before, i);
                }
            },
            None => {
                match place_from(before, k, 0) {
                    Some(q) => {
                        if q != i {
                            let p = if q < i {
                                q
                            } else {
                                q - 1
                            };
                            assert(after[p] == before[q]);
                            assert(after[p].0@ != k);
                        }
                    },
                    None => {},
                }
            },
        }
    }
    assert(map_of(after) =~= map_of(before).remove(key));
}

} // verus!
