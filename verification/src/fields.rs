//! A small map from names to values, both texts, that remembers the order
//! in which its names came in.

use crate::text::same_text;
use vstd::prelude::*;

verus! {

/// The first position at or after `from` whose name is `key`; the length of
/// `pairs` where there is none.
pub open spec fn key_index(pairs: Seq<(Seq<char>, Seq<char>)>, key: Seq<char>, from: int) -> int
    decreases pairs.len() - from,
{
    if from < 0 || from >= pairs.len() {
        pairs.len() as int
    } else if pairs[from].0 == key {
        from
    } else {
        key_index(pairs, key, from + 1)
    }
}

/// No name stands twice in `pairs`.
pub open spec fn distinct_keys(pairs: Seq<(Seq<char>, Seq<char>)>) -> bool {
    forall|i: int, j: int| 0 <= i < j < pairs.len() ==> (#[trigger] pairs[i]).0 != (#[trigger] pairs[j]).0
}

/// The map that a list of pairs stands for: each name with the value of the
/// first pair that holds it.
pub open spec fn map_of(pairs: Seq<(Seq<char>, Seq<char>)>) -> Map<Seq<char>, Seq<char>> {
    Map::new(
        |k: Seq<char>| key_index(pairs, k, 0) < pairs.len(),
        |k: Seq<char>| pairs[key_index(pairs, k, 0)].1,
    )
}

/// `pairs` with `value` under `key`: in the place where `key` stood, or at
/// the end where it is new.
pub open spec fn put(pairs: Seq<(Seq<char>, Seq<char>)>, key: Seq<char>, value: Seq<char>) -> Seq<
    (Seq<char>, Seq<char>),
> {
    let at = key_index(pairs, key, 0);
    if at < pairs.len() {
        pairs.update(at, (key, value))
    } else {
        pairs.push((key, value))
    }
}

/// `key_index` finds the first pair named `key` and nothing before it.
pub proof fn lemma_key_index(pairs: Seq<(Seq<char>, Seq<char>)>, key: Seq<char>, from: int)
    requires
        0 <= from <= pairs.len(),
    ensures
        from <= key_index(pairs, key, from) <= pairs.len(),
        key_index(pairs, key, from) < pairs.len() ==> pairs[key_index(pairs, key, from)].0 == key,
        forall|j: int| from <= j < key_index(pairs, key, from) ==> (#[trigger] pairs[j]).0 != key,
    decreases pairs.len() - from,
{
    if from < pairs.len() && pairs[from].0 != key {
        lemma_key_index(pairs, key, from + 1);
    }
}

/// The position that holds `key` first is what `key_index` gives.
pub proof fn lemma_key_index_is(pairs: Seq<(Seq<char>, Seq<char>)>, key: Seq<char>, at: int)
    requires
        0 <= at <= pairs.len(),
        at < pairs.len() ==> pairs[at].0 == key,
        forall|j: int| 0 <= j < at ==> (#[trigger] pairs[j]).0 != key,
    ensures
        key_index(pairs, key, 0) == at,
{
    lemma_key_index(pairs, key, 0);
}

/// Putting a value under a name changes the map at that name and nowhere
/// else, and keeps the names distinct.
pub proof fn lemma_put(pairs: Seq<(Seq<char>, Seq<char>)>, key: Seq<char>, value: Seq<char>)
    ensures
        map_of(put(pairs, key, value)) == map_of(pairs).insert(key, value),
        distinct_keys(pairs) ==> distinct_keys(put(pairs, key, value)),
{
    let after = put(pairs, key, value);
    let at = key_index(pairs, key, 0);
    lemma_key_index(pairs, key, 0);
    assert forall|k: Seq<char>|
        (#[trigger] map_of(after).contains_key(k)) == map_of(pairs).insert(key, value).contains_key(
            k,
        ) && (map_of(after).contains_key(k) ==> map_of(after)[k] == map_of(pairs).insert(
            key,
            value,
        )[k]) by {
        let i = key_index(pairs, k, 0);
        lemma_key_index(pairs, k, 0);
        if k == key {
            lemma_key_index_is(after, k, at);
        } else if i < pairs.len() {
            lemma_key_index_is(after, k, i);
        } else {
            lemma_key_index_is(after, k, after.len() as int);
        }
    }
    assert(map_of(after) =~= map_of(pairs).insert(key, value));
}

/// A map from names to values that keeps its names in the order of their
/// first arrival.
#[derive(Debug)]
pub struct Fields {
    entries: Vec<(String, String)>,
}

impl View for Fields {
    type V = Map<Seq<char>, Seq<char>>;

    open spec fn view(&self) -> Map<Seq<char>, Seq<char>> {
        map_of(self.pairs())
    }
}

impl Fields {
    #[verifier::type_invariant]
    spec fn names_distinct(&self) -> bool {
        distinct_keys(self.pairs())
    }

    /// The names and values, in the order in which the names first came.
    pub closed spec fn pairs(&self) -> Seq<(Seq<char>, Seq<char>)> {
        self.entries@.map_values(|e: (String, String)| (e.0@, e.1@))
    }

    /// A map without names.
    pub fn new() -> (r: Fields)
        ensures
            r.pairs() == Seq::<(Seq<char>, Seq<char>)>::empty(),
            r@ == Map::<Seq<char>, Seq<char>>::empty(),
    {
        let r = Fields { entries: Vec::new() };
        assert(r.pairs() =~= Seq::<(Seq<char>, Seq<char>)>::empty());
        assert(r@ =~= Map::<Seq<char>, Seq<char>>::empty());
        r
    }

    /// The number of names, none of which stands twice.
    pub fn len(&self) -> (n: usize)
        ensures
            n == self.pairs().len(),
            distinct_keys(self.pairs()),
    {
        proof {
            use_type_invariant(self);
        }
        self.entries.len()
    }

    /// The name at position `i`.
    pub fn name_at(&self, i: usize) -> (r: &String)
        requires
            i < self.pairs().len(),
        ensures
            r@ == self.pairs()[i as int].0,
    {
        &self.entries[i].0
    }

    /// The value at position `i`.
    pub fn value_at(&self, i: usize) -> (r: &String)
        requires
            i < self.pairs().len(),
        ensures
            r@ == self.pairs()[i as int].1,
    {
        &self.entries[i].1
    }

    fn find(&self, key: &str) -> (at: usize)
        ensures
            at == key_index(self.pairs(), key@, 0),
            at <= self.pairs().len(),
    {
        let mut i: usize = 0;
        while i < self.entries.len() && !same_text(self.entries[i].0.as_str(), key)
            invariant
                i <= self.entries.len(),
                key_index(self.pairs(), key@, 0) == key_index(self.pairs(), key@, i as int),
            decreases self.entries.len() - i,
        {
            i += 1;
        }
        i
    }

    /// The value under `key`, if the map holds that name.
    pub fn get(&self, key: &str) -> (r: Option<&String>)
        ensures
            match r {
                Some(value) => self@.contains_key(key@) && value@ == self@[key@],
                None => !self@.contains_key(key@),
            },
    {
        let at = self.find(key);
        if at < self.entries.len() {
            Some(&self.entries[at].1)
        } else {
            None
        }
    }

    /// Puts `value` under `key`, in place of the value that stood there.
    pub fn insert(&mut self, key: String, value: String)
        ensures
            final(self).pairs() == put(old(self).pairs(), key@, value@),
            final(self)@ == old(self)@.insert(key@, value@),
    {
        proof {
            use_type_invariant(&*self);
            lemma_put(self.pairs(), key@, value@);
        }
        let at = self.find(key.as_str());
        let mut before = Fields::new();
        std::mem::swap(self, &mut before);
        let mut entries = before.entries;
        if at < entries.len() {
            entries.set(at, (key, value));
        } else {
            entries.push((key, value));
        }
        assert(entries@.map_values(|e: (String, String)| (e.0@, e.1@)) =~= put(
            old(self).pairs(),
            key@,
            value@,
        ));
        *self = Fields { entries };
    }
}

} // verus!
