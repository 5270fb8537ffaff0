//! A map from text keys to values, kept as a list of entries in which no
//! key stands twice.

use vstd::prelude::*;

verus! {

/// Entry `i` of `entries` exists and has the key `key`.
pub open spec fn key_at<V>(entries: Seq<(String, V)>, key: Seq<char>, i: int) -> bool {
    0 <= i < entries.len() && entries[i].0@ == key
}

/// No two entries have the same key.
pub open spec fn distinct_keys<V>(entries: Seq<(String, V)>) -> bool {
    forall|i: int, j: int|
        0 <= i < j < entries.len() ==> #[trigger] entries[i].0@ != #[trigger] entries[j].0@
}

/// The map that a list of entries describes. Where a key stands more than
/// once, its last entry counts.
pub open spec fn collected<V>(entries: Seq<(String, V)>) -> Map<Seq<char>, V>
    decreases entries.len(),
{
    if entries.len() == 0 {
        Map::empty()
    } else {
        collected(entries.drop_last()).insert(entries.last().0@, entries.last().1)
    }
}

/// A key is in the collected map exactly when some entry has it.
pub proof fn lemma_collected_keys<V>(entries: Seq<(String, V)>, key: Seq<char>)
    ensures
        collected(entries).contains_key(key) <==> exists|i: int| key_at(entries, key, i),
    decreases entries.len(),
{
    if entries.len() > 0 {
        let front = entries.drop_last();
        lemma_collected_keys(front, key);
        if collected(entries).contains_key(key) {
            if entries.last().0@ == key {
                assert(key_at(entries, key, entries.len() - 1));
            } else {
                let i = choose|i: int| key_at(front, key, i);
                assert(key_at(entries, key, i));
            }
        }
        if exists|i: int| key_at(entries, key, i) {
            let i = choose|i: int| key_at(entries, key, i);
            if i < entries.len() - 1 {
                assert(key_at(front, key, i));
            }
        }
    }
}

/// Where no key stands twice, the collected map holds under each entry's
/// key that entry's value.
pub proof fn lemma_collected_value<V>(entries: Seq<(String, V)>, i: int)
    requires
        distinct_keys(entries),
        0 <= i < entries.len(),
    ensures
        collected(entries).contains_key(entries[i].0@),
        collected(entries)[entries[i].0@] == entries[i].1,
    decreases entries.len(),
{
    let front = entries.drop_last();
    if i < entries.len() - 1 {
        assert(distinct_keys(front)) by {
            assert forall|a: int, b: int| 0 <= a < b < front.len() implies #[trigger] front[a].0@
                != #[trigger] front[b].0@ by {
                assert(entries[a].0@ != entries[b].0@);
            }
        }
        lemma_collected_value(front, i);
        assert(entries[i].0@ != entries[entries.len() - 1].0@);
    }
}

/// Taking one entry out of a list without repeated keys takes its key out
/// of the collected map and leaves the rest as it was.
pub proof fn lemma_collected_remove<V>(entries: Seq<(String, V)>, i: int)
    requires
        distinct_keys(entries),
        0 <= i < entries.len(),
    ensures
        distinct_keys(entries.remove(i)),
        collected(entries.remove(i)) == collected(entries).remove(entries[i].0@),
{
    let rest = entries.remove(i);
    let key = entries[i].0@;
    assert forall|a: int, b: int| 0 <= a < b < rest.len() implies #[trigger] rest[a].0@
        != #[trigger] rest[b].0@ by {
        let a0 = if a < i { a } else { a + 1 };
        let b0 = if b < i { b } else { b + 1 };
        assert(entries[a0].0@ != entries[b0].0@);
    }
    assert forall|k: Seq<char>| #[trigger]
        collected(rest).contains_key(k) == collected(entries).remove(key).contains_key(k) by {
        lemma_collected_keys(rest, k);
        lemma_collected_keys(entries, k);
        if exists|j: int| key_at(rest, k, j) {
            let j = choose|j: int| key_at(rest, k, j);
            let j0 = if j < i { j } else { j + 1 };
            assert(key_at(entries, k, j0));
            if j0 < i {
                assert(entries[j0].0@ != entries[i].0@);
            } else {
                assert(entries[i].0@ != entries[j0].0@);
            }
        }
        if k != key && exists|j: int| key_at(entries, k, j) {
            let j = choose|j: int| key_at(entries, k, j);
            let j1 = if j < i { j } else { j - 1 };
            assert(key_at(rest, k, j1));
        }
    }
    assert forall|k: Seq<char>| #[trigger] collected(rest).contains_key(k) implies collected(
        rest,
    )[k] == collected(entries).remove(key)[k] by {
        lemma_collected_keys(rest, k);
        let j = choose|j: int| key_at(rest, k, j);
        let j0 = if j < i { j } else { j + 1 };
        lemma_collected_value(rest, j);
        lemma_collected_value(entries, j0);
    }
    assert(collected(rest) =~= collected(entries).remove(key));
}

/// Adding an entry at the end puts its value under its key. Where the key
/// was not in the list, the list still has no key twice.
pub proof fn lemma_collected_push<V>(entries: Seq<(String, V)>, entry: (String, V))
    ensures
        collected(entries.push(entry)) == collected(entries).insert(entry.0@, entry.1),
        distinct_keys(entries) && !collected(entries).contains_key(entry.0@) ==> distinct_keys(
            entries.push(entry),
        ),
{
    let longer = entries.push(entry);
    assert(longer.drop_last() =~= entries);
    if distinct_keys(entries) && !collected(entries).contains_key(entry.0@) {
        assert forall|a: int, b: int| 0 <= a < b < longer.len() implies #[trigger] longer[a].0@
            != #[trigger] longer[b].0@ by {
            if b == entries.len() {
                lemma_collected_keys(entries, entry.0@);
                assert(!key_at(entries, entry.0@, a));
            } else {
                assert(entries[a].0@ != entries[b].0@);
            }
        }
    }
}

/// A list without repeated keys describes a finite map with as many keys
/// as the list has entries.
pub proof fn lemma_collected_len<V>(entries: Seq<(String, V)>)
    requires
        distinct_keys(entries),
    ensures
        collected(entries).dom().finite(),
        collected(entries).len() == entries.len(),
    decreases entries.len(),
{
    if entries.len() > 0 {
        let front = entries.drop_last();
        let last = entries.last();
        assert(distinct_keys(front)) by {
            assert forall|a: int, b: int| 0 <= a < b < front.len() implies #[trigger] front[a].0@
                != #[trigger] front[b].0@ by {
                assert(entries[a].0@ != entries[b].0@);
            }
        }
        lemma_collected_len(front);
        assert(!collected(front).contains_key(last.0@)) by {
            lemma_collected_keys(front, last.0@);
            if exists|i: int| key_at(front, last.0@, i) {
                let i = choose|i: int| key_at(front, last.0@, i);
                assert(entries[i].0@ != entries[entries.len() - 1].0@);
            }
        }
    }
}

/// The entries with their keys as characters and with what `f` makes of
/// their values.
pub open spec fn described<V, W>(entries: Seq<(String, V)>, f: spec_fn(V) -> W) -> Seq<
    (Seq<char>, W),
> {
    entries.map_values(|entry: (String, V)| (entry.0@, f(entry.1)))
}

/// In a list without repeated keys no description stands twice.
proof fn lemma_described_once<V, W>(a: Seq<(String, V)>, f: spec_fn(V) -> W, p: int)
    requires
        distinct_keys(a),
        0 <= p < a.len(),
    ensures
        described(a, f).to_multiset().count(described(a, f)[p]) == 1,
{
    broadcast use vstd::multiset::group_multiset_axioms;

    let all = described(a, f);
    let x = all[p];
    vstd::seq_lib::to_multiset_remove(all, p);
    vstd::seq_lib::to_multiset_contains(all, x);
    vstd::seq_lib::to_multiset_contains(all.remove(p), x);
    assert(all.contains(x));
    if all.remove(p).contains(x) {
        let r = choose|r: int| 0 <= r < all.remove(p).len() && all.remove(p)[r] == x;
        let r0 = if r < p { r } else { r + 1 };
        assert(all[r0] == x);
        if r0 < p {
            assert(a[r0].0@ != a[p].0@);
        } else {
            assert(a[p].0@ != a[r0].0@);
        }
    }
}

/// The map that a list describes does not depend on the order of the
/// list: two lists whose entries are the same, each as often in the one as
/// in the other, describe the same map, where the first has no key twice.
/// Entries are compared by the characters of their keys and by what `f`
/// makes of their values.
pub proof fn lemma_collected_any_order<V, W>(
    a: Seq<(String, V)>,
    b: Seq<(String, V)>,
    f: spec_fn(V) -> W,
)
    requires
        distinct_keys(a),
        described(a, f).to_multiset() == described(b, f).to_multiset(),
    ensures
        distinct_keys(b),
        collected(a).map_values(f) == collected(b).map_values(f),
{
    broadcast use vstd::multiset::group_multiset_axioms;

    let da = described(a, f);
    let db = described(b, f);
    assert forall|i: int, j: int| 0 <= i < j < b.len() implies #[trigger] b[i].0@
        != #[trigger] b[j].0@ by {
        if b[i].0@ == b[j].0@ {
            let x = db[i];
            let y = db[j];
            vstd::seq_lib::to_multiset_contains(da, x);
            vstd::seq_lib::to_multiset_contains(db, x);
            vstd::seq_lib::to_multiset_contains(da, y);
            vstd::seq_lib::to_multiset_contains(db, y);
            assert(db.contains(x));
            assert(db.contains(y));
            let p = choose|p: int| 0 <= p < da.len() && da[p] == x;
            let q = choose|q: int| 0 <= q < da.len() && da[q] == y;
            if p < q {
                assert(a[p].0@ != a[q].0@);
            }
            if q < p {
                assert(a[q].0@ != a[p].0@);
            }
            assert(x == y);
            lemma_described_once(a, f, p);
            vstd::seq_lib::to_multiset_remove(db, j);
            vstd::seq_lib::to_multiset_contains(db.remove(j), x);
            assert(db.remove(j)[i] == x);
            assert(db.remove(j).contains(x));
        }
    }
    assert forall|k: Seq<char>| #[trigger]
        collected(a).contains_key(k) == collected(b).contains_key(k) by {
        lemma_collected_keys(a, k);
        lemma_collected_keys(b, k);
        if exists|i: int| key_at(a, k, i) {
            let i = choose|i: int| key_at(a, k, i);
            vstd::seq_lib::to_multiset_contains(da, da[i]);
            vstd::seq_lib::to_multiset_contains(db, da[i]);
            assert(da.contains(da[i]));
            let j = choose|j: int| 0 <= j < db.len() && db[j] == da[i];
            assert(key_at(b, k, j));
        }
        if exists|j: int| key_at(b, k, j) {
            let j = choose|j: int| key_at(b, k, j);
            vstd::seq_lib::to_multiset_contains(da, db[j]);
            vstd::seq_lib::to_multiset_contains(db, db[j]);
            assert(db.contains(db[j]));
            let i = choose|i: int| 0 <= i < da.len() && da[i] == db[j];
            assert(key_at(a, k, i));
        }
    }
    assert forall|k: Seq<char>| #[trigger] collected(a).contains_key(k) implies f(collected(a)[k])
        == f(collected(b)[k]) by {
        lemma_collected_keys(a, k);
        let i = choose|i: int| key_at(a, k, i);
        vstd::seq_lib::to_multiset_contains(da, da[i]);
        vstd::seq_lib::to_multiset_contains(db, da[i]);
        assert(da.contains(da[i]));
        let j = choose|j: int| 0 <= j < db.len() && db[j] == da[i];
        lemma_collected_value(a, i);
        lemma_collected_value(b, j);
    }
    assert(collected(a).map_values(f) =~= collected(b).map_values(f));
}

/// A map from text keys to values.
#[derive(Debug)]
pub struct TextMap<V> {
    entries: Vec<(String, V)>,
}

impl<V> View for TextMap<V> {
    type V = Map<Seq<char>, V>;

    closed spec fn view(&self) -> Map<Seq<char>, V> {
        collected(self.entries@)
    }
}

impl<V> TextMap<V> {
    #[verifier::type_invariant]
    spec fn no_key_twice(self) -> bool {
        distinct_keys(self.entries@)
    }

    /// The empty map.
    pub fn new() -> (map: Self)
        ensures
            map@ == Map::<Seq<char>, V>::empty(),
    {
        TextMap { entries: Vec::new() }
    }

    /// The number of keys.
    pub fn len(&self) -> (len: usize)
        ensures
            self@.dom().finite(),
            len == self@.len(),
    {
        proof {
            use_type_invariant(self);
            lemma_collected_len(self.entries@);
        }
        self.entries.len()
    }

    /// The position of the entry under `key`, if there is one.
    fn position(&self, key: &str) -> (found: Option<usize>)
        ensures
            match found {
                Some(i) => key_at(self.entries@, key@, i as int),
                None => forall|i: int| !key_at(self.entries@, key@, i),
            },
    {
        let wanted = key.to_owned();
        let mut i: usize = 0;
        while i < self.entries.len()
            invariant
                i <= self.entries.len(),
                wanted@ == key@,
                forall|j: int| 0 <= j < i ==> !key_at(self.entries@, key@, j),
            decreases self.entries.len() - i,
        {
            if self.entries[i].0 == wanted {
                return Some(i);
            }
            i += 1;
        }
        None
    }

    /// The value under `key`, if the map has one.
    pub fn get(&self, key: &str) -> (value: Option<&V>)
        ensures
            match value {
                Some(v) => self@.contains_key(key@) && *v == self@[key@],
                None => !self@.contains_key(key@),
            },
    {
        proof {
            use_type_invariant(self);
            lemma_collected_keys(self.entries@, key@);
        }
        match self.position(key) {
            Some(i) => {
                proof {
                    lemma_collected_value(self.entries@, i as int);
                }
                Some(&self.entries[i].1)
            },
            None => None,
        }
    }

    /// The map with `value` under `key`, in place of what it had there.
    pub fn with(self, key: String, value: V) -> (map: Self)
        ensures
            map@ == self@.insert(key@, value),
    {
        proof {
            use_type_invariant(&self);
        }
        let found = self.position(key.as_str());
        let mut entries = self.entries;
        match found {
            Some(i) => {
                proof {
                    lemma_collected_remove(entries@, i as int);
                }
                let _ = entries.remove(i);
            },
            None => {
                proof {
                    lemma_collected_keys(entries@, key@);
                }
            },
        }
        proof {
            lemma_collected_push(entries@, (key, value));
            assert(self@.remove(key@).insert(key@, value) =~= self@.insert(key@, value));
        }
        entries.push((key, value));
        TextMap { entries }
    }

    /// The map without `key` and its value. A map that does not have the
    /// key comes back as it is.
    pub fn without(self, key: &str) -> (map: Self)
        ensures
            map@ == self@.remove(key@),
    {
        proof {
            use_type_invariant(&self);
        }
        let found = self.position(key);
        let mut entries = self.entries;
        match found {
            Some(i) => {
                proof {
                    lemma_collected_remove(entries@, i as int);
                }
                let _ = entries.remove(i);
            },
            None => {
                proof {
                    lemma_collected_keys(entries@, key@);
                    assert(self@.remove(key@) =~= self@);
                }
            },
        }
        TextMap { entries }
    }

    /// The map that `entries` describe: each entry is put under its key in
    /// turn, so a later entry replaces an earlier one with the same key.
    pub fn from_entries(entries: Vec<(String, V)>) -> (map: Self)
        ensures
            map@ == collected(entries@),
    {
        let ghost all = entries@;
        let mut map = TextMap::new();
        assert(all.take(0) =~= Seq::<(String, V)>::empty());
        for entry in it: entries
            invariant
                it.seq() == all,
                map@ == collected(all.take(it.index() as int)),
        {
            proof {
                let done = all.take(it.index() as int);
                assert(all.take(it.index() + 1) =~= done.push(entry));
                lemma_collected_push(done, entry);
            }
            map = map.with(entry.0, entry.1);
        }
        assert(all.take(all.len() as int) =~= all);
        map
    }

    /// The entries of the map, each key once.
    pub fn entries(&self) -> (entries: &Vec<(String, V)>)
        ensures
            distinct_keys(entries@),
            collected(entries@) == self@,
    {
        proof {
            use_type_invariant(self);
        }
        &self.entries
    }
}

/// Two lists that agree key by key describe maps over the same keys, and
/// under each key stand the values of the two entries that have it.
proof fn lemma_collected_alike<V>(a: Seq<(String, V)>, b: Seq<(String, V)>)
    requires
        distinct_keys(a),
        a.len() == b.len(),
        forall|i: int| 0 <= i < a.len() ==> (#[trigger] a[i]).0@ == b[i].0@,
    ensures
        distinct_keys(b),
        collected(a).dom() == collected(b).dom(),
        forall|k: Seq<char>| #[trigger]
            collected(b).contains_key(k) ==> exists|i: int|
                key_at(a, k, i) && collected(a)[k] == a[i].1 && collected(b)[k] == b[i].1,
{
    assert forall|i: int, j: int| 0 <= i < j < b.len() implies #[trigger] b[i].0@
        != #[trigger] b[j].0@ by {
        assert(a[i].0@ == b[i].0@);
        assert(a[j].0@ == b[j].0@);
    }
    assert forall|k: Seq<char>| collected(a).contains_key(k) == collected(b).contains_key(k) by {
        lemma_collected_keys(a, k);
        lemma_collected_keys(b, k);
        if exists|i: int| key_at(a, k, i) {
            let i = choose|i: int| key_at(a, k, i);
            assert(a[i].0@ == b[i].0@);
            assert(key_at(b, k, i));
        }
        if exists|i: int| key_at(b, k, i) {
            let i = choose|i: int| key_at(b, k, i);
            assert(a[i].0@ == b[i].0@);
            assert(key_at(a, k, i));
        }
    }
    assert(collected(a).dom() =~= collected(b).dom());
    assert forall|k: Seq<char>| #[trigger] collected(b).contains_key(k) implies exists|i: int|
        key_at(a, k, i) && collected(a)[k] == a[i].1 && collected(b)[k] == b[i].1 by {
        lemma_collected_keys(b, k);
        let i = choose|i: int| key_at(b, k, i);
        assert(a[i].0@ == b[i].0@);
        lemma_collected_value(a, i);
        lemma_collected_value(b, i);
        assert(key_at(a, k, i));
    }
}

impl<V: Clone> Clone for TextMap<V> {
    /// A map over the same keys, with a clone of each value.
    fn clone(&self) -> (copy: Self)
        ensures
            copy@.dom() == self@.dom(),
            forall|k: Seq<char>| #[trigger] copy@.contains_key(k) ==> cloned::<V>(self@[k], copy@[k]),
    {
        proof {
            use_type_invariant(self);
        }
        let mut entries: Vec<(String, V)> = Vec::new();
        let mut i: usize = 0;
        while i < self.entries.len()
            invariant
                i <= self.entries.len(),
                entries.len() == i,
                forall|j: int|
                    0 <= j < i ==> (#[trigger] self.entries@[j]).0@ == entries@[j].0@ && cloned::<V>(
                        self.entries@[j].1,
                        entries@[j].1,
                    ),
            decreases self.entries.len() - i,
        {
            let key = self.entries[i].0.clone();
            let value = self.entries[i].1.clone();
            entries.push((key, value));
            i += 1;
        }
        proof {
            lemma_collected_alike(self.entries@, entries@);
            assert forall|k: Seq<char>| #[trigger]
                collected(entries@).contains_key(k) implies cloned::<V>(
                collected(self.entries@)[k],
                collected(entries@)[k],
            ) by {
                let j = choose|j: int|
                    key_at(self.entries@, k, j) && collected(self.entries@)[k]
                        == self.entries@[j].1 && collected(entries@)[k] == entries@[j].1;
                assert(self.entries@[j].0@ == entries@[j].0@);
            }
        }
        TextMap { entries }
    }
}

} // verus!
