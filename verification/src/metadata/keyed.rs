//! A store of values keyed by text: at most one entry per key, and inserting
//! under a present key replaces its value (the semantics of a `HashMap`).

use vstd::prelude::*;
use crate::text::str_eq;

verus! {

/// Whether no key occurs twice in `s`.
pub open spec fn keys_distinct<V>(s: Seq<(String, V)>) -> bool {
    forall|i: int, j: int| 0 <= i < j < s.len() ==> #[trigger] s[i].0@ != #[trigger] s[j].0@
}

/// The map that inserting the entries of `s`, in order, into an empty map gives.
pub open spec fn entries_map<V>(s: Seq<(String, V)>) -> Map<Seq<char>, V>
    decreases s.len(),
{
    if s.len() == 0 {
        Map::empty()
    } else {
        entries_map(s.drop_last()).insert(s.last().0@, s.last().1)
    }
}

/// A key is present exactly when some entry carries it; the domain is finite.
pub proof fn lemma_entries_map_dom<V>(s: Seq<(String, V)>)
    ensures
        entries_map(s).dom().finite(),
        forall|k: Seq<char>|
            #![trigger entries_map(s).contains_key(k)]
            entries_map(s).contains_key(k) <==> exists|i: int| 0 <= i < s.len() && s[i].0@ == k,
    decreases s.len(),
{
    if s.len() > 0 {
        let p = s.drop_last();
        lemma_entries_map_dom(p);
        assert forall|k: Seq<char>| entries_map(s).contains_key(k) implies exists|i: int|
            0 <= i < s.len() && s[i].0@ == k by {
            if k == s.last().0@ {
                assert(s[s.len() - 1].0@ == k);
            } else {
                let i = choose|i: int| 0 <= i < p.len() && p[i].0@ == k;
                assert(s[i] == p[i]);
            }
        }
        assert forall|k: Seq<char>| (exists|i: int| 0 <= i < s.len() && s[i].0@ == k) implies
            entries_map(s).contains_key(k) by {
            let i = choose|i: int| 0 <= i < s.len() && s[i].0@ == k;
            if i < s.len() - 1 {
                assert(p[i] == s[i]);
            }
        }
    }
}

/// With distinct keys, each entry's key maps to that entry's value.
pub proof fn lemma_entries_map_at<V>(s: Seq<(String, V)>, i: int)
    requires
        keys_distinct(s),
        0 <= i < s.len(),
    ensures
        entries_map(s).contains_key(s[i].0@),
        entries_map(s)[s[i].0@] == s[i].1,
    decreases s.len(),
{
    let p = s.drop_last();
    if i < s.len() - 1 {
        assert(keys_distinct(p)) by {
            assert forall|a: int, b: int| 0 <= a < b < p.len() implies #[trigger] p[a].0@
                != #[trigger] p[b].0@ by {
                assert(p[a] == s[a] && p[b] == s[b]);
            }
        }
        lemma_entries_map_at(p, i);
        assert(p[i] == s[i]);
        assert(s[i].0@ != s[s.len() - 1].0@);
    }
}

/// Replacing the value of a present key is an insert into the map.
pub proof fn lemma_entries_map_update<V>(s: Seq<(String, V)>, i: int, e: (String, V))
    requires
        keys_distinct(s),
        0 <= i < s.len(),
        e.0@ == s[i].0@,
    ensures
        entries_map(s.update(i, e)) == entries_map(s).insert(e.0@, e.1),
        keys_distinct(s.update(i, e)),
    decreases s.len(),
{
    let u = s.update(i, e);
    let p = s.drop_last();
    assert forall|a: int, b: int| 0 <= a < b < u.len() implies #[trigger] u[a].0@
        != #[trigger] u[b].0@ by {
        assert(s[a].0@ != s[b].0@);
    }
    if i == s.len() - 1 {
        assert(u.drop_last() =~= p);
        assert(entries_map(u) =~= entries_map(s).insert(e.0@, e.1));
    } else {
        assert(keys_distinct(p)) by {
            assert forall|a: int, b: int| 0 <= a < b < p.len() implies #[trigger] p[a].0@
                != #[trigger] p[b].0@ by {
                assert(p[a] == s[a] && p[b] == s[b]);
            }
        }
        lemma_entries_map_update(p, i, e);
        assert(u.drop_last() =~= p.update(i, e));
        assert(u.last() == s.last());
        assert(s[i].0@ != s[s.len() - 1].0@);
        assert(entries_map(u) =~= entries_map(s).insert(e.0@, e.1));
    }
}

/// With distinct keys the map has one key per entry.
pub proof fn lemma_entries_map_len<V>(s: Seq<(String, V)>)
    requires
        keys_distinct(s),
    ensures
        entries_map(s).dom().finite(),
        entries_map(s).dom().len() == s.len(),
    decreases s.len(),
{
    lemma_entries_map_dom(s);
    if s.len() > 0 {
        let p = s.drop_last();
        assert(keys_distinct(p)) by {
            assert forall|a: int, b: int| 0 <= a < b < p.len() implies #[trigger] p[a].0@
                != #[trigger] p[b].0@ by {
                assert(p[a] == s[a] && p[b] == s[b]);
            }
        }
        lemma_entries_map_len(p);
        lemma_entries_map_dom(p);
        if entries_map(p).contains_key(s.last().0@) {
            let j = choose|j: int| 0 <= j < p.len() && p[j].0@ == s.last().0@;
            assert(s[j].0@ != s[s.len() - 1].0@);
        }
        assert(entries_map(s).dom() =~= entries_map(p).dom().insert(s.last().0@));
    }
}

/// Merging entries over a map, the last entry of a key decides its value
/// (a user override replaces the embedded entry, and a later override an
/// earlier one).
pub proof fn lemma_last_entry_wins<V>(base: Map<Seq<char>, V>, entries: Seq<(String, V)>, i: int)
    requires
        0 <= i < entries.len(),
        forall|j: int| i < j < entries.len() ==> #[trigger] entries[j].0@ != entries[i].0@,
    ensures
        base.union_prefer_right(entries_map(entries)).contains_key(entries[i].0@),
        base.union_prefer_right(entries_map(entries))[entries[i].0@] == entries[i].1,
    decreases entries.len(),
{
    if i < entries.len() - 1 {
        let p = entries.drop_last();
        assert forall|j: int| i < j < p.len() implies #[trigger] p[j].0@ != p[i].0@ by {
            assert(p[j] == entries[j] && p[i] == entries[i]);
            assert(entries[j].0@ != entries[i].0@);
        }
        lemma_last_entry_wins(base, p, i);
        assert(p[i] == entries[i]);
        assert(entries[entries.len() - 1].0@ != entries[i].0@);
    }
}

/// Merging entries over a map keeps, as they were, the keys that no entry names.
pub proof fn lemma_unnamed_key_kept<V>(base: Map<Seq<char>, V>, entries: Seq<(String, V)>, k: Seq<char>)
    requires
        forall|j: int| 0 <= j < entries.len() ==> #[trigger] entries[j].0@ != k,
    ensures
        base.union_prefer_right(entries_map(entries)).contains_key(k) == base.contains_key(k),
        base.contains_key(k) ==> base.union_prefer_right(entries_map(entries))[k] == base[k],
{
    lemma_entries_map_dom(entries);
    assert(!entries_map(entries).contains_key(k));
}

/// Values keyed by text, in insertion order, with no key twice.
#[derive(Debug)]
pub struct KeyedStore<V> {
    entries: Vec<(String, V)>,
}

impl<V> View for KeyedStore<V> {
    type V = Map<Seq<char>, V>;

    closed spec fn view(&self) -> Map<Seq<char>, V> {
        entries_map(self.entries@)
    }
}

impl<V> KeyedStore<V> {
    /// The entries in insertion order.
    pub closed spec fn entries(&self) -> Seq<(String, V)> {
        self.entries@
    }

    /// Well-formedness: no key twice.
    pub closed spec fn wf(&self) -> bool {
        keys_distinct(self.entries@)
    }

    /// What the entries say of the map: its keys are theirs, each entry's
    /// key maps to its value, and keys do not repeat.
    pub proof fn lemma_view(&self)
        requires
            self.wf(),
        ensures
            self@.dom().finite(),
            self@.dom().len() == self.entries().len(),
            keys_distinct(self.entries()),
            forall|k: Seq<char>|
                #![trigger self@.contains_key(k)]
                self@.contains_key(k) <==> exists|i: int|
                    0 <= i < self.entries().len() && self.entries()[i].0@ == k,
            forall|i: int|
                0 <= i < self.entries().len() ==> #[trigger] self@[self.entries()[i].0@]
                    == self.entries()[i].1,
    {
        lemma_entries_map_dom(self.entries@);
        lemma_entries_map_len(self.entries@);
        assert forall|i: int| 0 <= i < self.entries().len() implies #[trigger] self@[self.entries()[
            i].0@] == self.entries()[i].1 by {
            lemma_entries_map_at(self.entries@, i);
        }
    }

    /// An empty store.
    pub fn new() -> (s: Self)
        ensures
            s.wf(),
            s@ == Map::<Seq<char>, V>::empty(),
            s.entries().len() == 0,
    {
        KeyedStore { entries: Vec::new() }
    }

    /// Number of keys.
    pub fn len(&self) -> (n: usize)
        requires
            self.wf(),
        ensures
            n == self@.len(),
            n == self.entries().len(),
    {
        proof {
            lemma_entries_map_len(self.entries@);
        }
        self.entries.len()
    }

    /// The entry at position `i` of the insertion order.
    pub fn entry(&self, i: usize) -> (e: (&String, &V))
        requires
            i < self.entries().len(),
        ensures
            *e.0 == self.entries()[i as int].0,
            *e.1 == self.entries()[i as int].1,
    {
        let r = &self.entries[i];
        (&r.0, &r.1)
    }

    /// Position of `key` in the entries, if present.
    fn position(&self, key: &str) -> (r: Option<usize>)
        requires
            self.wf(),
        ensures
            match r {
                Some(i) => i < self.entries().len() && self.entries()[i as int].0@ == key@,
                None => forall|i: int|
                    0 <= i < self.entries().len() ==> #[trigger] self.entries()[i].0@ != key@,
            },
    {
        let mut i: usize = 0;
        while i < self.entries.len()
            invariant
                i <= self.entries@.len(),
                forall|j: int| 0 <= j < i ==> #[trigger] self.entries@[j].0@ != key@,
            decreases self.entries@.len() - i,
        {
            if str_eq(self.entries[i].0.as_str(), key) {
                return Some(i);
            }
            i += 1;
        }
        None
    }

    /// The value stored under `key`.
    pub fn get(&self, key: &str) -> (r: Option<&V>)
        requires
            self.wf(),
        ensures
            match r {
                Some(v) => self@.contains_key(key@) && *v == self@[key@],
                None => !self@.contains_key(key@),
            },
    {
        proof {
            self.lemma_view();
        }
        match self.position(key) {
            Some(i) => {
                proof {
                    assert(self@[self.entries()[i as int].0@] == self.entries()[i as int].1);
                }
                Some(&self.entries[i].1)
            },
            None => None,
        }
    }

    /// Stores `value` under `key`, replacing what was there.
    pub fn insert(&mut self, key: String, value: V)
        requires
            old(self).wf(),
        ensures
            final(self).wf(),
            final(self)@ == old(self)@.insert(key@, value),
    {
        match self.position(key.as_str()) {
            Some(i) => {
                proof {
                    lemma_entries_map_update(self.entries@, i as int, (key, value));
                }
                self.entries.set(i, (key, value));
            },
            None => {
                let ghost k = key@;
                let ghost v = value;
                let ghost e = (key, value);
                self.entries.push((key, value));
                proof {
                    assert(self.entries@.drop_last() =~= old(self).entries@);
                    assert(self.entries@.last() == e);
                    assert forall|a: int, b: int| 0 <= a < b < self.entries@.len() implies
                        #[trigger] self.entries@[a].0@ != #[trigger] self.entries@[b].0@ by {
                        if b < old(self).entries@.len() {
                            assert(old(self).entries@[a].0@ != old(self).entries@[b].0@);
                        } else {
                            assert(old(self).entries()[a].0@ != k);
                        }
                    }
                }
            },
        }
    }

    /// Inserts `entries` in order, each replacing a value of the same key.
    pub fn extend(&mut self, entries: Vec<(String, V)>)
        requires
            old(self).wf(),
        ensures
            final(self).wf(),
            final(self)@ == old(self)@.union_prefer_right(entries_map(entries@)),
    {
        let ghost orig = entries@;
        let total = entries.len();
        let mut rest = entries;
        let mut n: usize = 0;
        proof {
            assert(orig.take(0) =~= Seq::<(String, V)>::empty());
            assert(old(self)@.union_prefer_right(Map::empty()) =~= old(self)@);
            assert(orig.skip(0) =~= orig);
        }
        while rest.len() > 0
            invariant
                self.wf(),
                n <= orig.len(),
                orig.len() == total,
                rest@ == orig.skip(n as int),
                rest.len() == orig.len() - n,
                self@ == old(self)@.union_prefer_right(entries_map(orig.take(n as int))),
            decreases rest.len(),
        {
            let (key, value) = rest.remove(0);
            proof {
                assert(orig.take(n + 1).drop_last() =~= orig.take(n as int));
                assert(orig.take(n + 1).last() == orig[n as int]);
                assert(orig[n as int] == orig.skip(n as int)[0]);
            }
            self.insert(key, value);
            proof {
                assert(rest@ =~= orig.skip(n + 1));
                assert(self@ =~= old(self)@.union_prefer_right(entries_map(orig.take(n + 1))));
            }
            n += 1;
        }
        proof {
            assert(orig.take(n as int) =~= orig);
        }
    }

    /// The entries, in insertion order.
    pub fn into_entries(self) -> (r: Vec<(String, V)>)
        ensures
            r@ == self.entries(),
            entries_map(r@) == self@,
    {
        self.entries
    }
}

} // verus!
