use crate::strutil::str_eq;
use vstd::prelude::*;

verus! {

/// Keys name at most one entry each.
pub open spec fn unique_keys<V>(s: Seq<(String, V)>) -> bool {
    forall|i: int, j: int| 0 <= i < j < s.len() ==> s[i].0@ != s[j].0@
}

/// The abstract contents of an entry sequence: the map that takes each key
/// to the value of its last entry.
pub open spec fn map_of<V>(s: Seq<(String, V)>) -> Map<Seq<char>, V>
    decreases s.len(),
{
    if s.len() == 0 {
        Map::empty()
    } else {
        map_of(s.drop_last()).insert(s.last().0@, s.last().1)
    }
}

/// A normalized entity table: a mapping from a string id to the single
/// entity it names.  Keys are unique, and the model reads and writes it
/// only through these accessors, which is where the "replace on conflict"
/// and "unknown id is absence, never an error" policies live.
pub struct Table<V> {
    pub entries: Vec<(String, V)>,
}

impl<V> View for Table<V> {
    type V = Map<Seq<char>, V>;

    open spec fn view(&self) -> Map<Seq<char>, V> {
        map_of(self.entries@)
    }
}

pub proof fn lemma_map_of_contains<V>(s: Seq<(String, V)>, k: Seq<char>)
    ensures
        map_of(s).contains_key(k) <==> exists|i: int| 0 <= i < s.len() && s[i].0@ == k,
    decreases s.len(),
{
    if s.len() > 0 {
        lemma_map_of_contains(s.drop_last(), k);
        if map_of(s).contains_key(k) {
            if s.last().0@ != k {
                let i = choose|i: int| 0 <= i < s.drop_last().len() && s.drop_last()[i].0@ == k;
                assert(s[i].0@ == k);
            }
        }
        if exists|i: int| 0 <= i < s.len() && s[i].0@ == k {
            let i = choose|i: int| 0 <= i < s.len() && s[i].0@ == k;
            if i < s.len() - 1 {
                assert(s.drop_last()[i].0@ == k);
            }
        }
    }
}

pub proof fn lemma_map_of_index<V>(s: Seq<(String, V)>, i: int)
    requires
        unique_keys(s),
        0 <= i < s.len(),
    ensures
        map_of(s).contains_key(s[i].0@),
        map_of(s)[s[i].0@] == s[i].1,
    decreases s.len(),
{
    lemma_map_of_contains(s, s[i].0@);
    if i < s.len() - 1 {
        assert(s.drop_last()[i] == s[i]);
        lemma_map_of_index(s.drop_last(), i);
    }
}

/// Replacing the value at one position replaces that key's image in the
/// map and nothing else, as long as the key itself stays put and keys are
/// unique.
pub proof fn lemma_map_of_update<V>(s: Seq<(String, V)>, i: int, key: String, value: V)
    requires
        unique_keys(s),
        0 <= i < s.len(),
        key@ == s[i].0@,
    ensures
        unique_keys(s.update(i, (key, value))),
        map_of(s.update(i, (key, value))) =~= map_of(s).insert(key@, value),
    decreases s.len(),
{
    let s2 = s.update(i, (key, value));
    assert(forall|p: int| 0 <= p < s.len() && p != i ==> s2[p] == s[p]);
    if i == s.len() - 1 {
        assert(s2.drop_last() =~= s.drop_last());
    } else {
        assert(s2.drop_last() =~= s.drop_last().update(i, (key, value)));
        lemma_map_of_update(s.drop_last(), i, key, value);
        assert(s2.last() == s.last());
        lemma_map_of_contains(s, s[i].0@);
    }
}

impl<V> Table<V> {
    pub open spec fn wf(&self) -> bool {
        unique_keys(self.entries@)
    }

    pub fn new() -> (t: Self)
        ensures
            t.wf(),
            t@ == Map::<Seq<char>, V>::empty(),
            t.entries@.len() == 0,
    {
        Table { entries: Vec::new() }
    }

    pub fn len(&self) -> (n: usize)
        ensures
            n == self.entries@.len(),
    {
        self.entries.len()
    }

    /// The position of the entry a key names, if the key is known.
    pub fn index_of(&self, key: &str) -> (r: Option<usize>)
        requires
            self.wf(),
        ensures
            match r {
                Some(i) => i < self.entries@.len() && self.entries@[i as int].0@ == key@
                    && self@.contains_key(key@) && self@[key@] == self.entries@[i as int].1,
                None => !self@.contains_key(key@),
            },
    {
        let ghost es = self.entries@;
        let mut i: usize = 0;
        while i < self.entries.len()
            invariant
                self.wf(),
                i <= es.len(),
                es == self.entries@,
                forall|j: int| 0 <= j < i ==> es[j].0@ != key@,
            decreases es.len() - i,
        {
            if str_eq(self.entries[i].0.as_str(), key) {
                proof {
                    lemma_map_of_index(es, i as int);
                }
                return Some(i);
            }
            i += 1;
        }
        proof {
            lemma_map_of_contains(es, key@);
        }
        None
    }

    /// Whether the table knows a key.
    pub fn contains(&self, key: &str) -> (r: bool)
        requires
            self.wf(),
        ensures
            r == self@.contains_key(key@),
    {
        self.index_of(key).is_some()
    }

    /// The entity a key names, or nothing: an unknown id is absence, never
    /// an error.
    pub fn get(&self, key: &str) -> (r: Option<&V>)
        requires
            self.wf(),
        ensures
            match r {
                Some(v) => self@.contains_key(key@) && *v == self@[key@],
                None => !self@.contains_key(key@),
            },
    {
        match self.index_of(key) {
            Some(i) => Some(&self.entries[i].1),
            None => None,
        }
    }

    /// Create or replace the entry a key names.
    pub fn insert(&mut self, key: String, value: V)
        requires
            old(self).wf(),
        ensures
            final(self).wf(),
            final(self)@ == old(self)@.insert(key@, value),
    {
        let ghost es = self.entries@;
        match self.index_of(key.as_str()) {
            Some(i) => {
                let ghost stored_key = self.entries@[i as int].0;
                let entry = &mut self.entries[i];
                entry.1 = value;
                proof {
                    assert(self.entries@ == es.update(i as int, (stored_key, value)));
                    lemma_map_of_update(es, i as int, stored_key, value);
                    assert(map_of(self.entries@) =~= map_of(es).insert(key@, value));
                }
            }
            None => {
                self.entries.push((key, value));
                proof {
                    let es2 = self.entries@;
                    assert(es2.drop_last() =~= es);
                    assert(map_of(es2) == map_of(es).insert(es2.last().0@, es2.last().1));
                    lemma_map_of_contains(es, es2.last().0@);
                    assert(forall|p: int| 0 <= p < es.len() ==> es2[p] == es[p]);
                    assert(unique_keys(es2));
                }
            }
        }
    }

    /// A mutable borrow of the value at a known position, for in-place
    /// update.  The caller relates the table's new contents to the value it
    /// leaves behind the borrow with `lemma_map_of_update`.
    pub fn value_mut(&mut self, i: usize) -> (r: &mut V)
        requires
            old(self).wf(),
            i < old(self).entries@.len(),
        ensures
            *r == old(self).entries@[i as int].1,
            final(self).entries@ == old(self).entries@.update(
                i as int,
                (old(self).entries@[i as int].0, *final(r)),
            ),
    {
        let entry = &mut self.entries[i];
        &mut entry.1
    }
}

} // verus!
