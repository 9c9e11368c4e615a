//! Registry storage: an ordered association list of records keyed by 32-byte
//! identifiers, abstracted as a map from key bytes to record views. The host
//! chain provides an ordered key-value map; this store keeps the same
//! interface (get, insert, contains, mutate) above a vector whose keys are
//! pairwise distinct.

use vstd::prelude::*;

verus! {

pub struct Store<R> {
    entries: Vec<(Vec<u8>, R)>,
}

/// The map a list of entries stands for; later entries win, though under
/// `keys_distinct` each key occurs once.
pub open spec fn entries_map<R: View>(s: Seq<(Vec<u8>, R)>) -> Map<Seq<u8>, R::V>
    decreases s.len(),
{
    if s.len() == 0 {
        Map::empty()
    } else {
        entries_map(s.drop_last()).insert(s.last().0@, s.last().1@)
    }
}

pub open spec fn keys_distinct<R>(s: Seq<(Vec<u8>, R)>) -> bool {
    forall|i: int, j: int| 0 <= i < j < s.len() ==> s[i].0@ != s[j].0@
}

proof fn lemma_contains<R: View>(s: Seq<(Vec<u8>, R)>, k: Seq<u8>)
    ensures
        entries_map(s).contains_key(k) <==> (exists|i: int|
            0 <= i < s.len() && s[i].0@ == k),
    decreases s.len(),
{
    if s.len() == 0 {
    } else {
        lemma_contains(s.drop_last(), k);
        if entries_map(s).contains_key(k) {
            if s.last().0@ == k {
                assert(s[s.len() - 1].0@ == k);
            } else {
                let i = choose|i: int| 0 <= i < s.drop_last().len() && s.drop_last()[i].0@ == k;
                assert(s[i].0@ == k);
            }
        }
        if exists|i: int| 0 <= i < s.len() && s[i].0@ == k {
            let i = choose|i: int| 0 <= i < s.len() && s[i].0@ == k;
            if i < s.len() - 1 {
                assert(s.drop_last()[i].0@ == k);
            }
        }
    }
}

proof fn lemma_get<R: View>(s: Seq<(Vec<u8>, R)>, k: Seq<u8>, i: int)
    requires
        keys_distinct(s),
        0 <= i < s.len(),
        s[i].0@ == k,
    ensures
        entries_map(s).contains_key(k),
        entries_map(s)[k] == s[i].1@,
    decreases s.len(),
{
    if i == s.len() - 1 {
    } else {
        assert(s[i].0@ != s[s.len() - 1].0@);
        assert(keys_distinct(s.drop_last()));
        assert(s.drop_last()[i].0@ == k);
        lemma_get(s.drop_last(), k, i);
    }
}

proof fn lemma_remove<R: View>(s: Seq<(Vec<u8>, R)>, i: int)
    requires
        keys_distinct(s),
        0 <= i < s.len(),
    ensures
        keys_distinct(s.remove(i)),
        entries_map(s.remove(i)) == entries_map(s).remove(s[i].0@),
    decreases s.len(),
{
    let k = s[i].0@;
    assert(keys_distinct(s.remove(i)));
    if i == s.len() - 1 {
        assert(s.remove(i) =~= s.drop_last());
        lemma_contains(s.drop_last(), k);
        assert(!entries_map(s.drop_last()).contains_key(k)) by {
            if exists|j: int| 0 <= j < s.drop_last().len() && s.drop_last()[j].0@ == k {
                let j = choose|j: int|
                    0 <= j < s.drop_last().len() && s.drop_last()[j].0@ == k;
                assert(s[j].0@ == s[i].0@);
                assert(false);
            }
        }
        assert(entries_map(s.remove(i)) =~= entries_map(s).remove(k));
    } else {
        assert(keys_distinct(s.drop_last()));
        lemma_remove(s.drop_last(), i);
        assert(s.remove(i).drop_last() =~= s.drop_last().remove(i));
        assert(s.remove(i).last() == s.last());
        assert(s[i].0@ != s[s.len() - 1].0@);
        assert(entries_map(s.remove(i)) == entries_map(s.drop_last().remove(i)).insert(
            s.last().0@,
            s.last().1@,
        ));
        assert(entries_map(s.remove(i)) =~= entries_map(s).remove(k));
    }
}

impl<R: View> Store<R> {
    /// Keys are pairwise distinct.
    pub closed spec fn wf(&self) -> bool {
        keys_distinct(self.entries@)
    }

    pub fn new() -> (r: Store<R>)
        ensures
            r.wf(),
            r@ == Map::<Seq<u8>, R::V>::empty(),
    {
        Store { entries: Vec::new() }
    }

    fn find_index(&self, key: &Vec<u8>) -> (r: Option<usize>)
        ensures
            r matches Some(i) ==> i < self.entries@.len() && self.entries@[i as int].0@ == key@,
            r is None ==> forall|i: int|
                0 <= i < self.entries@.len() ==> self.entries@[i].0@ != key@,
    {
        let mut i: usize = 0;
        while i < self.entries.len()
            invariant
                i <= self.entries@.len(),
                forall|m: int| 0 <= m < i ==> self.entries@[m].0@ != key@,
            decreases self.entries@.len() - i,
        {
            if &self.entries[i].0 == key {
                return Some(i);
            }
            i = i + 1;
        }
        None
    }

    pub fn contains(&self, key: &Vec<u8>) -> (r: bool)
        requires
            self.wf(),
        ensures
            r == self@.contains_key(key@),
    {
        proof {
            lemma_contains(self.entries@, key@);
        }
        match self.find_index(key) {
            Some(_) => true,
            None => false,
        }
    }

    pub fn get(&self, key: &Vec<u8>) -> (r: Option<&R>)
        requires
            self.wf(),
        ensures
            self@.contains_key(key@) ==> (r matches Some(v) && v@ == self@[key@]),
            !self@.contains_key(key@) ==> r is None,
    {
        proof {
            lemma_contains(self.entries@, key@);
        }
        match self.find_index(key) {
            Some(i) => {
                proof {
                    lemma_get(self.entries@, key@, i as int);
                }
                Some(&self.entries[i].1)
            },
            None => None,
        }
    }

    /// Inserts a record under a key not yet present.
    pub fn insert_new(&mut self, key: Vec<u8>, rec: R)
        requires
            old(self).wf(),
            !old(self)@.contains_key(key@),
        ensures
            final(self).wf(),
            final(self)@ == old(self)@.insert(key@, rec@),
    {
        proof {
            lemma_contains(self.entries@, key@);
        }
        let ghost pre = self.entries@;
        self.entries.push((key, rec));
        proof {
            assert(self.entries@.drop_last() =~= pre);
        }
    }

    /// Takes the record stored under `key` out, key and all.
    pub fn remove_entry(&mut self, key: &Vec<u8>) -> (r: Option<(Vec<u8>, R)>)
        requires
            old(self).wf(),
        ensures
            final(self).wf(),
            old(self)@.contains_key(key@) ==> (r matches Some(p) && p.0@ == key@
                && p.1@ == old(self)@[key@] && final(self)@ == old(self)@.remove(key@)),
            !old(self)@.contains_key(key@) ==> r is None && final(self)@ == old(self)@
                && *final(self) == *old(self),
    {
        proof {
            lemma_contains(self.entries@, key@);
        }
        match self.find_index(key) {
            Some(i) => {
                proof {
                    lemma_get(self.entries@, key@, i as int);
                    lemma_remove(self.entries@, i as int);
                }
                let p = self.entries.remove(i);
                Some(p)
            },
            None => None,
        }
    }
}

impl<R: View> View for Store<R> {
    type V = Map<Seq<u8>, R::V>;

    closed spec fn view(&self) -> Map<Seq<u8>, R::V> {
        entries_map(self.entries@)
    }
}

} // verus!
