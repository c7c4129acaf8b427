//! The commitment store: a keyed map from encoded commitment paths to
//! commitment values, with explicit writes and deletes and a `Map` view for
//! specifications.

use vstd::prelude::*;

use crate::bytes::bytes_eq;

verus! {

/// One stored commitment: an encoded path and its value.
pub struct Entry {
    pub key: Vec<u8>,
    pub value: Vec<u8>,
}

/// The mathematical contents of a sequence of entries, later entries taking
/// precedence.
pub open spec fn entries_map(s: Seq<Entry>) -> Map<Seq<u8>, Seq<u8>>
    decreases s.len(),
{
    if s.len() == 0 {
        Map::empty()
    } else {
        entries_map(s.drop_last()).insert(s.last().key@, s.last().value@)
    }
}

/// An append-only keyed commitment store. All deletions are explicit.
pub struct CommitmentStore {
    pub entries: Vec<Entry>,
}

impl View for CommitmentStore {
    type V = Map<Seq<u8>, Seq<u8>>;

    open spec fn view(&self) -> Map<Seq<u8>, Seq<u8>> {
        entries_map(self.entries@)
    }
}

/// Entry keys are pairwise distinct, so that each key has a single value.
pub open spec fn entries_distinct(s: Seq<Entry>) -> bool {
    forall|i: int, j: int| 0 <= i < j < s.len() ==> s[i].key@ != s[j].key@
}

proof fn lemma_entries_map_index(s: Seq<Entry>, i: int)
    requires
        entries_distinct(s),
        0 <= i < s.len(),
    ensures
        entries_map(s).contains_key(s[i].key@),
        entries_map(s)[s[i].key@] == s[i].value@,
    decreases s.len(),
{
    if i < s.len() - 1 {
        lemma_entries_map_index(s.drop_last(), i);
    }
}

proof fn lemma_entries_map_domain(s: Seq<Entry>, k: Seq<u8>)
    requires
        entries_distinct(s),
    ensures
        entries_map(s).contains_key(k) <==> exists|i: int| 0 <= i < s.len() && s[i].key@ == k,
    decreases s.len(),
{
    if s.len() > 0 {
        lemma_entries_map_domain(s.drop_last(), k);
        if entries_map(s).contains_key(k) && s.last().key@ != k {
            let i = choose|i: int| 0 <= i < s.len() - 1 && s.drop_last()[i].key@ == k;
            assert(s[i].key@ == k);
        }
        if exists|i: int| 0 <= i < s.len() && s[i].key@ == k {
            let i = choose|i: int| 0 <= i < s.len() && s[i].key@ == k;
            if i < s.len() - 1 {
                assert(s.drop_last()[i].key@ == k);
            }
        }
    }
}

proof fn lemma_entries_map_update_value(s: Seq<Entry>, i: int, e: Entry)
    requires
        entries_distinct(s),
        0 <= i < s.len(),
        e.key@ == s[i].key@,
    ensures
        entries_map(s.update(i, e)) =~= entries_map(s).insert(e.key@, e.value@),
    decreases s.len(),
{
    let t = s.update(i, e);
    assert(t.drop_last() =~= if i < s.len() - 1 {
        s.drop_last().update(i, e)
    } else {
        s.drop_last()
    });
    if i < s.len() - 1 {
        lemma_entries_map_update_value(s.drop_last(), i, e);
        assert(s.last().key@ != e.key@);
        assert(t.last() == s.last());
    }
}

proof fn lemma_entries_map_remove(s: Seq<Entry>, i: int)
    requires
        entries_distinct(s),
        0 <= i < s.len(),
    ensures
        entries_map(s.remove(i)) =~= entries_map(s).remove(s[i].key@),
    decreases s.len(),
{
    lemma_entries_map_domain(s.remove(i), s[i].key@);
    if i == s.len() - 1 {
        assert(s.remove(i) =~= s.drop_last());
        assert(forall|j: int|
            0 <= j < s.remove(i).len() ==> s.remove(i)[j].key@ != s[i].key@);
        assert(!entries_map(s.remove(i)).contains_key(s[i].key@));
        assert(entries_map(s.remove(i)) =~= entries_map(s.drop_last()));
        assert forall|k: Seq<u8>| #![auto]
            entries_map(s.drop_last()).contains_key(k) && k != s[i].key@ implies
            entries_map(s).contains_key(k) && entries_map(s)[k] == entries_map(s.drop_last())[k] by {}
    } else {
        let t = s.remove(i);
        assert(t.drop_last() =~= s.drop_last().remove(i));
        lemma_entries_map_remove(s.drop_last(), i);
        assert(t.last() == s.last());
    }
}

impl CommitmentStore {
    /// A fresh, empty store.
    pub fn new() -> (r: CommitmentStore)
        ensures
            r.wf(),
            r@ =~= Map::<Seq<u8>, Seq<u8>>::empty(),
    {
        CommitmentStore { entries: Vec::new() }
    }

    /// Each key is stored at most once.
    pub open spec fn wf(self) -> bool {
        entries_distinct(self.entries@)
    }

    /// Looks up the index holding `key`, if any.
    fn find(&self, key: &Vec<u8>) -> (r: Option<usize>)
        requires
            self.wf(),
        ensures
            match r {
                Some(i) => i < self.entries@.len() && self.entries@[i as int].key@ == key@,
                None => forall|i: int|
                    0 <= i < self.entries@.len() ==> self.entries@[i].key@ != key@,
            },
    {
        let n = self.entries.len();
        let mut i: usize = 0;
        while i < n
            invariant
                n == self.entries@.len(),
                i <= n,
                forall|j: int| 0 <= j < i ==> self.entries@[j].key@ != key@,
            decreases n - i,
        {
            if bytes_eq(&self.entries[i].key, key) {
                return Some(i);
            }
            i = i + 1;
        }
        None
    }

    /// Reads the commitment at `key`. Reads are pure.
    pub fn read(&self, key: &Vec<u8>) -> (r: Option<&Vec<u8>>)
        requires
            self.wf(),
        ensures
            match r {
                Some(v) => self@.contains_key(key@) && self@[key@] == v@,
                None => !self@.contains_key(key@),
            },
    {
        proof {
            lemma_entries_map_domain(self.entries@, key@);
        }
        match self.find(key) {
            Some(i) => {
                proof {
                    lemma_entries_map_index(self.entries@, i as int);
                }
                Some(&self.entries[i].value)
            }
            None => None,
        }
    }

    /// Whether a commitment is present at `key`.
    pub fn contains(&self, key: &Vec<u8>) -> (r: bool)
        requires
            self.wf(),
        ensures
            r == self@.contains_key(key@),
    {
        self.read(key).is_some()
    }

    /// Writes `value` at `key`, replacing any previous value.
    pub fn write(&mut self, key: Vec<u8>, value: Vec<u8>)
        requires
            old(self).wf(),
        ensures
            final(self).wf(),
            final(self)@ =~= old(self)@.insert(key@, value@),
    {
        proof {
            lemma_entries_map_domain(self.entries@, key@);
        }
        match self.find(&key) {
            Some(i) => {
                let ghost s = self.entries@;
                let e = Entry { key, value };
                proof {
                    lemma_entries_map_update_value(s, i as int, e);
                }
                self.entries.set(i, e);
            }
            None => {
                let ghost s = self.entries@;
                self.entries.push(Entry { key, value });
                proof {
                    assert(self.entries@.drop_last() =~= s);
                }
            }
        }
    }

    /// Deletes the commitment at `key`, if present. No implicit delete
    /// happens anywhere else.
    pub fn delete(&mut self, key: &Vec<u8>)
        requires
            old(self).wf(),
        ensures
            final(self).wf(),
            final(self)@ =~= old(self)@.remove(key@),
    {
        proof {
            lemma_entries_map_domain(self.entries@, key@);
        }
        match self.find(key) {
            Some(i) => {
                let ghost s = self.entries@;
                proof {
                    lemma_entries_map_remove(s, i as int);
                }
                self.entries.remove(i);
            }
            None => {
                proof {
                    assert(old(self)@ =~= old(self)@.remove(key@));
                }
            }
        }
    }
}

} // verus!
