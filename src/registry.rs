//! The deletion registry: a map from the path a user deleted to the record of
//! where the file is held and since when.

use vstd::prelude::*;

use crate::retention::{expired_set, is_expired, is_expired_at};

verus! {

/// What a deletion record says, as a mathematical value.
pub ghost struct RecordModel {
    pub created_at: u64,
    pub holding_path: Seq<char>,
}

/// One file that currently sits in the holding area.
pub struct DeletionRecord {
    /// When the file was moved into holding, in seconds on the caller's clock.
    pub created_at: u64,
    /// Where the file is held now.
    pub holding_path: String,
}

impl View for DeletionRecord {
    type V = RecordModel;

    open spec fn view(&self) -> RecordModel {
        RecordModel { created_at: self.created_at, holding_path: self.holding_path@ }
    }
}

impl DeletionRecord {
    pub fn new(created_at: u64, holding_path: String) -> (r: DeletionRecord)
        ensures
            r.created_at == created_at,
            r.holding_path@ == holding_path@,
    {
        DeletionRecord { created_at, holding_path }
    }
}

struct Entry {
    key: String,
    record: DeletionRecord,
}

/// The mapping from original path to deletion record. Keys are unique.
pub struct Registry {
    entries: Vec<Entry>,
    contents: Ghost<Map<Seq<char>, RecordModel>>,
}

impl View for Registry {
    type V = Map<Seq<char>, RecordModel>;

    closed spec fn view(&self) -> Map<Seq<char>, RecordModel> {
        self.contents@
    }
}

impl Registry {
    /// The entries agree with the map, hold each key once, and the map holds
    /// no key without an entry.
    pub closed spec fn wf(&self) -> bool {
        &&& forall|i: int|
            0 <= i < self.entries@.len() ==> {
                &&& self.contents@.contains_key(#[trigger] self.entries@[i].key@)
                &&& self.contents@[self.entries@[i].key@] == self.entries@[i].record@
            }
        &&& forall|k: Seq<char>|
            #[trigger] self.contents@.contains_key(k) ==> exists|i: int|
                0 <= i < self.entries@.len() && #[trigger] self.entries@[i].key@ == k
        &&& forall|i: int, j: int|
            0 <= i < j < self.entries@.len() ==> #[trigger] self.entries@[i].key@
                != #[trigger] self.entries@[j].key@
        &&& self.contents@.dom().finite()
        &&& self.contents@.len() == self.entries@.len()
    }

    /// A well-formed registry holds finitely many records.
    pub proof fn lemma_dom_finite(&self)
        requires
            self.wf(),
        ensures
            self@.dom().finite(),
    {
    }

    pub fn new() -> (r: Registry)
        ensures
            r.wf(),
            r@ == Map::<Seq<char>, RecordModel>::empty(),
    {
        Registry { entries: Vec::new(), contents: Ghost(Map::empty()) }
    }

    /// Number of records held.
    pub fn len(&self) -> (r: usize)
        requires
            self.wf(),
        ensures
            r == self@.len(),
    {
        self.entries.len()
    }

    fn find(&self, key: &String) -> (r: Option<usize>)
        requires
            self.wf(),
        ensures
            match r {
                Some(i) => i < self.entries@.len() && self.entries@[i as int].key@ == key@,
                None => !self@.contains_key(key@),
            },
    {
        let mut i: usize = 0;
        while i < self.entries.len()
            invariant
                self.wf(),
                i <= self.entries@.len(),
                forall|j: int| 0 <= j < i ==> #[trigger] self.entries@[j].key@ != key@,
            decreases self.entries@.len() - i,
        {
            if self.entries[i].key == *key {
                return Some(i);
            }
            i += 1;
        }
        None
    }

    /// The record held for `key`, if any.
    pub fn get(&self, key: &String) -> (r: Option<&DeletionRecord>)
        requires
            self.wf(),
        ensures
            match r {
                Some(d) => self@.contains_key(key@) && d@ == self@[key@],
                None => !self@.contains_key(key@),
            },
    {
        match self.find(key) {
            Some(i) => Some(&self.entries[i].record),
            None => None,
        }
    }

    /// Records `record` under `key`, replacing any record already held for
    /// it. The replaced record, if any, is handed back.
    pub fn insert(&mut self, key: String, record: DeletionRecord) -> (superseded: Option<
        DeletionRecord,
    >)
        requires
            old(self).wf(),
        ensures
            final(self).wf(),
            final(self)@ == old(self)@.insert(key@, record@),
            match superseded {
                Some(d) => old(self)@.contains_key(key@) && d@ == old(self)@[key@],
                None => !old(self)@.contains_key(key@),
            },
    {
        let ghost k = key@;
        let ghost rec = record@;
        match self.find(&key) {
            Some(i) => {
                let ghost before = self.entries@;
                self.entries.push(Entry { key, record });
                let displaced = self.entries.swap_remove(i);
                self.contents = Ghost(self.contents@.insert(k, rec));
                proof {
                    assert(self.entries@ == before.update(i as int, self.entries@[i as int]));
                    assert forall|j: int| 0 <= j < self.entries@.len() && j != i implies
                        self.entries@[j] == before[j] by {}
                    assert forall|kk: Seq<char>| #[trigger]
                        self.contents@.contains_key(kk) implies exists|j: int|
                        0 <= j < self.entries@.len() && #[trigger] self.entries@[j].key@
                            == kk by {
                        if kk == k {
                            assert(self.entries@[i as int].key@ == kk);
                        } else {
                            let j = choose|j: int|
                                0 <= j < before.len() && #[trigger] before[j].key@ == kk;
                            assert(self.entries@[j].key@ == kk);
                        }
                    }
                    assert(self.contents@.dom() =~= old(self).contents@.dom());
                }
                Some(displaced.record)
            },
            None => {
                let ghost before = self.entries@;
                self.entries.push(Entry { key, record });
                self.contents = Ghost(self.contents@.insert(k, rec));
                proof {
                    let n = before.len() as int;
                    assert forall|j: int| 0 <= j < n implies #[trigger] self.entries@[j]
                        == before[j] by {}
                    assert forall|kk: Seq<char>| #[trigger]
                        self.contents@.contains_key(kk) implies exists|j: int|
                        0 <= j < self.entries@.len() && #[trigger] self.entries@[j].key@
                            == kk by {
                        if kk == k {
                            assert(self.entries@[n].key@ == kk);
                        } else {
                            let j = choose|j: int|
                                0 <= j < before.len() && #[trigger] before[j].key@ == kk;
                            assert(self.entries@[j].key@ == kk);
                        }
                    }
                    assert(self.contents@.dom() =~= old(self).contents@.dom().insert(k));
                }
                None
            },
        }
    }

    /// Removes and hands back the record held for `key`, if any.
    pub fn remove(&mut self, key: &String) -> (r: Option<DeletionRecord>)
        requires
            old(self).wf(),
        ensures
            final(self).wf(),
            final(self)@ == old(self)@.remove(key@),
            match r {
                Some(d) => old(self)@.contains_key(key@) && d@ == old(self)@[key@],
                None => !old(self)@.contains_key(key@),
            },
    {
        match self.find(key) {
            Some(i) => {
                let ghost before = self.entries@;
                let ghost last = before.len() - 1;
                let removed = self.entries.swap_remove(i);
                self.contents = Ghost(self.contents@.remove(key@));
                proof {
                    assert forall|j: int| 0 <= j < self.entries@.len() implies #[trigger]
                        self.entries@[j] == (if j == i {
                            before[last]
                        } else {
                            before[j]
                        }) by {}
                    assert forall|kk: Seq<char>| #[trigger]
                        self.contents@.contains_key(kk) implies exists|j: int|
                        0 <= j < self.entries@.len() && #[trigger] self.entries@[j].key@
                            == kk by {
                        let j = choose|j: int|
                            0 <= j < before.len() && #[trigger] before[j].key@ == kk;
                        if j == last {
                            assert(self.entries@[i as int].key@ == kk);
                        } else {
                            assert(self.entries@[j].key@ == kk);
                        }
                    }
                    assert(self.contents@.dom() =~= old(self).contents@.dom().remove(key@));
                }
                Some(removed.record)
            },
            None => {
                assert(self.contents@ =~= self.contents@.remove(key@));
                None
            },
        }
    }

    /// The keys whose records are expired at `now` under retention `ttl`,
    /// each once. The registry is left as it is.
    pub fn snapshot_expired(&self, now: u64, ttl: u64) -> (r: Vec<String>)
        requires
            self.wf(),
        ensures
            forall|i: int| 0 <= i < r@.len() ==> expired_set(self@, now, ttl).contains(#[trigger] r@[i]@),
            forall|k: Seq<char>| #[trigger] expired_set(self@, now, ttl).contains(k) ==> exists|i: int|
                0 <= i < r@.len() && #[trigger] r@[i]@ == k,
            forall|i: int, j: int| 0 <= i < j < r@.len() ==> #[trigger] r@[i]@ != #[trigger] r@[j]@,
    {
        let mut r: Vec<String> = Vec::new();
        let mut i: usize = 0;
        while i < self.entries.len()
            invariant
                self.wf(),
                i <= self.entries@.len(),
                forall|p: int| #![trigger r@[p]] 0 <= p < r@.len() ==> exists|j: int| #![trigger self.entries@[j]] 0 <= j < i && self.entries@[j].key@ == r@[p]@,
                forall|p: int| 0 <= p < r@.len() ==> expired_set(self@, now, ttl).contains(#[trigger] r@[p]@),
                forall|j: int| 0 <= j < i && is_expired(#[trigger] self.entries@[j].record.created_at, now, ttl) ==> exists|p: int|
                    0 <= p < r@.len() && #[trigger] r@[p]@ == self.entries@[j].key@,
                forall|p: int, q: int| 0 <= p < q < r@.len() ==> #[trigger] r@[p]@ != #[trigger] r@[q]@,
            decreases self.entries@.len() - i,
        {
            let entry = &self.entries[i];
            let ghost before = r@;
            if is_expired_at(entry.record.created_at, now, ttl) {
                r.push(entry.key.clone());
                proof {
                    assert forall|p: int| 0 <= p < before.len() implies #[trigger] r@[p]@ != entry.key@ by {
                        let j = choose|j: int| #![trigger self.entries@[j]] 0 <= j < i && self.entries@[j].key@ == before[p]@;
                        assert(self.entries@[j].key@ != self.entries@[i as int].key@);
                    }
                    assert(r@[before.len() as int] == entry.key);
                    assert(self.entries@[i as int].key@ == r@[before.len() as int]@);
                }
            }
            proof {
                assert forall|p: int| #![trigger r@[p]] 0 <= p < r@.len() implies exists|j: int| #![trigger self.entries@[j]] 0 <= j < i + 1 && self.entries@[j].key@ == r@[p]@ by {
                    if p < before.len() {
                        assert(r@[p] == before[p]);
                        let j = choose|j: int| #![trigger self.entries@[j]] 0 <= j < i && self.entries@[j].key@ == before[p]@;
                        assert(self.entries@[j].key@ == r@[p]@);
                    } else {
                        assert(self.entries@[i as int].key@ == r@[p]@);
                    }
                }
                assert forall|j: int| 0 <= j < i + 1 && is_expired(#[trigger] self.entries@[j].record.created_at, now, ttl) implies exists|p: int|
                    0 <= p < r@.len() && #[trigger] r@[p]@ == self.entries@[j].key@ by {
                    if j < i {
                        let p = choose|p: int| 0 <= p < before.len() && #[trigger] before[p]@ == self.entries@[j].key@;
                        assert(r@[p] == before[p]);
                    } else {
                        assert(r@[before.len() as int]@ == self.entries@[j].key@);
                    }
                }
            }
            i += 1;
        }
        proof {
            assert forall|k: Seq<char>| #[trigger] expired_set(self@, now, ttl).contains(k) implies exists|p: int|
                0 <= p < r@.len() && #[trigger] r@[p]@ == k by {
                assert(self@.contains_key(k));
                let j = choose|j: int| 0 <= j < self.entries@.len() && #[trigger] self.entries@[j].key@ == k;
                assert(is_expired(self.entries@[j].record.created_at, now, ttl));
            }
        }
        r
    }

    /// Removes and hands back the record held for `key` if it is expired at
    /// `now` under retention `ttl`; otherwise leaves the registry as it is.
    pub fn remove_if_expired(&mut self, key: &String, now: u64, ttl: u64) -> (r: Option<DeletionRecord>)
        requires
            old(self).wf(),
        ensures
            final(self).wf(),
            expired_set(old(self)@, now, ttl).contains(key@) ==> final(self)@ == old(self)@.remove(key@)
                && r is Some && r->Some_0@ == old(self)@[key@],
            !expired_set(old(self)@, now, ttl).contains(key@) ==> final(self)@ == old(self)@ && r is None,
    {
        broadcast use crate::retention::lemma_expired_member;

        let due = match self.get(key) {
            Some(d) => is_expired_at(d.created_at, now, ttl),
            None => false,
        };
        if due {
            self.remove(key)
        } else {
            None
        }
    }
}

} // verus!
