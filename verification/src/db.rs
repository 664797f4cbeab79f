use vstd::prelude::*;

use crate::errors::{RtcError, RtcResult};
use crate::seq_facts::{lemma_filter_all_kept, lemma_filter_none_kept};
use crate::todo_item::TodoItem;

verus! {

/// Record entries in ascending id order, one entry per id.
pub open spec fn sorted_by_id(s: Seq<TodoItem>) -> bool {
    forall|i: int, j: int| 0 <= i < j < s.len() ==> s[i].id < s[j].id
}

/// Writing a record into a sorted run of entries: an entry with the same id
/// is replaced, otherwise the record enters at its place in the order.
pub open spec fn upsert_seq(s: Seq<TodoItem>, item: TodoItem) -> Seq<TodoItem>
    decreases s.len(),
{
    if s.len() == 0 {
        seq![item]
    } else if s.last().id < item.id {
        s.push(item)
    } else if s.last().id == item.id {
        s.drop_last().push(item)
    } else {
        upsert_seq(s.drop_last(), item).push(s.last())
    }
}

/// Upserting an id that is present replaces that entry in place.
pub(crate) proof fn lemma_upsert_is_update(s: Seq<TodoItem>, item: TodoItem, i: int)
    requires
        sorted_by_id(s),
        0 <= i < s.len(),
        s[i].id == item.id,
    ensures
        upsert_seq(s, item) == s.update(i, item),
    decreases s.len(),
{
    if i == s.len() - 1 {
        assert(upsert_seq(s, item) =~= s.update(i, item));
    } else {
        assert(s.last().id > item.id);
        lemma_upsert_is_update(s.drop_last(), item, i);
        assert(upsert_seq(s.drop_last(), item).push(s.last()) =~= s.update(i, item));
    }
}

/// Upserting an absent id inserts the record at its place in the order.
pub(crate) proof fn lemma_upsert_is_insert(s: Seq<TodoItem>, item: TodoItem, i: int)
    requires
        sorted_by_id(s),
        0 <= i <= s.len(),
        forall|j: int| 0 <= j < i ==> s[j].id < item.id,
        i < s.len() ==> s[i].id > item.id,
    ensures
        upsert_seq(s, item) == s.insert(i, item),
    decreases s.len(),
{
    if s.len() == 0 {
        assert(upsert_seq(s, item) =~= s.insert(i, item));
    } else if i == s.len() {
        assert(s.last().id < item.id);
        assert(upsert_seq(s, item) =~= s.insert(i, item));
    } else {
        assert(s.last().id >= s[i].id > item.id);
        lemma_upsert_is_insert(s.drop_last(), item, i);
        assert(upsert_seq(s.drop_last(), item).push(s.last()) =~= s.insert(i, item));
    }
}

/// Keeping every record but the one with the given id.
pub open spec fn keeps_other_id(id: int) -> spec_fn(TodoItem) -> bool {
    |t: TodoItem| t.id as int != id
}

/// In-memory realization of the storage port the handlers require: one
/// optional value under the reserved creation-counter key, and the record
/// entries, keyed by their ids.
pub struct MemoryDb {
    /// The value stored under the reserved creation-counter key, if any.
    pub counter: Option<usize>,
    /// The record entries, ascending by id.
    pub records: Vec<TodoItem>,
}

impl MemoryDb {
    /// Record keys are unique: entries are kept in ascending id order.
    pub open spec fn wf(self) -> bool {
        sorted_by_id(self.records@)
    }

    /// The creation count: the counter entry's value, zero when absent.
    pub open spec fn counter_val(self) -> int {
        match self.counter {
            Some(n) => n as int,
            None => 0,
        }
    }

    /// How many keys the store holds, the reserved one included.
    pub open spec fn spec_n_keys(self) -> int {
        self.records@.len() + if self.counter is Some {
            1int
        } else {
            0int
        }
    }

    /// Whether some record entry carries the given id.
    pub open spec fn has_id(self, id: int) -> bool {
        exists|i: int| 0 <= i < self.records@.len() && self.records@[i].id == id
    }

    /// An empty store: no counter entry, no records.
    pub fn new() -> (r: MemoryDb)
        ensures
            r.counter is None,
            r.records@ == Seq::<TodoItem>::empty(),
            r.wf(),
    {
        let r = MemoryDb { counter: None, records: Vec::new() };
        proof {
            assert(r.records@ =~= Seq::<TodoItem>::empty());
        }
        r
    }

    /// Typed read of the reserved counter key.
    pub fn get_count(&self) -> (r: Option<usize>)
        ensures
            r == self.counter,
    {
        self.counter
    }

    /// Writes the reserved counter key.
    pub fn set_count(&mut self, n: usize)
        ensures
            final (self).counter == Some(n),
            final (self).records == old(self).records,
    {
        self.counter = Some(n);
    }

    /// The position of the record with the given id, if any.
    fn index_of(&self, id: usize) -> (r: Option<usize>)
        ensures
            match r {
                Some(i) => i < self.records@.len() && self.records@[i as int].id == id,
                None => !self.has_id(id as int),
            },
    {
        let n = self.records.len();
        let mut i: usize = 0;
        while i < n
            invariant
                n == self.records@.len(),
                i <= n,
                forall|j: int| 0 <= j < i ==> self.records@[j].id != id,
            decreases n - i,
        {
            if self.records[i].id == id {
                return Some(i);
            }
            i += 1;
        }
        None
    }

    /// Typed read of a record key: the record with that id, if any.
    pub fn get_item(&self, id: usize) -> (r: Option<&TodoItem>)
        ensures
            match r {
                Some(item) => self.has_id(id as int) && item.id == id && self.records@.contains(
                    *item,
                ),
                None => !self.has_id(id as int),
            },
    {
        match self.index_of(id) {
            Some(i) => {
                let item = &self.records[i];
                proof {
                    assert(self.records@.contains(self.records@[i as int]));
                }
                Some(item)
            },
            None => None,
        }
    }

    /// Every record entry, in storage (that is, id) order. Entries under
    /// other keys — the reserved counter — are no records and are skipped.
    pub fn get_all(&self) -> (r: Vec<TodoItem>)
        ensures
            r@ == self.records@,
    {
        let mut out: Vec<TodoItem> = Vec::new();
        let n = self.records.len();
        let mut i: usize = 0;
        while i < n
            invariant
                n == self.records@.len(),
                i <= n,
                out@ == self.records@.take(i as int),
            decreases n - i,
        {
            out.push(self.records[i].clone());
            proof {
                assert(out@ =~= self.records@.take(i + 1 as int));
            }
            i += 1;
        }
        proof {
            assert(self.records@.take(n as int) =~= self.records@);
        }
        out
    }

    /// Writes a record under its id: replaces the entry with that id, or
    /// stores a new one. The reserved key is untouched.
    pub fn set_item(&mut self, item: TodoItem)
        requires
            old(self).wf(),
        ensures
            final (self).wf(),
            final (self).counter == old(self).counter,
            final (self).records@ == upsert_seq(old(self).records@, item),
    {
        let ghost s = self.records@;
        let n = self.records.len();
        let mut i: usize = 0;
        while i < n && self.records[i].id < item.id
            invariant
                n == self.records@.len(),
                i <= n,
                self.records@ == s,
                forall|j: int| 0 <= j < i ==> s[j].id < item.id,
            decreases n - i,
        {
            i += 1;
        }
        if i < n && self.records[i].id == item.id {
            proof {
                lemma_upsert_is_update(s, item, i as int);
            }
            self.records.remove(i);
            self.records.insert(i, item);
            proof {
                assert(self.records@ =~= s.update(i as int, item));
                assert(sorted_by_id(self.records@));
            }
        } else {
            proof {
                lemma_upsert_is_insert(s, item, i as int);
            }
            self.records.insert(i, item);
            proof {
                assert(self.records@ =~= s.insert(i as int, item));
                assert forall|a: int, b: int|
                    0 <= a < b < self.records@.len() implies self.records@[a].id
                    < self.records@[b].id by {
                    if a < i && b > i {
                        assert(s[a].id < item.id);
                        assert(s[b - 1].id > item.id);
                    }
                }
            }
        }
    }

    /// Removes the record key with the given id. True exactly when a key
    /// was removed; the reserved key and all other records stay.
    pub fn del(&mut self, id: usize) -> (r: bool)
        requires
            old(self).wf(),
        ensures
            final (self).wf(),
            final (self).counter == old(self).counter,
            r == old(self).has_id(id as int),
            final (self).records@ == old(self).records@.filter(keeps_other_id(id as int)),
    {
        let ghost s = self.records@;
        let ghost pred = keeps_other_id(id as int);
        match self.index_of(id) {
            Some(i) => {
                self.records.remove(i);
                proof {
                    assert(s.contains(s[i as int]));
                    let left = s.subrange(0, i as int);
                    let mid = seq![s[i as int]];
                    let right = s.subrange(i + 1, s.len() as int);
                    assert(s =~= left + mid + right);
                    Seq::filter_distributes_over_add(left + mid, right, pred);
                    Seq::filter_distributes_over_add(left, mid, pred);
                    lemma_filter_all_kept(left, pred);
                    lemma_filter_all_kept(right, pred);
                    lemma_filter_none_kept(mid, pred);
                    assert(s.filter(pred) =~= left + right);
                    assert(self.records@ =~= left + right);
                    assert forall|a: int, b: int|
                        0 <= a < b < self.records@.len() implies self.records@[a].id
                        < self.records@[b].id by {
                        let a0 = if a < i { a } else { a + 1 };
                        let b0 = if b < i { b } else { b + 1 };
                        assert(self.records@[a] == s[a0]);
                        assert(self.records@[b] == s[b0]);
                    }
                }
                true
            },
            None => {
                proof {
                    lemma_filter_all_kept(s, pred);
                }
                false
            },
        }
    }

    /// How many keys the store holds, the reserved counter key included.
    pub fn n_keys(&self) -> (r: usize)
        requires
            self.records@.len() < usize::MAX,
        ensures
            r as int == self.spec_n_keys(),
    {
        match self.counter {
            Some(_) => self.records.len() + 1,
            None => self.records.len(),
        }
    }

    /// The emptiness guard: a store with fewer than two keys has no real
    /// records — one key is always set aside for the creation counter —
    /// and the given context message comes back as a NoItems error.
    pub fn error_if_db_empty(&self, msg: &str) -> (r: RtcResult<()>)
        ensures
            self.spec_n_keys() < 2 ==> (r matches RtcResult::<()>::Err(RtcError::NoItems(m))
                && m@ == msg@),
            self.spec_n_keys() >= 2 ==> r is Ok,
    {
        let empty = match self.counter {
            Some(_) => self.records.len() < 1,
            None => self.records.len() < 2,
        };
        if empty {
            Err(RtcError::NoItems(msg.to_owned()))
        } else {
            Ok(())
        }
    }
}

/// Binds a storage instance to the reserved key under which the creation
/// counter lives.
pub struct DatabaseWrapper {
    /// The bound storage instance.
    pub driver: MemoryDb,
}

impl DatabaseWrapper {
    /// The name of the reserved key that carries the creation counter.
    pub fn key_total_creations(&self) -> (r: &str)
        ensures
            r@ == "total_creations"@,
    {
        "total_creations"
    }

    pub fn new(db_driver: MemoryDb) -> (r: DatabaseWrapper)
        ensures
            r.driver == db_driver,
    {
        DatabaseWrapper { driver: db_driver }
    }
}

} // verus!
