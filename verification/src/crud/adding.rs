use vstd::prelude::*;

use crate::crud::CrudHandler;
use crate::db::{lemma_upsert_is_insert, upsert_seq};
use crate::errors::RtcResult;
use crate::todo_item::{Status, TodoItem};
use crate::RunReturn;

verus! {

/// What a finished addition leaves behind: the record appended under the
/// next id — the creation count plus one — open and carrying the given
/// name, the count bumped, everything else untouched, and the new id
/// handed back. Nothing rejects an empty name.
pub open spec fn add_post(
    pre: CrudHandler,
    post: CrudHandler,
    name: Seq<char>,
    r: RtcResult<RunReturn>,
) -> bool {
    &&& post.wf()
    &&& post.creations() == pre.creations() + 1
    &&& post.records().len() == pre.records().len() + 1
    &&& post.records().take(pre.records().len() as int) == pre.records()
    &&& post.records().last().id as int == pre.creations() + 1
    &&& post.records().last().name@ == name
    &&& post.records().last().status == Status::Open
    &&& (r matches RtcResult::<RunReturn>::Ok(RunReturn::Addition(id)) && id as int
        == pre.creations() + 1)
}

impl CrudHandler {
    /// Creates a record under the next id and hands the id back. The id is
    /// read off the reserved counter, which is bumped and persisted first,
    /// so a later deletion cannot give the id out again.
    pub fn add(&mut self, name: &str) -> (r: RtcResult<RunReturn>)
        requires
            old(self).wf(),
            old(self).creations() < usize::MAX,
        ensures
            add_post(*old(self), *final (self), name@, r),
    {
        let new_key = self.get_new_key();
        let todo_item = TodoItem::new(new_key, name);
        let ghost s = self.db_wrapper.driver.records@;
        proof {
            lemma_upsert_is_insert(s, todo_item, s.len() as int);
            assert(s.insert(s.len() as int, todo_item) =~= s.push(todo_item));
        }
        self.db_wrapper.driver.set_item(todo_item);
        proof {
            assert(self.records().take(s.len() as int) =~= s);
        }
        Ok(RunReturn::Addition(new_key))
    }

    /// Allocates the next id: the creation counter's successor, persisted
    /// under the reserved key before it is used. The counter counts every
    /// creation ever, so deletions never disturb new additions.
    fn get_new_key(&mut self) -> (r: usize)
        requires
            old(self).wf(),
            old(self).creations() < usize::MAX,
        ensures
            final (self).wf(),
            r as int == old(self).creations() + 1,
            final (self).counter() == Some(r),
            final (self).records() == old(self).records(),
    {
        let new_key = match self.db_wrapper.driver.get_count() {
            Some(x) => x + 1,
            None => 1,
        };
        self.db_wrapper.driver.set_count(new_key);
        new_key
    }
}

} // verus!
