use vstd::prelude::*;

use crate::crud::CrudHandler;
use crate::db::lemma_upsert_is_update;
use crate::errors::{RtcError, RtcResult};
use crate::text::{id_of_key, parse_id};
use crate::todo_item::{Status, TodoItem};
use crate::RunReturn;

verus! {

/// What a finished update leaves behind. An empty store is refused
/// outright; a key addressing no record comes back as ItemNotFound with
/// the key, the store untouched. Otherwise the addressed record gets the
/// given status, in place — no other field, record or the counter moves.
pub open spec fn update_post(
    pre: CrudHandler,
    post: CrudHandler,
    id: Seq<char>,
    status: Status,
    r: RtcResult<RunReturn>,
) -> bool {
    &&& post.wf()
    &&& post.counter() == pre.counter()
    &&& if pre.records().len() == 0 {
        &&& post == pre
        &&& (r matches RtcResult::<RunReturn>::Err(RtcError::NoItems(m)) && m@
            == "Update process stopping"@)
    } else {
        match id_of_key(id) {
            Some(k) => if pre.has_id(k) {
                &&& r matches RtcResult::<RunReturn>::Ok(RunReturn::Update(true))
                &&& exists|i: int|
                    {
                        &&& 0 <= i < pre.records().len()
                        &&& (#[trigger] pre.records()[i]).id as int == k
                        &&& post.records() == pre.records().update(
                            i,
                            (TodoItem {
                                id: pre.records()[i].id,
                                name: pre.records()[i].name,
                                status: status,
                                creation_date: pre.records()[i].creation_date,
                            }),
                        )
                    }
            } else {
                &&& post == pre
                &&& (r matches RtcResult::<RunReturn>::Err(RtcError::ItemNotFound(m)) && m@ == id)
            },
            None => {
                &&& post == pre
                &&& (r matches RtcResult::<RunReturn>::Err(RtcError::ItemNotFound(m)) && m@ == id)
            },
        }
    }
}

impl CrudHandler {
    /// Gives the record the given key addresses the given status. The
    /// emptiness guard runs first; the record is loaded, its status set,
    /// and the whole record persisted again under the same key.
    pub fn update(&mut self, id: &str, status: Status) -> (r: RtcResult<RunReturn>)
        requires
            old(self).wf(),
        ensures
            update_post(*old(self), *final (self), id@, status, r),
    {
        proof {
            if self.records().len() > 0 {
                assert(self.records()[0].id >= 1);
            }
        }
        if let Err(e) = self.db_wrapper.driver.error_if_db_empty("Update process stopping") {
            return Err(e);
        }
        match parse_id(id) {
            Some(key) => {
                let item_ref = self.db_wrapper.driver.get_item(key);
                match item_ref {
                    Some(found) => {
                        let mut todo_item = found.clone();
                        todo_item.status = status;
                        let ghost s = self.db_wrapper.driver.records@;
                        let ghost i = choose|i: int|
                            0 <= i < s.len() && (#[trigger] s[i]).id == key;
                        proof {
                            lemma_upsert_is_update(s, todo_item, i);
                        }
                        self.db_wrapper.driver.set_item(todo_item);
                        proof {
                            let ghost j = choose|j: int| 0 <= j < s.len() && s[j] == *found;
                            assert(s[i] == s[j]);
                            assert(self.records() == s.update(i, todo_item));
                        }
                        Ok(RunReturn::Update(true))
                    },
                    None => Err(RtcError::ItemNotFound(id.to_owned())),
                }
            },
            None => Err(RtcError::ItemNotFound(id.to_owned())),
        }
    }
}

} // verus!
