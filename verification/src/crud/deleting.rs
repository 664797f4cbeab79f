use vstd::prelude::*;

use crate::crud::CrudHandler;
use crate::db::keeps_other_id;
use crate::seq_facts::lemma_filter_contains_iff;
use crate::errors::{RtcError, RtcResult};
use crate::text::{id_of_key, parse_id};
use crate::RunReturn;

verus! {

/// What a finished deletion leaves behind. An empty store — no real
/// records — is refused outright. A key that is not the canonical decimal
/// form of a stored id names no record and comes back as ItemNotFound with
/// the key. Otherwise exactly that record goes; the counter never does.
pub open spec fn delete_post(
    pre: CrudHandler,
    post: CrudHandler,
    id: Seq<char>,
    r: RtcResult<RunReturn>,
) -> bool {
    &&& post.wf()
    &&& post.counter() == pre.counter()
    &&& if pre.records().len() == 0 {
        &&& post == pre
        &&& (r matches RtcResult::<RunReturn>::Err(RtcError::NoItems(m)) && m@
            == "Deletion process stopping"@)
    } else {
        match id_of_key(id) {
            Some(k) => if pre.has_id(k) {
                &&& r matches RtcResult::<RunReturn>::Ok(RunReturn::Deletion(true))
                &&& post.records() == pre.records().filter(keeps_other_id(k))
            } else {
                &&& post == pre
                &&& (r matches RtcResult::<RunReturn>::Err(RtcError::ItemNotFound(m)) && m@ == id)
            },
            None => {
                &&& post == pre
                &&& (r matches RtcResult::<RunReturn>::Err(RtcError::ItemNotFound(m)) && m@ == id)
            },
        }
    }
}

impl CrudHandler {
    /// Removes the record the given key addresses. The emptiness guard
    /// runs first; then the record is looked up before anything is removed,
    /// so a missing id is reported as ItemNotFound rather than inferred
    /// from the removal. The deleted id is never given out again.
    pub fn delete(&mut self, id: &str) -> (r: RtcResult<RunReturn>)
        requires
            old(self).wf(),
        ensures
            delete_post(*old(self), *final (self), id@, r),
    {
        proof {
            if self.records().len() > 0 {
                assert(self.records()[0].id >= 1);
            }
        }
        if let Err(e) = self.db_wrapper.driver.error_if_db_empty("Deletion process stopping") {
            return Err(e);
        }
        match parse_id(id) {
            Some(key) => {
                match self.db_wrapper.driver.get_item(key) {
                    Some(_) => {
                        let ghost s = self.db_wrapper.driver.records@;
                        let ghost c = self.creations();
                        if self.db_wrapper.driver.del(key) {
                            proof {
                                let f = self.records();
                                assert forall|i: int| 0 <= i < f.len() implies 1 <= (
                                #[trigger] f[i]).id <= c by {
                                    assert(f.contains(f[i]));
                                    lemma_filter_contains_iff(
                                        s,
                                        keeps_other_id(key as int),
                                        f[i],
                                    );
                                    let j = choose|j: int| 0 <= j < s.len() && s[j] == f[i];
                                    assert(1 <= s[j].id <= c);
                                }
                            }
                            Ok(RunReturn::Deletion(true))
                        } else {
                            // the record was just looked up, so its key is
                            // still there; this arm states the port's "key
                            // vanished between lookup and removal" outcome
                            Err(RtcError::ItemNotFound(id.to_owned()))
                        }
                    },
                    None => Err(RtcError::ItemNotFound(id.to_owned())),
                }
            },
            None => Err(RtcError::ItemNotFound(id.to_owned())),
        }
    }
}

} // verus!
