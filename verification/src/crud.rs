use vstd::prelude::*;

mod adding;
mod deleting;
mod filter;
mod updating;

use crate::db::{sorted_by_id, DatabaseWrapper, MemoryDb};
use crate::todo_item::TodoItem;

pub use adding::add_post;
pub use deleting::delete_post;
pub use updating::update_post;
pub use filter::{
    after_pred, before_pred, date_bound, date_missing, date_text, filter_post, keep_item,
    keep_pred, lemma_contradictory_dates_empty, lemma_filter_conjunctive,
    lemma_no_criteria_returns_all, name_pred, opt_str_view, status_pred,
};

verus! {

/// Runs the operations against one wrapped storage instance.
pub struct CrudHandler {
    db_wrapper: DatabaseWrapper,
}

impl CrudHandler {
    /// The bound storage instance.
    pub closed spec fn spec_driver(self) -> MemoryDb {
        self.db_wrapper.driver
    }

    /// The stored records, in id order.
    pub open spec fn records(self) -> Seq<TodoItem> {
        self.spec_driver().records@
    }

    /// The counter entry as stored under the reserved key.
    pub open spec fn counter(self) -> Option<usize> {
        self.spec_driver().counter
    }

    /// The creation count: how many records were ever created. An absent
    /// counter entry counts as zero.
    pub open spec fn creations(self) -> int {
        self.spec_driver().counter_val()
    }

    /// Whether some record carries the given id.
    pub open spec fn has_id(self, id: int) -> bool {
        exists|i: int| 0 <= i < self.records().len() && (#[trigger] self.records()[i]).id == id
    }

    /// A well-formed store: record keys unique and ascending, and every id
    /// positive and no larger than the creation count — ids come from the
    /// counter, which deletions never lower.
    pub open spec fn wf(self) -> bool {
        &&& sorted_by_id(self.records())
        &&& forall|i: int|
            0 <= i < self.records().len() ==> 1 <= (#[trigger] self.records()[i]).id
                <= self.creations()
    }

    /// Binds the handler to a wrapped storage instance, which must be well
    /// formed in the sense of `wf`.
    pub fn new(db_wrapper: DatabaseWrapper) -> (r: CrudHandler)
        requires
            sorted_by_id(db_wrapper.driver.records@),
            forall|i: int|
                0 <= i < db_wrapper.driver.records@.len() ==> 1 <= (
                #[trigger] db_wrapper.driver.records@[i]).id <= db_wrapper.driver.counter_val(),
        ensures
            r.wf(),
            r.records() == db_wrapper.driver.records@,
            r.counter() == db_wrapper.driver.counter,
    {
        CrudHandler { db_wrapper }
    }

    /// Read access to the wrapped storage, as the surrounding program needs
    /// it to persist the store.
    pub fn db_wrapper(&self) -> (r: &DatabaseWrapper)
        ensures
            r.driver == self.spec_driver(),
    {
        &self.db_wrapper
    }

    /// What the store assigns next always exceeds every id it holds — in
    /// particular any id deleted earlier, since deletion keeps the creation
    /// count. Ids are therefore never reused, and successive successful
    /// additions are answered with consecutive ids whatever comes between.
    pub proof fn lemma_next_id_fresh(self)
        requires
            self.wf(),
        ensures
            forall|i: int|
                0 <= i < self.records().len() ==> (#[trigger] self.records()[i]).id
                    < self.creations() + 1,
    {
    }

    /// A deleted id is gone for good: every stored id is bounded by the
    /// creation count, which deletions keep, and each later addition is
    /// answered with the count's successor — larger than this bound.
    pub proof fn lemma_no_id_reuse(self, id: int)
        requires
            self.wf(),
            self.has_id(id),
        ensures
            id <= self.creations(),
    {
    }
}

} // verus!
