use vstd::prelude::*;

use crate::crud::CrudHandler;
use crate::dates::{date_value_of, parse_date_millis};
use crate::db::sorted_by_id;
use crate::errors::{RtcError, RtcResult};
use crate::seq_facts::{
    lemma_filter_all_kept, lemma_filter_compose, lemma_filter_contains_iff, lemma_filter_equiv,
    lemma_filter_none_kept, lemma_filter_push,
};
use crate::text::{contains_str, eq_ci, seq_contains_sub};
use crate::todo_item::{status_matches, Status, TodoItem};
use crate::RunReturn;

verus! {

/// The view of an optional borrowed text argument.
pub open spec fn opt_str_view(o: Option<&str>) -> Option<Seq<char>> {
    match o {
        Some(s) => Some(s@),
        None => None,
    }
}

/// The instant an optional date criterion bounds by, if it parses.
pub open spec fn date_bound(o: Option<Seq<char>>) -> Option<i64> {
    match o {
        Some(d) => date_value_of(d),
        None => None,
    }
}

/// A date criterion that was supplied but does not parse.
pub open spec fn date_missing(o: Option<Seq<char>>) -> bool {
    o is Some && date_bound(o) is None
}

/// The text of a supplied date criterion.
pub open spec fn date_text(o: Option<Seq<char>>) -> Seq<char> {
    match o {
        Some(d) => d,
        None => Seq::empty(),
    }
}

/// The name criterion: the given text occurs in the record's name. Absent,
/// it keeps everything.
pub open spec fn name_pred(n: Option<Seq<char>>) -> spec_fn(TodoItem) -> bool {
    |t: TodoItem|
        match n {
            Some(s) => seq_contains_sub(t.name@, s),
            None => true,
        }
}

/// The status criterion: the given text names the record's status, without
/// regard to ASCII case. Absent, it keeps everything.
pub open spec fn status_pred(s: Option<Seq<char>>) -> spec_fn(TodoItem) -> bool {
    |t: TodoItem|
        match s {
            Some(x) => status_matches(t.status, x),
            None => true,
        }
}

/// The before criterion: created strictly earlier than the bound. Absent,
/// it keeps everything.
pub open spec fn before_pred(b: Option<i64>) -> spec_fn(TodoItem) -> bool {
    |t: TodoItem|
        match b {
            Some(x) => t.creation_date < x,
            None => true,
        }
}

/// The after criterion: created strictly later than the bound. Absent, it
/// keeps everything.
pub open spec fn after_pred(a: Option<i64>) -> spec_fn(TodoItem) -> bool {
    |t: TodoItem|
        match a {
            Some(x) => t.creation_date > x,
            None => true,
        }
}

/// Whether a record passes all four criteria: each supplied criterion
/// narrows the selection further, omitted ones impose nothing.
pub open spec fn keep_item(
    t: TodoItem,
    n: Option<Seq<char>>,
    s: Option<Seq<char>>,
    b: Option<i64>,
    a: Option<i64>,
) -> bool {
    &&& name_pred(n)(t)
    &&& status_pred(s)(t)
    &&& before_pred(b)(t)
    &&& after_pred(a)(t)
}

/// The four criteria as one predicate.
pub open spec fn keep_pred(
    n: Option<Seq<char>>,
    s: Option<Seq<char>>,
    b: Option<i64>,
    a: Option<i64>,
) -> spec_fn(TodoItem) -> bool {
    |t: TodoItem| keep_item(t, n, s, b, a)
}

/// What a finished filter (or get-all: no criteria) returns. An empty
/// store — no real records — is refused outright, even with no criteria.
/// A supplied date that does not parse aborts the whole operation with a
/// Parse error carrying it, the before date first: no partial results.
/// Otherwise exactly the records passing every supplied criterion come
/// back, ascending by id; an empty selection is no error.
pub open spec fn filter_post(
    h: CrudHandler,
    name: Option<Seq<char>>,
    status: Option<Seq<char>>,
    before: Option<Seq<char>>,
    after: Option<Seq<char>>,
    r: RtcResult<RunReturn>,
) -> bool {
    if h.records().len() == 0 {
        r matches RtcResult::<RunReturn>::Err(RtcError::NoItems(m)) && m@
            == "Filter process stopping"@
    } else if date_missing(before) {
        r matches RtcResult::<RunReturn>::Err(RtcError::Parse(m)) && m@ == date_text(before)
    } else if date_missing(after) {
        r matches RtcResult::<RunReturn>::Err(RtcError::Parse(m)) && m@ == date_text(after)
    } else {
        r matches RtcResult::<RunReturn>::Ok(RunReturn::Filter(v)) && v@ == h.records().filter(
            keep_pred(name, status, date_bound(before), date_bound(after)),
        ) && sorted_by_id(v@)
    }
}

/// A selection out of entries in id order is still in id order.
pub(crate) proof fn lemma_filter_sorted(s: Seq<TodoItem>, pred: spec_fn(TodoItem) -> bool)
    requires
        sorted_by_id(s),
    ensures
        sorted_by_id(s.filter(pred)),
    decreases s.len(),
{
    reveal(Seq::filter);
    if s.len() > 0 {
        lemma_filter_sorted(s.drop_last(), pred);
        let f = s.drop_last().filter(pred);
        assert forall|i: int| 0 <= i < f.len() implies f[i].id < s.last().id by {
            assert(f.contains(f[i]));
            lemma_filter_contains_iff(s.drop_last(), pred, f[i]);
            let j = choose|j: int| 0 <= j < s.drop_last().len() && s.drop_last()[j] == f[i];
            assert(s[j] == f[i]);
        }
    }
}

/// With no criteria supplied every record passes: the selection is the
/// whole store, which the handlers keep ascending by id.
pub proof fn lemma_no_criteria_returns_all(s: Seq<TodoItem>)
    ensures
        s.filter(keep_pred(None, None, None, None)) == s,
{
    lemma_filter_all_kept(s, keep_pred(None, None, None, None));
}

/// Contradictory date bounds — no instant is both strictly before the one
/// and strictly after the other — select nothing, whatever the other
/// criteria say; an empty selection, not an error.
pub proof fn lemma_contradictory_dates_empty(
    s: Seq<TodoItem>,
    n: Option<Seq<char>>,
    st: Option<Seq<char>>,
    b: i64,
    a: i64,
)
    requires
        b <= a + 1,
    ensures
        s.filter(keep_pred(n, st, Some(b), Some(a))) == Seq::<TodoItem>::empty(),
{
    lemma_filter_none_kept(s, keep_pred(n, st, Some(b), Some(a)));
}

/// Criteria compose conjunctively: the records a combined name-and-status
/// filter selects are exactly those in the intersection of the selections
/// of the two criteria taken alone.
pub proof fn lemma_filter_conjunctive(s: Seq<TodoItem>, n: Option<Seq<char>>, st: Option<Seq<char>>)
    ensures
        s.filter(keep_pred(n, st, None, None)).to_set() == s.filter(
            keep_pred(n, None, None, None),
        ).to_set().intersect(s.filter(keep_pred(None, st, None, None)).to_set()),
{
    let both = keep_pred(n, st, None, None);
    let by_name = keep_pred(n, None, None, None);
    let by_status = keep_pred(None, st, None, None);
    assert forall|x: TodoItem|
        s.filter(both).to_set().contains(x) == (s.filter(by_name).to_set().contains(x) && s.filter(
            by_status,
        ).to_set().contains(x)) by {
        lemma_filter_contains_iff(s, both, x);
        lemma_filter_contains_iff(s, by_name, x);
        lemma_filter_contains_iff(s, by_status, x);
    }
    assert(s.filter(both).to_set() =~= s.filter(by_name).to_set().intersect(
        s.filter(by_status).to_set(),
    ));
}

/// One pass of the name criterion.
fn filter_by_name(items: Vec<TodoItem>, n: Option<&str>) -> (r: Vec<TodoItem>)
    ensures
        r@ == items@.filter(name_pred(opt_str_view(n))),
{
    match n {
        None => {
            proof {
                lemma_filter_all_kept(items@, name_pred(None));
            }
            items
        },
        Some(sub) => {
            let mut out: Vec<TodoItem> = Vec::new();
            let len = items.len();
            let mut i: usize = 0;
            proof {
                assert(items@.take(0) =~= Seq::<TodoItem>::empty());
                reveal(Seq::filter);
            }
            while i < len
                invariant
                    len == items@.len(),
                    i <= len,
                    out@ == items@.take(i as int).filter(name_pred(Some(sub@))),
                decreases len - i,
            {
                proof {
                    lemma_filter_push(items@.take(i as int), name_pred(Some(sub@)), items@[i as int]);
                    assert(items@.take(i as int).push(items@[i as int]) =~= items@.take(i + 1));
                }
                if contains_str(&items[i].name, sub) {
                    out.push(items[i].clone());
                }
                i += 1;
            }
            proof {
                assert(items@.take(len as int) =~= items@);
            }
            out
        },
    }
}

/// One pass of the status criterion.
fn filter_by_status(items: Vec<TodoItem>, s: Option<&str>) -> (r: Vec<TodoItem>)
    ensures
        r@ == items@.filter(status_pred(opt_str_view(s))),
{
    match s {
        None => {
            proof {
                lemma_filter_all_kept(items@, status_pred(None));
            }
            items
        },
        Some(status_str) => {
            let mut out: Vec<TodoItem> = Vec::new();
            let len = items.len();
            let mut i: usize = 0;
            proof {
                assert(items@.take(0) =~= Seq::<TodoItem>::empty());
                reveal(Seq::filter);
            }
            while i < len
                invariant
                    len == items@.len(),
                    i <= len,
                    out@ == items@.take(i as int).filter(status_pred(Some(status_str@))),
                decreases len - i,
            {
                proof {
                    lemma_filter_push(
                        items@.take(i as int),
                        status_pred(Some(status_str@)),
                        items@[i as int],
                    );
                    assert(items@.take(i as int).push(items@[i as int]) =~= items@.take(i + 1));
                }
                let matches_status = match items[i].status {
                    Status::Open => eq_ci(status_str, "open"),
                    Status::Done => eq_ci(status_str, "done"),
                };
                if matches_status {
                    out.push(items[i].clone());
                }
                i += 1;
            }
            proof {
                assert(items@.take(len as int) =~= items@);
            }
            out
        },
    }
}

/// One pass of the before criterion.
fn filter_by_before(items: Vec<TodoItem>, b: Option<i64>) -> (r: Vec<TodoItem>)
    ensures
        r@ == items@.filter(before_pred(b)),
{
    match b {
        None => {
            proof {
                lemma_filter_all_kept(items@, before_pred(None));
            }
            items
        },
        Some(bound) => {
            let mut out: Vec<TodoItem> = Vec::new();
            let len = items.len();
            let mut i: usize = 0;
            proof {
                assert(items@.take(0) =~= Seq::<TodoItem>::empty());
                reveal(Seq::filter);
            }
            while i < len
                invariant
                    len == items@.len(),
                    i <= len,
                    out@ == items@.take(i as int).filter(before_pred(Some(bound))),
                decreases len - i,
            {
                proof {
                    lemma_filter_push(items@.take(i as int), before_pred(Some(bound)), items@[i as int]);
                    assert(items@.take(i as int).push(items@[i as int]) =~= items@.take(i + 1));
                }
                if items[i].creation_date < bound {
                    out.push(items[i].clone());
                }
                i += 1;
            }
            proof {
                assert(items@.take(len as int) =~= items@);
            }
            out
        },
    }
}

/// One pass of the after criterion.
fn filter_by_after(items: Vec<TodoItem>, a: Option<i64>) -> (r: Vec<TodoItem>)
    ensures
        r@ == items@.filter(after_pred(a)),
{
    match a {
        None => {
            proof {
                lemma_filter_all_kept(items@, after_pred(None));
            }
            items
        },
        Some(bound) => {
            let mut out: Vec<TodoItem> = Vec::new();
            let len = items.len();
            let mut i: usize = 0;
            proof {
                assert(items@.take(0) =~= Seq::<TodoItem>::empty());
                reveal(Seq::filter);
            }
            while i < len
                invariant
                    len == items@.len(),
                    i <= len,
                    out@ == items@.take(i as int).filter(after_pred(Some(bound))),
                decreases len - i,
            {
                proof {
                    lemma_filter_push(items@.take(i as int), after_pred(Some(bound)), items@[i as int]);
                    assert(items@.take(i as int).push(items@[i as int]) =~= items@.take(i + 1));
                }
                if items[i].creation_date > bound {
                    out.push(items[i].clone());
                }
                i += 1;
            }
            proof {
                assert(items@.take(len as int) =~= items@);
            }
            out
        },
    }
}

impl CrudHandler {
    /// Reads a date criterion, or aborts with a Parse error carrying it.
    fn get_date_from_str(date_str: &str) -> (r: RtcResult<i64>)
        ensures
            match r {
                Ok(b) => date_value_of(date_str@) == Some(b),
                Err(e) => date_value_of(date_str@) is None && (e matches RtcError::Parse(m) && m@
                    == date_str@),
            },
    {
        match parse_date_millis(date_str) {
            Some(d) => Ok(d),
            None => Err(RtcError::Parse(date_str.to_owned())),
        }
    }

    /// Selects records by up to four optional criteria — with none supplied
    /// this is get-all. The emptiness guard runs first; then each supplied
    /// criterion narrows the selection in turn, and the selection comes
    /// back ascending by id. A supplied date that does not parse aborts
    /// the whole operation: no partial results.
    pub fn filter(
        &self,
        name_substr: Option<&str>,
        status: Option<&str>,
        before_date: Option<&str>,
        after_date: Option<&str>,
    ) -> (r: RtcResult<RunReturn>)
        requires
            self.wf(),
        ensures
            filter_post(
                *self,
                opt_str_view(name_substr),
                opt_str_view(status),
                opt_str_view(before_date),
                opt_str_view(after_date),
                r,
            ),
    {
        proof {
            if self.records().len() > 0 {
                assert(self.records()[0].id >= 1);
            }
        }
        if let Err(e) = self.db_wrapper.driver.error_if_db_empty("Filter process stopping") {
            return Err(e);
        }
        let ghost s0 = self.records();
        let ghost nv = opt_str_view(name_substr);
        let ghost sv = opt_str_view(status);

        let all = self.db_wrapper.driver.get_all();
        let kept_name = filter_by_name(all, name_substr);
        let kept_status = filter_by_status(kept_name, status);

        let before_bound: Option<i64> = match before_date {
            Some(d) => match Self::get_date_from_str(d) {
                Ok(b) => Some(b),
                Err(e) => {
                    return Err(e);
                },
            },
            None => None,
        };
        let kept_before = filter_by_before(kept_status, before_bound);

        let after_bound: Option<i64> = match after_date {
            Some(d) => match Self::get_date_from_str(d) {
                Ok(b) => Some(b),
                Err(e) => {
                    return Err(e);
                },
            },
            None => None,
        };
        let results = filter_by_after(kept_before, after_bound);

        proof {
            let p1 = name_pred(nv);
            let p2 = status_pred(sv);
            let p3 = before_pred(before_bound);
            let p4 = after_pred(after_bound);
            lemma_filter_compose(s0, p1, p2);
            let c12 = |t: TodoItem| p1(t) && p2(t);
            lemma_filter_compose(s0, c12, p3);
            let c123 = |t: TodoItem| c12(t) && p3(t);
            lemma_filter_compose(s0, c123, p4);
            let c = |t: TodoItem| c123(t) && p4(t);
            lemma_filter_equiv(s0, c, keep_pred(nv, sv, before_bound, after_bound));
            lemma_filter_sorted(s0, keep_pred(nv, sv, before_bound, after_bound));
        }
        Ok(RunReturn::Filter(results))
    }
}

} // verus!
