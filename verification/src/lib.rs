//! A small TODO manager: records are created, deleted, updated and filtered
//! through a handler bound to a key-value store, with one reserved key that
//! counts how many records were ever created (the source of fresh ids).

use vstd::prelude::*;

mod config;
mod crud;
mod dates;
mod db;
mod errors;
mod seq_facts;
mod text;
mod todo_item;

pub use crate::config::{Config, Operation};
pub use crate::crud::CrudHandler;
pub use crate::crud::{add_post, delete_post, update_post};
pub use crate::crud::{
    after_pred, before_pred, date_bound, date_missing, date_text, filter_post, keep_item,
    keep_pred, lemma_contradictory_dates_empty, lemma_filter_conjunctive,
    lemma_no_criteria_returns_all, name_pred, opt_str_view, status_pred,
};
pub use crate::dates::date_value_of;
pub use crate::db::{keeps_other_id, sorted_by_id, upsert_seq, DatabaseWrapper, MemoryDb};
pub use crate::errors::{RtcError, RtcResult};
pub use crate::text::{
    arg_well_formed, assembled_name, contains_str, count_char, dec_value, eq_ci, first_eq_pos,
    id_of_key, is_canonical_id, is_space_char, joined_with_spaces, key_of, parse_id,
    seq_contains_sub, split_arg, str_eq, trim, trim_spec, val_of,
};
pub use crate::todo_item::{eq_ignore_case, status_matches, Status, TodoItem};

use crate::text::join_args;

verus! {

/// What a finished operation hands back to the caller, tagged by kind.
#[derive(Debug)]
pub enum RunReturn {
    /// The id of the record an addition created.
    Addition(usize),
    /// Whether a deletion removed a record.
    Deletion(bool),
    /// Whether an update changed a record.
    Update(bool),
    /// The records a filter selected, ascending by id.
    Filter(Vec<TodoItem>),
    /// The records an unconditional retrieval found, ascending by id.
    GetAll(Vec<TodoItem>),
}

/// The argument tokens' views.
pub open spec fn arg_views(args: Seq<String>) -> Seq<Seq<char>> {
    args.map_values(|s: String| s@)
}

/// Filter arguments in shape: at most four tokens, each one key, one '=',
/// one value.
pub open spec fn filter_args_ok(args: Seq<Seq<char>>) -> bool {
    &&& args.len() <= 4
    &&& forall|i: int| 0 <= i < args.len() ==> arg_well_formed(#[trigger] args[i])
}

/// The value of the last argument token carrying the given key, if any: a
/// later token with the same key wins; tokens with other keys say nothing.
pub open spec fn last_value_for(args: Seq<Seq<char>>, key: Seq<char>) -> Option<Seq<char>>
    decreases args.len(),
{
    if args.len() == 0 {
        None
    } else if key_of(args.last()) == key {
        Some(val_of(args.last()))
    } else {
        last_value_for(args.drop_last(), key)
    }
}

/// What a finished invocation leaves behind, by operation: an addition
/// under the name assembled from all tokens; a deletion or update of the
/// record the first token addresses — an update's second token must name a
/// status, else nothing moves and the token comes back as a Parse error; a
/// filter by the criteria the tokens carry, refused wholesale when a token
/// is out of shape; or an unconditional retrieval.
pub open spec fn run_post(
    config: Config,
    pre: CrudHandler,
    post: CrudHandler,
    r: RtcResult<RunReturn>,
) -> bool {
    let m = arg_views(config.spec_args());
    match config.spec_operation() {
        Operation::Add => add_post(pre, post, assembled_name(m), r),
        Operation::Delete => delete_post(pre, post, m[0], r),
        Operation::Update => if status_matches(Status::Open, m[1]) {
            update_post(pre, post, m[0], Status::Open, r)
        } else if status_matches(Status::Done, m[1]) {
            update_post(pre, post, m[0], Status::Done, r)
        } else {
            post == pre && (r matches RtcResult::<RunReturn>::Err(RtcError::Parse(p)) && p@ == m[1])
        },
        Operation::Filter => if filter_args_ok(m) {
            &&& post == pre
            &&& filter_post(
                pre,
                last_value_for(m, "name"@),
                last_value_for(m, "status"@),
                last_value_for(m, "before"@),
                last_value_for(m, "after"@),
                r,
            )
        } else {
            post == pre && (r matches RtcResult::<RunReturn>::Err(RtcError::Parse(_)))
        },
        Operation::GetAll => post == pre && filter_post(pre, None, None, None, None, r),
    }
}

proof fn lemma_filter_keys_distinct()
    ensures
        "name"@ != "status"@,
        "name"@ != "before"@,
        "name"@ != "after"@,
        "status"@ != "before"@,
        "status"@ != "after"@,
        "before"@ != "after"@,
{
    reveal_strlit("name");
    reveal_strlit("status");
    reveal_strlit("before");
    reveal_strlit("after");
    assert("name"@.len() == 4);
    assert("status"@.len() == 6);
    assert("before"@.len() == 6);
    assert("after"@.len() == 5);
    assert("status"@[0] != "before"@[0]);
}

/// Reads the filter criteria out of the argument tokens — at most four
/// `key=value` tokens, a later duplicate key winning, unknown keys said
/// nothing — and runs the filter with them.
fn run_filter(crud_handler: &CrudHandler, args: &Vec<String>) -> (r: RtcResult<RunReturn>)
    requires
        crud_handler.wf(),
    ensures
        ({
            let m = arg_views(args@);
            if filter_args_ok(m) {
                filter_post(
                    *crud_handler,
                    last_value_for(m, "name"@),
                    last_value_for(m, "status"@),
                    last_value_for(m, "before"@),
                    last_value_for(m, "after"@),
                    r,
                )
            } else {
                r matches RtcResult::<RunReturn>::Err(RtcError::Parse(_))
            }
        }),
{
    let ghost m = arg_views(args@);
    if args.len() > 4 {
        return Err(RtcError::Parse("Length of arguments is greater than 4".to_owned()));
    }
    let mut name_arg: Option<&str> = None;
    let mut status_arg: Option<&str> = None;
    let mut before_arg: Option<&str> = None;
    let mut after_arg: Option<&str> = None;
    let len = args.len();
    let mut i: usize = 0;
    proof {
        assert(m.take(0) =~= Seq::<Seq<char>>::empty());
    }
    while i < len
        invariant
            m == arg_views(args@),
            len == args@.len(),
            i <= len,
            forall|j: int| 0 <= j < i ==> arg_well_formed(#[trigger] m[j]),
            opt_str_view(name_arg) == last_value_for(m.take(i as int), "name"@),
            opt_str_view(status_arg) == last_value_for(m.take(i as int), "status"@),
            opt_str_view(before_arg) == last_value_for(m.take(i as int), "before"@),
            opt_str_view(after_arg) == last_value_for(m.take(i as int), "after"@),
        decreases len - i,
    {
        match split_arg(args[i].as_str()) {
            None => {
                proof {
                    assert(m[i as int] == args@[i as int]@);
                    assert(!arg_well_formed(m[i as int]));
                }
                return Err(RtcError::Parse(args[i].clone()));
            },
            Some(kv) => {
                proof {
                    lemma_filter_keys_distinct();
                    assert(m.take(i + 1).drop_last() =~= m.take(i as int));
                    assert(m.take(i + 1).last() == m[i as int]);
                    assert(m[i as int] == args@[i as int]@);
                }
                let (k, v) = kv;
                if str_eq(k, "name") {
                    name_arg = Some(v);
                } else if str_eq(k, "status") {
                    status_arg = Some(v);
                } else if str_eq(k, "before") {
                    before_arg = Some(v);
                } else if str_eq(k, "after") {
                    after_arg = Some(v);
                }
            },
        }
        i += 1;
    }
    proof {
        assert(m.take(len as int) =~= m);
    }
    crud_handler.filter(name_arg, status_arg, before_arg, after_arg)
}

/// Runs one invocation against the given handler: the operation the
/// configuration asks for, on the store the handler is bound to.
///
/// # Errors
/// Will return propagated errors of type [`RtcError`]
pub fn run(config: &Config, crud_handler: &mut CrudHandler) -> (r: RtcResult<RunReturn>)
    requires
        old(crud_handler).wf(),
        config.spec_operation() is Add ==> old(crud_handler).creations() < usize::MAX,
        config.spec_operation() is Delete ==> config.spec_args().len() >= 1,
        config.spec_operation() is Update ==> config.spec_args().len() >= 2,
    ensures
        final (crud_handler).wf(),
        run_post(*config, *old(crud_handler), *final (crud_handler), r),
{
    match config.operation() {
        Operation::Add => {
            let joined = join_args(config.args());
            let name = trim(joined.as_str());
            crud_handler.add(name)
        },
        Operation::Delete => {
            let args = config.args();
            let id = &args[0];
            crud_handler.delete(id.as_str())
        },
        Operation::Update => {
            let args = config.args();
            let id = &args[0];
            let status_str = &args[1];
            match Status::from_str(status_str.as_str()) {
                Ok(st) => crud_handler.update(id.as_str(), st),
                Err(e) => Err(e),
            }
        },
        Operation::Filter => run_filter(crud_handler, config.args()),
        Operation::GetAll => crud_handler.filter(None, None, None, None),
    }
}

} // verus!
