use rust_todo_cli::{
    CrudHandler, DatabaseWrapper, MemoryDb, RtcError, RunReturn, Status, TodoItem,
};

fn fresh_handler() -> CrudHandler {
    CrudHandler::new(DatabaseWrapper::new(MemoryDb::new()))
}

/// A handler over a store with the given records and creation count.
fn handler_with(count: usize, items: Vec<TodoItem>) -> CrudHandler {
    let mut db = MemoryDb::new();
    db.set_count(count);
    for item in items {
        db.set_item(item);
    }
    CrudHandler::new(DatabaseWrapper::new(db))
}

fn added_id(r: Result<RunReturn, RtcError>) -> usize {
    match r {
        Ok(RunReturn::Addition(id)) => id,
        other => panic!("expected an addition, got {:?}", other),
    }
}

fn filtered(r: Result<RunReturn, RtcError>) -> Vec<TodoItem> {
    match r {
        Ok(RunReturn::Filter(v)) => v,
        other => panic!("expected a filter result, got {:?}", other),
    }
}

#[test]
fn add_assigns_ids_in_call_order() {
    let mut h = fresh_handler();
    assert_eq!(added_id(h.add("first")), 1);
    assert_eq!(added_id(h.add("second")), 2);
    assert_eq!(added_id(h.add("third")), 3);
    assert_eq!(added_id(h.add("fourth")), 4);
}

#[test]
fn add_after_delete_does_not_reuse_id() {
    let mut h = fresh_handler();
    assert_eq!(added_id(h.add("a")), 1);
    assert_eq!(added_id(h.add("b")), 2);
    assert!(matches!(h.delete("2"), Ok(RunReturn::Deletion(true))));
    // the deleted id 2 is never handed out again
    assert_eq!(added_id(h.add("c")), 3);
    assert!(matches!(h.delete("1"), Ok(RunReturn::Deletion(true))));
    assert_eq!(added_id(h.add("d")), 4);
}

#[test]
fn update_missing_id_fails_and_leaves_store_unchanged() {
    let mut h = fresh_handler();
    h.add("only").unwrap();
    let r = h.update("7", Status::Done);
    assert!(matches!(r, Err(RtcError::ItemNotFound(_))));
    let all = filtered(h.filter(None, None, None, None));
    assert_eq!(all.len(), 1);
    assert_eq!(*all[0].id(), 1);
    assert_eq!(all[0].status, Status::Open);
}

#[test]
fn filter_without_criteria_returns_all_sorted_by_id() {
    // records handed to the store out of id order
    let h = handler_with(
        3,
        vec![
            TodoItem::from_parts(3, "c".to_string(), Status::Open, 30),
            TodoItem::from_parts(1, "a".to_string(), Status::Open, 10),
            TodoItem::from_parts(2, "b".to_string(), Status::Done, 20),
        ],
    );
    let all = filtered(h.filter(None, None, None, None));
    assert_eq!(all.len(), 3);
    assert_eq!(*all[0].id(), 1);
    assert_eq!(*all[1].id(), 2);
    assert_eq!(*all[2].id(), 3);
}

#[test]
fn filter_with_contradictory_criteria_returns_empty_not_error() {
    let mut h = fresh_handler();
    h.add("x").unwrap();
    h.add("y").unwrap();
    // nothing is created both strictly before 1970 and strictly after 2100
    let v = filtered(h.filter(None, None, Some("1970-01-01"), Some("2100-01-01")));
    assert_eq!(v.len(), 0);
    // contradictory name criteria likewise
    let v = filtered(h.filter(Some("x"), Some("done"), None, None));
    assert_eq!(v.len(), 0);
}

#[test]
fn filter_composition_is_conjunctive() {
    let mut h = fresh_handler();
    h.add("item one").unwrap();
    h.add("item two").unwrap();
    h.add("other").unwrap();
    h.update("1", Status::Done).unwrap();
    h.update("3", Status::Done).unwrap();
    // by name alone: ids 1, 2; by status alone: ids 1, 3
    let by_name = filtered(h.filter(Some("item"), None, None, None));
    let by_status = filtered(h.filter(None, Some("done"), None, None));
    let both = filtered(h.filter(Some("item"), Some("done"), None, None));
    let name_ids: Vec<usize> = by_name.iter().map(|t| *t.id()).collect();
    let status_ids: Vec<usize> = by_status.iter().map(|t| *t.id()).collect();
    let both_ids: Vec<usize> = both.iter().map(|t| *t.id()).collect();
    assert_eq!(name_ids, vec![1, 2]);
    assert_eq!(status_ids, vec![1, 3]);
    // exactly the intersection of the two selections
    let expected: Vec<usize> = name_ids
        .iter()
        .filter(|id| status_ids.contains(id))
        .cloned()
        .collect();
    assert_eq!(both_ids, expected);
    assert_eq!(both_ids, vec![1]);
}

#[test]
fn empty_store_fails_with_no_items_except_add() {
    let mut h = fresh_handler();
    assert!(matches!(h.delete("1"), Err(RtcError::NoItems(_))));
    assert!(matches!(h.update("1", Status::Done), Err(RtcError::NoItems(_))));
    assert!(matches!(
        h.filter(None, None, None, None),
        Err(RtcError::NoItems(_))
    ));
    assert!(matches!(
        h.filter(Some("x"), None, None, None),
        Err(RtcError::NoItems(_))
    ));
    // adding to the empty store succeeds and yields id 1
    assert_eq!(added_id(h.add("first ever")), 1);
}

#[test]
fn malformed_date_fails_with_parse_and_no_partial_results() {
    let mut h = fresh_handler();
    h.add("a").unwrap();
    let r = h.filter(None, None, Some("not-a-date"), None);
    match r {
        Err(RtcError::Parse(m)) => assert_eq!(m, "not-a-date"),
        other => panic!("expected a parse error, got {:?}", other),
    }
    let r = h.filter(None, None, None, Some("not-a-date"));
    assert!(matches!(r, Err(RtcError::Parse(_))));
}

#[test]
fn scenario_add_add_delete_filter_open() {
    let mut h = fresh_handler();
    assert_eq!(added_id(h.add("task A")), 1);
    assert_eq!(added_id(h.add("task B")), 2);
    assert!(matches!(h.delete("1"), Ok(RunReturn::Deletion(true))));
    let v = filtered(h.filter(None, Some("open"), None, None));
    assert_eq!(v.len(), 1);
    assert_eq!(*v[0].id(), 2);
    assert_eq!(*v[0].name(), "task B".to_string());
    assert_eq!(v[0].status, Status::Open);
}

#[test]
fn scenario_add_update_filter_done() {
    let mut h = fresh_handler();
    assert_eq!(added_id(h.add("x")), 1);
    assert!(matches!(h.update("1", Status::Done), Ok(RunReturn::Update(true))));
    let v = filtered(h.filter(None, Some("done"), None, None));
    assert_eq!(v.len(), 1);
    assert_eq!(*v[0].id(), 1);
    assert_eq!(v[0].status, Status::Done);
}

#[test]
fn date_criteria_bound_by_utc_midnight() {
    // one record at the epoch, one exactly at 1970-01-02 00:00:00 UTC,
    // one well after it
    let h = handler_with(
        3,
        vec![
            TodoItem::from_parts(1, "epoch".to_string(), Status::Open, 0),
            TodoItem::from_parts(2, "midnight".to_string(), Status::Open, 86_400_000),
            TodoItem::from_parts(3, "later".to_string(), Status::Open, 86_400_001),
        ],
    );
    // strictly before 1970-01-02: only the epoch record
    let v = filtered(h.filter(None, None, Some("1970-01-02"), None));
    assert_eq!(v.len(), 1);
    assert_eq!(*v[0].id(), 1);
    // strictly after 1970-01-02: only the later record
    let v = filtered(h.filter(None, None, None, Some("1970-01-02")));
    assert_eq!(v.len(), 1);
    assert_eq!(*v[0].id(), 3);
    // a calendar date well in the future keeps everything
    let v = filtered(h.filter(None, None, Some("2021-01-01"), None));
    assert_eq!(v.len(), 3);
}

#[test]
fn delete_then_filter_excludes_only_deleted() {
    let mut h = fresh_handler();
    h.add("a").unwrap();
    h.add("b").unwrap();
    h.add("c").unwrap();
    assert!(matches!(h.delete("2"), Ok(RunReturn::Deletion(true))));
    let v = filtered(h.filter(None, None, None, None));
    let ids: Vec<usize> = v.iter().map(|t| *t.id()).collect();
    assert_eq!(ids, vec![1, 3]);
}

#[test]
fn delete_with_non_canonical_or_foreign_key_is_not_found() {
    let mut h = fresh_handler();
    h.add("a").unwrap();
    // "01" is not the canonical decimal form of 1
    assert!(matches!(h.delete("01"), Err(RtcError::ItemNotFound(_))));
    // the reserved counter key names no record
    assert!(matches!(
        h.delete("total_creations"),
        Err(RtcError::ItemNotFound(_))
    ));
    assert!(matches!(h.delete("abc"), Err(RtcError::ItemNotFound(_))));
    assert!(matches!(h.delete("0"), Err(RtcError::ItemNotFound(_))));
    // the record itself is still there
    assert_eq!(filtered(h.filter(None, None, None, None)).len(), 1);
}

#[test]
fn status_argument_is_case_insensitive() {
    let mut h = fresh_handler();
    h.add("a").unwrap();
    assert_eq!(
        match Status::from_str("DONE") {
            Ok(s) => s,
            Err(e) => panic!("unexpected {:?}", e),
        },
        Status::Done
    );
    assert_eq!(
        match Status::from_str("Open") {
            Ok(s) => s,
            Err(e) => panic!("unexpected {:?}", e),
        },
        Status::Open
    );
    assert!(matches!(
        Status::from_str("finished"),
        Err(RtcError::Parse(m)) if m == "finished"
    ));
    // filtering compares the same way
    let v = filtered(h.filter(None, Some("OPEN"), None, None));
    assert_eq!(v.len(), 1);
}

#[test]
fn n_keys_counts_records_and_the_reserved_key() {
    let mut db = MemoryDb::new();
    assert_eq!(db.n_keys(), 0);
    db.set_count(1);
    assert_eq!(db.n_keys(), 1);
    db.set_item(TodoItem::from_parts(1, "a".to_string(), Status::Open, 0));
    assert_eq!(db.n_keys(), 2);
    assert!(db.error_if_db_empty("guard").is_ok());

    let mut counter_only = MemoryDb::new();
    assert!(matches!(
        counter_only.error_if_db_empty("guard"),
        Err(RtcError::NoItems(m)) if m == "guard"
    ));
    counter_only.set_count(5);
    // one key, and it is the reserved one: still no real records
    assert!(counter_only.error_if_db_empty("guard").is_err());
}

#[test]
fn wrapper_names_the_reserved_key() {
    let wrapper = DatabaseWrapper::new(MemoryDb::new());
    assert_eq!(wrapper.key_total_creations(), "total_creations");
}

#[test]
fn update_persists_only_the_status() {
    let h_items = vec![TodoItem::from_parts(1, "keep me".to_string(), Status::Open, 123)];
    let mut h = handler_with(1, h_items);
    assert!(matches!(h.update("1", Status::Done), Ok(RunReturn::Update(true))));
    let v = filtered(h.filter(None, None, None, None));
    assert_eq!(v.len(), 1);
    assert_eq!(*v[0].id(), 1);
    assert_eq!(*v[0].name(), "keep me".to_string());
    assert_eq!(*v[0].creation_date(), 123);
    assert_eq!(v[0].status, Status::Done);
}
