use rust_todo_cli::{
    contains_str, eq_ci, parse_id, split_arg, str_eq, trim, Config, CrudHandler, DatabaseWrapper,
    MemoryDb, Operation, RunReturn,
};

#[test]
fn parse_id_accepts_only_canonical_decimals() {
    assert_eq!(parse_id("0"), Some(0));
    assert_eq!(parse_id("1"), Some(1));
    assert_eq!(parse_id("42"), Some(42));
    assert_eq!(parse_id(""), None);
    assert_eq!(parse_id("01"), None);
    assert_eq!(parse_id("+1"), None);
    assert_eq!(parse_id("1a"), None);
    assert_eq!(parse_id("total_creations"), None);
    assert_eq!(parse_id("99999999999999999999999999"), None);
}

#[test]
fn contains_str_finds_substrings() {
    assert!(contains_str("my todo item", "todo"));
    assert!(contains_str("my todo item", "my todo item"));
    assert!(contains_str("my todo item", ""));
    assert!(!contains_str("my todo item", "todos"));
    assert!(!contains_str("ab", "abc"));
    assert!(contains_str("aaab", "aab"));
}

#[test]
fn eq_ci_compares_without_ascii_case() {
    assert!(eq_ci("Open", "oPEN"));
    assert!(eq_ci("done", "DONE"));
    assert!(!eq_ci("done", "dane"));
    assert!(!eq_ci("done", "don"));
    assert!(eq_ci("", ""));
}

#[test]
fn str_eq_is_exact() {
    assert!(str_eq("name", "name"));
    assert!(!str_eq("name", "Name"));
    assert!(!str_eq("name", "names"));
}

#[test]
fn trim_drops_white_space_at_both_ends() {
    assert_eq!(trim("  a b  "), "a b");
    assert_eq!(trim("a"), "a");
    assert_eq!(trim("   "), "");
    assert_eq!(trim("\t x \n"), "x");
}

#[test]
fn split_arg_wants_exactly_one_equals_sign() {
    assert_eq!(split_arg("name=my item"), Some(("name", "my item")));
    assert_eq!(split_arg("status="), Some(("status", "")));
    assert_eq!(split_arg("=v"), Some(("", "v")));
    assert_eq!(split_arg("plain"), None);
    assert_eq!(split_arg("a=b=c"), None);
}

#[test]
fn run_assembles_names_from_tokens() {
    let mut h = CrudHandler::new(DatabaseWrapper::new(MemoryDb::new()));
    let config = Config::new_for_testing(
        Operation::Add,
        vec!["  task".to_string(), "A  ".to_string()],
        "testcase.json",
    );
    assert!(matches!(
        rust_todo_cli::run(&config, &mut h),
        Ok(RunReturn::Addition(1))
    ));
    let config = Config::new_for_testing(Operation::GetAll, vec![], "testcase.json");
    match rust_todo_cli::run(&config, &mut h) {
        Ok(RunReturn::Filter(v)) => {
            assert_eq!(v.len(), 1);
            assert_eq!(*v[0].name(), "task A".to_string());
        },
        other => panic!("expected records, got {:?}", other),
    }
}

#[test]
fn run_filter_rejects_malformed_tokens() {
    let mut h = CrudHandler::new(DatabaseWrapper::new(MemoryDb::new()));
    let add = Config::new_for_testing(Operation::Add, vec!["a".to_string()], "testcase.json");
    rust_todo_cli::run(&add, &mut h).unwrap();

    let bad_shape = Config::new_for_testing(
        Operation::Filter,
        vec!["name".to_string()],
        "testcase.json",
    );
    assert!(matches!(
        rust_todo_cli::run(&bad_shape, &mut h),
        Err(rust_todo_cli::RtcError::Parse(_))
    ));

    let too_many = Config::new_for_testing(
        Operation::Filter,
        vec![
            "name=a".to_string(),
            "status=open".to_string(),
            "before=2021-01-01".to_string(),
            "after=2020-01-01".to_string(),
            "name=b".to_string(),
        ],
        "testcase.json",
    );
    assert!(matches!(
        rust_todo_cli::run(&too_many, &mut h),
        Err(rust_todo_cli::RtcError::Parse(_))
    ));
}

#[test]
fn run_filter_lets_a_later_duplicate_key_win() {
    let mut h = CrudHandler::new(DatabaseWrapper::new(MemoryDb::new()));
    for name in ["alpha", "beta"] {
        let add = Config::new_for_testing(
            Operation::Add,
            vec![name.to_string()],
            "testcase.json",
        );
        rust_todo_cli::run(&add, &mut h).unwrap();
    }
    let config = Config::new_for_testing(
        Operation::Filter,
        vec!["name=alpha".to_string(), "name=beta".to_string()],
        "testcase.json",
    );
    match rust_todo_cli::run(&config, &mut h) {
        Ok(RunReturn::Filter(v)) => {
            assert_eq!(v.len(), 1);
            assert_eq!(*v[0].name(), "beta".to_string());
        },
        other => panic!("expected records, got {:?}", other),
    }
}

#[test]
fn run_update_rejects_unknown_status_text() {
    let mut h = CrudHandler::new(DatabaseWrapper::new(MemoryDb::new()));
    let add = Config::new_for_testing(Operation::Add, vec!["a".to_string()], "testcase.json");
    rust_todo_cli::run(&add, &mut h).unwrap();
    let upd = Config::new_for_testing(
        Operation::Update,
        vec!["1".to_string(), "finished".to_string()],
        "testcase.json",
    );
    match rust_todo_cli::run(&upd, &mut h) {
        Err(rust_todo_cli::RtcError::Parse(m)) => assert_eq!(m, "finished"),
        other => panic!("expected a parse error, got {:?}", other),
    }
}
