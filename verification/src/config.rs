use vstd::prelude::*;

verus! {

/// Which operation the caller asked for.
#[derive(Debug)]
pub enum Operation {
    Add,
    Delete,
    Update,
    Filter,
    GetAll,
}

/// One invocation as the caller hands it over: the operation, its raw
/// argument tokens, and the path of the backing database file, which the
/// surrounding program uses to load and persist the store.
pub struct Config {
    operation: Operation,
    args: Vec<String>,
    database_file: String,
}

impl Config {
    /// The requested operation.
    pub closed spec fn spec_operation(self) -> Operation {
        self.operation
    }

    /// The raw argument tokens.
    pub closed spec fn spec_args(self) -> Seq<String> {
        self.args@
    }

    /// The path of the backing database file.
    pub closed spec fn spec_database_file(self) -> Seq<char> {
        self.database_file@
    }

    pub fn operation(&self) -> (r: &Operation)
        ensures
            *r == self.spec_operation(),
    {
        &self.operation
    }

    pub fn args(&self) -> (r: &Vec<String>)
        ensures
            r@ == self.spec_args(),
    {
        &self.args
    }

    pub fn database_file(&self) -> (r: &String)
        ensures
            r@ == self.spec_database_file(),
    {
        &self.database_file
    }

    /// Builds an invocation from parts, as tests and any surrounding
    /// program that has already read its arguments do.
    pub fn new_for_testing(operation: Operation, args: Vec<String>, db_name: &str) -> (r: Config)
        ensures
            r.spec_operation() == operation,
            r.spec_args() == args@,
            r.spec_database_file() == db_name@,
    {
        Config { operation, args, database_file: db_name.to_owned() }
    }
}

} // verus!
