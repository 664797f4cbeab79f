use vstd::prelude::*;

use crate::dates::now_millis;
use crate::errors::{RtcError, RtcResult};
use crate::text::eq_ci;

verus! {

/// Completion state of a record.
#[derive(Debug, Clone, Copy, PartialEq, Eq, Structural)]
pub enum Status {
    Done,
    Open,
}

/// ASCII-lowered code point: upper-case letters fold, everything else stays.
pub open spec fn lower_cp(n: int) -> int {
    if 65 <= n && n <= 90 {
        n + 32
    } else {
        n
    }
}

/// Character sequences equal up to ASCII case.
pub open spec fn eq_ignore_case(a: Seq<char>, b: Seq<char>) -> bool {
    &&& a.len() == b.len()
    &&& forall|i: int| 0 <= i < a.len() ==> lower_cp(a[i] as int) == lower_cp(b[i] as int)
}

/// Whether a status criterion, compared without regard to ASCII case,
/// names the given status.
pub open spec fn status_matches(st: Status, s: Seq<char>) -> bool {
    match st {
        Status::Open => eq_ignore_case(s, "open"@),
        Status::Done => eq_ignore_case(s, "done"@),
    }
}

proof fn lemma_status_names_disjoint(s: Seq<char>)
    ensures
        !(status_matches(Status::Open, s) && status_matches(Status::Done, s)),
{
    reveal_strlit("open");
    reveal_strlit("done");
    if eq_ignore_case(s, "open"@) && eq_ignore_case(s, "done"@) {
        assert(lower_cp(s[0] as int) == lower_cp("open"@[0] as int));
        assert(lower_cp(s[0] as int) == lower_cp("done"@[0] as int));
        assert(false);
    }
}

impl Status {
    /// Reads a status argument: any ASCII casing of "open" or "done" is
    /// accepted; anything else is a parse error carrying the argument.
    pub fn from_str(s: &str) -> (r: RtcResult<Status>)
        ensures
            status_matches(Status::Open, s@) ==> r == RtcResult::<Status>::Ok(Status::Open),
            status_matches(Status::Done, s@) ==> r == RtcResult::<Status>::Ok(Status::Done),
            !status_matches(Status::Open, s@) && !status_matches(Status::Done, s@) ==> (r matches
                RtcResult::<Status>::Err(RtcError::Parse(m)) && m@ == s@),
    {
        proof {
            lemma_status_names_disjoint(s@);
        }
        if eq_ci(s, "open") {
            Ok(Status::Open)
        } else if eq_ci(s, "done") {
            Ok(Status::Done)
        } else {
            Err(RtcError::Parse(s.to_owned()))
        }
    }
}

/// One TODO entry. The creation date is a UTC timestamp in milliseconds
/// since the Unix epoch.
#[derive(Debug)]
pub struct TodoItem {
    pub id: usize,
    pub name: String,
    pub status: Status,
    pub creation_date: i64,
}

impl Clone for TodoItem {
    fn clone(&self) -> (r: Self)
        ensures
            r == *self,
    {
        TodoItem {
            id: self.id,
            name: self.name.clone(),
            status: self.status,
            creation_date: self.creation_date,
        }
    }
}

impl TodoItem {
    /// A fresh record: the given id and name, open, stamped with the
    /// current time.
    pub(crate) fn new(id: usize, name: &str) -> (r: TodoItem)
        ensures
            r.id == id,
            r.name@ == name@,
            r.status == Status::Open,
    {
        TodoItem { id, name: name.to_owned(), status: Status::Open, creation_date: now_millis() }
    }

    /// Rebuilds a record from its stored fields, as a deserializer or a
    /// test hands them back.
    pub fn from_parts(id: usize, name: String, status: Status, creation_date: i64) -> (r: TodoItem)
        ensures
            r == (TodoItem { id, name, status, creation_date }),
    {
        TodoItem { id, name, status, creation_date }
    }

    pub fn id(&self) -> (r: &usize)
        ensures
            *r == self.id,
    {
        &self.id
    }

    pub fn name(&self) -> (r: &String)
        ensures
            *r == self.name,
    {
        &self.name
    }

    pub fn creation_date(&self) -> (r: &i64)
        ensures
            *r == self.creation_date,
    {
        &self.creation_date
    }
}

} // verus!
