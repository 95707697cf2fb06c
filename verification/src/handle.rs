//! The result-handling protocol of a test handle: the report is fetched
//! from the aggregator exactly once, cached, and only then written out.
//! Fetching twice is a caller bug, ruled out by precondition; writing before
//! fetching fails with `ResultNotFetched` and produces no payload.

use vstd::prelude::*;

use crate::codec::{test_result_json, to_json};
use crate::ids::Uuid;
use crate::json::{json_eq, json_text, json_to_string, JsonValue};
use crate::models::TestResult;
use crate::ReportError;

verus! {

/// The one-shot cache of a handle's fetched result. Fresh handles hold
/// nothing; `store` fills it exactly once.
pub struct ResultSlot {
    pub result: Option<TestResult>,
}

impl ResultSlot {
    /// An empty slot: nothing fetched yet.
    pub fn new() -> (r: ResultSlot)
        ensures
            r.result is None,
    {
        ResultSlot { result: None }
    }

    /// Whether the result has been fetched already.
    pub fn is_fetched(&self) -> (r: bool)
        ensures
            r == (self.result is Some),
    {
        self.result.is_some()
    }

    /// Cache the fetched result. Fetching is one-shot: a second store is a
    /// caller bug and is ruled out here rather than tolerated.
    pub fn store(&mut self, result: TestResult)
        requires
            old(self).result is None,
        ensures
            final(self).result == Some(result),
    {
        self.result = Some(result);
    }

    /// The cached result, for reading.
    pub fn result(&self) -> (r: Option<&TestResult>)
        ensures
            match r {
                Some(t) => self.result == Some(*t),
                None => self.result is None,
            },
    {
        self.result.as_ref()
    }

    /// The full text of the report file: the cached result rendered as its
    /// JSON document. Before the result has been fetched this fails with
    /// `ResultNotFetched` and yields no payload at all.
    pub fn write_payload(&self) -> (r: Result<String, ReportError>)
        ensures
            self.result matches Some(t) ==> r is Ok && r->Ok_0@ == json_text(
                test_result_json(t@),
            ),
            self.result is None ==> r == Result::<String, ReportError>::Err(
                ReportError::ResultNotFetched,
            ),
    {
        match self.result.as_ref() {
            Some(t) => {
                let j = to_json(t);
                Ok(json_to_string(&j))
            },
            None => Err(ReportError::ResultNotFetched),
        }
    }
}

/// The file name a report is written under: an identifier in dashed form
/// and the fixed `-result.json` suffix.
pub fn result_file_name(id: &Uuid) -> (r: String)
    ensures
        r@ == id.dashed_form() + "-result.json"@,
{
    let mut s = id.to_dashed_string();
    s.append("-result.json");
    s
}

/// The unified diff of two texts, as the diffing library renders it: a
/// function of the two texts alone.
pub uninterp spec fn diff_of(expected: Seq<char>, actual: Seq<char>) -> Seq<char>;

/// Relies on `similar::TextDiff::from_lines` and
/// `similar::udiff::UnifiedDiff::to_string`: the unified textual diff of
/// the two inputs, a function of the two inputs alone.
#[verifier::external_body]
fn unified_diff(expected: &str, actual: &str) -> (r: String)
    ensures
        r@ == diff_of(expected@, actual@),
{
    similar::TextDiff::from_lines(expected, actual).unified_diff().to_string()
}

/// The structural-equality assertion helper: equal documents pass; unequal
/// documents fail with the unified diff of their renderings as the payload.
pub fn equal_json(expected: &JsonValue, actual: &JsonValue) -> (r: Result<(), String>)
    ensures
        r is Ok <==> expected@ == actual@,
        r is Err ==> r->Err_0@ == diff_of(json_text(expected@), json_text(actual@)),
{
    if json_eq(expected, actual) {
        Ok(())
    } else {
        let e = json_to_string(expected);
        let a = json_to_string(actual);
        Err(unified_diff(e.as_str(), a.as_str()))
    }
}

} // verus!
