//! The outcome of one post-run check an eval case runs after the work is
//! done — a hidden oracle the agent never saw.

use vstd::prelude::*;

use crate::text::owned;

verus! {

/// One post-run check's outcome: a name, whether it passed, and a detail
/// string — for example a command's exit status and output tail.
#[derive(Debug, PartialEq, Eq)]
pub struct CheckResult {
    /// What this check verifies, as it appears in the report.
    pub name: String,
    /// Whether the check passed.
    pub passed: bool,
    /// Detail explaining the outcome.
    pub detail: String,
}

impl Clone for CheckResult {
    fn clone(&self) -> (r: Self)
        ensures
            r.name@ == self.name@,
            r.passed == self.passed,
            r.detail@ == self.detail@,
    {
        CheckResult { name: self.name.clone(), passed: self.passed, detail: self.detail.clone() }
    }
}

impl CheckResult {
    /// A check that passed.
    pub fn passed(name: &str, detail: &str) -> (r: Self)
        ensures
            r.name@ == name@,
            r.passed,
            r.detail@ == detail@,
    {
        CheckResult { name: owned(name), passed: true, detail: owned(detail) }
    }

    /// A check that failed.
    pub fn failed(name: &str, detail: &str) -> (r: Self)
        ensures
            r.name@ == name@,
            !r.passed,
            r.detail@ == detail@,
    {
        CheckResult { name: owned(name), passed: false, detail: owned(detail) }
    }
}

} // verus!
