use vstd::prelude::*;

verus! {

/// The two fatal conditions the engine itself can raise. Transport
/// failures of single requests are represented by an absent metrics
/// record, not by a variant here: they are contained by the retry
/// policy and never abort the whole benchmark on their own.
#[derive(Clone, Copy, Debug, PartialEq, Eq, Structural)]
pub enum BenchError {
    /// The prompt corpus has no entry for a requested test case.
    MissingPrompt,
    /// Every concurrent request of one run failed after retries.
    AllRequestsFailed,
}

impl BenchError {
    /// A human-readable description of the error.
    pub fn message(&self) -> (m: &'static str)
        ensures
            *self is MissingPrompt ==> m@ == "No prompts found for case"@,
            *self is AllRequestsFailed ==> m@ == "All requests failed"@,
    {
        match self {
            BenchError::MissingPrompt => "No prompts found for case",
            BenchError::AllRequestsFailed => "All requests failed",
        }
    }
}

} // verus!
