use vstd::prelude::*;

use crate::errors::BenchError;

verus! {

/// The prompts of one test case, one per run index.
#[derive(Clone, Debug)]
pub struct PromptSet {
    pub input_tokens: u32,
    pub output_tokens: u32,
    pub prompts: Vec<String>,
}

pub open spec fn entry_matches(e: PromptSet, input_tokens: u32, output_tokens: u32) -> bool {
    e.input_tokens == input_tokens && e.output_tokens == output_tokens
}

/// The prompt corpus: for each test case, the ordered prompts of its
/// runs. Built by the external prompt generator; the engine only
/// reads it.
#[derive(Clone, Debug)]
pub struct PromptCorpus {
    pub entries: Vec<PromptSet>,
}

impl PromptCorpus {
    /// Whether the corpus holds prompts for the given test case.
    pub open spec fn has_case(self, input_tokens: u32, output_tokens: u32) -> bool {
        exists|k: int|
            0 <= k < self.entries@.len() && entry_matches(
                #[trigger] self.entries@[k],
                input_tokens,
                output_tokens,
            )
    }

    /// The prompts of one test case, or the fatal missing-prompt
    /// error when the corpus has no entry for it.
    pub fn prompts_for_case(&self, input_tokens: u32, output_tokens: u32) -> (r: Result<
        &Vec<String>,
        BenchError,
    >)
        ensures
            r is Ok <==> self.has_case(input_tokens, output_tokens),
            r matches Ok(v) ==> exists|k: int|
                0 <= k < self.entries@.len() && entry_matches(
                    #[trigger] self.entries@[k],
                    input_tokens,
                    output_tokens,
                ) && v@ == self.entries@[k].prompts@,
            r matches Err(e) ==> e == BenchError::MissingPrompt,
    {
        let mut i: usize = 0;
        while i < self.entries.len()
            invariant
                i <= self.entries@.len(),
                forall|k: int|
                    0 <= k < i ==> !entry_matches(
                        #[trigger] self.entries@[k],
                        input_tokens,
                        output_tokens,
                    ),
            decreases self.entries@.len() - i,
        {
            let e = &self.entries[i];
            if e.input_tokens == input_tokens && e.output_tokens == output_tokens {
                return Ok(&e.prompts);
            }
            i = i + 1;
        }
        Err(BenchError::MissingPrompt)
    }
}

} // verus!
