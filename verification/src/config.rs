use vstd::prelude::*;
use vstd::arithmetic::div_mod::lemma_fundamental_div_mod_converse;

verus! {

/// One point in the benchmark matrix: a prompt length and a requested
/// generation length, both in tokens.
#[derive(Clone, Copy, Debug, PartialEq, Eq, Structural)]
pub struct TestCase {
    pub input_tokens: u32,
    pub output_tokens: u32,
}

/// The strictly sequential execution order of a benchmark: one entry
/// per (test case, run index), every run of one case before the first
/// run of the next, run indices in order within each case. Each entry
/// must fully settle before the next is dispatched.
pub fn benchmark_schedule(cases: &Vec<TestCase>, runs: u32) -> (r: Vec<(TestCase, u32)>)
    requires
        cases@.len() * runs <= usize::MAX,
    ensures
        r@.len() == cases@.len() * runs,
        forall|idx: int|
            0 <= idx < r@.len() ==> #[trigger] r@[idx] == (
                cases@[idx / (runs as int)],
                (idx % (runs as int)) as u32,
            ),
{
    let mut r: Vec<(TestCase, u32)> = Vec::new();
    let mut c: usize = 0;
    while c < cases.len()
        invariant
            c <= cases@.len(),
            cases@.len() * runs <= usize::MAX,
            r@.len() == c * runs,
            forall|idx: int|
                0 <= idx < r@.len() ==> #[trigger] r@[idx] == (
                    cases@[idx / (runs as int)],
                    (idx % (runs as int)) as u32,
                ),
        decreases cases@.len() - c,
    {
        proof {
            vstd::arithmetic::mul::lemma_mul_inequality(
                c as int + 1,
                cases@.len() as int,
                runs as int,
            );
        }
        let case = cases[c];
        let mut k: u32 = 0;
        while k < runs
            invariant
                k <= runs,
                c < cases@.len(),
                case == cases@[c as int],
                cases@.len() * runs <= usize::MAX,
                (c + 1) * runs <= usize::MAX,
                r@.len() == c * runs + k,
                forall|idx: int|
                    0 <= idx < r@.len() ==> #[trigger] r@[idx] == (
                        cases@[idx / (runs as int)],
                        (idx % (runs as int)) as u32,
                    ),
            decreases runs - k,
        {
            proof {
                assert((c as int) * (runs as int) + runs == (c as int + 1) * (runs as int))
                    by (nonlinear_arith);
                lemma_fundamental_div_mod_converse(
                    (c as int) * (runs as int) + k,
                    runs as int,
                    c as int,
                    k as int,
                );
            }
            r.push((case, k));
            k = k + 1;
        }
        proof {
            assert((c as int) * (runs as int) + runs == (c as int + 1) * (runs as int))
                by (nonlinear_arith);
        }
        c = c + 1;
    }
    r
}

/// Full benchmark configuration. Loading it from a file is the caller's
/// concern; the engine only reads the fields.
#[derive(Clone, Debug)]
pub struct BenchmarkConfig {
    pub base_url: String,
    pub api_key: String,
    pub model: String,
    pub output_prefix_name: String,
    pub output_dir: String,
    pub save_format: String,
    pub stream_writing: bool,
    pub runs: u32,
    pub num_concurrent_requests: u32,
    pub cases: Vec<TestCase>,
}

} // verus!
