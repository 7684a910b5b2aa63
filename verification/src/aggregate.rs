use vstd::prelude::*;
use vstd::arithmetic::mul::lemma_mul_inequality;

use crate::errors::BenchError;
use crate::metrics::RequestMetrics;

verus! {

/// One summary record per (test case, run): the configured identity
/// of the run and the aggregated means of its successful requests.
/// Fractional quantities are in micro-units (millionths).
#[derive(Clone, Debug)]
pub struct BenchmarkResult {
    /// Wall-clock time at which the record was produced, in
    /// milliseconds since the epoch the caller measures by.
    pub timestamp_ms: u64,
    pub model: String,
    pub input_tokens: u32,
    pub output_tokens: u32,
    pub runs: u32,
    /// Number of requests that actually succeeded, which may be less
    /// than the configured concurrency width.
    pub num_concurrent_requests: u32,
    /// Mean TTFT over the successful requests, in micro-milliseconds.
    pub ttft_mean_micro_ms: u128,
    /// Mean TPOT over the successful requests, in micro-milliseconds.
    pub tpot_mean_micro_ms: u128,
    /// Derived throughput, in micro-(tokens per second).
    pub throughput_micro_tps: u128,
}

/// The successful records among a run's outcomes, in order.
pub open spec fn successes_of(outcomes: Seq<Option<RequestMetrics>>) -> Seq<RequestMetrics>
    decreases outcomes.len(),
{
    if outcomes.len() == 0 {
        Seq::empty()
    } else {
        let rest = successes_of(outcomes.take(outcomes.len() - 1));
        match outcomes[outcomes.len() - 1] {
            Some(m) => rest.push(m),
            None => rest,
        }
    }
}

pub open spec fn ttft_sum_of(ms: Seq<RequestMetrics>) -> int
    decreases ms.len(),
{
    if ms.len() == 0 {
        0
    } else {
        ttft_sum_of(ms.take(ms.len() - 1)) + ms[ms.len() - 1].ttft_ms
    }
}

pub open spec fn tpot_sum_of(ms: Seq<RequestMetrics>) -> int
    decreases ms.len(),
{
    if ms.len() == 0 {
        0
    } else {
        tpot_sum_of(ms.take(ms.len() - 1)) + ms[ms.len() - 1].tpot_micro_ms
    }
}

/// Mean TTFT of a non-empty list, in micro-milliseconds, rounded down.
pub open spec fn mean_ttft_micro_of(ms: Seq<RequestMetrics>) -> int {
    (1000000 * ttft_sum_of(ms)) / (ms.len() as int)
}

/// Mean TPOT of a non-empty list, in micro-milliseconds, rounded down.
pub open spec fn mean_tpot_micro_of(ms: Seq<RequestMetrics>) -> int {
    tpot_sum_of(ms) / (ms.len() as int)
}

/// Derived throughput: the per-request token rate implied by the mean
/// TPOT, scaled by the number of requests that completed — zero when
/// the mean TPOT is zero. In micro-(tokens per second): with the mean
/// in micro-milliseconds, `(1000 / mean_ms) * n` scales to
/// `10^15 * n / mean_micro`.
pub open spec fn throughput_micro_of(tpot_mean_micro_ms: int, success_count: int) -> int {
    if tpot_mean_micro_ms > 0 {
        1_000_000_000_000_000 * success_count / tpot_mean_micro_ms
    } else {
        0
    }
}

/// Partitions the outcomes of one run's concurrent requests into the
/// successful metrics records (in order) and a count of failures.
/// Every outcome is one or the other: successes plus failures equal
/// the concurrency width that was launched.
pub fn settle_run(outcomes: &Vec<Option<RequestMetrics>>) -> (r: (Vec<RequestMetrics>, usize))
    ensures
        r.0@ == successes_of(outcomes@),
        r.0@.len() + r.1 == outcomes@.len(),
{
    let mut successes: Vec<RequestMetrics> = Vec::new();
    let mut failed: usize = 0;
    let mut i: usize = 0;
    while i < outcomes.len()
        invariant
            i <= outcomes@.len(),
            successes@ == successes_of(outcomes@.take(i as int)),
            successes@.len() + failed == i,
        decreases outcomes@.len() - i,
    {
        proof {
            assert(outcomes@.take(i as int + 1).take(i as int) =~= outcomes@.take(i as int));
            assert(outcomes@.take(i as int + 1)[i as int] == outcomes@[i as int]);
        }
        match &outcomes[i] {
            Some(m) => {
                successes.push(*m);
            },
            None => {
                failed = failed + 1;
            },
        }
        i = i + 1;
    }
    proof {
        assert(outcomes@.take(outcomes@.len() as int) =~= outcomes@);
    }
    (successes, failed)
}

/// Reduces the successful requests of one (test case, run) into its
/// summary record: arithmetic means over exactly the successful
/// records, the derived throughput, and the identity of the run.
pub fn aggregate(
    successes: &Vec<RequestMetrics>,
    input_tokens: u32,
    output_tokens: u32,
    runs: u32,
    model: String,
    timestamp_ms: u64,
) -> (r: BenchmarkResult)
    requires
        0 < successes@.len() <= 0xFFFF_FFFF,
        forall|i: int| 0 <= i < successes@.len() ==> #[trigger] successes@[i].wf(),
    ensures
        r.timestamp_ms == timestamp_ms,
        r.model@ == model@,
        r.input_tokens == input_tokens,
        r.output_tokens == output_tokens,
        r.runs == runs,
        r.num_concurrent_requests == successes@.len(),
        r.ttft_mean_micro_ms == mean_ttft_micro_of(successes@),
        r.tpot_mean_micro_ms == mean_tpot_micro_of(successes@),
        r.throughput_micro_tps == throughput_micro_of(
            mean_tpot_micro_of(successes@),
            successes@.len() as int,
        ),
{
    let n: usize = successes.len();
    let mut ttft_total: u128 = 0;
    let mut tpot_total: u128 = 0;
    let mut i: usize = 0;
    while i < n
        invariant
            i <= n,
            n == successes@.len() <= 0xFFFF_FFFF,
            forall|k: int| 0 <= k < successes@.len() ==> #[trigger] successes@[k].wf(),
            ttft_total == ttft_sum_of(successes@.take(i as int)),
            tpot_total == tpot_sum_of(successes@.take(i as int)),
            ttft_total <= (i as int) * 0xFFFF_FFFF_FFFF_FFFF,
            tpot_total <= (i as int) * 18_446_744_073_709_551_615_000_000,
        decreases n - i,
    {
        proof {
            assert(successes@.take(i as int + 1).take(i as int) =~= successes@.take(i as int));
            assert(successes@.take(i as int + 1)[i as int] == successes@[i as int]);
            assert(successes@[i as int].wf());
            lemma_mul_inequality(i as int + 1, n as int, 0xFFFF_FFFF_FFFF_FFFF);
            lemma_mul_inequality(n as int, 0xFFFF_FFFF, 0xFFFF_FFFF_FFFF_FFFF);
            lemma_mul_inequality(i as int + 1, n as int, 18_446_744_073_709_551_615_000_000);
            lemma_mul_inequality(n as int, 0xFFFF_FFFF, 18_446_744_073_709_551_615_000_000);
        }
        let m = &successes[i];
        ttft_total = ttft_total + (m.ttft_ms as u128);
        tpot_total = tpot_total + m.tpot_micro_ms;
        i = i + 1;
    }
    proof {
        assert(successes@.take(n as int) =~= successes@);
        lemma_mul_inequality(n as int, 0xFFFF_FFFF, 0xFFFF_FFFF_FFFF_FFFF);
        lemma_mul_inequality(n as int, 0xFFFF_FFFF, 18_446_744_073_709_551_615_000_000);
    }
    let c: u128 = n as u128;
    let ttft_mean_micro_ms: u128 = (1_000_000 * ttft_total) / c;
    let tpot_mean_micro_ms: u128 = tpot_total / c;
    let throughput_micro_tps: u128 = if tpot_mean_micro_ms > 0 {
        (1_000_000_000_000_000 * c) / tpot_mean_micro_ms
    } else {
        0
    };
    BenchmarkResult {
        timestamp_ms,
        model,
        input_tokens,
        output_tokens,
        runs,
        num_concurrent_requests: n as u32,
        ttft_mean_micro_ms,
        tpot_mean_micro_ms,
        throughput_micro_tps,
    }
}

/// A settled (test case, run): its summary record and how many of its
/// concurrent requests failed (reported as a warning by the caller).
#[derive(Clone, Debug)]
pub struct RunOutcome {
    pub result: BenchmarkResult,
    pub failed_count: usize,
}

/// Settles one (test case, run) from the outcomes of its concurrent
/// requests: partitions them, fails the whole run when no request
/// succeeded, and otherwise aggregates exactly the successes.
pub fn run_record(
    outcomes: &Vec<Option<RequestMetrics>>,
    input_tokens: u32,
    output_tokens: u32,
    runs: u32,
    model: String,
    timestamp_ms: u64,
) -> (r: Result<RunOutcome, BenchError>)
    requires
        outcomes@.len() <= 0xFFFF_FFFF,
        forall|i: int| 0 <= i < outcomes@.len() ==> (#[trigger] outcomes@[i] matches Some(m)
            ==> m.wf()),
    ensures
        r is Err <==> successes_of(outcomes@).len() == 0,
        r matches Err(e) ==> e == BenchError::AllRequestsFailed,
        r matches Ok(o) ==> {
            let ss = successes_of(outcomes@);
            &&& o.result.num_concurrent_requests == ss.len()
            &&& o.result.num_concurrent_requests + o.failed_count == outcomes@.len()
            &&& o.result.ttft_mean_micro_ms == mean_ttft_micro_of(ss)
            &&& o.result.tpot_mean_micro_ms == mean_tpot_micro_of(ss)
            &&& o.result.throughput_micro_tps == throughput_micro_of(
                mean_tpot_micro_of(ss),
                ss.len() as int,
            )
            &&& o.result.timestamp_ms == timestamp_ms
            &&& o.result.model@ == model@
            &&& o.result.input_tokens == input_tokens
            &&& o.result.output_tokens == output_tokens
            &&& o.result.runs == runs
        },
{
    proof {
        lemma_successes_wf(outcomes@);
    }
    let (successes, failed_count) = settle_run(outcomes);
    if successes.len() == 0 {
        return Err(BenchError::AllRequestsFailed);
    }
    let result = aggregate(&successes, input_tokens, output_tokens, runs, model, timestamp_ms);
    Ok(RunOutcome { result, failed_count })
}

/// Every record selected from well-formed outcomes is well-formed.
proof fn lemma_successes_wf(outcomes: Seq<Option<RequestMetrics>>)
    requires
        forall|i: int| 0 <= i < outcomes.len() ==> (#[trigger] outcomes[i] matches Some(m)
            ==> m.wf()),
    ensures
        forall|i: int| 0 <= i < successes_of(outcomes).len() ==> #[trigger] successes_of(
            outcomes,
        )[i].wf(),
        successes_of(outcomes).len() <= outcomes.len(),
    decreases outcomes.len(),
{
    if outcomes.len() > 0 {
        let front = outcomes.take(outcomes.len() - 1);
        assert(forall|i: int| 0 <= i < front.len() ==> front[i] == outcomes[i]);
        lemma_successes_wf(front);
    }
}

} // verus!
