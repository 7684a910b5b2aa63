use vstd::prelude::*;
use vstd::arithmetic::div_mod::{
    lemma_fundamental_div_mod, lemma_fundamental_div_mod_converse, lemma_mod_bound,
};

verus! {

/// Sum of a sequence of millisecond intervals.
pub open spec fn seq_sum(s: Seq<u64>) -> int
    decreases s.len(),
{
    if s.len() == 0 {
        0
    } else {
        seq_sum(s.take(s.len() - 1)) + s[s.len() - 1]
    }
}

/// Mean of the intervals in micro-milliseconds, rounded down; zero
/// when there is no interval at all.
pub open spec fn tpot_micro_of(intervals: Seq<u64>) -> int {
    if intervals.len() == 0 {
        0
    } else {
        (MICRO_PER_MS * seq_sum(intervals)) / (intervals.len() as int)
    }
}

/// Scaling a quotient: the scaled floor division decomposes into the
/// scaled whole part plus the floor of the scaled remainder.
pub proof fn lemma_scaled_div(s: int, c: int)
    requires
        0 <= s,
        0 < c,
    ensures
        (1000000 * s) / c == 1000000 * (s / c) + (1000000 * (s % c)) / c,
{
    let q = s / c;
    let r = s % c;
    lemma_fundamental_div_mod(s, c);
    lemma_mod_bound(s, c);
    let q2 = (1000000 * r) / c;
    let r2 = (1000000 * r) % c;
    lemma_fundamental_div_mod(1000000 * r, c);
    lemma_mod_bound(1000000 * r, c);
    assert(1000000 * s == (1000000 * q + q2) * c + r2) by (nonlinear_arith)
        requires
            s == c * q + r,
            1000000 * r == c * q2 + r2,
    ;
    lemma_fundamental_div_mod_converse(1000000 * s, c, 1000000 * q + q2, r2);
}

/// One millisecond in the micro-millisecond fixed-point scale used for
/// fractional metric values.
pub const MICRO_PER_MS: u128 = 1_000_000;

/// Upper bound on a per-request mean interval in micro-milliseconds:
/// the mean of `u64` millisecond intervals never exceeds `u64::MAX`,
/// so scaling by `MICRO_PER_MS` stays below this limit.
pub const TPOT_MICRO_LIMIT: u128 = 18_446_744_073_709_551_615_000_000;

/// Result of one fully drained request stream. Fractional quantities
/// are held in micro-milliseconds (millionths of a millisecond) so
/// that every value is an exactly specified integer.
#[derive(Clone, Copy, Debug, PartialEq, Eq, Structural)]
pub struct RequestMetrics {
    /// Time to first token, in whole milliseconds.
    pub ttft_ms: u64,
    /// Mean inter-token interval, in micro-milliseconds, rounded down.
    pub tpot_micro_ms: u128,
    pub total_tokens: u32,
    pub input_tokens: u32,
    pub output_tokens: u32,
}

impl RequestMetrics {
    /// Every record the stream parser produces satisfies this bound;
    /// the aggregator relies on it to rule out overflow.
    pub open spec fn wf(self) -> bool {
        self.tpot_micro_ms <= TPOT_MICRO_LIMIT
    }
}

} // verus!
