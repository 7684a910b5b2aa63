use vstd::prelude::*;

verus! {

/// Base delay of the exponential backoff, in milliseconds.
pub const RETRY_BASE_DELAY_MS: u64 = 100;

/// Retry budget used for benchmark requests: a request is attempted at
/// most `DEFAULT_MAX_RETRIES + 1` times.
pub const DEFAULT_MAX_RETRIES: u32 = 3;

/// Largest attempt index whose backoff delay still fits in a `u64`
/// number of milliseconds.
pub const MAX_BACKOFF_EXPONENT: u32 = 57;

pub open spec fn pow2(e: nat) -> nat
    decreases e,
{
    if e == 0 {
        1
    } else {
        2 * pow2((e - 1) as nat)
    }
}

pub proof fn lemma_pow2_increases(a: nat, b: nat)
    requires
        a <= b,
    ensures
        pow2(a) <= pow2(b),
    decreases b,
{
    if a < b {
        lemma_pow2_increases(a, (b - 1) as nat);
    }
}

/// What the retry policy does after a failed attempt.
#[derive(Clone, Copy, Debug, PartialEq, Eq, Structural)]
pub enum RetryDecision {
    /// Wait for `delay_ms` milliseconds, then attempt again.
    Retry { delay_ms: u64 },
    /// The budget is exhausted: propagate the failure from this attempt.
    GiveUp,
}

/// Backoff delay before the attempt that follows failed attempt
/// `attempt` (0-indexed): `RETRY_BASE_DELAY_MS * 2^attempt`, with no
/// jitter and no cap.
pub fn backoff_delay_ms(attempt: u32) -> (delay: u64)
    requires
        attempt <= MAX_BACKOFF_EXPONENT,
    ensures
        delay == RETRY_BASE_DELAY_MS * pow2(attempt as nat),
{
    proof {
        assert(pow2(57) == 0x200000000000000) by {
            reveal_with_fuel(pow2, 58);
        }
    }
    let mut delay: u64 = RETRY_BASE_DELAY_MS;
    let mut i: u32 = 0;
    while i < attempt
        invariant
            i <= attempt <= MAX_BACKOFF_EXPONENT,
            delay == RETRY_BASE_DELAY_MS * pow2(i as nat),
            pow2(57) == 0x200000000000000,
        decreases attempt - i,
    {
        proof {
            lemma_pow2_increases((i + 1) as nat, 57nat);
        }
        delay = delay * 2;
        i = i + 1;
    }
    delay
}

/// Decision after failed attempt `attempt` (0-indexed) out of a budget
/// of `max_retries` retries: retry with exponential backoff while
/// attempts remain, otherwise give up and let the caller propagate the
/// failure it just observed.
pub fn on_attempt_failure(attempt: u32, max_retries: u32) -> (d: RetryDecision)
    requires
        attempt <= max_retries,
        max_retries <= MAX_BACKOFF_EXPONENT,
    ensures
        attempt < max_retries ==> d == (RetryDecision::Retry {
            delay_ms: (RETRY_BASE_DELAY_MS * pow2(attempt as nat)) as u64,
        }),
        attempt == max_retries ==> d == RetryDecision::GiveUp,
{
    if attempt < max_retries {
        let delay_ms = backoff_delay_ms(attempt);
        RetryDecision::Retry { delay_ms }
    } else {
        RetryDecision::GiveUp
    }
}

} // verus!
