use vstd::prelude::*;
use vstd::arithmetic::div_mod::{
    lemma_div_is_ordered, lemma_div_multiples_vanish, lemma_div_nonincreasing, lemma_mod_bound,
};
use vstd::arithmetic::mul::lemma_mul_inequality;
use vstd::slice::{slice_index_get, slice_subrange};

use crate::metrics::{lemma_scaled_div, seq_sum, tpot_micro_of, RequestMetrics};
use crate::protocol::Usage;

verus! {

/// The fixed prefix of an event line: the bytes of `"data: "`.
pub open spec fn data_prefix() -> Seq<u8> {
    seq![100u8, 97u8, 116u8, 97u8, 58u8, 32u8]
}

/// The end-of-stream sentinel payload: the bytes of `"[DONE]"`.
pub open spec fn done_payload() -> Seq<u8> {
    seq![91u8, 68u8, 79u8, 78u8, 69u8, 93u8]
}

/// An event line: the fixed prefix followed by a payload.
pub open spec fn is_data_line(line: Seq<u8>) -> bool {
    line.len() >= 6 && line.subrange(0, 6) == data_prefix()
}

/// Index of the first line feed in `s`, or `s.len()` if there is none.
pub open spec fn first_nl(s: Seq<u8>) -> int
    decreases s.len(),
{
    if s.len() == 0 {
        0
    } else if s[0] == 10u8 {
        0
    } else {
        1 + first_nl(s.skip(1))
    }
}

pub proof fn lemma_first_nl_is(s: Seq<u8>, m: int)
    requires
        0 <= m <= s.len(),
        forall|k: int| 0 <= k < m ==> s[k] != 10u8,
        m < s.len() ==> s[m] == 10u8,
    ensures
        first_nl(s) == m,
    decreases s.len(),
{
    if s.len() == 0 {
    } else if m == 0 {
    } else {
        lemma_first_nl_is(s.skip(1), m - 1);
    }
}

/// One trailing carriage return is not part of the line.
pub open spec fn strip_cr(line: Seq<u8>) -> Seq<u8> {
    if line.len() > 0 && line[line.len() - 1] == 13u8 {
        line.take(line.len() - 1)
    } else {
        line
    }
}

/// The lines of one byte chunk: split at line feeds, each line with at
/// most one trailing carriage return removed, the part after the last
/// line feed included as a final line.
pub open spec fn split_lines(s: Seq<u8>) -> Seq<Seq<u8>>
    decreases s.len(),
{
    if s.len() == 0 {
        Seq::empty()
    } else {
        let i = first_nl(s);
        if !(0 <= i < s.len()) {
            seq![strip_cr(s)]
        } else {
            seq![strip_cr(s.take(i))] + split_lines(s.skip(i + 1))
        }
    }
}

/// Token counts as they appear in a stream event, before the
/// engine's defaulting and truncation rules are applied.
#[derive(Clone, Copy, Debug, PartialEq, Eq, Structural)]
pub struct RawUsage {
    pub prompt_tokens: Option<u64>,
    pub completion_tokens: Option<u64>,
    pub total_tokens: Option<u64>,
}

/// What one well-formed stream event carries: the generated-text
/// increment of the first choice (as bytes), if any, and a usage
/// tally, if the event holds one.
#[derive(Clone, Debug)]
pub struct StreamEventData {
    pub text: Option<Vec<u8>>,
    pub usage: Option<RawUsage>,
}

/// Mathematical image of a `StreamEventData`.
pub struct SpecEvent {
    pub text: Option<Seq<u8>>,
    pub usage: Option<RawUsage>,
}

pub open spec fn spec_of_event_data(d: StreamEventData) -> SpecEvent {
    SpecEvent {
        text: match d.text {
            Some(t) => Some(t@),
            None => None,
        },
        usage: d.usage,
    }
}

/// The event, if any, that a given event payload denotes: `None` for
/// bytes that do not parse as a JSON object.
pub uninterp spec fn event_of(payload: Seq<u8>) -> Option<SpecEvent>;

/// Relies on `serde_json::from_slice` and the `Value` accessors `get`,
/// `as_str`, `as_object` and `as_u64`: parsing is a function of the
/// bytes alone, a non-JSON payload fails to parse, and the accessors
/// return the named field of an object (or element of an array) when
/// it has the accessed type. The extraction mirrors the protocol: the
/// text increment is `choices[0].text` when that is a string, and a
/// usage tally is present exactly when `usage` is an object, each of
/// its three counts taken when it is a non-negative integer.
#[verifier::external_body]
fn parse_event(payload: &[u8]) -> (r: Option<StreamEventData>)
    ensures
        (match r {
            None => event_of(payload@) is None,
            Some(d) => event_of(payload@) == Some(spec_of_event_data(d)),
        }),
{
    let v: serde_json::Value = match serde_json::from_slice(payload) {
        Ok(v) => v,
        Err(_) => return None,
    };
    let text = v.get("choices").and_then(|c| c.get(0)).and_then(|c| c.get("text")).and_then(
        |t| t.as_str(),
    ).map(|t| t.as_bytes().to_vec());
    let usage = v.get("usage").and_then(|u| u.as_object()).map(|u| RawUsage {
        prompt_tokens: u.get("prompt_tokens").and_then(|n| n.as_u64()),
        completion_tokens: u.get("completion_tokens").and_then(|n| n.as_u64()),
        total_tokens: u.get("total_tokens").and_then(|n| n.as_u64()),
    });
    Some(StreamEventData { text, usage })
}

/// Abstract state of one request's stream consumption.
pub struct ParserState {
    /// Wall-clock time at which the request was dispatched.
    pub start_ms: u64,
    /// Whether the end-of-stream sentinel has been seen.
    pub done: bool,
    /// Receipt time of the first generated-text fragment, if any.
    pub first_ms: Option<u64>,
    /// Receipt time of the most recent fragment (the dispatch time
    /// while no fragment has arrived).
    pub last_ms: u64,
    /// Inter-fragment intervals, in order of arrival, in milliseconds.
    pub intervals: Seq<u64>,
    /// Last usage tally observed, already defaulted and truncated.
    pub usage: Option<Usage>,
    /// How many event payloads failed to parse and were skipped: a
    /// diagnostic counter only, with no effect on success or failure.
    pub skipped_events: u64,
}

pub open spec fn initial_state(start_ms: u64) -> ParserState {
    ParserState {
        start_ms,
        done: false,
        first_ms: None,
        last_ms: start_ms,
        intervals: Seq::empty(),
        usage: None,
        skipped_events: 0u64,
    }
}

/// Difference of two clock readings, clamped at zero.
pub open spec fn sat_sub_u64(a: u64, b: u64) -> u64 {
    if a >= b {
        (a - b) as u64
    } else {
        0u64
    }
}

/// A count from the wire (64-bit, possibly absent) reduced to the
/// 32-bit field of a `Usage`: absent counts become 0, larger ones are
/// truncated to their low 32 bits.
pub open spec fn spec_count32(n: Option<u64>) -> u32 {
    match n {
        Some(v) => (v % 0x1_0000_0000) as u32,
        None => 0u32,
    }
}

pub open spec fn usage_of_raw(u: RawUsage) -> Usage {
    Usage {
        prompt_tokens: spec_count32(u.prompt_tokens),
        completion_tokens: spec_count32(u.completion_tokens),
        total_tokens: spec_count32(u.total_tokens),
    }
}

/// Timing update for one generated-text fragment received at
/// `now_ms`: the first fragment pins the first-token time, every
/// later one contributes one inter-fragment interval.
pub open spec fn fragment_step(s: ParserState, now_ms: u64) -> ParserState {
    if s.first_ms is None {
        ParserState { first_ms: Some(now_ms), last_ms: now_ms, ..s }
    } else {
        ParserState {
            intervals: s.intervals.push(sat_sub_u64(now_ms, s.last_ms)),
            last_ms: now_ms,
            ..s
        }
    }
}

/// Effect of one well-formed event on the state: a non-empty text
/// increment is a fragment; a usage tally overwrites any earlier one.
pub open spec fn event_step(s: ParserState, e: SpecEvent, now_ms: u64) -> ParserState {
    let timed = match e.text {
        Some(t) => if t.len() > 0 {
            fragment_step(s, now_ms)
        } else {
            s
        },
        None => s,
    };
    match e.usage {
        Some(u) => ParserState { usage: Some(usage_of_raw(u)), ..timed },
        None => timed,
    }
}

/// An unparseable payload is silently skipped; only the diagnostic
/// counter records that it was seen.
pub open spec fn opt_event_step(s: ParserState, e: Option<SpecEvent>, now_ms: u64) -> ParserState {
    match e {
        Some(ev) => event_step(s, ev, now_ms),
        None => ParserState { skipped_events: s.skipped_events.saturating_add(1), ..s },
    }
}

/// Effect of one line on the state. After the sentinel, everything is
/// ignored; lines without the event prefix are ignored; the sentinel
/// payload ends consumption; any other payload is parsed as an event,
/// with unparseable payloads silently skipped.
pub open spec fn line_step(s: ParserState, line: Seq<u8>, now_ms: u64) -> ParserState {
    if s.done {
        s
    } else if !is_data_line(line) {
        s
    } else if line.skip(6) == done_payload() {
        ParserState { done: true, ..s }
    } else {
        opt_event_step(s, event_of(line.skip(6)), now_ms)
    }
}

/// Effect of a sequence of lines, all received at `now_ms`.
pub open spec fn lines_fold(s: ParserState, lines: Seq<Seq<u8>>, now_ms: u64) -> ParserState
    decreases lines.len(),
{
    if lines.len() == 0 {
        s
    } else {
        lines_fold(line_step(s, lines[0], now_ms), lines.skip(1), now_ms)
    }
}

pub proof fn lemma_lines_fold_cons(s: ParserState, a: Seq<u8>, rest: Seq<Seq<u8>>, now_ms: u64)
    ensures
        lines_fold(s, seq![a] + rest, now_ms) == lines_fold(line_step(s, a, now_ms), rest, now_ms),
{
    let all = seq![a] + rest;
    assert(all[0] == a);
    assert(all.skip(1) =~= rest);
}

/// Time to first token of a finished stream: the latency from
/// dispatch to the first fragment, or zero when none arrived.
pub open spec fn ttft_of(s: ParserState) -> u64 {
    match s.first_ms {
        Some(t) => sat_sub_u64(t, s.start_ms),
        None => 0u64,
    }
}

/// Token counts of a finished stream: the last observed tally, or the
/// defined fallback when the stream never carried one — no prompt
/// tokens, and the requested output length for both generated and
/// total tokens.
pub open spec fn final_usage(s: ParserState, requested_output_tokens: u32) -> Usage {
    match s.usage {
        Some(u) => u,
        None => Usage {
            prompt_tokens: 0u32,
            completion_tokens: requested_output_tokens,
            total_tokens: requested_output_tokens,
        },
    }
}

/// A stream run reduced to just its fragment arrivals: the state
/// after the fragments of a request arrive at the given times, in
/// order, with everything else about the stream left unchanged.
pub open spec fn fragments_fold(s: ParserState, times: Seq<u64>) -> ParserState
    decreases times.len(),
{
    if times.len() == 0 {
        s
    } else {
        fragments_fold(fragment_step(s, times[0]), times.skip(1))
    }
}

/// The intervals recorded by fragments arriving at `times` when the
/// previous fragment (or the dispatch) was at `last`.
pub open spec fn interval_seq(last: u64, times: Seq<u64>) -> Seq<u64>
    decreases times.len(),
{
    if times.len() == 0 {
        Seq::empty()
    } else {
        seq![sat_sub_u64(times[0], last)] + interval_seq(times[0], times.skip(1))
    }
}

proof fn lemma_interval_seq_index(last: u64, times: Seq<u64>)
    ensures
        interval_seq(last, times).len() == times.len(),
        forall|i: int|
            0 <= i < times.len() ==> interval_seq(last, times)[i] == sat_sub_u64(
                times[i],
                if i == 0 {
                    last
                } else {
                    times[i - 1]
                },
            ),
    decreases times.len(),
{
    if times.len() > 0 {
        lemma_interval_seq_index(times[0], times.skip(1));
        let s = interval_seq(last, times);
        let rest = interval_seq(times[0], times.skip(1));
        assert forall|i: int| 0 <= i < times.len() implies s[i] == sat_sub_u64(
            times[i],
            if i == 0 {
                last
            } else {
                times[i - 1]
            },
        ) by {
            if i > 0 {
                assert(s[i] == rest[i - 1]);
                assert(times.skip(1)[i - 1] == times[i]);
                if i > 1 {
                    assert(times.skip(1)[i - 2] == times[i - 1]);
                }
            }
        }
    }
}

proof fn lemma_fragments_fold_started(s: ParserState, times: Seq<u64>)
    requires
        s.first_ms is Some,
    ensures
        fragments_fold(s, times).first_ms == s.first_ms,
        fragments_fold(s, times).start_ms == s.start_ms,
        fragments_fold(s, times).done == s.done,
        fragments_fold(s, times).usage == s.usage,
        fragments_fold(s, times).skipped_events == s.skipped_events,
        fragments_fold(s, times).intervals == s.intervals + interval_seq(s.last_ms, times),
    decreases times.len(),
{
    if times.len() == 0 {
        assert(s.intervals + interval_seq(s.last_ms, times) =~= s.intervals);
    } else {
        let s1 = fragment_step(s, times[0]);
        lemma_fragments_fold_started(s1, times.skip(1));
        assert(s1.intervals + interval_seq(s1.last_ms, times.skip(1)) =~= s.intervals
            + interval_seq(s.last_ms, times));
    }
}

/// How the fragment arrival times of one request's stream determine
/// its timing metrics, whatever else the stream carried:
/// - no fragment: TTFT and TPOT are both zero;
/// - at least one fragment: TTFT is the latency from dispatch to the
///   first fragment, and the recorded intervals are exactly the
///   differences of consecutive arrival times, so one single fragment
///   leaves no interval and TPOT zero, while `k >= 2` fragments leave
///   `k - 1` intervals whose mean (in micro-milliseconds, rounded
///   down) is the TPOT.
pub proof fn lemma_fragment_timing(start_ms: u64, times: Seq<u64>)
    ensures
        ({
            let s = fragments_fold(initial_state(start_ms), times);
            &&& times.len() == 0 ==> ttft_of(s) == 0 && tpot_micro_of(s.intervals) == 0
            &&& times.len() >= 1 ==> s.first_ms == Some(times[0]) && ttft_of(s) == sat_sub_u64(
                times[0],
                start_ms,
            )
            &&& s.intervals.len() == if times.len() == 0 {
                0int
            } else {
                times.len() - 1
            }
            &&& times.len() == 1 ==> tpot_micro_of(s.intervals) == 0
            &&& forall|i: int|
                0 <= i < times.len() - 1 ==> s.intervals[i] == sat_sub_u64(
                    times[i + 1],
                    times[i],
                )
        }),
{
    let s0 = initial_state(start_ms);
    if times.len() == 0 {
    } else {
        let s1 = fragment_step(s0, times[0]);
        lemma_fragments_fold_started(s1, times.skip(1));
        lemma_interval_seq_index(times[0], times.skip(1));
        let s = fragments_fold(s0, times);
        assert(s.intervals =~= interval_seq(times[0], times.skip(1)));
        assert forall|i: int| 0 <= i < times.len() - 1 implies s.intervals[i] == sat_sub_u64(
            times[i + 1],
            times[i],
        ) by {
            assert(times.skip(1)[i] == times[i + 1]);
            if i > 0 {
                assert(times.skip(1)[i - 1] == times[i]);
            }
        }
    }
}

/// A non-empty generated-text fragment in an event moves the timing
/// state exactly as `fragment_step` does, whether or not the same
/// event also carries a usage tally.
pub proof fn lemma_event_step_fragment(s: ParserState, e: SpecEvent, now_ms: u64)
    requires
        e.text matches Some(t) && t.len() > 0,
    ensures
        event_step(s, e, now_ms).first_ms == fragment_step(s, now_ms).first_ms,
        event_step(s, e, now_ms).last_ms == fragment_step(s, now_ms).last_ms,
        event_step(s, e, now_ms).intervals == fragment_step(s, now_ms).intervals,
{
}

/// An event without a non-empty fragment leaves the timing state
/// untouched.
pub proof fn lemma_event_step_no_fragment(s: ParserState, e: SpecEvent, now_ms: u64)
    requires
        !(e.text matches Some(t) && t.len() > 0),
    ensures
        event_step(s, e, now_ms).first_ms == s.first_ms,
        event_step(s, e, now_ms).last_ms == s.last_ms,
        event_step(s, e, now_ms).intervals == s.intervals,
{
}

/// Incremental consumer of one request's event stream. Feed it the
/// byte chunks as they arrive, then read the request's metrics off it.
pub struct StreamParser {
    start_ms: u64,
    done: bool,
    first_ms: Option<u64>,
    last_ms: u64,
    intervals: Vec<u64>,
    usage: Option<Usage>,
    skipped_events: u64,
}

impl StreamParser {
    pub closed spec fn model(self) -> ParserState {
        ParserState {
            start_ms: self.start_ms,
            done: self.done,
            first_ms: self.first_ms,
            last_ms: self.last_ms,
            intervals: self.intervals@,
            usage: self.usage,
            skipped_events: self.skipped_events,
        }
    }

    /// How many event payloads this stream has skipped as unparseable.
    pub fn skipped_event_count(&self) -> (n: u64)
        ensures
            n == self.model().skipped_events,
    {
        self.skipped_events
    }

    /// A fresh parser for a request dispatched at `start_ms`.
    pub fn new(start_ms: u64) -> (p: StreamParser)
        ensures
            p.model() == initial_state(start_ms),
    {
        let p = StreamParser {
            start_ms,
            done: false,
            first_ms: None,
            last_ms: start_ms,
            intervals: Vec::new(),
            usage: None,
            skipped_events: 0,
        };
        proof {
            assert(p.model() =~= initial_state(start_ms));
        }
        p
    }

    fn count32(n: Option<u64>) -> (c: u32)
        ensures
            c == spec_count32(n),
    {
        match n {
            Some(v) => (v % 0x1_0000_0000) as u32,
            None => 0u32,
        }
    }

    /// Applies one line of the stream, already split out of its chunk
    /// and stripped of the line ending, received at `now_ms`.
    pub fn process_line(&mut self, line: &[u8], now_ms: u64)
        ensures
            final (self).model() == line_step(old(self).model(), line@, now_ms),
    {
        if self.done {
            return ;
        }
        if line.len() < 6 {
            return ;
        }
        let prefixed = *slice_index_get(line, 0) == 100u8 && *slice_index_get(line, 1) == 97u8
            && *slice_index_get(line, 2) == 116u8 && *slice_index_get(line, 3) == 97u8
            && *slice_index_get(line, 4) == 58u8 && *slice_index_get(line, 5) == 32u8;
        proof {
            assert(forall|k: int| 0 <= k < 6 ==> line@.subrange(0, 6)[k] == line@[k]);
            if prefixed {
                assert(line@.subrange(0, 6) =~= data_prefix());
            } else {
                assert(line@.subrange(0, 6) != data_prefix());
            }
        }
        if !prefixed {
            return ;
        }
        let payload = slice_subrange(line, 6, line.len());
        proof {
            assert(payload@ =~= line@.skip(6));
        }
        let ends = payload.len() == 6 && *slice_index_get(payload, 0) == 91u8 && *slice_index_get(
            payload,
            1,
        ) == 68u8 && *slice_index_get(payload, 2) == 79u8 && *slice_index_get(payload, 3) == 78u8
            && *slice_index_get(payload, 4) == 69u8 && *slice_index_get(payload, 5) == 93u8;
        proof {
            if ends {
                assert(payload@ =~= done_payload());
            } else {
                assert(payload@ != done_payload());
            }
        }
        if ends {
            self.done = true;
            return ;
        }
        let ev = parse_event(payload);
        self.process_event(ev, now_ms);
    }

    /// Consumes one byte chunk of the stream, splitting it into lines
    /// and applying each; the whole chunk is stamped with its receipt
    /// time `now_ms`.
    pub fn feed_chunk(&mut self, chunk: &[u8], now_ms: u64)
        ensures
            final (self).model() == lines_fold(
                old(self).model(),
                split_lines(chunk@),
                now_ms,
            ),
    {
        let ghost m0 = self.model();
        let mut pos: usize = 0;
        proof {
            assert(chunk@.skip(0) =~= chunk@);
        }
        while pos < chunk.len()
            invariant
                pos <= chunk.len(),
                lines_fold(m0, split_lines(chunk@), now_ms) == lines_fold(
                    self.model(),
                    split_lines(chunk@.skip(pos as int)),
                    now_ms,
                ),
            decreases chunk.len() - pos,
        {
            let mut j = pos;
            while j < chunk.len() && *slice_index_get(chunk, j) != 10u8
                invariant
                    pos <= j <= chunk.len(),
                    forall|k: int| pos <= k < j ==> chunk@[k] != 10u8,
                decreases chunk.len() - j,
            {
                j = j + 1;
            }
            let line_end = if j > pos && *slice_index_get(chunk, j - 1) == 13u8 {
                j - 1
            } else {
                j
            };
            let ghost t = chunk@.skip(pos as int);
            let ghost i = j - pos as int;
            proof {
                assert(forall|k: int| 0 <= k < t.len() ==> t[k] == chunk@[pos + k]);
                lemma_first_nl_is(t, i);
                if j < chunk.len() {
                    assert(strip_cr(t.take(i)) =~= chunk@.subrange(
                        pos as int,
                        line_end as int,
                    ));
                    assert(t.skip(i + 1) =~= chunk@.skip(j + 1));
                } else {
                    assert(strip_cr(t) =~= chunk@.subrange(pos as int, line_end as int));
                }
            }
            let line = slice_subrange(chunk, pos, line_end);
            let ghost m_before = self.model();
            self.process_line(line, now_ms);
            proof {
                if j < chunk.len() {
                    lemma_lines_fold_cons(
                        m_before,
                        line@,
                        split_lines(chunk@.skip(j + 1)),
                        now_ms,
                    );
                } else {
                    lemma_lines_fold_cons(m_before, line@, Seq::empty(), now_ms);
                    assert(seq![line@] + Seq::<Seq<u8>>::empty() =~= seq![line@]);
                    assert(split_lines(t) == seq![line@]);
                }
            }
            if j < chunk.len() {
                pos = j + 1;
            } else {
                pos = chunk.len();
                proof {
                    assert(chunk@.skip(pos as int) =~= Seq::<u8>::empty());
                }
            }
        }
        proof {
            assert(chunk@.skip(pos as int) =~= Seq::<u8>::empty());
        }
    }

    /// Closes the stream and produces the request's metrics record:
    /// TTFT from the first fragment (zero when none arrived), the mean
    /// inter-fragment interval in micro-milliseconds (zero when fewer
    /// than two fragments arrived), and the token counts of the last
    /// usage tally, with the defined fallback when none was observed.
    pub fn finish(&self, requested_output_tokens: u32) -> (m: RequestMetrics)
        ensures
            m.ttft_ms == ttft_of(self.model()),
            m.tpot_micro_ms == tpot_micro_of(self.model().intervals),
            m.total_tokens == final_usage(self.model(), requested_output_tokens).total_tokens,
            m.input_tokens == final_usage(self.model(), requested_output_tokens).prompt_tokens,
            m.output_tokens == final_usage(
                self.model(),
                requested_output_tokens,
            ).completion_tokens,
            m.wf(),
    {
        let ttft_ms: u64 = match self.first_ms {
            Some(t) => if t >= self.start_ms {
                t - self.start_ms
            } else {
                0
            },
            None => 0,
        };
        let n: usize = self.intervals.len();
        let mut total: u128 = 0;
        let mut idx: usize = 0;
        while idx < n
            invariant
                idx <= n,
                n == self.intervals@.len(),
                total == seq_sum(self.intervals@.take(idx as int)),
                total <= (idx as int) * 0xFFFF_FFFF_FFFF_FFFF,
            decreases n - idx,
        {
            let x = self.intervals[idx];
            proof {
                let pre = self.intervals@.take(idx as int + 1);
                assert(pre.take(idx as int) =~= self.intervals@.take(idx as int));
                assert(pre[idx as int] == self.intervals@[idx as int]);
                lemma_mul_inequality(idx as int + 1, n as int, 0xFFFF_FFFF_FFFF_FFFF);
                lemma_mul_inequality(
                    n as int,
                    0xFFFF_FFFF_FFFF_FFFF,
                    0xFFFF_FFFF_FFFF_FFFF,
                );
            }
            total = total + (x as u128);
            idx = idx + 1;
        }
        proof {
            assert(self.intervals@.take(n as int) =~= self.intervals@);
        }
        let tpot_micro_ms: u128 = if n == 0 {
            0u128
        } else {
            let c: u128 = n as u128;
            let q: u128 = total / c;
            let r: u128 = total % c;
            proof {
                let ci = n as int;
                let si = total as int;
                lemma_mod_bound(si, ci);
                lemma_div_is_ordered(si, ci * 0xFFFF_FFFF_FFFF_FFFF, ci);
                lemma_div_multiples_vanish(0xFFFF_FFFF_FFFF_FFFF, ci);
                lemma_mul_inequality(q as int, 0xFFFF_FFFF_FFFF_FFFF, 1000000);
                lemma_mul_inequality(r as int, 0xFFFF_FFFF_FFFF_FFFF, 1000000);
                lemma_div_nonincreasing((r as int) * 1000000, ci);
                lemma_scaled_div(si, ci);
                assert(1000000 * si <= ci * 18446744073709551615000000) by (nonlinear_arith)
                    requires
                        si <= ci * 0xFFFF_FFFF_FFFF_FFFF,
                        0 < ci,
                ;
                lemma_div_is_ordered(
                    1000000 * si,
                    ci * 18446744073709551615000000,
                    ci,
                );
                lemma_div_multiples_vanish(18446744073709551615000000, ci);
            }
            q * 1_000_000 + (r * 1_000_000) / c
        };
        let u: Usage = match self.usage {
            Some(u) => u,
            None => Usage {
                prompt_tokens: 0,
                completion_tokens: requested_output_tokens,
                total_tokens: requested_output_tokens,
            },
        };
        RequestMetrics {
            ttft_ms,
            tpot_micro_ms,
            total_tokens: u.total_tokens,
            input_tokens: u.prompt_tokens,
            output_tokens: u.completion_tokens,
        }
    }

    /// Applies one already-parsed event (`None` for a payload that was
    /// not valid JSON, which is silently skipped) received at `now_ms`.
    pub fn process_event(&mut self, ev: Option<StreamEventData>, now_ms: u64)
        ensures
            final (self).model() == opt_event_step(
                old(self).model(),
                (match ev {
                    Some(d) => Some(spec_of_event_data(d)),
                    None => None,
                }),
                now_ms,
            ),
    {
        match ev {
            None => {
                self.skipped_events = self.skipped_events.saturating_add(1);
            },
            Some(d) => {
                let has_fragment = match &d.text {
                    Some(t) => t.len() > 0,
                    None => false,
                };
                if has_fragment {
                    if self.first_ms.is_none() {
                        self.first_ms = Some(now_ms);
                        self.last_ms = now_ms;
                    } else {
                        let interval = if now_ms >= self.last_ms {
                            now_ms - self.last_ms
                        } else {
                            0
                        };
                        self.intervals.push(interval);
                        self.last_ms = now_ms;
                    }
                }
                match d.usage {
                    Some(u) => {
                        self.usage = Some(
                            Usage {
                                prompt_tokens: Self::count32(u.prompt_tokens),
                                completion_tokens: Self::count32(u.completion_tokens),
                                total_tokens: Self::count32(u.total_tokens),
                            },
                        );
                    },
                    None => {},
                }
            },
        }
    }
}

} // verus!
