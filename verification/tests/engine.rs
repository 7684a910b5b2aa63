use perfbench::aggregate::{aggregate, run_record, settle_run};
use perfbench::config::{benchmark_schedule, TestCase};
use perfbench::corpus::{PromptCorpus, PromptSet};
use perfbench::errors::BenchError;
use perfbench::metrics::RequestMetrics;
use perfbench::output::OutputWriter;
use perfbench::protocol::benchmark_request_body;
use perfbench::retry::{backoff_delay_ms, on_attempt_failure, RetryDecision};
use perfbench::stream::StreamParser;

fn metrics(ttft_ms: u64, tpot_ms: u128) -> RequestMetrics {
    RequestMetrics {
        ttft_ms,
        tpot_micro_ms: tpot_ms * 1_000_000,
        total_tokens: 60,
        input_tokens: 10,
        output_tokens: 50,
    }
}

#[test]
fn zero_fragments_zero_metrics() {
    let mut p = StreamParser::new(1_000);
    p.feed_chunk(b"data: {\"choices\":[{\"text\":\"\"}]}\n", 1_200);
    p.feed_chunk(b"data: [DONE]\n", 1_300);
    let m = p.finish(50);
    assert_eq!(m.ttft_ms, 0);
    assert_eq!(m.tpot_micro_ms, 0);
}

#[test]
fn one_fragment_ttft_only() {
    let mut p = StreamParser::new(1_000);
    p.feed_chunk(b"data: {\"choices\":[{\"text\":\"hi\"}]}\n", 1_120);
    p.feed_chunk(b"data: [DONE]\n", 1_500);
    let m = p.finish(50);
    assert_eq!(m.ttft_ms, 120);
    assert_eq!(m.tpot_micro_ms, 0);
}

#[test]
fn intervals_mean_is_tpot() {
    let mut p = StreamParser::new(1_000);
    p.feed_chunk(b"data: {\"choices\":[{\"text\":\"a\"}]}\n", 1_100);
    p.feed_chunk(b"data: {\"choices\":[{\"text\":\"b\"}]}\n", 1_130);
    p.feed_chunk(b"data: {\"choices\":[{\"text\":\"c\"}]}\n", 1_171);
    p.feed_chunk(b"data: [DONE]\n", 1_200);
    let m = p.finish(50);
    assert_eq!(m.ttft_ms, 100);
    // intervals 30 and 41: mean 35.5 ms
    assert_eq!(m.tpot_micro_ms, 35_500_000);
}

#[test]
fn several_lines_in_one_chunk() {
    let mut p = StreamParser::new(0);
    let chunk = b"data: {\"choices\":[{\"text\":\"a\"}]}\r\ndata: {\"choices\":[{\"text\":\"b\"}]}\r\n";
    p.feed_chunk(chunk, 40);
    let m = p.finish(50);
    assert_eq!(m.ttft_ms, 40);
    // both fragments carry the same receipt time: one zero interval
    assert_eq!(m.tpot_micro_ms, 0);
}

#[test]
fn malformed_and_unprefixed_lines_are_skipped() {
    let mut p = StreamParser::new(0);
    p.feed_chunk(b": keep-alive\n\ndata: not json at all\n", 10);
    p.feed_chunk(b"data: {\"choices\":[{\"text\":\"x\"}]}\n", 25);
    p.feed_chunk(b"data: [DONE]\n", 30);
    let m = p.finish(7);
    assert_eq!(m.ttft_ms, 25);
    assert_eq!(m.tpot_micro_ms, 0);
    assert_eq!(m.output_tokens, 7);
    // only the unparseable event payload counts as skipped
    assert_eq!(p.skipped_event_count(), 1);
}

#[test]
fn lines_do_not_span_chunks() {
    // each chunk is split into lines on its own, so an event line cut
    // across two chunks never parses as an event
    let mut p = StreamParser::new(0);
    p.feed_chunk(b"data: {\"choices\":[{\"te", 10);
    p.feed_chunk(b"xt\":\"a\"}]}\n", 20);
    p.feed_chunk(b"data: [DONE]\n", 30);
    let m = p.finish(50);
    assert_eq!(m.ttft_ms, 0);
    assert_eq!(m.tpot_micro_ms, 0);
}

#[test]
fn nothing_counts_after_the_sentinel() {
    let mut p = StreamParser::new(0);
    p.feed_chunk(b"data: {\"choices\":[{\"text\":\"x\"}]}\n", 10);
    p.feed_chunk(b"data: [DONE]\n", 20);
    p.feed_chunk(b"data: {\"choices\":[{\"text\":\"y\"}]}\n", 30);
    let m = p.finish(50);
    assert_eq!(m.ttft_ms, 10);
    assert_eq!(m.tpot_micro_ms, 0);
}

#[test]
fn last_usage_wins_and_is_truncated() {
    let mut p = StreamParser::new(0);
    p.feed_chunk(b"data: {\"usage\":{\"prompt_tokens\":1,\"completion_tokens\":2,\"total_tokens\":3}}\n", 5);
    p.feed_chunk(
        b"data: {\"usage\":{\"prompt_tokens\":8,\"completion_tokens\":9,\"total_tokens\":17}}\n",
        6,
    );
    p.feed_chunk(b"data: [DONE]\n", 7);
    let m = p.finish(50);
    assert_eq!(m.input_tokens, 8);
    assert_eq!(m.output_tokens, 9);
    assert_eq!(m.total_tokens, 17);
}

#[test]
fn oversized_counts_are_truncated_and_missing_fields_default() {
    let mut p = StreamParser::new(0);
    // 4294967299 == 2^32 + 3: only the low 32 bits are kept
    p.feed_chunk(b"data: {\"usage\":{\"prompt_tokens\":4294967299,\"total_tokens\":1}}\n", 5);
    p.feed_chunk(b"data: [DONE]\n", 6);
    let m = p.finish(50);
    assert_eq!(m.input_tokens, 3);
    assert_eq!(m.output_tokens, 0);
    assert_eq!(m.total_tokens, 1);
}

#[test]
fn empty_chunks_change_nothing() {
    let mut p = StreamParser::new(0);
    p.feed_chunk(b"", 1);
    p.feed_chunk(b"\n\r\n", 2);
    let m = p.finish(9);
    assert_eq!(m.ttft_ms, 0);
    assert_eq!(m.tpot_micro_ms, 0);
    assert_eq!(m.total_tokens, 9);
}

#[test]
fn missing_usage_is_synthesised() {
    // requested output length 50, stream never reports usage
    let mut p = StreamParser::new(0);
    p.feed_chunk(b"data: {\"choices\":[{\"text\":\"x\"}]}\n", 10);
    p.feed_chunk(b"data: [DONE]\n", 20);
    let m = p.finish(50);
    assert_eq!(m.input_tokens, 0);
    assert_eq!(m.output_tokens, 50);
    assert_eq!(m.total_tokens, 50);
}

#[test]
fn backoff_doubles_from_100ms() {
    assert_eq!(backoff_delay_ms(0), 100);
    assert_eq!(backoff_delay_ms(1), 200);
    assert_eq!(backoff_delay_ms(2), 400);
    assert_eq!(backoff_delay_ms(3), 800);
}

#[test]
fn retry_policy_gives_up_after_budget() {
    assert_eq!(on_attempt_failure(0, 3), RetryDecision::Retry { delay_ms: 100 });
    assert_eq!(on_attempt_failure(1, 3), RetryDecision::Retry { delay_ms: 200 });
    assert_eq!(on_attempt_failure(2, 3), RetryDecision::Retry { delay_ms: 400 });
    assert_eq!(on_attempt_failure(3, 3), RetryDecision::GiveUp);
}

#[test]
fn successes_plus_failures_equal_width() {
    let outcomes = vec![Some(metrics(100, 20)), None, Some(metrics(110, 22)), None];
    let (successes, failed) = settle_run(&outcomes);
    assert_eq!(successes.len() + failed, 4);
    assert_eq!(successes.len(), 2);
    assert_eq!(failed, 2);
}

#[test]
fn all_four_succeed() {
    // concurrency 4, each request with ttft 120 ms and tpot 30 ms
    let outcomes = vec![
        Some(metrics(120, 30)),
        Some(metrics(120, 30)),
        Some(metrics(120, 30)),
        Some(metrics(120, 30)),
    ];
    let out = run_record(&outcomes, 128, 50, 1, String::from("m"), 7_000).unwrap();
    assert_eq!(out.failed_count, 0);
    let r = out.result;
    assert_eq!(r.num_concurrent_requests, 4);
    assert_eq!(r.ttft_mean_micro_ms, 120_000_000);
    assert_eq!(r.tpot_mean_micro_ms, 30_000_000);
    // (1000 / 30) * 4 tokens per second, in micro-TPS, rounded down
    assert_eq!(r.throughput_micro_tps, 133_333_333);
    assert_eq!(r.timestamp_ms, 7_000);
    assert_eq!(r.model, "m");
    assert_eq!(r.input_tokens, 128);
    assert_eq!(r.output_tokens, 50);
    assert_eq!(r.runs, 1);
}

#[test]
fn all_four_fail() {
    let outcomes: Vec<Option<RequestMetrics>> = vec![None, None, None, None];
    let err = run_record(&outcomes, 128, 50, 1, String::from("m"), 0).unwrap_err();
    assert_eq!(err, BenchError::AllRequestsFailed);
    assert_eq!(err.message(), "All requests failed");
}

#[test]
fn one_failure_aggregates_the_rest() {
    let outcomes = vec![
        Some(metrics(100, 20)),
        None,
        Some(metrics(110, 22)),
        Some(metrics(120, 24)),
    ];
    let out = run_record(&outcomes, 128, 50, 1, String::from("m"), 0).unwrap();
    assert_eq!(out.failed_count, 1);
    let r = out.result;
    assert_eq!(r.num_concurrent_requests, 3);
    assert_eq!(r.ttft_mean_micro_ms, 110_000_000);
    assert_eq!(r.tpot_mean_micro_ms, 22_000_000);
    assert_eq!(r.throughput_micro_tps, 3_000_000_000_000_000 / 22_000_000);
}

#[test]
fn zero_tpot_means_zero_throughput() {
    let outcomes = vec![Some(metrics(120, 0)), Some(metrics(100, 0))];
    let out = run_record(&outcomes, 1, 1, 1, String::from("m"), 0).unwrap();
    assert_eq!(out.result.tpot_mean_micro_ms, 0);
    assert_eq!(out.result.throughput_micro_tps, 0);
}

#[test]
fn aggregate_means_are_exact() {
    let ms = vec![metrics(1, 3), metrics(2, 4)];
    let r = aggregate(&ms, 8, 16, 2, String::from("m"), 42);
    // mean ttft of 1 ms and 2 ms is 1.5 ms
    assert_eq!(r.ttft_mean_micro_ms, 1_500_000);
    assert_eq!(r.tpot_mean_micro_ms, 3_500_000);
    assert_eq!(r.num_concurrent_requests, 2);
}

#[test]
fn corpus_lookup_hits_and_misses() {
    let corpus = PromptCorpus {
        entries: vec![
            PromptSet {
                input_tokens: 128,
                output_tokens: 50,
                prompts: vec![String::from("p0"), String::from("p1")],
            },
        ],
    };
    let prompts = corpus.prompts_for_case(128, 50).unwrap();
    assert_eq!(prompts.len(), 2);
    assert_eq!(prompts[0], "p0");
    let err = corpus.prompts_for_case(256, 50).unwrap_err();
    assert_eq!(err, BenchError::MissingPrompt);
    assert_eq!(err.message(), "No prompts found for case");
}

#[test]
fn request_body_is_fixed_shape() {
    let r = benchmark_request_body(String::from("m"), String::from("p"), 50);
    assert_eq!(r.model, "m");
    assert_eq!(r.prompt, "p");
    assert_eq!(r.max_tokens, 50);
    assert_eq!(r.temperature_milli, 700);
    assert!(r.stream);
    assert!(r.stop.is_none());
    assert_eq!(r.stream_options.unwrap().include_usage, true);
}

#[test]
fn output_writer_keeps_its_fields() {
    let w = OutputWriter::new(String::from("results"), String::from("bench"));
    assert_eq!(w.output_dir, "results");
    assert_eq!(w.output_prefix, "bench");
    assert_eq!(w.output_filename("20240101_000000", "csv"), "bench_20240101_000000.csv");
}

#[test]
fn schedule_is_cases_in_order_with_all_runs() {
    let cases = vec![
        TestCase { input_tokens: 1, output_tokens: 10 },
        TestCase { input_tokens: 2, output_tokens: 20 },
    ];
    let schedule = benchmark_schedule(&cases, 2);
    assert_eq!(schedule.len(), 4);
    assert_eq!(schedule[0], (cases[0], 0));
    assert_eq!(schedule[1], (cases[0], 1));
    assert_eq!(schedule[2], (cases[1], 0));
    assert_eq!(schedule[3], (cases[1], 1));
    assert!(benchmark_schedule(&cases, 0).is_empty());
}
