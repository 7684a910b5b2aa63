use vstd::prelude::*;

verus! {

/// Sampling temperature sent with every request, in thousandths: the
/// service receives the fixed constant 0.7.
pub const TEMPERATURE_MILLI: u32 = 700;

/// Streaming options of a completion request.
#[derive(Clone, Copy, Debug, PartialEq, Eq, Structural)]
pub struct StreamOptions {
    pub include_usage: bool,
}

/// Body of one completion request. The temperature is carried in
/// thousandths so the record stays in integer arithmetic; the transport
/// layer scales it back before serialising.
#[derive(Clone, Debug)]
pub struct CompletionRequest {
    pub model: String,
    pub prompt: String,
    pub max_tokens: u32,
    pub temperature_milli: u32,
    pub stream: bool,
    pub stop: Option<String>,
    pub stream_options: Option<StreamOptions>,
}

/// Builds the body of one benchmark request: streaming enabled, usage
/// reporting requested, fixed temperature, no stop sequence.
pub fn benchmark_request_body(model: String, prompt: String, max_tokens: u32) -> (r:
    CompletionRequest)
    ensures
        r.model@ == model@,
        r.prompt@ == prompt@,
        r.max_tokens == max_tokens,
        r.temperature_milli == TEMPERATURE_MILLI,
        r.stream,
        r.stop is None,
        r.stream_options == Some(StreamOptions { include_usage: true }),
{
    CompletionRequest {
        model,
        prompt,
        max_tokens,
        temperature_milli: TEMPERATURE_MILLI,
        stream: true,
        stop: None,
        stream_options: Some(StreamOptions { include_usage: true }),
    }
}

/// Final token-count tally of one request, as reported by the service
/// (or synthesised when the service never reported one).
#[derive(Clone, Copy, Debug, PartialEq, Eq, Structural)]
pub struct Usage {
    pub prompt_tokens: u32,
    pub completion_tokens: u32,
    pub total_tokens: u32,
}

/// One choice of a non-streaming completion response.
#[derive(Clone, Debug)]
pub struct Choice {
    pub text: String,
    pub index: u32,
    pub finish_reason: Option<String>,
}

/// A complete (non-streaming) completion response.
#[derive(Clone, Debug)]
pub struct CompletionResponse {
    pub id: String,
    pub object: String,
    pub created: u64,
    pub model: String,
    pub choices: Vec<Choice>,
    pub usage: Option<Usage>,
}

} // verus!
