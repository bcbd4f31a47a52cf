use unified_ai::accumulator::ToolFragment;
use unified_ai::decode::{
    add_capped, decode_parsed, decode_record, decode_record_noting, decode_records, is_done_payload,
    strip_data_prefix, Backend,
};
use unified_ai::delta::Delta;
use unified_ai::frame::Grammar;
use unified_ai::json::{Field, Json};
use unified_ai::providers::anthropic::stream as anthropic;
use unified_ai::providers::ollama::stream as ollama;
use unified_ai::providers::openai::stream as openai;
use unified_ai::providers::openrouter::stream as openrouter;
use unified_ai::types::{Function, TokenUsage, ToolCall};

fn object(fields: Vec<(&str, Json)>) -> Json {
    Json::Object(fields.into_iter().map(|(k, v)| Field { name: k.to_string(), value: v }).collect())
}

fn text(s: &str) -> Delta {
    Delta::TextFragment(s.to_string())
}

fn fragment(position: usize, id: Option<&str>, name: Option<&str>, chunk: Option<&str>) -> Delta {
    Delta::ToolFragment(ToolFragment {
        position,
        id: id.map(|s| s.to_string()),
        name: name.map(|s| s.to_string()),
        argument_chunk: chunk.map(|s| s.to_string()),
    })
}

fn usage(p: u32, c: u32, t: u32) -> Delta {
    Delta::UsageInfo(TokenUsage { prompt_tokens: Some(p), completion_tokens: Some(c), total_tokens: Some(t) })
}

#[test]
fn backends_have_their_grammar() {
    assert_eq!(Backend::Ollama.grammar(), Grammar::NewlineJson);
    assert_eq!(Backend::Anthropic.grammar(), Grammar::EventStream);
    assert_eq!(Backend::OpenAI.grammar(), Grammar::EventStream);
    assert_eq!(Backend::OpenRouter.grammar(), Grammar::EventStream);
}

#[test]
fn the_data_prefix_is_exact() {
    assert_eq!(strip_data_prefix(b"data: {}"), Some(&b"{}"[..]));
    assert_eq!(strip_data_prefix(b"data: "), Some(&b""[..]));
    assert_eq!(strip_data_prefix(b"data:{}"), None);
    assert_eq!(strip_data_prefix(b"Data: {}"), None);
    assert_eq!(strip_data_prefix(b"event: x"), None);
    assert_eq!(strip_data_prefix(b"data"), None);
    assert_eq!(strip_data_prefix(b""), None);
}

#[test]
fn the_sentinel_may_have_blanks_around_it() {
    assert!(is_done_payload(b"[DONE]"));
    assert!(is_done_payload(b"  [DONE]\r"));
    assert!(is_done_payload(b"\t[DONE] \n"));
    assert!(!is_done_payload(b"[DONE"));
    assert!(!is_done_payload(b"[done]"));
    assert!(!is_done_payload(b"[DONE] x"));
    assert!(!is_done_payload(b"[ DONE]"));
    assert!(!is_done_payload(b""));
    assert!(!is_done_payload(b"   "));
}

#[test]
fn ollama_lines_decode_to_text_calls_usage_and_end() {
    assert_eq!(
        decode_record(Backend::Ollama, b"{\"message\":{\"role\":\"assistant\",\"content\":\"Hel\"},\"done\":false}"),
        vec![text("Hel")]
    );
    assert_eq!(
        decode_record(
            Backend::Ollama,
            b"{\"message\":{\"role\":\"assistant\",\"content\":\"\"},\"done\":true,\"prompt_eval_count\":12,\"eval_count\":30}"
        ),
        vec![usage(12, 30, 42), Delta::Terminal]
    );
    let line = b"{\"message\":{\"role\":\"assistant\",\"content\":\"\",\"tool_calls\":[{\"function\":{\"name\":\"get_weather\",\"arguments\":{\"city\":\"Oslo\"}}},{\"id\":\"7\",\"function\":{\"name\":\"broken\"}}]},\"done\":false}";
    assert_eq!(
        decode_record(Backend::Ollama, line),
        vec![Delta::CompleteCall(ToolCall {
            id: None,
            function: Function {
                name: "get_weather".to_string(),
                arguments: object(vec![("city", Json::Str("Oslo".to_string()))]),
            },
        })]
    );
}

#[test]
fn ollama_usage_with_one_count_has_no_total() {
    let line = b"{\"message\":{\"content\":\"x\"},\"done\":false,\"eval_count\":4294967295}";
    assert_eq!(
        decode_record(Backend::Ollama, line),
        vec![
            Delta::UsageInfo(TokenUsage {
                prompt_tokens: None,
                completion_tokens: Some(4294967295),
                total_tokens: None,
            }),
            text("x"),
        ]
    );
    let line = b"{\"message\":{\"content\":\"\"},\"done\":false,\"prompt_eval_count\":1,\"eval_count\":4294967295}";
    assert_eq!(
        decode_record(Backend::Ollama, line),
        vec![Delta::UsageInfo(TokenUsage {
            prompt_tokens: Some(1),
            completion_tokens: Some(4294967295),
            total_tokens: None,
        })]
    );
    let line = b"{\"message\":{\"content\":\"\"},\"done\":false,\"eval_count\":4294967296}";
    assert!(decode_record(Backend::Ollama, line).is_empty());
}

#[test]
fn an_ollama_line_needs_no_more_than_a_message_and_the_flag() {
    assert_eq!(decode_record(Backend::Ollama, b"{\"message\":{\"role\":\"assistant\"},\"done\":true}"), vec![Delta::Terminal]);
    assert_eq!(decode_record(Backend::Ollama, b"{\"message\":{\"content\":7},\"done\":true}"), vec![Delta::Terminal]);
    assert!(decode_record(Backend::Ollama, b"{\"message\":{},\"done\":false}").is_empty());
    assert_eq!(decode_record(Backend::Ollama, b"{\"message\":null,\"done\":true,\"more\":[1]}"), vec![Delta::Terminal]);
}

#[test]
fn ollama_lines_of_another_shape_give_nothing() {
    assert!(decode_record(Backend::Ollama, b"not json").is_empty());
    assert!(decode_record(Backend::Ollama, b"{\"message\":{\"content\":\"x\"}}").is_empty());
    assert!(decode_record(Backend::Ollama, b"{\"done\":true}").is_empty());
    assert!(decode_record(Backend::Ollama, b"{\"message\":{\"content\":\"x\"},\"done\":1}").is_empty());
    assert!(decode_record(Backend::Ollama, b"data: [DONE]").is_empty());
    assert!(decode_record(Backend::Ollama, b"[1,2]").is_empty());
}

#[test]
fn openai_chunks_decode_to_text_fragments_and_usage() {
    let chunk = b"data: {\"id\":\"c\",\"object\":\"chat.completion.chunk\",\"created\":1,\"model\":\"m\",\"choices\":[{\"index\":0,\"delta\":{\"content\":\"Hi\"},\"finish_reason\":null}]}";
    assert_eq!(decode_record(Backend::OpenAI, chunk), vec![text("Hi")]);
    let chunk = b"data: {\"choices\":[{\"index\":0,\"delta\":{\"tool_calls\":[{\"index\":0,\"id\":\"call_1\",\"type\":\"function\",\"function\":{\"name\":\"f\",\"arguments\":\"\"}},{\"function\":{\"arguments\":\"{\\\"a\\\"\"}},{\"id\":\"\"}]}}]}";
    assert_eq!(
        decode_record(Backend::OpenAI, chunk),
        vec![fragment(0, Some("call_1"), Some("f"), Some("")), fragment(1, None, None, Some("{\"a\""))]
    );
    let chunk = b"data: {\"choices\":[],\"usage\":{\"prompt_tokens\":5,\"completion_tokens\":6,\"total_tokens\":11}}";
    assert_eq!(decode_record(Backend::OpenAI, chunk), vec![usage(5, 6, 11)]);
    let chunk = b"data: {\"choices\":[{\"delta\":{},\"finish_reason\":\"stop\"}]}";
    assert!(decode_record(Backend::OpenAI, chunk).is_empty());
    assert_eq!(decode_record(Backend::OpenAI, b"data: [DONE]"), vec![Delta::Terminal]);
}

#[test]
fn openai_reads_only_the_first_choice() {
    let chunk = b"data: {\"choices\":[{\"delta\":{\"content\":\"a\"}},{\"delta\":{\"content\":\"b\"}}]}";
    assert_eq!(decode_record(Backend::OpenAI, chunk), vec![text("a")]);
}

#[test]
fn event_stream_lines_without_payload_give_nothing() {
    for backend in [Backend::OpenAI, Backend::OpenRouter, Backend::Anthropic] {
        assert!(decode_record(backend, b"event: message_stop").is_empty());
        assert!(decode_record(backend, b"{\"choices\":[]}").is_empty());
        assert!(decode_record(backend, b"data: {broken").is_empty());
        assert!(decode_record(backend, b"data: ").is_empty());
        assert!(decode_record(backend, b"data: 17").is_empty());
        assert_eq!(decode_record(backend, b"data:  [DONE] "), vec![Delta::Terminal]);
    }
}

#[test]
fn openrouter_chunks_end_on_a_finish_reason() {
    let chunk = b"data: {\"id\":\"g\",\"choices\":[{\"delta\":{\"content\":\"bye\"},\"finish_reason\":\"stop\"}],\"usage\":{\"prompt_tokens\":1,\"completion_tokens\":2,\"total_tokens\":3}}";
    assert_eq!(decode_record(Backend::OpenRouter, chunk), vec![usage(1, 2, 3), text("bye"), Delta::Terminal]);
    let chunk = b"data: {\"choices\":[{\"delta\":{\"content\":\"\"},\"finish_reason\":\"\"}]}";
    assert!(decode_record(Backend::OpenRouter, chunk).is_empty());
    let chunk = b"data: {\"choices\":[{\"delta\":{\"tool_calls\":[{\"id\":\"t\"},{\"function\":{\"name\":\"n\",\"arguments\":\"{}\"}},7]}}]}";
    assert_eq!(
        decode_record(Backend::OpenRouter, chunk),
        vec![fragment(0, Some("t"), None, None), fragment(1, None, Some("n"), Some("{}"))]
    );
}

#[test]
fn usage_needs_all_three_counts() {
    let chunk = b"data: {\"choices\":[],\"usage\":{\"prompt_tokens\":5,\"completion_tokens\":6}}";
    assert!(decode_record(Backend::OpenAI, chunk).is_empty());
    assert!(decode_record(Backend::OpenRouter, chunk).is_empty());
    let chunk = b"data: {\"choices\":[],\"usage\":{\"prompt_tokens\":5,\"completion_tokens\":-6,\"total_tokens\":1}}";
    assert!(decode_record(Backend::OpenAI, chunk).is_empty());
}

#[test]
fn anthropic_events_decode_by_their_type() {
    assert_eq!(
        decode_record(
            Backend::Anthropic,
            b"data: {\"type\":\"content_block_delta\",\"index\":0,\"delta\":{\"type\":\"text_delta\",\"text\":\"Hello\"}}"
        ),
        vec![text("Hello")]
    );
    assert_eq!(
        decode_record(
            Backend::Anthropic,
            b"data: {\"type\":\"content_block_start\",\"index\":1,\"content_block\":{\"type\":\"tool_use\",\"id\":\"toolu_1\",\"name\":\"get_weather\",\"input\":{}}}"
        ),
        vec![fragment(1, Some("toolu_1"), Some("get_weather"), None)]
    );
    assert_eq!(
        decode_record(
            Backend::Anthropic,
            b"data: {\"type\":\"content_block_delta\",\"index\":1,\"delta\":{\"type\":\"input_json_delta\",\"partial_json\":\"{\\\"city\\\":\"}}"
        ),
        vec![fragment(1, None, None, Some("{\"city\":"))]
    );
    assert_eq!(
        decode_record(
            Backend::Anthropic,
            b"data: {\"type\":\"message_start\",\"message\":{\"id\":\"m\",\"usage\":{\"input_tokens\":10,\"output_tokens\":1}}}"
        ),
        vec![usage(10, 1, 11)]
    );
    assert_eq!(
        decode_record(
            Backend::Anthropic,
            b"data: {\"type\":\"message_delta\",\"delta\":{\"stop_reason\":\"end_turn\",\"usage\":{\"input_tokens\":10,\"output_tokens\":25}}}"
        ),
        vec![usage(10, 25, 35)]
    );
    assert_eq!(decode_record(Backend::Anthropic, b"data: {\"type\":\"message_stop\"}"), vec![Delta::Terminal]);
}

#[test]
fn anthropic_events_of_other_types_give_nothing() {
    for line in [
        &b"data: {\"type\":\"ping\"}"[..],
        b"data: {\"type\":\"content_block_stop\",\"index\":0}",
        b"data: {\"type\":\"error\",\"error\":{\"type\":\"overloaded_error\",\"message\":\"busy\"}}",
        b"data: {\"type\":\"content_block_start\",\"index\":0,\"content_block\":{\"type\":\"text\",\"text\":\"\"}}",
        b"data: {\"type\":\"content_block_delta\",\"delta\":{\"type\":\"text_delta\",\"text\":\"no index\"}}",
        b"data: {\"type\":\"content_block_delta\",\"index\":0,\"delta\":{\"type\":\"text_delta\",\"text\":\"\"}}",
        b"data: {\"type\":\"something_new\",\"field\":1}",
        b"data: {\"type\":\"message_delta\",\"delta\":{\"stop_reason\":\"end_turn\"}}",
        b"data: {\"no_type\":true}",
    ] {
        assert!(decode_record(Backend::Anthropic, line).is_empty(), "{:?}", String::from_utf8_lossy(line));
    }
}

#[test]
fn decode_parsed_gives_nothing_for_nothing() {
    for backend in [Backend::Ollama, Backend::Anthropic, Backend::OpenAI, Backend::OpenRouter] {
        assert!(decode_parsed(backend, None).is_empty());
        assert!(decode_parsed(backend, Some(Json::Null)).is_empty());
    }
    let value = object(vec![("type", Json::Str("message_stop".to_string()))]);
    assert_eq!(decode_parsed(Backend::Anthropic, Some(value.clone())), vec![Delta::Terminal]);
    assert!(decode_parsed(Backend::OpenAI, Some(value)).is_empty());
}

#[test]
fn the_typed_readers_read_their_shapes() {
    let value = Json::parse(b"{\"prompt_tokens\":1,\"completion_tokens\":2,\"total_tokens\":3}").unwrap();
    let read = openai::OpenAIUsage::from_json(&value).unwrap();
    assert_eq!(read, openai::OpenAIUsage { prompt_tokens: 1, completion_tokens: 2, total_tokens: 3 });
    assert_eq!(
        read.to_token_usage(),
        TokenUsage { prompt_tokens: Some(1), completion_tokens: Some(2), total_tokens: Some(3) }
    );
    assert_eq!(
        openrouter::OpenRouterUsage::from_json(&value),
        Some(openrouter::OpenRouterUsage { prompt_tokens: 1, completion_tokens: 2, total_tokens: 3 })
    );
    assert_eq!(anthropic::Usage::from_json(&value), None);
    let value = Json::parse(b"{\"input_tokens\":4294967295,\"output_tokens\":1}").unwrap();
    let read = anthropic::Usage::from_json(&value).unwrap();
    assert_eq!(
        read.to_token_usage(),
        TokenUsage { prompt_tokens: Some(4294967295), completion_tokens: Some(1), total_tokens: None }
    );
    let value = Json::parse(b"{\"id\":\"a\",\"type\":\"function\",\"function\":{\"name\":\"n\",\"arguments\":\"{}\"}}").unwrap();
    assert_eq!(
        openai::OpenAIToolCall::from_json(&value),
        Some(openai::OpenAIToolCall {
            id: Some("a".to_string()),
            call_type: Some("function".to_string()),
            function: openai::OpenAIFunction { name: Some("n".to_string()), arguments: Some("{}".to_string()) },
        })
    );
    assert_eq!(openai::OpenAIToolCall::from_json(&Json::parse(b"{\"id\":\"a\"}").unwrap()), None);
    assert_eq!(
        openrouter::OpenRouterToolCall::from_json(&Json::parse(b"{\"id\":\"a\"}").unwrap()),
        Some(openrouter::OpenRouterToolCall { id: Some("a".to_string()), call_type: None, function: None })
    );
    assert_eq!(openrouter::OpenRouterToolCall::from_json(&Json::Int(1)), None);
    let value = Json::parse(b"{\"type\":\"input_json_delta\",\"partial_json\":\"{\"}").unwrap();
    assert_eq!(
        anthropic::Delta::from_json(&value),
        Some(anthropic::Delta::InputJsonDelta { partial_json: "{".to_string() })
    );
    assert_eq!(anthropic::Delta::from_json(&Json::parse(b"{\"type\":\"text_delta\"}").unwrap()), None);
    let value = Json::parse(b"{\"stop_reason\":\"end_turn\",\"stop_sequence\":null}").unwrap();
    assert_eq!(
        anthropic::MessageDelta::from_json(&value),
        anthropic::MessageDelta { stop_reason: Some("end_turn".to_string()), stop_sequence: None, usage: None }
    );
    let value = Json::parse(b"{\"type\":\"overloaded_error\",\"message\":\"busy\"}").unwrap();
    assert_eq!(
        anthropic::ApiError::from_json(&value),
        Some(anthropic::ApiError { error_type: "overloaded_error".to_string(), message: "busy".to_string() })
    );
    assert_eq!(anthropic::ApiError::from_json(&Json::Null), None);
    let value = Json::parse(b"{\"function\":{\"name\":\"n\",\"arguments\":[1]}}").unwrap();
    assert_eq!(
        ollama::read_complete_call(&value),
        Some(ToolCall { id: None, function: Function { name: "n".to_string(), arguments: Json::Array(vec![Json::Int(1)]) } })
    );
}

#[test]
fn a_record_with_a_payload_that_is_no_json_is_noted_as_malformed() {
    assert_eq!(decode_record_noting(Backend::Ollama, b"not json"), (vec![], true));
    assert_eq!(decode_record_noting(Backend::Ollama, b"{\"other\":1}"), (vec![], false));
    assert_eq!(decode_record_noting(Backend::OpenAI, b"data: {oops"), (vec![], true));
    assert_eq!(decode_record_noting(Backend::OpenAI, b"data: "), (vec![], true));
    assert_eq!(decode_record_noting(Backend::OpenAI, b"data: [DONE]"), (vec![Delta::Terminal], false));
    assert_eq!(decode_record_noting(Backend::OpenAI, b"event: ping"), (vec![], false));
    assert_eq!(decode_record_noting(Backend::OpenAI, b"{oops"), (vec![], false));
    let records = vec![
        b"data: {\"choices\":[{\"delta\":{\"content\":\"a\"}}]}".to_vec(),
        b"data: {".to_vec(),
        b"data: }".to_vec(),
        b"data: {\"choices\":[{\"delta\":{\"content\":\"b\"}}]}".to_vec(),
    ];
    assert_eq!(decode_records(Backend::OpenRouter, &records), (vec![text("a"), text("b")], 2));
    assert_eq!(decode_records(Backend::OpenRouter, &vec![]), (vec![], 0));
}

#[test]
fn counts_stay_at_the_largest_number() {
    assert_eq!(add_capped(2, 3), 5);
    assert_eq!(add_capped(usize::MAX, 0), usize::MAX);
    assert_eq!(add_capped(usize::MAX - 1, 1), usize::MAX);
    assert_eq!(add_capped(usize::MAX - 1, 2), usize::MAX);
    assert_eq!(add_capped(usize::MAX, usize::MAX), usize::MAX);
}
