use unified_ai::json::Json;
use unified_ai::providers::openrouter::processor::{
    push_item_events, OpenRouterStreamOptions, OpenRouterStreamProcessor, StreamEvent, StreamOptions,
};
use unified_ai::types::{ChatStreamItem, Function, TokenUsage, ToolCall};

fn counts(p: u32, c: u32, t: u32) -> TokenUsage {
    TokenUsage { prompt_tokens: Some(p), completion_tokens: Some(c), total_tokens: Some(t) }
}

const STREAM: &[u8] = b": OPENROUTER PROCESSING\n\ndata: {\"id\":\"gen\",\"choices\":[{\"delta\":{\"role\":\"assistant\",\"content\":\"Let me\"}}]}\n\ndata: {\"id\":\"gen\",\"choices\":[{\"delta\":{\"content\":\"\",\"tool_calls\":[{\"id\":\"call_a\",\"type\":\"function\",\"function\":{\"name\":\"lookup\",\"arguments\":\"{\\\"q\\\": \"}}]}}]}\n\ndata: {\"id\":\"gen\",\"choices\":[{\"delta\":{\"tool_calls\":[{\"function\":{\"arguments\":\"\\\"x\\\", \\\"n\\\": 2}\"}}]}}]}\n\ndata: {\"id\":\"gen\",\"choices\":[{\"delta\":{\"content\":\"\"},\"finish_reason\":\"tool_calls\"}],\"usage\":{\"prompt_tokens\":3,\"completion_tokens\":4,\"total_tokens\":7}}\n\ndata: [DONE]\n\n";

fn expected() -> Vec<StreamEvent> {
    vec![
        StreamEvent::Content("Let me".to_string()),
        StreamEvent::ToolCall {
            id: "call_a".to_string(),
            name: "lookup".to_string(),
            arguments: "{\"n\":2,\"q\":\"x\"}".to_string(),
        },
        StreamEvent::Usage(counts(3, 4, 7)),
        StreamEvent::Done,
    ]
}

fn run(chunks: &[&[u8]]) -> Vec<StreamEvent> {
    let mut processor = OpenRouterStreamProcessor::new();
    let mut events = Vec::new();
    for chunk in chunks {
        events.extend(processor.process_chunk(chunk));
    }
    events.extend(processor.finish());
    assert!(processor.process_chunk(b"data: {\"choices\":[{\"delta\":{\"content\":\"late\"}}]}\n\n").is_empty());
    assert!(processor.finish().is_empty());
    events
}

#[test]
fn a_stream_becomes_content_a_call_usage_and_done() {
    assert_eq!(run(&[STREAM]), expected());
}

#[test]
fn the_processor_ignores_where_chunks_are_cut() {
    for at in 0..=STREAM.len() {
        assert_eq!(run(&[&STREAM[..at], &STREAM[at..]]), expected(), "split at {}", at);
    }
    let bytewise: Vec<&[u8]> = STREAM.chunks(1).collect();
    assert_eq!(run(&bytewise), expected());
}

#[test]
fn a_stream_that_breaks_off_still_ends_with_done() {
    assert_eq!(run(&[]), vec![StreamEvent::Done]);
    assert_eq!(
        run(&[b"data: {\"choices\":[{\"delta\":{\"content\":\"a\"}}]}\n\ndata: {\"choices\":[{\"delta\":{\"content\":\"b\"}}]}"]),
        vec![StreamEvent::Content("a".to_string()), StreamEvent::Content("b".to_string()), StreamEvent::Done]
    );
}

#[test]
fn an_item_is_flattened_in_the_order_usage_text_calls_done() {
    let call = |id: Option<&str>, arguments: Json| ToolCall {
        id: id.map(|s| s.to_string()),
        function: Function { name: "f".to_string(), arguments },
    };
    let mut events = vec![StreamEvent::Done];
    push_item_events(
        &mut events,
        ChatStreamItem {
            content: "text".to_string(),
            tool_calls: Some(vec![call(Some("1"), Json::Null), call(None, Json::Array(vec![Json::Bool(false)]))]),
            done: true,
            usage: Some(counts(1, 2, 3)),
        },
    );
    assert_eq!(
        events,
        vec![
            StreamEvent::Done,
            StreamEvent::Usage(counts(1, 2, 3)),
            StreamEvent::Content("text".to_string()),
            StreamEvent::ToolCall { id: "1".to_string(), name: "f".to_string(), arguments: "null".to_string() },
            StreamEvent::ToolCall { id: "".to_string(), name: "f".to_string(), arguments: "[false]".to_string() },
            StreamEvent::Done,
        ]
    );
    let mut events = Vec::new();
    push_item_events(&mut events, ChatStreamItem { content: String::new(), tool_calls: None, done: false, usage: None });
    assert!(events.is_empty());
}

#[test]
fn stream_options_go_to_the_wire_unchanged() {
    assert_eq!(StreamOptions { include_usage: true }.to_wire(), OpenRouterStreamOptions { include_usage: true });
    assert_eq!(StreamOptions { include_usage: false }.to_wire(), OpenRouterStreamOptions { include_usage: false });
}
