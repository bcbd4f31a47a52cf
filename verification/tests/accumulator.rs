use unified_ai::accumulator::{promote, PendingToolCall, ToolCallAccumulator, ToolFragment};
use unified_ai::json::{Field, Json};
use unified_ai::types::{Function, ToolCall};

fn fragment(position: usize, id: Option<&str>, name: Option<&str>, chunk: Option<&str>) -> ToolFragment {
    ToolFragment {
        position,
        id: id.map(|s| s.to_string()),
        name: name.map(|s| s.to_string()),
        argument_chunk: chunk.map(|s| s.to_string()),
    }
}

fn object(fields: Vec<(&str, Json)>) -> Json {
    Json::Object(fields.into_iter().map(|(k, v)| Field { name: k.to_string(), value: v }).collect())
}

#[test]
fn argument_fragments_reassemble_into_one_call() {
    let mut split = ToolCallAccumulator::new();
    assert_eq!(split.accept(fragment(0, Some("c1"), Some("f"), Some("{\"a\":1"))), None);
    let from_two = split.accept(fragment(0, None, None, Some(",\"b\":2}")));
    let expected = ToolCall {
        id: Some("c1".to_string()),
        function: Function {
            name: "f".to_string(),
            arguments: object(vec![("a", Json::Int(1)), ("b", Json::Int(2))]),
        },
    };
    assert_eq!(from_two, Some(expected.clone()));
    assert_eq!(split.len(), 0);
    assert!(split.drain().is_empty());

    let mut whole = ToolCallAccumulator::new();
    let from_one = whole.accept(fragment(0, Some("c1"), Some("f"), Some("{\"a\":1,\"b\":2}")));
    assert_eq!(from_one, Some(expected));
    assert_eq!(whole.len(), 0);
}

#[test]
fn the_first_id_and_the_first_name_win() {
    let mut accumulator = ToolCallAccumulator::new();
    assert_eq!(accumulator.accept(fragment(3, Some("x"), None, Some("{"))), None);
    assert_eq!(accumulator.accept(fragment(3, Some("y"), Some("first"), None)), None);
    assert_eq!(accumulator.accept(fragment(3, None, Some("second"), None)), None);
    let call = accumulator.accept(fragment(3, Some("z"), None, Some("}"))).unwrap();
    assert_eq!(call.id.as_deref(), Some("x"));
    assert_eq!(call.function.name, "first");
    assert_eq!(call.function.arguments, Json::Object(vec![]));
}

#[test]
fn a_call_without_a_name_has_the_empty_name_and_keeps_no_id() {
    let mut accumulator = ToolCallAccumulator::new();
    let call = accumulator.accept(fragment(0, None, None, Some("[1]"))).unwrap();
    assert_eq!(call.id, None);
    assert_eq!(call.function.name, "");
    assert_eq!(call.function.arguments, Json::Array(vec![Json::Int(1)]));
}

#[test]
fn positions_accumulate_apart() {
    let mut accumulator = ToolCallAccumulator::new();
    assert_eq!(accumulator.accept(fragment(0, Some("a"), Some("f"), Some("{\"x\":"))), None);
    assert_eq!(accumulator.accept(fragment(1, Some("b"), Some("g"), Some("{\"y\":"))), None);
    assert_eq!(accumulator.len(), 2);
    let second = accumulator.accept(fragment(1, None, None, Some("2}"))).unwrap();
    assert_eq!(second.id.as_deref(), Some("b"));
    assert_eq!(second.function.name, "g");
    assert_eq!(second.function.arguments, object(vec![("y", Json::Int(2))]));
    assert_eq!(accumulator.len(), 1);
    assert_eq!(accumulator.entry(0).position, 0);
    let first = accumulator.accept(fragment(0, None, None, Some("1}"))).unwrap();
    assert_eq!(first.id.as_deref(), Some("a"));
    assert_eq!(first.function.arguments, object(vec![("x", Json::Int(1))]));
    assert_eq!(accumulator.len(), 0);
}

#[test]
fn a_position_starts_anew_after_its_call_was_completed() {
    let mut accumulator = ToolCallAccumulator::new();
    assert!(accumulator.accept(fragment(0, Some("one"), Some("f"), Some("{}"))).is_some());
    assert_eq!(accumulator.accept(fragment(0, Some("two"), Some("g"), Some("{\"k\""))), None);
    let call = accumulator.accept(fragment(0, None, None, Some(":null}"))).unwrap();
    assert_eq!(call.id.as_deref(), Some("two"));
    assert_eq!(call.function.name, "g");
    assert_eq!(call.function.arguments, object(vec![("k", Json::Null)]));
}

#[test]
fn merge_keeps_and_settle_decides() {
    let mut accumulator = ToolCallAccumulator::new();
    let slot = accumulator.merge(fragment(5, Some("id"), Some("f"), Some("{\"a\":")));
    assert_eq!(slot, 0);
    assert_eq!(accumulator.merge(fragment(7, None, None, None)), 1);
    assert_eq!(accumulator.merge(fragment(5, None, None, Some("1}"))), 0);
    assert_eq!(accumulator.find(5), Some(0));
    assert_eq!(accumulator.find(7), Some(1));
    assert_eq!(accumulator.find(6), None);
    assert_eq!(
        accumulator.entry(0),
        &PendingToolCall {
            position: 5,
            id: Some("id".to_string()),
            name: Some("f".to_string()),
            argument_buffer: "{\"a\":1}".to_string(),
        }
    );
    assert_eq!(accumulator.settle(5, None), None);
    assert_eq!(accumulator.len(), 2);
    assert_eq!(accumulator.settle(6, Some(Json::Null)), None);
    assert_eq!(accumulator.len(), 2);
    let call = accumulator.settle(5, Some(Json::Bool(true))).unwrap();
    assert_eq!(call.function.arguments, Json::Bool(true));
    assert_eq!(call.id.as_deref(), Some("id"));
    assert_eq!(accumulator.len(), 1);
    assert_eq!(accumulator.entry(0).position, 7);
}

#[test]
fn promote_builds_the_call_only_from_a_parsed_value() {
    let entry = PendingToolCall {
        position: 0,
        id: None,
        name: Some("n".to_string()),
        argument_buffer: "ignored".to_string(),
    };
    assert_eq!(promote(entry.clone(), None), None);
    assert_eq!(
        promote(entry, Some(Json::Int(4))),
        Some(ToolCall { id: None, function: Function { name: "n".to_string(), arguments: Json::Int(4) } })
    );
}

#[test]
fn drain_yields_the_call_of_a_complete_fragment_when_the_stream_ends_abruptly() {
    let mut accumulator = ToolCallAccumulator::new();
    accumulator.merge(fragment(0, Some("call_9"), Some("lookup"), Some("{\"q\":\"rust\"}")));
    let calls = accumulator.drain();
    assert_eq!(
        calls,
        vec![ToolCall {
            id: Some("call_9".to_string()),
            function: Function {
                name: "lookup".to_string(),
                arguments: object(vec![("q", Json::Str("rust".to_string()))]),
            },
        }]
    );
    assert_eq!(accumulator.len(), 0);
}

#[test]
fn drain_drops_what_does_not_parse_and_keeps_the_order() {
    let mut accumulator = ToolCallAccumulator::new();
    accumulator.merge(fragment(2, Some("a"), Some("f"), Some("{\"x\":1}")));
    accumulator.merge(fragment(0, Some("b"), Some("g"), Some("{\"broken\":")));
    accumulator.merge(fragment(1, Some("c"), Some("h"), Some("[]")));
    let calls = accumulator.drain();
    assert_eq!(calls.len(), 2);
    assert_eq!(calls[0].id.as_deref(), Some("a"));
    assert_eq!(calls[1].id.as_deref(), Some("c"));
    assert_eq!(calls[1].function.arguments, Json::Array(vec![]));
    assert_eq!(accumulator.len(), 0);
    assert!(accumulator.drain().is_empty());
}
