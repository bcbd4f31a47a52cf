use regex::Regex;
use unified_ai::fallback::{call_from_parsed, call_from_value, FallbackToolHandler, ToolMode};
use unified_ai::json::{Field, Json};
use unified_ai::text::is_whitespace;
use unified_ai::types::{Function, Tool, ToolCall};

fn object(fields: Vec<(&str, Json)>) -> Json {
    Json::Object(fields.into_iter().map(|(k, v)| Field { name: k.to_string(), value: v }).collect())
}

fn call(name: &str, arguments: Json) -> ToolCall {
    ToolCall { id: None, function: Function { name: name.to_string(), arguments } }
}

#[test]
fn marker_round_trip() {
    let text = "Sure! <tool_call>{\"function\":{\"name\":\"f\",\"arguments\":{}}}</tool_call> done";
    let (visible, calls) = FallbackToolHandler::process_fallback_response(text);
    assert_eq!(visible, "Sure!  done");
    assert_eq!(calls, Some(vec![call("f", Json::Object(vec![]))]));
    assert_eq!(
        FallbackToolHandler::parse_fallback_tool_calls(text),
        Some(vec![call("f", Json::Object(vec![]))])
    );
}

#[test]
fn dangling_marker_is_stripped() {
    let (visible, calls) = FallbackToolHandler::process_fallback_response("Let me check. <tool_call>");
    assert_eq!(visible, "Let me check.");
    assert_eq!(calls, None);
    let (visible, calls) = FallbackToolHandler::process_fallback_response("  Let me check.\n<tool_call> \n\t ");
    assert_eq!(visible, "Let me check.");
    assert_eq!(calls, None);
    assert_eq!(FallbackToolHandler::parse_fallback_tool_calls("Let me check. <tool_call>"), None);
}

#[test]
fn a_marker_that_text_follows_is_not_dangling() {
    let (visible, calls) = FallbackToolHandler::process_fallback_response("a <tool_call> {\"function\"");
    assert_eq!(visible, "a <tool_call> {\"function\"");
    assert_eq!(calls, None);
}

#[test]
fn several_calls_come_out_in_order() {
    let text = "First <tool_call>\n{\"function\": {\"name\": \"a\", \"arguments\": {\"x\": 1}}}\n</tool_call> then <tool_call>{\"function\":{\"name\":\"b\",\"arguments\":[true]}}</tool_call> and the rest of it.";
    let (visible, calls) = FallbackToolHandler::process_fallback_response(text);
    assert_eq!(visible, "First  then  and the rest of it.");
    assert_eq!(
        calls,
        Some(vec![
            call("a", object(vec![("x", Json::Int(1))])),
            call("b", Json::Array(vec![Json::Bool(true)])),
        ])
    );
}

#[test]
fn a_short_rest_is_replaced_by_the_acknowledgement() {
    let text = "ok <tool_call>{\"function\":{\"name\":\"f\",\"arguments\":{}}}</tool_call>";
    let (visible, calls) = FallbackToolHandler::process_fallback_response(text);
    assert_eq!(visible, "I'll help you with that.");
    assert_eq!(calls.map(|c| c.len()), Some(1));
    let nine = "123456789<tool_call>{\"function\":{\"name\":\"f\",\"arguments\":{}}}</tool_call>";
    assert_eq!(FallbackToolHandler::process_fallback_response(nine).0, "I'll help you with that.");
    let ten = "1234567890<tool_call>{\"function\":{\"name\":\"f\",\"arguments\":{}}}</tool_call>";
    assert_eq!(FallbackToolHandler::process_fallback_response(ten).0, "1234567890");
}

#[test]
fn the_threshold_counts_bytes() {
    let text = "\u{e9}\u{e9}\u{e9}\u{e9}\u{e9}<tool_call>{\"function\":{\"name\":\"f\",\"arguments\":{}}}</tool_call>";
    assert_eq!(FallbackToolHandler::process_fallback_response(text).0, "\u{e9}\u{e9}\u{e9}\u{e9}\u{e9}");
    let text = "\u{e9}\u{e9}\u{e9}\u{e9}<tool_call>{\"function\":{\"name\":\"f\",\"arguments\":{}}}</tool_call>";
    assert_eq!(FallbackToolHandler::process_fallback_response(text).0, "I'll help you with that.");
}

#[test]
fn a_wrapped_text_that_is_no_call_is_left_in_place() {
    let text = "before <tool_call>not json</tool_call> after";
    let (visible, calls) = FallbackToolHandler::process_fallback_response(text);
    assert_eq!(visible, text);
    assert_eq!(calls, None);
    let text = "x <tool_call>{\"function\":{\"name\":\"f\"}}</tool_call> y";
    assert_eq!(FallbackToolHandler::parse_fallback_tool_calls(text), None);
    let text = "x <tool_call>{\"function\":{\"name\":7,\"arguments\":{}}}</tool_call> y";
    assert_eq!(FallbackToolHandler::parse_fallback_tool_calls(text), None);
}

#[test]
fn one_good_call_removes_every_wrapped_span() {
    let text = "Here it is: <tool_call>oops</tool_call> and <tool_call>{\"function\":{\"name\":\"f\",\"arguments\":null}}</tool_call> finished.";
    let (visible, calls) = FallbackToolHandler::process_fallback_response(text);
    assert_eq!(visible, "Here it is:  and  finished.");
    assert_eq!(calls, Some(vec![call("f", Json::Null)]));
}

#[test]
fn text_without_markers_is_only_trimmed() {
    let (visible, calls) = FallbackToolHandler::process_fallback_response(" \n plain answer \u{a0}\t");
    assert_eq!(visible, "plain answer");
    assert_eq!(calls, None);
    let (visible, calls) = FallbackToolHandler::process_fallback_response("");
    assert_eq!(visible, "");
    assert_eq!(calls, None);
}

#[test]
fn an_opening_marker_pairs_with_the_first_closing_marker_after_it() {
    let text = "</tool_call><tool_call><tool_call>{\"function\":{\"name\":\"f\",\"arguments\":{}}}</tool_call></tool_call> trailing words";
    let (visible, calls) = FallbackToolHandler::process_fallback_response(text);
    assert_eq!(calls, None);
    assert_eq!(visible, text);
}

#[test]
fn call_from_value_reads_name_and_arguments() {
    let value = object(vec![(
        "function",
        object(vec![("name", Json::Str("f".to_string())), ("arguments", Json::Int(1)), ("more", Json::Null)]),
    )]);
    assert_eq!(call_from_value(&value), Some(call("f", Json::Int(1))));
    assert_eq!(call_from_parsed(Some(value)), Some(call("f", Json::Int(1))));
    assert_eq!(call_from_parsed(None), None);
    assert_eq!(call_from_value(&Json::Null), None);
    assert_eq!(call_from_value(&object(vec![("function", Json::Str("f".to_string()))])), None);
}

fn by_pattern(content: &str) -> (String, Option<Vec<ToolCall>>) {
    let spans = Regex::new(r"(?s)<tool_call>(.*?)</tool_call>").unwrap();
    let calls: Vec<ToolCall> = spans
        .captures_iter(content)
        .filter_map(|c| call_from_parsed(Json::parse_str(c.get(1).unwrap().as_str().trim())))
        .collect();
    if !calls.is_empty() {
        let cleaned = spans.replace_all(content, "").trim().to_string();
        let visible = if cleaned.len() < 10 { "I'll help you with that.".to_string() } else { cleaned };
        (visible, Some(calls))
    } else {
        let dangling = Regex::new(r"<tool_call>\s*$").unwrap();
        (dangling.replace_all(content, "").trim().to_string(), None)
    }
}

fn wrap(name: &str) -> String {
    format!("<tool_call>{{\"function\":{{\"name\":\"{}\",\"arguments\":{{}}}}}}</tool_call>", name)
}

#[test]
fn the_scanner_finds_the_spans_that_the_pattern_finds() {
    let pieces = ["<tool_call>", "</tool_call>", " ", "text that is long enough", "\n", ""];
    let good = wrap("g");
    let mut inputs: Vec<String> = Vec::new();
    for a in 0..pieces.len() {
        for b in 0..pieces.len() {
            for c in 0..pieces.len() {
                inputs.push(format!("{}{}{}{}{}", pieces[a], good, pieces[b], good, pieces[c]));
                inputs.push(format!("{}{}{}{}", good, pieces[a], pieces[b], pieces[c]));
                inputs.push(format!("{}{}{}", pieces[a], pieces[b], pieces[c]));
            }
        }
    }
    let mut with_calls = 0;
    let mut without_calls = 0;
    for input in inputs {
        let expected = by_pattern(&input);
        if expected.1.is_some() {
            with_calls += 1;
        } else {
            without_calls += 1;
        }
        assert_eq!(FallbackToolHandler::process_fallback_response(&input), expected, "{:?}", input);
        assert_eq!(FallbackToolHandler::parse_fallback_tool_calls(&input), expected.1, "{:?}", input);
    }
    assert!(with_calls > 100 && without_calls > 100);
}

#[test]
fn the_dangling_rule_agrees_with_the_pattern() {
    let inputs = [
        "<tool_call>",
        "a<tool_call>  ",
        "a <tool_call>\u{2003}\n",
        "a <tool_call> b",
        "<tool_call><tool_call>",
        "<tool_call> <tool_call> ",
        "a <tool_call",
        "tool_call>",
        "\u{3000}x\u{3000}",
        "x <tool_call>\u{200b}",
    ];
    for input in inputs {
        let expected = by_pattern(input);
        assert_eq!(expected.1, None);
        assert_eq!(FallbackToolHandler::process_fallback_response(input), expected, "{:?}", input);
    }
}

#[test]
fn white_space_is_what_the_standard_library_calls_white_space() {
    for code in 0u32..=0x10FFFF {
        if let Some(c) = char::from_u32(code) {
            assert_eq!(is_whitespace(c), c.is_whitespace(), "U+{:04X}", code);
        }
    }
}

#[test]
fn the_tool_context_lists_every_tool_between_header_and_footer() {
    assert_eq!(FallbackToolHandler::generate_tool_context(&[]), "");
    let tools = vec![
        Tool {
            name: "get_weather".to_string(),
            description: "Weather of a place".to_string(),
            parameters: object(vec![("type", Json::Str("object".to_string()))]),
        },
        Tool { name: "now".to_string(), description: "The time".to_string(), parameters: Json::Null },
    ];
    let context = FallbackToolHandler::generate_tool_context(&tools);
    let expected = String::from("\n\nYou have access to the following tools. When you need to use a tool, respond with:\n\n<tool_call>\n{\"function\": {\"name\": \"function_name\", \"arguments\": {\"param1\": \"value1\", \"param2\": \"value2\"}}}\n</tool_call>\n\nAvailable tools:\n\n")
        + "get_weather: Weather of a place\nParameters schema: {\n  \"type\": \"object\"\n}\n\n"
        + "now: The time\nParameters schema: null\n\n"
        + "When using tools, wrap the JSON in <tool_call></tool_call> tags as shown above. Don't feel obligated to use tool calls if it doesn't make sense to do so or you weren't instructed. Normally you'll want to present your results to the user after making a tool call, as the user doesn't know the result, unless explicitly told otherwise (example: the user wants many consecutive tool calls).\n";
    assert_eq!(context, expected);
}

#[test]
fn native_mode_leaves_the_answer_as_it_is() {
    let text = " keep <tool_call>{\"function\":{\"name\":\"f\",\"arguments\":{}}}</tool_call> ";
    assert_eq!(FallbackToolHandler::process_response(ToolMode::Native, text), (text.to_string(), None));
    assert_eq!(
        FallbackToolHandler::process_response(ToolMode::Fallback, text),
        FallbackToolHandler::process_fallback_response(text)
    );
    assert_eq!(FallbackToolHandler::process_response(ToolMode::Fallback, text).0, "I'll help you with that.");
    assert_eq!(ToolMode::decide(true), ToolMode::Native);
    assert_eq!(ToolMode::decide(false), ToolMode::Fallback);
    assert!(ToolMode::Fallback.is_fallback());
    assert!(!ToolMode::Native.is_fallback());
}
