use unified_ai::collect::{collect_response, ResponseCollector};
use unified_ai::json::Json;
use unified_ai::fallback::{add_context, prepare_messages};
use unified_ai::providers::ollama::client::{
    attach_images, decode_generate_line, decode_progress_line, encode_image, read_completion,
    read_generate, read_progress, supports_tools_template, tool_response_message, GenerateLine,
};
use unified_ai::providers::ollama::types::{read_model_info, ListModelsResponse, Model};
use unified_ai::tools::{find_tool, missing_tool_message};
use unified_ai::types::{ChatStreamItem, Function, Message, ModelInfo, PullProgress, Tool, ToolCall};

fn message(role: &str, content: &str) -> Message {
    Message { role: role.to_string(), content: content.to_string(), images: None, tool_calls: None }
}

fn call(name: &str) -> ToolCall {
    ToolCall { id: None, function: Function { name: name.to_string(), arguments: Json::Null } }
}

fn item(content: &str, calls: Option<Vec<ToolCall>>, done: bool) -> ChatStreamItem {
    ChatStreamItem { content: content.to_string(), tool_calls: calls, done, usage: None }
}

#[test]
fn a_template_that_names_the_tools_variable_supports_tools() {
    for template in [
        "{{ if .Tools }}x{{ end }} {{ .Tools }}",
        "a{{.Tools}}b",
        "{{ .tools }}",
        "{{.tools}}",
        "{{- .Tools }}",
        "{{- .tools }}",
    ] {
        assert!(supports_tools_template(template), "{}", template);
    }
    for template in ["", "{{ .Prompt }}", "{{ .Tools}}", "{{ if .Tools }}", "{{-.Tools }}", ".Tools"] {
        assert!(!supports_tools_template(template), "{}", template);
    }
}

#[test]
fn a_tool_response_goes_to_the_role_that_the_mode_asks_for() {
    assert_eq!(tool_response_message(false, "f", "42".to_string()), message("tool", "42"));
    assert_eq!(
        tool_response_message(true, "get_weather", "sunny".to_string()),
        message("user", "Tool response from get_weather: sunny")
    );
}

#[test]
fn context_goes_to_the_first_system_message() {
    let mut messages = vec![message("user", "hi"), message("system", "Be brief."), message("system", "Second.")];
    add_context(&mut messages, "\nTOOLS");
    assert_eq!(
        messages,
        vec![message("user", "hi"), message("system", "Be brief.\nTOOLS"), message("system", "Second.")]
    );
}

#[test]
fn context_without_a_system_message_makes_one_in_front() {
    let mut messages = vec![message("user", "hi"), message("assistant", "hello")];
    add_context(&mut messages, "\nTOOLS");
    assert_eq!(
        messages,
        vec![
            message("system", "You are a helpful assistant.\nTOOLS"),
            message("user", "hi"),
            message("assistant", "hello"),
        ]
    );
    let mut none: Vec<Message> = Vec::new();
    add_context(&mut none, "c");
    assert_eq!(none, vec![message("system", "You are a helpful assistant.c")]);
}

#[test]
fn messages_are_prepared_only_in_fallback_mode_with_tools() {
    let tools = vec![Tool { name: "t".to_string(), description: "d".to_string(), parameters: Json::Null }];
    let given = vec![message("system", "S"), message("user", "hi")];
    let mut messages = given.clone();
    prepare_messages(&mut messages, false, &tools);
    assert_eq!(messages, given);
    prepare_messages(&mut messages, true, &[]);
    assert_eq!(messages, given);
    prepare_messages(&mut messages, true, &tools);
    assert_eq!(messages.len(), 2);
    assert!(messages[0].content.starts_with("S\n\nYou have access to the following tools."));
    assert!(messages[0].content.contains("t: d\nParameters schema: null\n\n"));
    assert_eq!(messages[1], given[1]);
}

#[test]
fn images_go_to_the_last_message() {
    let mut messages = vec![message("user", "first"), message("user", "look")];
    attach_images(&mut messages, vec!["QUJD".to_string()]);
    assert_eq!(messages[0], message("user", "first"));
    assert_eq!(
        messages[1],
        Message { role: "user".to_string(), content: "look".to_string(), images: Some(vec!["QUJD".to_string()]), tool_calls: None }
    );
    let mut none: Vec<Message> = Vec::new();
    attach_images(&mut none, vec!["x".to_string()]);
    assert!(none.is_empty());
}

#[test]
fn images_are_encoded_in_the_standard_alphabet_with_padding() {
    assert_eq!(encode_image(b""), Some("".to_string()));
    assert_eq!(encode_image(b"A"), Some("QQ==".to_string()));
    assert_eq!(encode_image(b"AB"), Some("QUI=".to_string()));
    assert_eq!(encode_image(b"ABC"), Some("QUJD".to_string()));
    assert_eq!(encode_image(&[0xfb, 0xff, 0xfe]), Some("+//+".to_string()));
}

#[test]
fn progress_lines_are_read_field_by_field() {
    assert_eq!(
        decode_progress_line(b"{\"status\":\"pulling\",\"digest\":\"sha256:ab\",\"total\":100,\"completed\":40}"),
        PullProgress {
            status: "pulling".to_string(),
            digest: Some("sha256:ab".to_string()),
            total: Some(100),
            completed: Some(40),
        }
    );
    assert_eq!(
        decode_progress_line(b"{\"total\":18446744073709551615,\"completed\":-1}"),
        PullProgress { status: "".to_string(), digest: None, total: Some(u64::MAX), completed: None }
    );
}

#[test]
fn a_progress_line_that_is_no_json_is_its_own_status() {
    assert_eq!(
        decode_progress_line(b"pulling layers"),
        PullProgress { status: "pulling layers".to_string(), digest: None, total: None, completed: None }
    );
    assert_eq!(
        decode_progress_line(b"caf\xc3\xa9 \xff"),
        PullProgress { status: "caf\u{e9} \u{fffd}".to_string(), digest: None, total: None, completed: None }
    );
    assert_eq!(
        read_progress(b"ignored", Some(Json::Null)),
        PullProgress { status: "".to_string(), digest: None, total: None, completed: None }
    );
}

#[test]
fn generate_lines_carry_a_response_or_nothing() {
    assert_eq!(decode_generate_line(b"{\"response\":\"Hel\",\"done\":false}"), GenerateLine::Response("Hel".to_string()));
    assert_eq!(decode_generate_line(b"{\"response\":\"\"}"), GenerateLine::Response("".to_string()));
    assert_eq!(decode_generate_line(b"{\"done\":true}"), GenerateLine::Nothing);
    assert_eq!(decode_generate_line(b"{\"response\":5}"), GenerateLine::Nothing);
    assert_eq!(decode_generate_line(b"{\"response\":"), GenerateLine::Malformed);
    assert_eq!(read_generate(None), GenerateLine::Malformed);
    assert_eq!(read_completion(&Json::parse(b"{\"response\":\"whole\"}").unwrap()), "whole");
    assert_eq!(read_completion(&Json::parse(b"{}").unwrap()), "");
}

#[test]
fn model_lists_need_every_field() {
    let json = Json::parse(b"{\"models\":[{\"name\":\"llama3\",\"modified_at\":\"2024\",\"size\":123,\"digest\":\"d\",\"extra\":1}]}").unwrap();
    assert_eq!(
        ListModelsResponse::from_json(&json),
        Some(ListModelsResponse {
            models: vec![Model { name: "llama3".to_string(), modified_at: "2024".to_string(), size: 123, digest: "d".to_string() }],
        })
    );
    let json = Json::parse(b"{\"models\":[{\"name\":\"a\",\"modified_at\":\"m\",\"size\":1,\"digest\":\"d\"},{\"name\":\"b\"}]}").unwrap();
    assert_eq!(ListModelsResponse::from_json(&json), None);
    assert_eq!(ListModelsResponse::from_json(&Json::parse(b"{\"models\":[]}").unwrap()), Some(ListModelsResponse { models: vec![] }));
    assert_eq!(ListModelsResponse::from_json(&Json::parse(b"{}").unwrap()), None);
    assert_eq!(Model::from_json(&Json::parse(b"{\"name\":\"a\",\"modified_at\":\"m\",\"size\":-1,\"digest\":\"d\"}").unwrap()), None);
}

#[test]
fn model_information_needs_its_four_strings() {
    let json = Json::parse(b"{\"license\":\"MIT\",\"modelfile\":\"FROM x\",\"parameters\":\"p\",\"template\":\"{{ .Tools }}\"}").unwrap();
    assert_eq!(
        read_model_info(&json),
        Some(ModelInfo {
            license: "MIT".to_string(),
            modelfile: "FROM x".to_string(),
            parameters: "p".to_string(),
            template: "{{ .Tools }}".to_string(),
        })
    );
    assert_eq!(read_model_info(&Json::parse(b"{\"license\":\"MIT\"}").unwrap()), None);
}

#[test]
fn an_answer_is_gathered_up_to_the_event_that_is_done() {
    let (content, calls) = collect_response(vec![
        item("Hel", None, false),
        item("", Some(vec![call("first")]), false),
        item("lo", Some(vec![call("second"), call("third")]), false),
        item("!", None, true),
        item(" ignored", Some(vec![call("late")]), false),
    ]);
    assert_eq!(content, "Hello!");
    assert_eq!(calls, Some(vec![call("second"), call("third")]));
    assert_eq!(collect_response(vec![]), (String::new(), None));
    assert_eq!(collect_response(vec![item("open", None, false)]), ("open".to_string(), None));
}

#[test]
fn a_collector_says_when_it_is_done() {
    let mut collector = ResponseCollector::new();
    assert!(!collector.is_done());
    assert!(!collector.push(item("a", None, false)));
    assert!(collector.push(item("b", None, true)));
    assert!(collector.is_done());
    assert!(collector.push(item("c", None, false)));
    assert_eq!(collector.finish(), ("ab".to_string(), None));
}

#[test]
fn a_tool_is_found_by_its_name() {
    let tools = vec![
        Tool { name: "a".to_string(), description: "1".to_string(), parameters: Json::Null },
        Tool { name: "b".to_string(), description: "2".to_string(), parameters: Json::Null },
        Tool { name: "a".to_string(), description: "3".to_string(), parameters: Json::Null },
    ];
    assert_eq!(find_tool(&tools, "a"), Some(0));
    assert_eq!(find_tool(&tools, "b"), Some(1));
    assert_eq!(find_tool(&tools, "c"), None);
    assert_eq!(find_tool(&[], "a"), None);
    assert_eq!(missing_tool_message("zip"), "Tool zip not found or invalid arguments");
}
