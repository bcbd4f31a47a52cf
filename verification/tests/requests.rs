use unified_ai::json::{Field, Json};
use unified_ai::providers::anthropic::messages as anthropic;
use unified_ai::providers::anthropic::models::{AnthropicModel, AnthropicModelsResponse};
use unified_ai::providers::openrouter::content::{content_array, OpenRouterContentItem, OpenRouterImageUrl};
use unified_ai::providers::openai::messages as openai;
use unified_ai::providers::openai::stream::{OpenAIFunction, OpenAIToolCall};
use unified_ai::providers::openai::tools as openai_tools;
use unified_ai::providers::openrouter::messages as openrouter;
use unified_ai::providers::openrouter::models::{OpenRouterModel, OpenRouterModelsResponse};
use unified_ai::providers::openrouter::processor::StreamEvent;
use unified_ai::providers::openrouter::stream::{OpenRouterFunctionCall, OpenRouterToolCall};
use unified_ai::types::{ChatStreamItem, Function, Message, TokenUsage, Tool, ToolCall};

fn object(fields: Vec<(&str, Json)>) -> Json {
    Json::Object(fields.into_iter().map(|(k, v)| Field { name: k.to_string(), value: v }).collect())
}

fn s(text: &str) -> Json {
    Json::Str(text.to_string())
}

fn message(role: &str, content: &str) -> Message {
    Message { role: role.to_string(), content: content.to_string(), images: None, tool_calls: None }
}

fn call(id: Option<&str>, name: &str, arguments: Json) -> ToolCall {
    ToolCall { id: id.map(|x| x.to_string()), function: Function { name: name.to_string(), arguments } }
}

fn text_part(text: &str) -> Json {
    object(vec![("type", s("text")), ("text", s(text))])
}

fn image_part(data: &str) -> Json {
    object(vec![
        ("type", s("image_url")),
        ("image_url", object(vec![("url", s(&format!("data:image/jpeg;base64,{}", data)))])),
    ])
}

#[test]
fn openai_tool_results_round_trip_through_their_tag() {
    let sent = openai::tool_result_message(Some("call_1".to_string()), "it is: sunny");
    assert_eq!(sent, message("tool", "TOOL_RESULT:call_1:it is: sunny"));
    assert_eq!(openai::split_tool_result(&sent.content), (Some("call_1".to_string()), "it is: sunny".to_string()));
    assert_eq!(openai::tool_result_message(None, "r"), message("tool", "TOOL_RESULT:unknown:r"));
    assert_eq!(openai::split_tool_result("TOOL_RESULT:only"), (None, "TOOL_RESULT:only".to_string()));
    assert_eq!(openai::split_tool_result("TOOL_RESULT::"), (Some("".to_string()), "".to_string()));
    assert_eq!(openai::split_tool_result("plain: text"), (None, "plain: text".to_string()));
    assert_eq!(openai::split_tool_result(""), (None, "".to_string()));
}

#[test]
fn openai_messages_of_a_tool_carry_the_id_of_the_call() {
    let wire = openai::convert_message(&message("tool", "TOOL_RESULT:c9:done"));
    assert_eq!(
        wire,
        openai::OpenAIMessage {
            role: Some("tool".to_string()),
            content: Some(s("done")),
            tool_calls: None,
            tool_call_id: Some("c9".to_string()),
        }
    );
    let wire = openai::convert_message(&message("tool", "untagged"));
    assert_eq!(wire.content, Some(s("untagged")));
    assert_eq!(wire.tool_call_id, None);
}

#[test]
fn openai_messages_keep_text_calls_and_images() {
    let mut m = message("assistant", "calling");
    m.tool_calls = Some(vec![call(Some("c1"), "f", object(vec![("b", Json::Int(1)), ("a", Json::Bool(true))])), call(None, "g", Json::Null)]);
    let wire = openai::convert_message(&m);
    assert_eq!(wire.role.as_deref(), Some("assistant"));
    assert_eq!(wire.content, Some(s("calling")));
    assert_eq!(wire.tool_call_id, None);
    assert_eq!(
        wire.tool_calls,
        Some(vec![
            OpenAIToolCall {
                id: Some("c1".to_string()),
                call_type: Some("function".to_string()),
                function: OpenAIFunction { name: Some("f".to_string()), arguments: Some("{\"a\":true,\"b\":1}".to_string()) },
            },
            OpenAIToolCall {
                id: Some("call_generated_id".to_string()),
                call_type: Some("function".to_string()),
                function: OpenAIFunction { name: Some("g".to_string()), arguments: Some("null".to_string()) },
            },
        ])
    );
    let mut m = message("user", "what is this?");
    m.images = Some(vec!["AAA".to_string(), "BBB".to_string()]);
    assert_eq!(
        openai::convert_message(&m).content,
        Some(Json::Array(vec![text_part("what is this?"), image_part("AAA"), image_part("BBB")]))
    );
    let mut m = message("user", "");
    m.images = Some(vec!["AAA".to_string()]);
    assert_eq!(openai::convert_message(&m).content, Some(Json::Array(vec![image_part("AAA")])));
    let mut m = message("user", "no pictures");
    m.images = Some(vec![]);
    assert_eq!(openai::convert_message(&m).content, Some(s("no pictures")));
}

#[test]
fn openai_tools_get_a_closed_schema() {
    let tool = Tool {
        name: "f".to_string(),
        description: "does f".to_string(),
        parameters: object(vec![("type", s("object")), ("additionalProperties", Json::Bool(true)), ("properties", object(vec![]))]),
    };
    let wire = openai_tools::convert_tools(&[tool.clone(), Tool { parameters: Json::Null, ..tool }]);
    assert_eq!(wire.len(), 2);
    assert_eq!(wire[0].tool_type, "function");
    assert_eq!(wire[0].function.name, "f");
    assert_eq!(wire[0].function.description, "does f");
    assert_eq!(
        wire[0].function.parameters,
        object(vec![("type", s("object")), ("properties", object(vec![])), ("additionalProperties", Json::Bool(false))])
    );
    assert_eq!(wire[1].function.parameters, Json::Null);
    assert_eq!(openai_tools::close_schema(&object(vec![])), object(vec![("additionalProperties", Json::Bool(false))]));
    assert_eq!(openai_tools::close_schema(&Json::Array(vec![])), Json::Array(vec![]));
}

#[test]
fn openai_limits_go_by_the_name_of_the_model() {
    let completion = openai_tools::TokenLimits { max_tokens: None, max_completion_tokens: Some(4096) };
    let plain = openai_tools::TokenLimits { max_tokens: Some(4096), max_completion_tokens: None };
    assert_eq!(openai_tools::token_limits("o1-mini"), completion);
    assert_eq!(openai_tools::token_limits("gpt-5-nano"), completion);
    assert_eq!(openai_tools::token_limits("my-o1"), completion);
    assert_eq!(openai_tools::token_limits("gpt-4o"), plain);
    assert_eq!(openai_tools::token_limits("o3"), plain);
    assert_eq!(openai_tools::token_limits(""), plain);
}

#[test]
fn openai_model_lists_need_every_field() {
    let json = Json::parse(b"{\"object\":\"list\",\"data\":[{\"id\":\"gpt-4o\",\"object\":\"model\",\"created\":1715367049,\"owned_by\":\"system\"}]}").unwrap();
    assert_eq!(
        openai_tools::OpenAIModelsResponse::from_json(&json),
        Some(openai_tools::OpenAIModelsResponse {
            object: "list".to_string(),
            data: vec![openai_tools::OpenAIModel {
                id: "gpt-4o".to_string(),
                object: "model".to_string(),
                created: 1715367049,
                owned_by: "system".to_string(),
            }],
        })
    );
    let json = Json::parse(b"{\"object\":\"list\",\"data\":[{\"id\":\"gpt-4o\"}]}").unwrap();
    assert_eq!(openai_tools::OpenAIModelsResponse::from_json(&json), None);
    assert_eq!(openai_tools::OpenAIModelsResponse::from_json(&Json::parse(b"{\"data\":[]}").unwrap()), None);
}

#[test]
fn openrouter_tool_results_answer_the_last_announced_call() {
    let mut asking = message("assistant", "");
    asking.tool_calls = Some(vec![call(Some("t1"), "lookup", Json::Object(vec![])), call(Some("t2"), "other", Json::Null)]);
    let mut without_id = message("assistant", "again");
    without_id.tool_calls = Some(vec![call(None, "anon", Json::Null)]);
    let messages = vec![
        message("tool", "early"),
        message("user", "hi"),
        asking,
        message("tool", "result one"),
        without_id,
        message("tool", "result two"),
    ];
    let wire = openrouter::convert_messages(&messages, &vec![]);
    assert_eq!(wire.len(), 6);
    assert_eq!(
        wire[0],
        openrouter::OpenRouterMessage { role: "tool".to_string(), content: s("early"), name: None, tool_calls: None, tool_call_id: None }
    );
    assert_eq!(wire[1].content, s("hi"));
    assert_eq!(
        wire[2].tool_calls,
        Some(vec![
            OpenRouterToolCall {
                id: Some("t1".to_string()),
                call_type: Some("function".to_string()),
                function: Some(OpenRouterFunctionCall { name: Some("lookup".to_string()), arguments: Some("{}".to_string()) }),
            },
            OpenRouterToolCall {
                id: Some("t2".to_string()),
                call_type: Some("function".to_string()),
                function: Some(OpenRouterFunctionCall { name: Some("other".to_string()), arguments: Some("null".to_string()) }),
            },
        ])
    );
    let answered = openrouter::OpenRouterMessage {
        role: "tool".to_string(),
        content: s("result one"),
        name: Some("lookup".to_string()),
        tool_calls: None,
        tool_call_id: Some("t1".to_string()),
    };
    assert_eq!(wire[3], answered);
    assert_eq!(wire[4].tool_calls.as_ref().unwrap()[0].id, None);
    assert_eq!(wire[5], openrouter::OpenRouterMessage { content: s("result two"), ..answered });
}

#[test]
fn openrouter_images_go_to_the_messages_of_the_user() {
    let messages = vec![message("system", "S"), message("user", "see"), message("user", ""), message("assistant", "ok")];
    let wire = openrouter::convert_messages(&messages, &vec!["IMG".to_string()]);
    assert_eq!(wire[0].content, s("S"));
    assert_eq!(wire[1].content, Json::Array(vec![text_part("see"), image_part("IMG")]));
    assert_eq!(wire[2].content, Json::Array(vec![image_part("IMG")]));
    assert_eq!(wire[3].content, s("ok"));
    assert!(openrouter::convert_messages(&[], &vec![]).is_empty());
}

#[test]
fn openrouter_tools_keep_their_schema() {
    let tool = Tool { name: "f".to_string(), description: "d".to_string(), parameters: object(vec![("type", s("object"))]) };
    let wire = openrouter::convert_tools(&[tool]);
    assert_eq!(
        wire,
        vec![openrouter::OpenRouterTool {
            tool_type: "function".to_string(),
            function: openrouter::OpenRouterFunction {
                name: "f".to_string(),
                description: Some("d".to_string()),
                parameters: object(vec![("type", s("object"))]),
            },
        }]
    );
}

#[test]
fn openrouter_models_that_list_tools_take_them() {
    let read = |text: &[u8]| OpenRouterModel::from_json(&Json::parse(text).unwrap());
    let model = read(b"{\"id\":\"m\",\"name\":\"M\",\"supported_parameters\":[\"temperature\",7,\"tools\"],\"pricing\":{}}").unwrap();
    assert_eq!(
        model,
        OpenRouterModel {
            id: "m".to_string(),
            name: "M".to_string(),
            supported_parameters: Some(vec!["temperature".to_string(), "tools".to_string()]),
        }
    );
    assert!(model.takes_tools());
    assert!(!read(b"{\"id\":\"m\",\"name\":\"M\",\"supported_parameters\":[\"tool_choice\"]}").unwrap().takes_tools());
    assert!(!read(b"{\"id\":\"m\",\"name\":\"M\",\"supported_parameters\":\"tools\"}").unwrap().takes_tools());
    assert!(!read(b"{\"id\":\"m\",\"name\":\"M\"}").unwrap().takes_tools());
    assert_eq!(read(b"{\"id\":\"m\"}"), None);
    let list = OpenRouterModelsResponse::from_json(&Json::parse(b"{\"data\":[{\"id\":\"a\",\"name\":\"A\"}]}").unwrap());
    assert_eq!(
        list,
        Some(OpenRouterModelsResponse {
            data: vec![OpenRouterModel { id: "a".to_string(), name: "A".to_string(), supported_parameters: None }],
        })
    );
    assert_eq!(OpenRouterModelsResponse::from_json(&Json::parse(b"{\"data\":[{\"id\":\"a\"}]}").unwrap()), None);
    assert!(openrouter::needs_fallback(true, false));
    assert!(!openrouter::needs_fallback(true, true));
    assert!(!openrouter::needs_fallback(false, false));
    assert!(!openrouter::needs_fallback(false, true));
}

#[test]
fn openrouter_stream_events_become_unified_events() {
    let empty = ChatStreamItem { content: String::new(), tool_calls: None, done: false, usage: None };
    assert_eq!(
        openrouter::convert_event(StreamEvent::Content("x".to_string())),
        ChatStreamItem { content: "x".to_string(), ..empty.clone() }
    );
    assert_eq!(openrouter::convert_event(StreamEvent::Done), ChatStreamItem { done: true, ..empty.clone() });
    let usage = TokenUsage { prompt_tokens: Some(1), completion_tokens: None, total_tokens: None };
    assert_eq!(
        openrouter::convert_event(StreamEvent::Usage(usage)),
        ChatStreamItem { usage: Some(usage), ..empty.clone() }
    );
    let event = StreamEvent::ToolCall { id: "c".to_string(), name: "f".to_string(), arguments: "{\"a\": [1]}".to_string() };
    assert_eq!(
        openrouter::convert_event(event.clone()),
        ChatStreamItem {
            tool_calls: Some(vec![call(Some("c"), "f", object(vec![("a", Json::Array(vec![Json::Int(1)]))]))]),
            ..empty.clone()
        }
    );
    let broken = StreamEvent::ToolCall { id: "c".to_string(), name: "f".to_string(), arguments: "{".to_string() };
    assert_eq!(
        openrouter::convert_event(broken),
        ChatStreamItem { tool_calls: Some(vec![call(Some("c"), "f", Json::Null)]), ..empty.clone() }
    );
    assert_eq!(
        openrouter::item_of_event(event, Some(Json::Int(3))),
        ChatStreamItem { tool_calls: Some(vec![call(Some("c"), "f", Json::Int(3))]), ..empty }
    );
}

#[test]
fn anthropic_messages_put_images_first_and_calls_last() {
    let mut m = message("user", "compare");
    m.images = Some(vec!["ONE".to_string(), "TWO".to_string()]);
    m.tool_calls = Some(vec![call(Some("ignored"), "f", object(vec![("k", Json::Int(1))]))]);
    let image = |data: &str| anthropic::ContentBlock::Image {
        source: anthropic::ImageSource {
            source_type: "base64".to_string(),
            media_type: "image/jpeg".to_string(),
            data: data.to_string(),
        },
    };
    assert_eq!(
        anthropic::convert_message(&m),
        anthropic::AnthropicMessage {
            role: "user".to_string(),
            content: vec![
                image("TWO"),
                image("ONE"),
                anthropic::ContentBlock::Text { text: "compare".to_string() },
                anthropic::ContentBlock::ToolUse {
                    id: "call_generated_id".to_string(),
                    name: "f".to_string(),
                    input: object(vec![("k", Json::Int(1))]),
                },
            ],
        }
    );
    assert_eq!(
        anthropic::convert_message(&message("assistant", "")),
        anthropic::AnthropicMessage {
            role: "assistant".to_string(),
            content: vec![anthropic::ContentBlock::Text { text: "".to_string() }],
        }
    );
}

#[test]
fn anthropic_tools_and_results_keep_their_content() {
    let tool = Tool { name: "f".to_string(), description: "d".to_string(), parameters: Json::Int(1) };
    assert_eq!(
        anthropic::convert_tools(&[tool]),
        vec![anthropic::AnthropicTool { name: "f".to_string(), description: "d".to_string(), input_schema: Json::Int(1) }]
    );
    assert_eq!(anthropic::tool_result_message("r".to_string()), message("user", "r"));
}

#[test]
fn anthropic_model_pages_need_every_model_whole() {
    let json = Json::parse(b"{\"data\":[{\"id\":\"m-1\",\"display_name\":\"Model One\",\"type\":\"model\",\"created_at\":\"2025-01-01\"}],\"has_more\":false,\"first_id\":\"m-1\",\"last_id\":null}").unwrap();
    assert_eq!(
        AnthropicModelsResponse::from_json(&json),
        Some(AnthropicModelsResponse {
            data: vec![AnthropicModel {
                id: "m-1".to_string(),
                display_name: "Model One".to_string(),
                model_type: "model".to_string(),
                created_at: "2025-01-01".to_string(),
            }],
            has_more: false,
            first_id: Some("m-1".to_string()),
            last_id: None,
        })
    );
    assert_eq!(AnthropicModelsResponse::from_json(&Json::parse(b"{\"data\":[{\"id\":\"x\"}],\"has_more\":true}").unwrap()), None);
    assert_eq!(AnthropicModelsResponse::from_json(&Json::parse(b"{\"data\":[]}").unwrap()), None);
    assert_eq!(AnthropicModel::from_json(&Json::Null), None);
}

#[test]
fn content_items_become_the_parts_of_a_request() {
    assert_eq!(OpenRouterContentItem::text("hi").to_json(), text_part("hi"));
    assert_eq!(OpenRouterContentItem::image("QUJD").to_json(), image_part("QUJD"));
    let detailed = OpenRouterContentItem {
        content_type: "image_url".to_string(),
        text: None,
        image_url: Some(OpenRouterImageUrl { url: "https://x/y.png".to_string(), detail: Some("low".to_string()) }),
    };
    assert_eq!(
        detailed.to_json(),
        object(vec![
            ("type", s("image_url")),
            ("image_url", object(vec![("url", s("https://x/y.png")), ("detail", s("low"))])),
        ])
    );
    assert_eq!(
        content_array("t", &vec!["A".to_string(), "B".to_string()]),
        Json::Array(vec![text_part("t"), image_part("A"), image_part("B")])
    );
    assert_eq!(content_array("", &vec![]), Json::Array(vec![]));
}
