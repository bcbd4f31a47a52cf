//! OpenRouter: the messages and tools of a request, and what a model
//! supports.

use super::content::content_array;
use super::processor::{StreamEvent, StreamEventView};
use super::stream::{OpenRouterFunctionCall, OpenRouterToolCall, OpenRouterToolCallView};
use crate::fallback::{message_views, tool_views, ToolView};
use crate::json::{json_of_bytes, json_rendering, parsed_view, Json, JsonView};
use crate::providers::openai::messages::content_parts;
use crate::text::{opt_text, str_eq, texts};
use crate::types::{
    call_views, ChatStreamItem, ChatStreamItemView, Function, Message, MessageView, Tool, ToolCall,
    ToolCallView,
};
use vstd::prelude::*;

verus! {

/// A message of a conversation as a caller holds it.
#[derive(Clone, Debug, PartialEq, Eq)]
pub struct ChatMessage {
    pub role: String,
    pub content: String,
    pub tool_calls: Option<Vec<ToolCall>>,
}

/// A message as a request carries it.
#[derive(Clone, Debug, PartialEq, Eq)]
pub struct OpenRouterMessage {
    pub role: String,
    /// A string, or an array of parts where the message has images.
    pub content: Json,
    pub name: Option<String>,
    pub tool_calls: Option<Vec<OpenRouterToolCall>>,
    pub tool_call_id: Option<String>,
}

/// The mathematical value of an [`OpenRouterMessage`].
pub struct OpenRouterMessageView {
    pub role: Seq<char>,
    pub content: JsonView,
    pub name: Option<Seq<char>>,
    pub tool_calls: Option<Seq<OpenRouterToolCallView>>,
    pub tool_call_id: Option<Seq<char>>,
}

/// The values of a sequence of wire tool calls.
pub open spec fn wire_call_views(calls: Seq<OpenRouterToolCall>) -> Seq<OpenRouterToolCallView> {
    Seq::new(calls.len(), |i: int| calls[i]@)
}

impl View for OpenRouterMessage {
    type V = OpenRouterMessageView;

    open spec fn view(&self) -> OpenRouterMessageView {
        OpenRouterMessageView {
            role: self.role@,
            content: self.content@,
            name: opt_text(self.name),
            tool_calls: match self.tool_calls {
                Some(calls) => Some(wire_call_views(calls@)),
                None => None,
            },
            tool_call_id: opt_text(self.tool_call_id),
        }
    }
}

/// The values of a sequence of wire messages.
pub open spec fn wire_message_views(messages: Seq<OpenRouterMessage>) -> Seq<OpenRouterMessageView> {
    Seq::new(messages.len(), |i: int| messages[i]@)
}

/// The call that a tool result answers: its id and the name of its
/// function.
pub struct CallRef {
    pub id: Seq<char>,
    pub name: Seq<char>,
}

/// The call that a message makes known as the one that the next tool
/// result answers: the first call of an assistant's message, where it has
/// an id.
pub open spec fn announced(message: MessageView) -> Option<CallRef> {
    if message.role == "assistant"@ {
        match message.tool_calls {
            Some(calls) => if calls.len() > 0 {
                match calls[0].id {
                    Some(id) => Some(CallRef { id, name: calls[0].name }),
                    None => None,
                }
            } else {
                None
            },
            None => None,
        }
    } else {
        None
    }
}

/// The call that the next tool result answers after the first `n`
/// messages: the last one that a message made known.
pub open spec fn answered(messages: Seq<MessageView>, n: int) -> Option<CallRef>
    decreases n,
{
    if n <= 0 || n > messages.len() {
        None
    } else {
        match announced(messages[n - 1]) {
            Some(call) => Some(call),
            None => answered(messages, n - 1),
        }
    }
}

/// A tool call as a request carries it; the arguments are written as
/// compact JSON text.
pub open spec fn wire_call(call: ToolCallView) -> OpenRouterToolCallView {
    OpenRouterToolCallView {
        id: call.id,
        call_type: Some("function"@),
        name: Some(call.name),
        arguments: Some(json_rendering(call.arguments)),
    }
}

/// The first `n` tool calls as a request carries them.
pub open spec fn wire_calls(calls: Seq<ToolCallView>, n: int) -> Seq<OpenRouterToolCallView>
    decreases n,
{
    if n <= 0 || n > calls.len() {
        Seq::empty()
    } else {
        wire_calls(calls, n - 1).push(wire_call(calls[n - 1]))
    }
}

/// A message as a request carries it, given the images of the request and
/// the call that a tool result answers. The result of a tool goes under
/// the id and the name of that call where there is one. Any other message
/// keeps its role and its tool calls; its content is a string, or for a
/// user's message in a request with images an array of the text and the
/// images.
pub open spec fn wire_message(
    message: MessageView,
    images: Seq<Seq<char>>,
    call: Option<CallRef>,
) -> OpenRouterMessageView {
    if message.role == "tool"@ && call is Some {
        OpenRouterMessageView {
            role: "tool"@,
            content: JsonView::Str(message.content),
            name: Some(call->0.name),
            tool_calls: None,
            tool_call_id: Some(call->0.id),
        }
    } else {
        OpenRouterMessageView {
            role: message.role,
            content: if message.role == "user"@ && images.len() > 0 {
                JsonView::Array(content_parts(message.content, images))
            } else {
                JsonView::Str(message.content)
            },
            name: None,
            tool_calls: match message.tool_calls {
                Some(calls) => Some(wire_calls(calls, calls.len() as int)),
                None => None,
            },
            tool_call_id: None,
        }
    }
}

/// The first `n` messages as a request carries them.
pub open spec fn wire_messages(messages: Seq<MessageView>, images: Seq<Seq<char>>, n: int) -> Seq<
    OpenRouterMessageView,
>
    decreases n,
{
    if n <= 0 || n > messages.len() {
        Seq::empty()
    } else {
        wire_messages(messages, images, n - 1).push(
            wire_message(messages[n - 1], images, answered(messages, n)),
        )
    }
}

/// Converts a tool call into the form of a request.
pub fn convert_tool_call(call: &ToolCall) -> (wire: OpenRouterToolCall)
    ensures
        wire@ == wire_call(call@),
{
    OpenRouterToolCall {
        id: match &call.id {
            Some(id) => Some(id.clone()),
            None => None,
        },
        call_type: Some("function".to_owned()),
        function: Some(
            OpenRouterFunctionCall {
                name: Some(call.function.name.clone()),
                arguments: Some(call.function.arguments.to_text()),
            },
        ),
    }
}

/// Converts the tool calls of a message into the form of a request.
pub fn convert_tool_calls(calls: &Vec<ToolCall>) -> (wire: Vec<OpenRouterToolCall>)
    ensures
        wire_call_views(wire@) == wire_calls(call_views(calls@), calls@.len() as int),
{
    let ghost model = call_views(calls@);
    let mut wire: Vec<OpenRouterToolCall> = Vec::new();
    let mut i: usize = 0;
    assert(wire_call_views(wire@) =~= wire_calls(model, 0));
    while i < calls.len()
        invariant
            i <= calls.len(),
            model == call_views(calls@),
            wire_call_views(wire@) == wire_calls(model, i as int),
        decreases calls.len() - i,
    {
        let ghost so_far = wire_call_views(wire@);
        let converted = convert_tool_call(&calls[i]);
        wire.push(converted);
        assert(wire_call_views(wire@) =~= so_far.push(converted@));
        i = i + 1;
    }
    wire
}

/// The id and the name of the call that a message makes known.
fn announced_call(message: &Message) -> (call: Option<(String, String)>)
    ensures
        match call {
            Some((id, name)) => announced(message@) == Some(CallRef { id: id@, name: name@ }),
            None => announced(message@) is None,
        },
{
    if !str_eq(message.role.as_str(), "assistant") {
        return None;
    }
    match &message.tool_calls {
        Some(calls) => if calls.len() > 0 {
            match &calls[0].id {
                Some(id) => Some((id.clone(), calls[0].function.name.clone())),
                None => None,
            }
        } else {
            None
        },
        None => None,
    }
}

/// Converts the messages of a conversation into the form of a request.
/// `images` are the images of the request, as base64 text.
pub fn convert_messages(messages: &[Message], images: &Vec<String>) -> (wire: Vec<
    OpenRouterMessage,
>)
    ensures
        wire_message_views(wire@) == wire_messages(
            message_views(messages@),
            texts(images@),
            messages@.len() as int,
        ),
{
    let ghost model = message_views(messages@);
    let ghost pictures = texts(images@);
    let mut wire: Vec<OpenRouterMessage> = Vec::new();
    let mut last: Option<(String, String)> = None;
    let mut i: usize = 0;
    assert(wire_message_views(wire@) =~= wire_messages(model, pictures, 0));
    while i < messages.len()
        invariant
            i <= messages.len(),
            model == message_views(messages@),
            pictures == texts(images@),
            wire_message_views(wire@) == wire_messages(model, pictures, i as int),
            match last {
                Some((id, name)) => answered(model, i as int) == Some(
                    CallRef { id: id@, name: name@ },
                ),
                None => answered(model, i as int) is None,
            },
        decreases messages.len() - i,
    {
        let ghost so_far = wire_message_views(wire@);
        let message = &messages[i];
        match announced_call(message) {
            Some(call) => {
                last = Some(call);
            },
            None => {},
        }
        let ghost call = answered(model, i + 1);
        let converted = match (&last, str_eq(message.role.as_str(), "tool")) {
            (Some((id, name)), true) => OpenRouterMessage {
                role: "tool".to_owned(),
                content: Json::Str(message.content.clone()),
                name: Some(name.clone()),
                tool_calls: None,
                tool_call_id: Some(id.clone()),
            },
            _ => OpenRouterMessage {
                role: message.role.clone(),
                content: if str_eq(message.role.as_str(), "user") && images.len() > 0 {
                    content_array(message.content.as_str(), images)
                } else {
                    Json::Str(message.content.clone())
                },
                name: None,
                tool_calls: match &message.tool_calls {
                    Some(calls) => Some(convert_tool_calls(calls)),
                    None => None,
                },
                tool_call_id: None,
            },
        };
        assert(converted@ == wire_message(model[i as int], pictures, call));
        wire.push(converted);
        assert(wire_message_views(wire@) =~= so_far.push(converted@));
        i = i + 1;
    }
    wire
}

/// The function of a tool as a request carries it.
#[derive(Clone, Debug, PartialEq, Eq)]
pub struct OpenRouterFunction {
    pub name: String,
    pub description: Option<String>,
    pub parameters: Json,
}

/// A tool as a request carries it.
#[derive(Clone, Debug, PartialEq, Eq)]
pub struct OpenRouterTool {
    pub tool_type: String,
    pub function: OpenRouterFunction,
}

/// The mathematical value of an [`OpenRouterTool`].
pub struct OpenRouterToolView {
    pub tool_type: Seq<char>,
    pub name: Seq<char>,
    pub description: Option<Seq<char>>,
    pub parameters: JsonView,
}

impl View for OpenRouterTool {
    type V = OpenRouterToolView;

    open spec fn view(&self) -> OpenRouterToolView {
        OpenRouterToolView {
            tool_type: self.tool_type@,
            name: self.function.name@,
            description: opt_text(self.function.description),
            parameters: self.function.parameters@,
        }
    }
}

/// The values of a sequence of wire tools.
pub open spec fn wire_tool_views(tools: Seq<OpenRouterTool>) -> Seq<OpenRouterToolView> {
    Seq::new(tools.len(), |i: int| tools[i]@)
}

/// A tool as a request carries it.
pub open spec fn wire_tool(tool: ToolView) -> OpenRouterToolView {
    OpenRouterToolView {
        tool_type: "function"@,
        name: tool.name,
        description: Some(tool.description),
        parameters: tool.parameters,
    }
}

/// The first `n` tools as a request carries them.
pub open spec fn wire_tools(tools: Seq<ToolView>, n: int) -> Seq<OpenRouterToolView>
    decreases n,
{
    if n <= 0 || n > tools.len() {
        Seq::empty()
    } else {
        wire_tools(tools, n - 1).push(wire_tool(tools[n - 1]))
    }
}

/// Converts the tools of a client into the form of a request.
pub fn convert_tools(tools: &[Tool]) -> (wire: Vec<OpenRouterTool>)
    ensures
        wire_tool_views(wire@) == wire_tools(tool_views(tools@), tools@.len() as int),
{
    let ghost model = tool_views(tools@);
    let mut wire: Vec<OpenRouterTool> = Vec::new();
    let mut i: usize = 0;
    assert(wire_tool_views(wire@) =~= wire_tools(model, 0));
    while i < tools.len()
        invariant
            i <= tools.len(),
            model == tool_views(tools@),
            wire_tool_views(wire@) == wire_tools(model, i as int),
        decreases tools.len() - i,
    {
        let ghost so_far = wire_tool_views(wire@);
        let tool = &tools[i];
        let converted = OpenRouterTool {
            tool_type: "function".to_owned(),
            function: OpenRouterFunction {
                name: tool.name.clone(),
                description: Some(tool.description.clone()),
                parameters: tool.parameters.duplicate(),
            },
        };
        wire.push(converted);
        assert(wire_tool_views(wire@) =~= so_far.push(wire_tool(model[i as int])));
        i = i + 1;
    }
    wire
}

/// Whether a client must prompt the model to write its tool calls into the
/// text: it has tools and the model does not take them.
pub fn needs_fallback(has_tools: bool, model_takes_tools: bool) -> (fallback: bool)
    ensures
        fallback == (has_tools && !model_takes_tools),
{
    has_tools && !model_takes_tools
}

/// The event of the unified stream that a stream event becomes, given what
/// the arguments of a tool call parsed to. Arguments that are no JSON
/// become `null`.
pub open spec fn unified_item(event: StreamEventView, parsed: Option<JsonView>) -> ChatStreamItemView {
    match event {
        StreamEventView::Content(text) => ChatStreamItemView {
            content: text,
            tool_calls: None,
            done: false,
            usage: None,
        },
        StreamEventView::ToolCall { id, name, arguments } => ChatStreamItemView {
            content: Seq::empty(),
            tool_calls: Some(
                seq![
                    ToolCallView {
                        id: Some(id),
                        name,
                        arguments: match parsed {
                            Some(value) => value,
                            None => JsonView::Null,
                        },
                    },
                ],
            ),
            done: false,
            usage: None,
        },
        StreamEventView::Usage(usage) => ChatStreamItemView {
            content: Seq::empty(),
            tool_calls: None,
            done: false,
            usage: Some(usage),
        },
        StreamEventView::Done => ChatStreamItemView {
            content: Seq::empty(),
            tool_calls: None,
            done: true,
            usage: None,
        },
    }
}

/// What the arguments of a stream event parse to; `None` for an event that
/// is no tool call.
pub open spec fn event_arguments(event: StreamEventView) -> Option<JsonView> {
    match event {
        StreamEventView::ToolCall { id, name, arguments } => json_of_bytes(
            vstd::utf8::encode_utf8(arguments),
        ),
        _ => None,
    }
}

/// Turns a stream event into an event of the unified stream, given what
/// the arguments of a tool call parsed to.
pub fn item_of_event(event: StreamEvent, parsed: Option<Json>) -> (item: ChatStreamItem)
    ensures
        item@ == unified_item(event@, parsed_view(parsed)),
{
    match event {
        StreamEvent::Content(text) => ChatStreamItem {
            content: text,
            tool_calls: None,
            done: false,
            usage: None,
        },
        StreamEvent::ToolCall { id, name, arguments: _ } => {
            let arguments = match parsed {
                Some(value) => value,
                None => Json::Null,
            };
            let mut calls: Vec<ToolCall> = Vec::new();
            calls.push(ToolCall { id: Some(id), function: Function { name, arguments } });
            assert(call_views(calls@) =~= seq![calls@[0]@]);
            ChatStreamItem { content: String::new(), tool_calls: Some(calls), done: false, usage: None }
        },
        StreamEvent::Usage(usage) => ChatStreamItem {
            content: String::new(),
            tool_calls: None,
            done: false,
            usage: Some(usage),
        },
        StreamEvent::Done => ChatStreamItem {
            content: String::new(),
            tool_calls: None,
            done: true,
            usage: None,
        },
    }
}

/// Turns a stream event into an event of the unified stream.
pub fn convert_event(event: StreamEvent) -> (item: ChatStreamItem)
    ensures
        item@ == unified_item(event@, event_arguments(event@)),
{
    let parsed = match &event {
        StreamEvent::ToolCall { id: _, name: _, arguments } => Json::parse_str(arguments.as_str()),
        _ => None,
    };
    item_of_event(event, parsed)
}

} // verus!
