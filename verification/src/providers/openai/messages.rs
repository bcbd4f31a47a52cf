//! OpenAI: the messages and tools of a request.

use super::stream::{OpenAIFunction, OpenAIToolCall, OpenAIToolCallView};
use crate::json::{field_views, fld, json_rendering, json_views, Field, Json, JsonView};
use crate::scan::{find_from, lemma_find_from, occurs_at};
use crate::text::{chars_of, find_chars, opt_text, starts_with, str_eq, texts};
use crate::types::{Message, MessageView, ToolCall, ToolCallView};
use vstd::prelude::*;
use vstd::string::{StrSliceExecFns, StringExecFns};

verus! {

broadcast use vstd::slice::group_slice_axioms;

/// A message as a request carries it.
#[derive(Clone, Debug, PartialEq, Eq)]
pub struct OpenAIMessage {
    pub role: Option<String>,
    /// A string, or an array of parts where the message has images.
    pub content: Option<Json>,
    pub tool_calls: Option<Vec<OpenAIToolCall>>,
    pub tool_call_id: Option<String>,
}

/// The mathematical value of an [`OpenAIMessage`].
pub struct OpenAIMessageView {
    pub role: Option<Seq<char>>,
    pub content: Option<JsonView>,
    pub tool_calls: Option<Seq<OpenAIToolCallView>>,
    pub tool_call_id: Option<Seq<char>>,
}

/// The values of a sequence of wire tool calls.
pub open spec fn wire_call_views(calls: Seq<OpenAIToolCall>) -> Seq<OpenAIToolCallView> {
    Seq::new(calls.len(), |i: int| calls[i]@)
}

impl View for OpenAIMessage {
    type V = OpenAIMessageView;

    open spec fn view(&self) -> OpenAIMessageView {
        OpenAIMessageView {
            role: opt_text(self.role),
            content: match self.content {
                Some(c) => Some(c@),
                None => None,
            },
            tool_calls: match self.tool_calls {
                Some(calls) => Some(wire_call_views(calls@)),
                None => None,
            },
            tool_call_id: opt_text(self.tool_call_id),
        }
    }
}

/// The content of a message that carries the result of a tool: a tag, the
/// id of the call, and the result, with colons between them.
pub open spec fn tool_result_text(id: Seq<char>, result: Seq<char>) -> Seq<char> {
    "TOOL_RESULT:"@ + id + ":"@ + result
}

/// The message that carries the result of a tool back to the model. A call
/// without an id is answered under the id `unknown`.
pub open spec fn tool_result(id: Option<Seq<char>>, result: Seq<char>) -> MessageView {
    MessageView {
        role: "tool"@,
        content: tool_result_text(
            match id {
                Some(id) => id,
                None => "unknown"@,
            },
            result,
        ),
        images: None,
        tool_calls: None,
    }
}

/// The message that carries the result of a tool back to the model.
pub fn tool_result_message(id: Option<String>, result: &str) -> (message: Message)
    ensures
        message@ == tool_result(opt_text(id), result@),
{
    let mut content = String::from_str("TOOL_RESULT:");
    match id {
        Some(id) => {
            content.append(id.as_str());
        },
        None => {
            content.append("unknown");
        },
    }
    content.append(":");
    content.append(result);
    Message { role: String::from_str("tool"), content, images: None, tool_calls: None }
}

/// The id of the call that a tagged tool result answers: what stands
/// between the tag and the next colon.
pub open spec fn result_call_id(content: Seq<char>) -> Option<Seq<char>> {
    if occurs_at(content, "TOOL_RESULT:"@, 0) {
        match find_from(content, ":"@, 12) {
            Some(colon) => Some(content.subrange(12, colon)),
            None => None,
        }
    } else {
        None
    }
}

/// The result that a tool result message carries: what follows the colon
/// after the id where the content is tagged, and else the whole content.
pub open spec fn result_content(content: Seq<char>) -> Seq<char> {
    if occurs_at(content, "TOOL_RESULT:"@, 0) {
        match find_from(content, ":"@, 12) {
            Some(colon) => content.subrange(colon + 1, content.len() as int),
            None => content,
        }
    } else {
        content
    }
}

/// Splits the content of a tool result message into the id of the call and
/// the result.
pub fn split_tool_result(content: &str) -> (parts: (Option<String>, String))
    ensures
        opt_text(parts.0) == result_call_id(content@),
        parts.1@ == result_content(content@),
{
    proof {
        reveal_strlit("TOOL_RESULT:");
        reveal_strlit(":");
    }
    if starts_with(content, "TOOL_RESULT:") {
        let chars = chars_of(content);
        let colon = chars_of(":");
        proof {
            lemma_find_from(content@, ":"@, 12);
        }
        match find_chars(chars.as_slice(), colon.as_slice(), 12) {
            Some(at) => {
                assert(colon@.len() == 1);
                assert(at + 1 <= chars.len());
                (
                    Some(String::from_str(content.substring_char(12, at))),
                    String::from_str(content.substring_char(at + 1, chars.len())),
                )
            },
            None => (None, String::from_str(content)),
        }
    } else {
        (None, String::from_str(content))
    }
}

/// A tool call as a request carries it. A call without an id gets a
/// made-up one; the arguments are written as compact JSON text.
pub open spec fn wire_call(call: ToolCallView) -> OpenAIToolCallView {
    OpenAIToolCallView {
        id: Some(
            match call.id {
                Some(id) => id,
                None => "call_generated_id"@,
            },
        ),
        call_type: Some("function"@),
        name: Some(call.name),
        arguments: Some(json_rendering(call.arguments)),
    }
}

/// The first `n` tool calls as a request carries them.
pub open spec fn wire_calls(calls: Seq<ToolCallView>, n: int) -> Seq<OpenAIToolCallView>
    decreases n,
{
    if n <= 0 || n > calls.len() {
        Seq::empty()
    } else {
        wire_calls(calls, n - 1).push(wire_call(calls[n - 1]))
    }
}

/// Converts a tool call into the form of a request.
pub fn convert_tool_call(call: &ToolCall) -> (wire: OpenAIToolCall)
    ensures
        wire@ == wire_call(call@),
{
    OpenAIToolCall {
        id: Some(
            match &call.id {
                Some(id) => id.clone(),
                None => String::from_str("call_generated_id"),
            },
        ),
        call_type: Some(String::from_str("function")),
        function: OpenAIFunction {
            name: Some(call.function.name.clone()),
            arguments: Some(call.function.arguments.to_text()),
        },
    }
}

/// Converts the tool calls of a message into the form of a request.
pub fn convert_tool_calls(calls: &Vec<ToolCall>) -> (wire: Vec<OpenAIToolCall>)
    ensures
        wire_call_views(wire@) == wire_calls(crate::types::call_views(calls@), calls@.len() as int),
{
    let ghost model = crate::types::call_views(calls@);
    let mut wire: Vec<OpenAIToolCall> = Vec::new();
    let mut i: usize = 0;
    assert(wire_call_views(wire@) =~= wire_calls(model, 0));
    while i < calls.len()
        invariant
            i <= calls.len(),
            model == crate::types::call_views(calls@),
            wire_call_views(wire@) == wire_calls(model, i as int),
        decreases calls.len() - i,
    {
        let ghost so_far = wire_call_views(wire@);
        let converted = convert_tool_call(&calls[i]);
        wire.push(converted);
        assert(wire_call_views(wire@) =~= so_far.push(converted@));
        i = i + 1;
    }
    wire
}

/// The part of a content array that carries text.
pub open spec fn text_part(text: Seq<char>) -> JsonView {
    JsonView::Object(seq![fld("type"@, JsonView::Str("text"@)), fld("text"@, JsonView::Str(text))])
}

/// The part of a content array that carries an image, given as base64
/// text, in a data URL.
pub open spec fn image_part(image: Seq<char>) -> JsonView {
    JsonView::Object(
        seq![
            fld("type"@, JsonView::Str("image_url"@)),
            fld(
                "image_url"@,
                JsonView::Object(
                    seq![fld("url"@, JsonView::Str("data:image/jpeg;base64,"@ + image))],
                ),
            ),
        ],
    )
}

/// The parts for the first `n` images.
pub open spec fn image_parts(images: Seq<Seq<char>>, n: int) -> Seq<JsonView>
    decreases n,
{
    if n <= 0 || n > images.len() {
        Seq::empty()
    } else {
        image_parts(images, n - 1).push(image_part(images[n - 1]))
    }
}

/// The parts of a message with images: its text unless empty, then its
/// images.
pub open spec fn content_parts(content: Seq<char>, images: Seq<Seq<char>>) -> Seq<JsonView> {
    (if content.len() > 0 {
        seq![text_part(content)]
    } else {
        Seq::empty()
    }) + image_parts(images, images.len() as int)
}

/// The part of a content array that carries text.
pub fn make_text_part(text: &str) -> (part: Json)
    ensures
        part@ == text_part(text@),
{
    let mut fields: Vec<Field> = Vec::new();
    fields.push(Field::new("type", Json::text("text")));
    fields.push(Field::new("text", Json::text(text)));
    assert(field_views(fields@) =~= seq![
        fld("type"@, JsonView::Str("text"@)),
        fld("text"@, JsonView::Str(text@)),
    ]);
    Json::object(fields)
}

/// The part of a content array that carries an image.
pub fn make_image_part(image: &str) -> (part: Json)
    ensures
        part@ == image_part(image@),
{
    let mut url = String::from_str("data:image/jpeg;base64,");
    url.append(image);
    let mut inner: Vec<Field> = Vec::new();
    inner.push(Field::new("url", Json::Str(url)));
    assert(field_views(inner@) =~= seq![
        fld("url"@, JsonView::Str("data:image/jpeg;base64,"@ + image@)),
    ]);
    let mut fields: Vec<Field> = Vec::new();
    fields.push(Field::new("type", Json::text("image_url")));
    fields.push(Field::new("image_url", Json::object(inner)));
    assert(field_views(fields@) =~= seq![
        fld("type"@, JsonView::Str("image_url"@)),
        fld(
            "image_url"@,
            JsonView::Object(
                seq![fld("url"@, JsonView::Str("data:image/jpeg;base64,"@ + image@))],
            ),
        ),
    ]);
    Json::object(fields)
}

/// The parts of a message with images.
pub fn make_content_parts(content: &str, images: &Vec<String>) -> (parts: Vec<Json>)
    ensures
        json_views(parts@) == content_parts(content@, texts(images@)),
{
    let ghost model = texts(images@);
    let mut parts: Vec<Json> = Vec::new();
    if !content.is_empty() {
        parts.push(make_text_part(content));
    }
    let ghost head = json_views(parts@);
    assert(head =~= if content@.len() > 0 {
        seq![text_part(content@)]
    } else {
        Seq::empty()
    });
    let mut i: usize = 0;
    assert(json_views(parts@) =~= head + image_parts(model, 0));
    while i < images.len()
        invariant
            i <= images.len(),
            model == texts(images@),
            json_views(parts@) == head + image_parts(model, i as int),
        decreases images.len() - i,
    {
        let ghost so_far = json_views(parts@);
        let part = make_image_part(images[i].as_str());
        parts.push(part);
        assert(json_views(parts@) =~= so_far.push(part@));
        i = i + 1;
        assert(json_views(parts@) =~= head + image_parts(model, i as int));
    }
    parts
}

/// A message as a request carries it. The result of a tool goes under the
/// id of its call where the content is tagged with one; any other message
/// keeps its role, its tool calls go along, and its content is a string, or
/// an array of parts where it has images.
pub open spec fn wire_message(message: MessageView) -> OpenAIMessageView {
    if message.role == "tool"@ {
        OpenAIMessageView {
            role: Some(message.role),
            content: Some(JsonView::Str(result_content(message.content))),
            tool_calls: None,
            tool_call_id: result_call_id(message.content),
        }
    } else {
        OpenAIMessageView {
            role: Some(message.role),
            content: Some(
                match message.images {
                    Some(images) => if images.len() > 0 {
                        JsonView::Array(content_parts(message.content, images))
                    } else {
                        JsonView::Str(message.content)
                    },
                    None => JsonView::Str(message.content),
                },
            ),
            tool_calls: match message.tool_calls {
                Some(calls) => Some(wire_calls(calls, calls.len() as int)),
                None => None,
            },
            tool_call_id: None,
        }
    }
}

/// Converts a message into the form of a request.
pub fn convert_message(message: &Message) -> (wire: OpenAIMessage)
    ensures
        wire@ == wire_message(message@),
{
    if str_eq(message.role.as_str(), "tool") {
        let (tool_call_id, content) = split_tool_result(message.content.as_str());
        return OpenAIMessage {
            role: Some(message.role.clone()),
            content: Some(Json::Str(content)),
            tool_calls: None,
            tool_call_id,
        };
    }
    let tool_calls = match &message.tool_calls {
        Some(calls) => Some(convert_tool_calls(calls)),
        None => None,
    };
    let content = match &message.images {
        Some(images) => if images.len() > 0 {
            Json::array(make_content_parts(message.content.as_str(), images))
        } else {
            Json::Str(message.content.clone())
        },
        None => Json::Str(message.content.clone()),
    };
    OpenAIMessage {
        role: Some(message.role.clone()),
        content: Some(content),
        tool_calls,
        tool_call_id: None,
    }
}

} // verus!
