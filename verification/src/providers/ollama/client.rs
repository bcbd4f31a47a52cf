//! What an Ollama client decides between its requests and responses.

use crate::fallback::message_views;
use crate::json::{json_of_bytes, parsed_view, Json, JsonView};
use crate::scan::find_first;
use crate::text::{contains, lossy_text, text_of_bytes, texts};
use crate::types::{Message, MessageView, PullProgress, PullProgressView};
use vstd::prelude::*;
use vstd::string::StringExecFns;

verus! {

/// Whether a prompt template names the tools variable, in one of the ways
/// of writing it. A model whose template does can call tools itself.
pub open spec fn template_names_tools(template: Seq<char>) -> bool {
    find_first(template, "{{ .Tools }}"@) is Some || find_first(template, "{{.Tools}}"@) is Some
        || find_first(template, "{{ .tools }}"@) is Some || find_first(template, "{{.tools}}"@)
        is Some || find_first(template, "{{- .Tools }}"@) is Some || find_first(
        template,
        "{{- .tools }}"@,
    ) is Some
}

/// Whether a model with this prompt template can call tools itself.
pub fn supports_tools_template(template: &str) -> (supported: bool)
    ensures
        supported == template_names_tools(template@),
{
    contains(template, "{{ .Tools }}") || contains(template, "{{.Tools}}") || contains(
        template,
        "{{ .tools }}",
    ) || contains(template, "{{.tools}}") || contains(template, "{{- .Tools }}") || contains(
        template,
        "{{- .tools }}",
    )
}

/// The message that carries the result of a tool back to the model. A
/// model that calls tools itself gets it in the role `tool`; one that is
/// prompted to write its calls into the text gets it from the user, with
/// the tool's name in front.
pub open spec fn tool_response(fallback_mode: bool, name: Seq<char>, result: Seq<char>) -> MessageView {
    if fallback_mode {
        MessageView {
            role: "user"@,
            content: "Tool response from "@ + name + ": "@ + result,
            images: None,
            tool_calls: None,
        }
    } else {
        MessageView { role: "tool"@, content: result, images: None, tool_calls: None }
    }
}

/// The message that carries the result of a tool back to the model.
pub fn tool_response_message(fallback_mode: bool, name: &str, result: String) -> (message: Message)
    ensures
        message@ == tool_response(fallback_mode, name@, result@),
{
    if fallback_mode {
        let mut content = String::from_str("Tool response from ");
        content.append(name);
        content.append(": ");
        content.append(result.as_str());
        Message { role: String::from_str("user"), content, images: None, tool_calls: None }
    } else {
        Message { role: String::from_str("tool"), content: result, images: None, tool_calls: None }
    }
}

/// The messages with `images` attached to the last one. Without a message
/// nothing changes.
pub open spec fn with_images(messages: Seq<MessageView>, images: Seq<Seq<char>>) -> Seq<
    MessageView,
> {
    if messages.len() == 0 {
        messages
    } else {
        messages.update(
            messages.len() - 1,
            MessageView {
                role: messages.last().role,
                content: messages.last().content,
                images: Some(images),
                tool_calls: messages.last().tool_calls,
            },
        )
    }
}

/// Attaches encoded images to the last message.
pub fn attach_images(messages: &mut Vec<Message>, images: Vec<String>)
    ensures
        message_views(final(messages)@) == with_images(message_views(old(messages)@), texts(images@)),
{
    let ghost before = message_views(messages@);
    match messages.pop() {
        Some(mut last) => {
            last.images = Some(images);
            messages.push(last);
            assert(message_views(messages@) =~= with_images(before, texts(images@)));
        },
        None => {
            assert(message_views(messages@) =~= before);
        },
    }
}

/// The text that the standard base64 alphabet, with padding, gives for
/// `bytes`.
pub uninterp spec fn base64_text(bytes: Seq<u8>) -> Seq<char>;

/// Whether the base64 text of `n` bytes has a length that a `usize` holds.
pub open spec fn encodable(n: nat) -> bool {
    (n / 3) * 4 + 4 <= usize::MAX
}

/// Calls `encode` of `base64::engine::general_purpose::STANDARD`. The result
/// is named. The call panics where the length of the text overflows, which
/// the condition rules out.
#[verifier::external_body]
fn base64_standard(bytes: &[u8]) -> (text: String)
    requires
        encodable(bytes@.len()),
    ensures
        text@ == base64_text(bytes@),
{
    base64::Engine::encode(&base64::engine::general_purpose::STANDARD, bytes)
}

/// The base64 text of an image, or `None` for one too large to encode.
pub fn encode_image(bytes: &[u8]) -> (text: Option<String>)
    ensures
        match text {
            Some(t) => encodable(bytes@.len()) && t@ == base64_text(bytes@),
            None => !encodable(bytes@.len()),
        },
{
    if bytes.len() / 3 <= (usize::MAX - 4) / 4 {
        Some(base64_standard(bytes))
    } else {
        None
    }
}

/// The progress that a parsed line reports. What is missing is `None`; a
/// missing status is empty.
pub open spec fn progress_of(value: JsonView) -> PullProgressView {
    PullProgressView {
        status: match value.text_at("status"@) {
            Some(status) => status,
            None => Seq::empty(),
        },
        digest: value.text_at("digest"@),
        total: value.number_at("total"@),
        completed: value.number_at("completed"@),
    }
}

/// The progress that a line reports given what it parsed to: a line that
/// is no JSON is itself the status.
pub open spec fn line_progress(line: Seq<u8>, parsed: Option<JsonView>) -> PullProgressView {
    match parsed {
        Some(value) => progress_of(value),
        None => PullProgressView {
            status: lossy_text(line),
            digest: None,
            total: None,
            completed: None,
        },
    }
}

/// Reads the progress that a line reports given what it parsed to.
pub fn read_progress(line: &[u8], parsed: Option<Json>) -> (progress: PullProgress)
    ensures
        progress@ == line_progress(line@, parsed_view(parsed)),
{
    match parsed {
        Some(value) => PullProgress {
            status: match value.text_at("status") {
                Some(status) => status,
                None => String::new(),
            },
            digest: value.text_at("digest"),
            total: value.number_at("total"),
            completed: value.number_at("completed"),
        },
        None => PullProgress {
            status: text_of_bytes(line),
            digest: None,
            total: None,
            completed: None,
        },
    }
}

/// Decodes one line of the progress of a model download.
pub fn decode_progress_line(line: &[u8]) -> (progress: PullProgress)
    ensures
        progress@ == line_progress(line@, json_of_bytes(line@)),
{
    read_progress(line, Json::parse(line))
}

/// What one line of a streamed completion says.
#[derive(Clone, Debug, PartialEq, Eq)]
pub enum GenerateLine {
    /// A piece of the completion.
    Response(String),
    /// A line that holds no piece of the completion.
    Nothing,
    /// A line that is no JSON.
    Malformed,
}

/// The mathematical value of a [`GenerateLine`].
pub enum GenerateLineView {
    Response(Seq<char>),
    Nothing,
    Malformed,
}

impl View for GenerateLine {
    type V = GenerateLineView;

    open spec fn view(&self) -> GenerateLineView {
        match self {
            GenerateLine::Response(text) => GenerateLineView::Response(text@),
            GenerateLine::Nothing => GenerateLineView::Nothing,
            GenerateLine::Malformed => GenerateLineView::Malformed,
        }
    }
}

/// What a line says given what it parsed to: the string under `response`.
pub open spec fn generate_of(parsed: Option<JsonView>) -> GenerateLineView {
    match parsed {
        Some(value) => match value.text_at("response"@) {
            Some(text) => GenerateLineView::Response(text),
            None => GenerateLineView::Nothing,
        },
        None => GenerateLineView::Malformed,
    }
}

/// Reads what a line of a streamed completion says given what it parsed
/// to.
pub fn read_generate(parsed: Option<Json>) -> (line: GenerateLine)
    ensures
        line@ == generate_of(parsed_view(parsed)),
{
    match parsed {
        Some(value) => match value.text_at("response") {
            Some(text) => GenerateLine::Response(text),
            None => GenerateLine::Nothing,
        },
        None => GenerateLine::Malformed,
    }
}

/// Decodes one line of a streamed completion.
pub fn decode_generate_line(line: &[u8]) -> (decoded: GenerateLine)
    ensures
        decoded@ == generate_of(json_of_bytes(line@)),
{
    read_generate(Json::parse(line))
}

/// The completion of an answer that came whole: the string under
/// `response`, or the empty text.
pub fn read_completion(value: &Json) -> (text: String)
    ensures
        text@ == match value@.text_at("response"@) {
            Some(t) => t,
            None => Seq::empty(),
        },
{
    match value.text_at("response") {
        Some(text) => text,
        None => String::new(),
    }
}

} // verus!
