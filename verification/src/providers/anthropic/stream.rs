//! Anthropic: the events of a streamed message.

use crate::accumulator::{ToolFragment, ToolFragmentView};
use crate::delta::{
    delta_views, push_terminal, push_text, push_usage, terminal_deltas, text_deltas, usage_deltas,
    DeltaView,
};
use crate::json::{Json, JsonView};
use crate::text::{keep_nonempty, nonempty, opt_text, str_eq};
use crate::types::TokenUsage;
use vstd::prelude::*;

verus! {

/// Token counts as an event reports them.
#[derive(Clone, Copy, Debug, PartialEq, Eq, Structural)]
pub struct Usage {
    pub input_tokens: u32,
    pub output_tokens: u32,
}

/// The usage that `json` holds: an object with both counts.
pub open spec fn usage_of(json: JsonView) -> Option<Usage> {
    match (json.count_at("input_tokens"@), json.count_at("output_tokens"@)) {
        (Some(i), Some(o)) => Some(Usage { input_tokens: i, output_tokens: o }),
        _ => None,
    }
}

impl Usage {
    /// The counts in the form that all backends share. The total is the sum
    /// of the two, or none where a `u32` does not hold it.
    pub open spec fn unified(self) -> TokenUsage {
        TokenUsage {
            prompt_tokens: Some(self.input_tokens),
            completion_tokens: Some(self.output_tokens),
            total_tokens: if self.input_tokens + self.output_tokens <= u32::MAX {
                Some((self.input_tokens + self.output_tokens) as u32)
            } else {
                None
            },
        }
    }

    /// Reads the counts from a JSON object. Both must be there.
    pub fn from_json(json: &Json) -> (usage: Option<Usage>)
        ensures
            usage == usage_of(json@),
    {
        match (json.count_at("input_tokens"), json.count_at("output_tokens")) {
            (Some(i), Some(o)) => Some(Usage { input_tokens: i, output_tokens: o }),
            _ => None,
        }
    }

    /// The counts in the form that all backends share.
    pub fn to_token_usage(&self) -> (usage: TokenUsage)
        ensures
            usage == self.unified(),
    {
        let total = if self.input_tokens <= 0xffff_ffff - self.output_tokens {
            Some(self.input_tokens + self.output_tokens)
        } else {
            None
        };
        TokenUsage {
            prompt_tokens: Some(self.input_tokens),
            completion_tokens: Some(self.output_tokens),
            total_tokens: total,
        }
    }
}

/// The usage under the field `usage` of `json`, unified.
pub open spec fn usage_at(json: JsonView) -> Option<TokenUsage> {
    match json.field("usage"@) {
        Some(u) => match usage_of(u) {
            Some(usage) => Some(usage.unified()),
            None => None,
        },
        None => None,
    }
}

/// The usage under the field `usage` of `json`, unified.
pub fn read_usage(json: &Json) -> (usage: Option<TokenUsage>)
    ensures
        usage == usage_at(json@),
{
    match json.get("usage") {
        Some(u) => match Usage::from_json(u) {
            Some(usage) => Some(usage.to_token_usage()),
            None => None,
        },
        None => None,
    }
}

/// What a `content_block_delta` event adds to its block.
#[derive(Clone, Debug, PartialEq, Eq)]
pub enum Delta {
    /// A piece of text.
    TextDelta { text: String },
    /// A piece of the JSON text of a tool's input.
    InputJsonDelta { partial_json: String },
}

/// The mathematical value of a [`Delta`].
pub enum BlockDeltaView {
    TextDelta { text: Seq<char> },
    InputJsonDelta { partial_json: Seq<char> },
}

impl View for Delta {
    type V = BlockDeltaView;

    open spec fn view(&self) -> BlockDeltaView {
        match self {
            Delta::TextDelta { text } => BlockDeltaView::TextDelta { text: text@ },
            Delta::InputJsonDelta { partial_json } => BlockDeltaView::InputJsonDelta {
                partial_json: partial_json@,
            },
        }
    }
}

/// The block delta that `json` holds: its field `type` says which, and the
/// field of that kind must be a string.
pub open spec fn block_delta_of(json: JsonView) -> Option<BlockDeltaView> {
    if json.text_at("type"@) == Some("text_delta"@) {
        match json.text_at("text"@) {
            Some(text) => Some(BlockDeltaView::TextDelta { text }),
            None => None,
        }
    } else if json.text_at("type"@) == Some("input_json_delta"@) {
        match json.text_at("partial_json"@) {
            Some(partial_json) => Some(BlockDeltaView::InputJsonDelta { partial_json }),
            None => None,
        }
    } else {
        None
    }
}

/// Whether the field `type` of `json` is the string `kind`.
pub fn has_type(json: &Json, kind: &str) -> (yes: bool)
    ensures
        yes == (json@.text_at("type"@) == Some(kind@)),
{
    match json.get("type") {
        Some(value) => match value.as_str() {
            Some(s) => str_eq(s, kind),
            None => false,
        },
        None => false,
    }
}

impl Delta {
    /// Reads a block delta from a JSON object.
    pub fn from_json(json: &Json) -> (delta: Option<Delta>)
        ensures
            match delta {
                Some(d) => block_delta_of(json@) == Some(d@),
                None => block_delta_of(json@) is None,
            },
    {
        if has_type(json, "text_delta") {
            match json.text_at("text") {
                Some(text) => Some(Delta::TextDelta { text }),
                None => None,
            }
        } else if has_type(json, "input_json_delta") {
            match json.text_at("partial_json") {
                Some(partial_json) => Some(Delta::InputJsonDelta { partial_json }),
                None => None,
            }
        } else {
            None
        }
    }
}

/// What a `message_delta` event says of the message.
#[derive(Clone, Debug, PartialEq, Eq)]
pub struct MessageDelta {
    pub stop_reason: Option<String>,
    pub stop_sequence: Option<String>,
    pub usage: Option<Usage>,
}

/// The mathematical value of a [`MessageDelta`].
pub struct MessageDeltaView {
    pub stop_reason: Option<Seq<char>>,
    pub stop_sequence: Option<Seq<char>>,
    pub usage: Option<Usage>,
}

impl View for MessageDelta {
    type V = MessageDeltaView;

    open spec fn view(&self) -> MessageDeltaView {
        MessageDeltaView {
            stop_reason: opt_text(self.stop_reason),
            stop_sequence: opt_text(self.stop_sequence),
            usage: self.usage,
        }
    }
}

/// The message delta that `json` holds.
pub open spec fn message_delta_of(json: JsonView) -> MessageDeltaView {
    MessageDeltaView {
        stop_reason: json.text_at("stop_reason"@),
        stop_sequence: json.text_at("stop_sequence"@),
        usage: match json.field("usage"@) {
            Some(u) => usage_of(u),
            None => None,
        },
    }
}

impl MessageDelta {
    /// Reads a message delta from a JSON object; what is missing is `None`.
    pub fn from_json(json: &Json) -> (delta: MessageDelta)
        ensures
            delta@ == message_delta_of(json@),
    {
        MessageDelta {
            stop_reason: json.text_at("stop_reason"),
            stop_sequence: json.text_at("stop_sequence"),
            usage: match json.get("usage") {
                Some(u) => Usage::from_json(u),
                None => None,
            },
        }
    }
}

/// An error that the backend reports in the stream.
#[derive(Clone, Debug, PartialEq, Eq)]
pub struct ApiError {
    pub error_type: String,
    pub message: String,
}

/// The mathematical value of an [`ApiError`].
pub struct ApiErrorView {
    pub error_type: Seq<char>,
    pub message: Seq<char>,
}

impl View for ApiError {
    type V = ApiErrorView;

    open spec fn view(&self) -> ApiErrorView {
        ApiErrorView { error_type: self.error_type@, message: self.message@ }
    }
}

/// The error that `json` holds: an object with the strings `type` and
/// `message`.
pub open spec fn api_error_of(json: JsonView) -> Option<ApiErrorView> {
    match (json.text_at("type"@), json.text_at("message"@)) {
        (Some(error_type), Some(message)) => Some(ApiErrorView { error_type, message }),
        _ => None,
    }
}

impl ApiError {
    /// Reads an error from a JSON object.
    pub fn from_json(json: &Json) -> (error: Option<ApiError>)
        ensures
            match error {
                Some(e) => api_error_of(json@) == Some(e@),
                None => api_error_of(json@) is None,
            },
    {
        match (json.text_at("type"), json.text_at("message")) {
            (Some(error_type), Some(message)) => Some(ApiError { error_type, message }),
            _ => None,
        }
    }
}

/// What a `content_block_start` event decodes to: for a `tool_use` block
/// the first fragment of the call at the block's index, with the id and the
/// name; for any other block nothing.
pub open spec fn start_deltas(event: JsonView) -> Seq<DeltaView> {
    match (event.count_at("index"@), event.field("content_block"@)) {
        (Some(index), Some(block)) => if block.text_at("type"@) == Some("tool_use"@) {
            seq![
                DeltaView::ToolFragment(
                    ToolFragmentView {
                        position: index as usize,
                        id: nonempty(block.text_at("id"@)),
                        name: nonempty(block.text_at("name"@)),
                        argument_chunk: None,
                    },
                ),
            ]
        } else {
            Seq::empty()
        },
        _ => Seq::empty(),
    }
}

/// What a `content_block_delta` event decodes to: its text, or a piece of
/// the arguments of the call at the block's index.
pub open spec fn block_deltas(event: JsonView) -> Seq<DeltaView> {
    match (event.count_at("index"@), event.field("delta"@)) {
        (Some(index), Some(delta)) => match block_delta_of(delta) {
            Some(BlockDeltaView::TextDelta { text }) => text_deltas(Some(text)),
            Some(BlockDeltaView::InputJsonDelta { partial_json }) => seq![
                DeltaView::ToolFragment(
                    ToolFragmentView {
                        position: index as usize,
                        id: None,
                        name: None,
                        argument_chunk: Some(partial_json),
                    },
                ),
            ],
            None => Seq::empty(),
        },
        _ => Seq::empty(),
    }
}

/// The usage that a `message_start` event reports, under `message`.
pub open spec fn start_usage(event: JsonView) -> Option<TokenUsage> {
    match event.field("message"@) {
        Some(message) => usage_at(message),
        None => None,
    }
}

/// The usage that a `message_delta` event reports, under `delta`.
pub open spec fn delta_usage(event: JsonView) -> Option<TokenUsage> {
    match event.field("delta"@) {
        Some(delta) => match message_delta_of(delta).usage {
            Some(usage) => Some(usage.unified()),
            None => None,
        },
        None => None,
    }
}

/// What an event decodes to, by its field `type`. An event of a type that
/// is not listed here gives nothing.
pub open spec fn event_deltas(event: JsonView) -> Seq<DeltaView> {
    let kind = event.text_at("type"@);
    if kind == Some("content_block_delta"@) {
        block_deltas(event)
    } else if kind == Some("content_block_start"@) {
        start_deltas(event)
    } else if kind == Some("message_start"@) {
        usage_deltas(start_usage(event))
    } else if kind == Some("message_delta"@) {
        usage_deltas(delta_usage(event))
    } else if kind == Some("message_stop"@) {
        terminal_deltas(true)
    } else {
        Seq::empty()
    }
}

/// Decodes a `content_block_start` event.
fn decode_start(event: &Json) -> (deltas: Vec<crate::delta::Delta>)
    ensures
        delta_views(deltas@) == start_deltas(event@),
{
    let mut deltas: Vec<crate::delta::Delta> = Vec::new();
    assert(delta_views(deltas@) =~= Seq::<DeltaView>::empty());
    match (event.count_at("index"), event.get("content_block")) {
        (Some(index), Some(block)) => {
            if has_type(block, "tool_use") {
                let fragment = ToolFragment {
                    position: index as usize,
                    id: keep_nonempty(block.text_at("id")),
                    name: keep_nonempty(block.text_at("name")),
                    argument_chunk: None,
                };
                deltas.push(crate::delta::Delta::ToolFragment(fragment));
                assert(delta_views(deltas@) =~= start_deltas(event@));
            }
        },
        _ => {},
    }
    deltas
}

/// Decodes a `content_block_delta` event.
fn decode_block(event: &Json) -> (deltas: Vec<crate::delta::Delta>)
    ensures
        delta_views(deltas@) == block_deltas(event@),
{
    let mut deltas: Vec<crate::delta::Delta> = Vec::new();
    assert(delta_views(deltas@) =~= Seq::<DeltaView>::empty());
    match (event.count_at("index"), event.get("delta")) {
        (Some(index), Some(delta)) => match Delta::from_json(delta) {
            Some(Delta::TextDelta { text }) => {
                push_text(&mut deltas, Some(text));
            },
            Some(Delta::InputJsonDelta { partial_json }) => {
                let fragment = ToolFragment {
                    position: index as usize,
                    id: None,
                    name: None,
                    argument_chunk: Some(partial_json),
                };
                deltas.push(crate::delta::Delta::ToolFragment(fragment));
                assert(delta_views(deltas@) =~= block_deltas(event@));
            },
            None => {},
        },
        _ => {},
    }
    deltas
}

/// Decodes one parsed event.
pub fn decode_event(event: &Json) -> (deltas: Vec<crate::delta::Delta>)
    ensures
        delta_views(deltas@) == event_deltas(event@),
{
    if has_type(event, "content_block_delta") {
        return decode_block(event);
    }
    if has_type(event, "content_block_start") {
        return decode_start(event);
    }
    let mut deltas: Vec<crate::delta::Delta> = Vec::new();
    assert(delta_views(deltas@) =~= Seq::<DeltaView>::empty());
    if has_type(event, "message_start") {
        let usage = match event.get("message") {
            Some(message) => read_usage(message),
            None => None,
        };
        push_usage(&mut deltas, usage);
    } else if has_type(event, "message_delta") {
        let usage = match event.get("delta") {
            Some(delta) => match MessageDelta::from_json(delta).usage {
                Some(usage) => Some(usage.to_token_usage()),
                None => None,
            },
            None => None,
        };
        push_usage(&mut deltas, usage);
    } else if has_type(event, "message_stop") {
        push_terminal(&mut deltas, true);
    }
    assert(delta_views(deltas@) =~= event_deltas(event@));
    deltas
}

} // verus!
