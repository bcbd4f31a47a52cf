//! OpenAI: the chunks of a streamed chat completion.

use crate::accumulator::{ToolFragment, ToolFragmentView};
use crate::delta::{
    delta_views, push_text, push_usage, text_deltas, usage_deltas, Delta, DeltaView,
};
use crate::json::{json_views, Json, JsonView};
use crate::text::{keep_nonempty, nonempty, opt_text};
use crate::types::TokenUsage;
use vstd::prelude::*;

verus! {

/// Token counts as a chunk reports them.
#[derive(Clone, Copy, Debug, PartialEq, Eq, Structural)]
pub struct OpenAIUsage {
    pub prompt_tokens: u32,
    pub completion_tokens: u32,
    pub total_tokens: u32,
}

/// The usage that `json` holds: an object with the three counts.
pub open spec fn usage_of(json: JsonView) -> Option<OpenAIUsage> {
    match (
        json.count_at("prompt_tokens"@),
        json.count_at("completion_tokens"@),
        json.count_at("total_tokens"@),
    ) {
        (Some(p), Some(c), Some(t)) => Some(
            OpenAIUsage { prompt_tokens: p, completion_tokens: c, total_tokens: t },
        ),
        _ => None,
    }
}

/// The usage under the field `usage` of a chunk.
pub open spec fn usage_at(chunk: JsonView) -> Option<TokenUsage> {
    match chunk.field("usage"@) {
        Some(u) => match usage_of(u) {
            Some(usage) => Some(usage.unified()),
            None => None,
        },
        None => None,
    }
}

impl OpenAIUsage {
    /// The counts in the form that all backends share.
    pub open spec fn unified(self) -> TokenUsage {
        TokenUsage {
            prompt_tokens: Some(self.prompt_tokens),
            completion_tokens: Some(self.completion_tokens),
            total_tokens: Some(self.total_tokens),
        }
    }

    /// Reads the counts from a JSON object. All three must be there.
    pub fn from_json(json: &Json) -> (usage: Option<OpenAIUsage>)
        ensures
            usage == usage_of(json@),
    {
        match (
            json.count_at("prompt_tokens"),
            json.count_at("completion_tokens"),
            json.count_at("total_tokens"),
        ) {
            (Some(p), Some(c), Some(t)) => Some(
                OpenAIUsage { prompt_tokens: p, completion_tokens: c, total_tokens: t },
            ),
            _ => None,
        }
    }

    /// The counts in the form that all backends share.
    pub fn to_token_usage(&self) -> (usage: TokenUsage)
        ensures
            usage == self.unified(),
    {
        TokenUsage {
            prompt_tokens: Some(self.prompt_tokens),
            completion_tokens: Some(self.completion_tokens),
            total_tokens: Some(self.total_tokens),
        }
    }
}

/// The function part of a tool call in a chunk.
#[derive(Clone, Debug, PartialEq, Eq)]
pub struct OpenAIFunction {
    pub name: Option<String>,
    /// A piece of the arguments' JSON text.
    pub arguments: Option<String>,
}

/// A tool call, or a piece of one, in a chunk.
#[derive(Clone, Debug, PartialEq, Eq)]
pub struct OpenAIToolCall {
    pub id: Option<String>,
    pub call_type: Option<String>,
    pub function: OpenAIFunction,
}

/// The mathematical value of an [`OpenAIToolCall`].
pub struct OpenAIToolCallView {
    pub id: Option<Seq<char>>,
    pub call_type: Option<Seq<char>>,
    pub name: Option<Seq<char>>,
    pub arguments: Option<Seq<char>>,
}

impl View for OpenAIToolCall {
    type V = OpenAIToolCallView;

    open spec fn view(&self) -> OpenAIToolCallView {
        OpenAIToolCallView {
            id: opt_text(self.id),
            call_type: opt_text(self.call_type),
            name: opt_text(self.function.name),
            arguments: opt_text(self.function.arguments),
        }
    }
}

/// The tool call that `json` holds: an object with a field `function`.
pub open spec fn tool_call_of(json: JsonView) -> Option<OpenAIToolCallView> {
    match json.field("function"@) {
        Some(function) => Some(
            OpenAIToolCallView {
                id: json.text_at("id"@),
                call_type: json.text_at("type"@),
                name: function.text_at("name"@),
                arguments: function.text_at("arguments"@),
            },
        ),
        None => None,
    }
}

impl OpenAIToolCallView {
    /// The call as a fragment of the call at `position`. An empty id or
    /// name counts as none.
    pub open spec fn fragment(self, position: usize) -> ToolFragmentView {
        ToolFragmentView {
            position,
            id: nonempty(self.id),
            name: nonempty(self.name),
            argument_chunk: self.arguments,
        }
    }
}

impl OpenAIToolCall {
    /// Reads a tool call from a JSON object. The field `function` must be
    /// there; what else is missing is `None`.
    pub fn from_json(json: &Json) -> (call: Option<OpenAIToolCall>)
        ensures
            match call {
                Some(c) => tool_call_of(json@) == Some(c@),
                None => tool_call_of(json@) is None,
            },
    {
        match json.get("function") {
            Some(function) => Some(
                OpenAIToolCall {
                    id: json.text_at("id"),
                    call_type: json.text_at("type"),
                    function: OpenAIFunction {
                        name: function.text_at("name"),
                        arguments: function.text_at("arguments"),
                    },
                },
            ),
            None => None,
        }
    }

    /// The call as a fragment of the call at `position`.
    pub fn into_fragment(self, position: usize) -> (fragment: ToolFragment)
        ensures
            fragment@ == self@.fragment(position),
    {
        ToolFragment {
            position,
            id: keep_nonempty(self.id),
            name: keep_nonempty(self.function.name),
            argument_chunk: self.function.arguments,
        }
    }
}

/// The fragments that the first `n` items of a `tool_calls` array decode
/// to. An item's position is its index in the array; an item that is no
/// tool call gives nothing.
pub open spec fn fragment_deltas(items: Seq<JsonView>, n: int) -> Seq<DeltaView>
    decreases n,
{
    if n <= 0 || n > items.len() {
        Seq::empty()
    } else {
        let rest = fragment_deltas(items, n - 1);
        match tool_call_of(items[n - 1]) {
            Some(call) => rest.push(DeltaView::ToolFragment(call.fragment((n - 1) as usize))),
            None => rest,
        }
    }
}

/// The fragments of the field `tool_calls` of a message delta.
pub open spec fn tool_deltas(message: JsonView) -> Seq<DeltaView> {
    match message.items_at("tool_calls"@) {
        Some(items) => fragment_deltas(items, items.len() as int),
        None => Seq::empty(),
    }
}

/// What the message delta of a choice decodes to: its text, then its tool
/// call fragments.
pub open spec fn message_deltas(message: JsonView) -> Seq<DeltaView> {
    text_deltas(message.text_at("content"@)) + tool_deltas(message)
}

/// What the first choice of a chunk decodes to.
pub open spec fn choice_deltas(choices: Seq<JsonView>) -> Seq<DeltaView> {
    if choices.len() == 0 {
        Seq::empty()
    } else {
        match choices[0].field("delta"@) {
            Some(message) => message_deltas(message),
            None => Seq::empty(),
        }
    }
}

/// What a chunk decodes to: its usage, then what its first choice holds.
/// A value without an array `choices` is no chunk and gives nothing.
pub open spec fn chunk_deltas(chunk: JsonView) -> Seq<DeltaView> {
    match chunk.items_at("choices"@) {
        Some(choices) => usage_deltas(usage_at(chunk)) + choice_deltas(choices),
        None => Seq::empty(),
    }
}

/// Appends the fragments of the field `tool_calls` of a message delta.
pub fn push_tool_deltas(deltas: &mut Vec<Delta>, message: &Json)
    ensures
        delta_views(final(deltas)@) == delta_views(old(deltas)@) + tool_deltas(message@),
{
    let ghost before = delta_views(deltas@);
    match message.items_at("tool_calls") {
        Some(items) => {
            let ghost model = json_views(items@);
            let mut i: usize = 0;
            assert(delta_views(deltas@) =~= before + fragment_deltas(model, 0));
            while i < items.len()
                invariant
                    i <= items.len(),
                    model == json_views(items@),
                    delta_views(deltas@) == before + fragment_deltas(model, i as int),
                decreases items.len() - i,
            {
                let ghost so_far = delta_views(deltas@);
                match OpenAIToolCall::from_json(&items[i]) {
                    Some(call) => {
                        let fragment = call.into_fragment(i);
                        deltas.push(Delta::ToolFragment(fragment));
                        assert(delta_views(deltas@) =~= so_far.push(
                            DeltaView::ToolFragment(fragment@),
                        ));
                    },
                    None => {},
                }
                i = i + 1;
                assert(delta_views(deltas@) =~= before + fragment_deltas(model, i as int));
            }
        },
        None => {
            assert(delta_views(deltas@) =~= before + tool_deltas(message@));
        },
    }
}

/// Decodes one parsed chunk.
pub fn decode_chunk(chunk: &Json) -> (deltas: Vec<Delta>)
    ensures
        delta_views(deltas@) == chunk_deltas(chunk@),
{
    let mut deltas: Vec<Delta> = Vec::new();
    assert(delta_views(deltas@) =~= Seq::<DeltaView>::empty());
    match chunk.items_at("choices") {
        Some(choices) => {
            let usage = match chunk.get("usage") {
                Some(u) => match OpenAIUsage::from_json(u) {
                    Some(usage) => Some(usage.to_token_usage()),
                    None => None,
                },
                None => None,
            };
            push_usage(&mut deltas, usage);
            if choices.len() > 0 {
                match choices[0].get("delta") {
                    Some(message) => {
                        push_text(&mut deltas, message.text_at("content"));
                        push_tool_deltas(&mut deltas, message);
                    },
                    None => {},
                }
            }
            assert(delta_views(deltas@) =~= chunk_deltas(chunk@));
            deltas
        },
        None => deltas,
    }
}

} // verus!
