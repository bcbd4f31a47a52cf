//! Ollama: the lines of a streamed chat response.

use crate::delta::{
    delta_views, push_terminal, push_text, push_usage, terminal_deltas, text_deltas, usage_deltas,
    Delta, DeltaView,
};
use crate::json::{json_views, Json, JsonView};
use crate::types::{Function, TokenUsage, ToolCall, ToolCallView};
use vstd::prelude::*;

verus! {

/// The tool call that `json` holds whole: an object whose field `function`
/// has a string `name` and a field `arguments`.
pub open spec fn complete_call_of(json: JsonView) -> Option<ToolCallView> {
    match json.field("function"@) {
        Some(function) => match (function.text_at("name"@), function.field("arguments"@)) {
            (Some(name), Some(arguments)) => Some(
                ToolCallView { id: json.text_at("id"@), name, arguments },
            ),
            _ => None,
        },
        None => None,
    }
}

/// Reads a whole tool call from a JSON object.
pub fn read_complete_call(json: &Json) -> (call: Option<ToolCall>)
    ensures
        match call {
            Some(c) => complete_call_of(json@) == Some(c@),
            None => complete_call_of(json@) is None,
        },
{
    match json.get("function") {
        Some(function) => match (function.text_at("name"), function.get("arguments")) {
            (Some(name), Some(arguments)) => Some(
                ToolCall {
                    id: json.text_at("id"),
                    function: Function { name, arguments: arguments.duplicate() },
                },
            ),
            _ => None,
        },
        None => None,
    }
}

/// The calls that the first `n` items of a `tool_calls` array decode to.
/// An item that is no whole call gives nothing.
pub open spec fn call_deltas(items: Seq<JsonView>, n: int) -> Seq<DeltaView>
    decreases n,
{
    if n <= 0 || n > items.len() {
        Seq::empty()
    } else {
        let rest = call_deltas(items, n - 1);
        match complete_call_of(items[n - 1]) {
            Some(call) => rest.push(DeltaView::CompleteCall(call)),
            None => rest,
        }
    }
}

/// The calls of the field `tool_calls` of a message.
pub open spec fn tool_deltas(message: JsonView) -> Seq<DeltaView> {
    match message.items_at("tool_calls"@) {
        Some(items) => call_deltas(items, items.len() as int),
        None => Seq::empty(),
    }
}

/// The sum of two counts where both are there and a `u32` holds it.
pub open spec fn count_sum(a: Option<u32>, b: Option<u32>) -> Option<u32> {
    match (a, b) {
        (Some(x), Some(y)) => if x + y <= u32::MAX {
            Some((x + y) as u32)
        } else {
            None
        },
        _ => None,
    }
}

/// The usage that a response line reports: the counts of evaluated prompt
/// and answer tokens, where at least one of the two is there.
pub open spec fn response_usage(response: JsonView) -> Option<TokenUsage> {
    let prompt = response.count_at("prompt_eval_count"@);
    let answer = response.count_at("eval_count"@);
    if prompt is Some || answer is Some {
        Some(
            TokenUsage {
                prompt_tokens: prompt,
                completion_tokens: answer,
                total_tokens: count_sum(prompt, answer),
            },
        )
    } else {
        None
    }
}

/// What a response line decodes to: its usage, the text of its message, the
/// message's tool calls, and the terminal where `done` is set. A value
/// without a field `message` or without a boolean `done` is no response and
/// gives nothing.
pub open spec fn response_deltas(response: JsonView) -> Seq<DeltaView> {
    match (response.field("message"@), response.truth_at("done"@)) {
        (Some(message), Some(done)) => usage_deltas(response_usage(response)) + text_deltas(
            message.text_at("content"@),
        ) + tool_deltas(message) + terminal_deltas(done),
        _ => Seq::empty(),
    }
}

/// Reads the usage of a response line.
pub fn read_response_usage(response: &Json) -> (usage: Option<TokenUsage>)
    ensures
        usage == response_usage(response@),
{
    let prompt = response.count_at("prompt_eval_count");
    let answer = response.count_at("eval_count");
    if prompt.is_some() || answer.is_some() {
        let total = match (prompt, answer) {
            (Some(x), Some(y)) => if x <= 0xffff_ffff - y {
                Some(x + y)
            } else {
                None
            },
            _ => None,
        };
        Some(TokenUsage { prompt_tokens: prompt, completion_tokens: answer, total_tokens: total })
    } else {
        None
    }
}

/// Appends the calls of the field `tool_calls` of a message.
pub fn push_tool_deltas(deltas: &mut Vec<Delta>, message: &Json)
    ensures
        delta_views(final(deltas)@) == delta_views(old(deltas)@) + tool_deltas(message@),
{
    let ghost before = delta_views(deltas@);
    match message.items_at("tool_calls") {
        Some(items) => {
            let ghost model = json_views(items@);
            let mut i: usize = 0;
            assert(delta_views(deltas@) =~= before + call_deltas(model, 0));
            while i < items.len()
                invariant
                    i <= items.len(),
                    model == json_views(items@),
                    delta_views(deltas@) == before + call_deltas(model, i as int),
                decreases items.len() - i,
            {
                let ghost so_far = delta_views(deltas@);
                match read_complete_call(&items[i]) {
                    Some(call) => {
                        let ghost value = call@;
                        deltas.push(Delta::CompleteCall(call));
                        assert(delta_views(deltas@) =~= so_far.push(DeltaView::CompleteCall(value)));
                    },
                    None => {},
                }
                i = i + 1;
                assert(delta_views(deltas@) =~= before + call_deltas(model, i as int));
            }
        },
        None => {
            assert(delta_views(deltas@) =~= before + tool_deltas(message@));
        },
    }
}

/// Decodes one parsed response line.
pub fn decode_response(response: &Json) -> (deltas: Vec<Delta>)
    ensures
        delta_views(deltas@) == response_deltas(response@),
{
    let mut deltas: Vec<Delta> = Vec::new();
    assert(delta_views(deltas@) =~= Seq::<DeltaView>::empty());
    match (response.get("message"), response.truth_at("done")) {
        (Some(message), Some(done)) => {
            push_usage(&mut deltas, read_response_usage(response));
            push_text(&mut deltas, message.text_at("content"));
            push_tool_deltas(&mut deltas, message);
            push_terminal(&mut deltas, done);
            assert(delta_views(deltas@) =~= response_deltas(response@));
        },
        _ => {},
    }
    deltas
}

} // verus!
