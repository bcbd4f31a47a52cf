//! The values that pass between a chat backend and its consumer.

use crate::json::{Json, JsonView};
use crate::text::{opt_text, texts};
use vstd::prelude::*;

verus! {

/// The function that a tool call names, with its arguments.
#[derive(Clone, Debug, PartialEq, Eq)]
pub struct Function {
    pub name: String,
    pub arguments: Json,
}

/// One invocation of a tool, as a backend asked for it.
#[derive(Clone, Debug, PartialEq, Eq)]
pub struct ToolCall {
    /// The backend's id of the call; text-marker calls have none.
    pub id: Option<String>,
    pub function: Function,
}

/// The mathematical value of a [`ToolCall`].
pub struct ToolCallView {
    pub id: Option<Seq<char>>,
    pub name: Seq<char>,
    pub arguments: JsonView,
}

impl View for ToolCall {
    type V = ToolCallView;

    open spec fn view(&self) -> ToolCallView {
        ToolCallView {
            id: opt_text(self.id),
            name: self.function.name@,
            arguments: self.function.arguments@,
        }
    }
}

/// The values of a sequence of tool calls.
pub open spec fn call_views(calls: Seq<ToolCall>) -> Seq<ToolCallView> {
    Seq::new(calls.len(), |i: int| calls[i]@)
}

/// The values of an optional list of tool calls.
pub open spec fn opt_call_views(calls: Option<Vec<ToolCall>>) -> Option<Seq<ToolCallView>> {
    match calls {
        Some(v) => Some(call_views(v@)),
        None => None,
    }
}

impl ToolCall {
    /// A copy of this call.
    pub fn duplicate(&self) -> (copy: ToolCall)
        ensures
            copy@ == self@,
    {
        ToolCall {
            id: match &self.id {
                Some(id) => Some(id.clone()),
                None => None,
            },
            function: Function {
                name: self.function.name.clone(),
                arguments: self.function.arguments.duplicate(),
            },
        }
    }
}

/// Token counts that a backend reports for a request.
#[derive(Clone, Copy, Debug, PartialEq, Eq, Structural)]
pub struct TokenUsage {
    pub prompt_tokens: Option<u32>,
    pub completion_tokens: Option<u32>,
    pub total_tokens: Option<u32>,
}

/// One message of a conversation.
#[derive(Clone, Debug, PartialEq, Eq)]
pub struct Message {
    pub role: String,
    pub content: String,
    /// Images, each base64-encoded.
    pub images: Option<Vec<String>>,
    pub tool_calls: Option<Vec<ToolCall>>,
}

/// The mathematical value of a [`Message`].
pub struct MessageView {
    pub role: Seq<char>,
    pub content: Seq<char>,
    pub images: Option<Seq<Seq<char>>>,
    pub tool_calls: Option<Seq<ToolCallView>>,
}

impl View for Message {
    type V = MessageView;

    open spec fn view(&self) -> MessageView {
        MessageView {
            role: self.role@,
            content: self.content@,
            images: match self.images {
                Some(v) => Some(texts(v@)),
                None => None,
            },
            tool_calls: opt_call_views(self.tool_calls),
        }
    }
}

/// One event of a chat response stream.
#[derive(Clone, Debug, PartialEq, Eq)]
pub struct ChatStreamItem {
    /// Text of the answer; may be empty.
    pub content: String,
    /// Tool calls completed with this event.
    pub tool_calls: Option<Vec<ToolCall>>,
    /// Set on the last event of a stream and on no other.
    pub done: bool,
    pub usage: Option<TokenUsage>,
}

/// The mathematical value of a [`ChatStreamItem`].
pub struct ChatStreamItemView {
    pub content: Seq<char>,
    pub tool_calls: Option<Seq<ToolCallView>>,
    pub done: bool,
    pub usage: Option<TokenUsage>,
}

impl View for ChatStreamItem {
    type V = ChatStreamItemView;

    open spec fn view(&self) -> ChatStreamItemView {
        ChatStreamItemView {
            content: self.content@,
            tool_calls: opt_call_views(self.tool_calls),
            done: self.done,
            usage: self.usage,
        }
    }
}

/// The values of a sequence of stream events.
pub open spec fn item_views(items: Seq<ChatStreamItem>) -> Seq<ChatStreamItemView> {
    Seq::new(items.len(), |i: int| items[i]@)
}

/// Progress of a model download.
#[derive(Clone, Debug, PartialEq, Eq)]
pub struct PullProgress {
    pub status: String,
    pub digest: Option<String>,
    pub total: Option<u64>,
    pub completed: Option<u64>,
}

/// The mathematical value of a [`PullProgress`].
pub struct PullProgressView {
    pub status: Seq<char>,
    pub digest: Option<Seq<char>>,
    pub total: Option<u64>,
    pub completed: Option<u64>,
}

impl View for PullProgress {
    type V = PullProgressView;

    open spec fn view(&self) -> PullProgressView {
        PullProgressView {
            status: self.status@,
            digest: opt_text(self.digest),
            total: self.total,
            completed: self.completed,
        }
    }
}

/// What a backend tells about a model.
#[derive(Clone, Debug, PartialEq, Eq)]
pub struct ModelInfo {
    pub license: String,
    pub modelfile: String,
    pub parameters: String,
    pub template: String,
}

/// A tool offered to the model: its name, what it does and the schema of
/// its parameters.
#[derive(Clone, Debug, PartialEq, Eq)]
pub struct Tool {
    pub name: String,
    pub description: String,
    pub parameters: Json,
}

} // verus!
