//! Gathering the events of a stream into one answer.

use crate::types::{opt_call_views, ChatStreamItem, ChatStreamItemView, ToolCall, ToolCallView};
use vstd::prelude::*;
use vstd::string::StringExecFns;

verus! {

/// What has been gathered of an answer.
pub struct AnswerView {
    /// The text of the events so far, one after another.
    pub content: Seq<char>,
    /// The tool calls of the last event that carried any.
    pub tool_calls: Option<Seq<ToolCallView>>,
    /// Whether an event had `done` set.
    pub done: bool,
}

/// An answer of which nothing has been gathered.
pub open spec fn empty_answer() -> AnswerView {
    AnswerView { content: Seq::empty(), tool_calls: None, done: false }
}

/// The answer after one more event. Events after the one that has `done`
/// set change nothing.
pub open spec fn gathered(answer: AnswerView, item: ChatStreamItemView) -> AnswerView {
    if answer.done {
        answer
    } else {
        AnswerView {
            content: answer.content + item.content,
            tool_calls: if item.tool_calls is Some {
                item.tool_calls
            } else {
                answer.tool_calls
            },
            done: item.done,
        }
    }
}

/// The answer after the first `n` events.
pub open spec fn gathered_all(items: Seq<ChatStreamItemView>, n: int) -> AnswerView
    decreases n,
{
    if n <= 0 || n > items.len() {
        empty_answer()
    } else {
        gathered(gathered_all(items, n - 1), items[n - 1])
    }
}

/// Gathers the events of a stream into the text of the answer and its tool
/// calls.
pub struct ResponseCollector {
    content: String,
    tool_calls: Option<Vec<ToolCall>>,
    done: bool,
}

impl View for ResponseCollector {
    type V = AnswerView;

    closed spec fn view(&self) -> AnswerView {
        AnswerView {
            content: self.content@,
            tool_calls: opt_call_views(self.tool_calls),
            done: self.done,
        }
    }
}

impl ResponseCollector {
    /// A collector that has gathered nothing.
    pub fn new() -> (collector: Self)
        ensures
            collector@ == empty_answer(),
    {
        ResponseCollector { content: String::new(), tool_calls: None, done: false }
    }

    /// Takes the next event. Returns whether the answer is complete.
    pub fn push(&mut self, item: ChatStreamItem) -> (done: bool)
        ensures
            final(self)@ == gathered(old(self)@, item@),
            done == final(self)@.done,
    {
        if self.done {
            return true;
        }
        let ChatStreamItem { content, tool_calls, done, usage: _ } = item;
        self.content.append(content.as_str());
        if tool_calls.is_some() {
            self.tool_calls = tool_calls;
        }
        self.done = done;
        done
    }

    /// Whether an event with `done` set has been taken.
    pub fn is_done(&self) -> (done: bool)
        ensures
            done == self@.done,
    {
        self.done
    }

    /// The text of the answer and its tool calls.
    pub fn finish(self) -> (answer: (String, Option<Vec<ToolCall>>))
        ensures
            answer.0@ == self@.content,
            opt_call_views(answer.1) == self@.tool_calls,
    {
        (self.content, self.tool_calls)
    }
}

/// Gathers a run of events into the text of the answer and its tool calls,
/// up to the first event that has `done` set.
pub fn collect_response(items: Vec<ChatStreamItem>) -> (answer: (String, Option<Vec<ToolCall>>))
    ensures
        answer.0@ == gathered_all(crate::types::item_views(items@), items@.len() as int).content,
        opt_call_views(answer.1) == gathered_all(
            crate::types::item_views(items@),
            items@.len() as int,
        ).tool_calls,
{
    let ghost model = crate::types::item_views(items@);
    let mut collector = ResponseCollector::new();
    for item in it: items
        invariant
            model == crate::types::item_views(it.seq()),
            collector@ == gathered_all(model, it.index() as int),
    {
        collector.push(item);
    }
    collector.finish()
}

} // verus!
