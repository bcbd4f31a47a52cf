//! The decoder of a streamed completion and the events that it hands out.

use crate::chat::ChatStream;
use crate::decode::{records_deltas, Backend};
use crate::delta::DeltaView;
use crate::emitter::{closed_events, emitter_after, events_of, fresh_emitter};
use crate::frame::{complete_records, frame_records, pending_tail, Grammar};
use crate::types::{
    call_views, item_views, ChatStreamItem, ChatStreamItemView, TokenUsage, ToolCall, ToolCallView,
};
use vstd::prelude::*;

verus! {

/// Whether a request asks the backend to report token counts in the
/// stream.
#[derive(Clone, Copy, Debug, PartialEq, Eq, Structural)]
pub struct OpenRouterStreamOptions {
    pub include_usage: bool,
}

/// What a caller asks of a streamed completion.
#[derive(Clone, Copy, Debug, PartialEq, Eq, Structural)]
pub struct StreamOptions {
    pub include_usage: bool,
}

impl StreamOptions {
    /// The options as they are sent to the backend.
    pub fn to_wire(&self) -> (options: OpenRouterStreamOptions)
        ensures
            options.include_usage == self.include_usage,
    {
        OpenRouterStreamOptions { include_usage: self.include_usage }
    }
}

/// One thing that a streamed completion tells its consumer.
#[derive(Clone, Debug, PartialEq, Eq)]
pub enum StreamEvent {
    /// A piece of the answer's text.
    Content(String),
    /// A completed tool call; `arguments` is JSON text.
    ToolCall { id: String, name: String, arguments: String },
    /// The end of the answer.
    Done,
    /// Token counts.
    Usage(TokenUsage),
}

/// The mathematical value of a [`StreamEvent`].
pub enum StreamEventView {
    Content(Seq<char>),
    ToolCall { id: Seq<char>, name: Seq<char>, arguments: Seq<char> },
    Done,
    Usage(TokenUsage),
}

impl View for StreamEvent {
    type V = StreamEventView;

    open spec fn view(&self) -> StreamEventView {
        match self {
            StreamEvent::Content(text) => StreamEventView::Content(text@),
            StreamEvent::ToolCall { id, name, arguments } => StreamEventView::ToolCall {
                id: id@,
                name: name@,
                arguments: arguments@,
            },
            StreamEvent::Done => StreamEventView::Done,
            StreamEvent::Usage(usage) => StreamEventView::Usage(*usage),
        }
    }
}

/// The values of a sequence of stream events.
pub open spec fn event_views(events: Seq<StreamEvent>) -> Seq<StreamEventView> {
    Seq::new(events.len(), |i: int| events[i]@)
}

/// A tool call as a stream event: a call without an id has the empty id,
/// and the arguments are written as compact JSON text.
pub open spec fn call_event_view(call: ToolCallView) -> StreamEventView {
    StreamEventView::ToolCall {
        id: match call.id {
            Some(id) => id,
            None => Seq::empty(),
        },
        name: call.name,
        arguments: crate::json::json_rendering(call.arguments),
    }
}

/// The first `n` tool calls as stream events.
pub open spec fn call_event_views(calls: Seq<ToolCallView>, n: int) -> Seq<StreamEventView>
    decreases n,
{
    if n <= 0 || n > calls.len() {
        Seq::empty()
    } else {
        call_event_views(calls, n - 1).push(call_event_view(calls[n - 1]))
    }
}

/// What one event of the unified stream says, as stream events: its usage,
/// its text unless empty, its tool calls, and the end where `done` is set.
pub open spec fn item_events(item: ChatStreamItemView) -> Seq<StreamEventView> {
    (match item.usage {
        Some(usage) => seq![StreamEventView::Usage(usage)],
        None => Seq::empty(),
    }) + (if item.content.len() > 0 {
        seq![StreamEventView::Content(item.content)]
    } else {
        Seq::empty()
    }) + (match item.tool_calls {
        Some(calls) => call_event_views(calls, calls.len() as int),
        None => Seq::empty(),
    }) + (if item.done {
        seq![StreamEventView::Done]
    } else {
        Seq::empty()
    })
}

/// What the first `n` events of the unified stream say, as stream events.
pub open spec fn items_events(items: Seq<ChatStreamItemView>, n: int) -> Seq<StreamEventView>
    decreases n,
{
    if n <= 0 || n > items.len() {
        Seq::empty()
    } else {
        items_events(items, n - 1) + item_events(items[n - 1])
    }
}

/// Appends to `events` what `item` says.
pub fn push_item_events(events: &mut Vec<StreamEvent>, item: ChatStreamItem)
    ensures
        event_views(final(events)@) == event_views(old(events)@) + item_events(item@),
{
    let ghost before = event_views(events@);
    let ghost model = item@;
    let ChatStreamItem { content, tool_calls, done, usage } = item;
    let ghost part_usage: Seq<StreamEventView> = match model.usage {
        Some(u) => seq![StreamEventView::Usage(u)],
        None => Seq::empty(),
    };
    let ghost part_text: Seq<StreamEventView> = if model.content.len() > 0 {
        seq![StreamEventView::Content(model.content)]
    } else {
        Seq::empty()
    };
    let ghost part_calls: Seq<StreamEventView> = match model.tool_calls {
        Some(calls) => call_event_views(calls, calls.len() as int),
        None => Seq::empty(),
    };
    let ghost part_done: Seq<StreamEventView> = if model.done {
        seq![StreamEventView::Done]
    } else {
        Seq::empty()
    };
    match usage {
        Some(u) => {
            events.push(StreamEvent::Usage(u));
        },
        None => {},
    }
    assert(event_views(events@) =~= before + part_usage);
    if !content.as_str().is_empty() {
        events.push(StreamEvent::Content(content));
    }
    assert(event_views(events@) =~= before + part_usage + part_text);
    let ghost head = event_views(events@);
    match tool_calls {
        Some(calls) => {
            let ghost all = call_views(calls@);
            assert(head =~= head + call_event_views(all, 0));
            for call in it: calls
                invariant
                    all == call_views(it.seq()),
                    event_views(events@) == head + call_event_views(all, it.index() as int),
            {
                let ghost so_far = event_views(events@);
                let ghost value = call@;
                let ToolCall { id, function } = call;
                let text = function.arguments.to_text();
                let id = match id {
                    Some(id) => id,
                    None => String::new(),
                };
                events.push(StreamEvent::ToolCall { id, name: function.name, arguments: text });
                assert(event_views(events@) =~= so_far.push(call_event_view(value)));
            }
            assert(event_views(events@) == head + part_calls);
        },
        None => {
            assert(event_views(events@) =~= head + part_calls);
        },
    }
    let ghost body = event_views(events@);
    if done {
        events.push(StreamEvent::Done);
    }
    assert(event_views(events@) =~= body + part_done);
    assert(item_events(model) == part_usage + part_text + part_calls + part_done);
    assert(event_views(events@) =~= before + item_events(model));
}

/// The decoder of one streamed completion, fed chunk by chunk.
pub struct OpenRouterStreamProcessor {
    stream: ChatStream,
}

impl OpenRouterStreamProcessor {
    /// The unified decoder that this one drives.
    pub closed spec fn inner(&self) -> ChatStream {
        self.stream
    }

    /// The parts are well-formed and decode an OpenRouter stream.
    pub closed spec fn wf(&self) -> bool {
        self.stream.wf() && self.stream.backend() == Backend::OpenRouter
    }

    /// A decoder with nothing received.
    pub fn new() -> (processor: Self)
        ensures
            processor.wf(),
            processor.inner().pending() == Seq::<u8>::empty(),
            processor.inner().state() == fresh_emitter(),
    {
        OpenRouterStreamProcessor { stream: ChatStream::new(Backend::OpenRouter) }
    }

    /// Flattens the events of the unified stream into stream events.
    fn flatten(items: Vec<ChatStreamItem>) -> (events: Vec<StreamEvent>)
        ensures
            event_views(events@) == items_events(item_views(items@), items@.len() as int),
    {
        let ghost model = item_views(items@);
        let mut events: Vec<StreamEvent> = Vec::new();
        assert(event_views(events@) =~= items_events(model, 0));
        for item in it: items
            invariant
                model == item_views(it.seq()),
                event_views(events@) == items_events(model, it.index() as int),
        {
            push_item_events(&mut events, item);
        }
        events
    }

    /// Takes the next chunk and returns what the records that it completes
    /// say, in order.
    pub fn process_chunk(&mut self, chunk: &[u8]) -> (events: Vec<StreamEvent>)
        requires
            old(self).wf(),
        ensures
            final(self).wf(),
            final(self).inner().pending() == pending_tail(
                Grammar::EventStream,
                old(self).inner().pending() + chunk@,
            ),
            final(self).inner().state() == emitter_after(
                old(self).inner().state(),
                chunk_deltas_of(old(self).inner().pending(), chunk@),
            ),
            event_views(events@) == ({
                let items = events_of(
                    old(self).inner().state(),
                    chunk_deltas_of(old(self).inner().pending(), chunk@),
                );
                items_events(items, items.len() as int)
            }),
    {
        let items = self.stream.feed(chunk);
        Self::flatten(items)
    }

    /// Ends the stream, as when the transport closes: returns what was left
    /// to say, the end included unless it has been said.
    pub fn finish(&mut self) -> (events: Vec<StreamEvent>)
        requires
            old(self).wf(),
        ensures
            final(self).wf(),
            final(self).inner().state().finished,
            event_views(events@) == ({
                let items = closed_events(
                    old(self).inner().state(),
                    records_deltas(
                        Backend::OpenRouter,
                        frame_records(Grammar::EventStream, old(self).inner().pending()),
                    ),
                );
                items_events(items, items.len() as int)
            }),
    {
        let items = self.stream.finish();
        Self::flatten(items)
    }
}

/// The deltas of the records that `chunk` completes after `pending` was
/// left open, in an OpenRouter stream.
pub open spec fn chunk_deltas_of(pending: Seq<u8>, chunk: Seq<u8>) -> Seq<DeltaView> {
    records_deltas(Backend::OpenRouter, complete_records(Grammar::EventStream, pending + chunk))
}

} // verus!
