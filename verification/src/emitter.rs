//! From deltas to the events that a consumer sees.
//!
//! Every stream of events ends with exactly one event whose `done` is set;
//! nothing is emitted after it.

use crate::accumulator::{
    accepted, accepted_call, drained, PendingView, ToolCallAccumulator,
};
use crate::decode::{add_capped, capped};
use crate::delta::{Delta, DeltaView};
use crate::types::{
    call_views, item_views, ChatStreamItem, ChatStreamItemView, TokenUsage, ToolCall, ToolCallView,
};
use vstd::prelude::*;

verus! {

/// The event that carries a piece of text.
pub open spec fn text_item(text: Seq<char>) -> ChatStreamItemView {
    ChatStreamItemView { content: text, tool_calls: None, done: false, usage: None }
}

/// The event that carries one completed tool call.
pub open spec fn call_item(call: ToolCallView) -> ChatStreamItemView {
    ChatStreamItemView {
        content: Seq::empty(),
        tool_calls: Some(seq![call]),
        done: false,
        usage: None,
    }
}

/// The event that carries token counts.
pub open spec fn usage_item(usage: TokenUsage) -> ChatStreamItemView {
    ChatStreamItemView { content: Seq::empty(), tool_calls: None, done: false, usage: Some(usage) }
}

/// The event that ends a stream, with the calls that were completed by the
/// end of the stream.
pub open spec fn terminal_item(calls: Seq<ToolCallView>) -> ChatStreamItemView {
    ChatStreamItemView {
        content: Seq::empty(),
        tool_calls: if calls.len() > 0 {
            Some(calls)
        } else {
            None
        },
        done: true,
        usage: None,
    }
}

/// The event that carries a piece of text.
pub fn text_event(text: String) -> (item: ChatStreamItem)
    ensures
        item@ == text_item(text@),
{
    ChatStreamItem { content: text, tool_calls: None, done: false, usage: None }
}

/// The event that carries one completed tool call.
pub fn call_event(call: ToolCall) -> (item: ChatStreamItem)
    ensures
        item@ == call_item(call@),
{
    let mut calls: Vec<ToolCall> = Vec::new();
    calls.push(call);
    assert(call_views(calls@) =~= seq![call@]);
    ChatStreamItem { content: String::new(), tool_calls: Some(calls), done: false, usage: None }
}

/// The event that carries token counts.
pub fn usage_event(usage: TokenUsage) -> (item: ChatStreamItem)
    ensures
        item@ == usage_item(usage),
{
    ChatStreamItem { content: String::new(), tool_calls: None, done: false, usage: Some(usage) }
}

/// The event that ends a stream. It carries `calls` unless there are none.
pub fn terminal_event(calls: Vec<ToolCall>) -> (item: ChatStreamItem)
    ensures
        item@ == terminal_item(call_views(calls@)),
{
    let tool_calls = if calls.len() > 0 {
        Some(calls)
    } else {
        None
    };
    ChatStreamItem { content: String::new(), tool_calls, done: true, usage: None }
}

/// The state of an emitter: the tool calls that are pending, and whether
/// the terminal event has been emitted.
pub struct EmitterView {
    pub pending: Seq<PendingView>,
    pub finished: bool,
}

/// The state of an emitter that has seen nothing.
pub open spec fn fresh_emitter() -> EmitterView {
    EmitterView { pending: Seq::empty(), finished: false }
}

/// The event, if any, that `delta` gives rise to in `state`. After the
/// terminal event nothing gives rise to an event.
pub open spec fn emitted(state: EmitterView, delta: DeltaView) -> Option<ChatStreamItemView> {
    if state.finished {
        None
    } else {
        match delta {
            DeltaView::TextFragment(text) => Some(text_item(text)),
            DeltaView::ToolFragment(fragment) => match accepted_call(state.pending, fragment) {
                Some(call) => Some(call_item(call)),
                None => None,
            },
            DeltaView::CompleteCall(call) => Some(call_item(call)),
            DeltaView::UsageInfo(usage) => Some(usage_item(usage)),
            DeltaView::Terminal => Some(terminal_item(drained(state.pending))),
        }
    }
}

/// The state after `delta` has been handled in `state`.
pub open spec fn advanced(state: EmitterView, delta: DeltaView) -> EmitterView {
    if state.finished {
        state
    } else {
        match delta {
            DeltaView::ToolFragment(fragment) => EmitterView {
                pending: accepted(state.pending, fragment),
                finished: false,
            },
            DeltaView::Terminal => EmitterView { pending: Seq::empty(), finished: true },
            _ => state,
        }
    }
}

/// The state after a run of deltas has been handled, one after another.
pub open spec fn emitter_after(state: EmitterView, deltas: Seq<DeltaView>) -> EmitterView
    decreases deltas.len(),
{
    if deltas.len() == 0 {
        state
    } else {
        advanced(emitter_after(state, deltas.drop_last()), deltas.last())
    }
}

/// The events that a run of deltas gives rise to, in order.
pub open spec fn events_of(state: EmitterView, deltas: Seq<DeltaView>) -> Seq<ChatStreamItemView>
    decreases deltas.len(),
{
    if deltas.len() == 0 {
        Seq::empty()
    } else {
        let before = events_of(state, deltas.drop_last());
        match emitted(emitter_after(state, deltas.drop_last()), deltas.last()) {
            Some(item) => before.push(item),
            None => before,
        }
    }
}

/// The event that closes a stream whose backend sent no terminal signal, or
/// nothing where the terminal event has been emitted.
pub open spec fn closing_events(state: EmitterView) -> Seq<ChatStreamItemView> {
    if state.finished {
        Seq::empty()
    } else {
        seq![terminal_item(drained(state.pending))]
    }
}

/// The events of a stream that ends after `deltas`: those that the deltas
/// give rise to, then the closing event where none of them was terminal.
pub open spec fn closed_events(state: EmitterView, deltas: Seq<DeltaView>) -> Seq<
    ChatStreamItemView,
> {
    events_of(state, deltas) + closing_events(emitter_after(state, deltas))
}

/// How many pending calls are dropped when a stream ends in `state`:
/// those whose argument text does not parse.
pub open spec fn dropped_at_end(state: EmitterView) -> nat {
    if state.finished {
        0
    } else {
        (state.pending.len() - drained(state.pending).len()) as nat
    }
}

/// How many pending calls `delta` causes to be dropped in `state`.
pub open spec fn dropped_at(state: EmitterView, delta: DeltaView) -> nat {
    if delta is Terminal {
        dropped_at_end(state)
    } else {
        0
    }
}

/// How many pending calls a run of deltas causes to be dropped.
pub open spec fn dropped_in(state: EmitterView, deltas: Seq<DeltaView>) -> nat
    decreases deltas.len(),
{
    if deltas.len() == 0 {
        0
    } else {
        dropped_in(state, deltas.drop_last()) + dropped_at(
            emitter_after(state, deltas.drop_last()),
            deltas.last(),
        )
    }
}

/// Draining yields at most one call for each pending entry.
pub proof fn lemma_drained_len(pending: Seq<PendingView>)
    ensures
        drained(pending).len() <= pending.len(),
    decreases pending.len(),
{
    if pending.len() > 0 {
        lemma_drained_len(pending.drop_last());
    }
}

/// No event but the last has `done` set.
pub open spec fn done_only_last(events: Seq<ChatStreamItemView>) -> bool {
    forall|i: int| 0 <= i < events.len() - 1 ==> !(#[trigger] events[i]).done
}

/// Exactly one event has `done` set, and it is the last.
pub open spec fn ends_once(events: Seq<ChatStreamItemView>) -> bool {
    events.len() > 0 && events.last().done && done_only_last(events)
}

/// Of the events of a run of deltas none but the last has `done` set; the
/// emitter is finished after the run exactly where it was before or the
/// last event has `done` set; a finished emitter emits nothing.
pub proof fn lemma_events_shape(state: EmitterView, deltas: Seq<DeltaView>)
    ensures
        done_only_last(events_of(state, deltas)),
        state.finished ==> events_of(state, deltas).len() == 0,
        emitter_after(state, deltas).finished <==> state.finished || (events_of(
            state,
            deltas,
        ).len() > 0 && events_of(state, deltas).last().done),
    decreases deltas.len(),
{
    if deltas.len() > 0 {
        lemma_events_shape(state, deltas.drop_last());
        let before = events_of(state, deltas.drop_last());
        let mid = emitter_after(state, deltas.drop_last());
        let events = events_of(state, deltas);
        match emitted(mid, deltas.last()) {
            Some(item) => {
                assert(!mid.finished);
                assert forall|i: int| 0 <= i < events.len() - 1 implies !(
                #[trigger] events[i]).done by {
                    assert(events[i] == before[i]);
                    if i == before.len() - 1 {
                        assert(before.last().done ==> mid.finished);
                    }
                }
            },
            None => {},
        }
    }
}

/// Single terminal event: the events of a stream that starts at a fresh
/// emitter and ends after any run of deltas hold exactly one event with
/// `done` set, and it is the last.
pub proof fn lemma_single_terminal_event(deltas: Seq<DeltaView>)
    ensures
        ends_once(closed_events(fresh_emitter(), deltas)),
{
    let state = fresh_emitter();
    lemma_events_shape(state, deltas);
    let events = events_of(state, deltas);
    let all = closed_events(state, deltas);
    if emitter_after(state, deltas).finished {
        assert(all =~= events);
    } else {
        assert(all =~= events.push(terminal_item(drained(emitter_after(state, deltas).pending))));
        assert forall|i: int| 0 <= i < all.len() - 1 implies !(#[trigger] all[i]).done by {
            assert(all[i] == events[i]);
        }
    }
}

/// The events of two runs of deltas are those of the first, then those of
/// the second in the state that the first left.
pub proof fn lemma_events_append(state: EmitterView, a: Seq<DeltaView>, b: Seq<DeltaView>)
    ensures
        emitter_after(state, a + b) == emitter_after(emitter_after(state, a), b),
        events_of(state, a + b) == events_of(state, a) + events_of(emitter_after(state, a), b),
    decreases b.len(),
{
    if b.len() == 0 {
        assert(a + b =~= a);
        assert(events_of(state, a) + events_of(emitter_after(state, a), b) =~= events_of(
            state,
            a,
        ));
    } else {
        assert((a + b).drop_last() =~= a + b.drop_last());
        assert((a + b).last() == b.last());
        lemma_events_append(state, a, b.drop_last());
        assert(events_of(state, a + b) =~= events_of(state, a) + events_of(
            emitter_after(state, a),
            b,
        ));
    }
}

/// The value of an optional event.
pub open spec fn opt_item_view(item: Option<ChatStreamItem>) -> Option<ChatStreamItemView> {
    match item {
        Some(i) => Some(i@),
        None => None,
    }
}

/// Turns deltas into events and sees to it that the terminal event is the
/// last one.
pub struct EventEmitter {
    accumulator: ToolCallAccumulator,
    finished: bool,
    dropped: usize,
}

impl View for EventEmitter {
    type V = EmitterView;

    closed spec fn view(&self) -> EmitterView {
        EmitterView { pending: self.accumulator@, finished: self.finished }
    }
}

impl EventEmitter {
    /// No two pending calls are for the same position.
    pub closed spec fn wf(&self) -> bool {
        self.accumulator.wf()
    }

    /// How many pending calls have been dropped at the end of the stream
    /// because their argument text did not parse; the largest `usize`
    /// stands for more.
    pub closed spec fn dropped(&self) -> usize {
        self.dropped
    }

    /// How many pending calls have been dropped at the end of the stream.
    pub fn dropped_calls(&self) -> (count: usize)
        ensures
            count == self.dropped(),
    {
        self.dropped
    }

    /// An emitter that has seen nothing.
    pub fn new() -> (emitter: Self)
        ensures
            emitter.wf(),
            emitter@ == fresh_emitter(),
            emitter.dropped() == 0,
    {
        EventEmitter { accumulator: ToolCallAccumulator::new(), finished: false, dropped: 0 }
    }

    /// Drains the accumulator and counts the calls that are dropped.
    fn drain_counting(&mut self) -> (calls: Vec<ToolCall>)
        requires
            !old(self).finished,
        ensures
            final(self).wf(),
            final(self).finished == old(self).finished,
            final(self).accumulator@ == Seq::<PendingView>::empty(),
            call_views(calls@) == drained(old(self)@.pending),
            final(self).dropped() == capped(old(self).dropped() + dropped_at_end(old(self)@)),
    {
        proof {
            lemma_drained_len(self.accumulator@);
        }
        let before = self.accumulator.len();
        let calls = self.accumulator.drain();
        assert(call_views(calls@).len() == calls@.len());
        self.dropped = add_capped(self.dropped, before - calls.len());
        calls
    }

    /// Whether the terminal event has been emitted.
    pub fn is_finished(&self) -> (finished: bool)
        ensures
            finished == self@.finished,
    {
        self.finished
    }

    /// Handles one delta and returns the event that it gives rise to, if
    /// any. A tool fragment gives an event only when it completes its call;
    /// the terminal delta gives the terminal event, which carries the calls
    /// that were still pending and parse. Once the terminal event has been
    /// emitted, nothing is.
    pub fn emit(&mut self, delta: Delta) -> (item: Option<ChatStreamItem>)
        requires
            old(self).wf(),
        ensures
            final(self).wf(),
            opt_item_view(item) == emitted(old(self)@, delta@),
            final(self)@ == advanced(old(self)@, delta@),
            final(self).dropped() == capped(old(self).dropped() + dropped_at(old(self)@, delta@)),
    {
        if self.finished {
            return None;
        }
        match delta {
            Delta::TextFragment(text) => Some(text_event(text)),
            Delta::ToolFragment(fragment) => match self.accumulator.accept(fragment) {
                Some(call) => Some(call_event(call)),
                None => None,
            },
            Delta::CompleteCall(call) => Some(call_event(call)),
            Delta::UsageInfo(usage) => Some(usage_event(usage)),
            Delta::Terminal => {
                let calls = self.drain_counting();
                self.finished = true;
                Some(terminal_event(calls))
            },
        }
    }

    /// Handles a run of deltas and returns the events that they give rise
    /// to, in order.
    pub fn emit_all(&mut self, deltas: Vec<Delta>) -> (items: Vec<ChatStreamItem>)
        requires
            old(self).wf(),
        ensures
            final(self).wf(),
            item_views(items@) == events_of(old(self)@, crate::delta::delta_views(deltas@)),
            final(self)@ == emitter_after(old(self)@, crate::delta::delta_views(deltas@)),
            final(self).dropped() == capped(
                old(self).dropped() + dropped_in(old(self)@, crate::delta::delta_views(deltas@)),
            ),
    {
        let ghost model = crate::delta::delta_views(deltas@);
        let ghost start = self@;
        let ghost start_dropped = self.dropped();
        assert(dropped_in(start, model.take(0)) == 0);
        let mut items: Vec<ChatStreamItem> = Vec::new();
        assert(item_views(items@) =~= events_of(start, model.take(0)));
        for delta in it: deltas
            invariant
                self.wf(),
                model == crate::delta::delta_views(it.seq()),
                item_views(items@) == events_of(start, model.take(it.index() as int)),
                self@ == emitter_after(start, model.take(it.index() as int)),
                self.dropped() == capped(
                    start_dropped + dropped_in(start, model.take(it.index() as int)),
                ),
        {
            let ghost i = it.index() as int;
            let ghost so_far = item_views(items@);
            proof {
                assert(model.take(i + 1).drop_last() =~= model.take(i));
                assert(model.take(i + 1).last() == delta@);
            }
            match self.emit(delta) {
                Some(item) => {
                    let ghost value = item@;
                    items.push(item);
                    assert(item_views(items@) =~= so_far.push(value));
                },
                None => {},
            }
        }
        assert(model.take(model.len() as int) =~= model);
        items
    }

    /// Gives the stream up, as when the transport fails: the pending calls
    /// are discarded, none of them is guessed at, and nothing is emitted
    /// from now on.
    pub fn abort(&mut self)
        ensures
            final(self).wf(),
            final(self)@ == (EmitterView { pending: Seq::empty(), finished: true }),
            final(self).dropped() == old(self).dropped(),
    {
        self.accumulator = ToolCallAccumulator::new();
        self.finished = true;
    }

    /// Ends the stream: where the terminal event has not been emitted, it
    /// is now, with the pending calls that parse.
    pub fn close(&mut self) -> (items: Vec<ChatStreamItem>)
        requires
            old(self).wf(),
        ensures
            final(self).wf(),
            final(self)@.finished,
            item_views(items@) == closing_events(old(self)@),
            final(self).dropped() == capped(old(self).dropped() + dropped_at_end(old(self)@)),
    {
        let mut items: Vec<ChatStreamItem> = Vec::new();
        if !self.finished {
            let calls = self.drain_counting();
            self.finished = true;
            let item = terminal_event(calls);
            let ghost value = item@;
            items.push(item);
            assert(item_views(items@) =~= seq![value]);
        } else {
            assert(item_views(items@) =~= Seq::<ChatStreamItemView>::empty());
        }
        items
    }
}

} // verus!
