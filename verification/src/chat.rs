//! The whole pipeline: from the byte chunks of a response to the events
//! that its consumer sees.

use crate::decode::{capped, malformed_count, records_deltas, Backend};
use crate::emitter::{
    closed_events, dropped_at_end, dropped_in, emitter_after, ends_once, events_of, fresh_emitter,
    lemma_events_append, lemma_single_terminal_event, EmitterView, EventEmitter,
};
use crate::frame::{complete_records, frame_records, pending_tail};
use crate::scan::lemma_find_from;
use crate::stream::{
    chunked_deltas, concat, lemma_chunking_is_invisible, stream_deltas, DeltaStream,
};
use crate::types::{item_views, ChatStreamItem, ChatStreamItemView};
use vstd::prelude::*;

verus! {

/// The events of a whole stream: what its deltas give rise to at a fresh
/// emitter, closed by the terminal event.
pub open spec fn stream_events(backend: Backend, bytes: Seq<u8>) -> Seq<ChatStreamItemView> {
    closed_events(fresh_emitter(), stream_deltas(backend, bytes))
}

/// The events of a stream that arrives in `chunks` and then ends, after
/// `pending` was left open and the emitter was left in `state`: the events
/// that each chunk releases, then those of the end of the stream.
pub open spec fn chunked_events(
    backend: Backend,
    pending: Seq<u8>,
    state: EmitterView,
    chunks: Seq<Seq<u8>>,
) -> Seq<ChatStreamItemView>
    decreases chunks.len(),
{
    let grammar = backend.spec_grammar();
    if chunks.len() == 0 {
        closed_events(state, records_deltas(backend, frame_records(grammar, pending)))
    } else {
        let deltas = records_deltas(backend, complete_records(grammar, pending + chunks[0]));
        events_of(state, deltas) + chunked_events(
            backend,
            pending_tail(grammar, pending + chunks[0]),
            emitter_after(state, deltas),
            chunks.drop_first(),
        )
    }
}

/// The events of a stream that arrives in chunks are those of its deltas,
/// however they were released.
pub proof fn lemma_chunked_events(
    backend: Backend,
    pending: Seq<u8>,
    state: EmitterView,
    chunks: Seq<Seq<u8>>,
)
    ensures
        chunked_events(backend, pending, state, chunks) == closed_events(
            state,
            chunked_deltas(backend, pending, chunks),
        ),
    decreases chunks.len(),
{
    if chunks.len() > 0 {
        let grammar = backend.spec_grammar();
        let deltas = records_deltas(backend, complete_records(grammar, pending + chunks[0]));
        let tail = pending_tail(grammar, pending + chunks[0]);
        let rest = chunks.drop_first();
        lemma_chunked_events(backend, tail, emitter_after(state, deltas), rest);
        lemma_events_append(state, deltas, chunked_deltas(backend, tail, rest));
        assert(chunked_events(backend, pending, state, chunks) =~= closed_events(
            state,
            chunked_deltas(backend, pending, chunks),
        ));
    }
}

/// Chunk-boundary invariance of the events: however a stream is cut into
/// chunks, its consumer sees the events of the stream delivered whole.
pub proof fn lemma_events_ignore_chunking(backend: Backend, chunks: Seq<Seq<u8>>)
    ensures
        chunked_events(backend, Seq::empty(), fresh_emitter(), chunks) == stream_events(
            backend,
            concat(chunks),
        ),
{
    let empty = Seq::<u8>::empty();
    lemma_find_from(empty, backend.spec_grammar().boundary(), 0);
    assert(backend.spec_grammar().boundary().len() > 0);
    lemma_chunked_events(backend, empty, fresh_emitter(), chunks);
    lemma_chunking_is_invisible(backend, empty, chunks);
    assert(empty + concat(chunks) =~= concat(chunks));
}

/// Single terminal event: whatever bytes a stream holds and however they
/// are cut into chunks, exactly one of its events has `done` set, and it is
/// the last.
pub proof fn lemma_stream_ends_once(backend: Backend, chunks: Seq<Seq<u8>>)
    ensures
        ends_once(chunked_events(backend, Seq::empty(), fresh_emitter(), chunks)),
{
    lemma_chunked_events(backend, Seq::empty(), fresh_emitter(), chunks);
    lemma_single_terminal_event(chunked_deltas(backend, Seq::empty(), chunks));
}

/// The decoder of one chat response: it takes the chunks of the response
/// as they arrive and hands out the events that each completes.
pub struct ChatStream {
    deltas: DeltaStream,
    emitter: EventEmitter,
}

impl ChatStream {
    /// The backend whose response this decodes.
    pub closed spec fn backend(&self) -> Backend {
        self.deltas.backend()
    }

    /// The bytes received that no boundary has closed yet.
    pub closed spec fn pending(&self) -> Seq<u8> {
        self.deltas.pending()
    }

    /// The state of the emitter.
    pub closed spec fn state(&self) -> EmitterView {
        self.emitter@
    }

    /// How many malformed records have been passed over; the largest
    /// `usize` stands for more.
    pub closed spec fn malformed(&self) -> usize {
        self.deltas.malformed()
    }

    /// How many pending tool calls have been dropped at the end of the
    /// stream because their arguments did not parse.
    pub closed spec fn dropped(&self) -> usize {
        self.emitter.dropped()
    }

    /// How many malformed records have been passed over.
    pub fn malformed_records(&self) -> (count: usize)
        ensures
            count == self.malformed(),
    {
        self.deltas.malformed_records()
    }

    /// How many pending tool calls have been dropped at the end of the
    /// stream because their arguments did not parse.
    pub fn dropped_calls(&self) -> (count: usize)
        ensures
            count == self.dropped(),
    {
        self.emitter.dropped_calls()
    }

    /// The parts are well-formed.
    pub closed spec fn wf(&self) -> bool {
        self.deltas.wf() && self.emitter.wf()
    }

    /// A decoder for a response of `backend`, with nothing received.
    pub fn new(backend: Backend) -> (stream: Self)
        ensures
            stream.wf(),
            stream.backend() == backend,
            stream.pending() == Seq::<u8>::empty(),
            stream.state() == fresh_emitter(),
            stream.malformed() == 0,
            stream.dropped() == 0,
    {
        ChatStream { deltas: DeltaStream::new(backend), emitter: EventEmitter::new() }
    }

    /// Whether the terminal event has been handed out.
    pub fn is_finished(&self) -> (finished: bool)
        ensures
            finished == self.state().finished,
    {
        self.emitter.is_finished()
    }

    /// Takes the next chunk and returns the events of every record that it
    /// completes, in order. There may be none, and there may be many.
    pub fn feed(&mut self, chunk: &[u8]) -> (items: Vec<ChatStreamItem>)
        requires
            old(self).wf(),
        ensures
            final(self).wf(),
            final(self).backend() == old(self).backend(),
            final(self).pending() == pending_tail(
                old(self).backend().spec_grammar(),
                old(self).pending() + chunk@,
            ),
            item_views(items@) == events_of(
                old(self).state(),
                records_deltas(
                    old(self).backend(),
                    complete_records(
                        old(self).backend().spec_grammar(),
                        old(self).pending() + chunk@,
                    ),
                ),
            ),
            final(self).state() == emitter_after(
                old(self).state(),
                records_deltas(
                    old(self).backend(),
                    complete_records(
                        old(self).backend().spec_grammar(),
                        old(self).pending() + chunk@,
                    ),
                ),
            ),
            final(self).malformed() == capped(
                old(self).malformed() + capped(
                    malformed_count(
                        old(self).backend(),
                        complete_records(
                            old(self).backend().spec_grammar(),
                            old(self).pending() + chunk@,
                        ),
                    ) as int,
                ),
            ),
            final(self).dropped() == capped(
                old(self).dropped() + dropped_in(
                    old(self).state(),
                    records_deltas(
                        old(self).backend(),
                        complete_records(
                            old(self).backend().spec_grammar(),
                            old(self).pending() + chunk@,
                        ),
                    ),
                ),
            ),
    {
        let deltas = self.deltas.feed(chunk);
        self.emitter.emit_all(deltas)
    }

    /// Gives the response up, as when the transport fails: what was left
    /// open and the pending tool calls are discarded, and no event comes
    /// from now on, not even the terminal one. The failure itself is for the
    /// caller to hand on.
    pub fn abort(&mut self)
        requires
            old(self).wf(),
        ensures
            final(self).wf(),
            final(self).backend() == old(self).backend(),
            final(self).pending() == Seq::<u8>::empty(),
            final(self).state() == (EmitterView { pending: Seq::empty(), finished: true }),
            final(self).malformed() == old(self).malformed(),
            final(self).dropped() == old(self).dropped(),
    {
        self.deltas.discard();
        self.emitter.abort();
    }

    /// Ends the response, as when the transport closes: returns the events
    /// of what was left open, and then the terminal event unless it has
    /// been handed out before. The terminal event carries the tool calls
    /// that were pending and whose arguments parse.
    pub fn finish(&mut self) -> (items: Vec<ChatStreamItem>)
        requires
            old(self).wf(),
        ensures
            final(self).wf(),
            final(self).backend() == old(self).backend(),
            final(self).pending() == Seq::<u8>::empty(),
            final(self).state().finished,
            item_views(items@) == closed_events(
                old(self).state(),
                records_deltas(
                    old(self).backend(),
                    frame_records(old(self).backend().spec_grammar(), old(self).pending()),
                ),
            ),
            final(self).malformed() == capped(
                old(self).malformed() + capped(
                    malformed_count(
                        old(self).backend(),
                        frame_records(old(self).backend().spec_grammar(), old(self).pending()),
                    ) as int,
                ),
            ),
            final(self).dropped() == ({
                let deltas = records_deltas(
                    old(self).backend(),
                    frame_records(old(self).backend().spec_grammar(), old(self).pending()),
                );
                capped(
                    old(self).dropped() + dropped_in(old(self).state(), deltas) + dropped_at_end(
                        emitter_after(old(self).state(), deltas),
                    ),
                )
            }),
    {
        let deltas = self.deltas.finalize();
        let mut items = self.emitter.emit_all(deltas);
        let ghost first = item_views(items@);
        let mut last = self.emitter.close();
        let ghost second = item_views(last@);
        items.append(&mut last);
        assert(item_views(items@) =~= first + second);
        items
    }
}

} // verus!
