//! From byte chunks to deltas: the frame assembler and the record decoder
//! put together.

use crate::decode::{
    add_capped, capped, decode_records, lemma_records_deltas_append, malformed_count,
    records_deltas, Backend,
};
use crate::delta::{delta_views, Delta, DeltaView};
use crate::frame::{
    all_records, complete_records, frame_records, lemma_all_records_append, pending_tail,
    FrameAssembler,
};
use crate::scan::{find_first, lemma_find_from};
use vstd::prelude::*;

verus! {

/// The bytes of a run of chunks, one after another.
pub open spec fn concat(chunks: Seq<Seq<u8>>) -> Seq<u8>
    decreases chunks.len(),
{
    if chunks.len() == 0 {
        Seq::empty()
    } else {
        chunks[0] + concat(chunks.drop_first())
    }
}

/// What a whole stream decodes to: the deltas of every record in it.
pub open spec fn stream_deltas(backend: Backend, bytes: Seq<u8>) -> Seq<DeltaView> {
    records_deltas(backend, all_records(backend.spec_grammar(), bytes))
}

/// What a stream decodes to when it arrives in `chunks` after `pending`
/// was left open: the deltas that each chunk releases, then those of what
/// is left open at the end.
pub open spec fn chunked_deltas(backend: Backend, pending: Seq<u8>, chunks: Seq<Seq<u8>>) -> Seq<
    DeltaView,
>
    decreases chunks.len(),
{
    let grammar = backend.spec_grammar();
    if chunks.len() == 0 {
        records_deltas(backend, frame_records(grammar, pending))
    } else {
        records_deltas(backend, complete_records(grammar, pending + chunks[0])) + chunked_deltas(
            backend,
            pending_tail(grammar, pending + chunks[0]),
            chunks.drop_first(),
        )
    }
}

/// What is left open holds no boundary.
pub proof fn lemma_tail_is_open(backend: Backend, bytes: Seq<u8>)
    ensures
        find_first(
            pending_tail(backend.spec_grammar(), bytes),
            backend.spec_grammar().boundary(),
        ) is None,
    decreases bytes.len(),
{
    let grammar = backend.spec_grammar();
    let n = grammar.boundary().len() as int;
    assert(n == 1 || n == 2);
    match find_first(bytes, grammar.boundary()) {
        Some(i) => {
            lemma_find_from(bytes, grammar.boundary(), 0);
            lemma_tail_is_open(backend, bytes.subrange(i + n, bytes.len() as int));
        },
        None => {},
    }
}

/// Chunk-boundary invariance: however a stream is cut into chunks, it
/// decodes to the deltas of the stream delivered whole.
pub proof fn lemma_chunking_is_invisible(backend: Backend, pending: Seq<u8>, chunks: Seq<Seq<u8>>)
    requires
        find_first(pending, backend.spec_grammar().boundary()) is None,
    ensures
        chunked_deltas(backend, pending, chunks) == stream_deltas(
            backend,
            pending + concat(chunks),
        ),
    decreases chunks.len(),
{
    let grammar = backend.spec_grammar();
    if chunks.len() == 0 {
        assert(pending + concat(chunks) =~= pending);
        assert(all_records(grammar, pending) =~= frame_records(grammar, pending));
    } else {
        let first = pending + chunks[0];
        let rest = chunks.drop_first();
        lemma_tail_is_open(backend, first);
        lemma_chunking_is_invisible(backend, pending_tail(grammar, first), rest);
        lemma_all_records_append(grammar, first, concat(rest));
        lemma_records_deltas_append(
            backend,
            complete_records(grammar, first),
            all_records(grammar, pending_tail(grammar, first) + concat(rest)),
        );
        assert(first + concat(rest) =~= pending + concat(chunks));
    }
}

/// A stream cut at any one offset decodes as the stream delivered whole.
pub proof fn lemma_split_is_invisible(backend: Backend, bytes: Seq<u8>, at: int)
    requires
        0 <= at <= bytes.len(),
    ensures
        chunked_deltas(
            backend,
            Seq::empty(),
            seq![bytes.subrange(0, at), bytes.subrange(at, bytes.len() as int)],
        ) == chunked_deltas(backend, Seq::empty(), seq![bytes]),
{
    let head = bytes.subrange(0, at);
    let tail = bytes.subrange(at, bytes.len() as int);
    let empty = Seq::<u8>::empty();
    lemma_find_from(empty, backend.spec_grammar().boundary(), 0);
    assert(backend.spec_grammar().boundary().len() > 0);
    lemma_chunking_is_invisible(backend, empty, seq![head, tail]);
    lemma_chunking_is_invisible(backend, empty, seq![bytes]);
    assert(seq![head, tail].drop_first() =~= seq![tail]);
    assert(seq![tail].drop_first() =~= Seq::<Seq<u8>>::empty());
    assert(seq![bytes].drop_first() =~= Seq::<Seq<u8>>::empty());
    assert(concat(Seq::<Seq<u8>>::empty()) =~= empty);
    assert(concat(seq![tail]) =~= tail);
    assert(concat(seq![head, tail]) =~= bytes);
    assert(concat(seq![bytes]) =~= bytes);
}

/// The decoder of one stream, fed chunk by chunk.
pub struct DeltaStream {
    backend: Backend,
    assembler: FrameAssembler,
    malformed: usize,
}

impl DeltaStream {
    /// The backend whose stream this decodes.
    pub closed spec fn backend(&self) -> Backend {
        self.backend
    }

    /// The bytes received that no boundary has closed yet.
    pub closed spec fn pending(&self) -> Seq<u8> {
        self.assembler.pending()
    }

    /// How many malformed records the decoder has passed over; the largest
    /// `usize` stands for more.
    pub closed spec fn malformed(&self) -> usize {
        self.malformed
    }

    /// How many malformed records the decoder has passed over.
    pub fn malformed_records(&self) -> (count: usize)
        ensures
            count == self.malformed(),
    {
        self.malformed
    }

    /// The assembler splits by the backend's grammar.
    pub closed spec fn wf(&self) -> bool {
        self.assembler.grammar() == self.backend.spec_grammar()
    }

    /// A decoder for a stream of `backend`, with nothing received.
    pub fn new(backend: Backend) -> (stream: Self)
        ensures
            stream.wf(),
            stream.backend() == backend,
            stream.pending() == Seq::<u8>::empty(),
            stream.malformed() == 0,
    {
        DeltaStream { backend, assembler: FrameAssembler::new(backend.grammar()), malformed: 0 }
    }

    /// Takes the next chunk and returns the deltas of every record that it
    /// completes, in order.
    pub fn feed(&mut self, chunk: &[u8]) -> (deltas: Vec<Delta>)
        requires
            old(self).wf(),
        ensures
            final(self).wf(),
            final(self).backend() == old(self).backend(),
            final(self).pending() == pending_tail(
                old(self).backend().spec_grammar(),
                old(self).pending() + chunk@,
            ),
            delta_views(deltas@) == records_deltas(
                old(self).backend(),
                complete_records(old(self).backend().spec_grammar(), old(self).pending() + chunk@),
            ),
            final(self).malformed() == capped(
                old(self).malformed() + capped(
                    malformed_count(
                        old(self).backend(),
                        complete_records(
                            old(self).backend().spec_grammar(),
                            old(self).pending() + chunk@,
                        ),
                    ) as int,
                ),
            ),
    {
        let records = self.assembler.feed(chunk);
        let (deltas, malformed) = decode_records(self.backend, &records);
        self.malformed = add_capped(self.malformed, malformed);
        deltas
    }

    /// Forgets what was left open, without decoding it.
    pub fn discard(&mut self)
        requires
            old(self).wf(),
        ensures
            final(self).wf(),
            final(self).backend() == old(self).backend(),
            final(self).pending() == Seq::<u8>::empty(),
            final(self).malformed() == old(self).malformed(),
    {
        self.assembler.discard();
    }

    /// Ends the stream: returns the deltas of what was left open and
    /// forgets it.
    pub fn finalize(&mut self) -> (deltas: Vec<Delta>)
        requires
            old(self).wf(),
        ensures
            final(self).wf(),
            final(self).backend() == old(self).backend(),
            final(self).pending() == Seq::<u8>::empty(),
            delta_views(deltas@) == records_deltas(
                old(self).backend(),
                frame_records(old(self).backend().spec_grammar(), old(self).pending()),
            ),
            final(self).malformed() == capped(
                old(self).malformed() + capped(
                    malformed_count(
                        old(self).backend(),
                        frame_records(old(self).backend().spec_grammar(), old(self).pending()),
                    ) as int,
                ),
            ),
    {
        let records = self.assembler.finalize();
        let (deltas, malformed) = decode_records(self.backend, &records);
        self.malformed = add_capped(self.malformed, malformed);
        deltas
    }
}

} // verus!
