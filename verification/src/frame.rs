//! Splitting a stream of byte chunks into wire records.
//!
//! A stream arrives as chunks cut at arbitrary offsets. The assembler keeps
//! the bytes that do not yet end in a record boundary and hands out the
//! records of every frame that a boundary has closed.

use crate::scan::{find_bytes, find_first, find_from, lemma_find_first_extend, lemma_find_from, occurs_at};
use vstd::prelude::*;
use vstd::slice::{slice_subrange, slice_to_vec};

verus! {

/// The delimiter grammar of a backend's stream.
#[derive(Clone, Copy, Debug, PartialEq, Eq, Structural)]
pub enum Grammar {
    /// One JSON object per line; a frame ends at a line feed.
    NewlineJson,
    /// Server-sent events; a frame ends at the first blank line.
    EventStream,
}

/// The line feed as a one-byte pattern.
pub open spec fn line_feed() -> Seq<u8> {
    seq![10u8]
}

/// A blank line: two line feeds in a row.
pub open spec fn blank_line() -> Seq<u8> {
    seq![10u8, 10u8]
}

impl Grammar {
    /// The bytes that end a frame.
    pub open spec fn boundary(self) -> Seq<u8> {
        match self {
            Grammar::NewlineJson => line_feed(),
            Grammar::EventStream => blank_line(),
        }
    }
}

/// A line is a record unless it is empty or a comment (it starts with `:`).
pub open spec fn is_record_line(line: Seq<u8>) -> bool {
    line.len() > 0 && line[0] != 58u8
}

/// The line as a sequence of records: itself, or nothing where it is no
/// record.
pub open spec fn line_records(line: Seq<u8>) -> Seq<Seq<u8>> {
    if is_record_line(line) {
        seq![line]
    } else {
        Seq::empty()
    }
}

/// The record lines of a block of text, in order. The text after the last
/// line feed counts as a line.
pub open spec fn block_records(block: Seq<u8>) -> Seq<Seq<u8>>
    decreases block.len(),
{
    match find_first(block, line_feed()) {
        Some(i) => if 0 <= i < block.len() {
            line_records(block.subrange(0, i)) + block_records(
                block.subrange(i + 1, block.len() as int),
            )
        } else {
            Seq::empty()
        },
        None => line_records(block),
    }
}

/// The records of one frame: under `NewlineJson` the frame itself unless it
/// is empty, under `EventStream` its record lines.
pub open spec fn frame_records(grammar: Grammar, frame: Seq<u8>) -> Seq<Seq<u8>> {
    match grammar {
        Grammar::NewlineJson => if frame.len() == 0 {
            Seq::empty()
        } else {
            seq![frame]
        },
        Grammar::EventStream => block_records(frame),
    }
}

/// The records of all frames of `bytes` that a boundary closes, in order.
pub open spec fn complete_records(grammar: Grammar, bytes: Seq<u8>) -> Seq<Seq<u8>>
    decreases bytes.len(),
{
    let n = grammar.boundary().len() as int;
    match find_first(bytes, grammar.boundary()) {
        Some(i) => if 0 <= i && 0 < n && i + n <= bytes.len() {
            frame_records(grammar, bytes.subrange(0, i)) + complete_records(
                grammar,
                bytes.subrange(i + n, bytes.len() as int),
            )
        } else {
            Seq::empty()
        },
        None => Seq::empty(),
    }
}

/// What is left of `bytes` after its last closed frame.
pub open spec fn pending_tail(grammar: Grammar, bytes: Seq<u8>) -> Seq<u8>
    decreases bytes.len(),
{
    let n = grammar.boundary().len() as int;
    match find_first(bytes, grammar.boundary()) {
        Some(i) => if 0 <= i && 0 < n && i + n <= bytes.len() {
            pending_tail(grammar, bytes.subrange(i + n, bytes.len() as int))
        } else {
            bytes
        },
        None => bytes,
    }
}

/// Every record of a stream that has ended: those of its closed frames, then
/// those of what was left open.
pub open spec fn all_records(grammar: Grammar, bytes: Seq<u8>) -> Seq<Seq<u8>> {
    complete_records(grammar, bytes) + frame_records(grammar, pending_tail(grammar, bytes))
}

/// The records that a sequence of byte vectors stands for.
pub open spec fn records_view(records: Seq<Vec<u8>>) -> Seq<Seq<u8>> {
    Seq::new(records.len(), |i: int| records[i]@)
}

/// Searching the rest of `s` from `k` on finds what searching `s` from `k`
/// finds, counted from `k`.
pub proof fn lemma_find_shift(s: Seq<u8>, pat: Seq<u8>, k: int)
    requires
        0 <= k <= s.len(),
    ensures
        find_first(s.subrange(k, s.len() as int), pat) == match find_from(s, pat, k) {
            Some(i) => Some(i - k),
            None => None,
        },
{
    let rest = s.subrange(k, s.len() as int);
    lemma_find_from(s, pat, k);
    lemma_find_from(rest, pat, 0);
    assert forall|j: int| 0 <= j implies occurs_at(rest, pat, j) == occurs_at(s, pat, j + k) by {
        if j + pat.len() <= rest.len() {
            assert(rest.subrange(j, j + pat.len()) =~= s.subrange(j + k, j + k + pat.len()));
        }
    }
    match find_from(s, pat, k) {
        Some(i) => {
            assert(occurs_at(rest, pat, i - k));
            match find_first(rest, pat) {
                Some(j) => {
                    assert(occurs_at(s, pat, j + k));
                    if j < i - k {
                        assert(!occurs_at(s, pat, j + k));
                    }
                    if i - k < j {
                        assert(!occurs_at(rest, pat, i - k));
                    }
                },
                None => {
                    assert(!occurs_at(rest, pat, i - k));
                },
            }
        },
        None => {
            match find_first(rest, pat) {
                Some(j) => {
                    assert(occurs_at(s, pat, j + k));
                    assert(!occurs_at(s, pat, j + k));
                },
                None => {},
            }
        },
    }
}

/// Chunk-boundary invariance of framing: the closed frames of `a + b` are
/// those of `a`, then those of what `a` left open followed by `b`; and the
/// same bytes are left open either way.
pub proof fn lemma_records_append(grammar: Grammar, a: Seq<u8>, b: Seq<u8>)
    ensures
        complete_records(grammar, a + b) == complete_records(grammar, a) + complete_records(
            grammar,
            pending_tail(grammar, a) + b,
        ),
        pending_tail(grammar, a + b) == pending_tail(grammar, pending_tail(grammar, a) + b),
    decreases a.len(),
{
    let pat = grammar.boundary();
    let n = pat.len() as int;
    assert(n == 1 || n == 2);
    match find_first(a, pat) {
        Some(i) => {
            lemma_find_from(a, pat, 0);
            lemma_find_first_extend(a, b, pat);
            let rest = a.subrange(i + n, a.len() as int);
            assert((a + b).subrange(0, i) =~= a.subrange(0, i));
            assert((a + b).subrange(i + n, (a + b).len() as int) =~= rest + b);
            lemma_records_append(grammar, rest, b);
            assert(complete_records(grammar, a + b) =~= complete_records(grammar, a)
                + complete_records(grammar, pending_tail(grammar, a) + b));
        },
        None => {
            assert(complete_records(grammar, a) =~= Seq::<Seq<u8>>::empty());
            assert(complete_records(grammar, a + b) =~= complete_records(grammar, a)
                + complete_records(grammar, pending_tail(grammar, a) + b));
        },
    }
}

/// A stream cut in two yields the records of the whole: the records that
/// `a` closes, then every record of what `a` left open followed by `b`.
pub proof fn lemma_all_records_append(grammar: Grammar, a: Seq<u8>, b: Seq<u8>)
    ensures
        all_records(grammar, a + b) == complete_records(grammar, a) + all_records(
            grammar,
            pending_tail(grammar, a) + b,
        ),
{
    lemma_records_append(grammar, a, b);
    assert(all_records(grammar, a + b) =~= complete_records(grammar, a) + all_records(
        grammar,
        pending_tail(grammar, a) + b,
    ));
}

/// Appends `line` to `out` where it is a record line.
fn push_line(line: &[u8], out: &mut Vec<Vec<u8>>)
    ensures
        records_view(final(out)@) == records_view(old(out)@) + line_records(line@),
{
    if line.len() > 0 && line[0] != 58u8 {
        out.push(slice_to_vec(line));
    }
    assert(records_view(out@) =~= records_view(old(out)@) + line_records(line@));
}

/// Appends the record lines of `block` to `out`.
fn push_block(block: &[u8], out: &mut Vec<Vec<u8>>)
    ensures
        records_view(final(out)@) == records_view(old(out)@) + block_records(block@),
{
    let newline: Vec<u8> = vec![10u8];
    let mut start: usize = 0;
    assert(block@.subrange(0, block.len() as int) =~= block@);
    loop
        invariant_except_break
            start <= block.len(),
            newline@ == line_feed(),
            records_view(out@) + block_records(block@.subrange(start as int, block.len() as int))
                == records_view(old(out)@) + block_records(block@),
        ensures
            records_view(out@) == records_view(old(out)@) + block_records(block@),
        decreases block.len() - start,
    {
        let ghost rest = block@.subrange(start as int, block.len() as int);
        let ghost before = records_view(out@);
        proof {
            lemma_find_shift(block@, line_feed(), start as int);
            lemma_find_from(block@, line_feed(), start as int);
        }
        match find_bytes(block, newline.as_slice(), start) {
            Some(i) => {
                let line = slice_subrange(block, start, i);
                push_line(line, out);
                proof {
                    assert(rest.subrange(0, i - start) =~= line@);
                    assert(rest.subrange(i - start + 1, rest.len() as int) =~= block@.subrange(
                        i + 1,
                        block.len() as int,
                    ));
                    assert(before + block_records(rest) =~= records_view(out@) + block_records(
                        block@.subrange(i + 1, block.len() as int),
                    ));
                }
                start = i + 1;
            },
            None => {
                let line = slice_subrange(block, start, block.len());
                push_line(line, out);
                break ;
            },
        }
    }
}

/// Appends the records of one frame to `out`.
fn push_frame(grammar: Grammar, frame: &[u8], out: &mut Vec<Vec<u8>>)
    ensures
        records_view(final(out)@) == records_view(old(out)@) + frame_records(grammar, frame@),
{
    match grammar {
        Grammar::NewlineJson => {
            if frame.len() > 0 {
                out.push(slice_to_vec(frame));
            }
            assert(records_view(out@) =~= records_view(old(out)@) + frame_records(
                grammar,
                frame@,
            ));
        },
        Grammar::EventStream => {
            push_block(frame, out);
        },
    }
}

/// Appends `bytes` to `buffer`.
fn append_bytes(buffer: &mut Vec<u8>, bytes: &[u8])
    ensures
        final(buffer)@ == old(buffer)@ + bytes@,
{
    let mut i: usize = 0;
    while i < bytes.len()
        invariant
            i <= bytes.len(),
            buffer@ == old(buffer)@ + bytes@.subrange(0, i as int),
        decreases bytes.len() - i,
    {
        buffer.push(bytes[i]);
        i = i + 1;
        assert(buffer@ =~= old(buffer)@ + bytes@.subrange(0, i as int));
    }
    assert(bytes@.subrange(0, i as int) =~= bytes@);
}

/// The buffer between a byte stream and the record decoder.
pub struct FrameAssembler {
    grammar: Grammar,
    buffer: Vec<u8>,
}

impl FrameAssembler {
    /// The grammar that the assembler splits by.
    pub closed spec fn grammar(&self) -> Grammar {
        self.grammar
    }

    /// The bytes received that no boundary has closed yet.
    pub closed spec fn pending(&self) -> Seq<u8> {
        self.buffer@
    }

    /// An assembler with nothing buffered.
    pub fn new(grammar: Grammar) -> (assembler: Self)
        ensures
            assembler.grammar() == grammar,
            assembler.pending() == Seq::<u8>::empty(),
    {
        FrameAssembler { grammar, buffer: Vec::new() }
    }

    /// Takes the next chunk and returns the records of every frame that it
    /// closes, in order. What follows the last boundary stays buffered.
    pub fn feed(&mut self, chunk: &[u8]) -> (records: Vec<Vec<u8>>)
        ensures
            final(self).grammar() == old(self).grammar(),
            records_view(records@) == complete_records(
                old(self).grammar(),
                old(self).pending() + chunk@,
            ),
            final(self).pending() == pending_tail(
                old(self).grammar(),
                old(self).pending() + chunk@,
            ),
    {
        append_bytes(&mut self.buffer, chunk);
        let grammar = self.grammar;
        let pattern: Vec<u8> = match grammar {
            Grammar::NewlineJson => vec![10u8],
            Grammar::EventStream => vec![10u8, 10u8],
        };
        let n: usize = pattern.len();
        let ghost total = self.buffer@;
        let mut records: Vec<Vec<u8>> = Vec::new();
        let mut start: usize = 0;
        assert(total.subrange(0, total.len() as int) =~= total);
        assert(records_view(records@) =~= Seq::<Seq<u8>>::empty());
        loop
            invariant_except_break
                start <= self.buffer.len(),
                self.buffer@ == total,
                self.grammar == grammar,
                pattern@ == grammar.boundary(),
                n == pattern@.len(),
                records_view(records@) + complete_records(
                    grammar,
                    total.subrange(start as int, total.len() as int),
                ) == complete_records(grammar, total),
                pending_tail(grammar, total.subrange(start as int, total.len() as int))
                    == pending_tail(grammar, total),
            ensures
                start <= self.buffer.len(),
                self.buffer@ == total,
                self.grammar == grammar,
                records_view(records@) == complete_records(grammar, total),
                total.subrange(start as int, total.len() as int) == pending_tail(grammar, total),
            decreases self.buffer.len() - start,
        {
            let ghost rest = total.subrange(start as int, total.len() as int);
            let ghost before = records_view(records@);
            proof {
                lemma_find_shift(total, grammar.boundary(), start as int);
                lemma_find_from(total, grammar.boundary(), start as int);
            }
            match find_bytes(self.buffer.as_slice(), pattern.as_slice(), start) {
                Some(i) => {
                    let frame = slice_subrange(self.buffer.as_slice(), start, i);
                    push_frame(grammar, frame, &mut records);
                    proof {
                        assert(rest.subrange(0, i - start) =~= frame@);
                        assert(rest.subrange(i - start + n, rest.len() as int) =~= total.subrange(
                            i + n,
                            total.len() as int,
                        ));
                        assert(before + complete_records(grammar, rest) =~= records_view(records@)
                            + complete_records(
                            grammar,
                            total.subrange(i + n, total.len() as int),
                        ));
                    }
                    start = i + n;
                },
                None => {
                    assert(before + complete_records(grammar, rest) =~= before);
                    break ;
                },
            }
        }
        let tail = slice_to_vec(slice_subrange(self.buffer.as_slice(), start, self.buffer.len()));
        self.buffer = tail;
        records
    }

    /// Forgets what was left open.
    pub fn discard(&mut self)
        ensures
            final(self).grammar() == old(self).grammar(),
            final(self).pending() == Seq::<u8>::empty(),
    {
        self.buffer = Vec::new();
    }

    /// Ends the stream: returns the records of what was left open and
    /// empties the buffer.
    pub fn finalize(&mut self) -> (records: Vec<Vec<u8>>)
        ensures
            final(self).grammar() == old(self).grammar(),
            final(self).pending() == Seq::<u8>::empty(),
            records_view(records@) == frame_records(old(self).grammar(), old(self).pending()),
    {
        let mut records: Vec<Vec<u8>> = Vec::new();
        assert(records_view(records@) =~= Seq::<Seq<u8>>::empty());
        push_frame(self.grammar, self.buffer.as_slice(), &mut records);
        self.buffer = Vec::new();
        records
    }
}

} // verus!
