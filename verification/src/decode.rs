//! Decoding wire records into deltas, for each backend.

use crate::delta::{delta_views, Delta, DeltaView};
use crate::frame::Grammar;
use crate::json::{json_of_bytes, parsed_view, Json, JsonView};
use crate::providers::{anthropic, ollama, openai, openrouter};
use vstd::prelude::*;
use vstd::slice::slice_subrange;

verus! {

/// The backends whose streams can be decoded.
#[derive(Clone, Copy, Debug, PartialEq, Eq, Structural)]
pub enum Backend {
    Ollama,
    Anthropic,
    OpenAI,
    OpenRouter,
}

impl Backend {
    /// The delimiter grammar of the backend's stream.
    pub open spec fn spec_grammar(self) -> Grammar {
        match self {
            Backend::Ollama => Grammar::NewlineJson,
            _ => Grammar::EventStream,
        }
    }

    /// The delimiter grammar of the backend's stream.
    #[verifier::when_used_as_spec(spec_grammar)]
    pub fn grammar(self) -> (grammar: Grammar)
        ensures
            grammar == self.spec_grammar(),
    {
        match self {
            Backend::Ollama => Grammar::NewlineJson,
            _ => Grammar::EventStream,
        }
    }
}

/// The bytes of `data: `, which begin a line that carries a payload.
pub open spec fn data_prefix() -> Seq<u8> {
    seq![100u8, 97u8, 116u8, 97u8, 58u8, 32u8]
}

/// The bytes of `[DONE]`, the payload that ends a stream.
pub open spec fn done_sentinel() -> Seq<u8> {
    seq![91u8, 68u8, 79u8, 78u8, 69u8, 93u8]
}

/// The payload of an event-stream line: what follows `data: `, where the
/// line begins with it.
pub open spec fn payload_of(line: Seq<u8>) -> Option<Seq<u8>> {
    if line.len() >= 6 && line.subrange(0, 6) == data_prefix() {
        Some(line.subrange(6, line.len() as int))
    } else {
        None
    }
}

/// Space, tab, line feed and carriage return.
pub open spec fn is_blank(byte: u8) -> bool {
    byte == 32u8 || byte == 9u8 || byte == 10u8 || byte == 13u8
}

/// `bytes` without the blanks at its start.
pub open spec fn trim_start(bytes: Seq<u8>) -> Seq<u8>
    decreases bytes.len(),
{
    if bytes.len() > 0 && is_blank(bytes[0]) {
        trim_start(bytes.drop_first())
    } else {
        bytes
    }
}

/// `bytes` without the blanks at its end.
pub open spec fn trim_end(bytes: Seq<u8>) -> Seq<u8>
    decreases bytes.len(),
{
    if bytes.len() > 0 && is_blank(bytes.last()) {
        trim_end(bytes.drop_last())
    } else {
        bytes
    }
}

/// Whether a payload is the sentinel that ends a stream: `[DONE]`, with or
/// without blanks around it.
pub open spec fn is_done(payload: Seq<u8>) -> bool {
    trim_end(trim_start(payload)) == done_sentinel()
}

/// What a parsed record decodes to under `backend`.
pub open spec fn value_deltas(backend: Backend, value: JsonView) -> Seq<DeltaView> {
    match backend {
        Backend::Ollama => ollama::stream::response_deltas(value),
        Backend::Anthropic => anthropic::stream::event_deltas(value),
        Backend::OpenAI => openai::stream::chunk_deltas(value),
        Backend::OpenRouter => openrouter::stream::chunk_deltas(value),
    }
}

/// What a record decodes to given what its JSON text parsed to: nothing
/// where it did not parse.
pub open spec fn parsed_deltas(backend: Backend, parsed: Option<JsonView>) -> Seq<DeltaView> {
    match parsed {
        Some(value) => value_deltas(backend, value),
        None => Seq::empty(),
    }
}

/// What the payload of an event-stream line decodes to: the terminal for
/// the sentinel, and else what its JSON text decodes to.
pub open spec fn payload_deltas(backend: Backend, payload: Seq<u8>) -> Seq<DeltaView> {
    if is_done(payload) {
        seq![DeltaView::Terminal]
    } else {
        parsed_deltas(backend, json_of_bytes(payload))
    }
}

/// What one wire record decodes to under `backend`. Under the event-stream
/// grammar a line that does not begin with `data: ` gives nothing.
pub open spec fn record_deltas(backend: Backend, record: Seq<u8>) -> Seq<DeltaView> {
    match backend.spec_grammar() {
        Grammar::NewlineJson => parsed_deltas(backend, json_of_bytes(record)),
        Grammar::EventStream => match payload_of(record) {
            Some(payload) => payload_deltas(backend, payload),
            None => Seq::empty(),
        },
    }
}

/// Whether a record is malformed: it carries a payload that is neither the
/// sentinel nor JSON text. Such a record is passed over.
pub open spec fn is_malformed(backend: Backend, record: Seq<u8>) -> bool {
    match backend.spec_grammar() {
        Grammar::NewlineJson => json_of_bytes(record) is None,
        Grammar::EventStream => match payload_of(record) {
            Some(payload) => !is_done(payload) && json_of_bytes(payload) is None,
            None => false,
        },
    }
}

/// How many of the records are malformed.
pub open spec fn malformed_count(backend: Backend, records: Seq<Seq<u8>>) -> nat
    decreases records.len(),
{
    if records.len() == 0 {
        0
    } else {
        malformed_count(backend, records.drop_last()) + if is_malformed(backend, records.last()) {
            1nat
        } else {
            0nat
        }
    }
}

/// A count as a `usize` holds it: the largest `usize` stands for every
/// count that is larger.
pub open spec fn capped(count: int) -> usize {
    if count >= usize::MAX {
        usize::MAX
    } else if count < 0 {
        0
    } else {
        count as usize
    }
}

/// Adds to a count that a `usize` holds, staying at the largest `usize`.
pub fn add_capped(count: usize, more: usize) -> (sum: usize)
    ensures
        sum == capped(count + more),
        forall|n: int| 0 <= n && count == #[trigger] capped(n) ==> sum == capped(n + more),
{
    if count > usize::MAX - more {
        usize::MAX
    } else {
        count + more
    }
}

/// What a sequence of wire records decodes to: the deltas of each record,
/// in order.
pub open spec fn records_deltas(backend: Backend, records: Seq<Seq<u8>>) -> Seq<DeltaView>
    decreases records.len(),
{
    if records.len() == 0 {
        Seq::empty()
    } else {
        records_deltas(backend, records.drop_last()) + record_deltas(backend, records.last())
    }
}

/// The deltas of two runs of records are those of the first, then those of
/// the second.
pub proof fn lemma_records_deltas_append(backend: Backend, a: Seq<Seq<u8>>, b: Seq<Seq<u8>>)
    ensures
        records_deltas(backend, a + b) == records_deltas(backend, a) + records_deltas(backend, b),
    decreases b.len(),
{
    if b.len() == 0 {
        assert(a + b =~= a);
        assert(records_deltas(backend, a) + records_deltas(backend, b) =~= records_deltas(
            backend,
            a,
        ));
    } else {
        assert((a + b).drop_last() =~= a + b.drop_last());
        assert((a + b).last() == b.last());
        lemma_records_deltas_append(backend, a, b.drop_last());
        assert(records_deltas(backend, a + b) =~= records_deltas(backend, a) + records_deltas(
            backend,
            b,
        ));
    }
}

/// Malformed-record tolerance: a malformed record, between any records
/// before and after it, changes nothing of what those decode to.
pub proof fn lemma_malformed_record_tolerated(
    backend: Backend,
    before: Seq<Seq<u8>>,
    bad: Seq<u8>,
    after: Seq<Seq<u8>>,
)
    requires
        is_malformed(backend, bad),
    ensures
        records_deltas(backend, before + seq![bad] + after) == records_deltas(backend, before)
            + records_deltas(backend, after),
{
    lemma_records_deltas_append(backend, before + seq![bad], after);
    lemma_records_deltas_append(backend, before, seq![bad]);
    assert(seq![bad].drop_last() =~= Seq::<Seq<u8>>::empty());
    assert(seq![bad].last() == bad);
    assert(records_deltas(backend, seq![bad].drop_last()) =~= Seq::<DeltaView>::empty());
    assert(records_deltas(backend, seq![bad]) =~= record_deltas(backend, bad));
    assert(records_deltas(backend, before) + Seq::<DeltaView>::empty() =~= records_deltas(
        backend,
        before,
    ));
}

/// Whether `byte` is a space, a tab, a line feed or a carriage return.
fn blank(byte: u8) -> (yes: bool)
    ensures
        yes == is_blank(byte),
{
    byte == 32u8 || byte == 9u8 || byte == 10u8 || byte == 13u8
}

/// Whether a payload is the sentinel that ends a stream.
pub fn is_done_payload(payload: &[u8]) -> (yes: bool)
    ensures
        yes == is_done(payload@),
{
    let mut lo: usize = 0;
    assert(payload@.subrange(0, payload.len() as int) =~= payload@);
    while lo < payload.len() && blank(payload[lo])
        invariant
            lo <= payload.len(),
            trim_start(payload@) == trim_start(payload@.subrange(lo as int, payload.len() as int)),
        decreases payload.len() - lo,
    {
        assert(payload@.subrange(lo as int, payload.len() as int).drop_first()
            =~= payload@.subrange(lo + 1, payload.len() as int));
        lo = lo + 1;
    }
    let ghost rest = payload@.subrange(lo as int, payload.len() as int);
    assert(trim_start(payload@) == rest);
    let mut hi: usize = payload.len();
    assert(rest.subrange(0, hi - lo) =~= rest);
    while hi > lo && blank(payload[hi - 1])
        invariant
            lo <= hi <= payload.len(),
            rest == payload@.subrange(lo as int, payload.len() as int),
            trim_end(rest) == trim_end(payload@.subrange(lo as int, hi as int)),
        decreases hi - lo,
    {
        assert(payload@.subrange(lo as int, hi as int).drop_last() =~= payload@.subrange(
            lo as int,
            hi - 1,
        ));
        hi = hi - 1;
    }
    let core = slice_subrange(payload, lo, hi);
    assert(trim_end(trim_start(payload@)) == core@);
    if core.len() != 6 {
        return false;
    }
    let same = core[0] == 91u8 && core[1] == 68u8 && core[2] == 79u8 && core[3] == 78u8 && core[4]
        == 69u8 && core[5] == 93u8;
    assert(same == (core@ =~= done_sentinel()));
    same
}

/// The payload of an event-stream line, where the line begins with
/// `data: `.
pub fn strip_data_prefix(line: &[u8]) -> (payload: Option<&[u8]>)
    ensures
        match payload {
            Some(p) => payload_of(line@) == Some(p@),
            None => payload_of(line@) is None,
        },
{
    if line.len() >= 6 && line[0] == 100u8 && line[1] == 97u8 && line[2] == 116u8 && line[3]
        == 97u8 && line[4] == 58u8 && line[5] == 32u8 {
        assert(line@.subrange(0, 6) =~= data_prefix());
        Some(slice_subrange(line, 6, line.len()))
    } else {
        assert(line.len() >= 6 ==> line@.subrange(0, 6) != data_prefix()) by {
            if line.len() >= 6 && line@.subrange(0, 6) == data_prefix() {
                assert(line@.subrange(0, 6)[0] == 100u8);
                assert(line@.subrange(0, 6)[1] == 97u8);
                assert(line@.subrange(0, 6)[2] == 116u8);
                assert(line@.subrange(0, 6)[3] == 97u8);
                assert(line@.subrange(0, 6)[4] == 58u8);
                assert(line@.subrange(0, 6)[5] == 32u8);
            }
        }
        None
    }
}

/// Decodes a record given what its JSON text parsed to.
pub fn decode_parsed(backend: Backend, parsed: Option<Json>) -> (deltas: Vec<Delta>)
    ensures
        delta_views(deltas@) == parsed_deltas(backend, parsed_view(parsed)),
{
    match parsed {
        Some(value) => match backend {
            Backend::Ollama => ollama::stream::decode_response(&value),
            Backend::Anthropic => anthropic::stream::decode_event(&value),
            Backend::OpenAI => openai::stream::decode_chunk(&value),
            Backend::OpenRouter => openrouter::stream::decode_chunk(&value),
        },
        None => {
            let deltas: Vec<Delta> = Vec::new();
            assert(delta_views(deltas@) =~= Seq::<DeltaView>::empty());
            deltas
        },
    }
}

/// Decodes one wire record and says whether it was malformed. A record
/// that is no JSON text, or not of the backend's shape, gives no delta and
/// no error.
pub fn decode_record_noting(backend: Backend, record: &[u8]) -> (result: (Vec<Delta>, bool))
    ensures
        delta_views(result.0@) == record_deltas(backend, record@),
        result.1 == is_malformed(backend, record@),
{
    match backend.grammar() {
        Grammar::NewlineJson => {
            let parsed = Json::parse(record);
            let malformed = parsed.is_none();
            (decode_parsed(backend, parsed), malformed)
        },
        Grammar::EventStream => match strip_data_prefix(record) {
            Some(payload) => {
                if is_done_payload(payload) {
                    let mut deltas: Vec<Delta> = Vec::new();
                    deltas.push(Delta::Terminal);
                    assert(delta_views(deltas@) =~= seq![DeltaView::Terminal]);
                    (deltas, false)
                } else {
                    let parsed = Json::parse(payload);
                    let malformed = parsed.is_none();
                    (decode_parsed(backend, parsed), malformed)
                }
            },
            None => {
                let deltas: Vec<Delta> = Vec::new();
                assert(delta_views(deltas@) =~= Seq::<DeltaView>::empty());
                (deltas, false)
            },
        },
    }
}

/// Decodes one wire record. A record that is no JSON text, or not of the
/// backend's shape, gives no delta and no error.
pub fn decode_record(backend: Backend, record: &[u8]) -> (deltas: Vec<Delta>)
    ensures
        delta_views(deltas@) == record_deltas(backend, record@),
{
    decode_record_noting(backend, record).0
}

/// Moves the deltas of `more` to the end of `deltas`.
pub fn append_deltas(deltas: &mut Vec<Delta>, more: Vec<Delta>)
    ensures
        delta_views(final(deltas)@) == delta_views(old(deltas)@) + delta_views(more@),
{
    let mut more = more;
    let ghost added = more@;
    deltas.append(&mut more);
    assert(delta_views(deltas@) =~= delta_views(old(deltas)@) + delta_views(added));
}

/// Decodes a run of wire records, in order, and counts the malformed ones
/// among them.
pub fn decode_records(backend: Backend, records: &Vec<Vec<u8>>) -> (result: (Vec<Delta>, usize))
    ensures
        delta_views(result.0@) == records_deltas(backend, crate::frame::records_view(records@)),
        result.1 == capped(
            malformed_count(backend, crate::frame::records_view(records@)) as int,
        ),
{
    let ghost model = crate::frame::records_view(records@);
    let mut deltas: Vec<Delta> = Vec::new();
    let mut malformed: usize = 0;
    let mut i: usize = 0;
    assert(delta_views(deltas@) =~= records_deltas(backend, model.take(0)));
    while i < records.len()
        invariant
            i <= records.len(),
            model == crate::frame::records_view(records@),
            delta_views(deltas@) == records_deltas(backend, model.take(i as int)),
            malformed == capped(malformed_count(backend, model.take(i as int)) as int),
        decreases records.len() - i,
    {
        let (more, bad) = decode_record_noting(backend, records[i].as_slice());
        append_deltas(&mut deltas, more);
        proof {
            assert(model.take(i + 1).drop_last() =~= model.take(i as int));
            assert(model.take(i + 1).last() == records@[i as int]@);
        }
        malformed = add_capped(
            malformed,
            if bad {
                1
            } else {
                0
            },
        );
        i = i + 1;
    }
    assert(model.take(records.len() as int) =~= model);
    (deltas, malformed)
}

} // verus!
