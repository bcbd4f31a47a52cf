//! Merging the fragments of streamed tool calls into complete calls.
//!
//! A backend sends the arguments of a tool call as pieces of JSON text, each
//! tagged with the position of its call. A call is complete as soon as the
//! pieces received for its position, put together, parse as JSON.

use crate::json::{json_of_bytes, parsed_view, Json, JsonView};
use crate::text::opt_text;
use crate::types::{call_views, Function, ToolCall, ToolCallView};
use vstd::prelude::*;
use vstd::string::StringExecFns;
use vstd::utf8::encode_utf8;

verus! {

/// One piece of a streamed tool call.
#[derive(Clone, Debug, PartialEq, Eq)]
pub struct ToolFragment {
    /// Which of the calls of this response the piece belongs to.
    pub position: usize,
    pub id: Option<String>,
    pub name: Option<String>,
    /// The next piece of the argument text.
    pub argument_chunk: Option<String>,
}

/// The mathematical value of a [`ToolFragment`].
pub struct ToolFragmentView {
    pub position: usize,
    pub id: Option<Seq<char>>,
    pub name: Option<Seq<char>>,
    pub argument_chunk: Option<Seq<char>>,
}

impl View for ToolFragment {
    type V = ToolFragmentView;

    open spec fn view(&self) -> ToolFragmentView {
        ToolFragmentView {
            position: self.position,
            id: opt_text(self.id),
            name: opt_text(self.name),
            argument_chunk: opt_text(self.argument_chunk),
        }
    }
}

/// What has been received of a call that is not complete yet.
#[derive(Clone, Debug, PartialEq, Eq)]
pub struct PendingToolCall {
    pub position: usize,
    pub id: Option<String>,
    pub name: Option<String>,
    pub argument_buffer: String,
}

/// The mathematical value of a [`PendingToolCall`].
pub struct PendingView {
    pub position: usize,
    pub id: Option<Seq<char>>,
    pub name: Option<Seq<char>>,
    pub buffer: Seq<char>,
}

impl View for PendingToolCall {
    type V = PendingView;

    open spec fn view(&self) -> PendingView {
        PendingView {
            position: self.position,
            id: opt_text(self.id),
            name: opt_text(self.name),
            buffer: self.argument_buffer@,
        }
    }
}

/// The values of a sequence of pending calls.
pub open spec fn pending_views(entries: Seq<PendingToolCall>) -> Seq<PendingView> {
    Seq::new(entries.len(), |i: int| entries[i]@)
}

/// The first index at or after `from` whose entry is for `position`.
pub open spec fn slot_from(pending: Seq<PendingView>, position: usize, from: int) -> Option<int>
    decreases pending.len() - from,
{
    if from < 0 || from >= pending.len() {
        None
    } else if pending[from].position == position {
        Some(from)
    } else {
        slot_from(pending, position, from + 1)
    }
}

/// The index of the entry for `position`.
pub open spec fn slot_of(pending: Seq<PendingView>, position: usize) -> Option<int> {
    slot_from(pending, position, 0)
}

/// No two entries are for the same position.
pub open spec fn distinct_positions(pending: Seq<PendingView>) -> bool {
    forall|i: int, j: int|
        0 <= i < j < pending.len() ==> (#[trigger] pending[i]).position != (
        #[trigger] pending[j]).position
}

/// The value that is kept of an id or a name: the first one received.
pub open spec fn first_wins(kept: Option<Seq<char>>, received: Option<Seq<char>>) -> Option<
    Seq<char>,
> {
    if kept is Some {
        kept
    } else {
        received
    }
}

/// The argument text that a fragment adds.
pub open spec fn chunk_text(fragment: ToolFragmentView) -> Seq<char> {
    match fragment.argument_chunk {
        Some(chunk) => chunk,
        None => Seq::empty(),
    }
}

/// An entry after it has taken `fragment` in: id and name stay where they
/// were set, the argument text grows at its end.
pub open spec fn absorbed(entry: PendingView, fragment: ToolFragmentView) -> PendingView {
    PendingView {
        position: entry.position,
        id: first_wins(entry.id, fragment.id),
        name: first_wins(entry.name, fragment.name),
        buffer: entry.buffer + chunk_text(fragment),
    }
}

/// The entry of a position of which nothing has been received.
pub open spec fn blank(position: usize) -> PendingView {
    PendingView { position, id: None, name: None, buffer: Seq::empty() }
}

/// The index at which `fragment` is merged: that of the entry for its
/// position, or the end where there is none.
pub open spec fn merge_slot(pending: Seq<PendingView>, fragment: ToolFragmentView) -> int {
    match slot_of(pending, fragment.position) {
        Some(k) => k,
        None => pending.len() as int,
    }
}

/// The pending calls after `fragment` has been merged in.
pub open spec fn merged(pending: Seq<PendingView>, fragment: ToolFragmentView) -> Seq<
    PendingView,
> {
    match slot_of(pending, fragment.position) {
        Some(k) => pending.update(k, absorbed(pending[k], fragment)),
        None => pending.push(absorbed(blank(fragment.position), fragment)),
    }
}

/// The call that a pending entry becomes once its arguments are known. A
/// call whose name never came has the empty name.
pub open spec fn promoted(entry: PendingView, arguments: JsonView) -> ToolCallView {
    ToolCallView {
        id: entry.id,
        name: match entry.name {
            Some(name) => name,
            None => Seq::empty(),
        },
        arguments,
    }
}

/// The call, if any, that `entry` becomes given what its argument text
/// parsed to.
pub open spec fn promotion(entry: PendingView, parsed: Option<JsonView>) -> Option<ToolCallView> {
    match parsed {
        Some(arguments) => Some(promoted(entry, arguments)),
        None => None,
    }
}

/// What the argument text of `entry` parses to.
pub open spec fn parsed_arguments(entry: PendingView) -> Option<JsonView> {
    json_of_bytes(encode_utf8(entry.buffer))
}

/// The pending calls after the entry for `position` has been settled with
/// `parsed`: it leaves where `parsed` is a value, and else stays.
pub open spec fn settled(pending: Seq<PendingView>, position: usize, parsed: Option<JsonView>) -> Seq<
    PendingView,
> {
    match slot_of(pending, position) {
        Some(k) => if parsed is Some {
            pending.remove(k)
        } else {
            pending
        },
        None => pending,
    }
}

/// The call that settling the entry for `position` with `parsed` completes.
pub open spec fn settled_call(
    pending: Seq<PendingView>,
    position: usize,
    parsed: Option<JsonView>,
) -> Option<ToolCallView> {
    match slot_of(pending, position) {
        Some(k) => promotion(pending[k], parsed),
        None => None,
    }
}

/// The pending calls after `fragment` has been accepted.
pub open spec fn accepted(pending: Seq<PendingView>, fragment: ToolFragmentView) -> Seq<
    PendingView,
> {
    let grown = merged(pending, fragment);
    settled(grown, fragment.position, parsed_arguments(grown[merge_slot(pending, fragment)]))
}

/// The call that accepting `fragment` completes.
pub open spec fn accepted_call(pending: Seq<PendingView>, fragment: ToolFragmentView) -> Option<
    ToolCallView,
> {
    let grown = merged(pending, fragment);
    settled_call(grown, fragment.position, parsed_arguments(grown[merge_slot(pending, fragment)]))
}

/// The calls that the pending entries become at the end of a stream: each
/// entry whose argument text parses, in the order of the entries.
pub open spec fn drained(pending: Seq<PendingView>) -> Seq<ToolCallView>
    decreases pending.len(),
{
    if pending.len() == 0 {
        Seq::empty()
    } else {
        let last = pending.last();
        let rest = drained(pending.drop_last());
        match parsed_arguments(last) {
            Some(arguments) => rest.push(promoted(last, arguments)),
            None => rest,
        }
    }
}

/// The value of an optional call.
pub open spec fn opt_call_view(call: Option<ToolCall>) -> Option<ToolCallView> {
    match call {
        Some(c) => Some(c@),
        None => None,
    }
}

/// `slot_from` returns an index of an entry for `position` with none before
/// it from `from` on, and `None` only where no entry from `from` on is for
/// `position`.
pub proof fn lemma_slot_from(pending: Seq<PendingView>, position: usize, from: int)
    requires
        0 <= from,
    ensures
        match slot_from(pending, position, from) {
            Some(k) => from <= k < pending.len() && pending[k].position == position && forall|
                j: int,
            |
                from <= j < k ==> (#[trigger] pending[j]).position != position,
            None => forall|j: int|
                from <= j < pending.len() ==> (#[trigger] pending[j]).position != position,
        },
    decreases pending.len() - from,
{
    if from < pending.len() && pending[from].position != position {
        lemma_slot_from(pending, position, from + 1);
    }
}

/// Merging keeps the positions distinct, and puts the entry for the
/// fragment's position at `merge_slot`.
pub proof fn lemma_merged(pending: Seq<PendingView>, fragment: ToolFragmentView)
    requires
        distinct_positions(pending),
    ensures
        distinct_positions(merged(pending, fragment)),
        0 <= merge_slot(pending, fragment) < merged(pending, fragment).len(),
        slot_of(merged(pending, fragment), fragment.position) == Some(
            merge_slot(pending, fragment),
        ),
{
    let grown = merged(pending, fragment);
    let k = merge_slot(pending, fragment);
    lemma_slot_from(pending, fragment.position, 0);
    lemma_slot_from(grown, fragment.position, 0);
    assert(grown[k].position == fragment.position);
    assert forall|j: int| 0 <= j < k implies (#[trigger] grown[j]).position
        != fragment.position by {
        assert(grown[j] == pending[j]);
    }
    assert forall|i: int, j: int| 0 <= i < j < grown.len() implies (#[trigger] grown[i]).position
        != (#[trigger] grown[j]).position by {
        if j < pending.len() {
            assert(grown[i].position == pending[i].position);
            assert(grown[j].position == pending[j].position);
        } else {
            assert(grown[i].position == pending[i].position);
        }
    }
}

/// Taking an entry out keeps the positions distinct.
pub proof fn lemma_remove_distinct(pending: Seq<PendingView>, k: int)
    requires
        distinct_positions(pending),
        0 <= k < pending.len(),
    ensures
        distinct_positions(pending.remove(k)),
{
    let rest = pending.remove(k);
    assert forall|i: int, j: int| 0 <= i < j < rest.len() implies (#[trigger] rest[i]).position
        != (#[trigger] rest[j]).position by {
        let a = if i < k { i } else { i + 1 };
        let b = if j < k { j } else { j + 1 };
        assert(rest[i] == pending[a]);
        assert(rest[j] == pending[b]);
    }
}

/// First-wins: of two fragments for one position, the second changes
/// neither an id nor a name that is set once the first has been merged; it
/// only adds its argument text. Where the position was new and the first
/// fragment brought an id, that id is the one kept.
pub proof fn lemma_first_wins(
    pending: Seq<PendingView>,
    first: ToolFragmentView,
    second: ToolFragmentView,
)
    requires
        distinct_positions(pending),
        first.position == second.position,
    ensures
        ({
            let one = merged(pending, first);
            let two = merged(one, second);
            let k = merge_slot(pending, first);
            &&& merge_slot(one, second) == k
            &&& 0 <= k < two.len()
            &&& two.len() == one.len()
            &&& one[k].id is Some ==> two[k].id == one[k].id
            &&& one[k].name is Some ==> two[k].name == one[k].name
            &&& two[k].buffer == one[k].buffer + chunk_text(second)
            &&& slot_of(pending, first.position) is None && first.id is Some ==> two[k].id
                == first.id
            &&& slot_of(pending, first.position) is None && first.name is Some ==> two[k].name
                == first.name
        }),
{
    lemma_merged(pending, first);
    lemma_merged(merged(pending, first), second);
    lemma_slot_from(pending, first.position, 0);
}

/// Reassembly: arguments that arrive in two pieces, of which the first
/// alone completes nothing, give the call and leave the state that the two
/// pieces give when they arrive as one.
pub proof fn lemma_reassembly(
    pending: Seq<PendingView>,
    position: usize,
    id: Option<Seq<char>>,
    name: Option<Seq<char>>,
    head: Seq<char>,
    tail: Seq<char>,
)
    requires
        distinct_positions(pending),
        accepted_call(
            pending,
            ToolFragmentView { position, id, name, argument_chunk: Some(head) },
        ) is None,
    ensures
        ({
            let first = ToolFragmentView { position, id, name, argument_chunk: Some(head) };
            let second = ToolFragmentView {
                position,
                id: None,
                name: None,
                argument_chunk: Some(tail),
            };
            let whole = ToolFragmentView { position, id, name, argument_chunk: Some(head + tail) };
            &&& accepted(pending, first) == merged(pending, first)
            &&& accepted(accepted(pending, first), second) == accepted(pending, whole)
            &&& accepted_call(accepted(pending, first), second) == accepted_call(pending, whole)
        }),
{
    let first = ToolFragmentView { position, id, name, argument_chunk: Some(head) };
    let second = ToolFragmentView { position, id: None, name: None, argument_chunk: Some(tail) };
    let whole = ToolFragmentView { position, id, name, argument_chunk: Some(head + tail) };
    let one = merged(pending, first);
    let k = merge_slot(pending, first);
    lemma_merged(pending, first);
    lemma_merged(one, second);
    lemma_merged(pending, whole);
    lemma_slot_from(pending, position, 0);
    assert(merge_slot(pending, whole) == k);
    assert(accepted(pending, first) == one);
    let base = match slot_of(pending, position) {
        Some(j) => pending[j],
        None => blank(position),
    };
    assert(one[k] == absorbed(base, first));
    assert(absorbed(one[k], second).buffer =~= absorbed(base, whole).buffer);
    assert(absorbed(one[k], second) == absorbed(base, whole));
    assert(merged(one, second) =~= merged(pending, whole));
}

/// Drain on an abrupt end: a pending call whose argument text parses is
/// among the calls that draining yields.
pub proof fn lemma_drain_yields_complete(pending: Seq<PendingView>, k: int)
    requires
        0 <= k < pending.len(),
        parsed_arguments(pending[k]) is Some,
    ensures
        drained(pending).contains(promoted(pending[k], parsed_arguments(pending[k])->0)),
    decreases pending.len(),
{
    let call = promoted(pending[k], parsed_arguments(pending[k])->0);
    let rest = drained(pending.drop_last());
    if k == pending.len() - 1 {
        assert(drained(pending) == rest.push(call));
        assert(drained(pending)[rest.len() as int] == call);
    } else {
        assert(pending.drop_last()[k] == pending[k]);
        lemma_drain_yields_complete(pending.drop_last(), k);
        let i = choose|i: int| 0 <= i < rest.len() && rest[i] == call;
        assert(drained(pending)[i] == call);
    }
}

/// The call, if any, that a pending entry becomes given what its argument
/// text parsed to.
pub fn promote(entry: PendingToolCall, parsed: Option<Json>) -> (call: Option<ToolCall>)
    ensures
        opt_call_view(call) == promotion(entry@, parsed_view(parsed)),
{
    match parsed {
        Some(arguments) => {
            let name = match entry.name {
                Some(name) => name,
                None => String::new(),
            };
            Some(ToolCall { id: entry.id, function: Function { name, arguments } })
        },
        None => None,
    }
}

/// The calls of one response that are not complete yet, at most one for
/// each position.
pub struct ToolCallAccumulator {
    pending: Vec<PendingToolCall>,
}

impl View for ToolCallAccumulator {
    type V = Seq<PendingView>;

    closed spec fn view(&self) -> Seq<PendingView> {
        pending_views(self.pending@)
    }
}

impl ToolCallAccumulator {
    /// No two pending calls are for the same position.
    pub open spec fn wf(&self) -> bool {
        distinct_positions(self@)
    }

    /// An accumulator with no pending call.
    pub fn new() -> (accumulator: Self)
        ensures
            accumulator@ == Seq::<PendingView>::empty(),
            accumulator.wf(),
    {
        let accumulator = ToolCallAccumulator { pending: Vec::new() };
        assert(accumulator@ =~= Seq::<PendingView>::empty());
        accumulator
    }

    /// The number of pending calls.
    pub fn len(&self) -> (n: usize)
        ensures
            n == self@.len(),
    {
        self.pending.len()
    }

    /// The pending call at `slot`.
    pub fn entry(&self, slot: usize) -> (entry: &PendingToolCall)
        requires
            slot < self@.len(),
        ensures
            entry@ == self@[slot as int],
    {
        &self.pending[slot]
    }

    /// The index of the pending call for `position`.
    pub fn find(&self, position: usize) -> (slot: Option<usize>)
        ensures
            match slot {
                Some(k) => k < self@.len() && slot_of(self@, position) == Some(k as int),
                None => slot_of(self@, position) is None,
            },
    {
        let mut k: usize = 0;
        while k < self.pending.len()
            invariant
                k <= self.pending.len(),
                slot_of(self@, position) == slot_from(self@, position, k as int),
            decreases self.pending.len() - k,
        {
            if self.pending[k].position == position {
                return Some(k);
            }
            k = k + 1;
        }
        None
    }

    /// Merges `fragment` into the pending call for its position, which is
    /// created where there is none, and returns that call's index. An id or
    /// a name that is already set stays; the argument text grows at its end.
    /// No parse is attempted.
    pub fn merge(&mut self, fragment: ToolFragment) -> (slot: usize)
        requires
            old(self).wf(),
        ensures
            final(self).wf(),
            final(self)@ == merged(old(self)@, fragment@),
            slot == merge_slot(old(self)@, fragment@),
            slot < final(self)@.len(),
    {
        proof {
            lemma_merged(self@, fragment@);
        }
        let ghost before = self@;
        let ToolFragment { position, id, name, argument_chunk } = fragment;
        let (slot, mut entry) = match self.find(position) {
            Some(k) => (k, self.pending.remove(k)),
            None => (
                self.pending.len(),
                PendingToolCall { position, id: None, name: None, argument_buffer: String::new() },
            ),
        };
        let ghost taken = entry@;
        if entry.id.is_none() {
            entry.id = id;
        }
        if entry.name.is_none() {
            entry.name = name;
        }
        match argument_chunk {
            Some(chunk) => {
                entry.argument_buffer.append(chunk.as_str());
            },
            None => {
                assert(entry.argument_buffer@ =~= taken.buffer + Seq::<char>::empty());
            },
        }
        assert(entry@ == absorbed(taken, fragment@));
        self.pending.insert(slot, entry);
        assert(self@ =~= merged(before, fragment@));
        slot
    }

    /// Settles the pending call for `position` with what its argument text
    /// parsed to: where `parsed` is a value the call is complete, leaves the
    /// accumulator and is returned; else nothing changes.
    pub fn settle(&mut self, position: usize, parsed: Option<Json>) -> (call: Option<ToolCall>)
        requires
            old(self).wf(),
        ensures
            final(self).wf(),
            final(self)@ == settled(old(self)@, position, parsed_view(parsed)),
            opt_call_view(call) == settled_call(old(self)@, position, parsed_view(parsed)),
    {
        if parsed.is_none() {
            return None;
        }
        match self.find(position) {
            Some(k) => {
                proof {
                    lemma_remove_distinct(self@, k as int);
                }
                let ghost before = self@;
                let entry = self.pending.remove(k);
                assert(self@ =~= before.remove(k as int));
                promote(entry, parsed)
            },
            None => None,
        }
    }

    /// Takes the next fragment of a tool call. Returns the call the moment
    /// the argument text received for its position parses as JSON; the call
    /// then leaves the accumulator. Otherwise the fragment is kept and
    /// nothing is returned.
    pub fn accept(&mut self, fragment: ToolFragment) -> (call: Option<ToolCall>)
        requires
            old(self).wf(),
        ensures
            final(self).wf(),
            final(self)@ == accepted(old(self)@, fragment@),
            opt_call_view(call) == accepted_call(old(self)@, fragment@),
    {
        let position = fragment.position;
        let slot = self.merge(fragment);
        let parsed = Json::parse_str(self.pending[slot].argument_buffer.as_str());
        self.settle(position, parsed)
    }

    /// Ends the stream: every pending call whose argument text parses as
    /// JSON is returned, in the order in which the calls began; the others
    /// are dropped. Nothing stays pending.
    pub fn drain(&mut self) -> (calls: Vec<ToolCall>)
        ensures
            final(self)@ == Seq::<PendingView>::empty(),
            final(self).wf(),
            call_views(calls@) == drained(old(self)@),
    {
        let mut entries: Vec<PendingToolCall> = Vec::new();
        std::mem::swap(&mut entries, &mut self.pending);
        assert(self@ =~= Seq::<PendingView>::empty());
        let ghost all = pending_views(entries@);
        let mut calls: Vec<ToolCall> = Vec::new();
        assert(call_views(calls@) =~= drained(all.take(0)));
        for entry in it: entries
            invariant
                all == pending_views(it.seq()),
                call_views(calls@) == drained(all.take(it.index() as int)),
        {
            let ghost done = it.index() as int;
            let ghost before = call_views(calls@);
            let parsed = Json::parse_str(entry.argument_buffer.as_str());
            proof {
                assert(all.take(done + 1).drop_last() =~= all.take(done));
                assert(all.take(done + 1).last() == entry@);
            }
            match promote(entry, parsed) {
                Some(call) => {
                    let ghost value = call@;
                    calls.push(call);
                    assert(call_views(calls@) =~= before.push(value));
                },
                None => {},
            }
        }
        assert(all.take(all.len() as int) =~= all);
        calls
    }
}

} // verus!
