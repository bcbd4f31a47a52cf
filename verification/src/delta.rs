//! What one wire record says, whatever backend sent it.

use crate::accumulator::{ToolFragment, ToolFragmentView};
use crate::types::{TokenUsage, ToolCall, ToolCallView};
use vstd::prelude::*;

verus! {

/// One piece of information decoded from a wire record.
#[derive(Clone, Debug, PartialEq, Eq)]
pub enum Delta {
    /// A piece of the answer's text.
    TextFragment(String),
    /// A piece of a tool call that is still streaming.
    ToolFragment(ToolFragment),
    /// A tool call that the backend sent whole.
    CompleteCall(ToolCall),
    /// Token counts.
    UsageInfo(TokenUsage),
    /// The backend's signal that the answer has ended.
    Terminal,
}

/// The mathematical value of a [`Delta`].
pub enum DeltaView {
    TextFragment(Seq<char>),
    ToolFragment(ToolFragmentView),
    CompleteCall(ToolCallView),
    UsageInfo(TokenUsage),
    Terminal,
}

impl View for Delta {
    type V = DeltaView;

    open spec fn view(&self) -> DeltaView {
        match self {
            Delta::TextFragment(text) => DeltaView::TextFragment(text@),
            Delta::ToolFragment(fragment) => DeltaView::ToolFragment(fragment@),
            Delta::CompleteCall(call) => DeltaView::CompleteCall(call@),
            Delta::UsageInfo(usage) => DeltaView::UsageInfo(*usage),
            Delta::Terminal => DeltaView::Terminal,
        }
    }
}

/// The values of a sequence of deltas.
pub open spec fn delta_views(deltas: Seq<Delta>) -> Seq<DeltaView> {
    Seq::new(deltas.len(), |i: int| deltas[i]@)
}

/// The text as a delta, or nothing where the text is empty.
pub open spec fn text_deltas(text: Option<Seq<char>>) -> Seq<DeltaView> {
    match text {
        Some(t) => if t.len() > 0 {
            seq![DeltaView::TextFragment(t)]
        } else {
            Seq::empty()
        },
        None => Seq::empty(),
    }
}

/// The usage as a delta, or nothing where there is none.
pub open spec fn usage_deltas(usage: Option<TokenUsage>) -> Seq<DeltaView> {
    match usage {
        Some(u) => seq![DeltaView::UsageInfo(u)],
        None => Seq::empty(),
    }
}

/// The terminal delta where `ended`, else nothing.
pub open spec fn terminal_deltas(ended: bool) -> Seq<DeltaView> {
    if ended {
        seq![DeltaView::Terminal]
    } else {
        Seq::empty()
    }
}

/// Appends the text as a delta unless there is none or it is empty.
pub fn push_text(deltas: &mut Vec<Delta>, text: Option<String>)
    ensures
        delta_views(final(deltas)@) == delta_views(old(deltas)@) + text_deltas(
            crate::text::opt_text(text),
        ),
{
    let ghost before = delta_views(deltas@);
    match text {
        Some(t) => {
            if !t.as_str().is_empty() {
                deltas.push(Delta::TextFragment(t));
            }
        },
        None => {},
    }
    assert(delta_views(deltas@) =~= before + text_deltas(crate::text::opt_text(text)));
}

/// Appends the usage as a delta where there is one.
pub fn push_usage(deltas: &mut Vec<Delta>, usage: Option<TokenUsage>)
    ensures
        delta_views(final(deltas)@) == delta_views(old(deltas)@) + usage_deltas(usage),
{
    let ghost before = delta_views(deltas@);
    match usage {
        Some(u) => {
            deltas.push(Delta::UsageInfo(u));
        },
        None => {},
    }
    assert(delta_views(deltas@) =~= before + usage_deltas(usage));
}

/// Appends the terminal delta where `ended`.
pub fn push_terminal(deltas: &mut Vec<Delta>, ended: bool)
    ensures
        delta_views(final(deltas)@) == delta_views(old(deltas)@) + terminal_deltas(ended),
{
    let ghost before = delta_views(deltas@);
    if ended {
        deltas.push(Delta::Terminal);
    }
    assert(delta_views(deltas@) =~= before + terminal_deltas(ended));
}

} // verus!
