//! Hiding wrapped tool calls from text while it streams.

use crate::fallback::{close_marker, open_marker};
use crate::scan::{find_first, lemma_find_from};
use crate::text::{chars_of, find_chars};
use vstd::prelude::*;
use vstd::string::StringExecFns;

verus! {

/// Hides from the text shown while it streams the pieces that belong to a
/// wrapped tool call.
///
/// A piece that holds the opening marker begins a call, one that holds the
/// closing marker ends it; those pieces and every piece in between are
/// shown as nothing.
pub struct StreamingXmlFilter {
    inside_tool_call: bool,
}

/// Whether `text` holds the marker that opens a wrapped call.
pub open spec fn opens_call(text: Seq<char>) -> bool {
    find_first(text, open_marker()) is Some
}

/// Whether `text` holds the marker that closes a wrapped call.
pub open spec fn closes_call(text: Seq<char>) -> bool {
    find_first(text, close_marker()) is Some
}

/// Whether the filter is inside a call after a piece of text, given
/// whether it was before.
pub open spec fn inside_after(inside: bool, text: Seq<char>) -> bool {
    if text.len() == 0 {
        inside
    } else if opens_call(text) {
        true
    } else if closes_call(text) {
        false
    } else {
        inside
    }
}

/// What is shown of a piece of text, given whether the filter was inside a
/// call before it.
pub open spec fn shown(inside: bool, text: Seq<char>) -> Seq<char> {
    if opens_call(text) || closes_call(text) || inside {
        Seq::empty()
    } else {
        text
    }
}

impl StreamingXmlFilter {
    /// Whether the pieces seen so far end inside a wrapped call.
    pub closed spec fn inside(&self) -> bool {
        self.inside_tool_call
    }

    /// A filter outside any call.
    pub fn new() -> (filter: Self)
        ensures
            !filter.inside(),
    {
        StreamingXmlFilter { inside_tool_call: false }
    }

    /// Takes the next piece of text and returns what is shown of it.
    pub fn process_chunk(&mut self, content: &str) -> (result: String)
        ensures
            final(self).inside() == inside_after(old(self).inside(), content@),
            result@ == shown(old(self).inside(), content@),
    {
        let chars = chars_of(content);
        if chars.len() == 0 {
            proof {
                lemma_find_from(content@, open_marker(), 0);
                lemma_find_from(content@, close_marker(), 0);
                reveal_strlit("<tool_call>");
                reveal_strlit("</tool_call>");
            }
            return String::new();
        }
        let open = chars_of("<tool_call>");
        let close = chars_of("</tool_call>");
        if find_chars(chars.as_slice(), open.as_slice(), 0).is_some() {
            self.inside_tool_call = true;
            String::new()
        } else if find_chars(chars.as_slice(), close.as_slice(), 0).is_some() {
            self.inside_tool_call = false;
            String::new()
        } else if self.inside_tool_call {
            String::new()
        } else {
            String::from_str(content)
        }
    }

    /// Whether the pieces seen so far end inside a wrapped call.
    pub fn is_inside_tool_call(&self) -> (inside: bool)
        ensures
            inside == self.inside(),
    {
        self.inside_tool_call
    }
}

} // verus!
