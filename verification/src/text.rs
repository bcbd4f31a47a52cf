//! Text as sequences of characters: comparison, search and trimming.

use crate::scan::{find_from, occurs_at};
use vstd::prelude::*;
use vstd::string::StringSliceAdditionalSpecFns;
use vstd::utf8::encode_utf8_decode_utf8;

verus! {

/// The characters of an optional string.
pub open spec fn opt_text(text: Option<String>) -> Option<Seq<char>> {
    match text {
        Some(s) => Some(s@),
        None => None,
    }
}

/// The texts of a sequence of strings.
pub open spec fn texts(items: Seq<String>) -> Seq<Seq<char>> {
    Seq::new(items.len(), |i: int| items[i]@)
}

/// Whether two strings hold the same characters, decided on their bytes.
pub fn str_eq(a: &str, b: &str) -> (same: bool)
    ensures
        same == (a@ == b@),
{
    let x = a.as_bytes();
    let y = b.as_bytes();
    proof {
        encode_utf8_decode_utf8(a@);
        encode_utf8_decode_utf8(b@);
    }
    if x.len() != y.len() {
        return false;
    }
    let mut i: usize = 0;
    while i < x.len()
        invariant
            i <= x.len(),
            x.len() == y.len(),
            x@ == a.spec_bytes(),
            y@ == b.spec_bytes(),
            forall|j: int| 0 <= j < i ==> x@[j] == y@[j],
        decreases x.len() - i,
    {
        if x[i] != y[i] {
            return false;
        }
        i = i + 1;
    }
    assert(x@ =~= y@);
    true
}

/// The characters of `s`, in order.
pub fn chars_of(s: &str) -> (chars: Vec<char>)
    ensures
        chars@ == s@,
{
    let mut chars: Vec<char> = Vec::new();
    for c in it: s.chars()
        invariant
            chars@ == it.seq().take(it.index()),
    {
        chars.push(c);
    }
    chars
}

/// The text, unless there is none or it is empty.
pub open spec fn nonempty(text: Option<Seq<char>>) -> Option<Seq<char>> {
    match text {
        Some(t) => if t.len() > 0 {
            Some(t)
        } else {
            None
        },
        None => None,
    }
}

/// The string, unless there is none or it is empty.
pub fn keep_nonempty(text: Option<String>) -> (kept: Option<String>)
    ensures
        opt_text(kept) == nonempty(opt_text(text)),
{
    match text {
        Some(t) => if t.as_str().is_empty() {
            None
        } else {
            Some(t)
        },
        None => None,
    }
}

/// The characters that Unicode lists as white space.
pub open spec fn is_space(c: char) -> bool {
    let n = c as u32;
    (9 <= n <= 13) || n == 0x20 || n == 0x85 || n == 0xA0 || n == 0x1680 || (0x2000 <= n
        <= 0x200A) || n == 0x2028 || n == 0x2029 || n == 0x202F || n == 0x205F || n == 0x3000
}

/// Whether `c` is white space.
pub fn is_whitespace(c: char) -> (yes: bool)
    ensures
        yes == is_space(c),
{
    let n: u32 = c as u32;
    (9 <= n && n <= 13) || n == 0x20 || n == 0x85 || n == 0xA0 || n == 0x1680 || (0x2000 <= n
        && n <= 0x200A) || n == 0x2028 || n == 0x2029 || n == 0x202F || n == 0x205F || n
        == 0x3000
}

/// `text` without the white space at its start.
pub open spec fn trim_start(text: Seq<char>) -> Seq<char>
    decreases text.len(),
{
    if text.len() > 0 && is_space(text[0]) {
        trim_start(text.drop_first())
    } else {
        text
    }
}

/// `text` without the white space at its end.
pub open spec fn trim_end(text: Seq<char>) -> Seq<char>
    decreases text.len(),
{
    if text.len() > 0 && is_space(text.last()) {
        trim_end(text.drop_last())
    } else {
        text
    }
}

/// `text` without the white space at its start and at its end.
pub open spec fn trimmed(text: Seq<char>) -> Seq<char> {
    trim_end(trim_start(text))
}

/// The end of `chars[lo..hi]` once the white space at its end is cut off.
pub fn trim_end_of(chars: &[char], lo: usize, hi: usize) -> (end: usize)
    requires
        lo <= hi <= chars.len(),
    ensures
        lo <= end <= hi,
        chars@.subrange(lo as int, end as int) == trim_end(chars@.subrange(lo as int, hi as int)),
{
    let mut end: usize = hi;
    while end > lo && is_whitespace(chars[end - 1])
        invariant
            lo <= end <= hi <= chars.len(),
            trim_end(chars@.subrange(lo as int, hi as int)) == trim_end(
                chars@.subrange(lo as int, end as int),
            ),
        decreases end - lo,
    {
        assert(chars@.subrange(lo as int, end as int).drop_last() =~= chars@.subrange(
            lo as int,
            end - 1,
        ));
        end = end - 1;
    }
    end
}

/// The start of `chars[lo..hi]` once the white space at its start is cut
/// off.
pub fn trim_start_of(chars: &[char], lo: usize, hi: usize) -> (start: usize)
    requires
        lo <= hi <= chars.len(),
    ensures
        lo <= start <= hi,
        chars@.subrange(start as int, hi as int) == trim_start(
            chars@.subrange(lo as int, hi as int),
        ),
{
    let mut start: usize = lo;
    while start < hi && is_whitespace(chars[start])
        invariant
            lo <= start <= hi <= chars.len(),
            trim_start(chars@.subrange(lo as int, hi as int)) == trim_start(
                chars@.subrange(start as int, hi as int),
            ),
        decreases hi - start,
    {
        assert(chars@.subrange(start as int, hi as int).drop_first() =~= chars@.subrange(
            start + 1,
            hi as int,
        ));
        start = start + 1;
    }
    start
}

/// The bounds of `chars[lo..hi]` once trimmed.
pub fn trim_range(chars: &[char], lo: usize, hi: usize) -> (bounds: (usize, usize))
    requires
        lo <= hi <= chars.len(),
    ensures
        lo <= bounds.0 <= bounds.1 <= hi,
        chars@.subrange(bounds.0 as int, bounds.1 as int) == trimmed(
            chars@.subrange(lo as int, hi as int),
        ),
{
    let start = trim_start_of(chars, lo, hi);
    let end = trim_end_of(chars, start, hi);
    (start, end)
}

/// The first occurrence of `pat` in `s` at or after `from`, by comparing
/// character for character.
pub fn find_chars(s: &[char], pat: &[char], from: usize) -> (found: Option<usize>)
    ensures
        match found {
            Some(i) => find_from(s@, pat@, from as int) == Some(i as int) && from <= i && i
                + pat@.len() <= s@.len(),
            None => find_from(s@, pat@, from as int) is None,
        },
{
    if pat.len() > s.len() || from > s.len() - pat.len() {
        return None;
    }
    let last: usize = s.len() - pat.len();
    let mut i: usize = from;
    while i <= last
        invariant
            from <= i <= last + 1,
            last == s.len() - pat.len(),
            find_from(s@, pat@, from as int) == find_from(s@, pat@, i as int),
        decreases last + 1 - i,
    {
        let mut k: usize = 0;
        while k < pat.len() && s[i + k] == pat[k]
            invariant
                k <= pat.len(),
                i <= last,
                last == s.len() - pat.len(),
                forall|j: int| 0 <= j < k ==> s@[i + j] == pat@[j],
            decreases pat.len() - k,
        {
            k = k + 1;
        }
        if k == pat.len() {
            assert(s@.subrange(i as int, i + pat.len()) =~= pat@);
            return Some(i);
        }
        assert(!occurs_at(s@, pat@, i as int)) by {
            if occurs_at(s@, pat@, i as int) {
                assert(s@.subrange(i as int, i + pat.len())[k as int] == pat@[k as int]);
            }
        }
        i = i + 1;
    }
    None
}

/// Whether `pat` occurs in `text`.
pub fn contains(text: &str, pat: &str) -> (found: bool)
    ensures
        found == (crate::scan::find_first(text@, pat@) is Some),
{
    let chars = chars_of(text);
    let wanted = chars_of(pat);
    find_chars(chars.as_slice(), wanted.as_slice(), 0).is_some()
}

/// Whether `text` begins with `pat`.
pub fn starts_with(text: &str, pat: &str) -> (yes: bool)
    ensures
        yes == occurs_at(text@, pat@, 0),
{
    let chars = chars_of(text);
    let wanted = chars_of(pat);
    if wanted.len() > chars.len() {
        return false;
    }
    let mut k: usize = 0;
    while k < wanted.len() && chars[k] == wanted[k]
        invariant
            k <= wanted.len() <= chars.len(),
            forall|j: int| 0 <= j < k ==> chars@[j] == wanted@[j],
        decreases wanted.len() - k,
    {
        k = k + 1;
    }
    if k == wanted.len() {
        assert(chars@.subrange(0, wanted.len() as int) =~= wanted@);
        true
    } else {
        assert(!occurs_at(chars@, wanted@, 0)) by {
            if occurs_at(chars@, wanted@, 0) {
                assert(chars@.subrange(0, wanted.len() as int)[k as int] == wanted@[k as int]);
            }
        }
        false
    }
}

/// The text that `String::from_utf8_lossy` makes of `bytes`: their
/// characters, with a replacement character for what is no UTF-8.
pub uninterp spec fn lossy_text(bytes: Seq<u8>) -> Seq<char>;

/// Calls `String::from_utf8_lossy`. The result is named; of bytes that are
/// valid UTF-8 it is the text that they encode.
#[verifier::external_body]
fn decode_lossy(bytes: &[u8]) -> (text: String)
    ensures
        text@ == lossy_text(bytes@),
        vstd::utf8::valid_utf8(bytes@) ==> text@ == vstd::utf8::decode_utf8(bytes@),
{
    String::from_utf8_lossy(bytes).into_owned()
}

/// The text of `bytes`, with a replacement character for what is no UTF-8.
pub fn text_of_bytes(bytes: &[u8]) -> (text: String)
    ensures
        text@ == lossy_text(bytes@),
        vstd::utf8::valid_utf8(bytes@) ==> text@ == vstd::utf8::decode_utf8(bytes@),
{
    decode_lossy(bytes)
}

} // verus!
