//! Tool calls written into the answer's text, for backends that cannot
//! return tool calls of their own.
//!
//! The model is told to wrap each call in `<tool_call>` and `</tool_call>`.
//! Once the text of an answer is complete, the calls are read out of it and
//! the wrapped spans are taken out of what the user sees.

use crate::json::{json_of_bytes, parsed_view, Json, JsonView};
use crate::scan::{find_from, lemma_find_from};
use crate::text::{chars_of, find_chars, str_eq, trim_end, trim_end_of, trim_range, trimmed};
use crate::types::{
    call_views, opt_call_views, Function, Message, MessageView, Tool, ToolCall, ToolCallView,
};
use vstd::prelude::*;
use vstd::string::{StrSliceExecFns, StringExecFns, StringSliceAdditionalSpecFns};
use vstd::utf8::encode_utf8;

verus! {

broadcast use vstd::slice::group_slice_axioms;

/// The marker that opens a call.
pub open spec fn open_marker() -> Seq<char> {
    "<tool_call>"@
}

/// The marker that closes a call.
pub open spec fn close_marker() -> Seq<char> {
    "</tool_call>"@
}

/// A wrapped call in a text: the index of its opening marker and the index
/// of its closing marker.
pub struct Span {
    pub start: int,
    pub close: int,
}

impl Span {
    /// Where the text between the markers begins.
    pub open spec fn body_start(self) -> int {
        self.start + open_marker().len()
    }

    /// The index after the closing marker.
    pub open spec fn end(self) -> int {
        self.close + close_marker().len()
    }
}

/// The first wrapped call at or after `from`: the first opening marker
/// there, up to the first closing marker after it.
pub open spec fn next_span(text: Seq<char>, from: int) -> Option<Span> {
    match find_from(text, open_marker(), from) {
        Some(start) => match find_from(text, close_marker(), start + open_marker().len()) {
            Some(close) => Some(Span { start, close }),
            None => None,
        },
        None => None,
    }
}

/// Whether `span` lies in `text` at or after `from` and is not empty.
pub open spec fn span_fits(text: Seq<char>, from: int, span: Span) -> bool {
    0 <= from <= span.start && span.body_start() <= span.close && span.end() <= text.len()
        && from < span.end()
}

/// The call that a parsed body holds: an object whose field `function` has
/// a string `name` and a field `arguments`. Such a call has no id.
pub open spec fn marker_call(value: JsonView) -> Option<ToolCallView> {
    match value.field("function"@) {
        Some(function) => match (function.text_at("name"@), function.field("arguments"@)) {
            (Some(name), Some(arguments)) => Some(ToolCallView { id: None, name, arguments }),
            _ => None,
        },
        None => None,
    }
}

/// The call that a body holds given what its text parsed to.
pub open spec fn parsed_call(parsed: Option<JsonView>) -> Option<ToolCallView> {
    match parsed {
        Some(value) => marker_call(value),
        None => None,
    }
}

/// The calls of one body: the call that its trimmed text holds as JSON, or
/// nothing.
pub open spec fn body_calls(body: Seq<char>) -> Seq<ToolCallView> {
    match parsed_call(json_of_bytes(encode_utf8(trimmed(body)))) {
        Some(call) => seq![call],
        None => Seq::empty(),
    }
}

/// The calls wrapped in `text` from `from` on, in order.
pub open spec fn calls_from(text: Seq<char>, from: int) -> Seq<ToolCallView>
    decreases text.len() - from,
{
    match next_span(text, from) {
        Some(span) => if span_fits(text, from, span) {
            body_calls(text.subrange(span.body_start(), span.close)) + calls_from(
                text,
                span.end(),
            )
        } else {
            Seq::empty()
        },
        None => Seq::empty(),
    }
}

/// The calls wrapped in `text`, in order.
pub open spec fn fallback_calls(text: Seq<char>) -> Seq<ToolCallView> {
    calls_from(text, 0)
}

/// `text` from `from` on with every wrapped call taken out, markers
/// included.
pub open spec fn without_spans(text: Seq<char>, from: int) -> Seq<char>
    decreases text.len() - from,
{
    match next_span(text, from) {
        Some(span) => if span_fits(text, from, span) {
            text.subrange(from, span.start) + without_spans(text, span.end())
        } else {
            Seq::empty()
        },
        None => if 0 <= from <= text.len() {
            text.subrange(from, text.len() as int)
        } else {
            Seq::empty()
        },
    }
}

/// What is said in place of a text that held little but tool calls.
pub open spec fn acknowledgement() -> Seq<char> {
    "I'll help you with that."@
}

/// `text` without an opening marker that nothing but white space follows.
pub open spec fn strip_dangling(text: Seq<char>) -> Seq<char> {
    let kept = trim_end(text);
    let n = open_marker().len();
    if kept.len() >= n && kept.subrange(kept.len() - n, kept.len() as int) == open_marker() {
        kept.subrange(0, kept.len() - n)
    } else {
        text
    }
}

/// What the user sees of `text`. Where it holds calls: the text without
/// the wrapped calls, trimmed, or the acknowledgement where fewer than ten
/// bytes are left. Where it holds none: the text without a dangling opening
/// marker, trimmed.
pub open spec fn visible_text(text: Seq<char>) -> Seq<char> {
    if fallback_calls(text).len() > 0 {
        let cleaned = trimmed(without_spans(text, 0));
        if encode_utf8(cleaned).len() < 10 {
            acknowledgement()
        } else {
            cleaned
        }
    } else {
        trimmed(strip_dangling(text))
    }
}

/// The calls as the result of a scan: none where there is no call.
pub open spec fn found_calls(calls: Seq<ToolCallView>) -> Option<Seq<ToolCallView>> {
    if calls.len() > 0 {
        Some(calls)
    } else {
        None
    }
}

/// The found span fits, given that the markers are not empty.
proof fn lemma_span_fits(text: Seq<char>, from: int)
    requires
        0 <= from,
    ensures
        next_span(text, from) is Some ==> span_fits(text, from, next_span(text, from)->0),
        open_marker().len() == 11,
        close_marker().len() == 12,
{
    reveal_strlit("<tool_call>");
    reveal_strlit("</tool_call>");
    lemma_find_from(text, open_marker(), from);
    match find_from(text, open_marker(), from) {
        Some(start) => {
            lemma_find_from(text, close_marker(), start + open_marker().len());
        },
        None => {},
    }
}

/// White space at the end of a text is cut off up to the last character
/// that is none.
proof fn lemma_trim_end_blanks(kept: Seq<char>, blanks: Seq<char>)
    requires
        kept.len() > 0,
        !crate::text::is_space(kept.last()),
        forall|i: int| 0 <= i < blanks.len() ==> crate::text::is_space(#[trigger] blanks[i]),
    ensures
        trim_end(kept + blanks) == kept,
    decreases blanks.len(),
{
    if blanks.len() == 0 {
        assert(kept + blanks =~= kept);
    } else {
        assert((kept + blanks).last() == blanks.last());
        assert((kept + blanks).drop_last() =~= kept + blanks.drop_last());
        lemma_trim_end_blanks(kept, blanks.drop_last());
    }
}

/// Dangling marker suppression: a text that ends in an opening marker,
/// with at most white space after it, and that holds no closing marker,
/// holds no call, and what the user sees of it is what stood before the
/// marker, trimmed.
pub proof fn lemma_dangling_marker_is_stripped(before: Seq<char>, blanks: Seq<char>)
    requires
        forall|i: int| 0 <= i < blanks.len() ==> crate::text::is_space(#[trigger] blanks[i]),
        forall|i: int| !crate::scan::occurs_at(before + open_marker() + blanks, close_marker(), i),
    ensures
        fallback_calls(before + open_marker() + blanks) == Seq::<ToolCallView>::empty(),
        visible_text(before + open_marker() + blanks) == trimmed(before),
{
    reveal_strlit("<tool_call>");
    let text = before + open_marker() + blanks;
    let kept = before + open_marker();
    lemma_find_from(text, open_marker(), 0);
    match find_from(text, open_marker(), 0) {
        Some(start) => {
            lemma_find_from(text, close_marker(), start + open_marker().len());
        },
        None => {},
    }
    assert(next_span(text, 0) is None);
    assert(kept.last() == '>');
    lemma_trim_end_blanks(kept, blanks);
    assert(kept.subrange(kept.len() - 11, kept.len() as int) =~= open_marker());
    assert(kept.subrange(0, kept.len() - 11) =~= before);
}

/// The first wrapped call of `chars` at or after `from`, as the indices of
/// its two markers.
fn find_span(chars: &[char], open: &[char], close: &[char], from: usize) -> (found: Option<
    (usize, usize),
>)
    requires
        open@ == open_marker(),
        close@ == close_marker(),
    ensures
        match found {
            Some((start, end)) => next_span(chars@, from as int) == Some(
                Span { start: start as int, close: end as int },
            ) && span_fits(chars@, from as int, Span { start: start as int, close: end as int }),
            None => next_span(chars@, from as int) is None,
        },
{
    proof {
        lemma_span_fits(chars@, from as int);
    }
    match find_chars(chars, open, from) {
        Some(start) => {
            assert(start + open@.len() <= chars@.len());
            assert(open@.len() == open.len() && chars@.len() == chars.len());
            match find_chars(chars, close, start + open.len()) {
                Some(end) => Some((start, end)),
                None => None,
            }
        },
        None => None,
    }
}

/// The call that a parsed body holds.
pub fn call_from_value(value: &Json) -> (call: Option<ToolCall>)
    ensures
        crate::accumulator::opt_call_view(call) == marker_call(value@),
{
    match value.get("function") {
        Some(function) => match (function.text_at("name"), function.get("arguments")) {
            (Some(name), Some(arguments)) => Some(
                ToolCall { id: None, function: Function { name, arguments: arguments.duplicate() } },
            ),
            _ => None,
        },
        None => None,
    }
}

/// The call that a body holds given what its text parsed to.
pub fn call_from_parsed(parsed: Option<Json>) -> (call: Option<ToolCall>)
    ensures
        crate::accumulator::opt_call_view(call) == parsed_call(parsed_view(parsed)),
{
    match parsed {
        Some(value) => call_from_value(&value),
        None => None,
    }
}

/// Reads the calls out of the characters of a text.
fn scan_calls(content: &str, chars: &Vec<char>) -> (calls: Vec<ToolCall>)
    requires
        chars@ == content@,
    ensures
        call_views(calls@) == fallback_calls(content@),
{
    let open = chars_of("<tool_call>");
    let close = chars_of("</tool_call>");
    let ghost text = content@;
    let mut calls: Vec<ToolCall> = Vec::new();
    let mut from: usize = 0;
    assert(call_views(calls@) + calls_from(text, 0) =~= fallback_calls(text));
    loop
        invariant_except_break
            from <= chars.len(),
            chars@ == text,
            content@ == text,
            open@ == open_marker(),
            close@ == close_marker(),
            call_views(calls@) + calls_from(text, from as int) == fallback_calls(text),
        ensures
            call_views(calls@) == fallback_calls(text),
        decreases chars.len() - from,
    {
        let ghost so_far = call_views(calls@);
        proof {
            lemma_span_fits(text, from as int);
        }
        match find_span(chars.as_slice(), open.as_slice(), close.as_slice(), from) {
            Some((start, end)) => {
                let ghost span = Span { start: start as int, close: end as int };
                let ghost rest = calls_from(text, from as int);
                let (a, b) = trim_range(chars.as_slice(), start + open.len(), end);
                let body = content.substring_char(a, b);
                match call_from_parsed(Json::parse_str(body)) {
                    Some(call) => {
                        let ghost value = call@;
                        calls.push(call);
                        assert(call_views(calls@) =~= so_far.push(value));
                    },
                    None => {},
                }
                assert(call_views(calls@) =~= so_far + body_calls(
                    text.subrange(span.body_start(), span.close),
                ));
                from = end + close.len();
                assert(rest == body_calls(text.subrange(span.body_start(), span.close))
                    + calls_from(text, from as int));
                assert(call_views(calls@) + calls_from(text, from as int) =~= so_far + rest);
            },
            None => {
                assert(so_far + calls_from(text, from as int) =~= so_far);
                break ;
            },
        }
    }
    calls
}

/// The text of `content` with every wrapped call taken out.
fn remove_spans(content: &str, chars: &Vec<char>) -> (cleaned: String)
    requires
        chars@ == content@,
    ensures
        cleaned@ == without_spans(content@, 0),
{
    let open = chars_of("<tool_call>");
    let close = chars_of("</tool_call>");
    let ghost text = content@;
    let mut cleaned = String::new();
    let mut from: usize = 0;
    assert(cleaned@ + without_spans(text, 0) =~= without_spans(text, 0));
    loop
        invariant_except_break
            from <= chars.len(),
            chars@ == text,
            content@ == text,
            open@ == open_marker(),
            close@ == close_marker(),
            cleaned@ + without_spans(text, from as int) == without_spans(text, 0),
        ensures
            cleaned@ == without_spans(text, 0),
        decreases chars.len() - from,
    {
        let ghost so_far = cleaned@;
        let ghost rest = without_spans(text, from as int);
        proof {
            lemma_span_fits(text, from as int);
        }
        match find_span(chars.as_slice(), open.as_slice(), close.as_slice(), from) {
            Some((start, end)) => {
                let ghost begin = from as int;
                cleaned.append(content.substring_char(from, start));
                from = end + close.len();
                assert(rest == text.subrange(begin, start as int) + without_spans(
                    text,
                    from as int,
                ));
                assert(cleaned@ + without_spans(text, from as int) =~= so_far + rest);
            },
            None => {
                cleaned.append(content.substring_char(from, chars.len()));
                assert(cleaned@ =~= so_far + rest);
                break ;
            },
        }
    }
    cleaned
}

/// Whether `pat` occurs in `chars` at `at`.
fn matches_at(chars: &[char], pat: &[char], at: usize) -> (yes: bool)
    requires
        at + pat@.len() <= chars@.len(),
    ensures
        yes == crate::scan::occurs_at(chars@, pat@, at as int),
{
    let total = chars.len();
    let mut k: usize = 0;
    while k < pat.len() && chars[at + k] == pat[k]
        invariant
            k <= pat.len(),
            total == chars@.len(),
            at + pat@.len() <= chars@.len(),
            forall|j: int| 0 <= j < k ==> chars@[at + j] == pat@[j],
        decreases pat.len() - k,
    {
        k = k + 1;
    }
    if k == pat.len() {
        assert(chars@.subrange(at as int, at + pat.len()) =~= pat@);
        true
    } else {
        assert(!crate::scan::occurs_at(chars@, pat@, at as int)) by {
            if crate::scan::occurs_at(chars@, pat@, at as int) {
                assert(chars@.subrange(at as int, at + pat.len())[k as int] == pat@[k as int]);
            }
        }
        false
    }
}

/// The text of `content` without a dangling opening marker, trimmed.
fn visible_without_calls(content: &str, chars: &Vec<char>) -> (visible: String)
    requires
        chars@ == content@,
    ensures
        visible@ == trimmed(strip_dangling(content@)),
{
    let open = chars_of("<tool_call>");
    proof {
        reveal_strlit("<tool_call>");
    }
    let ghost text = content@;
    let end = trim_end_of(chars.as_slice(), 0, chars.len());
    assert(text.subrange(0, text.len() as int) =~= text);
    let ghost kept = trim_end(text);
    assert(kept == text.subrange(0, end as int));
    let n = open.len();
    let cut = if end >= n && matches_at(chars.as_slice(), open.as_slice(), end - n) {
        assert(kept.subrange(kept.len() - n, kept.len() as int) =~= text.subrange(
            end - n,
            end as int,
        ));
        assert(kept.subrange(0, kept.len() - n) =~= text.subrange(0, end - n));
        end - n
    } else {
        if end >= n {
            assert(kept.subrange(kept.len() - n, kept.len() as int) =~= text.subrange(
                end - n,
                end as int,
            ));
        }
        chars.len()
    };
    assert(strip_dangling(text) == text.subrange(0, cut as int));
    let (a, b) = trim_range(chars.as_slice(), 0, cut);
    String::from_str(content.substring_char(a, b))
}

/// The text of `content` without its wrapped calls, trimmed; or the
/// acknowledgement where fewer than ten bytes are left.
fn visible_with_calls(content: &str, chars: &Vec<char>) -> (visible: String)
    requires
        chars@ == content@,
    ensures
        visible@ == ({
            let cleaned = trimmed(without_spans(content@, 0));
            if encode_utf8(cleaned).len() < 10 {
                acknowledgement()
            } else {
                cleaned
            }
        }),
{
    let cleaned = remove_spans(content, chars);
    let kept = chars_of(cleaned.as_str());
    assert(kept@.subrange(0, kept@.len() as int) =~= kept@);
    let (a, b) = trim_range(kept.as_slice(), 0, kept.len());
    let visible = cleaned.as_str().substring_char(a, b);
    if visible.as_bytes().len() < 10 {
        String::from_str("I'll help you with that.")
    } else {
        String::from_str(visible)
    }
}

/// Reads and removes tool calls written into an answer's text.
pub struct FallbackToolHandler;

impl FallbackToolHandler {
    /// The tool calls wrapped in `content`, in order, or `None` where it
    /// holds none. A wrapped text that is no JSON, or lacks the name or the
    /// arguments of a function, is no call.
    pub fn parse_fallback_tool_calls(content: &str) -> (calls: Option<Vec<ToolCall>>)
        ensures
            opt_call_views(calls) == found_calls(fallback_calls(content@)),
    {
        let chars = chars_of(content);
        let calls = scan_calls(content, &chars);
        if calls.len() > 0 {
            Some(calls)
        } else {
            None
        }
    }

    /// Splits a complete answer into what the user sees and the tool calls
    /// wrapped in it.
    pub fn process_fallback_response(content: &str) -> (result: (String, Option<Vec<ToolCall>>))
        ensures
            result.0@ == visible_text(content@),
            opt_call_views(result.1) == found_calls(fallback_calls(content@)),
    {
        let chars = chars_of(content);
        let calls = scan_calls(content, &chars);
        if calls.len() > 0 {
            (visible_with_calls(content, &chars), Some(calls))
        } else {
            (visible_without_calls(content, &chars), None)
        }
    }
}

/// What opens the description of the tools.
pub const CONTEXT_HEADER: &'static str =
    "\n\nYou have access to the following tools. When you need to use a tool, respond with:\n\n<tool_call>\n{\"function\": {\"name\": \"function_name\", \"arguments\": {\"param1\": \"value1\", \"param2\": \"value2\"}}}\n</tool_call>\n\nAvailable tools:\n\n";

/// What closes the description of the tools.
pub const CONTEXT_FOOTER: &'static str =
    "When using tools, wrap the JSON in <tool_call></tool_call> tags as shown above. Don't feel obligated to use tool calls if it doesn't make sense to do so or you weren't instructed. Normally you'll want to present your results to the user after making a tool call, as the user doesn't know the result, unless explicitly told otherwise (example: the user wants many consecutive tool calls).\n";

/// The mathematical value of a [`Tool`].
pub struct ToolView {
    pub name: Seq<char>,
    pub description: Seq<char>,
    pub parameters: JsonView,
}

impl View for Tool {
    type V = ToolView;

    open spec fn view(&self) -> ToolView {
        ToolView { name: self.name@, description: self.description@, parameters: self.parameters@ }
    }
}

/// The values of a sequence of tools.
pub open spec fn tool_views(tools: Seq<Tool>) -> Seq<ToolView> {
    Seq::new(tools.len(), |i: int| tools[i]@)
}

/// The lines that describe one tool: its name and what it does, then the
/// schema of its parameters as indented JSON, then an empty line.
pub open spec fn tool_entry(tool: ToolView) -> Seq<char> {
    tool.name + ": "@ + tool.description + "\n"@ + "Parameters schema: "@
        + crate::json::json_pretty_rendering(tool.parameters) + "\n\n"@
}

/// The entries of the first `n` tools, one after another.
pub open spec fn tool_entries(tools: Seq<ToolView>, n: int) -> Seq<char>
    decreases n,
{
    if n <= 0 || n > tools.len() {
        Seq::empty()
    } else {
        tool_entries(tools, n - 1) + tool_entry(tools[n - 1])
    }
}

/// The text that tells a model which tools there are and how to call one:
/// empty where there is no tool.
pub open spec fn tool_context(tools: Seq<ToolView>) -> Seq<char> {
    if tools.len() == 0 {
        Seq::empty()
    } else {
        CONTEXT_HEADER@ + tool_entries(tools, tools.len() as int) + CONTEXT_FOOTER@
    }
}

impl FallbackToolHandler {
    /// The text that tells a model which tools there are and how to call
    /// one. It is empty where there is no tool.
    pub fn generate_tool_context(tools: &[Tool]) -> (context: String)
        ensures
            context@ == tool_context(tool_views(tools@)),
    {
        if tools.len() == 0 {
            return String::new();
        }
        let ghost model = tool_views(tools@);
        let mut context = String::from_str(CONTEXT_HEADER);
        let mut i: usize = 0;
        assert(context@ =~= CONTEXT_HEADER@ + tool_entries(model, 0));
        while i < tools.len()
            invariant
                i <= tools.len(),
                model == tool_views(tools@),
                context@ == CONTEXT_HEADER@ + tool_entries(model, i as int),
            decreases tools.len() - i,
        {
            let ghost so_far = context@;
            let tool = &tools[i];
            context.append(tool.name.as_str());
            context.append(": ");
            context.append(tool.description.as_str());
            context.append("\n");
            context.append("Parameters schema: ");
            context.append(tool.parameters.to_pretty_text().as_str());
            context.append("\n\n");
            i = i + 1;
            assert(context@ =~= so_far + tool_entry(model[i - 1]));
            assert(context@ =~= CONTEXT_HEADER@ + tool_entries(model, i as int));
        }
        context.append(CONTEXT_FOOTER);
        context
    }
}

/// How a session gets its tool calls. It is decided once, when the first
/// tool is added, and stays.
#[derive(Clone, Copy, Debug, PartialEq, Eq, Structural)]
pub enum ToolMode {
    /// The backend returns tool calls of its own.
    Native,
    /// The model is prompted to write its calls into the text.
    Fallback,
}

impl ToolMode {
    /// The mode of a session whose backend was asked whether the model
    /// takes tools.
    pub fn decide(model_takes_tools: bool) -> (mode: ToolMode)
        ensures
            mode == if model_takes_tools {
                ToolMode::Native
            } else {
                ToolMode::Fallback
            },
    {
        if model_takes_tools {
            ToolMode::Native
        } else {
            ToolMode::Fallback
        }
    }

    /// Whether the model is prompted to write its calls into the text.
    pub fn is_fallback(self) -> (fallback: bool)
        ensures
            fallback == (self == ToolMode::Fallback),
    {
        match self {
            ToolMode::Fallback => true,
            ToolMode::Native => false,
        }
    }
}

/// What the user sees of an answer in `mode`: in native mode the answer as
/// it is.
pub open spec fn shown_text(mode: ToolMode, text: Seq<char>) -> Seq<char> {
    match mode {
        ToolMode::Native => text,
        ToolMode::Fallback => visible_text(text),
    }
}

/// The calls read out of an answer in `mode`: in native mode none.
pub open spec fn read_calls(mode: ToolMode, text: Seq<char>) -> Option<Seq<ToolCallView>> {
    match mode {
        ToolMode::Native => None,
        ToolMode::Fallback => found_calls(fallback_calls(text)),
    }
}

impl FallbackToolHandler {
    /// Splits a complete answer into what the user sees and the tool calls
    /// wrapped in it, where the session is in fallback mode; in native mode
    /// the answer comes back as it is, with no call.
    pub fn process_response(mode: ToolMode, content: &str) -> (result: (
        String,
        Option<Vec<ToolCall>>,
    ))
        ensures
            result.0@ == shown_text(mode, content@),
            opt_call_views(result.1) == read_calls(mode, content@),
    {
        match mode {
            ToolMode::Native => (String::from_str(content), None),
            ToolMode::Fallback => Self::process_fallback_response(content),
        }
    }
}

/// The values of a sequence of messages.
pub open spec fn message_views(messages: Seq<Message>) -> Seq<MessageView> {
    Seq::new(messages.len(), |i: int| messages[i]@)
}

/// The index of the first message at or after `from` whose role is
/// `system`.
pub open spec fn system_from(messages: Seq<MessageView>, from: int) -> Option<int>
    decreases messages.len() - from,
{
    if from < 0 || from >= messages.len() {
        None
    } else if messages[from].role == "system"@ {
        Some(from)
    } else {
        system_from(messages, from + 1)
    }
}

/// The messages with `context` added: at the end of the first system
/// message, or in a system message of its own put in front where there is
/// none.
pub open spec fn with_context(messages: Seq<MessageView>, context: Seq<char>) -> Seq<MessageView> {
    match system_from(messages, 0) {
        Some(k) => messages.update(
            k,
            MessageView {
                role: messages[k].role,
                content: messages[k].content + context,
                images: messages[k].images,
                tool_calls: messages[k].tool_calls,
            },
        ),
        None => seq![
            MessageView {
                role: "system"@,
                content: "You are a helpful assistant."@ + context,
                images: None,
                tool_calls: None,
            },
        ] + messages,
    }
}

/// Adds `context` to the first system message, or puts a system message
/// that holds it in front where there is none.
pub fn add_context(messages: &mut Vec<Message>, context: &str)
    ensures
        message_views(final(messages)@) == with_context(message_views(old(messages)@), context@),
{
    let ghost before = message_views(messages@);
    let mut k: usize = 0;
    while k < messages.len()
        invariant
            k <= messages.len(),
            before == message_views(messages@),
            before == message_views(old(messages)@),
            system_from(before, 0) == system_from(before, k as int),
        decreases messages.len() - k,
    {
        if str_eq(messages[k].role.as_str(), "system") {
            let mut message = messages.remove(k);
            message.content.append(context);
            messages.insert(k, message);
            assert(message_views(messages@) =~= with_context(before, context@));
            return ;
        }
        k = k + 1;
    }
    let mut content = String::from_str("You are a helpful assistant.");
    content.append(context);
    messages.insert(
        0,
        Message { role: String::from_str("system"), content, images: None, tool_calls: None },
    );
    assert(message_views(messages@) =~= with_context(before, context@));
}

/// The messages as they are sent: where the model is prompted to write its
/// calls into the text and there are tools, the description of the tools is
/// added to the system message; else nothing changes.
pub open spec fn outgoing(messages: Seq<MessageView>, fallback_mode: bool, tools: Seq<Tool>) -> Seq<
    MessageView,
> {
    if fallback_mode && tools.len() > 0 {
        with_context(messages, tool_context(tool_views(tools)))
    } else {
        messages
    }
}

/// Prepares the messages of a request.
pub fn prepare_messages(messages: &mut Vec<Message>, fallback_mode: bool, tools: &[Tool])
    ensures
        message_views(final(messages)@) == outgoing(
            message_views(old(messages)@),
            fallback_mode,
            tools@,
        ),
{
    if fallback_mode && tools.len() > 0 {
        let context = FallbackToolHandler::generate_tool_context(tools);
        add_context(messages, context.as_str());
    }
}

} // verus!
