//! Finding the tool that a call names.

use crate::fallback::{tool_views, ToolView};
use crate::text::str_eq;
use crate::types::Tool;
use vstd::prelude::*;
use vstd::string::StringExecFns;

verus! {

/// The index of the first tool at or after `from` that is named `name`.
pub open spec fn tool_from(tools: Seq<ToolView>, name: Seq<char>, from: int) -> Option<int>
    decreases tools.len() - from,
{
    if from < 0 || from >= tools.len() {
        None
    } else if tools[from].name == name {
        Some(from)
    } else {
        tool_from(tools, name, from + 1)
    }
}

/// The index of the first tool that is named `name`.
pub fn find_tool(tools: &[Tool], name: &str) -> (found: Option<usize>)
    ensures
        match found {
            Some(i) => i < tools@.len() && tool_from(tool_views(tools@), name@, 0) == Some(
                i as int,
            ),
            None => tool_from(tool_views(tools@), name@, 0) is None,
        },
{
    let ghost model = tool_views(tools@);
    let mut i: usize = 0;
    while i < tools.len()
        invariant
            i <= tools.len(),
            model == tool_views(tools@),
            tool_from(model, name@, 0) == tool_from(model, name@, i as int),
        decreases tools.len() - i,
    {
        if str_eq(tools[i].name.as_str(), name) {
            return Some(i);
        }
        i = i + 1;
    }
    None
}

/// What is answered for a call that names no tool of the client.
pub fn missing_tool_message(name: &str) -> (message: String)
    ensures
        message@ == "Tool "@ + name@ + " not found or invalid arguments"@,
{
    let mut message = String::from_str("Tool ");
    message.append(name);
    message.append(" not found or invalid arguments");
    message
}

} // verus!
