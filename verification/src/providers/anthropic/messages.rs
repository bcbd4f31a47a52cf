//! Anthropic: the messages and tools of a request.

use crate::fallback::{tool_views, ToolView};
use crate::json::{Json, JsonView};
use crate::text::texts;
use crate::types::{call_views, Message, MessageView, Tool, ToolCallView};
use vstd::prelude::*;
use vstd::string::StringExecFns;

verus! {

/// Where the data of an image comes from.
#[derive(Clone, Debug, PartialEq, Eq)]
pub struct ImageSource {
    pub source_type: String,
    pub media_type: String,
    pub data: String,
}

/// The mathematical value of an [`ImageSource`].
pub struct ImageSourceView {
    pub source_type: Seq<char>,
    pub media_type: Seq<char>,
    pub data: Seq<char>,
}

impl View for ImageSource {
    type V = ImageSourceView;

    open spec fn view(&self) -> ImageSourceView {
        ImageSourceView {
            source_type: self.source_type@,
            media_type: self.media_type@,
            data: self.data@,
        }
    }
}

/// One block of the content of a message.
#[derive(Clone, Debug, PartialEq, Eq)]
pub enum ContentBlock {
    Text { text: String },
    Image { source: ImageSource },
    ToolUse { id: String, name: String, input: Json },
    ToolResult { tool_use_id: String, content: String },
}

/// The mathematical value of a [`ContentBlock`].
pub enum ContentBlockView {
    Text { text: Seq<char> },
    Image { source: ImageSourceView },
    ToolUse { id: Seq<char>, name: Seq<char>, input: JsonView },
    ToolResult { tool_use_id: Seq<char>, content: Seq<char> },
}

impl View for ContentBlock {
    type V = ContentBlockView;

    open spec fn view(&self) -> ContentBlockView {
        match self {
            ContentBlock::Text { text } => ContentBlockView::Text { text: text@ },
            ContentBlock::Image { source } => ContentBlockView::Image { source: source@ },
            ContentBlock::ToolUse { id, name, input } => ContentBlockView::ToolUse {
                id: id@,
                name: name@,
                input: input@,
            },
            ContentBlock::ToolResult { tool_use_id, content } => ContentBlockView::ToolResult {
                tool_use_id: tool_use_id@,
                content: content@,
            },
        }
    }
}

/// The values of a sequence of content blocks.
pub open spec fn block_views(blocks: Seq<ContentBlock>) -> Seq<ContentBlockView> {
    Seq::new(blocks.len(), |i: int| blocks[i]@)
}

/// A message as a request carries it.
#[derive(Clone, Debug, PartialEq, Eq)]
pub struct AnthropicMessage {
    pub role: String,
    pub content: Vec<ContentBlock>,
}

/// The mathematical value of an [`AnthropicMessage`].
pub struct AnthropicMessageView {
    pub role: Seq<char>,
    pub content: Seq<ContentBlockView>,
}

impl View for AnthropicMessage {
    type V = AnthropicMessageView;

    open spec fn view(&self) -> AnthropicMessageView {
        AnthropicMessageView { role: self.role@, content: block_views(self.content@) }
    }
}

/// The block that carries an image, given as base64 text.
pub open spec fn image_block(data: Seq<char>) -> ContentBlockView {
    ContentBlockView::Image {
        source: ImageSourceView { source_type: "base64"@, media_type: "image/jpeg"@, data },
    }
}

/// The blocks of the last `n` images, the last image first.
pub open spec fn image_blocks(images: Seq<Seq<char>>, n: int) -> Seq<ContentBlockView>
    decreases n,
{
    if n <= 0 || n > images.len() {
        Seq::empty()
    } else {
        image_blocks(images, n - 1).push(image_block(images[images.len() - n]))
    }
}

/// The block that carries a tool call. Every call goes under the same
/// made-up id.
pub open spec fn tool_use_block(call: ToolCallView) -> ContentBlockView {
    ContentBlockView::ToolUse {
        id: "call_generated_id"@,
        name: call.name,
        input: call.arguments,
    }
}

/// The blocks of the first `n` tool calls.
pub open spec fn tool_use_blocks(calls: Seq<ToolCallView>, n: int) -> Seq<ContentBlockView>
    decreases n,
{
    if n <= 0 || n > calls.len() {
        Seq::empty()
    } else {
        tool_use_blocks(calls, n - 1).push(tool_use_block(calls[n - 1]))
    }
}

/// The blocks of a message: its images, the last one first, then its
/// text, then its tool calls.
pub open spec fn message_blocks(message: MessageView) -> Seq<ContentBlockView> {
    (match message.images {
        Some(images) => image_blocks(images, images.len() as int),
        None => Seq::empty(),
    }) + seq![ContentBlockView::Text { text: message.content }] + (match message.tool_calls {
        Some(calls) => tool_use_blocks(calls, calls.len() as int),
        None => Seq::empty(),
    })
}

/// A message as a request carries it.
pub open spec fn wire_message(message: MessageView) -> AnthropicMessageView {
    AnthropicMessageView { role: message.role, content: message_blocks(message) }
}

/// Converts a message into the form of a request.
pub fn convert_message(message: &Message) -> (wire: AnthropicMessage)
    ensures
        wire@ == wire_message(message@),
{
    let mut blocks: Vec<ContentBlock> = Vec::new();
    match &message.images {
        Some(images) => {
            let ghost model = texts(images@);
            let mut n: usize = 0;
            assert(block_views(blocks@) =~= image_blocks(model, 0));
            while n < images.len()
                invariant
                    n <= images.len(),
                    model == texts(images@),
                    block_views(blocks@) == image_blocks(model, n as int),
                decreases images.len() - n,
            {
                let ghost so_far = block_views(blocks@);
                let block = ContentBlock::Image {
                    source: ImageSource {
                        source_type: String::from_str("base64"),
                        media_type: String::from_str("image/jpeg"),
                        data: images[images.len() - 1 - n].clone(),
                    },
                };
                n = n + 1;
                blocks.push(block);
                assert(block_views(blocks@) =~= so_far.push(
                    image_block(model[images.len() - n]),
                ));
            }
        },
        None => {
            assert(block_views(blocks@) =~= Seq::<ContentBlockView>::empty());
        },
    }
    let ghost head = block_views(blocks@);
    blocks.push(ContentBlock::Text { text: message.content.clone() });
    let ghost middle = block_views(blocks@);
    assert(middle =~= head + seq![ContentBlockView::Text { text: message.content@ }]);
    match &message.tool_calls {
        Some(calls) => {
            let ghost model = call_views(calls@);
            let mut i: usize = 0;
            assert(block_views(blocks@) =~= middle + tool_use_blocks(model, 0));
            while i < calls.len()
                invariant
                    i <= calls.len(),
                    model == call_views(calls@),
                    block_views(blocks@) == middle + tool_use_blocks(model, i as int),
                decreases calls.len() - i,
            {
                let ghost so_far = block_views(blocks@);
                let block = ContentBlock::ToolUse {
                    id: String::from_str("call_generated_id"),
                    name: calls[i].function.name.clone(),
                    input: calls[i].function.arguments.duplicate(),
                };
                blocks.push(block);
                assert(block_views(blocks@) =~= so_far.push(tool_use_block(model[i as int])));
                i = i + 1;
                assert(block_views(blocks@) =~= middle + tool_use_blocks(model, i as int));
            }
        },
        None => {
            assert(block_views(blocks@) =~= middle + Seq::<ContentBlockView>::empty());
        },
    }
    AnthropicMessage { role: message.role.clone(), content: blocks }
}

/// A tool as a request carries it.
#[derive(Clone, Debug, PartialEq, Eq)]
pub struct AnthropicTool {
    pub name: String,
    pub description: String,
    pub input_schema: Json,
}

/// The values of a sequence of wire tools.
pub open spec fn wire_tool_views(tools: Seq<AnthropicTool>) -> Seq<ToolView> {
    Seq::new(
        tools.len(),
        |i: int|
            ToolView {
                name: tools[i].name@,
                description: tools[i].description@,
                parameters: tools[i].input_schema@,
            },
    )
}

/// Converts the tools of a client into the form of a request: each keeps
/// its name, its description and its schema.
pub fn convert_tools(tools: &[Tool]) -> (wire: Vec<AnthropicTool>)
    ensures
        wire_tool_views(wire@) == tool_views(tools@),
{
    let mut wire: Vec<AnthropicTool> = Vec::new();
    let mut i: usize = 0;
    while i < tools.len()
        invariant
            i <= tools.len(),
            wire@.len() == i,
            forall|j: int| 0 <= j < i ==> wire_tool_views(wire@)[j] == tool_views(tools@)[j],
        decreases tools.len() - i,
    {
        let tool = &tools[i];
        wire.push(
            AnthropicTool {
                name: tool.name.clone(),
                description: tool.description.clone(),
                input_schema: tool.parameters.duplicate(),
            },
        );
        i = i + 1;
    }
    assert(wire_tool_views(wire@) =~= tool_views(tools@));
    wire
}

/// The message that carries the result of a tool back to the model: it
/// comes from the user.
pub fn tool_result_message(result: String) -> (message: Message)
    ensures
        message@ == (MessageView {
            role: "user"@,
            content: result@,
            images: None,
            tool_calls: None,
        }),
{
    Message { role: String::from_str("user"), content: result, images: None, tool_calls: None }
}

} // verus!
