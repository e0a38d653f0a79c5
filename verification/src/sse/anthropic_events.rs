//! The streaming events of the Anthropic Messages API, and the blocks that they build up.
use vstd::prelude::*;

verus! {


/// Token counts as the stream reports them.
#[derive(Clone, Copy, Debug, PartialEq, Eq, Structural)]
pub struct AnthropicUsage {
    pub input_tokens: Option<i64>,
    pub output_tokens: Option<i64>,
    pub cache_creation_input_tokens: Option<i64>,
    pub cache_read_input_tokens: Option<i64>,
}

/// The message that `message_start` carries.
pub struct AnthropicMessage {
    pub id: Option<String>,
    pub usage: Option<AnthropicUsage>,
}

/// The model of an [`AnthropicMessage`].
pub struct MessageModel {
    pub id: Option<Seq<char>>,
    pub usage: Option<AnthropicUsage>,
}

impl DeepView for AnthropicMessage {
    type V = MessageModel;

    open spec fn deep_view(&self) -> MessageModel {
        MessageModel { id: self.id.deep_view(), usage: self.usage }
    }
}

/// The block that `content_block_start` opens.
pub struct AnthropicContentBlock {
    pub block_type: String,
    pub id: Option<String>,
    pub name: Option<String>,
}

/// The model of an [`AnthropicContentBlock`].
pub struct ContentBlockModel {
    pub block_type: Seq<char>,
    pub id: Option<Seq<char>>,
    pub name: Option<Seq<char>>,
}

impl DeepView for AnthropicContentBlock {
    type V = ContentBlockModel;

    open spec fn deep_view(&self) -> ContentBlockModel {
        ContentBlockModel {
            block_type: self.block_type@,
            id: self.id.deep_view(),
            name: self.name.deep_view(),
        }
    }
}

/// What a delta adds. `message_delta` carries one without a type.
pub struct AnthropicDelta {
    pub delta_type: Option<String>,
    pub text: Option<String>,
    pub thinking: Option<String>,
    pub partial_json: Option<String>,
}

/// The model of an [`AnthropicDelta`].
pub struct DeltaModel {
    pub delta_type: Option<Seq<char>>,
    pub text: Option<Seq<char>>,
    pub thinking: Option<Seq<char>>,
    pub partial_json: Option<Seq<char>>,
}

impl DeepView for AnthropicDelta {
    type V = DeltaModel;

    open spec fn deep_view(&self) -> DeltaModel {
        DeltaModel {
            delta_type: self.delta_type.deep_view(),
            text: self.text.deep_view(),
            thinking: self.thinking.deep_view(),
            partial_json: self.partial_json.deep_view(),
        }
    }
}

/// A decoded streaming event.
pub struct AnthropicEvent {
    pub event_type: String,
    pub message: Option<AnthropicMessage>,
    pub index: Option<usize>,
    pub delta: Option<AnthropicDelta>,
    pub content_block: Option<AnthropicContentBlock>,
    pub usage: Option<AnthropicUsage>,
}

/// The model of an [`AnthropicEvent`].
pub struct AnthropicEventModel {
    pub event_type: Seq<char>,
    pub message: Option<MessageModel>,
    pub index: Option<usize>,
    pub delta: Option<DeltaModel>,
    pub content_block: Option<ContentBlockModel>,
    pub usage: Option<AnthropicUsage>,
}

impl DeepView for AnthropicEvent {
    type V = AnthropicEventModel;

    open spec fn deep_view(&self) -> AnthropicEventModel {
        AnthropicEventModel {
            event_type: self.event_type@,
            message: self.message.deep_view(),
            index: self.index,
            delta: self.delta.deep_view(),
            content_block: self.content_block.deep_view(),
            usage: self.usage,
        }
    }
}

/// A tool call whose arguments are still coming in.
pub struct ToolCallState {
    pub id: String,
    pub name: String,
    pub json_accumulator: String,
}

/// An open content block, with what it has gathered. Each kind turns into its own kind of item.
pub enum BlockState {
    /// Visible text of the assistant.
    Text(String),
    /// Extended thinking, redacted or not.
    Thinking(String),
    /// A tool call; its arguments gather as JSON text.
    ToolUse(ToolCallState),
}

/// The model of a [`BlockState`].
pub enum BlockModel {
    Text(Seq<char>),
    Thinking(Seq<char>),
    ToolUse { id: Seq<char>, name: Seq<char>, json: Seq<char> },
}

impl DeepView for BlockState {
    type V = BlockModel;

    open spec fn deep_view(&self) -> BlockModel {
        match self {
            BlockState::Text(text) => BlockModel::Text(text@),
            BlockState::Thinking(text) => BlockModel::Thinking(text@),
            BlockState::ToolUse(call) => BlockModel::ToolUse {
                id: call.id@,
                name: call.name@,
                json: call.json_accumulator@,
            },
        }
    }
}

} // verus!
