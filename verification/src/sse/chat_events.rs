//! The chunks of a chat completions stream, and the calls that they build up.
use vstd::prelude::*;

verus! {

/// Token counts as a chunk reports them.
#[derive(Clone, Copy, Debug, PartialEq, Eq, Structural)]
pub struct ChatUsage {
    pub prompt_tokens: Option<i64>,
    pub completion_tokens: Option<i64>,
    pub total_tokens: Option<i64>,
}

/// What a chunk adds to the function of a tool call.
pub struct ChatFunctionDelta {
    pub name: Option<String>,
    pub arguments: Option<String>,
}

/// The model of a [`ChatFunctionDelta`].
pub struct FunctionDeltaModel {
    pub name: Option<Seq<char>>,
    pub arguments: Option<Seq<char>>,
}

impl DeepView for ChatFunctionDelta {
    type V = FunctionDeltaModel;

    open spec fn deep_view(&self) -> FunctionDeltaModel {
        FunctionDeltaModel {
            name: self.name.deep_view(),
            arguments: self.arguments.deep_view(),
        }
    }
}

/// What a chunk adds to the tool call at an index.
pub struct ChatToolCallDelta {
    pub index: usize,
    pub id: Option<String>,
    pub function: Option<ChatFunctionDelta>,
}

/// The model of a [`ChatToolCallDelta`].
pub struct CallDeltaModel {
    pub index: usize,
    pub id: Option<Seq<char>>,
    pub function: Option<FunctionDeltaModel>,
}

impl DeepView for ChatToolCallDelta {
    type V = CallDeltaModel;

    open spec fn deep_view(&self) -> CallDeltaModel {
        CallDeltaModel {
            index: self.index,
            id: self.id.deep_view(),
            function: self.function.deep_view(),
        }
    }
}

/// What a chunk adds to the response.
pub struct ChatDelta {
    pub content: Option<String>,
    pub reasoning_content: Option<String>,
    pub tool_calls: Option<Vec<ChatToolCallDelta>>,
}

/// A choice of a chunk.
pub struct ChatChoice {
    pub delta: ChatDelta,
}

/// The model of a [`ChatChoice`].
pub struct ChoiceModel {
    pub content: Option<Seq<char>>,
    pub reasoning_content: Option<Seq<char>>,
    pub tool_calls: Option<Seq<CallDeltaModel>>,
}

impl DeepView for ChatChoice {
    type V = ChoiceModel;

    open spec fn deep_view(&self) -> ChoiceModel {
        ChoiceModel {
            content: self.delta.content.deep_view(),
            reasoning_content: self.delta.reasoning_content.deep_view(),
            tool_calls: self.delta.tool_calls.deep_view(),
        }
    }
}

/// A decoded chunk.
pub struct ChatCompletionChunk {
    pub id: Option<String>,
    pub choices: Vec<ChatChoice>,
    pub usage: Option<ChatUsage>,
}

/// The model of a [`ChatCompletionChunk`].
pub struct ChunkModel {
    pub id: Option<Seq<char>>,
    pub choices: Seq<ChoiceModel>,
    pub usage: Option<ChatUsage>,
}

impl DeepView for ChatCompletionChunk {
    type V = ChunkModel;

    open spec fn deep_view(&self) -> ChunkModel {
        ChunkModel {
            id: self.id.deep_view(),
            choices: self.choices.deep_view(),
            usage: self.usage,
        }
    }
}

/// A tool call whose parts are still coming in.
pub struct ToolCallAccumulator {
    pub id: Option<String>,
    pub name: Option<String>,
    pub arguments: String,
}

/// The model of a [`ToolCallAccumulator`].
pub struct CallModel {
    pub id: Option<Seq<char>>,
    pub name: Option<Seq<char>>,
    pub arguments: Seq<char>,
}

impl DeepView for ToolCallAccumulator {
    type V = CallModel;

    open spec fn deep_view(&self) -> CallModel {
        CallModel {
            id: self.id.deep_view(),
            name: self.name.deep_view(),
            arguments: self.arguments@,
        }
    }
}

} // verus!
