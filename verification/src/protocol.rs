//! The values that requests are made of and that response streams turn into, each with its model.
use crate::json::{Json, JsonTree};
use vstd::prelude::*;

verus! {

/// A piece of a message.
#[derive(Debug, PartialEq)]
pub enum ContentItem {
    InputText { text: String },
    InputImage { image_url: String },
    OutputText { text: String },
}

/// The model of a [`ContentItem`].
pub enum ContentModel {
    InputText { text: Seq<char> },
    InputImage { image_url: Seq<char> },
    OutputText { text: Seq<char> },
}

impl DeepView for ContentItem {
    type V = ContentModel;

    open spec fn deep_view(&self) -> ContentModel {
        match self {
            ContentItem::InputText { text } => ContentModel::InputText { text: text@ },
            ContentItem::InputImage { image_url } => ContentModel::InputImage {
                image_url: image_url@,
            },
            ContentItem::OutputText { text } => ContentModel::OutputText { text: text@ },
        }
    }
}

/// A piece of the model's reasoning.
#[derive(Debug, PartialEq)]
pub enum ReasoningItemContent {
    ReasoningText { text: String },
}

impl DeepView for ReasoningItemContent {
    type V = Seq<char>;

    open spec fn deep_view(&self) -> Seq<char> {
        match self {
            ReasoningItemContent::ReasoningText { text } => text@,
        }
    }
}

/// What a tool gave back: text, or structured content held as the text that it converts to,
/// where it converts to any.
#[derive(Debug, PartialEq)]
pub enum FunctionCallOutputBody {
    Text(String),
    ContentItems { text: Option<String> },
}

impl DeepView for FunctionCallOutputBody {
    type V = Option<Seq<char>>;

    /// The text of the output, where it has any.
    open spec fn deep_view(&self) -> Option<Seq<char>> {
        match self {
            FunctionCallOutputBody::Text(text) => Some(text@),
            FunctionCallOutputBody::ContentItems { text } => text.deep_view(),
        }
    }
}

impl FunctionCallOutputBody {
    /// The text of the output, where it has any.
    pub fn to_text(&self) -> (text: Option<String>)
        ensures
            text.deep_view() == self.deep_view(),
    {
        match self {
            FunctionCallOutputBody::Text(text) => Some(text.clone()),
            FunctionCallOutputBody::ContentItems { text } => match text {
                Some(text) => Some(text.clone()),
                None => None,
            },
        }
    }
}

/// The result of a tool call.
#[derive(Debug, PartialEq)]
pub struct FunctionCallOutputPayload {
    pub body: FunctionCallOutputBody,
    pub success: Option<bool>,
}

/// An item of a conversation.
#[allow(inconsistent_fields)]
#[derive(Debug, PartialEq)]
pub enum ResponseItem {
    Message {
        id: Option<String>,
        role: String,
        content: Vec<ContentItem>,
        phase: Option<String>,
    },
    Reasoning {
        id: String,
        summary: Vec<String>,
        content: Option<Vec<ReasoningItemContent>>,
        encrypted_content: Option<String>,
    },
    FunctionCall {
        id: Option<String>,
        name: String,
        namespace: Option<String>,
        arguments: String,
        call_id: String,
    },
    FunctionCallOutput { call_id: String, output: FunctionCallOutputPayload },
    Other,
}

/// The model of a [`ResponseItem`].
#[allow(inconsistent_fields)]
pub enum ItemModel {
    Message {
        id: Option<Seq<char>>,
        role: Seq<char>,
        content: Seq<ContentModel>,
        phase: Option<Seq<char>>,
    },
    Reasoning {
        id: Seq<char>,
        summary: Seq<Seq<char>>,
        content: Option<Seq<Seq<char>>>,
        encrypted_content: Option<Seq<char>>,
    },
    FunctionCall {
        id: Option<Seq<char>>,
        name: Seq<char>,
        namespace: Option<Seq<char>>,
        arguments: Seq<char>,
        call_id: Seq<char>,
    },
    FunctionCallOutput { call_id: Seq<char>, text: Option<Seq<char>>, success: Option<bool> },
    Other,
}

impl DeepView for ResponseItem {
    type V = ItemModel;

    open spec fn deep_view(&self) -> ItemModel {
        match self {
            ResponseItem::Message { id, role, content, phase } => ItemModel::Message {
                id: id.deep_view(),
                role: role@,
                content: content.deep_view(),
                phase: phase.deep_view(),
            },
            ResponseItem::Reasoning { id, summary, content, encrypted_content } => {
                ItemModel::Reasoning {
                    id: id@,
                    summary: summary.deep_view(),
                    content: content.deep_view(),
                    encrypted_content: encrypted_content.deep_view(),
                }
            },
            ResponseItem::FunctionCall { id, name, namespace, arguments, call_id } => {
                ItemModel::FunctionCall {
                    id: id.deep_view(),
                    name: name@,
                    namespace: namespace.deep_view(),
                    arguments: arguments@,
                    call_id: call_id@,
                }
            },
            ResponseItem::FunctionCallOutput { call_id, output } => ItemModel::FunctionCallOutput {
                call_id: call_id@,
                text: output.body.deep_view(),
                success: output.success,
            },
            ResponseItem::Other => ItemModel::Other,
        }
    }
}

/// The tokens that a response cost.
#[derive(Clone, Copy, Debug, PartialEq, Eq, Structural)]
pub struct TokenUsage {
    pub input_tokens: i64,
    pub cached_input_tokens: i64,
    pub output_tokens: i64,
    pub reasoning_output_tokens: i64,
    pub total_tokens: i64,
}

impl DeepView for TokenUsage {
    type V = TokenUsage;

    open spec fn deep_view(&self) -> TokenUsage {
        *self
    }
}

/// What a response stream reports.
#[derive(Debug, PartialEq)]
pub enum ResponseEvent {
    Created,
    OutputItemAdded(ResponseItem),
    OutputItemDone(ResponseItem),
    OutputTextDelta(String),
    ReasoningContentDelta { delta: String, content_index: i64 },
    Completed {
        response_id: String,
        token_usage: Option<TokenUsage>,
        end_turn: Option<bool>,
    },
}

/// The model of a [`ResponseEvent`].
pub enum EventModel {
    Created,
    OutputItemAdded(ItemModel),
    OutputItemDone(ItemModel),
    OutputTextDelta(Seq<char>),
    ReasoningContentDelta { delta: Seq<char>, content_index: i64 },
    Completed {
        response_id: Seq<char>,
        token_usage: Option<TokenUsage>,
        end_turn: Option<bool>,
    },
}

impl DeepView for ResponseEvent {
    type V = EventModel;

    open spec fn deep_view(&self) -> EventModel {
        match self {
            ResponseEvent::Created => EventModel::Created,
            ResponseEvent::OutputItemAdded(item) => EventModel::OutputItemAdded(item.deep_view()),
            ResponseEvent::OutputItemDone(item) => EventModel::OutputItemDone(item.deep_view()),
            ResponseEvent::OutputTextDelta(text) => EventModel::OutputTextDelta(text@),
            ResponseEvent::ReasoningContentDelta { delta, content_index } => {
                EventModel::ReasoningContentDelta { delta: delta@, content_index: *content_index }
            },
            ResponseEvent::Completed { response_id, token_usage, end_turn } => {
                EventModel::Completed {
                    response_id: response_id@,
                    token_usage: *token_usage,
                    end_turn: *end_turn,
                }
            },
        }
    }
}

/// What can go wrong with a request or its response stream.
#[derive(Debug, PartialEq)]
pub enum ApiError {
    Stream(String),
}

/// The model of an [`ApiError`].
pub enum ErrorModel {
    Stream(Seq<char>),
}

impl DeepView for ApiError {
    type V = ErrorModel;

    open spec fn deep_view(&self) -> ErrorModel {
        match self {
            ApiError::Stream(message) => ErrorModel::Stream(message@),
        }
    }
}

/// The model of a result.
pub open spec fn result_model<T: DeepView, E: DeepView>(result: Result<T, E>) -> Result<T::V, E::V> {
    match result {
        Ok(value) => Ok(value.deep_view()),
        Err(error) => Err(error.deep_view()),
    }
}

/// What a stream hands on: an event, or the error that ends it.
pub type StreamItem = Result<ResponseEvent, ApiError>;

/// The model of a [`StreamItem`].
pub type StreamItemModel = Result<EventModel, ErrorModel>;

/// The model of what a stream handed on.
pub open spec fn stream_model(items: Seq<StreamItem>) -> Seq<StreamItemModel> {
    Seq::new(items.len(), |i: int| result_model(items[i]))
}

/// A request for a response: what the bodies that endpoints take are made from.
#[derive(Debug, PartialEq)]
pub struct ResponsesApiRequest {
    pub model: String,
    pub instructions: String,
    pub input: Vec<ResponseItem>,
    pub tools: Vec<Json>,
    pub tool_choice: String,
    pub parallel_tool_calls: bool,
    pub store: bool,
}

/// The model of a [`ResponsesApiRequest`].
pub struct RequestModel {
    pub model: Seq<char>,
    pub instructions: Seq<char>,
    pub input: Seq<ItemModel>,
    pub tools: Seq<JsonTree>,
    pub tool_choice: Seq<char>,
    pub parallel_tool_calls: bool,
    pub store: bool,
}

impl DeepView for ResponsesApiRequest {
    type V = RequestModel;

    open spec fn deep_view(&self) -> RequestModel {
        RequestModel {
            model: self.model@,
            instructions: self.instructions@,
            input: self.input.deep_view(),
            tools: self.tools.deep_view(),
            tool_choice: self.tool_choice@,
            parallel_tool_calls: self.parallel_tool_calls,
            store: self.store,
        }
    }
}

} // verus!
