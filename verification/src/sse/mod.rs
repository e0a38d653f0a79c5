//! What drives a response stream and what comes of each step of it.
use crate::protocol::{
    stream_model, ApiError, ErrorModel, EventModel, ResponseEvent, StreamItem, StreamItemModel,
};
use vstd::prelude::*;

pub mod anthropic;
pub mod anthropic_brackets;
pub mod anthropic_event_laws;
pub mod anthropic_events;
pub mod anthropic_laws;
pub mod anthropic_model;
pub mod chat_completions;
pub mod chat_event_laws;
pub mod chat_events;
pub mod chat_laws;
pub mod chat_model;
pub mod tally;

verus! {

/// What waiting for the next server-sent event gave. `E` is what the data of an event decodes to.
pub enum SseInput<E> {
    /// An event: its data, and what the data without surrounding white space decodes to, or the
    /// text of the error that decoding gave.
    Event { data: String, decoded: Result<E, String> },
    /// The stream failed; the text of the error.
    TransportError(String),
    /// The stream ended.
    End,
    /// Nothing came in time.
    IdleTimeout,
}

/// The model of an [`SseInput`].
pub enum SseModel<M> {
    Event { data: Seq<char>, decoded: Result<M, Seq<char>> },
    TransportError(Seq<char>),
    End,
    IdleTimeout,
}

impl<E: DeepView> DeepView for SseInput<E> {
    type V = SseModel<E::V>;

    open spec fn deep_view(&self) -> SseModel<E::V> {
        match self {
            SseInput::Event { data, decoded } => SseModel::Event {
                data: data@,
                decoded: match decoded {
                    Ok(event) => Ok(event.deep_view()),
                    Err(error) => Err(error@),
                },
            },
            SseInput::TransportError(error) => SseModel::TransportError(error@),
            SseInput::End => SseModel::End,
            SseInput::IdleTimeout => SseModel::IdleTimeout,
        }
    }
}

/// What one step of a stream hands on, and whether it was the last.
pub struct Step {
    pub items: Vec<StreamItem>,
    pub done: bool,
}

impl Step {
    /// The model of what the step hands on.
    pub open spec fn items_model(&self) -> Seq<StreamItemModel> {
        stream_model(self.items@)
    }
}

/// The error item that ends a stream.
pub(crate) fn stream_error(message: String) -> (items: Vec<StreamItem>)
    ensures
        stream_model(items@) == seq![
            Err::<EventModel, ErrorModel>(ErrorModel::Stream(message@)),
        ],
{
    let mut items: Vec<StreamItem> = Vec::new();
    items.push(Err(ApiError::Stream(message)));
    assert(stream_model(items@) =~= seq![
        Err::<EventModel, ErrorModel>(ErrorModel::Stream(message@)),
    ]);
    items
}

/// The items that hand one event on.
pub(crate) fn one_event(event: ResponseEvent) -> (items: Vec<StreamItem>)
    ensures
        stream_model(items@) == seq![Ok::<EventModel, ErrorModel>(event.deep_view())],
{
    let mut items: Vec<StreamItem> = Vec::new();
    items.push(Ok(event));
    assert(stream_model(items@) =~= seq![Ok::<EventModel, ErrorModel>(event.deep_view())]);
    items
}

/// A count, with a missing one read as zero.
pub open spec fn count(field: Option<i64>) -> i64 {
    match field {
        Some(value) => value,
        None => 0,
    }
}

/// A count, with a missing one read as zero.
pub(crate) fn value_or_zero(field: Option<i64>) -> (value: i64)
    ensures
        value == count(field),
{
    match field {
        Some(value) => value,
        None => 0,
    }
}

/// No items.
pub(crate) fn no_items() -> (items: Vec<StreamItem>)
    ensures
        stream_model(items@) == Seq::<StreamItemModel>::empty(),
{
    let items: Vec<StreamItem> = Vec::new();
    assert(stream_model(items@) =~= Seq::empty());
    items
}

} // verus!
