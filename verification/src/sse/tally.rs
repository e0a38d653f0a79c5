//! Counting and reading what streams hand on.
use crate::protocol::{EventModel, StreamItemModel};
use vstd::prelude::*;

verus! {

/// The number of items of which `p` holds.
pub open spec fn tally(items: Seq<StreamItemModel>, p: spec_fn(StreamItemModel) -> bool) -> nat
    decreases items.len(),
{
    if items.len() == 0 {
        0
    } else {
        tally(items.drop_last(), p) + if p(items.last()) {
            1nat
        } else {
            0nat
        }
    }
}

/// Items in two parts are counted part by part.
pub proof fn lemma_tally_concat(
    a: Seq<StreamItemModel>,
    b: Seq<StreamItemModel>,
    p: spec_fn(StreamItemModel) -> bool,
)
    ensures
        tally(a + b, p) == tally(a, p) + tally(b, p),
    decreases b.len(),
{
    if b.len() == 0 {
        assert(a + b =~= a);
    } else {
        assert((a + b).drop_last() =~= a + b.drop_last());
        lemma_tally_concat(a, b.drop_last(), p);
    }
}

/// The count of a single item.
pub proof fn lemma_tally_one(item: StreamItemModel, p: spec_fn(StreamItemModel) -> bool)
    ensures
        tally(seq![item], p) == if p(item) {
            1nat
        } else {
            0nat
        },
{
    assert(seq![item].drop_last() =~= Seq::empty());
    reveal_with_fuel(tally, 2);
}

/// Holds of the announcement of an item.
pub open spec fn announces() -> spec_fn(StreamItemModel) -> bool {
    |item: StreamItemModel| item matches Ok(EventModel::OutputItemAdded(_))
}

/// Holds of the close of an item of a kind that is announced: a message, or reasoning.
pub open spec fn closes_announced() -> spec_fn(StreamItemModel) -> bool {
    |item: StreamItemModel|
        item matches Ok(EventModel::OutputItemDone(done)) && (done is Message || done is Reasoning)
}

/// Holds of an item after which a stream hands nothing on: a completion, or an error.
pub open spec fn is_end(item: StreamItemModel) -> bool {
    match item {
        Ok(EventModel::Completed { .. }) => true,
        Ok(_) => false,
        Err(_) => true,
    }
}

/// Holds of items none of which ends a stream.
pub open spec fn has_no_end(items: Seq<StreamItemModel>) -> bool {
    forall|i: int| 0 <= i < items.len() ==> !is_end(#[trigger] items[i])
}

/// Holds of items of which the last, and no other, ends a stream.
pub open spec fn ends_once(items: Seq<StreamItemModel>) -> bool {
    items.len() > 0 && is_end(items.last()) && has_no_end(items.drop_last())
}

/// `texts` one after the other.
pub open spec fn concatenated(texts: Seq<Seq<char>>) -> Seq<char>
    decreases texts.len(),
{
    if texts.len() == 0 {
        Seq::empty()
    } else {
        concatenated(texts.drop_last()) + texts.last()
    }
}

/// The text that is handed on piece by piece in `items`.
pub open spec fn streamed_text(items: Seq<StreamItemModel>) -> Seq<char>
    decreases items.len(),
{
    if items.len() == 0 {
        Seq::empty()
    } else {
        streamed_text(items.drop_last()) + match items.last() {
            Ok(EventModel::OutputTextDelta(text)) => text,
            _ => Seq::empty(),
        }
    }
}

/// Items in two parts hand on the text of the one and then that of the other.
pub proof fn lemma_streamed_text_concat(a: Seq<StreamItemModel>, b: Seq<StreamItemModel>)
    ensures
        streamed_text(a + b) == streamed_text(a) + streamed_text(b),
    decreases b.len(),
{
    if b.len() == 0 {
        assert(a + b =~= a);
        assert(streamed_text(a) + streamed_text(b) =~= streamed_text(a));
    } else {
        assert((a + b).drop_last() =~= a + b.drop_last());
        lemma_streamed_text_concat(a, b.drop_last());
        assert(streamed_text(a + b) =~= streamed_text(a) + streamed_text(b));
    }
}

} // verus!
