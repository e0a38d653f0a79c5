//! What holds of every Anthropic Messages stream.
use crate::ordered::{ascending, lemma_ascending_lists, lists};
use crate::protocol::{EventModel, StreamItemModel};
use crate::seqs::{lemma_present_push, present};
use crate::sse::anthropic_events::{AnthropicEventModel, AnthropicUsage, BlockModel};
use crate::sse::anthropic_model::{
    after_input, announced, block_index, closing, closing_all, closing_at, completes, completion,
    extended, finished, fits, fragment, handed_on, kept_max, merged, no_usage,
    opened_block, run, AnthropicModel, Fragment,
};
use crate::sse::tally::{concatenated, ends_once, has_no_end, is_end};
use crate::sse::{count, SseModel};
use vstd::prelude::*;

verus! {

/// It does not matter in which order two usage reports come in.
pub proof fn law_usage_reports_commute(
    slot: Option<AnthropicUsage>,
    first: AnthropicUsage,
    second: AnthropicUsage,
)
    ensures
        merged(Some(merged(slot, first)), second) == merged(Some(merged(slot, second)), first),
{
}

/// A usage report that comes in twice counts once.
pub proof fn law_usage_report_repeated(slot: Option<AnthropicUsage>, report: AnthropicUsage)
    ensures
        merged(Some(merged(slot, report)), report) == merged(slot, report),
{
}

/// Counts that come in two reports, the input in one and the output in the other, come to the same
/// as in one report.
pub proof fn law_usage_report_split(slot: Option<AnthropicUsage>, report: AnthropicUsage)
    ensures
        merged(
            Some(merged(slot, AnthropicUsage { output_tokens: None, ..report })),
            AnthropicUsage { output_tokens: report.output_tokens, ..no_usage() },
        ) == merged(slot, report),
{
}

/// A count becomes the largest value seen: no report lowers it, none reports more than it, and it is
/// either what it was or what was reported.
pub proof fn law_count_is_the_largest(field: Option<i64>, incoming: Option<i64>)
    ensures
        count(kept_max(field, incoming)) >= count(field),
        incoming matches Some(value) ==> count(kept_max(field, incoming)) >= value,
        kept_max(field, incoming) == field || kept_max(field, incoming) == incoming,
{
}

/// The first report of a count is kept, unless it is negative.
pub proof fn law_first_report_is_kept(value: i64)
    ensures
        value >= 0 ==> kept_max(None, Some(value)) == Some(value),
        value < 0 ==> kept_max(None, Some(value)) is None,
{
}

/// Holds of counts that are missing or not negative.
pub open spec fn is_not_negative(field: Option<i64>) -> bool {
    field matches Some(value) ==> value >= 0
}

/// Holds of usage of which no count is negative.
pub open spec fn has_no_negative_counts(usage: Option<AnthropicUsage>) -> bool {
    usage matches Some(usage) ==> {
        &&& is_not_negative(usage.input_tokens)
        &&& is_not_negative(usage.output_tokens)
        &&& is_not_negative(usage.cache_creation_input_tokens)
        &&& is_not_negative(usage.cache_read_input_tokens)
    }
}

/// No input makes a count of a stream negative.
pub proof fn law_counts_are_never_negative(s: AnthropicModel, input: SseModel<AnthropicEventModel>)
    requires
        has_no_negative_counts(s.usage),
    ensures
        has_no_negative_counts(after_input(s, input).state.usage),
{
}

/// A step that is not the last hands on neither an error nor a completion. The last step hands on
/// an error alone, or closes what is open and completes the response at the very end.
pub proof fn law_one_end(s: AnthropicModel, input: SseModel<AnthropicEventModel>)
    ensures
        ({
            let step = after_input(s, input);
            &&& !step.done ==> has_no_end(step.items)
            &&& step.done ==> ends_once(step.items)
            &&& step.done && step.items.last() is Err ==> step.items.len() == 1 && step.state == s
            &&& step.done && step.items.last() is Ok <==> completes(input)
        }),
{
    lemma_event_types();
    if completes(input) {
        let closed = closing_all(s.blocks);
        assert(finished(s).items.drop_last() =~= closed);
    }
}

/// The types of events are different texts.
pub proof fn lemma_event_types()
    ensures
        "message_stop"@ != "message_start"@,
        "message_stop"@ != "message_delta"@,
        "message_stop"@ != "content_block_start"@,
        "message_stop"@ != "content_block_delta"@,
        "message_stop"@ != "content_block_stop"@,
        "content_block_start"@ != "message_start"@,
        "content_block_delta"@ != "message_start"@,
        "content_block_delta"@ != "content_block_start"@,
        "content_block_stop"@ != "message_start"@,
        "content_block_stop"@ != "content_block_start"@,
        "content_block_stop"@ != "content_block_delta"@,
{
    reveal_strlit("message_start");
    reveal_strlit("message_delta");
    reveal_strlit("message_stop");
    reveal_strlit("content_block_start");
    reveal_strlit("content_block_delta");
    reveal_strlit("content_block_stop");
    assert("message_stop"@[8] == 's' && "message_stop"@[9] == 't' && "message_stop"@[10] == 'o');
    assert("message_stop"@.len() == 12);
    assert("message_start"@.len() == 13);
    assert("content_block_stop"@.len() == 18);
    assert("content_block_start"@[14] == 's');
    assert("content_block_delta"@[14] == 'd');
}

/// The response that a stream completes always has an id, and the turn always ends.
pub proof fn law_completion_has_an_id(s: AnthropicModel)
    ensures
        completion(s) matches Ok(EventModel::Completed { response_id, end_turn, .. })
            && response_id.len() > 0 && end_turn == Some(true),
        s.response_id.len() > 0 ==> completion(s)->Ok_0->response_id == s.response_id,
{
    reveal_strlit("msg-anthropic");
}

/// At the end of a stream every open block closes exactly once, in the order of the indices, and no
/// block stays open.
pub proof fn law_end_closes_every_block(s: AnthropicModel)
    requires
        s.blocks.dom().finite(),
    ensures
        ({
            let step = finished(s);
            let indices = ascending(s.blocks.dom());
            &&& step.state.blocks == Map::<usize, BlockModel>::empty()
            &&& lists(indices, s.blocks.dom())
            &&& step.items.len() == indices.len() + 1
            &&& forall|i: int|
                0 <= i < indices.len() ==> #[trigger] step.items[i] == closing(
                    s.blocks[indices[i]],
                )
            &&& step.items.last() == completion(s)
        }),
{
    lemma_ascending_lists(s.blocks.dom());
}

/// However a stream runs, it hands on at most one end, and nothing behind it; and it has ended
/// exactly when it has handed one on.
pub proof fn law_run_ends_once(s: AnthropicModel, inputs: Seq<SseModel<AnthropicEventModel>>)
    ensures
        ({
            let step = run(s, inputs);
            &&& !step.done ==> has_no_end(step.items)
            &&& step.done ==> ends_once(step.items)
        }),
    decreases inputs.len(),
{
    if inputs.len() > 0 {
        let before = run(s, inputs.drop_last());
        law_run_ends_once(s, inputs.drop_last());
        if !before.done {
            let last = after_input(before.state, inputs.last());
            law_one_end(before.state, inputs.last());
            let items = before.items + last.items;
            if last.done {
                let front = items.drop_last();
                assert forall|i: int| 0 <= i < front.len() implies !is_end(#[trigger] front[i]) by {
                    if i < before.items.len() {
                        assert(front[i] == before.items[i]);
                    } else {
                        assert(front[i] == last.items.drop_last()[i - before.items.len()]);
                    }
                }
                assert(items.last() == last.items.last());
            } else {
                assert forall|i: int| 0 <= i < items.len() implies !is_end(#[trigger] items[i]) by {
                    if i < before.items.len() {
                        assert(items[i] == before.items[i]);
                    } else {
                        assert(items[i] == last.items[i - before.items.len()]);
                    }
                }
            }
        }
    }
}

/// Holds of an input that opens `block` at `index`.
pub open spec fn opens(
    input: SseModel<AnthropicEventModel>,
    index: usize,
    block: BlockModel,
) -> bool {
    match input {
        SseModel::Event { decoded: Ok(event), .. } => {
            &&& event.event_type == "content_block_start"@
            &&& event.index == Some(index)
            &&& event.content_block matches Some(content) && opened_block(content) == Some(block)
        },
        _ => false,
    }
}

/// Holds of an input that brings a fragment for the block at `index`.
pub open spec fn brings(
    input: SseModel<AnthropicEventModel>,
    index: usize,
    piece: Fragment,
) -> bool {
    match input {
        SseModel::Event { decoded: Ok(event), .. } => {
            &&& event.event_type == "content_block_delta"@
            &&& block_index(event) == index
            &&& event.delta matches Some(delta) && fragment(delta) == Some(piece)
        },
        _ => false,
    }
}

/// Holds of an input that stops the block at `index`.
pub open spec fn stops(input: SseModel<AnthropicEventModel>, index: usize) -> bool {
    match input {
        SseModel::Event { decoded: Ok(event), .. } => {
            &&& event.event_type == "content_block_stop"@
            &&& block_index(event) == index
        },
        _ => false,
    }
}

/// A block with fragments added, one after the other.
pub open spec fn gathered(block: BlockModel, pieces: Seq<Fragment>) -> BlockModel
    decreases pieces.len(),
{
    if pieces.len() == 0 {
        block
    } else {
        extended(gathered(block, pieces.drop_last()), pieces.last())
    }
}

/// What is handed on of fragments that come in for an open block, one after the other.
pub open spec fn all_handed_on(
    block: BlockModel,
    pieces: Seq<Fragment>,
    index: usize,
) -> Seq<StreamItemModel>
    decreases pieces.len(),
{
    if pieces.len() == 0 {
        Seq::empty()
    } else {
        all_handed_on(block, pieces.drop_last(), index) + handed_on(
            fits(block, pieces.last()),
            pieces.last(),
            index,
        )
    }
}

/// A block keeps its kind.
proof fn lemma_gathered_kind(block: BlockModel, pieces: Seq<Fragment>)
    ensures
        gathered(block, pieces) is Text == block is Text,
        gathered(block, pieces) is Thinking == block is Thinking,
        gathered(block, pieces) is ToolUse == block is ToolUse,
    decreases pieces.len(),
{
    if pieces.len() > 0 {
        lemma_gathered_kind(block, pieces.drop_last());
    }
}

/// While fragments come in for an open block, the block gathers those of its kind, they are handed on
/// as they come, and nothing else changes.
pub proof fn law_open_block_gathers(
    s: AnthropicModel,
    index: usize,
    inputs: Seq<SseModel<AnthropicEventModel>>,
    pieces: Seq<Fragment>,
)
    requires
        s.blocks.contains_key(index),
        inputs.len() == pieces.len(),
        forall|i: int| 0 <= i < inputs.len() ==> brings(#[trigger] inputs[i], index, pieces[i]),
    ensures
        ({
            let step = run(s, inputs);
            &&& !step.done
            &&& step.items == all_handed_on(s.blocks[index], pieces, index)
            &&& step.state == AnthropicModel {
                blocks: s.blocks.insert(index, gathered(s.blocks[index], pieces)),
                ..s
            }
        }),
    decreases inputs.len(),
{
    lemma_event_types();
    if inputs.len() == 0 {
        assert(s.blocks.insert(index, s.blocks[index]) =~= s.blocks);
    } else {
        let front = inputs.drop_last();
        assert forall|i: int| 0 <= i < front.len() implies brings(
            #[trigger] front[i],
            index,
            pieces.drop_last()[i],
        ) by {
            assert(front[i] == inputs[i]);
        }
        law_open_block_gathers(s, index, front, pieces.drop_last());
        lemma_gathered_kind(s.blocks[index], pieces.drop_last());
        assert(brings(inputs.last(), index, pieces.last()));
        let before = run(s, front).state;
        let after = after_input(before, inputs.last()).state;
        assert(after.blocks =~= s.blocks.insert(index, gathered(s.blocks[index], pieces)));
    }
}

/// A block that opens, gets fragments and stops is announced, has its fragments handed on, and
/// closes with all that it gathered. What was open at its index closes first; whatever else is open
/// stays as it is.
pub proof fn law_block_from_start_to_stop(
    s: AnthropicModel,
    index: usize,
    block: BlockModel,
    start: SseModel<AnthropicEventModel>,
    inputs: Seq<SseModel<AnthropicEventModel>>,
    pieces: Seq<Fragment>,
    stop: SseModel<AnthropicEventModel>,
)
    requires
        opens(start, index, block),
        inputs.len() == pieces.len(),
        forall|i: int| 0 <= i < inputs.len() ==> brings(#[trigger] inputs[i], index, pieces[i]),
        stops(stop, index),
    ensures
        ({
            let opened = after_input(s, start);
            let grown = run(opened.state, inputs);
            let closed = after_input(grown.state, stop);
            &&& !opened.done && !grown.done && !closed.done
            &&& opened.items == closing_at(s.blocks, index) + announced(block)
            &&& grown.items == all_handed_on(block, pieces, index)
            &&& closed.items == seq![closing(gathered(block, pieces))]
            &&& closed.state == AnthropicModel { blocks: s.blocks.remove(index), ..s }
        }),
{
    lemma_event_types();
    let opened = after_input(s, start).state;
    assert(opened.blocks[index] == block);
    law_open_block_gathers(opened, index, inputs, pieces);
    let grown = run(opened, inputs).state;
    let closed = after_input(grown, stop).state;
    assert(grown.blocks[index] == gathered(block, pieces));
    assert(closed.blocks =~= s.blocks.remove(index));
}

/// A text block gathers its text deltas one after the other, a thinking block its thinking deltas,
/// and a tool call the pieces of its arguments.
pub proof fn law_gathered_is_concatenated(texts: Seq<Seq<char>>, id: Seq<char>, name: Seq<char>)
    ensures
        gathered(
            BlockModel::Text(Seq::empty()),
            texts.map_values(|text: Seq<char>| Fragment::Text(text)),
        ) == BlockModel::Text(concatenated(texts)),
        gathered(
            BlockModel::Thinking(Seq::empty()),
            texts.map_values(|text: Seq<char>| Fragment::Thinking(text)),
        ) == BlockModel::Thinking(concatenated(texts)),
        gathered(
            BlockModel::ToolUse { id, name, json: Seq::empty() },
            texts.map_values(|text: Seq<char>| Fragment::Json(text)),
        ) == (BlockModel::ToolUse { id, name, json: concatenated(texts) }),
    decreases texts.len(),
{
    if texts.len() > 0 {
        law_gathered_is_concatenated(texts.drop_last(), id, name);
        assert(texts.map_values(|text: Seq<char>| Fragment::Text(text)).drop_last()
            =~= texts.drop_last().map_values(|text: Seq<char>| Fragment::Text(text)));
        assert(texts.map_values(|text: Seq<char>| Fragment::Thinking(text)).drop_last()
            =~= texts.drop_last().map_values(|text: Seq<char>| Fragment::Thinking(text)));
        assert(texts.map_values(|text: Seq<char>| Fragment::Json(text)).drop_last()
            =~= texts.drop_last().map_values(|text: Seq<char>| Fragment::Json(text)));
    }
}

/// An input that is not about the block at `index`, and does not complete the response, leaves that
/// block as it is.
pub proof fn law_other_blocks_stay(
    s: AnthropicModel,
    index: usize,
    input: SseModel<AnthropicEventModel>,
)
    requires
        s.blocks.contains_key(index),
        !completes(input),
        input matches SseModel::Event { decoded: Ok(event), .. } ==> event.index != Some(index) && (
        event.index is None ==> index != 0),
    ensures
        after_input(s, input).state.blocks.contains_key(index),
        after_input(s, input).state.blocks[index] == s.blocks[index],
{
    lemma_event_types();
}

/// Holds of a decoded event that neither ends the stream nor opens or stops the block at `index`.
pub open spec fn spares(input: SseModel<AnthropicEventModel>, index: usize) -> bool {
    match input {
        SseModel::Event { decoded: Ok(event), .. } => {
            &&& event.event_type != "message_stop"@
            &&& event.event_type != "error"@
            &&& !(event.event_type == "content_block_start"@ && event.index == Some(index))
            &&& !stops(input, index)
        },
        _ => false,
    }
}

/// The fragment that an input brings for the block at `index`, if it brings one.
pub open spec fn piece_for(input: SseModel<AnthropicEventModel>, index: usize) -> Option<Fragment> {
    match input {
        SseModel::Event { decoded: Ok(event), .. } => if event.event_type == "content_block_delta"@
            && block_index(event) == index {
            match event.delta {
                Some(delta) => fragment(delta),
                None => None,
            }
        } else {
            None
        },
        _ => None,
    }
}

/// The fragments that inputs bring for the block at `index`, in order.
pub open spec fn pieces_for(
    inputs: Seq<SseModel<AnthropicEventModel>>,
    index: usize,
) -> Seq<Fragment> {
    present(inputs.map_values(|input: SseModel<AnthropicEventModel>| piece_for(input, index)))
}

/// An open block gathers the fragments that are meant for it, and those alone, whatever else comes
/// in between for other blocks.
pub proof fn law_interleaved_block_gathers(
    s: AnthropicModel,
    index: usize,
    inputs: Seq<SseModel<AnthropicEventModel>>,
)
    requires
        s.blocks.contains_key(index),
        forall|i: int| 0 <= i < inputs.len() ==> spares(#[trigger] inputs[i], index),
    ensures
        !run(s, inputs).done,
        run(s, inputs).state.blocks.contains_key(index),
        run(s, inputs).state.blocks[index] == gathered(
            s.blocks[index],
            pieces_for(inputs, index),
        ),
    decreases inputs.len(),
{
    lemma_event_types();
    if inputs.len() > 0 {
        let front = inputs.drop_last();
        assert forall|i: int| 0 <= i < front.len() implies spares(#[trigger] front[i], index) by {
            assert(front[i] == inputs[i]);
        }
        law_interleaved_block_gathers(s, index, front);
        assert(spares(inputs.last(), index));
        let f = |input: SseModel<AnthropicEventModel>| piece_for(input, index);
        assert(inputs.map_values(f) =~= front.map_values(f).push(f(inputs.last())));
        lemma_present_push(front.map_values(f), f(inputs.last()));
        if let Some(piece) = piece_for(inputs.last(), index) {
            assert(pieces_for(front, index).push(piece).drop_last() =~= pieces_for(front, index));
        }
    }
}

} // verus!
