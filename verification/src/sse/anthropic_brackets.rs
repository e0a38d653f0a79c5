//! How an Anthropic Messages stream brackets what it streams: every delta stands between the
//! announcement and the close of its item.
use crate::ordered::{ascending, is_ascending, lemma_ascending_lists};
use crate::protocol::{EventModel, ItemModel, StreamItemModel};
use crate::sse::anthropic_events::{AnthropicEventModel, BlockModel};
use crate::sse::anthropic_laws::{law_one_end, lemma_event_types};
use crate::sse::anthropic_model::{
    after_input, announced, block_index, closing, closing_all, closing_at, completes, completion,
    extended_at, fragment, fresh_stream, handed_on, has_block_for, opened_block, own_block,
    passed_on, run, AnthropicModel, Fragment,
};
use crate::sse::SseModel;
use vstd::prelude::*;

verus! {

/// The kinds of items that are announced and streamed.
pub enum Kind {
    Text,
    Thinking,
}

/// The block of a kind that holds `text`.
pub open spec fn block_with(kind: Kind, text: Seq<char>) -> BlockModel {
    match kind {
        Kind::Text => BlockModel::Text(text),
        Kind::Thinking => BlockModel::Thinking(text),
    }
}

/// The kind of a message of the assistant, or of reasoning.
pub open spec fn item_kind(item: ItemModel) -> Option<Kind> {
    match item {
        ItemModel::Message { role, .. } => if role == "assistant"@ {
            Some(Kind::Text)
        } else {
            None
        },
        ItemModel::Reasoning { .. } => Some(Kind::Thinking),
        _ => None,
    }
}

/// The kind of the item that is announced.
pub open spec fn added_kind(item: StreamItemModel) -> Option<Kind> {
    match item {
        Ok(EventModel::OutputItemAdded(added)) => item_kind(added),
        _ => None,
    }
}

/// The kind of the item that closes.
pub open spec fn done_kind(item: StreamItemModel) -> Option<Kind> {
    match item {
        Ok(EventModel::OutputItemDone(done)) => item_kind(done),
        _ => None,
    }
}

/// The kind of a delta.
pub open spec fn delta_kind(item: StreamItemModel) -> Option<Kind> {
    match item {
        Ok(EventModel::OutputTextDelta(_)) => Some(Kind::Text),
        Ok(EventModel::ReasoningContentDelta { .. }) => Some(Kind::Thinking),
        _ => None,
    }
}

/// The text of a delta.
pub open spec fn delta_text(item: StreamItemModel) -> Seq<char> {
    match item {
        Ok(EventModel::OutputTextDelta(text)) => text,
        Ok(EventModel::ReasoningContentDelta { delta, .. }) => delta,
        _ => Seq::empty(),
    }
}

/// The text that is streamed for the item announced at `j`. `owner` gives, for each thing handed on,
/// where the item that it belongs to was announced.
pub open spec fn owned_text(items: Seq<StreamItemModel>, owner: Seq<int>, j: int) -> Seq<char>
    decreases items.len(),
{
    if items.len() == 0 {
        Seq::empty()
    } else {
        owned_text(items.drop_last(), owner.drop_last(), j) + if owner.last() == j {
            delta_text(items.last())
        } else {
            Seq::empty()
        }
    }
}

/// Holds where the item announced at `j` closes at `k`.
pub open spec fn closes_at(
    items: Seq<StreamItemModel>,
    owner: Seq<int>,
    j: int,
    k: int,
) -> bool {
    0 <= k < items.len() && done_kind(items[k]) is Some && owner[k] == j
}

/// Holds where `owner` says rightly what belongs to which item:
/// - each delta, and each close, comes behind the announcement of its item, and is of its kind;
/// - nothing of an item comes behind its close, and it closes but once;
/// - an item closes with the text that was streamed for it.
pub open spec fn brackets(items: Seq<StreamItemModel>, owner: Seq<int>) -> bool {
    &&& owner.len() == items.len()
    &&& forall|i: int|
        #![trigger delta_kind(items[i])]
        0 <= i < items.len() && delta_kind(items[i]) is Some ==> 0 <= owner[i] < i && added_kind(
            items[owner[i]],
        ) == delta_kind(items[i])
    &&& forall|k: int|
        #![trigger done_kind(items[k])]
        0 <= k < items.len() && done_kind(items[k]) is Some ==> 0 <= owner[k] < k && added_kind(
            items[owner[k]],
        ) == done_kind(items[k]) && items[k] == closing(
            block_with(done_kind(items[k])->0, owned_text(items, owner, owner[k])),
        )
    &&& forall|i: int, k: int|
        #![trigger done_kind(items[k]), owner[i]]
        0 <= i < items.len() && 0 <= k < items.len() && done_kind(items[k]) is Some && (delta_kind(
            items[i],
        ) is Some || done_kind(items[i]) is Some) && owner[i] == owner[k] ==> i <= k
}

/// Holds where every item that is announced closes.
pub open spec fn all_close(items: Seq<StreamItemModel>, owner: Seq<int>) -> bool {
    forall|j: int|
        0 <= j < items.len() && #[trigger] added_kind(items[j]) is Some ==> exists|k: int|
            closes_at(items, owner, j, k)
}

/// Holds where the thing at `i` stands between an announcement at `j` and a close at `k`, all three
/// of one kind.
pub open spec fn stands_between(items: Seq<StreamItemModel>, j: int, i: int, k: int) -> bool {
    &&& 0 <= j < i < k < items.len()
    &&& added_kind(items[j]) == delta_kind(items[i])
    &&& done_kind(items[k]) == delta_kind(items[i])
}

/// Holds where every delta stands between the announcement and the close of the item that it belongs
/// to.
pub open spec fn deltas_stand_between(items: Seq<StreamItemModel>, owner: Seq<int>) -> bool {
    forall|i: int|
        0 <= i < items.len() && #[trigger] delta_kind(items[i]) is Some ==> exists|k: int|
            stands_between(items, owner[i], i, k) && closes_at(items, owner, owner[i], k)
}

/// An account of what was handed on and of what is open.
pub struct Account {
    /// For each thing handed on, where the item that it belongs to was announced.
    pub owner: Seq<int>,
    /// The items that were announced and have not closed, by where they were announced, with what
    /// their blocks gathered.
    pub open: Map<int, BlockModel>,
    /// For the index of each open block that was announced, where that was.
    pub place: Map<usize, int>,
    /// The other way round.
    pub index: Map<int, usize>,
}

/// Holds of an open block whose item was announced.
pub open spec fn is_announced(block: BlockModel) -> bool {
    !(block is ToolUse)
}

/// The kind of a block that is announced.
pub open spec fn block_kind(block: BlockModel) -> Kind {
    if block is Text {
        Kind::Text
    } else {
        Kind::Thinking
    }
}

/// Holds of an account that is right about what was handed on.
pub open spec fn recounts(items: Seq<StreamItemModel>, account: Account) -> bool {
    &&& brackets(items, account.owner)
    &&& forall|j: int| #[trigger]
        account.open.contains_key(j) ==> 0 <= j < items.len() && is_announced(account.open[j])
            && added_kind(items[j]) == Some(block_kind(account.open[j])) && account.open[j]
            == block_with(block_kind(account.open[j]), owned_text(items, account.owner, j))
    &&& forall|k: int|
        0 <= k < items.len() && #[trigger] done_kind(items[k]) is Some ==> !account.open.contains_key(
            account.owner[k],
        )
    &&& forall|j: int|
        0 <= j < items.len() && #[trigger] added_kind(items[j]) is Some && !account.open.contains_key(j)
            ==> exists|k: int| closes_at(items, account.owner, j, k)
}

/// Holds of an account that is right about the open blocks.
pub open spec fn places(blocks: Map<usize, BlockModel>, account: Account) -> bool {
    &&& forall|x: usize| #[trigger]
        account.place.contains_key(x) <==> blocks.contains_key(x) && is_announced(blocks[x])
    &&& forall|x: usize| #[trigger]
        account.place.contains_key(x) ==> {
            &&& account.open.contains_key(account.place[x])
            &&& account.open[account.place[x]] == blocks[x]
            &&& account.index[account.place[x]] == x
        }
    &&& forall|j: int| #[trigger]
        account.open.contains_key(j) ==> {
            &&& account.place.contains_key(account.index[j])
            &&& account.place[account.index[j]] == j
        }
}

proof fn lemma_owned_text_push(
    items: Seq<StreamItemModel>,
    owner: Seq<int>,
    item: StreamItemModel,
    o: int,
)
    requires
        items.len() == owner.len(),
    ensures
        forall|j: int| #[trigger]
            owned_text(items.push(item), owner.push(o), j) == if o == j {
                owned_text(items, owner, j) + delta_text(item)
            } else {
                owned_text(items, owner, j)
            },
{
    assert(items.push(item).drop_last() =~= items);
    assert(owner.push(o).drop_last() =~= owner);
    assert forall|j: int| #[trigger]
        owned_text(items.push(item), owner.push(o), j) == if o == j {
            owned_text(items, owner, j) + delta_text(item)
        } else {
            owned_text(items, owner, j)
        } by {
        assert(owned_text(items, owner, j) + Seq::empty() =~= owned_text(items, owner, j));
    }
}

/// Items that have closed stay closed.
proof fn lemma_closes_push(
    items: Seq<StreamItemModel>,
    owner: Seq<int>,
    item: StreamItemModel,
    o: int,
)
    requires
        items.len() == owner.len(),
    ensures
        forall|j: int, k: int| #[trigger]
            closes_at(items, owner, j, k) ==> closes_at(items.push(item), owner.push(o), j, k),
{
}

/// Nothing is streamed for an item before it is announced.
proof fn lemma_nothing_owned(items: Seq<StreamItemModel>, owner: Seq<int>, j: int)
    requires
        items.len() == owner.len(),
        forall|i: int|
            0 <= i < items.len() && #[trigger] delta_kind(items[i]) is Some ==> owner[i] != j,
    ensures
        owned_text(items, owner, j) == Seq::<char>::empty(),
    decreases items.len(),
{
    if items.len() > 0 {
        let front = items.drop_last();
        assert forall|i: int|
            0 <= i < front.len() && #[trigger] delta_kind(front[i]) is Some implies owner.drop_last()[i]
            != j by {
            assert(front[i] == items[i]);
        }
        lemma_nothing_owned(front, owner.drop_last(), j);
        assert(delta_kind(items[items.len() - 1]) is Some ==> owner[items.len() - 1] != j);
        assert(owned_text(items, owner, j) =~= Seq::empty());
    }
}

/// Hands on the announcement of a block that has gathered nothing yet.
proof fn lemma_hand_announcement(
    items: Seq<StreamItemModel>,
    account: Account,
    kind: Kind,
    item: StreamItemModel,
) -> (after: Account)
    requires
        recounts(items, account),
        added_kind(item) == Some(kind),
    ensures
        recounts(items.push(item), after),
        after == (Account {
            owner: account.owner.push(items.len() as int),
            open: account.open.insert(items.len() as int, block_with(kind, Seq::empty())),
            ..account
        }),
{
    let n = items.len() as int;
    let after = Account {
        owner: account.owner.push(n),
        open: account.open.insert(n, block_with(kind, Seq::empty())),
        ..account
    };
    lemma_owned_text_push(items, account.owner, item, n);
    lemma_closes_push(items, account.owner, item, n);
    lemma_nothing_owned(items, account.owner, n);
    let all = items.push(item);
    assert(owned_text(all, after.owner, n) =~= Seq::empty());
    assert(brackets(all, after.owner));
    assert forall|j: int|
        0 <= j < all.len() && #[trigger] added_kind(all[j]) is Some && !after.open.contains_key(j) implies (
    exists|k: int| closes_at(all, after.owner, j, k)) by {
        assert(all[j] == items[j]);
    }
    after
}

/// Hands on a delta of the item announced at `j`, which is open.
proof fn lemma_hand_delta(
    items: Seq<StreamItemModel>,
    account: Account,
    j: int,
    item: StreamItemModel,
) -> (after: Account)
    requires
        recounts(items, account),
        account.open.contains_key(j),
        delta_kind(item) == Some(block_kind(account.open[j])),
    ensures
        recounts(items.push(item), after),
        after == (Account {
            owner: account.owner.push(j),
            open: account.open.insert(
                j,
                block_with(
                    block_kind(account.open[j]),
                    owned_text(items, account.owner, j) + delta_text(item),
                ),
            ),
            ..account
        }),
{
    let longer = block_with(
        block_kind(account.open[j]),
        owned_text(items, account.owner, j) + delta_text(item),
    );
    let after = Account {
        owner: account.owner.push(j),
        open: account.open.insert(j, longer),
        ..account
    };
    lemma_owned_text_push(items, account.owner, item, j);
    lemma_closes_push(items, account.owner, item, j);
    let all = items.push(item);
    assert(brackets(all, after.owner));
    assert forall|m: int|
        0 <= m < all.len() && #[trigger] added_kind(all[m]) is Some && !after.open.contains_key(m) implies (
    exists|k: int| closes_at(all, after.owner, m, k)) by {
        assert(all[m] == items[m]);
    }
    after
}

/// Hands on the close of the item announced at `j`, which is open.
proof fn lemma_hand_close(items: Seq<StreamItemModel>, account: Account, j: int) -> (after: Account)
    requires
        recounts(items, account),
        account.open.contains_key(j),
    ensures
        recounts(items.push(closing(account.open[j])), after),
        after == (Account {
            owner: account.owner.push(j),
            open: account.open.remove(j),
            ..account
        }),
{
    let item = closing(account.open[j]);
    let after = Account {
        owner: account.owner.push(j),
        open: account.open.remove(j),
        ..account
    };
    lemma_owned_text_push(items, account.owner, item, j);
    lemma_closes_push(items, account.owner, item, j);
    let all = items.push(item);
    assert(owned_text(items, account.owner, j) + delta_text(item) =~= owned_text(
        items,
        account.owner,
        j,
    ));
    assert(brackets(all, after.owner));
    assert forall|m: int|
        0 <= m < all.len() && #[trigger] added_kind(all[m]) is Some && !after.open.contains_key(m) implies (
    exists|k: int| closes_at(all, after.owner, m, k)) by {
        assert(all[m] == items[m]);
        if m == j {
            assert(closes_at(all, after.owner, j, items.len() as int));
        }
    }
    after
}

/// Hands on something that belongs to no announced item.
proof fn lemma_hand_other(
    items: Seq<StreamItemModel>,
    account: Account,
    item: StreamItemModel,
) -> (after: Account)
    requires
        recounts(items, account),
        added_kind(item) is None,
        delta_kind(item) is None,
        done_kind(item) is None,
    ensures
        recounts(items.push(item), after),
        after == (Account { owner: account.owner.push(-1), ..account }),
{
    let after = Account { owner: account.owner.push(-1), ..account };
    lemma_owned_text_push(items, account.owner, item, -1);
    lemma_closes_push(items, account.owner, item, -1);
    let all = items.push(item);
    assert(brackets(all, after.owner));
    assert forall|m: int|
        0 <= m < all.len() && #[trigger] added_kind(all[m]) is Some && !after.open.contains_key(m) implies (
    exists|k: int| closes_at(all, after.owner, m, k)) by {
        assert(all[m] == items[m]);
    }
    after
}

/// Closes the block at `x`.
proof fn lemma_close_block(
    items: Seq<StreamItemModel>,
    account: Account,
    blocks: Map<usize, BlockModel>,
    x: usize,
) -> (after: Account)
    requires
        recounts(items, account),
        places(blocks, account),
        blocks.contains_key(x),
    ensures
        recounts(items.push(closing(blocks[x])), after),
        places(blocks.remove(x), after),
{
    if is_announced(blocks[x]) {
        assert(account.place.contains_key(x));
        let j = account.place[x];
        let closed = lemma_hand_close(items, account, j);
        let after = Account {
            place: account.place.remove(x),
            index: account.index.remove(j),
            ..closed
        };
        assert forall|y: usize| #[trigger] after.place.contains_key(y) implies {
            &&& after.open.contains_key(after.place[y])
            &&& after.open[after.place[y]] == blocks.remove(x)[y]
            &&& after.index[after.place[y]] == y
        } by {
            assert(account.place.contains_key(y));
            assert(account.index[account.place[y]] == y);
        }
        assert forall|m: int| #[trigger] after.open.contains_key(m) implies {
            &&& after.place.contains_key(after.index[m])
            &&& after.place[after.index[m]] == m
        } by {
            assert(account.open.contains_key(m));
        }
        after
    } else {
        assert(!account.place.contains_key(x));
        lemma_hand_other(items, account, closing(blocks[x]))
    }
}

/// Opens a block that has gathered nothing yet at `x`, where none is open.
proof fn lemma_open_block(
    items: Seq<StreamItemModel>,
    account: Account,
    blocks: Map<usize, BlockModel>,
    x: usize,
    block: BlockModel,
) -> (after: Account)
    requires
        recounts(items, account),
        places(blocks, account),
        !blocks.contains_key(x),
        is_announced(block) ==> block == block_with(block_kind(block), Seq::empty()),
    ensures
        recounts(items + announced(block), after),
        places(blocks.insert(x, block), after),
{
    assert(!account.place.contains_key(x));
    if is_announced(block) {
        let item = announced(block)[0];
        let n = items.len() as int;
        assert(items + announced(block) =~= items.push(item));
        let opened = lemma_hand_announcement(items, account, block_kind(block), item);
        let after = Account {
            place: account.place.insert(x, n),
            index: account.index.insert(n, x),
            ..opened
        };
        assert forall|y: usize| #[trigger] after.place.contains_key(y) implies {
            &&& after.open.contains_key(after.place[y])
            &&& after.open[after.place[y]] == blocks.insert(x, block)[y]
            &&& after.index[after.place[y]] == y
        } by {
            if y != x {
                assert(account.place.contains_key(y));
                assert(account.open.contains_key(account.place[y]));
            }
        }
        assert forall|m: int| #[trigger] after.open.contains_key(m) implies {
            &&& after.place.contains_key(after.index[m])
            &&& after.place[after.index[m]] == m
        } by {
            if m != n {
                assert(account.open.contains_key(m));
            }
        }
        after
    } else {
        assert(items + announced(block) =~= items);
        account
    }
}

/// Hands on a fragment that a block takes.
proof fn lemma_taken_fragment(
    items: Seq<StreamItemModel>,
    account: Account,
    blocks: Map<usize, BlockModel>,
    x: usize,
    piece: Fragment,
) -> (after: Account)
    requires
        recounts(items, account),
        places(blocks, account),
        has_block_for(blocks, x, piece),
    ensures
        recounts(items + handed_on(true, piece, x), after),
        places(extended_at(blocks, x, piece), after),
{
    let longer = extended_at(blocks, x, piece);
    if is_announced(blocks[x]) {
        assert(account.place.contains_key(x));
        let j = account.place[x];
        let item = passed_on(piece, x)[0];
        assert(items + handed_on(true, piece, x) =~= items.push(item));
        let after = lemma_hand_delta(items, account, j, item);
        assert(after.open[j] == longer[x]);
        assert forall|y: usize| #[trigger] after.place.contains_key(y) implies {
            &&& after.open.contains_key(after.place[y])
            &&& after.open[after.place[y]] == longer[y]
            &&& after.index[after.place[y]] == y
        } by {
            assert(account.place.contains_key(y));
            assert(account.index[account.place[y]] == y);
        }
        assert forall|m: int| #[trigger] after.open.contains_key(m) implies {
            &&& after.place.contains_key(after.index[m])
            &&& after.place[after.index[m]] == m
        } by {
            assert(account.open.contains_key(m));
        }
        assert forall|y: usize| #[trigger]
            after.place.contains_key(y) <==> longer.contains_key(y) && is_announced(longer[y]) by {
            assert(account.place.contains_key(y) <==> blocks.contains_key(y) && is_announced(
                blocks[y],
            ));
        }
        after
    } else {
        assert(items + handed_on(true, piece, x) =~= items);
        assert forall|y: usize| #[trigger]
            account.place.contains_key(y) <==> longer.contains_key(y) && is_announced(
                longer[y],
            ) by {
            assert(account.place.contains_key(y) <==> blocks.contains_key(y) && is_announced(
                blocks[y],
            ));
        }
        account
    }
}

/// Hands on a fragment that no block takes.
proof fn lemma_own_fragment(
    items: Seq<StreamItemModel>,
    account: Account,
    blocks: Map<usize, BlockModel>,
    x: usize,
    piece: Fragment,
) -> (after: Account)
    requires
        recounts(items, account),
        places(blocks, account),
    ensures
        recounts(items + handed_on(false, piece, x), after),
        places(blocks, after),
{
    match own_block(piece) {
        Some(block) => {
            let n = items.len() as int;
            let added = announced(block)[0];
            let delta = passed_on(piece, x)[0];
            let kind = block_kind(block);
            let opened = lemma_hand_announcement(items, account, kind, added);
            lemma_nothing_owned(items, account.owner, n);
            lemma_owned_text_push(items, account.owner, added, n);
            assert(owned_text(items.push(added), opened.owner, n) + delta_text(delta)
                =~= delta_text(delta));
            let grown = lemma_hand_delta(items.push(added), opened, n, delta);
            assert(grown.open[n] == block);
            let after = lemma_hand_close(items.push(added).push(delta), grown, n);
            assert(!account.open.contains_key(n));
            assert(after.open =~= account.open);
            assert(items + handed_on(false, piece, x) =~= items.push(added).push(delta).push(
                closing(block),
            ));
            after
        },
        None => {
            assert(items + handed_on(false, piece, x) =~= items);
            account
        },
    }
}

/// Closes the blocks at `indices`, one after the other.
proof fn lemma_close_blocks(
    items: Seq<StreamItemModel>,
    account: Account,
    blocks: Map<usize, BlockModel>,
    indices: Seq<usize>,
) -> (after: Account)
    requires
        recounts(items, account),
        places(blocks, account),
        is_ascending(indices),
        forall|i: int| 0 <= i < indices.len() ==> blocks.contains_key(#[trigger] indices[i]),
    ensures
        recounts(items + indices.map_values(|x: usize| closing(blocks[x])), after),
        places(blocks.remove_keys(indices.to_set()), after),
    decreases indices.len(),
{
    let f = |x: usize| closing(blocks[x]);
    if indices.len() == 0 {
        assert(items + indices.map_values(f) =~= items);
        assert(blocks.remove_keys(indices.to_set()) =~= blocks);
        account
    } else {
        let front = indices.drop_last();
        let last = indices.last();
        let before = lemma_close_blocks(items, account, blocks, front);
        let left = blocks.remove_keys(front.to_set());
        assert(!front.contains(last)) by {
            if front.contains(last) {
                let i = choose|i: int| 0 <= i < front.len() && front[i] == last;
                assert(indices[i] < indices[indices.len() - 1]);
            }
        }
        assert(blocks.contains_key(indices[indices.len() - 1]));
        assert(left.contains_key(last) && left[last] == blocks[last]);
        let after = lemma_close_block(items + front.map_values(f), before, left, last);
        assert(items + indices.map_values(f) =~= (items + front.map_values(f)).push(f(last)));
        assert(indices =~= front.push(last));
        assert forall|x: usize| indices.to_set().contains(x) <==> front.to_set().contains(x) || x
            == last by {
            if front.contains(x) {
                let i = choose|i: int| 0 <= i < front.len() && front[i] == x;
                assert(indices[i] == x);
            }
            if x == last {
                assert(indices[indices.len() - 1] == x);
            }
            if indices.contains(x) && x != last {
                let i = choose|i: int| 0 <= i < indices.len() && indices[i] == x;
                assert(front[i] == x);
            }
        }
        assert(blocks.remove_keys(indices.to_set()) =~= left.remove(last));
        after
    }
}

/// Holds where an account is right about what was handed on and about a stream of which only
/// finitely many blocks are open.
pub open spec fn accounts_for(
    items: Seq<StreamItemModel>,
    s: AnthropicModel,
    account: Account,
) -> bool {
    &&& recounts(items, account)
    &&& places(s.blocks, account)
    &&& s.blocks.dom().finite()
}

/// An account can be kept over a step.
proof fn lemma_step_is_accounted_for(
    items: Seq<StreamItemModel>,
    account: Account,
    s: AnthropicModel,
    input: SseModel<AnthropicEventModel>,
) -> (after: Account)
    requires
        accounts_for(items, s, account),
    ensures
        accounts_for(
            items + after_input(s, input).items,
            after_input(s, input).state,
            after,
        ),
{
    lemma_event_types();
    let step = after_input(s, input);
    if completes(input) {
        lemma_ascending_lists(s.blocks.dom());
        let indices = ascending(s.blocks.dom());
        assert forall|i: int| 0 <= i < indices.len() implies s.blocks.contains_key(
            #[trigger] indices[i],
        ) by {
            assert(indices.to_set().contains(indices[i]));
        }
        let closed = lemma_close_blocks(items, account, s.blocks, indices);
        let after = lemma_hand_other(items + closing_all(s.blocks), closed, completion(s));
        assert(items + step.items =~= (items + closing_all(s.blocks)).push(completion(s)));
        assert(s.blocks.remove_keys(indices.to_set()) =~= step.state.blocks);
        after
    } else {
        match input {
            SseModel::Event { decoded: Ok(event), .. } => {
                let index = block_index(event);
                if event.event_type == "content_block_start"@ && event.index is Some
                    && event.content_block is Some && opened_block(
                    event.content_block->0,
                ) is Some {
                    let block = opened_block(event.content_block->0)->0;
                    let left = s.blocks.remove(index);
                    let closed = if s.blocks.contains_key(index) {
                        lemma_close_block(items, account, s.blocks, index)
                    } else {
                        account
                    };
                    let between = items + closing_at(s.blocks, index);
                    if s.blocks.contains_key(index) {
                        assert(between =~= items.push(closing(s.blocks[index])));
                    } else {
                        assert(between =~= items);
                        assert(left =~= s.blocks);
                    }
                    let after = lemma_open_block(between, closed, left, index, block);
                    assert(items + step.items =~= between + announced(block));
                    assert(step.state.blocks =~= left.insert(index, block));
                    after
                } else if event.event_type == "content_block_delta"@ && event.delta is Some
                    && fragment(event.delta->0) is Some {
                    let piece = fragment(event.delta->0)->0;
                    if has_block_for(s.blocks, index, piece) {
                        lemma_taken_fragment(items, account, s.blocks, index, piece)
                    } else {
                        assert(extended_at(s.blocks, index, piece) =~= s.blocks);
                        lemma_own_fragment(items, account, s.blocks, index, piece)
                    }
                } else if event.event_type == "content_block_stop"@ && s.blocks.contains_key(
                    index,
                ) {
                    assert(items + step.items =~= items.push(closing(s.blocks[index])));
                    lemma_close_block(items, account, s.blocks, index)
                } else if step.items.len() > 0 {
                    assert(items + step.items =~= items.push(step.items[0]));
                    lemma_hand_other(items, account, step.items[0])
                } else {
                    assert(items + step.items =~= items);
                    account
                }
            },
            _ => {
                assert(items + step.items =~= items.push(step.items[0]));
                lemma_hand_other(items, account, step.items[0])
            },
        }
    }
}

/// An account can be kept over every run.
proof fn lemma_run_is_accounted_for(inputs: Seq<SseModel<AnthropicEventModel>>) -> (account:
    Account)
    ensures
        accounts_for(run(fresh_stream(), inputs).items, run(fresh_stream(), inputs).state, account),
    decreases inputs.len(),
{
    let s = fresh_stream();
    if inputs.len() == 0 {
        Account {
            owner: Seq::empty(),
            open: Map::empty(),
            place: Map::empty(),
            index: Map::empty(),
        }
    } else {
        let before = run(s, inputs.drop_last());
        let account = lemma_run_is_accounted_for(inputs.drop_last());
        if before.done {
            account
        } else {
            lemma_step_is_accounted_for(before.items, account, before.state, inputs.last())
        }
    }
}

/// Holds of inputs with which a stream completes its response.
pub open spec fn run_completes(inputs: Seq<SseModel<AnthropicEventModel>>) -> bool {
    let step = run(fresh_stream(), inputs);
    step.done && step.items.last() is Ok
}

/// No block is open once a response is complete.
proof fn lemma_nothing_left_open(inputs: Seq<SseModel<AnthropicEventModel>>)
    requires
        run_completes(inputs),
    ensures
        run(fresh_stream(), inputs).state.blocks == Map::<usize, BlockModel>::empty(),
    decreases inputs.len(),
{
    lemma_event_types();
    let s = fresh_stream();
    if inputs.len() > 0 {
        let before = run(s, inputs.drop_last());
        if before.done {
            lemma_nothing_left_open(inputs.drop_last());
        } else {
            law_one_end(before.state, inputs.last());
            let last = after_input(before.state, inputs.last());
            assert((before.items + last.items).last() == last.items.last());
        }
    }
}

/// However a stream runs, all that it hands on can be told apart by the items that it belongs to:
/// each delta comes behind the announcement of its item and is of its kind, nothing of an item comes
/// behind its close, and an item closes once, with all the text that was streamed for it. Once the
/// response is complete, every item that was announced has closed.
pub proof fn law_items_are_bracketed(inputs: Seq<SseModel<AnthropicEventModel>>)
    ensures
        ({
            let items = run(fresh_stream(), inputs).items;
            exists|owner: Seq<int>| #[trigger]
                brackets(items, owner) && (run_completes(inputs) ==> all_close(items, owner))
        }),
{
    let items = run(fresh_stream(), inputs).items;
    let account = lemma_run_is_accounted_for(inputs);
    if run_completes(inputs) {
        lemma_nothing_left_open(inputs);
        assert forall|j: int| !account.open.contains_key(j) by {
            if account.open.contains_key(j) {
                assert(account.place.contains_key(account.index[j]));
            }
        }
        assert(all_close(items, account.owner));
    }
    assert(brackets(items, account.owner));
}

/// A delta stands between the announcement and the close of its item, where every item closes.
proof fn lemma_stands_between(items: Seq<StreamItemModel>, owner: Seq<int>, i: int) -> (k: int)
    requires
        brackets(items, owner),
        all_close(items, owner),
        0 <= i < items.len(),
        delta_kind(items[i]) is Some,
    ensures
        stands_between(items, owner[i], i, k),
        closes_at(items, owner, owner[i], k),
{
    let j = owner[i];
    assert(added_kind(items[j]) is Some);
    let k = choose|k: int| closes_at(items, owner, j, k);
    assert(closes_at(items, owner, j, k));
    assert(i <= k);
    k
}

/// In every run that completes its response, each delta of text stands between the announcement of a
/// message and the close of that message, and each delta of reasoning between the announcement of
/// reasoning and its close.
pub proof fn law_every_delta_is_bracketed(inputs: Seq<SseModel<AnthropicEventModel>>)
    requires
        run_completes(inputs),
    ensures
        ({
            let items = run(fresh_stream(), inputs).items;
            exists|owner: Seq<int>| #[trigger]
                brackets(items, owner) && deltas_stand_between(items, owner)
        }),
{
    law_items_are_bracketed(inputs);
    let items = run(fresh_stream(), inputs).items;
    let owner = choose|owner: Seq<int>| #[trigger]
        brackets(items, owner) && (run_completes(inputs) ==> all_close(items, owner));
    assert(deltas_stand_between(items, owner)) by {
        assert forall|i: int|
            0 <= i < items.len() && #[trigger] delta_kind(items[i]) is Some implies exists|k: int|
            stands_between(items, owner[i], i, k) && closes_at(items, owner, owner[i], k) by {
            let k = lemma_stands_between(items, owner, i);
        }
    }
}

/// While a block of text or thinking is open, its own item is: the item was announced, it has not
/// closed, and the block holds what was streamed for it.
pub proof fn law_open_block_has_its_item_open(
    inputs: Seq<SseModel<AnthropicEventModel>>,
    index: usize,
)
    requires
        run(fresh_stream(), inputs).state.blocks.contains_key(index),
        is_announced(run(fresh_stream(), inputs).state.blocks[index]),
    ensures
        ({
            let items = run(fresh_stream(), inputs).items;
            let block = run(fresh_stream(), inputs).state.blocks[index];
            exists|owner: Seq<int>, j: int|
                #![trigger owned_text(items, owner, j)]
                brackets(items, owner) && 0 <= j < items.len() && added_kind(items[j]) == Some(
                    block_kind(block),
                ) && (forall|k: int| !closes_at(items, owner, j, k)) && block == block_with(
                    block_kind(block),
                    owned_text(items, owner, j),
                )
        }),
{
    let items = run(fresh_stream(), inputs).items;
    let account = lemma_run_is_accounted_for(inputs);
    assert(account.place.contains_key(index));
    let j = account.place[index];
    assert(account.open.contains_key(j));
    assert forall|k: int| !closes_at(items, account.owner, j, k) by {
        if closes_at(items, account.owner, j, k) {
            assert(done_kind(items[k]) is Some);
        }
    }
    assert(account.open[j] == block_with(
        block_kind(account.open[j]),
        owned_text(items, account.owner, j),
    ));
}

} // verus!
