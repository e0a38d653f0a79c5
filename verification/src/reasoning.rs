//! The reasoning that came with tool calls, kept until the calls are sent back.
use crate::text::is_blank_text;
use vstd::hash_map::StringHashMap;
use vstd::prelude::*;

verus! {

/// Reasoning text by the id of the tool call that it led to.
pub struct ReasoningStore {
    entries: StringHashMap<String>,
}

impl View for ReasoningStore {
    type V = Map<Seq<char>, Seq<char>>;

    closed spec fn view(&self) -> Map<Seq<char>, Seq<char>> {
        self.entries@.map_values(|text: String| text@)
    }
}

impl ReasoningStore {
    /// A store that holds nothing.
    pub fn new() -> (store: Self)
        ensures
            store@ == Map::<Seq<char>, Seq<char>>::empty(),
    {
        let store = ReasoningStore { entries: StringHashMap::new() };
        assert(store@ =~= Map::empty());
        store
    }
}

/// What a store holds after it was told of the reasoning behind a call: blank reasoning is
/// passed over, any other takes the place of what the call had.
pub open spec fn remembered(
    store: Map<Seq<char>, Seq<char>>,
    call_id: Seq<char>,
    reasoning_content: Seq<char>,
) -> Map<Seq<char>, Seq<char>> {
    if crate::text::is_blank(reasoning_content) {
        store
    } else {
        store.insert(call_id, reasoning_content)
    }
}

/// What a store holds of the reasoning behind a call.
pub open spec fn recalled(store: Map<Seq<char>, Seq<char>>, call_id: Seq<char>) -> Option<
    Seq<char>,
> {
    if store.contains_key(call_id) {
        Some(store[call_id])
    } else {
        None
    }
}

/// Keeps the reasoning that led to a tool call, unless it is blank.
pub fn remember_reasoning_content_for_tool_call(
    store: &mut ReasoningStore,
    call_id: &str,
    reasoning_content: &str,
)
    ensures
        final(store)@ == remembered(old(store)@, call_id@, reasoning_content@),
{
    if is_blank_text(reasoning_content) {
        return ;
    }
    let ghost before = store@;
    store.entries.insert(call_id.to_string(), reasoning_content.to_string());
    assert(store@ =~= before.insert(call_id@, reasoning_content@));
}

/// The reasoning that led to a tool call, where it was kept.
pub fn reasoning_content_for_tool_call(store: &ReasoningStore, call_id: &str) -> (content: Option<
    String,
>)
    ensures
        content.deep_view() == recalled(store@, call_id@),
{
    match store.entries.get(call_id) {
        Some(text) => Some(text.clone()),
        None => None,
    }
}

/// Reasoning that is not blank is recalled as it was told, and the reasoning of other calls
/// stays what it was.
pub proof fn law_recall_after_remember(
    store: Map<Seq<char>, Seq<char>>,
    call_id: Seq<char>,
    reasoning_content: Seq<char>,
)
    requires
        !crate::text::is_blank(reasoning_content),
    ensures
        recalled(remembered(store, call_id, reasoning_content), call_id) == Some(
            reasoning_content,
        ),
        forall|other: Seq<char>|
            other != call_id ==> #[trigger] recalled(
                remembered(store, call_id, reasoning_content),
                other,
            ) == recalled(store, other),
{
}

/// A store recalls what it holds and nothing else. Blank reasoning is not remembered.
pub proof fn law_store(
    store: Map<Seq<char>, Seq<char>>,
    call_id: Seq<char>,
    reasoning_content: Seq<char>,
)
    ensures
        store.contains_key(call_id) ==> recalled(store, call_id) == Some(store[call_id]),
        !store.contains_key(call_id) ==> recalled(store, call_id) is None,
        crate::text::is_blank(reasoning_content) ==> remembered(store, call_id, reasoning_content)
            == store,
        !crate::text::is_blank(reasoning_content) ==> remembered(store, call_id, reasoning_content)
            == store.insert(call_id, reasoning_content),
{
}

} // verus!
