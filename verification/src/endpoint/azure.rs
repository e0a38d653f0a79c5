//! Requests to Azure Responses endpoints, which take fewer roles than others.
use crate::json::{law_member_after_set, member, with_member, Json, JsonTree};
use crate::roles::{azure_role, law_azure_role_idempotent, responses_role_for_azure};
use vstd::prelude::*;

verus! {

/// An input item with its role made fit for the endpoint. An item without a role, or with one that
/// is no string, stays as it is.
pub open spec fn normalized_item(item: JsonTree) -> JsonTree {
    match member(item, "role"@) {
        Some(JsonTree::String(role)) => with_member(
            item,
            "role"@,
            JsonTree::String(azure_role(role)),
        ),
        _ => item,
    }
}

/// Input items with their roles made fit for the endpoint.
pub open spec fn normalized_items(items: Seq<JsonTree>) -> Seq<JsonTree> {
    items.map_values(|item: JsonTree| normalized_item(item))
}

/// A request body with the roles of its input items made fit for the endpoint. A body without a
/// list of input items stays as it is.
pub open spec fn normalized_body(body: JsonTree) -> JsonTree {
    match member(body, "input"@) {
        Some(JsonTree::Array(items)) => with_member(
            body,
            "input"@,
            JsonTree::Array(normalized_items(items)),
        ),
        _ => body,
    }
}

fn normalize_item(item: Json) -> (fit: Json)
    ensures
        fit.deep_view() == normalized_item(item.deep_view()),
{
    let mut item = item;
    let role: Option<String> = match item.get("role") {
        Some(role) => match role.as_str() {
            Some(role) => Some(responses_role_for_azure(role).to_string()),
            None => None,
        },
        None => None,
    };
    if let Some(role) = role {
        item.set_member("role", Json::String(role));
    }
    item
}

fn normalize_items(items: Vec<Json>) -> (fit: Vec<Json>)
    ensures
        fit.deep_view() == normalized_items(items.deep_view()),
{
    let ghost all = items.deep_view();
    let mut fit: Vec<Json> = Vec::new();
    for item in it: items.into_iter()
        invariant
            it.seq() == items@,
            all == items.deep_view(),
            fit.deep_view() =~= normalized_items(all).take(it.index()),
    {
        let ghost before = fit.deep_view();
        let item = normalize_item(item);
        let ghost next = item.deep_view();
        fit.push(item);
        assert(fit.deep_view() =~= before.push(next));
    }
    fit
}

/// Makes the roles of the input items in a request body fit for the endpoint.
pub fn normalize_responses_body_roles(body: &mut Json)
    ensures
        final(body).deep_view() == normalized_body(old(body).deep_view()),
{
    broadcast use {crate::json::lemma_tree_of_array, crate::json::lemma_tree_of_object};

    let ghost before = body.deep_view();
    if let Some(input) = body.replace_member("input", Json::Null) {
        proof {
            law_member_after_set(before, "input"@, JsonTree::Null);
        }
        let input = match input {
            Json::Array(items) => Json::Array(normalize_items(items)),
            other => other,
        };
        let ghost fit = input.deep_view();
        body.set_member("input", input);
        assert(body.deep_view() == with_member(before, "input"@, fit));
        proof {
            if !(member(before, "input"@)->0 is Array) {
                let members = before->Object_0;
                crate::json::lemma_key_index(members, "input"@);
                let i = crate::json::key_index(members, "input"@);
                assert(members.update(i, ("input"@, fit)) =~= members);
            }
        }
    }
}

/// Holds of the roles that an Azure endpoint takes.
pub open spec fn is_azure_role(role: Seq<char>) -> bool {
    ||| role == "system"@
    ||| role == "user"@
    ||| role == "assistant"@
    ||| role == "tool"@
    ||| role == "latest_reminder"@
}

/// An item whose role is a string has a role that the endpoint takes once it was made fit, and all
/// its other members as they were.
pub proof fn law_normalized_item(item: JsonTree)
    ensures
        member(item, "role"@) matches Some(JsonTree::String(role)) ==> member(
            normalized_item(item),
            "role"@,
        ) == Some(JsonTree::String(azure_role(role))) && is_azure_role(azure_role(role)),
        forall|other: Seq<char>|
            other != "role"@ ==> #[trigger] member(normalized_item(item), other) == member(
                item,
                other,
            ),
        normalized_item(normalized_item(item)) == normalized_item(item),
{
    if let Some(JsonTree::String(role)) = member(item, "role"@) {
        law_member_after_set(item, "role"@, JsonTree::String(azure_role(role)));
        law_azure_role_idempotent(role);
        let fit = normalized_item(item);
        let again = with_member(fit, "role"@, JsonTree::String(azure_role(azure_role(role))));
        assert(again == with_member(
            with_member(item, "role"@, JsonTree::String(azure_role(role))),
            "role"@,
            JsonTree::String(azure_role(role)),
        ));
    }
}

/// Making the roles of a body fit keeps the number and the order of its input items, and every
/// other member; doing it twice is doing it once.
pub proof fn law_normalized_body(body: JsonTree)
    ensures
        member(body, "input"@) matches Some(JsonTree::Array(items)) ==> member(
            normalized_body(body),
            "input"@,
        ) == Some(JsonTree::Array(normalized_items(items))) && normalized_items(items).len()
            == items.len(),
        forall|other: Seq<char>|
            other != "input"@ ==> #[trigger] member(normalized_body(body), other) == member(
                body,
                other,
            ),
        normalized_body(normalized_body(body)) == normalized_body(body),
{
    if let Some(JsonTree::Array(items)) = member(body, "input"@) {
        let fit = JsonTree::Array(normalized_items(items));
        law_member_after_set(body, "input"@, fit);
        assert forall|item: JsonTree| true implies #[trigger] normalized_item(
            normalized_item(item),
        ) == normalized_item(item) by {
            law_normalized_item(item);
        }
        assert(normalized_items(normalized_items(items)) =~= normalized_items(items));
        assert(with_member(with_member(body, "input"@, fit), "input"@, fit) == with_member(
            body,
            "input"@,
            fit,
        ));
    }
}

/// Roles are made fit item by item, and nothing else is touched: an item without a role, or with one
/// that is no text, stays as it is, and so does a body without a list of input items.
pub proof fn law_fit_roles(body: JsonTree, items: Seq<JsonTree>, item: JsonTree)
    ensures
        !(member(item, "role"@) matches Some(JsonTree::String(_))) ==> normalized_item(item) == item,
        member(item, "role"@) matches Some(JsonTree::String(role)) ==> normalized_item(item)
            == with_member(item, "role"@, JsonTree::String(azure_role(role))),
        normalized_items(items).len() == items.len(),
        forall|i: int|
            0 <= i < items.len() ==> #[trigger] normalized_items(items)[i] == normalized_item(
                items[i],
            ),
        !(member(body, "input"@) matches Some(JsonTree::Array(_))) ==> normalized_body(body) == body,
        member(body, "input"@) matches Some(JsonTree::Array(inputs)) ==> normalized_body(body)
            == with_member(body, "input"@, JsonTree::Array(normalized_items(inputs))),
{
}

} // verus!
