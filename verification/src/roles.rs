//! The roles that each endpoint takes for the author of a message.
use crate::text::str_eq;
use vstd::prelude::*;

verus! {

/// The role that an Azure Responses endpoint takes for `role`.
pub open spec fn azure_role(role: Seq<char>) -> Seq<char> {
    if role == "system"@ || role == "user"@ || role == "assistant"@ || role == "tool"@ || role
        == "latest_reminder"@ {
        role
    } else if role == "developer"@ {
        "system"@
    } else {
        "user"@
    }
}

/// The role that a chat completions endpoint takes for `role`.
pub open spec fn chat_role(role: Seq<char>) -> Seq<char> {
    if role == "system"@ || role == "user"@ || role == "assistant"@ || role == "tool"@ {
        role
    } else if role == "developer"@ || role == "latest_reminder"@ {
        "system"@
    } else {
        "user"@
    }
}

/// The role that an Azure Responses endpoint takes for `role`: a role that it knows stays,
/// `developer` becomes `system`, and any other becomes `user`.
pub fn responses_role_for_azure(role: &str) -> (supported: &str)
    ensures
        supported@ == azure_role(role@),
{
    if str_eq(role, "system") || str_eq(role, "user") || str_eq(role, "assistant") || str_eq(
        role,
        "tool",
    ) || str_eq(role, "latest_reminder") {
        role
    } else if str_eq(role, "developer") {
        "system"
    } else {
        "user"
    }
}

/// The role that a chat completions endpoint takes for `role`: a role that it knows stays,
/// `developer` and `latest_reminder` become `system`, and any other becomes `user`.
pub fn chat_completions_role(role: &str) -> (supported: &str)
    ensures
        supported@ == chat_role(role@),
{
    if str_eq(role, "system") || str_eq(role, "user") || str_eq(role, "assistant") || str_eq(
        role,
        "tool",
    ) {
        role
    } else if str_eq(role, "developer") || str_eq(role, "latest_reminder") {
        "system"
    } else {
        "user"
    }
}

/// Giving a role to an Azure endpoint twice is giving it once.
pub proof fn law_azure_role_idempotent(role: Seq<char>)
    ensures
        azure_role(azure_role(role)) == azure_role(role),
{
}

/// Giving a role to a chat completions endpoint twice is giving it once.
pub proof fn law_chat_role_idempotent(role: Seq<char>)
    ensures
        chat_role(chat_role(role)) == chat_role(role),
{
}

/// A role that was made fit for an Azure endpoint and then for a chat completions endpoint is
/// the role made fit for the latter, whatever the role.
pub proof fn law_chat_role_after_azure_role(role: Seq<char>)
    ensures
        chat_role(azure_role(role)) == chat_role(role),
{
}

/// What becomes of each role at an Azure endpoint.
pub proof fn law_azure_roles(role: Seq<char>)
    ensures
        azure_role("system"@) == "system"@,
        azure_role("user"@) == "user"@,
        azure_role("assistant"@) == "assistant"@,
        azure_role("tool"@) == "tool"@,
        azure_role("latest_reminder"@) == "latest_reminder"@,
        azure_role("developer"@) == "system"@,
        !(role == "system"@ || role == "user"@ || role == "assistant"@ || role == "tool"@ || role
            == "latest_reminder"@ || role == "developer"@) ==> azure_role(role) == "user"@,
{
    lemma_developer_is_no_other();
}

/// What becomes of each role at a chat completions endpoint.
pub proof fn law_chat_roles(role: Seq<char>)
    ensures
        chat_role("system"@) == "system"@,
        chat_role("user"@) == "user"@,
        chat_role("assistant"@) == "assistant"@,
        chat_role("tool"@) == "tool"@,
        chat_role("latest_reminder"@) == "system"@,
        chat_role("developer"@) == "system"@,
        !(role == "system"@ || role == "user"@ || role == "assistant"@ || role == "tool"@ || role
            == "latest_reminder"@ || role == "developer"@) ==> chat_role(role) == "user"@,
{
    lemma_developer_is_no_other();
}

proof fn lemma_developer_is_no_other()
    ensures
        "developer"@ != "user"@,
        "developer"@ != "assistant"@,
        "developer"@ != "tool"@,
        "developer"@ != "latest_reminder"@,
        "latest_reminder"@ != "user"@,
        "latest_reminder"@ != "assistant"@,
        "latest_reminder"@ != "tool"@,
{
    reveal_strlit("developer");
    reveal_strlit("user");
    reveal_strlit("assistant");
    reveal_strlit("tool");
    reveal_strlit("latest_reminder");
    assert("developer"@.len() == 9 && "user"@.len() == 4 && "tool"@.len() == 4);
    assert("latest_reminder"@.len() == 15 && "assistant"@.len() == 9);
    assert("developer"@[0] == 'd' && "assistant"@[0] == 'a');
}

} // verus!
