use codex_api::roles::{chat_completions_role, responses_role_for_azure};
use codex_api::text::{is_blank_text, join};

#[test]
fn chat_completions_role_maps_responses_only_roles() {
    assert_eq!(chat_completions_role("developer"), "system");
    assert_eq!(chat_completions_role("latest_reminder"), "system");
    assert_eq!(chat_completions_role("user"), "user");
    assert_eq!(chat_completions_role("assistant"), "assistant");
    assert_eq!(chat_completions_role("unexpected"), "user");
}

#[test]
fn azure_roles_are_known_ones() {
    for role in ["system", "user", "assistant", "tool", "latest_reminder"] {
        assert_eq!(responses_role_for_azure(role), role);
    }
    assert_eq!(responses_role_for_azure("developer"), "system");
    assert_eq!(responses_role_for_azure(""), "user");
    for role in ["developer", "latest_reminder", "tool", "odd"] {
        let azure = responses_role_for_azure(role);
        assert_eq!(responses_role_for_azure(azure), azure);
        assert_eq!(chat_completions_role(azure), chat_completions_role(role));
    }
}

#[test]
fn text_is_trimmed_and_joined() {
    assert!(is_blank_text(""));
    assert!(is_blank_text("\u{85}\u{2003} \r\n"));
    assert!(!is_blank_text(" x "));
    let parts = vec!["a".to_string(), String::new(), "b".to_string()];
    assert_eq!(join(&parts, ", "), "a, , b");
    assert_eq!(join(&vec![], ", "), "");
}
