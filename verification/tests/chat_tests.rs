use model_surgery::chat::{
    check_loaded_conversation, conversation_file_name, conversation_listing, model_name,
    normalise_title, sort_newest_first, title_request, valid_id, validate_conversation,
    validate_generation_request, ChatConversationSummary, ChatGenerationMessage, ChatGenerationRequest,
};

fn message(role: &str, content: &str) -> ChatGenerationMessage {
    ChatGenerationMessage { role: role.to_string(), content: content.to_string(), reasoning: None }
}

#[test]
fn normalises_generated_chat_titles() {
    assert_eq!(normalise_title("  A  useful\nchat title.  "), "A useful chat title");
}

#[test]
fn title_is_cut_to_eighty_characters_and_unquoted() {
    let long = "x".repeat(100);
    assert_eq!(normalise_title(&long), "x".repeat(80));
    assert_eq!(normalise_title("\"`Quoted: title`\""), "Quoted: title");
}

#[test]
fn ids_allow_only_safe_characters() {
    assert!(valid_id("conv-123_abc"));
    assert!(!valid_id(""));
    assert!(!valid_id("../etc"));
    assert!(!valid_id("a b"));
}

#[test]
fn conversation_file_names_need_a_valid_id() {
    assert_eq!(conversation_file_name("abc").unwrap(), "model-quant-abc.conversation.json");
    assert_eq!(conversation_file_name("a/b").unwrap_err(), "Chat conversation id is invalid.");
}

#[test]
fn model_name_falls_back_to_local_model() {
    assert_eq!(model_name(Some("gemma.gguf".to_string())), "gemma.gguf");
    assert_eq!(model_name(Some(String::new())), "local model");
    assert_eq!(model_name(None), "local model");
}

#[test]
fn generation_requests_are_checked_in_order() {
    let ok = ChatGenerationRequest {
        conversation_id: "abc".to_string(),
        messages: vec![message("system", "be brief"), message("user", "hi")],
    };
    assert!(validate_generation_request(&ok).is_ok());

    let bad_id = ChatGenerationRequest { conversation_id: "a b".to_string(), messages: vec![message("user", "hi")] };
    assert_eq!(validate_generation_request(&bad_id).unwrap_err(), "Chat conversation id is invalid.");

    let empty = ChatGenerationRequest { conversation_id: "abc".to_string(), messages: Vec::new() };
    assert_eq!(validate_generation_request(&empty).unwrap_err(), "Chat message cannot be empty.");

    let blank = ChatGenerationRequest { conversation_id: "abc".to_string(), messages: vec![message("user", "  \n")] };
    assert_eq!(validate_generation_request(&blank).unwrap_err(), "Chat message cannot be empty.");

    let bad_role = ChatGenerationRequest { conversation_id: "abc".to_string(), messages: vec![message("robot", "hi")] };
    assert_eq!(
        validate_generation_request(&bad_role).unwrap_err(),
        "Chat messages use an unsupported role."
    );
}

#[test]
fn stored_conversations_are_checked() {
    assert!(validate_conversation("model-quant-chat", 1, "abc", "Title", 1).is_ok());
    assert_eq!(
        validate_conversation("other", 1, "abc", "Title", 1).unwrap_err(),
        "Chat conversation is invalid."
    );
    assert_eq!(
        validate_conversation("model-quant-chat", 2, "abc", "Title", 1).unwrap_err(),
        "Chat conversation is invalid."
    );
    assert_eq!(
        validate_conversation("model-quant-chat", 1, "abc", " ", 1).unwrap_err(),
        "Chat conversation is incomplete."
    );
    assert_eq!(
        validate_conversation("model-quant-chat", 1, "abc", "Title", 0).unwrap_err(),
        "Chat conversation is incomplete."
    );
}

fn summary(id: &str, updated_at: &str) -> ChatConversationSummary {
    ChatConversationSummary { id: id.to_string(), title: id.to_string(), updated_at: updated_at.to_string() }
}

#[test]
fn conversations_are_listed_newest_first() {
    let found = vec![
        ("model-quant-chat".to_string(), summary("a", "2024-01-02")),
        ("other-kind".to_string(), summary("x", "2025-01-01")),
        ("model-quant-chat".to_string(), summary("b", "2024-03-01")),
        ("model-quant-chat".to_string(), summary("c", "2024-01-02")),
        ("model-quant-chat".to_string(), summary("d", "2023-12-31")),
    ];
    let listed = conversation_listing(found);
    let ids: Vec<&str> = listed.iter().map(|s| s.id.as_str()).collect();
    assert_eq!(ids, vec!["b", "a", "c", "d"]);
    let sorted = sort_newest_first(vec![summary("1", "b"), summary("2", "a"), summary("3", "b")]);
    let ids: Vec<&str> = sorted.iter().map(|s| s.id.as_str()).collect();
    assert_eq!(ids, vec!["1", "3", "2"]);
}

#[test]
fn loaded_conversations_must_match_the_request() {
    assert!(check_loaded_conversation("model-quant-chat", "abc", "abc").is_ok());
    assert_eq!(
        check_loaded_conversation("model-quant-chat", "abc", "abd").unwrap_err(),
        "Chat conversation file is not valid."
    );
    assert!(check_loaded_conversation("other", "abc", "abc").is_err());
}

#[test]
fn title_requests_ask_for_a_short_title() {
    let request = ChatGenerationRequest { conversation_id: "c".to_string(), messages: vec![message("user", "hi")] };
    let titled = title_request(request);
    assert_eq!(titled.conversation_id, "c");
    assert_eq!(titled.messages.len(), 2);
    assert_eq!(titled.messages[0].content, "hi");
    assert_eq!(titled.messages[1].role, "user");
    assert_eq!(
        titled.messages[1].content,
        "Give this conversation a concise title of at most six words. Return only the title."
    );
}
