use semantic::conversation::{ConversationManager, new_conversation_id};
use semantic::progressive_matching::now_rfc3339;
use semantic::sentence_service::{ensure_conversation_id, build_sentence_response,
    dedup_missing_fields};
use semantic::models::{EnhancedAnalysisResult, MatchingInfo, MatchingStatus, MissingField,
    RawPayload, UsageInfo};
use semantic::classify_intent::IntentType;
use semantic::errors::{AnalysisError, StatusKind, status_of};
use semantic::helpers::create_default_matching_info;
use semantic::providers::{decide_usage, finish_generation, ProviderErrorKind, TokenUsage};

#[test]
fn test_minted_conversation_ids() {
    let id = new_conversation_id();
    assert_eq!(id.len(), 36);
    assert_ne!(id, new_conversation_id());
}

#[test]
fn test_now_rfc3339_parses_back() {
    let now = now_rfc3339();
    assert!(chrono::DateTime::parse_from_rfc3339(&now).is_ok());
}

#[test]
fn test_conversation_lifecycle() {
    let mut manager = ConversationManager::new();
    let id = manager.start_conversation("user@example.com".to_string(), None, "t0");
    assert_eq!(id.len(), 36);
    assert!(manager
        .add_message(&id, "hello".to_string(), None, None, "t1")
        .is_ok());
    assert!(manager
        .add_message("unknown-conversation", "hello".to_string(), None, None, "t1")
        .is_err());
    assert_eq!(manager.conversations[0].message_count, 1);
    assert_eq!(manager.messages.len(), 1);
}

#[test]
fn test_ensure_conversation_id_keeps_client_ids() {
    let mut manager = ConversationManager::new();
    let kept = ensure_conversation_id(
        &mut manager,
        Some("client-chosen".to_string()),
        "user@example.com",
        None,
        "t0",
    );
    assert_eq!(kept, "client-chosen");
    assert!(manager.conversations.is_empty());
    // an empty id is replaced by a minted one, and the registry gains the
    // conversation
    let minted = ensure_conversation_id(
        &mut manager,
        Some(String::new()),
        "user@example.com",
        None,
        "t0",
    );
    assert_eq!(minted.len(), 36);
    assert_eq!(manager.conversations.len(), 1);
    assert_eq!(manager.conversations[0].id, minted);
}

#[test]
fn test_status_mapping() {
    assert_eq!(status_of(&AnalysisError::InvalidEmail), StatusKind::InvalidArgument);
    assert_eq!(status_of(&AnalysisError::NoEndpoints), StatusKind::NotFound);
    assert_eq!(
        status_of(&AnalysisError::ConfigUnavailable),
        StatusKind::FailedPrecondition
    );
    assert_eq!(
        status_of(&AnalysisError::NoSuitableEndpoint),
        StatusKind::Internal
    );
}

fn missing(name: &str, description: &str) -> MissingField {
    MissingField { name: name.to_string(), description: description.to_string() }
}

#[test]
fn test_dedup_missing_fields() {
    let fields = vec![missing("to", "first"), missing("subject", "s"), missing("to", "again")];
    let deduped = dedup_missing_fields(&fields);
    assert_eq!(deduped.len(), 2);
    assert_eq!(deduped[0].name, "to");
    assert_eq!(deduped[0].description, "first");
    assert_eq!(deduped[1].name, "subject");
}

#[test]
fn test_build_sentence_response_dedups_missing() {
    let mut info = create_default_matching_info();
    info.status = MatchingStatus::Incomplete;
    info.total_required_fields = 2;
    info.missing_required_fields = vec![missing("to", "a"), missing("to", "b")];
    let result = EnhancedAnalysisResult {
        endpoint_id: "send_email".to_string(),
        endpoint_name: "Send Email".to_string(),
        endpoint_description: "d".to_string(),
        verb: "POST".to_string(),
        base: "api".to_string(),
        path: "/email/send".to_string(),
        user_prompt: None,
        essential_path: "/email/send".to_string(),
        api_group_id: "g".to_string(),
        api_group_name: "G".to_string(),
        parameters: vec![],
        raw_json: RawPayload::GeneralConversation { response: "x".to_string() },
        conversation_id: Some("conv".to_string()),
        matching_info: info,
        total_input_tokens: 1,
        total_output_tokens: 2,
        usage: UsageInfo {
            input_tokens: 1,
            output_tokens: 2,
            total_tokens: 3,
            model: "m".to_string(),
            estimated: true,
        },
        intent: IntentType::ActionableRequest,
    };
    let response = build_sentence_response(result, "conv".to_string(), "scripted".to_string());
    assert_eq!(response.conversation_id.as_deref(), Some("conv"));
    assert_eq!(response.endpoint_id, "send_email");
    assert_eq!(response.matching_info.missing_required_fields.len(), 1);
    assert_eq!(response.usage.model, "scripted");
}

#[test]
fn test_decide_usage_prefers_reported_counts() {
    let fallback = TokenUsage { input_tokens: 7, output_tokens: 3, total_tokens: 10, estimated: true };
    let reported = TokenUsage { input_tokens: 20, output_tokens: 5, total_tokens: 25, estimated: true };
    let chosen = decide_usage(Some(reported), fallback);
    assert_eq!(chosen.input_tokens, 20);
    assert!(!chosen.estimated);
    // zero reported counts fall back to the estimate
    let zero = TokenUsage { input_tokens: 0, output_tokens: 0, total_tokens: 0, estimated: false };
    let fell_back = decide_usage(Some(zero), fallback);
    assert_eq!(fell_back.total_tokens, 10);
    assert!(fell_back.estimated);
    let none = decide_usage(None, fallback);
    assert_eq!(none.total_tokens, 10);
    assert!(none.estimated);
}

#[test]
fn test_finish_generation_rejects_empty_content() {
    let fallback = TokenUsage { input_tokens: 1, output_tokens: 1, total_tokens: 2, estimated: true };
    let err = finish_generation("   ".to_string(), None, fallback).unwrap_err();
    assert_eq!(err.kind, ProviderErrorKind::EmptyContent);
    let ok = finish_generation("hello".to_string(), None, fallback).unwrap();
    assert_eq!(ok.content, "hello");
    assert!(ok.usage.estimated);
}
