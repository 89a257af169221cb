use std::cell::RefCell;

use semantic::analysis::analyze_sentence_enhanced;
use semantic::classify_intent::IntentType;
use semantic::config::AnalysisConfig;
use semantic::models::{EndpointParameter, EnhancedEndpoint, MatchingStatus, RawPayload};
use semantic::progressive_matching::ProgressiveMatchingManager;
use semantic::prompts::{PromptManager, PromptSet, PromptVersion};
use semantic::providers::{GenerationResult, ModelConfig, ModelProvider, ModelsConfig,
    ProviderError, TokenUsage};
use semantic::help_response_handler::{create_capabilities_list, help_response_for_language};
use semantic::errors::AnalysisError;

/// A provider that replays a fixed list of responses, in order.
struct ScriptedProvider {
    responses: RefCell<Vec<String>>,
}

impl ScriptedProvider {
    fn new(responses: &[&str]) -> ScriptedProvider {
        ScriptedProvider {
            responses: RefCell::new(responses.iter().rev().map(|s| s.to_string()).collect()),
        }
    }

    fn exhausted(&self) -> bool {
        self.responses.borrow().is_empty()
    }
}

impl ModelProvider for ScriptedProvider {
    fn generate(&self, _prompt: &str, _model: &ModelConfig) -> Result<GenerationResult, ProviderError> {
        let content = self
            .responses
            .borrow_mut()
            .pop()
            .expect("scripted provider ran out of responses");
        Ok(GenerationResult {
            content,
            usage: TokenUsage { input_tokens: 5, output_tokens: 5, total_tokens: 10, estimated: true },
        })
    }

    fn get_model_name(&self) -> String {
        "scripted".to_string()
    }

    fn estimate_usage(&self, input: &str, output: &str) -> TokenUsage {
        let i = (input.len() / 4).max(1) as u32;
        let o = (output.len() / 4).max(1) as u32;
        TokenUsage { input_tokens: i, output_tokens: o, total_tokens: i + o, estimated: true }
    }
}

fn model_config() -> ModelConfig {
    ModelConfig {
        cohere: "command".to_string(),
        anthropic: "anthropic-latest".to_string(),
        deepseek: "deepseek-chat".to_string(),
        temperature_milli: 100,
        max_tokens: 1024,
    }
}

fn models() -> ModelsConfig {
    ModelsConfig {
        default: model_config(),
        sentence_to_json: model_config(),
        find_endpoint: model_config(),
        semantic_match: model_config(),
        intent_classification: model_config(),
    }
}

fn prompts() -> PromptManager {
    let mut pm = PromptManager::new();
    for (name, template) in [
        ("intent_classification", "Classify: {sentence}\nEndpoints:\n{endpoints_list}"),
        ("find_endpoint", "Pick the endpoint for {input_sentence} among:\n{endpoints_list}"),
        ("sentence_to_json", "Extract parameters from: {sentence}"),
        ("match_fields", "Map {input_fields} onto {parameters}"),
        (
            "extract_followup_parameters_mapping",
            "From {sentence} pick values for {available_parameters}",
        ),
        ("help_response", "Answer {sentence} in {detected_language} using:\n{endpoints_list}"),
    ] {
        pm.add_prompt(PromptSet {
            name: name.to_string(),
            default_version: "v1".to_string(),
            versions: vec![
                PromptVersion { name: "v1".to_string(), template: template.to_string() },
                PromptVersion { name: "v2".to_string(), template: template.to_string() },
                PromptVersion { name: "v3".to_string(), template: template.to_string() },
            ],
        });
    }
    pm
}

fn param(name: &str, description: &str, required: bool) -> EndpointParameter {
    EndpointParameter {
        name: name.to_string(),
        description: description.to_string(),
        required: Some(required),
        alternatives: None,
        semantic_value: None,
    }
}

fn send_email_endpoint() -> EnhancedEndpoint {
    EnhancedEndpoint {
        id: "send_email".to_string(),
        name: "Send Email".to_string(),
        text: "send email".to_string(),
        description: "Send an email".to_string(),
        verb: "POST".to_string(),
        base: "api".to_string(),
        path: "/email/send".to_string(),
        essential_path: "/email/send".to_string(),
        api_group_id: "communication".to_string(),
        api_group_name: "Communication APIs".to_string(),
        parameters: vec![
            param("to", "to", true),
            param("subject", "subject", true),
            param("body", "body", false),
        ],
    }
}

fn schedule_endpoint() -> EnhancedEndpoint {
    EnhancedEndpoint {
        id: "schedule_meeting".to_string(),
        name: "Schedule Meeting".to_string(),
        text: "schedule meeting".to_string(),
        description: "Schedule a meeting".to_string(),
        verb: "POST".to_string(),
        base: "api".to_string(),
        path: "/calendar/schedule".to_string(),
        essential_path: "/calendar/schedule".to_string(),
        api_group_id: "calendar".to_string(),
        api_group_name: "Calendar APIs".to_string(),
        parameters: vec![param("when", "when", true)],
    }
}

fn run(
    provider: &ScriptedProvider,
    sentence: &str,
    conversation_id: Option<&str>,
    store: &mut ProgressiveMatchingManager,
) -> Result<semantic::models::EnhancedAnalysisResult, semantic::errors::AnalysisError> {
    let endpoints = vec![send_email_endpoint(), schedule_endpoint()];
    analyze_sentence_enhanced(
        sentence,
        provider,
        &endpoints,
        &Some("http://catalog.local".to_string()),
        "user@example.com",
        conversation_id.map(|s| s.to_string()),
        &AnalysisConfig { retry_attempts: 3, fallback_to_general: true },
        &prompts(),
        &models(),
        store,
    )
}

#[test]
fn actionable_with_full_parameters() {
    let provider = ScriptedProvider::new(&[
        "ACTIONABLE",
        "send_email",
        "{\"endpoints\":[{\"fields\":{\"to\":\"john@example.com\",\"subject\":\"Meeting Tomorrow\",\"body\":\"we need to reschedule\"}}]}",
    ]);
    let mut store = ProgressiveMatchingManager::new();
    let result = run(
        &provider,
        "Send email to john@example.com with subject 'Meeting Tomorrow' and tell him we need to reschedule",
        None,
        &mut store,
    )
    .unwrap();
    assert!(provider.exhausted());
    assert_eq!(result.endpoint_id, "send_email");
    assert_eq!(result.intent, IntentType::ActionableRequest);
    assert!(matches!(result.matching_info.status, MatchingStatus::Complete));
    assert_eq!(result.matching_info.completion_percentage, 100);
    assert!(result.user_prompt.is_none());
    let value_of = |name: &str| {
        result
            .parameters
            .iter()
            .find(|p| p.name == name)
            .and_then(|p| p.value.clone())
    };
    assert_eq!(value_of("to"), Some("john@example.com".to_string()));
    assert_eq!(value_of("subject"), Some("Meeting Tomorrow".to_string()));
    assert_eq!(value_of("body"), Some("we need to reschedule".to_string()));
}

#[test]
fn actionable_with_missing_required() {
    let provider = ScriptedProvider::new(&[
        "ACTIONABLE",
        "send_email",
        "{\"endpoints\":[{\"fields\":{}}]}",
    ]);
    let mut store = ProgressiveMatchingManager::new();
    let result = run(&provider, "Send an email about the budget", None, &mut store).unwrap();
    assert!(provider.exhausted());
    assert_eq!(result.endpoint_id, "send_email");
    assert!(matches!(result.matching_info.status, MatchingStatus::Incomplete));
    let missing: Vec<&str> = result
        .matching_info
        .missing_required_fields
        .iter()
        .map(|f| f.name.as_str())
        .collect();
    assert_eq!(missing, vec!["to", "subject"]);
    assert_eq!(
        result.user_prompt.as_deref(),
        Some(
            "To complete your send email request, I need the to and the subject. Could you provide these details?"
        )
    );
}

#[test]
fn progressive_resume_across_turns() {
    let mut store = ProgressiveMatchingManager::new();

    // turn 1: partial extraction; the subject is saved for the conversation
    let provider1 = ScriptedProvider::new(&[
        "ACTIONABLE",
        "send_email",
        "{\"endpoints\":[{\"fields\":{\"subject\":\"budget\"}}]}",
        "{}",
    ]);
    let first = run(&provider1, "Send an email about the budget", Some("conv-1"), &mut store)
        .unwrap();
    assert!(provider1.exhausted());
    assert!(first.matching_info.completion_percentage < 100);
    let row = store.get_match("conv-1", "send_email").expect("saved partial state");
    assert_eq!(row.parameters.len(), 1);
    assert_eq!(row.parameters[0].name, "subject");
    assert_eq!(row.parameters[0].value, "budget");

    // turn 2: the follow-up supplies the missing recipient
    let provider2 = ScriptedProvider::new(&["{\"to\":\"to@example.com\"}"]);
    let second = run(&provider2, "to@example.com", Some("conv-1"), &mut store).unwrap();
    assert!(provider2.exhausted());
    assert_eq!(second.intent, IntentType::ActionableRequest);
    assert!(matches!(second.matching_info.status, MatchingStatus::Complete));
    assert!(store.get_match("conv-1", "send_email").is_none());
    assert!(matches!(
        second.raw_json,
        RawPayload::ProgressiveComplete { .. }
    ));
}

#[test]
fn help_request_lists_capabilities() {
    let provider = ScriptedProvider::new(&["HELP", "en"]);
    let mut store = ProgressiveMatchingManager::new();
    let result = run(&provider, "what can i do with this app?", None, &mut store).unwrap();
    assert!(provider.exhausted());
    assert_eq!(result.intent, IntentType::HelpRequest);
    assert_eq!(result.endpoint_id, "help_capabilities");
    match &result.raw_json {
        RawPayload::HelpRequest { capabilities_count, response } => {
            assert_eq!(*capabilities_count, 2);
            assert!(response.contains("Send emails"));
        }
        other => panic!("unexpected payload: {:?}", other),
    }
}

#[test]
fn general_fallback_after_failed_retries() {
    // endpoint matching never settles: two tries per workflow run, three runs
    let provider = ScriptedProvider::new(&[
        "ACTIONABLE",
        "NO_MATCH",
        "NO_MATCH",
        "NO_MATCH",
        "NO_MATCH",
        "NO_MATCH",
        "NO_MATCH",
        "Happy to help with anything else.",
    ]);
    let mut store = ProgressiveMatchingManager::new();
    let result = run(&provider, "Do something impossible", None, &mut store).unwrap();
    assert!(provider.exhausted());
    assert_eq!(result.intent, IntentType::GeneralQuestion);
    assert_eq!(result.endpoint_id, "general_conversation_fallback");
    assert!(matches!(result.matching_info.status, MatchingStatus::Complete));
    assert_eq!(result.matching_info.total_required_fields, 0);
}

#[test]
fn invalid_email_rejected_before_any_work() {
    let provider = ScriptedProvider::new(&[]);
    let endpoints = vec![send_email_endpoint()];
    let mut store = ProgressiveMatchingManager::new();
    let result = analyze_sentence_enhanced(
        "Send an email",
        &provider,
        &endpoints,
        &Some("http://catalog.local".to_string()),
        "not-an-email",
        None,
        &AnalysisConfig::default(),
        &prompts(),
        &models(),
        &mut store,
    );
    assert!(matches!(
        result,
        Err(semantic::errors::AnalysisError::InvalidEmail)
    ));
    // no provider call was made
    assert!(provider.exhausted());
}

#[test]
fn help_in_english_is_the_listing_itself() {
    // no scripted response: the English branch must not call the provider
    let provider = ScriptedProvider::new(&[]);
    let endpoints = vec![send_email_endpoint(), schedule_endpoint()];
    let answer = help_response_for_language(
        "what can i do?",
        &endpoints,
        "en",
        &provider,
        &prompts(),
        &model_config(),
    )
    .unwrap();
    assert!(provider.exhausted());
    assert_eq!(answer.content, create_capabilities_list(&endpoints));
}

#[test]
fn empty_catalog_is_not_found() {
    let provider = ScriptedProvider::new(&[]);
    let endpoints: Vec<EnhancedEndpoint> = vec![];
    let mut store = ProgressiveMatchingManager::new();
    let result = semantic::analysis::analyze_sentence_enhanced(
        "Send an email",
        &provider,
        &endpoints,
        &Some("http://catalog.local".to_string()),
        "user@example.com",
        None,
        &AnalysisConfig::default(),
        &prompts(),
        &models(),
        &mut store,
    );
    assert!(matches!(result, Err(AnalysisError::NoEndpoints)));
    assert!(provider.exhausted());
}

#[test]
fn unknown_ongoing_endpoint_falls_back_to_normal_flow() {
    // the stored match names an endpoint that is no longer configured; the
    // gate fails through and the sentence is handled by the normal flow
    let mut store = ProgressiveMatchingManager::new();
    store.update_match(
        "conv-9",
        "gone_endpoint",
        &vec![semantic::progressive_matching::ParameterValue {
            name: "x".to_string(),
            value: "1".to_string(),
            description: "d".to_string(),
        }],
        "t0",
    );
    let provider = ScriptedProvider::new(&["GENERAL", "Happy to chat."]);
    let result = run(&provider, "tell me a story", Some("conv-9"), &mut store).unwrap();
    assert!(provider.exhausted());
    assert_eq!(result.endpoint_id, "general_conversation");
}
