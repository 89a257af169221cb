use semantic::classify_intent::{classify_intent_from_response, IntentType};

#[test]
fn test_tokens_decide_in_priority_order() {
    let s = "Send an email";
    assert_eq!(
        classify_intent_from_response(s, "ACTIONABLE"),
        IntentType::ActionableRequest
    );
    assert_eq!(
        classify_intent_from_response(s, "the intent is HELP"),
        IntentType::HelpRequest
    );
    assert_eq!(
        classify_intent_from_response(s, "GENERAL question"),
        IntentType::GeneralQuestion
    );
    // actionable wins over the others when several tokens occur
    assert_eq!(
        classify_intent_from_response(s, "HELP or ACTIONABLE"),
        IntentType::ActionableRequest
    );
    // matching ignores case
    assert_eq!(
        classify_intent_from_response(s, "actionable"),
        IntentType::ActionableRequest
    );
}

#[test]
fn test_keyword_fallback() {
    // no token in the response: the sentence decides
    assert_eq!(
        classify_intent_from_response("what can i do with this app?", "hmm"),
        IntentType::HelpRequest
    );
    assert_eq!(
        classify_intent_from_response("Qu'est-ce que l'informatique ? Aide-moi", "hmm"),
        IntentType::HelpRequest
    );
    assert_eq!(
        classify_intent_from_response("tell me about rust", "hmm"),
        IntentType::GeneralQuestion
    );
}

#[test]
fn test_classification_deterministic() {
    for (sentence, response) in [
        ("Send an email", "ACTIONABLE"),
        ("what can i do", "no tokens here"),
        ("tell me about rust", "no tokens here"),
    ] {
        let a = classify_intent_from_response(sentence, response);
        let b = classify_intent_from_response(sentence, response);
        assert_eq!(a, b);
    }
}
