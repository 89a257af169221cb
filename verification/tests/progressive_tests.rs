use semantic::progressive_matching::{ProgressiveMatchingManager, ParameterValue,
    is_parameter_satisfied};
use semantic::parameter_extraction::followup_parameters_from_fields;
use semantic::jsonval::JsonNode;
use semantic::models::EndpointParameter;

fn pv(name: &str, value: &str) -> ParameterValue {
    ParameterValue {
        name: name.to_string(),
        value: value.to_string(),
        description: format!("value for {}", name),
    }
}

fn param(name: &str, required: bool, alternatives: Option<Vec<&str>>) -> EndpointParameter {
    EndpointParameter {
        name: name.to_string(),
        description: String::new(),
        required: Some(required),
        alternatives: alternatives.map(|a| a.iter().map(|s| s.to_string()).collect()),
        semantic_value: None,
    }
}

fn value_of(store: &ProgressiveMatchingManager, conv: &str, ep: &str, name: &str) -> Option<String> {
    let row = store.get_match(conv, ep)?;
    row.parameters
        .iter()
        .rev()
        .find(|p| p.name == name)
        .map(|p| p.value.clone())
}

#[test]
fn test_update_merges_and_preserves_created_at() {
    let mut store = ProgressiveMatchingManager::new();
    store.update_match("c1", "send_email", &vec![pv("subject", "budget")], "t1");
    store.update_match("c1", "send_email", &vec![pv("to", "a@b.c")], "t2");
    let row = store.get_match("c1", "send_email").unwrap();
    assert_eq!(row.created_at, "t1");
    assert_eq!(row.updated_at, "t2");
    assert_eq!(row.parameters.len(), 2);
    assert_eq!(row.parameters[0].name, "subject");
    assert_eq!(row.parameters[1].name, "to");
}

#[test]
fn test_update_commutes_for_disjoint_names() {
    let mut ab = ProgressiveMatchingManager::new();
    ab.update_match("c1", "ep", &vec![pv("a", "1")], "t1");
    ab.update_match("c1", "ep", &vec![pv("b", "2")], "t2");

    let mut ba = ProgressiveMatchingManager::new();
    ba.update_match("c1", "ep", &vec![pv("b", "2")], "t1");
    ba.update_match("c1", "ep", &vec![pv("a", "1")], "t2");

    for name in ["a", "b"] {
        assert_eq!(
            value_of(&ab, "c1", "ep", name),
            value_of(&ba, "c1", "ep", name)
        );
    }
}

#[test]
fn test_update_last_write_wins_for_same_name() {
    let mut store = ProgressiveMatchingManager::new();
    store.update_match("c1", "ep", &vec![pv("subject", "first")], "t1");
    store.update_match("c1", "ep", &vec![pv("subject", "second")], "t2");
    assert_eq!(
        value_of(&store, "c1", "ep", "subject"),
        Some("second".to_string())
    );
    // the overwritten entry keeps its position, no duplicate is appended
    let row = store.get_match("c1", "ep").unwrap();
    assert_eq!(row.parameters.len(), 1);
}

#[test]
fn test_complete_after_update_leaves_nothing() {
    let mut store = ProgressiveMatchingManager::new();
    store.update_match("c1", "send_email", &vec![pv("subject", "budget")], "t1");
    store.complete_match("c1", "send_email");
    assert!(store.get_match("c1", "send_email").is_none());
    assert!(store.get_incomplete_match("c1").is_none());
}

#[test]
fn test_other_keys_untouched() {
    let mut store = ProgressiveMatchingManager::new();
    store.update_match("c1", "ep1", &vec![pv("x", "1")], "t1");
    store.update_match("c2", "ep1", &vec![pv("y", "2")], "t1");
    store.complete_match("c1", "ep1");
    assert!(store.get_match("c1", "ep1").is_none());
    assert!(store.get_match("c2", "ep1").is_some());
}

#[test]
fn test_is_parameter_satisfied_direct_and_alternatives() {
    let eps = vec![
        param("to", true, Some(vec!["recipient"])),
        param("cc", true, None),
    ];
    let matched = vec![pv("recipient", "a@b.c")];
    // satisfied through the required parameter's alternatives
    assert!(is_parameter_satisfied("to", &matched, &eps));
    // not satisfied at all
    assert!(!is_parameter_satisfied("cc", &matched, &eps));
    // direct name match
    let matched2 = vec![pv("cc", "c@d.e")];
    assert!(is_parameter_satisfied("cc", &matched2, &eps));
    // reverse direction: the matched parameter lists the required name
    let eps2 = vec![param("addr", false, Some(vec!["to"]))];
    let matched3 = vec![pv("addr", "x")];
    assert!(is_parameter_satisfied("to", &matched3, &eps2));
}

#[test]
fn test_check_completion_reports_missing_and_percentage() {
    let eps = vec![param("to", true, None), param("subject", true, None)];
    let mut store = ProgressiveMatchingManager::new();
    store.update_match("c1", "send_email", &vec![pv("subject", "budget")], "t1");
    let required = vec!["to".to_string(), "subject".to_string()];
    let res = store.check_completion("c1", "send_email", &required, &eps);
    assert!(!res.is_complete);
    assert!(!res.ready_for_execution);
    assert_eq!(res.missing_parameters, vec!["to".to_string()]);
    assert_eq!(res.completion_percentage, 50);
    assert_eq!(res.endpoint_description, "Endpoint send_email");
}

#[test]
fn test_followup_with_missing_names_completes() {
    let eps = vec![param("to", true, None), param("subject", true, None)];
    let required = vec!["to".to_string(), "subject".to_string()];
    let mut store = ProgressiveMatchingManager::new();
    store.update_match("c1", "send_email", &vec![pv("subject", "budget")], "t1");
    let before = store.check_completion("c1", "send_email", &required, &eps);
    assert_eq!(before.missing_parameters, vec!["to".to_string()]);

    // the follow-up supplies exactly the missing names
    store.update_match("c1", "send_email", &vec![pv("to", "to@example.com")], "t2");
    let after = store.check_completion("c1", "send_email", &required, &eps);
    assert!(after.is_complete);
    assert!(after.ready_for_execution);
    assert_eq!(after.completion_percentage, 100);
    assert!(after.missing_parameters.is_empty());
}

#[test]
fn test_check_completion_without_required_is_complete() {
    let store = ProgressiveMatchingManager::new();
    let res = store.check_completion("c1", "ep", &vec![], &vec![]);
    assert!(res.is_complete);
    assert_eq!(res.completion_percentage, 100);
}

#[test]
fn test_followup_filtering_is_exact() {
    let eps = vec![param("to", true, None), param("subject", true, None)];
    let fields = vec![
        ("to".to_string(), JsonNode::Text("  to@example.com  ".to_string())),
        ("unknown".to_string(), JsonNode::Text("dropped".to_string())),
        ("subject".to_string(), JsonNode::Text("   ".to_string())),
        ("to".to_string(), JsonNode::Null),
    ];
    let values = followup_parameters_from_fields(&fields, &eps);
    // exactly one field qualifies: a declared name with a non-blank string
    assert_eq!(values.len(), 1);
    assert_eq!(values[0].name, "to");
    assert_eq!(values[0].value, "to@example.com");
    assert_eq!(values[0].description, "User provided value for to");
}
