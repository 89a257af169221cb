use semantic::models::{MatchingInfo, MatchingStatus, ParameterMatch, EndpointParameter,
    format_field_request, debug_parameter_matches};
use semantic::helpers::{create_default_matching_info, create_usage_info};

fn param(name: &str, description: &str, required: Option<bool>) -> EndpointParameter {
    EndpointParameter {
        name: name.to_string(),
        description: description.to_string(),
        required,
        alternatives: None,
        semantic_value: None,
    }
}

fn pmatch(name: &str, value: Option<&str>) -> ParameterMatch {
    ParameterMatch {
        name: name.to_string(),
        description: String::new(),
        value: value.map(|v| v.to_string()),
    }
}

#[test]
fn test_compute_counts_and_status() {
    let params = vec![
        param("to", "", Some(true)),
        param("subject", "", Some(true)),
        param("body", "", Some(false)),
    ];
    let matches = vec![
        pmatch("to", Some("john@example.com")),
        pmatch("subject", Some("Meeting Tomorrow")),
        pmatch("body", None),
    ];
    let info = MatchingInfo::compute(&matches, &params);
    assert_eq!(info.total_required_fields, 2);
    assert_eq!(info.mapped_required_fields, 2);
    assert_eq!(info.total_optional_fields, 1);
    assert_eq!(info.mapped_optional_fields, 0);
    assert_eq!(info.completion_percentage, 100);
    assert!(matches!(info.status, MatchingStatus::Complete));
    assert!(info.missing_required_fields.is_empty());
    assert_eq!(info.missing_optional_fields.len(), 1);
}

#[test]
fn test_compute_partial_and_incomplete() {
    let params = vec![param("to", "", Some(true)), param("subject", "", Some(true))];
    let one = vec![pmatch("to", Some("a@b.c"))];
    let info = MatchingInfo::compute(&one, &params);
    assert!(matches!(info.status, MatchingStatus::Partial));
    assert_eq!(info.completion_percentage, 50);
    assert_eq!(info.missing_required_fields.len(), 1);
    assert_eq!(info.missing_required_fields[0].name, "subject");

    let none: Vec<ParameterMatch> = vec![];
    let info2 = MatchingInfo::compute(&none, &params);
    assert!(matches!(info2.status, MatchingStatus::Incomplete));
    assert_eq!(info2.completion_percentage, 0);
}

#[test]
fn test_compute_ignores_duplicate_parameter_definitions() {
    let params = vec![
        param("to", "first", Some(true)),
        param("subject", "", Some(true)),
    ];
    let mut with_dup = params.clone();
    with_dup.push(param("to", "second copy", Some(true)));

    let matches = vec![pmatch("to", Some("a@b.c"))];
    let info = MatchingInfo::compute(&matches, &params);
    let info_dup = MatchingInfo::compute(&matches, &with_dup);
    assert_eq!(info.total_required_fields, info_dup.total_required_fields);
    assert_eq!(info.mapped_required_fields, info_dup.mapped_required_fields);
    assert_eq!(info.completion_percentage, info_dup.completion_percentage);
    assert_eq!(
        info.missing_required_fields.len(),
        info_dup.missing_required_fields.len()
    );
}

#[test]
fn test_blank_value_is_unfilled() {
    let params = vec![param("to", "", Some(true))];
    let matches = vec![pmatch("to", Some("   "))];
    let info = MatchingInfo::compute(&matches, &params);
    assert_eq!(info.mapped_required_fields, 0);
    assert!(matches!(info.status, MatchingStatus::Incomplete));
}

#[test]
fn test_user_prompt_one_missing() {
    let params = vec![param("to", "to", Some(true)), param("subject", "", Some(true))];
    let matches = vec![pmatch("subject", Some("x"))];
    let info = MatchingInfo::compute(&matches, &params);
    let prompt = info.generate_user_prompt("Send Email").unwrap();
    assert_eq!(
        prompt,
        "To proceed with send email, I need one more piece of information: the to. Could you please provide that?"
    );
}

#[test]
fn test_user_prompt_two_missing() {
    let params = vec![param("to", "", Some(true)), param("subject", "", Some(true))];
    let matches: Vec<ParameterMatch> = vec![];
    let info = MatchingInfo::compute(&matches, &params);
    let prompt = info.generate_user_prompt("Send Email").unwrap();
    assert_eq!(
        prompt,
        "To complete your send email request, I need the to and the subject. Could you provide these details?"
    );
}

#[test]
fn test_user_prompt_three_missing() {
    let params = vec![
        param("to", "", Some(true)),
        param("subject", "", Some(true)),
        param("body_text", "", Some(true)),
    ];
    let matches: Vec<ParameterMatch> = vec![];
    let info = MatchingInfo::compute(&matches, &params);
    let prompt = info.generate_user_prompt("Send Email").unwrap();
    assert_eq!(
        prompt,
        "To process your send email request, I need a few more details: the to, the subject, and the body text. Could you provide this information?"
    );
}

#[test]
fn test_user_prompt_none_when_complete() {
    let params = vec![param("to", "", Some(true))];
    let matches = vec![pmatch("to", Some("a@b.c"))];
    let info = MatchingInfo::compute(&matches, &params);
    assert!(info.generate_user_prompt("Send Email").is_none());
}

#[test]
fn test_format_field_request_rules() {
    // long descriptions not starting with "missing parameter" are used
    assert_eq!(
        format_field_request("to", "the recipient email address"),
        "the recipient email address"
    );
    // short descriptions fall back to the normalised name
    assert_eq!(format_field_request("body_text", "body"), "the body text");
    // "missing parameter" descriptions fall back too
    assert_eq!(
        format_field_request("to", "Missing parameter: to field of the email"),
        "the to"
    );
}

#[test]
fn test_default_matching_info_and_usage() {
    let info = create_default_matching_info();
    assert!(matches!(info.status, MatchingStatus::Complete));
    assert_eq!(info.completion_percentage, 100);

    let usage = create_usage_info(30, 12, "anthropic".to_string(), true);
    assert_eq!(usage.total_tokens, 42);
    assert_eq!(usage.model, "anthropic");
    assert!(usage.estimated);
}

#[test]
fn test_debug_parameter_matches_reports_duplicates() {
    let params = vec![
        param("to", "", Some(true)),
        param("subject", "", Some(true)),
        param("to", "copy", Some(true)),
        param("to", "another copy", None),
    ];
    let matches: Vec<ParameterMatch> = vec![];
    let dups = debug_parameter_matches(&matches, &params);
    assert_eq!(dups, vec!["to".to_string(), "to".to_string()]);
    let clean = debug_parameter_matches(&matches, &params[..2].to_vec());
    assert!(clean.is_empty());
}
