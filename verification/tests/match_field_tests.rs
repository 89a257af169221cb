use semantic::jsonval::JsonNode;
use semantic::match_fields::{extract_string_value, count_unmatched_required_params,
    create_empty_matches, try_direct_matching, combine_semantic_matches,
    extract_fields_from_json};
use semantic::models::EndpointParameter;

fn param(name: &str, description: &str, required: Option<bool>) -> EndpointParameter {
    EndpointParameter {
        name: name.to_string(),
        description: description.to_string(),
        required,
        alternatives: None,
        semantic_value: None,
    }
}

#[test]
fn test_extract_string_value() {
    assert_eq!(
        extract_string_value(&JsonNode::Text("test".to_string())),
        Some("test".to_string())
    );
    assert_eq!(extract_string_value(&JsonNode::Text("".to_string())), None);
    assert_eq!(extract_string_value(&JsonNode::Text("   ".to_string())), None);
    assert_eq!(extract_string_value(&JsonNode::Null), None);

    let obj = JsonNode::Obj(
        vec![("name".to_string(), JsonNode::Text("John".to_string()))],
        "{\"name\":\"John\"}".to_string(),
    );
    let result = extract_string_value(&obj);
    assert!(result.is_some());
    assert!(result.unwrap().contains("John"));
}

#[test]
fn test_count_unmatched_required_params() {
    let params = vec![
        param("required1", "", Some(true)),
        param("optional1", "", Some(false)),
    ];

    let matches = vec![
        ("required1".to_string(), "".to_string(), Some("value".to_string())),
        ("optional1".to_string(), "".to_string(), None),
    ];

    assert_eq!(count_unmatched_required_params(&params, &matches), 0);
}

#[test]
fn test_blank_value_counts_as_unmatched() {
    let params = vec![param("required1", "", Some(true))];
    let matches = vec![
        ("required1".to_string(), "".to_string(), Some("   ".to_string())),
    ];
    assert_eq!(count_unmatched_required_params(&params, &matches), 1);
}

#[test]
fn test_direct_matching_uses_aliases() {
    let mut p = param("to", "recipient", Some(true));
    p.alternatives = Some(vec!["recipient".to_string()]);
    let fields = vec![
        ("recipient".to_string(), JsonNode::Text("a@b.com".to_string())),
    ];
    let matches = try_direct_matching(&vec![p], &fields);
    assert_eq!(matches.len(), 1);
    assert_eq!(matches[0].2, Some("a@b.com".to_string()));
}

#[test]
fn test_direct_match_preferred_over_semantic() {
    let p = param("subject", "subject line", Some(true));
    let direct = vec![
        ("subject".to_string(), "subject line".to_string(), Some("budget".to_string())),
    ];
    let semantic = vec![
        ("subject".to_string(), JsonNode::Text("ignored".to_string())),
    ];
    let combined = combine_semantic_matches(&vec![p], &direct, &semantic);
    assert_eq!(combined.len(), 1);
    assert_eq!(combined[0].2, Some("budget".to_string()));
}

#[test]
fn test_semantic_used_when_direct_is_blank() {
    let p = param("subject", "subject line", Some(true));
    let direct = vec![
        ("subject".to_string(), "subject line".to_string(), Some("  ".to_string())),
    ];
    let semantic = vec![
        ("subject".to_string(), JsonNode::Text("from mapping".to_string())),
    ];
    let combined = combine_semantic_matches(&vec![p], &direct, &semantic);
    assert_eq!(combined[0].2, Some("from mapping".to_string()));
}

#[test]
fn test_create_empty_matches() {
    let params = vec![param("a", "da", Some(true)), param("b", "db", None)];
    let ms = create_empty_matches(&params);
    assert_eq!(ms.len(), 2);
    assert_eq!(ms[0], ("a".to_string(), "da".to_string(), None));
    assert_eq!(ms[1], ("b".to_string(), "db".to_string(), None));
}

#[test]
fn test_extract_fields_unwraps_endpoints_payload() {
    let fields = vec![("to".to_string(), JsonNode::Text("x@y.z".to_string()))];
    let inner = JsonNode::Obj(fields, "{\"to\":\"x@y.z\"}".to_string());
    let first = JsonNode::Obj(
        vec![("fields".to_string(), inner)],
        "{\"fields\":{\"to\":\"x@y.z\"}}".to_string(),
    );
    let payload = JsonNode::Obj(
        vec![
            (
                "endpoints".to_string(),
                JsonNode::Arr(vec![first], "[...]".to_string()),
            ),
        ],
        "{...}".to_string(),
    );
    let extracted = extract_fields_from_json(&payload).expect("fields expected");
    assert_eq!(extracted.0.len(), 1);
    assert_eq!(extracted.0[0].0, "to");
}

#[test]
fn test_extract_fields_plain_object_fallback() {
    let payload = JsonNode::Obj(
        vec![("to".to_string(), JsonNode::Text("x@y.z".to_string()))],
        "{\"to\":\"x@y.z\"}".to_string(),
    );
    let extracted = extract_fields_from_json(&payload).expect("fields expected");
    assert_eq!(extracted.0.len(), 1);
}
