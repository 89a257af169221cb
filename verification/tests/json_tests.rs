use semantic::jsonval::{parse_json, JsonNode};
use semantic::match_fields::extract_string_value;
use semantic::sentence_to_json::validate_payload;
use semantic::find_closest_endpoint::resolve_endpoint_id;
use semantic::errors::AnalysisError;
use semantic::models::EnhancedEndpoint;

#[test]
fn test_parse_json_object() {
    let node = parse_json("{\"to\": \"a@b.c\", \"n\": 3, \"flag\": true, \"none\": null}")
        .expect("valid JSON");
    match &node {
        JsonNode::Obj(fields, _) => {
            assert_eq!(fields.len(), 4);
            let field = |name: &str| &fields.iter().find(|f| f.0 == name).unwrap().1;
            assert!(matches!(field("to"), JsonNode::Text(s) if s == "a@b.c"));
            assert!(matches!(field("n"), JsonNode::Scalar(s) if s == "3"));
            assert!(matches!(field("flag"), JsonNode::Scalar(s) if s == "true"));
            assert!(matches!(field("none"), JsonNode::Null));
        }
        other => panic!("expected object, got {:?}", other),
    }
}

#[test]
fn test_parse_json_carries_serialized_text_for_compounds() {
    let node = parse_json("{\"inner\": {\"a\": 1}}").expect("valid JSON");
    match &node {
        JsonNode::Obj(fields, _) => match &fields[0].1 {
            JsonNode::Obj(_, raw) => {
                // the serialized form is handed on as the value
                assert_eq!(raw, "{\"a\":1}");
                assert_eq!(extract_string_value(&fields[0].1), Some("{\"a\":1}".to_string()));
            }
            other => panic!("expected nested object, got {:?}", other),
        },
        other => panic!("expected object, got {:?}", other),
    }
}

#[test]
fn test_parse_json_rejects_invalid_text() {
    assert!(parse_json("not json at all").is_none());
    assert!(parse_json("{\"unterminated\": ").is_none());
}

#[test]
fn test_validate_payload_shape() {
    let good = parse_json("{\"endpoints\": [{\"fields\": {}}]}").unwrap();
    assert!(validate_payload(&good));
    let empty = parse_json("{\"endpoints\": []}").unwrap();
    assert!(!validate_payload(&empty));
    let missing = parse_json("{\"other\": 1}").unwrap();
    assert!(!validate_payload(&missing));
    let not_array = parse_json("{\"endpoints\": 5}").unwrap();
    assert!(!validate_payload(&not_array));
}

fn endpoint(id: &str) -> EnhancedEndpoint {
    EnhancedEndpoint {
        id: id.to_string(),
        name: id.to_string(),
        text: id.to_string(),
        description: format!("{} endpoint", id),
        verb: "POST".to_string(),
        base: "api".to_string(),
        path: format!("/{}", id),
        essential_path: format!("/{}", id),
        api_group_id: "g".to_string(),
        api_group_name: "G".to_string(),
        parameters: vec![],
    }
}

#[test]
fn test_resolve_endpoint_exact_and_fallback() {
    let endpoints = vec![endpoint("send_email"), endpoint("schedule_meeting")];
    // exact id, with surrounding whitespace trimmed
    assert_eq!(resolve_endpoint_id(&endpoints, "  send_email \n").unwrap(), 0);
    // case-insensitive substring fallback, either direction
    assert_eq!(resolve_endpoint_id(&endpoints, "SCHEDULE_MEETING").unwrap(), 1);
    assert_eq!(resolve_endpoint_id(&endpoints, "the schedule_meeting endpoint").unwrap(), 1);
    assert_eq!(resolve_endpoint_id(&endpoints, "schedule").unwrap(), 1);
}

#[test]
fn test_resolve_endpoint_errors() {
    let endpoints = vec![endpoint("send_email")];
    assert!(matches!(
        resolve_endpoint_id(&endpoints, "NO_MATCH"),
        Err(AnalysisError::NoSuitableEndpoint)
    ));
    assert!(matches!(
        resolve_endpoint_id(&endpoints, "launch_rocket"),
        Err(AnalysisError::EndpointNotFound)
    ));
}
