use semantic::endpoint_client::{extract_essential_path, convert_remote_endpoints_enhanced,
    RemoteParameter, RemoteEndpoint, ApiGroup};
use semantic::path_params::{extract_path_params_from_path, add_path_parameters_to_list};
use semantic::models::EnhancedEndpoint;

#[test]
fn test_essential_path_drops_templated_segments() {
    assert_eq!(extract_essential_path("/users/{id}/posts"), "/users/posts");
    assert_eq!(extract_essential_path("/email/send"), "/email/send");
    assert_eq!(extract_essential_path("/{a}/{b}"), "/");
    assert_eq!(extract_essential_path(""), "/");
}

#[test]
fn test_essential_path_idempotent_on_examples() {
    for path in ["/users/{id}/posts", "/email/send", "/{a}/{b}", "", "/x/{y}"] {
        let once = extract_essential_path(path);
        let twice = extract_essential_path(&once);
        assert_eq!(once, twice);
    }
}

#[test]
fn test_path_params_extraction() {
    assert_eq!(
        extract_path_params_from_path("/users/{user_id}/posts/{post_id}"),
        vec!["user_id".to_string(), "post_id".to_string()]
    );
}

#[test]
fn test_path_without_placeholders_yields_empty_set() {
    let names = extract_path_params_from_path("/email/send");
    assert!(names.is_empty());
    // an unclosed or empty placeholder is not a parameter either
    assert!(extract_path_params_from_path("/a/{unclosed").is_empty());
    assert!(extract_path_params_from_path("/a/{}").is_empty());
}

fn enhanced(path: &str) -> EnhancedEndpoint {
    EnhancedEndpoint {
        id: "get_user".to_string(),
        name: "Get User".to_string(),
        text: "get user".to_string(),
        description: "Fetch a user".to_string(),
        verb: "GET".to_string(),
        base: "api".to_string(),
        path: path.to_string(),
        essential_path: extract_essential_path(path),
        api_group_id: "users".to_string(),
        api_group_name: "User APIs".to_string(),
        parameters: vec![],
    }
}

#[test]
fn test_add_path_parameters_to_list() {
    let endpoint = enhanced("/users/{user_id}");
    let (matches, params) = add_path_parameters_to_list(&endpoint, vec![]);
    assert_eq!(params.len(), 1);
    assert_eq!(params[0].name, "user_id");
    assert_eq!(params[0].description, "URL path parameter: user_id");
    assert_eq!(params[0].required, Some(true));
    assert_eq!(matches.len(), 1);
    assert_eq!(matches[0].name, "user_id");
    assert!(matches[0].value.is_none());
}

#[test]
fn test_convert_remote_endpoints_enhanced() {
    let groups = vec![ApiGroup {
        id: "g1".to_string(),
        name: "Group One".to_string(),
        endpoints: vec![RemoteEndpoint {
            id: "send_email".to_string(),
            text: "Send Email".to_string(),
            description: "Send an email".to_string(),
            verb: "POST".to_string(),
            base: "api".to_string(),
            path: "/email/{account}/send".to_string(),
            parameters: vec![RemoteParameter {
                name: "to".to_string(),
                description: "recipient".to_string(),
                required: "true".to_string(),
                alternatives: vec!["recipient".to_string()],
            }],
        }],
    }];
    let out = convert_remote_endpoints_enhanced(&groups);
    assert_eq!(out.len(), 1);
    let e = &out[0];
    assert_eq!(e.id, "send_email");
    assert_eq!(e.name, "Send Email");
    assert_eq!(e.essential_path, "/email/send");
    assert_eq!(e.api_group_id, "g1");
    assert_eq!(e.api_group_name, "Group One");
    assert_eq!(e.parameters.len(), 1);
    assert_eq!(e.parameters[0].required, Some(true));
    assert_eq!(
        e.parameters[0].alternatives,
        Some(vec!["recipient".to_string()])
    );
}
