use semantic::models::EnhancedEndpoint;
use semantic::help_response_handler::create_capabilities_list;

fn endpoint(
    id: &str,
    name: &str,
    text: &str,
    description: &str,
    verb: &str,
    base: &str,
    path: &str,
    essential_path: &str,
    api_group_id: &str,
    api_group_name: &str,
) -> EnhancedEndpoint {
    EnhancedEndpoint {
        id: id.to_string(),
        name: name.to_string(),
        text: text.to_string(),
        description: description.to_string(),
        verb: verb.to_string(),
        base: base.to_string(),
        path: path.to_string(),
        essential_path: essential_path.to_string(),
        api_group_id: api_group_id.to_string(),
        api_group_name: api_group_name.to_string(),
        parameters: vec![],
    }
}

#[test]
fn test_create_capabilities_list() {
    let endpoints = vec![
        endpoint(
            "send_email",
            "Send Email",
            "send email",
            "Send an email with attachments",
            "POST",
            "api",
            "/email/send",
            "/email/send",
            "communication",
            "Communication APIs",
        ),
        endpoint(
            "schedule_meeting",
            "Schedule Meeting",
            "schedule meeting",
            "Schedule a meeting or appointment",
            "POST",
            "api",
            "/calendar/schedule",
            "/calendar/schedule",
            "calendar",
            "Calendar APIs",
        ),
    ];

    let result = create_capabilities_list(&endpoints);
    assert!(result.contains("Send emails"));
    assert!(result.contains("Schedule meetings"));
}

#[test]
fn test_empty_endpoints() {
    let endpoints = vec![];
    let result = create_capabilities_list(&endpoints);
    assert_eq!(result, "No capabilities currently available.");
}

#[test]
fn test_capabilities_sorted_and_deduplicated() {
    let endpoints = vec![
        endpoint("z_op", "Zip", "zip", "Compress things", "POST", "api", "/z", "/z", "g", "G"),
        endpoint("a_op", "Arc", "arc", "Archive things", "POST", "api", "/a", "/a", "g", "G"),
        endpoint("z_op", "Zip", "zip", "Compress things", "POST", "api", "/z", "/z", "g", "G"),
    ];
    let result = create_capabilities_list(&endpoints);
    let lines: Vec<&str> = result.split('\n').collect();
    assert_eq!(lines.len(), 2);
    assert_eq!(lines[0], "• Arc (Archive things)");
    assert_eq!(lines[1], "• Zip (Compress things)");
}
