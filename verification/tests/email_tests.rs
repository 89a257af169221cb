use semantic::email::{is_email, validate_email};
use semantic::errors::{AnalysisError, StatusKind};
use semantic::sentence_service::{get_email_validated, get_client_id, validate_message};

#[test]
fn test_valid_emails() {
    assert!(is_email("user@example.com"));
    assert!(is_email("first.last+tag@sub.domain.org"));
    assert!(is_email("a_b%c@x-y.co"));
}

#[test]
fn test_invalid_emails() {
    assert!(!is_email(""));
    assert!(!is_email("plainaddress"));
    assert!(!is_email("@example.com"));
    assert!(!is_email("user@"));
    assert!(!is_email("user@example"));
    assert!(!is_email("user@example.c"));
    assert!(!is_email("user@@example.com"));
    assert!(!is_email("user@exa mple.com"));
    assert!(!is_email("user@example.c0m"));
}

#[test]
fn test_validate_email_error_kind() {
    assert!(validate_email("user@example.com").is_ok());
    assert!(matches!(
        validate_email("nope"),
        Err(AnalysisError::InvalidEmail)
    ));
}

#[test]
fn test_missing_email_metadata_is_rejected() {
    // a call without the email header is rejected before any further work
    assert_eq!(get_email_validated(None), Err(StatusKind::InvalidArgument));
    assert_eq!(
        get_email_validated(Some("not-an-email")),
        Err(StatusKind::InvalidArgument)
    );
    assert_eq!(
        get_email_validated(Some("user@example.com")),
        Ok("user@example.com".to_string())
    );
}

#[test]
fn test_client_id_default() {
    assert_eq!(get_client_id(None), "unknown-client");
    assert_eq!(get_client_id(Some("cli-7")), "cli-7");
}

#[test]
fn test_empty_message_rejected() {
    assert_eq!(validate_message("   "), Err(StatusKind::InvalidArgument));
    assert_eq!(validate_message(""), Err(StatusKind::InvalidArgument));
    assert!(validate_message("hello").is_ok());
}
