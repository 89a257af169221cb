use semantic::text::{replace_all, trim, to_lowercase, contains_str, str_eq, is_blank,
    split_char, join_strings};
use semantic::token_calculator::detect_language;
use semantic::prompts::{PromptManager, PromptSet, PromptVersion};
use semantic::response_builders::generate_missing_fields_prompt;

#[test]
fn test_replace_all() {
    assert_eq!(replace_all("hello {name}!", "{name}", "world"), "hello world!");
    assert_eq!(replace_all("a_b_c", "_", "-"), "a-b-c");
    assert_eq!(replace_all("none here", "{x}", "y"), "none here");
}

#[test]
fn test_trim_and_blank() {
    assert_eq!(trim("  hi  "), "hi");
    assert_eq!(trim("\t\n x \r"), "x");
    assert!(is_blank("   "));
    assert!(is_blank(""));
    assert!(!is_blank(" a "));
}

#[test]
fn test_lowercase_and_contains() {
    assert_eq!(to_lowercase("Hello WORLD"), "hello world");
    assert!(contains_str("the ACTIONABLE intent", "ACTIONABLE"));
    assert!(!contains_str("short", "longer needle"));
    assert!(str_eq("abc", "abc"));
    assert!(!str_eq("abc", "abd"));
}

#[test]
fn test_split_and_join() {
    let parts = split_char("/a/{b}/c", '/');
    assert_eq!(parts, vec!["", "a", "{b}", "c"]);
    assert_eq!(join_strings(&parts, '/'), "/a/{b}/c");
}

#[test]
fn test_detect_language() {
    assert_eq!(detect_language("what is the weather"), "en");
    assert_eq!(detect_language("quel est le temps pour demain"), "fr");
    assert_eq!(detect_language("quiero el libro y una pluma"), "es");
    assert_eq!(detect_language("wo ist der Bahnhof und die Post"), "de");
    assert_eq!(detect_language("xyz"), "en");
}

fn registry() -> PromptManager {
    let mut pm = PromptManager::new();
    pm.add_prompt(PromptSet {
        name: "sentence_to_json".to_string(),
        default_version: "v1".to_string(),
        versions: vec![
            PromptVersion { name: "v1".to_string(), template: "v1: {sentence}".to_string() },
            PromptVersion { name: "v2".to_string(), template: "v2: {sentence}".to_string() },
        ],
    });
    pm
}

#[test]
fn test_get_prompt_lookup_and_fallback() {
    let pm = registry();
    assert_eq!(
        pm.get_prompt("sentence_to_json", Some("v2")),
        Some("v2: {sentence}".to_string())
    );
    // an unknown version falls back to the default
    assert_eq!(
        pm.get_prompt("sentence_to_json", Some("v9")),
        Some("v1: {sentence}".to_string())
    );
    // no version requested: the default
    assert_eq!(
        pm.get_prompt("sentence_to_json", None),
        Some("v1: {sentence}".to_string())
    );
    // an unknown prompt name yields nothing
    assert_eq!(pm.get_prompt("unknown", None), None);
}

#[test]
fn test_format_substitutes_placeholders() {
    let pm = registry();
    assert_eq!(
        pm.format_sentence_to_json("send mail", Some("v1")),
        "v1: send mail"
    );
    // unresolved placeholders are left as they are
    let mut pm2 = PromptManager::new();
    pm2.add_prompt(PromptSet {
        name: "sentence_to_json".to_string(),
        default_version: "v1".to_string(),
        versions: vec![PromptVersion {
            name: "v1".to_string(),
            template: "{sentence} and {unknown}".to_string(),
        }],
    });
    assert_eq!(
        pm2.format_sentence_to_json("x", Some("v1")),
        "x and {unknown}"
    );
}

#[test]
fn test_missing_fields_prompt_templates() {
    assert_eq!(
        generate_missing_fields_prompt(&vec![]),
        "All required information has been provided."
    );
    assert_eq!(
        generate_missing_fields_prompt(&vec!["to_address".to_string()]),
        "I need one more piece of information: to address. Could you please provide it?"
    );
    assert_eq!(
        generate_missing_fields_prompt(&vec!["to".to_string(), "subject".to_string()]),
        "I need two more pieces of information: to and subject. Could you provide them?"
    );
    assert_eq!(
        generate_missing_fields_prompt(&vec![
            "to".to_string(),
            "subject".to_string(),
            "body".to_string()
        ]),
        "I need a few more details: to, subject, and body. Could you provide this information?"
    );
}
