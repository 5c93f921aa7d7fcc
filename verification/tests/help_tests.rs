use mail_mcp::env::EnvMap;
use mail_mcp::help::{
    build_help_output, discover_account_sections, is_secret_key, redact_value, should_print_help,
};

#[test]
fn detects_short_and_long_help_flags() {
    assert!(should_print_help(&["-h"]));
    assert!(should_print_help(&["--help"]));
    assert!(should_print_help(&["--verbose", "-h"]));
    assert!(!should_print_help(&["--verbose"]));
}

#[test]
fn discovers_account_sections_from_env_like_keys() {
    let mut env_map = EnvMap::new();
    env_map.insert(
        "MAIL_IMAP_DEFAULT_HOST".to_owned(),
        "imap.example.com".to_owned(),
    );
    env_map.insert(
        "MAIL_IMAP_WORK_USER".to_owned(),
        "work@example.com".to_owned(),
    );
    env_map.insert("MAIL_IMAP_WORK_PASS".to_owned(), "secret".to_owned());
    env_map.insert("MAIL_IMAP_WRITE_ENABLED".to_owned(), "true".to_owned());

    assert_eq!(
        discover_account_sections(&env_map),
        vec!["DEFAULT".to_owned(), "WORK".to_owned()]
    );
}

#[test]
fn redacts_secret_values_and_marks_unset() {
    assert_eq!(
        redact_value("MAIL_IMAP_DEFAULT_PASS", Some("abc")),
        "<redacted>"
    );
    assert_eq!(redact_value("MAIL_IMAP_DEFAULT_HOST", Some("imap")), "imap");
    assert_eq!(redact_value("MAIL_IMAP_DEFAULT_USER", None), "<unset>");
}

#[test]
fn redacts_empty_values_as_empty() {
    assert_eq!(redact_value("MAIL_IMAP_DEFAULT_PASS", Some("")), "<empty>");
    assert_eq!(redact_value("MAIL_IMAP_DEFAULT_HOST", Some("")), "<empty>");
}

#[test]
fn detects_secret_keys_case_insensitively() {
    assert!(is_secret_key("mail_imap_default_pass"));
    assert!(is_secret_key("MAIL_IMAP_API_TOKEN"));
    assert!(!is_secret_key("MAIL_IMAP_DEFAULT_HOST"));
}

#[test]
fn help_output_includes_policy_defaults_and_redaction() {
    let mut env_map = EnvMap::new();
    env_map.insert(
        "MAIL_IMAP_DEFAULT_HOST".to_owned(),
        "imap.example.com".to_owned(),
    );
    env_map.insert(
        "MAIL_IMAP_DEFAULT_USER".to_owned(),
        "user@example.com".to_owned(),
    );
    env_map.insert("MAIL_IMAP_DEFAULT_PASS".to_owned(), "top-secret".to_owned());

    let help = build_help_output(&env_map);
    assert!(help.contains("Global policy defaults"));
    assert!(help.contains("MAIL_IMAP_WRITE_ENABLED=false"));
    assert!(help.contains("Send/write gate policy"));
    assert!(help.contains("MAIL_IMAP_DEFAULT_PASS=<redacted>"));
}

#[test]
fn help_output_without_sections_says_none_discovered() {
    let env_map = EnvMap::new();
    let help = build_help_output(&env_map);
    assert!(help.starts_with("mail-imap-mcp-rs\n"));
    assert!(help.contains("  (none discovered)\n"));
    assert!(!help.contains("[DEFAULT]"));
}

#[test]
fn help_output_lists_each_section_variable() {
    let mut env_map = EnvMap::new();
    env_map.insert("MAIL_IMAP_WORK_HOST".to_owned(), "imap.work".to_owned());
    let help = build_help_output(&env_map);
    assert!(help.contains("  [WORK]\n    MAIL_IMAP_WORK_HOST=imap.work\n    MAIL_IMAP_WORK_USER=<unset>\n"));
    assert!(help.contains("    MAIL_IMAP_WORK_SECURE=<unset>\n"));
}

#[test]
fn env_map_insert_replaces_earlier_value() {
    let mut env_map = EnvMap::new();
    env_map.insert("K".to_owned(), "1".to_owned());
    env_map.insert("K".to_owned(), "2".to_owned());
    assert_eq!(env_map.get("K").map(|s| s.as_str()), Some("2"));
    assert_eq!(env_map.keys(), vec!["K".to_owned()]);
    assert!(env_map.get("other").is_none());
}

#[test]
fn help_output_does_not_depend_on_secret_values() {
    let help_with = |pass: &str| {
        let mut env_map = EnvMap::new();
        env_map.insert("MAIL_IMAP_WORK_HOST".to_owned(), "imap.work".to_owned());
        env_map.insert("MAIL_IMAP_WORK_PASS".to_owned(), pass.to_owned());
        build_help_output(&env_map)
    };
    assert_eq!(help_with("first-secret"), help_with("second"));
    assert!(help_with("first-secret").contains("MAIL_IMAP_WORK_PASS=<redacted>"));
    assert!(!help_with("first-secret").contains("first-secret"));
}
