use mail_mcp::config::{
    parse_bool_value, parse_unsigned, sanitize_segment, AuthMethod, OAuth2Provider, ServerConfig,
};
use mail_mcp::env::EnvMap;
use mail_mcp::errors::ErrorKind;
use mail_mcp::smtp::SmtpSecurity;

fn env_of(pairs: &[(&str, &str)]) -> EnvMap {
    let mut env = EnvMap::new();
    for (k, v) in pairs {
        env.insert(k.to_string(), v.to_string());
    }
    env
}

#[test]
fn parse_bool_value_accepts_common_truthy_and_falsy_values() {
    for truthy in ["1", "true", "TRUE", " yes ", "Y", "on"] {
        assert_eq!(parse_bool_value(truthy), Some(true));
    }

    for falsy in ["0", "false", "FALSE", " no ", "N", "off"] {
        assert_eq!(parse_bool_value(falsy), Some(false));
    }
}

#[test]
fn parse_bool_value_rejects_unrecognized_values() {
    for invalid in ["", "2", "maybe", "enabled", "disabled"] {
        assert_eq!(parse_bool_value(invalid), None);
    }
}

#[test]
fn bool_value_ignores_surrounding_whitespace_and_case() {
    assert_eq!(parse_bool_value("\tOn\n"), Some(true));
    assert_eq!(parse_bool_value("  OFF  "), Some(false));
    assert_eq!(parse_bool_value("Yes"), parse_bool_value(" yes "));
}

#[test]
fn unsigned_parsing_follows_integer_parse() {
    assert_eq!(parse_unsigned("993", 65535), Some(993));
    assert_eq!(parse_unsigned("+587", 65535), Some(587));
    assert_eq!(parse_unsigned("65535", 65535), Some(65535));
    assert_eq!(parse_unsigned("65536", 65535), None);
    assert_eq!(parse_unsigned("", 65535), None);
    assert_eq!(parse_unsigned("+", 65535), None);
    assert_eq!(parse_unsigned("-1", 65535), None);
    assert_eq!(parse_unsigned(" 1", 65535), None);
    assert_eq!(parse_unsigned("18446744073709551615", u64::MAX), Some(u64::MAX));
    assert_eq!(parse_unsigned("18446744073709551616", u64::MAX), None);
}

#[test]
fn sanitize_segment_uppercases_and_trims_underscores() {
    assert_eq!(sanitize_segment("work-mail"), "WORK_MAIL");
    assert_eq!(sanitize_segment("__a.b__"), "A_B");
    assert_eq!(sanitize_segment("--"), "");
    assert_eq!(sanitize_segment(&sanitize_segment("x y-z")), sanitize_segment("x y-z"));
}

#[test]
fn loads_default_account_with_defaults() {
    let env = env_of(&[
        ("MAIL_IMAP_DEFAULT_HOST", "imap.example.com"),
        ("MAIL_IMAP_DEFAULT_USER", "user@example.com"),
        ("MAIL_IMAP_DEFAULT_PASS", "secret"),
    ]);
    let config = ServerConfig::load_from_env(&env).expect("config loads");
    let account = config.get_account("default").expect("default account");
    assert_eq!(account.host, "imap.example.com");
    assert_eq!(account.user, "user@example.com");
    assert_eq!(account.pass.as_deref(), Some("secret"));
    assert_eq!(account.port, 993);
    assert!(account.secure);
    assert_eq!(account.auth_method, AuthMethod::Password);
    assert!(!config.write_enabled);
    assert!(!config.smtp_write_enabled);
    assert!(config.smtp_save_sent);
    assert_eq!(config.smtp_timeout_ms, 30000);
    assert_eq!(config.connect_timeout_ms, 30000);
    assert_eq!(config.greeting_timeout_ms, 15000);
    assert_eq!(config.socket_timeout_ms, 300000);
    assert_eq!(config.cursor_ttl_seconds, 600);
    assert_eq!(config.cursor_max_entries, 512);
}

#[test]
fn missing_default_account_names_the_missing_variable() {
    let env = env_of(&[]);
    let err = ServerConfig::load_from_env(&env).err().expect("must fail");
    assert_eq!(err.code(), "invalid_input");
    assert_eq!(
        err.detail(),
        "No IMAP accounts configured. Set MAIL_IMAP_<ID>_HOST/USER/PASS.\nmail-imap-mcp-rs startup error: missing HOST."
    );
}

#[test]
fn missing_password_without_oauth2_is_refused() {
    let env = env_of(&[
        ("MAIL_IMAP_WORK_HOST", "imap.example.com"),
        ("MAIL_IMAP_WORK_USER", "user@example.com"),
    ]);
    let err = ServerConfig::load_from_env(&env).err().expect("must fail");
    assert!(err.detail().ends_with("missing PASS."));
}

#[test]
fn discovers_several_accounts_in_order() {
    let env = env_of(&[
        ("MAIL_IMAP_WORK_HOST", "imap.work.example"),
        ("MAIL_IMAP_WORK_USER", "w@example.com"),
        ("MAIL_IMAP_WORK_PASS", "pw"),
        ("MAIL_IMAP_WORK_PORT", "143"),
        ("MAIL_IMAP_WORK_SECURE", "no"),
        ("MAIL_IMAP_HOME_HOST", "imap.home.example"),
        ("MAIL_IMAP_HOME_USER", "h@example.com"),
        ("MAIL_IMAP_HOME_PASS", "pw2"),
        ("MAIL_IMAP_WRITE_ENABLED", "true"),
    ]);
    let config = ServerConfig::load_from_env(&env).expect("config loads");
    let ids: Vec<&str> = config.accounts.entries().iter().map(|a| a.account_id.as_str()).collect();
    assert_eq!(ids, vec!["home", "work"]);
    let work = config.get_account("work").expect("work");
    assert_eq!(work.port, 143);
    assert!(!work.secure);
    assert!(config.write_enabled);
    assert!(config.get_account("default").is_err());
}

#[test]
fn unknown_account_is_not_found() {
    let env = env_of(&[
        ("MAIL_IMAP_DEFAULT_HOST", "h"),
        ("MAIL_IMAP_DEFAULT_USER", "u"),
        ("MAIL_IMAP_DEFAULT_PASS", "p"),
    ]);
    let config = ServerConfig::load_from_env(&env).expect("config loads");
    let err = config.get_account("other").err().expect("must fail");
    assert_eq!(err.code(), "not_found");
    assert_eq!(err.detail(), "IMAP account 'other' is not configured");
    let err = config.get_smtp_account("default").err().expect("must fail");
    assert_eq!(err.detail(), "SMTP account 'default' is not configured");
}

#[test]
fn invalid_port_is_reported_with_its_variable() {
    let env = env_of(&[
        ("MAIL_IMAP_DEFAULT_HOST", "h"),
        ("MAIL_IMAP_DEFAULT_USER", "u"),
        ("MAIL_IMAP_DEFAULT_PASS", "p"),
        ("MAIL_IMAP_DEFAULT_PORT", "70000"),
    ]);
    let err = ServerConfig::load_from_env(&env).err().expect("must fail");
    assert_eq!(err.detail(), "invalid u16 environment variable MAIL_IMAP_DEFAULT_PORT: '70000'");
}

#[test]
fn invalid_global_setting_is_reported() {
    let env = env_of(&[
        ("MAIL_IMAP_DEFAULT_HOST", "h"),
        ("MAIL_IMAP_DEFAULT_USER", "u"),
        ("MAIL_IMAP_DEFAULT_PASS", "p"),
        ("MAIL_IMAP_WRITE_ENABLED", "perhaps"),
    ]);
    let err = ServerConfig::load_from_env(&env).err().expect("must fail");
    assert_eq!(err.detail(), "invalid boolean environment variable MAIL_IMAP_WRITE_ENABLED: 'perhaps'");
    let env = env_of(&[
        ("MAIL_IMAP_DEFAULT_HOST", "h"),
        ("MAIL_IMAP_DEFAULT_USER", "u"),
        ("MAIL_IMAP_DEFAULT_PASS", "p"),
        ("MAIL_IMAP_CURSOR_MAX_ENTRIES", "many"),
    ]);
    let err = ServerConfig::load_from_env(&env).err().expect("must fail");
    assert_eq!(err.detail(), "invalid usize environment variable MAIL_IMAP_CURSOR_MAX_ENTRIES: 'many'");
}

#[test]
fn oauth2_account_makes_password_optional() {
    let env = env_of(&[
        ("MAIL_OAUTH2_DEFAULT_PROVIDER", " Google "),
        ("MAIL_OAUTH2_DEFAULT_CLIENT_ID", "cid"),
        ("MAIL_OAUTH2_DEFAULT_CLIENT_SECRET", "csecret"),
        ("MAIL_OAUTH2_DEFAULT_REFRESH_TOKEN", "rtoken"),
        ("MAIL_IMAP_DEFAULT_HOST", "imap.gmail.com"),
        ("MAIL_IMAP_DEFAULT_USER", "me@gmail.com"),
    ]);
    let config = ServerConfig::load_from_env(&env).expect("config loads");
    let account = config.get_account("default").expect("default");
    assert_eq!(account.auth_method, AuthMethod::OAuth2);
    assert!(account.pass.is_none());
    let oauth = config.oauth2_accounts.get("default").expect("oauth2 config");
    assert_eq!(oauth.provider, OAuth2Provider::Google);
    assert_eq!(oauth.refresh_token, "rtoken");
}

#[test]
fn oauth2_account_with_missing_secret_is_refused() {
    let env = env_of(&[
        ("MAIL_OAUTH2_WORK_PROVIDER", "microsoft"),
        ("MAIL_OAUTH2_WORK_CLIENT_ID", "cid"),
        ("MAIL_OAUTH2_WORK_REFRESH_TOKEN", "rt"),
    ]);
    let err = ServerConfig::load_from_env(&env).err().expect("must fail");
    assert_eq!(err.detail(), "OAuth2 account 'work' is missing MAIL_OAUTH2_WORK_CLIENT_SECRET");
}

#[test]
fn unsupported_oauth2_provider_is_refused() {
    let env = env_of(&[("MAIL_OAUTH2_WORK_PROVIDER", "Yahoo")]);
    let err = ServerConfig::load_from_env(&env).err().expect("must fail");
    assert_eq!(err.detail(), "unsupported OAuth2 provider 'yahoo'; expected 'google' or 'microsoft'");
    assert_eq!(OAuth2Provider::parse("MICROSOFT").expect("parses"), OAuth2Provider::Microsoft);
}

#[test]
fn loads_smtp_account_with_defaults_and_security() {
    let env = env_of(&[
        ("MAIL_IMAP_DEFAULT_HOST", "h"),
        ("MAIL_IMAP_DEFAULT_USER", "u"),
        ("MAIL_IMAP_DEFAULT_PASS", "p"),
        ("MAIL_SMTP_DEFAULT_HOST", "smtp.example.com"),
        ("MAIL_SMTP_DEFAULT_USER", "u@example.com"),
        ("MAIL_SMTP_WORK_HOST", "smtp.work.example"),
        ("MAIL_SMTP_WORK_USER", "w@example.com"),
        ("MAIL_SMTP_WORK_PASS", "pw"),
        ("MAIL_SMTP_WORK_PORT", "465"),
        ("MAIL_SMTP_WORK_SECURE", "SSL"),
        ("MAIL_SMTP_WRITE_ENABLED", "1"),
    ]);
    let config = ServerConfig::load_from_env(&env).expect("config loads");
    let default = config.get_smtp_account("default").expect("default smtp");
    assert_eq!(default.port, 587);
    assert_eq!(default.security, SmtpSecurity::Starttls);
    assert!(default.pass.is_none());
    let work = config.get_smtp_account("work").expect("work smtp");
    assert_eq!(work.port, 465);
    assert_eq!(work.security, SmtpSecurity::Tls);
    assert_eq!(work.pass.as_deref(), Some("pw"));
    assert!(config.smtp_write_enabled);
}

#[test]
fn smtp_account_without_user_is_refused() {
    let env = env_of(&[
        ("MAIL_IMAP_DEFAULT_HOST", "h"),
        ("MAIL_IMAP_DEFAULT_USER", "u"),
        ("MAIL_IMAP_DEFAULT_PASS", "p"),
        ("MAIL_SMTP_OUT_HOST", "smtp.example.com"),
    ]);
    let err = ServerConfig::load_from_env(&env).err().expect("must fail");
    assert_eq!(err.detail(), "SMTP account 'out' is missing MAIL_SMTP_OUT_USER");
    assert_eq!(err.code(), "invalid_input");
}

#[test]
fn blank_values_count_as_missing() {
    let env = env_of(&[
        ("MAIL_IMAP_DEFAULT_HOST", "   "),
        ("MAIL_IMAP_DEFAULT_USER", "u"),
        ("MAIL_IMAP_DEFAULT_PASS", "p"),
    ]);
    let err = ServerConfig::load_from_env(&env).err().expect("must fail");
    assert!(err.detail().ends_with("missing HOST."));
}

#[test]
fn error_kinds_report_their_codes() {
    let env = env_of(&[]);
    let err = ServerConfig::load_from_env(&env).err().expect("must fail");
    assert_eq!(err.retryable(), false);
    assert_eq!(
        format!("{:?}", ErrorKind::InvalidInput),
        "InvalidInput"
    );
}
