use mail_mcp::config::AuthMethod;
use mail_mcp::errors::AppError;
use mail_mcp::smtp::{SmtpAccountConfig, SmtpSecurity};
use mail_mcp::transport::{build_transport, finish_transport, transport_settings};

fn account(security: SmtpSecurity, auth_method: AuthMethod, pass: Option<&str>) -> SmtpAccountConfig {
    SmtpAccountConfig {
        account_id: "work".to_owned(),
        host: "smtp.example.com".to_owned(),
        port: 2525,
        user: "me@example.com".to_owned(),
        pass: pass.map(|p| p.to_owned()),
        security,
        auth_method,
    }
}

fn internal_detail(r: Result<impl Sized, AppError>) -> String {
    match r {
        Err(AppError::Internal(m)) => m,
        Err(other) => panic!("expected an internal error, got {other:?}"),
        Ok(_) => panic!("expected an internal error, got a transport"),
    }
}

#[test]
fn plain_password_account_builds_a_transport() {
    let config = account(SmtpSecurity::Plain, AuthMethod::Password, Some("secret"));
    assert!(build_transport(&config, 30_000, None).is_ok());
}

#[test]
fn plain_account_without_password_builds_a_transport() {
    let config = account(SmtpSecurity::Plain, AuthMethod::Password, None);
    assert!(build_transport(&config, 30_000, None).is_ok());
}

#[test]
fn oauth2_account_is_refused_without_a_token_manager() {
    let config = account(SmtpSecurity::Plain, AuthMethod::OAuth2, None);
    assert_eq!(
        internal_detail(build_transport(&config, 30_000, None)),
        "SMTP account 'work' requires OAuth2 but no token manager available"
    );
}

#[test]
fn builder_errors_carry_the_security_mode() {
    let starttls = account(SmtpSecurity::Starttls, AuthMethod::Password, Some("secret"));
    assert_eq!(
        internal_detail(finish_transport(&starttls, 1000, None, Err("no TLS".to_owned()))),
        "SMTP STARTTLS relay error: no TLS"
    );
    let tls = account(SmtpSecurity::Tls, AuthMethod::OAuth2, None);
    assert_eq!(
        internal_detail(finish_transport(&tls, 1000, None, Err("bad name".to_owned()))),
        "SMTP TLS relay error: bad name"
    );
}

#[test]
fn tls_relay_outcome_is_a_transport_or_a_relay_error() {
    let config = account(SmtpSecurity::Tls, AuthMethod::Password, Some("secret"));
    match build_transport(&config, 30_000, None) {
        Ok(_) => {}
        Err(AppError::Internal(m)) => assert!(m.starts_with("SMTP TLS relay error: ")),
        Err(other) => panic!("unexpected error {other:?}"),
    }
}

#[test]
fn oauth2_account_with_a_token_builds_a_transport() {
    let config = account(SmtpSecurity::Plain, AuthMethod::OAuth2, None);
    assert!(build_transport(&config, 30_000, Some("token")).is_ok());
}

#[test]
fn settings_carry_host_port_timeout_and_credentials() {
    let config = account(SmtpSecurity::Starttls, AuthMethod::Password, Some("secret"));
    let s = transport_settings(&config, 1234, None).expect("settings");
    assert_eq!(s.security, SmtpSecurity::Starttls);
    assert_eq!(s.host, "smtp.example.com");
    assert_eq!(s.port, 2525);
    assert_eq!(s.timeout_ms, 1234);
    assert_eq!(s.credentials, Some(("me@example.com".to_owned(), "secret".to_owned())));
    assert!(!s.xoauth2);

    let no_pass = account(SmtpSecurity::Plain, AuthMethod::Password, None);
    assert_eq!(transport_settings(&no_pass, 1, None).expect("settings").credentials, None);

    let oauth = account(SmtpSecurity::Tls, AuthMethod::OAuth2, None);
    let s = transport_settings(&oauth, 1, Some("tok")).expect("settings");
    assert_eq!(s.credentials, Some(("me@example.com".to_owned(), "tok".to_owned())));
    assert!(s.xoauth2);
    match transport_settings(&oauth, 1, None) {
        Err(AppError::Internal(m)) => {
            assert_eq!(m, "SMTP account 'work' requires OAuth2 but no token manager available")
        }
        _ => panic!("expected the OAuth2 error"),
    }
}
