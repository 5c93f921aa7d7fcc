//! Building the `lettre` SMTP transport of an account: relay kind, host, port, timeout
//! and credentials.
use vstd::prelude::*;
use vstd::string::*;

use crate::config::AuthMethod;
use crate::errors::{AppError, AppResult, ErrorKind};
use crate::smtp::{SmtpAccountConfig, SmtpSecurity, SmtpView};
use crate::text::{concat2, concat3};

verus! {

/// The configuration of an SMTP transport being built, of the `lettre` crate.
#[verifier::external_type_specification]
#[verifier::external_body]
pub struct ExSmtpTransportBuilder(lettre::transport::smtp::AsyncSmtpTransportBuilder);

/// The TLS parameters of an SMTP connection, of the `lettre` crate.
#[verifier::external_type_specification]
#[verifier::external_body]
pub struct ExTlsParameters(lettre::transport::smtp::client::TlsParameters);

/// What `AsyncSmtpTransport::builder_dangerous(host)` yields: a builder for an
/// unencrypted connection to `host` on port 25, without credentials.
pub uninterp spec fn lettre_builder_dangerous(host: Seq<char>) -> lettre::transport::smtp::AsyncSmtpTransportBuilder;

/// What `AsyncSmtpTransportBuilder::port(port)` yields: `b` with its port set to `port`.
pub uninterp spec fn lettre_port(
    b: lettre::transport::smtp::AsyncSmtpTransportBuilder,
    port: u16,
) -> lettre::transport::smtp::AsyncSmtpTransportBuilder;

/// What `AsyncSmtpTransportBuilder::tls(Tls::Wrapper(p))` yields: `b` set to open a
/// TLS-wrapped connection with parameters `p`.
pub uninterp spec fn lettre_tls_wrapper(
    b: lettre::transport::smtp::AsyncSmtpTransportBuilder,
    p: lettre::transport::smtp::client::TlsParameters,
) -> lettre::transport::smtp::AsyncSmtpTransportBuilder;

/// What `AsyncSmtpTransportBuilder::tls(Tls::Required(p))` yields: `b` set to upgrade
/// its connection with STARTTLS, with parameters `p`, and to fail where it cannot.
pub uninterp spec fn lettre_tls_required(
    b: lettre::transport::smtp::AsyncSmtpTransportBuilder,
    p: lettre::transport::smtp::client::TlsParameters,
) -> lettre::transport::smtp::AsyncSmtpTransportBuilder;

/// What `AsyncSmtpTransportBuilder::timeout(Some(Duration::from_millis(ms)))` yields:
/// `b` with a command timeout of `ms` milliseconds.
pub uninterp spec fn lettre_timeout(
    b: lettre::transport::smtp::AsyncSmtpTransportBuilder,
    ms: u64,
) -> lettre::transport::smtp::AsyncSmtpTransportBuilder;

/// What `AsyncSmtpTransportBuilder::credentials(Credentials::new(user, secret))` yields:
/// `b` authenticating as `user` with `secret`.
pub uninterp spec fn lettre_credentials(
    b: lettre::transport::smtp::AsyncSmtpTransportBuilder,
    user: Seq<char>,
    secret: Seq<char>,
) -> lettre::transport::smtp::AsyncSmtpTransportBuilder;

/// What `AsyncSmtpTransportBuilder::authentication(vec![Mechanism::Xoauth2])` yields:
/// `b` authenticating with the XOAUTH2 mechanism only.
pub uninterp spec fn lettre_xoauth2(
    b: lettre::transport::smtp::AsyncSmtpTransportBuilder,
) -> lettre::transport::smtp::AsyncSmtpTransportBuilder;

/// `AsyncSmtpTransport::relay(host)`: a builder for a TLS-wrapped connection to `host`
/// on the submissions port 465; on failure (no TLS parameters for `host`) the error's
/// text. Whether it fails rests on the process's TLS setup, so that is not stated; its
/// source shows that a builder it gives is `builder_dangerous(host).port(465)` with TLS
/// wrapping under some parameters.
#[verifier::external_body]
fn tls_relay(host: &str) -> (r: Result<lettre::transport::smtp::AsyncSmtpTransportBuilder, String>)
    ensures
        r matches Ok(b) ==> exists|p: lettre::transport::smtp::client::TlsParameters|
            b == lettre_tls_wrapper(lettre_port(lettre_builder_dangerous(host@), 465), p),
{
    match lettre::AsyncSmtpTransport::<lettre::Tokio1Executor>::relay(host) {
        Ok(b) => Ok(b),
        Err(e) => Err(e.to_string()),
    }
}

/// `AsyncSmtpTransport::starttls_relay(host)`: a builder for a connection to `host` on
/// the submission port 587 upgraded with STARTTLS; on failure the error's text. Whether
/// it fails is not stated (as for [`tls_relay`]); a builder it gives is
/// `builder_dangerous(host).port(587)` with STARTTLS required under some parameters.
#[verifier::external_body]
fn starttls_relay(host: &str) -> (r: Result<lettre::transport::smtp::AsyncSmtpTransportBuilder, String>)
    ensures
        r matches Ok(b) ==> exists|p: lettre::transport::smtp::client::TlsParameters|
            b == lettre_tls_required(lettre_port(lettre_builder_dangerous(host@), 587), p),
{
    match lettre::AsyncSmtpTransport::<lettre::Tokio1Executor>::starttls_relay(host) {
        Ok(b) => Ok(b),
        Err(e) => Err(e.to_string()),
    }
}

/// `AsyncSmtpTransport::builder_dangerous(host)`.
#[verifier::external_body]
fn plain_builder(host: &str) -> (r: lettre::transport::smtp::AsyncSmtpTransportBuilder)
    ensures
        r == lettre_builder_dangerous(host@),
{
    lettre::AsyncSmtpTransport::<lettre::Tokio1Executor>::builder_dangerous(host)
}

/// `AsyncSmtpTransportBuilder::port`.
#[verifier::external_body]
fn builder_port(
    b: lettre::transport::smtp::AsyncSmtpTransportBuilder,
    port: u16,
) -> (r: lettre::transport::smtp::AsyncSmtpTransportBuilder)
    ensures
        r == lettre_port(b, port),
{
    b.port(port)
}

/// `AsyncSmtpTransportBuilder::timeout` with `ms` milliseconds.
#[verifier::external_body]
fn builder_timeout(
    b: lettre::transport::smtp::AsyncSmtpTransportBuilder,
    ms: u64,
) -> (r: lettre::transport::smtp::AsyncSmtpTransportBuilder)
    ensures
        r == lettre_timeout(b, ms),
{
    b.timeout(Some(std::time::Duration::from_millis(ms)))
}

/// `AsyncSmtpTransportBuilder::credentials` with `Credentials::new(user, secret)`.
#[verifier::external_body]
fn builder_credentials(
    b: lettre::transport::smtp::AsyncSmtpTransportBuilder,
    user: String,
    secret: String,
) -> (r: lettre::transport::smtp::AsyncSmtpTransportBuilder)
    ensures
        r == lettre_credentials(b, user@, secret@),
{
    b.credentials(lettre::transport::smtp::authentication::Credentials::new(user, secret))
}

/// `AsyncSmtpTransportBuilder::authentication` with the XOAUTH2 mechanism only.
#[verifier::external_body]
fn builder_xoauth2(
    b: lettre::transport::smtp::AsyncSmtpTransportBuilder,
) -> (r: lettre::transport::smtp::AsyncSmtpTransportBuilder)
    ensures
        r == lettre_xoauth2(b),
{
    b.authentication(vec![lettre::transport::smtp::authentication::Mechanism::Xoauth2])
}

/// The settings of an SMTP transport: the relay kind (by security mode), the host, the
/// port, the command timeout and the credentials, with XOAUTH2 for OAuth2 accounts.
pub struct TransportSettings {
    pub security: SmtpSecurity,
    pub host: String,
    pub port: u16,
    pub timeout_ms: u64,
    pub credentials: Option<(String, String)>,
    pub xoauth2: bool,
}

/// The plain values of [`TransportSettings`].
pub struct SettingsView {
    pub security: SmtpSecurity,
    pub host: Seq<char>,
    pub port: u16,
    pub timeout_ms: u64,
    pub credentials: Option<(Seq<char>, Seq<char>)>,
    pub xoauth2: bool,
}

impl View for TransportSettings {
    type V = SettingsView;

    open spec fn view(&self) -> SettingsView {
        SettingsView {
            security: self.security,
            host: self.host@,
            port: self.port,
            timeout_ms: self.timeout_ms,
            credentials: match self.credentials {
                Some((u, p)) => Some((u@, p@)),
                None => None,
            },
            xoauth2: self.xoauth2,
        }
    }
}

/// The prefix of the error reported when the builder of a TLS mode cannot be made.
pub open spec fn relay_error_prefix(s: SmtpSecurity) -> Seq<char> {
    match s {
        SmtpSecurity::Starttls => "SMTP STARTTLS relay error: "@,
        _ => "SMTP TLS relay error: "@,
    }
}

/// The error detail of an OAuth2 account for which no access token is at hand.
pub open spec fn oauth2_unavailable(account_id: Seq<char>) -> Seq<char> {
    "SMTP account '"@ + account_id + "' requires OAuth2 but no token manager available"@
}

/// The transport settings of account `c` with command timeout `timeout_ms`: the
/// account's security mode, host and port; its user and password where it has a
/// password; for an OAuth2 account its user and the access token `token` with XOAUTH2,
/// and an `Internal` error where there is no token.
pub open spec fn settings_of(c: SmtpView, timeout_ms: u64, token: Option<Seq<char>>) -> Result<
    SettingsView,
    (ErrorKind, Seq<char>),
> {
    match c.auth_method {
        AuthMethod::OAuth2 => match token {
            None => Err((ErrorKind::Internal, oauth2_unavailable(c.account_id))),
            Some(t) => Ok(
                SettingsView {
                    security: c.security,
                    host: c.host,
                    port: c.port as u16,
                    timeout_ms,
                    credentials: Some((c.user, t)),
                    xoauth2: true,
                },
            ),
        },
        AuthMethod::Password => Ok(
            SettingsView {
                security: c.security,
                host: c.host,
                port: c.port as u16,
                timeout_ms,
                credentials: match c.pass {
                    Some(p) => Some((c.user, p)),
                    None => None,
                },
                xoauth2: false,
            },
        ),
    }
}

/// The view of a settings outcome.
pub open spec fn settings_result_view(r: AppResult<TransportSettings>) -> Result<
    SettingsView,
    (ErrorKind, Seq<char>),
> {
    match r {
        Ok(s) => Ok(s@),
        Err(e) => Err(e@),
    }
}

/// The transport settings of `config` with command timeout `timeout_ms`, where
/// `access_token` is the access token of an OAuth2 account (if one could be had).
pub fn transport_settings(
    config: &SmtpAccountConfig,
    timeout_ms: u64,
    access_token: Option<&str>,
) -> (r: AppResult<TransportSettings>)
    ensures
        settings_result_view(r) == settings_of(
            config@,
            timeout_ms,
            match access_token {
                Some(t) => Some(t@),
                None => None,
            },
        ),
{
    let (credentials, xoauth2) = match config.auth_method {
        AuthMethod::OAuth2 => match access_token {
            None => {
                return Err(
                    AppError::Internal(
                        concat3(
                            "SMTP account '",
                            config.account_id.as_str(),
                            "' requires OAuth2 but no token manager available",
                        ),
                    ),
                );
            },
            Some(t) => (Some((config.user.clone(), String::from_str(t))), true),
        },
        AuthMethod::Password => match &config.pass {
            Some(p) => (Some((config.user.clone(), p.clone())), false),
            None => (None, false),
        },
    };
    Ok(
        TransportSettings {
            security: config.security,
            host: config.host.clone(),
            port: config.port,
            timeout_ms,
            credentials,
            xoauth2,
        },
    )
}

/// Builder `b` with settings `s` applied: port, timeout, then the credentials and the
/// XOAUTH2 mechanism where the settings have them.
pub open spec fn configured(
    b: lettre::transport::smtp::AsyncSmtpTransportBuilder,
    s: SettingsView,
) -> lettre::transport::smtp::AsyncSmtpTransportBuilder {
    let b1 = lettre_timeout(lettre_port(b, s.port), s.timeout_ms);
    let b2 = match s.credentials {
        Some((u, p)) => lettre_credentials(b1, u, p),
        None => b1,
    };
    if s.xoauth2 {
        lettre_xoauth2(b2)
    } else {
        b2
    }
}

/// What building the transport of `c` yields, given the outcome `relay` of the builder
/// of its security mode (a builder, or the text of its error).
pub open spec fn transport_outcome(
    c: SmtpView,
    timeout_ms: u64,
    token: Option<Seq<char>>,
    relay: Result<lettre::transport::smtp::AsyncSmtpTransportBuilder, Seq<char>>,
) -> Result<lettre::transport::smtp::AsyncSmtpTransportBuilder, (ErrorKind, Seq<char>)> {
    match relay {
        Err(t) => Err((ErrorKind::Internal, relay_error_prefix(c.security) + t)),
        Ok(b) => match settings_of(c, timeout_ms, token) {
            Err(e) => Err(e),
            Ok(s) => Ok(configured(b, s)),
        },
    }
}

/// Whether `relay` is what the builder of security mode `s` for `host` can give: an
/// unencrypted builder for `host` in `Plain` mode; in `Tls` mode a TLS-wrapped builder
/// on port 465, in `Starttls` mode a STARTTLS builder on port 587 (or an error).
pub open spec fn relay_of_mode(
    s: SmtpSecurity,
    host: Seq<char>,
    relay: Result<lettre::transport::smtp::AsyncSmtpTransportBuilder, Seq<char>>,
) -> bool {
    match s {
        SmtpSecurity::Plain => relay == Ok::<
            lettre::transport::smtp::AsyncSmtpTransportBuilder,
            Seq<char>,
        >(lettre_builder_dangerous(host)),
        SmtpSecurity::Tls => relay matches Ok(b) ==> exists|
            p: lettre::transport::smtp::client::TlsParameters,
        | b == lettre_tls_wrapper(lettre_port(lettre_builder_dangerous(host), 465), p),
        SmtpSecurity::Starttls => relay matches Ok(b) ==> exists|
            p: lettre::transport::smtp::client::TlsParameters,
        | b == lettre_tls_required(lettre_port(lettre_builder_dangerous(host), 587), p),
    }
}

/// The view of a transport build.
pub open spec fn outcome_view(r: AppResult<lettre::transport::smtp::AsyncSmtpTransportBuilder>) -> Result<
    lettre::transport::smtp::AsyncSmtpTransportBuilder,
    (ErrorKind, Seq<char>),
> {
    match r {
        Ok(b) => Ok(b),
        Err(e) => Err(e@),
    }
}

/// The view of a builder outcome.
pub open spec fn builder_view(
    b: Result<lettre::transport::smtp::AsyncSmtpTransportBuilder, String>,
) -> Result<lettre::transport::smtp::AsyncSmtpTransportBuilder, Seq<char>> {
    match b {
        Ok(x) => Ok(x),
        Err(t) => Err(t@),
    }
}

/// The view of an optional access token.
pub open spec fn token_view(t: Option<&str>) -> Option<Seq<char>> {
    match t {
        Some(s) => Some(s@),
        None => None,
    }
}

/// Finish the transport of `config` from the builder made for its security mode: a
/// builder error is reported as `Internal` with the mode's prefix; otherwise the
/// settings of [`transport_settings`] are applied to the builder.
pub fn finish_transport(
    config: &SmtpAccountConfig,
    timeout_ms: u64,
    access_token: Option<&str>,
    builder: Result<lettre::transport::smtp::AsyncSmtpTransportBuilder, String>,
) -> (r: AppResult<lettre::transport::smtp::AsyncSmtpTransportBuilder>)
    ensures
        outcome_view(r) == transport_outcome(
            config@,
            timeout_ms,
            token_view(access_token),
            builder_view(builder),
        ),
{
    let b = match builder {
        Ok(b) => b,
        Err(t) => {
            let prefix = match config.security {
                SmtpSecurity::Starttls => "SMTP STARTTLS relay error: ",
                _ => "SMTP TLS relay error: ",
            };
            return Err(AppError::Internal(concat2(prefix, t.as_str())));
        },
    };
    let settings = match transport_settings(config, timeout_ms, access_token) {
        Ok(s) => s,
        Err(e) => {
            return Err(e);
        },
    };
    let b = builder_timeout(builder_port(b, settings.port), settings.timeout_ms);
    let xoauth2 = settings.xoauth2;
    let b = match settings.credentials {
        Some((user, secret)) => builder_credentials(b, user, secret),
        None => b,
    };
    if xoauth2 {
        Ok(builder_xoauth2(b))
    } else {
        Ok(b)
    }
}

/// The SMTP transport of `config` (a builder whose `build` gives the transport), with a
/// command timeout of `timeout_ms` and, for an OAuth2 account, the access token
/// `access_token`: a TLS-wrapped relay, a STARTTLS relay or an unencrypted connection
/// by the security mode, then [`finish_transport`].
pub fn build_transport(
    config: &SmtpAccountConfig,
    timeout_ms: u64,
    access_token: Option<&str>,
) -> (r: AppResult<lettre::transport::smtp::AsyncSmtpTransportBuilder>)
    ensures
        exists|relay: Result<lettre::transport::smtp::AsyncSmtpTransportBuilder, Seq<char>>|
            relay_of_mode(config@.security, config@.host, relay) && outcome_view(r)
                == transport_outcome(config@, timeout_ms, token_view(access_token), relay),
{
    let builder = match config.security {
        SmtpSecurity::Starttls => starttls_relay(config.host.as_str()),
        SmtpSecurity::Tls => tls_relay(config.host.as_str()),
        SmtpSecurity::Plain => Ok(plain_builder(config.host.as_str())),
    };
    let r = finish_transport(config, timeout_ms, access_token, builder);
    assert(relay_of_mode(config@.security, config@.host, builder_view(builder)));
    r
}

} // verus!
