//! SMTP account settings and email composition.
use vstd::prelude::*;
use vstd::string::*;

use crate::config::{opt_string_view, AuthMethod};
use crate::registry::Keyed;
use crate::errors::{invalid_view, AppError, AppResult, ErrorKind};
use crate::text::{concat3, lower, strings_view, to_lower, trim, trim_str};

verus! {

/// SMTP connection security mode.
#[derive(Debug, Clone, Copy, PartialEq, Eq, Structural)]
pub enum SmtpSecurity {
    /// Direct TLS connection (typically port 465)
    Tls,
    /// STARTTLS upgrade after plaintext connection (typically port 587)
    Starttls,
    /// Plaintext connection (only for trusted local networks)
    Plain,
}

/// The security mode named by a configuration word, after trimming and lower-casing.
pub open spec fn security_word(w: Seq<char>) -> Option<SmtpSecurity> {
    if w == "tls"@ || w == "ssl"@ {
        Some(SmtpSecurity::Tls)
    } else if w == "starttls"@ {
        Some(SmtpSecurity::Starttls)
    } else if w == "plain"@ || w == "none"@ {
        Some(SmtpSecurity::Plain)
    } else {
        None
    }
}

/// The outcome of [`SmtpSecurity::parse`].
pub open spec fn security_parse(value: Seq<char>) -> Result<SmtpSecurity, (ErrorKind, Seq<char>)> {
    let w = lower(trim(value));
    match security_word(w) {
        Some(s) => Ok(s),
        None => Err(
            invalid_view(
                "unsupported SMTP security mode '"@ + w
                    + "'; expected 'tls', 'starttls', or 'plain'"@,
            ),
        ),
    }
}

/// The view of the result of [`SmtpSecurity::parse`].
pub open spec fn security_result_view(r: AppResult<SmtpSecurity>) -> Result<
    SmtpSecurity,
    (ErrorKind, Seq<char>),
> {
    match r {
        Ok(s) => Ok(s),
        Err(e) => Err(e@),
    }
}

impl SmtpSecurity {
    /// Parse a security mode from a configuration value: `tls`/`ssl`, `starttls`, or
    /// `plain`/`none`, ignoring surrounding whitespace and ASCII case.
    pub fn parse(value: &str) -> (r: AppResult<Self>)
        ensures
            security_result_view(r) == security_parse(value@),
    {
        let t = trim_str(value);
        let w = to_lower(t.as_str());
        if w == String::from_str("tls") || w == String::from_str("ssl") {
            Ok(SmtpSecurity::Tls)
        } else if w == String::from_str("starttls") {
            Ok(SmtpSecurity::Starttls)
        } else if w == String::from_str("plain") || w == String::from_str("none") {
            Ok(SmtpSecurity::Plain)
        } else {
            Err(
                AppError::InvalidInput(
                    concat3(
                        "unsupported SMTP security mode '",
                        w.as_str(),
                        "'; expected 'tls', 'starttls', or 'plain'",
                    ),
                ),
            )
        }
    }
}

/// SMTP account configuration.
pub struct SmtpAccountConfig {
    /// Account identifier (matches the IMAP account_id)
    pub account_id: String,
    /// SMTP server hostname
    pub host: String,
    /// SMTP server port
    pub port: u16,
    /// SMTP username
    pub user: String,
    /// SMTP password (optional when OAuth2 is used)
    pub pass: Option<String>,
    /// Connection security mode
    pub security: SmtpSecurity,
    /// Authentication method
    pub auth_method: AuthMethod,
}

/// The plain values of an [`SmtpAccountConfig`].
pub struct SmtpView {
    pub account_id: Seq<char>,
    pub host: Seq<char>,
    pub port: nat,
    pub user: Seq<char>,
    pub pass: Option<Seq<char>>,
    pub security: SmtpSecurity,
    pub auth_method: AuthMethod,
}

impl View for SmtpAccountConfig {
    type V = SmtpView;

    open spec fn view(&self) -> SmtpView {
        SmtpView {
            account_id: self.account_id@,
            host: self.host@,
            port: self.port as nat,
            user: self.user@,
            pass: opt_string_view(self.pass),
            security: self.security,
            auth_method: self.auth_method,
        }
    }
}

impl Keyed for SmtpAccountConfig {
    open spec fn key_view(&self) -> Seq<char> {
        self.account_id@
    }

    fn key(&self) -> (r: &String) {
        &self.account_id
    }
}

/// Parameters for composing and sending an email.
pub struct EmailComposition {
    pub from: String,
    pub to: Vec<String>,
    pub cc: Vec<String>,
    pub bcc: Vec<String>,
    pub subject: String,
    pub body_text: Option<String>,
    pub body_html: Option<String>,
    pub reply_to: Option<String>,
    pub in_reply_to: Option<String>,
    pub references: Option<String>,
}

/// The plain values of an [`EmailComposition`].
pub struct CompositionView {
    pub from: Seq<char>,
    pub to: Seq<Seq<char>>,
    pub cc: Seq<Seq<char>>,
    pub bcc: Seq<Seq<char>>,
    pub subject: Seq<char>,
    pub body_text: Option<Seq<char>>,
    pub body_html: Option<Seq<char>>,
    pub reply_to: Option<Seq<char>>,
    pub in_reply_to: Option<Seq<char>>,
    pub references: Option<Seq<char>>,
}

impl View for EmailComposition {
    type V = CompositionView;

    open spec fn view(&self) -> CompositionView {
        CompositionView {
            from: self.from@,
            to: strings_view(self.to@),
            cc: strings_view(self.cc@),
            bcc: strings_view(self.bcc@),
            subject: self.subject@,
            body_text: opt_string_view(self.body_text),
            body_html: opt_string_view(self.body_html),
            reply_to: opt_string_view(self.reply_to),
            in_reply_to: opt_string_view(self.in_reply_to),
            references: opt_string_view(self.references),
        }
    }
}

} // verus!
