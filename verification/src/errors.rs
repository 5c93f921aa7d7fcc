//! Application error model and its mapping to MCP protocol errors.
use vstd::prelude::*;
use vstd::string::*;

use crate::text::concat2;

verus! {

/// The kind of an [`AppError`], used to speak of errors in contracts.
#[derive(PartialEq, Eq, Debug, Clone, Copy)]
pub enum ErrorKind {
    InvalidInput,
    NotFound,
    AuthFailed,
    Timeout,
    Conflict,
    TokenRefresh,
    Internal,
}

/// Application error type.
///
/// Each variant carries a human-readable detail message and maps to an MCP
/// error type (see [`AppError::rpc_error_kind`]).
#[derive(Debug)]
pub enum AppError {
    /// Invalid user input (validation failed, malformed request)
    InvalidInput(String),
    /// Resource not found (account, mailbox, message)
    NotFound(String),
    /// Authentication failure (bad credentials, account disabled)
    AuthFailed(String),
    /// Operation timeout (TCP connect, TLS handshake, IMAP response)
    Timeout(String),
    /// Conflict (mailbox UIDVALIDITY changed, state inconsistent)
    Conflict(String),
    /// OAuth2 token refresh failure
    TokenRefresh(String),
    /// Internal error (unexpected failure, outside crate error)
    Internal(String),
}

/// Result type used throughout the library.
pub type AppResult<T> = Result<T, AppError>;

impl View for AppError {
    type V = (ErrorKind, Seq<char>);

    open spec fn view(&self) -> (ErrorKind, Seq<char>) {
        match self {
            AppError::InvalidInput(m) => (ErrorKind::InvalidInput, m@),
            AppError::NotFound(m) => (ErrorKind::NotFound, m@),
            AppError::AuthFailed(m) => (ErrorKind::AuthFailed, m@),
            AppError::Timeout(m) => (ErrorKind::Timeout, m@),
            AppError::Conflict(m) => (ErrorKind::Conflict, m@),
            AppError::TokenRefresh(m) => (ErrorKind::TokenRefresh, m@),
            AppError::Internal(m) => (ErrorKind::Internal, m@),
        }
    }
}

/// The view of an `InvalidInput` error with detail `msg`.
pub open spec fn invalid_view(msg: Seq<char>) -> (ErrorKind, Seq<char>) {
    (ErrorKind::InvalidInput, msg)
}

/// The structured code string of an error kind.
pub open spec fn kind_code(k: ErrorKind) -> Seq<char> {
    match k {
        ErrorKind::InvalidInput => "invalid_input"@,
        ErrorKind::NotFound => "not_found"@,
        ErrorKind::AuthFailed => "auth_failed"@,
        ErrorKind::Timeout => "timeout"@,
        ErrorKind::Conflict => "conflict"@,
        ErrorKind::TokenRefresh => "token_refresh_failed"@,
        ErrorKind::Internal => "internal"@,
    }
}

/// Whether an operation that failed with this kind may succeed when retried.
pub open spec fn kind_retryable(k: ErrorKind) -> bool {
    k == ErrorKind::Timeout || k == ErrorKind::TokenRefresh || k == ErrorKind::Internal
}

/// The prefix of the rendered message of an error kind.
pub open spec fn kind_prefix(k: ErrorKind) -> Seq<char> {
    match k {
        ErrorKind::InvalidInput => "invalid input: "@,
        ErrorKind::NotFound => "not found: "@,
        ErrorKind::AuthFailed => "authentication failed: "@,
        ErrorKind::Timeout => "operation timed out: "@,
        ErrorKind::Conflict => "conflict: "@,
        ErrorKind::TokenRefresh => "token refresh failed: "@,
        ErrorKind::Internal => "internal error: "@,
    }
}

/// The MCP error type an application error is reported as.
#[derive(PartialEq, Eq, Debug, Clone, Copy)]
pub enum RpcErrorKind {
    InvalidParams,
    ResourceNotFound,
    InvalidRequest,
    InternalError,
}

/// The MCP error type of each error kind.
pub open spec fn kind_rpc(k: ErrorKind) -> RpcErrorKind {
    match k {
        ErrorKind::InvalidInput => RpcErrorKind::InvalidParams,
        ErrorKind::NotFound => RpcErrorKind::ResourceNotFound,
        ErrorKind::AuthFailed => RpcErrorKind::InvalidRequest,
        ErrorKind::Timeout => RpcErrorKind::InternalError,
        ErrorKind::Conflict => RpcErrorKind::InvalidRequest,
        ErrorKind::TokenRefresh => RpcErrorKind::InvalidRequest,
        ErrorKind::Internal => RpcErrorKind::InternalError,
    }
}

impl AppError {
    /// Convenience constructor for `InvalidInput`.
    pub fn invalid(msg: &str) -> (r: Self)
        ensures
            r@ == invalid_view(msg@),
    {
        AppError::InvalidInput(String::from_str(msg))
    }

    /// The detail message carried by the error.
    pub fn detail(&self) -> (r: &String)
        ensures
            r@ == self@.1,
    {
        match self {
            AppError::InvalidInput(m) => m,
            AppError::NotFound(m) => m,
            AppError::AuthFailed(m) => m,
            AppError::Timeout(m) => m,
            AppError::Conflict(m) => m,
            AppError::TokenRefresh(m) => m,
            AppError::Internal(m) => m,
        }
    }

    /// The structured error code reported to clients (e.g. `invalid_input`).
    pub fn code(&self) -> (r: &'static str)
        ensures
            r@ == kind_code(self@.0),
    {
        match self {
            AppError::InvalidInput(_) => "invalid_input",
            AppError::NotFound(_) => "not_found",
            AppError::AuthFailed(_) => "auth_failed",
            AppError::Timeout(_) => "timeout",
            AppError::Conflict(_) => "conflict",
            AppError::TokenRefresh(_) => "token_refresh_failed",
            AppError::Internal(_) => "internal",
        }
    }

    /// Whether the failed operation may succeed when retried.
    pub fn retryable(&self) -> (r: bool)
        ensures
            r == kind_retryable(self@.0),
    {
        match self {
            AppError::Timeout(_) | AppError::TokenRefresh(_) | AppError::Internal(_) => true,
            _ => false,
        }
    }

    /// The rendered message: a kind prefix such as `invalid input: ` followed by the detail.
    pub fn message_text(&self) -> (r: String)
        ensures
            r@ == kind_prefix(self@.0) + self@.1,
    {
        let prefix = match self {
            AppError::InvalidInput(_) => "invalid input: ",
            AppError::NotFound(_) => "not found: ",
            AppError::AuthFailed(_) => "authentication failed: ",
            AppError::Timeout(_) => "operation timed out: ",
            AppError::Conflict(_) => "conflict: ",
            AppError::TokenRefresh(_) => "token refresh failed: ",
            AppError::Internal(_) => "internal error: ",
        };
        concat2(prefix, self.detail().as_str())
    }

    /// The MCP error type this error is reported as.
    pub fn rpc_error_kind(&self) -> (r: RpcErrorKind)
        ensures
            r == kind_rpc(self@.0),
    {
        match self {
            AppError::InvalidInput(_) => RpcErrorKind::InvalidParams,
            AppError::NotFound(_) => RpcErrorKind::ResourceNotFound,
            AppError::AuthFailed(_) => RpcErrorKind::InvalidRequest,
            AppError::Timeout(_) => RpcErrorKind::InternalError,
            AppError::Conflict(_) => RpcErrorKind::InvalidRequest,
            AppError::TokenRefresh(_) => RpcErrorKind::InvalidRequest,
            AppError::Internal(_) => RpcErrorKind::InternalError,
        }
    }

    /// Convert to an MCP `ErrorData`: the error type of [`AppError::rpc_error_kind`], the
    /// detail message, and a data object `{"code": <code>}` with [`AppError::code`].
    pub fn to_error_data(&self) -> (r: rmcp::model::ErrorData)
        ensures
            r == error_data_of(self@.0, self@.1),
    {
        let data = json_object_with_string("code", self.code());
        let message = self.detail().clone();
        match self.rpc_error_kind() {
            RpcErrorKind::InvalidParams => rpc_invalid_params(message, data),
            RpcErrorKind::ResourceNotFound => rpc_resource_not_found(message, data),
            RpcErrorKind::InvalidRequest => rpc_invalid_request(message, data),
            RpcErrorKind::InternalError => rpc_internal_error(message, data),
        }
    }
}

/// The MCP error object of the `rmcp` crate.
#[verifier::external_type_specification]
#[verifier::external_body]
pub struct ExErrorData(rmcp::model::ErrorData);

/// A JSON value of the `serde_json` crate.
#[verifier::external_type_specification]
#[verifier::external_body]
pub struct ExJsonValue(serde_json::Value);

/// What `serde_json::Value::Object(serde_json::Map::from_iter([(key, Value::String(value))]))`
/// yields: the JSON object `{key: value}`.
pub uninterp spec fn json_string_object(key: Seq<char>, value: Seq<char>) -> serde_json::Value;

/// What `rmcp::model::ErrorData::invalid_params(message, Some(data))` yields.
pub uninterp spec fn rmcp_invalid_params(message: Seq<char>, data: serde_json::Value) -> rmcp::model::ErrorData;

/// What `rmcp::model::ErrorData::resource_not_found(message, Some(data))` yields.
pub uninterp spec fn rmcp_resource_not_found(message: Seq<char>, data: serde_json::Value) -> rmcp::model::ErrorData;

/// What `rmcp::model::ErrorData::invalid_request(message, Some(data))` yields.
pub uninterp spec fn rmcp_invalid_request(message: Seq<char>, data: serde_json::Value) -> rmcp::model::ErrorData;

/// What `rmcp::model::ErrorData::internal_error(message, Some(data))` yields.
pub uninterp spec fn rmcp_internal_error(message: Seq<char>, data: serde_json::Value) -> rmcp::model::ErrorData;

/// Builds the JSON object `{key: value}` with `serde_json::Map::from_iter`; the contract
/// ties the result to [`json_string_object`].
#[verifier::external_body]
fn json_object_with_string(key: &str, value: &str) -> (r: serde_json::Value)
    ensures
        r == json_string_object(key@, value@),
{
    serde_json::Value::Object(
        serde_json::Map::from_iter([(key.to_owned(), serde_json::Value::String(value.to_owned()))]),
    )
}

/// `rmcp::model::ErrorData::invalid_params(message, Some(data))`; the contract ties the
/// result to [`rmcp_invalid_params`].
#[verifier::external_body]
fn rpc_invalid_params(message: String, data: serde_json::Value) -> (r: rmcp::model::ErrorData)
    ensures
        r == rmcp_invalid_params(message@, data),
{
    rmcp::model::ErrorData::invalid_params(message, Some(data))
}

/// `rmcp::model::ErrorData::resource_not_found(message, Some(data))`; the contract ties
/// the result to [`rmcp_resource_not_found`].
#[verifier::external_body]
fn rpc_resource_not_found(message: String, data: serde_json::Value) -> (r: rmcp::model::ErrorData)
    ensures
        r == rmcp_resource_not_found(message@, data),
{
    rmcp::model::ErrorData::resource_not_found(message, Some(data))
}

/// `rmcp::model::ErrorData::invalid_request(message, Some(data))`; the contract ties the
/// result to [`rmcp_invalid_request`].
#[verifier::external_body]
fn rpc_invalid_request(message: String, data: serde_json::Value) -> (r: rmcp::model::ErrorData)
    ensures
        r == rmcp_invalid_request(message@, data),
{
    rmcp::model::ErrorData::invalid_request(message, Some(data))
}

/// `rmcp::model::ErrorData::internal_error(message, Some(data))`; the contract ties the
/// result to [`rmcp_internal_error`].
#[verifier::external_body]
fn rpc_internal_error(message: String, data: serde_json::Value) -> (r: rmcp::model::ErrorData)
    ensures
        r == rmcp_internal_error(message@, data),
{
    rmcp::model::ErrorData::internal_error(message, Some(data))
}

/// The MCP error object of an error of kind `k` with detail `detail`: the constructor of
/// its MCP error type, with the detail as message and `{"code": <code>}` as data.
pub open spec fn error_data_of(k: ErrorKind, detail: Seq<char>) -> rmcp::model::ErrorData {
    let data = json_string_object("code"@, kind_code(k));
    match kind_rpc(k) {
        RpcErrorKind::InvalidParams => rmcp_invalid_params(detail, data),
        RpcErrorKind::ResourceNotFound => rmcp_resource_not_found(detail, data),
        RpcErrorKind::InvalidRequest => rmcp_invalid_request(detail, data),
        RpcErrorKind::InternalError => rmcp_internal_error(detail, data),
    }
}

} // verus!
