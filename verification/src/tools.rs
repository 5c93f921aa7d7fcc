//! Reporting the outcome of a tool call: issues met along the way, the overall status,
//! and the action suggested next.
use vstd::prelude::*;
use vstd::string::*;

use crate::config::ServerConfig;
use crate::errors::{invalid_view, kind_code, kind_prefix, kind_retryable, AppError, AppResult, ErrorKind};
use crate::registry::Keyed;
use crate::text::{eq_ignore_case, eq_ignore_case_str};

verus! {

/// A non-fatal problem met while serving a tool call.
pub struct ToolIssue {
    pub code: String,
    pub stage: String,
    pub message: String,
    pub retryable: bool,
    pub uid: Option<u32>,
    pub message_id: Option<String>,
}

/// The plain values of a [`ToolIssue`].
pub struct IssueView {
    pub code: Seq<char>,
    pub stage: Seq<char>,
    pub message: Seq<char>,
    pub retryable: bool,
    pub uid: Option<u32>,
    pub message_id: Option<Seq<char>>,
}

impl View for ToolIssue {
    type V = IssueView;

    open spec fn view(&self) -> IssueView {
        IssueView {
            code: self.code@,
            stage: self.stage@,
            message: self.message@,
            retryable: self.retryable,
            uid: self.uid,
            message_id: crate::config::opt_string_view(self.message_id),
        }
    }
}

/// The issue reported for error `e` at `stage`: the error's code, its rendered message
/// and whether it may be retried, with no UID or message id attached.
pub open spec fn issue_of(stage: Seq<char>, e: (ErrorKind, Seq<char>)) -> IssueView {
    IssueView {
        code: kind_code(e.0),
        stage,
        message: kind_prefix(e.0) + e.1,
        retryable: kind_retryable(e.0),
        uid: None,
        message_id: None,
    }
}

impl ToolIssue {
    /// The issue for `error` met at `stage`.
    pub fn from_error(stage: &str, error: &AppError) -> (r: Self)
        ensures
            r@ == issue_of(stage@, error@),
    {
        ToolIssue {
            code: String::from_str(error.code()),
            stage: String::from_str(stage),
            message: error.message_text(),
            retryable: error.retryable(),
            uid: None,
            message_id: None,
        }
    }

    /// The same issue, about message `uid`.
    pub fn with_uid(self, uid: u32) -> (r: Self)
        ensures
            r@ == (IssueView { uid: Some(uid), ..self@ }),
    {
        let mut s = self;
        s.uid = Some(uid);
        s
    }

    /// The same issue, about the message with identifier `message_id`.
    pub fn with_message_id(self, message_id: &str) -> (r: Self)
        ensures
            r@ == (IssueView { message_id: Some(message_id@), ..self@ }),
    {
        let mut s = self;
        s.message_id = Some(String::from_str(message_id));
        s
    }
}

/// The status of a tool call: `ok` without issues, `partial` with issues but some data,
/// `failed` with issues and no data.
pub open spec fn status_word(no_issues: bool, has_data: bool) -> Seq<char> {
    if no_issues {
        "ok"@
    } else if has_data {
        "partial"@
    } else {
        "failed"@
    }
}

/// The status of a tool call from whether it met issues and whether it produced data.
pub fn status_from_counts(no_issues: bool, has_data: bool) -> (r: &'static str)
    ensures
        r@ == status_word(no_issues, has_data),
{
    if no_issues {
        "ok"
    } else if has_data {
        "partial"
    } else {
        "failed"
    }
}

/// The status of a tool call from the issues it met and whether it produced data.
pub fn status_from_issue_and_counts(issues: &[ToolIssue], has_data: bool) -> (r: &'static str)
    ensures
        r@ == status_word(issues@.len() == 0, has_data),
{
    status_from_counts(issues.len() == 0, has_data)
}

/// The structured code of an error, as reported to clients.
pub fn app_error_code(error: &AppError) -> (r: &'static str)
    ensures
        r@ == kind_code(error@.0),
{
    error.code()
}

/// Errors that end a search instead of being reported as an issue: invalid input and
/// conflicts.
pub fn is_hard_precondition_error(error: &AppError) -> (r: bool)
    ensures
        r == (error@.0 == ErrorKind::InvalidInput || error@.0 == ErrorKind::Conflict),
{
    match error {
        AppError::InvalidInput(_) | AppError::Conflict(_) => true,
        _ => false,
    }
}

/// A point in time of the standard library's monotonic clock.
#[verifier::external_type_specification]
#[verifier::external_body]
pub struct ExInstant(std::time::Instant);

/// Milliseconds elapsed since `started`, by `std::time::Instant::elapsed` and
/// `Duration::as_millis`. It depends on the clock, so nothing is stated of it.
#[verifier::external_body]
fn elapsed_millis(started: &std::time::Instant) -> u128 {
    started.elapsed().as_millis()
}

/// A number of milliseconds saturated to `u64`.
pub fn saturate_millis(ms: u128) -> (r: u64)
    ensures
        r as int == (if ms > u64::MAX as u128 {
            u64::MAX as int
        } else {
            ms as int
        }),
{
    if ms > u64::MAX as u128 {
        u64::MAX
    } else {
        ms as u64
    }
}

/// Milliseconds elapsed since `started`, saturated to `u64`.
pub fn duration_ms(started: std::time::Instant) -> u64 {
    saturate_millis(elapsed_millis(&started))
}

/// The arguments of a suggested tool call; absent fields are left out of the call.
pub struct ActionArguments {
    pub account_id: String,
    pub mailbox: Option<String>,
    pub message_id: Option<String>,
    pub cursor: Option<String>,
    pub limit: Option<usize>,
    pub include_snippet: Option<bool>,
}

/// The plain values of [`ActionArguments`].
pub struct ArgumentsView {
    pub account_id: Seq<char>,
    pub mailbox: Option<Seq<char>>,
    pub message_id: Option<Seq<char>>,
    pub cursor: Option<Seq<char>>,
    pub limit: Option<usize>,
    pub include_snippet: Option<bool>,
}

impl View for ActionArguments {
    type V = ArgumentsView;

    open spec fn view(&self) -> ArgumentsView {
        ArgumentsView {
            account_id: self.account_id@,
            mailbox: crate::config::opt_string_view(self.mailbox),
            message_id: crate::config::opt_string_view(self.message_id),
            cursor: crate::config::opt_string_view(self.cursor),
            limit: self.limit,
            include_snippet: self.include_snippet,
        }
    }
}

/// The tool call suggested to the client after a tool call.
pub struct NextAction {
    pub instruction: String,
    pub tool: String,
    pub arguments: ActionArguments,
}

/// The plain values of a [`NextAction`].
pub struct ActionView {
    pub instruction: Seq<char>,
    pub tool: Seq<char>,
    pub arguments: ArgumentsView,
}

impl View for NextAction {
    type V = ActionView;

    open spec fn view(&self) -> ActionView {
        ActionView {
            instruction: self.instruction@,
            tool: self.tool@,
            arguments: self.arguments@,
        }
    }
}

/// Arguments naming only an account.
pub open spec fn account_args(account_id: Seq<char>) -> ArgumentsView {
    ArgumentsView {
        account_id,
        mailbox: None,
        message_id: None,
        cursor: None,
        limit: None,
        include_snippet: None,
    }
}

/// Arguments of a search of `mailbox` without snippets, possibly resuming at `cursor`.
pub open spec fn search_args(
    account_id: Seq<char>,
    mailbox: Seq<char>,
    cursor: Option<Seq<char>>,
    limit: usize,
) -> ArgumentsView {
    ArgumentsView {
        account_id,
        mailbox: Some(mailbox),
        message_id: None,
        cursor,
        limit: Some(limit),
        include_snippet: Some(false),
    }
}

/// Arguments naming only an account.
fn account_arguments(account_id: &str) -> (r: ActionArguments)
    ensures
        r@ == account_args(account_id@),
{
    ActionArguments {
        account_id: String::from_str(account_id),
        mailbox: None,
        message_id: None,
        cursor: None,
        limit: None,
        include_snippet: None,
    }
}

/// Arguments of a search without snippets.
fn search_arguments(account_id: &str, mailbox: &str, cursor: Option<&str>, limit: usize) -> (r:
    ActionArguments)
    ensures
        r@ == search_args(account_id@, mailbox@, crate::help::opt_str_view(cursor), limit),
{
    ActionArguments {
        account_id: String::from_str(account_id),
        mailbox: Some(String::from_str(mailbox)),
        message_id: None,
        cursor: match cursor {
            Some(c) => Some(String::from_str(c)),
            None => None,
        },
        limit: Some(limit),
        include_snippet: Some(false),
    }
}

/// A suggested call of `tool` with `arguments`.
pub fn next_action(instruction: &str, tool: &str, arguments: ActionArguments) -> (r: NextAction)
    ensures
        r@ == (ActionView { instruction: instruction@, tool: tool@, arguments: arguments@ }),
{
    NextAction {
        instruction: String::from_str(instruction),
        tool: String::from_str(tool),
        arguments,
    }
}

/// The suggestion to verify the account again.
pub open spec fn retry_verify_view(account_id: Seq<char>) -> ActionView {
    ActionView {
        instruction: "Re-verify account connectivity before proceeding."@,
        tool: "imap_verify_account"@,
        arguments: account_args(account_id),
    }
}

/// Suggest verifying the account again.
pub fn next_action_retry_verify(account_id: &str) -> (r: NextAction)
    ensures
        r@ == retry_verify_view(account_id@),
{
    next_action(
        "Re-verify account connectivity before proceeding.",
        "imap_verify_account",
        account_arguments(account_id),
    )
}

/// The suggestion to list the mailboxes of the account.
pub open spec fn list_mailboxes_view(account_id: Seq<char>) -> ActionView {
    ActionView {
        instruction: "List mailboxes to choose a mailbox for message search."@,
        tool: "imap_list_mailboxes"@,
        arguments: account_args(account_id),
    }
}

/// Suggest listing the mailboxes of the account.
pub fn next_action_list_mailboxes(account_id: &str) -> (r: NextAction)
    ensures
        r@ == list_mailboxes_view(account_id@),
{
    next_action(
        "List mailboxes to choose a mailbox for message search.",
        "imap_list_mailboxes",
        account_arguments(account_id),
    )
}

/// The suggestion to search a mailbox, ten messages without snippets.
pub open spec fn search_mailbox_view(account_id: Seq<char>, mailbox: Seq<char>) -> ActionView {
    ActionView {
        instruction: "Search for messages in the selected mailbox."@,
        tool: "imap_search_messages"@,
        arguments: search_args(account_id, mailbox, None, 10),
    }
}

/// Suggest searching `mailbox`.
pub fn next_action_search_mailbox(account_id: &str, mailbox: &str) -> (r: NextAction)
    ensures
        r@ == search_mailbox_view(account_id@, mailbox@),
{
    next_action(
        "Search for messages in the selected mailbox.",
        "imap_search_messages",
        search_arguments(account_id, mailbox, None, 10),
    )
}

/// A mailbox of an account.
pub struct MailboxInfo {
    pub name: String,
    pub delimiter: Option<String>,
}

/// The names of a list of mailboxes.
pub open spec fn mailbox_names(mailboxes: Seq<MailboxInfo>) -> Seq<Seq<char>> {
    mailboxes.map_values(|m: MailboxInfo| m.name@)
}

/// The mailbox to suggest searching: the first named `INBOX` in any letter case, else
/// the first one, else none.
pub open spec fn preferred_mailbox(names: Seq<Seq<char>>) -> Option<Seq<char>> {
    if exists|i: int| 0 <= i < names.len() && eq_ignore_case(#[trigger] names[i], "INBOX"@) {
        let i = choose|i: int|
            0 <= i < names.len() && eq_ignore_case(#[trigger] names[i], "INBOX"@) && forall|
                j: int,
            | 0 <= j < i ==> !eq_ignore_case(#[trigger] names[j], "INBOX"@);
        Some(names[i])
    } else if names.len() > 0 {
        Some(names[0])
    } else {
        None
    }
}

/// The mailbox to suggest searching: `INBOX` (in any letter case) when listed, else the
/// first mailbox.
pub fn preferred_mailbox_name(mailboxes: &[MailboxInfo]) -> (r: Option<String>)
    ensures
        crate::config::opt_string_view(r) == preferred_mailbox(mailbox_names(mailboxes@)),
{
    let ghost names = mailbox_names(mailboxes@);
    let mut i: usize = 0;
    while i < mailboxes.len()
        invariant
            i <= mailboxes@.len(),
            names == mailbox_names(mailboxes@),
            forall|j: int| 0 <= j < i ==> !eq_ignore_case(#[trigger] names[j], "INBOX"@),
        decreases mailboxes.len() - i,
    {
        if eq_ignore_case_str(mailboxes[i].name.as_str(), "INBOX") {
            proof {
                assert(names[i as int] == mailboxes@[i as int].name@);
                let k = choose|k: int|
                    0 <= k < names.len() && eq_ignore_case(#[trigger] names[k], "INBOX"@) && forall|
                        j: int,
                    | 0 <= j < k ==> !eq_ignore_case(#[trigger] names[j], "INBOX"@);
                if k < i {
                } else if k > i {
                    assert(!eq_ignore_case(names[i as int], "INBOX"@));
                }
            }
            return Some(mailboxes[i].name.clone());
        }
        proof {
            assert(names[i as int] == mailboxes@[i as int].name@);
        }
        i = i + 1;
    }
    if mailboxes.len() > 0 {
        proof {
            assert(names[0] == mailboxes@[0].name@);
        }
        Some(mailboxes[0].name.clone())
    } else {
        None
    }
}

/// Fail unless mailbox write tools are enabled.
pub fn require_write_enabled(config: &ServerConfig) -> (r: AppResult<()>)
    ensures
        config.write_enabled ==> r is Ok,
        !config.write_enabled ==> (r matches Err(e) && e@ == invalid_view(
            "write tools are disabled; set MAIL_IMAP_WRITE_ENABLED=true"@,
        )),
{
    if !config.write_enabled {
        return Err(AppError::invalid("write tools are disabled; set MAIL_IMAP_WRITE_ENABLED=true"));
    }
    Ok(())
}

/// Fail unless SMTP send tools are enabled.
pub fn require_smtp_write_enabled(config: &ServerConfig) -> (r: AppResult<()>)
    ensures
        config.smtp_write_enabled ==> r is Ok,
        !config.smtp_write_enabled ==> (r matches Err(e) && e@ == invalid_view(
            "SMTP send tools are disabled; set MAIL_SMTP_WRITE_ENABLED=true"@,
        )),
{
    if !config.smtp_write_enabled {
        return Err(
            AppError::invalid("SMTP send tools are disabled; set MAIL_SMTP_WRITE_ENABLED=true"),
        );
    }
    Ok(())
}

/// An issue is logged as an error when the call failed or the issue is an internal
/// error or a timeout; otherwise as a warning.
pub open spec fn logged_as_error(status: Seq<char>, code: Seq<char>) -> bool {
    status == "failed"@ || code == "internal"@ || code == "timeout"@
}

/// Whether an issue of a call with `status` is logged as an error.
pub fn is_error_issue(status: &str, code: &str) -> (r: bool)
    ensures
        r == logged_as_error(status@, code@),
{
    let st = String::from_str(status);
    let c = String::from_str(code);
    st == String::from_str("failed") || c == String::from_str("internal") || c
        == String::from_str("timeout")
}

/// The instructions the server gives to clients.
pub fn server_instructions() -> (r: &'static str)
    ensures
        r@
            == "Secure IMAP MCP server. Read operations are enabled by default; write tools require MAIL_IMAP_WRITE_ENABLED=true. SMTP send tools require MAIL_SMTP_WRITE_ENABLED=true."@,
{
    "Secure IMAP MCP server. Read operations are enabled by default; write tools require MAIL_IMAP_WRITE_ENABLED=true. SMTP send tools require MAIL_SMTP_WRITE_ENABLED=true."
}

/// What is shown of an IMAP account: no credentials.
pub struct AccountInfo {
    pub account_id: String,
    pub host: String,
    pub port: u16,
    pub secure: bool,
}

/// The listing of the IMAP accounts: their public details in account order, the
/// account to suggest listing mailboxes of (the first, or `default` without accounts),
/// and the summary line.
pub struct AccountListing {
    pub accounts: Vec<AccountInfo>,
    pub next_account_id: String,
    pub summary: String,
}

/// The public details of an account: its id, host, port and whether it uses TLS.
pub open spec fn account_public(a: crate::config::AccountConfig) -> (Seq<char>, Seq<char>, u16, bool) {
    (a.account_id@, a.host@, a.port, a.secure)
}

/// The details a listed account shows.
pub open spec fn info_view(a: AccountInfo) -> (Seq<char>, Seq<char>, u16, bool) {
    (a.account_id@, a.host@, a.port, a.secure)
}

/// The listing of the accounts `m`: the public details of each, in increasing id order.
pub open spec fn listing_of(m: Map<Seq<char>, crate::config::AccountConfig>) -> Seq<
    (Seq<char>, Seq<char>, u16, bool),
> {
    crate::text::sorted_of(m.dom()).map_values(|k: Seq<char>| account_public(m[k]))
}

/// Law: the account listing shows no credentials: two account maps with the same ids
/// and the same public details (whatever their users, passwords and methods) are listed
/// alike. (The ids of a registry's map always stand in a sorted sequence.)
pub proof fn lemma_listing_ignores_credentials(
    m1: Map<Seq<char>, crate::config::AccountConfig>,
    m2: Map<Seq<char>, crate::config::AccountConfig>,
)
    requires
        exists|q: Seq<Seq<char>>| crate::text::strictly_sorted(q) && q.to_set() == m1.dom(),
        m1.dom() == m2.dom(),
        forall|k: Seq<char>| #[trigger] m1.contains_key(k) ==> account_public(m1[k]) == account_public(m2[k]),
    ensures
        listing_of(m1) == listing_of(m2),
{
    let ks = crate::text::sorted_of(m1.dom());
    assert(ks.to_set() == m1.dom());
    assert(listing_of(m1) =~= listing_of(m2)) by {
        assert forall|i: int| 0 <= i < ks.len() implies listing_of(m1)[i] == listing_of(m2)[i] by {
            assert(ks.to_set().contains(ks[i]));
            assert(m1.contains_key(ks[i]));
        }
    }
}

/// List the configured IMAP accounts without their credentials.
pub fn list_accounts(config: &ServerConfig) -> (r: AccountListing)
    ensures
        r.accounts@.map_values(|a: AccountInfo| info_view(a)) == listing_of(config.accounts@),
        r.accounts@.len() == config.accounts@.dom().len(),
        forall|i: int|
            0 <= i < r.accounts@.len() ==> {
                let a = #[trigger] r.accounts@[i];
                &&& config.accounts@.contains_key(a.account_id@)
                &&& config.accounts@[a.account_id@].host@ == a.host@
                &&& config.accounts@[a.account_id@].port == a.port
                &&& config.accounts@[a.account_id@].secure == a.secure
            },
        crate::text::strictly_sorted(r.accounts@.map_values(|a: AccountInfo| a.account_id@)),
        r.accounts@.len() > 0 ==> r.next_account_id@ == r.accounts@[0].account_id@,
        r.accounts@.len() == 0 ==> r.next_account_id@ == "default"@,
        r.summary@ == crate::text::decimal(r.accounts@.len() as nat) + " account(s) configured"@,
{
    let entries = config.accounts.entries();
    let mut out: Vec<AccountInfo> = Vec::new();
    let mut i: usize = 0;
    while i < entries.len()
        invariant
            i <= entries@.len(),
            out@.len() == i,
            forall|j: int|
                0 <= j < i ==> (#[trigger] out@[j]).account_id@ == entries@[j].account_id@
                    && out@[j].host@ == entries@[j].host@ && out@[j].port == entries@[j].port
                    && out@[j].secure == entries@[j].secure,
        decreases entries.len() - i,
    {
        let a = &entries[i];
        out.push(
            AccountInfo {
                account_id: a.account_id.clone(),
                host: a.host.clone(),
                port: a.port,
                secure: a.secure,
            },
        );
        i = i + 1;
    }
    proof {
        let ks = crate::registry::keys_of(entries@);
        assert(out@.map_values(|a: AccountInfo| a.account_id@) =~= ks);
        assert forall|j: int| 0 <= j < out@.len() implies {
            let a = #[trigger] out@[j];
            &&& config.accounts@.contains_key(a.account_id@)
            &&& config.accounts@[a.account_id@].host@ == a.host@
            &&& config.accounts@[a.account_id@].port == a.port
            &&& config.accounts@[a.account_id@].secure == a.secure
        } by {
            assert(entries@[j].key_view() == entries@[j].account_id@);
        }
        lemma_keys_cover(config.accounts@, entries@);
        crate::text::lemma_sorted_of(ks);
        let mapped = out@.map_values(|a: AccountInfo| info_view(a));
        let listed = listing_of(config.accounts@);
        assert(mapped =~= listed) by {
            assert forall|j: int| 0 <= j < out@.len() implies #[trigger] mapped[j] == listed[j] by {
                assert(entries@[j].key_view() == entries@[j].account_id@);
                assert(ks[j] == entries@[j].account_id@);
            }
        }
    }
    let next_account_id = if out.len() > 0 {
        out[0].account_id.clone()
    } else {
        String::from_str("default")
    };
    let n = crate::text::decimal_u64(out.len() as u64);
    let summary = crate::text::concat2(n.as_str(), " account(s) configured");
    AccountListing { accounts: out, next_account_id, summary }
}

/// The entries listed by a registry are as many as its keys.
proof fn lemma_keys_cover<T: Keyed>(m: Map<Seq<char>, T>, entries: Seq<T>)
    requires
        crate::text::strictly_sorted(crate::registry::keys_of(entries)),
        forall|i: int|
            0 <= i < entries.len() ==> m.contains_key(#[trigger] entries[i].key_view()),
        forall|q: Seq<char>|
            #[trigger] m.contains_key(q) ==> exists|i: int|
                0 <= i < entries.len() && entries[i].key_view() == q,
    ensures
        entries.len() == m.dom().len(),
        crate::registry::keys_of(entries).to_set() == m.dom(),
{
    let ks = crate::registry::keys_of(entries);
    assert(ks.no_duplicates()) by {
        assert forall|a: int, b: int| 0 <= a < ks.len() && 0 <= b < ks.len() && a != b implies ks[a]
            != ks[b] by {
            crate::text::lemma_seq_lt_trichotomy(ks[a], ks[a]);
            if a < b {
                assert(crate::text::seq_lt(ks[a], ks[b]));
            } else {
                assert(crate::text::seq_lt(ks[b], ks[a]));
            }
        }
    }
    assert(ks.to_set() =~= m.dom()) by {
        assert forall|q: Seq<char>| ks.to_set().contains(q) <==> m.dom().contains(q) by {
            if ks.to_set().contains(q) {
                let i = choose|i: int| 0 <= i < ks.len() && ks[i] == q;
                assert(entries[i].key_view() == q);
            }
            if m.dom().contains(q) {
                let i = choose|i: int| 0 <= i < entries.len() && entries[i].key_view() == q;
                assert(ks[i] == q);
            }
        }
    }
    ks.unique_seq_to_set();
}

/// The lower-case name of a security mode.
pub open spec fn security_label_of(s: crate::smtp::SmtpSecurity) -> Seq<char> {
    match s {
        crate::smtp::SmtpSecurity::Tls => "tls"@,
        crate::smtp::SmtpSecurity::Starttls => "starttls"@,
        crate::smtp::SmtpSecurity::Plain => "plain"@,
    }
}

/// The lower-case name of a security mode.
pub fn security_label(s: crate::smtp::SmtpSecurity) -> (r: &'static str)
    ensures
        r@ == security_label_of(s),
{
    match s {
        crate::smtp::SmtpSecurity::Tls => "tls",
        crate::smtp::SmtpSecurity::Starttls => "starttls",
        crate::smtp::SmtpSecurity::Plain => "plain",
    }
}

/// What is shown of an SMTP account: no credentials.
pub struct SmtpAccountInfo {
    pub account_id: String,
    pub host: String,
    pub port: u16,
    pub security: String,
}

/// The listing of the SMTP accounts: their public details in account order and the
/// summary line.
pub struct SmtpAccountListing {
    pub accounts: Vec<SmtpAccountInfo>,
    pub summary: String,
}

/// List the configured SMTP accounts without their credentials.
pub fn list_smtp_accounts(config: &ServerConfig) -> (r: SmtpAccountListing)
    ensures
        r.accounts@.len() == config.smtp_accounts@.dom().len(),
        forall|i: int|
            0 <= i < r.accounts@.len() ==> {
                let a = #[trigger] r.accounts@[i];
                &&& config.smtp_accounts@.contains_key(a.account_id@)
                &&& config.smtp_accounts@[a.account_id@].host@ == a.host@
                &&& config.smtp_accounts@[a.account_id@].port == a.port
                &&& security_label_of(config.smtp_accounts@[a.account_id@].security) == a.security@
            },
        crate::text::strictly_sorted(r.accounts@.map_values(|a: SmtpAccountInfo| a.account_id@)),
        r.summary@ == crate::text::decimal(r.accounts@.len() as nat)
            + " SMTP account(s) configured"@,
{
    let entries = config.smtp_accounts.entries();
    let mut out: Vec<SmtpAccountInfo> = Vec::new();
    let mut i: usize = 0;
    while i < entries.len()
        invariant
            i <= entries@.len(),
            out@.len() == i,
            forall|j: int|
                0 <= j < i ==> (#[trigger] out@[j]).account_id@ == entries@[j].account_id@
                    && out@[j].host@ == entries@[j].host@ && out@[j].port == entries@[j].port
                    && out@[j].security@ == security_label_of(entries@[j].security),
        decreases entries.len() - i,
    {
        let a = &entries[i];
        out.push(
            SmtpAccountInfo {
                account_id: a.account_id.clone(),
                host: a.host.clone(),
                port: a.port,
                security: String::from_str(security_label(a.security)),
            },
        );
        i = i + 1;
    }
    proof {
        let ks = crate::registry::keys_of(entries@);
        assert(out@.map_values(|a: SmtpAccountInfo| a.account_id@) =~= ks);
        assert forall|j: int| 0 <= j < out@.len() implies {
            let a = #[trigger] out@[j];
            &&& config.smtp_accounts@.contains_key(a.account_id@)
            &&& config.smtp_accounts@[a.account_id@].host@ == a.host@
            &&& config.smtp_accounts@[a.account_id@].port == a.port
            &&& security_label_of(config.smtp_accounts@[a.account_id@].security) == a.security@
        } by {
            assert(entries@[j].key_view() == entries@[j].account_id@);
        }
        lemma_keys_cover(config.smtp_accounts@, entries@);
    }
    let n = crate::text::decimal_u64(out.len() as u64);
    let summary = crate::text::concat2(n.as_str(), " SMTP account(s) configured");
    SmtpAccountListing { accounts: out, summary }
}

/// Maximum number of mailboxes listed.
pub const MAX_MAILBOXES_LISTED: usize = 200;

/// The mailboxes to list: the first 200 of those the server reported, as (name,
/// delimiter) pairs.
pub fn listed_mailboxes(items: Vec<(String, Option<String>)>) -> (r: Vec<MailboxInfo>)
    ensures
        r@.len() == (if items@.len() < 200 { items@.len() } else { 200 }),
        forall|i: int|
            0 <= i < r@.len() ==> (#[trigger] r@[i]).name@ == items@[i].0@
                && crate::config::opt_string_view(r@[i].delimiter)
                == crate::config::opt_string_view(items@[i].1),
{
    let n: usize = if items.len() < MAX_MAILBOXES_LISTED {
        items.len()
    } else {
        MAX_MAILBOXES_LISTED
    };
    let ghost all = items@;
    let mut rest = items;
    let mut out: Vec<MailboxInfo> = Vec::new();
    let mut i: usize = 0;
    while i < n
        invariant
            i <= n <= all.len(),
            n <= 200,
            rest@ == all.subrange(i as int, all.len() as int),
            out@.len() == i,
            forall|j: int|
                0 <= j < i ==> (#[trigger] out@[j]).name@ == all[j].0@
                    && crate::config::opt_string_view(out@[j].delimiter)
                    == crate::config::opt_string_view(all[j].1),
        decreases n - i,
    {
        let (name, delimiter) = rest.remove(0);
        proof {
            assert(all[i as int] == (name, delimiter));
        }
        out.push(MailboxInfo { name, delimiter });
        proof {
            assert(rest@ =~= all.subrange(i + 1, all.len() as int));
        }
        i = i + 1;
    }
    out
}

/// In increasing order, equal entries allowed.
pub open spec fn sorted_le(s: Seq<Seq<char>>) -> bool {
    forall|i: int, j: int| 0 <= i < j < s.len() ==> !crate::text::seq_lt(#[trigger] s[j], #[trigger] s[i])
}

/// Insert `x` into the sorted list `v` after the entries not above it.
fn insert_sorted(v: &mut Vec<String>, x: String)
    requires
        sorted_le(crate::text::strings_view(old(v)@)),
    ensures
        sorted_le(crate::text::strings_view(final(v)@)),
        crate::text::strings_view(final(v)@).to_multiset() == crate::text::strings_view(
            old(v)@,
        ).to_multiset().insert(x@),
{
    broadcast use vstd::seq_lib::group_to_multiset_ensures;

    let ghost ov = crate::text::strings_view(v@);
    let mut p: usize = 0;
    while p < v.len() && !crate::text::str_lt(x.as_str(), v[p].as_str())
        invariant
            p <= v@.len(),
            ov == crate::text::strings_view(v@),
            forall|k: int| 0 <= k < p ==> !crate::text::seq_lt(x@, #[trigger] ov[k]),
        decreases v.len() - p,
    {
        p = p + 1;
    }
    let ghost xv = x@;
    v.insert(p, x);
    proof {
        let nv = crate::text::strings_view(v@);
        assert(nv =~= ov.insert(p as int, xv));
        if p < ov.len() {
            assert(crate::text::seq_lt(xv, ov[p as int]));
        }
        assert forall|i: int, j: int| 0 <= i < j < nv.len() implies !crate::text::seq_lt(
            #[trigger] nv[j],
            #[trigger] nv[i],
        ) by {
            if j == p {
                assert(nv[i] == ov[i]);
            } else if i == p {
                assert(nv[j] == ov[j - 1]);
                if crate::text::seq_lt(ov[j - 1], xv) {
                    if j - 1 == p {
                        crate::text::lemma_seq_lt_trichotomy(xv, ov[p as int]);
                    } else {
                        crate::text::lemma_seq_lt_transitive(ov[j - 1], xv, ov[p as int]);
                        assert(!crate::text::seq_lt(ov[j - 1], ov[p as int]));
                    }
                }
            } else if j < p {
                assert(nv[i] == ov[i] && nv[j] == ov[j]);
            } else if i > p {
                assert(nv[i] == ov[i - 1] && nv[j] == ov[j - 1]);
            } else {
                assert(nv[i] == ov[i] && nv[j] == ov[j - 1]);
            }
        }
    }
}

/// Maximum number of capabilities reported.
pub const MAX_CAPABILITIES: usize = 256;

/// The capabilities to report: sorted, and at most 256 of them.
pub fn normalize_capabilities(caps: Vec<String>) -> (r: Vec<String>)
    ensures
        exists|full: Seq<Seq<char>>|
            sorted_le(full) && full.to_multiset() == crate::text::strings_view(caps@).to_multiset()
                && crate::text::strings_view(r@) == full.take(
                if full.len() < 256 {
                    full.len() as int
                } else {
                    256
                },
            ),
{
    broadcast use vstd::seq_lib::group_to_multiset_ensures;

    let ghost cv = crate::text::strings_view(caps@);
    let total = caps.len();
    let mut sorted: Vec<String> = Vec::new();
    let mut rest = caps;
    let mut k: usize = 0;
    proof {
        assert(crate::text::strings_view(sorted@) =~= Seq::<Seq<char>>::empty());
        assert(cv.take(0) =~= Seq::<Seq<char>>::empty());
        assert(cv.subrange(0, cv.len() as int) =~= cv);
    }
    while rest.len() > 0
        invariant
            k + rest@.len() == cv.len(),
            cv.len() == total,
            crate::text::strings_view(rest@) == cv.subrange(k as int, cv.len() as int),
            sorted_le(crate::text::strings_view(sorted@)),
            crate::text::strings_view(sorted@).to_multiset() == cv.take(k as int).to_multiset(),
        decreases rest.len(),
    {
        let ghost before = rest@;
        let x = rest.remove(0);
        proof {
            assert(crate::text::strings_view(before)[0] == cv.subrange(k as int, cv.len() as int)[0]);
            assert(x@ == cv[k as int]);
            assert(cv.take(k + 1) =~= cv.take(k as int).push(x@));
            assert forall|j: int| 0 <= j < rest@.len() implies crate::text::strings_view(rest@)[j]
                == cv[k + 1 + j] by {
                assert(rest@[j] == before[j + 1]);
                assert(crate::text::strings_view(before)[j + 1] == cv.subrange(
                    k as int,
                    cv.len() as int,
                )[j + 1]);
            }
            assert(crate::text::strings_view(rest@) =~= cv.subrange(k + 1, cv.len() as int));
        }
        let ghost xv = x@;
        insert_sorted(&mut sorted, x);
        proof {
            cv.take(k as int).to_multiset_ensures();
            assert(cv.take(k as int).push(xv).to_multiset() =~= cv.take(k as int).to_multiset().insert(
                xv,
            ));
        }
        k = k + 1;
    }
    proof {
        assert(cv.take(cv.len() as int) == cv);
    }
    let ghost full = crate::text::strings_view(sorted@);
    let mut out: Vec<String> = Vec::new();
    let n: usize = if sorted.len() < MAX_CAPABILITIES {
        sorted.len()
    } else {
        MAX_CAPABILITIES
    };
    let mut i: usize = 0;
    while i < n
        invariant
            i <= n <= sorted@.len(),
            full == crate::text::strings_view(sorted@),
            crate::text::strings_view(out@) == full.take(i as int),
        decreases n - i,
    {
        let ghost before = out@;
        let item = sorted[i].clone();
        out.push(item);
        proof {
            assert(crate::text::strings_view(out@) =~= crate::text::strings_view(before).push(
                item@,
            ));
            assert(full.take(i + 1) =~= full.take(i as int).push(full[i as int]));
        }
        i = i + 1;
    }
    out
}

} // verus!
