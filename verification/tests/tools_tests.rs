use mail_mcp::env::EnvMap;
use mail_mcp::config::ServerConfig;
use mail_mcp::errors::AppError;
use mail_mcp::ops::{
    check_append_message, check_batch_uidvalidity, check_bulk_update_flags, check_copy_message,
    check_delete_message, check_get_message, check_raw_size, check_search_and_delete,
    flags_store_query, move_first_step, move_next_step, move_step_stage, take_batch,
    AppendMessageInput, BulkUpdateFlagsInput, CopyMessageInput, DeleteMessageInput,
    GetMessageInput, MoveStep, SearchAndDeleteInput, SearchCriteria, StepLog,
};
use mail_mcp::ids::MessageId;
use mail_mcp::tools::{
    app_error_code, is_error_issue, is_hard_precondition_error, list_accounts,
    list_smtp_accounts, listed_mailboxes, next_action_list_mailboxes, next_action_retry_verify,
    next_action_search_mailbox, preferred_mailbox_name, require_smtp_write_enabled,
    require_write_enabled, saturate_millis, status_from_counts, status_from_issue_and_counts,
    MailboxInfo, ToolIssue,
};

fn config(write: bool) -> ServerConfig {
    let mut env = EnvMap::new();
    for (k, v) in [
        ("MAIL_IMAP_WORK_HOST", "imap.work"),
        ("MAIL_IMAP_WORK_USER", "w@x.org"),
        ("MAIL_IMAP_WORK_PASS", "pw"),
        ("MAIL_IMAP_HOME_HOST", "imap.home"),
        ("MAIL_IMAP_HOME_USER", "h@x.org"),
        ("MAIL_IMAP_HOME_PASS", "pw"),
        ("MAIL_SMTP_WORK_HOST", "smtp.work"),
        ("MAIL_SMTP_WORK_USER", "w@x.org"),
        ("MAIL_SMTP_WORK_SECURE", "plain"),
    ] {
        env.insert(k.to_owned(), v.to_owned());
    }
    env.insert("MAIL_IMAP_WRITE_ENABLED".to_owned(), if write { "true" } else { "false" }.to_owned());
    ServerConfig::load_from_env(&env).expect("config")
}

fn mid(account: &str, uid: u32) -> MessageId {
    MessageId { account_id: account.to_owned(), mailbox: "INBOX".to_owned(), uidvalidity: 3, uid }
}

#[test]
fn issues_carry_code_message_and_retryability() {
    let issue = ToolIssue::from_error("fetch_flags", &AppError::Conflict("changed".to_owned()))
        .with_uid(7)
        .with_message_id("m7");
    assert_eq!(issue.code, "conflict");
    assert_eq!(issue.stage, "fetch_flags");
    assert_eq!(issue.message, "conflict: changed");
    assert!(!issue.retryable);
    assert_eq!(issue.uid, Some(7));
    assert_eq!(issue.message_id.as_deref(), Some("m7"));
    let issue = ToolIssue::from_error("connect", &AppError::TokenRefresh("expired".to_owned()));
    assert_eq!(issue.code, "token_refresh_failed");
    assert!(issue.retryable);
}

#[test]
fn statuses_from_issues_and_data() {
    assert_eq!(status_from_counts(true, false), "ok");
    assert_eq!(status_from_counts(false, true), "partial");
    assert_eq!(status_from_counts(false, false), "failed");
    let issues = vec![ToolIssue::from_error("s", &AppError::Internal("x".to_owned()))];
    assert_eq!(status_from_issue_and_counts(&issues, true), "partial");
    assert_eq!(status_from_issue_and_counts(&[], false), "ok");
}

#[test]
fn error_codes_and_hard_errors() {
    assert_eq!(app_error_code(&AppError::AuthFailed("x".to_owned())), "auth_failed");
    assert!(is_hard_precondition_error(&AppError::InvalidInput("x".to_owned())));
    assert!(is_hard_precondition_error(&AppError::Conflict("x".to_owned())));
    assert!(!is_hard_precondition_error(&AppError::Timeout("x".to_owned())));
    assert!(is_error_issue("failed", "not_found"));
    assert!(is_error_issue("partial", "timeout"));
    assert!(!is_error_issue("partial", "auth_failed"));
}

#[test]
fn millis_saturate_to_u64() {
    assert_eq!(saturate_millis(12), 12);
    assert_eq!(saturate_millis(u128::from(u64::MAX) + 5), u64::MAX);
}

#[test]
fn suggested_actions() {
    let a = next_action_retry_verify("work");
    assert_eq!(a.tool, "imap_verify_account");
    assert_eq!(a.arguments.account_id, "work");
    assert!(a.arguments.mailbox.is_none());
    let a = next_action_list_mailboxes("work");
    assert_eq!(a.instruction, "List mailboxes to choose a mailbox for message search.");
    let a = next_action_search_mailbox("work", "INBOX");
    assert_eq!(a.arguments.limit, Some(10));
    assert_eq!(a.arguments.include_snippet, Some(false));
}

fn mbox(name: &str) -> MailboxInfo {
    MailboxInfo { name: name.to_owned(), delimiter: Some("/".to_owned()) }
}

#[test]
fn preferred_mailbox_is_inbox_or_first() {
    assert_eq!(preferred_mailbox_name(&[mbox("Sent"), mbox("inbox")]).as_deref(), Some("inbox"));
    assert_eq!(preferred_mailbox_name(&[mbox("Sent"), mbox("Drafts")]).as_deref(), Some("Sent"));
    assert_eq!(preferred_mailbox_name(&[]), None);
}

#[test]
fn mailbox_listing_keeps_at_most_200() {
    let items: Vec<(String, Option<String>)> = (0..250).map(|i| (format!("box{i}"), None)).collect();
    let listed = listed_mailboxes(items);
    assert_eq!(listed.len(), 200);
    assert_eq!(listed[199].name, "box199");
}

#[test]
fn account_listings_hide_credentials() {
    let c = config(false);
    let listing = list_accounts(&c);
    assert_eq!(listing.accounts.len(), 2);
    assert_eq!(listing.accounts[0].account_id, "home");
    assert_eq!(listing.next_account_id, "home");
    assert_eq!(listing.summary, "2 account(s) configured");
    let smtp = list_smtp_accounts(&c);
    assert_eq!(smtp.accounts.len(), 1);
    assert_eq!(smtp.accounts[0].security, "plain");
    assert_eq!(smtp.summary, "1 SMTP account(s) configured");
}

#[test]
fn write_gates() {
    let c = config(false);
    assert_eq!(
        require_write_enabled(&c).expect_err("disabled").detail(),
        "write tools are disabled; set MAIL_IMAP_WRITE_ENABLED=true"
    );
    assert_eq!(
        require_smtp_write_enabled(&c).expect_err("disabled").detail(),
        "SMTP send tools are disabled; set MAIL_SMTP_WRITE_ENABLED=true"
    );
    assert!(require_write_enabled(&config(true)).is_ok());
}

#[test]
fn step_log_counts_steps_and_issues() {
    let mut log = StepLog::new();
    assert_eq!(log.status(), "ok");
    log.succeed();
    log.fail(ToolIssue::from_error("uid_copy", &AppError::Internal("x".to_owned())));
    assert_eq!(log.attempted(), 2);
    assert_eq!(log.succeeded(), 1);
    assert_eq!(log.status(), "partial");
    let issues = log.into_issues();
    assert_eq!(issues.len(), 1);
    let mut log = StepLog::new();
    log.fail(ToolIssue::from_error("connect", &AppError::Timeout("x".to_owned())));
    assert_eq!(log.status(), "failed");
}

#[test]
fn move_steps_without_move_capability() {
    assert_eq!(move_first_step(true), MoveStep::UidMove);
    let first = move_first_step(false);
    assert_eq!(first, MoveStep::UidCopy);
    assert_eq!(move_next_step(first, true), Some(MoveStep::StoreDeleted));
    assert_eq!(move_next_step(MoveStep::StoreDeleted, true), Some(MoveStep::Expunge));
    assert_eq!(move_next_step(MoveStep::StoreDeleted, false), None);
    assert_eq!(move_next_step(MoveStep::Expunge, true), None);
    assert_eq!(move_step_stage(MoveStep::StoreDeleted), "uid_store_deleted");
}

#[test]
fn flag_store_queries() {
    let flags = vec!["\\Seen".to_owned(), "Important".to_owned()];
    assert_eq!(flags_store_query(true, &flags), "+FLAGS.SILENT (\\Seen Important)");
    assert_eq!(flags_store_query(false, &flags[..1]), "-FLAGS.SILENT (\\Seen)");
}

#[test]
fn get_message_request_checks() {
    let base = GetMessageInput {
        account_id: "work".to_owned(),
        message_id: "m".to_owned(),
        body_max_chars: 2000,
        include_html: false,
        extract_attachment_text: false,
        attachment_text_max_chars: None,
        include_headers: false,
        include_all_headers: false,
    };
    let (id, limit) = check_get_message(&base, Ok(mid("work", 4))).expect("valid");
    assert_eq!((id.uid, limit), (4, 10000));
    let mut i = base;
    i.attachment_text_max_chars = Some(500);
    assert_eq!(
        check_get_message(&i, Ok(mid("work", 4))).err().expect("needs extract").detail(),
        "attachment_text_max_chars requires extract_attachment_text=true"
    );
    i.extract_attachment_text = true;
    i.body_max_chars = 50;
    assert_eq!(
        check_get_message(&i, Ok(mid("work", 4))).err().expect("body").detail(),
        "body_max_chars must be in range 100..20000"
    );
    assert_eq!(
        check_raw_size(2000, 1024).expect_err("too big").detail(),
        "message exceeds max_bytes; increase max_bytes"
    );
}

#[test]
fn copy_and_delete_request_checks() {
    let c = config(true);
    let copy = CopyMessageInput {
        account_id: "work".to_owned(),
        message_id: "m".to_owned(),
        destination_mailbox: "Archive".to_owned(),
        destination_account_id: None,
    };
    let (id, dest) = check_copy_message(&c, &copy, Ok(mid("work", 1))).expect("valid");
    assert_eq!(dest, "work");
    assert_eq!(id.uid, 1);
    assert!(check_copy_message(&config(false), &copy, Ok(mid("work", 1))).is_err());
    let del = DeleteMessageInput { account_id: "work".to_owned(), message_id: "m".to_owned(), confirm: false };
    assert_eq!(
        check_delete_message(&c, &del, Ok(mid("work", 1))).err().expect("confirm").detail(),
        "delete requires confirm=true"
    );
}

#[test]
fn append_and_bulk_request_checks() {
    let c = config(true);
    let a = AppendMessageInput { account_id: "work".to_owned(), mailbox: "INBOX".to_owned(), raw_message: String::new() };
    assert_eq!(check_append_message(&c, &a).expect_err("empty").detail(), "raw_message must not be empty");
    let b = BulkUpdateFlagsInput {
        account_id: "work".to_owned(),
        message_ids: vec!["m1".to_owned()],
        add_flags: Some(vec![]),
        remove_flags: None,
    };
    assert_eq!(
        check_bulk_update_flags(&c, &b, vec![Ok(mid("work", 1))]).err().expect("flags").detail(),
        "at least one of add_flags or remove_flags is required"
    );
    let b = BulkUpdateFlagsInput { add_flags: Some(vec!["\\Seen".to_owned()]), ..b };
    let parsed = check_bulk_update_flags(&c, &b, vec![Ok(mid("work", 1))]).expect("valid");
    assert_eq!(parsed.uids, vec![1]);
}

#[test]
fn search_and_delete_batches() {
    let c = config(true);
    let criteria = SearchCriteria {
        query: None,
        from: Some("spam@x.org".to_owned()),
        to: None,
        subject: None,
        unread_only: None,
        last_days: None,
        start_date: None,
        end_date: None,
    };
    let req = SearchAndDeleteInput {
        account_id: "work".to_owned(),
        mailbox: "INBOX".to_owned(),
        confirm: true,
        criteria,
        limit: 1000,
    };
    let batch = check_search_and_delete(&c, &req).expect("valid");
    assert_eq!(batch.limit, 500);
    assert_eq!(batch.search.limit, 1);
    let (taken, remaining) = take_batch(&vec![5, 4, 3, 2, 1], 2);
    assert_eq!(taken, vec![5, 4]);
    assert_eq!(remaining, 3);
    assert_eq!(
        check_batch_uidvalidity(1, 2, "delete").expect_err("changed").detail(),
        "UIDVALIDITY changed between search and delete"
    );
}

#[test]
fn errors_map_to_protocol_errors() {
    let data = AppError::InvalidInput("bad".to_owned()).to_error_data();
    assert_eq!(data.code, rmcp::model::ErrorCode::INVALID_PARAMS);
    assert_eq!(data.message, "bad");
    let expected: serde_json::Value = serde_json::from_str("{\"code\": \"invalid_input\"}").unwrap();
    assert_eq!(data.data, Some(expected));
    let data = AppError::NotFound("x".to_owned()).to_error_data();
    assert_eq!(data.code, rmcp::model::ErrorCode::RESOURCE_NOT_FOUND);
    let data = AppError::Conflict("x".to_owned()).to_error_data();
    assert_eq!(data.code, rmcp::model::ErrorCode::INVALID_REQUEST);
    let expected: serde_json::Value = serde_json::from_str("{\"code\": \"conflict\"}").unwrap();
    assert_eq!(data.data, Some(expected));
    let data = AppError::Timeout("x".to_owned()).to_error_data();
    assert_eq!(data.code, rmcp::model::ErrorCode::INTERNAL_ERROR);
    assert_eq!(AppError::invalid("m").message_text(), "invalid input: m");
}

#[test]
fn elapsed_time_is_small_right_away() {
    let started = std::time::Instant::now();
    assert!(mail_mcp::tools::duration_ms(started) < 60_000);
}

#[test]
fn account_listing_does_not_depend_on_passwords() {
    let listing_with = |pass: &str| {
        let mut env = EnvMap::new();
        env.insert("MAIL_IMAP_WORK_HOST".to_owned(), "imap.work".to_owned());
        env.insert("MAIL_IMAP_WORK_USER".to_owned(), "w@x.org".to_owned());
        env.insert("MAIL_IMAP_WORK_PASS".to_owned(), pass.to_owned());
        let c = ServerConfig::load_from_env(&env).expect("config");
        list_accounts(&c)
            .accounts
            .into_iter()
            .map(|a| (a.account_id, a.host, a.port, a.secure))
            .collect::<Vec<_>>()
    };
    assert_eq!(listing_with("one"), listing_with("two"));
    assert_eq!(listing_with("one"), vec![("work".to_owned(), "imap.work".to_owned(), 993, true)]);
}
