use mail_mcp::compose::sent_copy_now;
use mail_mcp::config::ServerConfig;
use mail_mcp::env::EnvMap;
use mail_mcp::errors::AppError;
use mail_mcp::ids::MessageId;
use mail_mcp::ops::{
    check_bulk_delete, check_bulk_move, check_bulk_uidvalidity, check_create_mailbox,
    check_delete_mailbox, check_get_message_raw, check_mailbox_status, check_message_uidvalidity,
    check_move_message, check_rename_mailbox, check_search_and_move, check_update_flags,
    copy_next, copy_stage, final_status, BulkDeleteInput, BulkMoveInput, CopyNext, CopyStep,
    CreateMailboxInput, DeleteMailboxInput, GetMessageRawInput, MailboxStatusInput,
    MoveMessageInput, RenameMailboxInput, SearchAndMoveInput, SearchCriteria, StepLog,
    UpdateMessageFlagsInput,
};
use mail_mcp::registry::Registry;
use mail_mcp::smtp::EmailComposition;
use mail_mcp::tools::{normalize_capabilities, ToolIssue};

fn config(write: bool) -> ServerConfig {
    let mut env = EnvMap::new();
    for (k, v) in [
        ("MAIL_IMAP_WORK_HOST", "imap.work"),
        ("MAIL_IMAP_WORK_USER", "w@x.org"),
        ("MAIL_IMAP_WORK_PASS", "pw"),
    ] {
        env.insert(k.to_owned(), v.to_owned());
    }
    if write {
        env.insert("MAIL_IMAP_WRITE_ENABLED".to_owned(), "yes".to_owned());
    }
    ServerConfig::load_from_env(&env).expect("config")
}

fn mid(mailbox: &str, uidvalidity: u32, uid: u32) -> MessageId {
    MessageId { account_id: "work".to_owned(), mailbox: mailbox.to_owned(), uidvalidity, uid }
}

#[test]
fn mailbox_management_checks() {
    let c = config(true);
    let create = CreateMailboxInput { account_id: "work".to_owned(), mailbox_name: "Projects".to_owned() };
    assert!(check_create_mailbox(&c, &create).is_ok());
    assert!(check_create_mailbox(&config(false), &create).is_err());
    let delete = DeleteMailboxInput { account_id: "work".to_owned(), mailbox_name: "Old".to_owned(), confirm: false };
    assert_eq!(
        check_delete_mailbox(&c, &delete).expect_err("confirm").detail(),
        "delete mailbox requires confirm=true"
    );
    let rename = RenameMailboxInput { account_id: "work".to_owned(), from_name: "A".to_owned(), to_name: String::new() };
    assert_eq!(
        check_rename_mailbox(&c, &rename).expect_err("empty").detail(),
        "mailbox must be 1..256 characters"
    );
    let status = MailboxStatusInput { account_id: "bad id".to_owned(), mailbox: "INBOX".to_owned() };
    assert_eq!(
        check_mailbox_status(&status).expect_err("id").detail(),
        "account_id must match [A-Za-z0-9_-]+"
    );
}

#[test]
fn message_request_checks() {
    let c = config(true);
    let raw = GetMessageRawInput { account_id: "work".to_owned(), message_id: "m".to_owned(), max_bytes: 10 };
    assert_eq!(
        check_get_message_raw(&raw, Ok(mid("INBOX", 1, 2))).expect_err("small").detail(),
        "max_bytes must be in range 1024..1000000"
    );
    let mv = MoveMessageInput { account_id: "work".to_owned(), message_id: "m".to_owned(), destination_mailbox: "Archive".to_owned() };
    assert_eq!(check_move_message(&c, &mv, Ok(mid("INBOX", 1, 2))).expect("valid").uid, 2);
    let upd = UpdateMessageFlagsInput {
        account_id: "work".to_owned(),
        message_id: "m".to_owned(),
        add_flags: None,
        remove_flags: Some(vec!["\\Flagged".to_owned()]),
    };
    let u = check_update_flags(&c, &upd, Ok(mid("INBOX", 1, 2))).expect("valid");
    assert!(u.add_flags.is_empty());
    assert_eq!(u.remove_flags, vec!["\\Flagged".to_owned()]);
    let none = UpdateMessageFlagsInput { remove_flags: None, ..upd };
    assert_eq!(
        check_update_flags(&c, &none, Ok(mid("INBOX", 1, 2))).err().expect("none").detail(),
        "at least one of add_flags/remove_flags is required"
    );
    assert_eq!(
        check_message_uidvalidity(4, 5).expect_err("stale").detail(),
        "message uidvalidity no longer matches mailbox"
    );
    assert!(check_message_uidvalidity(4, 4).is_ok());
}

#[test]
fn bulk_request_checks() {
    let c = config(true);
    let mv = BulkMoveInput {
        account_id: "work".to_owned(),
        message_ids: vec!["a".to_owned(), "b".to_owned()],
        destination_mailbox: "Archive".to_owned(),
    };
    let parsed = check_bulk_move(&c, &mv, vec![Ok(mid("INBOX", 3, 1)), Ok(mid("INBOX", 3, 2))]).expect("valid");
    assert_eq!(parsed.uids, vec![1, 2]);
    let err = check_bulk_move(&c, &mv, vec![Ok(mid("INBOX", 3, 1)), Err(AppError::invalid("bad id"))])
        .expect_err("bad");
    assert_eq!(err.detail(), "bad id");
    let del = BulkDeleteInput { account_id: "work".to_owned(), message_ids: vec!["a".to_owned()], confirm: false };
    assert_eq!(
        check_bulk_delete(&c, &del, vec![Ok(mid("INBOX", 3, 1))]).expect_err("confirm").detail(),
        "bulk delete requires confirm=true"
    );
    assert_eq!(
        check_bulk_uidvalidity(3, 4).expect_err("stale").detail(),
        "UIDVALIDITY changed; message IDs may be stale"
    );
}

#[test]
fn search_and_move_checks() {
    let c = config(true);
    let req = SearchAndMoveInput {
        account_id: "work".to_owned(),
        mailbox: "INBOX".to_owned(),
        destination_mailbox: "Archive".to_owned(),
        criteria: SearchCriteria {
            query: None,
            from: None,
            to: None,
            subject: None,
            unread_only: Some(true),
            last_days: Some(0),
            start_date: None,
            end_date: None,
        },
        limit: 0,
    };
    assert_eq!(
        check_search_and_move(&c, &req).err().expect("days").detail(),
        "last_days must be in range 1..365"
    );
    let req = SearchAndMoveInput { criteria: SearchCriteria { last_days: Some(30), ..req.criteria }, ..req };
    let batch = check_search_and_move(&c, &req).expect("valid");
    assert_eq!(batch.limit, 1);
    assert_eq!(batch.search.unread_only, Some(true));
}

#[test]
fn copy_steps_within_and_across_accounts() {
    assert_eq!(copy_next(CopyStep::ConnectSource, true, true), CopyNext::Run(CopyStep::UidCopy));
    assert_eq!(copy_next(CopyStep::ConnectSource, false, true), CopyNext::Run(CopyStep::FetchRawSource));
    assert_eq!(copy_next(CopyStep::ConnectSource, false, false), CopyNext::Finish { forced_failed: true });
    assert_eq!(copy_next(CopyStep::FetchRawSource, false, false), CopyNext::Finish { forced_failed: true });
    assert_eq!(copy_next(CopyStep::ConnectDestination, false, false), CopyNext::Finish { forced_failed: false });
    assert_eq!(copy_next(CopyStep::ConnectDestination, false, true), CopyNext::Run(CopyStep::AppendDestination));
    assert_eq!(copy_stage(CopyStep::AppendDestination), "append_destination");
    let mut log = StepLog::new();
    log.succeed();
    log.fail(ToolIssue::from_error("fetch_raw_message_source", &AppError::Timeout("t".to_owned())));
    assert_eq!(final_status(true, &log), "failed");
    assert_eq!(final_status(false, &log), "partial");
}

#[test]
fn capabilities_sorted_and_bounded() {
    let caps = vec!["IMAP4rev1".to_owned(), "AUTH=PLAIN".to_owned(), "IDLE".to_owned(), "IDLE".to_owned()];
    assert_eq!(
        normalize_capabilities(caps),
        vec!["AUTH=PLAIN".to_owned(), "IDLE".to_owned(), "IDLE".to_owned(), "IMAP4rev1".to_owned()]
    );
    let many: Vec<String> = (0..300).map(|i| format!("X{i:03}")).rev().collect();
    let out = normalize_capabilities(many);
    assert_eq!(out.len(), 256);
    assert_eq!(out[0], "X000");
    assert_eq!(out[255], "X255");
}

#[test]
fn sent_copy_is_dated() {
    let comp = EmailComposition {
        from: "a@x.org".to_owned(),
        to: vec!["b@x.org".to_owned(), "c@x.org".to_owned()],
        cc: vec![],
        bcc: vec![],
        subject: "S".to_owned(),
        body_text: None,
        body_html: None,
        reply_to: None,
        in_reply_to: None,
        references: Some("<r@x>".to_owned()),
    };
    let copy = sent_copy_now(&comp);
    assert!(copy.starts_with("From: a@x.org\r\nTo: b@x.org, c@x.org\r\nSubject: S\r\nDate: "));
    assert!(copy.ends_with("\r\nReferences: <r@x>\r\n\r\n"));
}

#[test]
fn registry_insert_replaces_and_keeps_order() {
    let c = config(false);
    let mut reg = Registry::new();
    for entry in c.accounts.entries() {
        reg.insert(mail_mcp::config::AccountConfig {
            account_id: entry.account_id.clone(),
            host: "first".to_owned(),
            port: entry.port,
            secure: entry.secure,
            user: entry.user.clone(),
            pass: entry.pass.clone(),
            auth_method: entry.auth_method,
        });
    }
    reg.insert(mail_mcp::config::AccountConfig {
        account_id: "work".to_owned(),
        host: "second".to_owned(),
        port: 1,
        secure: false,
        user: "u".to_owned(),
        pass: None,
        auth_method: mail_mcp::config::AuthMethod::Password,
    });
    reg.insert(mail_mcp::config::AccountConfig {
        account_id: "alpha".to_owned(),
        host: "third".to_owned(),
        port: 2,
        secure: true,
        user: "u".to_owned(),
        pass: None,
        auth_method: mail_mcp::config::AuthMethod::Password,
    });
    let ids: Vec<&str> = reg.entries().iter().map(|a| a.account_id.as_str()).collect();
    assert_eq!(ids, vec!["alpha", "work"]);
    assert_eq!(reg.get("work").map(|a| a.host.as_str()), Some("second"));
    assert!(reg.contains_key("alpha"));
    assert!(!reg.contains_key("beta"));
}

#[test]
fn search_and_delete_needs_confirmation() {
    let c = config(true);
    let req = mail_mcp::ops::SearchAndDeleteInput {
        account_id: "work".to_owned(),
        mailbox: "INBOX".to_owned(),
        confirm: false,
        criteria: SearchCriteria {
            query: Some("x".to_owned()),
            from: None,
            to: None,
            subject: None,
            unread_only: None,
            last_days: None,
            start_date: None,
            end_date: None,
        },
        limit: 10,
    };
    assert_eq!(
        mail_mcp::ops::check_search_and_delete(&c, &req).err().expect("confirm").detail(),
        "search_and_delete requires confirm=true"
    );
    let disabled = config(false);
    assert_eq!(
        mail_mcp::ops::check_search_and_delete(&disabled, &req).err().expect("disabled").detail(),
        "write tools are disabled; set MAIL_IMAP_WRITE_ENABLED=true"
    );
}

#[test]
fn accounts_are_stored_under_their_ids() {
    let c = config(false);
    for a in c.accounts.entries() {
        assert_eq!(c.get_account(&a.account_id).expect("stored").account_id, a.account_id);
    }
}
