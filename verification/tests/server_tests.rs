use base64::Engine;
use mail_mcp::encode::{build_message_raw_uri, build_message_uri, encode_raw_source_base64};
use mail_mcp::errors::AppError;
use mail_mcp::ids::{parse_and_validate_message_id, parse_bulk_message_ids, uid_set, MessageId};
use mail_mcp::validate::{
    escape_imap_quoted, header_value, validate_account_id, validate_bulk_ids, validate_chars,
    validate_email_recipients, validate_flag, validate_flags, validate_mailbox,
    validate_search_text,
};

#[test]
fn rejects_control_chars_in_search_text() {
    let err = validate_search_text("hello\nworld").expect_err("must fail");
    assert!(err.message_text().contains("control characters"));
}

#[test]
fn rejects_control_chars_in_mailbox() {
    let err = validate_mailbox("INBOX\r").expect_err("must fail");
    assert!(err.message_text().contains("control characters"));
}

#[test]
fn escape_rejects_linebreaks() {
    let err = escape_imap_quoted("a\nb").expect_err("must fail");
    assert!(err.message_text().contains("control characters"));
}

#[test]
fn validate_flag_allows_common_flags() {
    validate_flag("\\Seen").expect("system flag must be valid");
    validate_flag("Important").expect("keyword flag must be valid");
    validate_flag("$MailFlagBit0").expect("keyword flag must be valid");
}

#[test]
fn validate_flag_rejects_injection_like_value() {
    let err = validate_flag("\\Seen) UID FETCH 1:* (BODY[]").expect_err("must fail");
    assert!(err.message_text().contains("invalid flag"));
}

#[test]
fn encodes_raw_source_as_base64() {
    let raw = [0_u8, 159, 255];
    assert_eq!(encode_raw_source_base64(&raw), "AJ//");
}

#[test]
fn base64_pads_short_input() {
    assert_eq!(encode_raw_source_base64(b"a"), "YQ==");
    assert_eq!(encode_raw_source_base64(b"ab"), "YWI=");
    assert_eq!(encode_raw_source_base64(b""), "");
}

#[test]
fn escapes_quotes_and_backslashes() {
    assert_eq!(escape_imap_quoted("say \"hi\" \\o/").expect("valid"), "say \\\"hi\\\" \\\\o/");
    let err = escape_imap_quoted("").expect_err("must fail");
    assert_eq!(err.detail(), "search text fields must be 1..256 chars");
}

#[test]
fn account_id_rules() {
    validate_account_id("work_1-a").expect("valid");
    assert_eq!(
        validate_account_id("").expect_err("empty").detail(),
        "account_id must be 1..64 characters"
    );
    assert_eq!(
        validate_account_id("a b").expect_err("space").detail(),
        "account_id must match [A-Za-z0-9_-]+"
    );
    assert!(validate_account_id(&"a".repeat(65)).is_err());
    assert!(validate_account_id(&"a".repeat(64)).is_ok());
}

#[test]
fn mailbox_length_counts_bytes() {
    assert!(validate_mailbox(&"é".repeat(128)).is_ok());
    assert_eq!(
        validate_mailbox(&"é".repeat(129)).expect_err("too long").detail(),
        "mailbox must be 1..256 characters"
    );
}

#[test]
fn range_check_message() {
    let err = validate_chars(5, 100, 20000, "body_max_chars").expect_err("too small");
    assert_eq!(err.detail(), "body_max_chars must be in range 100..20000");
    assert!(validate_chars(100, 100, 20000, "body_max_chars").is_ok());
}

#[test]
fn flags_list_reports_first_invalid_flag() {
    let flags = vec!["\\Seen".to_owned(), "bad flag".to_owned(), "(x".to_owned()];
    let err = validate_flags(&flags, "add_flags").expect_err("must fail");
    assert_eq!(
        err.detail(),
        "add_flags contains invalid flag 'bad flag'; flags must not contain whitespace, control chars, quotes, parentheses, or braces"
    );
    assert!(validate_flag("\\").is_err());
}

#[test]
fn recipients_rules() {
    let none: Vec<String> = vec![];
    assert_eq!(
        validate_email_recipients(&none, "to").expect_err("empty").detail(),
        "to must have at least one recipient"
    );
    let bad = vec!["a@b.com".to_owned(), "nobody".to_owned()];
    assert_eq!(
        validate_email_recipients(&bad, "cc").expect_err("bad").detail(),
        "invalid email address in cc: 'nobody'"
    );
    let many: Vec<String> = (0..51).map(|i| format!("u{i}@x.org")).collect();
    assert_eq!(
        validate_email_recipients(&many, "bcc").expect_err("many").detail(),
        "bcc must have at most 50 recipients"
    );
}

#[test]
fn bulk_id_list_bounds() {
    let none: Vec<String> = vec![];
    assert_eq!(validate_bulk_ids(&none).expect_err("empty").detail(), "message_ids must not be empty");
    let many: Vec<String> = (0..501).map(|i| i.to_string()).collect();
    assert_eq!(
        validate_bulk_ids(&many).expect_err("many").detail(),
        "message_ids exceeds maximum of 500"
    );
}

#[test]
fn header_lookup_ignores_case_and_takes_first() {
    let headers = vec![
        ("Subject".to_owned(), "one".to_owned()),
        ("SUBJECT".to_owned(), "two".to_owned()),
    ];
    assert_eq!(header_value(&headers, "subject").as_deref(), Some("one"));
    assert_eq!(header_value(&headers, "from"), None);
}

#[test]
fn message_uris_percent_encode_the_mailbox() {
    assert_eq!(
        build_message_uri("work", "INBOX/Sent Items", 7, 42),
        "imap://work/mailbox/INBOX%2FSent%20Items/message/7/42"
    );
    assert_eq!(
        build_message_raw_uri("work", "Ü", 1, 2),
        "imap://work/mailbox/%C3%9C/message/1/2/raw"
    );
}

fn mid(account: &str, mailbox: &str, uidvalidity: u32, uid: u32) -> MessageId {
    MessageId {
        account_id: account.to_owned(),
        mailbox: mailbox.to_owned(),
        uidvalidity,
        uid,
    }
}

#[test]
fn message_id_must_belong_to_the_account() {
    let ok = parse_and_validate_message_id("work", Ok(mid("work", "INBOX", 1, 2))).expect("valid");
    assert_eq!(ok.uid, 2);
    let err = parse_and_validate_message_id("home", Ok(mid("work", "INBOX", 1, 2))).expect_err("other");
    assert_eq!(err.detail(), "message_id account does not match account_id");
    let err = parse_and_validate_message_id("work", Ok(mid("work", "IN\rBOX", 1, 2))).expect_err("ctl");
    assert_eq!(err.detail(), "mailbox must not contain control characters");
    let err = parse_and_validate_message_id("work", Err(AppError::invalid("bad id"))).expect_err("bad");
    assert_eq!(err.detail(), "bad id");
}

#[test]
fn bulk_ids_share_mailbox_and_uidvalidity() {
    let parsed = vec![Ok(mid("a", "INBOX", 9, 1)), Ok(mid("a", "INBOX", 9, 5))];
    let bulk = parse_bulk_message_ids("a", parsed).expect("valid");
    assert_eq!(bulk.mailbox, "INBOX");
    assert_eq!(bulk.uidvalidity, 9);
    assert_eq!(bulk.uids, vec![1, 5]);
    assert_eq!(uid_set(&bulk.uids), "1,5");

    let parsed = vec![Ok(mid("a", "INBOX", 9, 1)), Ok(mid("a", "Archive", 9, 5))];
    let err = parse_bulk_message_ids("a", parsed).expect_err("mixed mailboxes");
    assert_eq!(err.detail(), "all message_ids must be from the same mailbox");

    let parsed = vec![Ok(mid("a", "INBOX", 9, 1)), Ok(mid("a", "INBOX", 10, 5))];
    let err = parse_bulk_message_ids("a", parsed).expect_err("mixed uidvalidity");
    assert_eq!(err.detail(), "all message_ids must have the same uidvalidity");
}

#[test]
fn uid_set_of_single_and_empty_lists() {
    assert_eq!(uid_set(&[42]), "42");
    assert_eq!(uid_set(&[]), "");
}

#[test]
fn raw_source_base64_reads_back() {
    for raw in [&b""[..], b"a", b"ab", b"abc", b"Subject: x\r\n\r\nbody \xff\x00"] {
        let text = encode_raw_source_base64(raw);
        let back = base64::engine::general_purpose::STANDARD.decode(text).expect("decode");
        assert_eq!(back, raw);
    }
}
