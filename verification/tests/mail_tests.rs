use mail_mcp::compose::{
    check_original_uidvalidity, classify_send_error, classify_verify_error, detect_sent_folder,
    forward_composition, forward_subject, original_headers, other_recipients, reply_composition,
    reply_references, reply_source, reply_subject, send_composition, send_summary,
    sent_copy_rfc822, validate_send_input, SmtpSendMessageInput,
};
use mail_mcp::config::ServerConfig;
use mail_mcp::env::EnvMap;
use mail_mcp::graph::{
    build_send_mail_request, read_send_response, recipient, recipients, request_failed,
    GraphEmailParams,
};
use mail_mcp::mail::{body_kind, build_message, message_builder, BodyKind};
use mail_mcp::smtp::{EmailComposition, SmtpSecurity};

#[test]
fn smtp_security_parse_accepts_valid_values() {
    assert_eq!(SmtpSecurity::parse("tls").unwrap(), SmtpSecurity::Tls);
    assert_eq!(SmtpSecurity::parse("ssl").unwrap(), SmtpSecurity::Tls);
    assert_eq!(SmtpSecurity::parse("STARTTLS").unwrap(), SmtpSecurity::Starttls);
    assert_eq!(SmtpSecurity::parse("plain").unwrap(), SmtpSecurity::Plain);
    assert_eq!(SmtpSecurity::parse("none").unwrap(), SmtpSecurity::Plain);
}

#[test]
fn smtp_security_parse_rejects_invalid() {
    assert!(SmtpSecurity::parse("invalid").is_err());
    assert_eq!(
        SmtpSecurity::parse(" Bogus ").err().expect("invalid").detail(),
        "unsupported SMTP security mode 'bogus'; expected 'tls', 'starttls', or 'plain'"
    );
}

fn composition() -> EmailComposition {
    EmailComposition {
        from: "sender@example.com".to_owned(),
        to: vec!["recipient@example.com".to_owned()],
        cc: vec![],
        bcc: vec![],
        subject: "Test subject".to_owned(),
        body_text: Some("Hello, world!".to_owned()),
        body_html: None,
        reply_to: None,
        in_reply_to: None,
        references: None,
    }
}

#[test]
fn build_message_text_only() {
    let comp = composition();
    let msg = build_message(&comp).unwrap();
    let binding = msg.formatted();
    let formatted = String::from_utf8_lossy(&binding);
    assert!(formatted.contains("Subject: Test subject"));
    assert!(formatted.contains("Hello, world!"));
}

#[test]
fn build_message_multipart() {
    let comp = EmailComposition {
        subject: "Multipart test".to_owned(),
        body_text: Some("Plain text".to_owned()),
        body_html: Some("<p>HTML text</p>".to_owned()),
        ..composition()
    };
    let msg = build_message(&comp).unwrap();
    let binding = msg.formatted();
    let formatted = String::from_utf8_lossy(&binding);
    assert!(formatted.contains("multipart/alternative"));
    assert!(formatted.contains("Plain text"));
    assert!(formatted.contains("<p>HTML text</p>"));
}

#[test]
fn build_message_with_reply_headers() {
    let comp = EmailComposition {
        subject: "Re: Original".to_owned(),
        body_text: Some("Reply body".to_owned()),
        in_reply_to: Some("<original@example.com>".to_owned()),
        references: Some("<original@example.com>".to_owned()),
        ..composition()
    };
    let msg = build_message(&comp).unwrap();
    let binding = msg.formatted();
    let formatted = String::from_utf8_lossy(&binding);
    assert!(formatted.contains("In-Reply-To: <original@example.com>"));
    assert!(formatted.contains("References: <original@example.com>"));
}

#[test]
fn build_message_rejects_invalid_from() {
    let comp = EmailComposition {
        from: "not-an-email".to_owned(),
        subject: "Test".to_owned(),
        body_text: Some("body".to_owned()),
        ..composition()
    };
    assert!(build_message(&comp).is_err());
    let err = build_message(&comp).err().expect("invalid");
    assert!(err.detail().starts_with("invalid From address 'not-an-email': "));
}

#[test]
fn build_message_multiple_recipients() {
    let comp = EmailComposition {
        to: vec!["a@example.com".to_owned(), "b@example.com".to_owned()],
        cc: vec!["c@example.com".to_owned()],
        bcc: vec!["d@example.com".to_owned()],
        subject: "Multi-recipient".to_owned(),
        body_text: Some("body".to_owned()),
        ..composition()
    };
    let msg = build_message(&comp).unwrap();
    let binding = msg.formatted();
    let formatted = String::from_utf8_lossy(&binding);
    assert!(formatted.contains("a@example.com"));
    assert!(formatted.contains("b@example.com"));
    assert!(formatted.contains("Cc:"));
}

#[test]
fn build_message_reports_bad_cc_address() {
    let comp = EmailComposition { cc: vec!["ok@example.com".to_owned(), "bad".to_owned()], ..composition() };
    let err = build_message(&comp).err().expect("invalid");
    assert!(err.detail().starts_with("invalid Cc address 'bad': "));
    assert_eq!(err.code(), "invalid_input");
}

#[test]
fn recipient_builds_correct_structure() {
    let r = recipient("test@example.com");
    assert_eq!(r.email_address.address, "test@example.com");
}

#[test]
fn recipients_builds_list() {
    let addrs = vec!["a@b.com".to_owned(), "c@d.com".to_owned()];
    let rs = recipients(&addrs);
    assert_eq!(rs.len(), 2);
    assert_eq!(rs[0].email_address.address, "a@b.com");
}

#[test]
fn graph_request_prefers_html_and_sets_references() {
    let params = GraphEmailParams {
        to: vec!["to@test.com".to_owned()],
        cc: vec![],
        bcc: vec![],
        subject: "Test".to_owned(),
        body_text: Some("Hello".to_owned()),
        body_html: Some("<b>Hello</b>".to_owned()),
        reply_to: Some("r@test.com".to_owned()),
        in_reply_to: None,
        references: Some("<a@b>".to_owned()),
        save_to_sent: true,
    };
    let req = build_send_mail_request(&params);
    assert_eq!(req.message.body.content_type, "HTML");
    assert_eq!(req.message.body.content, "<b>Hello</b>");
    assert_eq!(req.message.to_recipients[0].email_address.address, "to@test.com");
    assert_eq!(req.message.reply_to.as_ref().map(|v| v.len()), Some(1));
    let headers = req.message.internet_message_headers.expect("headers");
    assert_eq!(headers[0].name, "References");
    assert!(req.save_to_sent_items);
    let plain = GraphEmailParams { body_html: None, references: None, ..params };
    let req = build_send_mail_request(&plain);
    assert_eq!(req.message.body.content_type, "Text");
    assert!(req.message.internet_message_headers.is_none());
}

#[test]
fn graph_responses() {
    assert!(read_send_response(202, "202 Accepted", "").is_ok());
    let err = read_send_response(403, "403 Forbidden", "no scope").expect_err("auth");
    assert_eq!(err.code(), "auth_failed");
    assert_eq!(err.detail(), "Graph API authentication failed (403 Forbidden): no scope");
    let err = read_send_response(500, "500 Internal Server Error", "boom").expect_err("internal");
    assert_eq!(err.detail(), "Graph API sendMail failed (500 Internal Server Error): boom");
    assert_eq!(request_failed("dns").detail(), "Graph API request failed: dns");
    let err = read_send_response(400, "400 Bad Request", "bad address").expect_err("invalid");
    assert_eq!(err.code(), "invalid_input");
    assert_eq!(err.detail(), "Graph API rejected the message (400 Bad Request): bad address");
}

#[test]
fn reply_and_forward_subjects_do_not_stack() {
    assert_eq!(reply_subject("Hello"), "Re: Hello");
    assert_eq!(reply_subject("RE: Hello"), "RE: Hello");
    assert_eq!(reply_subject(&reply_subject("x")), reply_subject("x"));
    assert_eq!(forward_subject("Hello"), "Fwd: Hello");
    assert_eq!(forward_subject("fwd: Hello"), "fwd: Hello");
}

#[test]
fn reply_threading_headers() {
    assert_eq!(reply_references(&Some("<a@x>".to_owned()), "<b@x>"), "<a@x> <b@x>");
    assert_eq!(reply_references(&None, "<b@x>"), "<b@x>");
}

#[test]
fn reply_all_leaves_out_the_sender() {
    assert_eq!(
        other_recipients(" Bob <bob@x.org>, ME@X.ORG ,, carol@x.org", "me@x.org"),
        vec!["Bob <bob@x.org>".to_owned(), "carol@x.org".to_owned()]
    );
    let raw = b"From: alice@x.org\r\nTo: me@x.org, bob@x.org\r\nCc: carol@x.org\r\nSubject: Plan\r\nMessage-ID: <m1@x.org>\r\n\r\nbody\r\n";
    let headers = original_headers(raw).expect("parses");
    let src = reply_source(&headers);
    assert_eq!(src.from, "alice@x.org");
    let reply = reply_composition("Me@X.org", &src, true, "ok".to_owned(), None);
    assert_eq!(reply.to, vec!["alice@x.org".to_owned(), "bob@x.org".to_owned()]);
    assert_eq!(reply.cc, vec!["carol@x.org".to_owned()]);
    assert_eq!(reply.subject, "Re: Plan");
    assert_eq!(reply.in_reply_to.as_deref(), Some("<m1@x.org>"));
    assert_eq!(reply.references.as_deref(), Some("<m1@x.org>"));
    let single = reply_composition("me@x.org", &src, false, "ok".to_owned(), None);
    assert_eq!(single.to, vec!["alice@x.org".to_owned()]);
    assert!(single.cc.is_empty());
}

#[test]
fn forward_quotes_the_original() {
    let headers = vec![
        ("From".to_owned(), "alice@x.org".to_owned()),
        ("Date".to_owned(), "Mon, 1 Jan 2024 00:00:00 +0000".to_owned()),
        ("Subject".to_owned(), "Plan".to_owned()),
    ];
    let fwd = forward_composition("me@x.org", &vec!["bob@x.org".to_owned()], &headers, &Some("FYI".to_owned()), "the plan");
    assert_eq!(fwd.subject, "Fwd: Plan");
    assert_eq!(
        fwd.body_text.as_deref(),
        Some("FYI\n\n---------- Forwarded message ----------\nFrom: alice@x.org\nDate: Mon, 1 Jan 2024 00:00:00 +0000\nSubject: Plan\n\nthe plan")
    );
}

fn send_input() -> SmtpSendMessageInput {
    SmtpSendMessageInput {
        account_id: "work".to_owned(),
        to: vec!["a@x.org".to_owned()],
        cc: vec![],
        bcc: vec!["b@x.org".to_owned()],
        subject: "Hi".to_owned(),
        body_text: None,
        body_html: None,
        reply_to: None,
        in_reply_to: None,
        references: None,
    }
}

#[test]
fn send_request_checks() {
    let mut env = EnvMap::new();
    for (k, v) in [
        ("MAIL_IMAP_WORK_HOST", "h"),
        ("MAIL_IMAP_WORK_USER", "u"),
        ("MAIL_IMAP_WORK_PASS", "p"),
        ("MAIL_SMTP_WRITE_ENABLED", "true"),
    ] {
        env.insert(k.to_owned(), v.to_owned());
    }
    let config = ServerConfig::load_from_env(&env).expect("config");
    assert_eq!(
        validate_send_input(&config, &send_input()).expect_err("no body").detail(),
        "at least one of body_text or body_html is required"
    );
    let ok = SmtpSendMessageInput { body_text: Some("b".to_owned()), ..send_input() };
    assert!(validate_send_input(&config, &ok).is_ok());
    let comp = send_composition("u@x.org", &ok);
    assert_eq!(comp.from, "u@x.org");
    assert_eq!(comp.bcc, vec!["b@x.org".to_owned()]);
    let (n, summary) = send_summary(&ok);
    assert_eq!(n, 2);
    assert_eq!(summary, "Email sent to 2 recipient(s)");
}

#[test]
fn sent_folder_detection() {
    let names = vec!["INBOX".to_owned(), "[Gmail]/Sent Mail".to_owned(), "Sent".to_owned()];
    assert_eq!(detect_sent_folder(&names), "[Gmail]/Sent Mail");
    assert_eq!(detect_sent_folder(&["INBOX".to_owned()]), "Sent");
    assert_eq!(detect_sent_folder(&["Sent Items".to_owned()]), "Sent Items");
}

#[test]
fn sent_copy_layout() {
    let comp = EmailComposition {
        cc: vec!["c@x.org".to_owned()],
        in_reply_to: Some("<m@x>".to_owned()),
        ..composition()
    };
    assert_eq!(
        sent_copy_rfc822(&comp, "Mon, 1 Jan 2024 00:00:00 +0000"),
        "From: sender@example.com\r\nTo: recipient@example.com\r\nSubject: Test subject\r\nDate: Mon, 1 Jan 2024 00:00:00 +0000\r\nCc: c@x.org\r\nIn-Reply-To: <m@x>\r\n\r\nHello, world!"
    );
}

#[test]
fn smtp_error_classification() {
    assert_eq!(classify_send_error("535 5.7.8 bad credentials").code(), "auth_failed");
    assert_eq!(classify_send_error("Authentication required").code(), "auth_failed");
    assert_eq!(classify_send_error("connection reset").detail(), "SMTP send failed: connection reset");
    assert_eq!(classify_verify_error("535 denied").code(), "internal");
    assert_eq!(
        check_original_uidvalidity(7, 8).expect_err("mismatch").detail(),
        "UIDVALIDITY mismatch: message_id has 7 but mailbox has 8"
    );
}

#[test]
fn unparsable_original_is_internal() {
    assert!(original_headers(b"Subject: ok\r\n\r\n").is_ok());
}

#[test]
fn body_kind_follows_the_bodies() {
    let mut comp = EmailComposition {
        from: "sender@example.com".to_owned(),
        to: vec!["recipient@example.com".to_owned()],
        cc: vec![],
        bcc: vec![],
        subject: "s".to_owned(),
        body_text: Some("t".to_owned()),
        body_html: Some("<p>h</p>".to_owned()),
        reply_to: None,
        in_reply_to: None,
        references: None,
    };
    assert_eq!(body_kind(&comp), BodyKind::Alternative);
    comp.body_html = None;
    assert_eq!(body_kind(&comp), BodyKind::Plain);
    comp.body_text = None;
    assert_eq!(body_kind(&comp), BodyKind::Empty);
    comp.body_html = Some("<p>h</p>".to_owned());
    assert_eq!(body_kind(&comp), BodyKind::Html);
}

#[test]
fn message_builder_sets_the_recipient_fields() {
    let comp = EmailComposition {
        from: "sender@example.com".to_owned(),
        to: vec!["a@example.com".to_owned()],
        cc: vec!["c@example.com".to_owned()],
        bcc: vec![],
        subject: "Fields".to_owned(),
        body_text: None,
        body_html: None,
        reply_to: Some("r@example.com".to_owned()),
        in_reply_to: None,
        references: None,
    };
    let msg = message_builder(&comp).expect("builder").body(String::from("x")).expect("message");
    let binding = msg.formatted();
    let formatted = String::from_utf8_lossy(&binding);
    assert!(formatted.contains("To: a@example.com"));
    assert!(formatted.contains("Cc: c@example.com"));
    assert!(formatted.contains("Reply-To: r@example.com"));
    assert!(formatted.contains("Subject: Fields"));
    let mut bad = comp;
    bad.reply_to = Some("not an address".to_owned());
    let err = message_builder(&bad).err().expect("invalid");
    assert!(err.detail().starts_with("invalid Reply-To address 'not an address': "));
}

#[test]
fn built_message_headers_follow_the_composition() {
    let comp = EmailComposition {
        from: "Sender <sender@example.com>".to_owned(),
        to: vec!["a@example.com".to_owned(), "b@example.com".to_owned()],
        cc: vec!["c@example.com".to_owned()],
        bcc: vec!["d@example.com".to_owned()],
        subject: "Headers".to_owned(),
        body_text: Some("body".to_owned()),
        body_html: None,
        reply_to: Some("r@example.com".to_owned()),
        in_reply_to: Some("<x@example.com>".to_owned()),
        references: Some("<x@example.com>".to_owned()),
    };
    let msg = build_message(&comp).expect("message");
    let h = msg.headers();
    assert_eq!(h.get_raw("From"), Some("Sender <sender@example.com>"));
    assert_eq!(h.get_raw("To"), Some("a@example.com, b@example.com"));
    assert_eq!(h.get_raw("Cc"), Some("c@example.com"));
    assert_eq!(h.get_raw("Bcc"), None);
    assert_eq!(h.get_raw("Subject"), Some("Headers"));
    assert_eq!(h.get_raw("Reply-To"), Some("r@example.com"));
    assert_eq!(h.get_raw("In-Reply-To"), Some("<x@example.com>"));
    assert_eq!(h.get_raw("References"), Some("<x@example.com>"));
    assert_eq!(msg.envelope().to().len(), 4);
}

#[test]
fn send_mail_request_serializes_correctly() {
    let params = GraphEmailParams {
        to: vec!["to@test.com".to_owned()],
        cc: vec![],
        bcc: vec![],
        subject: "Test".to_owned(),
        body_text: Some("Hello".to_owned()),
        body_html: None,
        reply_to: None,
        in_reply_to: None,
        references: None,
        save_to_sent: true,
    };
    let req = build_send_mail_request(&params);
    assert_eq!(req.message.subject, "Test");
    assert_eq!(req.message.body.content_type, "Text");
    assert_eq!(req.message.body.content, "Hello");
    assert_eq!(req.message.to_recipients[0].email_address.address, "to@test.com");
    assert!(req.save_to_sent_items);
    assert!(req.message.cc_recipients.is_empty());
    assert!(req.message.bcc_recipients.is_empty());
    assert!(req.message.reply_to.is_none());
    assert!(req.message.in_reply_to.is_none());
    assert!(req.message.internet_message_headers.is_none());
}
