use mail_mcp::errors::AppError;
use mail_mcp::search::{
    build_search_query, build_search_query_on, cursor_action, new_search_snapshot,
    next_action_for_search_result, parse_ymd, plan_page, resume_snapshot, search_failure,
    page_from_tally, search_page_result, validate_search_input, CursorAction, CursorEntry,
    MessageSummary, SearchMessagesInput, SummaryTally,
};

fn input() -> SearchMessagesInput {
    SearchMessagesInput {
        account_id: "default".to_owned(),
        mailbox: "INBOX".to_owned(),
        query: None,
        from: None,
        to: None,
        subject: None,
        unread_only: None,
        last_days: None,
        start_date: None,
        end_date: None,
        include_snippet: false,
        snippet_max_chars: None,
        limit: 10,
        cursor: None,
    }
}

#[test]
fn empty_search_is_all() {
    assert_eq!(build_search_query_on(&input(), (2025, 1, 15)).expect("query"), "ALL");
}

#[test]
fn query_parts_in_criterion_order() {
    let mut i = input();
    i.query = Some("hello \"world\"".to_owned());
    i.from = Some("alice@example.com".to_owned());
    i.subject = Some("report".to_owned());
    i.unread_only = Some(true);
    i.start_date = Some("2025-01-02".to_owned());
    i.end_date = Some("2025-01-31".to_owned());
    let q = build_search_query_on(&i, (2025, 3, 1)).expect("query");
    assert_eq!(
        q,
        "TEXT \"hello \\\"world\\\"\" FROM \"alice@example.com\" SUBJECT \"report\" UNSEEN SINCE 2-Jan-2025 BEFORE 1-Feb-2025"
    );
}

#[test]
fn last_days_counts_back_from_today() {
    let mut i = input();
    i.last_days = Some(7);
    assert_eq!(build_search_query_on(&i, (2025, 3, 3)).expect("query"), "SINCE 24-Feb-2025");
    let q = build_search_query(&i).expect("query");
    assert!(q.starts_with("SINCE "));
}

#[test]
fn bad_dates_are_reported() {
    let err = parse_ymd("2025-13-01").expect_err("bad month");
    assert_eq!(err.detail(), "invalid date '2025-13-01', expected YYYY-MM-DD");
    assert_eq!(parse_ymd("2024-02-29").expect("leap day"), (2024, 2, 29));
    let mut i = input();
    i.end_date = Some("tomorrow".to_owned());
    let err = build_search_query_on(&i, (2025, 1, 1)).expect_err("bad end");
    assert_eq!(err.detail(), "invalid date 'tomorrow', expected YYYY-MM-DD");
}

#[test]
fn unread_only_false_adds_nothing() {
    let mut i = input();
    i.unread_only = Some(false);
    assert_eq!(build_search_query_on(&i, (2025, 1, 1)).expect("query"), "ALL");
}

#[test]
fn search_input_checks_in_order() {
    let mut i = input();
    i.limit = 0;
    assert_eq!(validate_search_input(&i).expect_err("limit").detail(), "limit must be in range 1..50");
    let mut i = input();
    i.last_days = Some(400);
    assert_eq!(
        validate_search_input(&i).expect_err("days").detail(),
        "last_days must be in range 1..365"
    );
    let mut i = input();
    i.snippet_max_chars = Some(100);
    assert_eq!(
        validate_search_input(&i).expect_err("snippet").detail(),
        "snippet_max_chars requires include_snippet=true"
    );
    let mut i = input();
    i.cursor = Some("c1".to_owned());
    i.unread_only = Some(true);
    assert_eq!(
        validate_search_input(&i).expect_err("cursor").detail(),
        "cursor cannot be combined with search criteria"
    );
    let mut i = input();
    i.last_days = Some(3);
    i.start_date = Some("2025-01-01".to_owned());
    assert_eq!(
        validate_search_input(&i).expect_err("mixed").detail(),
        "last_days cannot be combined with start_date/end_date"
    );
    let mut i = input();
    i.start_date = Some("2025-02-01".to_owned());
    i.end_date = Some("2025-01-01".to_owned());
    assert_eq!(
        validate_search_input(&i).expect_err("order").detail(),
        "start_date must be <= end_date"
    );
    let mut i = input();
    i.from = Some("a\u{7}b".to_owned());
    assert_eq!(
        validate_search_input(&i).expect_err("control").detail(),
        "search text must not contain control characters"
    );
    assert!(validate_search_input(&input()).is_ok());
}

#[test]
fn new_search_snapshot_clamps_snippets_and_bounds_matches() {
    let mut i = input();
    i.include_snippet = true;
    i.snippet_max_chars = Some(20);
    let s = new_search_snapshot(&i, vec![9, 8, 7]).expect("snapshot");
    assert_eq!(s.snippet_max_chars, 50);
    assert_eq!(s.offset, 0);
    assert_eq!(s.uids_desc, vec![9, 8, 7]);
    let s = new_search_snapshot(&input(), vec![]).expect("snapshot");
    assert_eq!(s.snippet_max_chars, 200);
    let err = new_search_snapshot(&input(), vec![1; 20001]).err().expect("too many");
    assert_eq!(
        err.detail(),
        "search matched 20001 messages; narrow filters to at most 20000 results"
    );
}

#[test]
fn resuming_checks_the_cursor() {
    let entry = || CursorEntry {
        account_id: "default".to_owned(),
        mailbox: "INBOX".to_owned(),
        uidvalidity: 5,
        uids_desc: vec![3, 2, 1],
        offset: 2,
        include_snippet: false,
        snippet_max_chars: 200,
    };
    let r = resume_snapshot(None, &input(), 5, "c".to_owned());
    assert_eq!(r.result.err().expect("expired").detail(), "cursor is invalid or expired");
    let r = resume_snapshot(Some(entry()), &input(), 6, "c".to_owned());
    assert!(r.drop_cursor);
    assert_eq!(r.result.err().expect("changed").code(), "conflict");
    let mut other = input();
    other.mailbox = "Archive".to_owned();
    let r = resume_snapshot(Some(entry()), &other, 5, "c".to_owned());
    assert_eq!(r.result.err().expect("other").detail(), "cursor does not match account/mailbox");
    let r = resume_snapshot(Some(entry()), &input(), 5, "c".to_owned());
    let s = r.result.expect("resumed");
    assert_eq!(s.offset, 2);
    assert_eq!(s.cursor_id_from_request.as_deref(), Some("c"));
}

#[test]
fn pages_cover_the_snapshot() {
    let p = plan_page(25, 0, 10).expect("page");
    assert_eq!((p.start, p.end, p.has_more), (0, 10, true));
    let p = plan_page(25, 20, 10).expect("page");
    assert_eq!((p.start, p.end, p.next_offset, p.has_more), (20, 25, 25, false));
    let p = plan_page(100, 0, 500).expect("page");
    assert_eq!(p.end, 50);
    let p = plan_page(100, 0, 0).expect("page");
    assert_eq!(p.end, 1);
    assert_eq!(
        plan_page(3, 4, 10).err().expect("past end").detail(),
        "cursor offset is out of range"
    );
    let p = plan_page(0, 0, 10).expect("empty");
    assert_eq!((p.end, p.has_more), (0, false));
}

#[test]
fn cursor_store_updates() {
    match cursor_action(true, 10, Some("c".to_owned())) {
        CursorAction::Advance { cursor_id, offset } => {
            assert_eq!(cursor_id, "c");
            assert_eq!(offset, 10);
        }
        _ => panic!("expected advance"),
    }
    assert!(matches!(cursor_action(true, 10, None), CursorAction::Create { offset: 10 }));
    assert!(matches!(cursor_action(false, 10, Some("c".to_owned())), CursorAction::Delete { .. }));
    assert!(matches!(cursor_action(false, 10, None), CursorAction::Nothing));
}

fn summary(id: &str) -> MessageSummary {
    MessageSummary {
        message_id: id.to_owned(),
        message_uri: String::new(),
        message_raw_uri: String::new(),
        mailbox: "INBOX".to_owned(),
        uidvalidity: 1,
        uid: 1,
        date: None,
        from: None,
        subject: None,
        flags: None,
        snippet: None,
    }
}

#[test]
fn next_action_after_search() {
    let a = next_action_for_search_result("ok", "default", "INBOX", 10, Some("cur"), &[]);
    assert_eq!(a.tool, "imap_search_messages");
    assert_eq!(a.arguments.cursor.as_deref(), Some("cur"));
    assert_eq!(a.arguments.limit, Some(10));
    let a = next_action_for_search_result("failed", "default", "INBOX", 10, None, &[]);
    assert_eq!(a.tool, "imap_verify_account");
    let a = next_action_for_search_result("ok", "default", "INBOX", 10, None, &[summary("m1")]);
    assert_eq!(a.tool, "imap_get_message");
    assert_eq!(a.arguments.message_id.as_deref(), Some("m1"));
    assert_eq!(a.instruction, "Open a message to inspect full content and headers.");
    let a = next_action_for_search_result("ok", "default", "INBOX", 5, None, &[]);
    assert_eq!(a.instruction, "Retry search with broader criteria.");
    assert_eq!(a.arguments.include_snippet, Some(false));
}

#[test]
fn search_results_report_status() {
    let err = AppError::Timeout("slow".to_owned());
    let r = search_failure("default".to_owned(), "INBOX".to_owned(), "uid_search", &err);
    assert_eq!(r.status, "failed");
    assert_eq!(r.issues[0].code, "timeout");
    assert!(r.issues[0].retryable);
    assert_eq!(r.issues[0].message, "operation timed out: slow");
    let r = search_page_result(
        "default".to_owned(),
        "INBOX".to_owned(),
        10,
        30,
        1,
        0,
        vec![summary("m1")],
        vec![],
        Some("cur".to_owned()),
    );
    assert_eq!(r.status, "ok");
    assert_eq!(r.returned, 1);
    assert!(r.has_more);
    assert_eq!(r.next_action.arguments.cursor.as_deref(), Some("cur"));
}

#[test]
fn following_the_cursor_serves_each_uid_once() {
    for (total, limit) in [(0usize, 10usize), (1, 1), (25, 10), (100, 7), (120, 500)] {
        let mut served = Vec::new();
        let mut offset = 0;
        loop {
            let p = plan_page(total, offset, limit).expect("page");
            served.extend(p.start..p.end);
            if !p.has_more {
                break;
            }
            offset = p.next_offset;
        }
        assert_eq!(served, (0..total).collect::<Vec<_>>());
    }
}

#[test]
fn imap_dates_pad_the_year_and_not_the_day() {
    let mut i = input();
    i.start_date = Some("0099-03-05".to_owned());
    assert_eq!(build_search_query_on(&i, (2025, 1, 1)).expect("query"), "SINCE 5-Mar-0099");
    let mut i = input();
    i.last_days = Some(1);
    assert_eq!(build_search_query_on(&i, (2024, 3, 1)).expect("query"), "SINCE 29-Feb-2024");
}

#[test]
fn page_counts_come_from_the_tally() {
    let mut tally = SummaryTally::new();
    tally.summarized(summary("imap:work:INBOX:1:9"));
    tally.failed_at("fetch_headers_and_flags", &mail_mcp::errors::AppError::Timeout("slow".to_owned()), 8);
    assert_eq!(tally.attempted(), 2);
    let r = page_from_tally("work".to_owned(), "INBOX".to_owned(), 10, 5, 2, tally, Some("c1".to_owned()));
    assert_eq!(r.attempted, 2);
    assert_eq!(r.returned, 1);
    assert_eq!(r.failed, 1);
    assert_eq!(r.status, "partial");
    assert_eq!(r.issues[0].uid, Some(8));
    assert_eq!(r.issues[0].stage, "fetch_headers_and_flags");
    assert!(r.has_more);
}
