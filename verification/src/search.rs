//! Message search: checking the request, building the IMAP `SEARCH` query, and paging
//! through a result snapshot.
use vstd::prelude::*;
use vstd::string::*;

use chrono::Datelike;

use crate::errors::{invalid_view, AppError, AppResult, ErrorKind};
use crate::tools::{
    account_args, issue_of, next_action, next_action_retry_verify, retry_verify_view, search_args,
    status_from_issue_and_counts, status_word, ActionArguments, ActionView, ArgumentsView, IssueView,
    NextAction, ToolIssue,
};
use crate::text::{concat2, concat3, join, join_strings};
use crate::validate::{
    escape_imap_quoted, escape_quoted, mailbox_check, outcome, range_message, search_text_check,
    validate_chars, validate_mailbox, validate_search_text,
};

verus! {

/// The request of a message search.
pub struct SearchMessagesInput {
    pub account_id: String,
    pub mailbox: String,
    pub query: Option<String>,
    pub from: Option<String>,
    pub to: Option<String>,
    pub subject: Option<String>,
    pub unread_only: Option<bool>,
    pub last_days: Option<u32>,
    pub start_date: Option<String>,
    pub end_date: Option<String>,
    pub include_snippet: bool,
    pub snippet_max_chars: Option<usize>,
    pub limit: usize,
    pub cursor: Option<String>,
}

/// A calendar date as (year, month, day).
pub type Ymd = (i32, u32, u32);

/// What `chrono::NaiveDate::parse_from_str(text, "%Y-%m-%d")` yields, as (year, month,
/// day) of the parsed date.
pub uninterp spec fn chrono_parse_ymd(text: Seq<char>) -> Option<(i32, u32, u32)>;

/// What adding `days` days to `date` with `chrono` yields (`from_ymd_opt`, then
/// `checked_add_signed` with `TimeDelta::try_days(days)`), as (year, month, day).
pub uninterp spec fn chrono_add_days(date: (i32, u32, u32), days: i64) -> Option<(i32, u32, u32)>;

/// Whether `y` is a leap year of the proleptic Gregorian calendar.
pub open spec fn is_leap_year(y: int) -> bool {
    y % 4 == 0 && (y % 100 != 0 || y % 400 == 0)
}

/// The number of days of month `m` of year `y`.
pub open spec fn days_in_month(y: int, m: int) -> int {
    if m == 2 {
        if is_leap_year(y) {
            29
        } else {
            28
        }
    } else if m == 4 || m == 6 || m == 9 || m == 11 {
        30
    } else {
        31
    }
}

/// Whether (year, month, day) is a date `chrono::NaiveDate::from_ymd_opt` accepts: a
/// calendar date with a year from -262143 to 262142.
pub open spec fn chrono_date_valid(date: (i32, u32, u32)) -> bool {
    &&& -262143 <= date.0 <= 262142
    &&& 1 <= date.1 <= 12
    &&& 1 <= date.2 <= days_in_month(date.0 as int, date.1 as int)
}

/// The English three-letter abbreviation of month `m` (1 to 12).
pub open spec fn month_abbrev(m: u32) -> Seq<char> {
    seq![
        "Jan"@, "Feb"@, "Mar"@, "Apr"@, "May"@, "Jun"@, "Jul"@, "Aug"@, "Sep"@, "Oct"@,
        "Nov"@, "Dec"@,
    ][m - 1]
}

/// The decimal digits of `n`, zero-padded to at least four.
pub open spec fn pad4(n: nat) -> Seq<char> {
    let d = crate::text::decimal(n);
    if d.len() >= 4 {
        d
    } else {
        Seq::new((4 - d.len()) as nat, |i: int| '0') + d
    }
}

/// The year as `%Y` writes it: four digits from 0 to 9999, otherwise a sign and at
/// least four digits.
pub open spec fn year_text(y: int) -> Seq<char> {
    if 0 <= y <= 9999 {
        pad4(y as nat)
    } else if y < 0 {
        "-"@ + pad4((-y) as nat)
    } else {
        "+"@ + pad4(y as nat)
    }
}

/// What formatting `date` with `chrono` as `%-d-%b-%Y` (such as `1-Jan-2025`) yields:
/// the day without padding, the month's abbreviation and the year, joined by `-`; nothing
/// where `from_ymd_opt` refuses the date.
pub open spec fn chrono_imap_date(date: (i32, u32, u32)) -> Option<Seq<char>> {
    if chrono_date_valid(date) {
        Some(crate::text::decimal(date.2 as nat) + "-"@ + month_abbrev(date.1) + "-"@ + year_text(date.0 as int))
    } else {
        None
    }
}

/// Parses `text` with `chrono::NaiveDate::parse_from_str(text, "%Y-%m-%d")` and returns
/// the date's year, month and day; the contract ties the result to [`chrono_parse_ymd`].
#[verifier::external_body]
fn chrono_parse(text: &str) -> (r: Option<Ymd>)
    ensures
        r == chrono_parse_ymd(text@),
{
    match chrono::NaiveDate::parse_from_str(text, "%Y-%m-%d") {
        Ok(d) => Some((d.year(), d.month(), d.day())),
        Err(_) => None,
    }
}

/// Adds `days` days to `date` with `chrono::NaiveDate::checked_add_signed`; the
/// contract ties the result to [`chrono_add_days`].
#[verifier::external_body]
fn chrono_shift(date: Ymd, days: i64) -> (r: Option<Ymd>)
    ensures
        r == chrono_add_days(date, days),
{
    let d = match chrono::NaiveDate::from_ymd_opt(date.0, date.1, date.2) {
        Some(d) => d,
        None => return None,
    };
    let delta = match chrono::TimeDelta::try_days(days) {
        Some(t) => t,
        None => return None,
    };
    match d.checked_add_signed(delta) {
        Some(n) => Some((n.year(), n.month(), n.day())),
        None => None,
    }
}

/// Formats `date` with `chrono` as `%-d-%b-%Y` (`from_ymd_opt`, then `format`); the
/// contract states the result as [`chrono_imap_date`].
#[verifier::external_body]
fn chrono_format_imap(date: Ymd) -> (r: Option<String>)
    ensures
        crate::config::opt_string_view(r) == chrono_imap_date(date),
{
    match chrono::NaiveDate::from_ymd_opt(date.0, date.1, date.2) {
        Some(d) => Some(d.format("%-d-%b-%Y").to_string()),
        None => None,
    }
}

/// Today's date in UTC, by `chrono::Utc::now().date_naive()`. Which date it is depends
/// on the clock; it is a date `chrono::NaiveDate` holds, so a valid one.
#[verifier::external_body]
fn utc_today() -> (r: Ymd)
    ensures
        chrono_date_valid(r),
{
    let d = chrono::Utc::now().date_naive();
    (d.year(), d.month(), d.day())
}

/// The error for a date that does not read as `YYYY-MM-DD`.
pub open spec fn date_error(text: Seq<char>) -> (ErrorKind, Seq<char>) {
    invalid_view("invalid date '"@ + text + "', expected YYYY-MM-DD"@)
}

/// The outcome of reading a `YYYY-MM-DD` date.
pub open spec fn ymd_parse(text: Seq<char>) -> Result<(i32, u32, u32), (ErrorKind, Seq<char>)> {
    match chrono_parse_ymd(text) {
        Some(d) => Ok(d),
        None => Err(date_error(text)),
    }
}

/// Read a `YYYY-MM-DD` date.
pub fn parse_ymd(input: &str) -> (r: AppResult<Ymd>)
    ensures
        match r {
            Ok(d) => ymd_parse(input@) == Ok::<(i32, u32, u32), (ErrorKind, Seq<char>)>(d),
            Err(e) => ymd_parse(input@) == Err::<(i32, u32, u32), (ErrorKind, Seq<char>)>(e@),
        },
{
    match chrono_parse(input) {
        Some(d) => Ok(d),
        None => Err(AppError::InvalidInput(concat3("invalid date '", input, "', expected YYYY-MM-DD"))),
    }
}

/// Dates in calendar order.
pub open spec fn date_after(a: (i32, u32, u32), b: (i32, u32, u32)) -> bool {
    a.0 > b.0 || (a.0 == b.0 && (a.1 > b.1 || (a.1 == b.1 && a.2 > b.2)))
}

/// The view of an optional string.
pub open spec fn ov(o: Option<String>) -> Option<Seq<char>> {
    crate::config::opt_string_view(o)
}

/// The check of an optional search text field.
pub open spec fn text_field_check(v: Option<Seq<char>>) -> Result<(), (ErrorKind, Seq<char>)> {
    match v {
        Some(t) => search_text_check(t),
        None => Ok(()),
    }
}

/// The request sets a search criterion.
pub open spec fn has_filters(input: SearchMessagesInput) -> bool {
    input.query is Some || input.from is Some || input.to is Some || input.subject is Some
        || input.unread_only is Some || input.last_days is Some || input.start_date is Some
        || input.end_date is Some
}

/// The outcome of [`validate_search_input`]: the first failing check, in order.
pub open spec fn search_input_check(input: SearchMessagesInput) -> Result<
    (),
    (ErrorKind, Seq<char>),
> {
    if mailbox_check(input.mailbox@) is Err {
        mailbox_check(input.mailbox@)
    } else if !(1 <= input.limit <= 50) {
        Err(invalid_view(range_message("limit"@, 1, 50)))
    } else if input.last_days matches Some(v) && !(1 <= v <= 365) {
        Err(invalid_view("last_days must be in range 1..365"@))
    } else if input.snippet_max_chars matches Some(v) && !(50 <= v <= 500) {
        Err(invalid_view(range_message("snippet_max_chars"@, 50, 500)))
    } else if input.snippet_max_chars is Some && !input.include_snippet {
        Err(invalid_view("snippet_max_chars requires include_snippet=true"@))
    } else if text_field_check(ov(input.query)) is Err {
        text_field_check(ov(input.query))
    } else if text_field_check(ov(input.from)) is Err {
        text_field_check(ov(input.from))
    } else if text_field_check(ov(input.to)) is Err {
        text_field_check(ov(input.to))
    } else if text_field_check(ov(input.subject)) is Err {
        text_field_check(ov(input.subject))
    } else if input.cursor is Some && has_filters(input) {
        Err(invalid_view("cursor cannot be combined with search criteria"@))
    } else if input.last_days is Some && (input.start_date is Some || input.end_date is Some) {
        Err(invalid_view("last_days cannot be combined with start_date/end_date"@))
    } else {
        match (input.start_date, input.end_date) {
            (Some(s), Some(e)) => match ymd_parse(s@) {
                Err(x) => Err(x),
                Ok(sd) => match ymd_parse(e@) {
                    Err(x) => Err(x),
                    Ok(ed) => if date_after(sd, ed) {
                        Err(invalid_view("start_date must be <= end_date"@))
                    } else {
                        Ok(())
                    },
                },
            },
            _ => Ok(()),
        }
    }
}

/// Check an optional search text field.
fn validate_text_field(v: &Option<String>) -> (r: AppResult<()>)
    ensures
        outcome(r) == text_field_check(ov(*v)),
{
    match v {
        Some(t) => validate_search_text(t.as_str()),
        None => Ok(()),
    }
}

/// Validate a search request: mailbox, limit (1..50), `last_days` (1..365),
/// `snippet_max_chars` (50..500, only with snippets), the text fields, and the
/// combinations a cursor or a date range does not allow.
pub fn validate_search_input(input: &SearchMessagesInput) -> (r: AppResult<()>)
    ensures
        outcome(r) == search_input_check(*input),
{
    validate_mailbox(input.mailbox.as_str())?;
    validate_chars(input.limit, 1, 50, "limit")?;
    if let Some(v) = input.last_days {
        if !(1 <= v && v <= 365) {
            return Err(AppError::invalid("last_days must be in range 1..365"));
        }
    }
    if let Some(v) = input.snippet_max_chars {
        validate_chars(v, 50, 500, "snippet_max_chars")?;
        if !input.include_snippet {
            return Err(AppError::invalid("snippet_max_chars requires include_snippet=true"));
        }
    }
    validate_text_field(&input.query)?;
    validate_text_field(&input.from)?;
    validate_text_field(&input.to)?;
    validate_text_field(&input.subject)?;
    let filters = input.query.is_some() || input.from.is_some() || input.to.is_some()
        || input.subject.is_some() || input.unread_only.is_some() || input.last_days.is_some()
        || input.start_date.is_some() || input.end_date.is_some();
    if input.cursor.is_some() && filters {
        return Err(AppError::invalid("cursor cannot be combined with search criteria"));
    }
    if input.last_days.is_some() && (input.start_date.is_some() || input.end_date.is_some()) {
        return Err(AppError::invalid("last_days cannot be combined with start_date/end_date"));
    }
    if let Some(start) = &input.start_date {
        if let Some(end) = &input.end_date {
            let sd = parse_ymd(start.as_str())?;
            let ed = parse_ymd(end.as_str())?;
            if sd.0 > ed.0 || (sd.0 == ed.0 && (sd.1 > ed.1 || (sd.1 == ed.1 && sd.2 > ed.2))) {
                return Err(AppError::invalid("start_date must be <= end_date"));
            }
        }
    }
    Ok(())
}

/// The error for a date that the calendar cannot represent.
pub open spec fn date_range_error() -> (ErrorKind, Seq<char>) {
    (ErrorKind::Internal, "date is out of the supported range"@)
}

/// One query part per criterion, so far; the first failing criterion is the error.
pub type Parts = Result<Seq<Seq<char>>, (ErrorKind, Seq<char>)>;

/// The parts of `a` followed by those of `b`; the error of `a` comes first.
pub open spec fn then_parts(a: Parts, b: Parts) -> Parts {
    match a {
        Err(e) => Err(e),
        Ok(x) => match b {
            Err(e) => Err(e),
            Ok(y) => Ok(x + y),
        },
    }
}

/// The part `<label> "<escaped text>"` of an optional text criterion.
pub open spec fn quoted_part(label: Seq<char>, v: Option<Seq<char>>) -> Parts {
    match v {
        None => Ok(Seq::empty()),
        Some(t) => match search_text_check(t) {
            Err(e) => Err(e),
            Ok(_) => Ok(seq![label + " \""@ + escape_quoted(t) + "\""@]),
        },
    }
}

/// The part `<label> <date>` for `date` in IMAP form.
pub open spec fn date_part(label: Seq<char>, date: Option<(i32, u32, u32)>) -> Parts {
    match date {
        None => Err(date_range_error()),
        Some(d) => match chrono_imap_date(d) {
            None => Err(date_range_error()),
            Some(t) => Ok(seq![label + " "@ + t]),
        },
    }
}

/// The `SINCE` part of `last_days`, counted back from `today`.
pub open spec fn last_days_part(last_days: Option<u32>, today: (i32, u32, u32)) -> Parts {
    match last_days {
        None => Ok(Seq::empty()),
        Some(days) => date_part("SINCE"@, chrono_add_days(today, -(days as int) as i64)),
    }
}

/// The `SINCE` part of a start date.
pub open spec fn start_part(start: Option<Seq<char>>) -> Parts {
    match start {
        None => Ok(Seq::empty()),
        Some(s) => match ymd_parse(s) {
            Err(e) => Err(e),
            Ok(d) => date_part("SINCE"@, Some(d)),
        },
    }
}

/// The `BEFORE` part of an end date: the day after it, as the end is inclusive.
pub open spec fn end_part(end: Option<Seq<char>>) -> Parts {
    match end {
        None => Ok(Seq::empty()),
        Some(s) => match ymd_parse(s) {
            Err(e) => Err(e),
            Ok(d) => date_part("BEFORE"@, chrono_add_days(d, 1)),
        },
    }
}

/// Law: a text criterion that passes its check is sent as a quoted string whose
/// content an IMAP server reads back as exactly the text given, quotes and backslashes
/// included.
pub proof fn lemma_quoted_criterion_reads_back(label: Seq<char>, text: Seq<char>)
    requires
        search_text_check(text) is Ok,
    ensures
        quoted_part(label, Some(text)) == Ok::<Seq<Seq<char>>, (ErrorKind, Seq<char>)>(
            seq![label + " \""@ + escape_quoted(text) + "\""@],
        ),
        crate::validate::unescape_quoted(escape_quoted(text)) == text,
{
    crate::validate::lemma_unescape_escape(text);
}

/// The `UNSEEN` part of an unread-only search.
pub open spec fn unseen_part(unread_only: Option<bool>) -> Parts {
    Ok(
        if unread_only == Some(true) {
            seq!["UNSEEN"@]
        } else {
            Seq::empty()
        },
    )
}

/// The parts of the text criteria and of the unread filter, in order.
pub open spec fn text_parts(input: SearchMessagesInput) -> Parts {
    then_parts(
        then_parts(
            then_parts(
                then_parts(quoted_part("TEXT"@, ov(input.query)), quoted_part("FROM"@, ov(input.from))),
                quoted_part("TO"@, ov(input.to)),
            ),
            quoted_part("SUBJECT"@, ov(input.subject)),
        ),
        unseen_part(input.unread_only),
    )
}

/// The parts of the query for `input`, in criterion order.
pub open spec fn query_parts(input: SearchMessagesInput, today: (i32, u32, u32)) -> Parts {
    then_parts(
        then_parts(
            then_parts(text_parts(input), last_days_part(input.last_days, today)),
            start_part(ov(input.start_date)),
        ),
        end_part(ov(input.end_date)),
    )
}

/// The IMAP `SEARCH` query for `input` on day `today`: the parts joined by spaces, or
/// `ALL` without criteria.
pub open spec fn search_query(input: SearchMessagesInput, today: (i32, u32, u32)) -> Result<
    Seq<char>,
    (ErrorKind, Seq<char>),
> {
    match query_parts(input, today) {
        Err(e) => Err(e),
        Ok(p) => if p.len() == 0 {
            Ok("ALL"@)
        } else {
            Ok(join(p, " "@))
        },
    }
}

/// The view of a list of strings.
pub open spec fn sv(v: Seq<String>) -> Seq<Seq<char>> {
    v.map_values(|s: String| s@)
}

/// The parts so far, or the error met.
pub open spec fn parts_after(r: AppResult<()>, parts: Seq<String>) -> Parts {
    match r {
        Ok(_) => Ok(sv(parts)),
        Err(e) => Err(e@),
    }
}

/// Append the part of an optional text criterion.
fn push_quoted(parts: &mut Vec<String>, label: &str, v: &Option<String>) -> (r: AppResult<()>)
    ensures
        parts_after(r, final(parts)@) == then_parts(
            Ok(sv(old(parts)@)),
            quoted_part(label@, ov(*v)),
        ),
{
    match v {
        Some(t) => {
            let esc = escape_imap_quoted(t.as_str())?;
            let mut part = concat2(label, " \"");
            part.append(esc.as_str());
            part.append("\"");
            let ghost before = parts@;
            parts.push(part);
            proof {
                assert(sv(parts@) =~= sv(before) + seq![part@]);
            }
            Ok(())
        },
        None => {
            proof {
                assert(sv(parts@) =~= sv(parts@) + Seq::<Seq<char>>::empty());
            }
            Ok(())
        },
    }
}

/// Append the part `<label> <date>`.
fn push_date(parts: &mut Vec<String>, label: &str, date: Option<Ymd>) -> (r: AppResult<()>)
    ensures
        parts_after(r, final(parts)@) == then_parts(Ok(sv(old(parts)@)), date_part(label@, date)),
{
    let d = match date {
        Some(d) => d,
        None => {
            return Err(AppError::Internal(String::from_str("date is out of the supported range")));
        },
    };
    let text = match chrono_format_imap(d) {
        Some(t) => t,
        None => {
            return Err(AppError::Internal(String::from_str("date is out of the supported range")));
        },
    };
    let part = concat3(label, " ", text.as_str());
    let ghost before = parts@;
    parts.push(part);
    proof {
        assert(sv(parts@) =~= sv(before) + seq![part@]);
    }
    Ok(())
}

/// The parts of the text criteria and of the unread filter.
fn push_text_parts(parts: &mut Vec<String>, input: &SearchMessagesInput) -> (r: AppResult<()>)
    requires
        old(parts)@.len() == 0,
    ensures
        parts_after(r, final(parts)@) == text_parts(*input),
{
    proof {
        assert(sv(parts@) =~= Seq::<Seq<char>>::empty());
    }
    let ghost q = quoted_part("TEXT"@, ov(input.query));
    assert(then_parts(Ok(Seq::<Seq<char>>::empty()), q) == q) by {
        if q is Ok {
            assert(Seq::<Seq<char>>::empty() + q->Ok_0 =~= q->Ok_0);
        }
    }
    push_quoted(parts, "TEXT", &input.query)?;
    push_quoted(parts, "FROM", &input.from)?;
    push_quoted(parts, "TO", &input.to)?;
    push_quoted(parts, "SUBJECT", &input.subject)?;
    let ghost p4 = sv(parts@);
    if input.unread_only == Some(true) {
        parts.push(String::from_str("UNSEEN"));
        proof {
            assert(sv(parts@) =~= p4 + seq!["UNSEEN"@]);
        }
    } else {
        proof {
            assert(sv(parts@) =~= p4 + Seq::<Seq<char>>::empty());
        }
    }
    Ok(())
}

/// Build the IMAP `SEARCH` query of `input` for the day `today` (which `last_days`
/// counts back from). A date the calendar cannot represent is an `Internal` error.
pub fn build_search_query_on(input: &SearchMessagesInput, today: Ymd) -> (r: AppResult<String>)
    ensures
        match search_query(*input, today) {
            Ok(q) => r matches Ok(s) && s@ == q,
            Err(e) => r matches Err(x) && x@ == e,
        },
{
    let mut parts: Vec<String> = Vec::new();
    push_text_parts(&mut parts, input)?;
    let ghost p5 = sv(parts@);
    if let Some(days) = input.last_days {
        let back: i64 = -(days as i64);
        push_date(&mut parts, "SINCE", chrono_shift(today, back))?;
    } else {
        proof {
            assert(sv(parts@) =~= p5 + Seq::<Seq<char>>::empty());
        }
    }
    let ghost p6 = sv(parts@);
    if let Some(start) = &input.start_date {
        let d = parse_ymd(start.as_str())?;
        push_date(&mut parts, "SINCE", Some(d))?;
    } else {
        proof {
            assert(sv(parts@) =~= p6 + Seq::<Seq<char>>::empty());
        }
    }
    let ghost p7 = sv(parts@);
    if let Some(end) = &input.end_date {
        let d = parse_ymd(end.as_str())?;
        push_date(&mut parts, "BEFORE", chrono_shift(d, 1))?;
    } else {
        proof {
            assert(sv(parts@) =~= p7 + Seq::<Seq<char>>::empty());
        }
    }
    if parts.len() == 0 {
        Ok(String::from_str("ALL"))
    } else {
        Ok(join_strings(parts.as_slice(), " "))
    }
}

/// Build the IMAP `SEARCH` query of `input`, with `last_days` counted back from today
/// (UTC).
pub fn build_search_query(input: &SearchMessagesInput) -> (r: AppResult<String>)
    ensures
        exists|today: (i32, u32, u32)|
            match #[trigger] search_query(*input, today) {
                Ok(q) => r matches Ok(s) && s@ == q,
                Err(e) => r matches Err(x) && x@ == e,
            },
{
    let today = utc_today();
    let r = build_search_query_on(input, today);
    proof {
        assert(match search_query(*input, today) {
            Ok(q) => r matches Ok(s) && s@ == q,
            Err(e) => r matches Err(x) && x@ == e,
        });
    }
    r
}

/// Maximum number of UIDs a search result snapshot may hold.
pub const MAX_CURSOR_UIDS_STORED: usize = 20000;

/// Maximum messages per search result page.
pub const MAX_SEARCH_LIMIT: usize = 50;

/// A search result being paged through: the matching UIDs (newest first), where the
/// next page starts, the snippet options, and the cursor the request resumed, if any.
pub struct SearchSnapshot {
    pub uids_desc: Vec<u32>,
    pub offset: usize,
    pub include_snippet: bool,
    pub snippet_max_chars: usize,
    pub cursor_id_from_request: Option<String>,
}

/// `v` clamped to `lo..=hi`.
pub open spec fn clamp(v: int, lo: int, hi: int) -> int {
    if v < lo {
        lo
    } else if v > hi {
        hi
    } else {
        v
    }
}

/// The snippet length a new search uses: the requested one (200 by default), clamped
/// to 50..500.
pub open spec fn snippet_chars(requested: Option<usize>) -> int {
    clamp(
        match requested {
            Some(v) => v as int,
            None => 200,
        },
        50,
        500,
    )
}

/// The message refusing a search that matched too many messages.
pub open spec fn too_many_message(n: nat) -> Seq<char> {
    "search matched "@ + crate::text::decimal(n) + " messages; narrow filters to at most 20000 results"@
}

/// Start a snapshot of a new search whose `UID SEARCH` returned `searched_uids`; more
/// than 20000 matches is an `InvalidInput` error.
pub fn new_search_snapshot(input: &SearchMessagesInput, searched_uids: Vec<u32>) -> (r: AppResult<
    SearchSnapshot,
>)
    ensures
        searched_uids@.len() > MAX_CURSOR_UIDS_STORED ==> (r matches Err(e) && e@ == invalid_view(
            too_many_message(searched_uids@.len()),
        )),
        searched_uids@.len() <= MAX_CURSOR_UIDS_STORED ==> (r matches Ok(s) && s.uids_desc@
            == searched_uids@ && s.offset == 0 && s.include_snippet == input.include_snippet
            && s.snippet_max_chars == snippet_chars(input.snippet_max_chars)
            && s.cursor_id_from_request is None),
{
    if searched_uids.len() > MAX_CURSOR_UIDS_STORED {
        let mut msg = String::from_str("search matched ");
        let n = crate::text::decimal_u64(searched_uids.len() as u64);
        msg.append(n.as_str());
        msg.append(" messages; narrow filters to at most 20000 results");
        return Err(AppError::InvalidInput(msg));
    }
    let requested: usize = match input.snippet_max_chars {
        Some(v) => v,
        None => 200,
    };
    let chars: usize = if requested < 50 {
        50
    } else if requested > 500 {
        500
    } else {
        requested
    };
    Ok(
        SearchSnapshot {
            uids_desc: searched_uids,
            offset: 0,
            include_snippet: input.include_snippet,
            snippet_max_chars: chars,
            cursor_id_from_request: None,
        },
    )
}

/// A stored search cursor: the snapshot of a search and where its next page starts.
pub struct CursorEntry {
    pub account_id: String,
    pub mailbox: String,
    pub uidvalidity: u32,
    pub uids_desc: Vec<u32>,
    pub offset: usize,
    pub include_snippet: bool,
    pub snippet_max_chars: usize,
}

/// The outcome of resuming a search from a cursor, and whether the cursor must be
/// dropped from the store.
pub struct Resumed {
    pub result: AppResult<SearchSnapshot>,
    pub drop_cursor: bool,
}

/// Resume a search from cursor `cursor_id`, whose stored entry is `entry` (`None` when
/// unknown or expired), in a mailbox whose UIDVALIDITY is now `uidvalidity`. A cursor
/// of another account or mailbox is refused; one whose mailbox changed is a conflict
/// and is dropped.
pub fn resume_snapshot(
    entry: Option<CursorEntry>,
    input: &SearchMessagesInput,
    uidvalidity: u32,
    cursor_id: String,
) -> (r: Resumed)
    ensures
        entry is None ==> (r.result matches Err(e) && e@ == invalid_view(
            "cursor is invalid or expired"@,
        ) && !r.drop_cursor),
        entry matches Some(c) ==> {
            if c.account_id@ != input.account_id@ || c.mailbox@ != input.mailbox@ {
                r.result matches Err(e) && e@ == invalid_view(
                    "cursor does not match account/mailbox"@,
                ) && !r.drop_cursor
            } else if c.uidvalidity != uidvalidity {
                r.result matches Err(e) && e@ == (
                    ErrorKind::Conflict,
                    "mailbox snapshot changed; rerun search"@,
                ) && r.drop_cursor
            } else {
                &&& r.result matches Ok(s) && s.uids_desc@ == c.uids_desc@ && s.offset
                    == c.offset && s.include_snippet == c.include_snippet && s.snippet_max_chars
                    == c.snippet_max_chars && s.cursor_id_from_request == Some(cursor_id)
                &&& !r.drop_cursor
            }
        },
{
    let c = match entry {
        Some(c) => c,
        None => {
            return Resumed {
                result: Err(AppError::invalid("cursor is invalid or expired")),
                drop_cursor: false,
            };
        },
    };
    if c.account_id != input.account_id || c.mailbox != input.mailbox {
        return Resumed {
            result: Err(AppError::invalid("cursor does not match account/mailbox")),
            drop_cursor: false,
        };
    }
    if c.uidvalidity != uidvalidity {
        return Resumed {
            result: Err(AppError::Conflict(String::from_str("mailbox snapshot changed; rerun search"))),
            drop_cursor: true,
        };
    }
    Resumed {
        result: Ok(
            SearchSnapshot {
                uids_desc: c.uids_desc,
                offset: c.offset,
                include_snippet: c.include_snippet,
                snippet_max_chars: c.snippet_max_chars,
                cursor_id_from_request: Some(cursor_id),
            },
        ),
        drop_cursor: false,
    }
}

/// The page of a snapshot to return: UIDs `start..end`, and where the next one starts.
pub struct PagePlan {
    pub start: usize,
    pub end: usize,
    pub next_offset: usize,
    pub has_more: bool,
}

/// Where the page of a snapshot of `total` UIDs starting at `offset` ends: `limit`
/// (clamped to 1..50) UIDs later, or at the end of the snapshot.
pub open spec fn page_end(total: int, offset: int, limit: int) -> int {
    if offset + clamp(limit, 1, 50) < total {
        offset + clamp(limit, 1, 50)
    } else {
        total
    }
}

/// Plan the page at `offset` of a snapshot of `total` UIDs, with `limit` clamped to
/// 1..50; an offset past the end is an `InvalidInput` error.
pub fn plan_page(total: usize, offset: usize, limit: usize) -> (r: AppResult<PagePlan>)
    ensures
        offset > total ==> (r matches Err(e) && e@ == invalid_view(
            "cursor offset is out of range"@,
        )),
        offset <= total ==> (r matches Ok(p) && p.start == offset && p.end == page_end(
            total as int,
            offset as int,
            limit as int,
        ) && p.next_offset == p.end && p.has_more == (p.end < total)),
{
    if offset > total {
        return Err(AppError::invalid("cursor offset is out of range"));
    }
    let lim: usize = if limit < 1 {
        1
    } else if limit > MAX_SEARCH_LIMIT {
        MAX_SEARCH_LIMIT
    } else {
        limit
    };
    let end: usize = if lim < total - offset {
        offset + lim
    } else {
        total
    };
    Ok(PagePlan { start: offset, end, next_offset: end, has_more: end < total })
}

/// The positions of the UIDs served by following the cursor from `offset` to the end
/// of a snapshot of `total` UIDs, page after page.
pub open spec fn served_from(total: int, offset: int, limit: int) -> Seq<int>
    decreases total - offset,
{
    if offset >= total {
        Seq::empty()
    } else {
        let end = page_end(total, offset, limit);
        Seq::new((end - offset) as nat, |i: int| offset + i) + served_from(total, end, limit)
    }
}

/// Law: following the cursor from any offset of a snapshot serves each later UID
/// exactly once, in snapshot order, whatever the page limit.
pub proof fn lemma_paging_serves_each_once(total: int, offset: int, limit: int)
    requires
        0 <= offset <= total,
    ensures
        served_from(total, offset, limit) == Seq::new((total - offset) as nat, |i: int| offset + i),
    decreases total - offset,
{
    if offset < total {
        let end = page_end(total, offset, limit);
        lemma_paging_serves_each_once(total, end, limit);
        assert(served_from(total, offset, limit) =~= Seq::new(
            (total - offset) as nat,
            |i: int| offset + i,
        ));
    } else {
        assert(served_from(total, offset, limit) =~= Seq::new(
            (total - offset) as nat,
            |i: int| offset + i,
        ));
    }
}

/// Law: a page never holds more than 50 UIDs, and one starting before the end of the
/// snapshot holds at least one.
pub proof fn lemma_page_bounds(total: int, offset: int, limit: int)
    requires
        0 <= offset < total,
    ensures
        offset < page_end(total, offset, limit) <= total,
        page_end(total, offset, limit) <= offset + 50,
{
}

/// What to do with the cursor store once a page is served.
pub enum CursorAction {
    /// Move the resumed cursor to the next page.
    Advance { cursor_id: String, offset: usize },
    /// Store a new cursor for the snapshot, at the next page.
    Create { offset: usize },
    /// Drop the resumed cursor: the snapshot is exhausted.
    Delete { cursor_id: String },
    /// Nothing to store.
    Nothing,
}

/// The cursor store update after serving a page: with more pages, advance the resumed
/// cursor or create one; without, drop the resumed cursor.
pub fn cursor_action(has_more: bool, next_offset: usize, cursor_id_from_request: Option<String>) -> (r:
    CursorAction)
    ensures
        has_more && cursor_id_from_request is Some ==> (r matches CursorAction::Advance {
            cursor_id,
            offset,
        } && Some(cursor_id@) == crate::config::opt_string_view(cursor_id_from_request) && offset
            == next_offset),
        has_more && cursor_id_from_request is None ==> (r matches CursorAction::Create { offset }
            && offset == next_offset),
        !has_more && cursor_id_from_request is Some ==> (r matches CursorAction::Delete {
            cursor_id,
        } && Some(cursor_id@) == crate::config::opt_string_view(cursor_id_from_request)),
        !has_more && cursor_id_from_request is None ==> r is Nothing,
{
    match cursor_id_from_request {
        Some(id) => if has_more {
            CursorAction::Advance { cursor_id: id, offset: next_offset }
        } else {
            CursorAction::Delete { cursor_id: id }
        },
        None => if has_more {
            CursorAction::Create { offset: next_offset }
        } else {
            CursorAction::Nothing
        },
    }
}

/// One message of a search result page.
pub struct MessageSummary {
    pub message_id: String,
    pub message_uri: String,
    pub message_raw_uri: String,
    pub mailbox: String,
    pub uidvalidity: u32,
    pub uid: u32,
    pub date: Option<String>,
    pub from: Option<String>,
    pub subject: Option<String>,
    pub flags: Option<Vec<String>>,
    pub snippet: Option<String>,
}

/// The action suggested after a search: continue with the cursor while pages remain;
/// after a failure verify the account; open the first message found; or search again
/// with broader criteria.
pub open spec fn search_result_action(
    status: Seq<char>,
    account_id: Seq<char>,
    mailbox: Seq<char>,
    limit: usize,
    cursor: Option<Seq<char>>,
    message_ids: Seq<Seq<char>>,
) -> ActionView {
    if cursor is Some {
        ActionView {
            instruction: "Continue pagination to retrieve more messages."@,
            tool: "imap_search_messages"@,
            arguments: search_args(account_id, mailbox, cursor, limit),
        }
    } else if status == "failed"@ {
        retry_verify_view(account_id)
    } else if message_ids.len() > 0 {
        ActionView {
            instruction: "Open a message to inspect full content and headers."@,
            tool: "imap_get_message"@,
            arguments: ArgumentsView { message_id: Some(message_ids[0]), ..account_args(account_id) },
        }
    } else {
        ActionView {
            instruction: "Retry search with broader criteria."@,
            tool: "imap_search_messages"@,
            arguments: search_args(account_id, mailbox, None, limit),
        }
    }
}

/// The message identifiers of a page.
pub open spec fn summary_ids(messages: Seq<MessageSummary>) -> Seq<Seq<char>> {
    messages.map_values(|m: MessageSummary| m.message_id@)
}

/// The action suggested after a search.
pub fn next_action_for_search_result(
    status: &str,
    account_id: &str,
    mailbox: &str,
    limit: usize,
    cursor: Option<&str>,
    messages: &[MessageSummary],
) -> (r: NextAction)
    ensures
        r@ == search_result_action(
            status@,
            account_id@,
            mailbox@,
            limit,
            crate::help::opt_str_view(cursor),
            summary_ids(messages@),
        ),
{
    if let Some(c) = cursor {
        return next_action(
            "Continue pagination to retrieve more messages.",
            "imap_search_messages",
            ActionArguments {
                account_id: String::from_str(account_id),
                mailbox: Some(String::from_str(mailbox)),
                message_id: None,
                cursor: Some(String::from_str(c)),
                limit: Some(limit),
                include_snippet: Some(false),
            },
        );
    }
    if String::from_str(status) == String::from_str("failed") {
        return next_action_retry_verify(account_id);
    }
    if messages.len() > 0 {
        proof {
            assert(summary_ids(messages@)[0] == messages@[0].message_id@);
        }
        return next_action(
            "Open a message to inspect full content and headers.",
            "imap_get_message",
            ActionArguments {
                account_id: String::from_str(account_id),
                mailbox: None,
                message_id: Some(messages[0].message_id.clone()),
                cursor: None,
                limit: None,
                include_snippet: None,
            },
        );
    }
    next_action(
        "Retry search with broader criteria.",
        "imap_search_messages",
        ActionArguments {
            account_id: String::from_str(account_id),
            mailbox: Some(String::from_str(mailbox)),
            message_id: None,
            cursor: None,
            limit: Some(limit),
            include_snippet: Some(false),
        },
    )
}

/// The result of a search call.
pub struct SearchResultData {
    pub status: String,
    pub issues: Vec<ToolIssue>,
    pub next_action: NextAction,
    pub account_id: String,
    pub mailbox: String,
    pub total: usize,
    pub attempted: usize,
    pub returned: usize,
    pub failed: usize,
    pub messages: Vec<MessageSummary>,
    pub next_cursor: Option<String>,
    pub has_more: bool,
}

/// The result of a search that failed at `stage` with `error` before any message was
/// read: status `failed`, the one issue, and the suggestion to verify the account.
pub fn search_failure(account_id: String, mailbox: String, stage: &str, error: &AppError) -> (r:
    SearchResultData)
    ensures
        r.status@ == "failed"@,
        r.issues@.len() == 1,
        r.issues@[0]@ == issue_of(stage@, error@),
        r.next_action@ == retry_verify_view(account_id@),
        r.account_id@ == account_id@,
        r.mailbox@ == mailbox@,
        r.total == 0 && r.attempted == 0 && r.returned == 0 && r.failed == 0,
        r.messages@.len() == 0,
        r.next_cursor is None,
        !r.has_more,
{
    let next = next_action_retry_verify(account_id.as_str());
    let mut issues: Vec<ToolIssue> = Vec::new();
    issues.push(ToolIssue::from_error(stage, error));
    SearchResultData {
        status: String::from_str("failed"),
        issues,
        next_action: next,
        account_id,
        mailbox,
        total: 0,
        attempted: 0,
        returned: 0,
        failed: 0,
        messages: Vec::new(),
        next_cursor: None,
        has_more: false,
    }
}

/// The result of a search that served a page: its status from the issues met and the
/// messages read, and the suggested next action.
pub fn search_page_result(
    account_id: String,
    mailbox: String,
    limit: usize,
    total: usize,
    attempted: usize,
    failed: usize,
    messages: Vec<MessageSummary>,
    issues: Vec<ToolIssue>,
    next_cursor: Option<String>,
) -> (r: SearchResultData)
    ensures
        r.status@ == status_word(issues@.len() == 0, messages@.len() > 0),
        r.issues@ == issues@,
        r.next_action@ == search_result_action(
            r.status@,
            account_id@,
            mailbox@,
            limit,
            crate::config::opt_string_view(next_cursor),
            summary_ids(messages@),
        ),
        r.account_id@ == account_id@,
        r.mailbox@ == mailbox@,
        r.total == total && r.attempted == attempted && r.failed == failed,
        r.returned == messages@.len(),
        r.messages@ == messages@,
        r.next_cursor == next_cursor,
        r.has_more == next_cursor is Some,
{
    let status = status_from_issue_and_counts(issues.as_slice(), messages.len() > 0);
    let cursor_ref: Option<&str> = match &next_cursor {
        Some(c) => Some(c.as_str()),
        None => None,
    };
    let next = next_action_for_search_result(
        status,
        account_id.as_str(),
        mailbox.as_str(),
        limit,
        cursor_ref,
        messages.as_slice(),
    );
    let returned = messages.len();
    let has_more = next_cursor.is_some();
    SearchResultData {
        status: String::from_str(status),
        issues,
        next_action: next,
        account_id,
        mailbox,
        total,
        attempted,
        returned,
        failed,
        messages,
        next_cursor,
        has_more,
    }
}

/// What reading the summaries of a page gave: the summaries read, in page order, and an
/// issue for each message that could not be read.
pub struct SummaryTally {
    messages: Vec<MessageSummary>,
    issues: Vec<ToolIssue>,
}

impl SummaryTally {
    /// The summaries read so far.
    pub closed spec fn summaries(self) -> Seq<MessageSummary> {
        self.messages@
    }

    /// The issues met so far, one per message that could not be read.
    pub closed spec fn failures(self) -> Seq<ToolIssue> {
        self.issues@
    }

    /// No message read yet.
    pub fn new() -> (r: Self)
        ensures
            r.summaries().len() == 0,
            r.failures().len() == 0,
    {
        SummaryTally { messages: Vec::new(), issues: Vec::new() }
    }

    /// Record the summary of a message that was read.
    pub fn summarized(&mut self, summary: MessageSummary)
        ensures
            final(self).summaries() == old(self).summaries().push(summary),
            final(self).failures() == old(self).failures(),
    {
        self.messages.push(summary);
    }

    /// Record that message `uid` could not be read at `stage`, failing with `error`.
    pub fn failed_at(&mut self, stage: &str, error: &AppError, uid: u32)
        ensures
            final(self).summaries() == old(self).summaries(),
            final(self).failures().len() == old(self).failures().len() + 1,
            final(self).failures().drop_last() == old(self).failures(),
            final(self).failures().last()@ == (IssueView { uid: Some(uid), ..issue_of(stage@, error@) }),
    {
        let issue = ToolIssue::from_error(stage, error).with_uid(uid);
        self.issues.push(issue);
        proof {
            assert(self.issues@.drop_last() =~= old(self).issues@);
        }
    }

    /// The messages attempted so far: those read and those that failed.
    pub fn attempted(&self) -> (r: usize)
        requires
            self.summaries().len() + self.failures().len() <= usize::MAX,
        ensures
            r == self.summaries().len() + self.failures().len(),
    {
        self.messages.len() + self.issues.len()
    }
}

/// The result of a search that served a page of `page_len` messages, from what reading
/// their summaries gave: every message is attempted, the read ones are returned, and the
/// others fail with their issues.
pub fn page_from_tally(
    account_id: String,
    mailbox: String,
    limit: usize,
    total: usize,
    page_len: usize,
    tally: SummaryTally,
    next_cursor: Option<String>,
) -> (r: SearchResultData)
    requires
        tally.summaries().len() + tally.failures().len() == page_len,
    ensures
        r.attempted == page_len,
        r.attempted == r.returned + r.failed,
        r.failed == r.issues@.len(),
        r.returned == r.messages@.len() && r.messages@ == tally.summaries(),
        r.issues@ == tally.failures(),
        r.status@ == status_word(r.issues@.len() == 0, r.returned > 0),
        r.next_action@ == search_result_action(
            r.status@,
            account_id@,
            mailbox@,
            limit,
            crate::config::opt_string_view(next_cursor),
            summary_ids(tally.summaries()),
        ),
        r.account_id@ == account_id@,
        r.mailbox@ == mailbox@,
        r.total == total,
        r.next_cursor == next_cursor,
        r.has_more == next_cursor is Some,
{
    let failed = tally.issues.len();
    search_page_result(
        account_id,
        mailbox,
        limit,
        total,
        page_len,
        failed,
        tally.messages,
        tally.issues,
        next_cursor,
    )
}

/// The criterion under which a text field is sent: `<keyword> "<escaped text>"`.
pub open spec fn criterion(keyword: Seq<char>, text: Seq<char>) -> Seq<char> {
    keyword + " \""@ + escape_quoted(text) + "\""@
}

/// Each part of a list stands in the list joined by `sep`.
proof fn lemma_join_has_part(list: Seq<Seq<char>>, sep: Seq<char>, i: int)
    requires
        0 <= i < list.len(),
    ensures
        crate::text::has_infix(join(list, sep), list[i]),
    decreases list.len(),
{
    let j = join(list, sep);
    if list.len() == 1 {
        assert(crate::text::occurs_at(j, list[i], 0)) by {
            assert(j.subrange(0, list[i].len() as int) =~= list[i]);
        }
    } else if i == list.len() - 1 {
        let front = join(list.drop_last(), sep) + sep;
        assert(j == front + list.last());
        assert(crate::text::occurs_at(j, list[i], front.len() as int)) by {
            assert(j.subrange(front.len() as int, (front.len() + list[i].len()) as int) =~= list[i]);
        }
    } else {
        lemma_join_has_part(list.drop_last(), sep, i);
        let front = join(list.drop_last(), sep);
        assert(list.drop_last()[i] == list[i]);
        let k = choose|k: int| crate::text::occurs_at(front, list[i], k);
        assert(j == front + (sep + list.last()));
        assert(crate::text::occurs_at(j, list[i], k)) by {
            assert(j.subrange(k, k + list[i].len()) =~= front.subrange(k, k + list[i].len()));
        }
    }
}

/// A part of the first list stays in the parts that follow it.
proof fn lemma_then_keeps(a: Parts, b: Parts, x: Seq<char>)
    requires
        then_parts(a, b) is Ok,
        a matches Ok(p) && p.contains(x),
    ensures
        b is Ok,
        then_parts(a, b)->Ok_0.contains(x),
{
    let p = a->Ok_0;
    let k = choose|k: int| 0 <= k < p.len() && p[k] == x;
    assert(then_parts(a, b)->Ok_0[k] == x);
}

/// A part of the second list stays in the parts that follow the first.
proof fn lemma_then_keeps_second(a: Parts, b: Parts, x: Seq<char>)
    requires
        then_parts(a, b) is Ok,
        b matches Ok(p) && p.contains(x),
    ensures
        a is Ok,
        then_parts(a, b)->Ok_0.contains(x),
{
    let p = b->Ok_0;
    let k = choose|k: int| 0 <= k < p.len() && p[k] == x;
    let n = a->Ok_0.len();
    assert(then_parts(a, b)->Ok_0[n + k] == x);
}

/// Whether `then_parts(a, b)` succeeds only where both do.
proof fn lemma_then_ok(a: Parts, b: Parts)
    requires
        then_parts(a, b) is Ok,
    ensures
        a is Ok,
        b is Ok,
{
}

/// Law: each text field of a search request is sent under its own IMAP keyword: a set
/// `query` as `TEXT "<text>"`, `from` as `FROM`, `to` as `TO` and `subject` as `SUBJECT`,
/// with the text escaped; the query the search sends contains each such criterion.
pub proof fn lemma_text_fields_keywords(input: SearchMessagesInput, today: (i32, u32, u32))
    requires
        search_query(input, today) is Ok,
    ensures
        ov(input.query) matches Some(t) ==> crate::text::has_infix(
            search_query(input, today)->Ok_0,
            criterion("TEXT"@, t),
        ),
        ov(input.from) matches Some(t) ==> crate::text::has_infix(
            search_query(input, today)->Ok_0,
            criterion("FROM"@, t),
        ),
        ov(input.to) matches Some(t) ==> crate::text::has_infix(
            search_query(input, today)->Ok_0,
            criterion("TO"@, t),
        ),
        ov(input.subject) matches Some(t) ==> crate::text::has_infix(
            search_query(input, today)->Ok_0,
            criterion("SUBJECT"@, t),
        ),
        input.unread_only == Some(true) ==> crate::text::has_infix(
            search_query(input, today)->Ok_0,
            "UNSEEN"@,
        ),
{
    let q = quoted_part("TEXT"@, ov(input.query));
    let f = quoted_part("FROM"@, ov(input.from));
    let t = quoted_part("TO"@, ov(input.to));
    let su = quoted_part("SUBJECT"@, ov(input.subject));
    let a1 = then_parts(q, f);
    let a2 = then_parts(a1, t);
    let a3 = then_parts(a2, su);
    let tp = then_parts(a3, unseen_part(input.unread_only));
    let l = last_days_part(input.last_days, today);
    let b1 = then_parts(tp, l);
    let b2 = then_parts(b1, start_part(ov(input.start_date)));
    let all = then_parts(b2, end_part(ov(input.end_date)));
    assert(all == query_parts(input, today));
    lemma_then_ok(b2, end_part(ov(input.end_date)));
    lemma_then_ok(b1, start_part(ov(input.start_date)));
    lemma_then_ok(tp, l);
    lemma_then_ok(a3, unseen_part(input.unread_only));
    lemma_then_ok(a2, su);
    lemma_then_ok(a1, t);
    lemma_then_ok(q, f);
    // Carry one part of the text criteria to the whole query.
    assert forall|x: Seq<char>| a3->Ok_0.contains(x) implies all->Ok_0.contains(x) by {
        lemma_then_keeps(a3, unseen_part(input.unread_only), x);
        lemma_then_keeps(tp, l, x);
        lemma_then_keeps(b1, start_part(ov(input.start_date)), x);
        lemma_then_keeps(b2, end_part(ov(input.end_date)), x);
    }
    assert forall|x: Seq<char>| #[trigger] all->Ok_0.contains(x) implies crate::text::has_infix(
        search_query(input, today)->Ok_0,
        x,
    ) by {
        let p = all->Ok_0;
        let k = choose|k: int| 0 <= k < p.len() && p[k] == x;
        lemma_join_has_part(p, " "@, k);
    }
    if let Some(v) = ov(input.query) {
        assert(q->Ok_0 == seq![criterion("TEXT"@, v)]);
        assert(q->Ok_0[0] == criterion("TEXT"@, v));
        lemma_then_keeps(q, f, criterion("TEXT"@, v));
        lemma_then_keeps(a1, t, criterion("TEXT"@, v));
        lemma_then_keeps(a2, su, criterion("TEXT"@, v));
        assert(all->Ok_0.contains(criterion("TEXT"@, v)));
    }
    if let Some(v) = ov(input.from) {
        assert(f->Ok_0[0] == criterion("FROM"@, v));
        lemma_then_keeps_second(q, f, criterion("FROM"@, v));
        lemma_then_keeps(a1, t, criterion("FROM"@, v));
        lemma_then_keeps(a2, su, criterion("FROM"@, v));
        assert(all->Ok_0.contains(criterion("FROM"@, v)));
    }
    if let Some(v) = ov(input.to) {
        assert(t->Ok_0[0] == criterion("TO"@, v));
        lemma_then_keeps_second(a1, t, criterion("TO"@, v));
        lemma_then_keeps(a2, su, criterion("TO"@, v));
        assert(all->Ok_0.contains(criterion("TO"@, v)));
    }
    if input.unread_only == Some(true) {
        let u = unseen_part(input.unread_only);
        assert(u->Ok_0[0] == "UNSEEN"@);
        lemma_then_keeps_second(a3, u, "UNSEEN"@);
        lemma_then_keeps(tp, l, "UNSEEN"@);
        lemma_then_keeps(b1, start_part(ov(input.start_date)), "UNSEEN"@);
        lemma_then_keeps(b2, end_part(ov(input.end_date)), "UNSEEN"@);
        assert(all->Ok_0.contains("UNSEEN"@));
    }
    if let Some(v) = ov(input.subject) {
        assert(su->Ok_0[0] == criterion("SUBJECT"@, v));
        lemma_then_keeps_second(a2, su, criterion("SUBJECT"@, v));
        assert(all->Ok_0.contains(criterion("SUBJECT"@, v)));
    }
}

} // verus!
