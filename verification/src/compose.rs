//! Composing outgoing mail: sending, replying to and forwarding a message, and the
//! copy kept in the Sent folder.
use vstd::prelude::*;
use vstd::string::*;

use crate::config::{opt_string_view, ServerConfig};
use crate::errors::{invalid_view, AppError, AppResult, ErrorKind};
use crate::smtp::{CompositionView, EmailComposition};
use crate::text::{
    byte_len, chars_of, concat2, concat3, contains_str, has_infix, has_prefix, has_suffix,
    longer_than, lower, starts_with_str, string_of, strings_view, to_lower, trim,
    trim_str,
};
use crate::validate::{
    account_id_check, header_lookup, header_value, headers_view, outcome, recipients_check,
    validate_account_id, validate_email_recipients,
};

verus! {

/// What `mailparse::parse_mail(raw)` yields: the name and decoded value of each header
/// (`MailHeader::get_key`, `MailHeader::get_value`) in order, or the error's text.
pub uninterp spec fn mailparse_headers(raw: Seq<u8>) -> Result<
    Seq<(Seq<char>, Seq<char>)>,
    Seq<char>,
>;

/// Parses `raw` with `mailparse::parse_mail` and returns its headers as name/value
/// pairs, or the error's text; the contract ties the result to [`mailparse_headers`].
#[verifier::external_body]
fn parse_mail_headers(raw: &[u8]) -> (r: Result<Vec<(String, String)>, String>)
    ensures
        match mailparse_headers(raw@) {
            Ok(h) => r matches Ok(v) && headers_view(v@) == h,
            Err(t) => r matches Err(e) && e@ == t,
        },
{
    match mailparse::parse_mail(raw) {
        Ok(parsed) => Ok(parsed.headers.iter().map(|h| (h.get_key(), h.get_value())).collect()),
        Err(e) => Err(e.to_string()),
    }
}

/// The headers of an original message; a message that does not parse is an `Internal`
/// error.
pub fn original_headers(raw: &[u8]) -> (r: AppResult<Vec<(String, String)>>)
    ensures
        match mailparse_headers(raw@) {
            Ok(h) => r matches Ok(v) && headers_view(v@) == h,
            Err(t) => r matches Err(e) && e@ == (
                ErrorKind::Internal,
                "failed to parse original message: "@ + t,
            ),
        },
{
    match parse_mail_headers(raw) {
        Ok(v) => Ok(v),
        Err(t) => Err(AppError::Internal(concat2("failed to parse original message: ", t.as_str()))),
    }
}

/// The value of header `key`, or the empty string.
pub open spec fn header_or_empty(headers: Seq<(Seq<char>, Seq<char>)>, key: Seq<char>) -> Seq<
    char,
> {
    match header_lookup(headers, key) {
        Some(v) => v,
        None => Seq::empty(),
    }
}

/// The value of header `key`, or the empty string.
fn header_or_default(headers: &[(String, String)], key: &str) -> (r: String)
    ensures
        r@ == header_or_empty(headers_view(headers@), key@),
{
    match header_value(headers, key) {
        Some(v) => v,
        None => String::new(),
    }
}

/// The headers of an original message that a reply is built from.
pub struct ReplySource {
    pub from: String,
    pub to: String,
    pub cc: Option<String>,
    pub subject: String,
    pub message_id: String,
    pub references: Option<String>,
}

/// Read the headers a reply is built from: `From`, `To`, `Cc`, `Subject`, `Message-ID`
/// and `References` (missing ones empty, or absent where optional).
pub fn reply_source(headers: &[(String, String)]) -> (r: ReplySource)
    ensures
        r.from@ == header_or_empty(headers_view(headers@), "From"@),
        r.to@ == header_or_empty(headers_view(headers@), "To"@),
        opt_string_view(r.cc) == header_lookup(headers_view(headers@), "Cc"@),
        r.subject@ == header_or_empty(headers_view(headers@), "Subject"@),
        r.message_id@ == header_or_empty(headers_view(headers@), "Message-ID"@),
        opt_string_view(r.references) == header_lookup(headers_view(headers@), "References"@),
{
    ReplySource {
        from: header_or_default(headers, "From"),
        to: header_or_default(headers, "To"),
        cc: header_value(headers, "Cc"),
        subject: header_or_default(headers, "Subject"),
        message_id: header_or_default(headers, "Message-ID"),
        references: header_value(headers, "References"),
    }
}

/// The subject of a reply: the original subject when it already starts with `re:` in
/// any letter case, otherwise `Re: ` before it.
pub open spec fn reply_subject_of(s: Seq<char>) -> Seq<char> {
    if has_prefix(lower(s), "re:"@) {
        s
    } else {
        "Re: "@ + s
    }
}

/// The subject of a reply to a message with subject `subject`.
pub fn reply_subject(subject: &str) -> (r: String)
    ensures
        r@ == reply_subject_of(subject@),
{
    let l = to_lower(subject);
    if starts_with_str(l.as_str(), "re:") {
        String::from_str(subject)
    } else {
        concat2("Re: ", subject)
    }
}

/// Law: a reply to a reply keeps its subject; `Re: ` is never stacked.
pub proof fn lemma_reply_subject_idempotent(s: Seq<char>)
    ensures
        reply_subject_of(reply_subject_of(s)) == reply_subject_of(s),
{
    if !has_prefix(lower(s), "re:"@) {
        let r = "Re: "@ + s;
        reveal_strlit("Re: ");
        reveal_strlit("re:");
        assert(lower(r).subrange(0, 3) =~= "re:"@) by {
            assert(lower(r)[0] == crate::text::lower_char(r[0]));
            assert(lower(r)[1] == crate::text::lower_char(r[1]));
            assert(lower(r)[2] == crate::text::lower_char(r[2]));
        }
    }
}

/// The subject of a forward: the original subject when it already starts with `fwd:`
/// in any letter case, otherwise `Fwd: ` before it.
pub open spec fn forward_subject_of(s: Seq<char>) -> Seq<char> {
    if has_prefix(lower(s), "fwd:"@) {
        s
    } else {
        "Fwd: "@ + s
    }
}

/// The subject of a forward of a message with subject `subject`.
pub fn forward_subject(subject: &str) -> (r: String)
    ensures
        r@ == forward_subject_of(subject@),
{
    let l = to_lower(subject);
    if starts_with_str(l.as_str(), "fwd:") {
        String::from_str(subject)
    } else {
        concat2("Fwd: ", subject)
    }
}

/// Law: a forward of a forward keeps its subject; `Fwd: ` is never stacked.
pub proof fn lemma_forward_subject_idempotent(s: Seq<char>)
    ensures
        forward_subject_of(forward_subject_of(s)) == forward_subject_of(s),
{
    if !has_prefix(lower(s), "fwd:"@) {
        let r = "Fwd: "@ + s;
        reveal_strlit("Fwd: ");
        reveal_strlit("fwd:");
        assert(lower(r).subrange(0, 4) =~= "fwd:"@) by {
            assert(lower(r)[0] == crate::text::lower_char(r[0]));
            assert(lower(r)[1] == crate::text::lower_char(r[1]));
            assert(lower(r)[2] == crate::text::lower_char(r[2]));
            assert(lower(r)[3] == crate::text::lower_char(r[3]));
        }
    }
}

/// The `References` of a reply: the original references followed by the original
/// message id, or the message id alone.
pub open spec fn references_of(refs: Option<Seq<char>>, message_id: Seq<char>) -> Seq<char> {
    match refs {
        Some(r) => r + " "@ + message_id,
        None => message_id,
    }
}

/// The `References` header of a reply.
pub fn reply_references(refs: &Option<String>, message_id: &str) -> (r: String)
    ensures
        r@ == references_of(opt_string_view(*refs), message_id@),
{
    match refs {
        Some(r) => concat3(r.as_str(), " ", message_id),
        None => String::from_str(message_id),
    }
}

/// `s` split at each occurrence of `sep` (`str::split`): one more piece than there are
/// separators.
pub open spec fn split_on(s: Seq<char>, sep: char) -> Seq<Seq<char>>
    decreases s.len(),
{
    if s.len() == 0 {
        seq![Seq::empty()]
    } else {
        let init = split_on(s.drop_last(), sep);
        if s.last() == sep {
            init.push(Seq::empty())
        } else {
            init.update(init.len() - 1, init.last().push(s.last()))
        }
    }
}

/// Splitting always yields at least one piece.
proof fn lemma_split_nonempty(s: Seq<char>, sep: char)
    ensures
        split_on(s, sep).len() >= 1,
    decreases s.len(),
{
    if s.len() > 0 {
        lemma_split_nonempty(s.drop_last(), sep);
    }
}

/// The pieces of `s` between commas (`str::split(',')`).
fn split_commas(s: &str) -> (r: Vec<String>)
    ensures
        strings_view(r@) == split_on(s@, ','),
{
    let v = chars_of(s);
    let mut pieces: Vec<String> = Vec::new();
    let mut cur: Vec<char> = Vec::new();
    let mut i: usize = 0;
    proof {
        assert(v@.take(0) =~= Seq::<char>::empty());
    }
    while i < v.len()
        invariant
            i <= v@.len(),
            v@ == s@,
            strings_view(pieces@).push(cur@) == split_on(v@.take(i as int), ','),
        decreases v.len() - i,
    {
        proof {
            assert(v@.take(i + 1).drop_last() == v@.take(i as int));
            lemma_split_nonempty(v@.take(i as int), ',');
        }
        let c = v[i];
        if c == ',' {
            let piece = string_of(cur.as_slice());
            let ghost before = pieces@;
            pieces.push(piece);
            cur = Vec::new();
            proof {
                assert(strings_view(pieces@) =~= strings_view(before).push(piece@));
                assert(strings_view(pieces@).push(cur@) =~= strings_view(before).push(piece@).push(
                    Seq::<char>::empty(),
                ));
            }
        } else {
            let ghost before = cur@;
            cur.push(c);
            proof {
                let old_split = strings_view(pieces@).push(before);
                assert(strings_view(pieces@).push(cur@) =~= old_split.update(
                    old_split.len() - 1,
                    old_split.last().push(c),
                ));
            }
        }
        i = i + 1;
    }
    proof {
        assert(v@.take(v@.len() as int) == v@);
    }
    let last = string_of(cur.as_slice());
    let ghost before = pieces@;
    pieces.push(last);
    proof {
        assert(strings_view(pieces@) =~= strings_view(before).push(last@));
    }
    pieces
}

/// A listed address that a reply-all keeps: not empty, and not containing the sender's
/// own address (`self_email`, lower case) in any letter case.
pub open spec fn kept_address(a: Seq<char>, self_email: Seq<char>) -> bool {
    a.len() > 0 && !has_infix(lower(a), self_email)
}

/// The addresses of a comma-separated header value, trimmed, without empty ones and
/// without the sender's own address.
pub open spec fn other_addresses(list: Seq<char>, self_email: Seq<char>) -> Seq<Seq<char>> {
    split_on(list, ',').map_values(|p: Seq<char>| trim(p)).filter(
        |a: Seq<char>| kept_address(a, self_email),
    )
}

/// The addresses of a comma-separated header value other than the sender's own.
pub fn other_recipients(list: &str, self_email: &str) -> (r: Vec<String>)
    ensures
        strings_view(r@) == other_addresses(list@, self_email@),
{
    let pieces = split_commas(list);
    let ghost trimmed = split_on(list@, ',').map_values(|p: Seq<char>| trim(p));
    let mut out: Vec<String> = Vec::new();
    let mut i: usize = 0;
    proof {
        reveal(Seq::filter);
        assert(trimmed.take(0).filter(|a: Seq<char>| kept_address(a, self_email@)) =~= Seq::<
            Seq<char>,
        >::empty());
    }
    while i < pieces.len()
        invariant
            i <= pieces@.len(),
            strings_view(pieces@) == split_on(list@, ','),
            trimmed == split_on(list@, ',').map_values(|p: Seq<char>| trim(p)),
            strings_view(out@) == trimmed.take(i as int).filter(
                |a: Seq<char>| kept_address(a, self_email@),
            ),
        decreases pieces.len() - i,
    {
        let t = trim_str(pieces[i].as_str());
        proof {
            assert(trimmed[i as int] == trim(pieces@[i as int]@));
            assert(trimmed.take(i + 1).drop_last() == trimmed.take(i as int));
            assert(trimmed.take(i + 1).last() == t@);
            reveal(Seq::filter);
        }
        let lt = to_lower(t.as_str());
        if !t.as_str().is_empty() && !contains_str(lt.as_str(), self_email) {
            let ghost before = out@;
            out.push(t);
            proof {
                assert(strings_view(out@) =~= strings_view(before).push(
                    out@[out@.len() - 1]@,
                ));
            }
        }
        i = i + 1;
    }
    proof {
        assert(trimmed.take(trimmed.len() as int) == trimmed);
    }
    out
}

/// Law: a reply-all never sends to the sender's own address: every address it adds
/// from the original `To` or `Cc` is non-empty and does not contain `self_email`.
pub proof fn lemma_reply_all_excludes_self(list: Seq<char>, self_email: Seq<char>, i: int)
    requires
        0 <= i < other_addresses(list, self_email).len(),
    ensures
        other_addresses(list, self_email)[i].len() > 0,
        !has_infix(lower(other_addresses(list, self_email)[i]), self_email),
{
    let pieces = split_on(list, ',').map_values(|p: Seq<char>| trim(p));
    pieces.lemma_filter_pred(|a: Seq<char>| kept_address(a, self_email), i);
}

/// The reply to the message whose headers are `src`, sent by `user`: to the original
/// sender, and with `reply_all` also to the other addresses of the original `To` and
/// `Cc`; threaded by `In-Reply-To` and `References`.
pub open spec fn reply_view(
    user: Seq<char>,
    src: ReplySource,
    reply_all: bool,
    body_text: Seq<char>,
    body_html: Option<Seq<char>>,
) -> CompositionView {
    let self_email = lower(user);
    CompositionView {
        from: user,
        to: seq![src.from@] + if reply_all {
            other_addresses(src.to@, self_email)
        } else {
            Seq::empty()
        },
        cc: if reply_all {
            other_addresses(
                match opt_string_view(src.cc) {
                    Some(c) => c,
                    None => Seq::empty(),
                },
                self_email,
            )
        } else {
            Seq::empty()
        },
        bcc: Seq::empty(),
        subject: reply_subject_of(src.subject@),
        body_text: Some(body_text),
        body_html,
        reply_to: None,
        in_reply_to: Some(src.message_id@),
        references: Some(references_of(opt_string_view(src.references), src.message_id@)),
    }
}

/// Compose the reply to the message whose headers are `src`.
pub fn reply_composition(
    user: &str,
    src: &ReplySource,
    reply_all: bool,
    body_text: String,
    body_html: Option<String>,
) -> (r: EmailComposition)
    ensures
        r@ == reply_view(user@, *src, reply_all, body_text@, opt_string_view(body_html)),
{
    let self_email = to_lower(user);
    let mut to: Vec<String> = Vec::new();
    to.push(src.from.clone());
    let ghost first = strings_view(to@);
    let cc: Vec<String> = if reply_all {
        let others = other_recipients(src.to.as_str(), self_email.as_str());
        let mut k: usize = 0;
        while k < others.len()
            invariant
                k <= others@.len(),
                strings_view(to@) == first + strings_view(others@).take(k as int),
            decreases others.len() - k,
        {
            let ghost before = to@;
            let item = others[k].clone();
            to.push(item);
            proof {
                assert(strings_view(to@) =~= strings_view(before).push(item@));
                assert(strings_view(others@).take(k + 1) =~= strings_view(others@).take(
                    k as int,
                ).push(others@[k as int]@));
                assert(strings_view(to@) =~= first + strings_view(others@).take(k + 1));
            }
            k = k + 1;
        }
        proof {
            assert(strings_view(others@).take(others@.len() as int) == strings_view(others@));
        }
        match &src.cc {
            Some(c) => other_recipients(c.as_str(), self_email.as_str()),
            None => other_recipients("", self_email.as_str()),
        }
    } else {
        proof {
            assert(strings_view(to@) =~= first + Seq::<Seq<char>>::empty());
        }
        Vec::new()
    };
    proof {
        assert(""@ == Seq::<char>::empty()) by {
            reveal_strlit("");
        }
        assert(first =~= seq![src.from@]);
        if !reply_all {
            assert(strings_view(cc@) =~= Seq::<Seq<char>>::empty());
        }
    }
    let references = reply_references(&src.references, src.message_id.as_str());
    let r = EmailComposition {
        from: String::from_str(user),
        to,
        cc,
        bcc: Vec::new(),
        subject: reply_subject(src.subject.as_str()),
        body_text: Some(body_text),
        body_html,
        reply_to: None,
        in_reply_to: Some(src.message_id.clone()),
        references: Some(references),
    };
    proof {
        let want = reply_view(user@, *src, reply_all, body_text@, opt_string_view(r.body_html));
        assert(r@.bcc =~= want.bcc);
        assert(r@.to =~= want.to);
        assert(r@.cc =~= want.cc);
    }
    r
}

/// The body of a forward: the sender's text, then the original sender, date, subject
/// and body under a `Forwarded message` line.
pub open spec fn forward_text_of(
    body_text: Option<Seq<char>>,
    from: Seq<char>,
    date: Seq<char>,
    subject: Seq<char>,
    original_body: Seq<char>,
) -> Seq<char> {
    (match body_text {
        Some(t) => t,
        None => Seq::empty(),
    }) + "\n\n---------- Forwarded message ----------\nFrom: "@ + from + "\nDate: "@ + date
        + "\nSubject: "@ + subject + "\n\n"@ + original_body
}

/// The body of a forward.
pub fn forward_text(
    body_text: &Option<String>,
    from: &str,
    date: &str,
    subject: &str,
    original_body: &str,
) -> (r: String)
    ensures
        r@ == forward_text_of(opt_string_view(*body_text), from@, date@, subject@, original_body@),
{
    let mut out = match body_text {
        Some(t) => t.clone(),
        None => String::new(),
    };
    out.append("\n\n---------- Forwarded message ----------\nFrom: ");
    out.append(from);
    out.append("\nDate: ");
    out.append(date);
    out.append("\nSubject: ");
    out.append(subject);
    out.append("\n\n");
    out.append(original_body);
    out
}

/// The forward of the message with headers `headers` and body `original_body` to `to`,
/// sent by `user`.
pub open spec fn forward_view(
    user: Seq<char>,
    to: Seq<Seq<char>>,
    headers: Seq<(Seq<char>, Seq<char>)>,
    body_text: Option<Seq<char>>,
    original_body: Seq<char>,
) -> CompositionView {
    CompositionView {
        from: user,
        to,
        cc: Seq::empty(),
        bcc: Seq::empty(),
        subject: forward_subject_of(header_or_empty(headers, "Subject"@)),
        body_text: Some(
            forward_text_of(
                body_text,
                header_or_empty(headers, "From"@),
                header_or_empty(headers, "Date"@),
                header_or_empty(headers, "Subject"@),
                original_body,
            ),
        ),
        body_html: None,
        reply_to: None,
        in_reply_to: None,
        references: None,
    }
}

/// Compose the forward of a message to `to`.
pub fn forward_composition(
    user: &str,
    to: &Vec<String>,
    headers: &[(String, String)],
    body_text: &Option<String>,
    original_body: &str,
) -> (r: EmailComposition)
    ensures
        r@ == forward_view(
            user@,
            strings_view(to@),
            headers_view(headers@),
            opt_string_view(*body_text),
            original_body@,
        ),
{
    let subject = header_or_default(headers, "Subject");
    let from = header_or_default(headers, "From");
    let date = header_or_default(headers, "Date");
    let text = forward_text(body_text, from.as_str(), date.as_str(), subject.as_str(), original_body);
    let mut recipients: Vec<String> = Vec::new();
    let mut k: usize = 0;
    while k < to.len()
        invariant
            k <= to@.len(),
            strings_view(recipients@) == strings_view(to@).take(k as int),
        decreases to.len() - k,
    {
        let ghost before = recipients@;
        let item = to[k].clone();
        recipients.push(item);
        proof {
            assert(strings_view(recipients@) =~= strings_view(before).push(item@));
            assert(strings_view(to@).take(k + 1) =~= strings_view(to@).take(k as int).push(
                to@[k as int]@,
            ));
            assert(strings_view(recipients@) =~= strings_view(to@).take(k + 1));
        }
        k = k + 1;
    }
    proof {
        assert(strings_view(to@).take(to@.len() as int) == strings_view(to@));
    }
    let r = EmailComposition {
        from: String::from_str(user),
        to: recipients,
        cc: Vec::new(),
        bcc: Vec::new(),
        subject: forward_subject(subject.as_str()),
        body_text: Some(text),
        body_html: None,
        reply_to: None,
        in_reply_to: None,
        references: None,
    };
    proof {
        assert(r@.cc =~= Seq::<Seq<char>>::empty());
        assert(r@.bcc =~= Seq::<Seq<char>>::empty());
    }
    r
}

/// The request to send a new message.
pub struct SmtpSendMessageInput {
    pub account_id: String,
    pub to: Vec<String>,
    pub cc: Vec<String>,
    pub bcc: Vec<String>,
    pub subject: String,
    pub body_text: Option<String>,
    pub body_html: Option<String>,
    pub reply_to: Option<String>,
    pub in_reply_to: Option<String>,
    pub references: Option<String>,
}

/// The outcome of [`validate_send_input`]: the first failing check, in order.
pub open spec fn send_input_check(smtp_write_enabled: bool, input: SmtpSendMessageInput) -> Result<
    (),
    (ErrorKind, Seq<char>),
> {
    if !smtp_write_enabled {
        Err(invalid_view("SMTP send tools are disabled; set MAIL_SMTP_WRITE_ENABLED=true"@))
    } else if account_id_check(input.account_id@) is Err {
        account_id_check(input.account_id@)
    } else if recipients_check(strings_view(input.to@), "to"@) is Err {
        recipients_check(strings_view(input.to@), "to"@)
    } else if input.cc@.len() > 0 && recipients_check(strings_view(input.cc@), "cc"@) is Err {
        recipients_check(strings_view(input.cc@), "cc"@)
    } else if input.bcc@.len() > 0 && recipients_check(strings_view(input.bcc@), "bcc"@) is Err {
        recipients_check(strings_view(input.bcc@), "bcc"@)
    } else if input.subject@.len() == 0 || byte_len(input.subject@) > 998 {
        Err(invalid_view("subject must be 1..998 characters"@))
    } else if input.body_text is None && input.body_html is None {
        Err(invalid_view("at least one of body_text or body_html is required"@))
    } else {
        Ok(())
    }
}

/// Check a send request before anything is sent: sending enabled, account id, 1..50
/// plausible `to` addresses (and `cc`/`bcc` when given), a subject of 1..998 bytes,
/// and a text or HTML body.
pub fn validate_send_input(config: &ServerConfig, input: &SmtpSendMessageInput) -> (r: AppResult<
    (),
>)
    ensures
        outcome(r) == send_input_check(config.smtp_write_enabled, *input),
{
    crate::tools::require_smtp_write_enabled(config)?;
    validate_account_id(input.account_id.as_str())?;
    validate_email_recipients(input.to.as_slice(), "to")?;
    if input.cc.len() > 0 {
        validate_email_recipients(input.cc.as_slice(), "cc")?;
    }
    if input.bcc.len() > 0 {
        validate_email_recipients(input.bcc.as_slice(), "bcc")?;
    }
    if input.subject.as_str().is_empty() || longer_than(input.subject.as_str(), 998) {
        return Err(AppError::invalid("subject must be 1..998 characters"));
    }
    if input.body_text.is_none() && input.body_html.is_none() {
        return Err(AppError::invalid("at least one of body_text or body_html is required"));
    }
    Ok(())
}

/// A copy of a list of strings.
fn copy_strings(v: &Vec<String>) -> (r: Vec<String>)
    ensures
        strings_view(r@) == strings_view(v@),
{
    let mut out: Vec<String> = Vec::new();
    let mut k: usize = 0;
    while k < v.len()
        invariant
            k <= v@.len(),
            strings_view(out@) == strings_view(v@).take(k as int),
        decreases v.len() - k,
    {
        let ghost before = out@;
        let item = v[k].clone();
        out.push(item);
        proof {
            assert(strings_view(out@) =~= strings_view(before).push(item@));
            assert(strings_view(v@).take(k + 1) =~= strings_view(v@).take(k as int).push(
                v@[k as int]@,
            ));
        }
        k = k + 1;
    }
    proof {
        assert(strings_view(v@).take(v@.len() as int) == strings_view(v@));
    }
    out
}

/// A copy of an optional string.
fn copy_opt(o: &Option<String>) -> (r: Option<String>)
    ensures
        opt_string_view(r) == opt_string_view(*o),
{
    match o {
        Some(s) => Some(s.clone()),
        None => None,
    }
}

/// The message a send request composes, sent by `user`.
pub fn send_composition(user: &str, input: &SmtpSendMessageInput) -> (r: EmailComposition)
    ensures
        r@ == (CompositionView {
            from: user@,
            to: strings_view(input.to@),
            cc: strings_view(input.cc@),
            bcc: strings_view(input.bcc@),
            subject: input.subject@,
            body_text: opt_string_view(input.body_text),
            body_html: opt_string_view(input.body_html),
            reply_to: opt_string_view(input.reply_to),
            in_reply_to: opt_string_view(input.in_reply_to),
            references: opt_string_view(input.references),
        }),
{
    EmailComposition {
        from: String::from_str(user),
        to: copy_strings(&input.to),
        cc: copy_strings(&input.cc),
        bcc: copy_strings(&input.bcc),
        subject: input.subject.clone(),
        body_text: copy_opt(&input.body_text),
        body_html: copy_opt(&input.body_html),
        reply_to: copy_opt(&input.reply_to),
        in_reply_to: copy_opt(&input.in_reply_to),
        references: copy_opt(&input.references),
    }
}

/// The number of recipients of a send request, and the summary reporting it.
pub fn send_summary(input: &SmtpSendMessageInput) -> (r: (usize, String))
    requires
        input.to@.len() + input.cc@.len() + input.bcc@.len() <= usize::MAX,
    ensures
        r.0 == input.to@.len() + input.cc@.len() + input.bcc@.len(),
        r.1@ == "Email sent to "@ + crate::text::decimal(r.0 as nat) + " recipient(s)"@,
{
    let n = input.to.len() + input.cc.len() + input.bcc.len();
    let digits = crate::text::decimal_u64(n as u64);
    (n, concat3("Email sent to ", digits.as_str(), " recipient(s)"))
}

/// A mailbox that looks like the Sent folder: `sent` or `sent items`, a path ending in
/// `/sent` or `/sent mail`, or one containing `[gmail]/sent`, in any letter case.
pub open spec fn sent_like(name: Seq<char>) -> bool {
    let l = lower(name);
    l == "sent"@ || l == "sent items"@ || has_suffix(l, "/sent"@) || has_suffix(l, "/sent mail"@)
        || has_infix(l, "[gmail]/sent"@)
}

/// The Sent folder among mailboxes `names`: the first that looks like it, else `Sent`.
pub open spec fn sent_folder_of(names: Seq<Seq<char>>) -> Seq<char> {
    if exists|i: int| 0 <= i < names.len() && sent_like(#[trigger] names[i]) {
        names[choose|i: int|
            0 <= i < names.len() && sent_like(#[trigger] names[i]) && forall|j: int|
                0 <= j < i ==> !sent_like(#[trigger] names[j])]
    } else {
        "Sent"@
    }
}

/// Whether a mailbox name looks like the Sent folder.
fn is_sent_like(name: &str) -> (r: bool)
    ensures
        r == sent_like(name@),
{
    let l = to_lower(name);
    let ls = l.as_str();
    String::from_str(ls) == String::from_str("sent") || String::from_str(ls) == String::from_str(
        "sent items",
    ) || crate::text::ends_with_str(ls, "/sent") || crate::text::ends_with_str(ls, "/sent mail")
        || contains_str(ls, "[gmail]/sent")
}

/// Detect the Sent folder among the mailboxes `names`.
pub fn detect_sent_folder(names: &[String]) -> (r: String)
    ensures
        r@ == sent_folder_of(strings_view(names@)),
{
    let ghost nv = strings_view(names@);
    let mut i: usize = 0;
    while i < names.len()
        invariant
            i <= names@.len(),
            nv == strings_view(names@),
            forall|j: int| 0 <= j < i ==> !sent_like(#[trigger] nv[j]),
        decreases names.len() - i,
    {
        proof {
            assert(nv[i as int] == names@[i as int]@);
        }
        if is_sent_like(names[i].as_str()) {
            proof {
                let k = choose|k: int|
                    0 <= k < nv.len() && sent_like(#[trigger] nv[k]) && forall|j: int|
                        0 <= j < k ==> !sent_like(#[trigger] nv[j]);
                if k < i {
                } else if k > i {
                    assert(!sent_like(nv[i as int]));
                }
            }
            return names[i].clone();
        }
        i = i + 1;
    }
    String::from_str("Sent")
}

/// The copy of a sent message appended to the Sent folder: `From`, `To`, `Subject` and
/// `Date` headers, then `Cc`, `In-Reply-To` and `References` where present, a blank
/// line, and the text body.
pub open spec fn sent_copy_of(c: CompositionView, date: Seq<char>) -> Seq<char> {
    "From: "@ + c.from + "\r\nTo: "@ + crate::text::join(c.to, ", "@) + "\r\nSubject: "@
        + c.subject + "\r\nDate: "@ + date + "\r\n"@ + (if c.cc.len() > 0 {
        "Cc: "@ + crate::text::join(c.cc, ", "@) + "\r\n"@
    } else {
        Seq::empty()
    }) + (match c.in_reply_to {
        Some(v) => "In-Reply-To: "@ + v + "\r\n"@,
        None => Seq::empty(),
    }) + (match c.references {
        Some(v) => "References: "@ + v + "\r\n"@,
        None => Seq::empty(),
    }) + "\r\n"@ + (match c.body_text {
        Some(b) => b,
        None => Seq::empty(),
    })
}

/// The RFC 822 copy of a sent message, dated `date`.
pub fn sent_copy_rfc822(c: &EmailComposition, date: &str) -> (r: String)
    ensures
        r@ == sent_copy_of(c@, date@),
{
    let mut out = concat2("From: ", c.from.as_str());
    out.append("\r\nTo: ");
    let to = crate::text::join_strings(c.to.as_slice(), ", ");
    out.append(to.as_str());
    out.append("\r\nSubject: ");
    out.append(c.subject.as_str());
    out.append("\r\nDate: ");
    out.append(date);
    out.append("\r\n");
    let ghost head = out@;
    if c.cc.len() > 0 {
        let cc = crate::text::join_strings(c.cc.as_slice(), ", ");
        out.append("Cc: ");
        out.append(cc.as_str());
        out.append("\r\n");
    }
    let ghost with_cc = out@;
    if let Some(v) = &c.in_reply_to {
        out.append("In-Reply-To: ");
        out.append(v.as_str());
        out.append("\r\n");
    }
    let ghost with_irt = out@;
    if let Some(v) = &c.references {
        out.append("References: ");
        out.append(v.as_str());
        out.append("\r\n");
    }
    out.append("\r\n");
    if let Some(b) = &c.body_text {
        out.append(b.as_str());
    }
    proof {
        let v = c@;
        let cc_part = if v.cc.len() > 0 {
            "Cc: "@ + crate::text::join(v.cc, ", "@) + "\r\n"@
        } else {
            Seq::<char>::empty()
        };
        let irt_part = match v.in_reply_to {
            Some(x) => "In-Reply-To: "@ + x + "\r\n"@,
            None => Seq::<char>::empty(),
        };
        let ref_part = match v.references {
            Some(x) => "References: "@ + x + "\r\n"@,
            None => Seq::<char>::empty(),
        };
        let body_part = match v.body_text {
            Some(b) => b,
            None => Seq::<char>::empty(),
        };
        assert(with_cc =~= head + cc_part);
        assert(with_irt =~= with_cc + irt_part);
        assert(out@ =~= with_irt + ref_part + "\r\n"@ + body_part);
        assert(out@ =~= sent_copy_of(v, date@));
    }
    out
}

/// The current time in RFC 2822 form, by `chrono::Utc::now().to_rfc2822()`. It depends
/// on the clock, so nothing is stated of it.
#[verifier::external_body]
fn now_rfc2822() -> String {
    chrono::Utc::now().to_rfc2822()
}

/// The copy of a sent message for the Sent folder, dated now.
pub fn sent_copy_now(c: &EmailComposition) -> (r: String)
    ensures
        exists|date: Seq<char>| r@ == sent_copy_of(c@, date),
{
    let date = now_rfc2822();
    sent_copy_rfc822(c, date.as_str())
}

/// The error for a failed SMTP send with transport message `msg`: authentication
/// failures (a message mentioning `auth` in any letter case, or the SMTP codes 535 or
/// 534) apart from other failures.
pub open spec fn send_error_of(msg: Seq<char>) -> (ErrorKind, Seq<char>) {
    if has_infix(lower(msg), "auth"@) || has_infix(msg, "535"@) || has_infix(msg, "534"@) {
        (ErrorKind::AuthFailed, "SMTP authentication failed: "@ + msg)
    } else {
        (ErrorKind::Internal, "SMTP send failed: "@ + msg)
    }
}

/// Classify a failed SMTP send.
pub fn classify_send_error(msg: &str) -> (r: AppError)
    ensures
        r@ == send_error_of(msg@),
{
    let l = to_lower(msg);
    if contains_str(l.as_str(), "auth") || contains_str(msg, "535") || contains_str(msg, "534") {
        AppError::AuthFailed(concat2("SMTP authentication failed: ", msg))
    } else {
        AppError::Internal(concat2("SMTP send failed: ", msg))
    }
}

/// The error for a failed SMTP connection test with transport message `msg`.
pub open spec fn verify_error_of(msg: Seq<char>) -> (ErrorKind, Seq<char>) {
    if has_infix(lower(msg), "auth"@) {
        (ErrorKind::AuthFailed, "SMTP authentication failed: "@ + msg)
    } else {
        (ErrorKind::Internal, "SMTP connection test failed: "@ + msg)
    }
}

/// Classify a failed SMTP connection test.
pub fn classify_verify_error(msg: &str) -> (r: AppError)
    ensures
        r@ == verify_error_of(msg@),
{
    let l = to_lower(msg);
    if contains_str(l.as_str(), "auth") {
        AppError::AuthFailed(concat2("SMTP authentication failed: ", msg))
    } else {
        AppError::Internal(concat2("SMTP connection test failed: ", msg))
    }
}

/// The check that the mailbox of an original message still has its UIDVALIDITY.
pub fn check_original_uidvalidity(expected: u32, current: u32) -> (r: AppResult<()>)
    ensures
        expected == current ==> r is Ok,
        expected != current ==> (r matches Err(e) && e@ == (
            ErrorKind::Conflict,
            "UIDVALIDITY mismatch: message_id has "@ + crate::text::decimal(expected as nat)
                + " but mailbox has "@ + crate::text::decimal(current as nat),
        )),
{
    if expected != current {
        let mut msg = String::from_str("UIDVALIDITY mismatch: message_id has ");
        let a = crate::text::decimal_u64(expected as u64);
        msg.append(a.as_str());
        msg.append(" but mailbox has ");
        let b = crate::text::decimal_u64(current as u64);
        msg.append(b.as_str());
        return Err(AppError::Conflict(msg));
    }
    Ok(())
}

/// Law: a forward is sent by the forwarding account's user, to the recipients given and
/// no one else, whatever the headers of the original message say; in particular it is
/// never sent as the original sender.
pub proof fn lemma_forward_sent_by_user(
    user: Seq<char>,
    to: Seq<Seq<char>>,
    headers: Seq<(Seq<char>, Seq<char>)>,
    other_headers: Seq<(Seq<char>, Seq<char>)>,
    body_text: Option<Seq<char>>,
    original_body: Seq<char>,
)
    ensures
        forward_view(user, to, headers, body_text, original_body).from == user,
        forward_view(user, to, headers, body_text, original_body).to == to,
        forward_view(user, to, headers, body_text, original_body).cc.len() == 0,
        forward_view(user, to, headers, body_text, original_body).bcc.len() == 0,
        forward_view(user, to, headers, body_text, original_body).from == forward_view(
            user,
            to,
            other_headers,
            body_text,
            original_body,
        ).from,
        forward_view(user, to, headers, body_text, original_body).body_html is None,
        forward_view(user, to, headers, body_text, original_body).in_reply_to is None,
        forward_view(user, to, headers, body_text, original_body).references is None,
        crate::text::has_suffix(
            forward_view(user, to, headers, body_text, original_body).body_text->Some_0,
            original_body,
        ),
        body_text matches Some(t) ==> crate::text::has_prefix(
            forward_view(user, to, headers, body_text, original_body).body_text->Some_0,
            t,
        ),
{
    let b = forward_view(user, to, headers, body_text, original_body).body_text->Some_0;
    assert(b.subrange(b.len() - original_body.len(), b.len() as int) =~= original_body);
    if let Some(t) = body_text {
        assert(b.subrange(0, t.len() as int) =~= t);
    }
}

/// Law: a reply carries exactly the bodies its caller gave: the text body, and the HTML
/// body when one is given (so both go out as `multipart/alternative`); it is sent by the
/// replying account's user.
pub proof fn lemma_reply_carries_given_bodies(
    user: Seq<char>,
    src: ReplySource,
    reply_all: bool,
    body_text: Seq<char>,
    body_html: Option<Seq<char>>,
)
    ensures
        reply_view(user, src, reply_all, body_text, body_html).body_text == Some(body_text),
        reply_view(user, src, reply_all, body_text, body_html).body_html == body_html,
        reply_view(user, src, reply_all, body_text, body_html).from == user,
        reply_view(user, src, reply_all, body_text, body_html).to[0] == src.from@,
        !reply_all ==> reply_view(user, src, reply_all, body_text, body_html).to == seq![src.from@],
        !reply_all ==> reply_view(user, src, reply_all, body_text, body_html).cc.len() == 0,
        reply_view(user, src, reply_all, body_text, body_html).bcc.len() == 0,
        reply_view(user, src, reply_all, body_text, body_html).in_reply_to == Some(src.message_id@),
        crate::text::has_suffix(
            reply_view(user, src, reply_all, body_text, body_html).references->Some_0,
            src.message_id@,
        ),
{
    let r = reply_view(user, src, reply_all, body_text, body_html).references->Some_0;
    let m = src.message_id@;
    assert(r.subrange(r.len() - m.len(), r.len() as int) =~= m);
}

} // verus!
