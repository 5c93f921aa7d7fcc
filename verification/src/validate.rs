//! Validation of user-provided tool arguments: account identifiers, mailbox names,
//! search text, IMAP flags, recipient lists and bulk identifier lists.
use vstd::prelude::*;
use vstd::string::*;

use crate::errors::{invalid_view, AppError, AppResult, ErrorKind};
use crate::text::{
    byte_len, chars_of, concat2, longer_than, shorter_than, concat3, decimal, decimal_u64, eq_ignore_case, eq_ignore_case_str,
    is_alnum, is_ascii_ws, is_control, push_char,
};

verus! {

/// Characters allowed in an account identifier: `[A-Za-z0-9_-]`.
pub open spec fn account_id_char(c: char) -> bool {
    is_alnum(c) || c == '_' || c == '-'
}

/// Some character of `s` is an ASCII control character.
pub open spec fn has_control(s: Seq<char>) -> bool {
    exists|i: int| 0 <= i < s.len() && is_control(s[i])
}

/// The outcome of [`validate_account_id`].
pub open spec fn account_id_check(s: Seq<char>) -> Result<(), (ErrorKind, Seq<char>)> {
    if s.len() == 0 || byte_len(s) > 64 {
        Err(invalid_view("account_id must be 1..64 characters"@))
    } else if !(forall|i: int| 0 <= i < s.len() ==> account_id_char(#[trigger] s[i])) {
        Err(invalid_view("account_id must match [A-Za-z0-9_-]+"@))
    } else {
        Ok(())
    }
}

/// The outcome of a check, as a value of the view of an [`AppResult`].
pub open spec fn outcome<T>(r: AppResult<T>) -> Result<(), (ErrorKind, Seq<char>)> {
    match r {
        Ok(_) => Ok(()),
        Err(e) => Err(e@),
    }
}

/// Validate account_id format: 1..64 bytes of `[A-Za-z0-9_-]`.
pub fn validate_account_id(account_id: &str) -> (r: AppResult<()>)
    ensures
        outcome(r) == account_id_check(account_id@),
{
    if account_id.is_empty() || longer_than(account_id, 64) {
        return Err(AppError::invalid("account_id must be 1..64 characters"));
    }
    let v = chars_of(account_id);
    let mut i: usize = 0;
    while i < v.len()
        invariant
            i <= v@.len(),
            v@ == account_id@,
            account_id@.len() != 0 && byte_len(account_id@) <= 64,
            forall|k: int| 0 <= k < i ==> account_id_char(#[trigger] v@[k]),
        decreases v.len() - i,
    {
        let ch = v[i];
        if !(('A' <= ch && ch <= 'Z') || ('a' <= ch && ch <= 'z') || ('0' <= ch && ch <= '9')
            || ch == '_' || ch == '-') {
            proof {
                assert(!account_id_char(account_id@[i as int]));
            }
            return Err(AppError::invalid("account_id must match [A-Za-z0-9_-]+"));
        }
        i = i + 1;
    }
    Ok(())
}

/// The first position of an ASCII control character in `v`, if any.
fn find_control(v: &[char]) -> (r: Option<usize>)
    ensures
        r is None <==> !has_control(v@),
        r matches Some(k) ==> k < v@.len() && is_control(v@[k as int]),
{
    let mut i: usize = 0;
    while i < v.len()
        invariant
            i <= v@.len(),
            forall|k: int| 0 <= k < i ==> !is_control(#[trigger] v@[k]),
        decreases v.len() - i,
    {
        let u: u32 = v[i] as u32;
        if u < 0x20 || u == 0x7f {
            return Some(i);
        }
        i = i + 1;
    }
    None
}

/// The outcome of [`validate_no_controls`].
pub open spec fn no_controls_check(value: Seq<char>, field: Seq<char>) -> Result<
    (),
    (ErrorKind, Seq<char>),
> {
    if has_control(value) {
        Err(invalid_view(field + " must not contain control characters"@))
    } else {
        Ok(())
    }
}

/// Reject IMAP control characters in user-provided values.
pub fn validate_no_controls(value: &str, field: &str) -> (r: AppResult<()>)
    ensures
        outcome(r) == no_controls_check(value@, field@),
{
    let v = chars_of(value);
    if find_control(v.as_slice()).is_some() {
        return Err(AppError::InvalidInput(concat2(field, " must not contain control characters")));
    }
    Ok(())
}

/// The outcome of [`validate_mailbox`].
pub open spec fn mailbox_check(s: Seq<char>) -> Result<(), (ErrorKind, Seq<char>)> {
    if s.len() == 0 || byte_len(s) > 256 {
        Err(invalid_view("mailbox must be 1..256 characters"@))
    } else {
        no_controls_check(s, "mailbox"@)
    }
}

/// Validate mailbox name format: 1..256 bytes without control characters.
pub fn validate_mailbox(mailbox: &str) -> (r: AppResult<()>)
    ensures
        outcome(r) == mailbox_check(mailbox@),
{
    if mailbox.is_empty() || longer_than(mailbox, 256) {
        return Err(AppError::invalid("mailbox must be 1..256 characters"));
    }
    validate_no_controls(mailbox, "mailbox")
}

/// The message of a range error of [`validate_chars`].
pub open spec fn range_message(field: Seq<char>, min: nat, max: nat) -> Seq<char> {
    field + " must be in range "@ + decimal(min) + ".."@ + decimal(max)
}

/// Validate a numeric value against an inclusive range.
pub fn validate_chars(value: usize, min: usize, max: usize, field: &str) -> (r: AppResult<()>)
    ensures
        r is Ok <==> (min <= value && value <= max),
        r is Err ==> r->Err_0@ == invalid_view(range_message(field@, min as nat, max as nat)),
{
    if value < min || value > max {
        let mut msg = concat2(field, " must be in range ");
        let lo = decimal_u64(min as u64);
        let hi = decimal_u64(max as u64);
        msg.append(lo.as_str());
        msg.append("..");
        msg.append(hi.as_str());
        return Err(AppError::InvalidInput(msg));
    }
    Ok(())
}

/// The outcome of [`validate_search_text`].
pub open spec fn search_text_check(s: Seq<char>) -> Result<(), (ErrorKind, Seq<char>)> {
    if s.len() == 0 || byte_len(s) > 256 {
        Err(invalid_view("search text fields must be 1..256 chars"@))
    } else {
        no_controls_check(s, "search text"@)
    }
}

/// Validate search text field bounds and characters.
pub fn validate_search_text(input: &str) -> (r: AppResult<()>)
    ensures
        outcome(r) == search_text_check(input@),
{
    if input.is_empty() || longer_than(input, 256) {
        return Err(AppError::invalid("search text fields must be 1..256 chars"));
    }
    validate_no_controls(input, "search text")
}

/// How one character is written inside an IMAP quoted string.
pub open spec fn escape_char(c: char) -> Seq<char> {
    if c == '\\' {
        seq!['\\', '\\']
    } else if c == '"' {
        seq!['\\', '"']
    } else {
        seq![c]
    }
}

/// `s` with backslashes and double quotes escaped by a backslash.
pub open spec fn escape_quoted(s: Seq<char>) -> Seq<char>
    decreases s.len(),
{
    if s.len() == 0 {
        Seq::empty()
    } else {
        escape_quoted(s.drop_last()) + escape_char(s.last())
    }
}

/// Escape backslashes and quotes for IMAP quoted strings, after checking the text
/// with [`validate_search_text`].
pub fn escape_imap_quoted(input: &str) -> (r: AppResult<String>)
    ensures
        outcome(r) == search_text_check(input@),
        r matches Ok(s) ==> s@ == escape_quoted(input@),
{
    validate_search_text(input)?;
    let v = chars_of(input);
    let mut out = String::new();
    let mut i: usize = 0;
    while i < v.len()
        invariant
            i <= v@.len(),
            out@ == escape_quoted(v@.take(i as int)),
        decreases v.len() - i,
    {
        proof {
            assert(v@.take(i + 1).drop_last() == v@.take(i as int));
        }
        let c = v[i];
        if c == '\\' {
            push_char(&mut out, '\\');
            push_char(&mut out, '\\');
        } else if c == '"' {
            push_char(&mut out, '\\');
            push_char(&mut out, '"');
        } else {
            push_char(&mut out, c);
        }
        proof {
            assert(out@ == escape_quoted(v@.take(i as int)) + escape_char(c));
        }
        i = i + 1;
    }
    proof {
        assert(v@.take(v@.len() as int) == v@);
    }
    Ok(out)
}

/// The reading of an IMAP quoted string's content: a backslash takes the next
/// character literally.
pub open spec fn unescape_quoted(s: Seq<char>) -> Seq<char>
    decreases s.len(),
{
    if s.len() == 0 {
        Seq::empty()
    } else if s[0] == '\\' && s.len() >= 2 {
        seq![s[1]] + unescape_quoted(s.subrange(2, s.len() as int))
    } else {
        seq![s[0]] + unescape_quoted(s.drop_first())
    }
}

/// `escape_quoted` of a sequence extended at the front.
proof fn lemma_escape_front(c: char, s: Seq<char>)
    ensures
        escape_quoted(seq![c] + s) == escape_char(c) + escape_quoted(s),
    decreases s.len(),
{
    if s.len() == 0 {
        assert((seq![c] + s).drop_last() == Seq::<char>::empty());
        assert(escape_quoted(Seq::<char>::empty()) == Seq::<char>::empty());
        assert(escape_quoted(seq![c] + s) == escape_char(c));
    } else {
        assert((seq![c] + s).drop_last() == seq![c] + s.drop_last());
        lemma_escape_front(c, s.drop_last());
        assert((seq![c] + s).last() == s.last());
    }
}

/// Law: reading back an escaped string gives the original text, so a search sends
/// exactly the text that was asked for.
pub proof fn lemma_unescape_escape(s: Seq<char>)
    ensures
        unescape_quoted(escape_quoted(s)) == s,
    decreases s.len(),
{
    if s.len() > 0 {
        let c = s[0];
        let rest = s.drop_first();
        assert(s == seq![c] + rest);
        lemma_escape_front(c, rest);
        lemma_unescape_escape(rest);
        let e = escape_quoted(rest);
        if c == '\\' || c == '"' {
            let t = seq!['\\', c] + e;
            assert(t.subrange(2, t.len() as int) == e);
            assert(escape_char(c) == seq!['\\', c]);
        } else {
            let t = seq![c] + e;
            assert(t.drop_first() == e);
        }
    }
}

/// A character that may not appear in the atom of an IMAP flag.
pub open spec fn flag_forbidden(c: char) -> bool {
    is_control(c) || is_ascii_ws(c) || c == '"' || c == '(' || c == ')' || c == '{' || c == '}'
        || c == '\\'
}

/// The atom of a flag: the flag without its leading backslash, if it has one.
pub open spec fn flag_atom(f: Seq<char>) -> Seq<char> {
    if f.len() > 0 && f[0] == '\\' {
        f.drop_first()
    } else {
        f
    }
}

/// A valid IMAP flag: 1..64 bytes, an optional leading backslash, then a non-empty
/// atom without control characters, whitespace, quotes, parentheses, braces or
/// backslashes.
pub open spec fn valid_flag(f: Seq<char>) -> bool {
    &&& f.len() > 0
    &&& byte_len(f) <= 64
    &&& flag_atom(f).len() > 0
    &&& forall|i: int| 0 <= i < flag_atom(f).len() ==> !flag_forbidden(#[trigger] flag_atom(f)[i])
}

/// Validate a single IMAP flag (system flags such as `\Seen` and keywords).
pub fn validate_flag(flag: &str) -> (r: AppResult<()>)
    ensures
        r is Ok <==> valid_flag(flag@),
        r is Err ==> r->Err_0@ == invalid_view("invalid flag"@),
{
    if flag.is_empty() || longer_than(flag, 64) {
        return Err(AppError::invalid("invalid flag"));
    }
    let v = chars_of(flag);
    let start: usize = if v[0] == '\\' {
        1
    } else {
        0
    };
    if start == 1 && v.len() == 1 {
        return Err(AppError::invalid("invalid flag"));
    }
    let ghost atom = flag_atom(v@);
    proof {
        assert(atom == v@.subrange(start as int, v@.len() as int));
    }
    let mut i: usize = start;
    while i < v.len()
        invariant
            start <= i <= v@.len(),
            v@ == flag@,
            flag@.len() != 0 && byte_len(flag@) <= 64,
            atom == flag_atom(flag@),
            atom == v@.subrange(start as int, v@.len() as int),
            forall|k: int| start <= k < i ==> !flag_forbidden(#[trigger] v@[k]),
        decreases v.len() - i,
    {
        let c = v[i];
        let u: u32 = c as u32;
        if u < 0x20 || u == 0x7f || c == ' ' || c == '\t' || c == '\n' || u == 0x0c || c == '\r'
            || c == '"' || c == '(' || c == ')' || c == '{' || c == '}' || c == '\\' {
            proof {
                assert(flag_atom(flag@)[i - start] == c);
                assert(flag_forbidden(flag_atom(flag@)[i - start]));
            }
            return Err(AppError::invalid("invalid flag"));
        }
        i = i + 1;
    }
    proof {
        assert forall|k: int| 0 <= k < atom.len() implies !flag_forbidden(#[trigger] atom[k]) by {
            assert(atom[k] == v@[k + start]);
        }
    }
    Ok(())
}

/// The message of [`validate_flags`] for an invalid flag.
pub open spec fn invalid_flag_message(field: Seq<char>, flag: Seq<char>) -> Seq<char> {
    field + " contains invalid flag '"@ + flag
        + "'; flags must not contain whitespace, control chars, quotes, parentheses, or braces"@
}

/// The outcome of [`validate_flags`]: the first invalid flag is reported.
pub open spec fn flags_check(flags: Seq<Seq<char>>, field: Seq<char>) -> Result<
    (),
    (ErrorKind, Seq<char>),
> {
    if exists|i: int| 0 <= i < flags.len() && !valid_flag(#[trigger] flags[i]) {
        let i = choose|i: int|
            0 <= i < flags.len() && !valid_flag(#[trigger] flags[i]) && forall|k: int|
                0 <= k < i ==> valid_flag(#[trigger] flags[k]);
        Err(invalid_view(invalid_flag_message(field, flags[i])))
    } else {
        Ok(())
    }
}

/// Validate a list of IMAP flags; the first invalid flag is reported.
pub fn validate_flags(flags: &[String], field: &str) -> (r: AppResult<()>)
    ensures
        outcome(r) == flags_check(flags@.map_values(|f: String| f@), field@),
        r is Ok <==> (forall|i: int| 0 <= i < flags@.len() ==> valid_flag(#[trigger] flags@[i]@)),
{
    let ghost views = flags@.map_values(|f: String| f@);
    let mut i: usize = 0;
    while i < flags.len()
        invariant
            i <= flags@.len(),
            views == flags@.map_values(|f: String| f@),
            forall|k: int| 0 <= k < i ==> valid_flag(#[trigger] flags@[k]@),
        decreases flags.len() - i,
    {
        proof {
            assert(views[i as int] == flags@[i as int]@);
        }
        if validate_flag(flags[i].as_str()).is_err() {
            proof {
                assert(!valid_flag(views[i as int]));
                assert forall|k: int| 0 <= k < i implies valid_flag(#[trigger] views[k]) by {
                    assert(views[k] == flags@[k]@);
                }
                let j = choose|j: int|
                    0 <= j < views.len() && !valid_flag(#[trigger] views[j]) && forall|k: int|
                        0 <= k < j ==> valid_flag(#[trigger] views[k]);
                if j < i {
                } else if j > i {
                    assert(valid_flag(views[i as int]));
                }
            }
            let mut msg = concat3(field, " contains invalid flag '", flags[i].as_str());
            msg.append(
                "'; flags must not contain whitespace, control chars, quotes, parentheses, or braces",
            );
            return Err(AppError::InvalidInput(msg));
        }
        i = i + 1;
    }
    proof {
        assert forall|k: int| 0 <= k < views.len() implies valid_flag(#[trigger] views[k]) by {
            assert(views[k] == flags@[k]@);
        }
    }
    Ok(())
}

/// An address that passes the basic check of [`validate_email_recipients`]: it contains
/// `@` and is at least 3 bytes long.
pub open spec fn plausible_address(a: Seq<char>) -> bool {
    a.contains('@') && byte_len(a) >= 3
}

/// The outcome of [`validate_email_recipients`].
pub open spec fn recipients_check(addrs: Seq<Seq<char>>, field: Seq<char>) -> Result<
    (),
    (ErrorKind, Seq<char>),
> {
    if addrs.len() == 0 {
        Err(invalid_view(field + " must have at least one recipient"@))
    } else if addrs.len() > 50 {
        Err(invalid_view(field + " must have at most 50 recipients"@))
    } else if exists|i: int| 0 <= i < addrs.len() && !plausible_address(#[trigger] addrs[i]) {
        let i = choose|i: int|
            0 <= i < addrs.len() && !plausible_address(#[trigger] addrs[i]) && forall|k: int|
                0 <= k < i ==> plausible_address(#[trigger] addrs[k]);
        Err(invalid_view("invalid email address in "@ + field + ": '"@ + addrs[i] + "'"@))
    } else {
        Ok(())
    }
}

/// Whether `v` contains the character `c`.
pub fn contains_char(v: &[char], c: char) -> (r: bool)
    ensures
        r == v@.contains(c),
{
    let mut i: usize = 0;
    while i < v.len()
        invariant
            i <= v@.len(),
            forall|k: int| 0 <= k < i ==> v@[k] != c,
        decreases v.len() - i,
    {
        if v[i] == c {
            return true;
        }
        i = i + 1;
    }
    false
}

/// Validate a list of email recipients: 1..50 addresses, each containing `@` and at
/// least 3 bytes long; the first bad address is reported.
pub fn validate_email_recipients(addrs: &[String], field: &str) -> (r: AppResult<()>)
    ensures
        outcome(r) == recipients_check(addrs@.map_values(|a: String| a@), field@),
{
    let ghost views = addrs@.map_values(|a: String| a@);
    if addrs.len() == 0 {
        return Err(AppError::InvalidInput(concat2(field, " must have at least one recipient")));
    }
    if addrs.len() > 50 {
        return Err(AppError::InvalidInput(concat2(field, " must have at most 50 recipients")));
    }
    let mut i: usize = 0;
    while i < addrs.len()
        invariant
            i <= addrs@.len(),
            1 <= addrs@.len() <= 50,
            views == addrs@.map_values(|a: String| a@),
            forall|k: int| 0 <= k < i ==> plausible_address(#[trigger] views[k]),
        decreases addrs.len() - i,
    {
        let a = addrs[i].as_str();
        let av = chars_of(a);
        if !contains_char(av.as_slice(), '@') || shorter_than(a, 3) {
            proof {
                assert(!plausible_address(views[i as int]));
                assert(0 <= i < views.len() && !plausible_address(views[i as int]) && forall|k: int|
                    0 <= k < i ==> plausible_address(#[trigger] views[k]));
                let j = choose|j: int|
                    0 <= j < views.len() && !plausible_address(#[trigger] views[j]) && forall|
                        k: int,
                    | 0 <= k < j ==> plausible_address(#[trigger] views[k]);
                if j < i {
                } else if j > i {
                    assert(plausible_address(views[i as int]));
                }
                assert(j == i);
            }
            let mut msg = concat3("invalid email address in ", field, ": '");
            msg.append(a);
            msg.append("'");
            return Err(AppError::InvalidInput(msg));
        }
        i = i + 1;
    }
    Ok(())
}

/// Maximum number of message identifiers in one bulk operation.
pub const MAX_BULK_IDS: usize = 500;

/// The outcome of [`validate_bulk_ids`].
pub open spec fn bulk_ids_check(n: nat) -> Result<(), (ErrorKind, Seq<char>)> {
    if n == 0 {
        Err(invalid_view("message_ids must not be empty"@))
    } else if n > 500 {
        Err(invalid_view("message_ids exceeds maximum of 500"@))
    } else {
        Ok(())
    }
}

/// Validate a bulk message identifier list: non-empty and at most 500 entries.
pub fn validate_bulk_ids(ids: &[String]) -> (r: AppResult<()>)
    ensures
        outcome(r) == bulk_ids_check(ids@.len()),
{
    if ids.len() == 0 {
        return Err(AppError::invalid("message_ids must not be empty"));
    }
    if ids.len() > MAX_BULK_IDS {
        return Err(AppError::invalid("message_ids exceeds maximum of 500"));
    }
    Ok(())
}

/// The value of the first header whose name equals `key` ignoring ASCII case.
pub open spec fn header_lookup(headers: Seq<(Seq<char>, Seq<char>)>, key: Seq<char>) -> Option<
    Seq<char>,
>
    decreases headers.len(),
{
    if headers.len() == 0 {
        None
    } else if eq_ignore_case(headers[0].0, key) {
        Some(headers[0].1)
    } else {
        header_lookup(headers.drop_first(), key)
    }
}

/// The view of a list of header name/value pairs.
pub open spec fn headers_view(headers: Seq<(String, String)>) -> Seq<(Seq<char>, Seq<char>)> {
    headers.map_values(|h: (String, String)| (h.0@, h.1@))
}

/// Get a header value by case-insensitive name: the value of the first matching header.
pub fn header_value(headers: &[(String, String)], key: &str) -> (r: Option<String>)
    ensures
        r matches Some(v) ==> header_lookup(headers_view(headers@), key@) == Some(v@),
        r is None ==> header_lookup(headers_view(headers@), key@) is None,
{
    let ghost hv = headers_view(headers@);
    let mut i: usize = 0;
    proof {
        assert(hv.subrange(0, hv.len() as int) == hv);
    }
    while i < headers.len()
        invariant
            i <= headers@.len(),
            hv == headers_view(headers@),
            header_lookup(hv, key@) == header_lookup(hv.subrange(i as int, hv.len() as int), key@),
        decreases headers.len() - i,
    {
        proof {
            assert(hv.subrange(i as int, hv.len() as int).drop_first() == hv.subrange(
                i + 1,
                hv.len() as int,
            ));
        }
        if eq_ignore_case_str(headers[i].0.as_str(), key) {
            return Some(headers[i].1.clone());
        }
        i = i + 1;
    }
    None
}

} // verus!
