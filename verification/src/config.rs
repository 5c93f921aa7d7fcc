//! Configuration of IMAP, SMTP and OAuth2 accounts and server settings, read from a
//! snapshot of environment variables named `MAIL_IMAP_<SEGMENT>_<KEY>`,
//! `MAIL_SMTP_<SEGMENT>_<KEY>` and `MAIL_OAUTH2_<SEGMENT>_<KEY>`.
use vstd::prelude::*;
use vstd::string::*;

use crate::env::EnvMap;
use crate::errors::{invalid_view, AppError, AppResult, ErrorKind};
use crate::help::env_value;
use crate::registry::{Keyed, Registry};
use crate::smtp::{security_parse, SmtpAccountConfig, SmtpSecurity, SmtpView};
use crate::text::{
    chars_of, concat2, concat3, decimal, insert_sorted_unique, is_alnum, is_digit, lower,
    strictly_sorted, strings_view, to_lower, trim, trim_str, upper_char, upper_char_exec,
};

verus! {

/// Authentication method for an IMAP/SMTP account.
#[derive(Debug, Clone, Copy, PartialEq, Eq, Structural)]
pub enum AuthMethod {
    /// Traditional username/password (LOGIN command)
    Password,
    /// OAuth2 XOAUTH2 SASL mechanism
    OAuth2,
}

/// The boolean named by a configuration word (already trimmed and lower-cased).
pub open spec fn bool_word(w: Seq<char>) -> Option<bool> {
    if w == "1"@ || w == "true"@ || w == "yes"@ || w == "y"@ || w == "on"@ {
        Some(true)
    } else if w == "0"@ || w == "false"@ || w == "no"@ || w == "n"@ || w == "off"@ {
        Some(false)
    } else {
        None
    }
}

/// Parse a boolean with flexible values: `1`, `true`, `yes`, `y`, `on` are true and `0`,
/// `false`, `no`, `n`, `off` are false, ignoring surrounding whitespace and ASCII case.
pub fn parse_bool_value(value: &str) -> (r: Option<bool>)
    ensures
        r == bool_word(lower(trim(value@))),
{
    let t = trim_str(value);
    let w = to_lower(t.as_str());
    if w == String::from_str("1") || w == String::from_str("true") || w == String::from_str("yes")
        || w == String::from_str("y") || w == String::from_str("on") {
        Some(true)
    } else if w == String::from_str("0") || w == String::from_str("false") || w
        == String::from_str("no") || w == String::from_str("n") || w == String::from_str("off") {
        Some(false)
    } else {
        None
    }
}

/// Law: a boolean setting reads the same whatever surrounding whitespace or letter case
/// it is written with.
pub proof fn lemma_bool_value_normalized(a: Seq<char>, b: Seq<char>)
    requires
        lower(trim(a)) == lower(trim(b)),
    ensures
        bool_word(lower(trim(a))) == bool_word(lower(trim(b))),
{
}

/// The value of a string of decimal digits.
pub open spec fn digits_value(s: Seq<char>) -> nat
    decreases s.len(),
{
    if s.len() == 0 {
        0
    } else {
        digits_value(s.drop_last()) * 10 + ((s.last() as u32) - 48) as nat
    }
}

/// Every character is an ASCII digit.
pub open spec fn all_digits(s: Seq<char>) -> bool {
    forall|i: int| 0 <= i < s.len() ==> is_digit(#[trigger] s[i])
}

/// The number written by `s` as unsigned integer parsing (`u64::from_str` and its
/// siblings) reads it: an optional `+`, then one or more ASCII digits.
pub open spec fn unsigned_text(s: Seq<char>) -> Option<nat> {
    let body = if s.len() > 0 && s[0] == '+' {
        s.drop_first()
    } else {
        s
    };
    if body.len() > 0 && all_digits(body) {
        Some(digits_value(body))
    } else {
        None
    }
}

/// Unsigned integer parsing with an upper bound: the value of [`unsigned_text`] when it
/// is at most `max`.
pub open spec fn unsigned_parse(s: Seq<char>, max: nat) -> Option<nat> {
    match unsigned_text(s) {
        Some(v) => if v <= max {
            Some(v)
        } else {
            None
        },
        None => None,
    }
}

/// A longer digit string is worth at least as much as its prefix.
proof fn lemma_digits_prefix(s: Seq<char>, i: int)
    requires
        0 <= i <= s.len(),
        all_digits(s),
    ensures
        digits_value(s.take(i)) <= digits_value(s),
    decreases s.len() - i,
{
    if i < s.len() {
        lemma_digits_prefix(s, i + 1);
        assert(s.take(i + 1).drop_last() == s.take(i));
        assert(is_digit(s[i]));
    } else {
        assert(s.take(i) == s);
    }
}

/// Parse an unsigned decimal number (`u16`, `u64` or `usize` parsing) that must not
/// exceed `max`.
pub fn parse_unsigned(s: &str, max: u64) -> (r: Option<u64>)
    ensures
        r matches Some(v) ==> unsigned_parse(s@, max as nat) == Some(v as nat),
        r is None ==> unsigned_parse(s@, max as nat) is None,
{
    let v = chars_of(s);
    let start: usize = if v.len() > 0 && v[0] == '+' {
        1
    } else {
        0
    };
    let ghost body = if s@.len() > 0 && s@[0] == '+' {
        s@.drop_first()
    } else {
        s@
    };
    proof {
        assert(body == v@.subrange(start as int, v@.len() as int));
    }
    if start == v.len() {
        return None;
    }
    let mut acc: u64 = 0;
    let mut i: usize = start;
    while i < v.len()
        invariant
            start <= i <= v@.len(),
            body == v@.subrange(start as int, v@.len() as int),
            body == (if s@.len() > 0 && s@[0] == '+' {
                s@.drop_first()
            } else {
                s@
            }),
            body.len() > 0,
            v@ == s@,
            acc as nat == digits_value(body.take(i - start)),
            acc <= max,
            forall|k: int| 0 <= k < i - start ==> is_digit(#[trigger] body[k]),
        decreases v.len() - i,
    {
        let c = v[i];
        proof {
            assert(body[i - start] == c);
        }
        if !('0' <= c && c <= '9') {
            proof {
                assert(!all_digits(body));
            }
            return None;
        }
        let d: u64 = ((c as u32) - 48) as u64;
        proof {
            assert(body.take(i - start + 1).drop_last() == body.take(i - start));
            assert(body.take(i - start + 1).last() == c);
        }
        if d > max || acc > (max - d) / 10 {
            proof {
                assert(acc * 10 + d > max) by (nonlinear_arith)
                    requires
                        d > max || acc > (max - d) / 10,
                        d <= 9,
                ;
                if all_digits(body) {
                    lemma_digits_prefix(body, i - start + 1);
                }
            }
            return None;
        }
        proof {
            assert(acc * 10 + d <= max) by (nonlinear_arith)
                requires
                    acc <= (max - d) / 10,
                    d <= max,
            ;
        }
        acc = acc * 10 + d;
        i = i + 1;
    }
    proof {
        assert(body.take(body.len() as int) == body);
    }
    Some(acc)
}

/// The outcome of reading a boolean setting whose variable holds `value`.
pub open spec fn bool_setting(key: Seq<char>, value: Option<Seq<char>>, default: bool) -> Result<
    bool,
    (ErrorKind, Seq<char>),
> {
    match value {
        None => Ok(default),
        Some(v) => match bool_word(lower(trim(v))) {
            Some(b) => Ok(b),
            None => Err(
                invalid_view("invalid boolean environment variable "@ + key + ": '"@ + v + "'"@),
            ),
        },
    }
}

/// The view of a result that carries a plain value.
pub open spec fn res_view<T>(r: AppResult<T>) -> Result<T, (ErrorKind, Seq<char>)> {
    match r {
        Ok(v) => Ok(v),
        Err(e) => Err(e@),
    }
}

/// Read a boolean setting: `default` when unset, the parsed value when it is one of the
/// accepted words, an `InvalidInput` error otherwise.
pub fn parse_bool_setting(key: &str, value: Option<&str>, default: bool) -> (r: AppResult<bool>)
    ensures
        res_view(r) == bool_setting(key@, crate::help::opt_str_view(value), default),
{
    match value {
        None => Ok(default),
        Some(v) => match parse_bool_value(v) {
            Some(b) => Ok(b),
            None => {
                let mut msg = concat3("invalid boolean environment variable ", key, ": '");
                msg.append(v);
                msg.append("'");
                Err(AppError::InvalidInput(msg))
            },
        },
    }
}

/// The outcome of reading an unsigned setting of type `kind_label` bounded by `max`.
pub open spec fn number_setting(
    key: Seq<char>,
    value: Option<Seq<char>>,
    default: nat,
    max: nat,
    kind_label: Seq<char>,
) -> Result<nat, (ErrorKind, Seq<char>)> {
    match value {
        None => Ok(default),
        Some(v) => match unsigned_parse(v, max) {
            Some(n) => Ok(n),
            None => Err(
                invalid_view(
                    "invalid "@ + kind_label + " environment variable "@ + key + ": '"@ + v
                        + "'"@,
                ),
            ),
        },
    }
}

/// The view of a result that carries an unsigned number.
pub open spec fn num_view(r: AppResult<u64>) -> Result<nat, (ErrorKind, Seq<char>)> {
    match r {
        Ok(v) => Ok(v as nat),
        Err(e) => Err(e@),
    }
}

/// Read an unsigned setting: `default` when unset, the parsed value when it is a number
/// of at most `max`, an `InvalidInput` error naming `kind_label` otherwise.
pub fn parse_number_setting(
    key: &str,
    value: Option<&str>,
    default: u64,
    max: u64,
    kind_label: &str,
) -> (r: AppResult<u64>)
    requires
        default <= max,
    ensures
        num_view(r) == number_setting(
            key@,
            crate::help::opt_str_view(value),
            default as nat,
            max as nat,
            kind_label@,
        ),
        r matches Ok(v) ==> v <= max,
{
    match value {
        None => Ok(default),
        Some(v) => match parse_unsigned(v, max) {
            Some(n) => Ok(n),
            None => {
                let mut msg = concat3("invalid ", kind_label, " environment variable ");
                msg.append(key);
                msg.append(": '");
                msg.append(v);
                msg.append("'");
                Err(AppError::InvalidInput(msg))
            },
        },
    }
}

/// The value of a variable of `env` as an optional string slice.
fn env_str<'a>(env: &'a EnvMap, key: &str) -> (r: Option<&'a str>)
    ensures
        crate::help::opt_str_view(r) == env_value(env@, key@),
{
    match env.get(key) {
        Some(v) => Some(v.as_str()),
        None => None,
    }
}

/// The sanitized form of one segment character: ASCII letters and digits upper-cased,
/// anything else `_`.
pub open spec fn sanitize_char(c: char) -> char {
    if is_alnum(c) {
        upper_char(c)
    } else {
        '_'
    }
}

/// `s` without leading and trailing underscores.
pub open spec fn trim_underscores(s: Seq<char>) -> Seq<char>
    decreases s.len(),
{
    if s.len() > 0 && s[0] == '_' {
        trim_underscores(s.drop_first())
    } else if s.len() > 0 && s.last() == '_' {
        trim_underscores(s.drop_last())
    } else {
        s
    }
}

/// An account segment sanitized to upper-case alphanumerics and underscores, without
/// leading or trailing underscores.
pub open spec fn sanitized(seg: Seq<char>) -> Seq<char> {
    trim_underscores(seg.map_values(|c: char| sanitize_char(c)))
}

/// Removing underscores from both ends, one end first, gives the same result.
proof fn lemma_trim_underscores_ends(s: Seq<char>, i: int, j: int)
    requires
        0 <= i <= j <= s.len(),
        forall|k: int| 0 <= k < i ==> s[k] == '_',
        forall|k: int| j <= k < s.len() ==> s[k] == '_',
    ensures
        trim_underscores(s) == trim_underscores(s.subrange(i, j)),
    decreases s.len(),
{
    if i > 0 {
        lemma_trim_underscores_ends(s.drop_first(), i - 1, j - 1);
        assert(s.drop_first().subrange(i - 1, j - 1) == s.subrange(i, j));
    } else if j < s.len() {
        if s.len() > 0 && s[0] == '_' {
            if j == 0 {
                lemma_trim_underscores_ends(s.drop_first(), 0, 0);
                assert(s.drop_first().subrange(0, 0) == s.subrange(0, 0));
            } else {
                lemma_trim_underscores_ends(s.drop_first(), 0, j - 1);
                assert(s.drop_first().subrange(0, j - 1) == s.subrange(1, j));
                lemma_trim_underscores_ends(s.subrange(0, j), 1, j);
                assert(s.subrange(0, j).subrange(1, j) == s.subrange(1, j));
            }
        } else {
            lemma_trim_underscores_ends(s.drop_last(), 0, j);
            assert(s.drop_last().subrange(0, j) == s.subrange(0, j));
        }
    } else {
        assert(s.subrange(i, j) == s);
    }
}

/// Sanitize an account segment to upper-case alphanumerics and underscores: other
/// characters become `_`, and leading and trailing underscores are trimmed.
pub fn sanitize_segment(seg: &str) -> (r: String)
    ensures
        r@ == sanitized(seg@),
{
    let v = chars_of(seg);
    let mut mapped: Vec<char> = Vec::new();
    let mut i: usize = 0;
    while i < v.len()
        invariant
            i <= v@.len(),
            mapped@ == v@.take(i as int).map_values(|c: char| sanitize_char(c)),
        decreases v.len() - i,
    {
        let c = v[i];
        let m = if ('A' <= c && c <= 'Z') || ('a' <= c && c <= 'z') || ('0' <= c && c <= '9') {
            upper_char_exec(c)
        } else {
            '_'
        };
        mapped.push(m);
        proof {
            assert(v@.take(i + 1).map_values(|c: char| sanitize_char(c)) == v@.take(
                i as int,
            ).map_values(|c: char| sanitize_char(c)).push(sanitize_char(c)));
        }
        i = i + 1;
    }
    proof {
        assert(v@.take(v@.len() as int) == v@);
    }
    let n = mapped.len();
    let mut lo: usize = 0;
    while lo < n && mapped[lo] == '_'
        invariant
            lo <= n,
            n == mapped@.len(),
            forall|k: int| 0 <= k < lo ==> mapped@[k] == '_',
        decreases n - lo,
    {
        lo = lo + 1;
    }
    let mut hi: usize = n;
    while hi > lo && mapped[hi - 1] == '_'
        invariant
            lo <= hi <= n,
            n == mapped@.len(),
            forall|k: int| hi <= k < n ==> mapped@[k] == '_',
        decreases hi - lo,
    {
        hi = hi - 1;
    }
    proof {
        lemma_trim_underscores_ends(mapped@, lo as int, hi as int);
        let t = mapped@.subrange(lo as int, hi as int);
        if t.len() > 0 {
            assert(t[0] == mapped@[lo as int]);
            assert(t.last() == mapped@[hi - 1]);
        }
    }
    crate::text::string_of_range(mapped.as_slice(), lo, hi)
}

/// Characters that sanitizing leaves unchanged.
pub open spec fn sanitized_char(c: char) -> bool {
    c == '_' || ('A' <= c && c <= 'Z') || ('0' <= c && c <= '9')
}

/// Trimming underscores keeps a contiguous part of the sequence, with no underscore at
/// either end.
proof fn lemma_trim_underscores_shape(s: Seq<char>)
    ensures
        exists|i: int, j: int|
            0 <= i <= j <= s.len() && trim_underscores(s) == s.subrange(i, j),
        trim_underscores(s).len() > 0 ==> trim_underscores(s)[0] != '_' && trim_underscores(
            s,
        ).last() != '_',
    decreases s.len(),
{
    if s.len() > 0 && s[0] == '_' {
        lemma_trim_underscores_shape(s.drop_first());
        let (i, j) = choose|i: int, j: int|
            0 <= i <= j <= s.drop_first().len() && trim_underscores(s.drop_first())
                == s.drop_first().subrange(i, j);
        assert(s.drop_first().subrange(i, j) == s.subrange(i + 1, j + 1));
    } else if s.len() > 0 && s.last() == '_' {
        lemma_trim_underscores_shape(s.drop_last());
        let (i, j) = choose|i: int, j: int|
            0 <= i <= j <= s.drop_last().len() && trim_underscores(s.drop_last())
                == s.drop_last().subrange(i, j);
        assert(s.drop_last().subrange(i, j) == s.subrange(i, j));
    } else {
        assert(s.subrange(0, s.len() as int) == s);
    }
}

/// Law: sanitizing is idempotent, so a sanitized segment names the same variables.
pub proof fn lemma_sanitize_idempotent(seg: Seq<char>)
    ensures
        sanitized(sanitized(seg)) == sanitized(seg),
{
    let m = seg.map_values(|c: char| sanitize_char(c));
    let t = trim_underscores(m);
    lemma_trim_underscores_shape(m);
    let (i, j) = choose|i: int, j: int| 0 <= i <= j <= m.len() && t == m.subrange(i, j);
    assert forall|k: int| 0 <= k < t.len() implies sanitized_char(#[trigger] t[k]) by {
        assert(t[k] == m[i + k]);
        assert(m[i + k] == sanitize_char(seg[i + k]));
    }
    assert(t.map_values(|c: char| sanitize_char(c)) == t);
    if t.len() > 0 {
        assert(t[0] != '_' && t.last() != '_');
    }
}

/// What `regex::Regex::new(pattern)` followed by `captures(text)` and `get(1)` yields:
/// `None` when the pattern does not compile, otherwise the text of capture group 1 if
/// the pattern matches and the group took part in the match.
pub uninterp spec fn regex_group1(pattern: Seq<char>, text: Seq<char>) -> Option<Option<Seq<char>>>;

/// The view of an optional string.
pub open spec fn opt_string_view(o: Option<String>) -> Option<Seq<char>> {
    match o {
        Some(s) => Some(s@),
        None => None,
    }
}

/// Compiles `pattern` with `regex::Regex::new` and returns capture group 1 of its first
/// match in `text` (`captures(text)` then `get(1)`), or the compile error's text. The
/// contract ties the result to [`regex_group1`] and says nothing of the error text.
#[verifier::external_body]
fn regex_capture_group1(pattern: &str, text: &str) -> (r: Result<Option<String>, String>)
    ensures
        match regex_group1(pattern@, text@) {
            None => r is Err,
            Some(c) => r matches Ok(o) && opt_string_view(o) == c,
        },
{
    let re = match regex::Regex::new(pattern) {
        Ok(re) => re,
        Err(e) => return Err(e.to_string()),
    };
    match re.captures(text) {
        Some(c) => match c.get(1) {
            Some(m) => Ok(Some(m.as_str().to_owned())),
            None => Ok(None),
        },
        None => Ok(None),
    }
}

/// `pattern` compiles, and capturing succeeds for every variable name of `env`.
pub open spec fn captures_ok(pattern: Seq<char>, env: Map<Seq<char>, Seq<char>>) -> bool {
    &&& regex_group1(pattern, Seq::empty()) is Some
    &&& forall|k: Seq<char>| #[trigger] env.contains_key(k) ==> regex_group1(pattern, k) is Some
}

/// The capture group 1 texts of `pattern` over the variable names of `env`.
pub open spec fn captured(pattern: Seq<char>, env: Map<Seq<char>, Seq<char>>) -> Set<Seq<char>> {
    Set::new(
        |c: Seq<char>|
            exists|k: Seq<char>| env.contains_key(k) && regex_group1(pattern, k) == Some(Some(c)),
    )
}

/// The segments found by `pattern` in `env`, sorted; `None` when the pattern fails.
pub open spec fn discovery(pattern: Seq<char>, env: Map<Seq<char>, Seq<char>>) -> Option<
    Seq<Seq<char>>,
> {
    if captures_ok(pattern, env) {
        Some(crate::text::sorted_of(captured(pattern, env)))
    } else {
        None
    }
}

/// Discover the segments that `pattern` captures from the variable names of `env`,
/// sorted and without duplicates. A pattern that does not compile is an `Internal`
/// error naming `label`.
pub fn discover_segments(env: &EnvMap, pattern: &str, label: &str) -> (r: AppResult<Vec<String>>)
    ensures
        r is Ok <==> captures_ok(pattern@, env@),
        r matches Ok(v) ==> Some(strings_view(v@)) == discovery(pattern@, env@),
        r matches Err(e) ==> e@.0 == ErrorKind::Internal,
{
    match regex_capture_group1(pattern, "") {
        Err(e) => {
            let mut msg = concat3("invalid ", label, " regex: ");
            msg.append(e.as_str());
            proof {
                assert(""@ == Seq::<char>::empty()) by {
                    reveal_strlit("");
                }
            }
            return Err(AppError::Internal(msg));
        },
        Ok(_) => {},
    }
    proof {
        assert(""@ == Seq::<char>::empty()) by {
            reveal_strlit("");
        }
    }
    let keys = env.keys();
    let mut segments: Vec<String> = Vec::new();
    let mut i: usize = 0;
    while i < keys.len()
        invariant
            i <= keys@.len(),
            strings_view(keys@).to_set() == env@.dom(),
            regex_group1(pattern@, Seq::empty()) is Some,
            strictly_sorted(strings_view(segments@)),
            forall|k: int| 0 <= k < i ==> regex_group1(pattern@, #[trigger] keys@[k]@) is Some,
            strings_view(segments@).to_set() == Set::new(
                |c: Seq<char>|
                    exists|k: int|
                        0 <= k < i && regex_group1(pattern@, keys@[k]@) == Some(Some(c)),
            ),
        decreases keys.len() - i,
    {
        let ghost before = strings_view(segments@).to_set();
        match regex_capture_group1(pattern, keys[i].as_str()) {
            Err(e) => {
                proof {
                    assert(strings_view(keys@)[i as int] == keys@[i as int]@);
                    assert(env@.contains_key(keys@[i as int]@));
                }
                let mut msg = concat3("invalid ", label, " regex: ");
                msg.append(e.as_str());
                return Err(AppError::Internal(msg));
            },
            Ok(Some(seg)) => {
                let ghost sv = seg@;
                insert_sorted_unique(&mut segments, seg);
                proof {
                    assert(strings_view(segments@).to_set() =~= Set::new(
                        |c: Seq<char>|
                            exists|k: int|
                                0 <= k < i + 1 && regex_group1(pattern@, keys@[k]@) == Some(
                                    Some(c),
                                ),
                    )) by {
                        assert forall|c: Seq<char>|
                            (exists|k: int|
                                0 <= k < i + 1 && regex_group1(pattern@, keys@[k]@) == Some(
                                    Some(c),
                                )) <==> before.insert(sv).contains(c) by {
                            if c == sv {
                                assert(regex_group1(pattern@, keys@[i as int]@) == Some(Some(c)));
                            }
                            if exists|k: int|
                                0 <= k < i + 1 && regex_group1(pattern@, keys@[k]@) == Some(
                                    Some(c),
                                ) {
                                let k = choose|k: int|
                                    0 <= k < i + 1 && regex_group1(pattern@, keys@[k]@) == Some(
                                        Some(c),
                                    );
                                if k < i {
                                    assert(before.contains(c));
                                }
                            }
                        }
                    }
                }
            },
            Ok(None) => {
                proof {
                    assert(strings_view(segments@).to_set() =~= Set::new(
                        |c: Seq<char>|
                            exists|k: int|
                                0 <= k < i + 1 && regex_group1(pattern@, keys@[k]@) == Some(
                                    Some(c),
                                ),
                    )) by {
                        assert forall|c: Seq<char>|
                            (exists|k: int|
                                0 <= k < i + 1 && regex_group1(pattern@, keys@[k]@) == Some(
                                    Some(c),
                                )) implies before.contains(c) by {
                            let k = choose|k: int|
                                0 <= k < i + 1 && regex_group1(pattern@, keys@[k]@) == Some(
                                    Some(c),
                                );
                            assert(k != i);
                        }
                    }
                }
            },
        }
        i = i + 1;
    }
    proof {
        assert forall|k: Seq<char>| #[trigger] env@.contains_key(k) implies regex_group1(
            pattern@,
            k,
        ) is Some by {
            assert(strings_view(keys@).to_set().contains(k));
            let j = choose|j: int|
                0 <= j < strings_view(keys@).len() && strings_view(keys@)[j] == k;
            assert(keys@[j]@ == k);
        }
        assert(strings_view(segments@).to_set() =~= captured(pattern@, env@)) by {
            assert forall|c: Seq<char>|
                captured(pattern@, env@).contains(c) implies strings_view(
                segments@,
            ).to_set().contains(c) by {
                let k = choose|k: Seq<char>|
                    env@.contains_key(k) && regex_group1(pattern@, k) == Some(Some(c));
                assert(strings_view(keys@).to_set().contains(k));
                let j = choose|j: int|
                    0 <= j < strings_view(keys@).len() && strings_view(keys@)[j] == k;
                assert(keys@[j]@ == k);
            }
            assert forall|c: Seq<char>|
                strings_view(segments@).to_set().contains(c) implies captured(
                pattern@,
                env@,
            ).contains(c) by {
                let j = choose|j: int|
                    0 <= j < keys@.len() && regex_group1(pattern@, keys@[j]@) == Some(Some(c));
                assert(strings_view(keys@)[j] == keys@[j]@);
                assert(strings_view(keys@).to_set().contains(keys@[j]@));
            }
        }
        crate::text::lemma_sorted_of(strings_view(segments@));
    }
    Ok(segments)
}

/// The account identifier of a segment: `default` for `DEFAULT`, otherwise the segment
/// in lower case.
pub open spec fn account_id_for(seg: Seq<char>) -> Seq<char> {
    if seg == "DEFAULT"@ {
        "default"@
    } else {
        lower(seg)
    }
}

/// The account identifier of a segment.
pub fn account_id_for_segment(seg: &str) -> (r: String)
    ensures
        r@ == account_id_for(seg@),
{
    if String::from_str(seg) == String::from_str("DEFAULT") {
        String::from_str("default")
    } else {
        to_lower(seg)
    }
}

/// The part of `s` after its last underscore (all of `s` if it has none).
pub open spec fn after_last_underscore(s: Seq<char>) -> Seq<char>
    decreases s.len(),
{
    if s.len() == 0 {
        s
    } else if s.last() == '_' {
        Seq::empty()
    } else {
        after_last_underscore(s.drop_last()).push(s.last())
    }
}

/// The error for a missing required IMAP variable: it names the part of the variable
/// after its last underscore.
pub open spec fn imap_missing(key: Seq<char>) -> (ErrorKind, Seq<char>) {
    let var_name = if crate::text::has_prefix(key, "MAIL_IMAP_"@) {
        key.subrange(10, key.len() as int)
    } else {
        key
    };
    invalid_view(
        "No IMAP accounts configured. Set MAIL_IMAP_<ID>_HOST/USER/PASS.\nmail-imap-mcp-rs startup error: missing "@
            + after_last_underscore(var_name) + "."@,
    )
}

/// A required variable: its value when set to something other than whitespace, `err`
/// otherwise.
pub open spec fn required_value(
    env: Map<Seq<char>, Seq<char>>,
    key: Seq<char>,
    err: (ErrorKind, Seq<char>),
) -> Result<Seq<char>, (ErrorKind, Seq<char>)> {
    match env_value(env, key) {
        Some(v) => if trim(v).len() > 0 {
            Ok(v)
        } else {
            Err(err)
        },
        None => Err(err),
    }
}

/// The view of a result that carries a string.
pub open spec fn str_res_view(r: AppResult<String>) -> Result<Seq<char>, (ErrorKind, Seq<char>)> {
    match r {
        Ok(v) => Ok(v@),
        Err(e) => Err(e@),
    }
}

/// The value of `key` if it is set to something other than whitespace.
fn present_value(env: &EnvMap, key: &str) -> (r: Option<String>)
    ensures
        match env_value(env@, key@) {
            Some(v) => if trim(v).len() > 0 {
                r matches Some(x) && x@ == v
            } else {
                r is None
            },
            None => r is None,
        },
{
    match env.get(key) {
        Some(v) => {
            let t = trim_str(v.as_str());
            if t.as_str().is_empty() {
                None
            } else {
                Some(v.clone())
            }
        },
        None => None,
    }
}

/// The part of a variable name after its last underscore.
fn after_last_underscore_exec(s: &str) -> (r: String)
    ensures
        r@ == after_last_underscore(s@),
{
    let v = chars_of(s);
    let mut i: usize = v.len();
    proof {
        assert(v@.take(v@.len() as int) == v@);
        assert(v@.subrange(v@.len() as int, v@.len() as int) == Seq::<char>::empty());
    }
    while i > 0 && v[i - 1] != '_'
        invariant
            i <= v@.len(),
            after_last_underscore(v@) == after_last_underscore(v@.take(i as int)) + v@.subrange(
                i as int,
                v@.len() as int,
            ),
        decreases i,
    {
        proof {
            let t = v@.take(i as int);
            assert(t.drop_last() == v@.take(i - 1));
            assert(t.last() == v@[i - 1]);
            assert(v@.subrange(i - 1, v@.len() as int) == seq![v@[i - 1]] + v@.subrange(
                i as int,
                v@.len() as int,
            ));
        }
        i = i - 1;
    }
    proof {
        assert(v@.take(v@.len() as int) == v@);
        if i > 0 {
            assert(v@.take(i as int).last() == '_');
        } else {
            assert(v@.take(0) == Seq::<char>::empty());
        }
    }
    crate::text::string_of_range(v.as_slice(), i, v.len())
}

/// Read a required IMAP variable; the error names the missing variable.
pub fn required_env(env: &EnvMap, key: &str) -> (r: AppResult<String>)
    ensures
        str_res_view(r) == required_value(env@, key@, imap_missing(key@)),
{
    match present_value(env, key) {
        Some(v) => Ok(v),
        None => {
            let kv = chars_of(key);
            let var_name = if crate::text::starts_with_str(key, "MAIL_IMAP_") {
                proof {
                    reveal_strlit("MAIL_IMAP_");
                }
                crate::text::string_of_range(kv.as_slice(), 10, kv.len())
            } else {
                String::from_str(key)
            };
            let suffix = after_last_underscore_exec(var_name.as_str());
            let mut msg = String::from_str(
                "No IMAP accounts configured. Set MAIL_IMAP_<ID>_HOST/USER/PASS.\nmail-imap-mcp-rs startup error: missing ",
            );
            msg.append(suffix.as_str());
            msg.append(".");
            Err(AppError::InvalidInput(msg))
        },
    }
}

/// The error for a missing required SMTP variable.
pub open spec fn smtp_missing(account_id: Seq<char>, key: Seq<char>) -> (ErrorKind, Seq<char>) {
    invalid_view("SMTP account '"@ + account_id + "' is missing "@ + key)
}

/// Read a required SMTP variable, with an error naming the account and the variable.
pub fn required_smtp_env(env: &EnvMap, key: &str, account_id: &str) -> (r: AppResult<String>)
    ensures
        str_res_view(r) == required_value(env@, key@, smtp_missing(account_id@, key@)),
{
    match present_value(env, key) {
        Some(v) => Ok(v),
        None => {
            let mut msg = concat3("SMTP account '", account_id, "' is missing ");
            msg.append(key);
            Err(AppError::InvalidInput(msg))
        },
    }
}

/// The error for a missing required OAuth2 variable.
pub open spec fn oauth2_missing(account_id: Seq<char>, key: Seq<char>) -> (ErrorKind, Seq<char>) {
    invalid_view("OAuth2 account '"@ + account_id + "' is missing "@ + key)
}

/// Read a required OAuth2 variable, with an error naming the account and the variable.
pub fn required_oauth2_env(env: &EnvMap, key: &str, account_id: &str) -> (r: AppResult<String>)
    ensures
        str_res_view(r) == required_value(env@, key@, oauth2_missing(account_id@, key@)),
{
    match present_value(env, key) {
        Some(v) => Ok(v),
        None => {
            let mut msg = concat3("OAuth2 account '", account_id, "' is missing ");
            msg.append(key);
            Err(AppError::InvalidInput(msg))
        },
    }
}

/// The variable name prefix of a segment: `<kind>` followed by the sanitized segment and
/// an underscore.
pub open spec fn var_prefix(kind: Seq<char>, seg: Seq<char>) -> Seq<char> {
    kind + sanitized(seg) + "_"@
}

/// The variable name prefix of a segment.
fn var_prefix_exec(kind: &str, seg: &str) -> (r: String)
    ensures
        r@ == var_prefix(kind@, seg@),
{
    let sanitized_seg = sanitize_segment(seg);
    concat3(kind, sanitized_seg.as_str(), "_")
}

/// The variable `prefix` followed by `suffix`.
fn var_name(prefix: &String, suffix: &str) -> (r: String)
    ensures
        r@ == prefix@ + suffix@,
{
    concat2(prefix.as_str(), suffix)
}

/// IMAP account configuration: connection details and credentials of one account.
pub struct AccountConfig {
    /// Account identifier (lower case, used as the `account_id` parameter)
    pub account_id: String,
    /// IMAP server hostname
    pub host: String,
    /// IMAP server port (typically 993 for TLS)
    pub port: u16,
    /// Whether to use TLS
    pub secure: bool,
    /// Username for authentication
    pub user: String,
    /// Password; absent when the account authenticates with OAuth2
    pub pass: Option<String>,
    /// Authentication method (password or OAuth2)
    pub auth_method: AuthMethod,
}

/// The plain values of an [`AccountConfig`].
pub struct AccountView {
    pub account_id: Seq<char>,
    pub host: Seq<char>,
    pub port: nat,
    pub secure: bool,
    pub user: Seq<char>,
    pub pass: Option<Seq<char>>,
    pub auth_method: AuthMethod,
}

impl View for AccountConfig {
    type V = AccountView;

    open spec fn view(&self) -> AccountView {
        AccountView {
            account_id: self.account_id@,
            host: self.host@,
            port: self.port as nat,
            secure: self.secure,
            user: self.user@,
            pass: opt_string_view(self.pass),
            auth_method: self.auth_method,
        }
    }
}

/// The error for an IMAP account without a password and without OAuth2.
pub open spec fn pass_missing() -> (ErrorKind, Seq<char>) {
    invalid_view(
        "No IMAP accounts configured. Set MAIL_IMAP_<ID>_HOST/USER/PASS (or configure OAuth2 via MAIL_OAUTH2_<ID>_*).\nmail-imap-mcp-rs startup error: missing PASS."@,
    )
}

/// The optional value of a variable that counts only when not blank.
pub open spec fn optional_value(env: Map<Seq<char>, Seq<char>>, key: Seq<char>) -> Option<
    Seq<char>,
> {
    match env_value(env, key) {
        Some(v) => if trim(v).len() > 0 {
            Some(v)
        } else {
            None
        },
        None => None,
    }
}

/// The outcome of loading the IMAP account of `seg`, where `oauth_ids` are the accounts
/// with an OAuth2 configuration.
pub open spec fn account_spec(
    env: Map<Seq<char>, Seq<char>>,
    seg: Seq<char>,
    oauth_ids: Set<Seq<char>>,
) -> Result<AccountView, (ErrorKind, Seq<char>)> {
    let prefix = var_prefix("MAIL_IMAP_"@, seg);
    let id = account_id_for(seg);
    let has_oauth2 = oauth_ids.contains(id);
    match required_value(env, prefix + "HOST"@, imap_missing(prefix + "HOST"@)) {
        Err(e) => Err(e),
        Ok(host) => match required_value(env, prefix + "USER"@, imap_missing(prefix + "USER"@)) {
            Err(e) => Err(e),
            Ok(user) => {
                let pass = optional_value(env, prefix + "PASS"@);
                if pass is None && !has_oauth2 {
                    Err(pass_missing())
                } else {
                    match number_setting(
                        prefix + "PORT"@,
                        env_value(env, prefix + "PORT"@),
                        993,
                        0xffff,
                        "u16"@,
                    ) {
                        Err(e) => Err(e),
                        Ok(port) => match bool_setting(
                            prefix + "SECURE"@,
                            env_value(env, prefix + "SECURE"@),
                            true,
                        ) {
                            Err(e) => Err(e),
                            Ok(secure) => Ok(
                                AccountView {
                                    account_id: id,
                                    host,
                                    port,
                                    secure,
                                    user,
                                    pass,
                                    auth_method: if has_oauth2 {
                                        AuthMethod::OAuth2
                                    } else {
                                        AuthMethod::Password
                                    },
                                },
                            ),
                        },
                    }
                }
            },
        },
    }
}

/// The view of a result that carries an account.
pub open spec fn account_res_view(r: AppResult<AccountConfig>) -> Result<
    AccountView,
    (ErrorKind, Seq<char>),
> {
    match r {
        Ok(a) => Ok(a@),
        Err(e) => Err(e@),
    }
}

/// Load the IMAP account of `segment` from `MAIL_IMAP_<SEGMENT>_HOST`, `_USER`, `_PASS`,
/// `_PORT` (default 993) and `_SECURE` (default true). With an OAuth2 configuration for
/// the account, the password is optional and the account authenticates with OAuth2.
pub fn load_account(
    env: &EnvMap,
    segment: &str,
    oauth2_accounts: &Registry<OAuth2AccountConfig>,
) -> (r: AppResult<AccountConfig>)
    ensures
        account_res_view(r) == account_spec(env@, segment@, oauth2_accounts@.dom()),
{
    let prefix = var_prefix_exec("MAIL_IMAP_", segment);
    let account_id = account_id_for_segment(segment);
    let has_oauth2 = oauth2_accounts.contains_key(account_id.as_str());
    let host = required_env(env, var_name(&prefix, "HOST").as_str())?;
    let user = required_env(env, var_name(&prefix, "USER").as_str())?;
    let pass = present_value(env, var_name(&prefix, "PASS").as_str());
    if pass.is_none() && !has_oauth2 {
        return Err(
            AppError::invalid(
                "No IMAP accounts configured. Set MAIL_IMAP_<ID>_HOST/USER/PASS (or configure OAuth2 via MAIL_OAUTH2_<ID>_*).\nmail-imap-mcp-rs startup error: missing PASS.",
            ),
        );
    }
    let port_key = var_name(&prefix, "PORT");
    let port = parse_number_setting(port_key.as_str(), env_str(env, port_key.as_str()), 993, 0xffff, "u16")?;
    let secure_key = var_name(&prefix, "SECURE");
    let secure = parse_bool_setting(secure_key.as_str(), env_str(env, secure_key.as_str()), true)?;
    let auth_method = if has_oauth2 {
        AuthMethod::OAuth2
    } else {
        AuthMethod::Password
    };
    Ok(AccountConfig { account_id, host, port: port as u16, secure, user, pass, auth_method })
}

/// OAuth2 identity provider of an account.
#[derive(Debug, Clone, Copy, PartialEq, Eq, Structural)]
pub enum OAuth2Provider {
    Google,
    Microsoft,
}

/// The provider named by a configuration word (already trimmed and lower-cased).
pub open spec fn provider_word(w: Seq<char>) -> Option<OAuth2Provider> {
    if w == "google"@ {
        Some(OAuth2Provider::Google)
    } else if w == "microsoft"@ {
        Some(OAuth2Provider::Microsoft)
    } else {
        None
    }
}

/// The outcome of [`OAuth2Provider::parse`].
pub open spec fn provider_parse(value: Seq<char>) -> Result<OAuth2Provider, (ErrorKind, Seq<char>)> {
    let w = lower(trim(value));
    match provider_word(w) {
        Some(p) => Ok(p),
        None => Err(
            invalid_view(
                "unsupported OAuth2 provider '"@ + w + "'; expected 'google' or 'microsoft'"@,
            ),
        ),
    }
}

impl OAuth2Provider {
    /// Parse a provider name, `google` or `microsoft`, ignoring surrounding whitespace and
    /// ASCII case.
    pub fn parse(value: &str) -> (r: AppResult<Self>)
        ensures
            res_view(r) == provider_parse(value@),
    {
        let t = trim_str(value);
        let w = to_lower(t.as_str());
        if w == String::from_str("google") {
            Ok(OAuth2Provider::Google)
        } else if w == String::from_str("microsoft") {
            Ok(OAuth2Provider::Microsoft)
        } else {
            Err(
                AppError::InvalidInput(
                    concat3(
                        "unsupported OAuth2 provider '",
                        w.as_str(),
                        "'; expected 'google' or 'microsoft'",
                    ),
                ),
            )
        }
    }
}

/// OAuth2 configuration of one account.
pub struct OAuth2AccountConfig {
    pub account_id: String,
    pub provider: OAuth2Provider,
    pub client_id: String,
    pub client_secret: String,
    pub refresh_token: String,
}

/// The plain values of an [`OAuth2AccountConfig`].
pub struct OAuth2View {
    pub account_id: Seq<char>,
    pub provider: OAuth2Provider,
    pub client_id: Seq<char>,
    pub client_secret: Seq<char>,
    pub refresh_token: Seq<char>,
}

impl View for OAuth2AccountConfig {
    type V = OAuth2View;

    open spec fn view(&self) -> OAuth2View {
        OAuth2View {
            account_id: self.account_id@,
            provider: self.provider,
            client_id: self.client_id@,
            client_secret: self.client_secret@,
            refresh_token: self.refresh_token@,
        }
    }
}

/// The outcome of loading the OAuth2 configuration of `seg`.
pub open spec fn oauth2_spec(env: Map<Seq<char>, Seq<char>>, seg: Seq<char>) -> Result<
    OAuth2View,
    (ErrorKind, Seq<char>),
> {
    let prefix = var_prefix("MAIL_OAUTH2_"@, seg);
    let id = account_id_for(seg);
    match required_value(env, prefix + "PROVIDER"@, oauth2_missing(id, prefix + "PROVIDER"@)) {
        Err(e) => Err(e),
        Ok(p) => match provider_parse(p) {
            Err(e) => Err(e),
            Ok(provider) => match required_value(
                env,
                prefix + "CLIENT_ID"@,
                oauth2_missing(id, prefix + "CLIENT_ID"@),
            ) {
                Err(e) => Err(e),
                Ok(client_id) => match required_value(
                    env,
                    prefix + "CLIENT_SECRET"@,
                    oauth2_missing(id, prefix + "CLIENT_SECRET"@),
                ) {
                    Err(e) => Err(e),
                    Ok(client_secret) => match required_value(
                        env,
                        prefix + "REFRESH_TOKEN"@,
                        oauth2_missing(id, prefix + "REFRESH_TOKEN"@),
                    ) {
                        Err(e) => Err(e),
                        Ok(refresh_token) => Ok(
                            OAuth2View { account_id: id, provider, client_id, client_secret, refresh_token },
                        ),
                    },
                },
            },
        },
    }
}

/// Load the OAuth2 configuration of `segment` from `MAIL_OAUTH2_<SEGMENT>_PROVIDER`,
/// `_CLIENT_ID`, `_CLIENT_SECRET` and `_REFRESH_TOKEN`, all required.
pub fn load_oauth2_account(env: &EnvMap, segment: &str) -> (r: AppResult<OAuth2AccountConfig>)
    ensures
        match r {
            Ok(a) => oauth2_spec(env@, segment@) == Ok::<OAuth2View, (ErrorKind, Seq<char>)>(a@),
            Err(e) => oauth2_spec(env@, segment@) == Err::<OAuth2View, (ErrorKind, Seq<char>)>(e@),
        },
{
    let prefix = var_prefix_exec("MAIL_OAUTH2_", segment);
    let account_id = account_id_for_segment(segment);
    let provider_str = required_oauth2_env(env, var_name(&prefix, "PROVIDER").as_str(), account_id.as_str())?;
    let provider = OAuth2Provider::parse(provider_str.as_str())?;
    let client_id = required_oauth2_env(env, var_name(&prefix, "CLIENT_ID").as_str(), account_id.as_str())?;
    let client_secret = required_oauth2_env(env, var_name(&prefix, "CLIENT_SECRET").as_str(), account_id.as_str())?;
    let refresh_token = required_oauth2_env(env, var_name(&prefix, "REFRESH_TOKEN").as_str(), account_id.as_str())?;
    Ok(OAuth2AccountConfig { account_id, provider, client_id, client_secret, refresh_token })
}

impl Keyed for AccountConfig {
    open spec fn key_view(&self) -> Seq<char> {
        self.account_id@
    }

    fn key(&self) -> (r: &String) {
        &self.account_id
    }
}

impl Keyed for OAuth2AccountConfig {
    open spec fn key_view(&self) -> Seq<char> {
        self.account_id@
    }

    fn key(&self) -> (r: &String) {
        &self.account_id
    }
}

/// Loading one record per segment, in order, each stored under its key and replacing an
/// earlier record with the same key; the first failing segment's error ends the load.
pub open spec fn collect<V>(
    segs: Seq<Seq<char>>,
    load: spec_fn(Seq<char>) -> Result<V, (ErrorKind, Seq<char>)>,
    key: spec_fn(V) -> Seq<char>,
) -> Result<Map<Seq<char>, V>, (ErrorKind, Seq<char>)>
    decreases segs.len(),
{
    if segs.len() == 0 {
        Ok(Map::empty())
    } else {
        match collect(segs.drop_last(), load, key) {
            Err(e) => Err(e),
            Ok(m) => match load(segs.last()) {
                Err(e) => Err(e),
                Ok(v) => Ok(m.insert(key(v), v)),
            },
        }
    }
}

/// Once a prefix of the segments fails, the whole load fails with the same error.
pub proof fn lemma_collect_prefix_error<V>(
    segs: Seq<Seq<char>>,
    load: spec_fn(Seq<char>) -> Result<V, (ErrorKind, Seq<char>)>,
    key: spec_fn(V) -> Seq<char>,
    i: int,
)
    requires
        0 <= i <= segs.len(),
        collect(segs.take(i), load, key) is Err,
    ensures
        collect(segs, load, key) == collect(segs.take(i), load, key),
    decreases segs.len() - i,
{
    if i < segs.len() {
        assert(segs.take(i + 1).drop_last() == segs.take(i));
        lemma_collect_prefix_error(segs, load, key, i + 1);
    } else {
        assert(segs.take(i) == segs);
    }
}

/// Loading the OAuth2 configuration of a segment.
pub open spec fn oauth2_loader(env: Map<Seq<char>, Seq<char>>) -> spec_fn(Seq<char>) -> Result<
    OAuth2View,
    (ErrorKind, Seq<char>),
> {
    |seg: Seq<char>| oauth2_spec(env, seg)
}

/// The key of an OAuth2 configuration.
pub open spec fn oauth2_key() -> spec_fn(OAuth2View) -> Seq<char> {
    |v: OAuth2View| v.account_id
}

/// The views of the stored OAuth2 configurations.
pub open spec fn oauth2_map(r: Registry<OAuth2AccountConfig>) -> Map<Seq<char>, OAuth2View> {
    r@.map_values(|a: OAuth2AccountConfig| a@)
}

/// Load the OAuth2 configurations of all segments `segs`, in order.
fn load_oauth2_segments(env: &EnvMap, segs: &Vec<String>) -> (r: AppResult<
    Registry<OAuth2AccountConfig>,
>)
    ensures
        match collect(strings_view(segs@), oauth2_loader(env@), oauth2_key()) {
            Ok(m) => r matches Ok(reg) && oauth2_map(reg) == m,
            Err(e) => r matches Err(x) && x@ == e,
        },
{
    let ghost sv = strings_view(segs@);
    let mut reg: Registry<OAuth2AccountConfig> = Registry::new();
    let mut i: usize = 0;
    proof {
        assert(sv.take(0) == Seq::<Seq<char>>::empty());
        assert(oauth2_map(reg) =~= Map::<Seq<char>, OAuth2View>::empty());
    }
    while i < segs.len()
        invariant
            i <= segs@.len(),
            sv == strings_view(segs@),
            collect(sv.take(i as int), oauth2_loader(env@), oauth2_key()) == Ok::<
                Map<Seq<char>, OAuth2View>,
                (ErrorKind, Seq<char>),
            >(oauth2_map(reg)),
        decreases segs.len() - i,
    {
        proof {
            assert(sv.take(i + 1).drop_last() == sv.take(i as int));
            assert(sv.take(i + 1).last() == segs@[i as int]@);
        }
        match load_oauth2_account(env, segs[i].as_str()) {
            Ok(a) => {
                let ghost before = oauth2_map(reg);
                let ghost av = a@;
                reg.insert(a);
                proof {
                    assert(oauth2_map(reg) =~= before.insert(av.account_id, av));
                }
            },
            Err(e) => {
                proof {
                    lemma_collect_prefix_error(sv, oauth2_loader(env@), oauth2_key(), i + 1);
                }
                return Err(e);
            },
        }
        i = i + 1;
    }
    proof {
        assert(sv.take(sv.len() as int) == sv);
    }
    Ok(reg)
}

/// Loading the IMAP account of a segment, where `oauth_ids` have OAuth2 configurations.
pub open spec fn account_loader(
    env: Map<Seq<char>, Seq<char>>,
    oauth_ids: Set<Seq<char>>,
) -> spec_fn(Seq<char>) -> Result<AccountView, (ErrorKind, Seq<char>)> {
    |seg: Seq<char>| account_spec(env, seg, oauth_ids)
}

/// The key of an IMAP account.
pub open spec fn account_key() -> spec_fn(AccountView) -> Seq<char> {
    |v: AccountView| v.account_id
}

/// The views of the stored IMAP accounts.
pub open spec fn account_map(r: Registry<AccountConfig>) -> Map<Seq<char>, AccountView> {
    r@.map_values(|a: AccountConfig| a@)
}

/// Load the IMAP accounts of all segments `segs`, in order.
fn load_account_segments(
    env: &EnvMap,
    segs: &Vec<String>,
    oauth2_accounts: &Registry<OAuth2AccountConfig>,
) -> (r: AppResult<Registry<AccountConfig>>)
    ensures
        match collect(
            strings_view(segs@),
            account_loader(env@, oauth2_accounts@.dom()),
            account_key(),
        ) {
            Ok(m) => r matches Ok(reg) && account_map(reg) == m,
            Err(e) => r matches Err(x) && x@ == e,
        },
{
    let ghost sv = strings_view(segs@);
    let ghost ids = oauth2_accounts@.dom();
    let mut reg: Registry<AccountConfig> = Registry::new();
    let mut i: usize = 0;
    proof {
        assert(sv.take(0) == Seq::<Seq<char>>::empty());
        assert(account_map(reg) =~= Map::<Seq<char>, AccountView>::empty());
    }
    while i < segs.len()
        invariant
            i <= segs@.len(),
            sv == strings_view(segs@),
            ids == oauth2_accounts@.dom(),
            collect(sv.take(i as int), account_loader(env@, ids), account_key()) == Ok::<
                Map<Seq<char>, AccountView>,
                (ErrorKind, Seq<char>),
            >(account_map(reg)),
        decreases segs.len() - i,
    {
        proof {
            assert(sv.take(i + 1).drop_last() == sv.take(i as int));
            assert(sv.take(i + 1).last() == segs@[i as int]@);
        }
        match load_account(env, segs[i].as_str(), oauth2_accounts) {
            Ok(a) => {
                let ghost before = account_map(reg);
                let ghost av = a@;
                reg.insert(a);
                proof {
                    assert(account_map(reg) =~= before.insert(av.account_id, av));
                }
            },
            Err(e) => {
                proof {
                    lemma_collect_prefix_error(sv, account_loader(env@, ids), account_key(), i + 1);
                }
                return Err(e);
            },
        }
        i = i + 1;
    }
    proof {
        assert(sv.take(sv.len() as int) == sv);
    }
    Ok(reg)
}

/// The outcome of loading the SMTP account of `seg`, where `oauth_ids` are the accounts
/// with an OAuth2 configuration.
pub open spec fn smtp_spec(
    env: Map<Seq<char>, Seq<char>>,
    seg: Seq<char>,
    oauth_ids: Set<Seq<char>>,
) -> Result<SmtpView, (ErrorKind, Seq<char>)> {
    let prefix = var_prefix("MAIL_SMTP_"@, seg);
    let id = account_id_for(seg);
    let has_oauth2 = oauth_ids.contains(id);
    match required_value(env, prefix + "HOST"@, smtp_missing(id, prefix + "HOST"@)) {
        Err(e) => Err(e),
        Ok(host) => match required_value(env, prefix + "USER"@, smtp_missing(id, prefix + "USER"@)) {
            Err(e) => Err(e),
            Ok(user) => match number_setting(
                prefix + "PORT"@,
                env_value(env, prefix + "PORT"@),
                587,
                0xffff,
                "u16"@,
            ) {
                Err(e) => Err(e),
                Ok(port) => {
                    let security = match optional_value(env, prefix + "SECURE"@) {
                        Some(v) => security_parse(v),
                        None => Ok(SmtpSecurity::Starttls),
                    };
                    match security {
                        Err(e) => Err(e),
                        Ok(security) => Ok(
                            SmtpView {
                                account_id: id,
                                host,
                                port,
                                user,
                                pass: optional_value(env, prefix + "PASS"@),
                                security,
                                auth_method: if has_oauth2 {
                                    AuthMethod::OAuth2
                                } else {
                                    AuthMethod::Password
                                },
                            },
                        ),
                    }
                },
            },
        },
    }
}

/// Load the SMTP account of `segment` from `MAIL_SMTP_<SEGMENT>_HOST` and `_USER`
/// (required), `_PASS` (optional), `_PORT` (default 587) and `_SECURE` (default
/// STARTTLS).
pub fn load_smtp_account(
    env: &EnvMap,
    segment: &str,
    oauth2_accounts: &Registry<OAuth2AccountConfig>,
) -> (r: AppResult<SmtpAccountConfig>)
    ensures
        match smtp_spec(env@, segment@, oauth2_accounts@.dom()) {
            Ok(v) => r matches Ok(a) && a@ == v,
            Err(e) => r matches Err(x) && x@ == e,
        },
{
    let prefix = var_prefix_exec("MAIL_SMTP_", segment);
    let account_id = account_id_for_segment(segment);
    let has_oauth2 = oauth2_accounts.contains_key(account_id.as_str());
    let host = required_smtp_env(env, var_name(&prefix, "HOST").as_str(), account_id.as_str())?;
    let user = required_smtp_env(env, var_name(&prefix, "USER").as_str(), account_id.as_str())?;
    let pass = present_value(env, var_name(&prefix, "PASS").as_str());
    let port_key = var_name(&prefix, "PORT");
    let port = parse_number_setting(port_key.as_str(), env_str(env, port_key.as_str()), 587, 0xffff, "u16")?;
    let security = match present_value(env, var_name(&prefix, "SECURE").as_str()) {
        Some(v) => SmtpSecurity::parse(v.as_str())?,
        None => SmtpSecurity::Starttls,
    };
    let auth_method = if has_oauth2 {
        AuthMethod::OAuth2
    } else {
        AuthMethod::Password
    };
    Ok(SmtpAccountConfig { account_id, host, port: port as u16, user, pass, security, auth_method })
}

/// Loading the SMTP account of a segment, where `oauth_ids` have OAuth2 configurations.
pub open spec fn smtp_loader(
    env: Map<Seq<char>, Seq<char>>,
    oauth_ids: Set<Seq<char>>,
) -> spec_fn(Seq<char>) -> Result<SmtpView, (ErrorKind, Seq<char>)> {
    |seg: Seq<char>| smtp_spec(env, seg, oauth_ids)
}

/// The key of an SMTP account.
pub open spec fn smtp_key() -> spec_fn(SmtpView) -> Seq<char> {
    |v: SmtpView| v.account_id
}

/// The views of the stored SMTP accounts.
pub open spec fn smtp_map(r: Registry<SmtpAccountConfig>) -> Map<Seq<char>, SmtpView> {
    r@.map_values(|a: SmtpAccountConfig| a@)
}

/// Load the SMTP accounts of all segments `segs`, in order.
fn load_smtp_segments(
    env: &EnvMap,
    segs: &Vec<String>,
    oauth2_accounts: &Registry<OAuth2AccountConfig>,
) -> (r: AppResult<Registry<SmtpAccountConfig>>)
    ensures
        match collect(strings_view(segs@), smtp_loader(env@, oauth2_accounts@.dom()), smtp_key()) {
            Ok(m) => r matches Ok(reg) && smtp_map(reg) == m,
            Err(e) => r matches Err(x) && x@ == e,
        },
{
    let ghost sv = strings_view(segs@);
    let ghost ids = oauth2_accounts@.dom();
    let mut reg: Registry<SmtpAccountConfig> = Registry::new();
    let mut i: usize = 0;
    proof {
        assert(sv.take(0) == Seq::<Seq<char>>::empty());
        assert(smtp_map(reg) =~= Map::<Seq<char>, SmtpView>::empty());
    }
    while i < segs.len()
        invariant
            i <= segs@.len(),
            sv == strings_view(segs@),
            ids == oauth2_accounts@.dom(),
            collect(sv.take(i as int), smtp_loader(env@, ids), smtp_key()) == Ok::<
                Map<Seq<char>, SmtpView>,
                (ErrorKind, Seq<char>),
            >(smtp_map(reg)),
        decreases segs.len() - i,
    {
        proof {
            assert(sv.take(i + 1).drop_last() == sv.take(i as int));
            assert(sv.take(i + 1).last() == segs@[i as int]@);
        }
        match load_smtp_account(env, segs[i].as_str(), oauth2_accounts) {
            Ok(a) => {
                let ghost before = smtp_map(reg);
                let ghost av = a@;
                reg.insert(a);
                proof {
                    assert(smtp_map(reg) =~= before.insert(av.account_id, av));
                }
            },
            Err(e) => {
                proof {
                    lemma_collect_prefix_error(sv, smtp_loader(env@, ids), smtp_key(), i + 1);
                }
                return Err(e);
            },
        }
        i = i + 1;
    }
    proof {
        assert(sv.take(sv.len() as int) == sv);
    }
    Ok(reg)
}

/// Server-wide configuration: the accounts and the global settings.
pub struct ServerConfig {
    /// All configured IMAP accounts, keyed by `account_id`
    pub accounts: Registry<AccountConfig>,
    /// OAuth2 configurations keyed by `account_id` (only for accounts using OAuth2)
    pub oauth2_accounts: Registry<OAuth2AccountConfig>,
    /// Configured SMTP accounts, keyed by `account_id`
    pub smtp_accounts: Registry<SmtpAccountConfig>,
    /// Whether SMTP send operations are enabled
    pub smtp_write_enabled: bool,
    /// Whether to save sent messages to the IMAP Sent folder
    pub smtp_save_sent: bool,
    /// SMTP operation timeout in milliseconds
    pub smtp_timeout_ms: u64,
    /// Whether write operations (copy, move, delete, flag updates) are enabled
    pub write_enabled: bool,
    /// TCP connection timeout in milliseconds
    pub connect_timeout_ms: u64,
    /// IMAP greeting/TLS handshake timeout in milliseconds
    pub greeting_timeout_ms: u64,
    /// Socket I/O timeout in milliseconds
    pub socket_timeout_ms: u64,
    /// Time-to-live for search cursors in seconds
    pub cursor_ttl_seconds: u64,
    /// Maximum number of cursors to retain
    pub cursor_max_entries: usize,
}

/// The global settings of a [`ServerConfig`].
pub struct SettingsView {
    pub smtp_write_enabled: bool,
    pub smtp_save_sent: bool,
    pub smtp_timeout_ms: nat,
    pub write_enabled: bool,
    pub connect_timeout_ms: nat,
    pub greeting_timeout_ms: nat,
    pub socket_timeout_ms: nat,
    pub cursor_ttl_seconds: nat,
    pub cursor_max_entries: nat,
}

/// The plain values of a [`ServerConfig`].
pub struct ServerView {
    pub accounts: Map<Seq<char>, AccountView>,
    pub oauth2_accounts: Map<Seq<char>, OAuth2View>,
    pub smtp_accounts: Map<Seq<char>, SmtpView>,
    pub settings: SettingsView,
}

impl View for ServerConfig {
    type V = ServerView;

    open spec fn view(&self) -> ServerView {
        ServerView {
            accounts: account_map(self.accounts),
            oauth2_accounts: oauth2_map(self.oauth2_accounts),
            smtp_accounts: smtp_map(self.smtp_accounts),
            settings: SettingsView {
                smtp_write_enabled: self.smtp_write_enabled,
                smtp_save_sent: self.smtp_save_sent,
                smtp_timeout_ms: self.smtp_timeout_ms as nat,
                write_enabled: self.write_enabled,
                connect_timeout_ms: self.connect_timeout_ms as nat,
                greeting_timeout_ms: self.greeting_timeout_ms as nat,
                socket_timeout_ms: self.socket_timeout_ms as nat,
                cursor_ttl_seconds: self.cursor_ttl_seconds as nat,
                cursor_max_entries: self.cursor_max_entries as nat,
            },
        }
    }
}

/// A boolean setting read from `env`.
pub open spec fn env_bool(env: Map<Seq<char>, Seq<char>>, key: Seq<char>, default: bool) -> Result<
    bool,
    (ErrorKind, Seq<char>),
> {
    bool_setting(key, env_value(env, key), default)
}

/// An unsigned `u64` setting read from `env`.
pub open spec fn env_u64(env: Map<Seq<char>, Seq<char>>, key: Seq<char>, default: nat) -> Result<
    nat,
    (ErrorKind, Seq<char>),
> {
    number_setting(key, env_value(env, key), default, u64::MAX as nat, "u64"@)
}

/// The global settings read from `env`, in order; the first invalid one is the error.
pub open spec fn settings_spec(env: Map<Seq<char>, Seq<char>>) -> Result<
    SettingsView,
    (ErrorKind, Seq<char>),
> {
    match env_bool(env, "MAIL_SMTP_WRITE_ENABLED"@, false) {
        Err(e) => Err(e),
        Ok(smtp_write_enabled) => match env_bool(env, "MAIL_SMTP_SAVE_SENT"@, true) {
            Err(e) => Err(e),
            Ok(smtp_save_sent) => match env_u64(env, "MAIL_SMTP_TIMEOUT_MS"@, 30000) {
                Err(e) => Err(e),
                Ok(smtp_timeout_ms) => match env_bool(env, "MAIL_IMAP_WRITE_ENABLED"@, false) {
                    Err(e) => Err(e),
                    Ok(write_enabled) => match env_u64(
                        env,
                        "MAIL_IMAP_CONNECT_TIMEOUT_MS"@,
                        30000,
                    ) {
                        Err(e) => Err(e),
                        Ok(connect_timeout_ms) => match env_u64(
                            env,
                            "MAIL_IMAP_GREETING_TIMEOUT_MS"@,
                            15000,
                        ) {
                            Err(e) => Err(e),
                            Ok(greeting_timeout_ms) => match env_u64(
                                env,
                                "MAIL_IMAP_SOCKET_TIMEOUT_MS"@,
                                300000,
                            ) {
                                Err(e) => Err(e),
                                Ok(socket_timeout_ms) => match env_u64(
                                    env,
                                    "MAIL_IMAP_CURSOR_TTL_SECONDS"@,
                                    600,
                                ) {
                                    Err(e) => Err(e),
                                    Ok(cursor_ttl_seconds) => match number_setting(
                                        "MAIL_IMAP_CURSOR_MAX_ENTRIES"@,
                                        env_value(env, "MAIL_IMAP_CURSOR_MAX_ENTRIES"@),
                                        512,
                                        usize::MAX as nat,
                                        "usize"@,
                                    ) {
                                        Err(e) => Err(e),
                                        Ok(cursor_max_entries) => Ok(
                                            SettingsView {
                                                smtp_write_enabled,
                                                smtp_save_sent,
                                                smtp_timeout_ms,
                                                write_enabled,
                                                connect_timeout_ms,
                                                greeting_timeout_ms,
                                                socket_timeout_ms,
                                                cursor_ttl_seconds,
                                                cursor_max_entries,
                                            },
                                        ),
                                    },
                                },
                            },
                        },
                    },
                },
            },
        },
    }
}

/// The IMAP account segments: those discovered, or `DEFAULT` when there are none.
pub open spec fn imap_segments(found: Seq<Seq<char>>) -> Seq<Seq<char>> {
    if found.len() == 0 {
        seq!["DEFAULT"@]
    } else {
        found
    }
}

/// The outcome of loading the whole configuration from `env`: `Err(None)` when a
/// discovery pattern fails to compile, `Err(Some(e))` for the first invalid setting.
pub open spec fn config_spec(env: Map<Seq<char>, Seq<char>>) -> Result<
    ServerView,
    Option<(ErrorKind, Seq<char>)>,
> {
    match discovery("^MAIL_OAUTH2_([A-Z0-9_]+)_PROVIDER$"@, env) {
        None => Err(None),
        Some(osegs) => match collect(osegs, oauth2_loader(env), oauth2_key()) {
            Err(e) => Err(Some(e)),
            Ok(oauth) => match discovery("^MAIL_IMAP_([A-Z0-9_]+)_HOST$"@, env) {
                None => Err(None),
                Some(isegs) => match collect(
                    imap_segments(isegs),
                    account_loader(env, oauth.dom()),
                    account_key(),
                ) {
                    Err(e) => Err(Some(e)),
                    Ok(accounts) => match discovery("^MAIL_SMTP_([A-Z0-9_]+)_HOST$"@, env) {
                        None => Err(None),
                        Some(ssegs) => match collect(
                            ssegs,
                            smtp_loader(env, oauth.dom()),
                            smtp_key(),
                        ) {
                            Err(e) => Err(Some(e)),
                            Ok(smtp) => match settings_spec(env) {
                                Err(e) => Err(Some(e)),
                                Ok(settings) => Ok(
                                    ServerView {
                                        accounts,
                                        oauth2_accounts: oauth,
                                        smtp_accounts: smtp,
                                        settings,
                                    },
                                ),
                            },
                        },
                    },
                },
            },
        },
    }
}

/// Read a boolean setting of `env`.
fn env_bool_exec(env: &EnvMap, key: &str, default: bool) -> (r: AppResult<bool>)
    ensures
        res_view(r) == env_bool(env@, key@, default),
{
    parse_bool_setting(key, env_str(env, key), default)
}

/// Read a `u64` setting of `env`.
fn env_u64_exec(env: &EnvMap, key: &str, default: u64) -> (r: AppResult<u64>)
    ensures
        num_view(r) == env_u64(env@, key@, default as nat),
{
    parse_number_setting(key, env_str(env, key), default, u64::MAX, "u64")
}

impl ServerConfig {
    /// Load the whole configuration from a snapshot of the environment.
    ///
    /// OAuth2 configurations are discovered from `MAIL_OAUTH2_*_PROVIDER`, IMAP accounts
    /// from `MAIL_IMAP_*_HOST` (the `DEFAULT` account when there is none) and SMTP
    /// accounts from `MAIL_SMTP_*_HOST`; then the global settings are read:
    /// `MAIL_SMTP_WRITE_ENABLED` (false), `MAIL_SMTP_SAVE_SENT` (true),
    /// `MAIL_SMTP_TIMEOUT_MS` (30000), `MAIL_IMAP_WRITE_ENABLED` (false),
    /// `MAIL_IMAP_CONNECT_TIMEOUT_MS` (30000), `MAIL_IMAP_GREETING_TIMEOUT_MS` (15000),
    /// `MAIL_IMAP_SOCKET_TIMEOUT_MS` (300000), `MAIL_IMAP_CURSOR_TTL_SECONDS` (600) and
    /// `MAIL_IMAP_CURSOR_MAX_ENTRIES` (512). Missing or malformed values are
    /// `InvalidInput` errors.
    pub fn load_from_env(env: &EnvMap) -> (r: AppResult<ServerConfig>)
        ensures
            match config_spec(env@) {
                Ok(v) => r matches Ok(c) && c@ == v,
                Err(Some(e)) => r matches Err(x) && x@ == e,
                Err(None) => r matches Err(x) && x@.0 == ErrorKind::Internal,
            },
    {
        let osegs = discover_segments(env, "^MAIL_OAUTH2_([A-Z0-9_]+)_PROVIDER$", "oauth2")?;
        let oauth2_accounts = load_oauth2_segments(env, &osegs)?;
        let ghost oauth = oauth2_map(oauth2_accounts);
        proof {
            assert(oauth.dom() =~= oauth2_accounts@.dom());
        }
        let mut isegs = discover_segments(env, "^MAIL_IMAP_([A-Z0-9_]+)_HOST$", "account")?;
        let ghost found = strings_view(isegs@);
        if isegs.len() == 0 {
            isegs.push(String::from_str("DEFAULT"));
            proof {
                assert(strings_view(isegs@) =~= seq!["DEFAULT"@]);
            }
        }
        proof {
            assert(strings_view(isegs@) == imap_segments(found));
        }
        let accounts = load_account_segments(env, &isegs, &oauth2_accounts)?;
        let ssegs = discover_segments(env, "^MAIL_SMTP_([A-Z0-9_]+)_HOST$", "smtp")?;
        let smtp_accounts = load_smtp_segments(env, &ssegs, &oauth2_accounts)?;
        let smtp_write_enabled = env_bool_exec(env, "MAIL_SMTP_WRITE_ENABLED", false)?;
        let smtp_save_sent = env_bool_exec(env, "MAIL_SMTP_SAVE_SENT", true)?;
        let smtp_timeout_ms = env_u64_exec(env, "MAIL_SMTP_TIMEOUT_MS", 30000)?;
        let write_enabled = env_bool_exec(env, "MAIL_IMAP_WRITE_ENABLED", false)?;
        let connect_timeout_ms = env_u64_exec(env, "MAIL_IMAP_CONNECT_TIMEOUT_MS", 30000)?;
        let greeting_timeout_ms = env_u64_exec(env, "MAIL_IMAP_GREETING_TIMEOUT_MS", 15000)?;
        let socket_timeout_ms = env_u64_exec(env, "MAIL_IMAP_SOCKET_TIMEOUT_MS", 300000)?;
        let cursor_ttl_seconds = env_u64_exec(env, "MAIL_IMAP_CURSOR_TTL_SECONDS", 600)?;
        let max_key = "MAIL_IMAP_CURSOR_MAX_ENTRIES";
        let cursor_max_entries = parse_number_setting(
            max_key,
            env_str(env, max_key),
            512,
            usize::MAX as u64,
            "usize",
        )?;
        Ok(
            ServerConfig {
                accounts,
                oauth2_accounts,
                smtp_accounts,
                smtp_write_enabled,
                smtp_save_sent,
                smtp_timeout_ms,
                write_enabled,
                connect_timeout_ms,
                greeting_timeout_ms,
                socket_timeout_ms,
                cursor_ttl_seconds,
                cursor_max_entries: cursor_max_entries as usize,
            },
        )
    }
}

impl ServerConfig {
    /// The IMAP account `account_id`; `NotFound` when it is not configured.
    pub fn get_account(&self, account_id: &str) -> (r: AppResult<&AccountConfig>)
        ensures
            match r {
                Ok(a) => self.accounts@.contains_key(account_id@) && self.accounts@[account_id@]
                    == *a,
                Err(e) => !self.accounts@.contains_key(account_id@) && e@ == (
                    ErrorKind::NotFound,
                    "IMAP account '"@ + account_id@ + "' is not configured"@,
                ),
            },
    {
        match self.accounts.get(account_id) {
            Some(a) => Ok(a),
            None => Err(
                AppError::NotFound(concat3("IMAP account '", account_id, "' is not configured")),
            ),
        }
    }

    /// The SMTP account `account_id`; `NotFound` when it is not configured.
    pub fn get_smtp_account(&self, account_id: &str) -> (r: AppResult<&SmtpAccountConfig>)
        ensures
            match r {
                Ok(a) => self.smtp_accounts@.contains_key(account_id@)
                    && self.smtp_accounts@[account_id@] == *a,
                Err(e) => !self.smtp_accounts@.contains_key(account_id@) && e@ == (
                    ErrorKind::NotFound,
                    "SMTP account '"@ + account_id@ + "' is not configured"@,
                ),
            },
    {
        match self.smtp_accounts.get(account_id) {
            Some(a) => Ok(a),
            None => Err(
                AppError::NotFound(concat3("SMTP account '", account_id, "' is not configured")),
            ),
        }
    }
}

/// Law: every record a load stores is stored under its own key.
pub proof fn lemma_collect_keys<V>(
    segs: Seq<Seq<char>>,
    load: spec_fn(Seq<char>) -> Result<V, (ErrorKind, Seq<char>)>,
    key: spec_fn(V) -> Seq<char>,
)
    requires
        collect(segs, load, key) is Ok,
    ensures
        forall|k: Seq<char>|
            #[trigger] collect(segs, load, key)->Ok_0.contains_key(k) ==> key(
                collect(segs, load, key)->Ok_0[k],
            ) == k,
    decreases segs.len(),
{
    if segs.len() > 0 {
        lemma_collect_keys(segs.drop_last(), load, key);
    }
}

/// Law: with an OAuth2 configuration the password of an IMAP account is optional: an
/// account whose host and user are set and whose port and TLS settings read loads, with
/// or without a password, and authenticates with OAuth2.
pub proof fn lemma_oauth2_password_optional(
    env: Map<Seq<char>, Seq<char>>,
    seg: Seq<char>,
    oauth_ids: Set<Seq<char>>,
)
    requires
        oauth_ids.contains(account_id_for(seg)),
        required_value(
            env,
            var_prefix("MAIL_IMAP_"@, seg) + "HOST"@,
            imap_missing(var_prefix("MAIL_IMAP_"@, seg) + "HOST"@),
        ) is Ok,
        required_value(
            env,
            var_prefix("MAIL_IMAP_"@, seg) + "USER"@,
            imap_missing(var_prefix("MAIL_IMAP_"@, seg) + "USER"@),
        ) is Ok,
        number_setting(
            var_prefix("MAIL_IMAP_"@, seg) + "PORT"@,
            env_value(env, var_prefix("MAIL_IMAP_"@, seg) + "PORT"@),
            993,
            0xffff,
            "u16"@,
        ) is Ok,
        bool_setting(
            var_prefix("MAIL_IMAP_"@, seg) + "SECURE"@,
            env_value(env, var_prefix("MAIL_IMAP_"@, seg) + "SECURE"@),
            true,
        ) is Ok,
    ensures
        account_spec(env, seg, oauth_ids) matches Ok(a) && a.auth_method == AuthMethod::OAuth2,
{
}

/// Every record a load stores is one that loading some segment gave.
proof fn lemma_collect_from_loads<V>(
    segs: Seq<Seq<char>>,
    load: spec_fn(Seq<char>) -> Result<V, (ErrorKind, Seq<char>)>,
    key: spec_fn(V) -> Seq<char>,
    k: Seq<char>,
)
    requires
        collect(segs, load, key) matches Ok(m) && m.contains_key(k),
    ensures
        exists|i: int| 0 <= i < segs.len() && load(segs[i]) == Ok::<V, (ErrorKind, Seq<char>)>(
            collect(segs, load, key)->Ok_0[k],
        ),
    decreases segs.len(),
{
    let m = collect(segs, load, key)->Ok_0;
    let prev = collect(segs.drop_last(), load, key)->Ok_0;
    let v = load(segs.last())->Ok_0;
    if key(v) == k {
        assert(load(segs[segs.len() - 1]) == Ok::<V, (ErrorKind, Seq<char>)>(m[k]));
    } else {
        lemma_collect_from_loads(segs.drop_last(), load, key, k);
        let i = choose|i: int|
            0 <= i < segs.drop_last().len() && load(segs.drop_last()[i]) == Ok::<
                V,
                (ErrorKind, Seq<char>),
            >(prev[k]);
        assert(segs[i] == segs.drop_last()[i]);
    }
}

/// An SMTP account loads with OAuth2 exactly when its id has an OAuth2 configuration.
pub proof fn lemma_smtp_auth_method(env: Map<Seq<char>, Seq<char>>, seg: Seq<char>, oauth_ids: Set<Seq<char>>)
    requires
        smtp_spec(env, seg, oauth_ids) is Ok,
    ensures
        (smtp_spec(env, seg, oauth_ids)->Ok_0.auth_method == AuthMethod::OAuth2) <==> oauth_ids.contains(
            smtp_spec(env, seg, oauth_ids)->Ok_0.account_id,
        ),
{
}

/// An IMAP account loads with OAuth2 exactly when its id has an OAuth2 configuration.
pub proof fn lemma_account_auth_method(env: Map<Seq<char>, Seq<char>>, seg: Seq<char>, oauth_ids: Set<Seq<char>>)
    requires
        account_spec(env, seg, oauth_ids) is Ok,
    ensures
        (account_spec(env, seg, oauth_ids)->Ok_0.auth_method == AuthMethod::OAuth2) <==> oauth_ids.contains(
            account_spec(env, seg, oauth_ids)->Ok_0.account_id,
        ),
{
}

/// Law: in a loaded configuration, an SMTP account (and likewise an IMAP account)
/// authenticates with OAuth2 exactly when an OAuth2 configuration exists for its account
/// id, and with a password otherwise.
pub proof fn lemma_oauth2_accounts_use_oauth2(env: Map<Seq<char>, Seq<char>>)
    requires
        config_spec(env) is Ok,
    ensures
        forall|k: Seq<char>| #[trigger]
            config_spec(env)->Ok_0.smtp_accounts.contains_key(k) ==> ((config_spec(
                env,
            )->Ok_0.smtp_accounts[k].auth_method == AuthMethod::OAuth2)
                <==> config_spec(env)->Ok_0.oauth2_accounts.contains_key(k)),
        forall|k: Seq<char>| #[trigger]
            config_spec(env)->Ok_0.accounts.contains_key(k) ==> ((config_spec(
                env,
            )->Ok_0.accounts[k].auth_method == AuthMethod::OAuth2)
                <==> config_spec(env)->Ok_0.oauth2_accounts.contains_key(k)),
{
    let cfg = config_spec(env)->Ok_0;
    let osegs = discovery("^MAIL_OAUTH2_([A-Z0-9_]+)_PROVIDER$"@, env)->Some_0;
    let oauth = collect(osegs, oauth2_loader(env), oauth2_key())->Ok_0;
    let isegs = discovery("^MAIL_IMAP_([A-Z0-9_]+)_HOST$"@, env)->Some_0;
    let ssegs = discovery("^MAIL_SMTP_([A-Z0-9_]+)_HOST$"@, env)->Some_0;
    let iload = account_loader(env, oauth.dom());
    let sload = smtp_loader(env, oauth.dom());
    assert(cfg.oauth2_accounts == oauth);
    assert(cfg.smtp_accounts == collect(ssegs, sload, smtp_key())->Ok_0);
    assert(cfg.accounts == collect(imap_segments(isegs), iload, account_key())->Ok_0);
    lemma_collect_keys(ssegs, sload, smtp_key());
    lemma_collect_keys(imap_segments(isegs), iload, account_key());
    assert forall|k: Seq<char>| #[trigger] cfg.smtp_accounts.contains_key(k) implies ((
    cfg.smtp_accounts[k].auth_method == AuthMethod::OAuth2) <==> cfg.oauth2_accounts.contains_key(
        k,
    )) by {
        lemma_collect_from_loads(ssegs, sload, smtp_key(), k);
        let i = choose|i: int|
            0 <= i < ssegs.len() && sload(ssegs[i]) == Ok::<SmtpView, (ErrorKind, Seq<char>)>(
                cfg.smtp_accounts[k],
            );
        lemma_smtp_auth_method(env, ssegs[i], oauth.dom());
        assert(smtp_key()(cfg.smtp_accounts[k]) == k);
    }
    assert forall|k: Seq<char>| #[trigger] cfg.accounts.contains_key(k) implies ((
    cfg.accounts[k].auth_method == AuthMethod::OAuth2) <==> cfg.oauth2_accounts.contains_key(k)) by {
        lemma_collect_from_loads(imap_segments(isegs), iload, account_key(), k);
        let i = choose|i: int|
            0 <= i < imap_segments(isegs).len() && iload(imap_segments(isegs)[i]) == Ok::<
                AccountView,
                (ErrorKind, Seq<char>),
            >(cfg.accounts[k]);
        lemma_account_auth_method(env, imap_segments(isegs)[i], oauth.dom());
        assert(account_key()(cfg.accounts[k]) == k);
    }
}

} // verus!
