//! Message URIs (with percent-encoded mailbox names) and base64 encoding of raw
//! message sources.
use vstd::prelude::*;
use vstd::string::*;
use vstd::utf8::encode_utf8;

use base64::Engine;

use crate::text::{decimal, decimal_u64};

verus! {

/// A byte that percent-encoding leaves as it is: ASCII letters, digits, `-`, `.`, `_`, `~`.
pub open spec fn unreserved_byte(b: u8) -> bool {
    (48 <= b && b <= 57) || (65 <= b && b <= 90) || (97 <= b && b <= 122) || b == 45 || b == 46
        || b == 95 || b == 126
}

/// The upper-case hexadecimal digit of `d < 16`.
pub open spec fn hex_upper(d: u8) -> char {
    if d < 10 {
        ((d + 48) as u32) as char
    } else {
        ((d + 55) as u32) as char
    }
}

/// Percent-encoding of a byte sequence: unreserved bytes stay, every other byte
/// becomes `%` followed by two upper-case hexadecimal digits.
pub open spec fn percent_encode(bytes: Seq<u8>) -> Seq<char>
    decreases bytes.len(),
{
    if bytes.len() == 0 {
        Seq::empty()
    } else {
        let b = bytes[0];
        let head = if unreserved_byte(b) {
            seq![(b as u32) as char]
        } else {
            seq!['%', hex_upper(b / 16), hex_upper(b % 16)]
        };
        head + percent_encode(bytes.drop_first())
    }
}

/// Percent-encodes `data` with `urlencoding::encode`, whose documentation says it
/// "percent-encodes every byte except alphanumerics and `-`, `_`, `.`, `~`" of the UTF-8
/// encoding; its source writes the hexadecimal digits in upper case.
#[verifier::external_body]
fn url_encode(data: &str) -> (r: String)
    ensures
        r@ == percent_encode(encode_utf8(data@)),
{
    urlencoding::encode(data).into_owned()
}

/// The URI of a message: `imap://<account>/mailbox/<percent-encoded mailbox>/message/<uidvalidity>/<uid>`.
pub open spec fn message_uri(account_id: Seq<char>, mailbox: Seq<char>, uidvalidity: u32, uid: u32) -> Seq<
    char,
> {
    "imap://"@ + account_id + "/mailbox/"@ + percent_encode(encode_utf8(mailbox)) + "/message/"@
        + decimal(uidvalidity as nat) + "/"@ + decimal(uid as nat)
}

/// Build the message URI for display.
pub fn build_message_uri(account_id: &str, mailbox: &str, uidvalidity: u32, uid: u32) -> (r: String)
    ensures
        r@ == message_uri(account_id@, mailbox@, uidvalidity, uid),
{
    let mut r = String::from_str("imap://");
    r.append(account_id);
    r.append("/mailbox/");
    let enc = url_encode(mailbox);
    r.append(enc.as_str());
    r.append("/message/");
    let v = decimal_u64(uidvalidity as u64);
    r.append(v.as_str());
    r.append("/");
    let u = decimal_u64(uid as u64);
    r.append(u.as_str());
    r
}

/// Build the raw message URI: the message URI followed by `/raw`.
pub fn build_message_raw_uri(account_id: &str, mailbox: &str, uidvalidity: u32, uid: u32) -> (r:
    String)
    ensures
        r@ == message_uri(account_id@, mailbox@, uidvalidity, uid) + "/raw"@,
{
    let mut r = build_message_uri(account_id, mailbox, uidvalidity, uid);
    r.append("/raw");
    r
}

/// A character that may stand in a percent-encoded text.
pub open spec fn percent_output_char(c: char) -> bool {
    c == '%' || (c as u32) < 128 && unreserved_byte((c as u32) as u8)
}

/// Law: a percent-encoded mailbox name holds only unreserved characters and `%`, so it
/// cannot add path separators or other delimiters to a message URI.
pub proof fn lemma_percent_encode_charset(bytes: Seq<u8>)
    ensures
        forall|i: int|
            0 <= i < percent_encode(bytes).len() ==> percent_output_char(
                #[trigger] percent_encode(bytes)[i],
            ),
    decreases bytes.len(),
{
    if bytes.len() > 0 {
        lemma_percent_encode_charset(bytes.drop_first());
        let b = bytes[0];
        let rest = percent_encode(bytes.drop_first());
        let head = if unreserved_byte(b) {
            seq![(b as u32) as char]
        } else {
            seq!['%', hex_upper(b / 16), hex_upper(b % 16)]
        };
        assert(percent_encode(bytes) == head + rest);
        assert forall|i: int| 0 <= i < head.len() implies percent_output_char(#[trigger] head[i]) by {
            if !unreserved_byte(b) {
                assert(b / 16 < 16 && b % 16 < 16);
            }
        }
        assert forall|i: int|
            0 <= i < percent_encode(bytes).len() implies percent_output_char(
            #[trigger] percent_encode(bytes)[i],
        ) by {
            if i < head.len() {
                assert(percent_encode(bytes)[i] == head[i]);
            } else {
                assert(percent_encode(bytes)[i] == rest[i - head.len()]);
            }
        }
    }
}

/// The character of a 6-bit value in the standard base64 alphabet.
pub open spec fn base64_char(v: int) -> char {
    if v < 26 {
        ((v + 65) as u32) as char
    } else if v < 52 {
        ((v + 71) as u32) as char
    } else if v < 62 {
        ((v - 4) as u32) as char
    } else if v == 62 {
        '+'
    } else {
        '/'
    }
}

/// Standard base64 (RFC 4648 alphabet, `=` padding) of a byte sequence.
pub open spec fn base64_standard(b: Seq<u8>) -> Seq<char>
    decreases b.len(),
{
    if b.len() == 0 {
        Seq::empty()
    } else if b.len() == 1 {
        seq![base64_char((b[0] / 4) as int), base64_char((b[0] % 4) * 16), '=', '=']
    } else if b.len() == 2 {
        seq![
            base64_char((b[0] / 4) as int),
            base64_char((b[0] % 4) * 16 + b[1] / 16),
            base64_char((b[1] % 16) * 4),
            '=',
        ]
    } else {
        seq![
            base64_char((b[0] / 4) as int),
            base64_char((b[0] % 4) * 16 + b[1] / 16),
            base64_char((b[1] % 16) * 4 + b[2] / 64),
            base64_char((b[2] % 64) as int),
        ] + base64_standard(b.skip(3))
    }
}

/// Encodes `raw` with `base64::engine::general_purpose::STANDARD`, the RFC 4648 standard
/// alphabet with `=` padding.
#[verifier::external_body]
fn base64_encode_standard(raw: &[u8]) -> (r: String)
    ensures
        r@ == base64_standard(raw@),
{
    base64::engine::general_purpose::STANDARD.encode(raw)
}

/// Encode a raw message source as standard base64.
pub fn encode_raw_source_base64(raw: &[u8]) -> (r: String)
    ensures
        r@ == base64_standard(raw@),
{
    base64_encode_standard(raw)
}

/// Law: base64 output has four characters for every started group of three bytes.
pub proof fn lemma_base64_len(b: Seq<u8>)
    ensures
        base64_standard(b).len() == 4 * ((b.len() + 2) / 3),
    decreases b.len(),
{
    if b.len() >= 3 {
        lemma_base64_len(b.skip(3));
    }
}

/// The 6-bit value of a character of the standard base64 alphabet.
pub open spec fn base64_value(c: char) -> int {
    let n = c as int;
    if 65 <= n <= 90 {
        n - 65
    } else if 97 <= n <= 122 {
        n - 71
    } else if 48 <= n <= 57 {
        n + 4
    } else if c == '+' {
        62
    } else {
        63
    }
}

/// The bytes a standard base64 text stands for, read by groups of four characters, with
/// `=` padding in the last group.
pub open spec fn base64_decode(s: Seq<char>) -> Seq<u8>
    decreases s.len(),
{
    if s.len() < 4 {
        Seq::empty()
    } else {
        let v0 = base64_value(s[0]);
        let v1 = base64_value(s[1]);
        let v2 = base64_value(s[2]);
        let v3 = base64_value(s[3]);
        let x0 = (v0 * 4 + v1 / 16) as u8;
        let x1 = ((v1 % 16) * 16 + v2 / 4) as u8;
        let x2 = ((v2 % 4) * 64 + v3) as u8;
        if s[2] == '=' {
            seq![x0]
        } else if s[3] == '=' {
            seq![x0, x1]
        } else {
            seq![x0, x1, x2] + base64_decode(s.skip(4))
        }
    }
}

/// Each character of the alphabet reads back as its value.
proof fn lemma_base64_char_value(v: int)
    requires
        0 <= v < 64,
    ensures
        base64_value(base64_char(v)) == v,
        base64_char(v) != '=',
{
}

/// Law: the base64 text of a raw message source reads back as the source.
pub proof fn lemma_base64_round_trip(b: Seq<u8>)
    ensures
        base64_decode(base64_standard(b)) == b,
    decreases b.len(),
{
    if b.len() > 0 {
        let b0 = b[0] as int;
        lemma_base64_char_value(b0 / 4);
        if b.len() == 1 {
            lemma_base64_char_value((b0 % 4) * 16);
            assert(base64_decode(base64_standard(b)) =~= b);
        } else {
            let b1 = b[1] as int;
            lemma_base64_char_value((b0 % 4) * 16 + b1 / 16);
            if b.len() == 2 {
                lemma_base64_char_value((b1 % 16) * 4);
                assert(base64_decode(base64_standard(b)) =~= b);
            } else {
                let b2 = b[2] as int;
                lemma_base64_char_value((b1 % 16) * 4 + b2 / 64);
                lemma_base64_char_value(b2 % 64);
                lemma_base64_round_trip(b.skip(3));
                let s = base64_standard(b);
                assert(s.skip(4) =~= base64_standard(b.skip(3)));
                assert(base64_decode(s) =~= b);
            }
        }
    }
}

} // verus!
