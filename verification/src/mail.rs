//! Building the MIME message of an [`EmailComposition`] with `lettre`.
use vstd::prelude::*;
use vstd::string::*;

use crate::errors::{AppError, AppResult, ErrorKind};
use crate::smtp::{CompositionView, EmailComposition};
use crate::text::{concat2, concat3, join, strings_view};

verus! {

/// An email address with an optional display name, of the `lettre` crate.
#[verifier::external_type_specification]
#[verifier::external_body]
pub struct ExMailbox(lettre::message::Mailbox);

/// A message being built, of the `lettre` crate.
#[verifier::external_type_specification]
#[verifier::external_body]
pub struct ExMessageBuilder(lettre::message::MessageBuilder);

/// A built email message, of the `lettre` crate.
#[verifier::external_type_specification]
#[verifier::external_body]
pub struct ExMessage(lettre::Message);

/// The message headers a composition sets.
#[derive(PartialEq, Eq, Debug, Clone, Copy, Structural)]
pub enum HeaderField {
    From,
    To,
    Cc,
    Bcc,
    Subject,
    ReplyTo,
    InReplyTo,
    References,
}

/// The name of a header field.
pub open spec fn field_name(f: HeaderField) -> Seq<char> {
    match f {
        HeaderField::From => "From"@,
        HeaderField::To => "To"@,
        HeaderField::Cc => "Cc"@,
        HeaderField::Bcc => "Bcc"@,
        HeaderField::Subject => "Subject"@,
        HeaderField::ReplyTo => "Reply-To"@,
        HeaderField::InReplyTo => "In-Reply-To"@,
        HeaderField::References => "References"@,
    }
}

/// What parsing `text` as a `lettre::message::Mailbox` (`str::parse`) yields: the
/// mailbox, or the error's text.
pub uninterp spec fn lettre_mailbox(text: Seq<char>) -> Result<lettre::message::Mailbox, Seq<char>>;

/// What `Mailbox::to_string` yields: the address, after the display name and in angle
/// brackets where the mailbox has a name.
pub uninterp spec fn lettre_mailbox_text(m: lettre::message::Mailbox) -> Seq<char>;

/// What a message builder holds: the raw value of its header `name` (as
/// `Headers::get_raw` reads it, ignoring ASCII case), if it has one.
pub uninterp spec fn lettre_builder_header(b: lettre::message::MessageBuilder, name: Seq<char>) -> Option<Seq<char>>;

/// What `Message::headers().get_raw(name)` yields: the raw value of the message's header
/// `name`, if it has one.
pub uninterp spec fn lettre_message_header(m: lettre::Message, name: Seq<char>) -> Option<Seq<char>>;

/// What the body of a message holds: the multipart subtype of its body (`alternative`)
/// or empty for a single body, and its leaf parts in order, each as its `Content-Type`
/// (empty for a plain `MessageBuilder::body`) and the text it was made from.
pub uninterp spec fn lettre_message_body(m: lettre::Message) -> (Seq<char>, Seq<(Seq<char>, Seq<char>)>);

/// What `lettre::Message::builder().from(from)` yields: a new message builder whose
/// `From` is `from`.
pub uninterp spec fn lettre_builder_from(from: lettre::message::Mailbox) -> lettre::message::MessageBuilder;

/// What `MessageBuilder::mailbox(header::To::from(Mailboxes::from(ms)))` yields.
pub uninterp spec fn lettre_to_all(
    b: lettre::message::MessageBuilder,
    ms: Seq<lettre::message::Mailbox>,
) -> lettre::message::MessageBuilder;

/// What `MessageBuilder::mailbox(header::Cc::from(Mailboxes::from(ms)))` yields.
pub uninterp spec fn lettre_cc_all(
    b: lettre::message::MessageBuilder,
    ms: Seq<lettre::message::Mailbox>,
) -> lettre::message::MessageBuilder;

/// What `MessageBuilder::mailbox(header::Bcc::from(Mailboxes::from(ms)))` yields.
pub uninterp spec fn lettre_bcc_all(
    b: lettre::message::MessageBuilder,
    ms: Seq<lettre::message::Mailbox>,
) -> lettre::message::MessageBuilder;

/// What `MessageBuilder::subject(subject)` yields: `b` with `Subject` set to `subject`.
pub uninterp spec fn lettre_subject(b: lettre::message::MessageBuilder, subject: Seq<char>) -> lettre::message::MessageBuilder;

/// What `MessageBuilder::reply_to(mbox)` yields: `b` with `mbox` added to `Reply-To`.
pub uninterp spec fn lettre_reply_to(
    b: lettre::message::MessageBuilder,
    mbox: lettre::message::Mailbox,
) -> lettre::message::MessageBuilder;

/// What `MessageBuilder::in_reply_to(id)` yields: `b` with `In-Reply-To` set to `id`.
pub uninterp spec fn lettre_in_reply_to(b: lettre::message::MessageBuilder, id: Seq<char>) -> lettre::message::MessageBuilder;

/// What `MessageBuilder::references(id)` yields: `b` with `References` set to `id`.
pub uninterp spec fn lettre_references(b: lettre::message::MessageBuilder, id: Seq<char>) -> lettre::message::MessageBuilder;

/// Whether `MessageBuilder::multipart` refuses `b` with a `multipart/alternative` body of
/// a `text/plain` part `text` and a `text/html` part `html`, and its error's text.
pub uninterp spec fn lettre_multipart_error(
    b: lettre::message::MessageBuilder,
    text: Seq<char>,
    html: Seq<char>,
) -> Option<Seq<char>>;

/// Whether `MessageBuilder::body` refuses `b` with the text body `text`, and its error's
/// text.
pub uninterp spec fn lettre_body_error(b: lettre::message::MessageBuilder, text: Seq<char>) -> Option<Seq<char>>;

/// Whether `MessageBuilder::singlepart` refuses `b` with a `text/html` part `html`, and
/// its error's text.
pub uninterp spec fn lettre_singlepart_error(b: lettre::message::MessageBuilder, html: Seq<char>) -> Option<Seq<char>>;

/// The error's text where `text` does not parse as a mailbox.
pub open spec fn lettre_mailbox_error(text: Seq<char>) -> Option<Seq<char>> {
    match lettre_mailbox(text) {
        Ok(_) => None,
        Err(t) => Some(t),
    }
}

/// The mailbox that `text` parses as (meaningful where it parses).
pub open spec fn mbox(text: Seq<char>) -> lettre::message::Mailbox {
    lettre_mailbox(text)->Ok_0
}

/// The mailboxes the texts of `list` parse as.
pub open spec fn mboxes(list: Seq<Seq<char>>) -> Seq<lettre::message::Mailbox> {
    list.map_values(|t: Seq<char>| mbox(t))
}

/// The display texts of mailboxes `ms`.
pub open spec fn mailbox_texts(ms: Seq<lettre::message::Mailbox>) -> Seq<Seq<char>> {
    ms.map_values(|m: lettre::message::Mailbox| lettre_mailbox_text(m))
}

/// The raw value of a header holding mailboxes `ms`: their texts joined by `, `.
pub open spec fn mailboxes_value(ms: Seq<lettre::message::Mailbox>) -> Seq<char> {
    join(mailbox_texts(ms), ", "@)
}

/// The view of a parse outcome.
pub open spec fn mailbox_view(r: Result<lettre::message::Mailbox, String>) -> Result<
    lettre::message::Mailbox,
    Seq<char>,
> {
    match r {
        Ok(m) => Ok(m),
        Err(e) => Err(e@),
    }
}

/// Parses `text` as a `lettre::message::Mailbox`; the contract ties the outcome to
/// [`lettre_mailbox`].
#[verifier::external_body]
fn parse_mailbox(text: &str) -> (r: Result<lettre::message::Mailbox, String>)
    ensures
        mailbox_view(r) == lettre_mailbox(text@),
{
    match text.parse::<lettre::message::Mailbox>() {
        Ok(m) => Ok(m),
        Err(e) => Err(e.to_string()),
    }
}

/// `lettre::Message::builder().from(from)`: a new builder whose only header is `From`,
/// the display text of `from` (`MessageBuilder::new` has no headers).
#[verifier::external_body]
fn builder_from(from: lettre::message::Mailbox) -> (r: lettre::message::MessageBuilder)
    ensures
        r == lettre_builder_from(from),
        forall|f: HeaderField| #[trigger]
            lettre_builder_header(r, field_name(f)) == if f == HeaderField::From {
                Some(lettre_mailbox_text(from))
            } else {
                None
            },
{
    lettre::Message::builder().from(from)
}

/// `MessageBuilder::mailbox` with a `To` header of the mailboxes `ms`. Where `b` has no
/// `To`, the header is set to the mailboxes' texts joined by `, ` (`Mailboxes` displays
/// so) and the other headers stay.
#[verifier::external_body]
fn builder_to_all(
    b: lettre::message::MessageBuilder,
    ms: Vec<lettre::message::Mailbox>,
) -> (r: lettre::message::MessageBuilder)
    ensures
        r == lettre_to_all(b, ms@),
        lettre_builder_header(b, field_name(HeaderField::To)) is None ==> forall|f: HeaderField|
            #[trigger] lettre_builder_header(r, field_name(f)) == if f == HeaderField::To {
                Some(mailboxes_value(ms@))
            } else {
                lettre_builder_header(b, field_name(f))
            },
{
    b.mailbox(lettre::message::header::To::from(lettre::message::Mailboxes::from(ms)))
}

/// `MessageBuilder::mailbox` with a `Cc` header of the mailboxes `ms`, as
/// [`builder_to_all`] for `To`.
#[verifier::external_body]
fn builder_cc_all(
    b: lettre::message::MessageBuilder,
    ms: Vec<lettre::message::Mailbox>,
) -> (r: lettre::message::MessageBuilder)
    ensures
        r == lettre_cc_all(b, ms@),
        lettre_builder_header(b, field_name(HeaderField::Cc)) is None ==> forall|f: HeaderField|
            #[trigger] lettre_builder_header(r, field_name(f)) == if f == HeaderField::Cc {
                Some(mailboxes_value(ms@))
            } else {
                lettre_builder_header(b, field_name(f))
            },
{
    b.mailbox(lettre::message::header::Cc::from(lettre::message::Mailboxes::from(ms)))
}

/// `MessageBuilder::mailbox` with a `Bcc` header of the mailboxes `ms`, as
/// [`builder_to_all`] for `To`.
#[verifier::external_body]
fn builder_bcc_all(
    b: lettre::message::MessageBuilder,
    ms: Vec<lettre::message::Mailbox>,
) -> (r: lettre::message::MessageBuilder)
    ensures
        r == lettre_bcc_all(b, ms@),
        lettre_builder_header(b, field_name(HeaderField::Bcc)) is None ==> forall|f: HeaderField|
            #[trigger] lettre_builder_header(r, field_name(f)) == if f == HeaderField::Bcc {
                Some(mailboxes_value(ms@))
            } else {
                lettre_builder_header(b, field_name(f))
            },
{
    b.mailbox(lettre::message::header::Bcc::from(lettre::message::Mailboxes::from(ms)))
}

/// `MessageBuilder::subject`: sets `Subject` to `subject`; the other headers stay.
#[verifier::external_body]
fn builder_subject(b: lettre::message::MessageBuilder, subject: &str) -> (r: lettre::message::MessageBuilder)
    ensures
        r == lettre_subject(b, subject@),
        forall|f: HeaderField| #[trigger]
            lettre_builder_header(r, field_name(f)) == if f == HeaderField::Subject {
                Some(subject@)
            } else {
                lettre_builder_header(b, field_name(f))
            },
{
    b.subject(subject)
}

/// `MessageBuilder::reply_to`: where `b` has no `Reply-To`, sets it to the display text
/// of `mbox`; the other headers stay.
#[verifier::external_body]
fn builder_reply_to(
    b: lettre::message::MessageBuilder,
    mbox: lettre::message::Mailbox,
) -> (r: lettre::message::MessageBuilder)
    ensures
        r == lettre_reply_to(b, mbox),
        lettre_builder_header(b, field_name(HeaderField::ReplyTo)) is None ==> forall|
            f: HeaderField,
        | #[trigger]
            lettre_builder_header(r, field_name(f)) == if f == HeaderField::ReplyTo {
                Some(lettre_mailbox_text(mbox))
            } else {
                lettre_builder_header(b, field_name(f))
            },
{
    b.reply_to(mbox)
}

/// `MessageBuilder::in_reply_to`: sets `In-Reply-To` to `id`; the other headers stay.
#[verifier::external_body]
fn builder_in_reply_to(b: lettre::message::MessageBuilder, id: String) -> (r: lettre::message::MessageBuilder)
    ensures
        r == lettre_in_reply_to(b, id@),
        forall|f: HeaderField| #[trigger]
            lettre_builder_header(r, field_name(f)) == if f == HeaderField::InReplyTo {
                Some(id@)
            } else {
                lettre_builder_header(b, field_name(f))
            },
{
    b.in_reply_to(id)
}

/// `MessageBuilder::references`: sets `References` to `id`; the other headers stay.
#[verifier::external_body]
fn builder_references(b: lettre::message::MessageBuilder, id: String) -> (r: lettre::message::MessageBuilder)
    ensures
        r == lettre_references(b, id@),
        forall|f: HeaderField| #[trigger]
            lettre_builder_header(r, field_name(f)) == if f == HeaderField::References {
                Some(id@)
            } else {
                lettre_builder_header(b, field_name(f))
            },
{
    b.references(id)
}

/// The error text of a build outcome, `None` when a message was built.
pub open spec fn build_error(r: Result<lettre::Message, String>) -> Option<Seq<char>> {
    match r {
        Ok(_) => None,
        Err(e) => Some(e@),
    }
}

/// The `Content-Type` of a `text/plain` part.
pub open spec fn text_plain() -> Seq<char> {
    "text/plain; charset=utf-8"@
}

/// The `Content-Type` of a `text/html` part.
pub open spec fn text_html() -> Seq<char> {
    "text/html; charset=utf-8"@
}

/// `MessageBuilder::multipart` with a `multipart/alternative` of a `text/plain` part
/// `text` and a `text/html` part `html`; on failure the error's text. The message also
/// carries a date and a part boundary of the moment, which are not stated.
#[verifier::external_body]
fn build_alternative(
    b: lettre::message::MessageBuilder,
    text: String,
    html: String,
) -> (r: Result<lettre::Message, String>)
    ensures
        build_error(r) == lettre_multipart_error(b, text@, html@),
        r matches Ok(m) ==> (forall|f: HeaderField|
            f != HeaderField::Bcc ==> #[trigger] lettre_message_header(m, field_name(f))
                == lettre_builder_header(b, field_name(f))) && lettre_message_body(m) == (
            "alternative"@,
            seq![(text_plain(), text@), (text_html(), html@)],
        ),
{
    let plain = lettre::message::SinglePart::builder().content_type(
        lettre::message::header::ContentType::TEXT_PLAIN,
    ).body(text);
    let rich = lettre::message::SinglePart::builder().content_type(
        lettre::message::header::ContentType::TEXT_HTML,
    ).body(html);
    match b.multipart(lettre::message::MultiPart::alternative().singlepart(plain).singlepart(rich)) {
        Ok(m) => Ok(m),
        Err(e) => Err(e.to_string()),
    }
}

/// `MessageBuilder::body` with a plain text body; on failure the error's text. The
/// message also carries a date of the moment, which is not stated.
#[verifier::external_body]
fn build_plain(b: lettre::message::MessageBuilder, text: String) -> (r: Result<lettre::Message, String>)
    ensures
        build_error(r) == lettre_body_error(b, text@),
        r matches Ok(m) ==> (forall|f: HeaderField|
            f != HeaderField::Bcc ==> #[trigger] lettre_message_header(m, field_name(f))
                == lettre_builder_header(b, field_name(f))) && lettre_message_body(m) == (
            Seq::<char>::empty(),
            seq![(Seq::<char>::empty(), text@)],
        ),
{
    match b.body(text) {
        Ok(m) => Ok(m),
        Err(e) => Err(e.to_string()),
    }
}

/// `MessageBuilder::singlepart` with a `text/html` part; on failure the error's text.
/// The message also carries a date of the moment, which is not stated.
#[verifier::external_body]
fn build_html(b: lettre::message::MessageBuilder, html: String) -> (r: Result<lettre::Message, String>)
    ensures
        build_error(r) == lettre_singlepart_error(b, html@),
        r matches Ok(m) ==> (forall|f: HeaderField|
            f != HeaderField::Bcc ==> #[trigger] lettre_message_header(m, field_name(f))
                == lettre_builder_header(b, field_name(f))) && lettre_message_body(m) == (
            Seq::<char>::empty(),
            seq![(text_html(), html@)],
        ),
{
    let part = lettre::message::SinglePart::builder().content_type(
        lettre::message::header::ContentType::TEXT_HTML,
    ).body(html);
    match b.singlepart(part) {
        Ok(m) => Ok(m),
        Err(e) => Err(e.to_string()),
    }
}

/// The first address of `list` that does not parse, with its error's text.
pub open spec fn first_bad_address(list: Seq<Seq<char>>) -> Option<(Seq<char>, Seq<char>)>
    decreases list.len(),
{
    if list.len() == 0 {
        None
    } else {
        match lettre_mailbox_error(list[0]) {
            Some(t) => Some((list[0], t)),
            None => first_bad_address(list.drop_first()),
        }
    }
}

/// The error for an address of field `label` that does not parse.
pub open spec fn address_error(label: Seq<char>, bad: (Seq<char>, Seq<char>)) -> (
    ErrorKind,
    Seq<char>,
) {
    (ErrorKind::InvalidInput, "invalid "@ + label + " address '"@ + bad.0 + "': "@ + bad.1)
}

/// The first address of a composition that does not parse, in the order `From`, `To`,
/// `Cc`, `Bcc`, `Reply-To`, as the error it is reported with.
pub open spec fn composition_address_error(c: CompositionView) -> Option<(ErrorKind, Seq<char>)> {
    match lettre_mailbox_error(c.from) {
        Some(t) => Some(address_error("From"@, (c.from, t))),
        None => match first_bad_address(c.to) {
            Some(b) => Some(address_error("To"@, b)),
            None => match first_bad_address(c.cc) {
                Some(b) => Some(address_error("Cc"@, b)),
                None => match first_bad_address(c.bcc) {
                    Some(b) => Some(address_error("Bcc"@, b)),
                    None => match c.reply_to {
                        Some(r) => match lettre_mailbox_error(r) {
                            Some(t) => Some(address_error("Reply-To"@, (r, t))),
                            None => None,
                        },
                        None => None,
                    },
                },
            },
        },
    }
}

/// The error of a bad address.
fn bad_address(label: &str, addr: &str, detail: &str) -> (r: AppError)
    ensures
        r@ == address_error(label@, (addr@, detail@)),
{
    let mut msg = concat3("invalid ", label, " address '");
    msg.append(addr);
    msg.append("': ");
    msg.append(detail);
    AppError::InvalidInput(msg)
}

/// Which recipient field a list of addresses fills.
pub enum RecipientField {
    To,
    Cc,
    Bcc,
}

/// Builder `b` with the mailboxes of `list` set as field `f`; unchanged for no addresses.
pub open spec fn add_list(
    b: lettre::message::MessageBuilder,
    list: Seq<Seq<char>>,
    f: RecipientField,
) -> lettre::message::MessageBuilder {
    if list.len() == 0 {
        b
    } else {
        match f {
            RecipientField::To => lettre_to_all(b, mboxes(list)),
            RecipientField::Cc => lettre_cc_all(b, mboxes(list)),
            RecipientField::Bcc => lettre_bcc_all(b, mboxes(list)),
        }
    }
}

/// The header field a recipient field fills.
pub open spec fn recipient_header(f: RecipientField) -> HeaderField {
    match f {
        RecipientField::To => HeaderField::To,
        RecipientField::Cc => HeaderField::Cc,
        RecipientField::Bcc => HeaderField::Bcc,
    }
}

/// The value of a header listing the mailboxes of `list`; none for no addresses.
pub open spec fn list_header(list: Seq<Seq<char>>) -> Option<Seq<char>> {
    if list.len() == 0 {
        None
    } else {
        Some(mailboxes_value(mboxes(list)))
    }
}

/// The builder of a composition whose addresses all parse: `From`, then `To`, `Cc` and
/// `Bcc`, `Subject`, and the `Reply-To`, `In-Reply-To` and `References` it has.
pub open spec fn builder_of(c: CompositionView) -> lettre::message::MessageBuilder {
    let b = add_list(
        add_list(add_list(lettre_builder_from(mbox(c.from)), c.to, RecipientField::To), c.cc, RecipientField::Cc),
        c.bcc,
        RecipientField::Bcc,
    );
    let b = lettre_subject(b, c.subject);
    let b = match c.reply_to {
        Some(r) => lettre_reply_to(b, mbox(r)),
        None => b,
    };
    let b = match c.in_reply_to {
        Some(i) => lettre_in_reply_to(b, i),
        None => b,
    };
    match c.references {
        Some(x) => lettre_references(b, x),
        None => b,
    }
}

/// The value of header `f` of the message of composition `c`: `From` and `Reply-To` the
/// display text of their mailbox, `To`, `Cc` and `Bcc` the texts of their mailboxes joined
/// by `, ` (absent for no addresses), and `Subject`, `In-Reply-To` and `References` as
/// given.
pub open spec fn composition_header(c: CompositionView, f: HeaderField) -> Option<Seq<char>> {
    match f {
        HeaderField::From => Some(lettre_mailbox_text(mbox(c.from))),
        HeaderField::To => list_header(c.to),
        HeaderField::Cc => list_header(c.cc),
        HeaderField::Bcc => list_header(c.bcc),
        HeaderField::Subject => Some(c.subject),
        HeaderField::ReplyTo => match c.reply_to {
            Some(r) => Some(lettre_mailbox_text(mbox(r))),
            None => None,
        },
        HeaderField::InReplyTo => c.in_reply_to,
        HeaderField::References => c.references,
    }
}

/// Builder `b` holds the headers of composition `c` up to (and without) field `upto` of
/// the order `From`, `To`, `Cc`, `Bcc`, `Subject`, `Reply-To`, `In-Reply-To`,
/// `References`, and no other.
pub open spec fn holds_until(b: lettre::message::MessageBuilder, c: CompositionView, upto: nat) -> bool {
    forall|f: HeaderField| #[trigger]
        lettre_builder_header(b, field_name(f)) == if field_rank(f) < upto {
            composition_header(c, f)
        } else {
            None
        }
}

/// The place of a header field in the order the builder sets them.
pub open spec fn field_rank(f: HeaderField) -> nat {
    match f {
        HeaderField::From => 0,
        HeaderField::To => 1,
        HeaderField::Cc => 2,
        HeaderField::Bcc => 3,
        HeaderField::Subject => 4,
        HeaderField::ReplyTo => 5,
        HeaderField::InReplyTo => 6,
        HeaderField::References => 7,
    }
}

/// The place of a recipient field in that order.
pub open spec fn recipient_rank(f: RecipientField) -> nat {
    field_rank(recipient_header(f))
}

/// Add the addresses of `list` as field `field` of the message being built; the first
/// that does not parse is the error.
fn add_recipients(
    b: lettre::message::MessageBuilder,
    list: &Vec<String>,
    field: RecipientField,
    label: &str,
    Ghost(c): Ghost<CompositionView>,
) -> (r: AppResult<lettre::message::MessageBuilder>)
    requires
        holds_until(b, c, recipient_rank(field)),
        list_header(strings_view(list@)) == composition_header(c, recipient_header(field)),
    ensures
        match first_bad_address(strings_view(list@)) {
            Some(bad) => r matches Err(e) && e@ == address_error(label@, bad),
            None => r matches Ok(x) && x == add_list(b, strings_view(list@), field) && holds_until(
                x,
                c,
                recipient_rank(field) + 1,
            ),
        },
{
    let ghost all = strings_view(list@);
    let mut ms: Vec<lettre::message::Mailbox> = Vec::new();
    let mut i: usize = 0;
    proof {
        assert(all.subrange(0, all.len() as int) == all);
    }
    while i < list.len()
        invariant
            i <= list@.len(),
            all == strings_view(list@),
            first_bad_address(all) == first_bad_address(all.subrange(i as int, all.len() as int)),
            ms@ =~= mboxes(all.subrange(0, i as int)),
        decreases list.len() - i,
    {
        proof {
            assert(all.subrange(i as int, all.len() as int).drop_first() == all.subrange(
                i + 1,
                all.len() as int,
            ));
            assert(all.subrange(i as int, all.len() as int)[0] == list@[i as int]@);
        }
        let m = match parse_mailbox(list[i].as_str()) {
            Ok(m) => m,
            Err(t) => {
                return Err(bad_address(label, list[i].as_str(), t.as_str()));
            },
        };
        ms.push(m);
        proof {
            assert(all[i as int] == list@[i as int]@);
        }
        i = i + 1;
    }
    proof {
        assert(all.subrange(all.len() as int, all.len() as int) =~= Seq::<Seq<char>>::empty());
        assert(all.subrange(0, i as int) =~= all);
    }
    if ms.len() == 0 {
        proof {
            assert forall|f: HeaderField| #[trigger]
                lettre_builder_header(b, field_name(f)) == if field_rank(f) < recipient_rank(field) + 1 {
                    composition_header(c, f)
                } else {
                    None
                } by {
                if f == recipient_header(field) {
                }
            }
        }
        return Ok(b);
    }
    let r = match field {
        RecipientField::To => builder_to_all(b, ms),
        RecipientField::Cc => builder_cc_all(b, ms),
        RecipientField::Bcc => builder_bcc_all(b, ms),
    };
    proof {
        assert(lettre_builder_header(b, field_name(recipient_header(field))) is None);
        assert forall|f: HeaderField| #[trigger]
            lettre_builder_header(r, field_name(f)) == if field_rank(f) < recipient_rank(field) + 1 {
                composition_header(c, f)
            } else {
                None
            } by {
            assert(lettre_builder_header(b, field_name(f)) == if field_rank(f) < recipient_rank(field) {
                composition_header(c, f)
            } else {
                None
            });
        }
    }
    Ok(r)
}

/// The view of a builder outcome.
pub open spec fn builder_result_view(r: AppResult<lettre::message::MessageBuilder>) -> Result<
    lettre::message::MessageBuilder,
    (ErrorKind, Seq<char>),
> {
    match r {
        Ok(b) => Ok(b),
        Err(e) => Err(e@),
    }
}

/// What preparing the message of `c` yields: the first address that does not parse as
/// its error, otherwise [`builder_of`].
pub open spec fn message_builder_of(c: CompositionView) -> Result<
    lettre::message::MessageBuilder,
    (ErrorKind, Seq<char>),
> {
    match composition_address_error(c) {
        Some(e) => Err(e),
        None => Ok(builder_of(c)),
    }
}

/// Prepare the message of a composition: parse its addresses and set `From`, the
/// recipients, the subject, and the optional `Reply-To`, `In-Reply-To` and `References`
/// headers. An address that does not parse is an `InvalidInput` error naming the field
/// and the address. The builder holds exactly the headers of [`composition_header`].
pub fn message_builder(comp: &EmailComposition) -> (r: AppResult<lettre::message::MessageBuilder>)
    ensures
        builder_result_view(r) == message_builder_of(comp@),
        r matches Ok(b) ==> forall|f: HeaderField| #[trigger]
            lettre_builder_header(b, field_name(f)) == composition_header(comp@, f),
{
    let ghost c = comp@;
    let from = match parse_mailbox(comp.from.as_str()) {
        Ok(m) => m,
        Err(t) => {
            return Err(bad_address("From", comp.from.as_str(), t.as_str()));
        },
    };
    let builder = builder_from(from);
    proof {
        assert(holds_until(builder, c, 1));
    }
    let builder = match add_recipients(builder, &comp.to, RecipientField::To, "To", Ghost(c)) {
        Ok(b) => b,
        Err(e) => {
            return Err(e);
        },
    };
    let builder = match add_recipients(builder, &comp.cc, RecipientField::Cc, "Cc", Ghost(c)) {
        Ok(b) => b,
        Err(e) => {
            return Err(e);
        },
    };
    let builder = match add_recipients(builder, &comp.bcc, RecipientField::Bcc, "Bcc", Ghost(c)) {
        Ok(b) => b,
        Err(e) => {
            return Err(e);
        },
    };
    let mut builder = builder_subject(builder, comp.subject.as_str());
    proof {
        assert(holds_until(builder, c, 5));
    }
    if let Some(reply_to) = &comp.reply_to {
        let mbox = match parse_mailbox(reply_to.as_str()) {
            Ok(m) => m,
            Err(t) => {
                return Err(bad_address("Reply-To", reply_to.as_str(), t.as_str()));
            },
        };
        assert(lettre_builder_header(builder, field_name(HeaderField::ReplyTo)) is None);
        builder = builder_reply_to(builder, mbox);
    }
    proof {
        assert(holds_until(builder, c, 6));
    }
    if let Some(in_reply_to) = &comp.in_reply_to {
        builder = builder_in_reply_to(builder, in_reply_to.clone());
    }
    proof {
        assert(holds_until(builder, c, 7));
    }
    if let Some(references) = &comp.references {
        builder = builder_references(builder, references.clone());
    }
    proof {
        assert(holds_until(builder, c, 8));
    }
    Ok(builder)
}

/// The body a composition is sent with.
#[derive(PartialEq, Eq, Debug, Clone, Copy, Structural)]
pub enum BodyKind {
    /// `multipart/alternative` of the text and the HTML body.
    Alternative,
    /// The text body.
    Plain,
    /// A `text/html` part.
    Html,
    /// An empty text body.
    Empty,
}

/// The body kind of a composition: alternative when it has both a text and an HTML body,
/// the one it has otherwise, empty when it has neither.
pub open spec fn body_kind_of(c: CompositionView) -> BodyKind {
    match (c.body_text, c.body_html) {
        (Some(_), Some(_)) => BodyKind::Alternative,
        (Some(_), None) => BodyKind::Plain,
        (None, Some(_)) => BodyKind::Html,
        (None, None) => BodyKind::Empty,
    }
}

/// The body kind of a composition.
pub fn body_kind(comp: &EmailComposition) -> (r: BodyKind)
    ensures
        r == body_kind_of(comp@),
{
    match (&comp.body_text, &comp.body_html) {
        (Some(_), Some(_)) => BodyKind::Alternative,
        (Some(_), None) => BodyKind::Plain,
        (None, Some(_)) => BodyKind::Html,
        (None, None) => BodyKind::Empty,
    }
}

/// The body of the message of composition `c`: a `multipart/alternative` of its text and
/// HTML bodies, its text body, a `text/html` part of its HTML body, or an empty text body.
pub open spec fn composition_body(c: CompositionView) -> (Seq<char>, Seq<(Seq<char>, Seq<char>)>) {
    match body_kind_of(c) {
        BodyKind::Alternative => (
            "alternative"@,
            seq![(text_plain(), c.body_text->Some_0), (text_html(), c.body_html->Some_0)],
        ),
        BodyKind::Plain => (Seq::empty(), seq![(Seq::empty(), c.body_text->Some_0)]),
        BodyKind::Html => (Seq::empty(), seq![(text_html(), c.body_html->Some_0)]),
        BodyKind::Empty => (Seq::empty(), seq![(Seq::empty(), Seq::empty())]),
    }
}

/// The error for a body the builder refuses with text `t`.
pub open spec fn body_failure(prefix: Seq<char>, e: Option<Seq<char>>) -> Result<(), (ErrorKind, Seq<char>)> {
    match e {
        None => Ok(()),
        Some(t) => Err((ErrorKind::Internal, prefix + t)),
    }
}

/// What building the message of `c` yields, the message itself left aside: the address
/// error, or whether the builder of [`builder_of`] accepts the body of [`body_kind_of`].
pub open spec fn build_outcome(c: CompositionView) -> Result<(), (ErrorKind, Seq<char>)> {
    match composition_address_error(c) {
        Some(e) => Err(e),
        None => {
            let b = builder_of(c);
            match body_kind_of(c) {
                BodyKind::Alternative => body_failure(
                    "failed to build multipart message: "@,
                    lettre_multipart_error(b, c.body_text->Some_0, c.body_html->Some_0),
                ),
                BodyKind::Plain => body_failure(
                    "failed to build text message: "@,
                    lettre_body_error(b, c.body_text->Some_0),
                ),
                BodyKind::Html => body_failure(
                    "failed to build HTML message: "@,
                    lettre_singlepart_error(b, c.body_html->Some_0),
                ),
                BodyKind::Empty => body_failure(
                    "failed to build empty message: "@,
                    lettre_body_error(b, Seq::empty()),
                ),
            }
        },
    }
}

/// The view of a message outcome, the message itself left aside.
pub open spec fn message_result_view(r: AppResult<lettre::Message>) -> Result<(), (ErrorKind, Seq<char>)> {
    match r {
        Ok(_) => Ok(()),
        Err(e) => Err(e@),
    }
}

/// Build the message of a composition: the builder of [`message_builder`], then a
/// `multipart/alternative` body when both a text and an HTML body are given, the one
/// body given otherwise, or an empty text body. A body the builder refuses is an
/// `Internal` error. The message built has the headers of [`composition_header`] (but
/// `Bcc`, which only its envelope keeps) and the body of [`composition_body`].
pub fn build_message(comp: &EmailComposition) -> (r: AppResult<lettre::Message>)
    ensures
        message_result_view(r) == build_outcome(comp@),
        r matches Ok(m) ==> (forall|f: HeaderField|
            f != HeaderField::Bcc ==> #[trigger] lettre_message_header(m, field_name(f))
                == composition_header(comp@, f)) && lettre_message_body(m) == composition_body(
            comp@,
        ),
{
    let builder = match message_builder(comp) {
        Ok(b) => b,
        Err(e) => {
            return Err(e);
        },
    };
    let ghost b = builder;
    let r = match (&comp.body_text, &comp.body_html) {
        (Some(text), Some(html)) => match build_alternative(builder, text.clone(), html.clone()) {
            Ok(m) => Ok(m),
            Err(t) => Err(AppError::Internal(concat2("failed to build multipart message: ", t.as_str()))),
        },
        (Some(text), None) => match build_plain(builder, text.clone()) {
            Ok(m) => Ok(m),
            Err(t) => Err(AppError::Internal(concat2("failed to build text message: ", t.as_str()))),
        },
        (None, Some(html)) => match build_html(builder, html.clone()) {
            Ok(m) => Ok(m),
            Err(t) => Err(AppError::Internal(concat2("failed to build HTML message: ", t.as_str()))),
        },
        (None, None) => match build_plain(builder, String::new()) {
            Ok(m) => Ok(m),
            Err(t) => Err(AppError::Internal(concat2("failed to build empty message: ", t.as_str()))),
        },
    };
    r
}

} // verus!
