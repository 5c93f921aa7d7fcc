//! Sending mail through the Microsoft Graph API (`POST /me/sendMail`): the request
//! body and the reading of the response.
use vstd::prelude::*;
use vstd::string::*;

use crate::config::opt_string_view;
use crate::errors::{AppError, AppResult, ErrorKind};
use crate::text::{concat2, strings_view};

verus! {

/// The URL of the `sendMail` endpoint of the Microsoft Graph API.
pub fn send_mail_url() -> (r: &'static str)
    ensures
        r@ == "https://graph.microsoft.com/v1.0/me/sendMail"@,
{
    "https://graph.microsoft.com/v1.0/me/sendMail"
}

/// An email address of a Graph recipient.
pub struct GraphEmailAddress {
    pub address: String,
}

/// A recipient of a Graph message.
pub struct GraphRecipient {
    pub email_address: GraphEmailAddress,
}

/// The body of a Graph message: `Text` or `HTML` content.
pub struct GraphBody {
    pub content_type: String,
    pub content: String,
}

/// An extra internet message header of a Graph message.
pub struct GraphHeader {
    pub name: String,
    pub value: String,
}

/// A Graph message.
pub struct GraphMessage {
    pub subject: String,
    pub body: GraphBody,
    pub to_recipients: Vec<GraphRecipient>,
    pub cc_recipients: Vec<GraphRecipient>,
    pub bcc_recipients: Vec<GraphRecipient>,
    pub reply_to: Option<Vec<GraphRecipient>>,
    pub in_reply_to: Option<String>,
    pub internet_message_headers: Option<Vec<GraphHeader>>,
}

/// The body of a `sendMail` request.
pub struct SendMailRequest {
    pub message: GraphMessage,
    pub save_to_sent_items: bool,
}

/// Parameters for sending an email via Microsoft Graph.
pub struct GraphEmailParams {
    pub to: Vec<String>,
    pub cc: Vec<String>,
    pub bcc: Vec<String>,
    pub subject: String,
    pub body_text: Option<String>,
    pub body_html: Option<String>,
    pub reply_to: Option<String>,
    pub in_reply_to: Option<String>,
    pub references: Option<String>,
    pub save_to_sent: bool,
}

/// The recipient with address `addr`.
pub fn recipient(addr: &str) -> (r: GraphRecipient)
    ensures
        r.email_address.address@ == addr@,
{
    GraphRecipient { email_address: GraphEmailAddress { address: String::from_str(addr) } }
}

/// The addresses of a list of recipients.
pub open spec fn recipient_addresses(rs: Seq<GraphRecipient>) -> Seq<Seq<char>> {
    rs.map_values(|r: GraphRecipient| r.email_address.address@)
}

/// The recipients with addresses `addrs`, in order.
pub fn recipients(addrs: &[String]) -> (r: Vec<GraphRecipient>)
    ensures
        recipient_addresses(r@) == strings_view(addrs@),
{
    let mut out: Vec<GraphRecipient> = Vec::new();
    let mut i: usize = 0;
    while i < addrs.len()
        invariant
            i <= addrs@.len(),
            recipient_addresses(out@) == strings_view(addrs@).take(i as int),
        decreases addrs.len() - i,
    {
        let ghost before = out@;
        let item = recipient(addrs[i].as_str());
        out.push(item);
        proof {
            assert(recipient_addresses(out@) =~= recipient_addresses(before).push(
                item.email_address.address@,
            ));
            assert(strings_view(addrs@).take(i + 1) =~= strings_view(addrs@).take(i as int).push(
                addrs@[i as int]@,
            ));
        }
        i = i + 1;
    }
    proof {
        assert(strings_view(addrs@).take(addrs@.len() as int) == strings_view(addrs@));
    }
    out
}

/// The body type and content of a Graph message: the HTML body when given, else the
/// text body, else empty text.
pub open spec fn graph_body_of(html: Option<Seq<char>>, text: Option<Seq<char>>) -> (
    Seq<char>,
    Seq<char>,
) {
    match html {
        Some(h) => ("HTML"@, h),
        None => match text {
            Some(t) => ("Text"@, t),
            None => ("Text"@, Seq::empty()),
        },
    }
}

/// Build the `sendMail` request for `params`: the body as [`graph_body_of`] chooses,
/// the recipients in order, the reply-to address as the only reply-to recipient, and a
/// `References` header when references are given.
pub fn build_send_mail_request(params: &GraphEmailParams) -> (r: SendMailRequest)
    ensures
        r.message.subject@ == params.subject@,
        (r.message.body.content_type@, r.message.body.content@) == graph_body_of(
            opt_string_view(params.body_html),
            opt_string_view(params.body_text),
        ),
        recipient_addresses(r.message.to_recipients@) == strings_view(params.to@),
        recipient_addresses(r.message.cc_recipients@) == strings_view(params.cc@),
        recipient_addresses(r.message.bcc_recipients@) == strings_view(params.bcc@),
        match params.reply_to {
            Some(a) => r.message.reply_to matches Some(v) && recipient_addresses(v@) == seq![a@],
            None => r.message.reply_to is None,
        },
        opt_string_view(r.message.in_reply_to) == opt_string_view(params.in_reply_to),
        match params.references {
            Some(refs) => r.message.internet_message_headers matches Some(h) && h@.len() == 1
                && h@[0].name@ == "References"@ && h@[0].value@ == refs@,
            None => r.message.internet_message_headers is None,
        },
        r.save_to_sent_items == params.save_to_sent,
{
    let body = match &params.body_html {
        Some(h) => GraphBody { content_type: String::from_str("HTML"), content: h.clone() },
        None => match &params.body_text {
            Some(t) => GraphBody { content_type: String::from_str("Text"), content: t.clone() },
            None => GraphBody { content_type: String::from_str("Text"), content: String::new() },
        },
    };
    let headers = match &params.references {
        Some(refs) => {
            let mut h: Vec<GraphHeader> = Vec::new();
            h.push(GraphHeader { name: String::from_str("References"), value: refs.clone() });
            Some(h)
        },
        None => None,
    };
    let reply_to = match &params.reply_to {
        Some(a) => {
            let mut v: Vec<GraphRecipient> = Vec::new();
            let item = recipient(a.as_str());
            v.push(item);
            proof {
                assert(recipient_addresses(v@) =~= seq![a@]);
            }
            Some(v)
        },
        None => None,
    };
    let in_reply_to = match &params.in_reply_to {
        Some(s) => Some(s.clone()),
        None => None,
    };
    proof {
        assert(""@ == Seq::<char>::empty()) by {
            reveal_strlit("");
        }
    }
    SendMailRequest {
        message: GraphMessage {
            subject: params.subject.clone(),
            body,
            to_recipients: recipients(params.to.as_slice()),
            cc_recipients: recipients(params.cc.as_slice()),
            bcc_recipients: recipients(params.bcc.as_slice()),
            reply_to,
            in_reply_to,
            internet_message_headers: headers,
        },
        save_to_sent_items: params.save_to_sent,
    }
}

/// The outcome of a `sendMail` response with HTTP status `code` (shown as `status`)
/// and body `body`: success for 2xx, an authentication failure for 401 and 403, invalid
/// input for 400 (the reply Graph gives to a message it refuses, such as one with
/// malformed addresses), an internal error otherwise.
pub open spec fn send_outcome(code: u16, status: Seq<char>, body: Seq<char>) -> Result<
    (),
    (ErrorKind, Seq<char>),
> {
    if 200 <= code <= 299 {
        Ok(())
    } else if code == 401 || code == 403 {
        Err(
            (
                ErrorKind::AuthFailed,
                "Graph API authentication failed ("@ + status + "): "@ + body,
            ),
        )
    } else if code == 400 {
        Err((ErrorKind::InvalidInput, "Graph API rejected the message ("@ + status + "): "@ + body))
    } else {
        Err((ErrorKind::Internal, "Graph API sendMail failed ("@ + status + "): "@ + body))
    }
}

/// Read a `sendMail` response with HTTP status `code`, shown as `status` (such as
/// `401 Unauthorized`), and body `body`.
pub fn read_send_response(code: u16, status: &str, body: &str) -> (r: AppResult<()>)
    ensures
        crate::validate::outcome(r) == send_outcome(code, status@, body@),
{
    if 200 <= code && code <= 299 {
        return Ok(());
    }
    let mut msg = if code == 401 || code == 403 {
        concat2("Graph API authentication failed (", status)
    } else if code == 400 {
        concat2("Graph API rejected the message (", status)
    } else {
        concat2("Graph API sendMail failed (", status)
    };
    msg.append("): ");
    msg.append(body);
    if code == 401 || code == 403 {
        Err(AppError::AuthFailed(msg))
    } else if code == 400 {
        Err(AppError::InvalidInput(msg))
    } else {
        Err(AppError::Internal(msg))
    }
}

/// The error for a `sendMail` request that could not be sent.
pub fn request_failed(detail: &str) -> (r: AppError)
    ensures
        r@ == (ErrorKind::Internal, "Graph API request failed: "@ + detail@),
{
    AppError::Internal(concat2("Graph API request failed: ", detail))
}

} // verus!
