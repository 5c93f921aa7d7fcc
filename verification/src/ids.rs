//! Message identifiers: validation against the requested account, bulk identifier
//! lists, and IMAP UID sets.
use vstd::prelude::*;
use vstd::string::*;

use crate::errors::{invalid_view, AppError, AppResult, ErrorKind};
use crate::text::{decimal, decimal_u64, join};
use crate::validate::{mailbox_check, validate_mailbox};

verus! {

/// A stable message identifier: the account, mailbox, mailbox UIDVALIDITY and UID
/// that locate a message.
#[derive(Debug)]
pub struct MessageId {
    pub account_id: String,
    pub mailbox: String,
    pub uidvalidity: u32,
    pub uid: u32,
}

/// The plain values of a [`MessageId`].
pub struct MessageIdView {
    pub account_id: Seq<char>,
    pub mailbox: Seq<char>,
    pub uidvalidity: u32,
    pub uid: u32,
}

impl View for MessageId {
    type V = MessageIdView;

    open spec fn view(&self) -> MessageIdView {
        MessageIdView {
            account_id: self.account_id@,
            mailbox: self.mailbox@,
            uidvalidity: self.uidvalidity,
            uid: self.uid,
        }
    }
}

/// The view of the result of parsing a message identifier.
pub open spec fn parsed_view(r: AppResult<MessageId>) -> Result<
    MessageIdView,
    (ErrorKind, Seq<char>),
> {
    match r {
        Ok(m) => Ok(m@),
        Err(e) => Err(e@),
    }
}

/// The outcome of [`parse_and_validate_message_id`] for a parse outcome `parsed`.
pub open spec fn message_id_check(
    account_id: Seq<char>,
    parsed: Result<MessageIdView, (ErrorKind, Seq<char>)>,
) -> Result<MessageIdView, (ErrorKind, Seq<char>)> {
    match parsed {
        Err(e) => Err(e),
        Ok(m) => match mailbox_check(m.mailbox) {
            Err(e) => Err(e),
            Ok(_) => if m.account_id != account_id {
                Err(invalid_view("message_id account does not match account_id"@))
            } else {
                Ok(m)
            },
        },
    }
}

/// Validate a parsed message identifier: the parse must have succeeded, its mailbox must
/// pass [`validate_mailbox`], and it must belong to `account_id`.
pub fn parse_and_validate_message_id(account_id: &str, parsed: AppResult<MessageId>) -> (r:
    AppResult<MessageId>)
    ensures
        parsed_view(r) == message_id_check(account_id@, parsed_view(parsed)),
{
    let msg_id = parsed?;
    validate_mailbox(msg_id.mailbox.as_str())?;
    let acc = String::from_str(account_id);
    if msg_id.account_id != acc {
        return Err(AppError::invalid("message_id account does not match account_id"));
    }
    Ok(msg_id)
}

/// The result of parsing a bulk identifier list: one mailbox, one UIDVALIDITY, and the
/// UIDs in request order.
#[derive(Debug)]
pub struct BulkParsed {
    pub mailbox: String,
    pub uidvalidity: u32,
    pub uids: Vec<u32>,
}

/// The plain values of a [`BulkParsed`].
pub struct BulkView {
    pub mailbox: Seq<char>,
    pub uidvalidity: u32,
    pub uids: Seq<u32>,
}

/// The outcome of [`parse_bulk_message_ids`] on the parse outcomes `ids`, processed in
/// order: the first failure is reported.
pub open spec fn bulk_check(
    account_id: Seq<char>,
    ids: Seq<Result<MessageIdView, (ErrorKind, Seq<char>)>>,
) -> Result<BulkView, (ErrorKind, Seq<char>)>
    decreases ids.len(),
{
    if ids.len() == 0 {
        Err(invalid_view("message_ids must not be empty"@))
    } else if ids.len() == 1 {
        match message_id_check(account_id, ids[0]) {
            Err(e) => Err(e),
            Ok(m) => Ok(BulkView { mailbox: m.mailbox, uidvalidity: m.uidvalidity, uids: seq![m.uid] }),
        }
    } else {
        match bulk_check(account_id, ids.drop_last()) {
            Err(e) => Err(e),
            Ok(b) => match message_id_check(account_id, ids.last()) {
                Err(e) => Err(e),
                Ok(m) => if m.mailbox != b.mailbox {
                    Err(invalid_view("all message_ids must be from the same mailbox"@))
                } else if m.uidvalidity != b.uidvalidity {
                    Err(invalid_view("all message_ids must have the same uidvalidity"@))
                } else {
                    Ok(BulkView { uids: b.uids.push(m.uid), ..b })
                },
            },
        }
    }
}

/// The view of a list of parse outcomes.
pub open spec fn parsed_list_view(ids: Seq<AppResult<MessageId>>) -> Seq<
    Result<MessageIdView, (ErrorKind, Seq<char>)>,
> {
    ids.map_values(|r: AppResult<MessageId>| parsed_view(r))
}

/// The view of the result of [`parse_bulk_message_ids`].
pub open spec fn bulk_view(r: AppResult<BulkParsed>) -> Result<BulkView, (ErrorKind, Seq<char>)> {
    match r {
        Ok(b) => Ok(BulkView { mailbox: b.mailbox@, uidvalidity: b.uidvalidity, uids: b.uids@ }),
        Err(e) => Err(e@),
    }
}

/// Parse and validate a list of message identifiers for a bulk operation. All
/// identifiers must belong to `account_id` and share one mailbox and UIDVALIDITY.
pub fn parse_bulk_message_ids(account_id: &str, parsed_ids: Vec<AppResult<MessageId>>) -> (r:
    AppResult<BulkParsed>)
    requires
        parsed_ids@.len() > 0,
    ensures
        bulk_view(r) == bulk_check(account_id@, parsed_list_view(parsed_ids@)),
{
    let ghost views = parsed_list_view(parsed_ids@);
    let ghost n = parsed_ids@.len();
    let mut mailbox = String::new();
    let mut uidvalidity: u32 = 0;
    let mut uids: Vec<u32> = Vec::new();
    let mut k: usize = 0;
    let total = parsed_ids.len();
    let mut rest = parsed_ids;
    while rest.len() > 0
        invariant
            total == n,
            views == parsed_list_view(parsed_ids@),
            n == views.len(),
            n > 0,
            k + rest@.len() == n,
            forall|j: int|
                0 <= j < rest@.len() ==> parsed_view(#[trigger] rest@[j]) == views[k + j],
            k == 0 ==> uids@.len() == 0,
            k > 0 ==> bulk_check(account_id@, views.take(k as int)) == Ok::<
                BulkView,
                (ErrorKind, Seq<char>),
            >(BulkView { mailbox: mailbox@, uidvalidity: uidvalidity, uids: uids@ }),
        decreases rest.len(),
    {
        let item = rest.remove(0);
        proof {
            assert(parsed_view(item) == views[k as int]);
            assert(views.take(k + 1).drop_last() == views.take(k as int));
            assert(views.take(k + 1).last() == views[k as int]);
            assert(views.take(k + 1).len() == k + 1);
            if k == 0 {
                assert(views.take(1)[0] == views[0]);
            }
        }
        let msg_id = match parse_and_validate_message_id(account_id, item) {
            Ok(m) => m,
            Err(e) => {
                proof {
                    lemma_bulk_prefix_error(account_id@, views, k as int + 1);
                }
                return Err(e);
            },
        };
        if k == 0 {
            mailbox = msg_id.mailbox;
            uidvalidity = msg_id.uidvalidity;
        } else {
            if mailbox != msg_id.mailbox {
                proof {
                    lemma_bulk_prefix_error(account_id@, views, k as int + 1);
                }
                return Err(AppError::invalid("all message_ids must be from the same mailbox"));
            }
            if uidvalidity != msg_id.uidvalidity {
                proof {
                    lemma_bulk_prefix_error(account_id@, views, k as int + 1);
                }
                return Err(AppError::invalid("all message_ids must have the same uidvalidity"));
            }
        }
        let ghost old_uids = uids@;
        uids.push(msg_id.uid);
        proof {
            if k == 0 {
                assert(uids@ == seq![msg_id.uid]);
            } else {
                assert(uids@ == old_uids.push(msg_id.uid));
            }
        }
        k = k + 1;
    }
    proof {
        assert(views.take(n as int) == views);
    }
    Ok(BulkParsed { mailbox, uidvalidity, uids })
}

/// Once a prefix of the list fails, the whole list fails the same way.
proof fn lemma_bulk_prefix_error(
    account_id: Seq<char>,
    ids: Seq<Result<MessageIdView, (ErrorKind, Seq<char>)>>,
    k: int,
)
    requires
        0 < k <= ids.len(),
        bulk_check(account_id, ids.take(k)) is Err,
    ensures
        bulk_check(account_id, ids) == bulk_check(account_id, ids.take(k)),
    decreases ids.len() - k,
{
    if k == ids.len() {
        assert(ids.take(k) == ids);
    } else {
        assert(ids.take(k + 1).drop_last() == ids.take(k));
        assert(ids.take(k + 1).len() == k + 1);
        lemma_bulk_prefix_error(account_id, ids, k + 1);
    }
}

/// The IMAP UID set of `uids`: their decimal renderings joined by commas.
pub open spec fn uid_set_text(uids: Seq<u32>) -> Seq<char> {
    join(uids.map_values(|u: u32| decimal(u as nat)), ","@)
}

/// Render a UID list as an IMAP UID set (`1,2,3`).
pub fn uid_set(uids: &[u32]) -> (r: String)
    ensures
        r@ == uid_set_text(uids@),
{
    let ghost parts = uids@.map_values(|u: u32| decimal(u as nat));
    let mut r = String::new();
    let mut i: usize = 0;
    while i < uids.len()
        invariant
            i <= uids@.len(),
            parts == uids@.map_values(|u: u32| decimal(u as nat)),
            r@ == join(parts.take(i as int), ","@),
        decreases uids.len() - i,
    {
        proof {
            assert(parts.take(i + 1).drop_last() == parts.take(i as int));
            assert(parts.take(i + 1).last() == decimal(uids@[i as int] as nat));
        }
        if i > 0 {
            r.append(",");
        }
        let d = decimal_u64(uids[i] as u64);
        r.append(d.as_str());
        proof {
            if i == 0 {
                assert(parts.take(1).len() == 1);
            }
        }
        i = i + 1;
    }
    proof {
        assert(parts.take(uids@.len() as int) == parts);
    }
    r
}

/// Law: every identifier accepted into a bulk list shares the list's mailbox and
/// UIDVALIDITY and contributes its UID, in request order.
pub proof fn lemma_bulk_members(
    account_id: Seq<char>,
    ids: Seq<Result<MessageIdView, (ErrorKind, Seq<char>)>>,
)
    requires
        bulk_check(account_id, ids) is Ok,
    ensures
        ({
            let b = bulk_check(account_id, ids)->Ok_0;
            &&& b.uids.len() == ids.len()
            &&& forall|i: int|
                0 <= i < ids.len() ==> (#[trigger] message_id_check(account_id, ids[i]) matches Ok(
                    m,
                ) && m.mailbox == b.mailbox && m.uidvalidity == b.uidvalidity && m.uid
                    == b.uids[i] && m.account_id == account_id)
        }),
    decreases ids.len(),
{
    if ids.len() > 1 {
        lemma_bulk_members(account_id, ids.drop_last());
        let b = bulk_check(account_id, ids)->Ok_0;
        assert forall|i: int| 0 <= i < ids.len() implies (#[trigger] message_id_check(
            account_id,
            ids[i],
        ) matches Ok(m) && m.mailbox == b.mailbox && m.uidvalidity == b.uidvalidity && m.uid
            == b.uids[i] && m.account_id == account_id) by {
            if i < ids.len() - 1 {
                assert(ids.drop_last()[i] == ids[i]);
            }
        }
    }
}

} // verus!
