//! Mailbox write operations: checking their requests, planning their IMAP steps, and
//! keeping count of the steps taken and the issues met.
use vstd::prelude::*;
use vstd::string::*;

use crate::config::ServerConfig;
use crate::errors::{invalid_view, AppError, AppResult, ErrorKind};
use crate::text::{byte_len, concat2, concat3, join, join_strings, longer_than, strings_view};
use crate::tools::{status_from_counts, status_word, ToolIssue};
use crate::ids::{
    bulk_check, bulk_view, message_id_check, parse_and_validate_message_id,
    parse_bulk_message_ids, parsed_list_view, parsed_view, BulkParsed, MessageId, MessageIdView,
};
use crate::search::{clamp, search_input_check, validate_search_input, SearchMessagesInput};
use crate::tools::require_write_enabled;
use crate::validate::{
    account_id_check, bulk_ids_check, flag_atom, flag_forbidden, flags_check, mailbox_check,
    outcome, range_message, valid_flag, validate_account_id, validate_bulk_ids, validate_chars,
    validate_flags, validate_mailbox, MAX_BULK_IDS,
};

verus! {

/// The steps of a multi-step operation: how many were attempted and succeeded, and the
/// issue of each failed one.
pub struct StepLog {
    attempted: usize,
    succeeded: usize,
    issues: Vec<ToolIssue>,
}

impl StepLog {
    /// Every attempted step either succeeded or left exactly one issue.
    #[verifier::type_invariant]
    spec fn consistent(self) -> bool {
        self.attempted == self.succeeded + self.issues@.len()
    }

    /// Steps attempted so far.
    pub closed spec fn attempted_count(self) -> nat {
        self.attempted as nat
    }

    /// Steps that succeeded so far.
    pub closed spec fn succeeded_count(self) -> nat {
        self.succeeded as nat
    }

    /// The issues of the failed steps, in order.
    pub closed spec fn issue_list(self) -> Seq<ToolIssue> {
        self.issues@
    }

    /// An empty log.
    pub fn new() -> (r: Self)
        ensures
            r.attempted_count() == 0,
            r.succeeded_count() == 0,
            r.issue_list().len() == 0,
    {
        StepLog { attempted: 0, succeeded: 0, issues: Vec::new() }
    }

    /// Record a step that succeeded.
    pub fn succeed(&mut self)
        requires
            old(self).attempted_count() < usize::MAX,
        ensures
            final(self).attempted_count() == old(self).attempted_count() + 1,
            final(self).succeeded_count() == old(self).succeeded_count() + 1,
            final(self).issue_list() == old(self).issue_list(),
    {
        proof {
            use_type_invariant(&*self);
        }
        let mut taken = StepLog::new();
        std::mem::swap(&mut taken, self);
        proof {
            use_type_invariant(&taken);
        }
        let StepLog { attempted, succeeded, issues } = taken;
        *self = StepLog { attempted: attempted + 1, succeeded: succeeded + 1, issues };
    }

    /// Record a step that failed with `issue`.
    pub fn fail(&mut self, issue: ToolIssue)
        requires
            old(self).attempted_count() < usize::MAX,
        ensures
            final(self).attempted_count() == old(self).attempted_count() + 1,
            final(self).succeeded_count() == old(self).succeeded_count(),
            final(self).issue_list() == old(self).issue_list().push(issue),
    {
        proof {
            use_type_invariant(&*self);
        }
        let mut taken = StepLog::new();
        std::mem::swap(&mut taken, self);
        proof {
            use_type_invariant(&taken);
        }
        let StepLog { attempted, succeeded, mut issues } = taken;
        issues.push(issue);
        *self = StepLog { attempted: attempted + 1, succeeded, issues };
    }

    /// Steps attempted so far.
    /// Every attempted step either succeeded or left exactly one issue.
    pub fn attempted(&self) -> (r: usize)
        ensures
            r == self.attempted_count(),
            r == self.succeeded_count() + self.issue_list().len(),
    {
        proof {
            use_type_invariant(self);
        }
        self.attempted
    }

    /// Steps that succeeded so far.
    pub fn succeeded(&self) -> (r: usize)
        ensures
            r == self.succeeded_count(),
    {
        self.succeeded
    }

    /// The status of the operation: `ok` when no step failed, `partial` when some
    /// failed and some succeeded, `failed` when none succeeded.
    pub fn status(&self) -> (r: &'static str)
        ensures
            r@ == status_word(self.issue_list().len() == 0, self.succeeded_count() > 0),
    {
        status_from_counts(self.issues.len() == 0, self.succeeded > 0)
    }

    /// The issues of the failed steps.
    pub fn into_issues(self) -> (r: Vec<ToolIssue>)
        ensures
            r@ == self.issue_list(),
    {
        self.issues
    }
}

/// A step of moving or deleting a message.
#[derive(PartialEq, Eq, Structural, Clone, Copy, Debug)]
pub enum MoveStep {
    /// `UID MOVE` to the destination (servers with the MOVE capability)
    UidMove,
    /// `UID COPY` to the destination
    UidCopy,
    /// Flag the message `\Deleted`
    StoreDeleted,
    /// `UID EXPUNGE` the message
    Expunge,
}

/// The stage name under which a step's failure is reported.
pub open spec fn step_stage(step: MoveStep) -> Seq<char> {
    match step {
        MoveStep::UidMove => "uid_move"@,
        MoveStep::UidCopy => "uid_copy"@,
        MoveStep::StoreDeleted => "uid_store_deleted"@,
        MoveStep::Expunge => "uid_expunge"@,
    }
}

/// The stage name under which a step's failure is reported.
pub fn move_step_stage(step: MoveStep) -> (r: &'static str)
    ensures
        r@ == step_stage(step),
{
    match step {
        MoveStep::UidMove => "uid_move",
        MoveStep::UidCopy => "uid_copy",
        MoveStep::StoreDeleted => "uid_store_deleted",
        MoveStep::Expunge => "uid_expunge",
    }
}

/// The first step of a move: one `UID MOVE` where the server has the MOVE capability,
/// otherwise copying first.
pub fn move_first_step(has_move_capability: bool) -> (r: MoveStep)
    ensures
        r == (if has_move_capability {
            MoveStep::UidMove
        } else {
            MoveStep::UidCopy
        }),
{
    if has_move_capability {
        MoveStep::UidMove
    } else {
        MoveStep::UidCopy
    }
}

/// The step after `done`: a copy is followed by flagging the original deleted, and
/// that by expunging it; each only once the step before it succeeded.
pub open spec fn next_step(done: MoveStep, succeeded: bool) -> Option<MoveStep> {
    if !succeeded {
        None
    } else {
        match done {
            MoveStep::UidCopy => Some(MoveStep::StoreDeleted),
            MoveStep::StoreDeleted => Some(MoveStep::Expunge),
            _ => None,
        }
    }
}

/// The step after `done`, given whether it succeeded.
pub fn move_next_step(done: MoveStep, succeeded: bool) -> (r: Option<MoveStep>)
    ensures
        r == next_step(done, succeeded),
{
    if !succeeded {
        return None;
    }
    match done {
        MoveStep::UidCopy => Some(MoveStep::StoreDeleted),
        MoveStep::StoreDeleted => Some(MoveStep::Expunge),
        _ => None,
    }
}

/// Law: a message is expunged only right after it was flagged deleted, and flagged
/// deleted only right after it was copied, each of those steps having succeeded.
pub proof fn lemma_expunge_after_copy(done: MoveStep, succeeded: bool)
    ensures
        next_step(done, succeeded) == Some(MoveStep::Expunge) ==> done == MoveStep::StoreDeleted
            && succeeded,
        next_step(done, succeeded) == Some(MoveStep::StoreDeleted) ==> done == MoveStep::UidCopy
            && succeeded,
        next_step(done, succeeded) != Some(MoveStep::UidMove),
        next_step(done, succeeded) != Some(MoveStep::UidCopy),
{
}

/// The `UID STORE` argument that adds (`+`) or removes (`-`) `flags`.
pub open spec fn store_query(add: bool, flags: Seq<Seq<char>>) -> Seq<char> {
    (if add {
        "+FLAGS.SILENT ("@
    } else {
        "-FLAGS.SILENT ("@
    }) + join(flags, " "@) + ")"@
}

/// The `UID STORE` argument that adds or removes `flags`.
pub fn flags_store_query(add: bool, flags: &[String]) -> (r: String)
    ensures
        r@ == store_query(add, strings_view(flags@)),
{
    let joined = join_strings(flags, " ");
    concat3(
        if add {
            "+FLAGS.SILENT ("
        } else {
            "-FLAGS.SILENT ("
        },
        joined.as_str(),
        ")",
    )
}

/// The joined flags hold no parenthesis, quote or brace when each flag is valid.
proof fn lemma_join_flags_clean(flags: Seq<Seq<char>>, k: int)
    requires
        forall|i: int| 0 <= i < flags.len() ==> valid_flag(#[trigger] flags[i]),
        0 <= k < join(flags, " "@).len(),
    ensures
        join(flags, " "@)[k] != '(' && join(flags, " "@)[k] != ')' && join(flags, " "@)[k] != '"'
            && join(flags, " "@)[k] != '{' && join(flags, " "@)[k] != '}',
    decreases flags.len(),
{
    reveal_strlit(" ");
    if flags.len() == 1 {
        let f = flags[0];
        assert(valid_flag(f));
        if f[0] == '\\' {
            if k > 0 {
                assert(f[k] == flag_atom(f)[k - 1]);
                assert(!flag_forbidden(flag_atom(f)[k - 1]));
            }
        } else {
            assert(f[k] == flag_atom(f)[k]);
            assert(!flag_forbidden(flag_atom(f)[k]));
        }
    } else if flags.len() > 1 {
        let init = join(flags.drop_last(), " "@);
        let f = flags.last();
        assert(join(flags, " "@) == init + " "@ + f);
        if k < init.len() {
            assert(forall|i: int|
                0 <= i < flags.drop_last().len() ==> valid_flag(#[trigger] flags.drop_last()[i])) by {
                assert forall|i: int| 0 <= i < flags.drop_last().len() implies valid_flag(
                    #[trigger] flags.drop_last()[i],
                ) by {
                    assert(flags.drop_last()[i] == flags[i]);
                }
            }
            lemma_join_flags_clean(flags.drop_last(), k);
            assert(join(flags, " "@)[k] == init[k]);
        } else if k > init.len() {
            let j = k - init.len() - 1;
            assert(join(flags, " "@)[k] == f[j]);
            assert(valid_flag(flags[flags.len() - 1]));
            if f[0] == '\\' {
                if j > 0 {
                    assert(f[j] == flag_atom(f)[j - 1]);
                    assert(!flag_forbidden(flag_atom(f)[j - 1]));
                }
            } else {
                assert(f[j] == flag_atom(f)[j]);
                assert(!flag_forbidden(flag_atom(f)[j]));
            }
        }
    }
}

/// Law: with valid flags, the `UID STORE` argument has exactly one parenthesized list:
/// its only parentheses are the ones around the flags, and it holds no quote or brace,
/// so a flag cannot end the list early or start a literal.
pub proof fn lemma_store_query_single_list(add: bool, flags: Seq<Seq<char>>, k: int)
    requires
        forall|i: int| 0 <= i < flags.len() ==> valid_flag(#[trigger] flags[i]),
        0 <= k < store_query(add, flags).len(),
    ensures
        store_query(add, flags)[k] == '(' ==> k == 14,
        store_query(add, flags)[k] == ')' ==> k == store_query(add, flags).len() - 1,
        store_query(add, flags)[k] != '"',
        store_query(add, flags)[k] != '{' && store_query(add, flags)[k] != '}',
{
    reveal_strlit("+FLAGS.SILENT (");
    reveal_strlit("-FLAGS.SILENT (");
    reveal_strlit(")");
    let head = if add {
        "+FLAGS.SILENT ("@
    } else {
        "-FLAGS.SILENT ("@
    };
    let body = join(flags, " "@);
    let q = store_query(add, flags);
    assert(q == head + body + ")"@);
    assert(head.len() == 15);
    if 15 <= k < 15 + body.len() {
        assert(q[k] == body[k - 15]);
        lemma_join_flags_clean(flags, k - 15);
    } else if k < 15 {
        assert(q[k] == head[k]);
    } else {
        assert(k == q.len() - 1);
    }
}

/// A check's outcome, as the view of an [`AppResult`].
pub type Check = Result<(), (ErrorKind, Seq<char>)>;

/// `a`, then `b` once `a` passed.
pub open spec fn then_check(a: Check, b: Check) -> Check {
    match a {
        Err(e) => Err(e),
        Ok(_) => b,
    }
}

/// The check of an inclusive numeric range, as [`crate::validate::validate_chars`] does it.
pub open spec fn range_check(v: nat, min: nat, max: nat, field: Seq<char>) -> Check {
    if min <= v <= max {
        Ok(())
    } else {
        Err(invalid_view(range_message(field, min, max)))
    }
}

/// The check that mailbox write tools are enabled.
pub open spec fn write_check(enabled: bool) -> Check {
    if enabled {
        Ok(())
    } else {
        Err(invalid_view("write tools are disabled; set MAIL_IMAP_WRITE_ENABLED=true"@))
    }
}

/// A required confirmation.
pub open spec fn confirm_check(confirm: bool, message: Seq<char>) -> Check {
    if confirm {
        Ok(())
    } else {
        Err(invalid_view(message))
    }
}

/// The identifier of a message after its checks: the checks' error, or the identifier.
pub open spec fn with_message(c: Check, id: Result<MessageIdView, (ErrorKind, Seq<char>)>) -> Result<
    MessageIdView,
    (ErrorKind, Seq<char>),
> {
    match c {
        Err(e) => Err(e),
        Ok(_) => id,
    }
}

/// The request of `imap_get_message`.
pub struct GetMessageInput {
    pub account_id: String,
    pub message_id: String,
    pub body_max_chars: usize,
    pub include_html: bool,
    pub extract_attachment_text: bool,
    pub attachment_text_max_chars: Option<usize>,
    pub include_headers: bool,
    pub include_all_headers: bool,
}

/// The attachment text limit of a request: the one given, else 10000.
pub open spec fn attachment_limit(input: GetMessageInput) -> nat {
    match input.attachment_text_max_chars {
        Some(v) => v as nat,
        None => 10000,
    }
}

/// The checks of `imap_get_message` before the message identifier.
pub open spec fn get_message_check(input: GetMessageInput) -> Check {
    then_check(
        account_id_check(input.account_id@),
        then_check(
            range_check(input.body_max_chars as nat, 100, 20000, "body_max_chars"@),
            then_check(
                if input.attachment_text_max_chars is Some && !input.extract_attachment_text {
                    Err(invalid_view("attachment_text_max_chars requires extract_attachment_text=true"@))
                } else {
                    Ok(())
                },
                range_check(attachment_limit(input), 100, 50000, "attachment_text_max_chars"@),
            ),
        ),
    )
}

/// Check a `imap_get_message` request whose identifier parsed as `parsed`; the result
/// is the identifier and the attachment text limit.
pub fn check_get_message(input: &GetMessageInput, parsed: AppResult<MessageId>) -> (r: AppResult<
    (MessageId, usize),
>)
    ensures
        match with_message(
            get_message_check(*input),
            message_id_check(input.account_id@, parsed_view(parsed)),
        ) {
            Ok(m) => r matches Ok(x) && x.0@ == m && x.1 == attachment_limit(*input),
            Err(e) => r matches Err(x) && x@ == e,
        },
{
    validate_account_id(input.account_id.as_str())?;
    validate_chars(input.body_max_chars, 100, 20000, "body_max_chars")?;
    let attachment_max: usize = match input.attachment_text_max_chars {
        Some(v) => v,
        None => 10000,
    };
    if input.attachment_text_max_chars.is_some() && !input.extract_attachment_text {
        return Err(AppError::invalid("attachment_text_max_chars requires extract_attachment_text=true"));
    }
    validate_chars(attachment_max, 100, 50000, "attachment_text_max_chars")?;
    let id = parse_and_validate_message_id(input.account_id.as_str(), parsed)?;
    Ok((id, attachment_max))
}

/// The request of `imap_get_message_raw`.
pub struct GetMessageRawInput {
    pub account_id: String,
    pub message_id: String,
    pub max_bytes: usize,
}

/// Check a `imap_get_message_raw` request whose identifier parsed as `parsed`.
pub fn check_get_message_raw(input: &GetMessageRawInput, parsed: AppResult<MessageId>) -> (r:
    AppResult<MessageId>)
    ensures
        parsed_view(r) == with_message(
            then_check(
                account_id_check(input.account_id@),
                range_check(input.max_bytes as nat, 1024, 1000000, "max_bytes"@),
            ),
            message_id_check(input.account_id@, parsed_view(parsed)),
        ),
{
    validate_account_id(input.account_id.as_str())?;
    validate_chars(input.max_bytes, 1024, 1000000, "max_bytes")?;
    parse_and_validate_message_id(input.account_id.as_str(), parsed)
}

/// Refuse a raw message larger than `max_bytes`.
pub fn check_raw_size(size: usize, max_bytes: usize) -> (r: AppResult<()>)
    ensures
        size <= max_bytes ==> r is Ok,
        size > max_bytes ==> (r matches Err(e) && e@ == invalid_view(
            "message exceeds max_bytes; increase max_bytes"@,
        )),
{
    if size > max_bytes {
        return Err(AppError::invalid("message exceeds max_bytes; increase max_bytes"));
    }
    Ok(())
}

/// The request of `imap_update_message_flags`.
pub struct UpdateMessageFlagsInput {
    pub account_id: String,
    pub message_id: String,
    pub add_flags: Option<Vec<String>>,
    pub remove_flags: Option<Vec<String>>,
}

/// The flags of an optional list (none when absent).
pub open spec fn opt_flags(f: Option<Vec<String>>) -> Seq<Seq<char>> {
    match f {
        Some(v) => strings_view(v@),
        None => Seq::empty(),
    }
}

/// The checks of `imap_update_message_flags` before the message identifier.
pub open spec fn update_flags_check(write_enabled: bool, input: UpdateMessageFlagsInput) -> Check {
    then_check(
        write_check(write_enabled),
        then_check(
            account_id_check(input.account_id@),
            then_check(
                if opt_flags(input.add_flags).len() == 0 && opt_flags(input.remove_flags).len()
                    == 0 {
                    Err(invalid_view("at least one of add_flags/remove_flags is required"@))
                } else {
                    Ok(())
                },
                then_check(
                    flags_check(opt_flags(input.add_flags), "add_flags"@),
                    flags_check(opt_flags(input.remove_flags), "remove_flags"@),
                ),
            ),
        ),
    )
}

/// The flags of an optional list, copied.
fn flags_or_empty(f: &Option<Vec<String>>) -> (r: Vec<String>)
    ensures
        strings_view(r@) == opt_flags(*f),
{
    match f {
        Some(v) => copy_strings(v),
        None => {
            let r: Vec<String> = Vec::new();
            proof {
                assert(strings_view(r@) =~= Seq::<Seq<char>>::empty());
            }
            r
        },
    }
}

/// A copy of a list of strings.
fn copy_strings(v: &Vec<String>) -> (r: Vec<String>)
    ensures
        strings_view(r@) == strings_view(v@),
{
    let mut out: Vec<String> = Vec::new();
    let mut k: usize = 0;
    while k < v.len()
        invariant
            k <= v@.len(),
            strings_view(out@) == strings_view(v@).take(k as int),
        decreases v.len() - k,
    {
        let ghost before = out@;
        let item = v[k].clone();
        out.push(item);
        proof {
            assert(strings_view(out@) =~= strings_view(before).push(item@));
            assert(strings_view(v@).take(k + 1) =~= strings_view(v@).take(k as int).push(
                v@[k as int]@,
            ));
        }
        k = k + 1;
    }
    proof {
        assert(strings_view(v@).take(v@.len() as int) == strings_view(v@));
    }
    out
}

/// A checked flag update: the message and the flags to add and to remove.
pub struct FlagUpdate {
    pub message: MessageId,
    pub add_flags: Vec<String>,
    pub remove_flags: Vec<String>,
}

/// Check a `imap_update_message_flags` request whose identifier parsed as `parsed`.
pub fn check_update_flags(
    config: &ServerConfig,
    input: &UpdateMessageFlagsInput,
    parsed: AppResult<MessageId>,
) -> (r: AppResult<FlagUpdate>)
    ensures
        match with_message(
            update_flags_check(config.write_enabled, *input),
            message_id_check(input.account_id@, parsed_view(parsed)),
        ) {
            Ok(m) => r matches Ok(u) && u.message@ == m && strings_view(u.add_flags@) == opt_flags(
                input.add_flags,
            ) && strings_view(u.remove_flags@) == opt_flags(input.remove_flags),
            Err(e) => r matches Err(x) && x@ == e,
        },
{
    require_write_enabled(config)?;
    validate_account_id(input.account_id.as_str())?;
    let add_flags = flags_or_empty(&input.add_flags);
    let remove_flags = flags_or_empty(&input.remove_flags);
    if add_flags.len() == 0 && remove_flags.len() == 0 {
        return Err(AppError::invalid("at least one of add_flags/remove_flags is required"));
    }
    validate_flags(add_flags.as_slice(), "add_flags")?;
    validate_flags(remove_flags.as_slice(), "remove_flags")?;
    let message = parse_and_validate_message_id(input.account_id.as_str(), parsed)?;
    Ok(FlagUpdate { message, add_flags, remove_flags })
}

/// The request of `imap_copy_message`.
pub struct CopyMessageInput {
    pub account_id: String,
    pub message_id: String,
    pub destination_mailbox: String,
    pub destination_account_id: Option<String>,
}

/// The destination account of a copy: the one given, else the source account.
pub open spec fn copy_destination(input: CopyMessageInput) -> Seq<char> {
    match input.destination_account_id {
        Some(d) => d@,
        None => input.account_id@,
    }
}

/// The checks of `imap_copy_message` before the message identifier.
pub open spec fn copy_check(write_enabled: bool, input: CopyMessageInput) -> Check {
    then_check(
        write_check(write_enabled),
        then_check(
            account_id_check(input.account_id@),
            then_check(
                mailbox_check(input.destination_mailbox@),
                account_id_check(copy_destination(input)),
            ),
        ),
    )
}

/// Check a `imap_copy_message` request whose identifier parsed as `parsed`; the result
/// is the identifier and the destination account.
pub fn check_copy_message(
    config: &ServerConfig,
    input: &CopyMessageInput,
    parsed: AppResult<MessageId>,
) -> (r: AppResult<(MessageId, String)>)
    ensures
        match with_message(
            copy_check(config.write_enabled, *input),
            message_id_check(input.account_id@, parsed_view(parsed)),
        ) {
            Ok(m) => r matches Ok(x) && x.0@ == m && x.1@ == copy_destination(*input),
            Err(e) => r matches Err(x) && x@ == e,
        },
{
    require_write_enabled(config)?;
    validate_account_id(input.account_id.as_str())?;
    validate_mailbox(input.destination_mailbox.as_str())?;
    let destination = match &input.destination_account_id {
        Some(d) => d.clone(),
        None => input.account_id.clone(),
    };
    validate_account_id(destination.as_str())?;
    let id = parse_and_validate_message_id(input.account_id.as_str(), parsed)?;
    Ok((id, destination))
}

/// The request of `imap_move_message`.
pub struct MoveMessageInput {
    pub account_id: String,
    pub message_id: String,
    pub destination_mailbox: String,
}

/// Check a `imap_move_message` request whose identifier parsed as `parsed`.
pub fn check_move_message(
    config: &ServerConfig,
    input: &MoveMessageInput,
    parsed: AppResult<MessageId>,
) -> (r: AppResult<MessageId>)
    ensures
        parsed_view(r) == with_message(
            then_check(
                write_check(config.write_enabled),
                then_check(
                    account_id_check(input.account_id@),
                    mailbox_check(input.destination_mailbox@),
                ),
            ),
            message_id_check(input.account_id@, parsed_view(parsed)),
        ),
{
    require_write_enabled(config)?;
    validate_account_id(input.account_id.as_str())?;
    validate_mailbox(input.destination_mailbox.as_str())?;
    parse_and_validate_message_id(input.account_id.as_str(), parsed)
}

/// The request of `imap_delete_message`.
pub struct DeleteMessageInput {
    pub account_id: String,
    pub message_id: String,
    pub confirm: bool,
}

/// Check a `imap_delete_message` request whose identifier parsed as `parsed`.
pub fn check_delete_message(
    config: &ServerConfig,
    input: &DeleteMessageInput,
    parsed: AppResult<MessageId>,
) -> (r: AppResult<MessageId>)
    ensures
        parsed_view(r) == with_message(
            then_check(
                write_check(config.write_enabled),
                then_check(
                    account_id_check(input.account_id@),
                    confirm_check(input.confirm, "delete requires confirm=true"@),
                ),
            ),
            message_id_check(input.account_id@, parsed_view(parsed)),
        ),
{
    require_write_enabled(config)?;
    validate_account_id(input.account_id.as_str())?;
    if !input.confirm {
        return Err(AppError::invalid("delete requires confirm=true"));
    }
    parse_and_validate_message_id(input.account_id.as_str(), parsed)
}

/// The check that a message's mailbox still has the UIDVALIDITY of its identifier.
pub fn check_message_uidvalidity(expected: u32, current: u32) -> (r: AppResult<()>)
    ensures
        expected == current ==> r is Ok,
        expected != current ==> (r matches Err(e) && e@ == (
            ErrorKind::Conflict,
            "message uidvalidity no longer matches mailbox"@,
        )),
{
    if current != expected {
        return Err(AppError::Conflict(String::from_str("message uidvalidity no longer matches mailbox")));
    }
    Ok(())
}

/// The request of `imap_create_mailbox`.
pub struct CreateMailboxInput {
    pub account_id: String,
    pub mailbox_name: String,
}

/// Check a `imap_create_mailbox` request.
pub fn check_create_mailbox(config: &ServerConfig, input: &CreateMailboxInput) -> (r: AppResult<()>)
    ensures
        outcome(r) == then_check(
            write_check(config.write_enabled),
            then_check(account_id_check(input.account_id@), mailbox_check(input.mailbox_name@)),
        ),
{
    require_write_enabled(config)?;
    validate_account_id(input.account_id.as_str())?;
    validate_mailbox(input.mailbox_name.as_str())
}

/// The request of `imap_delete_mailbox`.
pub struct DeleteMailboxInput {
    pub account_id: String,
    pub mailbox_name: String,
    pub confirm: bool,
}

/// Check a `imap_delete_mailbox` request.
pub fn check_delete_mailbox(config: &ServerConfig, input: &DeleteMailboxInput) -> (r: AppResult<()>)
    ensures
        outcome(r) == then_check(
            write_check(config.write_enabled),
            then_check(
                account_id_check(input.account_id@),
                then_check(
                    mailbox_check(input.mailbox_name@),
                    confirm_check(input.confirm, "delete mailbox requires confirm=true"@),
                ),
            ),
        ),
{
    require_write_enabled(config)?;
    validate_account_id(input.account_id.as_str())?;
    validate_mailbox(input.mailbox_name.as_str())?;
    if !input.confirm {
        return Err(AppError::invalid("delete mailbox requires confirm=true"));
    }
    Ok(())
}

/// The request of `imap_rename_mailbox`.
pub struct RenameMailboxInput {
    pub account_id: String,
    pub from_name: String,
    pub to_name: String,
}

/// Check a `imap_rename_mailbox` request.
pub fn check_rename_mailbox(config: &ServerConfig, input: &RenameMailboxInput) -> (r: AppResult<()>)
    ensures
        outcome(r) == then_check(
            write_check(config.write_enabled),
            then_check(
                account_id_check(input.account_id@),
                then_check(mailbox_check(input.from_name@), mailbox_check(input.to_name@)),
            ),
        ),
{
    require_write_enabled(config)?;
    validate_account_id(input.account_id.as_str())?;
    validate_mailbox(input.from_name.as_str())?;
    validate_mailbox(input.to_name.as_str())
}

/// The request of `imap_mailbox_status`.
pub struct MailboxStatusInput {
    pub account_id: String,
    pub mailbox: String,
}

/// Check a `imap_mailbox_status` request.
pub fn check_mailbox_status(input: &MailboxStatusInput) -> (r: AppResult<()>)
    ensures
        outcome(r) == then_check(account_id_check(input.account_id@), mailbox_check(input.mailbox@)),
{
    validate_account_id(input.account_id.as_str())?;
    validate_mailbox(input.mailbox.as_str())
}

/// The request of `imap_append_message`.
pub struct AppendMessageInput {
    pub account_id: String,
    pub mailbox: String,
    pub raw_message: String,
}

/// The size limits of an appended message: not empty, at most 10 MB.
pub open spec fn raw_message_check(raw: Seq<char>) -> Check {
    if raw.len() == 0 {
        Err(invalid_view("raw_message must not be empty"@))
    } else if byte_len(raw) > 10000000 {
        Err(invalid_view("raw_message exceeds 10MB limit"@))
    } else {
        Ok(())
    }
}

/// Check a `imap_append_message` request.
pub fn check_append_message(config: &ServerConfig, input: &AppendMessageInput) -> (r: AppResult<()>)
    ensures
        outcome(r) == then_check(
            write_check(config.write_enabled),
            then_check(
                account_id_check(input.account_id@),
                then_check(mailbox_check(input.mailbox@), raw_message_check(input.raw_message@)),
            ),
        ),
{
    require_write_enabled(config)?;
    validate_account_id(input.account_id.as_str())?;
    validate_mailbox(input.mailbox.as_str())?;
    if input.raw_message.as_str().is_empty() {
        return Err(AppError::invalid("raw_message must not be empty"));
    }
    if longer_than(input.raw_message.as_str(), 10000000) {
        return Err(AppError::invalid("raw_message exceeds 10MB limit"));
    }
    Ok(())
}

/// The search criteria of a search-and-act request.
pub struct SearchCriteria {
    pub query: Option<String>,
    pub from: Option<String>,
    pub to: Option<String>,
    pub subject: Option<String>,
    pub unread_only: Option<bool>,
    pub last_days: Option<u32>,
    pub start_date: Option<String>,
    pub end_date: Option<String>,
}

/// The search request that checks and builds the criteria of a search-and-act request
/// on `mailbox`: no cursor, limit 1, no snippets.
pub open spec fn criteria_search(
    account_id: String,
    mailbox: String,
    c: SearchCriteria,
) -> SearchMessagesInput {
    SearchMessagesInput {
        account_id,
        mailbox,
        query: c.query,
        from: c.from,
        to: c.to,
        subject: c.subject,
        unread_only: c.unread_only,
        last_days: c.last_days,
        start_date: c.start_date,
        end_date: c.end_date,
        include_snippet: false,
        snippet_max_chars: None,
        limit: 1,
        cursor: None,
    }
}

/// A copy of an optional string.
fn copy_opt(o: &Option<String>) -> (r: Option<String>)
    ensures
        r == *o,
{
    match o {
        Some(s) => {
            let c = s.clone();
            proof {
                assert(c@ == s@);
                assert(c == *s);
            }
            Some(c)
        },
        None => None,
    }
}

/// The search request of a search-and-act request.
fn search_of_criteria(account_id: &String, mailbox: &String, c: &SearchCriteria) -> (r:
    SearchMessagesInput)
    ensures
        r == criteria_search(*account_id, *mailbox, *c),
{
    let a = account_id.clone();
    let m = mailbox.clone();
    proof {
        assert(a == *account_id);
        assert(m == *mailbox);
    }
    SearchMessagesInput {
        account_id: a,
        mailbox: m,
        query: copy_opt(&c.query),
        from: copy_opt(&c.from),
        to: copy_opt(&c.to),
        subject: copy_opt(&c.subject),
        unread_only: c.unread_only,
        last_days: c.last_days,
        start_date: copy_opt(&c.start_date),
        end_date: copy_opt(&c.end_date),
        include_snippet: false,
        snippet_max_chars: None,
        limit: 1,
        cursor: None,
    }
}

/// The number of matches a search-and-act request acts on: its limit clamped to 1..500.
pub open spec fn batch_limit(limit: usize) -> int {
    clamp(limit as int, 1, 500)
}

/// A checked search-and-act request: the search to run and how many matches to act on.
pub struct SearchBatch {
    pub search: SearchMessagesInput,
    pub limit: usize,
}

/// The request of `imap_search_and_move`.
pub struct SearchAndMoveInput {
    pub account_id: String,
    pub mailbox: String,
    pub destination_mailbox: String,
    pub criteria: SearchCriteria,
    pub limit: usize,
}

/// The checks of `imap_search_and_move`.
pub open spec fn search_and_move_check(write_enabled: bool, input: SearchAndMoveInput) -> Check {
    then_check(
        write_check(write_enabled),
        then_check(
            account_id_check(input.account_id@),
            then_check(
                mailbox_check(input.mailbox@),
                then_check(
                    mailbox_check(input.destination_mailbox@),
                    search_input_check(
                        criteria_search(input.account_id, input.mailbox, input.criteria),
                    ),
                ),
            ),
        ),
    )
}

/// Check a `imap_search_and_move` request.
pub fn check_search_and_move(config: &ServerConfig, input: &SearchAndMoveInput) -> (r: AppResult<
    SearchBatch,
>)
    ensures
        outcome(r) == search_and_move_check(config.write_enabled, *input),
        r matches Ok(b) ==> b.search == criteria_search(
            input.account_id,
            input.mailbox,
            input.criteria,
        ) && b.limit == batch_limit(input.limit),
{
    require_write_enabled(config)?;
    validate_account_id(input.account_id.as_str())?;
    validate_mailbox(input.mailbox.as_str())?;
    validate_mailbox(input.destination_mailbox.as_str())?;
    let search = search_of_criteria(&input.account_id, &input.mailbox, &input.criteria);
    validate_search_input(&search)?;
    let limit: usize = if input.limit < 1 {
        1
    } else if input.limit > MAX_BULK_IDS {
        MAX_BULK_IDS
    } else {
        input.limit
    };
    Ok(SearchBatch { search, limit })
}

/// The request of `imap_search_and_delete`.
pub struct SearchAndDeleteInput {
    pub account_id: String,
    pub mailbox: String,
    pub confirm: bool,
    pub criteria: SearchCriteria,
    pub limit: usize,
}

/// The checks of `imap_search_and_delete`.
pub open spec fn search_and_delete_check(write_enabled: bool, input: SearchAndDeleteInput) -> Check {
    then_check(
        write_check(write_enabled),
        then_check(
            account_id_check(input.account_id@),
            then_check(
                mailbox_check(input.mailbox@),
                then_check(
                    confirm_check(input.confirm, "search_and_delete requires confirm=true"@),
                    search_input_check(
                        criteria_search(input.account_id, input.mailbox, input.criteria),
                    ),
                ),
            ),
        ),
    )
}

/// Check a `imap_search_and_delete` request.
pub fn check_search_and_delete(config: &ServerConfig, input: &SearchAndDeleteInput) -> (r:
    AppResult<SearchBatch>)
    ensures
        outcome(r) == search_and_delete_check(config.write_enabled, *input),
        r matches Ok(b) ==> b.search == criteria_search(
            input.account_id,
            input.mailbox,
            input.criteria,
        ) && b.limit == batch_limit(input.limit),
{
    require_write_enabled(config)?;
    validate_account_id(input.account_id.as_str())?;
    validate_mailbox(input.mailbox.as_str())?;
    if !input.confirm {
        return Err(AppError::invalid("search_and_delete requires confirm=true"));
    }
    let search = search_of_criteria(&input.account_id, &input.mailbox, &input.criteria);
    validate_search_input(&search)?;
    let limit: usize = if input.limit < 1 {
        1
    } else if input.limit > MAX_BULK_IDS {
        MAX_BULK_IDS
    } else {
        input.limit
    };
    Ok(SearchBatch { search, limit })
}

/// The matches a search-and-act request acts on: the first `limit` UIDs found, and the
/// number of matches left for later.
pub fn take_batch(all_uids: &Vec<u32>, limit: usize) -> (r: (Vec<u32>, usize))
    ensures
        r.0@ == all_uids@.take(if limit < all_uids@.len() { limit as int } else { all_uids@.len() as int }),
        r.1 == all_uids@.len() - r.0@.len(),
{
    let n: usize = if limit < all_uids.len() {
        limit
    } else {
        all_uids.len()
    };
    let mut out: Vec<u32> = Vec::new();
    let mut i: usize = 0;
    while i < n
        invariant
            i <= n <= all_uids@.len(),
            out@ == all_uids@.take(i as int),
        decreases n - i,
    {
        out.push(all_uids[i]);
        proof {
            assert(all_uids@.take(i + 1) == all_uids@.take(i as int).push(all_uids@[i as int]));
        }
        i = i + 1;
    }
    (out, all_uids.len() - n)
}

/// The check that the mailbox kept its UIDVALIDITY between a search and the action on
/// its matches (`action` is `move` or `delete`).
pub fn check_batch_uidvalidity(searched: u32, current: u32, action: &str) -> (r: AppResult<()>)
    ensures
        searched == current ==> r is Ok,
        searched != current ==> (r matches Err(e) && e@ == (
            ErrorKind::Conflict,
            "UIDVALIDITY changed between search and "@ + action@,
        )),
{
    if current != searched {
        return Err(AppError::Conflict(concat2("UIDVALIDITY changed between search and ", action)));
    }
    Ok(())
}

/// The check that a mailbox still has the UIDVALIDITY of a bulk identifier list.
pub fn check_bulk_uidvalidity(expected: u32, current: u32) -> (r: AppResult<()>)
    ensures
        expected == current ==> r is Ok,
        expected != current ==> (r matches Err(e) && e@ == (
            ErrorKind::Conflict,
            "UIDVALIDITY changed; message IDs may be stale"@,
        )),
{
    if current != expected {
        return Err(AppError::Conflict(String::from_str("UIDVALIDITY changed; message IDs may be stale")));
    }
    Ok(())
}

/// The request of `imap_bulk_move`.
pub struct BulkMoveInput {
    pub account_id: String,
    pub message_ids: Vec<String>,
    pub destination_mailbox: String,
}

/// Check a `imap_bulk_move` request whose identifiers parsed as `parsed`, one outcome
/// per identifier.
pub fn check_bulk_move(
    config: &ServerConfig,
    input: &BulkMoveInput,
    parsed: Vec<AppResult<MessageId>>,
) -> (r: AppResult<BulkParsed>)
    requires
        parsed@.len() == input.message_ids@.len(),
    ensures
        bulk_view(r) == match then_check(
            write_check(config.write_enabled),
            then_check(
                account_id_check(input.account_id@),
                then_check(
                    mailbox_check(input.destination_mailbox@),
                    bulk_ids_check(input.message_ids@.len()),
                ),
            ),
        ) {
            Err(e) => Err(e),
            Ok(_) => bulk_check(input.account_id@, parsed_list_view(parsed@)),
        },
{
    require_write_enabled(config)?;
    validate_account_id(input.account_id.as_str())?;
    validate_mailbox(input.destination_mailbox.as_str())?;
    validate_bulk_ids(input.message_ids.as_slice())?;
    parse_bulk_message_ids(input.account_id.as_str(), parsed)
}

/// The request of `imap_bulk_delete`.
pub struct BulkDeleteInput {
    pub account_id: String,
    pub message_ids: Vec<String>,
    pub confirm: bool,
}

/// Check a `imap_bulk_delete` request whose identifiers parsed as `parsed`.
pub fn check_bulk_delete(
    config: &ServerConfig,
    input: &BulkDeleteInput,
    parsed: Vec<AppResult<MessageId>>,
) -> (r: AppResult<BulkParsed>)
    requires
        parsed@.len() == input.message_ids@.len(),
    ensures
        bulk_view(r) == match then_check(
            write_check(config.write_enabled),
            then_check(
                account_id_check(input.account_id@),
                then_check(
                    confirm_check(input.confirm, "bulk delete requires confirm=true"@),
                    bulk_ids_check(input.message_ids@.len()),
                ),
            ),
        ) {
            Err(e) => Err(e),
            Ok(_) => bulk_check(input.account_id@, parsed_list_view(parsed@)),
        },
{
    require_write_enabled(config)?;
    validate_account_id(input.account_id.as_str())?;
    if !input.confirm {
        return Err(AppError::invalid("bulk delete requires confirm=true"));
    }
    validate_bulk_ids(input.message_ids.as_slice())?;
    parse_bulk_message_ids(input.account_id.as_str(), parsed)
}

/// The request of `imap_bulk_update_flags`.
pub struct BulkUpdateFlagsInput {
    pub account_id: String,
    pub message_ids: Vec<String>,
    pub add_flags: Option<Vec<String>>,
    pub remove_flags: Option<Vec<String>>,
}

/// The checks of `imap_bulk_update_flags` before the identifiers are parsed.
pub open spec fn bulk_flags_check(write_enabled: bool, input: BulkUpdateFlagsInput) -> Check {
    then_check(
        write_check(write_enabled),
        then_check(
            account_id_check(input.account_id@),
            then_check(
                bulk_ids_check(input.message_ids@.len()),
                then_check(
                    if opt_flags(input.add_flags).len() == 0 && opt_flags(input.remove_flags).len()
                        == 0 {
                        Err(invalid_view("at least one of add_flags or remove_flags is required"@))
                    } else {
                        Ok(())
                    },
                    then_check(
                        flags_check(opt_flags(input.add_flags), "add_flags"@),
                        flags_check(opt_flags(input.remove_flags), "remove_flags"@),
                    ),
                ),
            ),
        ),
    )
}

/// Check the flags of an optional list.
fn validate_opt_flags(flags: &Option<Vec<String>>, field: &str) -> (r: AppResult<()>)
    ensures
        outcome(r) == flags_check(opt_flags(*flags), field@),
{
    match flags {
        Some(f) => validate_flags(f.as_slice(), field),
        None => {
            proof {
                assert(!(exists|i: int|
                    0 <= i < opt_flags(*flags).len() && !valid_flag(
                        #[trigger] opt_flags(*flags)[i],
                    )));
            }
            Ok(())
        },
    }
}

/// Check a `imap_bulk_update_flags` request whose identifiers parsed as `parsed`.
pub fn check_bulk_update_flags(
    config: &ServerConfig,
    input: &BulkUpdateFlagsInput,
    parsed: Vec<AppResult<MessageId>>,
) -> (r: AppResult<BulkParsed>)
    requires
        parsed@.len() == input.message_ids@.len(),
    ensures
        bulk_view(r) == match bulk_flags_check(config.write_enabled, *input) {
            Err(e) => Err(e),
            Ok(_) => bulk_check(input.account_id@, parsed_list_view(parsed@)),
        },
{
    require_write_enabled(config)?;
    validate_account_id(input.account_id.as_str())?;
    validate_bulk_ids(input.message_ids.as_slice())?;
    let has_add = match &input.add_flags {
        Some(f) => f.len() > 0,
        None => false,
    };
    let has_remove = match &input.remove_flags {
        Some(f) => f.len() > 0,
        None => false,
    };
    if !has_add && !has_remove {
        return Err(AppError::invalid("at least one of add_flags or remove_flags is required"));
    }
    validate_opt_flags(&input.add_flags, "add_flags")?;
    validate_opt_flags(&input.remove_flags, "remove_flags")?;
    parse_bulk_message_ids(input.account_id.as_str(), parsed)
}

/// A step of copying a message.
#[derive(PartialEq, Eq, Structural, Clone, Copy, Debug)]
pub enum CopyStep {
    /// Connect to the source account
    ConnectSource,
    /// `UID COPY` within the account
    UidCopy,
    /// Fetch the raw message from the source account
    FetchRawSource,
    /// Connect to the destination account
    ConnectDestination,
    /// `APPEND` the raw message to the destination mailbox
    AppendDestination,
}

/// The stage name under which a copy step's failure is reported.
pub open spec fn copy_stage_of(step: CopyStep) -> Seq<char> {
    match step {
        CopyStep::ConnectSource => "connect_authenticated_source"@,
        CopyStep::UidCopy => "uid_copy"@,
        CopyStep::FetchRawSource => "fetch_raw_message_source"@,
        CopyStep::ConnectDestination => "connect_authenticated_destination"@,
        CopyStep::AppendDestination => "append_destination"@,
    }
}

/// The stage name under which a copy step's failure is reported.
pub fn copy_stage(step: CopyStep) -> (r: &'static str)
    ensures
        r@ == copy_stage_of(step),
{
    match step {
        CopyStep::ConnectSource => "connect_authenticated_source",
        CopyStep::UidCopy => "uid_copy",
        CopyStep::FetchRawSource => "fetch_raw_message_source",
        CopyStep::ConnectDestination => "connect_authenticated_destination",
        CopyStep::AppendDestination => "append_destination",
    }
}

/// What follows a copy step: another step, or the end of the copy, where
/// `forced_failed` reports the copy as failed whatever succeeded before.
#[derive(PartialEq, Eq, Structural, Clone, Copy, Debug)]
pub enum CopyNext {
    Run(CopyStep),
    Finish { forced_failed: bool },
}

/// The step after `step`: within one account the source connection is followed by a
/// `UID COPY`; across accounts by fetching the message, connecting to the destination
/// and appending it there. A failure to connect to the source or to fetch the message
/// ends the copy as failed; a later failure ends it with the status of its steps.
pub open spec fn copy_next_of(step: CopyStep, same_account: bool, succeeded: bool) -> CopyNext {
    match step {
        CopyStep::ConnectSource => if !succeeded {
            CopyNext::Finish { forced_failed: true }
        } else if same_account {
            CopyNext::Run(CopyStep::UidCopy)
        } else {
            CopyNext::Run(CopyStep::FetchRawSource)
        },
        CopyStep::UidCopy => CopyNext::Finish { forced_failed: false },
        CopyStep::FetchRawSource => if !succeeded {
            CopyNext::Finish { forced_failed: true }
        } else {
            CopyNext::Run(CopyStep::ConnectDestination)
        },
        CopyStep::ConnectDestination => if !succeeded {
            CopyNext::Finish { forced_failed: false }
        } else {
            CopyNext::Run(CopyStep::AppendDestination)
        },
        CopyStep::AppendDestination => CopyNext::Finish { forced_failed: false },
    }
}

/// The step after `step` of a copy.
pub fn copy_next(step: CopyStep, same_account: bool, succeeded: bool) -> (r: CopyNext)
    ensures
        r == copy_next_of(step, same_account, succeeded),
{
    match step {
        CopyStep::ConnectSource => if !succeeded {
            CopyNext::Finish { forced_failed: true }
        } else if same_account {
            CopyNext::Run(CopyStep::UidCopy)
        } else {
            CopyNext::Run(CopyStep::FetchRawSource)
        },
        CopyStep::UidCopy => CopyNext::Finish { forced_failed: false },
        CopyStep::FetchRawSource => if !succeeded {
            CopyNext::Finish { forced_failed: true }
        } else {
            CopyNext::Run(CopyStep::ConnectDestination)
        },
        CopyStep::ConnectDestination => if !succeeded {
            CopyNext::Finish { forced_failed: false }
        } else {
            CopyNext::Run(CopyStep::AppendDestination)
        },
        CopyStep::AppendDestination => CopyNext::Finish { forced_failed: false },
    }
}

/// Law: a copy writes to the destination only right after connecting to it, which only
/// follows a successful fetch of the source message across accounts; and a `UID COPY`
/// only runs within one account, right after connecting to it.
pub proof fn lemma_copy_order(step: CopyStep, same_account: bool, succeeded: bool)
    ensures
        copy_next_of(step, same_account, succeeded) == CopyNext::Run(CopyStep::AppendDestination)
            ==> step == CopyStep::ConnectDestination && succeeded,
        copy_next_of(step, same_account, succeeded) == CopyNext::Run(CopyStep::ConnectDestination)
            ==> step == CopyStep::FetchRawSource && succeeded,
        copy_next_of(step, same_account, succeeded) == CopyNext::Run(CopyStep::FetchRawSource)
            ==> step == CopyStep::ConnectSource && succeeded && !same_account,
        copy_next_of(step, same_account, succeeded) == CopyNext::Run(CopyStep::UidCopy) ==> step
            == CopyStep::ConnectSource && succeeded && same_account,
        copy_next_of(step, same_account, succeeded) != CopyNext::Run(CopyStep::ConnectSource),
{
}

/// The status of an operation that ended as `forced_failed` says, after the steps of
/// `log`.
pub fn final_status(forced_failed: bool, log: &StepLog) -> (r: &'static str)
    ensures
        forced_failed ==> r@ == "failed"@,
        !forced_failed ==> r@ == status_word(log.issue_list().len() == 0, log.succeeded_count() > 0),
{
    if forced_failed {
        "failed"
    } else {
        log.status()
    }
}

/// Law: while mailbox write tools are disabled, every check that starts by asking
/// whether they are enabled refuses with that refusal, whatever else the request holds.
pub proof fn lemma_write_tools_gated(rest: Check)
    ensures
        then_check(write_check(false), rest) == Err::<(), (ErrorKind, Seq<char>)>(
            invalid_view("write tools are disabled; set MAIL_IMAP_WRITE_ENABLED=true"@),
        ),
{
}

/// Law: deleting without `confirm=true` is always refused: a message, a mailbox, a
/// bulk list, or the matches of a search.
pub proof fn lemma_deletes_need_confirmation(
    write_enabled: bool,
    message: DeleteMessageInput,
    parsed: Result<MessageIdView, (ErrorKind, Seq<char>)>,
    mailbox: DeleteMailboxInput,
    bulk: BulkDeleteInput,
    search: SearchAndDeleteInput,
)
    requires
        !message.confirm,
        !mailbox.confirm,
        !bulk.confirm,
        !search.confirm,
    ensures
        with_message(
            then_check(
                write_check(write_enabled),
                then_check(
                    account_id_check(message.account_id@),
                    confirm_check(message.confirm, "delete requires confirm=true"@),
                ),
            ),
            parsed,
        ) is Err,
        then_check(
            write_check(write_enabled),
            then_check(
                account_id_check(mailbox.account_id@),
                then_check(
                    mailbox_check(mailbox.mailbox_name@),
                    confirm_check(mailbox.confirm, "delete mailbox requires confirm=true"@),
                ),
            ),
        ) is Err,
        then_check(
            write_check(write_enabled),
            then_check(
                account_id_check(bulk.account_id@),
                then_check(
                    confirm_check(bulk.confirm, "bulk delete requires confirm=true"@),
                    bulk_ids_check(bulk.message_ids@.len()),
                ),
            ),
        ) is Err,
        search_and_delete_check(write_enabled, search) is Err,
{
}

/// Law: a copy goes to the account named by `destination_account_id` when the request
/// names one, even another account than the source's, and to the source account only
/// when it names none.
pub proof fn lemma_copy_destination_account(input: CopyMessageInput)
    ensures
        input.destination_account_id matches Some(d) ==> copy_destination(input) == d@,
        input.destination_account_id is None ==> copy_destination(input) == input.account_id@,
        (input.destination_account_id matches Some(d) && d@ != input.account_id@)
            ==> copy_destination(input) != input.account_id@,
{
}

} // verus!
