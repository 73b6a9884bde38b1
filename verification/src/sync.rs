//! The mail worker's bookkeeping around a sync run: the IMAP account it
//! connects to, where raw messages and attachments are stored, and how the
//! last synchronised UID is kept.

use vstd::prelude::*;
use crate::ids::{fresh_uuid, hyphenated, uuid_string};
use crate::mime::{lit_unnamed, opt_view, string_views, ProcessedMessage};
use crate::tasks::IndexingTask;
use crate::json::{decimal, push_decimal};
use crate::text::{chars_of, push_char, push_chars, string_of};

verus! {

/// The IMAP account of a user.
pub struct ImapClient {
    pub host: String,
    pub port: u16,
    pub username: String,
    pub password_encrypted: String,
}

impl ImapClient {
    /// The account described by a stored credentials row; the port column is
    /// converted to `u16` as `as u16` converts (its low sixteen bits).
    pub fn from_credentials(host: String, port: i32, username: String, password_encrypted: String) -> (c: ImapClient)
        ensures
            c.host == host,
            c.port == port as u16,
            c.username == username,
            c.password_encrypted == password_encrypted,
    {
        ImapClient { host, port: port as u16, username, password_encrypted }
    }
}

/// The last synchronised UID of a mailbox, from its stored `last_uid_next`
/// column, converted to `u32` as `as u32` converts (its low 32 bits).
pub fn last_synced_uid(stored: Option<i64>) -> (r: Option<u32>)
    ensures
        r == match stored {
            Some(u) => Some(u as u32),
            None => None::<u32>,
        },
{
    match stored {
        Some(u) => Some(u as u32),
        None => None,
    }
}

/// The first UID to ask the server for: the one after the last synchronised
/// UID (saturating at the largest UID), or 1 for a mailbox never synchronised.
pub open spec fn first_uid_of(last: Option<u32>) -> u32 {
    match last {
        Some(l) => if l == u32::MAX { l } else { (l + 1) as u32 },
        None => 1,
    }
}

/// A fetched UID is new when it lies above the last synchronised UID.
pub open spec fn is_new_uid(uid: u32, last: Option<u32>) -> bool {
    match last {
        Some(l) => uid > l,
        None => true,
    }
}

/// The IMAP UID set `{first}:*` of the messages to fetch.
pub fn uid_fetch_set(last: Option<u32>) -> (s: String)
    ensures
        s@ == decimal(first_uid_of(last) as nat) + seq![':', '*'],
{
    let first: u32 = match last {
        Some(l) => if l == u32::MAX { l } else { l + 1 },
        None => 1,
    };
    let mut out = String::new();
    push_decimal(&mut out, first as usize);
    push_char(&mut out, ':');
    push_char(&mut out, '*');
    assert(out@ =~= decimal(first_uid_of(last) as nat) + seq![':', '*']);
    out
}

/// Whether a fetched message with `uid` still has to be stored. The server
/// answers `n:*` with at least one message even when none lies above `n`,
/// so the answer is filtered.
pub fn uid_is_new(uid: u32, last: Option<u32>) -> (b: bool)
    ensures
        b == is_new_uid(uid, last),
{
    match last {
        Some(l) => uid > l,
        None => true,
    }
}

/// Once a message is stored its UID becomes the last synchronised UID, so it
/// is not stored again, while every UID above it is still fetched and stored.
pub proof fn lemma_stored_uid_not_refetched(uid: u32, later: u32)
    ensures
        !is_new_uid(uid, Some(uid)),
        later > uid ==> is_new_uid(later, Some(uid)) && first_uid_of(Some(uid)) <= later,
{
}

/// The stored form of a UID.
pub fn uid_column(uid: u32) -> (r: i64)
    ensures
        r == uid as i64,
{
    uid as i64
}

/// A UID written to the `last_uid_next` column reads back as the same UID.
pub proof fn lemma_uid_column_round_trip(uid: u32)
    ensures
        (uid as i64) as u32 == uid,
{
}

/// The key a raw message is stored under: its `Message-ID` when it has one,
/// else a fresh UUID in hyphenated form.
pub fn raw_message_key(message_id: &Option<String>) -> (k: String)
    ensures
        match opt_view(*message_id) {
            Some(m) => k@ == m,
            None => exists|u: u128| k@ == #[trigger] hyphenated(u),
        },
{
    match message_id {
        Some(m) => m.clone(),
        None => uuid_string(fresh_uuid()),
    }
}

/// Where raw messages and attachments are written.
pub struct Storage {
    pub base_path: String,
}

/// The directory used when no storage path is configured.
pub open spec fn default_storage_path() -> Seq<char> {
    seq!['.', '/', 'd', 'a', 't', 'a']
}

impl Storage {
    /// The storage rooted at the configured path, or at `./data`.
    pub fn new(configured: Option<String>) -> (s: Storage)
        ensures
            s.base_path@ == match opt_view(configured) {
                Some(p) => p,
                None => default_storage_path(),
            },
    {
        match configured {
            Some(p) => Storage { base_path: p },
            None => {
                let v = vec!['.', '/', 'd', 'a', 't', 'a'];
                assert(v@ =~= seq!['.', '/', 'd', 'a', 't', 'a']);
                Storage { base_path: string_of(v.as_slice()) }
            },
        }
    }
}

/// The directory, relative to the storage root, of a message's attachments.
pub open spec fn attachment_dir_of(message_key: Seq<char>) -> Seq<char> {
    seq!['a', 't', 't', 'a', 'c', 'h', 'm', 'e', 'n', 't', 's', '/'] + message_key
}

/// The directory, relative to the storage root, of raw messages.
pub open spec fn raw_dir() -> Seq<char> {
    seq!['r', 'a', 'w']
}

/// The file name of a raw message.
pub open spec fn raw_file_of(message_key: Seq<char>) -> Seq<char> {
    message_key + seq!['.', 'e', 'm', 'l']
}

fn concat_chars(a: &[char], b: &[char]) -> (s: String)
    ensures
        s@ == a@ + b@,
{
    let mut out = string_of(a);
    push_chars(&mut out, b);
    out
}

/// `attachments/{message_key}`.
pub fn attachment_dir(message_key: &str) -> (s: String)
    ensures
        s@ == attachment_dir_of(message_key@),
{
    let p = vec!['a', 't', 't', 'a', 'c', 'h', 'm', 'e', 'n', 't', 's', '/'];
    assert(p@ =~= seq!['a', 't', 't', 'a', 'c', 'h', 'm', 'e', 'n', 't', 's', '/']);
    let k = chars_of(message_key);
    concat_chars(p.as_slice(), k.as_slice())
}

/// `name` is a single path component: not empty, not `.` or `..`, and
/// without a path separator or a NUL character.
pub open spec fn is_single_component(name: Seq<char>) -> bool {
    &&& name.len() > 0
    &&& name != seq!['.']
    &&& name != seq!['.', '.']
    &&& forall|i: int| 0 <= i < name.len() ==> #[trigger] name[i] != '/' && name[i] != '\\' && name[i] != '\0'
}

/// The file name an attachment is stored under: its own name when that is a
/// single path component, else `unnamed`, so that it stays inside the
/// message's attachment directory.
pub open spec fn stored_file_name(name: Seq<char>) -> Seq<char> {
    if is_single_component(name) {
        name
    } else {
        lit_unnamed()
    }
}

/// Whether `name` is a single path component.
pub fn single_component(name: &str) -> (b: bool)
    ensures
        b == is_single_component(name@),
{
    let c = chars_of(name);
    if c.len() == 0 {
        return false;
    }
    if c.len() == 1 && c[0] == '.' {
        assert(c@ =~= seq!['.']);
        return false;
    }
    if c.len() == 2 && c[0] == '.' && c[1] == '.' {
        assert(c@ =~= seq!['.', '.']);
        return false;
    }
    assert(c@ != seq!['.']) by {
        if c@.len() == 1 {
            assert(c@[0] == seq!['.'][0] ==> c@ =~= seq!['.']);
        }
    }
    assert(c@ != seq!['.', '.']) by {
        if c@.len() == 2 {
            assert(c@[0] == '.' && c@[1] == '.' ==> c@ =~= seq!['.', '.']);
        }
    }
    let mut i: usize = 0;
    while i < c.len()
        invariant
            i <= c@.len(),
            c@ == name@,
            forall|j: int| 0 <= j < i ==> #[trigger] c@[j] != '/' && c@[j] != '\\' && c@[j] != '\0',
        decreases c@.len() - i,
    {
        if c[i] == '/' || c[i] == '\\' || c[i] == '\0' {
            return false;
        }
        i = i + 1;
    }
    true
}

/// The path, relative to the storage root, of an attachment of the stored
/// message `message_id`: `attachments/{message_id}/{file name}`.
pub open spec fn attachment_path_of(message_id: u128, name: Seq<char>) -> Seq<char> {
    attachment_dir_of(hyphenated(message_id)) + seq!['/'] + stored_file_name(name)
}

/// `attachments/{message_id}/{file name}`, the file name made safe as
/// `stored_file_name` says.
pub fn attachment_path(message_id: u128, name: &str) -> (s: String)
    ensures
        s@ == attachment_path_of(message_id, name@),
{
    let id = uuid_string(message_id);
    let mut out = attachment_dir(id.as_str());
    push_char(&mut out, '/');
    if single_component(name) {
        push_chars(&mut out, chars_of(name).as_slice());
    } else {
        let u = vec!['u', 'n', 'n', 'a', 'm', 'e', 'd'];
        assert(u@ =~= lit_unnamed());
        push_chars(&mut out, u.as_slice());
    }
    out
}

/// An attachment whose file name is a plain single name (not empty, not `.`
/// or `..`, without `/`, `\\` or NUL; spaces, dots and any other characters
/// allowed) is stored under exactly that name in its message's directory,
/// `attachments/{message_id}/{name}`; a name holding a path separator is
/// stored as `unnamed` instead, so nothing is written outside the directory.
pub proof fn lemma_attachment_names_kept(message_id: u128, name: Seq<char>)
    ensures
        name.len() > 0 && name != seq!['.'] && name != seq!['.', '.']
            && (forall|i: int| 0 <= i < name.len() ==> #[trigger] name[i] != '/' && name[i] != '\\' && name[i] != '\0')
            ==> attachment_path_of(message_id, name) == seq!['a', 't', 't', 'a', 'c', 'h', 'm', 'e', 'n', 't', 's', '/']
            + hyphenated(message_id) + seq!['/'] + name,
        (exists|i: int| 0 <= i < name.len() && (#[trigger] name[i] == '/' || name[i] == '\\'))
            ==> attachment_path_of(message_id, name) == seq!['a', 't', 't', 'a', 'c', 'h', 'm', 'e', 'n', 't', 's', '/']
            + hyphenated(message_id) + seq!['/', 'u', 'n', 'n', 'a', 'm', 'e', 'd'],
{
    assert(seq!['/'] + lit_unnamed() =~= seq!['/', 'u', 'n', 'n', 'a', 'm', 'e', 'd']);
    let base = seq!['a', 't', 't', 'a', 'c', 'h', 'm', 'e', 'n', 't', 's', '/'] + hyphenated(message_id);
    assert(base + seq!['/'] + lit_unnamed() =~= base + seq!['/', 'u', 'n', 'n', 'a', 'm', 'e', 'd']);
}

/// The indexing job for the message stored as `message_id` for `user_id`,
/// created at `created_at`: its subject, its sender (empty without `From`,
/// as the stored row has it) and its plain-text body.
pub fn indexing_task_for(message_id: u128, user_id: u128, msg: &ProcessedMessage, created_at: String) -> (t: IndexingTask)
    ensures
        t.message_id == message_id,
        t.user_id == user_id,
        opt_view(t.subject) == opt_view(msg.subject),
        t.sender@ == match opt_view(msg.from) {
            Some(f) => f,
            None => Seq::<char>::empty(),
        },
        opt_view(t.body_text) == opt_view(msg.body_text),
        t.created_at == created_at,
        t.correlation_id is None,
{
    let sender = match &msg.from {
        Some(f) => f.clone(),
        None => String::new(),
    };
    IndexingTask {
        message_id,
        user_id,
        subject: msg.subject.clone(),
        sender,
        body_text: msg.body_text.clone(),
        created_at,
        correlation_id: None,
    }
}

/// What a sync run starts with, given the user's stored IMAP credentials.
pub enum SyncStart {
    /// The user has no IMAP credentials: nothing to synchronise.
    NoCredentials,
    /// Connect to this account.
    Connect(ImapClient),
}

/// Decides how a sync run starts from the credentials row, if there is one:
/// host, port column, user name and stored password.
pub fn sync_start(credentials: Option<(String, i32, String, String)>) -> (s: SyncStart)
    ensures
        match credentials {
            None => s is NoCredentials,
            Some((h, p, u, w)) => s matches SyncStart::Connect(c) && c.host == h && c.port == p as u16
                && c.username == u && c.password_encrypted == w,
        },
{
    match credentials {
        None => SyncStart::NoCredentials,
        Some((h, p, u, w)) => SyncStart::Connect(ImapClient::from_credentials(h, p, u, w)),
    }
}

/// How many connection attempts a sync run makes before it gives up.
pub const CONNECT_ATTEMPTS: u32 = 5;

/// `2` to the power `k`.
pub open spec fn doubling(k: nat) -> nat
    decreases k,
{
    if k == 0 {
        1
    } else {
        2 * doubling((k - 1) as nat)
    }
}

/// After `failures` failed connection attempts in a row: wait `2^(failures-1)`
/// seconds (1, 2, 4, 8) and try again, until `CONNECT_ATTEMPTS` attempts have
/// failed; then give up (`None`).
pub open spec fn retry_after(failures: u32) -> Option<u64> {
    if 1 <= failures && failures < CONNECT_ATTEMPTS {
        Some(doubling((failures - 1) as nat) as u64)
    } else {
        None
    }
}

/// The wait before the next connection attempt after `failures` failed ones,
/// or `None` to give up.
pub fn connect_retry_delay(failures: u32) -> (r: Option<u64>)
    ensures
        r == retry_after(failures),
{
    if failures < 1 || failures >= CONNECT_ATTEMPTS {
        return None;
    }
    let mut d: u64 = 1;
    let mut k: u32 = 1;
    while k < failures
        invariant
            1 <= k <= failures,
            failures < CONNECT_ATTEMPTS,
            d == doubling((k - 1) as nat),
            d <= 8,
        decreases failures - k,
    {
        assert(doubling(k as nat) == 2 * doubling((k - 1) as nat));
        assert(doubling(1) == 2 && doubling(2) == 4 && doubling(3) == 8) by {
            reveal_with_fuel(doubling, 4);
        }
        d = d * 2;
        k = k + 1;
    }
    Some(d)
}

/// The waits between connection attempts grow exponentially: each is twice
/// the one before, starting at one second, and the run gives up after
/// `CONNECT_ATTEMPTS` failed attempts.
pub proof fn lemma_backoff_doubles(failures: u32)
    ensures
        retry_after(1) == Some(1u64),
        1 <= failures && failures + 1 < CONNECT_ATTEMPTS ==> (retry_after((failures + 1) as u32) matches Some(d2)
            && retry_after(failures) matches Some(d1) && d2 == 2 * d1),
        failures >= CONNECT_ATTEMPTS ==> retry_after(failures) is None,
{
    if 1 <= failures && failures + 1 < CONNECT_ATTEMPTS {
        assert(doubling(failures as nat) == 2 * doubling((failures - 1) as nat));
        assert(doubling(1) == 2 && doubling(2) == 4 && doubling(3) == 8) by {
            reveal_with_fuel(doubling, 4);
        }
    }
}

/// `raw`.
pub fn raw_dir_name() -> (s: String)
    ensures
        s@ == raw_dir(),
{
    let p = vec!['r', 'a', 'w'];
    assert(p@ =~= seq!['r', 'a', 'w']);
    string_of(p.as_slice())
}

/// `{message_key}.eml`.
pub fn raw_file_name(message_key: &str) -> (s: String)
    ensures
        s@ == raw_file_of(message_key@),
{
    let e = vec!['.', 'e', 'm', 'l'];
    assert(e@ =~= seq!['.', 'e', 'm', 'l']);
    let k = chars_of(message_key);
    concat_chars(k.as_slice(), e.as_slice())
}


/// The columns of a stored message.
pub struct MessageRow {
    pub user_id: u128,
    pub mailbox_id: u128,
    pub thread_id: u128,
    pub remote_uid: i64,
    pub message_id: Option<String>,
    pub sender: String,
    pub recipients: Vec<String>,
    pub subject: Option<String>,
    pub body_text: Option<String>,
    pub body_html: Option<String>,
    pub in_reply_to: Option<String>,
    pub references_list: Vec<String>,
    pub s3_key: String,
}

/// The row storing the processed message `msg`, fetched with `remote_uid`
/// from `mailbox_id`, in thread `thread_id`, with its raw form under
/// `s3_key`; a message without `From` is stored with an empty sender.
pub fn message_row(
    user_id: u128,
    mailbox_id: u128,
    thread_id: u128,
    remote_uid: u32,
    msg: ProcessedMessage,
    s3_key: String,
) -> (r: MessageRow)
    ensures
        r.user_id == user_id,
        r.mailbox_id == mailbox_id,
        r.thread_id == thread_id,
        r.remote_uid == remote_uid as i64,
        opt_view(r.message_id) == opt_view(msg.message_id),
        r.sender@ == match opt_view(msg.from) {
            Some(f) => f,
            None => Seq::<char>::empty(),
        },
        string_views(r.recipients@) == string_views(msg.to@),
        opt_view(r.subject) == opt_view(msg.subject),
        opt_view(r.body_text) == opt_view(msg.body_text),
        opt_view(r.body_html) == opt_view(msg.body_html),
        opt_view(r.in_reply_to) == opt_view(msg.in_reply_to),
        string_views(r.references_list@) == string_views(msg.references@),
        r.s3_key == s3_key,
{
    let sender = match msg.from {
        Some(f) => f,
        None => String::new(),
    };
    MessageRow {
        user_id,
        mailbox_id,
        thread_id,
        remote_uid: remote_uid as i64,
        message_id: msg.message_id,
        sender,
        recipients: msg.to,
        subject: msg.subject,
        body_text: msg.body_text,
        body_html: msg.body_html,
        in_reply_to: msg.in_reply_to,
        references_list: msg.references,
        s3_key,
    }
}

/// The stored form of an attachment size.
pub fn size_column(size: usize) -> (r: i64)
    ensures
        r == size as i64,
{
    size as i64
}

/// One step of storing a fetched message, in the order the worker takes them.
/// The database steps, from `SaveMessage` to `Commit`, run in one transaction.
#[derive(Debug, Clone, Copy, PartialEq, Eq, Structural)]
pub enum StoreStep {
    /// Upload the raw message.
    UploadRaw,
    /// Open the database transaction.
    Begin,
    /// Save the message row (in the transaction).
    SaveMessage,
    /// Upload the attachment at this position.
    UploadAttachment(usize),
    /// Save the row of the attachment at this position (in the transaction).
    SaveAttachment(usize),
    /// Record this UID as the mailbox's last synchronised UID (in the transaction).
    RecordUid(u32),
    /// Commit the transaction: the rows and the UID are kept together.
    Commit,
    /// Queue the stored message for indexing.
    QueueIndexing,
    /// The message is stored and its UID recorded.
    Finished,
    /// Undo the transaction after a failed step.
    Rollback,
    /// The message is not stored and its UID not recorded; it is fetched
    /// again by the next sync.
    Abandoned,
}

/// How a step went.
#[derive(Debug, Clone, Copy, PartialEq, Eq, Structural)]
pub enum StepOutcome {
    Done,
    Failed,
}

/// A step taken inside the open transaction.
pub open spec fn in_transaction(step: StoreStep) -> bool {
    ||| step is SaveMessage
    ||| step is UploadAttachment
    ||| step is SaveAttachment
    ||| step is RecordUid
    ||| step is Commit
}

/// The step after `step` went as `outcome`, for a message with `attachments`
/// attachments fetched with `uid`. A failure inside the transaction rolls it
/// back; a failure before it abandons the message. Queueing for indexing
/// comes after the commit, so its failure cannot undo the stored message.
pub open spec fn next_step(step: StoreStep, attachments: usize, uid: u32, outcome: StepOutcome) -> StoreStep {
    match step {
        StoreStep::Finished => StoreStep::Finished,
        StoreStep::Abandoned => StoreStep::Abandoned,
        StoreStep::Rollback => StoreStep::Abandoned,
        StoreStep::QueueIndexing => StoreStep::Finished,
        _ => match outcome {
            StepOutcome::Failed => if in_transaction(step) {
                StoreStep::Rollback
            } else {
                StoreStep::Abandoned
            },
            StepOutcome::Done => match step {
                StoreStep::UploadRaw => StoreStep::Begin,
                StoreStep::Begin => StoreStep::SaveMessage,
                StoreStep::SaveMessage => if attachments == 0 {
                    StoreStep::RecordUid(uid)
                } else {
                    StoreStep::UploadAttachment(0)
                },
                StoreStep::UploadAttachment(i) => StoreStep::SaveAttachment(i),
                StoreStep::SaveAttachment(i) => if i + 1 < attachments {
                    StoreStep::UploadAttachment((i + 1) as usize)
                } else {
                    StoreStep::RecordUid(uid)
                },
                StoreStep::RecordUid(_) => StoreStep::Commit,
                _ => StoreStep::QueueIndexing,
            },
        },
    }
}

/// The step reached after the outcomes `outcomes` of the steps taken so far,
/// starting from `UploadRaw`.
pub open spec fn step_after(attachments: usize, uid: u32, outcomes: Seq<StepOutcome>) -> StoreStep
    decreases outcomes.len(),
{
    if outcomes.len() == 0 {
        StoreStep::UploadRaw
    } else {
        next_step(step_after(attachments, uid, outcomes.drop_last()), attachments, uid, outcomes.last())
    }
}

/// The first step of storing a message.
pub fn first_store_step() -> (s: StoreStep)
    ensures
        forall|attachments: usize, uid: u32| s == step_after(attachments, uid, Seq::<StepOutcome>::empty()),
{
    StoreStep::UploadRaw
}

/// The step that follows `step`, which went as `outcome`, for a message with
/// `attachments` attachments fetched with `uid`.
pub fn next_store_step(step: StoreStep, attachments: usize, uid: u32, outcome: StepOutcome) -> (s: StoreStep)
    ensures
        s == next_step(step, attachments, uid, outcome),
{
    match step {
        StoreStep::Finished => StoreStep::Finished,
        StoreStep::Abandoned => StoreStep::Abandoned,
        StoreStep::Rollback => StoreStep::Abandoned,
        StoreStep::QueueIndexing => StoreStep::Finished,
        _ => match outcome {
            StepOutcome::Failed => match step {
                StoreStep::UploadRaw | StoreStep::Begin => StoreStep::Abandoned,
                _ => StoreStep::Rollback,
            },
            StepOutcome::Done => match step {
                StoreStep::UploadRaw => StoreStep::Begin,
                StoreStep::Begin => StoreStep::SaveMessage,
                StoreStep::SaveMessage => if attachments == 0 {
                    StoreStep::RecordUid(uid)
                } else {
                    StoreStep::UploadAttachment(0)
                },
                StoreStep::UploadAttachment(i) => StoreStep::SaveAttachment(i),
                StoreStep::SaveAttachment(i) => if attachments > 0 && i < attachments - 1 {
                    StoreStep::UploadAttachment(i + 1)
                } else {
                    StoreStep::RecordUid(uid)
                },
                StoreStep::RecordUid(_) => StoreStep::Commit,
                _ => StoreStep::QueueIndexing,
            },
        },
    }
}

/// The position of the commit among the steps: raw upload, begin, message
/// row, two steps per attachment, UID.
pub open spec fn commit_position(attachments: usize) -> int {
    4 + 2 * attachments
}

/// How many steps, all done, lead to a step on the way to a stored message.
pub open spec fn steps_before(step: StoreStep, attachments: usize) -> int {
    match step {
        StoreStep::UploadRaw => 0,
        StoreStep::Begin => 1,
        StoreStep::SaveMessage => 2,
        StoreStep::UploadAttachment(i) => 3 + 2 * i,
        StoreStep::SaveAttachment(i) => 4 + 2 * i,
        StoreStep::RecordUid(_) => 3 + 2 * attachments,
        StoreStep::Commit => commit_position(attachments),
        StoreStep::QueueIndexing => commit_position(attachments) + 1,
        _ => -1,
    }
}

/// A step on the way to a stored message (not an end, not a rollback).
pub open spec fn on_the_way(step: StoreStep) -> bool {
    !(step is Finished) && !(step is Abandoned) && !(step is Rollback)
}

/// The first `k` steps all succeeded.
pub open spec fn all_done(outcomes: Seq<StepOutcome>, k: int) -> bool {
    forall|j: int| 0 <= j < k ==> outcomes[j] == StepOutcome::Done
}

/// The transaction was committed: every step up to and including the commit
/// succeeded. Only then do the message row, the attachment rows and the
/// recorded UID exist.
pub open spec fn committed(attachments: usize, outcomes: Seq<StepOutcome>) -> bool {
    outcomes.len() > commit_position(attachments) && all_done(outcomes, commit_position(attachments) + 1)
}

proof fn lemma_on_the_way(attachments: usize, uid: u32, outcomes: Seq<StepOutcome>)
    requires
        on_the_way(step_after(attachments, uid, outcomes)),
    ensures
        outcomes.len() == steps_before(step_after(attachments, uid, outcomes), attachments),
        all_done(outcomes, outcomes.len() as int),
        step_after(attachments, uid, outcomes) matches StoreStep::UploadAttachment(i) ==> i < attachments,
        step_after(attachments, uid, outcomes) matches StoreStep::SaveAttachment(i) ==> i < attachments,
        step_after(attachments, uid, outcomes) matches StoreStep::RecordUid(u) ==> u == uid,
    decreases outcomes.len(),
{
    if outcomes.len() > 0 {
        let prev = outcomes.drop_last();
        lemma_on_the_way(attachments, uid, prev);
        assert forall|k: int| 0 <= k < outcomes.len() implies outcomes[k] == StepOutcome::Done by {
            if k < prev.len() {
                assert(prev[k] == outcomes[k]);
            }
        }
    }
}

proof fn lemma_prefix_done(outcomes: Seq<StepOutcome>, k: int)
    requires
        0 <= k <= outcomes.len(),
        all_done(outcomes.drop_last(), k),
        k < outcomes.len(),
    ensures
        all_done(outcomes, k),
{
    assert forall|j: int| 0 <= j < k implies outcomes[j] == StepOutcome::Done by {
        assert(outcomes.drop_last()[j] == outcomes[j]);
    }
}

/// Storing a message is all or nothing. It ends stored (`Finished`) exactly
/// when the transaction was committed, that is when every step up to the
/// commit succeeded, so the message row, its attachment rows and its recorded
/// UID exist together. It ends `Abandoned` only after a failure before the
/// commit, and a failure inside the transaction is followed by `Rollback`, so
/// nothing of the transaction is kept and the UID is not recorded. The
/// indexing job is queued only after the commit.
pub proof fn lemma_store_all_or_nothing(attachments: usize, uid: u32, outcomes: Seq<StepOutcome>)
    ensures
        step_after(attachments, uid, outcomes) is Finished ==> committed(attachments, outcomes),
        step_after(attachments, uid, outcomes) is QueueIndexing ==> committed(attachments, outcomes),
        step_after(attachments, uid, outcomes) is Abandoned ==> !committed(attachments, outcomes),
        step_after(attachments, uid, outcomes) is Abandoned ==> exists|k: int|
            0 <= k < outcomes.len() && k <= commit_position(attachments) && #[trigger] outcomes[k] == StepOutcome::Failed,
        step_after(attachments, uid, outcomes) is Rollback ==> {
            &&& !committed(attachments, outcomes)
            &&& 2 <= outcomes.len() - 1 <= commit_position(attachments)
            &&& all_done(outcomes, outcomes.len() - 1)
            &&& outcomes.last() == StepOutcome::Failed
        },
        committed(attachments, outcomes) ==> step_after(attachments, uid, outcomes) is QueueIndexing
            || step_after(attachments, uid, outcomes) is Finished,
        step_after(attachments, uid, outcomes) matches StoreStep::RecordUid(u) ==> u == uid,
    decreases outcomes.len(),
{
    let st = step_after(attachments, uid, outcomes);
    let c = commit_position(attachments);
    if on_the_way(st) {
        lemma_on_the_way(attachments, uid, outcomes);
    }
    if outcomes.len() > 0 {
        let prev = outcomes.drop_last();
        let ps = step_after(attachments, uid, prev);
        lemma_store_all_or_nothing(attachments, uid, prev);
        if on_the_way(ps) {
            lemma_on_the_way(attachments, uid, prev);
        }
        if committed(attachments, prev) {
            lemma_prefix_done(outcomes, c + 1);
        }
        if st is Finished || st is QueueIndexing {
            if ps is QueueIndexing || ps is Finished {
                lemma_prefix_done(outcomes, c + 1);
            } else {
                assert(ps is Commit);
                assert(outcomes.last() == StepOutcome::Done);
                lemma_prefix_done(outcomes, c);
                assert(all_done(outcomes, c + 1));
            }
        }
        if st is Abandoned {
            let k: int = if ps is Abandoned {
                let k0 = choose|k: int| 0 <= k < prev.len() && k <= c && #[trigger] prev[k] == StepOutcome::Failed;
                assert(outcomes[k0] == prev[k0]);
                k0
            } else if ps is Rollback {
                assert(outcomes[prev.len() - 1] == prev.last());
                prev.len() - 1
            } else {
                assert(outcomes.last() == StepOutcome::Failed);
                prev.len() as int
            };
            assert(0 <= k < outcomes.len() && k <= c && outcomes[k] == StepOutcome::Failed);
        }
        if st is Rollback {
            assert(on_the_way(ps));
            assert(outcomes.last() == StepOutcome::Failed);
            lemma_prefix_done(outcomes, prev.len() as int);
        }
    }
}

} // verus!
