//! The jobs and events that travel between the services through Redis: the
//! queue names, the JSON text of each job and event, and the channel each
//! user's events are published on.

use vstd::prelude::*;
use vstd::seq_lib::lemma_concat_associative;
use crate::ids::{hyphenated, uuid_string};
use crate::json::{json_string, push_json_string};
use crate::text::{chars_of, push_char, push_chars, string_of};

verus! {

/// How much of a mailbox a sync job fetches.
#[derive(Debug, Clone, Copy, PartialEq, Eq, Structural)]
pub enum SyncType {
    Full,
    Incremental,
}

/// A job asking the mail worker to synchronise a user's mail.
#[derive(Debug, Clone)]
pub struct SyncTask {
    pub user_id: u128,
    pub mailbox_name: String,
    pub sync_type: SyncType,
}

/// A job asking the search worker to index a message.
#[derive(Debug, Clone)]
pub struct IndexingTask {
    pub message_id: u128,
    pub user_id: u128,
    pub subject: Option<String>,
    pub sender: String,
    pub body_text: Option<String>,
    pub created_at: String,
    pub correlation_id: Option<String>,
}

/// The queue of sync jobs.
pub fn sync_queue_name() -> (s: String)
    ensures
        s@ == seq!['m', 'a', 'i', 'l', '_', 's', 'y', 'n', 'c', '_', 't', 'a', 's', 'k', 's'],
{
    let v = vec!['m', 'a', 'i', 'l', '_', 's', 'y', 'n', 'c', '_', 't', 'a', 's', 'k', 's'];
    assert(v@ =~= seq!['m', 'a', 'i', 'l', '_', 's', 'y', 'n', 'c', '_', 't', 'a', 's', 'k', 's']);
    string_of(v.as_slice())
}

/// The queue of indexing jobs.
pub fn indexing_queue_name() -> (s: String)
    ensures
        s@ == seq!['s', 'e', 'a', 'r', 'c', 'h', '_', 'i', 'n', 'd', 'e', 'x', 'i', 'n', 'g', '_', 't', 'a', 's', 'k', 's'],
{
    let v = vec!['s', 'e', 'a', 'r', 'c', 'h', '_', 'i', 'n', 'd', 'e', 'x', 'i', 'n', 'g', '_', 't', 'a', 's', 'k', 's'];
    assert(v@ =~= seq!['s', 'e', 'a', 'r', 'c', 'h', '_', 'i', 'n', 'd', 'e', 'x', 'i', 'n', 'g', '_', 't', 'a', 's', 'k', 's']);
    string_of(v.as_slice())
}

/// The publish/subscribe channel of `user_id`'s events.
pub open spec fn channel_of(user_id: u128) -> Seq<char> {
    seq!['u', 's', 'e', 'r', '_', 'e', 'v', 'e', 'n', 't', 's', ':'] + hyphenated(user_id)
}

/// The channel on which `user_id`'s events are published.
pub fn user_events_channel(user_id: u128) -> (s: String)
    ensures
        s@ == channel_of(user_id),
{
    let mut out = String::new();
    let v = vec!['u', 's', 'e', 'r', '_', 'e', 'v', 'e', 'n', 't', 's', ':'];
    assert(v@ =~= seq!['u', 's', 'e', 'r', '_', 'e', 'v', 'e', 'n', 't', 's', ':']);
    push_chars(&mut out, v.as_slice());
    let id = uuid_string(user_id);
    push_chars(&mut out, chars_of(id.as_str()).as_slice());
    out
}

/// The JSON text of an event of type `event_type` carrying the JSON value
/// `payload`, keys in the order serde_json's map keeps them.
pub open spec fn event_text(event_type: Seq<char>, payload: Seq<char>) -> Seq<char> {
    seq!['{', '"', 'p', 'a', 'y', 'l', 'o', 'a', 'd', '"', ':'] + payload + seq![',', '"', 't', 'y', 'p', 'e', '"', ':'] + json_string(event_type) + seq!['}']
}

/// Frames an event of type `event_type` whose payload is the JSON text
/// `payload_json`.
pub fn event_message(event_type: &str, payload_json: &str) -> (s: String)
    ensures
        s@ == event_text(event_type@, payload_json@),
{
    let mut out = String::new();
    let k1 = vec!['{', '"', 'p', 'a', 'y', 'l', 'o', 'a', 'd', '"', ':'];
    let k2 = vec![',', '"', 't', 'y', 'p', 'e', '"', ':'];
    assert(k1@ =~= seq!['{', '"', 'p', 'a', 'y', 'l', 'o', 'a', 'd', '"', ':']);
    assert(k2@ =~= seq![',', '"', 't', 'y', 'p', 'e', '"', ':']);
    push_chars(&mut out, k1.as_slice());
    push_chars(&mut out, chars_of(payload_json).as_slice());
    push_chars(&mut out, k2.as_slice());
    push_json_string(&mut out, event_type);
    push_char(&mut out, '}');
    assert(out@ =~= event_text(event_type@, payload_json@));
    out
}

/// The JSON name of a sync type: `full` or `incremental`.
pub open spec fn sync_type_text(t: SyncType) -> Seq<char> {
    match t {
        SyncType::Full => seq!['f', 'u', 'l', 'l'],
        SyncType::Incremental => seq!['i', 'n', 'c', 'r', 'e', 'm', 'e', 'n', 't', 'a', 'l'],
    }
}

/// The JSON text of a sync job: `{"user_id": .., "mailbox": .., "sync_type": "full" | "incremental"}`.
pub open spec fn sync_task_text(user_id: u128, mailbox_name: Seq<char>, t: SyncType) -> Seq<char> {
    seq!['{', '"', 'u', 's', 'e', 'r', '_', 'i', 'd', '"', ':'] + json_string(hyphenated(user_id)) + seq![',', '"', 'm', 'a', 'i', 'l', 'b', 'o', 'x', '"', ':'] + json_string(mailbox_name)
        + seq![',', '"', 's', 'y', 'n', 'c', '_', 't', 'y', 'p', 'e', '"', ':'] + json_string(sync_type_text(t)) + seq!['}']
}

/// Frames a sync job as JSON.
pub fn sync_task_json(task: &SyncTask) -> (s: String)
    ensures
        s@ == sync_task_text(task.user_id, task.mailbox_name@, task.sync_type),
{
    let mut out = String::new();
    let k1 = vec!['{', '"', 'u', 's', 'e', 'r', '_', 'i', 'd', '"', ':'];
    let k2 = vec![',', '"', 'm', 'a', 'i', 'l', 'b', 'o', 'x', '"', ':'];
    let k3 = vec![',', '"', 's', 'y', 'n', 'c', '_', 't', 'y', 'p', 'e', '"', ':'];
    assert(k1@ =~= seq!['{', '"', 'u', 's', 'e', 'r', '_', 'i', 'd', '"', ':']);
    assert(k2@ =~= seq![',', '"', 'm', 'a', 'i', 'l', 'b', 'o', 'x', '"', ':']);
    assert(k3@ =~= seq![',', '"', 's', 'y', 'n', 'c', '_', 't', 'y', 'p', 'e', '"', ':']);
    push_chars(&mut out, k1.as_slice());
    let id = uuid_string(task.user_id);
    push_json_string(&mut out, id.as_str());
    push_chars(&mut out, k2.as_slice());
    push_json_string(&mut out, task.mailbox_name.as_str());
    push_chars(&mut out, k3.as_slice());
    let t = match task.sync_type {
        SyncType::Full => vec!['f', 'u', 'l', 'l'],
        SyncType::Incremental => vec!['i', 'n', 'c', 'r', 'e', 'm', 'e', 'n', 't', 'a', 'l'],
    };
    assert(t@ =~= sync_type_text(task.sync_type));
    let ts = string_of(t.as_slice());
    push_json_string(&mut out, ts.as_str());
    push_char(&mut out, '}');
    assert(out@ =~= sync_task_text(task.user_id, task.mailbox_name@, task.sync_type));
    out
}

/// The JSON value of an optional text: `null`, or the string.
pub open spec fn opt_json(o: Option<Seq<char>>) -> Seq<char> {
    match o {
        Some(s) => json_string(s),
        None => seq!['n', 'u', 'l', 'l'],
    }
}

fn push_opt_json(out: &mut String, o: &Option<String>)
    ensures
        final(out)@ == old(out)@ + opt_json(crate::mime::opt_view(*o)),
{
    match o {
        Some(s) => push_json_string(out, s.as_str()),
        None => {
            let n = vec!['n', 'u', 'l', 'l'];
            assert(n@ =~= seq!['n', 'u', 'l', 'l']);
            push_chars(out, n.as_slice());
        },
    }
}

/// The JSON text of an indexing job, fields in declaration order.
pub open spec fn indexing_task_text(t: IndexingTask) -> Seq<char> {
    seq!['{', '"', 'm', 'e', 's', 's', 'a', 'g', 'e', '_', 'i', 'd', '"', ':'] + json_string(hyphenated(t.message_id)) + seq![',', '"', 'u', 's', 'e', 'r', '_', 'i', 'd', '"', ':'] + json_string(hyphenated(t.user_id))
        + seq![',', '"', 's', 'u', 'b', 'j', 'e', 'c', 't', '"', ':'] + opt_json(crate::mime::opt_view(t.subject)) + seq![',', '"', 's', 'e', 'n', 'd', 'e', 'r', '"', ':'] + json_string(t.sender@)
        + seq![',', '"', 'b', 'o', 'd', 'y', '_', 't', 'e', 'x', 't', '"', ':'] + opt_json(crate::mime::opt_view(t.body_text)) + seq![',', '"', 'c', 'r', 'e', 'a', 't', 'e', 'd', '_', 'a', 't', '"', ':']
        + json_string(t.created_at@) + seq![',', '"', 'c', 'o', 'r', 'r', 'e', 'l', 'a', 't', 'i', 'o', 'n', '_', 'i', 'd', '"', ':'] + opt_json(crate::mime::opt_view(t.correlation_id))
        + seq!['}']
}

/// Frames an indexing job as JSON.
pub fn indexing_task_json(task: &IndexingTask) -> (s: String)
    ensures
        s@ == indexing_task_text(*task),
{
    let mut out = String::new();
    let k1 = vec!['{', '"', 'm', 'e', 's', 's', 'a', 'g', 'e', '_', 'i', 'd', '"', ':'];
    let k2 = vec![',', '"', 'u', 's', 'e', 'r', '_', 'i', 'd', '"', ':'];
    let k3 = vec![',', '"', 's', 'u', 'b', 'j', 'e', 'c', 't', '"', ':'];
    let k4 = vec![',', '"', 's', 'e', 'n', 'd', 'e', 'r', '"', ':'];
    let k5 = vec![',', '"', 'b', 'o', 'd', 'y', '_', 't', 'e', 'x', 't', '"', ':'];
    let k6 = vec![',', '"', 'c', 'r', 'e', 'a', 't', 'e', 'd', '_', 'a', 't', '"', ':'];
    let k7 = vec![',', '"', 'c', 'o', 'r', 'r', 'e', 'l', 'a', 't', 'i', 'o', 'n', '_', 'i', 'd', '"', ':'];
    assert(k1@ =~= seq!['{', '"', 'm', 'e', 's', 's', 'a', 'g', 'e', '_', 'i', 'd', '"', ':']);
    assert(k2@ =~= seq![',', '"', 'u', 's', 'e', 'r', '_', 'i', 'd', '"', ':']);
    assert(k3@ =~= seq![',', '"', 's', 'u', 'b', 'j', 'e', 'c', 't', '"', ':']);
    assert(k4@ =~= seq![',', '"', 's', 'e', 'n', 'd', 'e', 'r', '"', ':']);
    assert(k5@ =~= seq![',', '"', 'b', 'o', 'd', 'y', '_', 't', 'e', 'x', 't', '"', ':']);
    assert(k6@ =~= seq![',', '"', 'c', 'r', 'e', 'a', 't', 'e', 'd', '_', 'a', 't', '"', ':']);
    assert(k7@ =~= seq![',', '"', 'c', 'o', 'r', 'r', 'e', 'l', 'a', 't', 'i', 'o', 'n', '_', 'i', 'd', '"', ':']);
    push_chars(&mut out, k1.as_slice());
    let mid = uuid_string(task.message_id);
    push_json_string(&mut out, mid.as_str());
    push_chars(&mut out, k2.as_slice());
    let uid = uuid_string(task.user_id);
    push_json_string(&mut out, uid.as_str());
    push_chars(&mut out, k3.as_slice());
    push_opt_json(&mut out, &task.subject);
    push_chars(&mut out, k4.as_slice());
    push_json_string(&mut out, task.sender.as_str());
    push_chars(&mut out, k5.as_slice());
    push_opt_json(&mut out, &task.body_text);
    push_chars(&mut out, k6.as_slice());
    push_json_string(&mut out, task.created_at.as_str());
    push_chars(&mut out, k7.as_slice());
    push_opt_json(&mut out, &task.correlation_id);
    push_char(&mut out, '}');
    assert(out@ =~= indexing_task_text(*task));
    out
}

/// What the mail worker got when it took a job off the sync queue.
pub enum SyncPop {
    Task(SyncTask),
    Empty,
    /// The queue could not be read, or the job could not be decoded.
    Failed,
}

/// What the mail worker does next.
#[derive(Debug, Clone, Copy, PartialEq, Eq, Structural)]
pub enum WorkerAction {
    /// Synchronise this user's mail, then take the next job.
    SyncUser(u128),
    /// Wait this many seconds, then take the next job.
    Sleep(u64),
}

/// Seconds the mail worker waits when the queue is empty.
pub const IDLE_SECONDS: u64 = 5;

/// Seconds the mail worker waits after a queue error.
pub const ERROR_BACKOFF_SECONDS: u64 = 10;

/// The mail worker's reaction to what it took off the sync queue.
pub fn next_worker_action(pop: &SyncPop) -> (a: WorkerAction)
    ensures
        a == match pop {
            SyncPop::Task(t) => WorkerAction::SyncUser(t.user_id),
            SyncPop::Empty => WorkerAction::Sleep(IDLE_SECONDS),
            SyncPop::Failed => WorkerAction::Sleep(ERROR_BACKOFF_SECONDS),
        },
{
    match pop {
        SyncPop::Task(t) => WorkerAction::SyncUser(t.user_id),
        SyncPop::Empty => WorkerAction::Sleep(IDLE_SECONDS),
        SyncPop::Failed => WorkerAction::Sleep(ERROR_BACKOFF_SECONDS),
    }
}

/// What the search worker does next.
pub enum IndexAction {
    /// Decode this job and add its message to the index.
    Index(String),
    /// Wait this many seconds, then look again.
    Sleep(u64),
}

/// The search worker's reaction to what it took off the indexing queue.
pub fn next_index_action(popped: Option<String>) -> (a: IndexAction)
    ensures
        match popped {
            Some(j) => a matches IndexAction::Index(k) && k@ == j@,
            None => a matches IndexAction::Sleep(s) && s == IDLE_SECONDS,
        },
{
    match popped {
        Some(j) => IndexAction::Index(j),
        None => IndexAction::Sleep(IDLE_SECONDS),
    }
}

proof fn lemma_regroup(
    x0: Seq<char>, x1: Seq<char>, x2: Seq<char>, x3: Seq<char>, x4: Seq<char>, x5: Seq<char>, x6: Seq<char>, x7: Seq<char>, x8: Seq<char>, x9: Seq<char>, x10: Seq<char>, x11: Seq<char>, x12: Seq<char>, x13: Seq<char>, x14: Seq<char>,
)
    ensures
        ((((((((((((((x0 + x1) + x2) + x3) + x4) + x5) + x6) + x7) + x8) + x9) + x10) + x11) + x12) + x13) + x14) == (x0 + (x1 + (x2 + (x3 + (x4 + (x5 + (x6 + (x7 + (x8 + (x9 + (x10 + (x11 + (x12 + (x13 + x14)))))))))))))),
{
    lemma_concat_associative(((((((((((((x0 + x1) + x2) + x3) + x4) + x5) + x6) + x7) + x8) + x9) + x10) + x11) + x12), x13, x14);
    lemma_concat_associative((((((((((((x0 + x1) + x2) + x3) + x4) + x5) + x6) + x7) + x8) + x9) + x10) + x11), x12, (x13 + x14));
    lemma_concat_associative(((((((((((x0 + x1) + x2) + x3) + x4) + x5) + x6) + x7) + x8) + x9) + x10), x11, (x12 + (x13 + x14)));
    lemma_concat_associative((((((((((x0 + x1) + x2) + x3) + x4) + x5) + x6) + x7) + x8) + x9), x10, (x11 + (x12 + (x13 + x14))));
    lemma_concat_associative(((((((((x0 + x1) + x2) + x3) + x4) + x5) + x6) + x7) + x8), x9, (x10 + (x11 + (x12 + (x13 + x14)))));
    lemma_concat_associative((((((((x0 + x1) + x2) + x3) + x4) + x5) + x6) + x7), x8, (x9 + (x10 + (x11 + (x12 + (x13 + x14))))));
    lemma_concat_associative(((((((x0 + x1) + x2) + x3) + x4) + x5) + x6), x7, (x8 + (x9 + (x10 + (x11 + (x12 + (x13 + x14)))))));
    lemma_concat_associative((((((x0 + x1) + x2) + x3) + x4) + x5), x6, (x7 + (x8 + (x9 + (x10 + (x11 + (x12 + (x13 + x14))))))));
    lemma_concat_associative(((((x0 + x1) + x2) + x3) + x4), x5, (x6 + (x7 + (x8 + (x9 + (x10 + (x11 + (x12 + (x13 + x14)))))))));
    lemma_concat_associative((((x0 + x1) + x2) + x3), x4, (x5 + (x6 + (x7 + (x8 + (x9 + (x10 + (x11 + (x12 + (x13 + x14))))))))));
    lemma_concat_associative(((x0 + x1) + x2), x3, (x4 + (x5 + (x6 + (x7 + (x8 + (x9 + (x10 + (x11 + (x12 + (x13 + x14)))))))))));
    lemma_concat_associative((x0 + x1), x2, (x3 + (x4 + (x5 + (x6 + (x7 + (x8 + (x9 + (x10 + (x11 + (x12 + (x13 + x14))))))))))));
    lemma_concat_associative(x0, x1, (x2 + (x3 + (x4 + (x5 + (x6 + (x7 + (x8 + (x9 + (x10 + (x11 + (x12 + (x13 + x14)))))))))))));
}

proof fn lemma_lit_cancel(l: Seq<char>, x: Seq<char>, y: Seq<char>)
    requires
        l + x == l + y,
    ensures
        x == y,
{
    assert((l + x).subrange(l.len() as int, (l + x).len() as int) =~= x);
    assert((l + y).subrange(l.len() as int, (l + y).len() as int) =~= y);
}

proof fn lemma_opt_json_cancel(o1: Option<Seq<char>>, r1: Seq<char>, o2: Option<Seq<char>>, r2: Seq<char>)
    requires
        opt_json(o1) + r1 == opt_json(o2) + r2,
    ensures
        o1 == o2,
        r1 == r2,
{
    let a = opt_json(o1) + r1;
    let b = opt_json(o2) + r2;
    match (o1, o2) {
        (Some(s1), Some(s2)) => {
            crate::json_laws::lemma_json_string_cancel(s1, r1, s2, r2);
        },
        (None, None) => {
            lemma_lit_cancel(seq!['n', 'u', 'l', 'l'], r1, r2);
        },
        (None, Some(s2)) => {
            assert(a[0] == 'n');
            assert(b[0] == json_string(s2)[0]);
        },
        (Some(s1), None) => {
            assert(b[0] == 'n');
            assert(a[0] == json_string(s1)[0]);
        },
    }
}

proof fn lemma_indexing_task_fields(t1: IndexingTask, t2: IndexingTask)
    requires
        indexing_task_text(t1) == indexing_task_text(t2),
    ensures
        hyphenated(t1.message_id) == hyphenated(t2.message_id),
        hyphenated(t1.user_id) == hyphenated(t2.user_id),
        crate::mime::opt_view(t1.subject) == crate::mime::opt_view(t2.subject),
        t1.sender@ == t2.sender@,
        crate::mime::opt_view(t1.body_text) == crate::mime::opt_view(t2.body_text),
        t1.created_at@ == t2.created_at@,
        crate::mime::opt_view(t1.correlation_id) == crate::mime::opt_view(t2.correlation_id),
{
    let t1p0 = seq!['{', '"', 'm', 'e', 's', 's', 'a', 'g', 'e', '_', 'i', 'd', '"', ':'];
    let t1p1 = json_string(hyphenated(t1.message_id));
    let t1p2 = seq![',', '"', 'u', 's', 'e', 'r', '_', 'i', 'd', '"', ':'];
    let t1p3 = json_string(hyphenated(t1.user_id));
    let t1p4 = seq![',', '"', 's', 'u', 'b', 'j', 'e', 'c', 't', '"', ':'];
    let t1p5 = opt_json(crate::mime::opt_view(t1.subject));
    let t1p6 = seq![',', '"', 's', 'e', 'n', 'd', 'e', 'r', '"', ':'];
    let t1p7 = json_string(t1.sender@);
    let t1p8 = seq![',', '"', 'b', 'o', 'd', 'y', '_', 't', 'e', 'x', 't', '"', ':'];
    let t1p9 = opt_json(crate::mime::opt_view(t1.body_text));
    let t1p10 = seq![',', '"', 'c', 'r', 'e', 'a', 't', 'e', 'd', '_', 'a', 't', '"', ':'];
    let t1p11 = json_string(t1.created_at@);
    let t1p12 = seq![',', '"', 'c', 'o', 'r', 'r', 'e', 'l', 'a', 't', 'i', 'o', 'n', '_', 'i', 'd', '"', ':'];
    let t1p13 = opt_json(crate::mime::opt_view(t1.correlation_id));
    let t1p14 = seq!['}'];
    lemma_regroup(t1p0, t1p1, t1p2, t1p3, t1p4, t1p5, t1p6, t1p7, t1p8, t1p9, t1p10, t1p11, t1p12, t1p13, t1p14);
    let t2p0 = seq!['{', '"', 'm', 'e', 's', 's', 'a', 'g', 'e', '_', 'i', 'd', '"', ':'];
    let t2p1 = json_string(hyphenated(t2.message_id));
    let t2p2 = seq![',', '"', 'u', 's', 'e', 'r', '_', 'i', 'd', '"', ':'];
    let t2p3 = json_string(hyphenated(t2.user_id));
    let t2p4 = seq![',', '"', 's', 'u', 'b', 'j', 'e', 'c', 't', '"', ':'];
    let t2p5 = opt_json(crate::mime::opt_view(t2.subject));
    let t2p6 = seq![',', '"', 's', 'e', 'n', 'd', 'e', 'r', '"', ':'];
    let t2p7 = json_string(t2.sender@);
    let t2p8 = seq![',', '"', 'b', 'o', 'd', 'y', '_', 't', 'e', 'x', 't', '"', ':'];
    let t2p9 = opt_json(crate::mime::opt_view(t2.body_text));
    let t2p10 = seq![',', '"', 'c', 'r', 'e', 'a', 't', 'e', 'd', '_', 'a', 't', '"', ':'];
    let t2p11 = json_string(t2.created_at@);
    let t2p12 = seq![',', '"', 'c', 'o', 'r', 'r', 'e', 'l', 'a', 't', 'i', 'o', 'n', '_', 'i', 'd', '"', ':'];
    let t2p13 = opt_json(crate::mime::opt_view(t2.correlation_id));
    let t2p14 = seq!['}'];
    lemma_regroup(t2p0, t2p1, t2p2, t2p3, t2p4, t2p5, t2p6, t2p7, t2p8, t2p9, t2p10, t2p11, t2p12, t2p13, t2p14);
    lemma_lit_cancel(t1p0, (t1p1 + (t1p2 + (t1p3 + (t1p4 + (t1p5 + (t1p6 + (t1p7 + (t1p8 + (t1p9 + (t1p10 + (t1p11 + (t1p12 + (t1p13 + t1p14))))))))))))), (t2p1 + (t2p2 + (t2p3 + (t2p4 + (t2p5 + (t2p6 + (t2p7 + (t2p8 + (t2p9 + (t2p10 + (t2p11 + (t2p12 + (t2p13 + t2p14))))))))))))));
    crate::json_laws::lemma_json_string_cancel(hyphenated(t1.message_id), (t1p2 + (t1p3 + (t1p4 + (t1p5 + (t1p6 + (t1p7 + (t1p8 + (t1p9 + (t1p10 + (t1p11 + (t1p12 + (t1p13 + t1p14)))))))))))), hyphenated(t2.message_id), (t2p2 + (t2p3 + (t2p4 + (t2p5 + (t2p6 + (t2p7 + (t2p8 + (t2p9 + (t2p10 + (t2p11 + (t2p12 + (t2p13 + t2p14)))))))))))));
    lemma_lit_cancel(t1p2, (t1p3 + (t1p4 + (t1p5 + (t1p6 + (t1p7 + (t1p8 + (t1p9 + (t1p10 + (t1p11 + (t1p12 + (t1p13 + t1p14))))))))))), (t2p3 + (t2p4 + (t2p5 + (t2p6 + (t2p7 + (t2p8 + (t2p9 + (t2p10 + (t2p11 + (t2p12 + (t2p13 + t2p14))))))))))));
    crate::json_laws::lemma_json_string_cancel(hyphenated(t1.user_id), (t1p4 + (t1p5 + (t1p6 + (t1p7 + (t1p8 + (t1p9 + (t1p10 + (t1p11 + (t1p12 + (t1p13 + t1p14)))))))))), hyphenated(t2.user_id), (t2p4 + (t2p5 + (t2p6 + (t2p7 + (t2p8 + (t2p9 + (t2p10 + (t2p11 + (t2p12 + (t2p13 + t2p14)))))))))));
    lemma_lit_cancel(t1p4, (t1p5 + (t1p6 + (t1p7 + (t1p8 + (t1p9 + (t1p10 + (t1p11 + (t1p12 + (t1p13 + t1p14))))))))), (t2p5 + (t2p6 + (t2p7 + (t2p8 + (t2p9 + (t2p10 + (t2p11 + (t2p12 + (t2p13 + t2p14))))))))));
    lemma_opt_json_cancel(crate::mime::opt_view(t1.subject), (t1p6 + (t1p7 + (t1p8 + (t1p9 + (t1p10 + (t1p11 + (t1p12 + (t1p13 + t1p14)))))))), crate::mime::opt_view(t2.subject), (t2p6 + (t2p7 + (t2p8 + (t2p9 + (t2p10 + (t2p11 + (t2p12 + (t2p13 + t2p14)))))))));
    lemma_lit_cancel(t1p6, (t1p7 + (t1p8 + (t1p9 + (t1p10 + (t1p11 + (t1p12 + (t1p13 + t1p14))))))), (t2p7 + (t2p8 + (t2p9 + (t2p10 + (t2p11 + (t2p12 + (t2p13 + t2p14))))))));
    crate::json_laws::lemma_json_string_cancel(t1.sender@, (t1p8 + (t1p9 + (t1p10 + (t1p11 + (t1p12 + (t1p13 + t1p14)))))), t2.sender@, (t2p8 + (t2p9 + (t2p10 + (t2p11 + (t2p12 + (t2p13 + t2p14)))))));
    lemma_lit_cancel(t1p8, (t1p9 + (t1p10 + (t1p11 + (t1p12 + (t1p13 + t1p14))))), (t2p9 + (t2p10 + (t2p11 + (t2p12 + (t2p13 + t2p14))))));
    lemma_opt_json_cancel(crate::mime::opt_view(t1.body_text), (t1p10 + (t1p11 + (t1p12 + (t1p13 + t1p14)))), crate::mime::opt_view(t2.body_text), (t2p10 + (t2p11 + (t2p12 + (t2p13 + t2p14)))));
    lemma_lit_cancel(t1p10, (t1p11 + (t1p12 + (t1p13 + t1p14))), (t2p11 + (t2p12 + (t2p13 + t2p14))));
    crate::json_laws::lemma_json_string_cancel(t1.created_at@, (t1p12 + (t1p13 + t1p14)), t2.created_at@, (t2p12 + (t2p13 + t2p14)));
    lemma_lit_cancel(t1p12, (t1p13 + t1p14), (t2p13 + t2p14));
    lemma_opt_json_cancel(crate::mime::opt_view(t1.correlation_id), t1p14, crate::mime::opt_view(t2.correlation_id), t2p14);
}

/// An indexing job's JSON text determines the job: two jobs with the same
/// text name the same message and the same owner and have the same subject, sender, body, creation time and correlation id.
/// So every field, the owner `user_id` among them, reads back from the text.
pub proof fn lemma_indexing_task_text_determines_task(t1: IndexingTask, t2: IndexingTask)
    requires
        indexing_task_text(t1) == indexing_task_text(t2),
    ensures
        t1.message_id == t2.message_id,
        t1.user_id == t2.user_id,
        crate::mime::opt_view(t1.subject) == crate::mime::opt_view(t2.subject),
        t1.sender@ == t2.sender@,
        crate::mime::opt_view(t1.body_text) == crate::mime::opt_view(t2.body_text),
        t1.created_at@ == t2.created_at@,
        crate::mime::opt_view(t1.correlation_id) == crate::mime::opt_view(t2.correlation_id),
{
    lemma_indexing_task_fields(t1, t2);
    crate::ids::lemma_hyphenated_injective(t1.message_id, t2.message_id);
    crate::ids::lemma_hyphenated_injective(t1.user_id, t2.user_id);
}

proof fn lemma_first_four_lead(
    x0: Seq<char>, x1: Seq<char>, x2: Seq<char>, x3: Seq<char>, x4: Seq<char>, x5: Seq<char>, x6: Seq<char>, x7: Seq<char>, x8: Seq<char>, x9: Seq<char>, x10: Seq<char>, x11: Seq<char>, x12: Seq<char>, x13: Seq<char>, x14: Seq<char>,
)
    ensures
        crate::text::has_prefix(((((((((((((((x0 + x1) + x2) + x3) + x4) + x5) + x6) + x7) + x8) + x9) + x10) + x11) + x12) + x13) + x14), (((x0 + x1) + x2) + x3)),
{
    lemma_concat_associative((((x0 + x1) + x2) + x3), x4, x5);
    lemma_concat_associative((((x0 + x1) + x2) + x3), (x4 + x5), x6);
    lemma_concat_associative((((x0 + x1) + x2) + x3), ((x4 + x5) + x6), x7);
    lemma_concat_associative((((x0 + x1) + x2) + x3), (((x4 + x5) + x6) + x7), x8);
    lemma_concat_associative((((x0 + x1) + x2) + x3), ((((x4 + x5) + x6) + x7) + x8), x9);
    lemma_concat_associative((((x0 + x1) + x2) + x3), (((((x4 + x5) + x6) + x7) + x8) + x9), x10);
    lemma_concat_associative((((x0 + x1) + x2) + x3), ((((((x4 + x5) + x6) + x7) + x8) + x9) + x10), x11);
    lemma_concat_associative((((x0 + x1) + x2) + x3), (((((((x4 + x5) + x6) + x7) + x8) + x9) + x10) + x11), x12);
    lemma_concat_associative((((x0 + x1) + x2) + x3), ((((((((x4 + x5) + x6) + x7) + x8) + x9) + x10) + x11) + x12), x13);
    lemma_concat_associative((((x0 + x1) + x2) + x3), (((((((((x4 + x5) + x6) + x7) + x8) + x9) + x10) + x11) + x12) + x13), x14);
    assert(((((((((((((((x0 + x1) + x2) + x3) + x4) + x5) + x6) + x7) + x8) + x9) + x10) + x11) + x12) + x13) + x14) == (((x0 + x1) + x2) + x3) + ((((((((((x4 + x5) + x6) + x7) + x8) + x9) + x10) + x11) + x12) + x13) + x14));
    assert(((((x0 + x1) + x2) + x3) + ((((((((((x4 + x5) + x6) + x7) + x8) + x9) + x10) + x11) + x12) + x13) + x14)).subrange(0, (((x0 + x1) + x2) + x3).len() as int) =~= (((x0 + x1) + x2) + x3));
}

/// An indexing job's JSON text opens with its identifying members: the
/// `message_id` member holds the hyphenated UUID of the message and the
/// `user_id` member the hyphenated UUID of its owner, as serde writes them.
pub proof fn lemma_indexing_task_names_message_and_owner(t: IndexingTask)
    ensures
        crate::text::has_prefix(
            indexing_task_text(t),
            seq!['{', '"', 'm', 'e', 's', 's', 'a', 'g', 'e', '_', 'i', 'd', '"', ':'] + json_string(hyphenated(t.message_id)) + seq![',', '"', 'u', 's', 'e', 'r', '_', 'i', 'd', '"', ':'] + json_string(hyphenated(t.user_id)),
        ),
{
    lemma_first_four_lead(seq!['{', '"', 'm', 'e', 's', 's', 'a', 'g', 'e', '_', 'i', 'd', '"', ':'], json_string(hyphenated(t.message_id)), seq![',', '"', 'u', 's', 'e', 'r', '_', 'i', 'd', '"', ':'], json_string(hyphenated(t.user_id)), seq![',', '"', 's', 'u', 'b', 'j', 'e', 'c', 't', '"', ':'], opt_json(crate::mime::opt_view(t.subject)), seq![',', '"', 's', 'e', 'n', 'd', 'e', 'r', '"', ':'], json_string(t.sender@), seq![',', '"', 'b', 'o', 'd', 'y', '_', 't', 'e', 'x', 't', '"', ':'], opt_json(crate::mime::opt_view(t.body_text)), seq![',', '"', 'c', 'r', 'e', 'a', 't', 'e', 'd', '_', 'a', 't', '"', ':'], json_string(t.created_at@), seq![',', '"', 'c', 'o', 'r', 'r', 'e', 'l', 'a', 't', 'i', 'o', 'n', '_', 'i', 'd', '"', ':'], opt_json(crate::mime::opt_view(t.correlation_id)), seq!['}']);
}

} // verus!
