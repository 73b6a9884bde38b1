//! Mailboxes and messages as the API serves them, and the decisions of the
//! listing and sending endpoints.

use vstd::prelude::*;
use crate::text::{chars_equal, chars_of, string_of};

verus! {

/// Paging of a message listing.
pub struct Pagination {
    pub limit: Option<i64>,
    pub offset: Option<i64>,
}

/// Messages per page when the request names no limit.
pub const DEFAULT_PAGE_LIMIT: i64 = 50;

impl Pagination {
    /// The limit and offset to query with: 50 and 0 unless the request names them.
    pub fn resolve(&self) -> (r: (i64, i64))
        ensures
            r.0 == match self.limit {
                Some(l) => l,
                None => DEFAULT_PAGE_LIMIT,
            },
            r.1 == match self.offset {
                Some(o) => o,
                None => 0i64,
            },
    {
        let limit = match self.limit {
            Some(l) => l,
            None => DEFAULT_PAGE_LIMIT,
        };
        let offset = match self.offset {
            Some(o) => o,
            None => 0,
        };
        (limit, offset)
    }
}

/// The role of a mailbox.
#[derive(Debug, Clone, Copy, PartialEq, Eq, Structural)]
pub enum MailboxType {
    Inbox,
    Sent,
    Drafts,
    Trash,
    Spam,
    Archive,
    Custom,
}

/// The name under which the database stores a mailbox role: the variant's
/// name in lower case.
pub open spec fn db_name_of(t: MailboxType) -> Seq<char> {
    match t {
        MailboxType::Inbox => seq!['i', 'n', 'b', 'o', 'x'],
        MailboxType::Sent => seq!['s', 'e', 'n', 't'],
        MailboxType::Drafts => seq!['d', 'r', 'a', 'f', 't', 's'],
        MailboxType::Trash => seq!['t', 'r', 'a', 's', 'h'],
        MailboxType::Spam => seq!['s', 'p', 'a', 'm'],
        MailboxType::Archive => seq!['a', 'r', 'c', 'h', 'i', 'v', 'e'],
        MailboxType::Custom => seq!['c', 'u', 's', 't', 'o', 'm'],
    }
}

/// The role that the database name `s` stands for, if any.
pub open spec fn role_named(s: Seq<char>) -> Option<MailboxType> {
    if s == seq!['i', 'n', 'b', 'o', 'x'] {
        Some(MailboxType::Inbox)
    } else
    if s == seq!['s', 'e', 'n', 't'] {
        Some(MailboxType::Sent)
    } else
    if s == seq!['d', 'r', 'a', 'f', 't', 's'] {
        Some(MailboxType::Drafts)
    } else
    if s == seq!['t', 'r', 'a', 's', 'h'] {
        Some(MailboxType::Trash)
    } else
    if s == seq!['s', 'p', 'a', 'm'] {
        Some(MailboxType::Spam)
    } else
    if s == seq!['a', 'r', 'c', 'h', 'i', 'v', 'e'] {
        Some(MailboxType::Archive)
    } else
    if s == seq!['c', 'u', 's', 't', 'o', 'm'] {
        Some(MailboxType::Custom)
    } else {
        None
    }
}

impl MailboxType {
    /// The database name of this role.
    pub fn db_name(&self) -> (s: String)
        ensures
            s@ == db_name_of(*self),
    {
        let v = match self {
            MailboxType::Inbox => vec!['i', 'n', 'b', 'o', 'x'],
            MailboxType::Sent => vec!['s', 'e', 'n', 't'],
            MailboxType::Drafts => vec!['d', 'r', 'a', 'f', 't', 's'],
            MailboxType::Trash => vec!['t', 'r', 'a', 's', 'h'],
            MailboxType::Spam => vec!['s', 'p', 'a', 'm'],
            MailboxType::Archive => vec!['a', 'r', 'c', 'h', 'i', 'v', 'e'],
            MailboxType::Custom => vec!['c', 'u', 's', 't', 'o', 'm'],
        };
        assert(v@ =~= db_name_of(*self));
        string_of(v.as_slice())
    }

    /// The role stored under the database name `s`.
    pub fn from_db_name(s: &str) -> (r: Option<MailboxType>)
        ensures
            r == role_named(s@),
    {
        let c = chars_of(s);
        let k = vec!['i', 'n', 'b', 'o', 'x'];
        assert(k@ =~= db_name_of(MailboxType::Inbox));
        if chars_equal(c.as_slice(), k.as_slice()) {
            return Some(MailboxType::Inbox);
        }
        let k = vec!['s', 'e', 'n', 't'];
        assert(k@ =~= db_name_of(MailboxType::Sent));
        if chars_equal(c.as_slice(), k.as_slice()) {
            return Some(MailboxType::Sent);
        }
        let k = vec!['d', 'r', 'a', 'f', 't', 's'];
        assert(k@ =~= db_name_of(MailboxType::Drafts));
        if chars_equal(c.as_slice(), k.as_slice()) {
            return Some(MailboxType::Drafts);
        }
        let k = vec!['t', 'r', 'a', 's', 'h'];
        assert(k@ =~= db_name_of(MailboxType::Trash));
        if chars_equal(c.as_slice(), k.as_slice()) {
            return Some(MailboxType::Trash);
        }
        let k = vec!['s', 'p', 'a', 'm'];
        assert(k@ =~= db_name_of(MailboxType::Spam));
        if chars_equal(c.as_slice(), k.as_slice()) {
            return Some(MailboxType::Spam);
        }
        let k = vec!['a', 'r', 'c', 'h', 'i', 'v', 'e'];
        assert(k@ =~= db_name_of(MailboxType::Archive));
        if chars_equal(c.as_slice(), k.as_slice()) {
            return Some(MailboxType::Archive);
        }
        let k = vec!['c', 'u', 's', 't', 'o', 'm'];
        assert(k@ =~= db_name_of(MailboxType::Custom));
        if chars_equal(c.as_slice(), k.as_slice()) {
            return Some(MailboxType::Custom);
        }
        None
    }
}

/// Reading back a stored role gives the role that was stored, and distinct
/// roles are stored under distinct names.
pub proof fn lemma_mailbox_type_round_trip(t: MailboxType, u: MailboxType)
    ensures
        role_named(db_name_of(t)) == Some(t),
        db_name_of(t) == db_name_of(u) ==> t == u,
{
    assert(db_name_of(MailboxType::Inbox) != db_name_of(MailboxType::Sent));
    match t {
        MailboxType::Inbox => {},
        MailboxType::Sent => { assert(db_name_of(t)[0] != db_name_of(MailboxType::Inbox)[0]); },
        MailboxType::Drafts => { assert(db_name_of(t)[0] != db_name_of(MailboxType::Inbox)[0]); },
        MailboxType::Trash => { assert(db_name_of(t)[0] != db_name_of(MailboxType::Inbox)[0]); },
        MailboxType::Spam => { assert(db_name_of(t)[0] != db_name_of(MailboxType::Inbox)[0]); },
        MailboxType::Archive => { assert(db_name_of(t)[0] != db_name_of(MailboxType::Inbox)[0]); },
        MailboxType::Custom => { assert(db_name_of(t)[0] != db_name_of(MailboxType::Inbox)[0]); },
    }
}

/// The name of a mailbox role as the type spells it (`Inbox`, `Sent`, ...).
pub open spec fn role_title(t: MailboxType) -> Seq<char> {
    match t {
        MailboxType::Inbox => seq!['I', 'n', 'b', 'o', 'x'],
        MailboxType::Sent => seq!['S', 'e', 'n', 't'],
        MailboxType::Drafts => seq!['D', 'r', 'a', 'f', 't', 's'],
        MailboxType::Trash => seq!['T', 'r', 'a', 's', 'h'],
        MailboxType::Spam => seq!['S', 'p', 'a', 'm'],
        MailboxType::Archive => seq!['A', 'r', 'c', 'h', 'i', 'v', 'e'],
        MailboxType::Custom => seq!['C', 'u', 's', 't', 'o', 'm'],
    }
}

/// `c` in ASCII lower case.
pub open spec fn ascii_lower(c: char) -> char {
    if 'A' <= c && c <= 'Z' {
        ((c as u32) + 32) as char
    } else {
        c
    }
}

/// Each mailbox role is stored under its own name in lower case (the
/// database enum's `rename_all = "lowercase"`): `Trash` as `trash`, `Spam` as
/// `spam`, and so on; the stored name reads back as the same role.
pub proof fn lemma_db_name_is_lowercase_role_name(t: MailboxType)
    ensures
        db_name_of(t) == role_title(t).map_values(|c: char| ascii_lower(c)),
        role_named(role_title(t).map_values(|c: char| ascii_lower(c))) == Some(t),
{
    let lower = role_title(t).map_values(|c: char| ascii_lower(c));
    assert(ascii_lower('I') == 'i' && ascii_lower('S') == 's' && ascii_lower('D') == 'd' && ascii_lower('T') == 't'
        && ascii_lower('A') == 'a' && ascii_lower('C') == 'c');
    assert(lower =~= db_name_of(t));
    lemma_mailbox_type_round_trip(t, t);
}

/// A mailbox of a user.
pub struct UserMailbox {
    pub id: u128,
    pub user_id: u128,
    pub name: String,
    pub mailbox_type: MailboxType,
    /// Creation time, in microseconds since the Unix epoch.
    pub created_at: i64,
}

/// A stored message, as listings show it.
pub struct StoredMessage {
    pub id: u128,
    pub user_id: u128,
    pub mailbox_id: u128,
    pub thread_id: Option<u128>,
    pub sender: String,
    pub recipients: Vec<String>,
    pub subject: Option<String>,
    pub snippet: Option<String>,
    pub is_read: bool,
    pub is_starred: bool,
    pub is_archived: bool,
    /// Creation time, in microseconds since the Unix epoch.
    pub created_at: i64,
}

/// A request to send a message.
pub struct SendEmailRequest {
    pub to: Vec<String>,
    pub subject: String,
    pub body: String,
}

/// A built email, as lettre sends it.
#[verifier::external_type_specification]
#[verifier::external_body]
pub struct ExLettreMessage(lettre::Message);

/// Whether lettre accepts `s` as a mailbox (`Mailbox::from_str`).
pub uninterp spec fn mailbox_parses(s: Seq<char>) -> bool;

/// `<lettre::message::Mailbox as FromStr>::from_str`, telling whether lettre
/// accepts `s` as a mailbox; which texts it accepts is a function of the text.
#[verifier::external_body]
fn mailbox_valid(s: &str) -> (b: bool)
    ensures
        b == mailbox_parses(s@),
{
    s.parse::<lettre::message::Mailbox>().is_ok()
}

/// The fields of an email to send: one sender, one recipient, a subject and
/// a plain-text body.
pub struct OutgoingEmail {
    pub from: String,
    pub to: String,
    pub subject: String,
    pub body: String,
}

/// An email ready to send: its fields, and the message lettre built from
/// exactly those fields. Only `build_email` makes one.
pub struct PreparedEmail {
    fields: OutgoingEmail,
    message: lettre::Message,
}

impl PreparedEmail {
    /// The fields the message was built from.
    pub closed spec fn email(&self) -> OutgoingEmail {
        self.fields
    }

    /// The fields the message was built from.
    pub fn fields(&self) -> (f: &OutgoingEmail)
        ensures
            *f == self.email(),
    {
        &self.fields
    }

    /// The message lettre built from `self.email()`, to hand to a transport.
    pub fn into_message(self) -> lettre::Message {
        self.message
    }
}

/// `lettre::Message::builder()` with `from` and `to` the mailboxes that
/// `Mailbox::from_str` reads from `email.from` and `email.to`, then
/// `subject(email.subject)` and `body(email.body)`, kept together with the
/// fields it was built from; `None` when either address is not a mailbox.
/// Stated: the result holds exactly the given fields, and building succeeds
/// exactly when both addresses parse (lettre's `build` fails only for a
/// missing sender or recipient, or several senders without a `Sender`). The
/// message also carries the current date, so the lettre value itself is not
/// stated beyond being built from these fields.
#[verifier::external_body]
fn build_email(email: OutgoingEmail) -> (r: Option<PreparedEmail>)
    ensures
        r matches Some(p) ==> p.email() == email,
        r is Some == (mailbox_parses(email.from@) && mailbox_parses(email.to@)),
{
    let from = email.from.parse::<lettre::message::Mailbox>().ok()?;
    let to = email.to.parse::<lettre::message::Mailbox>().ok()?;
    let message = lettre::Message::builder().from(from).to(to).subject(email.subject.as_str()).body(email.body.clone()).ok()?;
    Some(PreparedEmail { fields: email, message })
}

/// The email that `sender` sends with `req`: from the sender, to the first
/// listed recipient, with the requested subject and body.
pub fn outgoing_email(sender: &str, req: &SendEmailRequest) -> (e: OutgoingEmail)
    requires
        req.to@.len() > 0,
    ensures
        e.from@ == sender@,
        e.to@ == req.to@[0]@,
        e.subject@ == req.subject@,
        e.body@ == req.body@,
{
    OutgoingEmail {
        from: sender.to_owned(),
        to: req.to[0].clone(),
        subject: req.subject.clone(),
        body: req.body.clone(),
    }
}

/// Prepares the message that `sender` sends with `req`, whose sender and
/// first recipient are valid mailboxes.
pub fn prepare_email(sender: &str, req: &SendEmailRequest) -> (p: PreparedEmail)
    requires
        req.to@.len() > 0,
        mailbox_parses(sender@),
        mailbox_parses(req.to@[0]@),
    ensures
        p.email().from@ == sender@,
        p.email().to@ == req.to@[0]@,
        p.email().subject@ == req.subject@,
        p.email().body@ == req.body@,
{
    let fields = outgoing_email(sender, req);
    build_email(fields).unwrap()
}

/// Why a message could not be prepared for sending.
#[derive(Debug, Clone, Copy, PartialEq, Eq, Structural)]
pub enum PrepareError {
    /// The sender's address is not a valid mailbox.
    InvalidSender,
    /// The first recipient's address is not a valid mailbox.
    InvalidRecipient,
}

/// Prepares the message that `sender` sends with `req`, first checking that
/// the sender and the first recipient are valid mailboxes.
pub fn checked_prepare_email(sender: &str, req: &SendEmailRequest) -> (r: Result<PreparedEmail, PrepareError>)
    requires
        req.to@.len() > 0,
    ensures
        !mailbox_parses(sender@) ==> r == Err::<PreparedEmail, PrepareError>(PrepareError::InvalidSender),
        mailbox_parses(sender@) && !mailbox_parses(req.to@[0]@) ==> r == Err::<PreparedEmail, PrepareError>(PrepareError::InvalidRecipient),
        mailbox_parses(sender@) && mailbox_parses(req.to@[0]@) ==> (r matches Ok(p) && {
            &&& p.email().from@ == sender@
            &&& p.email().to@ == req.to@[0]@
            &&& p.email().subject@ == req.subject@
            &&& p.email().body@ == req.body@
        }),
{
    if !mailbox_valid(sender) {
        return Err(PrepareError::InvalidSender);
    }
    if !mailbox_valid(req.to[0].as_str()) {
        return Err(PrepareError::InvalidRecipient);
    }
    Ok(prepare_email(sender, req))
}

/// Where a sent message is filed.
#[derive(Debug, Clone, Copy, PartialEq, Eq, Structural)]
pub enum SentMailbox {
    /// The user's existing mailbox of type `sent`.
    Existing(u128),
    /// No such mailbox was found: create one named `Sent` of type `sent`.
    Create,
}

/// Chooses the mailbox a sent message is filed in, given the lookup of the
/// user's `sent` mailbox: `Some(id)` when it found one. A failed lookup
/// counts as not found.
pub fn sent_mailbox(found: Option<u128>) -> (r: SentMailbox)
    ensures
        r == match found {
            Some(id) => SentMailbox::Existing(id),
            None => SentMailbox::Create,
        },
{
    match found {
        Some(id) => SentMailbox::Existing(id),
        None => SentMailbox::Create,
    }
}

/// The name given to a created mailbox for sent messages.
pub fn sent_mailbox_name() -> (s: String)
    ensures
        s@ == seq!['S', 'e', 'n', 't'],
{
    let v = vec!['S', 'e', 'n', 't'];
    assert(v@ =~= seq!['S', 'e', 'n', 't']);
    string_of(v.as_slice())
}

/// The stored copy of a sent message.
pub struct SentMessageRecord {
    pub user_id: u128,
    pub mailbox_id: u128,
    pub sender: String,
    pub recipients: Vec<String>,
    pub subject: String,
    pub body_text: String,
    pub is_read: bool,
}

/// The copy of the message that `user_id` (address `sender`) sent with `req`,
/// filed in `mailbox_id` and marked read.
pub fn sent_message_record(user_id: u128, sender: &str, mailbox_id: u128, req: &SendEmailRequest) -> (r: SentMessageRecord)
    ensures
        r.user_id == user_id,
        r.mailbox_id == mailbox_id,
        r.sender@ == sender@,
        r.recipients@.len() == req.to@.len(),
        forall|i: int| 0 <= i < req.to@.len() ==> (#[trigger] r.recipients@[i])@ == req.to@[i]@,
        r.subject@ == req.subject@,
        r.body_text@ == req.body@,
        r.is_read,
{
    let mut recipients: Vec<String> = Vec::new();
    let mut i: usize = 0;
    while i < req.to.len()
        invariant
            i <= req.to@.len(),
            recipients@.len() == i,
            forall|j: int| 0 <= j < i ==> (#[trigger] recipients@[j])@ == req.to@[j]@,
        decreases req.to@.len() - i,
    {
        recipients.push(req.to[i].clone());
        i = i + 1;
    }
    SentMessageRecord {
        user_id,
        mailbox_id,
        sender: sender.to_owned(),
        recipients,
        subject: req.subject.clone(),
        body_text: req.body.clone(),
        is_read: true,
    }
}

/// The status a send request is answered with: `200` when the message was
/// sent and filed, `500` when sending or filing failed.
pub fn send_status(sent: bool, filed: bool) -> (s: u16)
    ensures
        s == if sent && filed { 200u16 } else { 500u16 },
{
    if sent && filed {
        200
    } else {
        500
    }
}

} // verus!
