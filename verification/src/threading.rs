//! Conversation threading. A new message joins the thread of the message it
//! answers (`In-Reply-To`), else the thread of the first message it refers to
//! (`References`, in order) that has one; failing both it starts a thread.
//! Each candidate is looked up in the store in turn, so the search is a
//! small machine: the caller performs each lookup it asks for and reports
//! the answer.

use vstd::prelude::*;
use crate::mime::{opt_view, string_views, ProcessedMessage};

verus! {

/// What the store says about one candidate message identifier.
#[derive(Debug, Clone, Copy, PartialEq, Eq, Structural)]
pub enum ThreadLookup {
    /// No stored message has this identifier.
    NoMessage,
    /// The stored message belongs to no thread.
    Unthreaded,
    /// The stored message belongs to this thread.
    Threaded(u128),
}

/// What the caller is asked to do next.
pub enum ThreadAction {
    /// Look up the thread of the stored message with this identifier.
    Lookup(String),
    /// The message joins this thread.
    UseThread(u128),
    /// Create a thread with this subject; the message joins it.
    CreateThread(Option<String>),
}

/// A thread search in progress.
pub struct ThreadSearch {
    keys: Vec<String>,
    pending: usize,
    subject: Option<String>,
}

/// The candidate identifiers of `m`, in the order they are tried.
pub open spec fn thread_keys(m: ProcessedMessage) -> Seq<Seq<char>> {
    match opt_view(m.in_reply_to) {
        Some(r) => seq![r] + string_views(m.references@),
        None => string_views(m.references@),
    }
}

/// The thread chosen from the answers for the candidates, tried in order.
pub open spec fn first_threaded(answers: Seq<ThreadLookup>) -> Option<u128>
    decreases answers.len(),
{
    if answers.len() == 0 {
        None
    } else {
        match answers[0] {
            ThreadLookup::Threaded(t) => Some(t),
            _ => first_threaded(answers.drop_first()),
        }
    }
}

impl ThreadSearch {
    /// The candidate identifiers, in order.
    pub closed spec fn keys(&self) -> Seq<Seq<char>> {
        string_views(self.keys@)
    }

    /// The index of the candidate whose lookup is awaited.
    pub closed spec fn pending(&self) -> nat {
        self.pending as nat
    }

    /// The subject a new thread gets.
    pub closed spec fn subject(&self) -> Option<Seq<char>> {
        opt_view(self.subject)
    }

    /// Starts the search for `msg`: asks for the first candidate, or for a new
    /// thread when there is none.
    pub fn start(msg: &ProcessedMessage) -> (r: (ThreadSearch, ThreadAction))
        ensures
            r.0.keys() == thread_keys(*msg),
            r.0.pending() == 0,
            r.0.subject() == opt_view(msg.subject),
            match r.1 {
                ThreadAction::Lookup(k) => thread_keys(*msg).len() > 0 && k@ == thread_keys(*msg)[0],
                ThreadAction::CreateThread(s) => thread_keys(*msg).len() == 0 && opt_view(s) == opt_view(msg.subject),
                ThreadAction::UseThread(_) => false,
            },
    {
        let mut keys: Vec<String> = Vec::new();
        match &msg.in_reply_to {
            Some(r) => {
                keys.push(r.clone());
            },
            None => {},
        }
        let ghost first = keys@;
        let mut i: usize = 0;
        while i < msg.references.len()
            invariant
                i <= msg.references@.len(),
                keys@ == first + msg.references@.subrange(0, i as int),
            decreases msg.references@.len() - i,
        {
            keys.push(msg.references[i].clone());
            assert(msg.references@.subrange(0, i + 1) =~= msg.references@.subrange(0, i as int).push(msg.references@[i as int]));
            i = i + 1;
        }
        assert(msg.references@.subrange(0, msg.references@.len() as int) =~= msg.references@);
        assert(string_views(keys@) =~= thread_keys(*msg));
        let subject = match &msg.subject {
            Some(s) => Some(s.clone()),
            None => None,
        };
        let action = if keys.len() > 0 {
            ThreadAction::Lookup(keys[0].clone())
        } else {
            ThreadAction::CreateThread(match &msg.subject {
                Some(s) => Some(s.clone()),
                None => None,
            })
        };
        (ThreadSearch { keys, pending: 0, subject }, action)
    }

    /// Takes the answer for the awaited candidate: its thread if it has one,
    /// else a request for the next candidate, else a new thread.
    pub fn on_lookup(&mut self, answer: ThreadLookup) -> (a: ThreadAction)
        requires
            old(self).pending() < old(self).keys().len(),
        ensures
            final(self).keys() == old(self).keys(),
            final(self).subject() == old(self).subject(),
            match answer {
                ThreadLookup::Threaded(t) => a matches ThreadAction::UseThread(u) && u == t,
                _ => if old(self).pending() + 1 < old(self).keys().len() {
                    &&& final(self).pending() == old(self).pending() + 1
                    &&& a matches ThreadAction::Lookup(k) && k@ == old(self).keys()[old(self).pending() + 1int]
                } else {
                    a matches ThreadAction::CreateThread(s) && opt_view(s) == old(self).subject()
                },
            },
    {
        assert(self.keys@.len() == self.keys().len());
        match answer {
            ThreadLookup::Threaded(t) => ThreadAction::UseThread(t),
            _ => {
                let len: usize = self.keys.len();
                assert(self.pending < len);
                if self.pending + 1 < len {
                    self.pending = self.pending + 1;
                    ThreadAction::Lookup(self.keys[self.pending].clone())
                } else {
                    ThreadAction::CreateThread(match &self.subject {
                        Some(s) => Some(s.clone()),
                        None => None,
                    })
                }
            },
        }
    }
}

/// Where a search goes from candidate `i` on, given the answers: the outcome
/// that `start` and `on_lookup` produce step by step, `Some(t)` for joining
/// thread `t` and `None` for a new thread.
pub open spec fn search_outcome(i: nat, answers: Seq<ThreadLookup>) -> Option<u128>
    decreases answers.len() - i,
{
    if i >= answers.len() {
        None
    } else {
        match answers[i as int] {
            ThreadLookup::Threaded(t) => Some(t),
            _ => search_outcome(i + 1, answers),
        }
    }
}

/// Threading picks the first candidate, in `In-Reply-To`-then-`References`
/// order, whose stored message has a thread; with no such candidate it starts
/// a new thread.
pub proof fn lemma_search_picks_first_threaded(answers: Seq<ThreadLookup>)
    ensures
        search_outcome(0, answers) == first_threaded(answers),
{
    lemma_search_suffix(0, answers);
    assert(answers.subrange(0, answers.len() as int) =~= answers);
}

proof fn lemma_search_suffix(i: nat, answers: Seq<ThreadLookup>)
    requires
        i <= answers.len(),
    ensures
        search_outcome(i, answers) == first_threaded(answers.subrange(i as int, answers.len() as int)),
    decreases answers.len() - i,
{
    if i < answers.len() {
        lemma_search_suffix(i + 1, answers);
        let rest = answers.subrange(i as int, answers.len() as int);
        assert(rest.drop_first() =~= answers.subrange(i + 1int, answers.len() as int));
        assert(rest[0] == answers[i as int]);
    } else {
        assert(answers.subrange(i as int, answers.len() as int).len() == 0);
    }
}

} // verus!
