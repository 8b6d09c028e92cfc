//! Per-instance bounded mailbox with drop-oldest overflow.
//!
//! This is the mailbox's state and its transitions; waiting for an envelope
//! to arrive is left to the caller, which retries `pop` when woken.

use vstd::prelude::*;
use std::collections::VecDeque;
use crate::envelope::Envelope;

verus! {

broadcast use vstd::std_specs::vecdeque::group_vec_dequeue_axioms;

/// What a mailbox holds: the queued envelopes, oldest first, its capacity,
/// and whether it has been closed.
pub struct MailboxModel {
    pub queue: Seq<Envelope>,
    pub capacity: nat,
    pub closed: bool,
}

/// A bounded FIFO of envelopes.
#[derive(Debug)]
pub struct Mailbox {
    capacity: usize,
    queue: VecDeque<Envelope>,
    closed: bool,
}

/// The result of a push: the id of the envelope evicted to make room.
#[derive(Debug)]
pub struct Pushed {
    pub dropped: Option<String>,
}

/// Why a receive produced no envelope.
#[derive(Debug, Clone, Copy, PartialEq, Eq, Structural)]
pub enum RecvError {
    Closed,
    Timeout,
}

/// The mailbox after pushing `e`: when full, the oldest envelope leaves.
pub open spec fn push_model(m: MailboxModel, e: Envelope) -> MailboxModel {
    if m.queue.len() == m.capacity {
        MailboxModel { queue: m.queue.drop_first().push(e), ..m }
    } else {
        MailboxModel { queue: m.queue.push(e), ..m }
    }
}

/// The envelope a push into `m` evicts, if `m` is full.
pub open spec fn push_evicts(m: MailboxModel) -> Option<Envelope> {
    if m.queue.len() == m.capacity {
        Some(m.queue[0])
    } else {
        None
    }
}

/// What a receive from `m` yields right now: the oldest envelope, `Closed`
/// once a closed mailbox is empty, or `None` when the caller must wait.
pub open spec fn pop_outcome(m: MailboxModel) -> Option<Result<Envelope, RecvError>> {
    if m.queue.len() > 0 {
        Some(Ok(m.queue[0]))
    } else if m.closed {
        Some(Err(RecvError::Closed))
    } else {
        None
    }
}

/// The mailbox after a receive.
pub open spec fn pop_model(m: MailboxModel) -> MailboxModel {
    if m.queue.len() > 0 {
        MailboxModel { queue: m.queue.drop_first(), ..m }
    } else {
        m
    }
}

/// A fresh, open, empty mailbox.
pub open spec fn empty_mailbox(capacity: nat) -> MailboxModel {
    MailboxModel { queue: Seq::empty(), capacity, closed: false }
}

/// A mailbox state that the operations keep: a positive capacity that the
/// queue never exceeds.
pub open spec fn mailbox_ok(m: MailboxModel) -> bool {
    0 < m.capacity && m.queue.len() <= m.capacity
}

impl View for Mailbox {
    type V = MailboxModel;

    closed spec fn view(&self) -> MailboxModel {
        MailboxModel { queue: self.queue@, capacity: self.capacity as nat, closed: self.closed }
    }
}

impl Mailbox {
    /// Well-formedness: the capacity bound holds.
    pub open spec fn wf(&self) -> bool {
        mailbox_ok(self@)
    }

    /// A new, open, empty mailbox of the given capacity.
    pub fn new(capacity: usize) -> (m: Mailbox)
        requires
            0 < capacity,
        ensures
            m@ == empty_mailbox(capacity as nat),
            m.wf(),
    {
        let m = Mailbox { capacity, queue: VecDeque::new(), closed: false };
        proof {
            assert(m@.queue =~= Seq::<Envelope>::empty());
        }
        m
    }

    /// Appends `env`; when the mailbox is full its oldest envelope is
    /// dropped first and its id reported.
    pub fn push(&mut self, env: Envelope) -> (p: Pushed)
        requires
            old(self).wf(),
        ensures
            final(self).wf(),
            final(self)@ == push_model(old(self)@, env),
            p.dropped matches Some(id) ==> push_evicts(old(self)@) matches Some(e) && id@ == e.id@,
            p.dropped is None <==> push_evicts(old(self)@) is None,
    {
        let dropped = if self.queue.len() == self.capacity {
            match self.queue.pop_front() {
                Some(e) => Some(e.id),
                None => None,
            }
        } else {
            None
        };
        self.queue.push_back(env);
        proof {
            if old(self)@.queue.len() == old(self)@.capacity {
                assert(old(self)@.queue.subrange(1, old(self)@.queue.len() as int)
                    =~= old(self)@.queue.drop_first());
            }
        }
        Pushed { dropped }
    }

    /// Takes the oldest envelope; `Some(Err(Closed))` once the mailbox is
    /// closed and empty; `None` when the caller must wait for a push.
    pub fn pop(&mut self) -> (r: Option<Result<Envelope, RecvError>>)
        requires
            old(self).wf(),
        ensures
            final(self).wf(),
            r == pop_outcome(old(self)@),
            final(self)@ == pop_model(old(self)@),
    {
        match self.queue.pop_front() {
            Some(e) => {
                proof {
                    assert(old(self)@.queue.subrange(1, old(self)@.queue.len() as int)
                        =~= old(self)@.queue.drop_first());
                }
                Some(Ok(e))
            },
            None => {
                if self.closed {
                    Some(Err(RecvError::Closed))
                } else {
                    None
                }
            },
        }
    }

    /// Removes and returns every queued envelope, oldest first.
    pub fn drain(&mut self) -> (v: Vec<Envelope>)
        requires
            old(self).wf(),
        ensures
            final(self).wf(),
            v@ == old(self)@.queue,
            final(self)@ == (MailboxModel { queue: Seq::empty(), ..old(self)@ }),
    {
        let mut out: Vec<Envelope> = Vec::new();
        let ghost q0 = self.queue@;
        while self.queue.len() > 0
            invariant
                self.capacity == old(self).capacity,
                self.closed == old(self).closed,
                q0 == old(self)@.queue,
                out@ + self.queue@ == q0,
            decreases self.queue@.len(),
        {
            let ghost before = self.queue@;
            match self.queue.pop_front() {
                Some(e) => {
                    out.push(e);
                    proof {
                        assert(before =~= seq![e] + self.queue@);
                        assert(out@ + self.queue@ =~= q0);
                    }
                },
                None => {},
            }
        }
        proof {
            assert(out@ =~= q0);
            assert(self@.queue =~= Seq::<Envelope>::empty());
        }
        out
    }

    /// Marks the mailbox closed; queued envelopes stay receivable.
    pub fn close(&mut self)
        requires
            old(self).wf(),
        ensures
            final(self).wf(),
            final(self)@ == (MailboxModel { closed: true, ..old(self)@ }),
    {
        self.closed = true;
    }

    /// The capacity given at creation.
    pub fn capacity(&self) -> (c: usize)
        ensures
            c as nat == self@.capacity,
    {
        self.capacity
    }

    /// The number of queued envelopes.
    pub fn len(&self) -> (n: usize)
        ensures
            n as nat == self@.queue.len(),
    {
        self.queue.len()
    }

    /// Whether the mailbox has been closed.
    pub fn is_closed(&self) -> (b: bool)
        ensures
            b == self@.closed,
    {
        self.closed
    }
}

/// A push never takes the queue past the capacity.
pub proof fn lemma_push_keeps_bound(m: MailboxModel, e: Envelope)
    requires
        mailbox_ok(m),
    ensures
        mailbox_ok(push_model(m, e)),
        push_model(m, e).queue.len() <= m.capacity,
{
}

/// A push loses nothing but the envelope it reports as evicted: the old
/// queue followed by the new envelope is the evicted one (if any) followed
/// by the new queue.
pub proof fn lemma_push_conserves(m: MailboxModel, e: Envelope)
    requires
        mailbox_ok(m),
    ensures
        m.queue.push(e) == match push_evicts(m) {
            Some(d) => seq![d] + push_model(m, e).queue,
            None => push_model(m, e).queue,
        },
{
    if m.queue.len() == m.capacity {
        assert(m.queue.push(e) =~= seq![m.queue[0]] + m.queue.drop_first().push(e));
    }
}

/// First in, first out: pushing into a mailbox with room and then receiving
/// yields the oldest envelope, which is the pushed one when it was empty.
pub proof fn lemma_fifo(m: MailboxModel, e: Envelope)
    requires
        mailbox_ok(m),
        m.queue.len() < m.capacity,
    ensures
        pop_outcome(push_model(m, e)) == Some(Ok::<Envelope, RecvError>(
            if m.queue.len() == 0 { e } else { m.queue[0] },
        )),
        pop_model(push_model(m, e)).queue == if m.queue.len() == 0 {
            Seq::<Envelope>::empty()
        } else {
            m.queue.drop_first().push(e)
        },
{
    if m.queue.len() == 0 {
        assert(m.queue.push(e).drop_first() =~= Seq::<Envelope>::empty());
    } else {
        assert(m.queue.push(e).drop_first() =~= m.queue.drop_first().push(e));
    }
}

/// Closing never discards queued envelopes: a receive from a closed,
/// non-empty mailbox still yields the oldest one.
pub proof fn lemma_close_keeps_queue(m: MailboxModel)
    requires
        m.queue.len() > 0,
    ensures
        pop_outcome(MailboxModel { closed: true, ..m }) == Some(Ok::<Envelope, RecvError>(m.queue[0])),
{
}

} // verus!
