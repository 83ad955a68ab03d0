use vstd::prelude::*;

use std::collections::VecDeque;

verus! {

/// The first-in-first-out hand-off from the relay to the delivery worker. Producers enqueue
/// normalized messages; the single consumer takes them in the order they were enqueued. Once
/// closed, no producer is left: the consumer drains what remains and then stops.
pub struct DeliveryQueue {
    items: VecDeque<String>,
    closed: bool,
}

/// What the delivery worker does next.
pub enum WorkerStep {
    /// Inject this message into the local target.
    Deliver(String),
    /// Nothing is queued yet: wait for a producer.
    Wait,
    /// Nothing is queued and no producer is left: stop.
    Finish,
}

/// The queue after `msgs` were enqueued one after the other, first to last.
pub open spec fn enqueue_all(q: Seq<String>, msgs: Seq<String>) -> Seq<String>
    decreases msgs.len(),
{
    if msgs.len() == 0 {
        q
    } else {
        enqueue_all(q.push(msgs[0]), msgs.drop_first())
    }
}

/// The messages that `n` dequeues hand out, in the order they come.
pub open spec fn dequeue_n(q: Seq<String>, n: nat) -> Seq<String>
    decreases n,
{
    if n == 0 || q.len() == 0 {
        Seq::empty()
    } else {
        seq![q[0]] + dequeue_n(q.skip(1), (n - 1) as nat)
    }
}

impl View for DeliveryQueue {
    type V = Seq<String>;

    closed spec fn view(&self) -> Seq<String> {
        self.items@
    }
}

impl DeliveryQueue {
    /// Whether no producer is left.
    pub closed spec fn spec_closed(&self) -> bool {
        self.closed
    }

    /// An empty, open queue.
    pub fn new() -> (r: DeliveryQueue)
        ensures
            r@ == Seq::<String>::empty(),
            !r.spec_closed(),
    {
        DeliveryQueue { items: VecDeque::new(), closed: false }
    }

    /// Adds a message at the back.
    pub fn enqueue(&mut self, msg: String)
        ensures
            final(self)@ == old(self)@.push(msg),
            final(self).spec_closed() == old(self).spec_closed(),
    {
        self.items.push_back(msg);
    }

    /// Takes the message at the front, if there is one.
    pub fn dequeue(&mut self) -> (r: Option<String>)
        ensures
            old(self)@.len() == 0 ==> r is None && final(self)@ == old(self)@,
            old(self)@.len() > 0 ==> r == Some(old(self)@[0]) && final(self)@ == old(self)@.skip(1),
            final(self).spec_closed() == old(self).spec_closed(),
    {
        let r = self.items.pop_front();
        proof {
            if old(self)@.len() > 0 {
                assert(self@ =~= old(self)@.skip(1));
            }
        }
        r
    }

    /// Marks that no producer is left.
    pub fn close(&mut self)
        ensures
            final(self)@ == old(self)@,
            final(self).spec_closed(),
    {
        self.closed = true;
    }

    pub fn is_closed(&self) -> (r: bool)
        ensures
            r == self.spec_closed(),
    {
        self.closed
    }

    pub fn len(&self) -> (r: usize)
        ensures
            r == self@.len(),
    {
        self.items.len()
    }

    /// The worker's next step: deliver the front message when there is one, else stop once
    /// no producer is left, else wait.
    pub fn next_step(&mut self) -> (r: WorkerStep)
        ensures
            old(self)@.len() > 0 ==> r == WorkerStep::Deliver(old(self)@[0]) && final(self)@
                == old(self)@.skip(1),
            old(self)@.len() == 0 ==> final(self)@ == old(self)@ && r == (if old(
                self,
            ).spec_closed() {
                WorkerStep::Finish
            } else {
                WorkerStep::Wait
            }),
            final(self).spec_closed() == old(self).spec_closed(),
    {
        match self.dequeue() {
            Some(m) => WorkerStep::Deliver(m),
            None => {
                if self.closed {
                    WorkerStep::Finish
                } else {
                    WorkerStep::Wait
                }
            },
        }
    }
}

proof fn lemma_enqueue_all(q: Seq<String>, msgs: Seq<String>)
    ensures
        enqueue_all(q, msgs) == q + msgs,
    decreases msgs.len(),
{
    if msgs.len() > 0 {
        lemma_enqueue_all(q.push(msgs[0]), msgs.drop_first());
        assert(q.push(msgs[0]) + msgs.drop_first() =~= q + msgs);
    } else {
        assert(q + msgs =~= q);
    }
}

proof fn lemma_dequeue_all(q: Seq<String>)
    ensures
        dequeue_n(q, q.len()) == q,
    decreases q.len(),
{
    if q.len() > 0 {
        lemma_dequeue_all(q.skip(1));
        assert(seq![q[0]] + q.skip(1) =~= q);
    }
}

/// Messages enqueued one after another into an empty queue come out of it in exactly the
/// order they went in, each once.
pub proof fn lemma_fifo_order(msgs: Seq<String>)
    ensures
        dequeue_n(enqueue_all(Seq::empty(), msgs), msgs.len()) == msgs,
{
    lemma_enqueue_all(Seq::empty(), msgs);
    assert(Seq::<String>::empty() + msgs =~= msgs);
    lemma_dequeue_all(msgs);
}

} // verus!
