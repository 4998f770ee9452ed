use std::collections::VecDeque;
use vstd::prelude::*;

verus! {

/// The abstract state of a job queue.
///
/// `sent` is every job the queue ever accepted, in order of acceptance;
/// `delivered` is every job handed to a worker, in order of delivery; `open`
/// says whether the queue still accepts jobs. The jobs still waiting are the
/// ones sent and not yet delivered. `receivers` counts the receivers still
/// attached, that is the workers that may still ask for jobs.
pub struct QueueView<T> {
    pub sent: Seq<T>,
    pub delivered: Seq<T>,
    pub open: bool,
    pub receivers: nat,
}

impl<T> QueueView<T> {
    /// Delivery follows acceptance: the delivered jobs are exactly the first
    /// jobs accepted, each once, in the same order.
    pub open spec fn wf(self) -> bool {
        &&& self.delivered.len() <= self.sent.len()
        &&& self.delivered == self.sent.take(self.delivered.len() as int)
    }

    /// The jobs accepted and not yet delivered, oldest first.
    pub open spec fn pending(self) -> Seq<T> {
        self.sent.skip(self.delivered.len() as int)
    }
}

/// Exactly-once, in-order delivery: in any reachable queue state, the job
/// handed out `i`-th is the job accepted `i`-th, so no job is handed out twice,
/// none is skipped and the order of acceptance is kept; and once no job is
/// pending (which is when a closed queue reports disconnection), every
/// accepted job has been handed out.
pub proof fn lemma_exactly_once_in_order<T>(q: QueueView<T>)
    requires
        q.wf(),
    ensures
        q.delivered.len() <= q.sent.len(),
        forall|i: int| 0 <= i < q.delivered.len() ==> #[trigger] q.delivered[i] == q.sent[i],
        q.pending().len() == 0 ==> q.delivered == q.sent,
{
    if q.pending().len() == 0 {
        assert(q.sent =~= q.sent.take(q.delivered.len() as int));
    }
}

/// What a worker gets when it asks the queue for work.
pub enum Received<T> {
    /// The oldest waiting job, now owned by the worker that asked.
    Job(T),
    /// No job is waiting, and more may come: the worker should wait.
    Empty,
    /// No job is waiting and none will come: the worker should exit.
    Disconnected,
}

/// An unbounded FIFO queue of jobs that can be closed.
///
/// Closing stops new submissions but keeps the jobs already accepted: they are
/// still handed out, oldest first, and only once none is left does a receive
/// report disconnection. So every accepted job reaches exactly one worker.
///
/// Each worker attaches itself as a receiver and detaches when it stops, for
/// whatever reason. With no receiver attached nobody could run a job, so a
/// submission is refused then, as it is on a closed queue.
pub struct JobQueue<T> {
    waiting: VecDeque<T>,
    open: bool,
    receivers: usize,
    sent: Ghost<Seq<T>>,
    delivered: Ghost<Seq<T>>,
}

impl<T> View for JobQueue<T> {
    type V = QueueView<T>;

    closed spec fn view(&self) -> QueueView<T> {
        QueueView {
            sent: self.sent@,
            delivered: self.delivered@,
            open: self.open,
            receivers: self.receivers as nat,
        }
    }
}

impl<T> JobQueue<T> {
    /// Well-formedness: the abstract state obeys its law, and the stored jobs
    /// are exactly the pending ones.
    pub closed spec fn inv(&self) -> bool {
        &&& self@.wf()
        &&& self.waiting@ == self@.pending()
    }

    /// An open queue that has seen no job and has no receiver yet.
    pub fn new() -> (r: Self)
        ensures
            r.inv(),
            r@.sent == Seq::<T>::empty(),
            r@.delivered == Seq::<T>::empty(),
            r@.open,
            r@.receivers == 0,
    {
        let r = JobQueue {
            waiting: VecDeque::new(),
            open: true,
            receivers: 0,
            sent: Ghost(Seq::empty()),
            delivered: Ghost(Seq::empty()),
        };
        proof {
            assert(r.sent@.take(0) =~= Seq::<T>::empty());
        }
        r
    }

    /// Submits a job. An open queue with at least one receiver accepts it at
    /// the back; otherwise the job is refused and handed back unchanged.
    pub fn push(&mut self, job: T) -> (r: Result<(), T>)
        requires
            old(self).inv(),
        ensures
            final(self).inv(),
            final(self)@.wf(),
            old(self)@.open && old(self)@.receivers > 0 ==> r is Ok && final(self)@ == (QueueView {
                sent: old(self)@.sent.push(job),
                ..old(self)@
            }),
            !(old(self)@.open && old(self)@.receivers > 0) ==> r == Err::<(), T>(job) && final(self)@
                == old(self)@,
    {
        if !self.open || self.receivers == 0 {
            return Err(job);
        }
        let ghost old_sent = self.sent@;
        let ghost n = self.delivered@.len() as int;
        self.waiting.push_back(job);
        self.sent = Ghost(self.sent@.push(job));
        proof {
            assert(self.sent@.take(n) =~= old_sent.take(n));
            assert(self.sent@.skip(n) =~= old_sent.skip(n).push(job));
        }
        Ok(())
    }

    /// Asks for work. Hands out the oldest waiting job if there is one;
    /// otherwise reports whether more may come.
    ///
    /// A job handed out is always the next one in order of acceptance, and
    /// disconnection is reported only once every accepted job has been handed
    /// out.
    pub fn receive(&mut self) -> (r: Received<T>)
        requires
            old(self).inv(),
        ensures
            final(self).inv(),
            final(self)@.wf(),
            match r {
                Received::Job(job) => {
                    &&& old(self)@.delivered.len() < old(self)@.sent.len()
                    &&& job == old(self)@.sent[old(self)@.delivered.len() as int]
                    &&& final(self)@ == (QueueView {
                        delivered: old(self)@.delivered.push(job),
                        ..old(self)@
                    })
                },
                Received::Empty => {
                    &&& old(self)@.delivered == old(self)@.sent
                    &&& old(self)@.open
                    &&& final(self)@ == old(self)@
                },
                Received::Disconnected => {
                    &&& old(self)@.delivered == old(self)@.sent
                    &&& !old(self)@.open
                    &&& final(self)@ == old(self)@
                },
            },
    {
        let ghost n = self.delivered@.len() as int;
        match self.waiting.pop_front() {
            Some(job) => {
                let ghost sent = self.sent@;
                self.delivered = Ghost(self.delivered@.push(job));
                proof {
                    assert(self.delivered@ =~= sent.take(n + 1));
                    assert(sent.skip(n + 1) =~= sent.skip(n).subrange(1, sent.skip(n).len() as int));
                }
                Received::Job(job)
            },
            None => {
                proof {
                    assert(self.sent@ =~= self.sent@.take(n));
                }
                if self.open {
                    Received::Empty
                } else {
                    Received::Disconnected
                }
            },
        }
    }

    /// Closes the queue: later submissions are refused, accepted jobs stay.
    pub fn close(&mut self)
        requires
            old(self).inv(),
        ensures
            final(self).inv(),
            final(self)@.wf(),
            final(self)@ == (QueueView { open: false, ..old(self)@ }),
    {
        self.open = false;
    }

    /// Attaches one more receiver.
    pub fn attach_receiver(&mut self)
        requires
            old(self).inv(),
            old(self)@.receivers < usize::MAX,
        ensures
            final(self).inv(),
            final(self)@.wf(),
            final(self)@ == (QueueView { receivers: old(self)@.receivers + 1, ..old(self)@ }),
    {
        self.receivers = self.receivers + 1;
    }

    /// Detaches one receiver.
    pub fn detach_receiver(&mut self)
        requires
            old(self).inv(),
            old(self)@.receivers > 0,
        ensures
            final(self).inv(),
            final(self)@.wf(),
            final(self)@ == (QueueView { receivers: (old(self)@.receivers - 1) as nat, ..old(self)@ }),
    {
        self.receivers = self.receivers - 1;
    }

    /// How many receivers are attached.
    pub fn receiver_count(&self) -> (r: usize)
        ensures
            r == self@.receivers,
    {
        self.receivers
    }

    /// Whether the queue is open (it may still refuse a job when no receiver
    /// is attached).
    pub fn is_open(&self) -> (r: bool)
        ensures
            r == self@.open,
    {
        self.open
    }

    /// How many accepted jobs wait to be handed out.
    pub fn pending_len(&self) -> (r: usize)
        requires
            self.inv(),
        ensures
            r == self@.sent.len() - self@.delivered.len(),
    {
        self.waiting.len()
    }
}

} // verus!
