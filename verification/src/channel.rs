use std::collections::VecDeque;
use vstd::prelude::*;

verus! {

/// Mathematical content of a [`JobChannel`]: the whole history of what was
/// sent, how much of it has been handed out, and whether sending is still
/// possible.
pub struct ChannelView<J> {
    /// Every job ever accepted, in the order of acceptance.
    pub sent: Seq<J>,
    /// Number of jobs already handed to a receiver.
    pub received: nat,
    /// Whether the sending side is still open.
    pub open: bool,
}

impl<J> ChannelView<J> {
    /// A channel that has seen no traffic.
    pub open spec fn fresh() -> Self {
        ChannelView { sent: Seq::empty(), received: 0, open: true }
    }

    /// No more jobs were handed out than were sent.
    pub open spec fn inv(self) -> bool {
        self.received <= self.sent.len()
    }

    /// The jobs still waiting, oldest first.
    pub open spec fn pending(self) -> Seq<J> {
        self.sent.skip(self.received as int)
    }

    /// The channel after accepting `job`.
    pub open spec fn send(self, job: J) -> Self {
        ChannelView { sent: self.sent.push(job), ..self }
    }

    /// The channel after handing out its oldest waiting job.
    pub open spec fn take(self) -> Self {
        ChannelView { received: self.received + 1, ..self }
    }

    /// The channel after its sending side was closed.
    pub open spec fn close(self) -> Self {
        ChannelView { open: false, ..self }
    }
}

/// Why a receive attempt produced no job.
#[derive(Debug, Clone, Copy, PartialEq, Eq)]
pub enum TryRecvError {
    /// Nothing is waiting, but the sending side is still open.
    Empty,
    /// Nothing is waiting and nothing will ever arrive.
    Disconnected,
}

/// An unbounded first-in first-out transport of jobs whose sending side can
/// be closed exactly once.
pub struct JobChannel<J> {
    queue: VecDeque<J>,
    open: bool,
    sent: Ghost<Seq<J>>,
    received: Ghost<nat>,
}

impl<J> View for JobChannel<J> {
    type V = ChannelView<J>;

    closed spec fn view(&self) -> ChannelView<J> {
        ChannelView { sent: self.sent@, received: self.received@, open: self.open }
    }
}

impl<J> JobChannel<J> {
    /// The queue holds exactly the part of the history not yet handed out.
    pub closed spec fn wf(&self) -> bool {
        &&& self@.inv()
        &&& self.queue@ == self@.pending()
    }

    /// A well-formed channel satisfies the invariant of its view.
    pub proof fn lemma_wf_inv(&self)
        requires
            self.wf(),
        ensures
            self@.inv(),
    {
    }

    /// Creates an open, empty channel.
    pub fn new() -> (ch: Self)
        ensures
            ch.wf(),
            ch@ == ChannelView::<J>::fresh(),
    {
        let ch = JobChannel {
            queue: VecDeque::new(),
            open: true,
            sent: Ghost(Seq::empty()),
            received: Ghost(0),
        };
        assert(ch.queue@ =~= ch@.pending());
        ch
    }

    /// Whether the sending side is still open.
    pub fn is_open(&self) -> (b: bool)
        ensures
            b == self@.open,
    {
        self.open
    }

    /// Number of jobs waiting to be received.
    pub fn len(&self) -> (n: usize)
        requires
            self.wf(),
        ensures
            n == self@.pending().len(),
    {
        self.queue.len()
    }

    /// Appends `job` to the queue while the channel is open; a closed
    /// channel hands the job back untouched.
    pub fn send(&mut self, job: J) -> (r: Result<(), J>)
        requires
            old(self).wf(),
        ensures
            final(self).wf(),
            old(self)@.open ==> r is Ok && final(self)@ == old(self)@.send(job),
            !old(self)@.open ==> r == Err::<(), J>(job) && final(self)@ == old(self)@,
    {
        if self.open {
            self.queue.push_back(job);
            proof {
                self.sent@ = self.sent@.push(job);
                assert(self.queue@ =~= self@.pending());
            }
            Ok(())
        } else {
            Err(job)
        }
    }

    /// Hands out the oldest waiting job. Jobs that were accepted before the
    /// channel was closed are still delivered; `Disconnected` is reported
    /// only once the queue has drained.
    pub fn try_recv(&mut self) -> (r: Result<J, TryRecvError>)
        requires
            old(self).wf(),
        ensures
            final(self).wf(),
            match r {
                Ok(job) => {
                    &&& old(self)@.pending().len() > 0
                    &&& job == old(self)@.pending()[0]
                    &&& final(self)@ == old(self)@.take()
                },
                Err(TryRecvError::Empty) => {
                    &&& old(self)@.pending().len() == 0
                    &&& old(self)@.open
                    &&& final(self)@ == old(self)@
                },
                Err(TryRecvError::Disconnected) => {
                    &&& old(self)@.pending().len() == 0
                    &&& !old(self)@.open
                    &&& final(self)@ == old(self)@
                },
            },
    {
        match self.queue.pop_front() {
            Some(job) => {
                proof {
                    self.received@ = self.received@ + 1;
                    assert(self.queue@ =~= self@.pending());
                }
                Ok(job)
            },
            None => {
                if self.open {
                    Err(TryRecvError::Empty)
                } else {
                    Err(TryRecvError::Disconnected)
                }
            },
        }
    }

    /// Closes the sending side. Waiting jobs stay receivable.
    pub fn close(&mut self)
        requires
            old(self).wf(),
        ensures
            final(self).wf(),
            final(self)@ == old(self)@.close(),
    {
        self.open = false;
    }
}

} // verus!
