use crate::io::io_worker::{IoWorkerProgress, JobResult, JobResultView, ProgressView};
use std::collections::VecDeque;
use vstd::prelude::*;

verus! {

/// What a worker sends to the session.
#[derive(Clone, Debug, PartialEq, Eq)]
pub enum WorkerMessage {
    Progress(IoWorkerProgress),
    Result(JobResult),
}

/// The mathematical content of a [`WorkerMessage`].
pub enum MessageView {
    Progress(ProgressView),
    Result(JobResultView),
}

impl View for WorkerMessage {
    type V = MessageView;

    open spec fn view(&self) -> MessageView {
        match self {
            WorkerMessage::Progress(p) => MessageView::Progress(p@),
            WorkerMessage::Result(r) => MessageView::Result(r@),
        }
    }
}

/// The mathematical content of an [`EventChannel`].
#[verifier::ext_equal]
pub struct ChannelView {
    /// The messages that wait to be received, oldest first.
    pub queue: Seq<MessageView>,
    /// How many snapshots may wait at a time.
    pub capacity: nat,
    /// The result has been sent; nothing more is accepted.
    pub closed: bool,
}

impl ChannelView {
    /// The invariant of a channel: only the last message that waits can be
    /// a result, a result waits only in a closed channel, and no more
    /// snapshots wait than the capacity allows.
    pub open spec fn wf(self) -> bool {
        &&& forall|i: int| 0 <= i < self.queue.len() - 1 ==> (#[trigger] self.queue[i]) is Progress
        &&& !self.closed ==> forall|i: int|
            0 <= i < self.queue.len() ==> (#[trigger] self.queue[i]) is Progress
        &&& self.snapshots() <= self.capacity
    }

    /// How many snapshots wait.
    pub open spec fn snapshots(self) -> nat {
        if self.queue.len() > 0 && self.queue.last() is Result {
            (self.queue.len() - 1) as nat
        } else {
            self.queue.len()
        }
    }

    /// Sending a snapshot: it is dropped if the channel is closed or full,
    /// else it is put behind the messages that wait.
    pub open spec fn send_progress(self, p: ProgressView) -> (ChannelView, bool) {
        if self.closed || self.snapshots() >= self.capacity {
            (self, false)
        } else {
            (ChannelView { queue: self.queue.push(MessageView::Progress(p)), ..self }, true)
        }
    }

    /// Sending the result: it is put behind the messages that wait, however
    /// many there are, and the channel is closed. A closed channel refuses it.
    pub open spec fn send_result(self, r: JobResultView) -> (ChannelView, bool) {
        if self.closed {
            (self, false)
        } else {
            (
                ChannelView { queue: self.queue.push(MessageView::Result(r)), closed: true, ..self },
                true,
            )
        }
    }

    /// Receiving: the oldest message that waits, if any.
    pub open spec fn recv(self) -> (ChannelView, Option<MessageView>) {
        if self.queue.len() == 0 {
            (self, None)
        } else {
            (ChannelView { queue: self.queue.drop_first(), ..self }, Some(self.queue.first()))
        }
    }
}

/// Sending keeps the invariant of the channel.
pub proof fn lemma_send_wf(c: ChannelView, p: ProgressView, r: JobResultView)
    requires
        c.wf(),
    ensures
        c.send_progress(p).0.wf(),
        c.send_result(r).0.wf(),
{
}

/// Receiving keeps the invariant of the channel.
pub proof fn lemma_recv_wf(c: ChannelView)
    requires
        c.wf(),
    ensures
        c.recv().0.wf(),
{
    let q = c.recv().0.queue;
    if c.queue.len() > 0 {
        assert forall|i: int| 0 <= i < q.len() - 1 implies (#[trigger] q[i]) is Progress by {
            assert(q[i] == c.queue[i + 1]);
        }
        if !c.closed {
            assert forall|i: int| 0 <= i < q.len() implies (#[trigger] q[i]) is Progress by {
                assert(q[i] == c.queue[i + 1]);
            }
        }
        if q.len() > 0 {
            assert(q.last() == c.queue.last());
        }
    }
}

/// The result is never dropped: an open channel accepts it however many
/// snapshots wait, and it is then the last message to be received.
pub proof fn lemma_result_is_delivered(c: ChannelView, r: JobResultView)
    requires
        c.wf(),
        !c.closed,
    ensures
        c.send_result(r).1,
        c.send_result(r).0.queue.last() == MessageView::Result(r),
        c.send_result(r).0.queue.drop_last() == c.queue,
{
    assert(c.send_result(r).0.queue.drop_last() =~= c.queue);
}

/// After the result nothing is accepted, so a channel carries at most one
/// result.
pub proof fn lemma_closed_channel_accepts_nothing(c: ChannelView, p: ProgressView, r: JobResultView)
    requires
        c.closed,
    ensures
        c.send_progress(p) == (c, false),
        c.send_result(r) == (c, false),
{
}

/// The path from the worker's thread to the session: a queue of snapshots,
/// bounded by a capacity, and at its end the one result.
#[derive(Debug)]
pub struct EventChannel {
    queue: VecDeque<WorkerMessage>,
    capacity: usize,
    closed: bool,
}

impl View for EventChannel {
    type V = ChannelView;

    closed spec fn view(&self) -> ChannelView {
        ChannelView {
            queue: self.queue@.map_values(|m: WorkerMessage| m@),
            capacity: self.capacity as nat,
            closed: self.closed,
        }
    }
}

impl EventChannel {
    /// An open channel in which nothing waits.
    pub fn new(capacity: usize) -> (c: EventChannel)
        ensures
            c@ == (ChannelView { queue: Seq::empty(), capacity: capacity as nat, closed: false }),
            c@.wf(),
    {
        let c = EventChannel { queue: VecDeque::new(), capacity, closed: false };
        assert(c@.queue =~= Seq::empty());
        c
    }

    /// How many messages wait.
    pub fn len(&self) -> (n: usize)
        ensures
            n == self@.queue.len(),
    {
        self.queue.len()
    }

    /// Whether the result has been sent.
    pub fn is_closed(&self) -> (r: bool)
        ensures
            r == self@.closed,
    {
        self.closed
    }

    /// Sends a snapshot without ever waiting. Returns whether it was
    /// accepted; a full or closed channel drops it.
    pub fn send_progress(&mut self, progress: IoWorkerProgress) -> (accepted: bool)
        requires
            old(self)@.wf(),
        ensures
            (final(self)@, accepted) == old(self)@.send_progress(progress@),
            final(self)@.wf(),
    {
        proof {
            lemma_send_wf(self@, progress@, JobResultView::Success(progress@));
        }
        if self.closed || self.queue.len() >= self.capacity {
            false
        } else {
            self.queue.push_back(WorkerMessage::Progress(progress));
            assert(self@.queue =~= old(self)@.queue.push(MessageView::Progress(progress@)));
            true
        }
    }

    /// Sends the result and closes the channel. Returns whether it was
    /// accepted; only a closed channel refuses.
    pub fn send_result(&mut self, result: JobResult) -> (accepted: bool)
        requires
            old(self)@.wf(),
        ensures
            (final(self)@, accepted) == old(self)@.send_result(result@),
            final(self)@.wf(),
    {
        proof {
            match result@ {
                JobResultView::Success(p) => lemma_send_wf(self@, p, result@),
                JobResultView::Failure(_, p) => lemma_send_wf(self@, p, result@),
            }
        }
        if self.closed {
            false
        } else {
            self.queue.push_back(WorkerMessage::Result(result));
            self.closed = true;
            assert(self@.queue =~= old(self)@.queue.push(MessageView::Result(result@)));
            true
        }
    }

    /// Takes the oldest message that waits, if any.
    pub fn recv(&mut self) -> (message: Option<WorkerMessage>)
        requires
            old(self)@.wf(),
        ensures
            final(self)@ == old(self)@.recv().0,
            message is Some <==> old(self)@.recv().1 is Some,
            message matches Some(m) ==> Some(m@) == old(self)@.recv().1,
            final(self)@.wf(),
    {
        proof {
            lemma_recv_wf(self@);
        }
        let message = self.queue.pop_front();
        assert(self@.queue =~= old(self)@.recv().0.queue);
        message
    }
}

} // verus!
