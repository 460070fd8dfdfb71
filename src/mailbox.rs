use vstd::prelude::*;

use crate::error::PipelineError;

verus! {

/// The state of the background task that owns a wrapped unit.
#[derive(Debug, Clone, Copy, PartialEq, Eq, Structural)]
pub enum WorkerState {
    /// Taking requests from the queue.
    Running,
    /// Stopped by a fatal error of the wrapped unit.
    Failed,
    /// Stopped after every handle was dropped and the queue drained.
    Exited,
}

/// What became of a call offered to the queue.
#[derive(Debug, Clone, Copy, PartialEq, Eq, Structural)]
pub enum Admission {
    /// The request took a slot; its answer comes on its response channel.
    Queued,
    /// Every slot is taken: the caller waits until one frees and offers again.
    Full,
}

/// What the background task does next.
#[derive(Debug, Clone, Copy, PartialEq, Eq, Structural)]
pub enum WorkerStep {
    /// Hand this request to the wrapped unit.
    Process(u64),
    /// Nothing queued while handles remain: wait for the next request.
    Wait,
    /// Stop: no handle remains and nothing is queued, or the task is down.
    Exit,
}

/// The abstract state of a mailbox: a bounded FIFO of pending request ids,
/// the one request the worker is processing, if any, the number of live
/// handles and the worker's state.
pub struct MailboxView {
    pub capacity: nat,
    pub queue: Seq<u64>,
    pub in_flight: Option<u64>,
    pub handles: nat,
    pub worker: WorkerState,
}

pub open spec fn view_wf(s: MailboxView) -> bool {
    &&& s.capacity > 0
    &&& s.queue.len() <= s.capacity
    &&& s.worker != WorkerState::Running ==> s.queue.len() == 0 && s.in_flight is None
}

/// A caller offers request `id`.
pub open spec fn offer_spec(s: MailboxView, id: u64) -> (MailboxView, Result<Admission, PipelineError>) {
    if s.worker != WorkerState::Running {
        (s, Err(PipelineError::WorkerUnavailable))
    } else if s.queue.len() >= s.capacity {
        (s, Ok(Admission::Full))
    } else {
        (MailboxView { queue: s.queue.push(id), ..s }, Ok(Admission::Queued))
    }
}

/// The worker, holding no request, decides its next step.
pub open spec fn next_spec(s: MailboxView) -> (MailboxView, WorkerStep) {
    if s.worker != WorkerState::Running {
        (s, WorkerStep::Exit)
    } else if s.in_flight is Some {
        (s, WorkerStep::Wait)
    } else if s.queue.len() > 0 {
        (
            MailboxView { queue: s.queue.drop_first(), in_flight: Some(s.queue[0]), ..s },
            WorkerStep::Process(s.queue[0]),
        )
    } else if s.handles == 0 {
        (MailboxView { worker: WorkerState::Exited, ..s }, WorkerStep::Exit)
    } else {
        (s, WorkerStep::Wait)
    }
}

/// The wrapped unit finished the request in flight; its id is returned so
/// that the answer reaches its caller.
pub open spec fn complete_spec(s: MailboxView) -> (MailboxView, Option<u64>) {
    (MailboxView { in_flight: None, ..s }, s.in_flight)
}

/// The wrapped unit failed fatally: the request in flight and every queued
/// one fail, and so will every later call.
pub open spec fn fail_spec(s: MailboxView) -> (MailboxView, Seq<u64>) {
    let pending = match s.in_flight {
        Some(id) => seq![id] + s.queue,
        None => s.queue,
    };
    (
        MailboxView {
            queue: Seq::empty(),
            in_flight: None,
            worker: WorkerState::Failed,
            ..s
        },
        pending,
    )
}

pub open spec fn clone_handle_spec(s: MailboxView) -> MailboxView {
    MailboxView { handles: s.handles + 1, ..s }
}

pub open spec fn drop_handle_spec(s: MailboxView) -> MailboxView {
    MailboxView { handles: (s.handles - 1) as nat, ..s }
}

/// One round of the worker: take the next request and finish it.
pub open spec fn round_spec(s: MailboxView) -> MailboxView {
    complete_spec(next_spec(s).0).0
}

/// `k` rounds of the worker.
pub open spec fn rounds(s: MailboxView, k: nat) -> MailboxView
    decreases k,
{
    if k == 0 {
        s
    } else {
        rounds(round_spec(s), (k - 1) as nat)
    }
}

/// A bounded queue of request ids in front of one request-processing unit,
/// drained by a single background worker.
pub struct Mailbox {
    capacity: usize,
    queue: std::collections::VecDeque<u64>,
    in_flight: Option<u64>,
    handles: usize,
    worker: WorkerState,
}

impl View for Mailbox {
    type V = MailboxView;

    closed spec fn view(&self) -> MailboxView {
        MailboxView {
            capacity: self.capacity as nat,
            queue: self.queue@,
            in_flight: self.in_flight,
            handles: self.handles as nat,
            worker: self.worker,
        }
    }
}

impl Mailbox {
    pub open spec fn wf(&self) -> bool {
        view_wf(self@)
    }

    /// A mailbox with room for `capacity` pending requests, one handle and a
    /// running worker.
    pub fn new(capacity: usize) -> (r: Self)
        requires
            capacity > 0,
        ensures
            r.wf(),
            r@ == (MailboxView {
                capacity: capacity as nat,
                queue: Seq::empty(),
                in_flight: None,
                handles: 1,
                worker: WorkerState::Running,
            }),
    {
        Mailbox {
            capacity,
            queue: std::collections::VecDeque::new(),
            in_flight: None,
            handles: 1,
            worker: WorkerState::Running,
        }
    }

    /// The number of pending requests.
    pub fn pending(&self) -> (r: usize)
        requires
            self.wf(),
        ensures
            r == self@.queue.len(),
    {
        self.queue.len()
    }

    /// The state of the background worker.
    pub fn worker_state(&self) -> (r: WorkerState)
        ensures
            r == self@.worker,
    {
        self.worker
    }

    /// The number of live handles.
    pub fn handle_count(&self) -> (r: usize)
        ensures
            r == self@.handles,
    {
        self.handles
    }

    /// Offers request `id`: queued at the back when a slot is free, `Full`
    /// (the caller waits) when none is, `WorkerUnavailable` once the worker
    /// has stopped.
    pub fn offer(&mut self, id: u64) -> (r: Result<Admission, PipelineError>)
        requires
            old(self).wf(),
        ensures
            final(self).wf(),
            (final(self)@, r) == offer_spec(old(self)@, id),
    {
        if self.worker != WorkerState::Running {
            return Err(PipelineError::WorkerUnavailable);
        }
        if self.queue.len() >= self.capacity {
            return Ok(Admission::Full);
        }
        self.queue.push_back(id);
        Ok(Admission::Queued)
    }

    /// The worker's next step; a request it takes leaves the queue from the
    /// front, so requests are served in the order they were queued.
    pub fn next(&mut self) -> (r: WorkerStep)
        requires
            old(self).wf(),
        ensures
            final(self).wf(),
            (final(self)@, r) == next_spec(old(self)@),
    {
        if self.worker != WorkerState::Running {
            return WorkerStep::Exit;
        }
        if self.in_flight.is_some() {
            return WorkerStep::Wait;
        }
        match self.queue.pop_front() {
            Some(id) => {
                self.in_flight = Some(id);
                WorkerStep::Process(id)
            },
            None => {
                if self.handles == 0 {
                    self.worker = WorkerState::Exited;
                    WorkerStep::Exit
                } else {
                    WorkerStep::Wait
                }
            },
        }
    }

    /// The request in flight is done; returns its id.
    pub fn complete(&mut self) -> (r: Option<u64>)
        requires
            old(self).wf(),
        ensures
            final(self).wf(),
            (final(self)@, r) == complete_spec(old(self)@),
    {
        let r = self.in_flight;
        self.in_flight = None;
        r
    }

    /// The worker stopped on a fatal error: returns, in order, the ids of the
    /// request in flight and of every queued one, which all fail with
    /// `WorkerUnavailable`.
    pub fn fail(&mut self) -> (r: Vec<u64>)
        requires
            old(self).wf(),
        ensures
            final(self).wf(),
            (final(self)@, r@) == fail_spec(old(self)@),
    {
        let mut failed: Vec<u64> = Vec::new();
        if let Some(id) = self.in_flight {
            failed.push(id);
        }
        let ghost start = failed@;
        let ghost q = self.queue@;
        while self.queue.len() > 0
            invariant
                failed@ + self.queue@ == start + q,
                self.capacity == old(self).capacity,
                self.handles == old(self).handles,
                self.in_flight == old(self).in_flight,
                self.worker == old(self).worker,
                start == fail_spec(old(self)@).1.take(start.len() as int),
                q == old(self)@.queue,
            decreases self.queue@.len(),
        {
            let ghost before = self.queue@;
            let ghost f = failed@;
            match self.queue.pop_front() {
                Some(id) => {
                    failed.push(id);
                    proof {
                        assert(before =~= seq![id] + self.queue@);
                        assert(failed@ + self.queue@ =~= f + before);
                    }
                },
                None => {},
            }
        }
        self.in_flight = None;
        self.worker = WorkerState::Failed;
        proof {
            assert(self.queue@ =~= Seq::<u64>::empty());
            assert(failed@ =~= start + q);
            assert(failed@ =~= fail_spec(old(self)@).1);
        }
        failed
    }

    /// One more handle shares the mailbox.
    pub fn clone_handle(&mut self)
        requires
            old(self).wf(),
            old(self)@.handles < usize::MAX,
        ensures
            final(self).wf(),
            final(self)@ == clone_handle_spec(old(self)@),
    {
        self.handles = self.handles + 1;
    }

    /// A handle is dropped.
    pub fn drop_handle(&mut self)
        requires
            old(self).wf(),
            old(self)@.handles > 0,
        ensures
            final(self).wf(),
            final(self)@ == drop_handle_spec(old(self)@),
    {
        self.handles = self.handles - 1;
    }
}

/// Every step of the mailbox keeps the queue within its capacity; a full
/// queue turns a caller away to wait, without error and without change, and
/// as soon as the worker takes a request the next caller finds a free slot.
pub proof fn lemma_bounded_admission(s: MailboxView, id: u64)
    requires
        view_wf(s),
    ensures
        view_wf(offer_spec(s, id).0),
        view_wf(next_spec(s).0),
        view_wf(complete_spec(s).0),
        view_wf(fail_spec(s).0),
        view_wf(clone_handle_spec(s)),
        view_wf(drop_handle_spec(s)),
        s.worker == WorkerState::Running && s.queue.len() == s.capacity ==> offer_spec(s, id) == (
        s, Ok::<Admission, PipelineError>(Admission::Full)),
        s.worker == WorkerState::Running && s.queue.len() == s.capacity && s.in_flight is None
            ==> offer_spec(next_spec(s).0, id).1 == Ok::<Admission, PipelineError>(
            Admission::Queued),
{
}

/// Once every handle is dropped, a running worker serves each queued request
/// in order, one round each, and then stops.
pub proof fn lemma_drain_then_exit(s: MailboxView)
    requires
        view_wf(s),
        s.worker == WorkerState::Running,
        s.in_flight is None,
        s.handles == 0,
    ensures
        rounds(s, s.queue.len()).queue.len() == 0,
        rounds(s, s.queue.len()).worker == WorkerState::Running,
        rounds(s, s.queue.len()).in_flight is None,
        next_spec(rounds(s, s.queue.len())).1 == WorkerStep::Exit,
        next_spec(rounds(s, s.queue.len())).0.worker == WorkerState::Exited,
        s.queue.len() > 0 ==> next_spec(s).1 == WorkerStep::Process(s.queue[0]),
    decreases s.queue.len(),
{
    if s.queue.len() > 0 {
        let t = round_spec(s);
        assert(t.queue.len() == s.queue.len() - 1);
        lemma_drain_then_exit(t);
        assert(rounds(s, s.queue.len()) == rounds(t, t.queue.len()));
    }
}

} // verus!
