//! The bookkeeping of a fixed pool of workers fed by one shared FIFO queue of
//! messages: a job ticket, or a signal for one worker to stop.
//!
//! The threads themselves live outside this module; each of them asks the
//! pool what to do next and reports when a job is done.
use vstd::prelude::*;

verus! {

/// A message on the shared queue.
#[derive(Clone, Copy, Debug, PartialEq, Eq, Structural)]
pub enum Message {
    /// Run the job with this ticket.
    NewJob(u64),
    /// Stop: exactly one worker takes each of these.
    Terminate,
}

/// What one worker is doing.
#[derive(Clone, Copy, Debug, PartialEq, Eq, Structural)]
pub enum WorkerState {
    /// Waiting on the queue.
    Idle,
    /// Running the job with this ticket.
    Executing(u64),
    /// Stopped for good.
    Terminated,
}

/// The pool's state: its workers, its queue, how many jobs have been
/// submitted and handed out, and whether it is shutting down.
pub struct PoolState {
    workers: Vec<WorkerState>,
    queue: Vec<Message>,
    submitted: u64,
    dispatched: u64,
    draining: bool,
}

/// What a pool state holds, as plain values.
pub struct PoolView {
    pub workers: Seq<WorkerState>,
    pub queue: Seq<Message>,
    pub submitted: nat,
    pub dispatched: nat,
    pub draining: bool,
}

impl View for PoolState {
    type V = PoolView;

    closed spec fn view(&self) -> PoolView {
        PoolView {
            workers: self.workers@,
            queue: self.queue@,
            submitted: self.submitted as nat,
            dispatched: self.dispatched as nat,
            draining: self.draining,
        }
    }
}

/// The number of stopped workers.
pub open spec fn count_terminated(ws: Seq<WorkerState>) -> nat
    decreases ws.len(),
{
    if ws.len() == 0 {
        0
    } else {
        count_terminated(ws.drop_last()) + if ws.last() is Terminated {
            1nat
        } else {
            0nat
        }
    }
}

/// The jobs with tickets `d`, `d + 1`, ..., `n - 1`, in that order.
pub open spec fn job_run(d: nat, n: nat) -> Seq<Message> {
    Seq::new((n - d) as nat, |i: int| Message::NewJob((d + i) as u64))
}

/// `m` stop signals.
pub open spec fn stop_run(m: nat) -> Seq<Message> {
    Seq::new(m, |i: int| Message::Terminate)
}

/// The stop signals still owed to live workers.
pub open spec fn owed_stops(v: PoolView) -> nat {
    if v.draining {
        (v.workers.len() - count_terminated(v.workers)) as nat
    } else {
        0
    }
}

/// The pool's invariant. Jobs leave the queue in the order they were
/// submitted, so the queue holds the jobs not yet handed out followed by one
/// stop signal for each live worker once shutdown has begun; a running job was
/// handed out, and no two workers run the same job.
pub open spec fn pool_wf(v: PoolView) -> bool {
    &&& v.workers.len() >= 1
    &&& v.dispatched <= v.submitted <= u64::MAX
    &&& count_terminated(v.workers) <= v.workers.len()
    &&& v.queue == job_run(v.dispatched, v.submitted) + stop_run(owed_stops(v))
    &&& !v.draining ==> count_terminated(v.workers) == 0
    &&& count_terminated(v.workers) > 0 ==> v.dispatched == v.submitted
    &&& forall|i: int|
        0 <= i < v.workers.len() && (#[trigger] v.workers[i]) is Executing ==> (
        v.workers[i]->Executing_0 as nat) < v.dispatched
    &&& forall|i: int, j: int|
        0 <= i < v.workers.len() && 0 <= j < v.workers.len() && i != j && (
        #[trigger] v.workers[i]) is Executing && (#[trigger] v.workers[j]) is Executing ==> v.workers[i]->Executing_0
            != v.workers[j]->Executing_0
}

/// Whether every worker has stopped.
pub open spec fn all_stopped(v: PoolView) -> bool {
    forall|i: int| 0 <= i < v.workers.len() ==> (#[trigger] v.workers[i]) is Terminated
}

/// The state a worker enters on taking `m`.
pub open spec fn state_after(m: Message) -> WorkerState {
    match m {
        Message::NewJob(t) => WorkerState::Executing(t),
        Message::Terminate => WorkerState::Terminated,
    }
}

impl PoolState {
    /// Whether this pool satisfies its invariant.
    pub open spec fn wf(&self) -> bool {
        pool_wf(self@)
    }

    /// A running pool of `size` idle workers with an empty queue.
    pub fn new(size: usize) -> (r: PoolState)
        requires
            size >= 1,
        ensures
            r.wf(),
            r@.workers == Seq::new(size as nat, |i: int| WorkerState::Idle),
            r@.queue == Seq::<Message>::empty(),
            r@.submitted == 0,
            r@.dispatched == 0,
            !r@.draining,
    {
        let mut workers: Vec<WorkerState> = Vec::new();
        let mut i: usize = 0;
        while i < size
            invariant
                i <= size,
                workers@ == Seq::new(i as nat, |j: int| WorkerState::Idle),
            decreases size - i,
        {
            workers.push(WorkerState::Idle);
            i += 1;
            assert(workers@ =~= Seq::new(i as nat, |j: int| WorkerState::Idle));
        }
        proof {
            lemma_count_bounds(workers@);
        }
        let r = PoolState {
            workers,
            queue: Vec::new(),
            submitted: 0,
            dispatched: 0,
            draining: false,
        };
        assert(r@.queue =~= job_run(0, 0) + stop_run(0));
        r
    }

    /// Puts a new job on the queue and returns its ticket. Refused (`None`,
    /// nothing changed) once shutdown has begun, or when tickets have run out.
    pub fn submit(&mut self) -> (r: Option<u64>)
        requires
            old(self).wf(),
        ensures
            final(self).wf(),
            old(self)@.draining || old(self)@.submitted == u64::MAX ==> r is None && final(self)@
                == old(self)@,
            !(old(self)@.draining || old(self)@.submitted == u64::MAX) ==> {
                &&& r == Some(old(self)@.submitted as u64)
                &&& final(self)@.queue == old(self)@.queue.push(
                    Message::NewJob(old(self)@.submitted as u64),
                )
                &&& final(self)@.submitted == old(self)@.submitted + 1
                &&& final(self)@.workers == old(self)@.workers
                &&& final(self)@.dispatched == old(self)@.dispatched
                &&& final(self)@.draining == old(self)@.draining
            },
    {
        if self.draining || self.submitted == u64::MAX {
            return None;
        }
        let t = self.submitted;
        self.queue.push(Message::NewJob(t));
        self.submitted = t + 1;
        assert(self@.queue =~= job_run(self@.dispatched, self@.submitted) + stop_run(0));
        Some(t)
    }

    /// Begins shutdown: puts one stop signal on the queue for each worker.
    /// Does nothing when shutdown has already begun.
    pub fn shutdown(&mut self)
        requires
            old(self).wf(),
        ensures
            final(self).wf(),
            old(self)@.draining ==> final(self)@ == old(self)@,
            !old(self)@.draining ==> {
                &&& final(self)@.queue == old(self)@.queue + stop_run(old(self)@.workers.len())
                &&& final(self)@.draining
                &&& final(self)@.workers == old(self)@.workers
                &&& final(self)@.submitted == old(self)@.submitted
                &&& final(self)@.dispatched == old(self)@.dispatched
            },
    {
        if self.draining {
            return;
        }
        let n = self.workers.len();
        let mut i: usize = 0;
        let ghost q0 = self.queue@;
        while i < n
            invariant
                i <= n == self.workers@.len(),
                self.queue@ == q0 + stop_run(i as nat),
                self.workers@ == old(self)@.workers,
                self.submitted == old(self)@.submitted,
                self.dispatched == old(self)@.dispatched,
                !self.draining,
                q0 == old(self)@.queue,
                pool_wf(old(self)@),
            decreases n - i,
        {
            self.queue.push(Message::Terminate);
            i += 1;
            assert(self.queue@ =~= q0 + stop_run(i as nat));
        }
        self.draining = true;
        assert(old(self)@.queue =~= job_run(self@.dispatched, self@.submitted));
        assert(owed_stops(self@) == n);
        assert(self@.queue =~= job_run(self@.dispatched, self@.submitted) + stop_run(
            owed_stops(self@),
        ));
    }

    /// Worker `w` takes the message at the front of the queue, if it is idle
    /// and the queue is not empty (else `None`: it waits, and nothing
    /// changes). A job makes it busy with that job; a stop signal stops it.
    pub fn next_message(&mut self, w: usize) -> (r: Option<Message>)
        requires
            old(self).wf(),
        ensures
            final(self).wf(),
            w >= old(self)@.workers.len() || old(self)@.workers[w as int] != WorkerState::Idle
                || old(self)@.queue.len() == 0 ==> r is None && final(self)@ == old(self)@,
            w < old(self)@.workers.len() && old(self)@.workers[w as int] == WorkerState::Idle
                && old(self)@.queue.len() > 0 ==> {
                &&& r == Some(old(self)@.queue[0])
                &&& final(self)@.queue == old(self)@.queue.drop_first()
                &&& final(self)@.workers == old(self)@.workers.update(
                    w as int,
                    state_after(old(self)@.queue[0]),
                )
                &&& final(self)@.dispatched == old(self)@.dispatched + if old(self)@.queue[0] is NewJob {
                    1nat
                } else {
                    0nat
                }
                &&& final(self)@.submitted == old(self)@.submitted
                &&& final(self)@.draining == old(self)@.draining
            },
            r matches Some(Message::NewJob(t)) ==> t == old(self)@.dispatched,
    {
        if w >= self.workers.len() || self.workers[w] != WorkerState::Idle || self.queue.len()
            == 0 {
            return None;
        }
        let ghost old_v = self@;
        let m = self.queue.remove(0);
        assert(self.queue@ == old_v.queue.drop_first());
        proof {
            lemma_count_update(old_v.workers, w as int, state_after(m));
        }
        match m {
            Message::NewJob(t) => {
                assert(old_v.dispatched < old_v.submitted);
                assert(old_v.queue[0] == job_run(old_v.dispatched, old_v.submitted)[0]);
                self.workers.set(w, WorkerState::Executing(t));
                self.dispatched = self.dispatched + 1;
                assert(self@.queue =~= job_run(self@.dispatched, self@.submitted) + stop_run(
                    owed_stops(self@),
                ));
            },
            Message::Terminate => {
                assert(old_v.dispatched == old_v.submitted);
                self.workers.set(w, WorkerState::Terminated);
                assert(self@.queue =~= job_run(self@.dispatched, self@.submitted) + stop_run(
                    owed_stops(self@),
                ));
            },
        }
        Some(m)
    }

    /// Worker `w` reports that its job is finished and becomes idle again;
    /// nothing changes unless it was running a job.
    pub fn job_done(&mut self, w: usize)
        requires
            old(self).wf(),
        ensures
            final(self).wf(),
            w < old(self)@.workers.len() && old(self)@.workers[w as int] is Executing
                ==> final(self)@ == (PoolView {
                workers: old(self)@.workers.update(w as int, WorkerState::Idle),
                ..old(self)@
            }),
            !(w < old(self)@.workers.len() && old(self)@.workers[w as int] is Executing)
                ==> final(self)@ == old(self)@,
    {
        if w < self.workers.len() {
            match self.workers[w] {
                WorkerState::Executing(_) => {
                    proof {
                        lemma_count_update(self@.workers, w as int, WorkerState::Idle);
                    }
                    self.workers.set(w, WorkerState::Idle);
                },
                _ => {},
            }
        }
    }

    /// Whether every worker has stopped.
    pub fn is_stopped(&self) -> (r: bool)
        ensures
            r == all_stopped(self@),
    {
        let mut i: usize = 0;
        while i < self.workers.len()
            invariant
                i <= self.workers@.len(),
                forall|j: int| 0 <= j < i ==> (#[trigger] self.workers@[j]) is Terminated,
            decreases self.workers.len() - i,
        {
            if self.workers[i] != WorkerState::Terminated {
                return false;
            }
            i += 1;
        }
        true
    }

    /// The number of workers.
    pub fn size(&self) -> (r: usize)
        ensures
            r == self@.workers.len(),
    {
        self.workers.len()
    }
}

/// Once every worker has stopped, every submitted job has been handed out to
/// a worker, nothing is left on the queue, and no job is still running.
pub proof fn lemma_stopped_pool_drained(v: PoolView)
    requires
        pool_wf(v),
        all_stopped(v),
    ensures
        v.dispatched == v.submitted,
        v.queue.len() == 0,
        forall|i: int| 0 <= i < v.workers.len() ==> !((#[trigger] v.workers[i]) is Executing),
{
    lemma_count_bounds(v.workers);
    assert(v.workers[0] is Terminated);
    assert(owed_stops(v) == 0);
}

/// Each worker runs at most one job at a time, so no more jobs run at once
/// than there are workers; no job runs on two workers; and a running job is
/// one that was handed out.
pub proof fn lemma_running_jobs(v: PoolView, i: int, j: int)
    requires
        pool_wf(v),
        0 <= i < v.workers.len(),
        0 <= j < v.workers.len(),
        v.workers[i] is Executing,
        v.workers[j] is Executing,
        v.workers[i] == v.workers[j],
    ensures
        i == j,
        (v.workers[i]->Executing_0 as nat) < v.dispatched,
{
}

proof fn lemma_count_update(ws: Seq<WorkerState>, w: int, s: WorkerState)
    requires
        0 <= w < ws.len(),
    ensures
        count_terminated(ws.update(w, s)) + (if ws[w] is Terminated {
            1nat
        } else {
            0nat
        }) == count_terminated(ws) + (if s is Terminated {
            1nat
        } else {
            0nat
        }),
    decreases ws.len(),
{
    if w == ws.len() - 1 {
        assert(ws.update(w, s).drop_last() =~= ws.drop_last());
    } else {
        assert(ws.update(w, s).drop_last() =~= ws.drop_last().update(w, s));
        lemma_count_update(ws.drop_last(), w, s);
    }
}

proof fn lemma_count_bounds(ws: Seq<WorkerState>)
    ensures
        count_terminated(ws) <= ws.len(),
        count_terminated(ws) == ws.len() <==> forall|i: int|
            0 <= i < ws.len() ==> (#[trigger] ws[i]) is Terminated,
        count_terminated(ws) == 0 <==> forall|i: int|
            0 <= i < ws.len() ==> !((#[trigger] ws[i]) is Terminated),
    decreases ws.len(),
{
    if ws.len() > 0 {
        let p = ws.drop_last();
        lemma_count_bounds(p);
        assert(forall|i: int| 0 <= i < p.len() ==> p[i] == ws[i]);
    }
}

} // verus!
