//! The rules of the worker pool: what a worker does with each message, and
//! the protocol between a fixed set of workers and one first-in, first-out
//! queue, written as a sequential state machine. The threads themselves live
//! outside this library and follow these rules.

use vstd::prelude::*;

verus! {

/// Why the server cannot start.
#[derive(Debug, Clone, Copy, PartialEq, Eq, Structural)]
pub enum ConfigurationError {
    /// The address to listen on is not a host and a port.
    InvalidBindAddress,
    /// A pool must have at least one worker.
    ZeroCapacity,
}

/// What travels through the queue: a job, or the signal that tells one worker
/// to stop.
#[derive(Debug, PartialEq, Eq)]
pub enum Message<J> {
    NewJob(J),
    Terminate,
}

/// What a worker does next.
#[derive(Debug, PartialEq, Eq)]
pub enum WorkerAction<J> {
    /// Run the job, then wait for the next message.
    Run(J),
    /// Leave the loop.
    Stop,
}

/// What a worker does with a message: it runs a job and stops on a
/// termination signal.
pub open spec fn decision<J>(message: Message<J>) -> WorkerAction<J> {
    match message {
        Message::NewJob(job) => WorkerAction::Run(job),
        Message::Terminate => WorkerAction::Stop,
    }
}

/// Decides what a worker does with the message that it received.
pub fn worker_decide<J>(message: Message<J>) -> (action: WorkerAction<J>)
    ensures
        action == decision(message),
{
    match message {
        Message::NewJob(job) => WorkerAction::Run(job),
        Message::Terminate => WorkerAction::Stop,
    }
}

/// Accepts the number of workers of a pool: any number but zero.
pub fn check_capacity(capacity: usize) -> (res: Result<usize, ConfigurationError>)
    ensures
        capacity > 0 ==> res == Ok::<usize, ConfigurationError>(capacity),
        capacity == 0 ==> res == Err::<usize, ConfigurationError>(ConfigurationError::ZeroCapacity),
{
    if capacity == 0 {
        Err(ConfigurationError::ZeroCapacity)
    } else {
        Ok(capacity)
    }
}

/// The number of termination signals that shut a pool down: one for each
/// worker.
pub fn termination_signals(workers: usize) -> (signals: usize)
    ensures
        signals == workers,
{
    workers
}

/// The state of one worker.
#[derive(Debug, Clone, Copy, PartialEq, Eq, Structural)]
pub enum WorkerState {
    /// Waiting for a message.
    Idle,
    /// Running the job with this number.
    Running(usize),
    /// Gone, after a termination signal.
    Stopped,
}

/// The state of one job.
#[derive(Debug, Clone, Copy, PartialEq, Eq, Structural)]
pub enum JobState {
    /// In the queue.
    Queued,
    /// Run by the worker with this number.
    Running(usize),
    /// Run to its end.
    Done,
}

/// A pool as the protocol sees it. Jobs are numbered in the order in which
/// they were submitted. The queue holds the jobs from `next` on, in that
/// order, and behind them `signals` termination signals.
pub struct PoolView {
    pub workers: Seq<WorkerState>,
    pub jobs: Seq<JobState>,
    pub next: int,
    pub signals: int,
    pub closing: bool,
}

/// The number of workers that have stopped.
pub open spec fn stopped_count(workers: Seq<WorkerState>) -> nat
    decreases workers.len(),
{
    if workers.len() == 0 {
        0
    } else {
        stopped_count(workers.drop_last()) + if workers.last() is Stopped {
            1nat
        } else {
            0nat
        }
    }
}

/// The invariant of the protocol: it holds of a new pool, and every step keeps
/// it. The job that a worker runs knows that worker and the other way round;
/// jobs leave the queue in the order in which they came; while the pool shuts
/// down, each worker that has not stopped has its signal in the queue; and no
/// worker stops while a job waits.
pub open spec fn valid(p: PoolView) -> bool {
    &&& 1 <= p.workers.len() <= usize::MAX
    &&& 0 <= p.next <= p.jobs.len() <= usize::MAX
    &&& 0 <= p.signals
    &&& forall|j: int| 0 <= j < p.jobs.len() ==> ((#[trigger] p.jobs[j]) is Queued <==> j >= p.next)
    &&& forall|w: int|
        0 <= w < p.workers.len() ==> match #[trigger] p.workers[w] {
            WorkerState::Running(j) => j < p.next && p.jobs[j as int] == JobState::Running(
                w as usize,
            ),
            _ => true,
        }
    &&& forall|j: int|
        0 <= j < p.jobs.len() ==> match #[trigger] p.jobs[j] {
            JobState::Running(w) => w < p.workers.len() && p.workers[w as int]
                == WorkerState::Running(j as usize),
            _ => true,
        }
    &&& if p.closing {
        p.signals + stopped_count(p.workers) == p.workers.len()
    } else {
        p.signals == 0 && stopped_count(p.workers) == 0
    }
    &&& stopped_count(p.workers) > 0 ==> p.next == p.jobs.len()
}

/// The message at the head of the queue: the oldest job that waits; a
/// termination signal where no job waits and a signal does; none where the
/// queue is empty.
pub open spec fn head_message(p: PoolView) -> Option<Message<usize>> {
    if p.next < p.jobs.len() {
        Some(Message::NewJob(p.next as usize))
    } else if p.signals > 0 {
        Some(Message::Terminate)
    } else {
        None
    }
}

/// A new pool: `capacity` idle workers and an empty queue.
pub open spec fn initial(capacity: nat) -> PoolView {
    PoolView {
        workers: Seq::new(capacity, |w: int| WorkerState::Idle),
        jobs: Seq::empty(),
        next: 0,
        signals: 0,
        closing: false,
    }
}

/// Whether the pool takes another job: it does until it shuts down, as long
/// as the job can still be numbered.
pub open spec fn accepts(p: PoolView) -> bool {
    !p.closing && p.jobs.len() < usize::MAX
}

/// A job is submitted: it joins the queue. Nothing changes where the pool
/// takes no more jobs.
pub open spec fn after_submit(p: PoolView) -> PoolView {
    if accepts(p) {
        PoolView { jobs: p.jobs.push(JobState::Queued), ..p }
    } else {
        p
    }
}

/// An idle worker `w` takes the message at the head of the queue and does
/// what `decision` says: it starts the job, or stops. Nothing changes where
/// the worker is not idle or the queue is empty.
pub open spec fn after_take(p: PoolView, w: int) -> PoolView {
    if 0 <= w < p.workers.len() && p.workers[w] is Idle {
        match head_message(p) {
            None => p,
            Some(message) => match decision(message) {
                WorkerAction::Run(job) => PoolView {
                    workers: p.workers.update(w, WorkerState::Running(job)),
                    jobs: p.jobs.update(job as int, JobState::Running(w as usize)),
                    next: p.next + 1,
                    ..p
                },
                WorkerAction::Stop => PoolView {
                    workers: p.workers.update(w, WorkerState::Stopped),
                    signals: p.signals - 1,
                    ..p
                },
            },
        }
    } else {
        p
    }
}

/// Worker `w` comes to the end of its job and is idle again. Nothing changes
/// where the worker runs no job.
pub open spec fn after_finish(p: PoolView, w: int) -> PoolView {
    if 0 <= w < p.workers.len() {
        match p.workers[w] {
            WorkerState::Running(job) => PoolView {
                workers: p.workers.update(w, WorkerState::Idle),
                jobs: p.jobs.update(job as int, JobState::Done),
                ..p
            },
            _ => p,
        }
    } else {
        p
    }
}

/// The pool begins to shut down: one termination signal for each worker
/// joins the queue, behind the jobs that wait. A second call changes nothing.
pub open spec fn after_shutdown(p: PoolView) -> PoolView {
    if p.closing {
        p
    } else {
        PoolView { signals: p.workers.len() as int, closing: true, ..p }
    }
}

/// Whether a worker has stopped, as a number.
pub open spec fn stopped_bit(state: WorkerState) -> nat {
    if state is Stopped {
        1
    } else {
        0
    }
}

/// No more workers have stopped than there are; none has where the count is
/// zero, and all have where the count is the number of workers.
pub proof fn lemma_stopped_count(workers: Seq<WorkerState>)
    ensures
        stopped_count(workers) <= workers.len(),
        stopped_count(workers) == 0 <==> forall|w: int|
            0 <= w < workers.len() ==> !((#[trigger] workers[w]) is Stopped),
        stopped_count(workers) == workers.len() <==> forall|w: int|
            0 <= w < workers.len() ==> (#[trigger] workers[w]) is Stopped,
    decreases workers.len(),
{
    if workers.len() > 0 {
        let front = workers.drop_last();
        lemma_stopped_count(front);
        if stopped_count(workers) == 0 {
            assert forall|w: int| 0 <= w < workers.len() implies !((
            #[trigger] workers[w]) is Stopped) by {
                if w < front.len() {
                    assert(front[w] == workers[w]);
                }
            }
        }
        if forall|w: int| 0 <= w < workers.len() ==> !((#[trigger] workers[w]) is Stopped) {
            assert forall|w: int| 0 <= w < front.len() implies !((#[trigger] front[w]) is Stopped) by {
                assert(front[w] == workers[w]);
            }
            assert(!(workers.last() is Stopped));
        }
        if stopped_count(workers) == workers.len() {
            assert forall|w: int| 0 <= w < workers.len() implies (#[trigger] workers[w]) is Stopped by {
                if w < front.len() {
                    assert(front[w] == workers[w]);
                }
            }
        }
        if forall|w: int| 0 <= w < workers.len() ==> (#[trigger] workers[w]) is Stopped {
            assert forall|w: int| 0 <= w < front.len() implies (#[trigger] front[w]) is Stopped by {
                assert(front[w] == workers[w]);
            }
            assert(workers.last() is Stopped);
        }
    }
}

/// Changing one worker's state changes the count of stopped workers by what
/// that worker adds to it.
pub proof fn lemma_stopped_count_update(workers: Seq<WorkerState>, w: int, state: WorkerState)
    requires
        0 <= w < workers.len(),
    ensures
        stopped_count(workers.update(w, state)) + stopped_bit(workers[w]) == stopped_count(workers)
            + stopped_bit(state),
    decreases workers.len(),
{
    let changed = workers.update(w, state);
    if w == workers.len() - 1 {
        assert(changed.drop_last() =~= workers.drop_last());
    } else {
        lemma_stopped_count_update(workers.drop_last(), w, state);
        assert(changed.drop_last() =~= workers.drop_last().update(w, state));
    }
}

/// The invariant holds of a new pool.
pub proof fn lemma_initial_valid(capacity: nat)
    requires
        1 <= capacity <= usize::MAX,
    ensures
        valid(initial(capacity)),
{
    lemma_stopped_count(initial(capacity).workers);
}

/// Submitting a job keeps the invariant.
pub proof fn lemma_submit_valid(p: PoolView)
    requires
        valid(p),
    ensures
        valid(after_submit(p)),
{
    if accepts(p) {
        let q = after_submit(p);
        assert forall|j: int| 0 <= j < q.jobs.len() implies ((#[trigger] q.jobs[j]) is Queued <==> j
            >= q.next) by {
            if j < p.jobs.len() {
                assert(q.jobs[j] == p.jobs[j]);
            }
        }
        assert forall|j: int| 0 <= j < q.jobs.len() implies match #[trigger] q.jobs[j] {
            JobState::Running(w) => w < q.workers.len() && q.workers[w as int]
                == WorkerState::Running(j as usize),
            _ => true,
        } by {
            if j < p.jobs.len() {
                assert(q.jobs[j] == p.jobs[j]);
            }
        }
        assert forall|w: int| 0 <= w < q.workers.len() implies match #[trigger] q.workers[w] {
            WorkerState::Running(j) => j < q.next && q.jobs[j as int] == JobState::Running(
                w as usize,
            ),
            _ => true,
        } by {
            assert(q.workers[w] == p.workers[w]);
        }
    }
}

/// Beginning to shut down keeps the invariant.
pub proof fn lemma_shutdown_valid(p: PoolView)
    requires
        valid(p),
    ensures
        valid(after_shutdown(p)),
{
}

/// A worker that takes a message keeps the invariant.
pub proof fn lemma_take_valid(p: PoolView, w: int)
    requires
        valid(p),
    ensures
        valid(after_take(p, w)),
{
    let q = after_take(p, w);
    if q != p {
        lemma_stopped_count(p.workers);
        lemma_stopped_count_update(p.workers, w, q.workers[w]);
        lemma_stopped_count(q.workers);
        if p.next < p.jobs.len() {
            let job = p.next;
            assert(p.jobs[job] is Queued);
            assert forall|j: int| 0 <= j < q.jobs.len() implies ((#[trigger] q.jobs[j]) is Queued
                <==> j >= q.next) by {
                if j != job {
                    assert(q.jobs[j] == p.jobs[j]);
                }
            }
            assert forall|v: int| 0 <= v < q.workers.len() implies match #[trigger] q.workers[v] {
                WorkerState::Running(j) => j < q.next && q.jobs[j as int] == JobState::Running(
                    v as usize,
                ),
                _ => true,
            } by {
                if v != w {
                    assert(q.workers[v] == p.workers[v]);
                }
            }
            assert forall|j: int| 0 <= j < q.jobs.len() implies match #[trigger] q.jobs[j] {
                JobState::Running(v) => v < q.workers.len() && q.workers[v as int]
                    == WorkerState::Running(j as usize),
                _ => true,
            } by {
                if j != job {
                    assert(q.jobs[j] == p.jobs[j]);
                }
            }
        } else {
            assert forall|v: int| 0 <= v < q.workers.len() implies match #[trigger] q.workers[v] {
                WorkerState::Running(j) => j < q.next && q.jobs[j as int] == JobState::Running(
                    v as usize,
                ),
                _ => true,
            } by {
                if v != w {
                    assert(q.workers[v] == p.workers[v]);
                }
            }
            assert forall|j: int| 0 <= j < q.jobs.len() implies match #[trigger] q.jobs[j] {
                JobState::Running(v) => v < q.workers.len() && q.workers[v as int]
                    == WorkerState::Running(j as usize),
                _ => true,
            } by {
                assert(q.jobs[j] == p.jobs[j]);
            }
        }
    }
}

/// A worker that ends its job keeps the invariant.
pub proof fn lemma_finish_valid(p: PoolView, w: int)
    requires
        valid(p),
    ensures
        valid(after_finish(p, w)),
{
    let q = after_finish(p, w);
    if q != p {
        let job = p.workers[w]->Running_0 as int;
        lemma_stopped_count_update(p.workers, w, WorkerState::Idle);
        assert forall|j: int| 0 <= j < q.jobs.len() implies ((#[trigger] q.jobs[j]) is Queued <==> j
            >= q.next) by {
            if j != job {
                assert(q.jobs[j] == p.jobs[j]);
            }
        }
        assert forall|v: int| 0 <= v < q.workers.len() implies match #[trigger] q.workers[v] {
            WorkerState::Running(j) => j < q.next && q.jobs[j as int] == JobState::Running(
                v as usize,
            ),
            _ => true,
        } by {
            if v != w {
                assert(q.workers[v] == p.workers[v]);
            }
        }
        assert forall|j: int| 0 <= j < q.jobs.len() implies match #[trigger] q.jobs[j] {
            JobState::Running(v) => v < q.workers.len() && q.workers[v as int]
                == WorkerState::Running(j as usize),
            _ => true,
        } by {
            if j != job {
                assert(q.jobs[j] == p.jobs[j]);
            }
        }
    }
}

/// One step of the protocol.
pub enum PoolStep {
    Submit,
    Take(int),
    Finish(int),
    Shutdown,
}

/// The state after one step.
pub open spec fn after(p: PoolView, step: PoolStep) -> PoolView {
    match step {
        PoolStep::Submit => after_submit(p),
        PoolStep::Take(w) => after_take(p, w),
        PoolStep::Finish(w) => after_finish(p, w),
        PoolStep::Shutdown => after_shutdown(p),
    }
}

/// Every step keeps the invariant.
pub proof fn lemma_step_valid(p: PoolView, step: PoolStep)
    requires
        valid(p),
    ensures
        valid(after(p, step)),
{
    match step {
        PoolStep::Submit => lemma_submit_valid(p),
        PoolStep::Take(w) => lemma_take_valid(p, w),
        PoolStep::Finish(w) => lemma_finish_valid(p, w),
        PoolStep::Shutdown => lemma_shutdown_valid(p),
    }
}

/// No step runs a job twice or loses one. The jobs keep their numbers; a job
/// changes its state only from queued to running and from running to done,
/// so it is started once at most, and one that is done stays done.
pub proof fn lemma_step_runs_once(p: PoolView, step: PoolStep, job: int)
    requires
        valid(p),
        0 <= job < p.jobs.len(),
    ensures
        job < after(p, step).jobs.len(),
        after(p, step).jobs[job] != p.jobs[job] ==> (p.jobs[job] is Queued && after(
            p,
            step,
        ).jobs[job] is Running) || (p.jobs[job] is Running && after(p, step).jobs[job] is Done),
{
}

/// The jobs that run at one moment are run by different workers, so there are
/// never more of them than the pool has workers.
pub proof fn lemma_running_within_capacity(p: PoolView)
    requires
        valid(p),
    ensures
        forall|j: int, k: int|
            0 <= j < p.jobs.len() && 0 <= k < p.jobs.len() && (#[trigger] p.jobs[j]) is Running
                && (#[trigger] p.jobs[k]) is Running && p.jobs[j] == p.jobs[k] ==> j == k,
        running_jobs(p).finite(),
        running_jobs(p).len() <= p.workers.len(),
{
    let running = running_jobs(p);
    let all = Set::new(|j: int| 0 <= j < p.jobs.len());
    vstd::set_lib::lemma_int_range(0, p.jobs.len() as int);
    assert(all =~= vstd::set_lib::set_int_range(0, p.jobs.len() as int));
    assert(running.subset_of(all));
    vstd::set_lib::lemma_len_subset(running, all);
    let worker_of = |j: int| p.jobs[j]->Running_0 as int;
    let busy = running.map(worker_of);
    let every = vstd::set_lib::set_int_range(0, p.workers.len() as int);
    vstd::set_lib::lemma_int_range(0, p.workers.len() as int);
    assert forall|a: int, b: int|
        running.contains(a) && running.contains(b) && #[trigger] worker_of(a) == #[trigger] worker_of(
            b,
        ) implies a == b by {
        assert(p.jobs[a] is Running && p.jobs[b] is Running);
    }
    vstd::set_lib::lemma_map_size(running, busy, worker_of);
    assert forall|w: int| busy.contains(w) implies every.contains(w) by {
        let j = choose|j: int| running.contains(j) && w == worker_of(j);
        assert(p.jobs[j] is Running);
    }
    vstd::set_lib::lemma_len_subset(busy, every);
}

/// The numbers of the jobs that run.
pub open spec fn running_jobs(p: PoolView) -> Set<int> {
    Set::new(|j: int| 0 <= j < p.jobs.len() && p.jobs[j] is Running)
}

/// Once every worker has stopped, every job that was submitted is done: none
/// waits and none is still running.
pub proof fn lemma_all_stopped_all_done(p: PoolView)
    requires
        valid(p),
        stopped_count(p.workers) == p.workers.len(),
    ensures
        forall|j: int| 0 <= j < p.jobs.len() ==> (#[trigger] p.jobs[j]) is Done,
        p.signals == 0,
{
    lemma_stopped_count(p.workers);
    assert forall|j: int| 0 <= j < p.jobs.len() implies (#[trigger] p.jobs[j]) is Done by {
        match p.jobs[j] {
            JobState::Running(w) => {
                assert(p.workers[w as int] is Stopped);
            },
            _ => {},
        }
    }
}

/// Whether worker `w` can make a step that changes the pool: end its job, or
/// take a message.
pub open spec fn can_move(p: PoolView, w: int) -> bool {
    after_take(p, w) != p || after_finish(p, w) != p
}

/// A pool that shuts down never comes to a halt before every worker has
/// stopped: some worker runs a job and can end it, or is idle and finds a
/// message in the queue.
pub proof fn lemma_shutdown_progress(p: PoolView)
    requires
        valid(p),
        p.closing,
        stopped_count(p.workers) < p.workers.len(),
    ensures
        exists|w: int| 0 <= w < p.workers.len() && #[trigger] can_move(p, w),
{
    lemma_stopped_count(p.workers);
    let w = choose|w: int| 0 <= w < p.workers.len() && !((#[trigger] p.workers[w]) is Stopped);
    match p.workers[w] {
        WorkerState::Running(job) => {
            let q = after_finish(p, w);
            assert(q.workers[w] is Idle);
            assert(q != p);
        },
        _ => {
            let q = after_take(p, w);
            assert(head_message(p) is Some);
            assert(!(q.workers[w] is Idle));
            assert(q != p);
        },
    }
    assert(can_move(p, w));
}

/// A pool whose steps are taken one at a time, by a caller that plays the
/// workers itself. Its view is the state of the protocol.
pub struct PoolState {
    workers: Vec<WorkerState>,
    jobs: Vec<JobState>,
    next: usize,
    signals: usize,
    closing: bool,
    stopped: usize,
}

impl View for PoolState {
    type V = PoolView;

    closed spec fn view(&self) -> PoolView {
        PoolView {
            workers: self.workers@,
            jobs: self.jobs@,
            next: self.next as int,
            signals: self.signals as int,
            closing: self.closing,
        }
    }
}

impl PoolState {
    /// Whether the protocol's invariant holds of this pool. It does of every
    /// pool that `new` gives, and every method keeps it.
    pub closed spec fn wf(&self) -> bool {
        valid(self@) && self.stopped == stopped_count(self.workers@)
    }

    /// The view of a well-formed pool meets the protocol's invariant.
    pub proof fn lemma_wf_valid(&self)
        requires
            self.wf(),
        ensures
            valid(self@),
    {
    }

    /// A pool of `capacity` idle workers with an empty queue. A pool without
    /// workers is refused.
    pub fn new(capacity: usize) -> (res: Result<PoolState, ConfigurationError>)
        ensures
            capacity == 0 ==> res == Err::<PoolState, ConfigurationError>(
                ConfigurationError::ZeroCapacity,
            ),
            capacity > 0 ==> res is Ok && res->Ok_0.wf() && res->Ok_0@ == initial(capacity as nat),
    {
        match check_capacity(capacity) {
            Err(e) => Err(e),
            Ok(count) => {
                let mut workers: Vec<WorkerState> = Vec::new();
                while workers.len() < count
                    invariant
                        workers@.len() <= count,
                        forall|w: int| 0 <= w < workers@.len() ==> workers@[w] == WorkerState::Idle,
                    decreases count - workers@.len(),
                {
                    workers.push(WorkerState::Idle);
                }
                let pool = PoolState {
                    workers,
                    jobs: Vec::new(),
                    next: 0,
                    signals: 0,
                    closing: false,
                    stopped: 0,
                };
                proof {
                    assert(pool@.workers =~= initial(capacity as nat).workers);
                    assert(pool@.jobs =~= initial(capacity as nat).jobs);
                    lemma_initial_valid(capacity as nat);
                }
                Ok(pool)
            },
        }
    }

    /// Submits a job and gives its number; `None` where the pool takes no
    /// more jobs.
    pub fn submit(&mut self) -> (job: Option<usize>)
        requires
            old(self).wf(),
        ensures
            final(self).wf(),
            final(self)@ == after_submit(old(self)@),
            accepts(old(self)@) ==> job == Some(old(self)@.jobs.len() as usize),
            !accepts(old(self)@) ==> job is None,
    {
        proof {
            lemma_submit_valid(self@);
        }
        if self.closing || self.jobs.len() == usize::MAX {
            None
        } else {
            let job: usize = self.jobs.len();
            self.jobs.push(JobState::Queued);
            Some(job)
        }
    }

    /// Begins to shut the pool down: one termination signal for each worker
    /// joins the queue.
    pub fn shutdown(&mut self)
        requires
            old(self).wf(),
        ensures
            final(self).wf(),
            final(self)@ == after_shutdown(old(self)@),
    {
        proof {
            lemma_shutdown_valid(self@);
        }
        if !self.closing {
            self.signals = termination_signals(self.workers.len());
            self.closing = true;
        }
    }

    /// Worker `w` asks for the message at the head of the queue. The result
    /// is what the worker does next; `None` where there is no such worker,
    /// where it is not idle, and where the queue is empty.
    pub fn take(&mut self, w: usize) -> (action: Option<WorkerAction<usize>>)
        requires
            old(self).wf(),
        ensures
            final(self).wf(),
            final(self)@ == after_take(old(self)@, w as int),
            action == (if w < old(self)@.workers.len() && old(self)@.workers[w as int] is Idle {
                match head_message(old(self)@) {
                    Some(message) => Some(decision(message)),
                    None => None,
                }
            } else {
                None
            }),
    {
        proof {
            lemma_take_valid(self@, w as int);
            lemma_stopped_count(self.workers@);
        }
        if w >= self.workers.len() {
            return None;
        }
        match self.workers[w] {
            WorkerState::Idle => {},
            _ => {
                return None;
            },
        }
        let message: Message<usize> = if self.next < self.jobs.len() {
            Message::NewJob(self.next)
        } else if self.signals > 0 {
            Message::Terminate
        } else {
            return None;
        };
        let action = worker_decide(message);
        match action {
            WorkerAction::Run(job) => {
                self.workers.set(w, WorkerState::Running(job));
                self.jobs.set(job, JobState::Running(w));
                self.next = self.next + 1;
                proof {
                    lemma_stopped_count_update(
                        old(self).workers@,
                        w as int,
                        WorkerState::Running(job),
                    );
                }
            },
            WorkerAction::Stop => {
                self.workers.set(w, WorkerState::Stopped);
                self.signals = self.signals - 1;
                proof {
                    lemma_stopped_count_update(old(self).workers@, w as int, WorkerState::Stopped);
                    lemma_stopped_count(self.workers@);
                }
                self.stopped = self.stopped + 1;
            },
        }
        Some(action)
    }

    /// Worker `w` reports the end of its job. The result is the job's number;
    /// `None` where there is no such worker or it runs no job.
    pub fn finish(&mut self, w: usize) -> (job: Option<usize>)
        requires
            old(self).wf(),
        ensures
            final(self).wf(),
            final(self)@ == after_finish(old(self)@, w as int),
            job == (if w < old(self)@.workers.len() {
                match old(self)@.workers[w as int] {
                    WorkerState::Running(job) => Some(job),
                    _ => None,
                }
            } else {
                None
            }),
    {
        proof {
            lemma_finish_valid(self@, w as int);
        }
        if w >= self.workers.len() {
            return None;
        }
        match self.workers[w] {
            WorkerState::Running(job) => {
                self.workers.set(w, WorkerState::Idle);
                self.jobs.set(job, JobState::Done);
                proof {
                    lemma_stopped_count_update(old(self).workers@, w as int, WorkerState::Idle);
                }
                Some(job)
            },
            _ => None,
        }
    }

    /// Whether every worker has stopped. Every job is then done.
    pub fn is_terminated(&self) -> (done: bool)
        requires
            self.wf(),
        ensures
            done == (stopped_count(self@.workers) == self@.workers.len()),
            done ==> forall|j: int| 0 <= j < self@.jobs.len() ==> (#[trigger] self@.jobs[j]) is Done,
    {
        proof {
            if self.stopped == self.workers@.len() {
                lemma_all_stopped_all_done(self@);
            }
        }
        self.stopped == self.workers.len()
    }

    /// The number of workers.
    pub fn capacity(&self) -> (count: usize)
        requires
            self.wf(),
        ensures
            count == self@.workers.len(),
            count >= 1,
    {
        self.workers.len()
    }

    /// The number of jobs that were submitted.
    pub fn job_count(&self) -> (count: usize)
        ensures
            count == self@.jobs.len(),
    {
        self.jobs.len()
    }

    /// The state of worker `w`, if there is such a worker.
    pub fn worker_state(&self, w: usize) -> (state: Option<WorkerState>)
        ensures
            state == (if w < self@.workers.len() {
                Some(self@.workers[w as int])
            } else {
                None
            }),
    {
        if w < self.workers.len() {
            Some(self.workers[w])
        } else {
            None
        }
    }

    /// The state of job `job`, if there is such a job.
    pub fn job_state(&self, job: usize) -> (state: Option<JobState>)
        ensures
            state == (if job < self@.jobs.len() {
                Some(self@.jobs[job as int])
            } else {
                None
            }),
    {
        if job < self.jobs.len() {
            Some(self.jobs[job])
        } else {
            None
        }
    }
}

} // verus!
