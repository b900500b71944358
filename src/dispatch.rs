use std::collections::VecDeque;
use crate::lemmas::{
    lemma_finish_inv, lemma_init_inv, lemma_receive_inv, lemma_shutdown_inv, lemma_submit_inv,
};
use vstd::prelude::*;

verus! {

/// What travels on the job queue: one unit of work, or the signal that tells
/// one worker to stop.
pub enum Message<T> {
    Work(T),
    Shutdown,
}

/// Where a worker stands in its life.
#[derive(Clone, Copy, Debug, PartialEq, Eq, Structural)]
pub enum WorkerState {
    /// Waiting for a message.
    Idle,
    /// Running a task it took from the queue.
    Busy,
    /// Took a shutdown signal and left; absorbing.
    Terminated,
}

/// What a worker is to do after it asked for a message.
pub enum Action<T> {
    /// A task for the worker to execute; it calls `finish` once the task returns.
    Run(T),
    /// Leave the loop: the worker has terminated.
    Exit,
    /// Nothing for this worker now: block until a message comes.
    Wait,
}

/// Number of shutdown signals in a queue.
pub open spec fn shutdowns<T>(q: Seq<Message<T>>) -> nat
    decreases q.len(),
{
    if q.len() == 0 {
        0
    } else {
        shutdowns(q.drop_last()) + if q.last() is Shutdown { 1nat } else { 0nat }
    }
}

/// The tasks in a queue, in queue order.
pub open spec fn work_items<T>(q: Seq<Message<T>>) -> Seq<T>
    decreases q.len(),
{
    if q.len() == 0 {
        Seq::empty()
    } else {
        match q.last() {
            Message::Work(t) => work_items(q.drop_last()).push(t),
            Message::Shutdown => work_items(q.drop_last()),
        }
    }
}

/// Number of workers that have not terminated.
pub open spec fn live(ws: Seq<WorkerState>) -> nat
    decreases ws.len(),
{
    if ws.len() == 0 {
        0
    } else {
        live(ws.drop_last()) + if ws.last() != WorkerState::Terminated { 1nat } else { 0nat }
    }
}

/// The abstract state of a pool.
pub struct PoolModel<T> {
    /// Messages sent and not yet taken, oldest first.
    pub queue: Seq<Message<T>>,
    /// The state of each worker, by id.
    pub workers: Seq<WorkerState>,
    /// Teardown has begun: no task is accepted any more.
    pub closing: bool,
    /// Every task accepted, in order of submission.
    pub submitted: Seq<T>,
    /// Every task handed to a worker, in order of hand-out.
    pub delivered: Seq<T>,
}

impl<T> PoolModel<T> {
    /// A fresh pool of `n` idle workers and an empty queue.
    pub open spec fn init(n: nat) -> Self {
        PoolModel {
            queue: Seq::empty(),
            workers: Seq::new(n, |i: int| WorkerState::Idle),
            closing: false,
            submitted: Seq::empty(),
            delivered: Seq::empty(),
        }
    }

    /// Submitting `t`: appended to the queue unless teardown has begun.
    pub open spec fn submit(self, t: T) -> Self {
        if self.closing {
            self
        } else {
            PoolModel {
                queue: self.queue.push(Message::Work(t)),
                submitted: self.submitted.push(t),
                ..self
            }
        }
    }

    /// Beginning teardown: one shutdown signal per worker joins the queue.
    pub open spec fn shutdown(self) -> Self {
        if self.closing {
            self
        } else {
            PoolModel {
                queue: self.queue + Seq::new(self.workers.len(), |i: int| Message::Shutdown),
                closing: true,
                ..self
            }
        }
    }

    /// Whether worker `w` exists and waits for a message.
    pub open spec fn is_idle(self, w: int) -> bool {
        0 <= w < self.workers.len() && self.workers[w] == WorkerState::Idle
    }

    /// What worker `w` is told when it asks for a message.
    pub open spec fn action(self, w: int) -> Action<T> {
        if self.is_idle(w) && self.queue.len() > 0 {
            match self.queue[0] {
                Message::Work(t) => Action::Run(t),
                Message::Shutdown => Action::Exit,
            }
        } else {
            Action::Wait
        }
    }

    /// Worker `w` asks for a message: an idle worker takes the oldest one.
    pub open spec fn receive(self, w: int) -> Self {
        if self.is_idle(w) && self.queue.len() > 0 {
            match self.queue[0] {
                Message::Work(t) => PoolModel {
                    queue: self.queue.drop_first(),
                    workers: self.workers.update(w, WorkerState::Busy),
                    delivered: self.delivered.push(t),
                    ..self
                },
                Message::Shutdown => PoolModel {
                    queue: self.queue.drop_first(),
                    workers: self.workers.update(w, WorkerState::Terminated),
                    ..self
                },
            }
        } else {
            self
        }
    }

    /// Worker `w` reports that its task has returned.
    pub open spec fn finish(self, w: int) -> Self {
        if 0 <= w < self.workers.len() && self.workers[w] == WorkerState::Busy {
            PoolModel { workers: self.workers.update(w, WorkerState::Idle), ..self }
        } else {
            self
        }
    }

    /// Teardown is complete: every worker has terminated.
    pub open spec fn drained(self) -> bool {
        forall|i: int| 0 <= i < self.workers.len() ==> self.workers[i] == WorkerState::Terminated
    }

    /// What holds of every state that a pool reaches.
    pub open spec fn inv(self) -> bool {
        &&& self.workers.len() > 0
        &&& self.submitted == self.delivered + work_items(self.queue)
        &&& forall|i: int, j: int|
            0 <= i < j < self.queue.len() && self.queue[i] is Shutdown ==> self.queue[j] is Shutdown
        &&& if self.closing {
            &&& shutdowns(self.queue) == live(self.workers)
            &&& work_items(self.queue).len() > 0 ==> live(self.workers) == self.workers.len()
        } else {
            &&& shutdowns(self.queue) == 0
            &&& live(self.workers) == self.workers.len()
        }
    }
}

/// The pool's dispatcher: the job queue and the state of each worker.
pub struct Dispatcher<T> {
    queue: VecDeque<Message<T>>,
    workers: Vec<WorkerState>,
    closing: bool,
    submitted: Ghost<Seq<T>>,
    delivered: Ghost<Seq<T>>,
}

impl<T> View for Dispatcher<T> {
    type V = PoolModel<T>;

    closed spec fn view(&self) -> PoolModel<T> {
        PoolModel {
            queue: self.queue@,
            workers: self.workers@,
            closing: self.closing,
            submitted: self.submitted@,
            delivered: self.delivered@,
        }
    }
}

impl<T> Dispatcher<T> {
    /// A dispatcher for `size` workers, all idle, with an empty queue. A pool
    /// has at least one worker: with none, its queue could never drain.
    pub fn new(size: usize) -> (r: Self)
        requires
            size > 0,
        ensures
            r@ == PoolModel::<T>::init(size as nat),
            r@.inv(),
    {
        let mut workers: Vec<WorkerState> = Vec::new();
        let mut i: usize = 0;
        while i < size
            invariant
                i <= size,
                workers@ == Seq::new(i as nat, |k: int| WorkerState::Idle),
            decreases size - i,
        {
            workers.push(WorkerState::Idle);
            i = i + 1;
            assert(workers@ =~= Seq::new(i as nat, |k: int| WorkerState::Idle));
        }
        let d = Dispatcher {
            queue: VecDeque::new(),
            workers,
            closing: false,
            submitted: Ghost(Seq::empty()),
            delivered: Ghost(Seq::empty()),
        };
        assert(d@ == PoolModel::<T>::init(size as nat));
        proof {
            lemma_init_inv::<T>(size as nat);
        }
        d
    }

    /// Hands `job` to the queue, behind every message sent before. Tasks are
    /// accepted only until teardown begins.
    pub fn submit(&mut self, job: T)
        requires
            !old(self)@.closing,
        ensures
            final(self)@ == old(self)@.submit(job),
            old(self)@.inv() ==> final(self)@.inv(),
    {
        proof {
            if old(self)@.inv() {
                lemma_submit_inv(old(self)@, job);
            }
        }
        self.submitted = Ghost(self.submitted@.push(job));
        self.queue.push_back(Message::Work(job));
    }

    /// Begins teardown: one shutdown signal for each worker joins the queue,
    /// after every task sent before. Teardown begins once.
    pub fn shutdown(&mut self)
        requires
            !old(self)@.closing,
        ensures
            final(self)@ == old(self)@.shutdown(),
            old(self)@.inv() ==> final(self)@.inv(),
    {
        proof {
            if old(self)@.inv() {
                lemma_shutdown_inv(old(self)@);
            }
        }
        let n = self.workers.len();
        let mut i: usize = 0;
        while i < n
            invariant
                i <= n,
                n == self.workers@.len(),
                self.workers@ == old(self).workers@,
                self.submitted == old(self).submitted,
                self.delivered == old(self).delivered,
                !self.closing,
                self.queue@ == old(self).queue@ + Seq::new(i as nat, |k: int| Message::<T>::Shutdown),
            decreases n - i,
        {
            self.queue.push_back(Message::Shutdown);
            i = i + 1;
            assert(self.queue@ =~= old(self).queue@ + Seq::new(i as nat, |k: int| Message::<T>::Shutdown));
        }
        self.closing = true;
        assert(self@ =~= old(self)@.shutdown());
    }

    /// Worker `w` asks for a message. An idle worker takes the oldest one:
    /// a task to run (it becomes busy) or a shutdown signal (it becomes
    /// terminated). Any other call changes nothing and answers `Wait`.
    pub fn receive(&mut self, w: usize) -> (r: Action<T>)
        ensures
            r == old(self)@.action(w as int),
            final(self)@ == old(self)@.receive(w as int),
            old(self)@.inv() ==> final(self)@.inv(),
    {
        proof {
            if old(self)@.inv() {
                lemma_receive_inv(old(self)@, w as int);
            }
        }
        if w >= self.workers.len() || self.workers[w] != WorkerState::Idle {
            return Action::Wait;
        }
        match self.queue.pop_front() {
            Some(Message::Work(t)) => {
                self.delivered = Ghost(self.delivered@.push(t));
                self.workers.set(w, WorkerState::Busy);
                assert(self@ =~= old(self)@.receive(w as int));
                Action::Run(t)
            },
            Some(Message::Shutdown) => {
                self.workers.set(w, WorkerState::Terminated);
                assert(self@ =~= old(self)@.receive(w as int));
                Action::Exit
            },
            None => Action::Wait,
        }
    }

    /// Worker `w` reports that the task it ran has returned: a busy worker
    /// becomes idle. Any other call changes nothing.
    pub fn finish(&mut self, w: usize)
        ensures
            final(self)@ == old(self)@.finish(w as int),
            old(self)@.inv() ==> final(self)@.inv(),
    {
        proof {
            if old(self)@.inv() {
                lemma_finish_inv(old(self)@, w as int);
            }
        }
        if w < self.workers.len() && self.workers[w] == WorkerState::Busy {
            self.workers.set(w, WorkerState::Idle);
            assert(self@ =~= old(self)@.finish(w as int));
        }
    }

    /// Whether teardown is complete: every worker has terminated.
    pub fn is_drained(&self) -> (r: bool)
        ensures
            r == self@.drained(),
    {
        let mut i: usize = 0;
        while i < self.workers.len()
            invariant
                i <= self.workers@.len(),
                forall|k: int| 0 <= k < i ==> self.workers@[k] == WorkerState::Terminated,
            decreases self.workers@.len() - i,
        {
            if self.workers[i] != WorkerState::Terminated {
                return false;
            }
            i = i + 1;
        }
        true
    }

    /// The number of workers, fixed at construction.
    pub fn worker_count(&self) -> (r: usize)
        ensures
            r == self@.workers.len(),
    {
        self.workers.len()
    }

    /// The state of worker `w`.
    pub fn state(&self, w: usize) -> (r: WorkerState)
        requires
            w < self@.workers.len(),
        ensures
            r == self@.workers[w as int],
    {
        self.workers[w]
    }

    /// Whether teardown has begun.
    pub fn is_closing(&self) -> (r: bool)
        ensures
            r == self@.closing,
    {
        self.closing
    }
}

} // verus!
