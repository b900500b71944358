//! Runs of a pool: any interleaving of submissions, teardown, and workers
//! taking and finishing messages, and what holds of every such run.
use crate::dispatch::{Message, PoolModel, WorkerState};
use crate::lemmas::{
    lemma_drained_delivered, lemma_finish_inv, lemma_init_inv, lemma_receive_inv, lemma_shutdown_inv,
    lemma_submit_inv,
};
use vstd::prelude::*;

verus! {

/// One thing that happens to a pool.
pub enum Event<T> {
    /// A task is submitted.
    Submit(T),
    /// Teardown begins.
    Shutdown,
    /// The worker of this id asks for a message.
    Receive(int),
    /// The worker of this id reports that its task returned.
    Finish(int),
}

impl<T> PoolModel<T> {
    /// The state after one event.
    pub open spec fn step(self, e: Event<T>) -> Self {
        match e {
            Event::Submit(t) => self.submit(t),
            Event::Shutdown => self.shutdown(),
            Event::Receive(w) => self.receive(w),
            Event::Finish(w) => self.finish(w),
        }
    }

    /// The state after a sequence of events, in order.
    pub open spec fn run(self, evs: Seq<Event<T>>) -> Self
        decreases evs.len(),
    {
        if evs.len() == 0 {
            self
        } else {
            self.step(evs[0]).run(evs.drop_first())
        }
    }
}

/// The tasks of the submissions that come before the first teardown event:
/// those a pool accepts.
pub open spec fn accepted<T>(evs: Seq<Event<T>>) -> Seq<T>
    decreases evs.len(),
{
    if evs.len() == 0 {
        Seq::empty()
    } else {
        match evs[0] {
            Event::Submit(t) => seq![t] + accepted(evs.drop_first()),
            Event::Shutdown => Seq::empty(),
            _ => accepted(evs.drop_first()),
        }
    }
}

proof fn lemma_run_inv<T>(m: PoolModel<T>, evs: Seq<Event<T>>)
    requires
        m.inv(),
    ensures
        m.run(evs).inv(),
        m.run(evs).workers.len() == m.workers.len(),
        m.run(evs).submitted == m.submitted + if m.closing {
            Seq::empty()
        } else {
            accepted(evs)
        },
    decreases evs.len(),
{
    if evs.len() > 0 {
        let n = m.step(evs[0]);
        match evs[0] {
            Event::Submit(t) => lemma_submit_inv(m, t),
            Event::Shutdown => lemma_shutdown_inv(m),
            Event::Receive(w) => lemma_receive_inv(m, w),
            Event::Finish(w) => lemma_finish_inv(m, w),
        }
        lemma_run_inv(n, evs.drop_first());
        if m.closing {
            assert(m.submitted + Seq::<T>::empty() =~= m.submitted);
        } else {
            match evs[0] {
                Event::Submit(t) => {
                    assert(m.submitted + accepted(evs) =~= m.submitted.push(t) + accepted(
                        evs.drop_first(),
                    ));
                },
                Event::Shutdown => {
                    assert(m.submitted + accepted(evs) =~= m.submitted);
                    assert(n.submitted + Seq::<T>::empty() =~= n.submitted);
                },
                _ => {},
            }
        }
    } else {
        assert(m.submitted + Seq::<T>::empty() =~= m.submitted);
        assert(m.submitted + accepted(evs) =~= m.submitted);
    }
}

/// Every state that a pool of at least one worker reaches, by any sequence
/// of events, satisfies the pool's invariant, and keeps its worker count.
pub proof fn law_reachable_inv<T>(n: nat, evs: Seq<Event<T>>)
    requires
        n > 0,
    ensures
        PoolModel::<T>::init(n).run(evs).inv(),
        PoolModel::<T>::init(n).run(evs).workers.len() == n,
{
    lemma_init_inv::<T>(n);
    lemma_run_inv(PoolModel::<T>::init(n), evs);
}

proof fn lemma_receive_each<T>(m: PoolModel<T>, j: nat)
    requires
        j <= m.workers.len(),
        m.queue == Seq::new((m.workers.len() - j) as nat, |i: int| Message::<T>::Shutdown),
        forall|i: int| 0 <= i < j ==> m.workers[i] == WorkerState::Terminated,
        forall|i: int| j <= i < m.workers.len() ==> m.workers[i] == WorkerState::Idle,
    ensures
        m.run(Seq::new((m.workers.len() - j) as nat, |i: int| Event::<T>::Receive(j + i))).drained(),
    decreases m.workers.len() - j,
{
    let k = (m.workers.len() - j) as nat;
    let evs = Seq::new(k, |i: int| Event::<T>::Receive(j + i));
    if k > 0 {
        let r = m.receive(j as int);
        assert(r.queue =~= Seq::new((k - 1) as nat, |i: int| Message::<T>::Shutdown));
        assert(evs.drop_first() =~= Seq::new(
            (r.workers.len() - (j + 1)) as nat,
            |i: int| Event::<T>::Receive((j + 1) + i),
        ));
        lemma_receive_each(r, j + 1);
    }
}

/// A pool of `n > 0` workers torn down before any task is submitted: once
/// each worker has asked for a message, every worker has terminated.
pub proof fn law_idle_teardown<T>(n: nat)
    requires
        n > 0,
    ensures
        PoolModel::<T>::init(n).run(
            seq![Event::<T>::Shutdown] + Seq::new(n, |i: int| Event::<T>::Receive(i)),
        ).drained(),
{
    let receives = Seq::new(n, |i: int| Event::<T>::Receive(i));
    let evs = seq![Event::<T>::Shutdown] + receives;
    let m = PoolModel::<T>::init(n).shutdown();
    assert(evs.drop_first() =~= receives);
    assert(m.queue =~= Seq::new(n, |i: int| Message::<T>::Shutdown));
    assert(receives =~= Seq::new((m.workers.len() - 0) as nat, |i: int| Event::<T>::Receive(0 + i)));
    lemma_receive_each(m, 0);
}

/// Every task that a pool accepted is handed to a worker exactly once before
/// teardown completes: when every worker has terminated, the tasks handed
/// out are the accepted ones, each once, in order of submission.
pub proof fn law_exactly_once<T>(n: nat, evs: Seq<Event<T>>)
    requires
        n > 0,
        PoolModel::<T>::init(n).run(evs).drained(),
    ensures
        PoolModel::<T>::init(n).run(evs).delivered == accepted(evs),
{
    lemma_init_inv::<T>(n);
    let m = PoolModel::<T>::init(n);
    lemma_run_inv(m, evs);
    assert(Seq::<T>::empty() + accepted(evs) =~= accepted(evs));
    lemma_drained_delivered(m.run(evs));
}

/// Distinct tasks submitted to a pool are handed out as exactly that many
/// distinct tasks by the time teardown completes, whatever the worker count.
pub proof fn law_distinct_tasks<T>(n: nat, evs: Seq<Event<T>>)
    requires
        n > 0,
        accepted(evs).no_duplicates(),
        PoolModel::<T>::init(n).run(evs).drained(),
    ensures
        PoolModel::<T>::init(n).run(evs).delivered.no_duplicates(),
        PoolModel::<T>::init(n).run(evs).delivered.to_set().len() == accepted(evs).len(),
        PoolModel::<T>::init(n).run(evs).delivered.to_set() == accepted(evs).to_set(),
{
    law_exactly_once(n, evs);
    accepted(evs).unique_seq_to_set();
}

/// Teardown cannot complete while a task is running: a worker that is busy
/// stays busy, and the pool undrained, until that worker reports back.
pub proof fn law_teardown_waits_for_tasks<T>(m: PoolModel<T>, w: int, evs: Seq<Event<T>>)
    requires
        0 <= w < m.workers.len(),
        m.workers[w] == WorkerState::Busy,
        forall|i: int| 0 <= i < evs.len() ==> evs[i] != Event::<T>::Finish(w),
    ensures
        m.run(evs).workers.len() == m.workers.len(),
        m.run(evs).workers[w] == WorkerState::Busy,
        !m.run(evs).drained(),
    decreases evs.len(),
{
    if evs.len() > 0 {
        let r = m.step(evs[0]);
        assert(evs[0] != Event::<T>::Finish(w));
        assert(r.workers.len() == m.workers.len());
        assert(r.workers[w] == WorkerState::Busy);
        assert forall|i: int| 0 <= i < evs.drop_first().len() implies evs.drop_first()[i]
            != Event::<T>::Finish(w) by {
            assert(evs.drop_first()[i] == evs[i + 1]);
        }
        law_teardown_waits_for_tasks(r, w, evs.drop_first());
    }
}

} // verus!
