//! Facts about queues, worker counts, and the steps of a pool.
use crate::dispatch::{live, shutdowns, work_items, Message, PoolModel, WorkerState};
use vstd::prelude::*;

verus! {

/// Appending a message adds it to the counts at the back.
pub proof fn lemma_push<T>(q: Seq<Message<T>>, m: Message<T>)
    ensures
        shutdowns(q.push(m)) == shutdowns(q) + if m is Shutdown { 1nat } else { 0nat },
        work_items(q.push(m)) == match m {
            Message::Work(t) => work_items(q).push(t),
            Message::Shutdown => work_items(q),
        },
{
    assert(q.push(m).drop_last() =~= q);
}

/// Appending `n` shutdown signals adds `n` signals and no task.
pub proof fn lemma_append_shutdowns<T>(q: Seq<Message<T>>, n: nat)
    ensures
        shutdowns(q + Seq::new(n, |i: int| Message::<T>::Shutdown)) == shutdowns(q) + n,
        work_items(q + Seq::new(n, |i: int| Message::<T>::Shutdown)) == work_items(q),
    decreases n,
{
    if n > 0 {
        let s = Seq::new(n, |i: int| Message::<T>::Shutdown);
        let s1 = Seq::new((n - 1) as nat, |i: int| Message::<T>::Shutdown);
        lemma_append_shutdowns(q, (n - 1) as nat);
        assert(q + s =~= (q + s1).push(Message::Shutdown));
        lemma_push(q + s1, Message::Shutdown);
    } else {
        assert(q + Seq::new(n, |i: int| Message::<T>::Shutdown) =~= q);
    }
}

/// Taking the oldest message removes it from the counts at the front.
pub proof fn lemma_drop_first<T>(q: Seq<Message<T>>)
    requires
        q.len() > 0,
    ensures
        shutdowns(q) == shutdowns(q.drop_first()) + if q[0] is Shutdown { 1nat } else { 0nat },
        work_items(q) == match q[0] {
            Message::Work(t) => seq![t] + work_items(q.drop_first()),
            Message::Shutdown => work_items(q.drop_first()),
        },
    decreases q.len(),
{
    if q.len() == 1 {
        assert(q.drop_last() =~= Seq::<Message<T>>::empty());
        assert(q.drop_first() =~= Seq::<Message<T>>::empty());
    } else {
        let p = q.drop_last();
        lemma_drop_first(p);
        assert(p.drop_first() =~= q.drop_first().drop_last());
        assert(q.drop_first().last() == q.last());
        match q[0] {
            Message::Work(t) => {
                match q.last() {
                    Message::Work(u) => {
                        assert(seq![t] + work_items(q.drop_first()) =~= (seq![t] + work_items(
                            p.drop_first(),
                        )).push(u));
                    },
                    Message::Shutdown => {},
                }
            },
            Message::Shutdown => {},
        }
    }
}

/// A queue without shutdown signals holds only tasks.
pub proof fn lemma_no_shutdowns<T>(q: Seq<Message<T>>)
    requires
        shutdowns(q) == 0,
    ensures
        forall|i: int| 0 <= i < q.len() ==> q[i] is Work,
    decreases q.len(),
{
    if q.len() > 0 {
        lemma_no_shutdowns(q.drop_last());
        assert forall|i: int| 0 <= i < q.len() implies q[i] is Work by {
            if i < q.len() - 1 {
                assert(q[i] == q.drop_last()[i]);
            }
        }
    }
}

/// A queue of shutdown signals alone holds no task.
pub proof fn lemma_all_shutdowns<T>(q: Seq<Message<T>>)
    requires
        forall|i: int| 0 <= i < q.len() ==> q[i] is Shutdown,
    ensures
        work_items(q).len() == 0,
    decreases q.len(),
{
    if q.len() > 0 {
        let p = q.drop_last();
        assert forall|i: int| 0 <= i < p.len() implies p[i] is Shutdown by {
            assert(p[i] == q[i]);
        }
        lemma_all_shutdowns(p);
    }
}

/// Changing one worker's state changes the live count by what that worker
/// was and has become.
pub proof fn lemma_live_update(ws: Seq<WorkerState>, i: int, s: WorkerState)
    requires
        0 <= i < ws.len(),
    ensures
        live(ws.update(i, s)) + (if ws[i] != WorkerState::Terminated { 1nat } else { 0nat })
            == live(ws) + (if s != WorkerState::Terminated { 1nat } else { 0nat }),
    decreases ws.len(),
{
    let u = ws.update(i, s);
    if i == ws.len() - 1 {
        assert(u.drop_last() =~= ws.drop_last());
    } else {
        lemma_live_update(ws.drop_last(), i, s);
        assert(u.drop_last() =~= ws.drop_last().update(i, s));
    }
}

/// The live count is at most the worker count, and zero exactly when every
/// worker has terminated.
pub proof fn lemma_live_bounds(ws: Seq<WorkerState>)
    ensures
        live(ws) <= ws.len(),
        live(ws) == 0 <==> forall|i: int| 0 <= i < ws.len() ==> ws[i] == WorkerState::Terminated,
    decreases ws.len(),
{
    if ws.len() > 0 {
        let p = ws.drop_last();
        lemma_live_bounds(p);
        if live(ws) == 0 {
            assert forall|i: int| 0 <= i < ws.len() implies ws[i] == WorkerState::Terminated by {
                if i < ws.len() - 1 {
                    assert(ws[i] == p[i]);
                }
            }
        }
        if forall|i: int| 0 <= i < ws.len() ==> ws[i] == WorkerState::Terminated {
            assert forall|i: int| 0 <= i < p.len() implies p[i] == WorkerState::Terminated by {
                assert(p[i] == ws[i]);
            }
        }
    }
}

/// Idle workers are all live.
pub proof fn lemma_live_idle(n: nat)
    ensures
        live(Seq::new(n, |i: int| WorkerState::Idle)) == n,
    decreases n,
{
    if n > 0 {
        lemma_live_idle((n - 1) as nat);
        assert(Seq::new(n, |i: int| WorkerState::Idle).drop_last() =~= Seq::new(
            (n - 1) as nat,
            |i: int| WorkerState::Idle,
        ));
    }
}

/// A fresh pool with at least one worker satisfies the invariant.
pub proof fn lemma_init_inv<T>(n: nat)
    requires
        n > 0,
    ensures
        PoolModel::<T>::init(n).inv(),
{
    lemma_live_idle(n);
    let m = PoolModel::<T>::init(n);
    assert(m.submitted =~= m.delivered + work_items(m.queue));
}

/// Submitting a task keeps the invariant.
pub proof fn lemma_submit_inv<T>(m: PoolModel<T>, t: T)
    requires
        m.inv(),
    ensures
        m.submit(t).inv(),
{
    if !m.closing {
        lemma_push(m.queue, Message::Work(t));
        lemma_no_shutdowns(m.queue);
        let r = m.submit(t);
        assert(r.submitted =~= r.delivered + work_items(r.queue));
    }
}

/// Beginning teardown keeps the invariant.
pub proof fn lemma_shutdown_inv<T>(m: PoolModel<T>)
    requires
        m.inv(),
    ensures
        m.shutdown().inv(),
{
    if !m.closing {
        lemma_append_shutdowns(m.queue, m.workers.len());
        lemma_no_shutdowns(m.queue);
        let r = m.shutdown();
        assert forall|i: int, j: int|
            0 <= i < j < r.queue.len() && r.queue[i] is Shutdown implies r.queue[j] is Shutdown by {
            if j < m.queue.len() {
                assert(r.queue[i] == m.queue[i]);
            }
        }
    }
}

/// A worker taking a message keeps the invariant.
pub proof fn lemma_receive_inv<T>(m: PoolModel<T>, w: int)
    requires
        m.inv(),
    ensures
        m.receive(w).inv(),
{
    if m.is_idle(w) && m.queue.len() > 0 {
        let r = m.receive(w);
        lemma_drop_first(m.queue);
        lemma_live_bounds(m.workers);
        assert forall|i: int, j: int|
            0 <= i < j < r.queue.len() && r.queue[i] is Shutdown implies r.queue[j] is Shutdown by {
            assert(r.queue[i] == m.queue[i + 1]);
            assert(r.queue[j] == m.queue[j + 1]);
        }
        match m.queue[0] {
            Message::Work(t) => {
                lemma_live_update(m.workers, w, WorkerState::Busy);
                assert(r.submitted =~= r.delivered + work_items(r.queue));
            },
            Message::Shutdown => {
                lemma_live_update(m.workers, w, WorkerState::Terminated);
                assert forall|i: int| 0 <= i < m.queue.len() implies m.queue[i] is Shutdown by {
                    if i > 0 {
                        assert(m.queue[0] is Shutdown);
                    }
                }
                lemma_all_shutdowns(m.queue);
                lemma_all_shutdowns(r.queue);
            },
        }
    }
}

/// A worker finishing its task keeps the invariant.
pub proof fn lemma_finish_inv<T>(m: PoolModel<T>, w: int)
    requires
        m.inv(),
    ensures
        m.finish(w).inv(),
{
    if 0 <= w < m.workers.len() && m.workers[w] == WorkerState::Busy {
        lemma_live_update(m.workers, w, WorkerState::Idle);
    }
}

/// In a state of the invariant where every worker has terminated, the queue
/// holds no task and every accepted task has been handed out.
pub proof fn lemma_drained_delivered<T>(m: PoolModel<T>)
    requires
        m.inv(),
        m.drained(),
    ensures
        m.closing,
        work_items(m.queue).len() == 0,
        m.delivered == m.submitted,
{
    lemma_live_bounds(m.workers);
    assert(work_items(m.queue) =~= Seq::<T>::empty());
    assert(m.submitted =~= m.delivered);
}

} // verus!
