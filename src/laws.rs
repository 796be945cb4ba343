use vstd::prelude::*;
use vstd::seq_lib::lemma_multiset_commutative;
use crate::pool::{Dispatch, PoolView, Step};

verus! {

/// One operation on the pool, as performed under its lock.
pub ghost enum Event<T> {
    /// A handle submits a task.
    Spawn(T),
    /// A worker begins.
    Start,
    /// A worker that is not waiting asks for work.
    Poll,
    /// A waiting worker wakes; `true` when its idle window ended.
    Wake(bool),
    /// A worker stops because its task failed.
    Leave,
    /// The last handle is dropped.
    Close,
}

impl<T> PoolView<T> {
    /// The state after one event.
    pub open spec fn apply(self, e: Event<T>) -> PoolView<T> {
        match e {
            Event::Spawn(t) => self.spawned(t),
            Event::Start => self.started(),
            Event::Poll => self.polled(),
            Event::Wake(timed_out) => self.woken(timed_out),
            Event::Leave => self.left(),
            Event::Close => self.shut(),
        }
    }

    /// Whether a worker or handle may perform the event in this state: a
    /// worker asks for work or stops only while live and not waiting, and
    /// wakes only while waiting.
    pub open spec fn enabled(self, e: Event<T>) -> bool {
        match e {
            Event::Poll => self.waiting < self.active,
            Event::Wake(_) => self.waiting > 0,
            Event::Leave => self.waiting < self.active,
            _ => true,
        }
    }

    /// The tasks an event submits.
    pub open spec fn submitted_by(self, e: Event<T>) -> Seq<T> {
        match e {
            Event::Spawn(t) => seq![t],
            _ => Seq::empty(),
        }
    }

    /// The tasks an event hands to a new worker directly.
    pub open spec fn fast_by(self, e: Event<T>) -> Seq<T> {
        match e {
            Event::Spawn(t) => match self.dispatch(t) {
                Dispatch::NewThread(x) => seq![x],
                Dispatch::Queued => Seq::empty(),
            },
            _ => Seq::empty(),
        }
    }

    /// The tasks an event puts on the queue.
    pub open spec fn enqueued_by(self, e: Event<T>) -> Seq<T> {
        match e {
            Event::Spawn(t) => match self.dispatch(t) {
                Dispatch::NewThread(x) => Seq::empty(),
                Dispatch::Queued => seq![t],
            },
            _ => Seq::empty(),
        }
    }

    /// The tasks an event takes off the queue to run.
    pub open spec fn taken_by(self, e: Event<T>) -> Seq<T> {
        match e {
            Event::Poll => match self.step() {
                Step::Run(x) => seq![x],
                _ => Seq::empty(),
            },
            _ => Seq::empty(),
        }
    }

    /// The tasks an event gives to some worker to run.
    pub open spec fn run_by(self, e: Event<T>) -> Seq<T> {
        self.fast_by(e) + self.taken_by(e)
    }
}

/// The state after a sequence of events.
pub open spec fn run<T>(v: PoolView<T>, tr: Seq<Event<T>>) -> PoolView<T>
    decreases tr.len(),
{
    if tr.len() == 0 {
        v
    } else {
        run(v.apply(tr[0]), tr.drop_first())
    }
}

/// The tasks submitted along a sequence of events, in order.
pub open spec fn submitted<T>(v: PoolView<T>, tr: Seq<Event<T>>) -> Seq<T>
    decreases tr.len(),
{
    if tr.len() == 0 {
        Seq::empty()
    } else {
        v.submitted_by(tr[0]) + submitted(v.apply(tr[0]), tr.drop_first())
    }
}

/// The tasks given to workers along a sequence of events, in order.
pub open spec fn dispatched<T>(v: PoolView<T>, tr: Seq<Event<T>>) -> Seq<T>
    decreases tr.len(),
{
    if tr.len() == 0 {
        Seq::empty()
    } else {
        v.run_by(tr[0]) + dispatched(v.apply(tr[0]), tr.drop_first())
    }
}

/// The tasks put on the queue along a sequence of events, in order.
pub open spec fn enqueued<T>(v: PoolView<T>, tr: Seq<Event<T>>) -> Seq<T>
    decreases tr.len(),
{
    if tr.len() == 0 {
        Seq::empty()
    } else {
        v.enqueued_by(tr[0]) + enqueued(v.apply(tr[0]), tr.drop_first())
    }
}

/// The tasks taken off the queue along a sequence of events, in order.
pub open spec fn taken<T>(v: PoolView<T>, tr: Seq<Event<T>>) -> Seq<T>
    decreases tr.len(),
{
    if tr.len() == 0 {
        Seq::empty()
    } else {
        v.taken_by(tr[0]) + taken(v.apply(tr[0]), tr.drop_first())
    }
}

/// One round of an idle worker: it finds no work, waits, and its idle
/// window ends.
pub open spec fn idle_rounds<T>(k: nat) -> Seq<Event<T>>
    decreases k,
{
    if k == 0 {
        Seq::empty()
    } else {
        seq![Event::Poll, Event::Wake(true)] + idle_rounds((k - 1) as nat)
    }
}

/// `k` workers starting one after another.
pub open spec fn starts<T>(k: nat) -> Seq<Event<T>> {
    Seq::new(k, |i: int| Event::Start)
}

/// Running two sequences of events is running the first, then the second.
pub proof fn lemma_run_append<T>(v: PoolView<T>, a: Seq<Event<T>>, b: Seq<Event<T>>)
    ensures
        run(v, a + b) == run(run(v, a), b),
    decreases a.len(),
{
    if a.len() > 0 {
        assert((a + b).drop_first() =~= a.drop_first() + b);
        lemma_run_append(v.apply(a[0]), a.drop_first(), b);
    } else {
        assert(a + b =~= b);
    }
}

/// Right after construction with floor `n` and the start of its `n`
/// workers, exactly `n` workers are live, none is counted as waiting,
/// nothing is queued, and an idle worker blocks without a deadline.
pub proof fn law_floor_after_construction<T>(n: nat)
    ensures
        run(PoolView::<T>::initial(n), starts(n)) == (PoolView::<T> {
            queue: Seq::empty(),
            active: n,
            waiting: 0,
            min_num: n,
            closed: false,
        }),
        run(PoolView::<T>::initial(n), starts(n)).waits_forever(),
{
    lemma_starts(PoolView::<T>::initial(n), n);
}

/// Starting `k` workers raises the live count by `k` and changes nothing else.
proof fn lemma_starts<T>(v: PoolView<T>, k: nat)
    ensures
        run(v, starts(k)) == (PoolView { active: v.active + k, ..v }),
    decreases k,
{
    if k > 0 {
        assert(starts::<T>(k).drop_first() =~= starts::<T>((k - 1) as nat));
        lemma_starts(v.started(), (k - 1) as nat);
    } else {
        assert(PoolView { active: v.active + k, ..v } == v);
    }
}

/// Every submitted task is run exactly once or is still queued: over any
/// sequence of operations, the tasks given to workers together with the
/// queue at the end are, counted with multiplicity, the queue at the start
/// together with the tasks submitted.
pub proof fn law_each_task_once<T>(v: PoolView<T>, tr: Seq<Event<T>>)
    ensures
        dispatched(v, tr).to_multiset().add(run(v, tr).queue.to_multiset())
            =~= v.queue.to_multiset().add(submitted(v, tr).to_multiset()),
    decreases tr.len(),
{
    broadcast use vstd::multiset::group_multiset_axioms, vstd::seq_lib::group_to_multiset_ensures;

    if tr.len() > 0 {
        let e = tr[0];
        let v1 = v.apply(e);
        let rest = tr.drop_first();
        law_each_task_once(v1, rest);
        lemma_multiset_commutative(v.run_by(e), dispatched(v1, rest));
        lemma_multiset_commutative(v.submitted_by(e), submitted(v1, rest));
        lemma_step_keeps_tasks(v, e);
        let (de, dr, se, sr) = (
            v.run_by(e).to_multiset(),
            dispatched(v1, rest).to_multiset(),
            v.submitted_by(e).to_multiset(),
            submitted(v1, rest).to_multiset(),
        );
        let (q, q1, f) = (
            v.queue.to_multiset(),
            v1.queue.to_multiset(),
            run(v1, rest).queue.to_multiset(),
        );
        assert(de.add(dr).add(f) =~= de.add(dr.add(f)));
        assert(de.add(q1.add(sr)) =~= de.add(q1).add(sr));
        assert(q.add(se).add(sr) =~= q.add(se.add(sr)));
    } else {
        assert(Seq::<T>::empty().to_multiset() =~= vstd::multiset::Multiset::empty());
    }
}

/// One event neither loses nor duplicates a task.
proof fn lemma_step_keeps_tasks<T>(v: PoolView<T>, e: Event<T>)
    ensures
        v.run_by(e).to_multiset().add(v.apply(e).queue.to_multiset()) =~= v.queue.to_multiset().add(
            v.submitted_by(e).to_multiset(),
        ),
{
    broadcast use vstd::multiset::group_multiset_axioms, vstd::seq_lib::group_to_multiset_ensures;

    match e {
        Event::Spawn(t) => {
            assert(seq![t] =~= Seq::<T>::empty().push(t));
            assert(v.run_by(e) =~= v.fast_by(e));
        },
        Event::Poll => {
            assert(v.run_by(e) =~= v.taken_by(e));
            if v.queue.len() > 0 {
                assert(seq![v.queue[0]] =~= Seq::<T>::empty().push(v.queue[0]));
                assert(v.queue =~= seq![v.queue[0]] + v.queue.drop_first());
                lemma_multiset_commutative(seq![v.queue[0]], v.queue.drop_first());
            }
        },
        _ => {
            assert(v.run_by(e) =~= Seq::<T>::empty());
        },
    }
}

/// The queue is first in, first out: over any sequence of operations, the
/// tasks taken off the queue followed by the queue at the end are the queue
/// at the start followed by the tasks put on it.
pub proof fn law_queue_fifo<T>(v: PoolView<T>, tr: Seq<Event<T>>)
    ensures
        taken(v, tr) + run(v, tr).queue == v.queue + enqueued(v, tr),
    decreases tr.len(),
{
    if tr.len() > 0 {
        let e = tr[0];
        let v1 = v.apply(e);
        let rest = tr.drop_first();
        law_queue_fifo(v1, rest);
        let fin = run(v1, rest).queue;
        if e is Poll && v.queue.len() > 0 {
            assert(v.queue =~= seq![v.queue[0]] + v.queue.drop_first());
        }
        let (tb, eb) = (v.taken_by(e), v.enqueued_by(e));
        assert(tb + v1.queue =~= v.queue + eb);
        assert(tb + taken(v1, rest) + fin =~= tb + (taken(v1, rest) + fin));
        assert(tb + (v1.queue + enqueued(v1, rest)) =~= (tb + v1.queue) + enqueued(v1, rest));
        assert((v.queue + eb) + enqueued(v1, rest) =~= v.queue + (eb + enqueued(v1, rest)));
        assert(taken(v, tr) == tb + taken(v1, rest));
        assert(enqueued(v, tr) == eb + enqueued(v1, rest));
    } else {
        assert(v.queue + Seq::<T>::empty() =~= v.queue);
        assert(Seq::<T>::empty() + v.queue =~= v.queue);
    }
}

/// The first of `k` idle rounds is one poll followed by a timed-out wake.
proof fn lemma_one_round<T>(v: PoolView<T>, k: nat)
    requires
        k > 0,
    ensures
        run(v, idle_rounds(k)) == run(v.polled().woken(true), idle_rounds((k - 1) as nat)),
{
    let r: Seq<Event<T>> = seq![Event::Poll, Event::Wake(true)];
    lemma_run_append(v, r, idle_rounds((k - 1) as nat));
    assert(idle_rounds::<T>(k) == r + idle_rounds((k - 1) as nat));
    assert(r.drop_first() =~= seq![Event::Wake(true)]);
    assert(r.drop_first().drop_first() =~= Seq::<Event<T>>::empty());
    assert(run(v, r) == run(v.polled(), r.drop_first()));
    assert(run(v.polled(), r.drop_first()) == run(v.polled().woken(true), r.drop_first().drop_first()));
}

/// An idle pool shrinks to its floor and never below it: with nothing
/// queued, each idle window that ends retires one worker while the pool is
/// above its floor, and none once it is at its floor, where idle workers
/// block without a deadline.
pub proof fn law_idle_shrinks_to_floor<T>(v: PoolView<T>, k: nat)
    requires
        !v.closed,
        v.queue.len() == 0,
        v.active >= v.min_num,
    ensures
        run(v, idle_rounds(k)).active == if k <= v.active - v.min_num {
            v.active - k
        } else {
            v.min_num as int
        },
        run(v, idle_rounds(k)).waiting == v.waiting,
        run(v, idle_rounds(k)).queue.len() == 0,
        k >= v.active - v.min_num ==> run(v, idle_rounds(k)).waits_forever(),
    decreases k,
{
    if k > 0 {
        lemma_one_round(v, k);
        law_idle_shrinks_to_floor(v.polled().woken(true), (k - 1) as nat);
    }
}

/// Without a failed task or a shutdown, the number of live workers never
/// drops below the floor.
pub proof fn law_floor_holds<T>(v: PoolView<T>, tr: Seq<Event<T>>)
    requires
        !v.closed,
        v.active >= v.min_num,
        forall|i: int| 0 <= i < tr.len() ==> !(#[trigger] tr[i] is Leave) && !(tr[i] is Close),
    ensures
        run(v, tr).active >= run(v, tr).min_num,
        run(v, tr).min_num == v.min_num,
        !run(v, tr).closed,
    decreases tr.len(),
{
    if tr.len() > 0 {
        assert(!(tr[0] is Leave) && !(tr[0] is Close));
        let rest = tr.drop_first();
        assert forall|i: int| 0 <= i < rest.len() implies !(#[trigger] rest[i] is Leave) && !(
        rest[i] is Close) by {
            assert(rest[i] == tr[i + 1]);
        }
        law_floor_holds(v.apply(tr[0]), rest);
    }
}

/// Once the last handle is gone the pool stays shut down, and no worker
/// blocks without a deadline again.
pub proof fn law_shutdown_sticks<T>(v: PoolView<T>, tr: Seq<Event<T>>)
    requires
        v.closed,
    ensures
        run(v, tr).closed,
        !(run(v, tr).step() is Wait),
    decreases tr.len(),
{
    if tr.len() > 0 {
        law_shutdown_sticks(v.apply(tr[0]), tr.drop_first());
    }
}

/// After shutdown every idle worker retires: with nothing queued, each
/// idle window that ends retires one worker, until none is left.
pub proof fn law_shutdown_retires_all<T>(v: PoolView<T>, k: nat)
    requires
        v.closed,
        v.queue.len() == 0,
        k <= v.active,
    ensures
        run(v, idle_rounds(k)).active == v.active - k,
        run(v, idle_rounds(k)).waiting == v.waiting,
        run(v, idle_rounds(k)).queue.len() == 0,
    decreases k,
{
    if k > 0 {
        lemma_one_round(v, k);
        law_shutdown_retires_all(v.polled().woken(true), (k - 1) as nat);
    }
}

/// Every operation that may be performed keeps the waiting workers among
/// the live ones.
pub proof fn law_waiting_within_active<T>(v: PoolView<T>, e: Event<T>)
    requires
        v.wf(),
        v.enabled(e),
    ensures
        v.apply(e).wf(),
{
}

} // verus!
