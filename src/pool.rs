use vstd::prelude::*;
use std::collections::VecDeque;
use crate::count::Count;

verus! {

/// Seconds an idle worker above the floor waits for work before it retires.
pub const IDLE_EXIT_SECS: u64 = 30;

/// The abstract state of a pool: the pending tasks in order, the number of
/// live workers, the number of workers blocked for work, the floor, and
/// whether the last handle is gone.
pub ghost struct PoolView<T> {
    pub queue: Seq<T>,
    pub active: nat,
    pub waiting: nat,
    pub min_num: nat,
    pub closed: bool,
}

/// What the submitter does with a task it has handed to `spawn`.
pub enum Dispatch<T> {
    /// Nobody is waiting: start a new worker that runs the task first.
    NewThread(T),
    /// The task is queued: wake one waiting worker.
    Queued,
}

/// What a worker that asked for work does next.
pub enum Step<T> {
    /// Run the task, holding no lock, then ask again.
    Run(T),
    /// Block until woken; the worker is counted as waiting.
    Wait,
    /// Block until woken or until the idle window ends; the worker is
    /// counted as waiting.
    WaitTimeout,
}

impl<T> PoolView<T> {
    /// A fresh pool with the given floor: nothing queued, nobody counted.
    pub open spec fn initial(min_num: nat) -> PoolView<T> {
        PoolView { queue: Seq::empty(), active: 0, waiting: 0, min_num, closed: false }
    }

    /// Only live workers can be waiting.
    pub open spec fn wf(self) -> bool {
        self.waiting <= self.active
    }

    /// An idle worker blocks without a deadline: the pool runs and is at or
    /// below its floor.
    pub open spec fn waits_forever(self) -> bool {
        !self.closed && self.active <= self.min_num
    }

    /// A worker whose wait ended this way retires: the wait timed out, the
    /// queue is empty, and the pool is above its floor or shutting down.
    pub open spec fn exits(self, timed_out: bool) -> bool {
        timed_out && self.queue.len() == 0 && (self.closed || self.active > self.min_num)
    }

    /// The decision of `spawn` for a task.
    pub open spec fn dispatch(self, task: T) -> Dispatch<T> {
        if self.waiting == 0 {
            Dispatch::NewThread(task)
        } else {
            Dispatch::Queued
        }
    }

    /// The state after `spawn` of a task.
    pub open spec fn spawned(self, task: T) -> PoolView<T> {
        if self.waiting == 0 {
            self
        } else {
            PoolView { queue: self.queue.push(task), ..self }
        }
    }

    /// The state after a worker starts.
    pub open spec fn started(self) -> PoolView<T> {
        PoolView { active: self.active + 1, ..self }
    }

    /// The state after a live worker leaves without waiting (its task failed).
    pub open spec fn left(self) -> PoolView<T> {
        PoolView { active: (self.active - 1) as nat, ..self }
    }

    /// The decision of `poll`.
    pub open spec fn step(self) -> Step<T> {
        if self.queue.len() > 0 {
            Step::Run(self.queue[0])
        } else if self.waits_forever() {
            Step::Wait
        } else {
            Step::WaitTimeout
        }
    }

    /// The state after `poll`.
    pub open spec fn polled(self) -> PoolView<T> {
        if self.queue.len() > 0 {
            PoolView { queue: self.queue.drop_first(), ..self }
        } else {
            PoolView { waiting: self.waiting + 1, ..self }
        }
    }

    /// The state after a waiting worker wakes.
    pub open spec fn woken(self, timed_out: bool) -> PoolView<T> {
        let w = PoolView { waiting: (self.waiting - 1) as nat, ..self };
        if self.exits(timed_out) {
            PoolView { active: (self.active - 1) as nat, ..w }
        } else {
            w
        }
    }

    /// The state once the last handle is gone.
    pub open spec fn shut(self) -> PoolView<T> {
        PoolView { closed: true, ..self }
    }
}

/// Relies on num_cpus::get: the number of logical CPUs available to this
/// process, documented to be at least one.
#[verifier::external_body]
fn cpu_count() -> (r: usize)
    ensures
        r >= 1,
{
    num_cpus::get()
}

/// The shared state of an elastic pool of worker threads.
///
/// A caller keeps one `Pool` behind one lock, shared by every handle and
/// every worker, and performs each operation while holding that lock.
pub struct Pool<T> {
    queue: VecDeque<T>,
    active: Count,
    waiting: Count,
    min_num: usize,
    closed: bool,
}

impl<T> View for Pool<T> {
    type V = PoolView<T>;

    closed spec fn view(&self) -> PoolView<T> {
        PoolView {
            queue: self.queue@,
            active: self.active@,
            waiting: self.waiting@,
            min_num: self.min_num as nat,
            closed: self.closed,
        }
    }
}

impl<T> Pool<T> {
    /// A pool whose floor is the number of CPUs available; the caller then
    /// starts that many workers.
    pub fn new() -> (r: Pool<T>)
        ensures
            r@ == PoolView::<T>::initial(r@.min_num),
            r@.min_num >= 1,
    {
        let n = cpu_count();
        Self::with_capacity(n)
    }

    /// A pool with floor `n`; the caller then starts `n` workers.
    pub fn with_capacity(n: usize) -> (r: Pool<T>)
        ensures
            r@ == PoolView::<T>::initial(n as nat),
    {
        Pool { queue: VecDeque::new(), active: Count::new(), waiting: Count::new(), min_num: n, closed: false }
    }

    /// Submits a task: with nobody waiting it is handed back to start a new
    /// worker with it; otherwise it joins the back of the queue and one
    /// waiting worker should be woken.
    pub fn spawn(&mut self, handle: T) -> (r: Dispatch<T>)
        ensures
            r == old(self)@.dispatch(handle),
            final(self)@ == old(self)@.spawned(handle),
    {
        if self.waiting.get() == 0 {
            Dispatch::NewThread(handle)
        } else {
            self.queue.push_back(handle);
            Dispatch::Queued
        }
    }

    /// A worker begins: it is counted live until it leaves.
    pub fn start(&mut self)
        requires
            old(self)@.active < usize::MAX,
        ensures
            final(self)@ == old(self)@.started(),
    {
        self.active.add();
    }

    /// A live worker that is not waiting asks for work: it takes the front
    /// task, or it is counted as waiting and told how to block.
    pub fn poll(&mut self) -> (r: Step<T>)
        requires
            old(self)@.waiting < old(self)@.active,
        ensures
            r == old(self)@.step(),
            final(self)@ == old(self)@.polled(),
    {
        match self.queue.pop_front() {
            Some(front) => {
                proof {
                    assert(self.queue@ =~= old(self)@.queue.drop_first());
                }
                Step::Run(front)
            },
            None => {
                let active = self.active.get();
                self.waiting.add();
                if !self.closed && active <= self.min_num {
                    Step::Wait
                } else {
                    Step::WaitTimeout
                }
            },
        }
    }

    /// A waiting worker wakes, by a signal or because its idle window ended.
    /// Returns whether it retires; if so it is no longer counted live.
    pub fn wake(&mut self, timed_out: bool) -> (exit: bool)
        requires
            old(self)@.wf(),
            old(self)@.waiting > 0,
        ensures
            exit == old(self)@.exits(timed_out),
            final(self)@ == old(self)@.woken(timed_out),
    {
        self.waiting.sub();
        let exit = timed_out && self.queue.len() == 0 && (self.closed || self.active.get()
            > self.min_num);
        if exit {
            self.active.sub();
        }
        exit
    }

    /// A live worker that is not waiting stops without retiring in order,
    /// as when a task it ran failed.
    pub fn leave(&mut self)
        requires
            old(self)@.waiting < old(self)@.active,
        ensures
            final(self)@ == old(self)@.left(),
    {
        self.active.sub();
    }

    /// The last handle is gone: from now on every idle worker waits with a
    /// deadline and retires once the queue is drained.
    pub fn close(&mut self)
        ensures
            final(self)@ == old(self)@.shut(),
    {
        self.closed = true;
    }

    /// The floor.
    pub fn floor(&self) -> (r: usize)
        ensures
            r == self@.min_num,
    {
        self.min_num
    }

    /// The number of live workers.
    pub fn active(&self) -> (r: usize)
        ensures
            r == self@.active,
    {
        self.active.get()
    }

    /// The number of workers blocked for work.
    pub fn waiting(&self) -> (r: usize)
        ensures
            r == self@.waiting,
    {
        self.waiting.get()
    }

    /// The number of queued tasks.
    pub fn queued(&self) -> (r: usize)
        ensures
            r == self@.queue.len(),
    {
        self.queue.len()
    }

    /// Whether the last handle is gone.
    pub fn is_closed(&self) -> (r: bool)
        ensures
            r == self@.closed,
    {
        self.closed
    }
}

} // verus!
