//! The scheduling decisions of a fixed pool of workers draining one shared
//! queue of work units. Threads, locks and the units themselves belong to the
//! caller: this state says which unit a worker takes, when it waits and when
//! it stops.
use std::collections::VecDeque;
use vstd::prelude::*;

verus! {

/// What one worker is doing.
#[derive(Clone, Copy, Debug, PartialEq, Eq, Structural)]
pub enum WorkerState {
    Idle,
    Executing(u64),
    Terminated,
}

/// What a worker that asks for work is to do next.
#[derive(Clone, Copy, Debug, PartialEq, Eq, Structural)]
pub enum WorkerAction {
    /// Run the unit with this number, then report it finished.
    Run(u64),
    /// Block until more work is submitted or the pool is closed, then ask again.
    Wait,
    /// Leave the loop: the pool is closed and nothing is left.
    Exit,
}

/// The pool as plain values.
pub struct PoolModel {
    /// Units submitted and not yet taken, oldest first.
    pub queue: Seq<u64>,
    pub workers: Seq<WorkerState>,
    /// The number the next submitted unit gets; every unit before it was submitted.
    pub next_id: u64,
    pub open: bool,
    /// Units whose worker reported them finished.
    pub finished: Set<u64>,
}

/// The scheduling state of a worker pool.
pub struct PoolState {
    queue: VecDeque<u64>,
    workers: Vec<WorkerState>,
    next_id: u64,
    open: bool,
    finished: Ghost<Set<u64>>,
}

impl View for PoolState {
    type V = PoolModel;

    closed spec fn view(&self) -> PoolModel {
        PoolModel {
            queue: self.queue@,
            workers: self.workers@,
            next_id: self.next_id,
            open: self.open,
            finished: self.finished@,
        }
    }
}

/// Worker `w` is running unit `id`.
pub open spec fn runs(m: PoolModel, w: int, id: u64) -> bool {
    0 <= w < m.workers.len() && m.workers[w] == WorkerState::Executing(id)
}

/// Some worker is running unit `id`.
pub open spec fn running(m: PoolModel, id: u64) -> bool {
    exists|w: int| runs(m, w, id)
}

/// The pool's invariant: every submitted unit is in exactly one place (waiting
/// in the queue, held by exactly one worker, or finished), and a worker stops
/// only once the pool is closed and drained.
pub open spec fn pool_wf(m: PoolModel) -> bool {
    &&& m.workers.len() > 0
    &&& m.queue.no_duplicates()
    &&& forall|i: int| 0 <= i < m.queue.len() ==> #[trigger] m.queue[i] < m.next_id
    &&& forall|i: int| 0 <= i < m.queue.len() ==> !m.finished.contains(#[trigger] m.queue[i])
    &&& forall|w: int, id: u64| #[trigger] runs(m, w, id) ==> id < m.next_id
        && !m.queue.contains(id) && !m.finished.contains(id)
    &&& forall|w1: int, w2: int, id: u64|
        #[trigger] runs(m, w1, id) && #[trigger] runs(m, w2, id) ==> w1 == w2
    &&& forall|id: u64| #[trigger] m.finished.contains(id) ==> id < m.next_id
    &&& forall|id: u64|
        id < m.next_id ==> #[trigger] m.queue.contains(id) || m.finished.contains(id)
            || running(m, id)
    &&& forall|w: int|
        0 <= w < m.workers.len() && #[trigger] m.workers[w] == WorkerState::Terminated ==> !m.open
            && m.queue.len() == 0
}

/// The pool after idle worker `w` takes the oldest queued unit.
pub open spec fn after_take(m: PoolModel, w: int) -> PoolModel {
    PoolModel {
        queue: m.queue.drop_first(),
        workers: m.workers.update(w, WorkerState::Executing(m.queue[0])),
        ..m
    }
}

impl PoolState {
    pub open spec fn wf(&self) -> bool {
        pool_wf(self@)
    }

    /// A pool of `size` idle workers with nothing submitted.
    pub fn new(size: usize) -> (r: PoolState)
        requires
            size > 0,
        ensures
            r.wf(),
            r@.queue == Seq::<u64>::empty(),
            r@.workers == Seq::new(size as nat, |i: int| WorkerState::Idle),
            r@.next_id == 0,
            r@.open,
            r@.finished == Set::<u64>::empty(),
    {
        let mut workers: Vec<WorkerState> = Vec::new();
        let mut i: usize = 0;
        while i < size
            invariant
                i <= size,
                workers@ == Seq::new(i as nat, |k: int| WorkerState::Idle),
            decreases size - i,
        {
            workers.push(WorkerState::Idle);
            i = i + 1;
            assert(workers@ =~= Seq::new(i as nat, |k: int| WorkerState::Idle));
        }
        let r = PoolState {
            queue: VecDeque::new(),
            workers,
            next_id: 0,
            open: true,
            finished: Ghost(Set::empty()),
        };
        r
    }

    /// The number of workers.
    pub fn size(&self) -> (r: usize)
        ensures
            r == self@.workers.len(),
    {
        self.workers.len()
    }

    /// The number of units waiting in the queue.
    pub fn pending(&self) -> (r: usize)
        ensures
            r == self@.queue.len(),
    {
        self.queue.len()
    }

    /// Whether the pool still takes work.
    pub fn is_open(&self) -> (r: bool)
        ensures
            r == self@.open,
    {
        self.open
    }

    /// Queues a new unit and returns its number; `None`, with nothing changed,
    /// once the pool is closed or the numbers are used up.
    pub fn submit(&mut self) -> (r: Option<u64>)
        requires
            old(self).wf(),
        ensures
            final(self).wf(),
            (old(self)@.open && old(self)@.next_id < u64::MAX) ==> r == Some(old(self)@.next_id)
                && final(self)@ == (PoolModel {
                queue: old(self)@.queue.push(old(self)@.next_id),
                next_id: (old(self)@.next_id + 1) as u64,
                ..old(self)@
            }),
            !(old(self)@.open && old(self)@.next_id < u64::MAX) ==> r is None && final(self)@
                == old(self)@,
    {
        if !self.open || self.next_id == u64::MAX {
            return None;
        }
        let id = self.next_id;
        let ghost m0 = self@;
        self.queue.push_back(id);
        self.next_id = id + 1;
        let ghost m = self@;
        assert forall|w: int, x: u64| #[trigger] runs(m, w, x) implies x < m.next_id
            && !m.queue.contains(x) && !m.finished.contains(x) by {
            assert(runs(m0, w, x));
            if m.queue.contains(x) {
                let i = choose|i: int| 0 <= i < m.queue.len() && m.queue[i] == x;
                if i < m0.queue.len() {
                    assert(m0.queue[i] == x);
                }
            }
        }
        assert forall|x: u64| x < m.next_id implies #[trigger] m.queue.contains(x)
            || m.finished.contains(x) || running(m, x) by {
            if x == id {
                assert(m.queue[m.queue.len() - 1] == x);
            } else if m0.queue.contains(x) {
                let i = choose|i: int| 0 <= i < m0.queue.len() && m0.queue[i] == x;
                assert(m.queue[i] == x);
            } else if running(m0, x) {
                let w = choose|w: int| runs(m0, w, x);
                assert(runs(m, w, x));
            }
        }
        assert forall|i: int| 0 <= i < m.queue.len() implies #[trigger] m.queue[i] < m.next_id
            && !m.finished.contains(m.queue[i]) by {
            if i < m0.queue.len() {
                assert(m.queue[i] == m0.queue[i]);
            }
        }
        assert(m.queue.no_duplicates()) by {
            assert forall|i: int, j: int|
                0 <= i < m.queue.len() && 0 <= j < m.queue.len() && i != j implies m.queue[i]
                != m.queue[j] by {
                if i < m0.queue.len() && j < m0.queue.len() {
                    assert(m.queue[i] == m0.queue[i]);
                    assert(m.queue[j] == m0.queue[j]);
                } else if i < m0.queue.len() {
                    assert(m.queue[i] == m0.queue[i]);
                } else if j < m0.queue.len() {
                    assert(m.queue[j] == m0.queue[j]);
                }
            }
        }
        assert forall|w1: int, w2: int, x: u64|
            #[trigger] runs(m, w1, x) && #[trigger] runs(m, w2, x) implies w1 == w2 by {
            assert(runs(m0, w1, x) && runs(m0, w2, x));
        }
        assert forall|w: int|
            0 <= w < m.workers.len() && #[trigger] m.workers[w]
                == WorkerState::Terminated implies !m.open && m.queue.len() == 0 by {
            assert(m0.workers[w] == WorkerState::Terminated);
        }
        Some(id)
    }

    /// Stops taking work. Units already queued are still handed out.
    pub fn close(&mut self)
        requires
            old(self).wf(),
        ensures
            final(self).wf(),
            final(self)@ == (PoolModel { open: false, ..old(self)@ }),
    {
        self.open = false;
        let ghost m0 = old(self)@;
        let ghost m = self@;
        assert forall|w: int, x: u64| #[trigger] runs(m, w, x) implies x < m.next_id
            && !m.queue.contains(x) && !m.finished.contains(x) by {
            assert(runs(m0, w, x));
        }
        assert forall|x: u64| x < m.next_id implies #[trigger] m.queue.contains(x)
            || m.finished.contains(x) || running(m, x) by {
            if running(m0, x) {
                let w = choose|w: int| runs(m0, w, x);
                assert(runs(m, w, x));
            }
        }
        assert forall|w1: int, w2: int, x: u64|
            #[trigger] runs(m, w1, x) && #[trigger] runs(m, w2, x) implies w1 == w2 by {
            assert(runs(m0, w1, x) && runs(m0, w2, x));
        }
        assert forall|w: int|
            0 <= w < m.workers.len() && #[trigger] m.workers[w]
                == WorkerState::Terminated implies !m.open && m.queue.len() == 0 by {
            assert(m0.workers[w] == WorkerState::Terminated);
        }
    }

    /// An idle worker asks for work: it takes the oldest queued unit; with none
    /// queued it waits while the pool is open and stops once it is closed.
    pub fn next_for(&mut self, worker: usize) -> (r: WorkerAction)
        requires
            old(self).wf(),
            worker < old(self)@.workers.len(),
            old(self)@.workers[worker as int] == WorkerState::Idle,
        ensures
            final(self).wf(),
            old(self)@.queue.len() > 0 ==> r == WorkerAction::Run(old(self)@.queue[0])
                && final(self)@ == after_take(old(self)@, worker as int),
            old(self)@.queue.len() == 0 && old(self)@.open ==> r == WorkerAction::Wait
                && final(self)@ == old(self)@,
            old(self)@.queue.len() == 0 && !old(self)@.open ==> r == WorkerAction::Exit
                && final(self)@ == (PoolModel {
                workers: old(self)@.workers.update(worker as int, WorkerState::Terminated),
                ..old(self)@
            }),
    {
        let ghost m0 = self@;
        match self.queue.pop_front() {
            Some(id) => {
                self.workers.set(worker, WorkerState::Executing(id));
                let ghost m = self@;
                assert(m.queue =~= m0.queue.drop_first());
                assert(m0.queue[0] == id);
                assert(m0.queue.contains(id));
                assert forall|w: int, x: u64| #[trigger] runs(m, w, x) implies x < m.next_id
                    && !m.queue.contains(x) && !m.finished.contains(x) by {
                    if w != worker {
                        assert(runs(m0, w, x));
                        if m.queue.contains(x) {
                            let i = choose|i: int| 0 <= i < m.queue.len() && m.queue[i] == x;
                            assert(m0.queue[i + 1] == x);
                        }
                    } else {
                        if m.queue.contains(x) {
                            let i = choose|i: int| 0 <= i < m.queue.len() && m.queue[i] == x;
                            assert(m0.queue[i + 1] == x);
                            assert(m0.queue[0] == x);
                        }
                    }
                }
                assert forall|w1: int, w2: int, x: u64|
                    #[trigger] runs(m, w1, x) && #[trigger] runs(m, w2, x) implies w1 == w2 by {
                    if w1 != worker && w2 != worker {
                        assert(runs(m0, w1, x) && runs(m0, w2, x));
                    } else if w1 != worker {
                        assert(runs(m0, w1, x));
                    } else if w2 != worker {
                        assert(runs(m0, w2, x));
                    }
                }
                assert forall|x: u64| x < m.next_id implies #[trigger] m.queue.contains(x)
                    || m.finished.contains(x) || running(m, x) by {
                    if x == id {
                        assert(runs(m, worker as int, x));
                    } else if m0.queue.contains(x) {
                        let i = choose|i: int| 0 <= i < m0.queue.len() && m0.queue[i] == x;
                        assert(i != 0);
                        assert(m.queue[i - 1] == x);
                    } else if running(m0, x) {
                        let w = choose|w: int| runs(m0, w, x);
                        assert(w != worker);
                        assert(runs(m, w, x));
                    }
                }
                assert forall|i: int| 0 <= i < m.queue.len() implies #[trigger] m.queue[i]
                    < m.next_id && !m.finished.contains(m.queue[i]) by {
                    assert(m.queue[i] == m0.queue[i + 1]);
                }
                assert forall|w: int|
                    0 <= w < m.workers.len() && #[trigger] m.workers[w]
                        == WorkerState::Terminated implies !m.open && m.queue.len() == 0 by {
                    assert(w != worker);
                    assert(m0.workers[w] == WorkerState::Terminated);
                }
                WorkerAction::Run(id)
            },
            None => {
                if self.open {
                    WorkerAction::Wait
                } else {
                    self.workers.set(worker, WorkerState::Terminated);
                    let ghost m = self@;
                    assert forall|w: int, x: u64| #[trigger] runs(m, w, x) implies x < m.next_id
                        && !m.queue.contains(x) && !m.finished.contains(x) by {
                        assert(runs(m0, w, x));
                    }
                    assert forall|w1: int, w2: int, x: u64|
                        #[trigger] runs(m, w1, x) && #[trigger] runs(m, w2, x) implies w1
                        == w2 by {
                        assert(runs(m0, w1, x) && runs(m0, w2, x));
                    }
                    assert forall|x: u64| x < m.next_id implies #[trigger] m.queue.contains(x)
                        || m.finished.contains(x) || running(m, x) by {
                        if running(m0, x) {
                            let w = choose|w: int| runs(m0, w, x);
                            assert(w != worker);
                            assert(runs(m, w, x));
                        }
                    }
                    WorkerAction::Exit
                }
            },
        }
    }

    /// A worker reports that its unit is done and becomes idle.
    pub fn finish(&mut self, worker: usize)
        requires
            old(self).wf(),
            worker < old(self)@.workers.len(),
            old(self)@.workers[worker as int] is Executing,
        ensures
            final(self).wf(),
            final(self)@ == (PoolModel {
                workers: old(self)@.workers.update(worker as int, WorkerState::Idle),
                finished: old(self)@.finished.insert(
                    old(self)@.workers[worker as int]->Executing_0,
                ),
                ..old(self)@
            }),
    {
        let ghost m0 = self@;
        let ghost id = m0.workers[worker as int]->Executing_0;
        assert(runs(m0, worker as int, id));
        self.workers.set(worker, WorkerState::Idle);
        self.finished = Ghost(self.finished@.insert(id));
        let ghost m = self@;
        assert forall|w: int, x: u64| #[trigger] runs(m, w, x) implies x < m.next_id
            && !m.queue.contains(x) && !m.finished.contains(x) by {
            assert(w != worker);
            assert(runs(m0, w, x));
        }
        assert forall|w1: int, w2: int, x: u64|
            #[trigger] runs(m, w1, x) && #[trigger] runs(m, w2, x) implies w1 == w2 by {
            assert(runs(m0, w1, x) && runs(m0, w2, x));
        }
        assert forall|x: u64| x < m.next_id implies #[trigger] m.queue.contains(x)
            || m.finished.contains(x) || running(m, x) by {
            if running(m0, x) && x != id {
                let w = choose|w: int| runs(m0, w, x);
                assert(w != worker);
                assert(runs(m, w, x));
            }
        }
        assert forall|w: int|
            0 <= w < m.workers.len() && #[trigger] m.workers[w]
                == WorkerState::Terminated implies !m.open && m.queue.len() == 0 by {
            assert(m0.workers[w] == WorkerState::Terminated);
        }
    }
}

} // verus!
