//! How a group reaches the tasks that wait on it, with a record of the wake-ups it has sent.
use crate::outside::{new_cell, register_in_cell, registered_task, task_of, WakeLog};
use futures::task::AtomicWaker;
use std::task::Waker;
use vstd::prelude::*;

verus! {

/// The waker of the one task that may wait on a group.
pub struct WakerCell {
    cell: AtomicWaker,
    log: WakeLog,
}

impl WakerCell {
    /// The task that the next wake-up goes to.
    pub closed spec fn task(&self) -> Option<int> {
        registered_task(self.cell)
    }

    /// The tasks woken so far, in order.
    pub closed spec fn woken(&self) -> Seq<int> {
        self.log.woken()
    }

    /// An empty cell.
    pub fn new() -> (cell: Self)
        ensures
            cell.task() is None,
            cell.woken() == Seq::<int>::empty(),
    {
        WakerCell { cell: new_cell(), log: WakeLog::new() }
    }

    /// Puts the task of `waker` in the place of the one registered before.
    pub fn register(&mut self, waker: &Waker)
        ensures
            final(self).task() == Some(task_of(*waker)),
            final(self).woken() == old(self).woken(),
    {
        register_in_cell(&mut self.cell, waker);
    }

    /// Wakes the registered task, if there is one, and forgets it.
    pub fn wake(&mut self)
        ensures
            final(self).task() is None,
            final(self).woken() == match old(self).task() {
                Some(task) => old(self).woken().push(task),
                None => old(self).woken(),
            },
    {
        self.log.wake_cell(&mut self.cell);
    }
}

/// The tasks that `wakers` wake.
pub open spec fn tasks_of(wakers: Seq<Waker>) -> Seq<int> {
    wakers.map_values(|waker: Waker| task_of(waker))
}

/// Whether any of `seen` holds.
pub open spec fn holds_any(seen: Seq<bool>) -> bool {
    exists|i: int| 0 <= i < seen.len() && #[trigger] seen[i]
}

/// Any holds where `true` is among them, and nowhere else.
pub proof fn law_any_is_one(seen: Seq<bool>)
    ensures
        holds_any(seen) == seen.contains(true),
{
    if holds_any(seen) {
        let i = choose|i: int| 0 <= i < seen.len() && #[trigger] seen[i];
        assert(seen[i] == true);
    }
    if seen.contains(true) {
        let i = choose|i: int| 0 <= i < seen.len() && seen[i] == true;
        assert(seen[i]);
    }
}

/// The tasks of wakers are the task of each, in order.
pub proof fn law_tasks_are_those_of_wakers(wakers: Seq<Waker>)
    ensures
        tasks_of(wakers).len() == wakers.len(),
        forall|i: int| 0 <= i < wakers.len() ==> #[trigger] tasks_of(wakers)[i] == task_of(wakers[i]),
{
}

/// Whether any of `seen` holds.
pub fn any(seen: &Vec<bool>) -> (found: bool)
    ensures
        found == holds_any(seen@),
{
    for i in 0..seen.len()
        invariant
            forall|j: int| 0 <= j < i ==> !#[trigger] seen@[j],
    {
        if seen[i] {
            return true;
        }
    }
    false
}

/// The wakers of the tasks that wait on a group.
pub struct WakerList {
    wakers: Vec<Waker>,
    log: WakeLog,
}

impl WakerList {
    /// The tasks that the next wake-up goes to.
    pub closed spec fn tasks(&self) -> Seq<int> {
        tasks_of(self.wakers@)
    }

    /// The tasks woken so far, in order.
    pub closed spec fn woken(&self) -> Seq<int> {
        self.log.woken()
    }

    /// A list of no tasks.
    pub fn new() -> (list: Self)
        ensures
            list.tasks() == Seq::<int>::empty(),
            list.woken() == Seq::<int>::empty(),
    {
        WakerList { wakers: Vec::new(), log: WakeLog::new() }
    }

    /// Wakes every task of the list, in order, and empties it.
    pub fn notify(&mut self)
        ensures
            final(self).tasks() == Seq::<int>::empty(),
            final(self).woken() == old(self).woken() + old(self).tasks(),
    {
        let mut drained: Vec<Waker> = Vec::new();
        std::mem::swap(&mut drained, &mut self.wakers);
        let ghost tasks = tasks_of(drained@);
        let ghost before = self.log.woken();
        for waker in iter: drained
            invariant
                tasks == tasks_of(iter.seq()),
                self.wakers@ == Seq::<Waker>::empty(),
                self.log.woken() == before + tasks.take(iter.index() as int),
        {
            assert(tasks.take(iter.index() + 1) == tasks.take(iter.index() as int).push(
                task_of(waker),
            ));
            self.log.wake(waker);
        }
    }

    /// For each waker of the list, whether it is seen to wake the task of `waker`. A task may be in
    /// the list without being seen there, but none is seen that is not in it.
    pub fn seen(&self, waker: &Waker) -> (seen: Vec<bool>)
        ensures
            seen@.len() == self.tasks().len(),
            forall|i: int|
                0 <= i < seen@.len() && seen@[i] ==> #[trigger] self.tasks()[i] == task_of(*waker),
    {
        let mut seen: Vec<bool> = Vec::new();
        let mut i: usize = 0;
        while i < self.wakers.len()
            invariant
                i == seen@.len(),
                i <= self.wakers.len(),
                forall|j: int|
                    0 <= j < i && seen@[j] ==> #[trigger] self.tasks()[j] == task_of(*waker),
            decreases self.wakers.len() - i,
        {
            let same = self.wakers[i].will_wake(waker);
            assert(self.tasks()[i as int] == task_of(self.wakers@[i as int]));
            seen.push(same);
            i += 1;
        }
        seen
    }

    /// Appends the task of `waker`, unless any of `seen` says that it is in the list.
    pub fn register_unless(&mut self, seen: &Vec<bool>, waker: &Waker)
        ensures
            final(self).woken() == old(self).woken(),
            final(self).tasks() == if holds_any(seen@) {
                old(self).tasks()
            } else {
                old(self).tasks().push(task_of(*waker))
            },
    {
        if !any(seen) {
            self.wakers.push(waker.clone());
        }
    }
}

} // verus!
