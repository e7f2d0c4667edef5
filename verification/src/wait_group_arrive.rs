//! A group that counts arrivals: tasks only arrive, and one task waits for a number of them.
use crate::counter::{raise, truncate, wrap_i32};
use crate::outcome::{Misuse, Readiness, WaitError};
use crate::outside::task_of;
use crate::signal::{holds_any, WakerList};
use std::sync::Arc;
use std::task::Waker;
use vstd::prelude::*;

verus! {

/// The state of a group.
pub struct ArriveView {
    /// The identity of the group, by which a handle is known to be its own. Nothing is said of which
    /// one a new group has.
    pub id: int,
    /// The arrivals so far.
    pub count: i32,
    /// The first error reported.
    pub error: Option<Arc<anyhow::Error>>,
    /// The arrivals waited for; zero before the first wait.
    pub target: i32,
    /// Whether a task is waiting.
    pub is_waiting: bool,
    /// The tasks that the next wake-up goes to.
    pub tasks: Seq<int>,
    /// The tasks woken so far, in order.
    pub woken: Seq<int>,
}

impl ArriveView {
    /// A group where nobody has arrived.
    pub open spec fn fresh(id: int) -> Self {
        ArriveView {
            id,
            count: 0,
            error: None,
            target: 0,
            is_waiting: false,
            tasks: Seq::empty(),
            woken: Seq::empty(),
        }
    }

    /// After the registered tasks were woken.
    pub open spec fn notify(self) -> Self {
        ArriveView { tasks: Seq::empty(), woken: self.woken + self.tasks, ..self }
    }

    /// What `num` arrivals come to: more than were waited for are a misuse.
    pub open spec fn arrive_result(self, num: nat) -> Result<(), Misuse> {
        if self.target > 0 && wrap_i32(self.count + num) > self.target {
            Err(Misuse::InUse)
        } else {
            Ok(())
        }
    }

    /// After `num` arrivals: they count in any case, and the registered tasks are woken when as many
    /// have arrived as were waited for.
    pub open spec fn arrive_num(self, num: nat) -> Self {
        let raised = ArriveView { count: wrap_i32(self.count + num), ..self };
        if self.target > 0 && raised.count == self.target {
            raised.notify()
        } else {
            raised
        }
    }

    /// After an error was reported: the first one is kept.
    pub open spec fn set_error(self, error: Arc<anyhow::Error>) -> Self {
        ArriveView {
            error: if self.error is None {
                Some(error)
            } else {
                self.error
            },
            ..self
        }
    }

    /// After an arrival with an error: the registered tasks are woken, unless the arrival was a
    /// misuse.
    pub open spec fn arrive_error(self, error: Arc<anyhow::Error>) -> Self {
        let raised = self.set_error(error).arrive_num(1);
        if self.arrive_result(1) is Ok {
            raised.notify()
        } else {
            raised
        }
    }

    /// What beginning a wait for `count` arrivals comes to: one task may wait at a time, and always
    /// for the same number.
    pub open spec fn wait_result(self, count: nat) -> Result<(), Misuse> {
        if count == 0 {
            Err(Misuse::NothingToWaitFor)
        } else if self.is_waiting || self.target > 0 && self.target != wrap_i32(count as int) {
            Err(Misuse::InUse)
        } else {
            Ok(())
        }
    }

    /// After a wait for `count` arrivals was to begin: the number waited for is the new one even
    /// where the wait was refused because of the one before.
    pub open spec fn wait_arrive(self, count: nat) -> Self {
        if count == 0 {
            self
        } else {
            ArriveView {
                target: wrap_i32(count as int),
                is_waiting: self.is_waiting || self.wait_result(count) is Ok,
                ..self
            }
        }
    }

    /// After the wait was over.
    pub open spec fn finish(self) -> Self {
        ArriveView { is_waiting: false, ..self }
    }

    /// After `task` was to be registered by a look at a list in which it was `known` to be.
    pub open spec fn register(self, task: int, known: bool) -> Self {
        if known {
            self
        } else {
            ArriveView { tasks: self.tasks.push(task), ..self }
        }
    }

    /// Where a wait on the group stands.
    pub open spec fn readiness(self) -> Readiness {
        if self.count < 0 && self.error is None {
            Readiness::Ready(Err(WaitError::NegativeCount { count: self.count }))
        } else if self.target > 0 && self.count > self.target {
            Readiness::Ready(Err(WaitError::Exceeded { count: self.count, target: self.target }))
        } else {
            match self.error {
                Some(error) => Readiness::Ready(
                    Err(WaitError::Failed { count: self.count, error }),
                ),
                None => if self.count == self.target {
                    Readiness::Ready(Ok(()))
                } else {
                    Readiness::Pending
                },
            }
        }
    }

    /// After the waiting task looked at the group: it is registered if it has to wait on.
    pub open spec fn poll(self, task: int, known: bool) -> Self {
        if self.readiness() is Pending {
            self.register(task, known)
        } else {
            self
        }
    }
}

/// A group after a handle that arrives once, and that has arrived already if `is_add`, stands for
/// `num` arrivals.
pub open spec fn arrive_once(is_add: bool, group: ArriveView, num: nat) -> ArriveView {
    if is_add {
        group
    } else {
        group.arrive_num(num)
    }
}

/// What that comes to.
pub open spec fn arrive_once_result(is_add: bool, group: ArriveView, num: nat) -> Result<
    (),
    Misuse,
> {
    if is_add {
        Ok(())
    } else {
        group.arrive_result(num)
    }
}

/// A group after such a handle reports an error.
pub open spec fn arrive_error_once(
    is_add: bool,
    group: ArriveView,
    error: Arc<anyhow::Error>,
) -> ArriveView {
    if is_add {
        group.set_error(error).notify()
    } else {
        group.arrive_error(error)
    }
}

/// The state that the handles of a group share.
pub struct Inner {
    id: Ghost<int>,
    wakers: WakerList,
    count: i32,
    error: Option<Arc<anyhow::Error>>,
    wait_arrive_count: i32,
    is_waiting: bool,
}

impl View for Inner {
    type V = ArriveView;

    closed spec fn view(&self) -> ArriveView {
        ArriveView {
            id: self.id@,
            count: self.count,
            error: self.error,
            target: self.wait_arrive_count,
            is_waiting: self.is_waiting,
            tasks: self.wakers.tasks(),
            woken: self.wakers.woken(),
        }
    }
}

impl Inner {
    /// The state of a group where nobody has arrived.
    pub fn new() -> (inner: Self)
        ensures
            inner@ == ArriveView::fresh(inner@.id),
    {
        Inner {
            id: Ghost(arbitrary()),
            wakers: WakerList::new(),
            count: 0,
            error: None,
            wait_arrive_count: 0,
            is_waiting: false,
        }
    }

    /// Wakes the registered tasks.
    pub fn notify(&mut self)
        ensures
            final(self)@ == old(self)@.notify(),
    {
        self.wakers.notify();
    }

    /// Registers the task of `waker` to be woken, unless it is seen among the registered tasks.
    pub fn register(&mut self, waker: &Waker)
        ensures
            exists|known: bool| #[trigger]
                old(self)@.register(task_of(*waker), known) == final(self)@,
            final(self)@.tasks.contains(task_of(*waker)),
    {
        let seen = self.wakers.seen(waker);
        let ghost before = self@;
        self.wakers.register_unless(&seen, waker);
        proof {
            let known = holds_any(seen@);
            assert(before.register(task_of(*waker), known) == self@);
            if known {
                let i = choose|i: int| 0 <= i < seen@.len() && #[trigger] seen@[i];
                assert(self@.tasks[i] == task_of(*waker));
            } else {
                assert(self@.tasks.last() == task_of(*waker));
            }
        }
    }

    /// The first error reported.
    pub fn get_error(&self) -> (error: Option<Arc<anyhow::Error>>)
        ensures
            error == self@.error,
    {
        match &self.error {
            Some(error) => Some(error.clone()),
            None => None,
        }
    }

    /// Counts `num` arrivals. It is a misuse to arrive more often than is waited for.
    pub fn add_num(&mut self, num: usize) -> (result: Result<(), Misuse>)
        ensures
            final(self)@ == old(self)@.arrive_num(num as nat),
            result == old(self)@.arrive_result(num as nat),
    {
        self.count = raise(self.count, num);
        let target = self.wait_arrive_count();
        if target > 0 {
            if self.count > target {
                return Err(Misuse::InUse);
            }
            if self.count == target {
                self.notify();
            }
        }
        Ok(())
    }

    /// Counts an arrival. It is a misuse to arrive more often than is waited for.
    pub fn add(&mut self) -> (result: Result<(), Misuse>)
        ensures
            final(self)@ == old(self)@.arrive_num(1),
            result == old(self)@.arrive_result(1),
    {
        self.add_num(1)
    }

    /// The arrivals so far.
    pub fn count(&self) -> (count: i32)
        ensures
            count == self@.count,
    {
        self.count
    }

    /// The arrivals waited for; zero before the first wait.
    pub fn wait_arrive_count(&self) -> (target: i32)
        ensures
            target == self@.target,
    {
        self.wait_arrive_count
    }

    /// Sets the arrivals waited for, and gives those waited for before.
    pub fn wait_arrive_count_swap(&mut self, value: i32) -> (target: i32)
        ensures
            target == old(self)@.target,
            final(self)@ == (ArriveView { target: value, ..old(self)@ }),
    {
        let target = self.wait_arrive_count;
        self.wait_arrive_count = value;
        target
    }

    /// Reports an error. The first one is kept.
    pub fn set_error(&mut self, err: anyhow::Error)
        ensures
            final(self)@ == old(self)@.set_error(Arc::new(err)),
    {
        if self.error.is_none() {
            self.error = Some(Arc::new(err));
        }
    }

    /// Where a wait on the group stands.
    pub fn check(&self) -> (readiness: Readiness)
        ensures
            readiness == self@.readiness(),
    {
        let count = self.count();
        let target = self.wait_arrive_count();
        let error = self.get_error();
        if count < 0 && error.is_none() {
            return Readiness::Ready(Err(WaitError::NegativeCount { count }));
        }
        if target > 0 && count > target {
            return Readiness::Ready(Err(WaitError::Exceeded { count, target }));
        }
        if let Some(error) = error {
            return Readiness::Ready(Err(WaitError::Failed { count, error }));
        }
        if count == target {
            Readiness::Ready(Ok(()))
        } else {
            Readiness::Pending
        }
    }
}

/// A group of tasks whose arrivals are waited for.
pub struct WaitGroupArrive {
    inner: Inner,
}

impl View for WaitGroupArrive {
    type V = ArriveView;

    closed spec fn view(&self) -> ArriveView {
        self.inner@
    }
}

impl Default for WaitGroupArrive {
    fn default() -> (group: Self)
        ensures
            group@ == ArriveView::fresh(group@.id),
    {
        WaitGroupArrive { inner: Inner::new() }
    }
}

impl WaitGroupArrive {
    /// A group where nobody has arrived.
    pub fn new() -> (group: Self)
        ensures
            group@ == ArriveView::fresh(group@.id),
    {
        Self::default()
    }

    /// The arrivals so far.
    pub fn count(&self) -> (count: i32)
        ensures
            count == self@.count,
    {
        self.inner.count()
    }

    /// Begins a wait for `count` arrivals. It is a misuse to wait for none, to wait while another task
    /// waits, or to wait for another number than before.
    pub fn wait_arrive(&mut self, count: usize) -> (result: Result<WaitGroupFuture, Misuse>)
        ensures
            final(self)@ == old(self)@.wait_arrive(count as nat),
            match result {
                Ok(future) => {
                    &&& old(self)@.wait_result(count as nat) is Ok
                    &&& future.group() == old(self)@.id
                },
                Err(misuse) => old(self)@.wait_result(count as nat) == Err::<(), Misuse>(misuse),
            },
    {
        if count == 0 {
            return Err(Misuse::NothingToWaitFor);
        }
        let target = truncate(count);
        let before = self.inner.wait_arrive_count_swap(target);
        if self.inner.is_waiting || before > 0 && before != target {
            return Err(Misuse::InUse);
        }
        self.inner.is_waiting = true;
        Ok(WaitGroupFuture::new(self.inner.id))
    }

    /// A handle for a task that arrives.
    pub fn worker(&self) -> (worker: WaitGroupWorkerArrive)
        ensures
            !worker@,
            worker.group() == self@.id,
    {
        WaitGroupWorkerArrive::new(self.inner.id)
    }

    /// Counts an arrival. It is a misuse to arrive more often than is waited for.
    pub fn arrive(&mut self) -> (result: Result<(), Misuse>)
        ensures
            final(self)@ == old(self)@.arrive_num(1),
            result == old(self)@.arrive_result(1),
    {
        self.inner.add()
    }

    /// Counts `num` arrivals. It is a misuse to arrive more often than is waited for.
    pub fn arrive_num(&mut self, num: usize) -> (result: Result<(), Misuse>)
        ensures
            final(self)@ == old(self)@.arrive_num(num as nat),
            result == old(self)@.arrive_result(num as nat),
    {
        self.inner.add_num(num)
    }

    /// Counts an arrival with an error, which fails the wait at once.
    pub fn arrive_error(&mut self, err: anyhow::Error) -> (result: Result<(), Misuse>)
        ensures
            final(self)@ == old(self)@.arrive_error(Arc::new(err)),
            result == old(self)@.arrive_result(1),
    {
        self.inner.set_error(err);
        match self.inner.add() {
            Err(misuse) => Err(misuse),
            Ok(()) => {
                self.inner.notify();
                Ok(())
            },
        }
    }
}

/// A wait under way.
pub struct WaitGroupFuture {
    id: Ghost<int>,
}

impl WaitGroupFuture {
    /// The group that the wait is of.
    pub closed spec fn group(&self) -> int {
        self.id@
    }

    fn new(id: Ghost<int>) -> (future: Self)
        ensures
            future.group() == id@,
    {
        WaitGroupFuture { id }
    }

    /// Looks at the group, and registers the task of `waker` to be woken if it has to wait on.
    pub fn poll(&mut self, group: &mut WaitGroupArrive, waker: &Waker) -> (readiness: Readiness)
        requires
            old(self).group() == old(group)@.id,
        ensures
            final(self).group() == old(self).group(),
            readiness == old(group)@.readiness(),
            exists|known: bool| #[trigger]
                old(group)@.poll(task_of(*waker), known) == final(group)@,
            readiness is Pending ==> final(group)@.tasks.contains(task_of(*waker)),
    {
        let readiness = group.inner.check();
        if let Readiness::Pending = readiness {
            group.inner.register(waker);
            proof {
                let known = choose|known: bool| #[trigger]
                    old(group)@.register(task_of(*waker), known) == group@;
                assert(old(group)@.poll(task_of(*waker), known) == group@);
            }
        } else {
            assert(old(group)@.poll(task_of(*waker), true) == group@);
        }
        readiness
    }

    /// Ends the wait, whatever it came to.
    pub fn finish(self, group: &mut WaitGroupArrive)
        requires
            self.group() == old(group)@.id,
        ensures
            final(group)@ == old(group)@.finish(),
    {
        group.inner.is_waiting = false;
    }
}

/// A handle for a task that arrives, once. The view says whether it has arrived.
pub struct WaitGroupWorkerArrive {
    is_add: bool,
    id: Ghost<int>,
}

impl View for WaitGroupWorkerArrive {
    type V = bool;

    closed spec fn view(&self) -> bool {
        self.is_add
    }
}

impl WaitGroupWorkerArrive {
    /// The group that the handle is of.
    pub closed spec fn group(&self) -> int {
        self.id@
    }

    fn new(id: Ghost<int>) -> (worker: Self)
        ensures
            !worker@,
            worker.group() == id@,
    {
        WaitGroupWorkerArrive { is_add: false, id }
    }

    /// A handle for another task, of the same group.
    pub fn worker(&self) -> (worker: Self)
        ensures
            !worker@,
            worker.group() == self.group(),
    {
        Self::new(self.id)
    }

    /// The arrivals so far.
    pub fn count(&self, group: &WaitGroupArrive) -> (count: i32)
        requires
            self.group() == group@.id,
        ensures
            count == group@.count,
    {
        group.inner.count()
    }

    fn lock_add(&mut self) -> (first: bool)
        ensures
            final(self).group() == old(self).group(),
            first == !old(self)@,
            final(self)@,
    {
        let first = !self.is_add;
        self.is_add = true;
        first
    }

    /// Counts an arrival, unless the task has arrived before.
    pub fn arrive(&mut self, group: &mut WaitGroupArrive) -> (result: Result<(), Misuse>)
        requires
            old(self).group() == old(group)@.id,
        ensures
            final(self).group() == old(self).group(),
            final(self)@,
            final(group)@ == arrive_once(old(self)@, old(group)@, 1),
            result == arrive_once_result(old(self)@, old(group)@, 1),
    {
        if self.lock_add() {
            group.inner.add()
        } else {
            Ok(())
        }
    }

    /// Counts `num` arrivals, unless the task has arrived before.
    pub fn arrive_num(&mut self, group: &mut WaitGroupArrive, num: usize) -> (result: Result<
        (),
        Misuse,
    >)
        requires
            old(self).group() == old(group)@.id,
        ensures
            final(self).group() == old(self).group(),
            final(self)@,
            final(group)@ == arrive_once(old(self)@, old(group)@, num as nat),
            result == arrive_once_result(old(self)@, old(group)@, num as nat),
    {
        if self.lock_add() {
            group.inner.add_num(num)
        } else {
            Ok(())
        }
    }

    /// Counts an arrival with an error, unless the task has arrived before.
    pub fn try_arrive_error(&mut self, group: &mut WaitGroupArrive, err: anyhow::Error) -> (result:
        Result<(), Misuse>)
        requires
            old(self).group() == old(group)@.id,
        ensures
            final(self).group() == old(self).group(),
            final(self)@,
            final(group)@ == if old(self)@ {
                old(group)@
            } else {
                old(group)@.arrive_error(Arc::new(err))
            },
            result == arrive_once_result(old(self)@, old(group)@, 1),
    {
        if self.lock_add() {
            group.inner.set_error(err);
            match group.inner.add() {
                Err(misuse) => {
                    return Err(misuse);
                },
                Ok(()) => {
                    group.inner.notify();
                },
            }
        }
        Ok(())
    }

    /// Reports an error, and counts an arrival unless the task has arrived before.
    pub fn arrive_error(&mut self, group: &mut WaitGroupArrive, err: anyhow::Error) -> (result:
        Result<(), Misuse>)
        requires
            old(self).group() == old(group)@.id,
        ensures
            final(self).group() == old(self).group(),
            final(self)@,
            final(group)@ == arrive_error_once(old(self)@, old(group)@, Arc::new(err)),
            result == arrive_once_result(old(self)@, old(group)@, 1),
    {
        group.inner.set_error(err);
        if self.lock_add() {
            match group.inner.add() {
                Err(misuse) => {
                    return Err(misuse);
                },
                Ok(()) => {},
            }
        }
        group.inner.notify();
        Ok(())
    }
}

} // verus!
