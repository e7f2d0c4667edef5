//! A group for one wait cycle: all work is registered first, then one task waits for it, once.
use crate::counter::{lower, raise, wrap_i32};
use crate::outcome::{check_zero, zero_readiness, Misuse, Readiness};
use crate::outside::task_of;
use crate::signal::WakerCell;
use std::sync::Arc;
use std::task::Waker;
use vstd::prelude::*;

verus! {

/// The state of a group.
pub struct WaitGroupView {
    /// The identity of the group, by which a handle is known to be its own. Nothing is said of which
    /// one a new group has.
    pub id: int,
    /// The work registered and not yet done.
    pub count: i32,
    /// The first error reported.
    pub error: Option<Arc<anyhow::Error>>,
    /// Whether a task is waiting.
    pub is_waiting: bool,
    /// Whether a wait was ever begun.
    pub is_closing: bool,
    /// The task that the next wake-up goes to.
    pub task: Option<int>,
    /// The tasks woken so far, in order.
    pub woken: Seq<int>,
}

impl WaitGroupView {
    /// A group with nothing registered.
    pub open spec fn fresh(id: int) -> Self {
        WaitGroupView {
            id,
            count: 0,
            error: None,
            is_waiting: false,
            is_closing: false,
            task: None,
            woken: Seq::empty(),
        }
    }

    /// After the waiting task, if there is one, was woken.
    pub open spec fn notify(self) -> Self {
        match self.task {
            Some(task) => WaitGroupView { task: None, woken: self.woken.push(task), ..self },
            None => self,
        }
    }

    /// What registering work comes to.
    pub open spec fn add_result(self) -> Result<(), Misuse> {
        if self.is_closing {
            Err(Misuse::AddDuringWait)
        } else {
            Ok(())
        }
    }

    /// After `num` pieces of work were to be registered.
    pub open spec fn add_num(self, num: nat) -> Self {
        if self.is_closing {
            self
        } else {
            WaitGroupView { count: wrap_i32(self.count + num), ..self }
        }
    }

    /// What reporting a piece of work done comes to.
    pub open spec fn done_result(self) -> Result<(), Misuse> {
        if wrap_i32(self.count - 1) < 0 {
            Err(Misuse::CountBelowZero)
        } else {
            Ok(())
        }
    }

    /// After a piece of work was reported done: the waiting task is woken when none is left.
    pub open spec fn done(self) -> Self {
        let lowered = WaitGroupView { count: wrap_i32(self.count - 1), ..self };
        if lowered.count == 0 {
            lowered.notify()
        } else {
            lowered
        }
    }

    /// After an error was reported: the first one is kept.
    pub open spec fn set_error(self, error: Arc<anyhow::Error>) -> Self {
        WaitGroupView {
            error: if self.error is None {
                Some(error)
            } else {
                self.error
            },
            ..self
        }
    }

    /// After a piece of work was reported done with an error: the waiting task is woken, unless the
    /// counter fell below zero.
    pub open spec fn done_error(self, error: Arc<anyhow::Error>) -> Self {
        let lowered = self.set_error(error).done();
        if self.done_result() is Ok {
            lowered.notify()
        } else {
            lowered
        }
    }

    /// What beginning a wait comes to.
    pub open spec fn wait_result(self) -> Result<(), Misuse> {
        if self.is_waiting || self.is_closing {
            Err(Misuse::InUse)
        } else {
            Ok(())
        }
    }

    /// After a wait was to begin.
    pub open spec fn wait(self) -> Self {
        if self.wait_result() is Ok {
            WaitGroupView { is_waiting: true, is_closing: true, ..self }
        } else {
            self
        }
    }

    /// After the wait was over.
    pub open spec fn unlock_waiting(self) -> Self {
        WaitGroupView { is_waiting: false, ..self }
    }

    /// After `task` was put in the place of the task registered before.
    pub open spec fn register(self, task: int) -> Self {
        WaitGroupView { task: Some(task), ..self }
    }

    /// Where a wait on the group stands.
    pub open spec fn readiness(self) -> Readiness {
        zero_readiness(self.count, self.error)
    }

    /// After the waiting task looked at the group: it is registered if it has to wait on.
    pub open spec fn poll(self, task: int) -> Self {
        if self.readiness() is Pending {
            self.register(task)
        } else {
            self
        }
    }
}

/// A group after a piece of work is reported done by a handle that reports once, and that has
/// reported it already if `is_done`.
pub open spec fn done_once(is_done: bool, group: WaitGroupView) -> WaitGroupView {
    if is_done {
        group
    } else {
        group.done()
    }
}

/// What that report comes to.
pub open spec fn done_once_result(is_done: bool, group: WaitGroupView) -> Result<(), Misuse> {
    if is_done {
        Ok(())
    } else {
        group.done_result()
    }
}

/// A group after such a handle reports an error: the waiting task is woken, unless the counter fell
/// below zero.
pub open spec fn done_error_once(
    is_done: bool,
    group: WaitGroupView,
    error: Arc<anyhow::Error>,
) -> WaitGroupView {
    if is_done {
        group.set_error(error).notify()
    } else {
        group.done_error(error)
    }
}

/// The state that the handles of a group share.
pub struct Inner {
    id: Ghost<int>,
    waker: WakerCell,
    count: i32,
    error: Option<Arc<anyhow::Error>>,
    is_waiting: bool,
    is_closing: bool,
}

impl View for Inner {
    type V = WaitGroupView;

    closed spec fn view(&self) -> WaitGroupView {
        WaitGroupView {
            id: self.id@,
            count: self.count,
            error: self.error,
            is_waiting: self.is_waiting,
            is_closing: self.is_closing,
            task: self.waker.task(),
            woken: self.waker.woken(),
        }
    }
}

impl Inner {
    /// The state of a group with nothing registered.
    pub fn new() -> (inner: Self)
        ensures
            inner@ == WaitGroupView::fresh(inner@.id),
    {
        Inner {
            id: Ghost(arbitrary()),
            waker: WakerCell::new(),
            count: 0,
            error: None,
            is_waiting: false,
            is_closing: false,
        }
    }

    /// Wakes the waiting task, if there is one.
    pub fn notify(&mut self)
        ensures
            final(self)@ == old(self)@.notify(),
    {
        self.waker.wake();
    }

    /// The first error reported.
    pub fn get_error(&self) -> (error: Option<Arc<anyhow::Error>>)
        ensures
            error == self@.error,
    {
        match &self.error {
            Some(error) => Some(error.clone()),
            None => None,
        }
    }

    /// Registers a piece of work. It is a misuse to do so once a wait was begun.
    pub fn add(&mut self) -> (result: Result<(), Misuse>)
        ensures
            final(self)@ == old(self)@.add_num(1),
            result == old(self)@.add_result(),
    {
        self.add_num(1)
    }

    /// Registers `num` pieces of work. It is a misuse to do so once a wait was begun.
    pub fn add_num(&mut self, num: usize) -> (result: Result<(), Misuse>)
        ensures
            final(self)@ == old(self)@.add_num(num as nat),
            result == old(self)@.add_result(),
    {
        if self.is_closing {
            return Err(Misuse::AddDuringWait);
        }
        self.count = raise(self.count, num);
        Ok(())
    }

    /// Reports a piece of work done. It is a misuse to report more than was registered.
    pub fn done(&mut self) -> (result: Result<(), Misuse>)
        ensures
            final(self)@ == old(self)@.done(),
            result == old(self)@.done_result(),
    {
        self.count = lower(self.count);
        if self.count < 0 {
            return Err(Misuse::CountBelowZero);
        }
        if self.count == 0 {
            self.notify();
        }
        Ok(())
    }

    /// The work registered and not yet done.
    pub fn count(&self) -> (count: i32)
        ensures
            count == self@.count,
    {
        self.count
    }

    /// Takes the place of the one waiting task, if it is free.
    pub fn lock_waiting(&mut self) -> (taken: bool)
        ensures
            taken == !old(self)@.is_waiting,
            final(self)@ == (WaitGroupView { is_waiting: true, ..old(self)@ }),
    {
        let taken = !self.is_waiting;
        self.is_waiting = true;
        taken
    }

    /// Frees the place of the one waiting task.
    pub fn unlock_waiting(&mut self)
        ensures
            final(self)@ == old(self)@.unlock_waiting(),
    {
        self.is_waiting = false;
    }

    /// Reports an error. The first one is kept.
    pub fn set_error(&mut self, err: anyhow::Error)
        ensures
            final(self)@ == old(self)@.set_error(Arc::new(err)),
    {
        if self.error.is_none() {
            self.error = Some(Arc::new(err));
        }
    }

    /// Where a wait on the group stands.
    pub fn check(&self) -> (readiness: Readiness)
        ensures
            readiness == self@.readiness(),
    {
        check_zero(self.count, &self.error)
    }

    /// Puts the task of `waker` in the place of the task registered before.
    pub fn register(&mut self, waker: &Waker)
        ensures
            final(self)@ == old(self)@.register(task_of(*waker)),
    {
        self.waker.register(waker);
    }
}

/// A group of tasks to be waited for, once.
pub struct WaitGroup {
    inner: Inner,
}

impl View for WaitGroup {
    type V = WaitGroupView;

    closed spec fn view(&self) -> WaitGroupView {
        self.inner@
    }
}

impl Default for WaitGroup {
    fn default() -> (group: Self)
        ensures
            group@ == WaitGroupView::fresh(group@.id),
    {
        WaitGroup { inner: Inner::new() }
    }
}

impl WaitGroup {
    /// A group with nothing registered.
    pub fn new() -> (group: Self)
        ensures
            group@ == WaitGroupView::fresh(group@.id),
    {
        Self::default()
    }

    /// Registers a piece of work. It is a misuse to do so once a wait was begun.
    pub fn add(&mut self) -> (result: Result<(), Misuse>)
        ensures
            final(self)@ == old(self)@.add_num(1),
            result == old(self)@.add_result(),
    {
        self.inner.add()
    }

    /// Registers `num` pieces of work. It is a misuse to do so once a wait was begun.
    pub fn add_num(&mut self, num: usize) -> (result: Result<(), Misuse>)
        ensures
            final(self)@ == old(self)@.add_num(num as nat),
            result == old(self)@.add_result(),
    {
        self.inner.add_num(num)
    }

    /// Reports a piece of work done. It is a misuse to report more than was registered.
    pub fn done(&mut self) -> (result: Result<(), Misuse>)
        ensures
            final(self)@ == old(self)@.done(),
            result == old(self)@.done_result(),
    {
        self.inner.done()
    }

    /// Reports a piece of work done with an error, which fails the wait at once.
    pub fn done_error(&mut self, err: anyhow::Error) -> (result: Result<(), Misuse>)
        ensures
            final(self)@ == old(self)@.done_error(Arc::new(err)),
            result == old(self)@.done_result(),
    {
        self.inner.set_error(err);
        match self.inner.done() {
            Err(misuse) => Err(misuse),
            Ok(()) => {
                self.inner.notify();
                Ok(())
            },
        }
    }

    /// The work registered and not yet done.
    pub fn count(&self) -> (count: i32)
        ensures
            count == self@.count,
    {
        self.inner.count()
    }

    /// Registers a piece of work and gives the guard that reports it done. It is a misuse to do so
    /// once a wait was begun.
    pub fn guard_add(&mut self) -> (result: Result<WaitGroupGuard, Misuse>)
        ensures
            final(self)@ == old(self)@.add_num(1),
            match result {
                Ok(guard) => {
                    &&& old(self)@.add_result() is Ok
                    &&& !guard@
                    &&& guard.group() == old(self)@.id
                },
                Err(misuse) => old(self)@.add_result() == Err::<(), Misuse>(misuse),
            },
    {
        match self.add() {
            Err(misuse) => Err(misuse),
            Ok(()) => Ok(WaitGroupGuard::new(self.inner.id)),
        }
    }

    /// Begins the wait. It is a misuse to begin another, at the same time or later.
    pub fn wait(&mut self) -> (result: Result<WaitGroupFuture, Misuse>)
        ensures
            final(self)@ == old(self)@.wait(),
            match result {
                Ok(future) => old(self)@.wait_result() is Ok && future.group() == old(self)@.id,
                Err(misuse) => old(self)@.wait_result() == Err::<(), Misuse>(misuse),
            },
    {
        if self.inner.is_closing || !self.inner.lock_waiting() {
            return Err(Misuse::InUse);
        }
        self.inner.is_closing = true;
        Ok(WaitGroupFuture::new(self.inner.id))
    }

    /// A handle for a task that registers work.
    pub fn worker(&self) -> (worker: WaitGroupWorker)
        ensures
            worker.group() == self@.id,
    {
        WaitGroupWorker::new(self.inner.id)
    }
}

/// The wait under way.
pub struct WaitGroupFuture {
    id: Ghost<int>,
}

impl WaitGroupFuture {
    /// The group that the wait is of.
    pub closed spec fn group(&self) -> int {
        self.id@
    }

    fn new(id: Ghost<int>) -> (future: Self)
        ensures
            future.group() == id@,
    {
        WaitGroupFuture { id }
    }

    /// Looks at the group, and registers the task of `waker` to be woken if it has to wait on.
    pub fn poll(&mut self, group: &mut WaitGroup, waker: &Waker) -> (readiness: Readiness)
        requires
            old(self).group() == old(group)@.id,
        ensures
            final(self).group() == old(self).group(),
            readiness == old(group)@.readiness(),
            final(group)@ == old(group)@.poll(task_of(*waker)),
    {
        let readiness = group.inner.check();
        if let Readiness::Pending = readiness {
            group.inner.register(waker);
        }
        readiness
    }

    /// Ends the wait, whatever it came to.
    pub fn finish(self, group: &mut WaitGroup)
        requires
            self.group() == old(group)@.id,
        ensures
            final(group)@ == old(group)@.unlock_waiting(),
    {
        group.inner.unlock_waiting();
    }
}

/// The duty to report one piece of work done, once. The view says whether it was reported.
pub struct WaitGroupGuard {
    is_done: bool,
    id: Ghost<int>,
}

impl View for WaitGroupGuard {
    type V = bool;

    closed spec fn view(&self) -> bool {
        self.is_done
    }
}

impl WaitGroupGuard {
    /// The group that the guard is of.
    pub closed spec fn group(&self) -> int {
        self.id@
    }

    fn new(id: Ghost<int>) -> (guard: Self)
        ensures
            !guard@,
            guard.group() == id@,
    {
        WaitGroupGuard { is_done: false, id }
    }

    fn lock_done(&mut self) -> (first: bool)
        ensures
            final(self).group() == old(self).group(),
            first == !old(self)@,
            final(self)@,
    {
        let first = !self.is_done;
        self.is_done = true;
        first
    }

    /// Reports the work done, unless it was reported before.
    pub fn done(&mut self, group: &mut WaitGroup) -> (result: Result<(), Misuse>)
        requires
            old(self).group() == old(group)@.id,
        ensures
            final(self).group() == old(self).group(),
            final(self)@,
            final(group)@ == done_once(old(self)@, old(group)@),
            result == done_once_result(old(self)@, old(group)@),
    {
        if self.lock_done() {
            group.inner.done()
        } else {
            Ok(())
        }
    }

    /// Reports an error, and the work done unless it was reported before.
    pub fn done_error(&mut self, group: &mut WaitGroup, err: anyhow::Error) -> (result: Result<
        (),
        Misuse,
    >)
        requires
            old(self).group() == old(group)@.id,
        ensures
            final(self).group() == old(self).group(),
            final(self)@,
            final(group)@ == done_error_once(old(self)@, old(group)@, Arc::new(err)),
            result == done_once_result(old(self)@, old(group)@),
    {
        group.inner.set_error(err);
        match self.done(group) {
            Err(misuse) => Err(misuse),
            Ok(()) => {
                group.inner.notify();
                Ok(())
            },
        }
    }
}

/// A handle for a task that registers work.
#[derive(Clone, Copy)]
pub struct WaitGroupWorker {
    id: Ghost<int>,
}

impl WaitGroupWorker {
    /// The group that the handle is of.
    pub closed spec fn group(&self) -> int {
        self.id@
    }

    fn new(id: Ghost<int>) -> (worker: Self)
        ensures
            worker.group() == id@,
    {
        WaitGroupWorker { id }
    }

    /// Another handle of the same kind, of the same group.
    pub fn worker(&self) -> (worker: Self)
        ensures
            worker.group() == self.group(),
    {
        Self::new(self.id)
    }

    /// Registers a piece of work and gives the handle that reports it done. It is a misuse to do so
    /// once a wait was begun.
    pub fn add(&self, group: &mut WaitGroup) -> (result: Result<WaitGroupInner, Misuse>)
        requires
            self.group() == old(group)@.id,
        ensures
            final(group)@ == old(group)@.add_num(1),
            match result {
                Ok(handle) => {
                    &&& old(group)@.add_result() is Ok
                    &&& !handle@
                    &&& handle.group() == self.group()
                },
                Err(misuse) => old(group)@.add_result() == Err::<(), Misuse>(misuse),
            },
    {
        match group.inner.add() {
            Err(misuse) => Err(misuse),
            Ok(()) => Ok(WaitGroupInner::new(self.id)),
        }
    }

    /// Registers a piece of work and gives the guard that reports it done. It is a misuse to do so
    /// once a wait was begun.
    pub fn guard_add(&self, group: &mut WaitGroup) -> (result: Result<WaitGroupGuard, Misuse>)
        requires
            self.group() == old(group)@.id,
        ensures
            final(group)@ == old(group)@.add_num(1),
            match result {
                Ok(guard) => {
                    &&& old(group)@.add_result() is Ok
                    &&& !guard@
                    &&& guard.group() == self.group()
                },
                Err(misuse) => old(group)@.add_result() == Err::<(), Misuse>(misuse),
            },
    {
        match group.inner.add() {
            Err(misuse) => Err(misuse),
            Ok(()) => Ok(WaitGroupGuard::new(self.id)),
        }
    }

    /// The work registered and not yet done.
    pub fn count(&self, group: &WaitGroup) -> (count: i32)
        requires
            self.group() == group@.id,
        ensures
            count == group@.count,
    {
        group.inner.count()
    }
}

/// A handle that reports one piece of work done, once. The view says whether it was reported.
pub struct WaitGroupInner {
    is_done: bool,
    id: Ghost<int>,
}

impl View for WaitGroupInner {
    type V = bool;

    closed spec fn view(&self) -> bool {
        self.is_done
    }
}

impl WaitGroupInner {
    /// The group that the handle is of.
    pub closed spec fn group(&self) -> int {
        self.id@
    }

    fn new(id: Ghost<int>) -> (handle: Self)
        ensures
            !handle@,
            handle.group() == id@,
    {
        WaitGroupInner { is_done: false, id }
    }

    /// A handle for a task that registers more work in the same group.
    pub fn worker(&self) -> (worker: WaitGroupWorker)
        ensures
            worker.group() == self.group(),
    {
        WaitGroupWorker::new(self.id)
    }

    /// The work registered and not yet done.
    pub fn count(&self, group: &WaitGroup) -> (count: i32)
        requires
            self.group() == group@.id,
        ensures
            count == group@.count,
    {
        group.inner.count()
    }

    fn lock_done(&mut self) -> (first: bool)
        ensures
            final(self).group() == old(self).group(),
            first == !old(self)@,
            final(self)@,
    {
        let first = !self.is_done;
        self.is_done = true;
        first
    }

    /// Reports the work done, unless it was reported before.
    pub fn done(&mut self, group: &mut WaitGroup) -> (result: Result<(), Misuse>)
        requires
            old(self).group() == old(group)@.id,
        ensures
            final(self).group() == old(self).group(),
            final(self)@,
            final(group)@ == done_once(old(self)@, old(group)@),
            result == done_once_result(old(self)@, old(group)@),
    {
        if self.lock_done() {
            group.inner.done()
        } else {
            Ok(())
        }
    }

    /// Reports an error, and the work done unless it was reported before.
    pub fn done_error(&mut self, group: &mut WaitGroup, err: anyhow::Error) -> (result: Result<
        (),
        Misuse,
    >)
        requires
            old(self).group() == old(group)@.id,
        ensures
            final(self).group() == old(self).group(),
            final(self)@,
            final(group)@ == done_error_once(old(self)@, old(group)@, Arc::new(err)),
            result == done_once_result(old(self)@, old(group)@),
    {
        group.inner.set_error(err);
        match self.done(group) {
            Err(misuse) => Err(misuse),
            Ok(()) => {
                group.inner.notify();
                Ok(())
            },
        }
    }
}

} // verus!
