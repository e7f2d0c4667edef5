//! A group that any number of tasks may wait on, and that may be waited on again and again.
use crate::counter::{lower, next_version, raise, wrap_i32, wrap_u64};
use crate::outcome::{check_zero, zero_readiness, Misuse, Readiness, WaitError};
use crate::outside::Broadcast;
use std::sync::Arc;
use tokio::sync::Notify;
use vstd::prelude::*;

verus! {

/// The state of a group.
pub struct GroupView {
    /// The identity of the group, by which a handle is known to be its own. Nothing is said of which
    /// one a new group has.
    pub id: int,
    /// The work registered and not yet done.
    pub count: i32,
    /// How often the waiters were signalled, modulo 2^64.
    pub version: u64,
    /// The first error reported.
    pub error: Option<Arc<anyhow::Error>>,
    /// The channel that the waiters listen on.
    pub channel: Arc<Notify>,
    /// How often the waiters were signalled.
    pub signals: nat,
}

impl GroupView {
    /// A group whose waiters listen on `channel`, with nothing registered.
    pub open spec fn fresh(id: int, channel: Arc<Notify>) -> Self {
        GroupView { id, count: 0, version: 0, error: None, channel, signals: 0 }
    }

    /// After a signal to the waiters.
    pub open spec fn notify_all(self) -> Self {
        GroupView { version: wrap_u64(self.version + 1), signals: self.signals + 1, ..self }
    }

    /// After `num` pieces of work were registered.
    pub open spec fn add_num(self, num: nat) -> Self {
        GroupView { count: wrap_i32(self.count + num), ..self }
    }

    /// What reporting a piece of work done comes to.
    pub open spec fn done_result(self) -> Result<(), Misuse> {
        if wrap_i32(self.count - 1) < 0 {
            Err(Misuse::CountBelowZero)
        } else {
            Ok(())
        }
    }

    /// After a piece of work was reported done: the waiters are signalled, unless the counter fell
    /// below zero.
    pub open spec fn done(self) -> Self {
        let lowered = GroupView { count: wrap_i32(self.count - 1), ..self };
        if self.done_result() is Ok {
            lowered.notify_all()
        } else {
            lowered
        }
    }

    /// After an error was reported: the first one is kept, and the waiters are signalled.
    pub open spec fn set_error(self, error: Arc<anyhow::Error>) -> Self {
        GroupView {
            error: if self.error is None {
                Some(error)
            } else {
                self.error
            },
            ..self
        }.notify_all()
    }

    /// After a piece of work was reported done with an error.
    pub open spec fn done_error(self, error: Arc<anyhow::Error>) -> Self {
        self.set_error(error).done()
    }

    /// Where a wait on the group stands.
    pub open spec fn readiness(self) -> Readiness {
        zero_readiness(self.count, self.error)
    }
}

/// The state that the handles of a group share.
pub struct Inner {
    id: Ghost<int>,
    notify: Broadcast,
    count: i32,
    version: u64,
    error: Option<Arc<anyhow::Error>>,
}

impl View for Inner {
    type V = GroupView;

    closed spec fn view(&self) -> GroupView {
        GroupView {
            id: self.id@,
            count: self.count,
            version: self.version,
            error: self.error,
            channel: self.notify.spec_channel(),
            signals: self.notify.sent(),
        }
    }
}

impl Inner {
    /// The state of a group with nothing registered.
    pub fn new() -> (inner: Self)
        ensures
            inner@ == GroupView::fresh(inner@.id, inner@.channel),
    {
        Inner {
            id: Ghost(arbitrary()),
            notify: Broadcast::new(),
            count: 0,
            version: 0,
            error: None,
        }
    }

    /// How often the waiters were signalled, modulo 2^64.
    pub fn version(&self) -> (version: u64)
        ensures
            version == self@.version,
    {
        self.version
    }

    /// Signals the waiters.
    pub fn notify_all(&mut self)
        ensures
            final(self)@ == old(self)@.notify_all(),
    {
        self.version = next_version(self.version);
        self.notify.notify_waiters();
    }

    /// The first error reported.
    pub fn get_error(&self) -> (error: Option<Arc<anyhow::Error>>)
        ensures
            error == self@.error,
    {
        match &self.error {
            Some(error) => Some(error.clone()),
            None => None,
        }
    }

    /// Registers a piece of work.
    pub fn add(&mut self)
        ensures
            final(self)@ == old(self)@.add_num(1),
    {
        self.add_num(1);
    }

    /// Registers `num` pieces of work.
    pub fn add_num(&mut self, num: usize)
        ensures
            final(self)@ == old(self)@.add_num(num as nat),
    {
        self.count = raise(self.count, num);
    }

    /// Reports a piece of work done. It is a misuse to report more than was registered.
    pub fn done(&mut self) -> (result: Result<(), Misuse>)
        ensures
            final(self)@ == old(self)@.done(),
            result == old(self)@.done_result(),
    {
        self.count = lower(self.count);
        if self.count < 0 {
            return Err(Misuse::CountBelowZero);
        }
        self.notify_all();
        Ok(())
    }

    /// The work registered and not yet done.
    pub fn count(&self) -> (count: i32)
        ensures
            count == self@.count,
    {
        self.count
    }

    /// Reports an error. The first one is kept.
    pub fn set_error(&mut self, err: anyhow::Error)
        ensures
            final(self)@ == old(self)@.set_error(Arc::new(err)),
    {
        if self.error.is_none() {
            self.error = Some(Arc::new(err));
        }
        self.notify_all();
    }

    /// Where a wait on the group stands.
    pub fn check(&self) -> (readiness: Readiness)
        ensures
            readiness == self@.readiness(),
    {
        check_zero(self.count, &self.error)
    }
}

/// A group of tasks to be waited for.
pub struct WaitGroup {
    inner: Inner,
}

impl View for WaitGroup {
    type V = GroupView;

    closed spec fn view(&self) -> GroupView {
        self.inner@
    }
}

impl Default for WaitGroup {
    fn default() -> (group: Self)
        ensures
            group@ == GroupView::fresh(group@.id, group@.channel),
    {
        WaitGroup { inner: Inner::new() }
    }
}

impl WaitGroup {
    /// A group with nothing registered.
    pub fn new() -> (group: Self)
        ensures
            group@ == GroupView::fresh(group@.id, group@.channel),
    {
        Self::default()
    }

    /// Registers a piece of work.
    pub fn add(&mut self)
        ensures
            final(self)@ == old(self)@.add_num(1),
    {
        self.inner.add();
    }

    /// Registers `num` pieces of work.
    pub fn add_num(&mut self, num: usize)
        ensures
            final(self)@ == old(self)@.add_num(num as nat),
    {
        self.inner.add_num(num);
    }

    /// Reports a piece of work done. It is a misuse to report more than was registered.
    pub fn done(&mut self) -> (result: Result<(), Misuse>)
        ensures
            final(self)@ == old(self)@.done(),
            result == old(self)@.done_result(),
    {
        self.inner.done()
    }

    /// Reports a piece of work done with an error, which fails the wait at once.
    pub fn done_error(&mut self, err: anyhow::Error) -> (result: Result<(), Misuse>)
        ensures
            final(self)@ == old(self)@.done_error(Arc::new(err)),
            result == old(self)@.done_result(),
    {
        self.inner.set_error(err);
        self.inner.done()
    }

    /// The work registered and not yet done.
    pub fn count(&self) -> (count: i32)
        ensures
            count == self@.count,
    {
        self.inner.count()
    }

    /// Registers a piece of work and gives the guard that reports it done.
    pub fn guard_add(&mut self) -> (guard: WaitGroupGuard)
        ensures
            final(self)@ == old(self)@.add_num(1),
            !guard@,
            guard.group() == old(self)@.id,
    {
        self.add();
        WaitGroupGuard::new(self.inner.id)
    }

    /// Begins a wait on the group.
    pub fn wait(&self) -> (call: WaitCall)
        ensures
            call@ == (WaitCallView { phase: WaitPhase::Check, version: self@.version }),
            call.group() == self@.id,
    {
        WaitCall { id: self.inner.id, phase: WaitPhase::Check, version: self.inner.version() }
    }

    /// A handle for a task that registers work.
    pub fn worker(&self) -> (worker: WaitGroupWorker)
        ensures
            worker.group() == self@.id,
    {
        WaitGroupWorker::new(self.inner.id)
    }

    /// The channel on which a waiting task listens.
    pub fn channel(&self) -> (channel: Arc<Notify>)
        ensures
            channel == self@.channel,
    {
        self.inner.notify.channel()
    }
}

/// What a wait does next.
#[derive(Debug)]
pub enum WaitAction {
    /// The group was misused: fail with the message of the misuse.
    Fault(Misuse),
    /// The wait is over, with this result.
    Finish(Result<(), WaitError>),
    /// Start to listen on the channel of the group, then ask again.
    Listen,
    /// Sleep until the signal listened for comes, then ask again.
    Sleep,
}

/// What a wait has done last.
#[derive(Debug, Clone, Copy, PartialEq, Eq, Structural)]
pub enum WaitPhase {
    /// Nothing: it has just begun.
    Check,
    /// It has started to listen.
    Listening,
    /// It has slept and was woken.
    Sleeping,
}

/// The state of a wait.
pub struct WaitCallView {
    pub phase: WaitPhase,
    /// The version of the group that the wait has seen.
    pub version: u64,
}

impl WaitCallView {
    /// What the readiness of `group` makes the wait do.
    pub open spec fn check_action(group: GroupView) -> WaitAction {
        match group.readiness() {
            Readiness::Fault(misuse) => WaitAction::Fault(misuse),
            Readiness::Ready(result) => WaitAction::Finish(result),
            Readiness::Pending => WaitAction::Listen,
        }
    }

    /// What the wait does next, on the group as it is now: it sleeps only where it listens and the
    /// group has not signalled since the version it has seen.
    pub open spec fn action(self, group: GroupView) -> WaitAction {
        if self.phase == WaitPhase::Listening && self.version == group.version {
            WaitAction::Sleep
        } else {
            Self::check_action(group)
        }
    }

    /// The state of the wait after that.
    pub open spec fn next(self, group: GroupView) -> Self {
        let version = if self.phase == WaitPhase::Check {
            self.version
        } else {
            group.version
        };
        let phase = match self.action(group) {
            WaitAction::Sleep => WaitPhase::Sleeping,
            WaitAction::Listen => WaitPhase::Listening,
            _ => WaitPhase::Check,
        };
        WaitCallView { phase, version }
    }
}

/// A wait under way. Whoever runs it does what [`WaitCall::step`] says and then calls it again.
pub struct WaitCall {
    id: Ghost<int>,
    phase: WaitPhase,
    version: u64,
}

impl View for WaitCall {
    type V = WaitCallView;

    closed spec fn view(&self) -> WaitCallView {
        WaitCallView { phase: self.phase, version: self.version }
    }
}

impl WaitCall {
    /// The group that the wait is of.
    pub closed spec fn group(&self) -> int {
        self.id@
    }

    /// Looks at the group and says what to do next.
    pub fn step(&mut self, group: &WaitGroup) -> (action: WaitAction)
        requires
            old(self).group() == group@.id,
        ensures
            final(self).group() == old(self).group(),
            action == old(self)@.action(group@),
            final(self)@ == old(self)@.next(group@),
    {
        match self.phase {
            WaitPhase::Check => {},
            WaitPhase::Listening => {
                let version = group.inner.version();
                if version == self.version {
                    self.phase = WaitPhase::Sleeping;
                    return WaitAction::Sleep;
                }
                self.version = version;
            },
            WaitPhase::Sleeping => {
                self.version = group.inner.version();
            },
        }
        match group.inner.check() {
            Readiness::Fault(misuse) => {
                self.phase = WaitPhase::Check;
                WaitAction::Fault(misuse)
            },
            Readiness::Ready(result) => {
                self.phase = WaitPhase::Check;
                WaitAction::Finish(result)
            },
            Readiness::Pending => {
                self.phase = WaitPhase::Listening;
                WaitAction::Listen
            },
        }
    }
}

/// The duty to report one piece of work done, once. The view says whether it was reported.
pub struct WaitGroupGuard {
    is_done: bool,
    id: Ghost<int>,
}

impl View for WaitGroupGuard {
    type V = bool;

    closed spec fn view(&self) -> bool {
        self.is_done
    }
}

impl WaitGroupGuard {
    /// The group that the guard is of.
    pub closed spec fn group(&self) -> int {
        self.id@
    }

    fn new(id: Ghost<int>) -> (guard: Self)
        ensures
            !guard@,
            guard.group() == id@,
    {
        WaitGroupGuard { is_done: false, id }
    }

    fn lock_done(&mut self) -> (first: bool)
        ensures
            final(self).group() == old(self).group(),
            first == !old(self)@,
            final(self)@,
    {
        let first = !self.is_done;
        self.is_done = true;
        first
    }

    /// Reports the work done, unless it was reported before.
    pub fn done(&mut self, group: &mut WaitGroup) -> (result: Result<(), Misuse>)
        requires
            old(self).group() == old(group)@.id,
        ensures
            final(self).group() == old(self).group(),
            final(self)@,
            final(group)@ == done_once(old(self)@, old(group)@),
            result == done_once_result(old(self)@, old(group)@),
    {
        if self.lock_done() {
            group.inner.done()
        } else {
            Ok(())
        }
    }

    /// Reports an error, and the work done unless it was reported before.
    pub fn done_error(&mut self, group: &mut WaitGroup, err: anyhow::Error) -> (result: Result<
        (),
        Misuse,
    >)
        requires
            old(self).group() == old(group)@.id,
        ensures
            final(self).group() == old(self).group(),
            final(self)@,
            final(group)@ == done_once(old(self)@, old(group)@.set_error(Arc::new(err))),
            result == done_once_result(old(self)@, old(group)@),
    {
        group.inner.set_error(err);
        self.done(group)
    }
}

/// A group after a piece of work is reported done by a handle that reports once, and that has
/// reported it already if `is_done`.
pub open spec fn done_once(is_done: bool, group: GroupView) -> GroupView {
    if is_done {
        group
    } else {
        group.done()
    }
}

/// What that report comes to.
pub open spec fn done_once_result(is_done: bool, group: GroupView) -> Result<(), Misuse> {
    if is_done {
        Ok(())
    } else {
        group.done_result()
    }
}

/// A handle for a task that registers work.
#[derive(Clone, Copy)]
pub struct WaitGroupWorker {
    id: Ghost<int>,
}

impl WaitGroupWorker {
    /// The group that the handle is of.
    pub closed spec fn group(&self) -> int {
        self.id@
    }

    fn new(id: Ghost<int>) -> (worker: Self)
        ensures
            worker.group() == id@,
    {
        WaitGroupWorker { id }
    }

    /// Another handle of the same kind, of the same group.
    pub fn worker(&self) -> (worker: Self)
        ensures
            worker.group() == self.group(),
    {
        Self::new(self.id)
    }

    /// Registers a piece of work and gives the handle that reports it done.
    pub fn add(&self, group: &mut WaitGroup) -> (handle: WaitGroupInner)
        requires
            self.group() == old(group)@.id,
        ensures
            final(group)@ == old(group)@.add_num(1),
            !handle@,
            handle.group() == self.group(),
    {
        group.inner.add();
        WaitGroupInner::new(self.id)
    }

    /// Registers a piece of work and gives the guard that reports it done.
    pub fn guard_add(&self, group: &mut WaitGroup) -> (guard: WaitGroupGuard)
        requires
            self.group() == old(group)@.id,
        ensures
            final(group)@ == old(group)@.add_num(1),
            !guard@,
            guard.group() == self.group(),
    {
        group.inner.add();
        WaitGroupGuard::new(self.id)
    }

    /// The work registered and not yet done.
    pub fn count(&self, group: &WaitGroup) -> (count: i32)
        requires
            self.group() == group@.id,
        ensures
            count == group@.count,
    {
        group.inner.count()
    }
}

/// A handle that reports one piece of work done, once. The view says whether it was reported.
pub struct WaitGroupInner {
    is_done: bool,
    id: Ghost<int>,
}

impl View for WaitGroupInner {
    type V = bool;

    closed spec fn view(&self) -> bool {
        self.is_done
    }
}

impl WaitGroupInner {
    /// The group that the handle is of.
    pub closed spec fn group(&self) -> int {
        self.id@
    }

    fn new(id: Ghost<int>) -> (handle: Self)
        ensures
            !handle@,
            handle.group() == id@,
    {
        WaitGroupInner { is_done: false, id }
    }

    /// A handle for a task that registers more work in the same group.
    pub fn worker(&self) -> (worker: WaitGroupWorker)
        ensures
            worker.group() == self.group(),
    {
        WaitGroupWorker::new(self.id)
    }

    /// The work registered and not yet done.
    pub fn count(&self, group: &WaitGroup) -> (count: i32)
        requires
            self.group() == group@.id,
        ensures
            count == group@.count,
    {
        group.inner.count()
    }

    fn lock_done(&mut self) -> (first: bool)
        ensures
            final(self).group() == old(self).group(),
            first == !old(self)@,
            final(self)@,
    {
        let first = !self.is_done;
        self.is_done = true;
        first
    }

    /// Reports the work done, unless it was reported before.
    pub fn done(&mut self, group: &mut WaitGroup) -> (result: Result<(), Misuse>)
        requires
            old(self).group() == old(group)@.id,
        ensures
            final(self).group() == old(self).group(),
            final(self)@,
            final(group)@ == done_once(old(self)@, old(group)@),
            result == done_once_result(old(self)@, old(group)@),
    {
        if self.lock_done() {
            group.inner.done()
        } else {
            Ok(())
        }
    }

    /// Reports the work done with an error, unless it was reported before.
    pub fn try_done_error(&mut self, group: &mut WaitGroup, err: anyhow::Error) -> (result: Result<
        (),
        Misuse,
    >)
        requires
            old(self).group() == old(group)@.id,
        ensures
            final(self).group() == old(self).group(),
            final(self)@,
            final(group)@ == if old(self)@ {
                old(group)@
            } else {
                old(group)@.done_error(Arc::new(err))
            },
            result == done_once_result(old(self)@, old(group)@),
    {
        if self.lock_done() {
            group.inner.set_error(err);
            group.inner.done()
        } else {
            Ok(())
        }
    }

    /// Reports an error, and the work done unless it was reported before.
    pub fn done_error(&mut self, group: &mut WaitGroup, err: anyhow::Error) -> (result: Result<
        (),
        Misuse,
    >)
        requires
            old(self).group() == old(group)@.id,
        ensures
            final(self).group() == old(self).group(),
            final(self)@,
            final(group)@ == done_once(old(self)@, old(group)@.set_error(Arc::new(err))),
            result == done_once_result(old(self)@, old(group)@),
    {
        group.inner.set_error(err);
        self.done(group)
    }
}

} // verus!
