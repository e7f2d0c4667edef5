//! The outside types and functions that the library calls, with what it relies on of each.
use futures::task::AtomicWaker;
use std::fmt::Write;
use std::sync::Arc;
use std::task::Waker;
use tokio::sync::Notify;
use vstd::prelude::*;

verus! {

/// `anyhow::Error`, carried through and shown, never looked into.
#[verifier::external_type_specification]
#[verifier::external_body]
pub struct ExError(anyhow::Error);

/// `tokio::sync::Notify`, the channel on which every waiter of a group listens.
#[verifier::external_type_specification]
#[verifier::external_body]
pub struct ExNotify(tokio::sync::Notify);

/// `futures::task::AtomicWaker`, a cell for at most one waker.
#[verifier::external_type_specification]
#[verifier::external_body]
pub struct ExAtomicWaker(futures::task::AtomicWaker);

/// `std::task::Waker`, the handle by which one task is woken.
#[verifier::external_type_specification]
#[verifier::external_body]
pub struct ExWaker(std::task::Waker);

/// The task that a waker wakes.
pub uninterp spec fn task_of(waker: Waker) -> int;

/// The task whose waker a cell holds, if it holds one.
pub uninterp spec fn registered_task(cell: AtomicWaker) -> Option<int>;

/// `Waker::will_wake`: `true` is given only for two wakers of one task. `false` says nothing: the
/// comparison is made on a best-effort basis.
pub assume_specification[ std::task::Waker::will_wake ](waker: &Waker, other: &Waker) -> (same: bool)
    ensures
        same ==> task_of(*waker) == task_of(*other),
;

/// `Waker::clone`: the copy wakes the same task.
pub assume_specification[ <std::task::Waker as Clone>::clone ](waker: &Waker) -> (copy: Waker)
    ensures
        task_of(copy) == task_of(*waker),
;

/// `AtomicWaker::new`: a cell that holds no waker.
#[verifier::external_body]
pub(crate) fn new_cell() -> (cell: AtomicWaker)
    ensures
        registered_task(cell) is None,
{
    AtomicWaker::new()
}

/// `AtomicWaker::register`: the waker takes the place of the one registered before. The cell is
/// borrowed for writing, so no other call on it is under way.
#[verifier::external_body]
pub(crate) fn register_in_cell(cell: &mut AtomicWaker, waker: &Waker)
    ensures
        registered_task(*final(cell)) == Some(task_of(*waker)),
{
    cell.register(waker)
}

/// A record of the tasks woken. Only the functions that wake a task add to it.
pub struct WakeLog {
    woken: Ghost<Seq<int>>,
}

impl WakeLog {
    /// The tasks woken so far, in order.
    pub closed spec fn woken(&self) -> Seq<int> {
        self.woken@
    }

    /// A record of no wake-up.
    pub(crate) fn new() -> (log: Self)
        ensures
            log.woken() == Seq::<int>::empty(),
    {
        WakeLog { woken: Ghost(Seq::empty()) }
    }

    /// `Waker::wake`: wakes the task of the waker, which is recorded. What the executor does with the
    /// task is not stated.
    #[verifier::external_body]
    pub(crate) fn wake(&mut self, waker: Waker)
        ensures
            final(self).woken() == old(self).woken().push(task_of(waker)),
    {
        waker.wake()
    }

    /// `AtomicWaker::wake`: takes the registered waker out of the cell and wakes its task, which is
    /// recorded; does nothing when there is none. What the executor does with the task is not stated.
    /// The cell is borrowed for writing, so no other call on it is under way.
    #[verifier::external_body]
    pub(crate) fn wake_cell(&mut self, cell: &mut AtomicWaker)
        ensures
            registered_task(*final(cell)) is None,
            final(self).woken() == match registered_task(*old(cell)) {
                Some(task) => old(self).woken().push(task),
                None => old(self).woken(),
            },
    {
        cell.wake()
    }
}

/// `Notify::new`: a channel that nobody listens on.
pub assume_specification[ tokio::sync::Notify::new ]() -> (notify: Notify)
;

/// A channel that wakes every task listening on it at once, with a record of the signals sent. Only
/// the function that sends a signal adds to it.
pub struct Broadcast {
    notify: Arc<Notify>,
    sent: Ghost<nat>,
}

impl Broadcast {
    /// The channel itself.
    pub closed spec fn spec_channel(&self) -> Arc<Notify> {
        self.notify
    }

    /// How many signals were sent on the channel.
    pub closed spec fn sent(&self) -> nat {
        self.sent@
    }

    /// A channel on which nothing was sent.
    pub(crate) fn new() -> (broadcast: Self)
        ensures
            broadcast.sent() == 0,
    {
        Broadcast { notify: Arc::new(Notify::new()), sent: Ghost(0) }
    }

    /// `Notify::notify_waiters`: completes every `notified` future made on the channel before the
    /// call; that is one signal, which is recorded. The futures live outside the library, so nothing
    /// is stated of them.
    #[verifier::external_body]
    pub(crate) fn notify_waiters(&mut self)
        ensures
            final(self).spec_channel() == old(self).spec_channel(),
            final(self).sent() == old(self).sent() + 1,
    {
        self.notify.notify_waiters()
    }

    /// A handle by which a task listens on the channel.
    pub(crate) fn channel(&self) -> (channel: Arc<Notify>)
        ensures
            channel == self.spec_channel(),
    {
        self.notify.clone()
    }
}

/// Whether `text` is what the `Display` of `error` may write.
pub uninterp spec fn may_show(error: anyhow::Error, text: Seq<char>) -> bool;

/// What the `Display` of an `anyhow::Error` writes. Whoever made the error chose it, and it may
/// differ from one call to the next, so it is not stated which text it is. Should it fail, the text is
/// what it had written.
#[verifier::external_body]
pub(crate) fn shown(error: &anyhow::Error) -> (text: String)
    ensures
        may_show(*error, text@),
{
    let mut text = String::new();
    let _ = write!(text, "{}", error);
    text
}

} // verus!
