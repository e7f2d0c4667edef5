//! What holds of a group for one wait cycle, over any run of calls on it.
use crate::counter::{law_wrap_agrees, lemma_wrap_absorbs, lemma_wrap_small, wrap_i32};
use crate::outcome::{Misuse, Readiness, WaitError};
use crate::wait_group::{done_error_once, done_once, done_once_result, WaitGroupView};
use std::sync::Arc;
use vstd::prelude::*;

verus! {

/// A call on a group. A guard or a handle makes `Done` and `DoneError` the first time it reports,
/// and `Fail` when it reports an error after that. `Wait`, `Poll` and `Finish` are made by tasks
/// that wait or try to.
pub enum GroupCall {
    Add(nat),
    Done,
    Fail(Arc<anyhow::Error>),
    DoneError(Arc<anyhow::Error>),
    Wait,
    Poll(int),
    Finish,
}

/// The group after one call.
pub open spec fn step(group: WaitGroupView, call: GroupCall) -> WaitGroupView {
    match call {
        GroupCall::Add(num) => group.add_num(num),
        GroupCall::Done => group.done(),
        GroupCall::Fail(error) => done_error_once(true, group, error),
        GroupCall::DoneError(error) => group.done_error(error),
        GroupCall::Wait => group.wait(),
        GroupCall::Poll(task) => group.poll(task),
        GroupCall::Finish => group.unlock_waiting(),
    }
}

/// The group after a run of calls, made by any number of tasks.
pub open spec fn run(group: WaitGroupView, calls: Seq<GroupCall>) -> WaitGroupView
    decreases calls.len(),
{
    if calls.len() == 0 {
        group
    } else {
        step(run(group, calls.drop_last()), calls.last())
    }
}

/// By how much a call raises the counter of `group`.
pub open spec fn raised_by(group: WaitGroupView, call: GroupCall) -> int {
    match call {
        GroupCall::Add(num) => if group.is_closing {
            0
        } else {
            num as int
        },
        GroupCall::Done => -1,
        GroupCall::DoneError(error) => -1,
        _ => 0,
    }
}

/// The work registered by a run of calls, less the work reported done.
pub open spec fn balance(group: WaitGroupView, calls: Seq<GroupCall>) -> int
    decreases calls.len(),
{
    if calls.len() == 0 {
        0
    } else {
        balance(group, calls.drop_last()) + raised_by(run(group, calls.drop_last()), calls.last())
    }
}

/// Before the wait, reporting a piece of work done undoes its registration.
pub proof fn law_done_undoes_add(group: WaitGroupView)
    requires
        !group.is_closing,
    ensures
        group.add_num(1).done().count == group.count,
        group.add_num(1).done().error == group.error,
        group.count >= 0 ==> group.add_num(1).done_result() is Ok,
{
    lemma_wrap_absorbs(group.count + 1, -1);
    lemma_wrap_small(group.count as int);
}

/// The counter is what was registered less what was reported done, whatever the order of the calls.
pub proof fn law_count_is_balance(group: WaitGroupView, calls: Seq<GroupCall>)
    ensures
        run(group, calls).count == wrap_i32(group.count + balance(group, calls)),
    decreases calls.len(),
{
    if calls.len() == 0 {
        lemma_wrap_small(group.count as int);
    } else {
        let init = calls.drop_last();
        let before = run(group, init);
        law_count_is_balance(group, init);
        lemma_wrap_absorbs(group.count + balance(group, init), raised_by(before, calls.last()));
        lemma_wrap_small(before.count as int);
    }
}

/// The first error reported is kept, whatever is called after it.
pub proof fn law_first_error_kept(group: WaitGroupView, calls: Seq<GroupCall>)
    requires
        group.error is Some,
    ensures
        run(group, calls).error == group.error,
    decreases calls.len(),
{
    if calls.len() > 0 {
        law_first_error_kept(group, calls.drop_last());
    }
}

/// Once an error was reported, by whatever call, the wait fails with the first one, however much work
/// is left.
pub proof fn law_error_fails_wait(
    group: WaitGroupView,
    error: Arc<anyhow::Error>,
    calls: Seq<GroupCall>,
)
    requires
        group.error == Some(error),
        run(group, calls).count >= 0,
    ensures
        run(group, calls).readiness() == Readiness::Ready(
            Err(WaitError::Failed { count: run(group, calls).count, error }),
        ),
{
    law_first_error_kept(group, calls);
}

/// A group is good for one wait: once it was begun, no other begins and no work is registered, even
/// after it is over. Both are answered with a misuse and change nothing.
pub proof fn law_one_wait_only(group: WaitGroupView, calls: Seq<GroupCall>, num: nat)
    ensures
        ({
            let later = run(group.wait(), calls);
            group.is_closing || group.wait_result() is Ok ==> {
                &&& later.wait_result() == Err::<(), Misuse>(Misuse::InUse)
                &&& later.wait() == later
                &&& later.add_result() == Err::<(), Misuse>(Misuse::AddDuringWait)
                &&& later.add_num(num) == later
            }
        }),
    decreases calls.len(),
{
    if calls.len() > 0 {
        law_one_wait_only(group, calls.drop_last(), num);
    }
}

/// Whether a call on `group` neither reports an error, nor reports more than was registered, nor takes
/// the counter beyond its range. What is refused without a change to the group may be called.
pub open spec fn in_order(group: WaitGroupView, call: GroupCall) -> bool {
    match call {
        GroupCall::Add(num) => group.is_closing || group.count + num <= i32::MAX,
        GroupCall::Done => group.done_result() is Ok,
        GroupCall::Fail(error) => false,
        GroupCall::DoneError(error) => false,
        _ => true,
    }
}

/// Every call of the run is in order.
pub open spec fn all_in_order(group: WaitGroupView, calls: Seq<GroupCall>) -> bool {
    forall|i: int|
        0 <= i < calls.len() ==> in_order(#[trigger] run(group, calls.take(i)), calls[i])
}

proof fn lemma_in_order_drop_last(group: WaitGroupView, calls: Seq<GroupCall>)
    requires
        calls.len() > 0,
        all_in_order(group, calls),
    ensures
        all_in_order(group, calls.drop_last()),
        in_order(run(group, calls.drop_last()), calls.last()),
{
    let init = calls.drop_last();
    assert(calls.take(calls.len() - 1) == init);
    assert forall|i: int| 0 <= i < init.len() implies in_order(
        #[trigger] run(group, init.take(i)),
        init[i],
    ) by {
        assert(init.take(i) == calls.take(i));
    }
}

/// The wait is for all the work, in whatever order it was registered and reported: on a group without
/// an error, after any run of calls that are in order, the wait is pending as long as some work was
/// not reported done, and succeeds when all was; one report more is a misuse.
pub proof fn law_wait_is_for_all_work(group: WaitGroupView, calls: Seq<GroupCall>)
    requires
        group.count >= 0,
        group.error is None,
        all_in_order(group, calls),
    ensures
        ({
            let later = run(group, calls);
            let left = group.count + balance(group, calls);
            &&& later.count == left >= 0
            &&& later.error is None
            &&& left > 0 ==> later.readiness() == Readiness::Pending && later.done_result() == Ok::<
                (),
                Misuse,
            >(())
            &&& left == 0 ==> later.readiness() == Readiness::Ready(Ok(())) && later.done_result()
                == Err::<(), Misuse>(Misuse::CountBelowZero)
        }),
    decreases calls.len(),
{
    if calls.len() > 0 {
        let before = run(group, calls.drop_last());
        lemma_in_order_drop_last(group, calls);
        law_wait_is_for_all_work(group, calls.drop_last());
        lemma_wrap_small(before.count - 1);
        if before.count + raised_by(before, calls.last()) <= i32::MAX {
            lemma_wrap_small(before.count + raised_by(before, calls.last()));
        }
    }
    lemma_wrap_small(run(group, calls).count - 1);
}

/// Whether `task` was woken after `group` and not later than `later`.
pub open spec fn woken_since(group: WaitGroupView, later: WaitGroupView, task: int) -> bool {
    exists|i: int|
        group.woken.len() <= i < later.woken.len() && #[trigger] later.woken[i] == task
}

/// Whether a call is a look at the group by another task than `task`.
pub open spec fn polls_for_other(call: GroupCall, task: int) -> bool {
    match call {
        GroupCall::Poll(other) => other != task,
        _ => false,
    }
}

/// Whether none of the calls registers another task in place of `task`.
pub open spec fn no_other_poll(calls: Seq<GroupCall>, task: int) -> bool {
    forall|i: int| 0 <= i < calls.len() ==> !polls_for_other(#[trigger] calls[i], task)
}

proof fn lemma_no_other_poll_drop_last(calls: Seq<GroupCall>, task: int)
    requires
        calls.len() > 0,
        no_other_poll(calls, task),
    ensures
        no_other_poll(calls.drop_last(), task),
        !polls_for_other(calls.last(), task),
{
    let init = calls.drop_last();
    assert forall|i: int| 0 <= i < init.len() implies !polls_for_other(
        #[trigger] init[i],
        task,
    ) by {
        assert(calls[i] == init[i]);
    }
    assert(!polls_for_other(calls[calls.len() - 1], task));
}

/// The tasks woken before stay woken.
proof fn lemma_woken_grows(group: WaitGroupView, calls: Seq<GroupCall>)
    ensures
        group.woken.is_prefix_of(run(group, calls).woken),
    decreases calls.len(),
{
    if calls.len() > 0 {
        lemma_woken_grows(group, calls.drop_last());
    }
}

/// A registered task stays registered until it is woken.
proof fn lemma_registered_until_woken(group: WaitGroupView, calls: Seq<GroupCall>, task: int)
    requires
        group.task == Some(task),
        no_other_poll(calls, task),
    ensures
        run(group, calls).task == Some(task) && run(group, calls).woken == group.woken
            || woken_since(group, run(group, calls), task),
    decreases calls.len(),
{
    if calls.len() > 0 {
        let init = calls.drop_last();
        let before = run(group, init);
        let after = run(group, calls);
        lemma_no_other_poll_drop_last(calls, task);
        lemma_registered_until_woken(group, init, task);
        if woken_since(group, before, task) {
            let i = choose|i: int|
                group.woken.len() <= i < before.woken.len() && #[trigger] before.woken[i] == task;
            assert(after.woken[i] == task);
        } else if after.woken != group.woken {
            assert(after.woken[group.woken.len() as int] == task);
        }
    }
}

/// A pending wait of a registered task ends with a wake-up of that task.
proof fn lemma_end_of_wait_wakes(group: WaitGroupView, calls: Seq<GroupCall>, task: int)
    requires
        group.is_closing,
        group.readiness() == Readiness::Pending,
        group.task == Some(task),
        no_other_poll(calls, task),
    ensures
        run(group, calls).is_closing,
        run(group, calls).readiness() != Readiness::Pending ==> woken_since(
            group,
            run(group, calls),
            task,
        ),
    decreases calls.len(),
{
    if calls.len() > 0 {
        let init = calls.drop_last();
        let before = run(group, init);
        let after = run(group, calls);
        lemma_no_other_poll_drop_last(calls, task);
        lemma_end_of_wait_wakes(group, init, task);
        lemma_registered_until_woken(group, calls, task);
        lemma_registered_until_woken(group, init, task);
        if before.readiness() == Readiness::Pending {
            lemma_wrap_small(before.count - 1);
        } else {
            let i = choose|i: int|
                group.woken.len() <= i < before.woken.len() && #[trigger] before.woken[i] == task;
            assert(after.woken[i] == task);
        }
    }
}

/// No wake-up is lost. `registered` is a group where `task` is registered, in a wait that was begun. If
/// the wait is pending after the calls `a` and no longer so after the calls `b`, the task was woken
/// since. No other task is registered in its place; it may look at the group itself at any time.
pub proof fn law_waiting_task_is_woken(
    registered: WaitGroupView,
    task: int,
    a: Seq<GroupCall>,
    b: Seq<GroupCall>,
)
    requires
        registered.is_closing,
        registered.task == Some(task),
        no_other_poll(a, task),
        no_other_poll(b, task),
        run(registered, a).readiness() == Readiness::Pending,
        run(run(registered, a), b).readiness() != Readiness::Pending,
    ensures
        woken_since(registered, run(run(registered, a), b), task),
{
    let pending = run(registered, a);
    let over = run(pending, b);
    lemma_registered_until_woken(registered, a, task);
    lemma_woken_grows(pending, b);
    lemma_closing_stays(registered, a);
    if woken_since(registered, pending, task) {
        let i = choose|i: int|
            registered.woken.len() <= i < pending.woken.len() && #[trigger] pending.woken[i]
                == task;
        assert(over.woken[i] == task);
    } else {
        lemma_end_of_wait_wakes(pending, b, task);
        let i = choose|i: int|
            pending.woken.len() <= i < over.woken.len() && #[trigger] over.woken[i] == task;
        assert(over.woken[i] == task);
    }
}

proof fn lemma_closing_stays(group: WaitGroupView, calls: Seq<GroupCall>)
    requires
        group.is_closing,
    ensures
        run(group, calls).is_closing,
    decreases calls.len(),
{
    if calls.len() > 0 {
        lemma_closing_stays(group, calls.drop_last());
    }
}

/// A handle that reports once changes nothing when it reports again.
pub proof fn law_second_report_changes_nothing(is_done: bool, group: WaitGroupView)
    ensures
        done_once(true, done_once(is_done, group)) == done_once(is_done, group),
        done_once_result(true, done_once(is_done, group)) == Ok::<(), Misuse>(()),
{
}

/// A new group has nothing registered, no error, no wait, and nobody to wake.
pub proof fn law_new_group_is_idle(id: int)
    ensures
        ({
            let group = WaitGroupView::fresh(id);
            &&& group.id == id && group.count == 0 && group.error is None
            &&& !group.is_waiting && !group.is_closing
            &&& group.task is None && group.woken.len() == 0
            &&& group.readiness() == Readiness::Ready(Ok(()))
            &&& group.wait_result() == Ok::<(), Misuse>(())
            &&& group.add_result() == Ok::<(), Misuse>(())
        }),
{
}

/// Before a wait was begun, registering work raises the counter by as much and is no misuse; after
/// that it is one, and the counter stays. Nothing else changes.
pub proof fn law_add_raises_count(group: WaitGroupView, num: nat)
    ensures
        ({
            let after = group.add_num(num);
            &&& !group.is_closing ==> (after.count - group.count - num) % 0x1_0000_0000 == 0
            &&& !group.is_closing && group.count + num <= i32::MAX ==> after.count == group.count
                + num
            &&& group.is_closing ==> after.count == group.count
            &&& after == WaitGroupView { count: after.count, ..group }
            &&& group.add_result() == if group.is_closing {
                Err(Misuse::AddDuringWait)
            } else {
                Ok(())
            }
        }),
{
    law_wrap_agrees(group.count + num);
}

/// Whether `later` is `group` after the registered task, if there is one, was woken and forgotten.
pub open spec fn wakes_task(group: WaitGroupView, later: WaitGroupView) -> bool {
    &&& later.task is None
    &&& group.task is None ==> later.woken == group.woken
    &&& group.task is Some ==> later.woken == group.woken.push(group.task->0)
}

/// Whether `later` is `group` with nobody woken.
pub open spec fn wakes_nobody(group: WaitGroupView, later: WaitGroupView) -> bool {
    later.task == group.task && later.woken == group.woken
}

/// Whether two groups agree but for the counter, the error and who was woken.
pub open spec fn same_wait(group: WaitGroupView, later: WaitGroupView) -> bool {
    &&& later.id == group.id
    &&& later.is_waiting == group.is_waiting
    &&& later.is_closing == group.is_closing
}

/// Reporting a piece of work done lowers the counter by one and keeps the error. It is a misuse exactly
/// where the counter ends below zero, as it does where no work is left. The registered task is woken
/// exactly where the counter ends at zero.
pub proof fn law_done_lowers_count(group: WaitGroupView)
    ensures
        ({
            let after = group.done();
            &&& (after.count - group.count + 1) % 0x1_0000_0000 == 0
            &&& group.count > i32::MIN ==> after.count == group.count - 1
            &&& after.error == group.error
            &&& same_wait(group, after)
            &&& after.count == 0 ==> wakes_task(group, after)
            &&& after.count != 0 ==> wakes_nobody(group, after)
            &&& group.count > 0 ==> group.done_result() is Ok
            &&& group.done_result() == if after.count < 0 {
                Err(Misuse::CountBelowZero)
            } else {
                Ok(())
            }
        }),
{
    law_wrap_agrees(group.count - 1);
}

/// Reporting an error, with or without a piece of work, puts it into a group that has none, and changes
/// no error that is there, whatever the counter. The registered task is woken, unless the counter ends
/// below zero because of the piece of work.
pub proof fn law_error_is_put_in(group: WaitGroupView, error: Arc<anyhow::Error>)
    ensures
        ({
            let kept = match group.error {
                Some(first) => first,
                None => error,
            };
            let alone = group.set_error(error);
            let spent = done_error_once(true, group, error);
            let after = group.done_error(error);
            &&& alone.error == Some(kept) && spent.error == Some(kept) && after.error == Some(kept)
            &&& done_error_once(false, group, error).error == Some(kept)
            &&& alone == WaitGroupView { error: alone.error, ..group }
            &&& spent.count == group.count && wakes_task(group, spent) && same_wait(group, spent)
            &&& (after.count - group.count + 1) % 0x1_0000_0000 == 0
            &&& group.count > i32::MIN ==> after.count == group.count - 1
            &&& same_wait(group, after)
            &&& after.count >= 0 ==> wakes_task(group, after)
            &&& after.count < 0 ==> wakes_nobody(group, after)
            &&& done_error_once(false, group, error) == after
        }),
{
    law_wrap_agrees(group.count - 1);
}

/// An error reported to a group that has none fails the wait, whatever is called after it, as long as
/// the counter is not negative: with that error and no other.
pub proof fn law_reported_error_fails_wait(
    group: WaitGroupView,
    error: Arc<anyhow::Error>,
    is_done: bool,
    calls: Seq<GroupCall>,
)
    requires
        group.error is None,
    ensures
        fails_with(run(group.done_error(error), calls), error),
        fails_with(run(done_error_once(is_done, group, error), calls), error),
{
    law_first_error_kept(group.done_error(error), calls);
    law_first_error_kept(done_error_once(is_done, group, error), calls);
}

/// Whether a wait that looks at `group` fails with `error`, unless the counter is negative.
pub open spec fn fails_with(group: WaitGroupView, error: Arc<anyhow::Error>) -> bool {
    &&& group.error == Some(error)
    &&& group.count >= 0 ==> group.readiness() == Readiness::Ready(
        Err(WaitError::Failed { count: group.count, error }),
    )
}

/// Where a wait stands: a negative counter is a misuse; a reported error fails it; without one it
/// succeeds when the counter is zero, and is pending while it is not.
pub proof fn law_where_a_wait_stands(group: WaitGroupView)
    ensures
        group.count < 0 <==> group.readiness() == Readiness::Fault(Misuse::CountBelowZero),
        group.count == 0 && group.error is None <==> group.readiness() == Readiness::Ready(Ok(())),
        group.count > 0 && group.error is None <==> group.readiness() == Readiness::Pending,
        group.count >= 0 && group.error is Some <==> group.readiness() == Readiness::Ready(
            Err(WaitError::Failed { count: group.count, error: group.error->0 }),
        ),
{
}

/// A wait begins exactly where none was begun before; it then is under way, and the group takes no more
/// work. Where it does not begin, nothing changes. When it is over, only that is told.
pub proof fn law_wait_begins_once(group: WaitGroupView)
    ensures
        !group.is_waiting && !group.is_closing <==> group.wait_result() == Ok::<(), Misuse>(()),
        group.wait_result() is Err ==> group.wait_result() == Err::<(), Misuse>(Misuse::InUse)
            && group.wait() == group,
        group.wait_result() is Ok ==> group.wait().is_waiting && group.wait().is_closing,
        group.wait() == (WaitGroupView {
            is_waiting: group.wait().is_waiting,
            is_closing: group.wait().is_closing,
            ..group
        }),
        !group.unlock_waiting().is_waiting,
        group.unlock_waiting() == (WaitGroupView { is_waiting: false, ..group }),
{
}

/// A look at the group registers the task that looked exactly where its wait is pending, whatever task
/// was registered before and however much work is left. Nothing else changes.
pub proof fn law_pending_look_registers(group: WaitGroupView, task: int)
    ensures
        group.count > 0 && group.error is None ==> group.poll(task).task == Some(task),
        !(group.count > 0 && group.error is None) ==> group.poll(task).task == group.task,
        group.poll(task) == (WaitGroupView { task: group.poll(task).task, ..group }),
        group.register(task).task == Some(task),
        group.register(task) == (WaitGroupView { task: Some(task), ..group }),
{
}

/// A task that looked while its wait was pending is woken: if the wait is no longer pending after any
/// calls, none of which registers another task in its place, it was woken since.
pub proof fn law_task_that_looked_is_woken(
    group: WaitGroupView,
    task: int,
    calls: Seq<GroupCall>,
)
    requires
        group.is_closing,
        group.count > 0,
        group.error is None,
        no_other_poll(calls, task),
    ensures
        ({
            let later = run(group.poll(task), calls);
            later.count <= 0 || later.error is Some ==> woken_since(group, later, task)
        }),
{
    let registered = group.poll(task);
    let later = run(registered, calls);
    assert(run(registered, Seq::<GroupCall>::empty()) == registered);
    if later.count <= 0 || later.error is Some {
        law_waiting_task_is_woken(registered, task, Seq::empty(), calls);
        let i = choose|i: int|
            registered.woken.len() <= i < later.woken.len() && #[trigger] later.woken[i] == task;
        assert(later.woken[i] == task);
    }
}

/// A handle lowers the counter by one when it reports for the first time, which is a misuse exactly
/// where the counter ends below zero, and never changes the group after that.
pub proof fn law_handle_reports_once(group: WaitGroupView)
    ensures
        ({
            let after = done_once(false, group);
            &&& (after.count - group.count + 1) % 0x1_0000_0000 == 0
            &&& after.error == group.error
            &&& same_wait(group, after)
            &&& after.count == 0 ==> wakes_task(group, after)
            &&& after.count != 0 ==> wakes_nobody(group, after)
            &&& done_once_result(false, group) == if after.count < 0 {
                Err(Misuse::CountBelowZero)
            } else {
                Ok(())
            }
            &&& done_once(true, group) == group
            &&& done_once_result(true, group) == Ok::<(), Misuse>(())
        }),
{
    law_done_lowers_count(group);
}

/// A wake-up goes to the registered task, if there is one, and changes nothing else.
pub proof fn law_wake_up_goes_to_the_task(group: WaitGroupView)
    ensures
        ({
            let after = group.notify();
            &&& wakes_task(group, after)
            &&& after == WaitGroupView { task: after.task, woken: after.woken, ..group }
        }),
{
}

} // verus!
