//! What holds of a group over any run of calls on it.
use crate::counter::{
    law_wrap_agrees, law_wrap_u64_agrees, lemma_wrap_absorbs, lemma_wrap_small,
    lemma_wrap_u64_absorbs, lemma_wrap_u64_unmoved, wrap_i32, wrap_u64,
};
use crate::group::{done_once, done_once_result, GroupView, WaitAction, WaitCallView, WaitPhase};
use crate::outcome::{Misuse, Readiness, WaitError};
use std::sync::Arc;
use tokio::sync::Notify;
use vstd::prelude::*;

verus! {

/// A call that changes a group. A guard or a handle makes `Done` and `DoneError` the first time
/// it reports, and `Fail` when it reports an error after that.
pub enum GroupCall {
    Add(nat),
    Done,
    Fail(Arc<anyhow::Error>),
    DoneError(Arc<anyhow::Error>),
}

/// The group after one call.
pub open spec fn step(group: GroupView, call: GroupCall) -> GroupView {
    match call {
        GroupCall::Add(num) => group.add_num(num),
        GroupCall::Done => group.done(),
        GroupCall::Fail(error) => group.set_error(error),
        GroupCall::DoneError(error) => group.done_error(error),
    }
}

/// The group after a run of calls, made by any number of tasks.
pub open spec fn run(group: GroupView, calls: Seq<GroupCall>) -> GroupView
    decreases calls.len(),
{
    if calls.len() == 0 {
        group
    } else {
        step(run(group, calls.drop_last()), calls.last())
    }
}

/// By how much a call raises the counter.
pub open spec fn raised_by(call: GroupCall) -> int {
    match call {
        GroupCall::Add(num) => num as int,
        GroupCall::Done => -1,
        GroupCall::Fail(error) => 0,
        GroupCall::DoneError(error) => -1,
    }
}

/// The work registered by a run of calls, less the work reported done.
pub open spec fn balance(calls: Seq<GroupCall>) -> int
    decreases calls.len(),
{
    if calls.len() == 0 {
        0
    } else {
        balance(calls.drop_last()) + raised_by(calls.last())
    }
}

/// Reporting a piece of work done undoes its registration.
pub proof fn law_done_undoes_add(group: GroupView)
    ensures
        group.add_num(1).done().count == group.count,
        group.add_num(1).done().error == group.error,
        group.count >= 0 ==> group.add_num(1).done_result() is Ok,
{
    lemma_wrap_absorbs(group.count + 1, -1);
    lemma_wrap_small(group.count as int);
}

/// Registering work in two lots is registering it in one.
pub proof fn law_add_num_adds_up(group: GroupView, first: nat, second: nat)
    ensures
        group.add_num(first).add_num(second) == group.add_num(first + second),
{
    lemma_wrap_absorbs(group.count + first, second as int);
}

/// The counter is what was registered less what was reported done, whatever the order of the calls.
pub proof fn law_count_is_balance(group: GroupView, calls: Seq<GroupCall>)
    ensures
        run(group, calls).count == wrap_i32(group.count + balance(calls)),
    decreases calls.len(),
{
    if calls.len() == 0 {
        lemma_wrap_small(group.count as int);
    } else {
        law_count_is_balance(group, calls.drop_last());
        lemma_wrap_absorbs(group.count + balance(calls.drop_last()), raised_by(calls.last()));
    }
}

/// The first error reported is kept, whatever is called after it.
pub proof fn law_first_error_kept(group: GroupView, calls: Seq<GroupCall>)
    requires
        group.error is Some,
    ensures
        run(group, calls).error == group.error,
    decreases calls.len(),
{
    if calls.len() > 0 {
        law_first_error_kept(group, calls.drop_last());
    }
}

/// Once an error was reported, by whatever call, every wait that looks at the group fails with the
/// first one, however much work is left and however many tasks wait.
pub proof fn law_error_fails_every_wait(
    group: GroupView,
    error: Arc<anyhow::Error>,
    calls: Seq<GroupCall>,
    wait: WaitCallView,
)
    requires
        group.error == Some(error),
        run(group, calls).count >= 0,
        wait.action(run(group, calls)) != WaitAction::Sleep,
    ensures
        wait.action(run(group, calls)) == WaitAction::Finish(
            Err(WaitError::Failed { count: run(group, calls).count, error }),
        ),
{
    law_first_error_kept(group, calls);
}

/// All waits that look at a group at once come to the same: they all succeed, all fail with one error,
/// or all wait on.
pub proof fn law_waits_agree(group: GroupView, one: WaitCallView, other: WaitCallView)
    requires
        one.action(group) != WaitAction::Sleep,
        other.action(group) != WaitAction::Sleep,
    ensures
        one.action(group) == other.action(group),
        group.count == 0 && group.error is None ==> one.action(group) == WaitAction::Finish(Ok(())),
{
}

/// Whether a call on `group` neither reports an error, nor reports more than was registered, nor takes
/// the counter beyond its range.
pub open spec fn in_order(group: GroupView, call: GroupCall) -> bool {
    match call {
        GroupCall::Add(num) => group.count + num <= i32::MAX,
        GroupCall::Done => group.done_result() is Ok,
        GroupCall::Fail(error) => false,
        GroupCall::DoneError(error) => false,
    }
}

/// Every call of the run is in order.
pub open spec fn all_in_order(group: GroupView, calls: Seq<GroupCall>) -> bool {
    forall|i: int|
        0 <= i < calls.len() ==> in_order(#[trigger] run(group, calls.take(i)), calls[i])
}

proof fn lemma_in_order_drop_last(group: GroupView, calls: Seq<GroupCall>)
    requires
        calls.len() > 0,
        all_in_order(group, calls),
    ensures
        all_in_order(group, calls.drop_last()),
        in_order(run(group, calls.drop_last()), calls.last()),
{
    let init = calls.drop_last();
    assert(calls.take(calls.len() - 1) == init);
    assert forall|i: int| 0 <= i < init.len() implies in_order(
        #[trigger] run(group, init.take(i)),
        init[i],
    ) by {
        assert(init.take(i) == calls.take(i));
    }
}

/// A wait is for all the work, in whatever order it was registered and reported: on a group without
/// an error, after any run of calls that are in order, a wait is pending as long as some work was not
/// reported done, and succeeds when all was; one report more is a misuse.
pub proof fn law_wait_is_for_all_work(group: GroupView, calls: Seq<GroupCall>)
    requires
        group.count >= 0,
        group.error is None,
        all_in_order(group, calls),
    ensures
        ({
            let later = run(group, calls);
            let left = group.count + balance(calls);
            &&& later.count == left >= 0
            &&& later.error is None
            &&& left > 0 ==> later.readiness() == Readiness::Pending && later.done_result() == Ok::<
                (),
                Misuse,
            >(())
            &&& left == 0 ==> later.readiness() == Readiness::Ready(Ok(())) && later.done_result()
                == Err::<(), Misuse>(Misuse::CountBelowZero)
        }),
    decreases calls.len(),
{
    if calls.len() > 0 {
        let before = run(group, calls.drop_last());
        lemma_in_order_drop_last(group, calls);
        law_wait_is_for_all_work(group, calls.drop_last());
        lemma_wrap_small(before.count - 1);
        if before.count + raised_by(calls.last()) <= i32::MAX {
            lemma_wrap_small(before.count + raised_by(calls.last()));
        }
    }
    lemma_wrap_small(run(group, calls).count - 1);
}

/// A registration that ends a pending wait: it wraps the counter of `group` around to zero or below.
pub open spec fn overflows(group: GroupView, call: GroupCall) -> bool {
    group.readiness() is Pending && match call {
        GroupCall::Add(num) => wrap_i32(group.count + num) <= 0,
        _ => false,
    }
}

/// No call of the run is a registration that ends a pending wait.
pub open spec fn no_overflow(group: GroupView, calls: Seq<GroupCall>) -> bool {
    forall|i: int|
        0 <= i < calls.len() ==> !overflows(#[trigger] run(group, calls.take(i)), calls[i])
}

proof fn lemma_no_overflow_drop_last(group: GroupView, calls: Seq<GroupCall>)
    requires
        calls.len() > 0,
        no_overflow(group, calls),
    ensures
        no_overflow(group, calls.drop_last()),
        !overflows(run(group, calls.drop_last()), calls.last()),
{
    let init = calls.drop_last();
    assert(calls.take(calls.len() - 1) == init);
    assert forall|i: int| 0 <= i < init.len() implies !overflows(
        #[trigger] run(group, init.take(i)),
        init[i],
    ) by {
        assert(init.take(i) == calls.take(i));
    }
}

/// Signals are only ever added.
pub proof fn law_signals_grow(group: GroupView, calls: Seq<GroupCall>)
    ensures
        run(group, calls).signals >= group.signals,
    decreases calls.len(),
{
    if calls.len() > 0 {
        law_signals_grow(group, calls.drop_last());
    }
}

/// No wake-up is lost: where a wait was pending and no longer is, a signal was sent in between. The
/// one exception is a registration that wraps the counter around while the wait is pending.
pub proof fn law_no_lost_signal(group: GroupView, calls: Seq<GroupCall>)
    requires
        group.readiness() == Readiness::Pending,
        no_overflow(group, calls),
    ensures
        run(group, calls).readiness() != Readiness::Pending ==> run(group, calls).signals
            > group.signals,
    decreases calls.len(),
{
    if calls.len() > 0 {
        let init = calls.drop_last();
        lemma_no_overflow_drop_last(group, calls);
        law_no_lost_signal(group, init);
        law_signals_grow(group, init);
        let before = run(group, init);
        if before.readiness() == Readiness::Pending {
            lemma_wrap_small(before.count - 1);
        }
    }
}

/// The version counts the signals, modulo 2^64: it tells whether any was sent, as long as fewer than
/// 2^64 were.
pub proof fn law_version_counts_signals(group: GroupView, calls: Seq<GroupCall>)
    ensures
        run(group, calls).version == wrap_u64(
            group.version + (run(group, calls).signals - group.signals),
        ),
        run(group, calls).signals - group.signals < 0x1_0000_0000_0000_0000 && run(
            group,
            calls,
        ).version == group.version ==> run(group, calls).signals == group.signals,
    decreases calls.len(),
{
    let now = run(group, calls);
    if calls.len() > 0 {
        let before = run(group, calls.drop_last());
        let sent = before.signals - group.signals;
        law_version_counts_signals(group, calls.drop_last());
        lemma_wrap_u64_absorbs(group.version + sent, 1);
        lemma_wrap_u64_absorbs(group.version + sent + 1, 1);
        assert(now.version == wrap_u64(group.version + (now.signals - group.signals)));
    }
    law_signals_grow(group, calls);
    if now.signals - group.signals < 0x1_0000_0000_0000_0000 && now.version == group.version {
        lemma_wrap_u64_unmoved(group.version, now.signals - group.signals);
    }
}

proof fn lemma_run_in_two(group: GroupView, first: Seq<GroupCall>, second: Seq<GroupCall>)
    ensures
        run(group, first + second) == run(run(group, first), second),
    decreases second.len(),
{
    if second.len() == 0 {
        assert(first + second == first);
    } else {
        assert((first + second).drop_last() == first + second.drop_last());
        assert((first + second).last() == second.last());
        lemma_run_in_two(group, first, second.drop_last());
    }
}

/// A wait that goes to sleep is woken. The wait last saw the version of `seen`, found itself pending
/// after the calls `a`, started to listen after `b`, and was told to sleep after `c`. If it would no
/// longer be pending after `d`, a signal was sent since it started to listen. Calls of other tasks may
/// fall between any two of its steps, but fewer than 2^64 signals before it sleeps. The first look of
/// a wait may come some calls after it saw the version; for any later look, `a` is empty.
pub proof fn law_sleeping_wait_is_woken(
    seen: GroupView,
    wait: WaitCallView,
    a: Seq<GroupCall>,
    b: Seq<GroupCall>,
    c: Seq<GroupCall>,
    d: Seq<GroupCall>,
)
    requires
        ({
            let checked = run(seen, a);
            let listening = run(checked, b);
            let asleep = run(listening, c);
            &&& wait.next(checked).version == seen.version
            &&& wait.action(checked) == WaitAction::Listen
            &&& wait.next(checked).action(asleep) == WaitAction::Sleep
            &&& asleep.signals - seen.signals < 0x1_0000_0000_0000_0000
            &&& no_overflow(checked, b + c)
            &&& no_overflow(asleep, d)
        }),
    ensures
        ({
            let listening = run(run(seen, a), b);
            let last = run(run(listening, c), d);
            last.readiness() != Readiness::Pending ==> last.signals > listening.signals
        }),
{
    let checked = run(seen, a);
    let listening = run(checked, b);
    let asleep = run(listening, c);
    lemma_run_in_two(checked, b, c);
    lemma_run_in_two(seen, a, b + c);
    law_version_counts_signals(seen, a + (b + c));
    law_signals_grow(seen, a);
    law_signals_grow(checked, b);
    law_signals_grow(listening, c);
    law_no_lost_signal(checked, b + c);
    law_no_lost_signal(asleep, d);
}

/// A handle that reports once changes nothing when it reports again.
pub proof fn law_second_report_changes_nothing(is_done: bool, group: GroupView)
    ensures
        done_once(true, done_once(is_done, group)) == done_once(is_done, group),
        done_once_result(true, done_once(is_done, group)) == Ok::<(), Misuse>(()),
{
}

/// A new group has nothing registered, no error, and no signal sent; a wait on it succeeds at once.
pub proof fn law_new_group_is_idle(id: int, channel: Arc<Notify>)
    ensures
        ({
            let group = GroupView::fresh(id, channel);
            &&& group.count == 0 && group.error is None && group.signals == 0 && group.version == 0
            &&& group.id == id && group.channel == channel
            &&& group.readiness() == Readiness::Ready(Ok(()))
        }),
{
}

/// Registering work raises the counter by as much, and changes nothing else.
pub proof fn law_add_raises_count(group: GroupView, num: nat)
    ensures
        ({
            let after = group.add_num(num);
            &&& (after.count - group.count - num) % 0x1_0000_0000 == 0
            &&& group.count + num <= i32::MAX ==> after.count == group.count + num
            &&& after == GroupView { count: after.count, ..group }
        }),
{
    law_wrap_agrees(group.count + num);
}

/// Reporting a piece of work done lowers the counter by one and keeps the error. It is a misuse exactly
/// where the counter ends below zero, as it does where no work is left; otherwise it is a signal.
pub proof fn law_done_lowers_count(group: GroupView)
    ensures
        ({
            let after = group.done();
            &&& (after.count - group.count + 1) % 0x1_0000_0000 == 0
            &&& group.count > i32::MIN ==> after.count == group.count - 1
            &&& after.error == group.error && after.id == group.id && after.channel
                == group.channel
            &&& group.count > 0 ==> group.done_result() is Ok
            &&& group.done_result() == if after.count < 0 {
                Err(Misuse::CountBelowZero)
            } else {
                Ok(())
            }
            &&& after.signals == group.signals + if after.count < 0 {
                0nat
            } else {
                1nat
            }
            &&& (after.version - group.version - (after.signals - group.signals))
                % 0x1_0000_0000_0000_0000 == 0
        }),
{
    law_wrap_agrees(group.count - 1);
    law_wrap_u64_agrees(group.version + 1);
}

/// Reporting an error, with or without a piece of work, puts it into a group that has none, and changes
/// no error that is there. It is a signal in any case, and what it says of the counter is what the
/// piece of work says.
pub proof fn law_error_is_put_in(group: GroupView, error: Arc<anyhow::Error>)
    ensures
        ({
            let kept = match group.error {
                Some(first) => first,
                None => error,
            };
            let failed = group.set_error(error);
            let after = group.done_error(error);
            &&& failed.error == Some(kept) && after.error == Some(kept)
            &&& failed.count == group.count
            &&& failed.signals == group.signals + 1
            &&& (failed.version - group.version - 1) % 0x1_0000_0000_0000_0000 == 0
            &&& (after.count - group.count + 1) % 0x1_0000_0000 == 0
            &&& after.signals > group.signals
            &&& failed.id == group.id && after.id == group.id
            &&& failed.channel == group.channel && after.channel == group.channel
        }),
{
    law_wrap_agrees(group.count - 1);
    law_wrap_u64_agrees(group.version + 1);
}

/// An error reported to a group that has none fails every wait that looks, whatever is called after
/// it, as long as the counter is not negative: with that error and no other.
pub proof fn law_reported_error_fails_every_wait(
    group: GroupView,
    error: Arc<anyhow::Error>,
    is_done: bool,
    calls: Seq<GroupCall>,
    wait: WaitCallView,
)
    requires
        group.error is None,
    ensures
        ({
            let alone = run(group.set_error(error), calls);
            let with_work = run(group.done_error(error), calls);
            let by_handle = run(done_once(is_done, group.set_error(error)), calls);
            &&& fails_with(alone, error, wait)
            &&& fails_with(with_work, error, wait)
            &&& fails_with(by_handle, error, wait)
        }),
{
    law_first_error_kept(group.set_error(error), calls);
    law_first_error_kept(group.done_error(error), calls);
    law_first_error_kept(done_once(is_done, group.set_error(error)), calls);
}

/// Whether `wait` fails with `error` when it looks at `group`, unless the counter is negative.
pub open spec fn fails_with(
    group: GroupView,
    error: Arc<anyhow::Error>,
    wait: WaitCallView,
) -> bool {
    &&& group.error == Some(error)
    &&& group.count >= 0 ==> group.readiness() == Readiness::Ready(
        Err(WaitError::Failed { count: group.count, error }),
    )
    &&& group.count >= 0 && wait.action(group) != WaitAction::Sleep ==> wait.action(group)
        == WaitAction::Finish(Err(WaitError::Failed { count: group.count, error }))
}

/// Where a wait stands: a negative counter is a misuse; a reported error fails it; without one it
/// succeeds when the counter is zero, and is pending while it is not.
pub proof fn law_where_a_wait_stands(group: GroupView)
    ensures
        group.count < 0 <==> group.readiness() == Readiness::Fault(Misuse::CountBelowZero),
        group.count == 0 && group.error is None <==> group.readiness() == Readiness::Ready(Ok(())),
        group.count > 0 && group.error is None <==> group.readiness() == Readiness::Pending,
        group.count >= 0 && group.error is Some <==> group.readiness() == Readiness::Ready(
            Err(WaitError::Failed { count: group.count, error: group.error->0 }),
        ),
{
}

/// What a wait does when it looks at a group: it succeeds only where the counter is zero and no error
/// was reported, fails only with the error reported, and is a misuse only where the counter is negative.
/// While work is left and no error was reported it listens or sleeps. It sleeps exactly where it listens
/// already and the version is the one it has seen.
pub proof fn law_what_a_wait_does(wait: WaitCallView, group: GroupView)
    ensures
        match wait.action(group) {
            WaitAction::Finish(Ok(())) => group.count == 0 && group.error is None,
            WaitAction::Finish(Err(failure)) => group.count >= 0 && group.error is Some && failure
                == (WaitError::Failed { count: group.count, error: group.error->0 }),
            WaitAction::Fault(misuse) => group.count < 0 && misuse == Misuse::CountBelowZero,
            WaitAction::Listen => group.count > 0 && group.error is None,
            WaitAction::Sleep => wait.phase == WaitPhase::Listening && wait.version
                == group.version,
        },
        wait.phase == WaitPhase::Listening && wait.version == group.version ==> wait.action(group)
            == WaitAction::Sleep,
        group.readiness() == Readiness::Pending ==> wait.action(group) == WaitAction::Listen
            || wait.action(group) == WaitAction::Sleep,
{
}

/// A wait that was told to listen goes to sleep when it looks again, unless the version has moved from
/// the one it has seen; one that has slept does not sleep again before it listens. The version it has
/// seen is the one that the group had when the wait began or when it last looked.
pub proof fn law_wait_listens_then_sleeps(
    wait: WaitCallView,
    group: GroupView,
    later: GroupView,
)
    ensures
        wait.action(group) == WaitAction::Listen ==> (wait.next(group).action(later)
            == WaitAction::Sleep <==> later.version == wait.next(group).version),
        wait.action(group) != WaitAction::Listen ==> wait.next(group).action(later)
            != WaitAction::Sleep,
        wait.phase == WaitPhase::Check ==> wait.next(group).version == wait.version,
        wait.phase != WaitPhase::Check ==> wait.next(group).version == group.version,
        wait.action(group) == WaitAction::Sleep ==> wait.next(group).next(later).version
            == later.version,
{
}

/// A wait looks for all the work: after any run of calls that are in order, one that does not sleep
/// listens on as long as some work was not reported done, and succeeds when all was.
pub proof fn law_wait_ends_when_all_work_is_done(
    group: GroupView,
    calls: Seq<GroupCall>,
    wait: WaitCallView,
)
    requires
        group.count >= 0,
        group.error is None,
        all_in_order(group, calls),
        wait.action(run(group, calls)) != WaitAction::Sleep,
    ensures
        wait.action(run(group, calls)) == if group.count + balance(calls) > 0 {
            WaitAction::Listen
        } else {
            WaitAction::Finish(Ok(()))
        },
{
    law_wait_is_for_all_work(group, calls);
}

/// A handle lowers the counter by one when it reports for the first time, which is a misuse exactly
/// where the counter ends below zero, and never changes the group after that.
pub proof fn law_handle_reports_once(group: GroupView)
    ensures
        ({
            let after = done_once(false, group);
            &&& (after.count - group.count + 1) % 0x1_0000_0000 == 0
            &&& after.error == group.error && after.id == group.id && after.channel
                == group.channel
            &&& after.count >= 0 ==> after.signals == group.signals + 1
            &&& done_once_result(false, group) == if after.count < 0 {
                Err(Misuse::CountBelowZero)
            } else {
                Ok(())
            }
            &&& done_once(true, group) == group
            &&& done_once_result(true, group) == Ok::<(), Misuse>(())
        }),
{
    law_done_lowers_count(group);
}

/// A signal is one more, moves the version by one, and changes nothing else.
pub proof fn law_signal_is_one_more(group: GroupView)
    ensures
        ({
            let after = group.notify_all();
            &&& after.signals == group.signals + 1
            &&& (after.version - group.version - 1) % 0x1_0000_0000_0000_0000 == 0
            &&& after == GroupView { signals: after.signals, version: after.version, ..group }
        }),
{
    law_wrap_u64_agrees(group.version + 1);
}

} // verus!
