//! What holds of a group that counts arrivals, over any run of calls on it.
use crate::counter::{law_wrap_agrees, lemma_wrap_absorbs, lemma_wrap_small, wrap_i32};
use crate::outcome::{Misuse, Readiness, WaitError};
use crate::wait_group_arrive::{arrive_error_once, arrive_once, arrive_once_result, ArriveView};
use std::sync::Arc;
use vstd::prelude::*;

verus! {

/// A call on a group. A handle makes `Arrive` and `ArriveError` the first time it arrives, and
/// `Fail` when it reports an error after that. `Wait`, `Poll` and `Finish` are made by tasks that
/// wait or try to.
pub enum ArriveCall {
    Arrive(nat),
    Fail(Arc<anyhow::Error>),
    ArriveError(Arc<anyhow::Error>),
    Wait(nat),
    Poll(int, bool),
    Finish,
}

/// The group after one call.
pub open spec fn step(group: ArriveView, call: ArriveCall) -> ArriveView {
    match call {
        ArriveCall::Arrive(num) => group.arrive_num(num),
        ArriveCall::Fail(error) => arrive_error_once(true, group, error),
        ArriveCall::ArriveError(error) => group.arrive_error(error),
        ArriveCall::Wait(count) => group.wait_arrive(count),
        ArriveCall::Poll(task, known) => group.poll(task, known),
        ArriveCall::Finish => group.finish(),
    }
}

/// The group after a run of calls, made by any number of tasks.
pub open spec fn run(group: ArriveView, calls: Seq<ArriveCall>) -> ArriveView
    decreases calls.len(),
{
    if calls.len() == 0 {
        group
    } else {
        step(run(group, calls.drop_last()), calls.last())
    }
}

/// How many arrive by a call.
pub open spec fn arriving(call: ArriveCall) -> int {
    match call {
        ArriveCall::Arrive(num) => num as int,
        ArriveCall::ArriveError(error) => 1,
        _ => 0,
    }
}

/// How many arrive by a run of calls.
pub open spec fn arrivals(calls: Seq<ArriveCall>) -> int
    decreases calls.len(),
{
    if calls.len() == 0 {
        0
    } else {
        arrivals(calls.drop_last()) + arriving(calls.last())
    }
}

/// Every arrival counts, also one that is a misuse.
pub proof fn law_count_is_arrivals(group: ArriveView, calls: Seq<ArriveCall>)
    ensures
        run(group, calls).count == wrap_i32(group.count + arrivals(calls)),
    decreases calls.len(),
{
    if calls.len() == 0 {
        lemma_wrap_small(group.count as int);
    } else {
        let init = calls.drop_last();
        law_count_is_arrivals(group, init);
        lemma_wrap_absorbs(group.count + arrivals(init), arriving(calls.last()));
        lemma_wrap_small(run(group, init).count as int);
    }
}

/// The first error reported is kept, whatever is called after it.
pub proof fn law_first_error_kept(group: ArriveView, calls: Seq<ArriveCall>)
    requires
        group.error is Some,
    ensures
        run(group, calls).error == group.error,
    decreases calls.len(),
{
    if calls.len() > 0 {
        law_first_error_kept(group, calls.drop_last());
    }
}

/// Once an error was reported, by whatever call, the wait fails with the first one, however many have
/// yet to arrive, unless more arrived than were waited for.
pub proof fn law_error_fails_wait(
    group: ArriveView,
    error: Arc<anyhow::Error>,
    calls: Seq<ArriveCall>,
)
    requires
        group.error == Some(error),
    ensures
        ({
            let later = run(group, calls);
            later.readiness() == Readiness::Ready(
                if later.target > 0 && later.count > later.target {
                    Err(WaitError::Exceeded { count: later.count, target: later.target })
                } else {
                    Err(WaitError::Failed { count: later.count, error })
                },
            )
        }),
{
    law_first_error_kept(group, calls);
}

/// Whether none of the calls begins or ends a wait.
pub open spec fn no_wait_or_finish(calls: Seq<ArriveCall>) -> bool {
    forall|i: int|
        0 <= i < calls.len() ==> !(#[trigger] calls[i] is Wait) && !(calls[i] is Finish)
}

proof fn lemma_wait_goes_on(group: ArriveView, calls: Seq<ArriveCall>)
    requires
        no_wait_or_finish(calls),
    ensures
        run(group, calls).is_waiting == group.is_waiting,
        run(group, calls).target == group.target,
    decreases calls.len(),
{
    if calls.len() > 0 {
        let init = calls.drop_last();
        assert(no_wait_or_finish(init)) by {
            assert forall|i: int| 0 <= i < init.len() implies !(#[trigger] init[i] is Wait) && !(
            init[i] is Finish) by {
                assert(calls[i] == init[i]);
            }
        }
        assert(!(calls[calls.len() - 1] is Wait));
        lemma_wait_goes_on(group, init);
    }
}

/// Whether a call on `group` neither reports an error, nor arrives more often than is waited for, nor
/// waits for another number, nor takes the counter beyond its range.
pub open spec fn in_order(group: ArriveView, call: ArriveCall) -> bool {
    match call {
        ArriveCall::Arrive(num) => group.arrive_result(num) is Ok && group.count + num <= i32::MAX,
        ArriveCall::Fail(error) => false,
        ArriveCall::ArriveError(error) => false,
        ArriveCall::Wait(count) => count == 0 || count == group.target,
        ArriveCall::Poll(task, known) => true,
        ArriveCall::Finish => true,
    }
}

/// Every call of the run is in order.
pub open spec fn all_in_order(group: ArriveView, calls: Seq<ArriveCall>) -> bool {
    forall|i: int|
        0 <= i < calls.len() ==> in_order(#[trigger] run(group, calls.take(i)), calls[i])
}

proof fn lemma_in_order(group: ArriveView, calls: Seq<ArriveCall>)
    requires
        group.count >= 0,
        group.error is None,
        all_in_order(group, calls),
    ensures
        run(group, calls).count == group.count + arrivals(calls) >= 0,
        run(group, calls).error is None,
        run(group, calls).target == group.target,
    decreases calls.len(),
{
    if calls.len() > 0 {
        let init = calls.drop_last();
        let before = run(group, init);
        assert(calls.take(calls.len() - 1) == init);
        assert(in_order(run(group, calls.take(calls.len() - 1)), calls[calls.len() - 1]));
        assert(all_in_order(group, init)) by {
            assert forall|i: int| 0 <= i < init.len() implies in_order(
                #[trigger] run(group, init.take(i)),
                init[i],
            ) by {
                assert(init.take(i) == calls.take(i));
            }
        }
        lemma_in_order(group, init);
        lemma_wrap_small(before.target as int);
        if before.count + arriving(calls.last()) <= i32::MAX {
            lemma_wrap_small(before.count + arriving(calls.last()));
        }
    }
}

/// A wait for `num` arrivals is for so many, before the wait or during it, in whatever lots they come.
/// `before` is any run of calls on a new group that begins no wait, `during` any run after the wait was
/// begun, waits for the same number among it; all of them are in order. The wait is pending while fewer
/// have arrived, succeeds when so many have, and fails when it began after more had. After a success,
/// one arrival more is a misuse, and fails the wait if it still looks (where the counter has room for
/// one more).
pub proof fn law_wait_is_for_arrivals(
    id: int,
    before: Seq<ArriveCall>,
    num: nat,
    during: Seq<ArriveCall>,
)
    requires
        0 < num <= i32::MAX,
        no_wait_or_finish(before),
        all_in_order(ArriveView::fresh(id), before),
        all_in_order(run(ArriveView::fresh(id), before).wait_arrive(num), during),
    ensures
        ({
            let early = run(ArriveView::fresh(id), before);
            let group = run(early.wait_arrive(num), during);
            let arrived = arrivals(before) + arrivals(during);
            &&& early.wait_result(num) == Ok::<(), Misuse>(())
            &&& group.count == arrived
            &&& arrived < num ==> group.readiness() == Readiness::Pending && group.arrive_result(1)
                == Ok::<(), Misuse>(())
            &&& arrived == num ==> group.readiness() == Readiness::Ready(Ok(()))
            &&& arrived > num ==> group.readiness() == Readiness::Ready(
                Err(WaitError::Exceeded { count: group.count, target: num as i32 }),
            )
            &&& arrived == num < i32::MAX ==> group.arrive_result(1) == Err::<(), Misuse>(
                Misuse::InUse,
            ) && group.arrive_num(1).readiness() == Readiness::Ready(
                Err(WaitError::Exceeded { count: (num + 1) as i32, target: num as i32 }),
            )
        }),
{
    let early = run(ArriveView::fresh(id), before);
    let waiting = early.wait_arrive(num);
    lemma_in_order(ArriveView::fresh(id), before);
    lemma_wait_goes_on(ArriveView::fresh(id), before);
    lemma_wrap_small(num as int);
    lemma_in_order(waiting, during);
    let group = run(waiting, during);
    if group.count < i32::MAX {
        lemma_wrap_small(group.count + 1);
    }
}

/// Whether none of the calls ends a wait.
pub open spec fn no_finish(calls: Seq<ArriveCall>) -> bool {
    forall|i: int| 0 <= i < calls.len() ==> !(#[trigger] calls[i] is Finish)
}

proof fn lemma_waiting_until_finish(group: ArriveView, calls: Seq<ArriveCall>)
    requires
        group.is_waiting,
        no_finish(calls),
    ensures
        run(group, calls).is_waiting,
    decreases calls.len(),
{
    if calls.len() > 0 {
        let init = calls.drop_last();
        assert(no_finish(init)) by {
            assert forall|i: int| 0 <= i < init.len() implies !(#[trigger] init[i] is Finish) by {
                assert(calls[i] == init[i]);
            }
        }
        assert(!(calls[calls.len() - 1] is Finish));
        lemma_waiting_until_finish(group, init);
    }
}

/// One task waits at a time: until a wait is over, no other begins, not even for the same number.
pub proof fn law_one_wait_at_a_time(
    group: ArriveView,
    count: nat,
    calls: Seq<ArriveCall>,
    other: nat,
)
    requires
        group.wait_result(count) is Ok,
        no_finish(calls),
        other > 0,
    ensures
        run(group.wait_arrive(count), calls).wait_result(other) == Err::<(), Misuse>(Misuse::InUse),
{
    lemma_waiting_until_finish(group.wait_arrive(count), calls);
}

/// Whether a call asks to wait for another number than `count`.
pub open spec fn waits_for_other(call: ArriveCall, count: nat) -> bool {
    match call {
        ArriveCall::Wait(other) => other != 0 && other != count,
        _ => false,
    }
}

/// Whether none of the calls asks to wait for another number than `count`.
pub open spec fn no_other_number(calls: Seq<ArriveCall>, count: nat) -> bool {
    forall|i: int| 0 <= i < calls.len() ==> !waits_for_other(#[trigger] calls[i], count)
}

proof fn lemma_number_stays(group: ArriveView, count: nat, calls: Seq<ArriveCall>)
    requires
        group.target == wrap_i32(count as int),
        no_other_number(calls, count),
    ensures
        run(group, calls).target == group.target,
    decreases calls.len(),
{
    if calls.len() > 0 {
        let init = calls.drop_last();
        assert(no_other_number(init, count)) by {
            assert forall|i: int| 0 <= i < init.len() implies !waits_for_other(
                #[trigger] init[i],
                count,
            ) by {
                assert(calls[i] == init[i]);
            }
        }
        assert(!waits_for_other(calls[calls.len() - 1], count));
        lemma_number_stays(group, count, init);
    }
}

/// After a wait for `count` arrivals was begun, and after any calls that ask for no other number,
/// another wait may begin whenever none is under way: for the same number, and for no other.
pub proof fn law_same_number_again(
    group: ArriveView,
    count: nat,
    calls: Seq<ArriveCall>,
    other: nat,
)
    requires
        group.wait_result(count) is Ok,
        count <= i32::MAX,
        no_other_number(calls, count),
        !run(group.wait_arrive(count), calls).is_waiting,
        0 < other <= i32::MAX,
    ensures
        run(group.wait_arrive(count), calls).wait_result(other) == if other == count {
            Ok(())
        } else {
            Err::<(), Misuse>(Misuse::InUse)
        },
{
    lemma_number_stays(group.wait_arrive(count), count, calls);
    lemma_wrap_small(count as int);
    lemma_wrap_small(other as int);
}

/// Nobody arrives after a wait that succeeded: it is a misuse.
pub proof fn law_no_arrival_after_success(group: ArriveView, num: nat)
    requires
        group.readiness() == Readiness::Ready(Ok(())),
        group.target > 0,
        0 < num,
        group.count + num <= i32::MAX,
    ensures
        group.arrive_result(num) == Err::<(), Misuse>(Misuse::InUse),
{
    lemma_wrap_small(group.count + num);
}

/// Whether `task` was woken after `group` and not later than `later`.
pub open spec fn woken_since(group: ArriveView, later: ArriveView, task: int) -> bool {
    exists|i: int|
        group.woken.len() <= i < later.woken.len() && #[trigger] later.woken[i] == task
}

/// A call that ends a pending wait without a wake-up: arrivals that jump over the number waited for,
/// or that wrap the counter around, or a wait for another number.
pub open spec fn strands(group: ArriveView, call: ArriveCall) -> bool {
    group.readiness() is Pending && match call {
        ArriveCall::Arrive(num) => {
            let count = wrap_i32(group.count + num);
            ||| count < 0
            ||| group.target > 0 && count > group.target
            ||| group.target <= 0 && count == group.target
        },
        ArriveCall::Wait(count) => {
            let target = wrap_i32(count as int);
            count > 0 && (target > 0 && group.count > target || group.count == target)
        },
        _ => false,
    }
}

/// None of the calls ends a pending wait without a wake-up.
pub open spec fn none_strands(group: ArriveView, calls: Seq<ArriveCall>) -> bool {
    forall|i: int|
        0 <= i < calls.len() ==> !strands(#[trigger] run(group, calls.take(i)), calls[i])
}

/// A single arrival, and an arrival with an error, never end a pending wait without a wake-up, as long
/// as the number waited for is positive.
pub proof fn law_single_arrivals_never_strand(group: ArriveView, error: Arc<anyhow::Error>)
    requires
        group.target > 0,
    ensures
        !strands(group, ArriveCall::Arrive(1)),
        !strands(group, ArriveCall::ArriveError(error)),
{
    if group.readiness() is Pending {
        lemma_wrap_small(group.count + 1);
    }
}

proof fn lemma_woken_grows(group: ArriveView, calls: Seq<ArriveCall>)
    ensures
        group.woken.is_prefix_of(run(group, calls).woken),
    decreases calls.len(),
{
    if calls.len() > 0 {
        lemma_woken_grows(group, calls.drop_last());
    }
}

/// What was woken stays so.
proof fn lemma_woken_stays(
    group: ArriveView,
    middle: ArriveView,
    calls: Seq<ArriveCall>,
    task: int,
)
    requires
        woken_since(group, middle, task),
    ensures
        woken_since(group, run(middle, calls), task),
{
    lemma_woken_grows(middle, calls);
    let i = choose|i: int|
        group.woken.len() <= i < middle.woken.len() && #[trigger] middle.woken[i] == task;
    assert(run(middle, calls).woken[i] == task);
}

/// One call keeps a registered task, or wakes it.
proof fn lemma_step_keeps_or_wakes(group: ArriveView, call: ArriveCall, task: int)
    requires
        group.tasks.contains(task),
    ensures
        step(group, call).tasks.contains(task) || woken_since(group, step(group, call), task),
        group.readiness() is Pending && !strands(group, call) && !(step(
            group,
            call,
        ).readiness() is Pending) ==> woken_since(group, step(group, call), task),
{
    let after = step(group, call);
    let j = choose|j: int| 0 <= j < group.tasks.len() && group.tasks[j] == task;
    if after.woken.len() > group.woken.len() {
        assert(after.woken[group.woken.len() + j] == task);
    } else {
        assert(after.tasks[j] == task);
    }
}

/// A registered task stays registered until it is woken.
proof fn lemma_registered_until_woken(group: ArriveView, calls: Seq<ArriveCall>, task: int)
    requires
        group.tasks.contains(task),
    ensures
        run(group, calls).tasks.contains(task) || woken_since(group, run(group, calls), task),
    decreases calls.len(),
{
    if calls.len() > 0 {
        let before = run(group, calls.drop_last());
        lemma_registered_until_woken(group, calls.drop_last(), task);
        lemma_woken_grows(group, calls.drop_last());
        lemma_one_more(before, calls.last());
        if woken_since(group, before, task) {
            lemma_woken_stays(group, before, seq![calls.last()], task);
        } else {
            lemma_step_keeps_or_wakes(before, calls.last(), task);
        }
    }
}

proof fn lemma_one_more(group: ArriveView, call: ArriveCall)
    ensures
        run(group, seq![call]) == step(group, call),
{
    assert(seq![call].drop_last() == Seq::<ArriveCall>::empty());
    assert(run(group, Seq::<ArriveCall>::empty()) == group);
    assert(seq![call].last() == call);
}

/// A pending wait of a registered task ends with a wake-up of that task.
proof fn lemma_end_of_wait_wakes(group: ArriveView, calls: Seq<ArriveCall>, task: int)
    requires
        group.readiness() is Pending,
        group.tasks.contains(task),
        none_strands(group, calls),
    ensures
        !(run(group, calls).readiness() is Pending) ==> woken_since(group, run(group, calls), task),
    decreases calls.len(),
{
    if calls.len() > 0 {
        let init = calls.drop_last();
        let before = run(group, init);
        assert(calls.take(calls.len() - 1) == init);
        assert(none_strands(group, init)) by {
            assert forall|i: int| 0 <= i < init.len() implies !strands(
                #[trigger] run(group, init.take(i)),
                init[i],
            ) by {
                assert(init.take(i) == calls.take(i));
            }
        }
        lemma_end_of_wait_wakes(group, init, task);
        lemma_registered_until_woken(group, init, task);
        lemma_woken_grows(group, init);
        lemma_one_more(before, calls.last());
        if woken_since(group, before, task) {
            lemma_woken_stays(group, before, seq![calls.last()], task);
        } else {
            assert(!strands(run(group, calls.take(calls.len() - 1)), calls[calls.len() - 1]));
            lemma_step_keeps_or_wakes(before, calls.last(), task);
        }
    }
}

/// No wake-up is lost. `registered` is a group among whose registered tasks is `task`. If a wait is
/// pending after the calls `a` and no longer so after the calls `b`, the task was woken since. The
/// exception is a call that strands the wait.
pub proof fn law_waiting_task_is_woken(
    registered: ArriveView,
    task: int,
    a: Seq<ArriveCall>,
    b: Seq<ArriveCall>,
)
    requires
        registered.tasks.contains(task),
        run(registered, a).readiness() == Readiness::Pending,
        none_strands(run(registered, a), b),
        run(run(registered, a), b).readiness() != Readiness::Pending,
    ensures
        woken_since(registered, run(run(registered, a), b), task),
{
    let pending = run(registered, a);
    let over = run(pending, b);
    lemma_registered_until_woken(registered, a, task);
    lemma_woken_grows(registered, a);
    if woken_since(registered, pending, task) {
        lemma_woken_stays(registered, pending, b, task);
    } else {
        lemma_end_of_wait_wakes(pending, b, task);
        let i = choose|i: int|
            pending.woken.len() <= i < over.woken.len() && #[trigger] over.woken[i] == task;
        assert(over.woken[i] == task);
    }
}

/// A handle that arrives once changes nothing when it arrives again.
pub proof fn law_second_arrival_changes_nothing(
    is_add: bool,
    group: ArriveView,
    first: nat,
    second: nat,
)
    ensures
        arrive_once(true, arrive_once(is_add, group, first), second) == arrive_once(
            is_add,
            group,
            first,
        ),
        arrive_once_result(true, arrive_once(is_add, group, first), second) == Ok::<(), Misuse>(()),
{
}

/// On a new group nobody has arrived and nobody waits; there is no error and nobody to wake.
pub proof fn law_new_group_is_idle(id: int)
    ensures
        ({
            let group = ArriveView::fresh(id);
            &&& group.id == id && group.count == 0 && group.error is None
            &&& group.target == 0 && !group.is_waiting
            &&& group.tasks.len() == 0 && group.woken.len() == 0
        }),
{
}

/// Whether `later` is `group` after every registered task was woken, in order, and forgotten.
pub open spec fn wakes_all(group: ArriveView, later: ArriveView) -> bool {
    later.tasks.len() == 0 && later.woken == group.woken + group.tasks
}

/// Whether `later` is `group` with nobody woken.
pub open spec fn wakes_nobody(group: ArriveView, later: ArriveView) -> bool {
    later.tasks == group.tasks && later.woken == group.woken
}

/// Whether two groups agree but for the counter, the error and who was woken.
pub open spec fn same_wait(group: ArriveView, later: ArriveView) -> bool {
    &&& later.id == group.id
    &&& later.target == group.target
    &&& later.is_waiting == group.is_waiting
}

/// Arrivals raise the counter by as many, accepted or not, and keep the error. The registered tasks are
/// woken exactly where as many have arrived as are waited for.
pub proof fn law_arrivals_raise_count(group: ArriveView, num: nat)
    ensures
        ({
            let after = group.arrive_num(num);
            &&& (after.count - group.count - num) % 0x1_0000_0000 == 0
            &&& group.count + num <= i32::MAX ==> after.count == group.count + num
            &&& after.error == group.error
            &&& same_wait(group, after)
            &&& group.target > 0 && after.count == group.target ==> wakes_all(group, after)
            &&& !(group.target > 0 && after.count == group.target) ==> wakes_nobody(group, after)
        }),
{
    law_wrap_agrees(group.count + num);
}

/// Arrivals, in any lot, are accepted while nobody has begun a wait, and after that exactly where the
/// counter with them does not exceed the number waited for.
pub proof fn law_arrivals_are_accepted(group: ArriveView, num: nat)
    ensures
        group.target <= 0 ==> group.arrive_result(num) == Ok::<(), Misuse>(()),
        group.target > 0 && group.count + num <= i32::MAX ==> (group.arrive_result(num) is Ok
            <==> group.count + num <= group.target),
        group.target > 0 ==> (group.arrive_result(num) is Ok <==> group.arrive_num(num).count
            <= group.target),
        group.arrive_result(num) is Err ==> group.arrive_result(num) == Err::<(), Misuse>(
            Misuse::InUse,
        ),
{
    if group.count + num <= i32::MAX {
        lemma_wrap_small(group.count + num);
    }
}

/// Arriving in two lots is arriving in one, as far as the counter goes.
pub proof fn law_lots_add_up(group: ArriveView, first: nat, second: nat)
    ensures
        group.arrive_num(first).arrive_num(second).count == group.arrive_num(first + second).count,
{
    lemma_wrap_absorbs(group.count + first, second as int);
}

/// Reporting an error, with an arrival or by a handle that has arrived, puts it into a group that has
/// none, and changes no error that is there, whatever the counter and the number waited for. The
/// registered tasks are woken, unless the arrival is refused.
pub proof fn law_error_is_put_in(group: ArriveView, error: Arc<anyhow::Error>)
    ensures
        ({
            let kept = match group.error {
                Some(first) => first,
                None => error,
            };
            let alone = group.set_error(error);
            let spent = arrive_error_once(true, group, error);
            let after = group.arrive_error(error);
            &&& alone.error == Some(kept) && spent.error == Some(kept) && after.error == Some(kept)
            &&& alone == ArriveView { error: alone.error, ..group }
            &&& spent.count == group.count && wakes_all(group, spent) && same_wait(group, spent)
            &&& (after.count - group.count - 1) % 0x1_0000_0000 == 0
            &&& group.count < i32::MAX ==> after.count == group.count + 1
            &&& same_wait(group, after)
            &&& group.target > 0 && after.count > group.target ==> wakes_nobody(group, after)
            &&& !(group.target > 0 && after.count > group.target) ==> wakes_all(group, after)
            &&& arrive_error_once(false, group, error) == after
        }),
{
    law_wrap_agrees(group.count + 1);
    assert(group.woken + group.tasks + Seq::<int>::empty() == group.woken + group.tasks);
}

/// An error reported to a group that has none fails the wait, whatever is called after it: with that
/// error, unless more arrived than were waited for.
pub proof fn law_reported_error_fails_wait(
    group: ArriveView,
    error: Arc<anyhow::Error>,
    is_add: bool,
    calls: Seq<ArriveCall>,
)
    requires
        group.error is None,
    ensures
        fails_with(run(group.arrive_error(error), calls), error),
        fails_with(run(arrive_error_once(is_add, group, error), calls), error),
{
    law_first_error_kept(group.arrive_error(error), calls);
    law_first_error_kept(arrive_error_once(is_add, group, error), calls);
}

/// Whether a wait that looks at `group` fails: with `error`, unless more arrived than were waited for.
pub open spec fn fails_with(group: ArriveView, error: Arc<anyhow::Error>) -> bool {
    let exceeded = group.target > 0 && group.count > group.target;
    &&& group.error == Some(error)
    &&& !exceeded ==> group.readiness() == Readiness::Ready(
        Err(WaitError::Failed { count: group.count, error }),
    )
    &&& exceeded ==> group.readiness() == Readiness::Ready(
        Err(WaitError::Exceeded { count: group.count, target: group.target }),
    )
}

/// Where a wait stands. It succeeds only when as many have arrived as were waited for and no error was
/// reported, and is pending only while fewer have, on a counter that is not negative. It fails only with
/// the error reported, or on a counter that is negative or too high.
pub proof fn law_where_a_wait_stands(group: ArriveView)
    ensures
        match group.readiness() {
            Readiness::Pending => group.error is None && group.count >= 0 && group.count
                != group.target && (group.target > 0 ==> group.count < group.target),
            Readiness::Ready(Ok(())) => group.error is None && group.count == group.target
                && group.count >= 0,
            Readiness::Ready(Err(WaitError::Failed { count, error })) => group.error == Some(error)
                && count == group.count && (group.target > 0 ==> group.count <= group.target),
            Readiness::Ready(Err(WaitError::NegativeCount { count })) => group.error is None
                && group.count < 0 && count == group.count,
            Readiness::Ready(Err(WaitError::Exceeded { count, target })) => group.target > 0
                && group.count > group.target && count == group.count && target == group.target
                && (group.count >= 0 || group.error is Some),
            Readiness::Fault(misuse) => false,
        },
{
}

/// When a wait begins: not for no arrivals, not while another is under way, and not for another number
/// than before; otherwise it does. The number waited for is the new one also where the wait is refused,
/// but for a wait for no arrivals, which changes nothing.
pub proof fn law_when_a_wait_begins(group: ArriveView, count: nat)
    ensures
        count == 0 ==> group.wait_result(count) == Err::<(), Misuse>(Misuse::NothingToWaitFor)
            && group.wait_arrive(count) == group,
        count > 0 ==> ({
            let after = group.wait_arrive(count);
            &&& (after.target - count) % 0x1_0000_0000 == 0
            &&& count <= i32::MAX ==> after.target == count
            &&& (group.is_waiting || group.target > 0 && group.target != after.target) <==> (
            group.wait_result(count) == Err::<(), Misuse>(Misuse::InUse))
            &&& group.wait_result(count) is Err ==> group.wait_result(count) == Err::<(), Misuse>(
                Misuse::InUse,
            )
            &&& after.is_waiting == (group.is_waiting || group.wait_result(count) is Ok)
            &&& after == ArriveView {
                target: after.target,
                is_waiting: after.is_waiting,
                ..group
            }
        }),
        group.finish() == (ArriveView { is_waiting: false, ..group }),
{
    law_wrap_agrees(count as int);
}

/// A look at the group registers the task that looked exactly where its wait is pending and it is not
/// known to be registered, however many have arrived. Nothing else changes.
pub proof fn law_pending_look_registers(group: ArriveView, task: int, known: bool)
    ensures
        ({
            let after = group.poll(task, known);
            let pending = group.error is None && group.count >= 0 && group.count != group.target
                && (group.target > 0 ==> group.count < group.target);
            &&& pending && !known ==> after.tasks == group.tasks.push(task)
            &&& !pending || known ==> after.tasks == group.tasks
            &&& after == ArriveView { tasks: after.tasks, ..group }
            &&& group.register(task, known).tasks == if known {
                group.tasks
            } else {
                group.tasks.push(task)
            }
            &&& group.register(task, known) == ArriveView {
                tasks: group.register(task, known).tasks,
                ..group
            }
        }),
{
}

/// A task that looked while its wait was pending is woken: if the wait is no longer pending after any
/// calls that do not strand it, it was woken since. It is known to be registered only where it is.
pub proof fn law_task_that_looked_is_woken(
    group: ArriveView,
    task: int,
    known: bool,
    calls: Seq<ArriveCall>,
)
    requires
        group.readiness() == Readiness::Pending,
        known ==> group.tasks.contains(task),
        none_strands(group.poll(task, known), calls),
    ensures
        ({
            let later = run(group.poll(task, known), calls);
            later.readiness() != Readiness::Pending ==> woken_since(group, later, task)
        }),
{
    let registered = group.poll(task, known);
    let later = run(registered, calls);
    assert(run(registered, Seq::<ArriveCall>::empty()) == registered);
    if !known {
        assert(registered.tasks.last() == task);
    }
    if later.readiness() != Readiness::Pending {
        law_waiting_task_is_woken(registered, task, Seq::empty(), calls);
        let i = choose|i: int|
            registered.woken.len() <= i < later.woken.len() && #[trigger] later.woken[i] == task;
        assert(later.woken[i] == task);
    }
}

/// A handle raises the counter when it arrives for the first time, and never changes the group after
/// that.
pub proof fn law_handle_arrives_once(group: ArriveView, num: nat)
    ensures
        ({
            let after = arrive_once(false, group, num);
            &&& (after.count - group.count - num) % 0x1_0000_0000 == 0
            &&& after.error == group.error
            &&& same_wait(group, after)
            &&& group.target > 0 && after.count == group.target ==> wakes_all(group, after)
            &&& !(group.target > 0 && after.count == group.target) ==> wakes_nobody(group, after)
            &&& arrive_once_result(false, group, num) == if group.target > 0 && after.count
                > group.target {
                Err(Misuse::InUse)
            } else {
                Ok(())
            }
            &&& arrive_once(true, group, num) == group
            &&& arrive_once_result(true, group, num) == Ok::<(), Misuse>(())
        }),
{
    law_arrivals_raise_count(group, num);
}

/// A wake-up goes to all registered tasks, and changes nothing else.
pub proof fn law_wake_up_goes_to_all(group: ArriveView)
    ensures
        ({
            let after = group.notify();
            &&& wakes_all(group, after)
            &&& after == ArriveView { tasks: after.tasks, woken: after.woken, ..group }
        }),
{
}

} // verus!
