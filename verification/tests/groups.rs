//! The root group and the group of arrivals, as plain values.
use awaitgroup::counter::{lower, next_version, raise, truncate};
use awaitgroup::outcome::failure_message;
use awaitgroup::signal::any;
use awaitgroup::text::push_decimal;
use awaitgroup::wait_group_arrive::{WaitGroupArrive, WaitGroupFuture};
use awaitgroup::{Misuse, Readiness, WaitAction, WaitError, WaitGroup};
use std::sync::atomic::{AtomicUsize, Ordering};
use std::sync::Arc;
use std::task::{Wake, Waker};

struct Bell {
    rung: AtomicUsize,
}

impl Wake for Bell {
    fn wake(self: Arc<Self>) {
        self.rung.fetch_add(1, Ordering::SeqCst);
    }
}

fn bell() -> (Arc<Bell>, Waker) {
    let bell = Arc::new(Bell { rung: AtomicUsize::new(0) });
    (bell.clone(), Waker::from(bell))
}

fn begin(group: &mut WaitGroupArrive, count: usize) -> WaitGroupFuture {
    match group.wait_arrive(count) {
        Ok(future) => future,
        Err(misuse) => panic!("{}", misuse.message()),
    }
}

#[test]
fn counters_wrap_around() {
    assert_eq!(truncate(5), 5);
    assert_eq!(truncate(0x7fff_ffff), i32::MAX);
    assert_eq!(truncate(0x8000_0000), i32::MIN);
    assert_eq!(truncate(0xffff_ffff), -1);
    assert_eq!(raise(i32::MAX, 1), i32::MIN);
    assert_eq!(raise(-1, 1), 0);
    assert_eq!(lower(0), -1);
    assert_eq!(lower(i32::MIN), i32::MAX);
    assert_eq!(next_version(7), 8);
    assert_eq!(next_version(u64::MAX), 0);
}

#[test]
fn integers_are_written_in_decimal() {
    for n in [0, 7, 10, 1234567890, i32::MAX, -1, -40, i32::MIN] {
        let mut text = String::new();
        push_decimal(&mut text, n);
        assert_eq!(text, format!("{}", n));
    }
}

#[test]
fn messages_of_failed_waits() {
    assert_eq!(failure_message(-3, "oops"), "err:error => count:-3, err:oops");
    let failed = WaitError::Failed { count: 2, error: Arc::new(anyhow::Error::msg("oops")) };
    assert_eq!(failed.message(), "err:error => count:2, err:oops");
    let negative = WaitError::NegativeCount { count: -7 };
    assert_eq!(negative.message(), "err:count < 0 => count:-7");
    let exceeded = WaitError::Exceeded { count: 6, target: 5 };
    assert_eq!(exceeded.message(), "err:count:6 > wait_arrive_count:5");
}

#[test]
fn messages_of_misuses() {
    assert_eq!(Misuse::NothingToWaitFor.message(), "wait_arrive count <= 0");
}

#[test]
fn done_undoes_add() {
    let mut group = WaitGroup::new();
    group.add_num(4);
    group.add();
    assert_eq!(group.done(), Ok(()));
    assert_eq!(group.count(), 4);
}

#[test]
fn lots_of_work_add_up() {
    let mut group = WaitGroup::new();
    group.add_num(2);
    group.add_num(3);
    assert_eq!(group.count(), 5);
}

#[test]
fn registration_keeps_the_low_bits() {
    let mut group = WaitGroup::new();
    group.add_num(0xffff_ffff);
    assert_eq!(group.count(), -1);
    let mut wait = group.wait();
    assert!(matches!(wait.step(&group), WaitAction::Fault(Misuse::CountBelowZero)));
    group.add_num(1);
    assert_eq!(group.count(), 0);
}

#[test]
fn report_below_zero_is_counted() {
    let mut group = WaitGroup::new();
    assert_eq!(group.done(), Err(Misuse::CountBelowZero));
    assert_eq!(group.count(), -1);
    let mut wait = group.wait();
    assert!(matches!(wait.step(&group), WaitAction::Fault(Misuse::CountBelowZero)));
}

#[test]
fn wait_steps_to_sleep_and_back() {
    let mut group = WaitGroup::new();
    group.add_num(2);
    let mut wait = group.wait();
    assert!(matches!(wait.step(&group), WaitAction::Listen));
    assert!(matches!(wait.step(&group), WaitAction::Sleep));
    assert_eq!(group.done(), Ok(()));
    assert!(matches!(wait.step(&group), WaitAction::Listen));
    assert!(matches!(wait.step(&group), WaitAction::Sleep));
    assert_eq!(group.done(), Ok(()));
    assert!(matches!(wait.step(&group), WaitAction::Finish(Ok(()))));
}

#[test]
fn wait_does_not_sleep_through_a_signal() {
    let mut group = WaitGroup::new();
    group.add_num(2);
    let mut wait = group.wait();
    assert!(matches!(wait.step(&group), WaitAction::Listen));
    assert_eq!(group.done(), Ok(()));
    assert!(matches!(wait.step(&group), WaitAction::Listen));
    assert_eq!(group.done(), Ok(()));
    assert!(matches!(wait.step(&group), WaitAction::Finish(Ok(()))));
}

#[test]
fn signal_completes_what_listens_on_the_channel() {
    let rt = tokio::runtime::Builder::new_current_thread().build().unwrap();
    rt.block_on(async {
        let mut group = WaitGroup::new();
        group.add();
        let channel = group.channel();
        let notified = channel.notified();
        assert_eq!(group.done(), Ok(()));
        notified.await;
    });
}

#[test]
fn every_waiter_sees_the_first_error() {
    let mut group = WaitGroup::new();
    group.add_num(3);
    let mut early = group.wait();
    assert!(matches!(early.step(&group), WaitAction::Listen));
    assert!(matches!(early.step(&group), WaitAction::Sleep));
    assert_eq!(group.done_error(anyhow::Error::msg("first")), Ok(()));
    assert_eq!(group.done_error(anyhow::Error::msg("second")), Ok(()));
    let mut late = group.wait();
    for wait in [&mut early, &mut late] {
        match wait.step(&group) {
            WaitAction::Finish(Err(error)) => {
                assert_eq!(error.message(), "err:error => count:1, err:first");
            }
            other => panic!("unexpected: {:?}", other),
        }
    }
}

#[test]
fn spent_handle_still_reports_an_error() {
    let mut group = WaitGroup::new();
    let mut handle = group.worker().add(&mut group);
    assert_eq!(handle.done(&mut group), Ok(()));
    assert_eq!(handle.done_error(&mut group, anyhow::Error::msg("late")), Ok(()));
    assert_eq!(handle.count(&group), 0);
    let mut wait = group.wait();
    assert!(matches!(wait.step(&group), WaitAction::Finish(Err(WaitError::Failed { count: 0, .. }))));
    let mut guard = group.worker().guard_add(&mut group);
    assert_eq!(guard.done_error(&mut group, anyhow::Error::msg("later")), Ok(()));
    assert_eq!(group.worker().count(&group), 0);
}

#[test]
fn arrivals_complete_the_wait_and_wake_the_task() {
    let mut group = WaitGroupArrive::new();
    let (bell, waker) = bell();
    assert_eq!(group.arrive(), Ok(()));
    let mut future = begin(&mut group, 3);
    assert!(matches!(future.poll(&mut group, &waker), Readiness::Pending));
    assert!(matches!(future.poll(&mut group, &waker), Readiness::Pending));
    assert_eq!(group.arrive(), Ok(()));
    assert_eq!(bell.rung.load(Ordering::SeqCst), 0);
    assert_eq!(group.arrive(), Ok(()));
    assert_eq!(bell.rung.load(Ordering::SeqCst), 1);
    assert!(matches!(future.poll(&mut group, &waker), Readiness::Ready(Ok(()))));
}

#[test]
fn any_looks_for_one_that_holds() {
    assert!(!any(&vec![]));
    assert!(!any(&vec![false, false]));
    assert!(any(&vec![false, true, false]));
}

#[test]
fn every_registered_task_is_woken_once() {
    let mut group = WaitGroupArrive::new();
    let (first, first_waker) = bell();
    let (second, second_waker) = bell();
    let mut future = begin(&mut group, 1);
    assert!(matches!(future.poll(&mut group, &first_waker), Readiness::Pending));
    assert!(matches!(future.poll(&mut group, &second_waker), Readiness::Pending));
    assert!(matches!(future.poll(&mut group, &first_waker), Readiness::Pending));
    assert_eq!(group.arrive(), Ok(()));
    assert_eq!(first.rung.load(Ordering::SeqCst), 1);
    assert_eq!(second.rung.load(Ordering::SeqCst), 1);
}

#[test]
fn arrival_too_many_counts_and_fails_the_wait() {
    let mut group = WaitGroupArrive::new();
    let (_, waker) = bell();
    let mut future = begin(&mut group, 2);
    assert_eq!(group.arrive_num(3), Err(Misuse::InUse));
    assert_eq!(group.count(), 3);
    match future.poll(&mut group, &waker) {
        Readiness::Ready(Err(error)) => {
            assert_eq!(error.message(), "err:count:3 > wait_arrive_count:2");
        }
        other => panic!("unexpected: {:?}", other),
    }
}

#[test]
fn negative_count_of_arrivals_fails_the_wait() {
    let mut group = WaitGroupArrive::new();
    let (_, waker) = bell();
    assert_eq!(group.arrive_num(0xffff_ffff), Ok(()));
    assert!(matches!(
        begin(&mut group, 2).poll(&mut group, &waker),
        Readiness::Ready(Err(WaitError::NegativeCount { count: -1 }))
    ));
}

#[test]
fn too_many_arrivals_come_before_an_error() {
    let mut group = WaitGroupArrive::new();
    let (_, waker) = bell();
    assert_eq!(group.arrive_error(anyhow::Error::msg("oops")), Ok(()));
    assert_eq!(group.arrive(), Ok(()));
    assert!(matches!(
        begin(&mut group, 1).poll(&mut group, &waker),
        Readiness::Ready(Err(WaitError::Exceeded { count: 2, target: 1 }))
    ));
}

#[test]
fn arrival_with_an_error_wakes_the_task() {
    let mut group = WaitGroupArrive::new();
    let (bell, waker) = bell();
    let mut future = begin(&mut group, 5);
    assert!(matches!(future.poll(&mut group, &waker), Readiness::Pending));
    assert_eq!(group.arrive_error(anyhow::Error::msg("first")), Ok(()));
    assert_eq!(group.arrive_error(anyhow::Error::msg("second")), Ok(()));
    assert_eq!(bell.rung.load(Ordering::SeqCst), 1);
    match future.poll(&mut group, &waker) {
        Readiness::Ready(Err(error)) => {
            assert_eq!(error.message(), "err:error => count:2, err:first");
        }
        other => panic!("unexpected: {:?}", other),
    }
}

#[test]
fn one_wait_at_a_time_and_for_one_number() {
    let mut group = WaitGroupArrive::new();
    assert!(matches!(group.wait_arrive(0), Err(Misuse::NothingToWaitFor)));
    let future = begin(&mut group, 3);
    assert!(matches!(group.wait_arrive(3), Err(Misuse::InUse)));
    future.finish(&mut group);
    let again = begin(&mut group, 3);
    again.finish(&mut group);
    assert!(matches!(group.wait_arrive(5), Err(Misuse::InUse)));
}

#[test]
fn refused_wait_still_sets_the_number_waited_for() {
    let mut group = WaitGroupArrive::new();
    let future = begin(&mut group, 3);
    future.finish(&mut group);
    assert!(matches!(group.wait_arrive(5), Err(Misuse::InUse)));
    assert_eq!(group.arrive_num(4), Ok(()));
    assert_eq!(group.arrive(), Ok(()));
    assert_eq!(group.arrive(), Err(Misuse::InUse));
}

#[test]
fn handle_arrives_once() {
    let mut group = WaitGroupArrive::new();
    let mut worker = group.worker();
    assert_eq!(worker.arrive_num(&mut group, 3), Ok(()));
    assert_eq!(worker.arrive(&mut group), Ok(()));
    assert_eq!(worker.arrive_num(&mut group, 3), Ok(()));
    assert_eq!(worker.count(&group), 3);
    assert_eq!(worker.worker().arrive(&mut group), Ok(()));
    assert_eq!(group.count(), 4);
}

#[test]
fn spent_handle_reports_an_error_only_when_told_to() {
    let mut group = WaitGroupArrive::new();
    let (bell, waker) = bell();
    let mut worker = group.worker();
    let mut future = begin(&mut group, 4);
    assert_eq!(worker.arrive(&mut group), Ok(()));
    assert!(matches!(future.poll(&mut group, &waker), Readiness::Pending));
    assert_eq!(worker.try_arrive_error(&mut group, anyhow::Error::msg("ignored")), Ok(()));
    assert_eq!(bell.rung.load(Ordering::SeqCst), 0);
    assert!(matches!(future.poll(&mut group, &waker), Readiness::Pending));
    assert_eq!(worker.arrive_error(&mut group, anyhow::Error::msg("kept")), Ok(()));
    assert_eq!(bell.rung.load(Ordering::SeqCst), 1);
    match future.poll(&mut group, &waker) {
        Readiness::Ready(Err(error)) => {
            assert_eq!(error.message(), "err:error => count:1, err:kept");
        }
        other => panic!("unexpected: {:?}", other),
    }
}

#[test]
fn fresh_handle_arrives_with_an_error() {
    let mut group = WaitGroupArrive::new();
    let mut worker = group.worker();
    assert_eq!(worker.try_arrive_error(&mut group, anyhow::Error::msg("once")), Ok(()));
    assert_eq!(group.count(), 1);
    let (_, waker) = bell();
    match begin(&mut group, 1).poll(&mut group, &waker) {
        Readiness::Ready(Err(error)) => {
            assert_eq!(error.message(), "err:error => count:1, err:once");
        }
        other => panic!("unexpected: {:?}", other),
    }
}

#[test]
fn lots_in_any_order_end_the_wait_with_the_last_report() {
    let mut group = WaitGroup::new();
    group.add_num(2);
    assert!(group.done().is_ok());
    group.add();
    assert!(group.done().is_ok());
    assert!(matches!(group.wait().step(&group), WaitAction::Listen));
    assert!(group.done().is_ok());
    assert!(matches!(group.wait().step(&group), WaitAction::Finish(Ok(()))));
    assert!(matches!(group.done(), Err(Misuse::CountBelowZero)));
}

#[test]
fn arrivals_in_lots_complete_the_wait() {
    let (rung, waker) = bell();
    let mut group = WaitGroupArrive::new();
    assert!(group.arrive_num(2).is_ok());
    let mut wait = begin(&mut group, 6);
    assert!(matches!(wait.poll(&mut group, &waker), Readiness::Pending));
    assert!(group.arrive().is_ok());
    assert!(group.arrive_num(3).is_ok());
    assert_eq!(rung.rung.load(Ordering::SeqCst), 1);
    assert!(matches!(wait.poll(&mut group, &waker), Readiness::Ready(Ok(()))));
    wait.finish(&mut group);
}

#[test]
fn wait_begun_after_too_many_arrivals_fails() {
    let (_, waker) = bell();
    let mut group = WaitGroupArrive::new();
    assert!(group.arrive_num(4).is_ok());
    let mut wait = begin(&mut group, 3);
    assert!(matches!(
        wait.poll(&mut group, &waker),
        Readiness::Ready(Err(WaitError::Exceeded { count: 4, target: 3 }))
    ));
    wait.finish(&mut group);
}
