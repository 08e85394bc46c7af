use atomicmonitor::AtomMonitor;
use atomicmonitor::Deadline;
use atomicmonitor::Look;
use atomicmonitor::MonitorGuard;
use atomicmonitor::Ordering;
use std::cell::Cell;
use std::time::Instant;

fn wait_until<T: Copy, F: FnMut(T) -> bool>(monitor: &AtomMonitor<T>, condition: F) -> T {
    monitor.wait_until(condition, |guard: MonitorGuard<()>, condition: F| {
        let mut guard = guard;
        let mut condition = condition;
        loop {
            if let Some(value) = monitor.park(&mut guard, &mut condition) {
                return value;
            }
        }
    })
}

fn wait_until_timeout<T: Copy, F: FnMut(T) -> bool>(
    monitor: &AtomMonitor<T>,
    condition: F,
    timeout: i64,
) -> Option<T> {
    monitor.wait_until_timeout(
        condition,
        timeout,
        |guard: MonitorGuard<()>, condition: F, deadline: Deadline| {
            let mut guard = guard;
            let mut condition = condition;
            loop {
                match monitor.park_until(&mut guard, &mut condition, deadline) {
                    Look::Satisfied(value) => return Some(value),
                    Look::Expired => return None,
                    Look::Woken => {}
                }
            }
        },
    )
}

fn shared<M: Send + Sync>(monitor: M) -> M {
    monitor
}

#[test]
fn monitor_can_be_shared() {
    let monitor = shared(AtomMonitor::new(1u64));
    let held = std::sync::Arc::new(monitor);
    let other = held.clone();
    other.set(2);
    assert_eq!(held.get(), 2);
}

#[test]
fn get_returns_the_initial_value() {
    let monitor = AtomMonitor::new(7u32);
    assert_eq!(monitor.get(), 7);
    assert_eq!(monitor.waiters(), 0);
}

#[test]
fn set_then_get() {
    let monitor = AtomMonitor::new(0i64);
    monitor.set(-3);
    assert_eq!(monitor.get(), -3);
    monitor.set(12);
    assert_eq!(monitor.get(), 12);
}

#[test]
fn mutate_returns_what_the_mutator_returns() {
    let monitor = AtomMonitor::new(1u32);
    let before = monitor.mutate(|cell| cell.swap(9, Ordering::SeqCst));
    assert_eq!(before, 1);
    assert_eq!(monitor.get(), 9);
    let swapped =
        monitor.mutate(|cell| cell.compare_exchange(9, 10, Ordering::SeqCst, Ordering::SeqCst));
    assert_eq!(swapped, Ok(9));
    let refused =
        monitor.mutate(|cell| cell.compare_exchange(9, 11, Ordering::SeqCst, Ordering::SeqCst));
    assert_eq!(refused, Err(10));
    assert_eq!(monitor.get(), 10);
}

#[test]
fn fast_path_touches_neither_count_nor_lock() {
    for initial in [5u32, 6, 100, u32::MAX] {
        let monitor = AtomMonitor::new(initial);
        let seen = Cell::new(u32::MAX);
        let value = monitor.wait_until(
            |v| {
                seen.set(monitor.waiters());
                v >= 5
            },
            |_guard, _condition| panic!("the fast path took the lock"),
        );
        assert_eq!(value, initial);
        assert_eq!(seen.get(), 0);
        assert_eq!(monitor.waiters(), 0);
    }
}

#[test]
fn wait_from_a_satisfying_value_returns_it() {
    let monitor = AtomMonitor::new(0u32);
    let done = monitor.wait_until_from(
        7,
        |v| v >= 5,
        |_guard, _condition| panic!("the fast path took the lock"),
    );
    assert_eq!(done.0, 7);
    assert_eq!(monitor.get(), 0);
    assert_eq!(monitor.waiters(), 0);
}

#[test]
fn recheck_sees_a_write_made_after_the_first_look() {
    let monitor = AtomMonitor::new(0u32);
    let looks = Cell::new(0u32);
    let counted = Cell::new(0u32);
    let value = monitor.wait_until(
        |v| {
            looks.set(looks.get() + 1);
            if looks.get() == 1 {
                monitor.set(5);
            } else {
                counted.set(monitor.waiters());
            }
            v >= 5
        },
        |_guard, _condition| panic!("the recheck was enough"),
    );
    assert_eq!(value, 5);
    assert_eq!(looks.get(), 2);
    assert_eq!(counted.get(), 1);
    assert_eq!(monitor.waiters(), 0);
}

#[test]
fn look_under_the_lock_sees_a_write_made_after_the_recheck() {
    let monitor = AtomMonitor::new(0u32);
    let looks = Cell::new(0u32);
    let counted = Cell::new(0u32);
    let value = wait_until(&monitor, |v| {
        looks.set(looks.get() + 1);
        if looks.get() == 2 {
            monitor.set(5);
        }
        if looks.get() == 3 {
            counted.set(monitor.waiters());
        }
        v >= 5
    });
    assert_eq!(value, 5);
    assert_eq!(looks.get(), 3);
    assert_eq!(counted.get(), 1);
    assert_eq!(monitor.waiters(), 0);
}

#[test]
fn waiter_returns_five_after_sets_of_one_three_five() {
    let monitor = AtomMonitor::new(0u32);
    let looks = Cell::new(0u32);
    let value = wait_until(&monitor, |v| {
        looks.set(looks.get() + 1);
        match looks.get() {
            1 => monitor.set(1),
            2 => {
                monitor.set(3);
                monitor.set(5);
            }
            _ => {}
        }
        v >= 5
    });
    assert_eq!(value, 5);
    assert_eq!(monitor.get(), 5);
    assert_eq!(monitor.waiters(), 0);
}

#[test]
fn many_waits_in_a_row_leave_the_count_at_zero() {
    let monitor = AtomMonitor::new(0u32);
    for round in 1..=100u32 {
        let looks = Cell::new(0u32);
        let value = wait_until(&monitor, |v| {
            looks.set(looks.get() + 1);
            if looks.get() == 2 {
                monitor.set(round);
            }
            v >= round
        });
        assert_eq!(value, round);
        assert_eq!(monitor.waiters(), 0);
    }
    assert_eq!(wait_until_timeout(&monitor, |v| v > 1000, 1_000_000), None);
    assert_eq!(monitor.waiters(), 0);
    assert_eq!(wait_until_timeout(&monitor, |v| v == 100, 1_000_000), Some(100));
    assert_eq!(monitor.waiters(), 0);
}

#[test]
fn timeout_of_fifty_milliseconds_is_kept() {
    let monitor = AtomMonitor::new(0u32);
    let start = Instant::now();
    let value = wait_until_timeout(&monitor, |v| v >= 5, 50_000_000);
    let elapsed = start.elapsed();
    assert_eq!(value, None);
    assert!(elapsed.as_millis() >= 50, "gave up after {:?}", elapsed);
    assert!(elapsed.as_millis() < 550, "gave up after {:?}", elapsed);
    assert_eq!(monitor.waiters(), 0);
}

#[test]
fn timed_wait_blocks_between_its_looks() {
    let monitor = AtomMonitor::new(0u32);
    let looks = Cell::new(0u32);
    let value = wait_until_timeout(
        &monitor,
        |v| {
            looks.set(looks.get() + 1);
            v >= 5
        },
        50_000_000,
    );
    assert_eq!(value, None);
    assert!(looks.get() >= 3, "looked {} times", looks.get());
    assert!(looks.get() < 50, "looked {} times", looks.get());
}

#[test]
fn block_until_goes_by_the_reading_it_is_given() {
    let monitor = AtomMonitor::new(0u32);
    let deadline = Deadline::after(1_000, 2_000_000);
    let done = monitor.wait_until_timeout_from(
        0,
        |v| v >= 5,
        deadline,
        |guard, _condition, deadline| {
            let mut guard = guard;
            assert_eq!(monitor.block_until(&mut guard, deadline, 2_001_001), Look::Expired);
            assert_eq!(monitor.block_until(&mut guard, deadline, u64::MAX), Look::Expired);
            let start = Instant::now();
            assert_eq!(monitor.block_until(&mut guard, deadline, 2_001_000), Look::Woken);
            assert!(start.elapsed().as_millis() < 500);
            let mut slept = 0;
            for _ in 0..5 {
                let start = Instant::now();
                assert_eq!(monitor.block_until(&mut guard, deadline, 1_000), Look::Woken);
                if start.elapsed().as_micros() >= 2_000 {
                    slept += 1;
                }
            }
            assert!(slept >= 1, "never blocked for the two milliseconds that were left");
            None
        },
    );
    assert_eq!(done.0, None);
    assert_eq!(monitor.waiters(), 0);
}

#[test]
fn park_until_from_goes_by_the_value_and_the_reading() {
    let monitor = AtomMonitor::new(0u32);
    let deadline = Deadline::after(1_000, 2_000_000);
    let asked = Cell::new(0u32);
    let done = monitor.wait_until_timeout_from(
        0,
        |v| {
            asked.set(asked.get() + 1);
            v >= 5
        },
        deadline,
        |guard, condition, deadline| {
            let mut guard = guard;
            let mut condition = condition;
            let before = asked.get();
            assert_eq!(
                monitor.park_until_from(&mut guard, 7, u64::MAX, &mut condition, deadline),
                Look::Satisfied(7)
            );
            assert_eq!(
                monitor.park_until_from(&mut guard, 5, 0, &mut condition, deadline),
                Look::Satisfied(5)
            );
            assert_eq!(
                monitor.park_until_from(&mut guard, 4, 2_001_001, &mut condition, deadline),
                Look::Expired
            );
            assert_eq!(
                monitor.park_until_from(&mut guard, 4, 2_001_000, &mut condition, deadline),
                Look::Woken
            );
            assert_eq!(asked.get(), before + 4);
            assert_eq!(monitor.get(), 0);
            None
        },
    );
    assert_eq!(done.0, None);
    assert_eq!(monitor.waiters(), 0);
}

#[test]
fn park_from_returns_the_value_it_is_given_when_accepted() {
    let monitor = AtomMonitor::new(0u32);
    let done = monitor.wait_until_from(
        0,
        |v| v >= 5,
        |guard, condition| {
            let mut guard = guard;
            let mut condition = condition;
            assert_eq!(monitor.park_from(&mut guard, 5, &mut condition), Some(5));
            assert_eq!(monitor.park_from(&mut guard, u32::MAX, &mut condition), Some(u32::MAX));
            assert_eq!(monitor.get(), 0);
            9
        },
    );
    assert_eq!(done.0, 9);
    assert_eq!(monitor.waiters(), 0);
}

#[test]
fn wait_returns_what_its_block_returned() {
    let monitor = AtomMonitor::new(0u32);
    let kept = monitor.wait_until_timeout_from(
        0,
        |v| v >= 5,
        Deadline::after(0, i64::MAX),
        |_guard, _condition, _deadline| Some(6),
    );
    assert_eq!(kept.0, Some(6));
    let given_up = monitor.wait_until_timeout_from(
        0,
        |v| v >= 5,
        Deadline::after(0, i64::MAX),
        |_guard, _condition, _deadline| None,
    );
    assert_eq!(given_up.0, None);
    let handed = Cell::new(false);
    let timed = monitor.wait_until_timeout(
        |v| v >= 5,
        1_000,
        |_guard, _condition, deadline| {
            handed.set(!deadline.passed(0) && deadline.remaining(0).is_some());
            None
        },
    );
    assert_eq!(timed, None);
    assert!(handed.get());
    assert_eq!(monitor.waiters(), 0);
}

#[test]
fn park_returns_the_value_it_finds_satisfying() {
    let monitor = AtomMonitor::new(11u32);
    let looks = Cell::new(0u32);
    let done = monitor.wait_until_from(
        0,
        |v| {
            looks.set(looks.get() + 1);
            looks.get() > 2 && v > 10
        },
        |guard, condition| {
            let mut guard = guard;
            let mut condition = condition;
            match monitor.park(&mut guard, &mut condition) {
                Some(value) => value,
                None => panic!("blocked on a satisfied condition"),
            }
        },
    );
    assert_eq!(done.0, 11);
    assert_eq!(looks.get(), 3);
    assert_eq!(monitor.waiters(), 0);
}

#[test]
fn timed_wait_on_a_satisfied_condition_returns_at_once() {
    let monitor = AtomMonitor::new(9u32);
    for timeout in [i64::MIN, -1, 0, 1, 50_000_000, i64::MAX] {
        let value = monitor.wait_until_timeout(
            |v| v >= 5,
            timeout,
            |_guard, _condition, _deadline| panic!("the fast path took the lock"),
        );
        assert_eq!(value, Some(9));
        assert_eq!(monitor.waiters(), 0);
    }
}

#[test]
fn timed_wait_with_no_time_gives_up() {
    let monitor = AtomMonitor::new(0u32);
    let start = Instant::now();
    assert_eq!(wait_until_timeout(&monitor, |v| v >= 5, 0), None);
    assert_eq!(wait_until_timeout(&monitor, |v| v >= 5, -1), None);
    assert_eq!(wait_until_timeout(&monitor, |v| v >= 5, i64::MIN), None);
    assert!(start.elapsed().as_millis() < 500);
    assert_eq!(monitor.waiters(), 0);
}

#[test]
fn timed_wait_succeeds_when_the_write_comes_before_the_deadline() {
    let monitor = AtomMonitor::new(0u32);
    let looks = Cell::new(0u32);
    let start = Instant::now();
    let value = wait_until_timeout(
        &monitor,
        |v| {
            looks.set(looks.get() + 1);
            if looks.get() == 2 {
                monitor.set(8);
            }
            v >= 5
        },
        10_000_000_000,
    );
    assert_eq!(value, Some(8));
    assert!(start.elapsed().as_millis() < 5_000);
    assert_eq!(monitor.waiters(), 0);
}

#[test]
fn a_satisfying_value_counts_even_past_the_deadline() {
    let monitor = AtomMonitor::new(3u32);
    let looks = Cell::new(0u32);
    let done = monitor.wait_until_timeout_from(
        3,
        |v| {
            looks.set(looks.get() + 1);
            looks.get() >= 3 && v == 3
        },
        Deadline::after(0, -1),
        |guard, condition, deadline| {
            let mut guard = guard;
            let mut condition = condition;
            loop {
                match monitor.park_until(&mut guard, &mut condition, deadline) {
                    Look::Satisfied(value) => return Some(value),
                    Look::Expired => return None,
                    Look::Woken => {}
                }
            }
        },
    );
    assert_eq!(done.0, Some(3));
    assert_eq!(looks.get(), 3);
    assert_eq!(monitor.waiters(), 0);
}

#[test]
fn an_unsatisfying_value_past_the_deadline_ends_the_wait() {
    let monitor = AtomMonitor::new(3u32);
    let looks = Cell::new(0u32);
    let done = monitor.wait_until_timeout_from(
        3,
        |v| {
            looks.set(looks.get() + 1);
            v > 3
        },
        Deadline::after(0, -1),
        |guard, condition, deadline| {
            let mut guard = guard;
            let mut condition = condition;
            match monitor.park_until(&mut guard, &mut condition, deadline) {
                Look::Satisfied(value) => Some(value),
                Look::Expired => None,
                Look::Woken => panic!("blocked past the deadline"),
            }
        },
    );
    assert_eq!(done.0, None);
    assert_eq!(looks.get(), 3);
    assert_eq!(monitor.waiters(), 0);
}

#[test]
fn timed_wait_from_gives_up_only_in_the_block() {
    let monitor = AtomMonitor::new(0u32);
    let deadline = Deadline::after(0, -1);
    let done = monitor.wait_until_timeout_from(
        0,
        |v| v >= 5,
        deadline,
        |guard, condition, deadline| {
            let mut guard = guard;
            let mut condition = condition;
            match monitor.park_until(&mut guard, &mut condition, deadline) {
                Look::Satisfied(value) => Some(value),
                Look::Expired => None,
                Look::Woken => panic!("blocked past the deadline"),
            }
        },
    );
    assert_eq!(done.0, None);
    let kept = monitor.wait_until_timeout_from(
        6,
        |v| v >= 5,
        deadline,
        |_guard, _condition, _deadline| panic!("the fast path took the lock"),
    );
    assert_eq!(kept.0, Some(6));
    assert_eq!(monitor.waiters(), 0);
}

#[test]
fn notify_all_without_waiters_changes_nothing() {
    let monitor = AtomMonitor::new(4u32);
    monitor.notify_all();
    monitor.notify_all();
    assert_eq!(monitor.get(), 4);
    assert_eq!(monitor.waiters(), 0);
    assert_eq!(wait_until(&monitor, |v| v == 4), 4);
}

#[test]
fn wake_goes_by_the_count() {
    let monitor = AtomMonitor::new(4u32);
    assert!(!monitor.wake(0));
    assert!(monitor.wake(1));
    assert!(monitor.wake(u32::MAX));
    assert_eq!(monitor.get(), 4);
    assert_eq!(monitor.waiters(), 0);
}

#[test]
fn writes_while_a_call_is_counted_take_the_lock_and_return() {
    let monitor = AtomMonitor::new(0u32);
    let looks = Cell::new(0u32);
    let value = monitor.wait_until(
        |v| {
            looks.set(looks.get() + 1);
            if looks.get() == 2 {
                assert_eq!(monitor.waiters(), 1);
                monitor.set(2);
                let old = monitor.mutate(|cell| cell.swap(7, Ordering::SeqCst));
                assert_eq!(old, 2);
                monitor.notify_all();
            }
            v >= 5 || looks.get() == 2
        },
        |_guard, _condition| panic!("the recheck was enough"),
    );
    assert_eq!(value, 0);
    assert_eq!(monitor.get(), 7);
    assert_eq!(monitor.waiters(), 0);
}
