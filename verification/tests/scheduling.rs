use embedded_executor::counter::Counter;
use embedded_executor::erased_future::{ErasedFuture, ErasedRoutine};
use embedded_executor::executor::{Executor, WakeSlot};
use embedded_executor::routine::{Poll, PollContext, Routine, WakeHandle};
use embedded_executor::yield_now::yield_now;

#[test]
fn fifo_round_robin_matches_spawn_order() {
    let mut ex: Executor<Counter> = Executor::new();
    let _g0 = ex.spawn(Counter::new());
    let _g1 = ex.spawn(Counter::new());
    let _g2 = ex.spawn(Counter::new());
    let mut seen: Vec<usize> = Vec::new();
    for _round in 0..4 {
        for _step in 0..3 {
            seen.push(ex.poll().expect("queue never empties"));
        }
    }
    assert_eq!(
        seen,
        vec![0, 1, 2, 0, 1, 2, 0, 1, 2, 0, 1, 2],
        "tasks that always re-arm are visited round-robin in spawn order"
    );
}

#[test]
fn empty_queue_poll_is_a_no_op() {
    let mut ex: Executor<Counter> = Executor::new();
    assert_eq!(ex.poll(), None);
    assert_eq!(ex.task_count(), 0);
    assert_eq!(ex.queue_len(), 0);
    assert!(!ex.is_down());
    // The same with a suspended task in the arena: a completed yielder has
    // left the queue, and polling the empty queue changes nothing.
    let mut ex2: Executor<embedded_executor::yield_now::YieldNow> = Executor::new();
    let _g = ex2.spawn(yield_now());
    ex2.poll();
    ex2.poll();
    assert_eq!(ex2.queue_len(), 0);
    let before = *ex2.routine(0).expect("registered");
    assert_eq!(ex2.poll(), None);
    assert_eq!(*ex2.routine(0).expect("registered"), before);
    assert_eq!(ex2.queue_len(), 0);
    assert_eq!(ex2.task_count(), 1);
}

#[test]
fn poll_advances_exactly_one_task() {
    let mut ex: Executor<Counter> = Executor::new();
    let _ga = ex.spawn(Counter::new());
    let _gb = ex.spawn(Counter::new());
    // Settle both, then advance each once more so the counters are running.
    for _i in 0..4 {
        ex.poll();
    }
    let a_before = ex.routine(0).expect("registered").count;
    let b_before = ex.routine(1).expect("registered").count;
    let polled = ex.poll();
    assert_eq!(polled, Some(0));
    let a_after = ex.routine(0).expect("registered").count;
    let b_after = ex.routine(1).expect("registered").count;
    assert_eq!(a_after, a_before + 1, "the polled task advances by one step");
    assert_eq!(b_after, b_before, "the other task does not move");
}

#[test]
fn released_task_is_never_observed_again() {
    let mut ex: Executor<Counter> = Executor::new();
    let ga = ex.spawn(Counter::new());
    let _gb = ex.spawn(Counter::new());
    // Both settle and re-arm; task 0 is linked (a pending resumption) when
    // its guard is released.
    ex.poll();
    ex.poll();
    assert!(ex.is_linked(0));
    ex.release(ga);
    assert!(!ex.is_linked(0));
    assert!(ex.routine(0).is_none());
    for _i in 0..50 {
        let polled = ex.poll();
        assert_ne!(polled, Some(0), "a released task is never polled");
        assert_eq!(polled, Some(1));
    }
    assert!(ex.routine(0).is_none());
}

#[test]
fn self_wake_lands_at_the_tail() {
    let mut ex: Executor<Counter> = Executor::new();
    let _ga = ex.spawn(Counter::new());
    let _gb = ex.spawn(Counter::new());
    // Task 0 wakes itself from within its poll: it is linked again, but the
    // next poll observes task 1, not task 0 a second time.
    assert_eq!(ex.poll(), Some(0));
    assert!(ex.is_linked(0), "the self-woken task is ready again");
    assert_eq!(ex.poll(), Some(1), "but only a later poll observes it");
    assert_eq!(ex.poll(), Some(0));
}

#[test]
fn teardown_leaves_linked_tasks_inert() {
    let mut ex: Executor<Counter> = Executor::new();
    let ga = ex.spawn(Counter::new());
    let gb = ex.spawn(Counter::new());
    let ha = ga.wake_handle();
    let hb = gb.wake_handle();
    assert!(ex.is_linked(0) && ex.is_linked(1));
    ex.shutdown();
    assert!(ex.is_down());
    assert_eq!(ex.queue_len(), 0);
    assert_eq!(ex.wake_slot(0), Some(WakeSlot::Inert));
    assert_eq!(ex.wake_slot(1), Some(WakeSlot::Inert));
    // Invoking the handles afterwards is a documented no-op, not a crash.
    ex.wake(&ha);
    ex.wake(&hb);
    ex.wake(&ha);
    assert_eq!(ex.queue_len(), 0);
    assert!(!ex.is_linked(0) && !ex.is_linked(1));
}

#[test]
fn two_counters_split_a_thousand_polls_evenly() {
    let mut ex: Executor<Counter> = Executor::new();
    let _ga = ex.spawn(Counter::new());
    let _gb = ex.spawn(Counter::new());
    // Yield-settling: each task's first poll is its settling yield.
    assert_eq!(ex.poll(), Some(0));
    assert_eq!(ex.poll(), Some(1));
    // A thousand interleaved polls on a single thread.
    for step in 0..1000 {
        let polled = ex.poll();
        let expected = if step % 2 == 0 { 0 } else { 1 };
        assert_eq!(polled, Some(expected), "strict alternation");
    }
    assert_eq!(ex.routine(0).expect("registered").count, 500);
    assert_eq!(ex.routine(1).expect("registered").count, 500);
}

#[test]
fn release_without_any_poll() {
    let mut ex: Executor<Counter> = Executor::new();
    let g = ex.spawn(Counter::new());
    ex.release(g);
    assert_eq!(ex.poll(), None, "no poll ever observes the task");
    assert_eq!(ex.poll(), None);
    assert!(ex.routine(0).is_none());
}

#[test]
fn double_wake_before_repoll_links_once() {
    let mut ex: Executor<Counter> = Executor::new();
    let ga = ex.spawn(Counter::new());
    let gb = ex.spawn(Counter::new());
    let ha = ga.wake_handle();
    // Waking an already linked task cannot double-link it.
    assert_eq!(ex.queue_len(), 2);
    ex.wake(&ha);
    assert_eq!(ex.queue_len(), 2);
    // A suspended task is re-linked exactly once however often it is woken.
    let mut ex2: Executor<embedded_executor::yield_now::YieldNow> = Executor::new();
    let g = ex2.spawn(yield_now());
    assert_eq!(ex2.poll(), Some(0));
    assert_eq!(ex2.poll(), Some(0));
    // Completed and not re-armed: the task left the queue.
    assert_eq!(ex2.queue_len(), 0);
    let h = g.wake_handle();
    ex2.wake(&h);
    assert_eq!(ex2.queue_len(), 1);
    ex2.wake(&h);
    assert_eq!(ex2.queue_len(), 1, "the second wake is a checked no-op");
    let _keep = (gb, g);
}

#[test]
fn stale_handle_after_release_is_a_no_op() {
    let mut ex: Executor<Counter> = Executor::new();
    let g = ex.spawn(Counter::new());
    let h = g.wake_handle();
    ex.release(g);
    ex.wake(&h);
    assert_eq!(ex.queue_len(), 0);
    ex.wake(&WakeHandle::Inert);
    assert_eq!(ex.queue_len(), 0);
}

#[test]
fn erased_routines_share_one_queue() {
    let mut ex: Executor<ErasedFuture> = Executor::new();
    let _gy = ex.spawn(ErasedFuture::from_yield(yield_now()));
    let _gc = ex.spawn(ErasedFuture::from_counter(Counter::new()));
    // First round: the yielder re-arms once, the counter settles.
    assert_eq!(ex.poll(), Some(0));
    assert_eq!(ex.poll(), Some(1));
    // Second round: the yielder completes and leaves the queue.
    assert_eq!(ex.poll(), Some(0));
    assert_eq!(ex.poll(), Some(1));
    // From now on only the counter is ever observed.
    for _i in 0..10 {
        assert_eq!(ex.poll(), Some(1));
    }
    match ex.routine(1).expect("registered").routine {
        ErasedRoutine::Count(c) => assert_eq!(c.count, 11),
        ErasedRoutine::Yield(_) => panic!("task 1 carries the counter"),
    }
    match ex.routine(0).expect("registered").routine {
        ErasedRoutine::Yield(y) => assert!(y.yielded),
        ErasedRoutine::Count(_) => panic!("task 0 carries the yielder"),
    }
}

#[test]
fn yield_now_cycle() {
    let mut y = yield_now();
    assert!(!y.yielded);
    let mut cx = PollContext::new(7);
    assert_eq!(y.poll(&mut cx), Poll::Pending);
    assert!(cx.woken(), "the first poll requests resumption before it suspends");
    assert!(y.yielded);
    let mut cx2 = PollContext::new(7);
    assert_eq!(y.poll(&mut cx2), Poll::Ready);
    assert!(!cx2.woken(), "the second poll completes without re-arming");
}

#[test]
fn poll_context_hands_out_a_live_waker() {
    let cx = PollContext::new(3);
    assert_eq!(cx.waker(), WakeHandle::Live { task: 3 });
    assert!(!cx.woken());
}

#[test]
fn guard_names_its_task() {
    let mut ex: Executor<Counter> = Executor::new();
    let g0 = ex.spawn(Counter::new());
    let g1 = ex.spawn(Counter::new());
    assert_eq!(g0.task_id(), 0);
    assert_eq!(g1.task_id(), 1);
    assert_eq!(g1.wake_handle(), WakeHandle::Live { task: 1 });
    assert_eq!(ex.task_count(), 2);
}

#[test]
fn wake_slot_follows_the_protocol() {
    let mut ex: Executor<Counter> = Executor::new();
    let _g = ex.spawn(Counter::new());
    assert_eq!(ex.wake_slot(0), Some(WakeSlot::Vacant));
    ex.poll();
    assert_eq!(ex.wake_slot(0), Some(WakeSlot::Live));
    assert_eq!(ex.wake_slot(1), None);
}
