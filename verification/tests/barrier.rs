use atomic_try_update::barrier::{
    DoneResult, ShutdownBarrier, ShutdownBarrierError, WaitResult,
};
use atomic_try_update::bits::FlagU64;
use tokio::sync::broadcast::error::TryRecvError;

fn word(count: u64, cancelled: bool) -> FlagU64 {
    let mut w = FlagU64::default();
    w.set_val(count);
    w.set_flag(cancelled);
    w
}

#[test]
fn barrier_cooperative() {
    let barrier = ShutdownBarrier::new();
    for _ in 0..5 {
        barrier.spawn().unwrap();
    }
    // The waiter subscribes and reads the state before the first done().
    let mut rx = barrier.subscribe();
    assert_eq!(barrier.poll(), WaitResult::StillRunning);
    assert_eq!(rx.try_recv(), Err(TryRecvError::Empty));

    let mut leaders = 0;
    for _ in 0..6 {
        let done = barrier.done().unwrap();
        assert!(!done.is_cancelled());
        if done.is_leader() {
            leaders += 1;
        }
    }
    assert_eq!(leaders, 1);

    // Exactly one message, and it says "not cancelled".
    let message = rx.try_recv();
    assert_eq!(message, Ok(false));
    assert_eq!(rx.try_recv(), Err(TryRecvError::Empty));
    let waited = ShutdownBarrier::wait_outcome(WaitResult::StillRunning, message.ok()).unwrap();
    assert!(!waited.is_cancelled());

    // A waiter that comes late finds the shutdown in the state.
    assert_eq!(barrier.poll(), WaitResult::Shutdown);
    let late = ShutdownBarrier::wait_outcome(barrier.poll(), None).unwrap();
    assert!(!late.is_cancelled());
}

#[test]
fn barrier_cooperative_awaited() {
    let runtime = tokio::runtime::Builder::new_current_thread()
        .build()
        .unwrap();
    let barrier = ShutdownBarrier::new();
    for _ in 0..5 {
        barrier.spawn().unwrap();
    }
    let mut rx = barrier.subscribe();
    let found = barrier.poll();
    assert_eq!(found, WaitResult::StillRunning);
    let mut leaders = 0;
    for _ in 0..6 {
        if barrier.done().unwrap().is_leader() {
            leaders += 1;
        }
    }
    assert_eq!(leaders, 1);
    let message = runtime.block_on(rx.recv()).ok();
    let waited = ShutdownBarrier::wait_outcome(found, message).unwrap();
    assert!(!waited.is_cancelled());
}

#[test]
fn barrier_last_done_leads() {
    let barrier = ShutdownBarrier::default();
    barrier.spawn().unwrap();
    barrier.spawn().unwrap();
    let first = barrier.done().unwrap();
    assert!(!first.is_leader() && !first.is_cancelled());
    let second = barrier.done().unwrap();
    assert!(!second.is_leader() && !second.is_cancelled());
    let third = barrier.done().unwrap();
    assert!(third.is_leader() && !third.is_cancelled());
}

#[test]
fn barrier_rejects_after_shutdown() {
    let barrier = ShutdownBarrier::new();
    assert!(barrier.done().unwrap().is_leader());
    assert_eq!(barrier.spawn(), Err(ShutdownBarrierError::AlreadyShutdown));
    assert_eq!(barrier.cancel(), Err(ShutdownBarrierError::AlreadyShutdown));
    assert!(matches!(
        barrier.done(),
        Err(ShutdownBarrierError::AlreadyShutdown)
    ));
    assert_eq!(barrier.poll(), WaitResult::Shutdown);
}

#[test]
fn barrier_cancel_reaches_every_waiter() {
    let barrier = ShutdownBarrier::new();
    barrier.spawn().unwrap();
    let mut early = barrier.subscribe();
    let mut also_early = barrier.subscribe();
    assert_eq!(barrier.poll(), WaitResult::StillRunning);

    barrier.cancel().unwrap();

    // Those that wait get the message...
    for rx in [&mut early, &mut also_early] {
        let message = rx.try_recv();
        assert_eq!(message, Ok(true));
        let waited =
            ShutdownBarrier::wait_outcome(WaitResult::StillRunning, message.ok()).unwrap();
        assert!(waited.is_cancelled());
    }
    // ...and those that come later find the flag.
    assert_eq!(barrier.poll(), WaitResult::Cancelled);
    assert!(ShutdownBarrier::wait_outcome(barrier.poll(), None)
        .unwrap()
        .is_cancelled());

    // A cancelled barrier takes no worker and no second cancel, and every
    // done() reports the cancellation, never a leader.
    assert_eq!(barrier.spawn(), Err(ShutdownBarrierError::AlreadyShutdown));
    assert_eq!(barrier.cancel(), Err(ShutdownBarrierError::AlreadyShutdown));
    for _ in 0..4 {
        let done = barrier.done().unwrap();
        assert!(done.is_cancelled());
        assert!(!done.is_leader());
    }
    assert_eq!(barrier.poll(), WaitResult::Cancelled);
}

#[test]
fn barrier_concurrent_workers() {
    let barrier = ShutdownBarrier::new();
    let leaders = std::sync::atomic::AtomicU64::new(0);
    let mut rx = barrier.subscribe();
    crossbeam_utils::thread::scope(|s| {
        for _ in 0..50 {
            barrier.spawn().unwrap();
            let barrier = &barrier;
            let leaders = &leaders;
            s.spawn(move |_| {
                if barrier.done().unwrap().is_leader() {
                    leaders.fetch_add(1, std::sync::atomic::Ordering::SeqCst);
                }
            });
        }
        if barrier.done().unwrap().is_leader() {
            leaders.fetch_add(1, std::sync::atomic::Ordering::SeqCst);
        }
    })
    .unwrap();
    assert_eq!(leaders.load(std::sync::atomic::Ordering::SeqCst), 1);
    assert_eq!(rx.try_recv(), Ok(false));
    assert_eq!(barrier.poll(), WaitResult::Shutdown);
}

fn fields(w: &FlagU64) -> (u64, bool) {
    (w.get_val(), w.get_flag())
}

#[test]
fn spawn_transaction() {
    let mut w = word(1, false);
    assert_eq!(ShutdownBarrier::spawn_on(&mut w), (true, false));
    assert_eq!(fields(&w), (2, false));

    let mut w = word(0, false);
    assert_eq!(ShutdownBarrier::spawn_on(&mut w), (false, true));
    assert_eq!(fields(&w), (0, false));

    let mut w = word(7, true);
    assert_eq!(ShutdownBarrier::spawn_on(&mut w), (false, true));
    assert_eq!(fields(&w), (7, true));

    // The count has 63 bits: one more than the largest is zero.
    let mut w = word((1 << 63) - 1, false);
    assert_eq!(ShutdownBarrier::spawn_on(&mut w), (true, false));
    assert_eq!(fields(&w), (0, false));
}

#[test]
fn cancel_transaction() {
    let mut w = word(3, false);
    assert_eq!(ShutdownBarrier::cancel_on(&mut w), (true, false));
    assert_eq!(fields(&w), (3, true));

    let mut w = word(3, true);
    assert_eq!(ShutdownBarrier::cancel_on(&mut w), (false, true));
    assert_eq!(fields(&w), (3, true));

    let mut w = word(0, false);
    assert_eq!(ShutdownBarrier::cancel_on(&mut w), (false, true));
    assert_eq!(fields(&w), (0, false));
}

#[test]
fn done_transaction() {
    let mut w = word(3, false);
    assert_eq!(ShutdownBarrier::done_on(&mut w), (true, DoneResult::Running));
    assert_eq!(fields(&w), (2, false));

    let mut w = word(1, false);
    assert_eq!(
        ShutdownBarrier::done_on(&mut w),
        (true, DoneResult::ShutdownLeader)
    );
    assert_eq!(fields(&w), (0, false));

    let mut w = word(0, false);
    assert_eq!(
        ShutdownBarrier::done_on(&mut w),
        (false, DoneResult::AlreadyDone)
    );
    assert_eq!(fields(&w), (0, false));

    let mut w = word(1, true);
    assert_eq!(ShutdownBarrier::done_on(&mut w), (true, DoneResult::Cancelled));
    assert_eq!(fields(&w), (0, true));

    // A cancelled barrier does not count below zero.
    let mut w = word(0, true);
    assert_eq!(ShutdownBarrier::done_on(&mut w), (true, DoneResult::Cancelled));
    assert_eq!(fields(&w), (0, true));
}

#[test]
fn wait_transaction() {
    let mut w = word(2, false);
    assert_eq!(
        ShutdownBarrier::wait_on(&mut w),
        (false, WaitResult::StillRunning)
    );
    assert_eq!(fields(&w), (2, false));

    let mut w = word(0, false);
    assert_eq!(ShutdownBarrier::wait_on(&mut w), (false, WaitResult::Shutdown));

    let mut w = word(2, true);
    assert_eq!(ShutdownBarrier::wait_on(&mut w), (false, WaitResult::Cancelled));
    assert_eq!(fields(&w), (2, true));

    let mut w = word(0, true);
    assert_eq!(ShutdownBarrier::wait_on(&mut w), (false, WaitResult::Cancelled));
}

#[test]
fn done_outcomes() {
    let r = ShutdownBarrier::done_outcome(DoneResult::Cancelled).unwrap();
    assert!(r.is_cancelled() && !r.is_leader());
    let r = ShutdownBarrier::done_outcome(DoneResult::ShutdownLeader).unwrap();
    assert!(!r.is_cancelled() && r.is_leader());
    let r = ShutdownBarrier::done_outcome(DoneResult::Running).unwrap();
    assert!(!r.is_cancelled() && !r.is_leader());
    assert!(matches!(
        ShutdownBarrier::done_outcome(DoneResult::AlreadyDone),
        Err(ShutdownBarrierError::AlreadyShutdown)
    ));
}

#[test]
fn wait_outcomes() {
    let still = WaitResult::StillRunning;
    assert!(ShutdownBarrier::wait_outcome(still, Some(true))
        .unwrap()
        .is_cancelled());
    assert!(!ShutdownBarrier::wait_outcome(still, Some(false))
        .unwrap()
        .is_cancelled());
    assert!(matches!(
        ShutdownBarrier::wait_outcome(still, None),
        Err(ShutdownBarrierError::AlreadyShutdown)
    ));
    for message in [None, Some(true), Some(false)] {
        assert!(!ShutdownBarrier::wait_outcome(WaitResult::Shutdown, message)
            .unwrap()
            .is_cancelled());
        assert!(ShutdownBarrier::wait_outcome(WaitResult::Cancelled, message)
            .unwrap()
            .is_cancelled());
    }
}

#[test]
fn barrier_error_text() {
    assert_eq!(
        ShutdownBarrierError::AlreadyShutdown.to_string(),
        "AlreadyShutdown"
    );
    assert_eq!(
        format!("{:?}", ShutdownBarrierError::AlreadyShutdown),
        "AlreadyShutdown"
    );
}

// What a waiter does: subscribe first, then read the state, and suspend on
// the subscription only while the work is still running.
async fn wait(
    barrier: &ShutdownBarrier,
) -> Result<atomic_try_update::barrier::ShutdownBarrierWaitResult, ShutdownBarrierError> {
    let mut rx = barrier.subscribe();
    let found = barrier.poll();
    let message = match found {
        WaitResult::StillRunning => rx.recv().await.ok(),
        _ => None,
    };
    ShutdownBarrier::wait_outcome(found, message)
}

#[test]
fn barrier_wait_completes_once() {
    let runtime = tokio::runtime::Builder::new_current_thread()
        .build()
        .unwrap();
    let barrier = std::sync::Arc::new(ShutdownBarrier::new());
    for _ in 0..5 {
        barrier.spawn().unwrap();
    }
    let completions = std::sync::Arc::new(std::sync::atomic::AtomicU64::new(0));
    runtime.block_on(async {
        let waiter = {
            let barrier = barrier.clone();
            let completions = completions.clone();
            tokio::spawn(async move {
                let waited = wait(&barrier).await.unwrap();
                completions.fetch_add(1, std::sync::atomic::Ordering::SeqCst);
                waited.is_cancelled()
            })
        };
        // Let the waiter subscribe and suspend before the first done().
        tokio::task::yield_now().await;
        assert_eq!(completions.load(std::sync::atomic::Ordering::SeqCst), 0);

        let mut leaders = 0;
        for _ in 0..6 {
            let done = barrier.done().unwrap();
            assert!(!done.is_cancelled());
            if done.is_leader() {
                leaders += 1;
            }
        }
        assert_eq!(leaders, 1);
        assert!(!waiter.await.unwrap());
        assert_eq!(completions.load(std::sync::atomic::Ordering::SeqCst), 1);

        // A waiter that comes after the shutdown returns at once.
        assert!(!wait(&barrier).await.unwrap().is_cancelled());
    });
}

#[test]
fn barrier_wait_sees_the_cancellation() {
    let runtime = tokio::runtime::Builder::new_current_thread()
        .build()
        .unwrap();
    let barrier = std::sync::Arc::new(ShutdownBarrier::new());
    barrier.spawn().unwrap();
    runtime.block_on(async {
        let mut waiters = vec![];
        for _ in 0..3 {
            let barrier = barrier.clone();
            waiters.push(tokio::spawn(async move {
                wait(&barrier).await.unwrap().is_cancelled()
            }));
        }
        tokio::task::yield_now().await;
        barrier.cancel().unwrap();
        for w in waiters {
            assert!(w.await.unwrap());
        }
        assert!(wait(&barrier).await.unwrap().is_cancelled());
    });
}

#[test]
fn barrier_accepts_one_done_per_worker() {
    for k in [0u64, 1, 2, 17] {
        let barrier = ShutdownBarrier::new();
        for _ in 0..k {
            assert_eq!(barrier.spawn(), Ok(()));
        }
        let mut leaders = 0;
        for _ in 0..k + 1 {
            assert_eq!(barrier.poll(), WaitResult::StillRunning);
            let done = barrier.done().unwrap();
            assert!(!done.is_cancelled());
            if done.is_leader() {
                leaders += 1;
            }
        }
        assert_eq!(leaders, 1);
        assert_eq!(barrier.poll(), WaitResult::Shutdown);
        assert!(matches!(
            barrier.done(),
            Err(ShutdownBarrierError::AlreadyShutdown)
        ));
        assert_eq!(barrier.poll(), WaitResult::Shutdown);
    }
}
