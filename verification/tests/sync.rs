use render_alloc::graphics::sync::{DeviceLost, Fence, LocalFence, WaitOutcome, WaitPlan};

#[test]
fn fence_counts_the_signals() {
    let mut fence = Fence::new();
    assert_eq!(fence.get_current_value(), 0);
    assert_eq!(fence.get_completed_value(), 0);
    assert_eq!(fence.inc_value(), 1);
    assert_eq!(fence.inc_value(), 2);
    assert_eq!(fence.get_current_value(), 2);
    assert_eq!(fence.get_completed_value(), 0);
    assert!(fence.is_complete(0));
    assert!(!fence.is_complete(1));
}

#[test]
fn fence_follows_what_the_device_reports() {
    let mut fence = Fence::new();
    fence.inc_value();
    fence.inc_value();
    fence.inc_value();
    fence.observe(2);
    assert_eq!(fence.get_completed_value(), 2);
    assert!(fence.is_complete(2));
    assert!(!fence.is_complete(3));
    // It does not go back, and not beyond what was signaled.
    fence.observe(1);
    assert_eq!(fence.get_completed_value(), 2);
    fence.observe(9);
    assert_eq!(fence.get_completed_value(), 3);
    assert_eq!(fence.get_current_value(), 3);
}

#[test]
fn wait_blocks_only_for_work_that_is_not_complete() {
    let mut fence = Fence::new();
    fence.inc_value();
    fence.inc_value();
    assert_eq!(fence.plan_wait(0), WaitPlan::Ready);
    assert_eq!(fence.plan_wait(1), WaitPlan::Block);
    assert_eq!(fence.finish_wait(1, WaitOutcome::Signaled), Ok(()));
    assert_eq!(fence.get_completed_value(), 1);
    assert_eq!(fence.plan_wait(1), WaitPlan::Ready);
    assert_eq!(fence.plan_wait(2), WaitPlan::Block);
}

#[test]
fn wait_that_runs_out_of_time_loses_the_device() {
    let mut fence = Fence::new();
    fence.inc_value();
    assert_eq!(
        fence.finish_wait(1, WaitOutcome::TimedOut),
        Err(DeviceLost { waited_for: 1 })
    );
    assert_eq!(fence.get_completed_value(), 0);
    assert!(!fence.is_complete(1));
}

#[test]
fn local_fence_completes_what_is_waited_for() {
    let mut fence = LocalFence::new();
    assert!(fence.is_complete(0));
    assert!(!fence.is_complete(1));
    fence.wait(5);
    assert!(fence.is_complete(5));
    assert!(!fence.is_complete(6));
    fence.wait(3);
    assert!(fence.is_complete(5));
    assert!(!fence.is_complete(6));
}

#[test]
fn local_fence_returns_the_sync_point_it_moves_to() {
    let mut fence = LocalFence::new();
    assert_eq!(fence.inc_value(), 1);
    assert_eq!(fence.inc_value(), 2);
    assert_eq!(fence.inc_value(), 3);
    assert_eq!(fence.get_completed_value(), 3);
    assert!(fence.is_complete(3));
    assert!(!fence.is_complete(4));
    fence.wait(10);
    assert_eq!(fence.inc_value(), 11);
    assert!(fence.is_complete(11));
    assert!(!fence.is_complete(12));
}

#[test]
fn fence_wait_blocks_only_where_the_work_is_not_complete() {
    let mut fence = Fence::new();
    fence.inc_value();
    fence.inc_value();
    fence.observe(1);
    let mut calls = 0;
    assert_eq!(
        fence.wait(1, |_| {
            calls += 1;
            WaitOutcome::Signaled
        }),
        Ok(false)
    );
    assert_eq!(calls, 0);
    let mut waited_for = 0;
    assert_eq!(
        fence.wait(2, |value| {
            waited_for = value;
            WaitOutcome::Signaled
        }),
        Ok(true)
    );
    assert_eq!(waited_for, 2);
    assert_eq!(fence.get_completed_value(), 2);
    assert_eq!(fence.plan_wait(2), WaitPlan::Ready);
}

#[test]
fn fence_wait_that_runs_out_of_time_loses_the_device() {
    let mut fence = Fence::new();
    fence.inc_value();
    assert_eq!(
        fence.wait(1, |_| WaitOutcome::TimedOut),
        Err(DeviceLost { waited_for: 1 })
    );
    assert_eq!(fence.get_completed_value(), 0);
    // A later wait can still succeed: the fence keeps no memory of the loss.
    assert_eq!(fence.wait(1, |_| WaitOutcome::Signaled), Ok(true));
    assert!(fence.is_complete(1));
}
