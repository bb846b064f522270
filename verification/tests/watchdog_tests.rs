use obscura_js::cdp_watchdog::{arm, disarm, watchdog_step, WatchdogBoard, WatchdogWait};
use obscura_js::interrupt::InterruptHandle;

#[test]
fn fires_only_at_the_deadline() {
    let mut board = WatchdogBoard::new();
    let handle = InterruptHandle::new();
    let s0 = watchdog_step(&mut board, 0);
    assert_eq!(s0.wait, WatchdogWait::Indefinitely);
    assert!(s0.interrupt.is_none());
    let armed = arm(&mut board, handle.clone(), 100, 50);
    assert_eq!(board.gen, 1);
    let s1 = watchdog_step(&mut board, 120);
    assert_eq!(s1.wait, WatchdogWait::For(30));
    assert!(s1.interrupt.is_none());
    let s2 = watchdog_step(&mut board, 150);
    assert_eq!(s2.wait, WatchdogWait::Indefinitely);
    let fired_handle = s2.interrupt.expect("the step names the handle to interrupt");
    assert!(!handle.is_stopped());
    fired_handle.set_should_stop(true);
    assert!(handle.is_stopped());
    assert!(board.slot.is_none());
    assert_eq!(board.fired, vec![1]);
    assert!(disarm(&mut board, armed));
    assert!(board.fired.is_empty());
    handle.clear();
    assert!(!handle.is_stopped());
}

#[test]
fn disarm_before_deadline() {
    let mut board = WatchdogBoard::new();
    let handle = InterruptHandle::new();
    let armed = arm(&mut board, handle.clone(), 0, 1000);
    assert!(!disarm(&mut board, armed));
    assert!(board.slot.is_none());
    let s = watchdog_step(&mut board, 5000);
    assert_eq!(s.wait, WatchdogWait::Indefinitely);
    assert!(s.interrupt.is_none());
    assert!(!handle.is_stopped());
}

#[test]
fn stale_receipt_leaves_newer_slot() {
    let mut board = WatchdogBoard::new();
    let first = arm(&mut board, InterruptHandle::new(), 0, 10);
    let _second = arm(&mut board, InterruptHandle::new(), 0, 20);
    assert_eq!(board.gen, 2);
    assert!(!disarm(&mut board, first));
    assert_eq!(board.slot.as_ref().map(|s| s.gen), Some(2));
    let s = watchdog_step(&mut board, 20);
    assert!(s.interrupt.is_some());
    assert!(disarm(&mut board, _second));
}

#[test]
fn interrupt_handle_flag() {
    let h = InterruptHandle::new();
    assert!(!h.is_stopped());
    h.set_should_stop(true);
    assert!(h.clone().is_stopped());
    h.clear();
    assert!(!h.is_stopped());
}
