use chip8::{Actions, Scheduler};

#[test]
fn nothing_before_intervals_pass() {
    let mut s = Scheduler::new(1_000);
    assert_eq!(s.tick(2_999), Actions { step: false, draw: false });
    assert_eq!(s.last_step, 1_000);
}

#[test]
fn step_after_step_interval() {
    let mut s = Scheduler::new(0);
    assert_eq!(s.tick(2_000), Actions { step: true, draw: false });
    assert_eq!(s.last_step, 2_000);
    assert_eq!(s.tick(3_000), Actions { step: false, draw: false });
    assert_eq!(s.tick(16_000), Actions { step: true, draw: true });
    assert_eq!(s.last_frame, 16_000);
}

#[test]
fn failed_step_halts_stepping_only() {
    let mut s = Scheduler::new(0);
    assert!(s.tick(5_000).step);
    s.step_done(false);
    assert!(s.halted);
    assert_eq!(s.tick(40_000), Actions { step: false, draw: true });
    s.step_done(true);
    assert!(s.halted);
}

#[test]
fn clock_going_back_does_nothing() {
    let mut s = Scheduler::new(50_000);
    assert_eq!(s.tick(10), Actions { step: false, draw: false });
}
