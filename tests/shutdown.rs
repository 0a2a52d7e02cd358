use vector::shutdown::{ShutdownSignal, Tripwire};

#[test]
fn signal_starts_unfired() {
    let s = ShutdownSignal::new();
    assert!(!s.is_fired());
    assert_eq!(s.fired_at(), None);
}

#[test]
fn firing_twice_is_firing_once() {
    let mut once = ShutdownSignal::new();
    once.fire(1_000);
    let mut twice = ShutdownSignal::new();
    twice.fire(1_000);
    twice.fire(5_000);
    assert!(twice.is_fired());
    assert_eq!(once.fired_at(), Some(1_000));
    assert_eq!(twice.fired_at(), Some(1_000));
    let t = Tripwire::new(30);
    assert_eq!(t.deadline(&once), t.deadline(&twice));
}

#[test]
fn tripwire_deadline_and_elapse() {
    let t = Tripwire::new(30);
    let mut s = ShutdownSignal::new();
    assert_eq!(t.deadline(&s), None);
    assert!(!t.elapsed(&s, u64::MAX));
    s.fire(2_000);
    assert_eq!(t.deadline(&s), Some(32_000));
    assert!(!t.elapsed(&s, 31_999));
    assert!(t.elapsed(&s, 32_000));
}

#[test]
fn tripwire_deadline_saturates() {
    let mut s = ShutdownSignal::new();
    s.fire(u64::MAX - 10);
    assert_eq!(Tripwire::new(1).deadline(&s), Some(u64::MAX));
    assert_eq!(Tripwire::new(u64::MAX).deadline(&s), Some(u64::MAX));
    let mut z = ShutdownSignal::new();
    z.fire(7);
    assert_eq!(Tripwire::new(0).deadline(&z), Some(7));
}
