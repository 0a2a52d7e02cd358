use vector::sink::{BoundedSink, Forwarder};

#[test]
fn full_sink_suspends_instead_of_dropping() {
    let mut sink: BoundedSink<u32> = BoundedSink::new(1);
    let mut fwd = Forwarder::new();
    assert!(fwd.can_read());
    fwd.hold(1);
    assert!(!fwd.can_read());
    assert!(fwd.flush(&mut sink));
    assert!(fwd.can_read());
    fwd.hold(2);
    for _ in 0..10 {
        assert!(!fwd.flush(&mut sink));
        assert!(!fwd.can_read());
        assert_eq!(fwd.pending, Some(2));
        assert_eq!(sink.len(), 1);
    }
    assert_eq!(sink.recv(), Some(1));
    assert!(fwd.flush(&mut sink));
    assert_eq!(sink.recv(), Some(2));
    assert_eq!(sink.recv(), None);
}

#[test]
fn sink_try_send_and_order() {
    let mut sink: BoundedSink<u32> = BoundedSink::new(2);
    assert_eq!(sink.capacity(), 2);
    assert_eq!(sink.try_send(7), Ok(()));
    assert_eq!(sink.try_send(8), Ok(()));
    assert!(sink.is_full());
    assert_eq!(sink.try_send(9), Err(9));
    assert_eq!(sink.recv(), Some(7));
    assert_eq!(sink.recv(), Some(8));
    assert!(!sink.is_full());
}

#[test]
fn zero_capacity_sink_takes_nothing() {
    let mut sink: BoundedSink<u32> = BoundedSink::new(0);
    assert_eq!(sink.try_send(1), Err(1));
    let mut fwd = Forwarder::new();
    fwd.hold(3);
    assert!(!fwd.flush(&mut sink));
    assert_eq!(fwd.pending, Some(3));
}
