use chatroom::metrics::DeliveryCounter;

#[test]
fn counter_starts_at_zero() {
    let c = DeliveryCounter::new();
    assert_eq!(c.count(), 0);
    assert_eq!(c.views(), "0");
}

#[test]
fn counter_counts_each_delivery_and_resets() {
    let mut c = DeliveryCounter::new();
    for _ in 0..5 {
        c.record_delivery();
    }
    assert_eq!(c.count(), 5);
    assert_eq!(c.views(), "5");
    c.reset();
    assert_eq!(c.count(), 0);
    assert_eq!(c.views(), "0");
}

#[test]
fn views_is_decimal() {
    let mut c = DeliveryCounter::new();
    for _ in 0..1234 {
        c.record_delivery();
    }
    assert_eq!(c.views(), "1234");
}
