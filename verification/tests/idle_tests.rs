use chronograph::idle::{classify, idle_time_ms, IdleEvent, IdleMonitor, IDLE_THRESHOLD_SECS, POLL_INTERVAL_MS};

#[test]
fn idle_time_is_the_tick_difference() {
    assert_eq!(idle_time_ms(true, 10_000, 4_000), 6_000);
    assert_eq!(idle_time_ms(true, 4_000, 4_000), 0);
}

#[test]
fn idle_time_saturates_and_falls_back_to_zero() {
    assert_eq!(idle_time_ms(true, 100, 4_000), 0);
    assert_eq!(idle_time_ms(false, 10_000, 4_000), 0);
    assert_eq!(idle_time_ms(true, u32::MAX, 0), u32::MAX as u64);
}

#[test]
fn threshold_is_one_minute() {
    assert_eq!(IDLE_THRESHOLD_SECS, 60);
    assert_eq!(POLL_INTERVAL_MS, 5_000);
    assert_eq!(classify(59_999), IdleEvent::Active);
    assert_eq!(classify(60_000), IdleEvent::Idle);
    assert_eq!(classify(0), IdleEvent::Active);
    assert_eq!(classify(u64::MAX), IdleEvent::Idle);
}

#[test]
fn monitor_reports_only_changes() {
    let mut m = IdleMonitor::new();
    assert_eq!(m.last_state, IdleEvent::Active);
    assert_eq!(m.observe(1_000), None);
    assert_eq!(m.observe(70_000), Some(IdleEvent::Idle));
    assert_eq!(m.observe(80_000), None);
    assert_eq!(m.observe(90_000), None);
    assert_eq!(m.observe(10), Some(IdleEvent::Active));
    assert_eq!(m.observe(20), None);
    assert_eq!(m.last_state, IdleEvent::Active);
}

#[test]
fn reports_alternate() {
    let mut m = IdleMonitor::new();
    let readings = [0u64, 61_000, 62_000, 5, 6, 120_000, 0, 59_999, 60_000];
    let mut last: Option<IdleEvent> = None;
    let mut first = true;
    for r in readings {
        if let Some(e) = m.observe(r) {
            if first {
                assert_eq!(e, IdleEvent::Idle);
                first = false;
            }
            assert_ne!(Some(e), last);
            last = Some(e);
        }
    }
}
