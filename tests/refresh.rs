use ruin::battery::{Battery, BatteryStatus};
use ruin::refresh::{poll_interval_secs, render_indices, ChangeDetector, DEFAULT_POLL_SECS};

fn reading(capacity: u8, status: BatteryStatus) -> Battery {
    Battery { capacity, status }
}

#[test]
fn renders_once_per_change() {
    let s0 = reading(80, BatteryStatus::NotCharging);
    let s1 = reading(80, BatteryStatus::Charging);
    assert_eq!(render_indices(&vec![s0, s0, s1, s1, s1, s0]), vec![0, 2, 5]);
}

#[test]
fn first_poll_equal_to_initial_reading_does_not_render() {
    let empty = reading(0, BatteryStatus::NotCharging);
    let other = reading(1, BatteryStatus::NotCharging);
    assert_eq!(render_indices(&vec![empty, empty, other]), vec![2]);
    assert_eq!(render_indices(&Vec::new()), Vec::<usize>::new());
}

#[test]
fn observe_tracks_previous_reading() {
    let mut d = ChangeDetector::new();
    assert_eq!(d.previous, Battery::sentinel());
    let a = reading(55, BatteryStatus::Charging);
    assert!(d.observe(a));
    assert_eq!(d.previous, a);
    assert!(!d.observe(a));
    let b = reading(56, BatteryStatus::Charging);
    assert!(d.observe(b));
    assert_eq!(d.previous, b);
}

#[test]
fn poll_interval_defaults_to_five_seconds() {
    assert_eq!(DEFAULT_POLL_SECS, 5);
    assert_eq!(poll_interval_secs(None), 5);
    assert_eq!(poll_interval_secs(Some(12)), 12);
}
