use droppa::device::DeviceClass;
use droppa::pump::{
    aggregate_payload, aggregate_step, aggregate_tick, drain, packaging_step, packaging_tick,
    pause_after, DirtySignal, ACTIVE_PAUSE_MS, IDLE_PAUSE_MS, SIGNAL_CAPACITY,
};
use droppa::registry::TransferRegistry;

#[test]
fn pauses_are_short_after_work_and_longer_when_idle() {
    assert_eq!(ACTIVE_PAUSE_MS, 100);
    assert_eq!(IDLE_PAUSE_MS, 150);
    assert_eq!(pause_after(true), 100);
    assert_eq!(pause_after(false), 150);
}

#[test]
fn an_absent_signal_drops_wake_ups() {
    let signal: DirtySignal<()> = DirtySignal::new();
    assert!(!signal.is_installed());
    assert!(!signal.raise(()));
}

#[test]
fn a_signal_holds_a_bounded_number_of_wake_ups() {
    let mut signal: DirtySignal<u8> = DirtySignal::new();
    let mut receiver = signal.install();
    assert!(signal.is_installed());
    assert_eq!(SIGNAL_CAPACITY, 8);
    for value in 0..8u8 {
        assert!(signal.raise(value));
    }
    assert!(!signal.raise(8));
    assert_eq!(drain(&mut receiver), Some(7));
    assert_eq!(drain(&mut receiver), None);
    assert!(signal.raise(9));
    assert_eq!(drain(&mut receiver), Some(9));
}

#[test]
fn a_signal_without_listener_drops_wake_ups() {
    let mut signal: DirtySignal<()> = DirtySignal::new();
    let receiver = signal.install();
    drop(receiver);
    assert!(!signal.raise(()));
}

#[test]
fn installing_again_replaces_the_signal() {
    let mut signal: DirtySignal<u8> = DirtySignal::new();
    let mut old = signal.install();
    let mut new = signal.install();
    assert!(signal.raise(3));
    assert_eq!(drain(&mut old), None);
    assert_eq!(drain(&mut new), Some(3));
}

#[test]
fn an_aggregate_pump_reports_the_other_class() {
    let mut registry = TransferRegistry::new();
    let _a = registry.register("a.txt".to_string(), DeviceClass::Mobile);
    let _b = registry.register("b.txt".to_string(), DeviceClass::Desktop);
    registry.update("a.txt", 1, 4);
    registry.update("b.txt", 4, 4);
    assert_eq!(
        aggregate_payload(&registry, DeviceClass::Desktop),
        "[{\"size\":4,\"name\":\"a.txt\",\"progress\":25}]"
    );
    assert_eq!(
        aggregate_payload(&registry, DeviceClass::Mobile),
        "[{\"size\":4,\"name\":\"b.txt\",\"progress\":100}]"
    );
    let idle = aggregate_step(false, &registry, DeviceClass::Mobile);
    assert_eq!(idle.payload, None);
    assert_eq!(idle.pause_ms, 150);
    let busy = aggregate_step(true, &registry, DeviceClass::Mobile);
    assert_eq!(
        busy.payload.as_deref(),
        Some("[{\"size\":4,\"name\":\"b.txt\",\"progress\":100}]")
    );
    assert_eq!(busy.pause_ms, 100);
}

#[test]
fn an_aggregate_tick_publishes_only_when_woken() {
    let mut registry = TransferRegistry::new();
    let _a = registry.register("a".to_string(), DeviceClass::Mobile);
    let mut signal: DirtySignal<()> = DirtySignal::new();
    let mut receiver = signal.install();
    let step = aggregate_tick(&mut receiver, &registry, DeviceClass::Desktop);
    assert_eq!(step.payload, None);
    assert_eq!(step.pause_ms, 150);
    assert!(signal.raise(()));
    assert!(signal.raise(()));
    registry.update("a", 1, 2);
    let step = aggregate_tick(&mut receiver, &registry, DeviceClass::Desktop);
    assert_eq!(step.payload.as_deref(), Some("[{\"size\":2,\"name\":\"a\",\"progress\":50}]"));
    assert_eq!(step.pause_ms, 100);
    let step = aggregate_tick(&mut receiver, &registry, DeviceClass::Desktop);
    assert_eq!(step.payload, None);
    let step = aggregate_tick(&mut receiver, &registry, DeviceClass::Mobile);
    assert_eq!(step.payload, None);
}

#[test]
fn a_packaging_tick_publishes_the_latest_progress() {
    let mut signal: DirtySignal<u8> = DirtySignal::new();
    let mut receiver = signal.install();
    let step = packaging_tick(&mut receiver);
    assert_eq!(step.payload, None);
    assert_eq!(step.pause_ms, 150);
    signal.raise(5);
    signal.raise(10);
    let step = packaging_tick(&mut receiver);
    assert_eq!(step.payload.as_deref(), Some("{ \"progress\": 10 }"));
    assert_eq!(step.pause_ms, 100);
    let step = packaging_step(Some(100));
    assert_eq!(step.payload.as_deref(), Some("{ \"progress\": 100 }"));
    let step = packaging_step(None);
    assert_eq!(step.payload, None);
    assert_eq!(step.pause_ms, 150);
}

#[test]
fn a_handle_raises_the_same_signal() {
    let mut signal: DirtySignal<u8> = DirtySignal::new();
    assert!(!signal.handle().is_installed());
    let mut receiver = signal.install();
    let handle = signal.handle();
    assert!(handle.is_installed());
    assert!(handle.raise(42));
    assert_eq!(drain(&mut receiver), Some(42));
}
