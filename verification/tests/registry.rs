use droppa::device::DeviceClass;
use droppa::registry::{TransferRecord, TransferRegistry, UpdateOutcome};

#[test]
fn a_fresh_record_has_no_progress() {
    let mut registry = TransferRegistry::new();
    assert_eq!(registry.len(), 0);
    assert_eq!(registry.lookup("a.bin"), None);
    let receiver = registry.register("a.bin".to_string(), DeviceClass::Mobile);
    assert_eq!(*receiver.borrow(), 0);
    assert_eq!(registry.len(), 1);
    assert_eq!(
        registry.lookup("a.bin"),
        Some(TransferRecord { total_size: 0, progress: 0, device_class: DeviceClass::Mobile })
    );
    assert_eq!(registry.lookup("b.bin"), None);
}

#[test]
fn an_update_is_stored_and_shown() {
    let mut registry = TransferRegistry::new();
    let receiver = registry.register("a.bin".to_string(), DeviceClass::Desktop);
    let outcome = registry.update("a.bin", 512, 2048);
    assert_eq!(outcome, UpdateOutcome::Stored { progress: 25, delivered: true });
    assert_eq!(*receiver.borrow(), 25);
    assert_eq!(
        registry.lookup("a.bin"),
        Some(TransferRecord { total_size: 2048, progress: 25, device_class: DeviceClass::Desktop })
    );
    let outcome = registry.update("a.bin", 4096, 2048);
    assert_eq!(outcome, UpdateOutcome::Stored { progress: 100, delivered: true });
    assert_eq!(*receiver.borrow(), 100);
}

#[test]
fn an_update_without_subscriber_is_stored_only() {
    let mut registry = TransferRegistry::new();
    let receiver = registry.register("a.bin".to_string(), DeviceClass::Desktop);
    drop(receiver);
    let outcome = registry.update("a.bin", 1, 2);
    assert_eq!(outcome, UpdateOutcome::Stored { progress: 50, delivered: false });
    assert_eq!(registry.lookup("a.bin").map(|r| r.progress), Some(50));
}

#[test]
fn an_update_of_a_missing_key_changes_nothing() {
    let mut registry = TransferRegistry::new();
    let receiver = registry.register("a.bin".to_string(), DeviceClass::Mobile);
    assert_eq!(registry.update("b.bin", 1, 2), UpdateOutcome::Missing);
    assert_eq!(registry.len(), 1);
    assert_eq!(*receiver.borrow(), 0);
    assert_eq!(registry.lookup("a.bin").map(|r| r.progress), Some(0));
}

#[test]
fn transfers_do_not_touch_each_other() {
    let mut registry = TransferRegistry::new();
    let first = registry.register("one".to_string(), DeviceClass::Mobile);
    let second = registry.register("two".to_string(), DeviceClass::Mobile);
    let third = registry.register("three".to_string(), DeviceClass::Desktop);
    for step in 1..=20usize {
        registry.update("one", step * 5, 100);
        assert_eq!(*first.borrow() as usize, step * 5);
        assert_eq!(*second.borrow(), 0);
        assert_eq!(*third.borrow(), 0);
    }
    registry.update("two", 30, 60);
    registry.update("three", 60, 60);
    assert_eq!(*first.borrow(), 100);
    assert_eq!(*second.borrow(), 50);
    assert_eq!(*third.borrow(), 100);
    assert_eq!(registry.lookup("one").map(|r| (r.total_size, r.progress)), Some((100, 100)));
    assert_eq!(registry.lookup("two").map(|r| (r.total_size, r.progress)), Some((60, 50)));
    assert_eq!(registry.lookup("three").map(|r| (r.total_size, r.progress)), Some((60, 100)));
}

#[test]
fn a_snapshot_lists_one_class_in_order() {
    let mut registry = TransferRegistry::new();
    let _a = registry.register("a".to_string(), DeviceClass::Mobile);
    let _b = registry.register("b".to_string(), DeviceClass::Desktop);
    let _c = registry.register("c".to_string(), DeviceClass::Mobile);
    registry.update("a", 1, 4);
    registry.update("c", 3, 4);
    registry.update("b", 2, 4);
    let mobile = registry.snapshot(DeviceClass::Mobile);
    assert_eq!(mobile.len(), 2);
    assert_eq!((mobile[0].name.as_str(), mobile[0].size, mobile[0].progress), ("a", 4, 25));
    assert_eq!((mobile[1].name.as_str(), mobile[1].size, mobile[1].progress), ("c", 4, 75));
    let desktop = registry.snapshot(DeviceClass::Desktop);
    assert_eq!(desktop.len(), 1);
    assert_eq!((desktop[0].name.as_str(), desktop[0].size, desktop[0].progress), ("b", 4, 50));
    assert_eq!(TransferRegistry::new().snapshot(DeviceClass::Mobile).len(), 0);
}

#[test]
fn registering_again_starts_over() {
    let mut registry = TransferRegistry::new();
    let old = registry.register("a".to_string(), DeviceClass::Mobile);
    let _b = registry.register("b".to_string(), DeviceClass::Mobile);
    registry.update("a", 1, 2);
    let new = registry.register("a".to_string(), DeviceClass::Desktop);
    assert_eq!(registry.len(), 2);
    assert_eq!(
        registry.lookup("a"),
        Some(TransferRecord { total_size: 0, progress: 0, device_class: DeviceClass::Desktop })
    );
    registry.update("a", 2, 2);
    assert_eq!(*old.borrow(), 50);
    assert_eq!(*new.borrow(), 100);
    let mobile = registry.snapshot(DeviceClass::Mobile);
    assert_eq!(mobile.len(), 1);
    assert_eq!(mobile[0].name, "b");
}

#[test]
fn a_removed_record_is_gone() {
    let mut registry = TransferRegistry::new();
    let _a = registry.register("a".to_string(), DeviceClass::Mobile);
    let _b = registry.register("b".to_string(), DeviceClass::Mobile);
    let c = registry.register("c".to_string(), DeviceClass::Mobile);
    assert!(!registry.remove("x"));
    assert!(registry.remove("a"));
    assert!(!registry.remove("a"));
    assert_eq!(registry.len(), 2);
    assert_eq!(registry.lookup("a"), None);
    assert_eq!(registry.update("a", 1, 1), UpdateOutcome::Missing);
    assert_eq!(registry.update("c", 1, 2), UpdateOutcome::Stored { progress: 50, delivered: true });
    assert_eq!(*c.borrow(), 50);
    let names: Vec<String> =
        registry.snapshot(DeviceClass::Mobile).into_iter().map(|line| line.name).collect();
    assert_eq!(names, vec!["c".to_string(), "b".to_string()]);
    assert!(registry.remove("b"));
    assert!(registry.remove("c"));
    assert_eq!(registry.len(), 0);
    let again = registry.register("a".to_string(), DeviceClass::Desktop);
    assert_eq!(registry.update("a", 1, 1), UpdateOutcome::Stored { progress: 100, delivered: true });
    assert_eq!(*again.borrow(), 100);
}
