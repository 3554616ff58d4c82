//! Checks of the linear-scan register allocator.

use wasmtiny::jit::LinearScanAllocator;


#[test]
fn test_allocator_creation() {
    let alloc = LinearScanAllocator::new();
    assert_eq!(alloc.spill_slot_count(), 0);
}

#[test]
fn test_create_interval() {
    let mut alloc = LinearScanAllocator::new();
    alloc.create_interval(1, 0);
    let interval = alloc.get_interval(1);
    assert!(interval.is_some());
    assert_eq!(interval.unwrap().value_id, 1);
}

#[test]
fn test_allocate_register() {
    let mut alloc = LinearScanAllocator::new();
    let reg = alloc.allocate_register();
    assert!(reg.is_some());
}

#[test]
fn test_spill_slot_allocation() {
    let mut alloc = LinearScanAllocator::new();
    let slot1 = alloc.allocate_spill_slot();
    let slot2 = alloc.allocate_spill_slot();
    assert_eq!(slot1, 0);
    assert_eq!(slot2, 1);
}

#[test]
fn test_spill_slot_offset() {
    assert_eq!(LinearScanAllocator::spill_slot_offset(0), -8);
    assert_eq!(LinearScanAllocator::spill_slot_offset(1), -16);
}

#[test]
fn test_linear_scan_alloc() {
    let mut alloc = LinearScanAllocator::new();
    alloc.create_interval(1, 0);
    alloc.create_interval(2, 5);
    alloc.create_interval(3, 10);

    alloc.update_interval_end(1, 20);
    alloc.update_interval_end(2, 15);
    alloc.update_interval_end(3, 25);

    alloc.allocate();

    for i in 1..=3 {
        let loc = alloc.get_location(i);
        assert!(loc.is_some());
    }
}
