//! Checks of the code cache.

use wasmtiny::jit::JitCodeCache;


#[test]
fn test_runtime_creation() {
    let runtime = JitCodeCache::new();
    assert!(runtime.get_compiled(0).is_none());
}

#[test]
fn test_osr_configuration() {
    let mut cache = JitCodeCache::new();
    assert!(!cache.is_osr_enabled());
    assert_eq!(cache.get_osr_threshold(), 1000);

    cache.enable_osr();
    assert!(cache.is_osr_enabled());

    cache.set_osr_threshold(500);
    assert_eq!(cache.get_osr_threshold(), 500);

    cache.disable_osr();
    assert!(!cache.is_osr_enabled());
}

#[test]
fn test_osr_entry_points() {
    let mut cache = JitCodeCache::new();
    cache.add_osr_entry_point(1, 100, 0x1000);
    cache.add_osr_entry_point(1, 200, 0x2000);

    let entries = cache.get_osr_entry_points(1);
    assert!(entries.is_some());
    assert_eq!(entries.unwrap().len(), 2);

    assert!(cache.get_osr_entry_points(999).is_none());
}
