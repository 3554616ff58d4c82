//! Checks of shared region bookkeeping.

use wasmtiny::runtime::shared_memory::region_size;
use wasmtiny::runtime::{SharedRegionId, SharedRegionTable, WasmError};

#[test]
fn region_ids_give_back_their_numbers() {
    let id = SharedRegionId::from_raw(42);
    assert_eq!(id.raw(), 42);
    assert_eq!(SharedRegionId::from_raw(7), SharedRegionId::from_raw(7));
}

#[test]
fn region_sizes_round_up_to_pages() {
    assert_eq!(region_size(1), Ok(65536));
    assert_eq!(region_size(65536), Ok(65536));
    assert_eq!(region_size(65537), Ok(131072));
    assert_eq!(
        region_size(0),
        Err(WasmError::Runtime("shared region size must be greater than zero".to_string()))
    );
}

#[test]
fn regions_are_destroyed_only_when_detached() {
    let mut table = SharedRegionTable::new();
    let a = table.register(65536, 1);
    let b = table.register(131072, 0);
    assert_eq!(a.raw(), 1);
    assert_eq!(b.raw(), 2);
    assert_eq!(table.region_len(b), Ok(131072));
    assert_eq!(
        table.destroy_region(a),
        Err(WasmError::Runtime("shared region 1 still has 1 attached mappings".to_string()))
    );
    table.detach(a).unwrap();
    table.destroy_region(a).unwrap();
    assert_eq!(
        table.region_len(a),
        Err(WasmError::Runtime("shared region 1 not found".to_string()))
    );
    table.attach(b).unwrap();
    assert_eq!(table.lookup(b).unwrap().attachments, 1);
    assert!(table.destroy_region(b).is_err());
}

#[test]
fn host_accesses_stay_inside_the_region() {
    let mut table = SharedRegionTable::default();
    let id = table.register(16, 0);
    assert!(table.check_access(id, 8, 8, true).is_ok());
    assert_eq!(
        table.check_access(id, 9, 8, true),
        Err(WasmError::Runtime("shared region write out of bounds".to_string()))
    );
    assert_eq!(
        table.check_access(id, 16, 1, false),
        Err(WasmError::Runtime("shared region read out of bounds".to_string()))
    );
    assert_eq!(
        table.check_access(SharedRegionId::from_raw(99), 0, 0, false),
        Err(WasmError::Runtime("shared region 99 not found".to_string()))
    );
}
