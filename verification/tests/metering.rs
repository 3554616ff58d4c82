//! Checks of instance metering.

use wasmtiny::runtime::{InstanceLimits, InstanceMeter, TrapCode, WasmError};

#[test]
fn test_set_limits_rejects_already_exceeded_execution_budget() {
    let mut meter = InstanceMeter::default();
    meter.charge_execution(5).unwrap();

    let error = meter.set_limits(InstanceLimits::new(Some(4), None), 0).unwrap_err();

    assert!(matches!(error, WasmError::Runtime(message) if message.contains("execution usage")));
}

#[test]
fn test_charge_execution_traps_when_counter_overflows_budget() {
    let mut meter = InstanceMeter::default();
    meter.set_limits(InstanceLimits::new(Some(u64::MAX), None), 0).unwrap();
    meter.charge_execution(u64::MAX).unwrap();

    let error = meter.charge_execution(1).unwrap_err();

    assert_eq!(error, WasmError::Trap(TrapCode::ExecutionBudgetExceeded));
    assert_eq!(meter.snapshot(0).executed_instructions, u64::MAX);
}

#[test]
fn test_set_limits_rejects_already_exceeded_memory_limit() {
    let mut meter = InstanceMeter::default();

    let error = meter.set_limits(InstanceLimits::new(None, Some(1)), 2).unwrap_err();

    assert!(matches!(error, WasmError::Runtime(message) if message.contains("memory usage")));
}

#[test]
fn charges_accumulate_until_the_budget() {
    let mut meter = InstanceMeter::new();
    meter.set_limits(InstanceLimits::new(Some(10), Some(3)), 1).unwrap();
    meter.charge_execution(6).unwrap();
    meter.charge_execution(4).unwrap();
    assert_eq!(
        meter.charge_execution(1),
        Err(WasmError::Trap(TrapCode::ExecutionBudgetExceeded))
    );
    let stats = meter.snapshot(2);
    assert_eq!(stats.executed_instructions, 11);
    assert_eq!(stats.memory_pages, 2);
    assert_eq!(stats.memory_bytes, 2 * 65536);
    assert!(meter.ensure_memory_pages(3).is_ok());
    assert_eq!(meter.ensure_memory_pages(4), Err(WasmError::Trap(TrapCode::MemoryLimitExceeded)));
    assert_eq!(meter.limits(), InstanceLimits::new(Some(10), Some(3)));
}
