//! Transport discovery tests: advertisement deduplication, disconnect
//! rediscovery, and the communication manager's scanning lifecycle.

use buttplug::adapter_task::{
    AdapterAction, BtleplugAdapterCommand, BtleplugAdapterTask, PeripheralInfo,
};
use buttplug::comm_manager::{BtlePlugCommunicationManager, CentralDeviceEvent};
use buttplug::errors::{ButtplugDeviceError, ButtplugError};

fn advertisement(id: u64, name: &str) -> PeripheralInfo {
    PeripheralInfo {
        name: Some(String::from(name)),
        peripheral_id: id,
        services: Vec::new(),
    }
}

#[test]
fn test_adapter_task_deduplicates_advertisements() {
    let mut task = BtleplugAdapterTask::new();
    let info = advertisement(42, "Krush");
    // The first advertisement of an identity is announced.
    let event = task.maybe_add_peripheral(&info).expect("first sighting announces");
    assert_eq!(event.address, 42);
    assert_eq!(event.name, "Krush");
    // A second advertisement of the same identity announces nothing.
    assert!(task.maybe_add_peripheral(&info).is_none());
    // After a disconnect event for that peripheral, a fresh
    // advertisement announces again.
    task.on_device_disconnected(42);
    assert!(task.maybe_add_peripheral(&info).is_some());
}

#[test]
fn test_adapter_task_ignores_unobservable_devices() {
    let mut task = BtleplugAdapterTask::new();
    let nameless = PeripheralInfo {
        name: None,
        peripheral_id: 7,
        services: Vec::new(),
    };
    assert!(task.maybe_add_peripheral(&nameless).is_none());
    let empty_name = PeripheralInfo {
        name: Some(String::new()),
        peripheral_id: 7,
        services: Vec::new(),
    };
    assert!(task.maybe_add_peripheral(&empty_name).is_none());
    // A bare service id is an observable identity even without a name.
    let service_only = PeripheralInfo {
        name: None,
        peripheral_id: 7,
        services: vec![0x1234u128],
    };
    let event = task.maybe_add_peripheral(&service_only).expect("services suffice");
    assert_eq!(event.name, "");
}

#[test]
fn test_adapter_task_distinguishes_identities() {
    let mut task = BtleplugAdapterTask::new();
    assert!(task.maybe_add_peripheral(&advertisement(1, "Krush")).is_some());
    // A different name on the same peripheral id is a new identity, as
    // happens when a name arrives in a later advertisement packet.
    assert!(task.maybe_add_peripheral(&advertisement(1, "Krush Pro")).is_some());
    assert!(task.maybe_add_peripheral(&advertisement(2, "Krush")).is_some());
}

#[test]
fn test_adapter_task_start_scanning_resets_session() {
    let mut task = BtleplugAdapterTask::new();
    let info = advertisement(42, "Krush");
    assert!(task.maybe_add_peripheral(&info).is_some());
    assert!(task.maybe_add_peripheral(&info).is_none());
    // A stop command leaves the session set alone.
    assert_eq!(
        task.handle_command(BtleplugAdapterCommand::StopScanning),
        AdapterAction::StopScan
    );
    assert!(task.maybe_add_peripheral(&info).is_none());
    // A start command opens a fresh session: everything can be
    // rediscovered.
    assert_eq!(
        task.handle_command(BtleplugAdapterCommand::StartScanning),
        AdapterAction::StartScan
    );
    assert!(task.maybe_add_peripheral(&info).is_some());
}

#[test]
fn test_comm_manager_requires_adapter() {
    let mut manager = BtlePlugCommunicationManager::new(false);
    assert_eq!(
        manager.start_scanning().unwrap_err(),
        ButtplugError::ButtplugDeviceError(ButtplugDeviceError::UnhandledCommand)
    );
    assert!(!manager.scanning_status());
}

#[test]
fn test_comm_manager_scan_permission_error() {
    let mut manager = BtlePlugCommunicationManager::new(true);
    manager.start_scanning().unwrap();
    // The adapter refused the scan: a permission error, no session.
    assert_eq!(
        manager.handle_scan_start_result(false).unwrap_err(),
        ButtplugError::ButtplugDeviceError(ButtplugDeviceError::DevicePermissionError)
    );
    assert!(!manager.scanning_status());
}

#[test]
fn test_comm_manager_scanning_lifecycle() {
    let mut manager = BtlePlugCommunicationManager::new(true);
    assert_eq!(manager.name(), "BtlePlugCommunicationManager");
    // Stop without a running scan is an error.
    assert_eq!(
        manager.stop_scanning().unwrap_err(),
        ButtplugError::ButtplugDeviceError(ButtplugDeviceError::DeviceScanningAlreadyStopped)
    );
    manager.start_scanning().unwrap();
    // The adapter accepted the scan: the session is live.
    manager.handle_scan_start_result(true).unwrap();
    assert!(manager.scanning_status());
    manager.stop_scanning().unwrap();
    assert!(!manager.scanning_status());
}

#[test]
fn test_comm_manager_deduplicates_and_rediscovers() {
    let mut manager = BtlePlugCommunicationManager::new(true);
    manager.start_scanning().unwrap();
    manager.handle_scan_start_result(true).unwrap();
    let name = String::from("Krush");
    // Two consecutive advertisements of one address yield one event.
    let found = manager
        .handle_discovered_peripheral(42, Some(&name))
        .expect("first sighting announces");
    assert_eq!(found.address, 42);
    assert_eq!(found.name, "Krush");
    assert!(manager.handle_discovered_peripheral(42, Some(&name)).is_none());
    // A disconnect event re-enables discovery of that address.
    manager.handle_central_event(CentralDeviceEvent::DeviceDisconnected(42));
    assert!(manager.handle_discovered_peripheral(42, Some(&name)).is_some());
}

#[test]
fn test_comm_manager_skips_connected_and_nameless() {
    let mut manager = BtlePlugCommunicationManager::new(true);
    manager.start_scanning().unwrap();
    manager.handle_scan_start_result(true).unwrap();
    let name = String::from("Krush");
    // A device already connected is not offered again.
    manager.handle_central_event(CentralDeviceEvent::DeviceConnected(42));
    assert!(manager.handle_discovered_peripheral(42, Some(&name)).is_none());
    // Without a name there is nothing to match against.
    assert!(manager.handle_discovered_peripheral(43, None).is_none());
    let empty = String::new();
    assert!(manager.handle_discovered_peripheral(43, Some(&empty)).is_none());
    // Outside a scanning session nothing is offered.
    manager.stop_scanning().unwrap();
    assert!(manager.handle_discovered_peripheral(44, Some(&name)).is_none());
}

#[test]
fn test_comm_manager_finish_scan_clears_session() {
    let mut manager = BtlePlugCommunicationManager::new(true);
    manager.start_scanning().unwrap();
    manager.handle_scan_start_result(true).unwrap();
    let name = String::from("Krush");
    assert!(manager.handle_discovered_peripheral(42, Some(&name)).is_some());
    manager.stop_scanning().unwrap();
    manager.finish_scan();
    // The next scanning session rediscovers everything.
    manager.start_scanning().unwrap();
    manager.handle_scan_start_result(true).unwrap();
    assert!(manager.handle_discovered_peripheral(42, Some(&name)).is_some());
}
