use lansync::persistence::{DeviceRegistry, PairedDevice, PairedDeviceStatus};

fn create_test_device(id: &str) -> PairedDevice {
    PairedDevice {
        id: id.to_string(),
        name: format!("Device {}", id),
        token: format!("token-{}", id),
        paired_at: "2024-01-07T12:00:00+00:00".to_string(),
        last_sync_at: None,
        status: PairedDeviceStatus::Active,
    }
}

#[test]
fn test_empty_load() {
    let registry = DeviceRegistry::new();
    let devices = registry.load();
    assert!(devices.is_empty());
}

#[test]
fn test_add_and_load() {
    let mut registry = DeviceRegistry::new();

    let device = create_test_device("test-1");
    registry.add_device(device);

    let devices = registry.load();
    assert_eq!(devices.len(), 1);
    assert_eq!(devices[0].id, "test-1");
    assert_eq!(devices[0].name, "Device test-1");
}

#[test]
fn test_update_device() {
    let mut registry = DeviceRegistry::new();

    let mut device = create_test_device("test-1");
    registry.add_device(create_test_device("test-1"));

    device.name = "Updated Name".to_string();
    registry.add_device(device);

    let devices = registry.load();
    assert_eq!(devices.len(), 1);
    assert_eq!(devices[0].name, "Updated Name");
}

#[test]
fn test_revoke_device() {
    let mut registry = DeviceRegistry::new();

    registry.add_device(create_test_device("test-1"));

    let revoked = registry.revoke_device("test-1");
    assert!(revoked);

    let devices = registry.load();
    assert_eq!(devices[0].status, PairedDeviceStatus::Revoked);

    let active = registry.get_active_devices();
    assert!(active.is_empty());
}

#[test]
fn test_remove_device() {
    let mut registry = DeviceRegistry::new();

    registry.add_device(create_test_device("test-1"));

    let removed = registry.remove_device("test-1");
    assert!(removed);

    let devices = registry.load();
    assert!(devices.is_empty());

    assert!(!registry.remove_device("test-1"));
}

#[test]
fn test_validate_token() {
    let mut registry = DeviceRegistry::new();

    registry.add_device(create_test_device("test-1"));

    assert!(registry.validate_token("test-1", "token-test-1"));
    assert!(!registry.validate_token("test-1", "wrong-token"));
    assert!(!registry.validate_token("wrong-id", "token-test-1"));
}

#[test]
fn test_revoked_device_token_invalid() {
    // Revoking makes every token check for the device fail, even with the
    // correct token; removing drops the device from loads entirely.
    let mut registry = DeviceRegistry::new();
    registry.add_device(create_test_device("test-1"));
    registry.add_device(create_test_device("test-2"));

    assert!(registry.validate_token("test-1", "token-test-1"));
    assert!(registry.revoke_device("test-1"));
    assert!(!registry.validate_token("test-1", "token-test-1"));
    assert!(!registry.validate_token("test-1", "wrong-token"));
    // The other device is untouched.
    assert!(registry.validate_token("test-2", "token-test-2"));

    assert!(registry.remove_device("test-2"));
    let remaining = registry.load();
    assert_eq!(remaining.len(), 1);
    assert_eq!(remaining[0].id, "test-1");
}

#[test]
fn test_revoke_missing_device() {
    let mut registry = DeviceRegistry::new();
    assert!(!registry.revoke_device("nobody"));
}

#[test]
fn test_update_last_sync() {
    let mut registry = DeviceRegistry::new();
    registry.add_device(create_test_device("test-1"));

    let found = registry.update_last_sync("test-1", 1704628920);
    assert!(found);
    let devices = registry.load();
    assert_eq!(
        devices[0].last_sync_at.as_deref(),
        Some("2024-01-07T12:02:00+00:00")
    );

    assert!(!registry.update_last_sync("nobody", 1704628920));
}

#[test]
fn test_get_device() {
    let mut registry = DeviceRegistry::new();
    registry.add_device(create_test_device("test-1"));
    let found = registry.get_device("test-1").unwrap();
    assert_eq!(found.token, "token-test-1");
    assert!(registry.get_device("other").is_none());
}
