//! Configuration tests: resolution precedence, catalog loading and
//! version checks, user overlays and policy lists.

use buttplug::configuration::{
    BluetoothLESpecifier, DeviceConfigurationManager, DeviceMessageAttributes,
    ProtocolDeviceAttributes, ProtocolDeviceConfiguration, ProtocolDeviceSpecifier,
};
use buttplug::device_configuration::{
    add_user_configs_to_protocol, create_test_dcm, get_internal_config_version,
    internal_device_configuration, load_protocol_config_from_json,
    load_protocol_configs_from_json, DeviceUserConfig, ExternalDeviceConfiguration,
    ProtocolConfiguration, UserConfigDefinition, INTERNAL_CONFIG_VERSION,
};
use buttplug::errors::{ButtplugDeviceError, ButtplugError, ButtplugServerError};
use buttplug::messages::ButtplugDeviceMessageType;

fn named_profile(name: &str, steps: Vec<u32>) -> ProtocolDeviceAttributes {
    let count = steps.len() as u32;
    ProtocolDeviceAttributes::new(
        Some(String::from(name)),
        None,
        vec![(
            ButtplugDeviceMessageType::VibrateCmd,
            DeviceMessageAttributes::new(count, steps),
        )],
        None,
    )
}

#[test]
fn test_resolution_precedence_address_over_identifier() {
    // One protocol with a default, an identifier profile, and an
    // address override for the same identity.
    let config = ProtocolDeviceConfiguration::new(
        Vec::new(),
        Some(named_profile("default", vec![10])),
        vec![(String::from("MODEL-1"), named_profile("identifier", vec![20]))],
        vec![(String::from("aa:bb"), named_profile("address", vec![30]))],
    );
    let resolved = config
        .create(&String::from("aa:bb"), &String::from("MODEL-1"))
        .unwrap();
    assert_eq!(resolved.name, Some(String::from("address")));
    // Without an address entry, the identifier profile wins over the
    // default.
    let resolved = config
        .create(&String::from("cc:dd"), &String::from("MODEL-1"))
        .unwrap();
    assert_eq!(resolved.name, Some(String::from("identifier")));
    // With neither, the protocol default applies.
    let resolved = config
        .create(&String::from("cc:dd"), &String::from("MODEL-2"))
        .unwrap();
    assert_eq!(resolved.name, Some(String::from("default")));
}

#[test]
fn test_resolution_fails_closed_without_default() {
    let config = ProtocolDeviceConfiguration::new(
        Vec::new(),
        None,
        vec![(String::from("MODEL-1"), named_profile("identifier", vec![20]))],
        Vec::new(),
    );
    let err = config
        .create(&String::from("cc:dd"), &String::from("MODEL-2"))
        .unwrap_err();
    assert_eq!(
        err,
        ButtplugError::ButtplugDeviceError(ButtplugDeviceError::ProtocolAttributesNotFound)
    );
}

#[test]
fn test_wildcard_identifier_matching() {
    let dcm = create_test_dcm(false);
    let services: Vec<u128> = Vec::new();
    // Exact and wildcard-prefixed advertised names resolve.
    assert!(dcm
        .protocol_for_btle_advertisement(&String::from("Krush"), &services)
        .is_some());
    let entry = dcm
        .protocol_for_btle_advertisement(&String::from("VX001_98765"), &services)
        .expect("wildcard should match");
    assert_eq!(entry.0, "youou");
    assert!(dcm
        .protocol_for_btle_advertisement(&String::from("VX002_98765"), &services)
        .is_none());
}

#[test]
fn test_load_protocol_config_version_check() {
    assert_eq!(get_internal_config_version(), INTERNAL_CONFIG_VERSION);
    // An undecodable document is rejected.
    let err = load_protocol_config_from_json(None, false).unwrap_err();
    assert_eq!(
        err,
        ButtplugError::ButtplugDeviceError(ButtplugDeviceError::DeviceConfigurationFileError)
    );
    // A document older than the runtime is rejected, carrying both
    // versions, unless the check is skipped.
    let mut old = internal_device_configuration();
    old.version = INTERNAL_CONFIG_VERSION - 1;
    let err = load_protocol_config_from_json(Some(old), false).unwrap_err();
    assert_eq!(
        err,
        ButtplugError::ButtplugDeviceError(ButtplugDeviceError::DeviceConfigurationVersionError(
            INTERNAL_CONFIG_VERSION - 1,
            INTERNAL_CONFIG_VERSION
        ))
    );
    let mut old = internal_device_configuration();
    old.version = INTERNAL_CONFIG_VERSION - 1;
    assert!(load_protocol_config_from_json(Some(old), true).is_ok());
    // A current document passes the strict check.
    let current = internal_device_configuration();
    assert!(load_protocol_config_from_json(Some(current), false).is_ok());
}

fn user_overlay(protocol: &str, identifier: &str, address: &str) -> Vec<(String, UserConfigDefinition)> {
    let overlay = DeviceUserConfig {
        display_name: Some(String::from("My Device")),
        allow: Some(true),
        deny: Some(true),
        messages: None,
        index: Some(5),
    };
    let def = UserConfigDefinition {
        usb: None,
        btle: None,
        serial: None,
        hid: None,
        xinput: None,
        websocket: None,
        lovense_connect_service: None,
        defaults: None,
        configurations: vec![(
            String::from(identifier),
            vec![(String::from(address), overlay)],
        )],
    };
    vec![(String::from(protocol), def)]
}

#[test]
fn test_user_configs_attach_and_record_policy() {
    let base = internal_device_configuration();
    let mut external =
        load_protocol_configs_from_json(Some(base), None, false).expect("base catalog loads");
    // The vorze protocol declares the "Bach smart" identifier, so the
    // overlay for an address under it takes effect.
    let defs = user_overlay("vorze-sa", "Bach smart", "11:22");
    add_user_configs_to_protocol(&mut external, defs);
    assert_eq!(external.allow_list(), &vec![String::from("11:22")]);
    assert_eq!(external.deny_list(), &vec![String::from("11:22")]);
    assert_eq!(
        external.reserved_indexes(),
        &vec![(5u32, String::from("11:22"))]
    );
    // The overlaid address now resolves as an address-level leaf whose
    // display name is the user's, inheriting the identifier profile's
    // declared features.
    let entry = external
        .protocol_configurations()
        .iter()
        .find(|(name, _)| name == "vorze-sa")
        .expect("protocol still registered");
    let resolved = entry
        .1
        .create(&String::from("11:22"), &String::from("anything"))
        .unwrap();
    assert_eq!(resolved.display_name, Some(String::from("My Device")));
    let dma = resolved
        .message_attributes_for(ButtplugDeviceMessageType::VibrateCmd)
        .expect("inherits the identifier profile's vibrate feature");
    assert_eq!(dma.feature_count, 1);
    assert_eq!(dma.step_count, vec![100]);
}

#[test]
fn test_user_configs_skip_unknown_protocols_and_identifiers() {
    let base = internal_device_configuration();
    let mut external =
        load_protocol_configs_from_json(Some(base), None, false).expect("base catalog loads");
    // Unknown protocol: the whole entry is skipped.
    let defs = user_overlay("no-such-protocol", "Bach smart", "11:22");
    add_user_configs_to_protocol(&mut external, defs);
    assert!(external.allow_list().is_empty());
    // Known protocol, unknown identifier: likewise skipped.
    let defs = user_overlay("vorze-sa", "NoSuchModel", "11:22");
    add_user_configs_to_protocol(&mut external, defs);
    assert!(external.allow_list().is_empty());
    assert!(external.deny_list().is_empty());
    assert!(external.reserved_indexes().is_empty());
}

#[test]
fn test_deny_wins_over_allow() {
    let mut dcm = DeviceConfigurationManager::new(false);
    dcm.allow_list.push(String::from("11:22"));
    dcm.deny_list.push(String::from("11:22"));
    // Deny takes precedence when both lists name the address.
    assert!(!dcm.address_allowed(&String::from("11:22")));
    // A non-empty allow list admits only its members.
    let mut dcm = DeviceConfigurationManager::new(false);
    dcm.allow_list.push(String::from("11:22"));
    assert!(dcm.address_allowed(&String::from("11:22")));
    assert!(!dcm.address_allowed(&String::from("33:44")));
    // With neither list, everything is admitted.
    let dcm = DeviceConfigurationManager::new(false);
    assert!(dcm.address_allowed(&String::from("33:44")));
}

#[test]
fn test_add_protocol_device_configuration_rejects_duplicates() {
    let mut dcm = DeviceConfigurationManager::new(false);
    let name = String::from("example");
    let config = ProtocolDeviceConfiguration::new(
        vec![ProtocolDeviceSpecifier::BluetoothLE(BluetoothLESpecifier::new(
            vec![String::from("Example*")],
            Vec::new(),
        ))],
        Some(named_profile("default", vec![10])),
        Vec::new(),
        Vec::new(),
    );
    assert!(dcm.add_protocol_device_configuration(&name, config).is_ok());
    let again = ProtocolDeviceConfiguration::new(Vec::new(), None, Vec::new(), Vec::new());
    assert_eq!(
        dcm.add_protocol_device_configuration(&name, again).unwrap_err(),
        ButtplugServerError::ProtocolAlreadyAdded(name.clone())
    );
}

#[test]
fn test_merge_overlays_other_document_first() {
    let mut base = internal_device_configuration();
    let base_count = base.protocols.as_ref().unwrap().len();
    let mut overlay = ProtocolConfiguration::default();
    overlay.version = INTERNAL_CONFIG_VERSION + 1;
    let extra = buttplug::device_configuration::ProtocolDefinition {
        usb: None,
        btle: None,
        serial: None,
        hid: None,
        xinput: None,
        websocket: None,
        lovense_connect_service: None,
        defaults: None,
        configurations: Vec::new(),
    };
    overlay
        .protocols
        .as_mut()
        .unwrap()
        .push((String::from("extra"), extra));
    base.merge(overlay);
    // The version stays the base document's; the overlay's entries
    // come first so they win per-name lookups.
    assert_eq!(base.version, INTERNAL_CONFIG_VERSION);
    let merged = base.protocols.as_ref().unwrap();
    assert_eq!(merged.len(), base_count + 1);
    assert_eq!(merged[0].0, "extra");
}

#[test]
fn test_external_device_configuration_starts_empty() {
    let external = ExternalDeviceConfiguration::new();
    assert!(external.allow_list().is_empty());
    assert!(external.deny_list().is_empty());
    assert!(external.reserved_indexes().is_empty());
    assert!(external.protocol_configurations().is_empty());
    let config = ProtocolConfiguration::default();
    assert_eq!(config.version, INTERNAL_CONFIG_VERSION);
}
