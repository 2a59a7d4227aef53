//! Session state machine tests: handshake gating, version
//! negotiation, correlation ids, ping timeout, disconnect.

use buttplug::device_configuration::{
    internal_device_configuration, ProtocolConfiguration, ProtocolDefinition,
    INTERNAL_CONFIG_VERSION,
};
use buttplug::errors::{ButtplugDeviceError, ButtplugError, ButtplugHandshakeError, ButtplugPingError};
use buttplug::messages::{
    ButtplugClientMessage, ButtplugServerMessage, Ping, RequestServerInfo, StartScanning,
};
use buttplug::server::{ButtplugServer, ButtplugServerBuilder, SessionOutput};
use buttplug::BUTTPLUG_CURRENT_MESSAGE_SPEC_VERSION;

fn new_server(max_ping_time: Option<u32>) -> ButtplugServer {
    let mut builder = ButtplugServerBuilder::default();
    builder.name("Test Server");
    if let Some(t) = max_ping_time {
        builder.max_ping_time(t);
    }
    builder.finish(None, None).expect("default construction cannot fail")
}

fn handshake(id: u32) -> ButtplugClientMessage {
    let mut msg = RequestServerInfo::new("Test Client", BUTTPLUG_CURRENT_MESSAGE_SPEC_VERSION);
    msg.id = id;
    ButtplugClientMessage::RequestServerInfo(msg)
}

#[test]
fn test_server_reuse() {
    let mut server = ButtplugServer::default();
    let reply = server.parse_message(handshake(1));
    assert!(reply.is_ok(), "Should get back ok: {:?}", reply);

    let reply = server.parse_message(handshake(1));
    assert!(
        reply.is_err(),
        "Should get back err on double handshake: {:?}",
        reply
    );
    assert!(server.disconnect().is_ok(), "Should disconnect ok");

    let reply = server.parse_message(handshake(1));
    assert!(
        reply.is_ok(),
        "Should get back ok on handshake after disconnect: {:?}",
        reply
    );
}

#[test]
fn test_handshake_reply_announces_server() {
    let mut server = new_server(Some(5000));
    match server.parse_message(handshake(7)) {
        Ok(SessionOutput::Reply(ButtplugServerMessage::ServerInfo(si))) => {
            assert_eq!(si.id, 7);
            assert_eq!(si.server_name, "Test Server");
            assert_eq!(si.message_version, BUTTPLUG_CURRENT_MESSAGE_SPEC_VERSION);
            assert_eq!(si.max_ping_time, 5000);
        }
        other => panic!("expected a server info reply, got {:?}", other),
    }
}

#[test]
fn test_handshake_required_before_use() {
    let mut server = new_server(None);
    let msg = ButtplugClientMessage::StartScanning(StartScanning::new(9));
    let err = server.parse_message(msg).unwrap_err();
    assert_eq!(err.id, 9);
    assert_eq!(
        err.error,
        ButtplugError::ButtplugHandshakeError(ButtplugHandshakeError::RequestServerInfoExpected)
    );
    // A ping before the handshake is likewise rejected, stamped with
    // its own id.
    let err = server
        .parse_message(ButtplugClientMessage::Ping(Ping::new(12)))
        .unwrap_err();
    assert_eq!(err.id, 12);
    assert_eq!(
        err.error,
        ButtplugError::ButtplugHandshakeError(ButtplugHandshakeError::RequestServerInfoExpected)
    );
}

#[test]
fn test_version_negotiation_rejects_newer_client() {
    let mut server = new_server(None);
    let mut msg = RequestServerInfo::new("Test Client", BUTTPLUG_CURRENT_MESSAGE_SPEC_VERSION + 1);
    msg.id = 3;
    let err = server
        .parse_message(ButtplugClientMessage::RequestServerInfo(msg))
        .unwrap_err();
    assert_eq!(err.id, 3);
    assert_eq!(
        err.error,
        ButtplugError::ButtplugHandshakeError(ButtplugHandshakeError::MessageSpecVersionMismatch(
            BUTTPLUG_CURRENT_MESSAGE_SPEC_VERSION,
            BUTTPLUG_CURRENT_MESSAGE_SPEC_VERSION + 1
        ))
    );
    assert!(!server.connected());
}

#[test]
fn test_double_handshake_already_happened() {
    let mut server = new_server(None);
    server.parse_message(handshake(1)).unwrap();
    let err = server.parse_message(handshake(2)).unwrap_err();
    assert_eq!(err.id, 2);
    assert_eq!(
        err.error,
        ButtplugError::ButtplugHandshakeError(ButtplugHandshakeError::HandshakeAlreadyHappened)
    );
}

#[test]
fn test_ping_acknowledged_and_keepalive_disabled() {
    let mut server = new_server(Some(1000));
    server.parse_message(handshake(1)).unwrap();
    match server.parse_message(ButtplugClientMessage::Ping(Ping::new(4))) {
        Ok(SessionOutput::Reply(ButtplugServerMessage::OkMessage(ok))) => assert_eq!(ok.id, 4),
        other => panic!("expected an acknowledgment, got {:?}", other),
    }
    // With keepalive disabled the ping is an error.
    let mut server = new_server(None);
    server.parse_message(handshake(1)).unwrap();
    let err = server
        .parse_message(ButtplugClientMessage::Ping(Ping::new(5)))
        .unwrap_err();
    assert_eq!(err.id, 5);
    assert_eq!(
        err.error,
        ButtplugError::ButtplugPingError(ButtplugPingError::PingTimerNotRunning)
    );
}

#[test]
fn test_ping_timeout_broadcasts_once_and_disconnects() {
    let mut server = new_server(Some(50));
    server.parse_message(handshake(1)).unwrap();
    assert!(server.connected());
    server.on_ping_timeout();
    assert!(!server.connected());
    // Exactly one broadcast error, even if the watchdog fires again.
    server.on_ping_timeout();
    let events = server.drain_events();
    assert_eq!(events.len(), 1);
    match &events[0] {
        ButtplugServerMessage::Error(e) => assert_eq!(
            e.error,
            ButtplugError::ButtplugPingError(ButtplugPingError::PingedOut)
        ),
        other => panic!("expected the timeout broadcast, got {:?}", other),
    }
    // After pinging out, every message reports the timeout first.
    let err = server.parse_message(handshake(8)).unwrap_err();
    assert_eq!(err.id, 8);
    assert_eq!(
        err.error,
        ButtplugError::ButtplugPingError(ButtplugPingError::PingedOut)
    );
}

#[test]
fn test_device_messages_route_after_handshake() {
    let mut server = new_server(None);
    server.parse_message(handshake(1)).unwrap();
    let msg = ButtplugClientMessage::StartScanning(StartScanning::new(6));
    match server.parse_message(msg.clone()) {
        Ok(SessionOutput::RoutedDeviceMessage(routed)) => assert_eq!(routed, msg),
        other => panic!("expected routing, got {:?}", other),
    }
}

#[test]
fn test_disconnect_requests_cleanup() {
    let mut server = new_server(None);
    server.parse_message(handshake(1)).unwrap();
    let requests = server.disconnect().unwrap();
    assert_eq!(requests.len(), 2);
    assert!(matches!(requests[0], ButtplugClientMessage::StopScanning(_)));
    assert!(matches!(requests[1], ButtplugClientMessage::StopAllDevices(_)));
    assert!(!server.connected());
}

#[test]
fn test_finish_rejects_old_base_catalog() {
    let builder = ButtplugServerBuilder::default();
    let mut old_doc = internal_device_configuration();
    old_doc.version = INTERNAL_CONFIG_VERSION - 1;
    let err = builder.finish(Some(old_doc), None).unwrap_err();
    assert_eq!(
        err,
        ButtplugError::ButtplugDeviceError(ButtplugDeviceError::DeviceConfigurationVersionError(
            INTERNAL_CONFIG_VERSION - 1,
            INTERNAL_CONFIG_VERSION
        ))
    );
    // The user catalog is validated leniently: an old version passes.
    let mut old_doc = internal_device_configuration();
    old_doc.version = INTERNAL_CONFIG_VERSION - 1;
    assert!(builder.finish(None, Some(old_doc)).is_ok());
}

#[test]
fn test_finish_merges_user_protocol_entries() {
    let builder = ButtplugServerBuilder::default();
    let device_doc = internal_device_configuration();
    let extra = ProtocolDefinition {
        usb: None,
        btle: None,
        serial: None,
        hid: None,
        xinput: None,
        websocket: None,
        lovense_connect_service: None,
        defaults: None,
        configurations: Vec::new(),
    };
    let user_doc = ProtocolConfiguration {
        version: INTERNAL_CONFIG_VERSION,
        protocols: Some(vec![(String::from("extra"), extra)]),
        user_configs: None,
    };
    let server = builder.finish(Some(device_doc), Some(user_doc)).unwrap();
    // Both the user document's protocol entries and the base
    // document's end up registered.
    let registry = &server.device_configuration.protocol_configurations;
    assert!(registry.iter().any(|(n, _)| n == "extra"));
    assert!(registry.iter().any(|(n, _)| n == "vorze-sa"));
}
