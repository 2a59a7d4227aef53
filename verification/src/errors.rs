//! Error taxonomy for the runtime.
//!
//! Errors are structured values: each variant carries the data a caller
//! needs (offending index, expected/actual counts, version numbers)
//! rather than a pre-rendered message string.

use vstd::prelude::*;

verus! {

/// Errors raised while loading or validating a configuration catalog.
#[derive(Debug, Clone, PartialEq, Eq)]
pub enum ButtplugDeviceError {
    /// The configuration document could not be decoded at all.
    DeviceConfigurationFileError,
    /// The configuration document declares a version older than the
    /// runtime's minimum. Carries (found version, minimum version).
    DeviceConfigurationVersionError(u32, u32),
    /// A command carried the wrong number of per-feature values.
    /// Carries (expected count, actual count).
    DeviceFeatureCountMismatch(u32, u32),
    /// A command addressed a feature index outside the declared range.
    /// Carries (declared count, offending index).
    DeviceFeatureIndexError(u32, u32),
    /// A per-feature magnitude lay outside the accepted range.
    /// Carries (offending index, offending value in level units).
    InvalidValue(u32, u32),
    /// The device's handler does not support the requested command kind.
    CommandNotSupported,
    /// A scan was requested while no adapter is available.
    UnhandledCommand,
    /// The transport refused the scan for lack of permissions.
    DevicePermissionError,
    /// A stop-scanning request arrived while no scan was running.
    DeviceScanningAlreadyStopped,
    /// No capability profile matched the device's identity.
    ProtocolAttributesNotFound,
}

/// Errors raised while checking the shape of a client message.
#[derive(Debug, Clone, PartialEq, Eq)]
pub enum ButtplugMessageError {
    /// The message used the reserved system message id.
    InvalidMessageIdError,
    /// A magnitude value lay outside the accepted range.
    /// Carries (offending index, offending value in level units).
    InvalidMessageContents(u32, u32),
    /// The message kind is not one the server handles.
    UnexpectedMessageType,
}

/// Errors raised during the session handshake.
#[derive(Debug, Clone, PartialEq, Eq)]
pub enum ButtplugHandshakeError {
    /// A non-handshake message arrived before the handshake completed.
    RequestServerInfoExpected,
    /// A second handshake arrived on an already-connected session.
    HandshakeAlreadyHappened,
    /// The client requested a newer message-spec version than the server
    /// supports. Carries (server maximum, requested version).
    MessageSpecVersionMismatch(u32, u32),
}

/// Errors raised by the ping watchdog.
#[derive(Debug, Clone, PartialEq, Eq)]
pub enum ButtplugPingError {
    /// The configured maximum ping interval elapsed with no ping.
    PingedOut,
    /// A ping arrived although keepalive is disabled.
    PingTimerNotRunning,
}

/// Errors raised while assembling the server's device registry.
#[derive(Debug, Clone, PartialEq, Eq)]
pub enum ButtplugServerError {
    /// A device communication manager of this name is already registered.
    DeviceManagerTypeAlreadyAdded(String),
    /// A protocol of this name is already registered.
    ProtocolAlreadyAdded(String),
    /// No protocol of this name is registered.
    ProtocolDoesNotExist(String),
}

/// The union of every error family the runtime reports.
#[derive(Debug, Clone, PartialEq, Eq)]
pub enum ButtplugError {
    ButtplugDeviceError(ButtplugDeviceError),
    ButtplugMessageError(ButtplugMessageError),
    ButtplugHandshakeError(ButtplugHandshakeError),
    ButtplugPingError(ButtplugPingError),
}

impl ButtplugError {
    /// Wraps a device error.
    pub fn from_device(e: ButtplugDeviceError) -> (r: ButtplugError)
        ensures
            r == ButtplugError::ButtplugDeviceError(e),
    {
        ButtplugError::ButtplugDeviceError(e)
    }

    /// Wraps a message error.
    pub fn from_message(e: ButtplugMessageError) -> (r: ButtplugError)
        ensures
            r == ButtplugError::ButtplugMessageError(e),
    {
        ButtplugError::ButtplugMessageError(e)
    }

    /// Wraps a handshake error.
    pub fn from_handshake(e: ButtplugHandshakeError) -> (r: ButtplugError)
        ensures
            r == ButtplugError::ButtplugHandshakeError(e),
    {
        ButtplugError::ButtplugHandshakeError(e)
    }

    /// Wraps a ping error.
    pub fn from_ping(e: ButtplugPingError) -> (r: ButtplugError)
        ensures
            r == ButtplugError::ButtplugPingError(e),
    {
        ButtplugError::ButtplugPingError(e)
    }
}

} // verus!
