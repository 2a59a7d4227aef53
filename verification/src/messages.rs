//! Client and server messages of the session protocol.
//!
//! Magnitudes that the wire protocol expresses as fractions in [0, 1]
//! are carried here as integer levels in [0, `LEVEL_SCALE`]: a level of
//! `LEVEL_SCALE / 2` means half power. Keeping levels integral lets the
//! command-diffing engine state exact scaling contracts.

use vstd::prelude::*;
use crate::errors::ButtplugMessageError;

verus! {

/// Full scale of a magnitude level: a level `l` stands for the
/// fraction `l / LEVEL_SCALE`.
pub const LEVEL_SCALE: u32 = 1_000_000;

/// A named endpoint of a device transport.
#[derive(PartialEq, Eq, Structural, Debug, Clone, Copy)]
pub enum Endpoint {
    Command,
    Firmware,
    Rx,
    RxBLEModel,
    Tx,
}

/// The command kinds a capability profile can declare.
#[derive(PartialEq, Eq, Structural, Debug, Clone, Copy)]
pub enum ButtplugDeviceMessageType {
    VibrateCmd,
    RotateCmd,
    LinearCmd,
    ScalarCmd,
    StopDeviceCmd,
}

/// Generic command for setting a level (single magnitude value) of a
/// device feature.
#[derive(Debug, Clone, PartialEq)]
pub struct ScalarSubcommand {
    pub index: u32,
    pub scalar: u32,
}

impl ScalarSubcommand {
    pub fn new(index: u32, scalar: u32) -> (r: Self)
        ensures
            r == (ScalarSubcommand { index, scalar }),
    {
        Self { index, scalar }
    }

    pub fn index(&self) -> (r: u32)
        ensures
            r == self.index,
    {
        self.index
    }

    pub fn scalar(&self) -> (r: u32)
        ensures
            r == self.scalar,
    {
        self.scalar
    }
}

/// One per-feature vibration magnitude.
#[derive(Debug, Clone, PartialEq)]
pub struct VibrateSubcommand {
    pub index: u32,
    pub speed: u32,
}

impl VibrateSubcommand {
    pub fn new(index: u32, speed: u32) -> (r: Self)
        ensures
            r == (VibrateSubcommand { index, speed }),
    {
        Self { index, speed }
    }
}

/// One per-feature rotation: magnitude plus direction.
#[derive(Debug, Clone, PartialEq)]
pub struct RotationSubcommand {
    pub index: u32,
    pub speed: u32,
    pub clockwise: bool,
}

impl RotationSubcommand {
    pub fn new(index: u32, speed: u32, clockwise: bool) -> (r: Self)
        ensures
            r == (RotationSubcommand { index, speed, clockwise }),
    {
        Self { index, speed, clockwise }
    }
}

/// One linear movement: target position reached over a duration.
#[derive(Debug, Clone, PartialEq)]
pub struct VectorSubcommand {
    pub index: u32,
    pub duration: u32,
    pub position: u32,
}

impl VectorSubcommand {
    pub fn new(index: u32, duration: u32, position: u32) -> (r: Self)
        ensures
            r == (VectorSubcommand { index, duration, position }),
    {
        Self { index, duration, position }
    }
}

/// Client request: set per-feature vibration levels.
#[derive(Debug, Clone, PartialEq)]
pub struct VibrateCmd {
    pub id: u32,
    pub device_index: u32,
    pub speeds: Vec<VibrateSubcommand>,
}

impl VibrateCmd {
    pub fn new(device_index: u32, speeds: Vec<VibrateSubcommand>) -> (r: Self)
        ensures
            r == (VibrateCmd { id: 1u32, device_index, speeds }),
    {
        Self { id: 1, device_index, speeds }
    }

    pub fn speeds(&self) -> (r: &Vec<VibrateSubcommand>)
        ensures
            r == &self.speeds,
    {
        &self.speeds
    }
}

/// Client request: set per-feature rotation levels and directions.
#[derive(Debug, Clone, PartialEq)]
pub struct RotateCmd {
    pub id: u32,
    pub device_index: u32,
    pub rotations: Vec<RotationSubcommand>,
}

impl RotateCmd {
    pub fn new(device_index: u32, rotations: Vec<RotationSubcommand>) -> (r: Self)
        ensures
            r == (RotateCmd { id: 1u32, device_index, rotations }),
    {
        Self { id: 1, device_index, rotations }
    }

    pub fn rotations(&self) -> (r: &Vec<RotationSubcommand>)
        ensures
            r == &self.rotations,
    {
        &self.rotations
    }
}

/// Client request: move linear actuators to target positions.
#[derive(Debug, Clone, PartialEq)]
pub struct LinearCmd {
    pub id: u32,
    pub device_index: u32,
    pub vectors: Vec<VectorSubcommand>,
}

impl LinearCmd {
    pub fn new(device_index: u32, vectors: Vec<VectorSubcommand>) -> (r: Self)
        ensures
            r == (LinearCmd { id: 1u32, device_index, vectors }),
    {
        Self { id: 1, device_index, vectors }
    }

    pub fn vectors(&self) -> (r: &Vec<VectorSubcommand>)
        ensures
            r == &self.vectors,
    {
        &self.vectors
    }
}

/// Client request: set arbitrary per-feature scalar levels.
#[derive(Debug, Clone, PartialEq)]
pub struct ScalarCmd {
    pub id: u32,
    pub device_index: u32,
    pub scalars: Vec<ScalarSubcommand>,
}

/// First scalar entry whose level exceeds full scale, if any, scanning
/// from position `i`.
pub open spec fn first_invalid_scalar(scalars: Seq<ScalarSubcommand>, i: int) -> Option<(u32, u32)>
    decreases scalars.len() - i,
{
    if i < 0 || i >= scalars.len() {
        None
    } else if scalars[i].scalar > LEVEL_SCALE {
        Some((scalars[i].index, scalars[i].scalar))
    } else {
        first_invalid_scalar(scalars, i + 1)
    }
}

impl ScalarCmd {
    pub fn new(device_index: u32, scalars: Vec<ScalarSubcommand>) -> (r: Self)
        ensures
            r == (ScalarCmd { id: 1u32, device_index, scalars }),
    {
        Self { id: 1, device_index, scalars }
    }

    pub fn scalars(&self) -> (r: &Vec<ScalarSubcommand>)
        ensures
            r == &self.scalars,
    {
        &self.scalars
    }

    /// Checks the message shape: the id must not be the reserved system
    /// id, and every level must lie within full scale.
    pub fn is_valid(&self) -> (r: Result<(), ButtplugMessageError>)
        ensures
            self.id == 0 ==> r == Err::<(), ButtplugMessageError>(
                ButtplugMessageError::InvalidMessageIdError,
            ),
            self.id != 0 ==> match first_invalid_scalar(self.scalars@, 0) {
                Some((idx, value)) => r == Err::<(), ButtplugMessageError>(
                    ButtplugMessageError::InvalidMessageContents(idx, value),
                ),
                None => r == Ok::<(), ButtplugMessageError>(()),
            },
    {
        if self.id == 0 {
            return Err(ButtplugMessageError::InvalidMessageIdError);
        }
        let n = self.scalars.len();
        let mut k: usize = 0;
        while k < n
            invariant
                self.id != 0,
                n == self.scalars.len(),
                0 <= k <= n,
                first_invalid_scalar(self.scalars@, 0) == first_invalid_scalar(
                    self.scalars@,
                    k as int,
                ),
            decreases n - k,
        {
            let level = &self.scalars[k];
            if level.scalar > LEVEL_SCALE {
                return Err(ButtplugMessageError::InvalidMessageContents(
                    level.index,
                    level.scalar,
                ));
            }
            k = k + 1;
        }
        Ok(())
    }
}

/// Client request in the legacy single-rotator form: a speed in
/// ninety-ninths of full scale plus a direction.
#[derive(Debug, Clone, PartialEq)]
pub struct VorzeA10CycloneCmd {
    pub id: u32,
    pub device_index: u32,
    pub speed: u32,
    pub clockwise: bool,
}

impl VorzeA10CycloneCmd {
    pub fn new(device_index: u32, speed: u32, clockwise: bool) -> (r: Self)
        ensures
            r == (VorzeA10CycloneCmd { id: 1u32, device_index, speed, clockwise }),
    {
        Self { id: 1, device_index, speed, clockwise }
    }
}

/// Client request: drive every feature of a device to its neutral value.
#[derive(Debug, Clone, PartialEq)]
pub struct StopDeviceCmd {
    pub id: u32,
    pub device_index: u32,
}

impl StopDeviceCmd {
    pub fn new(device_index: u32) -> (r: Self)
        ensures
            r == (StopDeviceCmd { id: 1u32, device_index }),
    {
        Self { id: 1, device_index }
    }
}

/// Client request: open the session and negotiate a protocol version.
#[derive(Debug, Clone, PartialEq)]
pub struct RequestServerInfo {
    pub id: u32,
    pub client_name: String,
    pub message_version: u32,
}

impl RequestServerInfo {
    pub fn new(client_name: &str, message_version: u32) -> (r: Self)
        ensures
            r.id == 1,
            r.client_name@ == client_name@,
            r.message_version == message_version,
    {
        Self { id: 1, client_name: client_name.to_owned(), message_version }
    }

    pub fn client_name(&self) -> (r: &String)
        ensures
            r == &self.client_name,
    {
        &self.client_name
    }

    pub fn message_version(&self) -> (r: u32)
        ensures
            r == self.message_version,
    {
        self.message_version
    }
}

/// Client keepalive.
#[derive(Debug, Clone, PartialEq)]
pub struct Ping {
    pub id: u32,
}

impl Ping {
    pub fn new(id: u32) -> (r: Self)
        ensures
            r == (Ping { id }),
    {
        Self { id }
    }
}

/// Client request: begin transport discovery.
#[derive(Debug, Clone, PartialEq)]
pub struct StartScanning {
    pub id: u32,
}

impl StartScanning {
    pub fn new(id: u32) -> (r: Self)
        ensures
            r == (StartScanning { id }),
    {
        Self { id }
    }
}

/// Client request: end transport discovery.
#[derive(Debug, Clone, PartialEq)]
pub struct StopScanning {
    pub id: u32,
}

impl StopScanning {
    pub fn new(id: u32) -> (r: Self)
        ensures
            r == (StopScanning { id }),
    {
        Self { id }
    }
}

/// Client request: drive every connected device to its neutral state.
#[derive(Debug, Clone, PartialEq)]
pub struct StopAllDevices {
    pub id: u32,
}

impl StopAllDevices {
    pub fn new(id: u32) -> (r: Self)
        ensures
            r == (StopAllDevices { id }),
    {
        Self { id }
    }
}

/// Server reply: plain acknowledgment.
#[derive(Debug, Clone, PartialEq)]
pub struct OkMessage {
    pub id: u32,
}

impl OkMessage {
    pub fn new(id: u32) -> (r: Self)
        ensures
            r == (OkMessage { id }),
    {
        Self { id }
    }
}

/// Server reply to the handshake.
#[derive(Debug, Clone, PartialEq)]
pub struct ServerInfo {
    pub id: u32,
    pub server_name: String,
    pub message_version: u32,
    pub max_ping_time: u32,
}

/// Server reply or broadcast carrying an error.
#[derive(Debug, Clone, PartialEq)]
pub struct ErrorMessage {
    pub id: u32,
    pub error: crate::errors::ButtplugError,
}

impl ErrorMessage {
    pub fn new(id: u32, error: crate::errors::ButtplugError) -> (r: Self)
        ensures
            r == (ErrorMessage { id, error }),
    {
        Self { id, error }
    }

    pub fn set_id(&mut self, id: u32)
        ensures
            *final(self) == (ErrorMessage { id, ..*old(self) }),
    {
        self.id = id;
    }
}

/// Every message a client can send.
#[derive(Debug, Clone, PartialEq)]
pub enum ButtplugClientMessage {
    RequestServerInfo(RequestServerInfo),
    Ping(Ping),
    StartScanning(StartScanning),
    StopScanning(StopScanning),
    StopAllDevices(StopAllDevices),
    StopDeviceCmd(StopDeviceCmd),
    VibrateCmd(VibrateCmd),
    RotateCmd(RotateCmd),
    LinearCmd(LinearCmd),
    ScalarCmd(ScalarCmd),
}

impl ButtplugClientMessage {
    /// The caller-assigned correlation id.
    pub fn id(&self) -> (r: u32)
        ensures
            r == self.spec_id(),
    {
        match self {
            ButtplugClientMessage::RequestServerInfo(m) => m.id,
            ButtplugClientMessage::Ping(m) => m.id,
            ButtplugClientMessage::StartScanning(m) => m.id,
            ButtplugClientMessage::StopScanning(m) => m.id,
            ButtplugClientMessage::StopAllDevices(m) => m.id,
            ButtplugClientMessage::StopDeviceCmd(m) => m.id,
            ButtplugClientMessage::VibrateCmd(m) => m.id,
            ButtplugClientMessage::RotateCmd(m) => m.id,
            ButtplugClientMessage::LinearCmd(m) => m.id,
            ButtplugClientMessage::ScalarCmd(m) => m.id,
        }
    }

    /// The caller-assigned correlation id, as a specification value.
    pub open spec fn spec_id(&self) -> u32 {
        match self {
            ButtplugClientMessage::RequestServerInfo(m) => m.id,
            ButtplugClientMessage::Ping(m) => m.id,
            ButtplugClientMessage::StartScanning(m) => m.id,
            ButtplugClientMessage::StopScanning(m) => m.id,
            ButtplugClientMessage::StopAllDevices(m) => m.id,
            ButtplugClientMessage::StopDeviceCmd(m) => m.id,
            ButtplugClientMessage::VibrateCmd(m) => m.id,
            ButtplugClientMessage::RotateCmd(m) => m.id,
            ButtplugClientMessage::LinearCmd(m) => m.id,
            ButtplugClientMessage::ScalarCmd(m) => m.id,
        }
    }
}

/// Every message the server can send back.
#[derive(Debug, Clone, PartialEq)]
pub enum ButtplugServerMessage {
    OkMessage(OkMessage),
    ServerInfo(ServerInfo),
    Error(ErrorMessage),
    ScanningFinished(OkMessage),
}

impl ButtplugServerMessage {
    /// The correlation id this reply is stamped with.
    pub open spec fn spec_id(&self) -> u32 {
        match self {
            ButtplugServerMessage::OkMessage(m) => m.id,
            ButtplugServerMessage::ServerInfo(m) => m.id,
            ButtplugServerMessage::Error(m) => m.id,
            ButtplugServerMessage::ScanningFinished(m) => m.id,
        }
    }

    /// The correlation id this reply is stamped with.
    pub fn id(&self) -> (r: u32)
        ensures
            r == self.spec_id(),
    {
        match self {
            ButtplugServerMessage::OkMessage(m) => m.id,
            ButtplugServerMessage::ServerInfo(m) => m.id,
            ButtplugServerMessage::Error(m) => m.id,
            ButtplugServerMessage::ScanningFinished(m) => m.id,
        }
    }
}

/// The device commands a handler can receive, used for generated stop
/// commands.
#[derive(Debug, Clone, PartialEq)]
pub enum ButtplugDeviceCommandMessageUnion {
    VibrateCmd(VibrateCmd),
    RotateCmd(RotateCmd),
    LinearCmd(LinearCmd),
    ScalarCmd(ScalarCmd),
    StopDeviceCmd(StopDeviceCmd),
}

} // verus!
