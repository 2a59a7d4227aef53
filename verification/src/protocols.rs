//! Vendor-specific protocol handlers.
//!
//! Each handler couples a [`GenericCommandManager`] with an encoder
//! that turns a validated change set into the vendor's wire bytes.
//! Handlers return the transport writes to perform; issuing them on a
//! live transport is the caller's business. A request the capability
//! profile rejects yields the validation error and no write.

use vstd::prelude::*;
use crate::command_manager::{
    GenericCommandManager, spec_is_fresh_manager, spec_is_stop_commands, spec_preserves_but_rotate,
    spec_preserves_but_vibrate, spec_resolved_step_len, spec_rotation_result,
    spec_vibration_result,
};
use crate::configuration::ProtocolDeviceAttributes;
use crate::errors::ButtplugDeviceError;
use crate::messages::{
    ButtplugDeviceCommandMessageUnion, Endpoint, LEVEL_SCALE, LinearCmd, RotateCmd,
    RotationSubcommand, VibrateCmd, VorzeA10CycloneCmd,
};
use crate::util::{
    ascii_lower_bytes, bytes_contain, bytes_contain_exec, spec_ascii_lower, spec_decimal_digits,
    u32_decimal_bytes,
};
use vstd::arithmetic::div_mod::{lemma_div_pos_is_pos, lemma_multiply_divide_lt};
use vstd::string::StringSliceAdditionalSpecFns;

verus! {

/// One write operation for a device transport.
#[derive(Debug, Clone, PartialEq)]
pub struct DeviceWriteCmd {
    pub endpoint: Endpoint,
    pub data: Vec<u8>,
    pub write_with_response: bool,
}

impl DeviceWriteCmd {
    pub fn new(endpoint: Endpoint, data: Vec<u8>, write_with_response: bool) -> (r: Self)
        ensures
            r == (DeviceWriteCmd { endpoint, data, write_with_response }),
    {
        Self { endpoint, data, write_with_response }
    }
}

/// One read operation for a device transport.
#[derive(Debug, Clone, PartialEq)]
pub struct DeviceReadCmd {
    pub endpoint: Endpoint,
    pub length: u32,
    pub timeout_ms: u32,
}

impl DeviceReadCmd {
    pub fn new(endpoint: Endpoint, length: u32, timeout_ms: u32) -> (r: Self)
        ensures
            r == (DeviceReadCmd { endpoint, length, timeout_ms }),
    {
        Self { endpoint, length, timeout_ms }
    }
}

/// The lowercased ASCII bytes of a byte string.
pub open spec fn spec_lower_bytes(s: Seq<u8>) -> Seq<u8> {
    s.map_values(|b: u8| spec_ascii_lower(b))
}

/// The wire packet this handler writes for a scaled vibration speed.
pub open spec fn spec_magic_motion_v3_packet(speed: u8) -> Seq<u8> {
    seq![0x0bu8, 0xffu8, 0x04u8, 0x0au8, 0x46u8, 0x46u8, 0x00u8, 0x04u8, 0x08u8, speed, 0x64u8, 0x00u8]
}

/// Handler for hardware whose single vibration motor takes a fixed
/// twelve-byte packet with the speed in the tenth byte.
#[derive(Debug)]
pub struct MagicMotionV3 {
    pub manager: GenericCommandManager,
    pub stop_commands: Vec<ButtplugDeviceCommandMessageUnion>,
}

impl MagicMotionV3 {
    /// The profile declares one vibration feature whose scaled values
    /// fit one byte.
    pub open spec fn wf(self) -> bool {
        &&& self.manager.wf()
        &&& self.manager.vibrate_steps@.len() >= 1
        &&& forall|i: int|
            0 <= i < self.manager.vibrate_steps@.len() ==> #[trigger] self.manager.vibrate_steps@[i]
                <= 255
    }

    pub fn new(attributes: &ProtocolDeviceAttributes) -> (r: Self)
        requires
            attributes.wf(),
            match attributes.spec_message_attributes(
                crate::messages::ButtplugDeviceMessageType::VibrateCmd,
            ) {
                Some(a) => a.step_count.len() >= 1 && forall|i: int|
                    0 <= i < a.step_count.len() ==> #[trigger] a.step_count[i] <= 255,
                None => false,
            },
        ensures
            r.wf(),
            spec_is_fresh_manager(r.manager, *attributes),
            spec_is_stop_commands(
                r.stop_commands@,
                spec_resolved_step_len(
                    *attributes,
                    crate::messages::ButtplugDeviceMessageType::VibrateCmd,
                ),
                spec_resolved_step_len(
                    *attributes,
                    crate::messages::ButtplugDeviceMessageType::RotateCmd,
                ),
                spec_resolved_step_len(
                    *attributes,
                    crate::messages::ButtplugDeviceMessageType::ScalarCmd,
                ),
            ),
    {
        let manager = GenericCommandManager::new(attributes);
        let stop_commands = manager.stop_commands();
        MagicMotionV3 { manager, stop_commands }
    }

    /// Validates and diffs a vibrate request; a changed speed yields
    /// exactly one packet write, a redundant request yields none.
    pub fn handle_vibrate_cmd(&mut self, msg: &VibrateCmd) -> (r: Result<
        Vec<DeviceWriteCmd>,
        ButtplugDeviceError,
    >)
        requires
            old(self).wf(),
        ensures
            final(self).wf(),
            final(self).manager.vibrate_steps == old(self).manager.vibrate_steps,
            spec_preserves_but_vibrate(old(self).manager, final(self).manager),
            final(self).stop_commands == old(self).stop_commands,
            match spec_vibration_result(old(self).manager, *msg, false) {
                Err(e) => r == Err::<Vec<DeviceWriteCmd>, ButtplugDeviceError>(e)
                    && final(self).manager == old(self).manager,
                Ok(result) => {
                    &&& final(self).manager.vibrate_current@ == result.0
                    &&& match r {
                        Ok(writes) => match result.1 {
                            None => writes@.len() == 0,
                            Some(out) => {
                                &&& writes@.len() == 1
                                &&& writes@[0].endpoint == Endpoint::Tx
                                &&& !writes@[0].write_with_response
                                &&& writes@[0].data@ == spec_magic_motion_v3_packet(
                                    (match out[0] {
                                        Some(s) => s,
                                        None => 0u32,
                                    }) as u8,
                                )
                            },
                        },
                        Err(_) => false,
                    }
                },
            },
    {
        let result = self.manager.update_vibration(msg, false)?;
        let mut writes: Vec<DeviceWriteCmd> = Vec::new();
        if let Some(cmds) = result {
            let speed: u32 = match cmds[0] {
                Some(s) => s,
                None => 0,
            };
            let data: Vec<u8> = vec![
                0x0b,
                0xff,
                0x04,
                0x0a,
                0x46,
                0x46,
                0x00,
                0x04,
                0x08,
                speed as u8,
                0x64,
                0x00,
            ];
            proof {
                assert(data@ =~= spec_magic_motion_v3_packet(speed as u8));
            }
            writes.push(DeviceWriteCmd::new(Endpoint::Tx, data, false));
        }
        Ok(writes)
    }
}

/// The wire packet this handler writes for a scaled vibration speed.
pub open spec fn spec_mizz_zee_packet(speed: u8) -> Seq<u8> {
    seq![
        0x69u8,
        0x96u8,
        0x03u8,
        0x01u8,
        (if speed == 0 { 0x00u8 } else { 0x01u8 }),
        speed,
    ]
}

/// Handler for hardware taking a six-byte packet: an on/off flag and
/// the speed byte.
#[derive(Debug)]
pub struct MizzZee {
    pub manager: GenericCommandManager,
    pub stop_commands: Vec<ButtplugDeviceCommandMessageUnion>,
}

impl MizzZee {
    /// The profile declares one vibration feature whose scaled values
    /// fit one byte.
    pub open spec fn wf(self) -> bool {
        &&& self.manager.wf()
        &&& self.manager.vibrate_steps@.len() >= 1
        &&& forall|i: int|
            0 <= i < self.manager.vibrate_steps@.len() ==> #[trigger] self.manager.vibrate_steps@[i]
                <= 255
    }

    pub fn new(attributes: &ProtocolDeviceAttributes) -> (r: Self)
        requires
            attributes.wf(),
            match attributes.spec_message_attributes(
                crate::messages::ButtplugDeviceMessageType::VibrateCmd,
            ) {
                Some(a) => a.step_count.len() >= 1 && forall|i: int|
                    0 <= i < a.step_count.len() ==> #[trigger] a.step_count[i] <= 255,
                None => false,
            },
        ensures
            r.wf(),
            spec_is_fresh_manager(r.manager, *attributes),
            spec_is_stop_commands(
                r.stop_commands@,
                spec_resolved_step_len(
                    *attributes,
                    crate::messages::ButtplugDeviceMessageType::VibrateCmd,
                ),
                spec_resolved_step_len(
                    *attributes,
                    crate::messages::ButtplugDeviceMessageType::RotateCmd,
                ),
                spec_resolved_step_len(
                    *attributes,
                    crate::messages::ButtplugDeviceMessageType::ScalarCmd,
                ),
            ),
    {
        let manager = GenericCommandManager::new(attributes);
        let stop_commands = manager.stop_commands();
        MizzZee { manager, stop_commands }
    }

    /// Validates and diffs a vibrate request; a changed speed yields
    /// exactly one packet write, a redundant request yields none.
    pub fn handle_vibrate_cmd(&mut self, msg: &VibrateCmd) -> (r: Result<
        Vec<DeviceWriteCmd>,
        ButtplugDeviceError,
    >)
        requires
            old(self).wf(),
        ensures
            final(self).wf(),
            final(self).manager.vibrate_steps == old(self).manager.vibrate_steps,
            spec_preserves_but_vibrate(old(self).manager, final(self).manager),
            final(self).stop_commands == old(self).stop_commands,
            match spec_vibration_result(old(self).manager, *msg, false) {
                Err(e) => r == Err::<Vec<DeviceWriteCmd>, ButtplugDeviceError>(e)
                    && final(self).manager == old(self).manager,
                Ok(result) => {
                    &&& final(self).manager.vibrate_current@ == result.0
                    &&& match r {
                        Ok(writes) => match result.1 {
                            None => writes@.len() == 0,
                            Some(out) => match out[0] {
                                Some(s) => {
                                    &&& writes@.len() == 1
                                    &&& writes@[0].endpoint == Endpoint::Tx
                                    &&& !writes@[0].write_with_response
                                    &&& writes@[0].data@ == spec_mizz_zee_packet(s as u8)
                                },
                                None => writes@.len() == 0,
                            },
                        },
                        Err(_) => false,
                    }
                },
            },
    {
        let result = self.manager.update_vibration(msg, false)?;
        let mut writes: Vec<DeviceWriteCmd> = Vec::new();
        if let Some(cmds) = result {
            if let Some(speed) = cmds[0] {
                let data: Vec<u8> = vec![
                    0x69,
                    0x96,
                    0x03,
                    0x01,
                    if speed == 0 { 0x00 } else { 0x01 },
                    speed as u8,
                ];
                proof {
                    assert(data@ =~= spec_mizz_zee_packet(speed as u8));
                }
                writes.push(DeviceWriteCmd::new(Endpoint::Tx, data, false));
            }
        }
        Ok(writes)
    }
}

/// The wire packet this handler writes for a scaled vibration speed.
pub open spec fn spec_hismith_packet(speed: u8) -> Seq<u8> {
    seq![0xaau8, 0x04u8, speed, (speed + 4) as u8]
}

/// Handler for hardware taking a four-byte packet whose last byte is a
/// simple checksum of the speed.
#[derive(Debug)]
pub struct Hismith {
    pub manager: GenericCommandManager,
    pub stop_commands: Vec<ButtplugDeviceCommandMessageUnion>,
}

impl Hismith {
    /// The profile declares one vibration feature whose scaled values
    /// leave room for the checksum byte.
    pub open spec fn wf(self) -> bool {
        &&& self.manager.wf()
        &&& self.manager.vibrate_steps@.len() >= 1
        &&& forall|i: int|
            0 <= i < self.manager.vibrate_steps@.len() ==> #[trigger] self.manager.vibrate_steps@[i]
                <= 251
    }

    pub fn new(attributes: &ProtocolDeviceAttributes) -> (r: Self)
        requires
            attributes.wf(),
            match attributes.spec_message_attributes(
                crate::messages::ButtplugDeviceMessageType::VibrateCmd,
            ) {
                Some(a) => a.step_count.len() >= 1 && forall|i: int|
                    0 <= i < a.step_count.len() ==> #[trigger] a.step_count[i] <= 251,
                None => false,
            },
        ensures
            r.wf(),
            spec_is_fresh_manager(r.manager, *attributes),
            spec_is_stop_commands(
                r.stop_commands@,
                spec_resolved_step_len(
                    *attributes,
                    crate::messages::ButtplugDeviceMessageType::VibrateCmd,
                ),
                spec_resolved_step_len(
                    *attributes,
                    crate::messages::ButtplugDeviceMessageType::RotateCmd,
                ),
                spec_resolved_step_len(
                    *attributes,
                    crate::messages::ButtplugDeviceMessageType::ScalarCmd,
                ),
            ),
    {
        let manager = GenericCommandManager::new(attributes);
        let stop_commands = manager.stop_commands();
        Hismith { manager, stop_commands }
    }

    /// Validates and diffs a vibrate request; a changed speed yields
    /// exactly one packet write, a redundant request yields none.
    pub fn handle_vibrate_cmd(&mut self, msg: &VibrateCmd) -> (r: Result<
        Vec<DeviceWriteCmd>,
        ButtplugDeviceError,
    >)
        requires
            old(self).wf(),
        ensures
            final(self).wf(),
            final(self).manager.vibrate_steps == old(self).manager.vibrate_steps,
            spec_preserves_but_vibrate(old(self).manager, final(self).manager),
            final(self).stop_commands == old(self).stop_commands,
            match spec_vibration_result(old(self).manager, *msg, false) {
                Err(e) => r == Err::<Vec<DeviceWriteCmd>, ButtplugDeviceError>(e)
                    && final(self).manager == old(self).manager,
                Ok(result) => {
                    &&& final(self).manager.vibrate_current@ == result.0
                    &&& match r {
                        Ok(writes) => match result.1 {
                            None => writes@.len() == 0,
                            Some(out) => match out[0] {
                                Some(s) => {
                                    &&& writes@.len() == 1
                                    &&& writes@[0].endpoint == Endpoint::Tx
                                    &&& !writes@[0].write_with_response
                                    &&& writes@[0].data@ == spec_hismith_packet(s as u8)
                                },
                                None => writes@.len() == 0,
                            },
                        },
                        Err(_) => false,
                    }
                },
            },
    {
        let result = self.manager.update_vibration(msg, false)?;
        let mut writes: Vec<DeviceWriteCmd> = Vec::new();
        if let Some(cmds) = result {
            if let Some(speed) = cmds[0] {
                let speed_byte = speed as u8;
                let data: Vec<u8> = vec![0xaa, 0x04, speed_byte, speed_byte + 4];
                proof {
                    assert(data@ =~= spec_hismith_packet(speed as u8));
                }
                writes.push(DeviceWriteCmd::new(Endpoint::Tx, data, false));
            }
        }
        Ok(writes)
    }
}

/// Data views of a write list.
pub open spec fn spec_writes_data(writes: Seq<DeviceWriteCmd>) -> Seq<Seq<u8>> {
    writes.map_values(|w: DeviceWriteCmd| w.data@)
}

/// Every write in the list goes to the endpoint with the given
/// acknowledgment mode.
pub open spec fn spec_writes_shape(
    writes: Seq<DeviceWriteCmd>,
    endpoint: Endpoint,
    response: bool,
) -> bool {
    forall|i: int|
        0 <= i < writes.len() ==> (#[trigger] writes[i]).endpoint == endpoint && writes[i].write_with_response
            == response
}

/// The per-feature packets this handler writes for a change set: one
/// three-byte packet per feature whose speed changed, in feature
/// order.
pub open spec fn spec_kizuna_writes(out: Seq<Option<u32>>) -> Seq<Seq<u8>>
    decreases out.len(),
{
    if out.len() == 0 {
        Seq::empty()
    } else {
        let rest = spec_kizuna_writes(out.drop_last());
        match out.last() {
            Some(s) => rest.push(seq![s as u8, 0x0du8, 0x0au8]),
            None => rest,
        }
    }
}

/// Handler for hardware taking carriage-return-terminated speed bytes
/// and a textual probe on session setup.
#[derive(Debug)]
pub struct Kizuna {
    pub manager: GenericCommandManager,
    pub stop_commands: Vec<ButtplugDeviceCommandMessageUnion>,
}

impl Kizuna {
    /// Every declared vibration feature scales into one byte.
    pub open spec fn wf(self) -> bool {
        &&& self.manager.wf()
        &&& forall|i: int|
            0 <= i < self.manager.vibrate_steps@.len() ==> #[trigger] self.manager.vibrate_steps@[i]
                <= 255
    }

    pub fn new_protocol(attributes: &ProtocolDeviceAttributes) -> (r: Self)
        requires
            attributes.wf(),
            match attributes.spec_message_attributes(
                crate::messages::ButtplugDeviceMessageType::VibrateCmd,
            ) {
                Some(a) => forall|i: int|
                    0 <= i < a.step_count.len() ==> #[trigger] a.step_count[i] <= 255,
                None => true,
            },
        ensures
            r.wf(),
            spec_is_fresh_manager(r.manager, *attributes),
            spec_is_stop_commands(
                r.stop_commands@,
                spec_resolved_step_len(
                    *attributes,
                    crate::messages::ButtplugDeviceMessageType::VibrateCmd,
                ),
                spec_resolved_step_len(
                    *attributes,
                    crate::messages::ButtplugDeviceMessageType::RotateCmd,
                ),
                spec_resolved_step_len(
                    *attributes,
                    crate::messages::ButtplugDeviceMessageType::ScalarCmd,
                ),
            ),
    {
        let manager = GenericCommandManager::new(attributes);
        let stop_commands = manager.stop_commands();
        Kizuna { manager, stop_commands }
    }

    /// The probe written on session setup before the handler is used.
    pub fn initialize(&self) -> (r: DeviceWriteCmd)
        ensures
            r.endpoint == Endpoint::Tx,
            r.write_with_response,
            r.data@ == seq![0x3fu8, 0x0du8, 0x0au8],
    {
        let data: Vec<u8> = vec![0x3f, 0x0d, 0x0a];
        proof {
            assert(data@ =~= seq![0x3fu8, 0x0du8, 0x0au8]);
        }
        DeviceWriteCmd::new(Endpoint::Tx, data, true)
    }

    /// Validates and diffs a vibrate request; each changed feature
    /// yields one packet write, a redundant request yields none.
    pub fn handle_vibrate_cmd(&mut self, msg: &VibrateCmd) -> (r: Result<
        Vec<DeviceWriteCmd>,
        ButtplugDeviceError,
    >)
        requires
            old(self).wf(),
        ensures
            final(self).wf(),
            final(self).manager.vibrate_steps == old(self).manager.vibrate_steps,
            spec_preserves_but_vibrate(old(self).manager, final(self).manager),
            final(self).stop_commands == old(self).stop_commands,
            match spec_vibration_result(old(self).manager, *msg, false) {
                Err(e) => r == Err::<Vec<DeviceWriteCmd>, ButtplugDeviceError>(e)
                    && final(self).manager == old(self).manager,
                Ok(result) => {
                    &&& final(self).manager.vibrate_current@ == result.0
                    &&& match r {
                        Ok(writes) => match result.1 {
                            None => writes@.len() == 0,
                            Some(out) => {
                                &&& spec_writes_data(writes@) == spec_kizuna_writes(out)
                                &&& spec_writes_shape(writes@, Endpoint::Tx, false)
                            },
                        },
                        Err(_) => false,
                    }
                },
            },
    {
        let result = self.manager.update_vibration(msg, false)?;
        let mut writes: Vec<DeviceWriteCmd> = Vec::new();
        if let Some(cmds) = result {
            let n = cmds.len();
            let mut i: usize = 0;
            proof {
                assert(cmds@.take(0) =~= Seq::<Option<u32>>::empty());
            }
            while i < n
                invariant
                    n == cmds@.len(),
                    0 <= i <= n,
                    spec_writes_data(writes@) =~= spec_kizuna_writes(cmds@.take(i as int)),
                    spec_writes_shape(writes@, Endpoint::Tx, false),
                decreases n - i,
            {
                proof {
                    assert(cmds@.take(i as int + 1).drop_last() =~= cmds@.take(i as int));
                    assert(cmds@.take(i as int + 1).last() == cmds@[i as int]);
                }
                if let Some(speed) = cmds[i] {
                    let data: Vec<u8> = vec![speed as u8, 0x0d, 0x0a];
                    proof {
                        assert(data@ =~= seq![(cmds@[i as int]->Some_0) as u8, 0x0du8, 0x0au8]);
                    }
                    writes.push(DeviceWriteCmd::new(Endpoint::Tx, data, false));
                }
                i = i + 1;
            }
            proof {
                assert(cmds@.take(n as int) =~= cmds@);
            }
        }
        Ok(writes)
    }
}

/// Scales a position level to the ninety-nine-step axis range used by
/// textual motion commands.
pub open spec fn spec_position_99(position: u32) -> int {
    (position * 99) / (LEVEL_SCALE as int)
}

/// The per-feature textual packets this handler writes for a change
/// set: `V<index><speed:02>\n` for each changed feature.
pub open spec fn spec_tcode_vibrate_writes(out: Seq<Option<u32>>) -> Seq<Seq<u8>>
    decreases out.len(),
{
    if out.len() == 0 {
        Seq::empty()
    } else {
        let rest = spec_tcode_vibrate_writes(out.drop_last());
        let i = out.len() - 1;
        match out.last() {
            Some(s) => rest.push(
                seq![
                    0x56u8,
                    (0x30 + i) as u8,
                    (0x30 + s / 10) as u8,
                    (0x30 + s % 10) as u8,
                    0x0au8,
                ],
            ),
            None => rest,
        }
    }
}

/// The textual packet written for one linear movement vector:
/// `L<index><position:02>I<duration>\n`.
pub open spec fn spec_tcode_linear_write(v: crate::messages::VectorSubcommand) -> Seq<u8> {
    let pos = spec_position_99(v.position);
    seq![0x4cu8, (0x30 + v.index) as u8, (0x30 + pos / 10) as u8, (0x30 + pos % 10) as u8, 0x49u8]
        + spec_decimal_digits(v.duration as int) + seq![0x0au8]
}

/// Handler for hardware driven by a textual axis-command protocol.
#[derive(Debug)]
pub struct TCodeV03 {
    pub manager: GenericCommandManager,
    pub stop_commands: Vec<ButtplugDeviceCommandMessageUnion>,
}

impl TCodeV03 {
    /// At most ten single-digit feature indexes, speeds scaling into
    /// two decimal digits.
    pub open spec fn wf(self) -> bool {
        &&& self.manager.wf()
        &&& self.manager.vibrate_steps@.len() <= 10
        &&& forall|i: int|
            0 <= i < self.manager.vibrate_steps@.len() ==> #[trigger] self.manager.vibrate_steps@[i]
                <= 99
        &&& self.manager.linear_count <= 10
    }

    pub fn new(attributes: &ProtocolDeviceAttributes) -> (r: Self)
        requires
            attributes.wf(),
            match attributes.spec_message_attributes(
                crate::messages::ButtplugDeviceMessageType::VibrateCmd,
            ) {
                Some(a) => a.step_count.len() <= 10 && forall|i: int|
                    0 <= i < a.step_count.len() ==> #[trigger] a.step_count[i] <= 99,
                None => true,
            },
            match attributes.spec_message_attributes(
                crate::messages::ButtplugDeviceMessageType::LinearCmd,
            ) {
                Some(a) => a.feature_count <= 10,
                None => true,
            },
        ensures
            r.wf(),
            spec_is_fresh_manager(r.manager, *attributes),
            spec_is_stop_commands(
                r.stop_commands@,
                spec_resolved_step_len(
                    *attributes,
                    crate::messages::ButtplugDeviceMessageType::VibrateCmd,
                ),
                spec_resolved_step_len(
                    *attributes,
                    crate::messages::ButtplugDeviceMessageType::RotateCmd,
                ),
                spec_resolved_step_len(
                    *attributes,
                    crate::messages::ButtplugDeviceMessageType::ScalarCmd,
                ),
            ),
    {
        let manager = GenericCommandManager::new(attributes);
        let stop_commands = manager.stop_commands();
        TCodeV03 { manager, stop_commands }
    }

    /// Validates and diffs a vibrate request; each changed feature
    /// yields one textual packet write.
    pub fn handle_vibrate_cmd(&mut self, msg: &VibrateCmd) -> (r: Result<
        Vec<DeviceWriteCmd>,
        ButtplugDeviceError,
    >)
        requires
            old(self).wf(),
        ensures
            final(self).wf(),
            final(self).manager.vibrate_steps == old(self).manager.vibrate_steps,
            spec_preserves_but_vibrate(old(self).manager, final(self).manager),
            final(self).stop_commands == old(self).stop_commands,
            match spec_vibration_result(old(self).manager, *msg, false) {
                Err(e) => r == Err::<Vec<DeviceWriteCmd>, ButtplugDeviceError>(e)
                    && final(self).manager == old(self).manager,
                Ok(result) => {
                    &&& final(self).manager.vibrate_current@ == result.0
                    &&& match r {
                        Ok(writes) => match result.1 {
                            None => writes@.len() == 0,
                            Some(out) => {
                                &&& spec_writes_data(writes@) == spec_tcode_vibrate_writes(out)
                                &&& spec_writes_shape(writes@, Endpoint::Tx, false)
                            },
                        },
                        Err(_) => false,
                    }
                },
            },
    {
        let ghost oldself = *old(self);
        let result = self.manager.update_vibration(msg, false)?;
        let mut writes: Vec<DeviceWriteCmd> = Vec::new();
        if let Some(cmds) = result {
            let ghost stepresult = spec_vibration_result(oldself.manager, *msg, false);
            let n = cmds.len();
            let mut i: usize = 0;
            proof {
                assert(cmds@.take(0) =~= Seq::<Option<u32>>::empty());
            }
            while i < n
                invariant
                    n == cmds@.len(),
                    0 <= i <= n,
                    n <= 10,
                    forall|j: int|
                        0 <= j < n ==> match #[trigger] cmds@[j] {
                            Some(s) => s <= 99,
                            None => true,
                        },
                    spec_writes_data(writes@) =~= spec_tcode_vibrate_writes(cmds@.take(i as int)),
                    spec_writes_shape(writes@, Endpoint::Tx, false),
                decreases n - i,
            {
                proof {
                    assert(cmds@.take(i as int + 1).drop_last() =~= cmds@.take(i as int));
                    assert(cmds@.take(i as int + 1).last() == cmds@[i as int]);
                }
                if let Some(speed) = cmds[i] {
                    let data: Vec<u8> = vec![
                        0x56,
                        0x30 + (i as u8),
                        0x30 + ((speed / 10) as u8),
                        0x30 + ((speed % 10) as u8),
                        0x0a,
                    ];
                    proof {
                        assert(data@ =~= seq![
                            0x56u8,
                            (0x30 + i) as u8,
                            (0x30 + (cmds@[i as int]->Some_0) / 10) as u8,
                            (0x30 + (cmds@[i as int]->Some_0) % 10) as u8,
                            0x0au8,
                        ]);
                    }
                    writes.push(DeviceWriteCmd::new(Endpoint::Tx, data, false));
                }
                i = i + 1;
            }
            proof {
                assert(cmds@.take(n as int) =~= cmds@);
            }
        }
        Ok(writes)
    }

    /// Validates a linear request and renders one textual packet per
    /// movement vector.
    pub fn handle_linear_cmd(&self, msg: &LinearCmd) -> (r: Result<
        Vec<DeviceWriteCmd>,
        ButtplugDeviceError,
    >)
        requires
            self.wf(),
        ensures
            match crate::command_manager::spec_first_pair_error(
                msg.vectors@.map_values(
                    |v: crate::messages::VectorSubcommand| (v.index, v.position),
                ),
                self.manager.linear_count as int,
                0,
            ) {
                Some(e) => r == Err::<Vec<DeviceWriteCmd>, ButtplugDeviceError>(e),
                None => match r {
                    Ok(writes) => {
                        &&& writes@.len() == msg.vectors@.len()
                        &&& forall|i: int|
                            0 <= i < writes@.len() ==> (#[trigger] writes@[i]).data@
                                == spec_tcode_linear_write(msg.vectors@[i])
                        &&& spec_writes_shape(writes@, Endpoint::Tx, false)
                    },
                    Err(_) => false,
                },
            },
    {
        let fc = self.manager.linear_count;
        let ghost pairs = msg.vectors@.map_values(
            |v: crate::messages::VectorSubcommand| (v.index, v.position),
        );
        let n = msg.vectors.len();
        let mut i: usize = 0;
        while i < n
            invariant
                n == msg.vectors@.len(),
                0 <= i <= n,
                fc == self.manager.linear_count,
                pairs == msg.vectors@.map_values(
                    |v: crate::messages::VectorSubcommand| (v.index, v.position),
                ),
                crate::command_manager::spec_first_pair_error(pairs, fc as int, 0)
                    == crate::command_manager::spec_first_pair_error(pairs, fc as int, i as int),
                forall|j: int|
                    0 <= j < i ==> (#[trigger] msg.vectors@[j]).index < fc
                        && msg.vectors@[j].position <= LEVEL_SCALE,
            decreases n - i,
        {
            let v = &msg.vectors[i];
            if v.index >= fc {
                return Err(ButtplugDeviceError::DeviceFeatureIndexError(fc, v.index));
            }
            if v.position > LEVEL_SCALE {
                return Err(ButtplugDeviceError::InvalidValue(v.index, v.position));
            }
            i = i + 1;
        }
        let mut writes: Vec<DeviceWriteCmd> = Vec::new();
        let mut i: usize = 0;
        while i < n
            invariant
                n == msg.vectors@.len(),
                0 <= i <= n,
                fc == self.manager.linear_count,
                fc <= 10,
                forall|j: int|
                    0 <= j < n ==> (#[trigger] msg.vectors@[j]).index < fc
                        && msg.vectors@[j].position <= LEVEL_SCALE,
                writes@.len() == i,
                forall|j: int|
                    0 <= j < i ==> (#[trigger] writes@[j]).data@ == spec_tcode_linear_write(
                        msg.vectors@[j],
                    ),
                spec_writes_shape(writes@, Endpoint::Tx, false),
            decreases n - i,
        {
            let v = &msg.vectors[i];
            proof {
                lemma_position_99_bound(v.position);
            }
            let pos: u32 = (((v.position as u64) * 99) / (LEVEL_SCALE as u64)) as u32;
            let mut data: Vec<u8> = vec![
                0x4c,
                0x30 + (v.index as u8),
                0x30 + ((pos / 10) as u8),
                0x30 + ((pos % 10) as u8),
                0x49,
            ];
            let mut digits = u32_decimal_bytes(v.duration);
            data.append(&mut digits);
            data.push(0x0a);
            proof {
                assert(data@ =~= spec_tcode_linear_write(msg.vectors@[i as int]));
            }
            writes.push(DeviceWriteCmd::new(Endpoint::Tx, data, false));
            i = i + 1;
        }
        Ok(writes)
    }
}

/// A level scaled to the ninety-nine-step axis range stays within it.
pub proof fn lemma_position_99_bound(position: u32)
    requires
        position <= LEVEL_SCALE,
    ensures
        0 <= spec_position_99(position) <= 99,
{
    let scale = LEVEL_SCALE as int;
    assert(position * 99 < 100_000_000) by (nonlinear_arith)
        requires
            position <= 1_000_000,
    ;
    assert(scale * 100 == 100_000_000);
    lemma_multiply_divide_lt(position * 99, scale, 100);
    assert(position * 99 >= 0) by (nonlinear_arith);
    lemma_div_pos_is_pos(position * 99, scale);
}

/// The lowercase byte spelling of the rocket model name.
pub open spec fn spec_rocket_needle() -> Seq<u8> {
    seq![0x72u8, 0x6fu8, 0x63u8, 0x6bu8, 0x65u8, 0x74u8]
}

/// The byte spelling of the UFO model name.
pub open spec fn spec_ufo_needle() -> Seq<u8> {
    seq![0x55u8, 0x46u8, 0x4fu8]
}

/// The device byte a vibrate packet carries, chosen from the
/// advertised name.
pub open spec fn spec_vorze_vibrate_device(name_bytes: Seq<u8>) -> u8 {
    if bytes_contain(spec_lower_bytes(name_bytes), spec_rocket_needle()) {
        7u8
    } else {
        6u8
    }
}

/// The device byte a rotate packet carries, chosen from the
/// advertised name.
pub open spec fn spec_vorze_rotate_device(name_bytes: Seq<u8>) -> u8 {
    if bytes_contain(name_bytes, spec_ufo_needle()) {
        2u8
    } else {
        1u8
    }
}

/// Scales a level to the two-hundred-step piston position range.
pub open spec fn spec_position_200(position: u32) -> int {
    (position * 200) / (LEVEL_SCALE as int)
}

/// A level scaled to the two-hundred-step range stays within it.
pub proof fn lemma_position_200_bound(position: u32)
    requires
        position <= LEVEL_SCALE,
    ensures
        0 <= spec_position_200(position) <= 200,
{
    let scale = LEVEL_SCALE as int;
    assert(position * 200 < 201_000_000) by (nonlinear_arith)
        requires
            position <= 1_000_000,
    ;
    assert(scale * 201 == 201_000_000);
    lemma_multiply_divide_lt(position * 200, scale, 201);
    assert(position * 200 >= 0) by (nonlinear_arith);
    lemma_div_pos_is_pos(position * 200, scale);
}

/// Handler for a hardware family sharing one three-byte packet format
/// across vibrating, rotating and piston devices; the first byte names
/// the device model, chosen from the advertised name.
#[derive(Debug)]
pub struct VorzeSA {
    pub manager: GenericCommandManager,
    pub stop_commands: Vec<ButtplugDeviceCommandMessageUnion>,
    pub previous_position: u8,
    pub vibrate_device: u8,
    pub rotate_device: u8,
}

impl VorzeSA {
    /// One byte-sized speed per feature; rotation speeds leave the top
    /// bit free for the direction flag.
    pub open spec fn wf(self) -> bool {
        &&& self.manager.wf()
        &&& forall|i: int|
            0 <= i < self.manager.vibrate_steps@.len() ==> #[trigger] self.manager.vibrate_steps@[i]
                <= 255
        &&& forall|i: int|
            0 <= i < self.manager.rotate_steps@.len() ==> #[trigger] self.manager.rotate_steps@[i]
                <= 127
    }

    /// Builds the handler, picking the device model bytes from the
    /// advertised name.
    pub fn new_protocol(name: &str, attributes: &ProtocolDeviceAttributes) -> (r: Self)
        requires
            attributes.wf(),
            match attributes.spec_message_attributes(
                crate::messages::ButtplugDeviceMessageType::VibrateCmd,
            ) {
                Some(a) => forall|i: int|
                    0 <= i < a.step_count.len() ==> #[trigger] a.step_count[i] <= 255,
                None => true,
            },
            match attributes.spec_message_attributes(
                crate::messages::ButtplugDeviceMessageType::RotateCmd,
            ) {
                Some(a) => forall|i: int|
                    0 <= i < a.step_count.len() ==> #[trigger] a.step_count[i] <= 127,
                None => true,
            },
        ensures
            r.wf(),
            spec_is_fresh_manager(r.manager, *attributes),
            spec_is_stop_commands(
                r.stop_commands@,
                spec_resolved_step_len(
                    *attributes,
                    crate::messages::ButtplugDeviceMessageType::VibrateCmd,
                ),
                spec_resolved_step_len(
                    *attributes,
                    crate::messages::ButtplugDeviceMessageType::RotateCmd,
                ),
                spec_resolved_step_len(
                    *attributes,
                    crate::messages::ButtplugDeviceMessageType::ScalarCmd,
                ),
            ),
            r.previous_position == 0,
            r.vibrate_device == spec_vorze_vibrate_device(name.spec_bytes()),
            r.rotate_device == spec_vorze_rotate_device(name.spec_bytes()),
    {
        let manager = GenericCommandManager::new(attributes);
        let stop_commands = manager.stop_commands();
        let name_bytes = name.as_bytes_vec();
        let lower = ascii_lower_bytes(&name_bytes);
        proof {
            assert(lower@ =~= spec_lower_bytes(name.spec_bytes()));
        }
        let rocket: Vec<u8> = vec![0x72, 0x6f, 0x63, 0x6b, 0x65, 0x74];
        let ufo: Vec<u8> = vec![0x55, 0x46, 0x4f];
        proof {
            assert(rocket@ =~= spec_rocket_needle());
            assert(ufo@ =~= spec_ufo_needle());
        }
        let vibrate_device: u8 = if bytes_contain_exec(&lower, &rocket) {
            7
        } else {
            6
        };
        let rotate_device: u8 = if bytes_contain_exec(&name_bytes, &ufo) {
            2
        } else {
            1
        };
        VorzeSA { manager, stop_commands, previous_position: 0, vibrate_device, rotate_device }
    }

    /// Validates and diffs a vibrate request; a changed speed yields
    /// one three-byte packet naming the vibrating model.
    pub fn handle_vibrate_cmd(&mut self, msg: &VibrateCmd) -> (r: Result<
        Vec<DeviceWriteCmd>,
        ButtplugDeviceError,
    >)
        requires
            old(self).wf(),
            old(self).manager.vibrate_steps@.len() >= 1,
        ensures
            final(self).wf(),
            final(self).manager.vibrate_steps == old(self).manager.vibrate_steps,
            spec_preserves_but_vibrate(old(self).manager, final(self).manager),
            final(self).stop_commands == old(self).stop_commands,
            final(self).previous_position == old(self).previous_position,
            final(self).vibrate_device == old(self).vibrate_device,
            final(self).rotate_device == old(self).rotate_device,
            match spec_vibration_result(old(self).manager, *msg, false) {
                Err(e) => r == Err::<Vec<DeviceWriteCmd>, ButtplugDeviceError>(e)
                    && final(self).manager == old(self).manager,
                Ok(result) => {
                    &&& final(self).manager.vibrate_current@ == result.0
                    &&& match r {
                        Ok(writes) => match result.1 {
                            None => writes@.len() == 0,
                            Some(out) => match out[0] {
                                Some(s) => {
                                    &&& writes@.len() == 1
                                    &&& writes@[0].endpoint == Endpoint::Tx
                                    &&& writes@[0].write_with_response
                                    &&& writes@[0].data@ == seq![
                                        old(self).vibrate_device,
                                        0x03u8,
                                        s as u8,
                                    ]
                                },
                                None => writes@.len() == 0,
                            },
                        },
                        Err(_) => false,
                    }
                },
            },
    {
        let result = self.manager.update_vibration(msg, false)?;
        let mut writes: Vec<DeviceWriteCmd> = Vec::new();
        if let Some(cmds) = result {
            if let Some(speed) = cmds[0] {
                let data: Vec<u8> = vec![self.vibrate_device, 0x03, speed as u8];
                proof {
                    assert(data@ =~= seq![self.vibrate_device, 0x03u8, (speed as u8)]);
                }
                writes.push(DeviceWriteCmd::new(Endpoint::Tx, data, true));
            }
        }
        Ok(writes)
    }

    /// Validates and diffs a rotate request; a changed speed or
    /// direction yields one packet whose data byte sets the top bit
    /// for clockwise motion.
    pub fn handle_rotate_cmd(&mut self, msg: &RotateCmd) -> (r: Result<
        Vec<DeviceWriteCmd>,
        ButtplugDeviceError,
    >)
        requires
            old(self).wf(),
            old(self).manager.rotate_steps@.len() >= 1,
        ensures
            final(self).wf(),
            final(self).manager.rotate_steps == old(self).manager.rotate_steps,
            spec_preserves_but_rotate(old(self).manager, final(self).manager),
            final(self).stop_commands == old(self).stop_commands,
            final(self).previous_position == old(self).previous_position,
            final(self).vibrate_device == old(self).vibrate_device,
            final(self).rotate_device == old(self).rotate_device,
            match spec_rotation_result(old(self).manager, *msg) {
                Err(e) => r == Err::<Vec<DeviceWriteCmd>, ButtplugDeviceError>(e)
                    && final(self).manager == old(self).manager,
                Ok(result) => {
                    &&& final(self).manager.rotate_current@ == result.0
                    &&& match r {
                        Ok(writes) => match result.1[0] {
                            Some(pair) => {
                                &&& writes@.len() == 1
                                &&& writes@[0].endpoint == Endpoint::Tx
                                &&& writes@[0].write_with_response
                                &&& writes@[0].data@ == seq![
                                    old(self).rotate_device,
                                    0x01u8,
                                    ((if pair.1 {
                                        128u8
                                    } else {
                                        0u8
                                    }) + pair.0 as u8) as u8,
                                ]
                            },
                            None => writes@.len() == 0,
                        },
                        Err(_) => false,
                    }
                },
            },
    {
        let result = self.manager.update_rotation(msg)?;
        let mut writes: Vec<DeviceWriteCmd> = Vec::new();
        if let Some(pair) = result[0] {
            let (speed, clockwise) = pair;
            let dir: u8 = if clockwise {
                128
            } else {
                0
            };
            let data: Vec<u8> = vec![self.rotate_device, 0x01, dir + (speed as u8)];
            proof {
                assert(data@ =~= seq![
                    self.rotate_device,
                    0x01u8,
                    ((if clockwise {
                        128u8
                    } else {
                        0u8
                    }) + speed as u8) as u8,
                ]);
            }
            writes.push(DeviceWriteCmd::new(Endpoint::Tx, data, true));
        }
        Ok(writes)
    }

    /// Translates a legacy single-rotator request into a rotate
    /// request at level `speed / 99` of full scale and handles it.
    pub fn handle_vorze_a10_cyclone_cmd(&mut self, msg: &VorzeA10CycloneCmd) -> (r: Result<
        Vec<DeviceWriteCmd>,
        ButtplugDeviceError,
    >)
        requires
            old(self).wf(),
            old(self).manager.rotate_steps@.len() >= 1,
            msg.speed <= 99,
        ensures
            final(self).wf(),
            final(self).manager.rotate_steps == old(self).manager.rotate_steps,
            spec_preserves_but_rotate(old(self).manager, final(self).manager),
            final(self).stop_commands == old(self).stop_commands,
            final(self).previous_position == old(self).previous_position,
            final(self).vibrate_device == old(self).vibrate_device,
            final(self).rotate_device == old(self).rotate_device,
            ({
                let level = ((msg.speed * (LEVEL_SCALE as int)) / 99) as u32;
                let cmds = seq![(0u32, level, msg.clockwise)];
                let fc = old(self).manager.rotate_steps@.len() as int;
                if fc != 1 {
                    r == Err::<Vec<DeviceWriteCmd>, ButtplugDeviceError>(
                        ButtplugDeviceError::DeviceFeatureCountMismatch(fc as u32, 1u32),
                    ) && final(self).manager == old(self).manager
                } else {
                    let result = crate::command_manager::spec_update_rotations(
                        old(self).manager.rotate_current@,
                        old(self).manager.rotate_steps@,
                        cmds,
                    );
                    &&& final(self).manager.rotate_current@ == result.0
                    &&& match r {
                        Ok(writes) => match result.1[0] {
                            Some(pair) => {
                                &&& writes@.len() == 1
                                &&& writes@[0].endpoint == Endpoint::Tx
                                &&& writes@[0].write_with_response
                                &&& writes@[0].data@ == seq![
                                    old(self).rotate_device,
                                    0x01u8,
                                    ((if pair.1 {
                                        128u8
                                    } else {
                                        0u8
                                    }) + pair.0 as u8) as u8,
                                ]
                            },
                            None => writes@.len() == 0,
                        },
                        Err(_) => false,
                    }
                }
            }),
    {
        proof {
            lemma_cyclone_level_bound(msg.speed);
        }
        let level: u32 = (((msg.speed as u64) * (LEVEL_SCALE as u64)) / 99) as u32;
        let rotations: Vec<RotationSubcommand> = vec![
            RotationSubcommand::new(0, level, msg.clockwise),
        ];
        let rotate_msg = RotateCmd::new(msg.device_index, rotations);
        let ghost cmds = seq![(0u32, level, msg.clockwise)];
        let ghost fc = self.manager.rotate_steps@.len() as int;
        proof {
            assert(crate::command_manager::spec_rotate_triples(rotate_msg.rotations@) =~= cmds);
            if fc == 1 {
                assert(cmds[0] == (0u32, level, msg.clockwise));
                assert(crate::command_manager::spec_first_triple_error(cmds, 1, 1) is None);
                assert(crate::command_manager::spec_first_triple_error(cmds, 1, 0) is None);
            }
        }
        self.handle_rotate_cmd(&rotate_msg)
    }

    /// Computes the scaled target position, the travel distance from
    /// the previous position, and the requested duration of a linear
    /// request. The caller turns distance and duration into a piston
    /// speed and hands both to [`Self::commit_linear`].
    pub fn prepare_linear(&self, msg: &LinearCmd) -> (r: Result<
        (u8, u8, u32),
        ButtplugDeviceError,
    >)
        ensures
            match r {
                Ok(out) => {
                    &&& msg.vectors@.len() == 1
                    &&& msg.vectors@[0].position <= LEVEL_SCALE
                    &&& out.0 == spec_position_200(msg.vectors@[0].position) as u8
                    &&& out.1 == if self.previous_position >= out.0 {
                        (self.previous_position - out.0) as u8
                    } else {
                        (out.0 - self.previous_position) as u8
                    }
                    &&& out.2 == msg.vectors@[0].duration
                },
                Err(e) => if msg.vectors@.len() != 1 {
                    e == ButtplugDeviceError::DeviceFeatureCountMismatch(
                        1u32,
                        msg.vectors@.len() as u32,
                    )
                } else {
                    msg.vectors@[0].position > LEVEL_SCALE && e
                        == ButtplugDeviceError::InvalidValue(
                        msg.vectors@[0].index,
                        msg.vectors@[0].position,
                    )
                },
            },
    {
        if msg.vectors.len() != 1 {
            return Err(
                ButtplugDeviceError::DeviceFeatureCountMismatch(
                    1,
                    #[verifier::truncate] (msg.vectors.len() as u32),
                ),
            );
        }
        let v = &msg.vectors[0];
        if v.position > LEVEL_SCALE {
            return Err(ButtplugDeviceError::InvalidValue(v.index, v.position));
        }
        proof {
            lemma_position_200_bound(v.position);
        }
        let position: u8 = (((v.position as u64) * 200) / (LEVEL_SCALE as u64)) as u8;
        let distance: u8 = if self.previous_position >= position {
            self.previous_position - position
        } else {
            position - self.previous_position
        };
        Ok((position, distance, v.duration))
    }

    /// Records the new piston position and renders the movement
    /// packet for a speed the caller computed.
    pub fn commit_linear(&mut self, position: u8, speed: u8) -> (r: Vec<DeviceWriteCmd>)
        ensures
            *final(self) == (VorzeSA { previous_position: position, ..*old(self) }),
            r@.len() == 1,
            r@[0].endpoint == Endpoint::Tx,
            r@[0].write_with_response,
            r@[0].data@ == seq![0x03u8, position, speed],
    {
        self.previous_position = position;
        let data: Vec<u8> = vec![0x03, position, speed];
        proof {
            assert(data@ =~= seq![0x03u8, position, speed]);
        }
        let mut writes: Vec<DeviceWriteCmd> = Vec::new();
        writes.push(DeviceWriteCmd::new(Endpoint::Tx, data, true));
        writes
    }
}

/// A legacy rotator speed in ninety-ninths maps into full scale.
pub proof fn lemma_cyclone_level_bound(speed: u32)
    requires
        speed <= 99,
    ensures
        0 <= (speed * (LEVEL_SCALE as int)) / 99 <= LEVEL_SCALE,
{
    let scale = LEVEL_SCALE as int;
    assert(speed * scale <= 99 * scale) by (nonlinear_arith)
        requires
            speed <= 99,
            scale == 1_000_000,
    ;
    assert(speed * scale < 99 * (scale + 1)) by (nonlinear_arith)
        requires
            speed * scale <= 99 * scale,
            scale == 1_000_000,
    ;
    lemma_multiply_divide_lt(speed * scale, 99, scale + 1);
    assert(speed * scale >= 0) by (nonlinear_arith)
        requires
            speed >= 0,
            scale >= 0,
    ;
    lemma_div_pos_is_pos(speed * scale, 99);
}

/// The speed byte a vibration level maps to on the 0..=247 range,
/// truncating downward.
pub open spec fn spec_youou_speed(level: u32) -> int {
    (level * 247) / (LEVEL_SCALE as int)
}

/// A level scaled to the 0..=247 range stays within it.
pub proof fn lemma_youou_speed_bound(level: u32)
    requires
        level <= LEVEL_SCALE,
    ensures
        0 <= spec_youou_speed(level) <= 247,
{
    let scale = LEVEL_SCALE as int;
    assert(level * 247 < 248_000_000) by (nonlinear_arith)
        requires
            level <= 1_000_000,
    ;
    assert(scale * 248 == 248_000_000);
    lemma_multiply_divide_lt(level * 247, scale, 248);
    assert(level * 247 >= 0) by (nonlinear_arith);
    lemma_div_pos_is_pos(level * 247, scale);
}

/// The seventeen-byte packet written for a speed byte under a given
/// packet id: a fixed header, the speed, an on/off state byte, an
/// exclusive-or checksum and padding.
pub open spec fn spec_youou_packet(packet_id: u8, speed: u8) -> Seq<u8> {
    let state: u8 = if speed > 0 {
        1u8
    } else {
        0u8
    };
    let crc: u8 = (0xaau8 ^ 0x55u8 ^ packet_id ^ 0x02u8 ^ 0x03u8 ^ 0x01u8 ^ speed ^ state);
    seq![
        0xaau8,
        0x55u8,
        packet_id,
        0x02u8,
        0x03u8,
        0x01u8,
        speed,
        state,
        crc,
        0xffu8,
        0x00u8,
        0x00u8,
        0x00u8,
        0x00u8,
        0x00u8,
        0x00u8,
        0x00u8,
    ]
}

/// Handler for hardware taking a checksummed packet with a
/// monotonically increasing packet id.
#[derive(Debug)]
pub struct Youou {
    pub packet_id: u8,
    pub stop_commands: Vec<ButtplugDeviceCommandMessageUnion>,
}

impl Youou {
    pub fn new(attributes: &ProtocolDeviceAttributes) -> (r: Self)
        requires
            attributes.wf(),
        ensures
            r.packet_id == 0,
            spec_is_stop_commands(
                r.stop_commands@,
                spec_resolved_step_len(
                    *attributes,
                    crate::messages::ButtplugDeviceMessageType::VibrateCmd,
                ),
                spec_resolved_step_len(
                    *attributes,
                    crate::messages::ButtplugDeviceMessageType::RotateCmd,
                ),
                spec_resolved_step_len(
                    *attributes,
                    crate::messages::ButtplugDeviceMessageType::ScalarCmd,
                ),
            ),
    {
        let manager = GenericCommandManager::new(attributes);
        let stop_commands = manager.stop_commands();
        Youou { packet_id: 0, stop_commands }
    }

    /// Validates a single-feature vibrate request and renders one
    /// packet carrying the truncated 0..=247 speed; every packet
    /// consumes one packet id, wrapping at the byte boundary.
    pub fn handle_vibrate_cmd(&mut self, msg: &VibrateCmd) -> (r: Result<
        Vec<DeviceWriteCmd>,
        ButtplugDeviceError,
    >)
        ensures
            final(self).stop_commands == old(self).stop_commands,
            ({
                if msg.speeds@.len() != 1 {
                    &&& r == Err::<Vec<DeviceWriteCmd>, ButtplugDeviceError>(
                        ButtplugDeviceError::DeviceFeatureCountMismatch(
                            1u32,
                            msg.speeds@.len() as u32,
                        ),
                    )
                    &&& final(self).packet_id == old(self).packet_id
                } else if msg.speeds@[0].speed > LEVEL_SCALE {
                    &&& r == Err::<Vec<DeviceWriteCmd>, ButtplugDeviceError>(
                        ButtplugDeviceError::InvalidValue(
                            msg.speeds@[0].index,
                            msg.speeds@[0].speed,
                        ),
                    )
                    &&& final(self).packet_id == old(self).packet_id
                } else {
                    let speed = spec_youou_speed(msg.speeds@[0].speed) as u8;
                    &&& final(self).packet_id == (if old(self).packet_id == 255 {
                        0u8
                    } else {
                        (old(self).packet_id + 1) as u8
                    })
                    &&& match r {
                        Ok(writes) => {
                            &&& writes@.len() == 1
                            &&& writes@[0].endpoint == Endpoint::Tx
                            &&& !writes@[0].write_with_response
                            &&& writes@[0].data@ == spec_youou_packet(old(self).packet_id, speed)
                        },
                        Err(_) => false,
                    }
                }
            }),
    {
        if msg.speeds.len() != 1 {
            return Err(
                ButtplugDeviceError::DeviceFeatureCountMismatch(
                    1,
                    #[verifier::truncate] (msg.speeds.len() as u32),
                ),
            );
        }
        let sub = &msg.speeds[0];
        if sub.speed > LEVEL_SCALE {
            return Err(ButtplugDeviceError::InvalidValue(sub.index, sub.speed));
        }
        proof {
            lemma_youou_speed_bound(sub.speed);
        }
        let speed: u8 = (((sub.speed as u64) * 247) / (LEVEL_SCALE as u64)) as u8;
        let state: u8 = if speed > 0 {
            1
        } else {
            0
        };
        let pid = self.packet_id;
        let crc: u8 = 0xaa ^ 0x55 ^ pid ^ 0x02 ^ 0x03 ^ 0x01 ^ speed ^ state;
        let data: Vec<u8> = vec![
            0xaa,
            0x55,
            pid,
            0x02,
            0x03,
            0x01,
            speed,
            state,
            crc,
            0xff,
            0x00,
            0x00,
            0x00,
            0x00,
            0x00,
            0x00,
            0x00,
        ];
        proof {
            assert(data@ =~= spec_youou_packet(pid, speed));
        }
        self.packet_id = if pid == 255 {
            0
        } else {
            pid + 1
        };
        let mut writes: Vec<DeviceWriteCmd> = Vec::new();
        writes.push(DeviceWriteCmd::new(Endpoint::Tx, data, false));
        Ok(writes)
    }
}

/// The block of per-feature bytes this handler writes: each feature's
/// byte-sized speed repeated four times, features in order.
pub open spec fn spec_satisfyer_data(out: Seq<Option<u32>>) -> Seq<u8> {
    Seq::new(
        (4 * out.len()) as nat,
        |k: int|
            match out[k / 4] {
                Some(s) => s as u8,
                None => 0u8,
            },
    )
}

/// Handler for hardware that drops its connection without periodic
/// traffic: every update stores the full data block so a keepalive
/// task can re-send it.
#[derive(Debug)]
pub struct Satisfyer {
    pub manager: GenericCommandManager,
    pub stop_commands: Vec<ButtplugDeviceCommandMessageUnion>,
    pub last_command: Vec<u8>,
}

impl Satisfyer {
    /// Every declared vibration feature scales into one byte.
    pub open spec fn wf(self) -> bool {
        &&& self.manager.wf()
        &&& forall|i: int|
            0 <= i < self.manager.vibrate_steps@.len() ==> #[trigger] self.manager.vibrate_steps@[i]
                <= 255
    }

    pub fn new(attributes: &ProtocolDeviceAttributes, last_command: Vec<u8>) -> (r: Self)
        requires
            attributes.wf(),
            match attributes.spec_message_attributes(
                crate::messages::ButtplugDeviceMessageType::VibrateCmd,
            ) {
                Some(a) => forall|i: int|
                    0 <= i < a.step_count.len() ==> #[trigger] a.step_count[i] <= 255,
                None => true,
            },
        ensures
            r.wf(),
            spec_is_fresh_manager(r.manager, *attributes),
            spec_is_stop_commands(
                r.stop_commands@,
                spec_resolved_step_len(
                    *attributes,
                    crate::messages::ButtplugDeviceMessageType::VibrateCmd,
                ),
                spec_resolved_step_len(
                    *attributes,
                    crate::messages::ButtplugDeviceMessageType::RotateCmd,
                ),
                spec_resolved_step_len(
                    *attributes,
                    crate::messages::ButtplugDeviceMessageType::ScalarCmd,
                ),
            ),
            r.last_command == last_command,
    {
        let manager = GenericCommandManager::new(attributes);
        let stop_commands = manager.stop_commands();
        Satisfyer { manager, stop_commands, last_command }
    }

    /// The data block the keepalive task re-sends.
    pub fn last_command(&self) -> (r: &Vec<u8>)
        ensures
            r == &self.last_command,
    {
        &self.last_command
    }

    /// Validates and diffs a vibrate request. Because the hardware
    /// wants the full block on every write, any change re-sends every
    /// feature; the block is also stored for the keepalive task.
    pub fn handle_vibrate_cmd(&mut self, msg: &VibrateCmd) -> (r: Result<
        Vec<DeviceWriteCmd>,
        ButtplugDeviceError,
    >)
        requires
            old(self).wf(),
        ensures
            final(self).wf(),
            final(self).manager.vibrate_steps == old(self).manager.vibrate_steps,
            spec_preserves_but_vibrate(old(self).manager, final(self).manager),
            final(self).stop_commands == old(self).stop_commands,
            match spec_vibration_result(old(self).manager, *msg, true) {
                Err(e) => r == Err::<Vec<DeviceWriteCmd>, ButtplugDeviceError>(e)
                    && final(self).manager == old(self).manager && final(self).last_command == old(
                    self,
                ).last_command,
                Ok(result) => {
                    &&& final(self).manager.vibrate_current@ == result.0
                    &&& match r {
                        Ok(writes) => match result.1 {
                            None => writes@.len() == 0 && final(self).last_command == old(
                                self,
                            ).last_command,
                            Some(out) => {
                                &&& writes@.len() == 1
                                &&& writes@[0].endpoint == Endpoint::Tx
                                &&& !writes@[0].write_with_response
                                &&& writes@[0].data@ == spec_satisfyer_data(out)
                                &&& final(self).last_command@ == spec_satisfyer_data(out)
                            },
                        },
                        Err(_) => false,
                    }
                },
            },
    {
        let result = self.manager.update_vibration(msg, true)?;
        let mut writes: Vec<DeviceWriteCmd> = Vec::new();
        if let Some(cmds) = result {
            let n = cmds.len();
            let mut data: Vec<u8> = Vec::new();
            let mut i: usize = 0;
            while i < n
                invariant
                    n == cmds@.len(),
                    0 <= i <= n,
                    data@.len() == 4 * i,
                    forall|k: int|
                        0 <= k < 4 * i ==> #[trigger] data@[k] == (match cmds@[k / 4] {
                            Some(s) => s as u8,
                            None => 0u8,
                        }),
                decreases n - i,
            {
                let b: u8 = match cmds[i] {
                    Some(s) => s as u8,
                    None => 0,
                };
                data.push(b);
                data.push(b);
                data.push(b);
                data.push(b);
                proof {
                    assert((4 * i as int) / 4 == i as int && (4 * i as int + 1) / 4 == i as int
                        && (4 * i as int + 2) / 4 == i as int && (4 * i as int + 3) / 4
                        == i as int) by (nonlinear_arith);
                }
                i = i + 1;
            }
            proof {
                assert(data@ =~= spec_satisfyer_data(cmds@));
            }
            let mut stored: Vec<u8> = Vec::new();
            let m = data.len();
            let mut j: usize = 0;
            while j < m
                invariant
                    m == data@.len(),
                    0 <= j <= m,
                    stored@ =~= data@.take(j as int),
                decreases m - j,
            {
                stored.push(data[j]);
                j = j + 1;
            }
            proof {
                assert(stored@ =~= data@);
            }
            self.last_command = stored;
            writes.push(DeviceWriteCmd::new(Endpoint::Tx, data, false));
        }
        Ok(writes)
    }
}

/// Builds handlers for the satisfyer hardware family.
#[derive(Debug, Default)]
pub struct SatisfyerFactory {}

impl SatisfyerFactory {
    /// The protocol name this factory is registered under.
    pub fn protocol_identifier(&self) -> (r: &'static str)
        ensures
            r@ == "satisfyer"@,
    {
        "satisfyer"
    }
}

/// The numeric device identifier read back from the hardware during
/// session setup: the big-endian value of the four-byte model answer,
/// or zero when the answer has any other length.
pub open spec fn spec_satisfyer_device_identifier(bytes: Seq<u8>) -> int {
    if bytes.len() == 4 {
        crate::util::spec_u32_from_be(bytes[0], bytes[1], bytes[2], bytes[3])
    } else {
        0
    }
}

/// Decodes the model answer into the numeric device identifier.
pub fn satisfyer_device_identifier(bytes: &Vec<u8>) -> (r: u32)
    ensures
        r == spec_satisfyer_device_identifier(bytes@),
{
    if bytes.len() == 4 {
        crate::util::u32_from_be_bytes(bytes[0], bytes[1], bytes[2], bytes[3])
    } else {
        0
    }
}

/// The size of the keepalive data block for a resolved profile: four
/// bytes per declared scalar feature, or eight when the profile
/// declares none.
pub fn satisfyer_last_command_size(attributes: &ProtocolDeviceAttributes) -> (r: usize)
    requires
        match attributes.spec_message_attributes(
            crate::messages::ButtplugDeviceMessageType::ScalarCmd,
        ) {
            Some(a) => a.feature_count <= 16384,
            None => true,
        },
    ensures
        r == match attributes.spec_message_attributes(
            crate::messages::ButtplugDeviceMessageType::ScalarCmd,
        ) {
            Some(a) => 4 * a.feature_count as int,
            None => 8int,
        },
{
    match attributes.message_attributes_for(crate::messages::ButtplugDeviceMessageType::ScalarCmd) {
        Some(a) => 4 * (a.feature_count as usize),
        None => 8,
    }
}

/// Handler for hardware needing traffic every few hundred
/// milliseconds: updates rewrite a shared command block that a
/// keepalive task re-sends until the transport drops.
#[derive(Debug)]
pub struct Hgod {
    pub manager: GenericCommandManager,
    pub stop_commands: Vec<ButtplugDeviceCommandMessageUnion>,
    pub current_command: Vec<u8>,
    pub updater_running: bool,
}

impl Hgod {
    /// Every declared vibration feature scales into one byte and the
    /// command block keeps its six-byte shape.
    pub open spec fn wf(self) -> bool {
        &&& self.manager.wf()
        &&& forall|i: int|
            0 <= i < self.manager.vibrate_steps@.len() ==> #[trigger] self.manager.vibrate_steps@[i]
                <= 255
        &&& self.current_command@.len() == 6
    }

    pub fn new(attributes: &ProtocolDeviceAttributes) -> (r: Self)
        requires
            attributes.wf(),
            match attributes.spec_message_attributes(
                crate::messages::ButtplugDeviceMessageType::VibrateCmd,
            ) {
                Some(a) => forall|i: int|
                    0 <= i < a.step_count.len() ==> #[trigger] a.step_count[i] <= 255,
                None => true,
            },
        ensures
            r.wf(),
            spec_is_fresh_manager(r.manager, *attributes),
            spec_is_stop_commands(
                r.stop_commands@,
                spec_resolved_step_len(
                    *attributes,
                    crate::messages::ButtplugDeviceMessageType::VibrateCmd,
                ),
                spec_resolved_step_len(
                    *attributes,
                    crate::messages::ButtplugDeviceMessageType::RotateCmd,
                ),
                spec_resolved_step_len(
                    *attributes,
                    crate::messages::ButtplugDeviceMessageType::ScalarCmd,
                ),
            ),
            r.current_command@ == seq![0x55u8, 0x04u8, 0u8, 0u8, 0u8, 0u8],
            !r.updater_running,
    {
        let manager = GenericCommandManager::new(attributes);
        let stop_commands = manager.stop_commands();
        let current_command: Vec<u8> = vec![0x55, 0x04, 0, 0, 0, 0];
        proof {
            assert(current_command@ =~= seq![0x55u8, 0x04u8, 0u8, 0u8, 0u8, 0u8]);
        }
        Hgod { manager, stop_commands, current_command, updater_running: false }
    }

    /// The command block the keepalive task re-sends.
    pub fn current_command(&self) -> (r: &Vec<u8>)
        ensures
            r == &self.current_command,
    {
        &self.current_command
    }

    /// Validates and diffs a vibrate request. A changed speed rewrites
    /// the shared command block; the result says whether the caller
    /// must start the keepalive task now (it is started exactly once).
    pub fn handle_vibrate_cmd(&mut self, msg: &VibrateCmd) -> (r: Result<
        bool,
        ButtplugDeviceError,
    >)
        requires
            old(self).wf(),
            old(self).manager.vibrate_steps@.len() >= 1,
        ensures
            final(self).wf(),
            final(self).manager.vibrate_steps == old(self).manager.vibrate_steps,
            spec_preserves_but_vibrate(old(self).manager, final(self).manager),
            final(self).stop_commands == old(self).stop_commands,
            match spec_vibration_result(old(self).manager, *msg, false) {
                Err(e) => {
                    &&& r == Err::<bool, ButtplugDeviceError>(e)
                    &&& final(self).manager == old(self).manager
                    &&& final(self).current_command == old(self).current_command
                    &&& final(self).updater_running == old(self).updater_running
                },
                Ok(result) => {
                    &&& final(self).manager.vibrate_current@ == result.0
                    &&& match r {
                        Ok(spawn) => match result.1 {
                            None => {
                                &&& final(self).current_command == old(self).current_command
                                &&& final(self).updater_running == old(self).updater_running
                                &&& !spawn
                            },
                            Some(out) => match out[0] {
                                Some(speed) => {
                                    &&& final(self).current_command@ == seq![
                                        0x55u8,
                                        0x04u8,
                                        0u8,
                                        0u8,
                                        0u8,
                                        speed as u8,
                                    ]
                                    &&& final(self).updater_running
                                    &&& spawn == !old(self).updater_running
                                },
                                None => {
                                    &&& final(self).current_command == old(self).current_command
                                    &&& final(self).updater_running == old(self).updater_running
                                    &&& !spawn
                                },
                            },
                        },
                        Err(_) => false,
                    }
                },
            },
    {
        let result = self.manager.update_vibration(msg, false)?;
        if let Some(cmds) = result {
            if let Some(speed) = cmds[0] {
                let command: Vec<u8> = vec![0x55, 0x04, 0, 0, 0, speed as u8];
                proof {
                    assert(command@ =~= seq![0x55u8, 0x04u8, 0u8, 0u8, 0u8, (speed as u8)]);
                }
                self.current_command = command;
                let spawn = !self.updater_running;
                self.updater_running = true;
                return Ok(spawn);
            }
        }
        Ok(false)
    }
}

/// Handler for hardware speaking a framed message protocol over its
/// transport. It supports one linear axis; the session-setup framing
/// and the byte encoding of movements belong to the transport side,
/// which hands validated duration and position through.
#[derive(Debug)]
pub struct TheHandy {
    pub previous_position: u8,
    pub stop_commands: Vec<ButtplugDeviceCommandMessageUnion>,
}

impl TheHandy {
    pub fn new(attributes: &ProtocolDeviceAttributes) -> (r: Self)
        requires
            attributes.wf(),
        ensures
            r.previous_position == 0,
            spec_is_stop_commands(
                r.stop_commands@,
                spec_resolved_step_len(
                    *attributes,
                    crate::messages::ButtplugDeviceMessageType::VibrateCmd,
                ),
                spec_resolved_step_len(
                    *attributes,
                    crate::messages::ButtplugDeviceMessageType::RotateCmd,
                ),
                spec_resolved_step_len(
                    *attributes,
                    crate::messages::ButtplugDeviceMessageType::ScalarCmd,
                ),
            ),
    {
        let manager = GenericCommandManager::new(attributes);
        let stop_commands = manager.stop_commands();
        TheHandy { previous_position: 0, stop_commands }
    }

    /// Validates a linear request against the single axis: exactly one
    /// movement vector with a position within full scale, whose
    /// duration and position are returned for encoding.
    pub fn handle_linear_cmd(&self, msg: &LinearCmd) -> (r: Result<
        (u32, u32),
        ButtplugDeviceError,
    >)
        ensures
            match r {
                Ok(out) => {
                    &&& msg.vectors@.len() == 1
                    &&& msg.vectors@[0].position <= LEVEL_SCALE
                    &&& out.0 == msg.vectors@[0].duration
                    &&& out.1 == msg.vectors@[0].position
                },
                Err(e) => if msg.vectors@.len() != 1 {
                    e == ButtplugDeviceError::DeviceFeatureCountMismatch(
                        1u32,
                        msg.vectors@.len() as u32,
                    )
                } else {
                    msg.vectors@[0].position > LEVEL_SCALE && e
                        == ButtplugDeviceError::InvalidValue(
                        msg.vectors@[0].index,
                        msg.vectors@[0].position,
                    )
                },
            },
    {
        if msg.vectors.len() != 1 {
            return Err(
                ButtplugDeviceError::DeviceFeatureCountMismatch(
                    1,
                    #[verifier::truncate] (msg.vectors.len() as u32),
                ),
            );
        }
        let v = &msg.vectors[0];
        if v.position > LEVEL_SCALE {
            return Err(ButtplugDeviceError::InvalidValue(v.index, v.position));
        }
        Ok((v.duration, v.position))
    }

    /// Records the position a legacy stroke command targets and hands
    /// back the previous one, from which the caller derives the
    /// stroke distance.
    pub fn fleshlight_position_update(&mut self, position: u8) -> (prev: u8)
        ensures
            final(self).previous_position == position,
            final(self).stop_commands == old(self).stop_commands,
            prev == old(self).previous_position,
    {
        let prev = self.previous_position;
        self.previous_position = position;
        prev
    }
}

} // verus!
