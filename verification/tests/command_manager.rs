//! Command state manager tests: scaling, validation, the anti-chatter
//! diffing guarantee, and generated stop commands.

use buttplug::command_manager::{scale_level, GenericCommandManager};
use buttplug::configuration::{DeviceMessageAttributes, ProtocolDeviceAttributes};
use buttplug::errors::ButtplugDeviceError;
use buttplug::messages::{
    ButtplugDeviceCommandMessageUnion, ButtplugDeviceMessageType, RotateCmd, RotationSubcommand,
    ScalarCmd, ScalarSubcommand, VibrateCmd, VibrateSubcommand,
};

fn profile(kind: ButtplugDeviceMessageType, steps: Vec<u32>) -> ProtocolDeviceAttributes {
    let count = steps.len() as u32;
    ProtocolDeviceAttributes::new(
        None,
        None,
        vec![(kind, DeviceMessageAttributes::new(count, steps))],
        None,
    )
}

#[test]
fn test_scale_level_round_trip() {
    // Requesting half scale on a hundred-step feature stores fifty.
    assert_eq!(scale_level(500_000, 100), 50);
    assert_eq!(scale_level(0, 100), 0);
    assert_eq!(scale_level(1_000_000, 100), 100);
    // Rounding is half-up and never exceeds the step count.
    assert_eq!(scale_level(500_000, 78), 39);
    assert_eq!(scale_level(900_000, 100), 90);
    assert_eq!(scale_level(5_000, 100), 1);
    assert_eq!(scale_level(4_999, 100), 0);
}

#[test]
fn test_scale_level_monotone_examples() {
    let mut previous = 0;
    for level in [0u32, 1, 250_000, 499_999, 500_000, 750_000, 1_000_000] {
        let scaled = scale_level(level, 20);
        assert!(scaled >= previous);
        assert!(scaled <= 20);
        previous = scaled;
    }
}

#[test]
fn test_update_vibration_diffs_repeats() {
    let attrs = profile(ButtplugDeviceMessageType::VibrateCmd, vec![100]);
    let mut manager = GenericCommandManager::new(&attrs);
    let msg = VibrateCmd::new(0, vec![VibrateSubcommand::new(0, 500_000)]);
    let first = manager.update_vibration(&msg, false).unwrap();
    assert_eq!(first, Some(vec![Some(50)]));
    // The identical request produces no change set at all.
    let second = manager.update_vibration(&msg, false).unwrap();
    assert_eq!(second, None);
    // A level that scales to the same stored value is also redundant.
    let near = VibrateCmd::new(0, vec![VibrateSubcommand::new(0, 500_001)]);
    let third = manager.update_vibration(&near, false).unwrap();
    assert_eq!(third, None);
    let changed = VibrateCmd::new(0, vec![VibrateSubcommand::new(0, 600_000)]);
    let fourth = manager.update_vibration(&changed, false).unwrap();
    assert_eq!(fourth, Some(vec![Some(60)]));
}

#[test]
fn test_update_vibration_match_all_fills_unchanged() {
    let attrs = profile(ButtplugDeviceMessageType::VibrateCmd, vec![100, 100]);
    let mut manager = GenericCommandManager::new(&attrs);
    let msg = VibrateCmd::new(
        0,
        vec![
            VibrateSubcommand::new(0, 500_000),
            VibrateSubcommand::new(1, 0),
        ],
    );
    let first = manager.update_vibration(&msg, true).unwrap();
    assert_eq!(first, Some(vec![Some(50), Some(0)]));
    // With match-all, any change re-sends every feature.
    let msg = VibrateCmd::new(
        0,
        vec![
            VibrateSubcommand::new(0, 500_000),
            VibrateSubcommand::new(1, 900_000),
        ],
    );
    let second = manager.update_vibration(&msg, true).unwrap();
    assert_eq!(second, Some(vec![Some(50), Some(90)]));
    // A fully redundant request still produces nothing.
    let third = manager.update_vibration(&msg, true).unwrap();
    assert_eq!(third, None);
}

#[test]
fn test_pattern_active_forces_resend() {
    let attrs = profile(ButtplugDeviceMessageType::VibrateCmd, vec![100]);
    let mut manager = GenericCommandManager::new(&attrs);
    manager.set_pattern_active(true);
    let msg = VibrateCmd::new(0, vec![VibrateSubcommand::new(0, 500_000)]);
    // A pattern is never idempotent: the identical request re-sends.
    assert_eq!(manager.update_vibration(&msg, false).unwrap(), Some(vec![Some(50)]));
    assert_eq!(manager.update_vibration(&msg, false).unwrap(), Some(vec![Some(50)]));
}

#[test]
fn test_update_vibration_validation_errors() {
    let attrs = profile(ButtplugDeviceMessageType::VibrateCmd, vec![100, 100]);
    let mut manager = GenericCommandManager::new(&attrs);
    // Wrong value count.
    let msg = VibrateCmd::new(0, vec![VibrateSubcommand::new(0, 500_000)]);
    assert_eq!(
        manager.update_vibration(&msg, false).unwrap_err(),
        ButtplugDeviceError::DeviceFeatureCountMismatch(2, 1)
    );
    // Feature index out of range.
    let msg = VibrateCmd::new(
        0,
        vec![
            VibrateSubcommand::new(0, 500_000),
            VibrateSubcommand::new(5, 500_000),
        ],
    );
    assert_eq!(
        manager.update_vibration(&msg, false).unwrap_err(),
        ButtplugDeviceError::DeviceFeatureIndexError(2, 5)
    );
    // Level beyond full scale, with the offending index and value.
    let msg = VibrateCmd::new(
        0,
        vec![
            VibrateSubcommand::new(0, 500_000),
            VibrateSubcommand::new(1, 1_000_001),
        ],
    );
    assert_eq!(
        manager.update_vibration(&msg, false).unwrap_err(),
        ButtplugDeviceError::InvalidValue(1, 1_000_001)
    );
    // A rejected request leaves the stored state untouched.
    let msg = VibrateCmd::new(
        0,
        vec![
            VibrateSubcommand::new(0, 500_000),
            VibrateSubcommand::new(1, 500_000),
        ],
    );
    assert_eq!(
        manager.update_vibration(&msg, false).unwrap(),
        Some(vec![Some(50), Some(50)])
    );
}

#[test]
fn test_update_rotation_diffs_direction() {
    let attrs = profile(ButtplugDeviceMessageType::RotateCmd, vec![100]);
    let mut manager = GenericCommandManager::new(&attrs);
    let msg = RotateCmd::new(0, vec![RotationSubcommand::new(0, 500_000, true)]);
    assert_eq!(manager.update_rotation(&msg).unwrap(), vec![Some((50, true))]);
    // Same speed, same direction: no per-feature change.
    assert_eq!(manager.update_rotation(&msg).unwrap(), vec![None]);
    // Same speed, flipped direction: the feature is re-sent.
    let msg = RotateCmd::new(0, vec![RotationSubcommand::new(0, 500_000, false)]);
    assert_eq!(manager.update_rotation(&msg).unwrap(), vec![Some((50, false))]);
}

#[test]
fn test_update_scalar_behaves_like_vibration() {
    let attrs = profile(ButtplugDeviceMessageType::ScalarCmd, vec![20]);
    let mut manager = GenericCommandManager::new(&attrs);
    let msg = ScalarCmd::new(0, vec![ScalarSubcommand::new(0, 500_000)]);
    assert_eq!(manager.update_scalar(&msg, false).unwrap(), Some(vec![Some(10)]));
    assert_eq!(manager.update_scalar(&msg, false).unwrap(), None);
}

#[test]
fn test_stop_commands_cover_declared_kinds() {
    let attrs = ProtocolDeviceAttributes::new(
        None,
        None,
        vec![
            (
                ButtplugDeviceMessageType::VibrateCmd,
                DeviceMessageAttributes::new(2, vec![100, 100]),
            ),
            (
                ButtplugDeviceMessageType::RotateCmd,
                DeviceMessageAttributes::new(1, vec![50]),
            ),
        ],
        None,
    );
    let manager = GenericCommandManager::new(&attrs);
    let stops = manager.stop_commands();
    assert_eq!(stops.len(), 2);
    match &stops[0] {
        ButtplugDeviceCommandMessageUnion::VibrateCmd(v) => {
            assert_eq!(v.speeds.len(), 2);
            assert!(v.speeds.iter().all(|s| s.speed == 0));
        }
        other => panic!("expected a vibrate stop, got {:?}", other),
    }
    match &stops[1] {
        ButtplugDeviceCommandMessageUnion::RotateCmd(r) => {
            assert_eq!(r.rotations.len(), 1);
            assert_eq!(r.rotations[0].speed, 0);
        }
        other => panic!("expected a rotate stop, got {:?}", other),
    }
}

#[test]
fn test_scalar_cmd_is_valid() {
    let msg = ScalarCmd::new(0, vec![ScalarSubcommand::new(0, 500_000)]);
    // Id zero is the reserved system id.
    let mut bad = msg.clone();
    bad.id = 0;
    assert!(bad.is_valid().is_err());
    let ok = ScalarCmd::new(1, vec![ScalarSubcommand::new(0, 1_000_000)]);
    assert!(ok.is_valid().is_ok());
    let out_of_range = ScalarCmd::new(1, vec![ScalarSubcommand::new(2, 1_000_001)]);
    assert_eq!(
        out_of_range.is_valid().unwrap_err(),
        buttplug::errors::ButtplugMessageError::InvalidMessageContents(2, 1_000_001)
    );
}
