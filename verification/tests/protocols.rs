//! Protocol handler tests: each drives a handler resolved from the
//! built-in catalog and checks the exact wire bytes.

use buttplug::configuration::ProtocolDeviceAttributes;
use buttplug::device_configuration::create_test_dcm;
use buttplug::messages::{
    Endpoint, LinearCmd, RotateCmd, RotationSubcommand, VectorSubcommand, VibrateCmd,
    VibrateSubcommand,
};
use buttplug::protocols::{
    DeviceWriteCmd, Hgod, Hismith, Kizuna, MagicMotionV3, MizzZee, Satisfyer, SatisfyerFactory,
    TCodeV03, TheHandy, VorzeSA, satisfyer_device_identifier, satisfyer_last_command_size,
};

fn resolve_btle_attrs(name: &str) -> ProtocolDeviceAttributes {
    let dcm = create_test_dcm(false);
    let advertised = String::from(name);
    let services: Vec<u128> = Vec::new();
    let entry = dcm
        .protocol_for_btle_advertisement(&advertised, &services)
        .expect("advertised name should match a protocol");
    let address = String::from("aa:bb:cc:dd:ee:ff");
    entry
        .1
        .create(&address, &advertised)
        .expect("profile should resolve")
        .duplicate()
}

fn vibrate(level: u32) -> VibrateCmd {
    VibrateCmd::new(0, vec![VibrateSubcommand::new(0, level)])
}

fn expect_single_write(writes: &[DeviceWriteCmd], data: &[u8], response: bool) {
    assert_eq!(writes.len(), 1);
    assert_eq!(writes[0].endpoint, Endpoint::Tx);
    assert_eq!(writes[0].write_with_response, response);
    assert_eq!(writes[0].data, data.to_vec());
}

#[test]
fn test_magic_motion_v3_protocol() {
    let attrs = resolve_btle_attrs("Krush");
    let mut handler = MagicMotionV3::new(&attrs);
    let writes = handler.handle_vibrate_cmd(&vibrate(500_000)).unwrap();
    expect_single_write(
        &writes,
        &[
            0x0b, 0xff, 0x04, 0x0a, 0x46, 0x46, 0x00, 0x04, 0x08, 0x27, 0x64, 0x00,
        ],
        false,
    );
    // Since the command repeats the stored state, nothing is written.
    let writes = handler.handle_vibrate_cmd(&vibrate(500_000)).unwrap();
    assert!(writes.is_empty());
    let writes = handler.handle_vibrate_cmd(&vibrate(0)).unwrap();
    expect_single_write(
        &writes,
        &[
            0x0b, 0xff, 0x04, 0x0a, 0x46, 0x46, 0x00, 0x04, 0x08, 0x00, 0x64, 0x00,
        ],
        false,
    );
}

#[test]
fn test_mizz_zee_protocol() {
    let attrs = resolve_btle_attrs("NFY008");
    let mut handler = MizzZee::new(&attrs);
    let writes = handler.handle_vibrate_cmd(&vibrate(500_000)).unwrap();
    expect_single_write(&writes, &[0x69, 0x96, 0x03, 0x01, 0x01, 34], false);
    let writes = handler.handle_vibrate_cmd(&vibrate(0)).unwrap();
    expect_single_write(&writes, &[0x69, 0x96, 0x03, 0x01, 0x00, 0x00], false);
}

#[test]
fn test_vorze_sa_vibration_protocol_bach() {
    let attrs = resolve_btle_attrs("Bach smart");
    let mut handler = VorzeSA::new_protocol("Bach smart", &attrs);
    let writes = handler.handle_vibrate_cmd(&vibrate(500_000)).unwrap();
    expect_single_write(&writes, &[0x06, 0x03, 50], true);
    let writes = handler.handle_vibrate_cmd(&vibrate(0)).unwrap();
    expect_single_write(&writes, &[0x06, 0x03, 0x00], true);
}

#[test]
fn test_vorze_sa_vibration_protocol_rocket() {
    let attrs = resolve_btle_attrs("ROCKET");
    let mut handler = VorzeSA::new_protocol("ROCKET", &attrs);
    let writes = handler.handle_vibrate_cmd(&vibrate(500_000)).unwrap();
    expect_single_write(&writes, &[0x07, 0x03, 50], true);
    let writes = handler.handle_vibrate_cmd(&vibrate(0)).unwrap();
    expect_single_write(&writes, &[0x07, 0x03, 0x00], true);
}

#[test]
fn test_vorze_sa_rotation_protocol() {
    let attrs = resolve_btle_attrs("CycSA");
    let mut handler = VorzeSA::new_protocol("CycSA", &attrs);
    let rotate = RotateCmd::new(0, vec![RotationSubcommand::new(0, 500_000, false)]);
    let writes = handler.handle_rotate_cmd(&rotate).unwrap();
    expect_single_write(&writes, &[0x01, 0x01, 50], true);
    let rotate = RotateCmd::new(0, vec![RotationSubcommand::new(0, 500_000, true)]);
    let writes = handler.handle_rotate_cmd(&rotate).unwrap();
    expect_single_write(&writes, &[0x01, 0x01, 178], true);
    let rotate = RotateCmd::new(0, vec![RotationSubcommand::new(0, 0, false)]);
    let writes = handler.handle_rotate_cmd(&rotate).unwrap();
    expect_single_write(&writes, &[0x01, 0x01, 0x00], true);
}

/// The stroke speed for a travel distance (in half-percents) over a
/// duration in milliseconds, as the piston hardware expects it. The
/// power-curve fit runs in floating point and therefore sits with the
/// test, outside the verified library.
fn piston_speed(mut distance: f64, mut duration: f64) -> u8 {
    if distance <= 0f64 {
        return 100;
    }
    if distance > 200f64 {
        distance = 200f64;
    }
    duration = 200f64 * duration / distance;
    let mut speed = (duration / 6658f64).powf(-1.21);
    if speed > 100f64 {
        speed = 100f64;
    }
    if speed < 0f64 {
        speed = 0f64;
    }
    speed as u8
}

#[test]
fn test_vorze_sa_linear_protocol() {
    let attrs = resolve_btle_attrs("VorzePiston");
    let mut handler = VorzeSA::new_protocol("VorzePiston", &attrs);

    let msg = LinearCmd::new(0, vec![VectorSubcommand::new(0, 150, 950_000)]);
    let (position, distance, duration) = handler.prepare_linear(&msg).unwrap();
    let speed = piston_speed(distance as f64, duration as f64);
    let writes = handler.commit_linear(position, speed);
    expect_single_write(&writes, &[0x03, 190, 92], true);

    let msg = LinearCmd::new(0, vec![VectorSubcommand::new(0, 150, 950_000)]);
    let (position, distance, duration) = handler.prepare_linear(&msg).unwrap();
    let speed = piston_speed(distance as f64, duration as f64);
    let writes = handler.commit_linear(position, speed);
    expect_single_write(&writes, &[0x03, 190, 100], true);

    let msg = LinearCmd::new(0, vec![VectorSubcommand::new(0, 50, 500_000)]);
    let (position, distance, duration) = handler.prepare_linear(&msg).unwrap();
    let speed = piston_speed(distance as f64, duration as f64);
    let writes = handler.commit_linear(position, speed);
    expect_single_write(&writes, &[0x03, 100, 100], true);

    // The piston profile declares no scalar kinds, so there are no
    // generated stop commands and a stop produces no write.
    assert!(handler.stop_commands.is_empty());
}

#[test]
fn test_youou_protocol() {
    let attrs = resolve_btle_attrs("VX001_01234");
    let mut handler = buttplug::protocols::Youou::new(&attrs);
    let writes = handler.handle_vibrate_cmd(&vibrate(500_000)).unwrap();
    expect_single_write(
        &writes,
        &[
            0xaa,
            0x55,
            0x00,
            0x02,
            0x03,
            0x01,
            (247.0f32 / 2.0f32) as u8,
            0x01,
            0x85,
            0xff,
            0x00,
            0x00,
            0x00,
            0x00,
            0x00,
            0x00,
            0x00,
        ],
        false,
    );
    // The packet id advances even for a repeated level: the stop write
    // carries packet id 1 and the matching checksum.
    let writes = handler.handle_vibrate_cmd(&vibrate(0)).unwrap();
    expect_single_write(
        &writes,
        &[
            0xaa, 0x55, 0x01, 0x02, 0x03, 0x01, 0x00, 0x00, 0xfe, 0xff, 0x00, 0x00, 0x00, 0x00,
            0x00, 0x00, 0x00,
        ],
        false,
    );
}

#[test]
fn test_satisfyer_protocol_full_block() {
    let attrs = resolve_btle_attrs("SF Curvy 2+");
    let mut handler = Satisfyer::new(&attrs, vec![0u8; 8]);
    let msg = VibrateCmd::new(
        0,
        vec![
            VibrateSubcommand::new(0, 500_000),
            VibrateSubcommand::new(1, 900_000),
        ],
    );
    let writes = handler.handle_vibrate_cmd(&msg).unwrap();
    expect_single_write(&writes, &[50, 50, 50, 50, 90, 90, 90, 90], false);
    assert_eq!(handler.last_command(), &vec![50, 50, 50, 50, 90, 90, 90, 90]);
    // An identical request produces no write and keeps the stored
    // block for the keepalive task.
    let writes = handler.handle_vibrate_cmd(&msg).unwrap();
    assert!(writes.is_empty());
    assert_eq!(handler.last_command(), &vec![50, 50, 50, 50, 90, 90, 90, 90]);
    let msg = VibrateCmd::new(
        0,
        vec![VibrateSubcommand::new(0, 0), VibrateSubcommand::new(1, 0)],
    );
    let writes = handler.handle_vibrate_cmd(&msg).unwrap();
    expect_single_write(&writes, &[0, 0, 0, 0, 0, 0, 0, 0], false);
}

#[test]
fn test_satisfyer_factory_identifier() {
    let factory = SatisfyerFactory::default();
    assert_eq!(factory.protocol_identifier(), "satisfyer");
    assert_eq!(satisfyer_device_identifier(&vec![0x00, 0x1e, 0x84, 0x80]), 2_000_000);
    assert_eq!(satisfyer_device_identifier(&vec![0x01, 0x02]), 0);
    let attrs = resolve_btle_attrs("SF Royal One");
    // The built-in satisfyer profile declares no scalar kind, so the
    // keepalive block falls back to eight bytes.
    assert_eq!(satisfyer_last_command_size(&attrs), 8);
}

#[test]
fn test_hismith_protocol() {
    let attrs = resolve_btle_attrs("HISMITH-M");
    let mut handler = Hismith::new(&attrs);
    let writes = handler.handle_vibrate_cmd(&vibrate(500_000)).unwrap();
    expect_single_write(&writes, &[0xaa, 0x04, 50, 54], false);
    let writes = handler.handle_vibrate_cmd(&vibrate(500_000)).unwrap();
    assert!(writes.is_empty());
}

#[test]
fn test_kizuna_protocol() {
    let attrs = resolve_btle_attrs("NS01Toy");
    let mut handler = Kizuna::new_protocol(&attrs);
    let probe = handler.initialize();
    assert_eq!(probe.data, vec![b'?', b'\r', b'\n']);
    assert!(probe.write_with_response);
    let writes = handler.handle_vibrate_cmd(&vibrate(500_000)).unwrap();
    expect_single_write(&writes, &[50, b'\r', b'\n'], false);
    let writes = handler.handle_vibrate_cmd(&vibrate(500_000)).unwrap();
    assert!(writes.is_empty());
}

#[test]
fn test_hgod_protocol_keepalive_handoff() {
    let attrs = resolve_btle_attrs("HGOD-1");
    let mut handler = Hgod::new(&attrs);
    assert_eq!(handler.current_command(), &vec![0x55, 0x04, 0, 0, 0, 0]);
    // The first effective command asks the caller to start the
    // keepalive task exactly once.
    let spawn = handler.handle_vibrate_cmd(&vibrate(500_000)).unwrap();
    assert!(spawn);
    assert_eq!(handler.current_command(), &vec![0x55, 0x04, 0, 0, 0, 50]);
    let spawn = handler.handle_vibrate_cmd(&vibrate(500_000)).unwrap();
    assert!(!spawn);
    let spawn = handler.handle_vibrate_cmd(&vibrate(900_000)).unwrap();
    assert!(!spawn);
    assert_eq!(handler.current_command(), &vec![0x55, 0x04, 0, 0, 0, 90]);
}

#[test]
fn test_tcode_v03_vibrate() {
    let attrs = resolve_btle_attrs("TCODE-OSR2");
    let mut handler = TCodeV03::new(&attrs);
    let writes = handler.handle_vibrate_cmd(&vibrate(500_000)).unwrap();
    expect_single_write(&writes, b"V050\n", false);
    let writes = handler.handle_vibrate_cmd(&vibrate(500_000)).unwrap();
    assert!(writes.is_empty());
}

#[test]
fn test_tcode_v03_linear() {
    let attrs = resolve_btle_attrs("TCODE-OSR2");
    let handler = TCodeV03::new(&attrs);
    let msg = LinearCmd::new(0, vec![VectorSubcommand::new(0, 150, 950_000)]);
    let writes = handler.handle_linear_cmd(&msg).unwrap();
    assert_eq!(writes.len(), 1);
    assert_eq!(writes[0].data, b"L094I150\n".to_vec());
}

#[test]
fn test_vorze_sa_cyclone_compatibility_command() {
    let attrs = resolve_btle_attrs("UFO SA");
    let mut handler = VorzeSA::new_protocol("UFO SA", &attrs);
    // The legacy single-rotator form carries a speed in
    // ninety-ninths; full speed clockwise reaches level 100 with the
    // direction bit set.
    let msg = buttplug::messages::VorzeA10CycloneCmd::new(0, 99, true);
    let writes = handler.handle_vorze_a10_cyclone_cmd(&msg).unwrap();
    expect_single_write(&writes, &[0x02, 0x01, 228], true);
    // A repeat of the same speed and direction writes nothing.
    let writes = handler.handle_vorze_a10_cyclone_cmd(&msg).unwrap();
    assert!(writes.is_empty());
}

#[test]
fn test_youou_rejects_malformed_requests() {
    let attrs = resolve_btle_attrs("VX001_01234");
    let mut handler = buttplug::protocols::Youou::new(&attrs);
    let msg = VibrateCmd::new(0, vec![]);
    assert_eq!(
        handler.handle_vibrate_cmd(&msg).unwrap_err(),
        buttplug::errors::ButtplugDeviceError::DeviceFeatureCountMismatch(1, 0)
    );
    let msg = VibrateCmd::new(0, vec![VibrateSubcommand::new(0, 1_000_001)]);
    assert_eq!(
        handler.handle_vibrate_cmd(&msg).unwrap_err(),
        buttplug::errors::ButtplugDeviceError::InvalidValue(0, 1_000_001)
    );
}

#[test]
fn test_the_handy_linear_validation() {
    let attrs = resolve_btle_attrs("The Handy");
    let mut handler = TheHandy::new(&attrs);
    let msg = LinearCmd::new(0, vec![VectorSubcommand::new(0, 300, 750_000)]);
    let (duration, position) = handler.handle_linear_cmd(&msg).unwrap();
    assert_eq!(duration, 300);
    assert_eq!(position, 750_000);
    // Two vectors on a one-axis device: feature count mismatch.
    let msg = LinearCmd::new(
        0,
        vec![
            VectorSubcommand::new(0, 300, 750_000),
            VectorSubcommand::new(1, 300, 250_000),
        ],
    );
    let err = handler.handle_linear_cmd(&msg).unwrap_err();
    assert_eq!(
        err,
        buttplug::errors::ButtplugDeviceError::DeviceFeatureCountMismatch(1, 2)
    );
    let prev = handler.fleshlight_position_update(80);
    assert_eq!(prev, 0);
    let prev = handler.fleshlight_position_update(20);
    assert_eq!(prev, 80);
}
