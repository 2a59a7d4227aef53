//! End-to-end flow: a profile with one hundred-step vibrate feature,
//! resolved from an advertisement, driven through validation, diffing
//! and encoding.

use buttplug::device_configuration::create_test_dcm;
use buttplug::messages::{Endpoint, VibrateCmd, VibrateSubcommand};
use buttplug::protocols::VorzeSA;

#[test]
fn test_end_to_end_single_vibrator() {
    // Discovery hands over an advertised name; resolution picks the
    // protocol and the capability profile: one vibrate feature with a
    // hundred steps.
    let dcm = create_test_dcm(false);
    let advertised = String::from("Bach smart");
    let services: Vec<u128> = Vec::new();
    let entry = dcm
        .protocol_for_btle_advertisement(&advertised, &services)
        .expect("the advertisement matches a protocol");
    assert_eq!(entry.0, "vorze-sa");
    let attrs = entry
        .1
        .create(&String::from("aa:bb:cc:dd:ee:ff"), &advertised)
        .expect("the profile resolves")
        .duplicate();
    let mut handler = VorzeSA::new_protocol("Bach smart", &attrs);

    // The client asks for half power: exactly one write, carrying the
    // scaled value fifty.
    let msg = VibrateCmd::new(0, vec![VibrateSubcommand::new(0, 500_000)]);
    let writes = handler.handle_vibrate_cmd(&msg).unwrap();
    assert_eq!(writes.len(), 1);
    assert_eq!(writes[0].endpoint, Endpoint::Tx);
    assert_eq!(writes[0].data, vec![0x06, 0x03, 50]);

    // The client repeats the identical command: zero writes.
    let writes = handler.handle_vibrate_cmd(&msg).unwrap();
    assert!(writes.is_empty());

    // The client stops the device: the generated stop command drives
    // the feature to zero with exactly one write.
    let stops = handler.stop_commands.clone();
    assert_eq!(stops.len(), 1);
    match &stops[0] {
        buttplug::messages::ButtplugDeviceCommandMessageUnion::VibrateCmd(stop) => {
            let writes = handler.handle_vibrate_cmd(stop).unwrap();
            assert_eq!(writes.len(), 1);
            assert_eq!(writes[0].data, vec![0x06, 0x03, 0]);
        }
        other => panic!("expected a vibrate stop command, got {:?}", other),
    }
}
