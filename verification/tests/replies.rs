use iot_firmata_bridge::firmata::reply::{
    analog_mapping_response, capability_response, firmware_report, frame_sysex,
};

#[test]
fn firmware_report_of_the_virtual_board() {
    let mut expected = vec![0xF0, 0x79, 1, 0];
    expected.extend_from_slice(b"FirmataBridge (using MockBoard)");
    expected.push(0xF7);
    assert_eq!(firmware_report("MockBoard"), expected);
}

#[test]
fn firmware_report_of_a_non_ascii_name() {
    let mut expected = vec![0xF0, 0x79, 1, 0];
    expected.extend_from_slice("FirmataBridge (using Carte é)".as_bytes());
    expected.push(0xF7);
    assert_eq!(firmware_report("Carte é"), expected);
}

#[test]
fn capability_response_frames_the_table() {
    assert_eq!(capability_response(&[0, 1, 0x7F]), vec![0xF0, 0x6C, 0, 1, 0x7F, 0xF7]);
    assert_eq!(capability_response(&[]), vec![0xF0, 0x6C, 0xF7]);
}

#[test]
fn analog_mapping_response_frames_the_mapping() {
    assert_eq!(analog_mapping_response(&[0x7F, 1]), vec![0xF0, 0x6A, 0x7F, 1, 0xF7]);
}

#[test]
fn sysex_frame() {
    assert_eq!(frame_sysex(0x71, &[1, 2, 3]), vec![0xF0, 0x71, 1, 2, 3, 0xF7]);
}
