use iot_firmata_bridge::firmata::actions::{board_actions, BoardAction};
use iot_firmata_bridge::firmata::constants::{END_SYSEX, START_SYSEX};
use iot_firmata_bridge::firmata::parser::{
    decode_extended_analog, decode_i2c_request, decode_port_values, decode_seven_bit,
    digital_port_writes, parse_command, split_command, Command,
};

fn parse(bytes: &[u8]) -> Option<(Command<Vec<u16>>, usize)> {
    parse_command(bytes)
}

/// Decodes every whole message of `bytes`, in order.
fn parse_all(bytes: &[u8]) -> (Vec<Command<Vec<u16>>>, usize) {
    let mut cmds = Vec::new();
    let mut at = 0;
    while let Some((cmd, n)) = parse_command(&bytes[at..]) {
        cmds.push(cmd);
        at += n;
    }
    (cmds, at)
}

#[test]
fn split_command_of_channel_messages() {
    assert_eq!(split_command(0x91), (0x90, 1));
    assert_eq!(split_command(0xE5), (0xE0, 5));
    assert_eq!(split_command(0xF0), (0xF0, 0));
    assert_eq!(split_command(0x05), (0x00, 5));
}

#[test]
fn split_command_of_system_messages() {
    assert_eq!(split_command(0xF4), (0xF4, 0));
    assert_eq!(split_command(0xFF), (0xFF, 0));
    assert_eq!(split_command(0xF1), (0xF1, 0));
}

#[test]
fn seven_bit_pairs() {
    assert_eq!(decode_seven_bit(0x7F, 0x07), 1023);
    assert_eq!(decode_seven_bit(0x00, 0x00), 0);
    assert_eq!(decode_seven_bit(0x7F, 0x7F), 16383);
    assert_eq!(decode_seven_bit(0xFF, 0x81), 255);
}

#[test]
fn port_values_take_bit_seven_from_msb() {
    assert_eq!(decode_port_values(0x05, 0x01), 0x85);
    assert_eq!(decode_port_values(0xFF, 0xFE), 0x7F);
    assert_eq!(decode_port_values(0x00, 0x03), 0x80);
}

#[test]
fn empty_buffer_is_incomplete() {
    assert_eq!(parse(&[]), None);
}

#[test]
fn set_pin_mode_message() {
    assert_eq!(parse(&[0xF4, 13, 1]), Some((Command::SetPinMode { pin: 13, mode: 1 }, 3)));
    assert_eq!(parse(&[0xF4, 13]), None);
    assert_eq!(parse(&[0xF4]), None);
}

#[test]
fn digital_message() {
    assert_eq!(
        parse(&[0x91, 0x05, 0x01]),
        Some((Command::DigitalWrite { port: 1, values: 0x85 }, 3))
    );
    assert_eq!(parse(&[0x91, 0x05]), None);
}

#[test]
fn analog_message() {
    assert_eq!(
        parse(&[0xE3, 0x7F, 0x07]),
        Some((Command::AnalogWrite { pin: 3, value: 1023 }, 3))
    );
    assert_eq!(parse(&[0xE3, 0x7F]), None);
}

#[test]
fn system_reset_message() {
    assert_eq!(parse(&[0xFF, 0x01]), Some((Command::SystemReset, 1)));
}

#[test]
fn unknown_messages_take_one_byte() {
    assert_eq!(parse(&[0xC0, 0x01]), Some((Command::UnknownMessage(0xC0), 1)));
    assert_eq!(parse(&[0x05]), Some((Command::UnknownMessage(0x00), 1)));
    assert_eq!(parse(&[0xF9]), Some((Command::UnknownMessage(0xF9), 1)));
    assert_eq!(parse(&[END_SYSEX]), Some((Command::UnknownMessage(END_SYSEX), 1)));
}

#[test]
fn sysex_queries_skip_their_data() {
    assert_eq!(parse(&[0xF0, 0x79, 0xF7]), Some((Command::ReportFirmware, 3)));
    assert_eq!(parse(&[0xF0, 0x79, 1, 2, 0xF7, 0xFF]), Some((Command::ReportFirmware, 5)));
    assert_eq!(parse(&[0xF0, 0x6B, 0xF7]), Some((Command::CapabilityQuery, 3)));
    assert_eq!(parse(&[0xF0, 0x69, 0xF7]), Some((Command::AnalogMappingQuery, 3)));
}

#[test]
fn sysex_waits_for_its_end() {
    assert_eq!(parse(&[0xF0]), None);
    assert_eq!(parse(&[0xF0, 0x79]), None);
    assert_eq!(parse(&[0xF0, 0x79, 1, 2]), None);
}

#[test]
fn sysex_end_right_after_start() {
    assert_eq!(parse(&[START_SYSEX, END_SYSEX]), Some((Command::SysexEnd, 2)));
}

#[test]
fn unknown_sysex_takes_two_bytes() {
    assert_eq!(parse(&[0xF0, 0x71, b'a', 0xF7]), Some((Command::UnknownSysex(0x71), 2)));
    let (cmds, used) = parse_all(&[0xF0, 0x71, 0x61, 0xF7]);
    assert_eq!(
        cmds,
        vec![
            Command::UnknownSysex(0x71),
            Command::UnknownMessage(0x60),
            Command::UnknownMessage(END_SYSEX)
        ]
    );
    assert_eq!(used, 4);
}

#[test]
fn extended_analog_message() {
    assert_eq!(
        parse(&[0xF0, 0x6F, 5, 0x10, 0x02, 0xF7]),
        Some((Command::ExtendedAnalogWrite { pin: 5, value: 272 }, 6))
    );
    assert_eq!(
        parse(&[0xF0, 0x6F, 5, 1, 2, 3, 0xF7]),
        Some((Command::ExtendedAnalogWrite { pin: 5, value: 49409 }, 7))
    );
}

#[test]
fn extended_analog_too_short() {
    assert_eq!(parse(&[0xF0, 0x6F, 5, 1, 0xF7]), Some((Command::TruncatedSysex(0x6F), 5)));
    assert_eq!(parse(&[0xF0, 0x6F, 0xF7]), Some((Command::TruncatedSysex(0x6F), 3)));
}

#[test]
fn i2c_request_message() {
    assert_eq!(
        parse(&[0xF0, 0x76, 0x50, 0x00, 0x01, 0x02, 0x03, 0x00, 0xF7]),
        Some((Command::I2cRequest { address: 0x50, data: vec![257, 3] }, 9))
    );
    assert_eq!(
        parse(&[0xF0, 0x76, 0x50, 0x08, 0xF7]),
        Some((Command::I2cRequest { address: 0x450, data: vec![] }, 5))
    );
}

#[test]
fn i2c_request_of_odd_length() {
    assert_eq!(parse(&[0xF0, 0x76, 0x50, 0, 1, 0xF7]), Some((Command::TruncatedSysex(0x76), 6)));
    assert_eq!(parse(&[0xF0, 0x76, 0x50, 0xF7]), Some((Command::TruncatedSysex(0x76), 4)));
}

#[test]
fn decoders_of_sysex_data() {
    assert_eq!(decode_extended_analog(&[9, 0x7F, 0x7F, 0x7F]), (9, 0x1F_FFFF));
    assert_eq!(decode_extended_analog(&[9, 1, 0]), (9, 1));
    assert_eq!(decode_i2c_request(&[0x01, 0x01, 0x7F, 0x00]), (129, vec![127]));
}

#[test]
fn digital_port_writes_follow_the_bits() {
    let writes = digital_port_writes(1, 0x85);
    assert_eq!(
        writes,
        vec![
            (8, true),
            (9, false),
            (10, true),
            (11, false),
            (12, false),
            (13, false),
            (14, false),
            (15, true)
        ]
    );
    let writes = digital_port_writes(15, 0xFF);
    assert_eq!(writes[0], (120, true));
    assert_eq!(writes[7], (127, true));
}

#[test]
fn stream_of_messages() {
    let stream = [
        0xF4, 13, 1, // set pin mode
        0x91, 0x05, 0x01, // digital port 1
        0xF0, 0x6B, 0xF7, // capability query
        0xE2, 0x00, 0x01, // analog pin 2 = 128
        0xFF, // reset
        0xF0, 0x79, // incomplete firmware query
    ];
    let (cmds, used) = parse_all(&stream);
    assert_eq!(
        cmds,
        vec![
            Command::SetPinMode { pin: 13, mode: 1 },
            Command::DigitalWrite { port: 1, values: 0x85 },
            Command::CapabilityQuery,
            Command::AnalogWrite { pin: 2, value: 128 },
            Command::SystemReset,
        ]
    );
    assert_eq!(used, 13);
}

#[test]
fn later_bytes_do_not_change_a_message() {
    let s = [0xF0, 0x6F, 5, 0x10, 0x02, 0xF7];
    let mut st = s.to_vec();
    st.extend_from_slice(&[0x90, 0xF7, 0xF0, 1]);
    assert_eq!(parse(&s), parse(&st));
    let (_, n) = parse(&st).unwrap();
    assert_eq!(parse(&st[..n]), parse(&st));
}

#[test]
fn chunking_does_not_change_the_messages() {
    let stream = [0xF4, 2, 1, 0xF0, 0x76, 0x50, 0, 1, 2, 0xF7, 0xE1, 0x7F, 0x01, 0x92, 0, 1];
    let (whole, used) = parse_all(&stream);
    for cut in [1usize, 2, 3, 5] {
        let mut pending: Vec<u8> = Vec::new();
        let mut got = Vec::new();
        for chunk in stream.chunks(cut) {
            pending.extend_from_slice(chunk);
            while let Some((cmd, n)) = parse_command(&pending) {
                got.push(cmd);
                pending.drain(..n);
            }
        }
        assert_eq!(got, whole);
        assert_eq!(pending.len(), stream.len() - used);
    }
}

#[test]
fn incomplete_input_completes_with_three_end_bytes() {
    for s in [vec![], vec![0xF0], vec![0xF0, 0x79, 1], vec![0xE0, 1], vec![0xF4]] {
        assert_eq!(parse(&s), None);
        let mut t = s.clone();
        t.extend_from_slice(&[END_SYSEX, END_SYSEX, END_SYSEX]);
        let (_, n) = parse(&t).unwrap();
        assert!(n > s.len());
    }
}

#[test]
fn client_encodings_roundtrip() {
    for pin in [0u8, 7, 15] {
        for value in [0u16, 1, 127, 128, 1023, 16383] {
            let msg = [0xE0 + pin, (value % 128) as u8, (value / 128) as u8];
            assert_eq!(
                parse(&msg),
                Some((Command::AnalogWrite { pin, value: value as usize }, 3))
            );
        }
    }
    for values in [0u8, 0x01, 0x80, 0xAA, 0xFF] {
        let msg = [0x90 + 3, values % 128, values / 128];
        assert_eq!(parse(&msg), Some((Command::DigitalWrite { port: 3, values }, 3)));
    }
    let value: u32 = 0x1A_BCDE;
    let msg = [
        0xF0,
        0x6F,
        20,
        (value % 128) as u8,
        (value / 128 % 128) as u8,
        (value / 16384) as u8,
        0xF7,
    ];
    assert_eq!(
        parse(&msg),
        Some((Command::ExtendedAnalogWrite { pin: 20, value: value as usize }, 7))
    );
}

#[test]
fn actions_of_messages() {
    assert_eq!(
        board_actions(Command::SetPinMode { pin: 13, mode: 1 }),
        vec![BoardAction::SetPinMode { pin: 13, mode: 1 }]
    );
    let writes = board_actions(Command::DigitalWrite { port: 1, values: 0x85 });
    assert_eq!(writes.len(), 8);
    assert_eq!(writes[0], BoardAction::SetDigitalPin { pin: 8, value: true });
    assert_eq!(writes[1], BoardAction::SetDigitalPin { pin: 9, value: false });
    assert_eq!(writes[7], BoardAction::SetDigitalPin { pin: 15, value: true });
    assert_eq!(
        board_actions(Command::AnalogWrite { pin: 3, value: 1023 }),
        vec![BoardAction::SetAnalogPin { pin: 3, value: 1023 }]
    );
    assert_eq!(
        board_actions(Command::ExtendedAnalogWrite { pin: 20, value: 70000 }),
        vec![BoardAction::SetAnalogPin { pin: 20, value: 70000 }]
    );
    assert_eq!(
        board_actions(Command::I2cRequest { address: 0x50, data: vec![257, 3] }),
        vec![BoardAction::SendI2cData { address: 0x50, data: vec![257, 3] }]
    );
    assert_eq!(board_actions(Command::ReportFirmware), vec![BoardAction::SendFirmwareReport]);
    assert_eq!(board_actions(Command::CapabilityQuery), vec![BoardAction::SendCapabilities]);
    assert_eq!(board_actions(Command::AnalogMappingQuery), vec![BoardAction::SendAnalogMapping]);
    assert_eq!(board_actions(Command::SystemReset), vec![]);
    assert_eq!(board_actions(Command::SysexEnd), vec![]);
    assert_eq!(board_actions(Command::UnknownSysex(0x71)), vec![BoardAction::SkipSysex(0x71)]);
    assert_eq!(board_actions(Command::UnknownMessage(0xC0)), vec![BoardAction::SkipMessage(0xC0)]);
    assert_eq!(
        board_actions(Command::TruncatedSysex(0x6F)),
        vec![BoardAction::RejectTruncated(0x6F)]
    );
}
