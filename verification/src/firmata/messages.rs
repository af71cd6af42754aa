//! Laws on each kind of message: what the bytes that a client sends are
//! decoded to, and what the bridge does for them.

use crate::firmata::actions::{spec_board_actions, BoardActionModel};
use crate::firmata::parser::{is_first_end, lemma_first_end_unique, spec_parse, CommandModel};
use crate::firmata::stream::{
    analog_message, extended_analog_message, i2c_request_message,
    lemma_analog_message_roundtrip, lemma_extended_analog_message_roundtrip,
    lemma_i2c_request_message_roundtrip, lemma_set_pin_mode_roundtrip,
    lemma_short_extended_analog_message_roundtrip, set_pin_mode_message,
    short_extended_analog_message,
};
use vstd::prelude::*;

verus! {

/// `data` holds no `END_SYSEX` byte.
pub open spec fn no_end_byte(data: Seq<u8>) -> bool {
    forall|i: int| 0 <= i < data.len() ==> data[i] != 0xF7u8
}

/// A sysex from a client: `START_SYSEX`, the command, its data, `END_SYSEX`.
pub open spec fn sysex_message(sysex_command: u8, data: Seq<u8>) -> Seq<u8> {
    seq![0xF0u8, sysex_command] + data + seq![0xF7u8]
}

/// A sysex whose data holds no `END_SYSEX` ends at its first `END_SYSEX`,
/// and its data is decoded from exactly the bytes between.
proof fn lemma_sysex_message_frame(sysex_command: u8, data: Seq<u8>)
    requires
        no_end_byte(data),
    ensures
        ({
            let m = sysex_message(sysex_command, data);
            &&& m[0] == 0xF0u8
            &&& m[1] == sysex_command
            &&& m.skip(2) =~= data + seq![0xF7u8]
            &&& is_first_end(m.skip(2), data.len() as int)
            &&& m.subrange(2, 2 + data.len() as int) =~= data
        }),
{
    let m = sysex_message(sysex_command, data);
    let x = m.skip(2);
    assert(x =~= data + seq![0xF7u8]);
    assert forall|j: int| 0 <= j < data.len() implies x[j] != 0xF7u8 by {
        assert(x[j] == data[j]);
    }
    assert(m.subrange(2, 2 + data.len() as int) =~= data);
    lemma_first_end_unique(x, data.len() as int);
}

/// The three queries, whatever data they carry: `REPORT_FIRMWARE` (0x79) is
/// answered with the firmware report, `CAPABILITY_QUERY` (0x6B) with the
/// capability table, `ANALOG_MAPPING_QUERY` (0x69) with the analog mapping;
/// each takes its whole sysex.
pub proof fn lemma_query_messages(sysex_command: u8, data: Seq<u8>)
    requires
        sysex_command == 0x79 || sysex_command == 0x6B || sysex_command == 0x69,
        no_end_byte(data),
    ensures
        ({
            let m = sysex_message(sysex_command, data);
            let q = if sysex_command == 0x79 {
                CommandModel::ReportFirmware
            } else if sysex_command == 0x6B {
                CommandModel::CapabilityQuery
            } else {
                CommandModel::AnalogMappingQuery
            };
            let reply = if sysex_command == 0x79 {
                BoardActionModel::SendFirmwareReport
            } else if sysex_command == 0x6B {
                BoardActionModel::SendCapabilities
            } else {
                BoardActionModel::SendAnalogMapping
            };
            &&& spec_parse(m) == Some((q, data.len() + 3int))
            &&& spec_board_actions(q) == seq![reply]
        }),
{
    lemma_sysex_message_frame(sysex_command, data);
    lemma_first_end_unique(sysex_message(sysex_command, data).skip(2), data.len() as int);
}

/// An `EXTENDED_ANALOG` (0x6F) sysex with fewer than three data bytes, or an
/// `I2C_REQUEST` (0x76) with fewer than two or an odd number, is taken whole
/// and gives up the connection.
pub proof fn lemma_truncated_messages(sysex_command: u8, data: Seq<u8>)
    requires
        no_end_byte(data),
        (sysex_command == 0x6F && data.len() < 3) || (sysex_command == 0x76 && (data.len() < 2
            || data.len() % 2 == 1)),
    ensures
        spec_parse(sysex_message(sysex_command, data)) == Some(
            (CommandModel::TruncatedSysex(sysex_command), data.len() + 3int),
        ),
        spec_board_actions(CommandModel::TruncatedSysex(sysex_command)) == seq![
            BoardActionModel::RejectTruncated(sysex_command),
        ],
{
    lemma_sysex_message_frame(sysex_command, data);
    lemma_first_end_unique(sysex_message(sysex_command, data).skip(2), data.len() as int);
}

/// `START_SYSEX` followed by `END_SYSEX` takes two bytes and does nothing; a
/// sysex command that is not handled takes two bytes (its data is left to be
/// read as messages of its own) and is skipped.
pub proof fn lemma_unhandled_sysex_messages(sysex_command: u8, rest: Seq<u8>)
    requires
        sysex_command != 0x79,
        sysex_command != 0x6B,
        sysex_command != 0x69,
        sysex_command != 0x6F,
        sysex_command != 0x76,
    ensures
        sysex_command == 0xF7 ==> spec_parse(seq![0xF0u8, sysex_command] + rest) == Some(
            (CommandModel::SysexEnd, 2int),
        ),
        sysex_command == 0xF7 ==> spec_board_actions(CommandModel::SysexEnd) == Seq::<
            BoardActionModel,
        >::empty(),
        sysex_command != 0xF7 ==> spec_parse(seq![0xF0u8, sysex_command] + rest) == Some(
            (CommandModel::UnknownSysex(sysex_command), 2int),
        ),
        spec_board_actions(CommandModel::UnknownSysex(sysex_command)) == seq![
            BoardActionModel::SkipSysex(sysex_command),
        ],
{
    let m = seq![0xF0u8, sysex_command] + rest;
    assert(m[0] == 0xF0u8);
    assert(m[1] == sysex_command);
}

/// Messages of one byte: `SYSTEM_RESET` (0xFF) does nothing; any other byte
/// above `START_SYSEX` except `SET_PIN_MODE` (0xF4), and any byte below it
/// whose high nibble is neither a digital (0x9_) nor an analog (0xE_)
/// message, is skipped as an unknown message type (its high nibble, for a
/// byte below `START_SYSEX`).
pub proof fn lemma_one_byte_messages(b: u8, rest: Seq<u8>)
    ensures
        b == 0xFF ==> spec_parse(seq![b] + rest) == Some((CommandModel::SystemReset, 1int)),
        spec_board_actions(CommandModel::SystemReset) == Seq::<BoardActionModel>::empty(),
        b > 0xF0 && b != 0xF4 && b != 0xFF ==> spec_parse(seq![b] + rest) == Some(
            (CommandModel::UnknownMessage(b), 1int),
        ),
        b < 0xF0 && !(0x90 <= b < 0xA0) && !(0xE0 <= b < 0xF0) ==> spec_parse(seq![b] + rest)
            == Some((CommandModel::UnknownMessage((b - b % 16) as u8), 1int)),
        spec_board_actions(CommandModel::UnknownMessage(b)) == seq![
            BoardActionModel::SkipMessage(b),
        ],
{
    assert((seq![b] + rest)[0] == b);
}

/// What the bridge does for the pin messages that clients send: a pin mode,
/// an analog write, an extended analog write (short or long form) and an I2C
/// request each become exactly one board operation with the values sent.
pub proof fn lemma_pin_messages_actions(
    pin: u8,
    mode: u8,
    value: u16,
    long_value: u32,
    address: u16,
    words: Seq<u16>,
)
    requires
        value < 16384,
        long_value < 0x20_0000,
        address < 16384,
        forall|j: int| 0 <= j < words.len() ==> words[j] < 16384,
    ensures
        spec_parse(set_pin_mode_message(pin, mode)) matches Some((c, _)) && spec_board_actions(c)
            == seq![BoardActionModel::SetPinMode { pin, mode }],
        pin < 16 ==> (spec_parse(analog_message(pin, value)) matches Some((c, _))
            && spec_board_actions(c) == seq![
            BoardActionModel::SetAnalogPin { pin, value: value as usize },
        ]),
        pin != 0xF7 ==> (spec_parse(short_extended_analog_message(pin, value)) matches Some((c, _))
            && spec_board_actions(c) == seq![
            BoardActionModel::SetAnalogPin { pin, value: value as usize },
        ]),
        pin != 0xF7 ==> (spec_parse(extended_analog_message(pin, long_value)) matches Some((c, _))
            && spec_board_actions(c) == seq![
            BoardActionModel::SetAnalogPin { pin, value: long_value as usize },
        ]),
        spec_parse(i2c_request_message(address, words)) matches Some((c, _)) && spec_board_actions(
            c,
        ) == seq![BoardActionModel::SendI2cData { address, data: words }],
{
    lemma_set_pin_mode_roundtrip(pin, mode);
    if pin < 16 {
        lemma_analog_message_roundtrip(pin, value);
    }
    if pin != 0xF7 {
        lemma_short_extended_analog_message_roundtrip(pin, value);
        lemma_extended_analog_message_roundtrip(pin, long_value);
    }
    lemma_i2c_request_message_roundtrip(address, words);
}

} // verus!
