//! Decoding of the Firmata byte stream sent by a client.
//!
//! A client sends a stream of messages. [`parse_command`] reads the message
//! at the front of a buffer and says how many bytes it takes, or that the
//! buffer does not hold a whole message yet.

use crate::firmata::constants::{
    ANALOG_MAPPING_QUERY, ANALOG_MESSAGE, CAPABILITY_QUERY, DIGITAL_MESSAGE, END_SYSEX,
    EXTENDED_ANALOG, I2C_REQUEST, MODE_DHT, REPORT_FIRMWARE, SET_PIN_MODE, START_SYSEX,
    SYSEX_REALTIME, SYSTEM_RESET,
};
use vstd::arithmetic::power2::{lemma2_to64, pow2};
use vstd::prelude::*;

verus! {

/// A message received from a Firmata client.
///
/// `W` is the type of the words of an I2C request: `Vec<u16>` for a decoded
/// message, `Seq<u16>` for its mathematical model.
#[derive(Debug, PartialEq, Eq)]
pub enum Command<W> {
    /// `SET_PIN_MODE pin mode`.
    SetPinMode { pin: u8, mode: u8 },
    /// A digital message: the levels of the eight pins of a port, bit `i`
    /// for pin `8 * port + i`.
    DigitalWrite { port: u8, values: u8 },
    /// An analog message: a 14-bit value for a pin.
    AnalogWrite { pin: u8, value: usize },
    /// `SYSTEM_RESET`.
    SystemReset,
    /// Sysex `REPORT_FIRMWARE` (its data is ignored).
    ReportFirmware,
    /// Sysex `CAPABILITY_QUERY` (its data is ignored).
    CapabilityQuery,
    /// Sysex `ANALOG_MAPPING_QUERY` (its data is ignored).
    AnalogMappingQuery,
    /// Sysex `EXTENDED_ANALOG`: a value of up to 21 bits for a pin.
    ExtendedAnalogWrite { pin: u8, value: usize },
    /// Sysex `I2C_REQUEST`: the address (with the mode bits of its high
    /// byte) and the 14-bit words that follow it.
    I2cRequest { address: u16, data: W },
    /// `START_SYSEX` directly followed by `END_SYSEX`.
    SysexEnd,
    /// `START_SYSEX` followed by a sysex command that is not handled; only
    /// these two bytes are taken.
    UnknownSysex(u8),
    /// A message type that is not handled; only its first byte is taken.
    UnknownMessage(u8),
    /// An `EXTENDED_ANALOG` or `I2C_REQUEST` sysex whose data is too short
    /// (or, for I2C, of odd length) to be decoded.
    TruncatedSysex(u8),
}

/// The mathematical model of a decoded message.
pub type CommandModel = Command<Seq<u16>>;

impl View for Command<Vec<u16>> {
    type V = Command<Seq<u16>>;

    open spec fn view(&self) -> Command<Seq<u16>> {
        match self {
            Command::SetPinMode { pin, mode } => Command::SetPinMode { pin: *pin, mode: *mode },
            Command::DigitalWrite { port, values } => Command::DigitalWrite {
                port: *port,
                values: *values,
            },
            Command::AnalogWrite { pin, value } => Command::AnalogWrite { pin: *pin, value: *value },
            Command::SystemReset => Command::SystemReset,
            Command::ReportFirmware => Command::ReportFirmware,
            Command::CapabilityQuery => Command::CapabilityQuery,
            Command::AnalogMappingQuery => Command::AnalogMappingQuery,
            Command::ExtendedAnalogWrite { pin, value } => Command::ExtendedAnalogWrite {
                pin: *pin,
                value: *value,
            },
            Command::I2cRequest { address, data } => Command::I2cRequest {
                address: *address,
                data: data@,
            },
            Command::SysexEnd => Command::SysexEnd,
            Command::UnknownSysex(c) => Command::UnknownSysex(*c),
            Command::UnknownMessage(c) => Command::UnknownMessage(*c),
            Command::TruncatedSysex(c) => Command::TruncatedSysex(*c),
        }
    }
}

/// The command and the channel that a message's first byte carries.
/// Bytes above `START_SYSEX` are commands of their own (channel 0); the others
/// hold the command in their high nibble and the channel in their low nibble.
pub open spec fn spec_split_command(input: u8) -> (u8, u8) {
    if input > START_SYSEX {
        (input, 0)
    } else {
        ((input / 16 * 16) as u8, input % 16)
    }
}

/// The value that a pair of 7-bit data bytes encodes, least significant first;
/// the high bit of each byte is ignored.
pub open spec fn seven_bit_value(lsb: u8, msb: u8) -> int {
    (msb % 128) * 128 + lsb % 128
}

/// The eight pin levels of a digital message: the low seven bits of `lsb`
/// and, as bit 7, the lowest bit of `msb`.
pub open spec fn port_values(lsb: u8, msb: u8) -> u8 {
    (lsb % 128 + (msb % 2) * 128) as u8
}

/// `k` is the position of the first `END_SYSEX` in `s`.
pub open spec fn is_first_end(s: Seq<u8>, k: int) -> bool {
    &&& 0 <= k < s.len()
    &&& s[k] == END_SYSEX
    &&& forall|j: int| 0 <= j < k ==> s[j] != END_SYSEX
}

/// The number of data bytes before the first `END_SYSEX` of `s`, if any.
pub open spec fn sysex_data_len(s: Seq<u8>) -> Option<int> {
    if exists|k: int| is_first_end(s, k) {
        Some(choose|k: int| is_first_end(s, k))
    } else {
        None
    }
}

/// The sysex commands whose data runs up to `END_SYSEX`.
pub open spec fn collects_data(sysex_command: u8) -> bool {
    ||| sysex_command == REPORT_FIRMWARE
    ||| sysex_command == CAPABILITY_QUERY
    ||| sysex_command == ANALOG_MAPPING_QUERY
    ||| sysex_command == EXTENDED_ANALOG
    ||| sysex_command == I2C_REQUEST
}

/// The value of an `EXTENDED_ANALOG` sysex: bytes 1 and 2 of its data are
/// the low 14 bits, byte 3, when present, the next seven.
pub open spec fn extended_analog_value(data: Seq<u8>) -> int {
    seven_bit_value(data[1], data[2]) + if data.len() > 3 {
        (data[3] % 128) * 16384
    } else {
        0
    }
}

/// Word `j` of an I2C request's data (the pair of bytes after the address).
pub open spec fn i2c_word(data: Seq<u8>, j: int) -> u16 {
    seven_bit_value(data[2 + 2 * j], data[3 + 2 * j]) as u16
}

/// The words of an I2C request's data.
pub open spec fn i2c_words(data: Seq<u8>) -> Seq<u16> {
    Seq::new(((data.len() - 2) / 2) as nat, |j: int| i2c_word(data, j))
}

/// The message that a sysex command collecting data stands for, given its data.
pub open spec fn spec_sysex_command(sysex_command: u8, data: Seq<u8>) -> Command<Seq<u16>> {
    if sysex_command == EXTENDED_ANALOG {
        if data.len() >= 3 {
            Command::ExtendedAnalogWrite {
                pin: data[0],
                value: extended_analog_value(data) as usize,
            }
        } else {
            Command::TruncatedSysex(sysex_command)
        }
    } else if sysex_command == I2C_REQUEST {
        if data.len() >= 2 && data.len() % 2 == 0 {
            Command::I2cRequest {
                address: seven_bit_value(data[0], data[1]) as u16,
                data: i2c_words(data),
            }
        } else {
            Command::TruncatedSysex(sysex_command)
        }
    } else if sysex_command == REPORT_FIRMWARE {
        Command::ReportFirmware
    } else if sysex_command == CAPABILITY_QUERY {
        Command::CapabilityQuery
    } else {
        Command::AnalogMappingQuery
    }
}

/// The message at the front of `s` and the number of bytes it takes, or
/// `None` when `s` does not hold a whole message yet.
pub open spec fn spec_parse(s: Seq<u8>) -> Option<(Command<Seq<u16>>, int)> {
    if s.len() == 0 {
        None
    } else {
        let (command, channel) = spec_split_command(s[0]);
        if command == SET_PIN_MODE {
            if s.len() < 3 {
                None
            } else {
                Some((Command::SetPinMode { pin: s[1], mode: s[2] }, 3))
            }
        } else if command == DIGITAL_MESSAGE {
            if s.len() < 3 {
                None
            } else {
                Some((Command::DigitalWrite { port: channel, values: port_values(s[1], s[2]) }, 3))
            }
        } else if command == ANALOG_MESSAGE {
            if s.len() < 3 {
                None
            } else {
                Some(
                    (
                        Command::AnalogWrite {
                            pin: channel,
                            value: seven_bit_value(s[1], s[2]) as usize,
                        },
                        3,
                    ),
                )
            }
        } else if command == SYSTEM_RESET {
            Some((Command::SystemReset, 1))
        } else if command == START_SYSEX {
            if s.len() < 2 {
                None
            } else if s[1] == END_SYSEX {
                Some((Command::SysexEnd, 2))
            } else if collects_data(s[1]) {
                match sysex_data_len(s.skip(2)) {
                    Some(k) => Some((spec_sysex_command(s[1], s.subrange(2, 2 + k)), k + 3)),
                    None => None,
                }
            } else {
                Some((Command::UnknownSysex(s[1]), 2))
            }
        } else {
            Some((Command::UnknownMessage(command), 1))
        }
    }
}

/// The first `END_SYSEX` of `s` is the only position satisfying
/// `is_first_end`.
pub proof fn lemma_first_end_unique(s: Seq<u8>, k: int)
    requires
        is_first_end(s, k),
    ensures
        sysex_data_len(s) == Some(k),
{
    let c = choose|c: int| is_first_end(s, c);
    assert(is_first_end(s, c));
    if c < k {
        assert(s[c] != END_SYSEX);
    } else if k < c {
        assert(s[k] != END_SYSEX);
    }
}

/// Splits a message's first byte into its command and its channel.
pub fn split_command(input: u8) -> (res: (u8, u8))
    ensures
        res == spec_split_command(input),
{
    if input > START_SYSEX {
        (input, 0)
    } else {
        assert(input & 0xF0 == input / 16 * 16 && input & 0x0F == input % 16) by (bit_vector);
        (input & START_SYSEX, input & MODE_DHT)
    }
}

/// Decodes a pair of 7-bit data bytes, least significant first.
pub fn decode_seven_bit(lsb: u8, msb: u8) -> (value: u16)
    ensures
        value == seven_bit_value(lsb, msb),
        value < 16384,
{
    let low: u16 = (lsb & SYSEX_REALTIME) as u16;
    let high: u16 = (msb & SYSEX_REALTIME) as u16;
    assert((lsb & 0x7F) as u16 == lsb % 128 && (msb & 0x7F) as u16 == msb % 128) by (bit_vector);
    assert(high < 128 && low < 128 ==> (high << 7) | low == high * 128 + low) by (bit_vector);
    (high << 7) | low
}

/// Decodes the pin levels of a digital message.
pub fn decode_port_values(lsb: u8, msb: u8) -> (values: u8)
    ensures
        values == port_values(lsb, msb),
{
    let low = lsb & SYSEX_REALTIME;
    let high = msb & SYSEX_REALTIME;
    assert(((msb & 0x7F) << 7u8) | (lsb & 0x7F) == (lsb % 128 + (msb % 2) * 128) as u8)
        by (bit_vector);
    (high << 7u8) | low
}

/// The level of pin `i` of a port in the eight levels of a digital message.
pub open spec fn pin_level(values: u8, i: u8) -> bool {
    (values >> i) & 1u8 == 1u8
}

/// The level of pin `i` of a port is bit `i` of the port's byte:
/// `(values / 2^i) % 2 == 1`.
pub proof fn lemma_pin_level_is_bit(values: u8, i: u8)
    requires
        i < 8,
    ensures
        pin_level(values, i) == ((values as int / pow2(i as nat) as int) % 2 == 1),
{
    lemma2_to64();
    assert(((values >> i) & 1u8 == 1u8) == ((values / (1u8 << i)) % 2 == 1)) by (bit_vector)
        requires
            i < 8,
    ;
    if i == 0 {
        assert(1u8 << 0u8 == 1u8) by (bit_vector);
    } else if i == 1 {
        assert(1u8 << 1u8 == 2u8) by (bit_vector);
    } else if i == 2 {
        assert(1u8 << 2u8 == 4u8) by (bit_vector);
    } else if i == 3 {
        assert(1u8 << 3u8 == 8u8) by (bit_vector);
    } else if i == 4 {
        assert(1u8 << 4u8 == 16u8) by (bit_vector);
    } else if i == 5 {
        assert(1u8 << 5u8 == 32u8) by (bit_vector);
    } else if i == 6 {
        assert(1u8 << 6u8 == 64u8) by (bit_vector);
    } else {
        assert(1u8 << 7u8 == 128u8) by (bit_vector);
    }
}

/// The pin writes that a digital message asks for: pin `8 * port + i`
/// takes bit `i` of `values` (its level is `(values / 2^i) % 2 == 1`), for
/// `i` from 0 to 7, in that order.
pub fn digital_port_writes(port: u8, values: u8) -> (writes: Vec<(u8, bool)>)
    requires
        port < 32,
    ensures
        writes@.len() == 8,
        forall|i: int|
            0 <= i < 8 ==> #[trigger] writes@[i] == ((port * 8 + i) as u8, pin_level(values, i as u8)),
        forall|i: int|
            0 <= i < 8 ==> (#[trigger] writes@[i]).0 == port * 8 + i && writes@[i].1 == ((
            values as int / pow2(i as nat) as int) % 2 == 1),
{
    let mut writes: Vec<(u8, bool)> = Vec::new();
    let mut i: u8 = 0;
    while i < 8
        invariant
            i <= 8,
            port < 32,
            writes@.len() == i,
            forall|j: int|
                0 <= j < i ==> #[trigger] writes@[j] == ((port * 8 + j) as u8, pin_level(values, j as u8)),
        decreases 8 - i,
    {
        let pin = port * 8 + i;
        let level = (values & (1u8 << i)) != 0;
        assert(i < 8 ==> (((values & (1u8 << i)) != 0) == (((values >> i) & 1u8) == 1u8)))
            by (bit_vector);
        writes.push((pin, level));
        i = i + 1;
    }
    assert forall|k: int| 0 <= k < 8 implies (#[trigger] writes@[k]).0 == port * 8 + k
        && writes@[k].1 == ((values as int / pow2(k as nat) as int) % 2 == 1) by {
        lemma_pin_level_is_bit(values, k as u8);
    }
    writes
}

/// Decodes the data of an `EXTENDED_ANALOG` sysex into its pin and value.
pub fn decode_extended_analog(data: &[u8]) -> (res: (u8, usize))
    requires
        data@.len() >= 3,
    ensures
        res.0 == data@[0],
        res.1 == extended_analog_value(data@),
        res.1 < 0x20_0000,
{
    let pin = data[0];
    let mut value: usize = decode_seven_bit(data[1], data[2]) as usize;
    if data.len() > 3 {
        let xsb: usize = (data[3] & SYSEX_REALTIME) as usize;
        let b = data[3];
        assert((b & 0x7F) as usize == b % 128) by (bit_vector);
        let v = value;
        assert(v < 16384 && xsb < 128 ==> (xsb << 14usize) | v == xsb * 16384 + v) by (bit_vector);
        value = (xsb << 14usize) | value;
    }
    (pin, value)
}

/// Decodes the data of an `I2C_REQUEST` sysex into its address and words.
pub fn decode_i2c_request(data: &[u8]) -> (res: (u16, Vec<u16>))
    requires
        data@.len() >= 2,
        data@.len() % 2 == 0,
    ensures
        res.0 == seven_bit_value(data@[0], data@[1]),
        res.1@ == i2c_words(data@),
{
    let address = decode_seven_bit(data[0], data[1]);
    let mut words: Vec<u16> = Vec::new();
    let mut i: usize = 2;
    while i < data.len()
        invariant
            2 <= i <= data@.len(),
            i % 2 == 0,
            data@.len() % 2 == 0,
            words@.len() == (i - 2) / 2,
            forall|j: int| 0 <= j < words@.len() ==> words@[j] == i2c_word(data@, j),
        decreases data@.len() - i,
    {
        let word = decode_seven_bit(data[i], data[i + 1]);
        proof {
            assert(i2c_word(data@, (i - 2) / 2) == word);
        }
        words.push(word);
        i = i + 2;
    }
    assert(words@ =~= i2c_words(data@));
    (address, words)
}

/// Decodes the data of a sysex command that collects data up to `END_SYSEX`.
pub fn decode_sysex(sysex_command: u8, data: &[u8]) -> (cmd: Command<Vec<u16>>)
    requires
        collects_data(sysex_command),
    ensures
        cmd@ == spec_sysex_command(sysex_command, data@),
{
    if sysex_command == EXTENDED_ANALOG {
        if data.len() >= 3 {
            let (pin, value) = decode_extended_analog(data);
            Command::ExtendedAnalogWrite { pin, value }
        } else {
            Command::TruncatedSysex(sysex_command)
        }
    } else if sysex_command == I2C_REQUEST {
        if data.len() >= 2 && data.len() % 2 == 0 {
            let (address, words) = decode_i2c_request(data);
            Command::I2cRequest { address, data: words }
        } else {
            Command::TruncatedSysex(sysex_command)
        }
    } else if sysex_command == REPORT_FIRMWARE {
        Command::ReportFirmware
    } else if sysex_command == CAPABILITY_QUERY {
        Command::CapabilityQuery
    } else {
        Command::AnalogMappingQuery
    }
}

/// Whether a sysex command collects data up to `END_SYSEX`.
pub fn sysex_collects_data(sysex_command: u8) -> (res: bool)
    ensures
        res == collects_data(sysex_command),
{
    sysex_command == REPORT_FIRMWARE || sysex_command == CAPABILITY_QUERY
        || sysex_command == ANALOG_MAPPING_QUERY || sysex_command == EXTENDED_ANALOG
        || sysex_command == I2C_REQUEST
}

/// Reads the message at the front of `buf`: the message and the number of
/// bytes it takes, or `None` when `buf` does not hold a whole message yet.
pub fn parse_command(buf: &[u8]) -> (res: Option<(Command<Vec<u16>>, usize)>)
    ensures
        match res {
            Some((cmd, n)) => spec_parse(buf@) == Some((cmd@, n as int)),
            None => spec_parse(buf@) is None,
        },
{
    if buf.len() == 0 {
        return None;
    }
    let (command, channel) = split_command(buf[0]);
    if command == SET_PIN_MODE {
        if buf.len() < 3 {
            None
        } else {
            Some((Command::SetPinMode { pin: buf[1], mode: buf[2] }, 3))
        }
    } else if command == DIGITAL_MESSAGE {
        if buf.len() < 3 {
            None
        } else {
            let values = decode_port_values(buf[1], buf[2]);
            Some((Command::DigitalWrite { port: channel, values }, 3))
        }
    } else if command == ANALOG_MESSAGE {
        if buf.len() < 3 {
            None
        } else {
            let value = decode_seven_bit(buf[1], buf[2]) as usize;
            Some((Command::AnalogWrite { pin: channel, value }, 3))
        }
    } else if command == SYSTEM_RESET {
        Some((Command::SystemReset, 1))
    } else if command == START_SYSEX {
        if buf.len() < 2 {
            None
        } else if buf[1] == END_SYSEX {
            Some((Command::SysexEnd, 2))
        } else if sysex_collects_data(buf[1]) {
            let mut i: usize = 2;
            while i < buf.len() && buf[i] != END_SYSEX
                invariant
                    2 <= i <= buf@.len(),
                    forall|j: int| 2 <= j < i ==> buf@[j] != END_SYSEX,
                decreases buf@.len() - i,
            {
                i = i + 1;
            }
            let ghost rest = buf@.skip(2);
            if i == buf.len() {
                proof {
                    assert forall|k: int| !is_first_end(rest, k) by {
                        if 0 <= k < rest.len() {
                            assert(rest[k] == buf@[k + 2]);
                        }
                    }
                }
                None
            } else {
                proof {
                    assert forall|j: int| 0 <= j < i - 2 implies rest[j] != END_SYSEX by {
                        assert(rest[j] == buf@[j + 2]);
                    }
                    assert(is_first_end(rest, i - 2));
                    lemma_first_end_unique(rest, i - 2);
                }
                let data = vstd::slice::slice_subrange(buf, 2, i);
                let cmd = decode_sysex(buf[1], data);
                Some((cmd, i + 1))
            }
        } else {
            Some((Command::UnknownSysex(buf[1]), 2))
        }
    } else {
        Some((Command::UnknownMessage(command), 1))
    }
}

} // verus!
