//! Laws of the decoder as a reader of a byte stream: a message depends only
//! on its own bytes, whatever comes after it and however the stream was cut
//! into chunks, and the decoder only waits for bytes that it needs.

use crate::firmata::constants::{
    ANALOG_MESSAGE, DIGITAL_MESSAGE, END_SYSEX, EXTENDED_ANALOG, I2C_REQUEST, SET_PIN_MODE,
    START_SYSEX,
};
use crate::firmata::parser::{
    collects_data, i2c_word, i2c_words, is_first_end, lemma_first_end_unique, seven_bit_value,
    spec_parse, spec_split_command, sysex_data_len, CommandModel,
};
use vstd::prelude::*;

verus! {

/// The first `END_SYSEX` of `x` stays the first one when bytes are appended.
proof fn lemma_data_len_prefix_stable(x: Seq<u8>, y: Seq<u8>)
    ensures
        sysex_data_len(x) matches Some(k) ==> sysex_data_len(x + y) == Some(k),
{
    if let Some(k) = sysex_data_len(x) {
        assert(is_first_end(x, k));
        assert forall|j: int| 0 <= j < k implies (x + y)[j] != END_SYSEX by {
            assert((x + y)[j] == x[j]);
        }
        assert((x + y)[k] == x[k]);
        lemma_first_end_unique(x + y, k);
    }
}

/// A decoded message takes at least one byte and no more than there are.
pub proof fn lemma_parse_bounds(s: Seq<u8>)
    ensures
        spec_parse(s) matches Some((_, n)) ==> 1 <= n <= s.len(),
{
    if s.len() >= 2 && spec_split_command(s[0]).0 == START_SYSEX {
        if let Some(k) = sysex_data_len(s.skip(2)) {
            assert(is_first_end(s.skip(2), k));
        }
    }
}

/// Bytes that arrive after a whole message do not change it: the message
/// at the front of `s` is the message at the front of `s + t`.
pub proof fn lemma_parse_prefix_stable(s: Seq<u8>, t: Seq<u8>)
    ensures
        spec_parse(s) matches Some(r) ==> spec_parse(s + t) == Some(r),
{
    if let Some((c, n)) = spec_parse(s) {
        let st = s + t;
        assert(st[0] == s[0]);
        if s.len() >= 2 {
            assert(st[1] == s[1]);
        }
        if s.len() >= 3 {
            assert(st[2] == s[2]);
        }
        if s.len() >= 2 && spec_split_command(s[0]).0 == START_SYSEX {
            assert(st.skip(2) =~= s.skip(2) + t);
            lemma_data_len_prefix_stable(s.skip(2), t);
            if let Some(k) = sysex_data_len(s.skip(2)) {
                assert(is_first_end(s.skip(2), k));
                assert(st.subrange(2, 2 + k) =~= s.subrange(2, 2 + k));
            }
        }
    }
}

/// A message is decoded from its own bytes alone.
pub proof fn lemma_parse_own_bytes(s: Seq<u8>)
    ensures
        spec_parse(s) matches Some((c, n)) ==> spec_parse(s.take(n)) == Some((c, n)),
{
    if let Some((c, n)) = spec_parse(s) {
        lemma_parse_bounds(s);
        let f = s.take(n);
        assert(f[0] == s[0]);
        if n >= 2 {
            assert(f[1] == s[1]);
        }
        if n >= 3 {
            assert(f[2] == s[2]);
        }
        if s.len() >= 2 && spec_split_command(s[0]).0 == START_SYSEX && s[1] != END_SYSEX
            && collects_data(s[1]) {
            if let Some(k) = sysex_data_len(s.skip(2)) {
                let x = s.skip(2);
                assert(is_first_end(x, k));
                let y = f.skip(2);
                assert forall|j: int| 0 <= j <= k implies y[j] == x[j] by {}
                assert(is_first_end(y, k));
                lemma_first_end_unique(y, k);
                assert(f.subrange(2, 2 + k) =~= s.subrange(2, 2 + k));
            }
        }
    }
}

/// The decoder never waits for a byte it does not need: once `s` was judged
/// incomplete, any message later decoded from `s + t` ends beyond `s`.
pub proof fn lemma_parse_waits_only_when_needed(s: Seq<u8>, t: Seq<u8>)
    ensures
        spec_parse(s) is None ==> (spec_parse(s + t) matches Some((_, n)) ==> n > s.len()),
{
    if spec_parse(s) is None {
        if let Some((c, n)) = spec_parse(s + t) {
            if n <= s.len() {
                lemma_parse_own_bytes(s + t);
                assert((s + t).take(n) =~= s.take(n));
                lemma_parse_prefix_stable(s.take(n), s.skip(n));
                assert(s.take(n) + s.skip(n) =~= s);
            }
        }
    }
}

/// The decoder is never stuck: whatever the bytes received so far, three
/// `END_SYSEX` bytes more always complete a message.
pub proof fn lemma_parse_completes(s: Seq<u8>)
    ensures
        spec_parse(s + seq![END_SYSEX, END_SYSEX, END_SYSEX]) is Some,
{
    let t = seq![END_SYSEX, END_SYSEX, END_SYSEX];
    let st = s + t;
    assert(st.len() >= 3);
    if s.len() == 0 {
        assert(st[0] == END_SYSEX);
    } else {
        assert(st[0] == s[0]);
        if s.len() == 1 {
            assert(st[1] == END_SYSEX);
        } else {
            assert(st[1] == s[1]);
            let x = st.skip(2);
            let p = s.len() - 2;
            assert(x[p] == END_SYSEX);
            lemma_some_first_end(x, p);
        }
    }
}

/// A sequence with an `END_SYSEX` at position `p` has a first one.
proof fn lemma_some_first_end(x: Seq<u8>, p: int)
    requires
        0 <= p < x.len(),
        x[p] == END_SYSEX,
    ensures
        exists|k: int| is_first_end(x, k),
    decreases p,
{
    if forall|j: int| 0 <= j < p ==> x[j] != END_SYSEX {
        assert(is_first_end(x, p));
    } else {
        let q = choose|j: int| 0 <= j < p && x[j] == END_SYSEX;
        lemma_some_first_end(x, q);
    }
}

/// Decoded values stay in the ranges of their encodings: channels (ports and
/// analog pins) below 16, analog values below 2^14, extended analog values
/// below 2^21.
pub proof fn lemma_parse_value_ranges(s: Seq<u8>)
    ensures
        spec_parse(s) matches Some((CommandModel::DigitalWrite { port, .. }, _)) ==> port < 16,
        spec_parse(s) matches Some((CommandModel::AnalogWrite { pin, value }, _)) ==> pin < 16
            && value < 16384,
        spec_parse(s) matches Some((CommandModel::ExtendedAnalogWrite { value, .. }, _)) ==> value
            < 0x20_0000,
{
}

/// The bytes of an analog message from a client: `ANALOG_MESSAGE | pin`,
/// then the value in two 7-bit bytes, least significant first.
pub open spec fn analog_message(pin: u8, value: u16) -> Seq<u8> {
    seq![(ANALOG_MESSAGE + pin) as u8, (value % 128) as u8, (value / 128) as u8]
}

/// The bytes of a digital message from a client for the eight pins of a port.
pub open spec fn digital_message(port: u8, values: u8) -> Seq<u8> {
    seq![(DIGITAL_MESSAGE + port) as u8, (values % 128) as u8, (values / 128) as u8]
}

/// The bytes of a `SET_PIN_MODE` message from a client.
pub open spec fn set_pin_mode_message(pin: u8, mode: u8) -> Seq<u8> {
    seq![SET_PIN_MODE, pin, mode]
}

/// The bytes of an `EXTENDED_ANALOG` sysex from a client for a value of up to
/// 21 bits.
pub open spec fn extended_analog_message(pin: u8, value: u32) -> Seq<u8> {
    seq![
        START_SYSEX,
        EXTENDED_ANALOG,
        pin,
        (value % 128) as u8,
        (value / 128 % 128) as u8,
        (value / 16384) as u8,
        END_SYSEX,
    ]
}

/// An analog write of a 14-bit value to one of the pins 0 to 15 is received as
/// exactly that write.
pub proof fn lemma_analog_message_roundtrip(pin: u8, value: u16)
    requires
        pin < 16,
        value < 16384,
    ensures
        spec_parse(analog_message(pin, value)) == Some(
            (CommandModel::AnalogWrite { pin, value: value as usize }, 3int),
        ),
{
}

/// A digital write to one of the ports 0 to 15 is received with the same
/// eight pin levels.
pub proof fn lemma_digital_message_roundtrip(port: u8, values: u8)
    requires
        port < 16,
    ensures
        spec_parse(digital_message(port, values)) == Some(
            (CommandModel::DigitalWrite { port, values }, 3int),
        ),
{
}

/// A `SET_PIN_MODE` message is received with its pin and mode unchanged.
pub proof fn lemma_set_pin_mode_roundtrip(pin: u8, mode: u8)
    ensures
        spec_parse(set_pin_mode_message(pin, mode)) == Some(
            (CommandModel::SetPinMode { pin, mode }, 3int),
        ),
{
}

/// An extended analog write of a value of up to 21 bits to a pin other than
/// `END_SYSEX` is received as exactly that write.
pub proof fn lemma_extended_analog_message_roundtrip(pin: u8, value: u32)
    requires
        pin != END_SYSEX,
        value < 0x20_0000,
    ensures
        spec_parse(extended_analog_message(pin, value)) == Some(
            (CommandModel::ExtendedAnalogWrite { pin, value: value as usize }, 7int),
        ),
{
    let m = extended_analog_message(pin, value);
    let x = m.skip(2);
    assert(is_first_end(x, 4));
    lemma_first_end_unique(x, 4);
    assert(m.subrange(2, 6) =~= seq![
        pin,
        (value % 128) as u8,
        (value / 128 % 128) as u8,
        (value / 16384) as u8,
    ]);
}

/// The bytes of an `EXTENDED_ANALOG` sysex from a client in its short form,
/// for a value of up to 14 bits.
pub open spec fn short_extended_analog_message(pin: u8, value: u16) -> Seq<u8> {
    seq![
        START_SYSEX,
        EXTENDED_ANALOG,
        pin,
        (value % 128) as u8,
        (value / 128) as u8,
        END_SYSEX,
    ]
}

/// An extended analog write in its short form, of a 14-bit value to a pin
/// other than `END_SYSEX`, is received as exactly that write.
pub proof fn lemma_short_extended_analog_message_roundtrip(pin: u8, value: u16)
    requires
        pin != END_SYSEX,
        value < 16384,
    ensures
        spec_parse(short_extended_analog_message(pin, value)) == Some(
            (CommandModel::ExtendedAnalogWrite { pin, value: value as usize }, 6int),
        ),
{
    let m = short_extended_analog_message(pin, value);
    let x = m.skip(2);
    assert(is_first_end(x, 3));
    lemma_first_end_unique(x, 3);
    assert(m.subrange(2, 5) =~= seq![pin, (value % 128) as u8, (value / 128) as u8]);
}

/// The data bytes of I2C words: each word as two 7-bit bytes, least
/// significant first.
pub open spec fn i2c_word_bytes(words: Seq<u16>) -> Seq<u8> {
    Seq::new(
        2 * words.len(),
        |k: int|
            if k % 2 == 0 {
                (words[k / 2] % 128) as u8
            } else {
                (words[k / 2] / 128) as u8
            },
    )
}

/// The bytes of an `I2C_REQUEST` sysex from a client: the address and then
/// each word, all as pairs of 7-bit bytes.
pub open spec fn i2c_request_message(address: u16, words: Seq<u16>) -> Seq<u8> {
    seq![START_SYSEX, I2C_REQUEST, (address % 128) as u8, (address / 128) as u8] + i2c_word_bytes(
        words,
    ) + seq![END_SYSEX]
}

/// An I2C request with a 14-bit address and any number of 14-bit words (an
/// odd number as well as an even one) is received with that address and
/// exactly those words, and takes `5 + 2 * words.len()` bytes.
pub proof fn lemma_i2c_request_message_roundtrip(address: u16, words: Seq<u16>)
    requires
        address < 16384,
        forall|j: int| 0 <= j < words.len() ==> words[j] < 16384,
    ensures
        spec_parse(i2c_request_message(address, words)) == Some(
            (
                CommandModel::I2cRequest { address, data: words },
                5 + 2 * words.len() as int,
            ),
        ),
{
    let n: int = words.len() as int;
    let wb = i2c_word_bytes(words);
    let m = i2c_request_message(address, words);
    let x = m.skip(2);
    assert forall|j: int| 0 <= j < 2 + 2 * n implies x[j] < 128 by {
        if j >= 2 {
            assert(x[j] == wb[j - 2]);
            let k = j - 2;
            assert(words[k / 2] < 16384);
        }
    }
    assert(x[2 + 2 * n] == END_SYSEX);
    assert(is_first_end(x, 2 + 2 * n));
    lemma_first_end_unique(x, 2 + 2 * n);
    let data = m.subrange(2, 4 + 2 * n);
    assert(data =~= seq![(address % 128) as u8, (address / 128) as u8] + wb);
    assert(data.len() == 2 + 2 * n);
    assert(seven_bit_value(data[0], data[1]) == address);
    assert forall|j: int| 0 <= j < n implies i2c_word(data, j) == words[j] by {
        assert(data[2 + 2 * j] == wb[2 * j]);
        assert(data[3 + 2 * j] == wb[2 * j + 1]);
        assert((2 * j) / 2 == j);
        assert((2 * j + 1) / 2 == j);
        assert(words[j] < 16384);
    }
    assert(i2c_words(data) =~= words);
}

} // verus!
