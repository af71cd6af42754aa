//! The virtual board: it keeps the last value written to each pin, so that a
//! driver can report the writes that change a pin.

use crate::firmata::constants::{
    MODE_ANALOG, MODE_I2C, MODE_INPUT, MODE_OUTPUT, MODE_PWM, MODE_SERVO, MODE_SPI,
    RESOLUTION_ANALOG, RESOLUTION_DIGITAL, RESOLUTION_I2C, RESOLUTION_PWM, RESOLUTION_SERVO,
    RESOLUTION_SPI, SYSEX_REALTIME,
};
use crate::hardware::capabilities::{
    append_entry, build_pin_entry, capability_table, count_byte, lemma_offers_mode_short,
    lemma_pin_entry_one_terminator, lemma_table_one_terminator_per_pin, offers_mode, pin_entry,
};
use std::collections::HashMap;
use vstd::prelude::*;

verus! {

broadcast use vstd::std_specs::hash::group_hash_axioms;

/// The number of pins in the virtual board's capability response (0 to 30).
pub const MOCK_PIN_COUNT: u8 = 31;

/// The number of entries in the virtual board's analog mapping (pins 0 to 40).
pub const MOCK_ANALOG_MAPPING_LEN: u8 = 41;

/// The analog pins of the virtual board.
pub open spec fn is_mock_analog_pin(pin: int) -> bool {
    pin == 5 || pin == 6 || pin == 10 || pin == 11 || pin == 21 || pin == 22
}

/// The modes of a virtual pin beyond general I/O: I2C on 2 and 3, analog
/// input and SPI on the analog pins, PWM and servo on 8, 9, 18, 19, 28, 29.
pub open spec fn mock_extra_modes(pin: u8) -> Seq<u8> {
    if pin == 2 || pin == 3 {
        seq![MODE_I2C, RESOLUTION_I2C]
    } else if is_mock_analog_pin(pin as int) {
        seq![MODE_ANALOG, RESOLUTION_ANALOG, MODE_SPI, RESOLUTION_SPI]
    } else if pin == 8 || pin == 9 || pin == 18 || pin == 19 || pin == 28 || pin == 29 {
        seq![MODE_PWM, RESOLUTION_PWM, MODE_SERVO, RESOLUTION_SERVO]
    } else {
        Seq::empty()
    }
}

/// The capability entry of a virtual pin.
pub open spec fn mock_pin_entry(pin: u8) -> Seq<u8> {
    pin_entry(mock_extra_modes(pin))
}

/// The virtual board's analog mapping: entry `i` is `i` for an analog pin
/// and `SYSEX_REALTIME` (no analog channel) for the others.
pub open spec fn mock_analog_mapping() -> Seq<u8> {
    Seq::new(
        MOCK_ANALOG_MAPPING_LEN as nat,
        |i: int|
            if is_mock_analog_pin(i) {
                i as u8
            } else {
                SYSEX_REALTIME
            },
    )
}

/// Whether writing `value` to `pin` changes the state `pins`: the pin had no
/// value yet, or another one.
pub open spec fn changes_state(pins: Map<u8, usize>, pin: u8, value: usize) -> bool {
    !pins.contains_key(pin) || pins[pin] != value
}

/// The value that stands for a digital level in the pin state.
pub open spec fn level_value(level: bool) -> usize {
    if level {
        1
    } else {
        0
    }
}

/// The virtual board's capability response has one entry per pin: its table
/// holds one `SYSEX_REALTIME` for each of the pins 0 to 30.
pub proof fn lemma_mock_table_one_entry_per_pin()
    ensures
        count_byte(
            capability_table(|p: u8| mock_pin_entry(p), MOCK_PIN_COUNT as nat),
            SYSEX_REALTIME,
        ) == MOCK_PIN_COUNT,
{
    let entry = |p: u8| mock_pin_entry(p);
    assert forall|p: u8| (p as nat) < MOCK_PIN_COUNT implies count_byte(
        #[trigger] entry(p),
        SYSEX_REALTIME,
    ) == 1 by {
        reveal_with_fuel(count_byte, 5);
        let e = mock_extra_modes(p);
        if e.len() == 2 {
            assert(e.drop_last().drop_last() =~= Seq::<u8>::empty());
        } else if e.len() == 4 {
            assert(e.drop_last().drop_last().drop_last().drop_last() =~= Seq::<u8>::empty());
        }
        lemma_pin_entry_one_terminator(e);
    }
    lemma_table_one_terminator_per_pin(entry, MOCK_PIN_COUNT as nat);
}

/// What each virtual pin reports: every pin digital input and output; I2C
/// exactly on pins 2 and 3; analog input and SPI exactly on pins 5, 6, 10,
/// 11, 21 and 22; PWM and servo exactly on pins 8, 9, 18, 19, 28 and 29; and
/// every entry ends with `SYSEX_REALTIME`.
pub proof fn lemma_mock_pin_modes(p: u8)
    ensures
        offers_mode(mock_pin_entry(p), MODE_INPUT, RESOLUTION_DIGITAL),
        offers_mode(mock_pin_entry(p), MODE_OUTPUT, RESOLUTION_DIGITAL),
        offers_mode(mock_pin_entry(p), MODE_I2C, RESOLUTION_I2C) <==> (p == 2 || p == 3),
        offers_mode(mock_pin_entry(p), MODE_ANALOG, RESOLUTION_ANALOG) <==> (p == 5 || p == 6 || p
            == 10 || p == 11 || p == 21 || p == 22),
        offers_mode(mock_pin_entry(p), MODE_SPI, RESOLUTION_SPI) <==> (p == 5 || p == 6 || p == 10
            || p == 11 || p == 21 || p == 22),
        offers_mode(mock_pin_entry(p), MODE_PWM, RESOLUTION_PWM) <==> (p == 8 || p == 9 || p == 18
            || p == 19 || p == 28 || p == 29),
        offers_mode(mock_pin_entry(p), MODE_SERVO, RESOLUTION_SERVO) <==> (p == 8 || p == 9 || p
            == 18 || p == 19 || p == 28 || p == 29),
        mock_pin_entry(p).last() == SYSEX_REALTIME,
{
    let e = mock_pin_entry(p);
    if p == 2 || p == 3 {
        assert(e =~= seq![0u8, 1, 1, 1, 6, 1, 0x7F]);
    } else if p == 5 || p == 6 || p == 10 || p == 11 || p == 21 || p == 22 {
        assert(e =~= seq![0u8, 1, 1, 1, 2, 10, 0x0C, 1, 0x7F]);
    } else if p == 8 || p == 9 || p == 18 || p == 19 || p == 28 || p == 29 {
        assert(e =~= seq![0u8, 1, 1, 1, 3, 8, 4, 14, 0x7F]);
    } else {
        assert(e =~= seq![0u8, 1, 1, 1, 0x7F]);
    }
    lemma_offers_mode_short(e, MODE_INPUT, RESOLUTION_DIGITAL);
    lemma_offers_mode_short(e, MODE_OUTPUT, RESOLUTION_DIGITAL);
    lemma_offers_mode_short(e, MODE_I2C, RESOLUTION_I2C);
    lemma_offers_mode_short(e, MODE_ANALOG, RESOLUTION_ANALOG);
    lemma_offers_mode_short(e, MODE_SPI, RESOLUTION_SPI);
    lemma_offers_mode_short(e, MODE_PWM, RESOLUTION_PWM);
    lemma_offers_mode_short(e, MODE_SERVO, RESOLUTION_SERVO);
}

/// The virtual board's analog mapping has 41 entries; entry `i` is `i` for
/// the analog pins 5, 6, 10, 11, 21 and 22, and `SYSEX_REALTIME` (no analog
/// channel) for every other pin.
pub proof fn lemma_mock_analog_mapping_entries()
    ensures
        mock_analog_mapping().len() == 41,
        forall|i: int|
            0 <= i < 41 ==> #[trigger] mock_analog_mapping()[i] == if i == 5 || i == 6 || i == 10 || i
                == 11 || i == 21 || i == 22 {
                i as u8
            } else {
                SYSEX_REALTIME
            },
{
}

/// Whether a write changes the state, in full: the first write to a pin
/// always does; a later one does exactly when its value differs from the
/// pin's value.
pub proof fn lemma_when_a_write_changes_state(pins: Map<u8, usize>, pin: u8, value: usize)
    ensures
        !pins.contains_key(pin) ==> changes_state(pins, pin, value),
        pins.contains_key(pin) ==> (changes_state(pins, pin, value) <==> pins[pin] != value),
{
}

/// A digital write stores 1 for a high level and 0 for a low one; it is
/// reported exactly when "the write changed the pin" differs from the level
/// written: a low level that changes the pin, or a high level that does not.
pub proof fn lemma_digital_write_levels(pins: Map<u8, usize>, pin: u8, value: bool)
    ensures
        level_value(true) == 1,
        level_value(false) == 0,
        (changes_state(pins, pin, level_value(value)) != value) <==> ((!value && (
        !pins.contains_key(pin) || pins[pin] != 0)) || (value && pins.contains_key(pin) && pins[pin]
            == 1)),
{
}

/// Writing to a pin the value it already holds does not change the state.
pub proof fn lemma_repeated_write_unchanged(pins: Map<u8, usize>, pin: u8, value: usize)
    ensures
        !changes_state(pins.insert(pin, value), pin, value),
{
}

/// Whether a write changes a pin does not depend on the writes to other pins.
pub proof fn lemma_writes_to_other_pins_independent(
    pins: Map<u8, usize>,
    other: u8,
    other_value: usize,
    pin: u8,
    value: usize,
)
    requires
        other != pin,
    ensures
        changes_state(pins.insert(other, other_value), pin, value) == changes_state(pins, pin, value),
{
}

/// The virtual board: the last value written to each pin.
///
/// A clone is an independent board: it starts with a copy of the pin state
/// and later writes to one are not seen by the other. A driver that serves
/// several connections from one board shares a single `MockPinManager`
/// (behind a lock) rather than cloning it.
#[derive(Clone)]
pub struct MockPinManager {
    pins: HashMap<u8, usize>,
}

impl View for MockPinManager {
    type V = Map<u8, usize>;

    closed spec fn view(&self) -> Map<u8, usize> {
        self.pins@
    }
}

impl MockPinManager {
    /// A virtual board on which no pin has been written.
    pub fn new() -> (pm: Self)
        ensures
            pm@ == Map::<u8, usize>::empty(),
    {
        MockPinManager { pins: HashMap::new() }
    }

    /// The board's name.
    pub fn get_name(&self) -> (name: String)
        ensures
            name@ == "MockBoard"@,
    {
        String::from_str("MockBoard")
    }

    /// The capability entry of a pin.
    pub fn get_pin_capabilities(&self, bcm_pin: u8) -> (capabilities: Vec<u8>)
        ensures
            capabilities@ == mock_pin_entry(bcm_pin),
    {
        let extra: Vec<u8> = match bcm_pin {
            2 | 3 => vec![MODE_I2C, RESOLUTION_I2C],
            5 | 6 | 10 | 11 | 21 | 22 => vec![
                MODE_ANALOG,
                RESOLUTION_ANALOG,
                MODE_SPI,
                RESOLUTION_SPI,
            ],
            8 | 9 | 18 | 19 | 28 | 29 => vec![
                MODE_PWM,
                RESOLUTION_PWM,
                MODE_SERVO,
                RESOLUTION_SERVO,
            ],
            _ => Vec::new(),
        };
        assert(extra@ =~= mock_extra_modes(bcm_pin));
        build_pin_entry(extra.as_slice())
    }

    /// The body of the board's capability response: the entries of pins 0 to 30.
    pub fn get_capabilities(&self) -> (response: Vec<u8>)
        ensures
            response@ == capability_table(|p: u8| mock_pin_entry(p), MOCK_PIN_COUNT as nat),
    {
        let mut response: Vec<u8> = Vec::new();
        let mut pin: u8 = 0;
        while pin < MOCK_PIN_COUNT
            invariant
                pin <= MOCK_PIN_COUNT,
                response@ == capability_table(|p: u8| mock_pin_entry(p), pin as nat),
            decreases MOCK_PIN_COUNT - pin,
        {
            append_entry(&mut response, self.get_pin_capabilities(pin));
            pin = pin + 1;
        }
        response
    }

    /// The body of the board's analog mapping response.
    pub fn get_analog_mapping(&self) -> (mapping: Vec<u8>)
        ensures
            mapping@ == mock_analog_mapping(),
    {
        let mut mapping: Vec<u8> = Vec::new();
        let mut pin: u8 = 0;
        while pin < MOCK_ANALOG_MAPPING_LEN
            invariant
                pin <= MOCK_ANALOG_MAPPING_LEN,
                mapping@ == mock_analog_mapping().take(pin as int),
            decreases MOCK_ANALOG_MAPPING_LEN - pin,
        {
            match pin {
                5 | 6 | 10 | 11 | 21 | 22 => mapping.push(pin),
                _ => mapping.push(SYSEX_REALTIME),
            }
            pin = pin + 1;
            assert(mapping@ =~= mock_analog_mapping().take(pin as int));
        }
        assert(mock_analog_mapping().take(pin as int) =~= mock_analog_mapping());
        mapping
    }

    /// Records `value` as the state of `pin`; returns whether it changes
    /// the state.
    pub fn set_state(&mut self, pin: u8, value: usize) -> (changed: bool)
        ensures
            final(self)@ == old(self)@.insert(pin, value),
            changed == changes_state(old(self)@, pin, value),
    {
        if !self.pins.contains_key(&pin) {
            self.pins.insert(pin, value);
            return true;
        }
        match self.pins.insert(pin, value) {
            None => true,
            Some(prev) => prev != value,
        }
    }

    /// Records the level of a digital pin (1 for high, 0 for low). Returns
    /// whether the write is to be reported: when whether it changed the
    /// state differs from the level.
    pub fn set_digital_pin(&mut self, pin: u8, value: bool) -> (report: bool)
        ensures
            final(self)@ == old(self)@.insert(pin, level_value(value)),
            report == (changes_state(old(self)@, pin, level_value(value)) != value),
    {
        let level: usize = if value {
            1
        } else {
            0
        };
        self.set_state(pin, level) != value
    }

    /// Records the value of an analog pin. Returns whether the write is to be
    /// reported: when it changes the state.
    pub fn set_analog_pin(&mut self, pin: u8, value: usize) -> (report: bool)
        ensures
            final(self)@ == old(self)@.insert(pin, value),
            report == changes_state(old(self)@, pin, value),
    {
        self.set_state(pin, value)
    }
}

} // verus!
