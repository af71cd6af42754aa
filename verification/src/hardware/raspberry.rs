//! The capability tables of the Raspberry Pi (pins by BCM number).

use crate::firmata::constants::{
    MODE_ANALOG, MODE_I2C, MODE_INPUT, MODE_OUTPUT, MODE_PWM, MODE_SERVO, MODE_SPI,
    RESOLUTION_ANALOG, RESOLUTION_DIGITAL, RESOLUTION_I2C, RESOLUTION_PWM, RESOLUTION_SERVO,
    RESOLUTION_SPI, SYSEX_REALTIME,
};
use crate::hardware::capabilities::{
    append_entry, build_pin_entry, capability_table, count_byte, lemma_offers_mode_short,
    lemma_pin_entry_one_terminator, lemma_table_one_terminator_per_pin, offers_mode, pin_entry,
};
use vstd::prelude::*;

verus! {

/// The number of pins in the Raspberry Pi's capability response (BCM 0 to 40).
pub const RASPI_PIN_COUNT: u8 = 41;

/// The number of entries in the Raspberry Pi's analog mapping.
pub const RASPI_ANALOG_MAPPING_LEN: usize = 40;

/// The modes of a Raspberry Pi pin beyond general I/O: I2C on BCM 2 and 3,
/// SPI on BCM 7 to 11, PWM and servo on the hardware PWM pins.
pub open spec fn raspi_extra_modes(bcm_pin: u8) -> Seq<u8> {
    if bcm_pin == 2 || bcm_pin == 3 {
        seq![MODE_I2C, RESOLUTION_I2C]
    } else if 7 <= bcm_pin <= 11 {
        seq![MODE_SPI, RESOLUTION_SPI]
    } else if bcm_pin == 12 || bcm_pin == 13 || bcm_pin == 18 || bcm_pin == 19 || bcm_pin == 32
        || bcm_pin == 33 || bcm_pin == 35 || bcm_pin == 36 || bcm_pin == 38 || bcm_pin == 40 {
        seq![MODE_PWM, RESOLUTION_PWM, MODE_SERVO, RESOLUTION_SERVO]
    } else {
        Seq::empty()
    }
}

/// The capability entry of a Raspberry Pi pin.
pub open spec fn raspi_pin_entry(bcm_pin: u8) -> Seq<u8> {
    pin_entry(raspi_extra_modes(bcm_pin))
}

/// The Raspberry Pi's capability response has one entry per pin: its table
/// holds one `SYSEX_REALTIME` for each of the BCM pins 0 to 40.
pub proof fn lemma_raspi_table_one_entry_per_pin()
    ensures
        count_byte(
            capability_table(|p: u8| raspi_pin_entry(p), RASPI_PIN_COUNT as nat),
            SYSEX_REALTIME,
        ) == RASPI_PIN_COUNT,
{
    let entry = |p: u8| raspi_pin_entry(p);
    assert forall|p: u8| (p as nat) < RASPI_PIN_COUNT implies count_byte(
        #[trigger] entry(p),
        SYSEX_REALTIME,
    ) == 1 by {
        reveal_with_fuel(count_byte, 5);
        let e = raspi_extra_modes(p);
        if e.len() == 2 {
            assert(e.drop_last().drop_last() =~= Seq::<u8>::empty());
        } else if e.len() == 4 {
            assert(e.drop_last().drop_last().drop_last().drop_last() =~= Seq::<u8>::empty());
        }
        lemma_pin_entry_one_terminator(e);
    }
    lemma_table_one_terminator_per_pin(entry, RASPI_PIN_COUNT as nat);
}

/// The total number of bytes of the entries of the first `count` pins.
pub open spec fn raspi_table_len(count: nat) -> nat
    decreases count,
{
    if count == 0 {
        0
    } else {
        raspi_table_len((count - 1) as nat) + raspi_pin_entry((count - 1) as u8).len()
    }
}

/// The table of the first `count` pins has as many bytes as their entries.
proof fn lemma_raspi_table_len_sum(count: nat)
    requires
        count <= 256,
    ensures
        capability_table(|p: u8| raspi_pin_entry(p), count).len() == raspi_table_len(count),
    decreases count,
{
    if count > 0 {
        lemma_raspi_table_len_sum((count - 1) as nat);
    }
}

/// The Raspberry Pi's capability table is 259 bytes long: five bytes of
/// general I/O and terminator for each of its 41 pins, plus two per I2C and
/// SPI pin and four per PWM pin.
pub proof fn lemma_raspi_table_len()
    ensures
        capability_table(|p: u8| raspi_pin_entry(p), RASPI_PIN_COUNT as nat).len() == 259,
{
    lemma_raspi_table_len_sum(RASPI_PIN_COUNT as nat);
    reveal_with_fuel(raspi_table_len, 42);
}

/// The hardware PWM pins of the Raspberry Pi, by BCM number.
pub open spec fn is_raspi_pwm_pin(p: u8) -> bool {
    p == 12 || p == 13 || p == 18 || p == 19 || p == 32 || p == 33 || p == 35 || p == 36 || p == 38
        || p == 40
}

/// What each Raspberry Pi pin reports: every pin digital input and output;
/// I2C exactly on BCM 2 and 3; SPI exactly on BCM 7, 8, 9, 10 and 11; PWM
/// and servo exactly on BCM 12, 13, 18, 19, 32, 33, 35, 36, 38 and 40; no
/// analog input; and every entry ends with `SYSEX_REALTIME`.
pub proof fn lemma_raspi_pin_modes(p: u8)
    ensures
        offers_mode(raspi_pin_entry(p), MODE_INPUT, RESOLUTION_DIGITAL),
        offers_mode(raspi_pin_entry(p), MODE_OUTPUT, RESOLUTION_DIGITAL),
        offers_mode(raspi_pin_entry(p), MODE_I2C, RESOLUTION_I2C) <==> (p == 2 || p == 3),
        offers_mode(raspi_pin_entry(p), MODE_SPI, RESOLUTION_SPI) <==> (p == 7 || p == 8 || p == 9
            || p == 10 || p == 11),
        offers_mode(raspi_pin_entry(p), MODE_PWM, RESOLUTION_PWM) <==> is_raspi_pwm_pin(p),
        offers_mode(raspi_pin_entry(p), MODE_SERVO, RESOLUTION_SERVO) <==> is_raspi_pwm_pin(p),
        !offers_mode(raspi_pin_entry(p), MODE_ANALOG, RESOLUTION_ANALOG),
        raspi_pin_entry(p).last() == SYSEX_REALTIME,
{
    let e = raspi_pin_entry(p);
    if p == 2 || p == 3 {
        assert(e =~= seq![0u8, 1, 1, 1, 6, 1, 0x7F]);
    } else if p == 7 || p == 8 || p == 9 || p == 10 || p == 11 {
        assert(e =~= seq![0u8, 1, 1, 1, 0x0C, 1, 0x7F]);
    } else if is_raspi_pwm_pin(p) {
        assert(e =~= seq![0u8, 1, 1, 1, 3, 8, 4, 14, 0x7F]);
    } else {
        assert(e =~= seq![0u8, 1, 1, 1, 0x7F]);
    }
    lemma_offers_mode_short(e, MODE_INPUT, RESOLUTION_DIGITAL);
    lemma_offers_mode_short(e, MODE_OUTPUT, RESOLUTION_DIGITAL);
    lemma_offers_mode_short(e, MODE_I2C, RESOLUTION_I2C);
    lemma_offers_mode_short(e, MODE_SPI, RESOLUTION_SPI);
    lemma_offers_mode_short(e, MODE_PWM, RESOLUTION_PWM);
    lemma_offers_mode_short(e, MODE_SERVO, RESOLUTION_SERVO);
    lemma_offers_mode_short(e, MODE_ANALOG, RESOLUTION_ANALOG);
}

/// The capability entry of a Raspberry Pi pin.
pub fn raspi_pin_capabilities(bcm_pin: u8) -> (capabilities: Vec<u8>)
    ensures
        capabilities@ == raspi_pin_entry(bcm_pin),
{
    let extra: Vec<u8> = match bcm_pin {
        2 | 3 => vec![MODE_I2C, RESOLUTION_I2C],
        7 | 8 | 9 | 10 | 11 => vec![MODE_SPI, RESOLUTION_SPI],
        12 | 13 | 18 | 19 | 32 | 33 | 35 | 36 | 38 | 40 => vec![
            MODE_PWM,
            RESOLUTION_PWM,
            MODE_SERVO,
            RESOLUTION_SERVO,
        ],
        _ => Vec::new(),
    };
    assert(extra@ =~= raspi_extra_modes(bcm_pin));
    build_pin_entry(extra.as_slice())
}

/// The body of the Raspberry Pi's capability response: the entries of
/// BCM pins 0 to 40.
pub fn raspi_capabilities() -> (response: Vec<u8>)
    ensures
        response@ == capability_table(|p: u8| raspi_pin_entry(p), RASPI_PIN_COUNT as nat),
{
    let mut response: Vec<u8> = Vec::new();
    let mut pin: u8 = 0;
    while pin < RASPI_PIN_COUNT
        invariant
            pin <= RASPI_PIN_COUNT,
            response@ == capability_table(|p: u8| raspi_pin_entry(p), pin as nat),
        decreases RASPI_PIN_COUNT - pin,
    {
        append_entry(&mut response, raspi_pin_capabilities(pin));
        pin = pin + 1;
    }
    response
}

/// The body of the Raspberry Pi's analog mapping response: it has no analog
/// input, so every entry is `SYSEX_REALTIME`.
pub fn raspi_analog_mapping() -> (mapping: Vec<u8>)
    ensures
        mapping@ == Seq::new(RASPI_ANALOG_MAPPING_LEN as nat, |i: int| SYSEX_REALTIME),
{
    let mut mapping: Vec<u8> = Vec::new();
    let mut i: usize = 0;
    while i < RASPI_ANALOG_MAPPING_LEN
        invariant
            i <= RASPI_ANALOG_MAPPING_LEN,
            mapping@ == Seq::new(i as nat, |k: int| SYSEX_REALTIME),
        decreases RASPI_ANALOG_MAPPING_LEN - i,
    {
        mapping.push(SYSEX_REALTIME);
        i = i + 1;
        assert(mapping@ =~= Seq::new(i as nat, |k: int| SYSEX_REALTIME));
    }
    mapping
}

} // verus!
