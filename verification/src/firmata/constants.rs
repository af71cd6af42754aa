//! Firmata protocol constants (message types, sysex commands, pin modes and
//! the resolutions reported in capability responses).

use vstd::prelude::*;

verus! {

/// Analog I/O message (`0xE0 | pin`).
pub const ANALOG_MESSAGE: u8 = 0xE0;
/// Digital I/O message (`0x90 | port`).
pub const DIGITAL_MESSAGE: u8 = 0x90;
/// Enable or disable analog reporting for a pin.
pub const REPORT_ANALOG: u8 = 0xC0;
/// Enable or disable digital reporting for a port.
pub const REPORT_DIGITAL: u8 = 0xD0;
/// Start of a sysex message.
pub const START_SYSEX: u8 = 0xF0;
/// Set the mode of a pin.
pub const SET_PIN_MODE: u8 = 0xF4;
/// Set the value of a single digital pin.
pub const SET_DIGITAL_PIN_VALUE: u8 = 0xF5;
/// End of a sysex message.
pub const END_SYSEX: u8 = 0xF7;
/// Protocol version report.
pub const REPORT_VERSION: u8 = 0xF9;
/// Reset the board.
pub const SYSTEM_RESET: u8 = 0xFF;

/// Sysex: analog write with more than 14 bits or to a pin above 15.
pub const EXTENDED_ANALOG: u8 = 0x6F;
/// Sysex: ask for the capabilities of all pins.
pub const CAPABILITY_QUERY: u8 = 0x6B;
/// Sysex: reply to a capability query.
pub const CAPABILITY_RESPONSE: u8 = 0x6C;
/// Sysex: ask for the analog channel of every pin.
pub const ANALOG_MAPPING_QUERY: u8 = 0x69;
/// Sysex: reply to an analog mapping query.
pub const ANALOG_MAPPING_RESPONSE: u8 = 0x6A;
/// Sysex: I2C read or write request.
pub const I2C_REQUEST: u8 = 0x76;
/// Sysex: reply to an I2C read request.
pub const I2C_REPLY: u8 = 0x77;
/// Sysex: I2C configuration.
pub const I2C_CONFIG: u8 = 0x78;
/// Sysex: firmware name and version report.
pub const REPORT_FIRMWARE: u8 = 0x79;
/// Sysex: non real-time message; also the mask of a 7-bit data byte.
pub const SYSEX_NON_REALTIME: u8 = 0x7E;
/// Sysex: real-time message; also the mask of a 7-bit data byte and the
/// terminator of a pin's entry in a capability response.
pub const SYSEX_REALTIME: u8 = 0x7F;

/// Pin mode: digital input.
pub const MODE_INPUT: u8 = 0x00;
/// Pin mode: digital output.
pub const MODE_OUTPUT: u8 = 0x01;
/// Pin mode: analog input.
pub const MODE_ANALOG: u8 = 0x02;
/// Pin mode: PWM output.
pub const MODE_PWM: u8 = 0x03;
/// Pin mode: servo output.
pub const MODE_SERVO: u8 = 0x04;
/// Pin mode: shift register.
pub const MODE_SHIFT: u8 = 0x05;
/// Pin mode: I2C.
pub const MODE_I2C: u8 = 0x06;
/// Pin mode: OneWire.
pub const MODE_ONEWIRE: u8 = 0x07;
/// Pin mode: stepper.
pub const MODE_STEPPER: u8 = 0x08;
/// Pin mode: encoder.
pub const MODE_ENCODER: u8 = 0x09;
/// Pin mode: serial.
pub const MODE_SERIAL: u8 = 0x0A;
/// Pin mode: input with pull-up.
pub const MODE_PULLUP: u8 = 0x0B;
/// Pin mode: SPI.
pub const MODE_SPI: u8 = 0x0C;
/// Pin mode: sonar.
pub const MODE_SONAR: u8 = 0x0D;
/// Pin mode: tone.
pub const MODE_TONE: u8 = 0x0E;
/// Pin mode: DHT sensor; also the mask of the channel in a message byte.
pub const MODE_DHT: u8 = 0x0F;

/// Resolution of a digital pin, in bits.
pub const RESOLUTION_DIGITAL: u8 = 1;
/// Resolution of an analog input, in bits.
pub const RESOLUTION_ANALOG: u8 = 10;
/// Resolution of a PWM output, in bits.
pub const RESOLUTION_PWM: u8 = 8;
/// Resolution of a servo output, in bits.
pub const RESOLUTION_SERVO: u8 = 14;
/// Resolution reported for an I2C pin.
pub const RESOLUTION_I2C: u8 = 1;
/// Resolution reported for an SPI pin.
pub const RESOLUTION_SPI: u8 = 1;

} // verus!
