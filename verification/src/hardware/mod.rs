//! Board models: the capability tables that the bridge reports for each
//! board, the pin state of the virtual board, and the interface that a board
//! driver offers to a Firmata connection.

pub mod capabilities;
pub mod jetson;
pub mod mock;
pub mod raspberry;

use crate::firmata::error::FirmataError;
use vstd::prelude::*;

verus! {

/// What a Firmata connection needs from a board: its name, its capability
/// and analog mapping tables, and the pin operations that clients ask for.
pub trait PinManagerExt: Send + Sync + 'static {
    /// Opens the board.
    fn new() -> Self where Self: Sized;

    /// The board's name, as shown in the firmware report.
    fn get_name(&self) -> String;

    /// The body of a capability response for all pins of the board.
    fn get_capabilities(&self) -> Vec<u8>;

    /// The body of an analog mapping response.
    fn get_analog_mapping(&self) -> Vec<u8>;

    /// Sets the mode of a pin.
    fn set_pin_mode(&self, pin: u8, mode: u8) -> Result<(), FirmataError>;

    /// Sets the level of a digital output pin.
    fn set_digital_pin(&self, pin: u8, value: bool) -> Result<(), FirmataError>;

    /// Sets the value of an analog (PWM) output pin.
    fn set_analog_pin(&self, pin: u8, value: usize) -> Result<(), FirmataError>;

    /// Sends words to an I2C device.
    fn send_i2c_data(&self, address: u16, data: Vec<u16>) -> Result<(), FirmataError>;
}

} // verus!
