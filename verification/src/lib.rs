//! Firmata protocol bridge: a verified decoder for the Firmata byte stream,
//! the replies the bridge sends back, and the models of the boards it drives.

pub mod firmata;
pub mod hardware;
