//! The Firmata protocol: constants, errors, message decoding and replies.

pub mod actions;
pub mod constants;
pub mod error;
pub mod messages;
pub mod parser;
pub mod reply;
pub mod stream;
