//! What a decoded message asks of the board and of the connection, in the
//! order in which it is to be carried out.

use crate::firmata::parser::{
    digital_port_writes, lemma_pin_level_is_bit, pin_level, spec_parse, Command, CommandModel,
};
use crate::firmata::stream::lemma_parse_value_ranges;
use vstd::arithmetic::power2::pow2;
use vstd::prelude::*;

verus! {

/// One step of carrying out a message.
///
/// `W` is the type of the words of an I2C write: `Vec<u16>` for a step to
/// carry out, `Seq<u16>` for its mathematical model.
#[derive(Debug, PartialEq, Eq)]
pub enum BoardAction<W> {
    /// Set the mode of a pin.
    SetPinMode { pin: u8, mode: u8 },
    /// Set the level of a digital pin.
    SetDigitalPin { pin: u8, value: bool },
    /// Set the value of an analog (PWM) pin.
    SetAnalogPin { pin: u8, value: usize },
    /// Send words to an I2C device.
    SendI2cData { address: u16, data: W },
    /// Reply with the firmware report of the board.
    SendFirmwareReport,
    /// Reply with the capability table of the board.
    SendCapabilities,
    /// Reply with the analog mapping of the board.
    SendAnalogMapping,
    /// Skip a sysex command that is not handled.
    SkipSysex(u8),
    /// Skip a message type that is not handled.
    SkipMessage(u8),
    /// Give up the connection: a sysex command's data is too short to be
    /// decoded.
    RejectTruncated(u8),
}

/// The mathematical model of a step.
pub type BoardActionModel = BoardAction<Seq<u16>>;

impl View for BoardAction<Vec<u16>> {
    type V = BoardAction<Seq<u16>>;

    open spec fn view(&self) -> BoardAction<Seq<u16>> {
        match self {
            BoardAction::SetPinMode { pin, mode } => BoardAction::SetPinMode {
                pin: *pin,
                mode: *mode,
            },
            BoardAction::SetDigitalPin { pin, value } => BoardAction::SetDigitalPin {
                pin: *pin,
                value: *value,
            },
            BoardAction::SetAnalogPin { pin, value } => BoardAction::SetAnalogPin {
                pin: *pin,
                value: *value,
            },
            BoardAction::SendI2cData { address, data } => BoardAction::SendI2cData {
                address: *address,
                data: data@,
            },
            BoardAction::SendFirmwareReport => BoardAction::SendFirmwareReport,
            BoardAction::SendCapabilities => BoardAction::SendCapabilities,
            BoardAction::SendAnalogMapping => BoardAction::SendAnalogMapping,
            BoardAction::SkipSysex(c) => BoardAction::SkipSysex(*c),
            BoardAction::SkipMessage(c) => BoardAction::SkipMessage(*c),
            BoardAction::RejectTruncated(c) => BoardAction::RejectTruncated(*c),
        }
    }
}

/// The models of a list of steps.
pub open spec fn actions_view(actions: Seq<BoardAction<Vec<u16>>>) -> Seq<BoardActionModel> {
    actions.map_values(|a: BoardAction<Vec<u16>>| a@)
}

/// A message's steps can be carried out: a digital message's port leaves its
/// pin numbers within a byte.
pub open spec fn actions_defined(cmd: CommandModel) -> bool {
    cmd matches CommandModel::DigitalWrite { port, .. } ==> port < 32
}

/// Every message that the decoder yields can be carried out.
pub proof fn lemma_decoded_actions_defined(s: Seq<u8>)
    ensures
        spec_parse(s) matches Some((cmd, _)) ==> actions_defined(cmd),
{
    lemma_parse_value_ranges(s);
}

/// A digital message for a port sets its eight pins, from pin `8 * port` up:
/// pin `8 * port + i` goes high exactly when bit `i` of the port's byte is
/// set, that is when `(values / 2^i) % 2 == 1`.
pub proof fn lemma_digital_actions_set_port_bits(port: u8, values: u8)
    requires
        port < 32,
    ensures
        spec_board_actions(CommandModel::DigitalWrite { port, values }).len() == 8,
        forall|i: int|
            0 <= i < 8 ==> #[trigger] spec_board_actions(
                CommandModel::DigitalWrite { port, values },
            )[i] == (BoardActionModel::SetDigitalPin {
                pin: (port * 8 + i) as u8,
                value: (values as int / pow2(i as nat) as int) % 2 == 1,
            }),
{
    assert forall|i: int| 0 <= i < 8 implies #[trigger] spec_board_actions(
        CommandModel::DigitalWrite { port, values },
    )[i] == (BoardActionModel::SetDigitalPin {
        pin: (port * 8 + i) as u8,
        value: (values as int / pow2(i as nat) as int) % 2 == 1,
    }) by {
        lemma_pin_level_is_bit(values, i as u8);
    }
}

/// The steps that carry out a message:
/// - a pin mode, an analog or extended analog write, an I2C request: the one
///   matching board operation;
/// - a digital message: the eight pin writes of its port, pin `8 * port + i`
///   taking bit `i`, from `i = 0` up;
/// - the three queries: the matching reply;
/// - `SYSTEM_RESET` and an empty sysex: nothing;
/// - a sysex command or message type that is not handled: skip it;
/// - a truncated sysex: give up the connection.
pub open spec fn spec_board_actions(cmd: CommandModel) -> Seq<BoardActionModel> {
    match cmd {
        CommandModel::SetPinMode { pin, mode } => seq![BoardAction::SetPinMode { pin, mode }],
        CommandModel::DigitalWrite { port, values } => Seq::new(
            8,
            |i: int|
                BoardAction::SetDigitalPin {
                    pin: (port * 8 + i) as u8,
                    value: pin_level(values, i as u8),
                },
        ),
        CommandModel::AnalogWrite { pin, value } => seq![BoardAction::SetAnalogPin { pin, value }],
        CommandModel::ExtendedAnalogWrite { pin, value } => seq![
            BoardAction::SetAnalogPin { pin, value },
        ],
        CommandModel::I2cRequest { address, data } => seq![
            BoardAction::SendI2cData { address, data },
        ],
        CommandModel::ReportFirmware => seq![BoardAction::SendFirmwareReport],
        CommandModel::CapabilityQuery => seq![BoardAction::SendCapabilities],
        CommandModel::AnalogMappingQuery => seq![BoardAction::SendAnalogMapping],
        CommandModel::SystemReset => Seq::empty(),
        CommandModel::SysexEnd => Seq::empty(),
        CommandModel::UnknownSysex(c) => seq![BoardAction::SkipSysex(c)],
        CommandModel::UnknownMessage(c) => seq![BoardAction::SkipMessage(c)],
        CommandModel::TruncatedSysex(c) => seq![BoardAction::RejectTruncated(c)],
    }
}

/// The steps that carry out a decoded message, in order.
pub fn board_actions(cmd: Command<Vec<u16>>) -> (actions: Vec<BoardAction<Vec<u16>>>)
    requires
        actions_defined(cmd@),
    ensures
        actions_view(actions@) == spec_board_actions(cmd@),
{
    let ghost model = cmd@;
    let mut actions: Vec<BoardAction<Vec<u16>>> = Vec::new();
    match cmd {
        Command::SetPinMode { pin, mode } => {
            actions.push(BoardAction::SetPinMode { pin, mode });
        },
        Command::DigitalWrite { port, values } => {
            let writes = digital_port_writes(port, values);
            let mut i: usize = 0;
            while i < writes.len()
                invariant
                    writes@.len() == 8,
                    i <= 8,
                    port < 32,
                    forall|k: int|
                        0 <= k < 8 ==> #[trigger] writes@[k] == (
                            (port * 8 + k) as u8,
                            pin_level(values, k as u8),
                        ),
                    actions@.len() == i,
                    forall|k: int|
                        0 <= k < i ==> #[trigger] actions@[k]@ == (BoardActionModel::SetDigitalPin {
                            pin: (port * 8 + k) as u8,
                            value: pin_level(values, k as u8),
                        }),
                decreases 8 - i,
            {
                let (pin, value) = writes[i];
                actions.push(BoardAction::SetDigitalPin { pin, value });
                i = i + 1;
            }
        },
        Command::AnalogWrite { pin, value } => {
            actions.push(BoardAction::SetAnalogPin { pin, value });
        },
        Command::ExtendedAnalogWrite { pin, value } => {
            actions.push(BoardAction::SetAnalogPin { pin, value });
        },
        Command::I2cRequest { address, data } => {
            actions.push(BoardAction::SendI2cData { address, data });
        },
        Command::ReportFirmware => {
            actions.push(BoardAction::SendFirmwareReport);
        },
        Command::CapabilityQuery => {
            actions.push(BoardAction::SendCapabilities);
        },
        Command::AnalogMappingQuery => {
            actions.push(BoardAction::SendAnalogMapping);
        },
        Command::SystemReset => {},
        Command::SysexEnd => {},
        Command::UnknownSysex(c) => {
            actions.push(BoardAction::SkipSysex(c));
        },
        Command::UnknownMessage(c) => {
            actions.push(BoardAction::SkipMessage(c));
        },
        Command::TruncatedSysex(c) => {
            actions.push(BoardAction::RejectTruncated(c));
        },
    }
    assert(actions_view(actions@) =~= spec_board_actions(model));
    actions
}

} // verus!
