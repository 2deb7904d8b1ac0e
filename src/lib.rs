//! A line-oriented command shell for a microcontroller, with a small
//! persistent store kept on raw flash sectors.
//!
//! Everything here is pure logic over plain values: the board support code
//! hands in bytes and samples, and performs the [`commands::DeviceAction`]s
//! that commands queue on the [`commands::Context`].
use vstd::prelude::*;

pub mod commands;
pub mod flash;
pub mod shell;
pub mod text;

verus! {

/// Every failure the shell reports.
#[derive(Debug, Clone, Copy, PartialEq, Eq, Structural)]
pub enum Error {
    /// The transport went away.
    Disconnected,
    /// The transport could not take or hand over a packet.
    BufferOverflow,
    /// The first word of a line names no command.
    UnknownCommand,
    /// A line holds more words than a command may take.
    TooManyArguments,
    /// A command was given the wrong number of arguments.
    InvalidArgumentCount,
    /// An argument is not one of the values the command accepts.
    InvalidArgument,
    /// A slot index is not a number below the slot count.
    InvalidSlotNumber,
    /// A payload does not fit in a slot.
    DataTooLarge,
}

/// The text shown for each error.
pub open spec fn error_message(e: Error) -> Seq<char> {
    match e {
        Error::Disconnected => "Disconnected"@,
        Error::BufferOverflow => "Buffer overflow"@,
        Error::UnknownCommand => "Unknown command"@,
        Error::TooManyArguments => "Too many arguments"@,
        Error::InvalidArgumentCount => "Invalid argument count"@,
        Error::InvalidArgument => "Invalid argument"@,
        Error::InvalidSlotNumber => "Invalid slot number"@,
        Error::DataTooLarge => "Data too large"@,
    }
}

impl Error {
    pub fn message(&self) -> (r: &'static str)
        ensures
            r@ == error_message(*self),
    {
        match self {
            Error::Disconnected => "Disconnected",
            Error::BufferOverflow => "Buffer overflow",
            Error::UnknownCommand => "Unknown command",
            Error::TooManyArguments => "Too many arguments",
            Error::InvalidArgumentCount => "Invalid argument count",
            Error::InvalidArgument => "Invalid argument",
            Error::InvalidSlotNumber => "Invalid slot number",
            Error::DataTooLarge => "Data too large",
        }
    }
}

/// The longest line the shell assembles, in bytes.
pub const MAX_COMMAND_LENGTH: usize = 64;

} // verus!
