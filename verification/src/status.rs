//! The one-byte answers a client can receive.

use vstd::prelude::*;

verus! {

/// The answer to one request, or the reason a connection is closed.
#[derive(Clone, Copy, Debug, PartialEq, Eq, Structural)]
pub enum Status {
    /// The command was carried out.
    Success,
    /// Reading from the transport failed.
    ReadFailure,
    /// The received bytes are not text.
    NotText,
    /// A request could not be decoded, or was cut off.
    Malformed,
    /// The slot index is outside 0..=3.
    SlotOutOfRange,
    /// The command names a slot other than the one this connection owns.
    SlotMismatch,
    /// A grid update was aimed at the status bar.
    StatusBarGrid,
    /// The applet refused the command.
    CommandFailed,
    /// A creation was aimed at an occupied slot.
    SlotOccupied,
    /// The separator kind of a creation is not valid.
    BadSeparator,
    /// Reserved for a failure that no rule accounts for.
    Internal,
}

impl Status {
    /// The byte that goes on the wire.
    pub open spec fn wire(self) -> u8 {
        match self {
            Status::Success => 0,
            Status::ReadFailure => 10,
            Status::NotText => 20,
            Status::Malformed => 21,
            Status::SlotOutOfRange => 30,
            Status::SlotMismatch => 31,
            Status::StatusBarGrid => 32,
            Status::CommandFailed => 33,
            Status::SlotOccupied => 34,
            Status::BadSeparator => 40,
            Status::Internal => 255,
        }
    }

    /// Whether the connection ends once this answer is sent.
    pub open spec fn fatal(self) -> bool {
        !(self == Status::Success || self == Status::CommandFailed || self == Status::Malformed)
    }

    /// The byte that goes on the wire.
    pub fn code(&self) -> (byte: u8)
        ensures
            byte == self.wire(),
    {
        match self {
            Status::Success => 0,
            Status::ReadFailure => 10,
            Status::NotText => 20,
            Status::Malformed => 21,
            Status::SlotOutOfRange => 30,
            Status::SlotMismatch => 31,
            Status::StatusBarGrid => 32,
            Status::CommandFailed => 33,
            Status::SlotOccupied => 34,
            Status::BadSeparator => 40,
            Status::Internal => 255,
        }
    }

    /// Whether the connection ends once this answer is sent.
    pub fn is_fatal(&self) -> (fatal: bool)
        ensures
            fatal == self.fatal(),
    {
        match self {
            Status::Success | Status::CommandFailed | Status::Malformed => false,
            _ => true,
        }
    }
}

} // verus!
