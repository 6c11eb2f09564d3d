//! Frame opcodes and close codes.

use vstd::prelude::*;

verus! {

/// Operation code of a frame: the low four bits of the first header byte.
///
/// `Bad` is an internal sentinel standing for an unrecognized four-bit
/// code; a frame handed to a caller never carries it.
#[derive(Debug, Clone, Copy, PartialEq, Eq)]
pub enum OpCode {
    /// A continuation fragment of a multi-frame message.
    Continuation,
    /// A text data frame.
    Text,
    /// A binary data frame.
    Binary,
    /// A connection-close control frame.
    Close,
    /// A ping control frame.
    Ping,
    /// A pong control frame.
    Pong,
    /// An unrecognized four-bit code; internal to decoding.
    Bad,
}

/// The wire number of an opcode. `Bad` has no wire number of its own.
pub open spec fn opcode_num(code: OpCode) -> u8 {
    match code {
        OpCode::Continuation => 0,
        OpCode::Text => 1,
        OpCode::Binary => 2,
        OpCode::Close => 8,
        OpCode::Ping => 9,
        OpCode::Pong => 10,
        OpCode::Bad => 8,
    }
}

/// The opcode that a raw four-bit value decodes to.
pub open spec fn opcode_of(raw: u8) -> OpCode {
    if raw == 0 {
        OpCode::Continuation
    } else if raw == 1 {
        OpCode::Text
    } else if raw == 2 {
        OpCode::Binary
    } else if raw == 8 {
        OpCode::Close
    } else if raw == 9 {
        OpCode::Ping
    } else if raw == 10 {
        OpCode::Pong
    } else {
        OpCode::Bad
    }
}

impl OpCode {
    /// True of a control opcode (close, ping or pong).
    pub open spec fn spec_is_control(self) -> bool {
        self is Close || self is Ping || self is Pong
    }

    /// Decode a raw four-bit value; anything but the six assigned codes
    /// yields the `Bad` sentinel.
    pub fn from_u8(raw: u8) -> (r: OpCode)
        ensures
            r == opcode_of(raw),
    {
        match raw {
            0 => OpCode::Continuation,
            1 => OpCode::Text,
            2 => OpCode::Binary,
            8 => OpCode::Close,
            9 => OpCode::Ping,
            10 => OpCode::Pong,
            _ => OpCode::Bad,
        }
    }

    /// The wire number of this opcode.
    pub fn as_u8(self) -> (r: u8)
        requires
            !(self is Bad),
        ensures
            r == opcode_num(self),
    {
        match self {
            OpCode::Continuation => 0,
            OpCode::Text => 1,
            OpCode::Binary => 2,
            OpCode::Close => 8,
            OpCode::Ping => 9,
            OpCode::Pong => 10,
            OpCode::Bad => 8,
        }
    }
}

/// Decoding a wire number gives back the opcode it came from.
pub proof fn lemma_opcode_roundtrip(code: OpCode)
    requires
        !(code is Bad),
    ensures
        opcode_of(opcode_num(code)) == code,
{
}

/// Standard numeric close reasons, plus `Empty` meaning "no code present"
/// and `Other` for unrecognized numeric codes.
#[derive(Debug, Clone, Copy, PartialEq, Eq)]
pub enum CloseCode {
    /// Normal closure (1000).
    Normal,
    /// Endpoint going away (1001).
    Away,
    /// Protocol error (1002).
    Protocol,
    /// Unsupported data (1003).
    Unsupported,
    /// No code present; a close built with it carries an empty payload.
    Empty,
    /// Abnormal closure (1006).
    Abnormal,
    /// Invalid payload data (1007).
    Invalid,
    /// Policy violation (1008).
    Policy,
    /// Message too big (1009).
    Size,
    /// Missing extension (1010).
    Extension,
    /// Unexpected internal error (1011).
    Error,
    /// Service restarting (1012).
    Restart,
    /// Try again later (1013).
    Again,
    /// Any other numeric code.
    Other(u16),
}

/// The numeric value of a close code.
pub open spec fn close_code_num(code: CloseCode) -> u16 {
    match code {
        CloseCode::Normal => 1000,
        CloseCode::Away => 1001,
        CloseCode::Protocol => 1002,
        CloseCode::Unsupported => 1003,
        CloseCode::Empty => 1005,
        CloseCode::Abnormal => 1006,
        CloseCode::Invalid => 1007,
        CloseCode::Policy => 1008,
        CloseCode::Size => 1009,
        CloseCode::Extension => 1010,
        CloseCode::Error => 1011,
        CloseCode::Restart => 1012,
        CloseCode::Again => 1013,
        CloseCode::Other(n) => n,
    }
}

impl CloseCode {
    /// The numeric value of this close code.
    pub fn as_u16(self) -> (r: u16)
        ensures
            r == close_code_num(self),
    {
        match self {
            CloseCode::Normal => 1000,
            CloseCode::Away => 1001,
            CloseCode::Protocol => 1002,
            CloseCode::Unsupported => 1003,
            CloseCode::Empty => 1005,
            CloseCode::Abnormal => 1006,
            CloseCode::Invalid => 1007,
            CloseCode::Policy => 1008,
            CloseCode::Size => 1009,
            CloseCode::Extension => 1010,
            CloseCode::Error => 1011,
            CloseCode::Restart => 1012,
            CloseCode::Again => 1013,
            CloseCode::Other(n) => n,
        }
    }
}

} // verus!
