//! Everything that can go wrong between a request and its result.

use vstd::prelude::*;

verus! {

/// The ways an operation of the client can fail.
#[derive(Debug, Clone, PartialEq)]
pub enum Error {
    /// The caller broke a rule that can be checked before anything is sent.
    InvalidInput { input: String },
    /// The negotiated PDU length is zero, or too short for the request.
    PduLength(i32),
    /// The word length names no known element size, or a reply carries
    /// fewer bytes than the elements asked for.
    InvalidDataSize,
    /// A reply is shorter or longer than its kind allows.
    InvalidPdu,
    /// A reply is malformed; holds why, and the bytes in question.
    InvalidResponse { reason: String, bytes: Vec<u8> },
    /// The PLC answered with an error code of its own.
    Cpu { code: i32 },
    /// The PLC refused to start.
    CannotStart,
    /// The PLC refused to stop.
    CannotStop,
    /// The PLC was asked to start while running.
    AlreadyRun,
    /// The PLC was asked to stop while stopped.
    AlreadyStop,
    /// A status byte, or a block language byte, outside the known values.
    InvalidCpuStatus(u8),
    /// A block type byte outside the known values.
    InvalidBlockType(u8),
    /// The PLC's answer makes no sense for the request.
    InvalidPlcAnswer,
    /// The caller's buffer cannot hold, or does not hold, the bytes to move.
    BufferTooSmall,
    /// The ISO connection was not confirmed.
    Iso,
    /// The connection could not be opened.
    Connect(String),
    /// The socket layer failed while sending or receiving.
    Io(String),
}

/// An [`Error`] as contracts speak of it: texts as sequences of characters,
/// bytes as sequences of bytes.
pub enum Failure {
    InvalidInput { input: Seq<char> },
    PduLength(i32),
    InvalidDataSize,
    InvalidPdu,
    InvalidResponse { reason: Seq<char>, bytes: Seq<u8> },
    Cpu { code: i32 },
    CannotStart,
    CannotStop,
    AlreadyRun,
    AlreadyStop,
    InvalidCpuStatus(u8),
    InvalidBlockType(u8),
    InvalidPlcAnswer,
    BufferTooSmall,
    Iso,
    Connect(Seq<char>),
    Io(Seq<char>),
}

impl View for Error {
    type V = Failure;

    open spec fn view(&self) -> Failure {
        match *self {
            Error::InvalidInput { input } => Failure::InvalidInput { input: input@ },
            Error::PduLength(length) => Failure::PduLength(length),
            Error::InvalidDataSize => Failure::InvalidDataSize,
            Error::InvalidPdu => Failure::InvalidPdu,
            Error::InvalidResponse { reason, bytes } => Failure::InvalidResponse {
                reason: reason@,
                bytes: bytes@,
            },
            Error::Cpu { code } => Failure::Cpu { code },
            Error::CannotStart => Failure::CannotStart,
            Error::CannotStop => Failure::CannotStop,
            Error::AlreadyRun => Failure::AlreadyRun,
            Error::AlreadyStop => Failure::AlreadyStop,
            Error::InvalidCpuStatus(value) => Failure::InvalidCpuStatus(value),
            Error::InvalidBlockType(value) => Failure::InvalidBlockType(value),
            Error::InvalidPlcAnswer => Failure::InvalidPlcAnswer,
            Error::BufferTooSmall => Failure::BufferTooSmall,
            Error::Iso => Failure::Iso,
            Error::Connect(text) => Failure::Connect(text@),
            Error::Io(text) => Failure::Io(text@),
        }
    }
}

/// A result with its error seen as a [`Failure`].
pub open spec fn outcome<T>(r: Result<T, Error>) -> Result<T, Failure> {
    match r {
        Ok(value) => Ok(value),
        Err(e) => Err(e@),
    }
}

/// The failure that a result holds, if it holds one.
pub open spec fn failure_of<T>(r: Result<T, Error>) -> Option<Failure> {
    match r {
        Ok(_) => None,
        Err(e) => Some(e@),
    }
}

} // verus!
