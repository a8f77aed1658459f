//! The closed set of errors shared by every layer.

use vstd::prelude::*;

verus! {

/// Why a byte buffer could not be read as the structure it should hold.
#[derive(Debug, Clone, Copy, PartialEq, Eq)]
pub enum IoCause {
    /// The buffer ended before the field that was being read.
    UnexpectedEof,
}

/// Which rule of the framed transport or of the layers above it was broken.
#[allow(inconsistent_fields)]
#[derive(Debug, Clone, Copy, PartialEq, Eq)]
pub enum ProtocolCause {
    /// A continuation frame arrived where a message had to start.
    ExpectedInitFrame,
    /// An initialization frame arrived in the middle of a message.
    ExpectedContFrame,
    /// The response answers another command than the one that was sent.
    UnexpectedCmd { expected: u8, got: u8 },
    /// A continuation frame arrived out of order.
    SequenceError { expected: u8, got: u8 },
    /// A read returned a report that is not 64 bytes long.
    UnexpectedDataSize { got: usize },
    /// A read returned nothing before its timeout.
    NoData,
    /// A payload does not fit the frame or the message that should carry it.
    PayloadTooLong { len: usize },
    /// The INIT response echoes another nonce than the one that was sent.
    NonceMismatch,
    /// An APDU response is too short to hold a status word.
    ResponseTooShort { len: usize },
    /// An APDU response ends in a status word that has no meaning here.
    UnknownStatus { sw: u16 },
}

/// Everything that can go wrong between the caller and the token.
#[derive(Debug, Clone, PartialEq, Eq)]
pub enum Error {
    /// The HID transport failed; the text is the transport's own description.
    Hid(String),
    /// A buffer was too short for the structure read from it.
    IO(IoCause),
    /// The device or the caller broke the protocol.
    Protocol(ProtocolCause),
    /// The token refused a well-formed command: status word, its meaning,
    /// and the bytes that came before the status word.
    APDUError(u16, &'static str, Vec<u8>),
}

impl ProtocolCause {
    /// A short fixed description of the cause, without its numbers.
    pub fn description(&self) -> (text: &'static str)
        ensures
            text@ == self.description_text(),
    {
        match self {
            ProtocolCause::ExpectedInitFrame => "expected init frame",
            ProtocolCause::ExpectedContFrame => "expected cont frame",
            ProtocolCause::UnexpectedCmd { .. } => "unexpected response cmd",
            ProtocolCause::SequenceError { .. } => "sequence error",
            ProtocolCause::UnexpectedDataSize { .. } => "unexpected data size",
            ProtocolCause::NoData => "nothing was returned from device",
            ProtocolCause::PayloadTooLong { .. } => "payload too long",
            ProtocolCause::NonceMismatch => "nonce mismatch",
            ProtocolCause::ResponseTooShort { .. } => "response too short",
            ProtocolCause::UnknownStatus { .. } => "unknown status",
        }
    }

    /// The text that `description` returns.
    pub open spec fn description_text(&self) -> Seq<char> {
        match self {
            ProtocolCause::ExpectedInitFrame => "expected init frame"@,
            ProtocolCause::ExpectedContFrame => "expected cont frame"@,
            ProtocolCause::UnexpectedCmd { .. } => "unexpected response cmd"@,
            ProtocolCause::SequenceError { .. } => "sequence error"@,
            ProtocolCause::UnexpectedDataSize { .. } => "unexpected data size"@,
            ProtocolCause::NoData => "nothing was returned from device"@,
            ProtocolCause::PayloadTooLong { .. } => "payload too long"@,
            ProtocolCause::NonceMismatch => "nonce mismatch"@,
            ProtocolCause::ResponseTooShort { .. } => "response too short"@,
            ProtocolCause::UnknownStatus { .. } => "unknown status"@,
        }
    }
}

} // verus!
