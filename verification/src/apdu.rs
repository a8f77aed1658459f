//! The APDU layer: authenticator commands in extended-length ISO 7816-4
//! form, carried by the MSG command, and the status word of the answer.

use crate::device::Device;
use crate::errors::{Error, ProtocolCause};
use crate::fragment::MAX_MESSAGE_LEN;
use crate::u2f_frame::extend_bytes;
use crate::u2f_hid_framed_transport::U2FHidFramedTransport;
use crate::wire::{be16, from_be16, u16_from_be, u16_to_be};
use crate::HidCmd;
use vstd::prelude::*;
use vstd::slice::slice_subrange;

verus! {

/// The command succeeded.
pub const SW_NO_ERROR: u16 = 0x9000;

/// The command data was not accepted.
pub const SW_WRONG_DATA: u16 = 0x6984;

/// The token wants something first, such as a touch.
pub const SW_CONDITIONS_NOT_SATISFIED: u16 = 0x6985;

/// The token does not know the instruction.
pub const SW_INS_NOT_SUPPORTED: u16 = 0x6d00;

/// The token does not know the class.
pub const SW_CLA_NOT_SUPPORTED: u16 = 0x6e00;

/// Longest command data whose length the two length bytes can hold.
pub const MAX_COMMAND_DATA_LEN: usize = 0xffff;

pub type APDUResponse = Vec<u8>;

/// The bytes of an APDU: class 0, instruction, two parameters, a zero byte
/// that announces extended lengths, the length and the bytes of the command
/// data unless it is empty, and two zero bytes that ask for a response of
/// any length.
pub open spec fn apdu_bytes(ins: u8, p1: u8, p2: u8, data: Seq<u8>) -> Seq<u8> {
    seq![0u8, ins, p1, p2, 0u8] + (if data.len() > 0 {
        be16(data.len() as u16) + data
    } else {
        Seq::<u8>::empty()
    }) + seq![0u8, 0u8]
}

/// The status word that ends a response of at least two bytes.
pub open spec fn status_word(response: Seq<u8>) -> u16 {
    from_be16(response.subrange(response.len() - 2, response.len() as int))
}

/// The bytes of a response before its status word.
pub open spec fn response_body(response: Seq<u8>) -> Seq<u8> {
    response.subrange(0, response.len() - 2)
}

/// Whether the status word is one by which a token refuses a command.
pub open spec fn is_refusal(sw: u16) -> bool {
    sw == SW_WRONG_DATA || sw == SW_CONDITIONS_NOT_SATISFIED || sw == SW_INS_NOT_SUPPORTED || sw
        == SW_CLA_NOT_SUPPORTED
}

/// The meaning of a status word by which a token refuses a command.
pub open spec fn refusal_text(sw: u16) -> Seq<char> {
    if sw == SW_WRONG_DATA {
        "wrong data"@
    } else if sw == SW_CONDITIONS_NOT_SATISFIED {
        "conditions not satisfied"@
    } else if sw == SW_INS_NOT_SUPPORTED {
        "ins not supported"@
    } else {
        "cla not supported"@
    }
}

/// Whether `r` is what `response` means: the body when the status word
/// reports success, the refusal with the status word, its meaning and the
/// body when the token refuses, and a protocol error for every other status
/// word and for a response too short to hold one.
pub open spec fn is_outcome_of(r: Result<Vec<u8>, Error>, response: Seq<u8>) -> bool {
    if response.len() < 2 {
        r == Err::<Vec<u8>, Error>(
            Error::Protocol(ProtocolCause::ResponseTooShort { len: response.len() as usize }),
        )
    } else if status_word(response) == SW_NO_ERROR {
        r is Ok && r->Ok_0@ == response_body(response)
    } else if is_refusal(status_word(response)) {
        r matches Err(Error::APDUError(sw, text, body)) && sw == status_word(response) && text@
            == refusal_text(sw) && body@ == response_body(response)
    } else {
        r == Err::<Vec<u8>, Error>(
            Error::Protocol(ProtocolCause::UnknownStatus { sw: status_word(response) }),
        )
    }
}

/// Whether `r` is what an exchange with this outcome means to the sender of
/// an APDU: the error of the exchange, or what the response means.
pub open spec fn is_answer_of(r: Result<Vec<u8>, Error>, outcome: Result<Seq<u8>, Error>) -> bool {
    match outcome {
        Err(e) => r == Err::<Vec<u8>, Error>(e),
        Ok(response) => is_outcome_of(r, response),
    }
}

/// Builds the APDU for an instruction.
///
/// Fails when the command data is longer than its length field can say.
pub fn encode_apdu(ins: u8, p1: u8, p2: u8, cmd_data: &[u8]) -> (r: Result<Vec<u8>, Error>)
    ensures
        cmd_data@.len() <= MAX_COMMAND_DATA_LEN ==> r is Ok && r->Ok_0@ == apdu_bytes(
            ins,
            p1,
            p2,
            cmd_data@,
        ),
        cmd_data@.len() > MAX_COMMAND_DATA_LEN ==> r == Err::<Vec<u8>, Error>(
            Error::Protocol(ProtocolCause::PayloadTooLong { len: cmd_data@.len() as usize }),
        ),
{
    if cmd_data.len() > MAX_COMMAND_DATA_LEN {
        return Err(Error::Protocol(ProtocolCause::PayloadTooLong { len: cmd_data.len() }));
    }
    let mut data: Vec<u8> = Vec::new();
    data.push(0);  // CLA
    data.push(ins);
    data.push(p1);
    data.push(p2);
    data.push(0);  // lengths are preceded with 0
    if cmd_data.len() > 0 {
        let len = u16_to_be(cmd_data.len() as u16);
        extend_bytes(&mut data, len.as_slice());
        extend_bytes(&mut data, cmd_data);
    }
    // No limit on the response: both bytes of its length are 0.
    data.push(0);
    data.push(0);
    proof {
        assert(data@ == apdu_bytes(ins, p1, p2, cmd_data@));
    }
    Ok(data)
}

/// Splits a response into body and status word and decides by the status
/// word what the response means.
pub fn decode_apdu_response(response: Vec<u8>) -> (r: Result<APDUResponse, Error>)
    ensures
        is_outcome_of(r, response@),
{
    let response_len = response.len();
    if response_len < 2 {
        return Err(Error::Protocol(ProtocolCause::ResponseTooShort { len: response_len }));
    }
    let sw = u16_from_be(slice_subrange(response.as_slice(), response_len - 2, response_len));
    let mut response = response;
    response.truncate(response_len - 2);
    if sw == SW_NO_ERROR {
        Ok(response)
    } else if sw == SW_WRONG_DATA {
        Err(Error::APDUError(sw, "wrong data", response))
    } else if sw == SW_CONDITIONS_NOT_SATISFIED {
        Err(Error::APDUError(sw, "conditions not satisfied", response))
    } else if sw == SW_INS_NOT_SUPPORTED {
        Err(Error::APDUError(sw, "ins not supported", response))
    } else if sw == SW_CLA_NOT_SUPPORTED {
        Err(Error::APDUError(sw, "cla not supported", response))
    } else {
        Err(Error::Protocol(ProtocolCause::UnknownStatus { sw }))
    }
}

/// A session on which authenticator commands are sent.
pub struct APDU<T: U2FHidFramedTransport>(Device<T>);

impl<T: U2FHidFramedTransport> APDU<T> {
    /// The session that carries the commands.
    pub closed spec fn session(&self) -> Device<T> {
        self.0
    }

    pub fn new(dev: Device<T>) -> (apdu: Self)
        ensures
            apdu.session() == dev,
    {
        APDU(dev)
    }

    /// The session that carries the commands.
    pub fn device(&self) -> (dev: &Device<T>)
        ensures
            *dev == self.session(),
    {
        &self.0
    }

    /// Sends an instruction to the authenticator and returns the body of
    /// its answer.
    ///
    /// The command data is preceded by three length bytes, a byte with
    /// value 0 followed by the length of the data in big-endian order. The
    /// APDU built by `encode_apdu` travels as the payload of one MSG request
    /// on the session's channel, and the response is judged by
    /// `decode_apdu_response`. Command data too long to be encoded is
    /// refused before any request is made.
    pub fn send_apdu(&mut self, cmd: u8, p1: u8, p2: u8, cmd_data: &[u8]) -> (r: Result<
        APDUResponse,
        Error,
    >)
        ensures
            final(self).session().channel() == old(self).session().channel(),
            final(self).session().info() == old(self).session().info(),
            cmd_data@.len() > MAX_COMMAND_DATA_LEN ==> {
                &&& final(self).session().exchanges() == old(self).session().exchanges()
                &&& r == Err::<Vec<u8>, Error>(
                    Error::Protocol(
                        ProtocolCause::PayloadTooLong { len: cmd_data@.len() as usize },
                    ),
                )
            },
            cmd_data@.len() <= MAX_COMMAND_DATA_LEN ==> {
                &&& final(self).session().exchanges() == old(self).session().exchanges().push(
                    final(self).session().exchanges().last(),
                )
                &&& final(self).session().exchanges().last().channel_id
                    == old(self).session().channel()
                &&& final(self).session().exchanges().last().cmd == HidCmd::Msg.spec_code()
                &&& final(self).session().exchanges().last().payload == apdu_bytes(
                    cmd,
                    p1,
                    p2,
                    cmd_data@,
                )
                &&& is_answer_of(r, final(self).session().exchanges().last().outcome)
            },
            apdu_bytes(cmd, p1, p2, cmd_data@).len() > MAX_MESSAGE_LEN ==> r matches Err(
                Error::Protocol(ProtocolCause::PayloadTooLong { .. }),
            ),
    {
        let data = match encode_apdu(cmd, p1, p2, cmd_data) {
            Ok(data) => data,
            Err(e) => {
                return Err(e);
            },
        };
        let response = match self.0.request(HidCmd::Msg.code(), data.as_slice()) {
            Ok(response) => response,
            Err(e) => {
                return Err(e);
            },
        };
        decode_apdu_response(response)
    }
}

} // verus!
