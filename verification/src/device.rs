//! The device session: a channel on one token, and the commands sent on it.
//!
//! A session starts on the broadcast channel. `init` asks the token for a
//! channel of its own, and every later command is sent on that channel.

use crate::errors::{Error, IoCause, ProtocolCause};
use crate::fragment::MAX_MESSAGE_LEN;
use crate::u2f_hid_framed_transport::U2FHidFramedTransport;
use crate::wire::{from_be32, u32_from_be};
use crate::HidCmd;
use vstd::prelude::*;
use vstd::slice::slice_subrange;

verus! {

/// HID usage page of FIDO devices.
pub const FIDO_USAGE_PAGE: u16 = 0xf1d0;

/// HID usage of the U2F HID interface within the FIDO usage page.
pub const FIDO_USAGE_U2FHID: u16 = 0x01;

/// Channel on which a session asks for a channel of its own.
pub const BROADCAST_CHANNEL_ID: u32 = 0xffffffff;

/// Length of the nonce that an INIT request carries.
pub const NONCE_LEN: usize = 8;

/// Length of the fields of an INIT response.
pub const INIT_RESPONSE_LEN: usize = 17;

#[derive(Debug, Clone, PartialEq, Eq)]
pub struct HIDDeviceInfo {
    pub vendor_id: u16,
    pub product_id: u16,
    pub manufacturer_string: Option<String>,
    pub product_string: Option<String>,
}

#[derive(Debug, Clone, Copy, PartialEq, Eq)]
pub struct U2FDeviceInfo {
    pub protocol_version: u8,
    pub version_major: u8,
    pub version_minor: u8,
    pub version_build: u8,
    pub cap_flags: u8,
}

/// What the enumeration of the HID interfaces tells of one of them.
#[derive(Debug, Clone, PartialEq, Eq)]
pub struct HidInterface {
    pub usage_page: u16,
    pub usage: u16,
    pub info: HIDDeviceInfo,
}

/// Whether a HID interface with this usage page and usage speaks U2F HID.
pub open spec fn speaks_u2f(usage_page: u16, usage: u16) -> bool {
    usage_page == FIDO_USAGE_PAGE && usage == FIDO_USAGE_U2FHID
}

/// Whether a HID interface with this usage page and usage speaks U2F HID.
pub fn is_fido_u2f(usage_page: u16, usage: u16) -> (yes: bool)
    ensures
        yes == speaks_u2f(usage_page, usage),
{
    usage_page == FIDO_USAGE_PAGE && usage == FIDO_USAGE_U2FHID
}

/// Finds the next token: the first interface at or after `from` that speaks
/// U2F HID. Discovery opens it and, whether or not that succeeds, goes on
/// behind it.
pub fn next_fido(interfaces: &[HidInterface], from: usize) -> (found: Option<usize>)
    ensures
        match found {
            Some(at) => {
                &&& from <= at < interfaces@.len()
                &&& speaks_u2f(interfaces@[at as int].usage_page, interfaces@[at as int].usage)
                &&& forall|j: int|
                    from <= j < at ==> !speaks_u2f(
                        (#[trigger] interfaces@[j]).usage_page,
                        interfaces@[j].usage,
                    )
            },
            None => forall|j: int|
                from <= j < interfaces@.len() ==> !speaks_u2f(
                    (#[trigger] interfaces@[j]).usage_page,
                    interfaces@[j].usage,
                ),
        },
{
    let mut at: usize = from;
    while at < interfaces.len()
        invariant
            from <= at,
            forall|j: int|
                from <= j < at && j < interfaces@.len() ==> !speaks_u2f(
                    (#[trigger] interfaces@[j]).usage_page,
                    interfaces@[j].usage,
                ),
        decreases interfaces@.len() - at,
    {
        if is_fido_u2f(interfaces[at].usage_page, interfaces[at].usage) {
            return Some(at);
        }
        at += 1;
    }
    None
}

/// What an INIT response means to the session that sent `nonce`: the
/// channel that the token allocated and the token's description, or why the
/// response is refused. Bytes after the fields are ignored.
pub open spec fn init_response(nonce: Seq<u8>, data: Seq<u8>) -> Result<(u32, U2FDeviceInfo), Error> {
    if data.len() < INIT_RESPONSE_LEN {
        Err(Error::IO(IoCause::UnexpectedEof))
    } else if data.subrange(0, NONCE_LEN as int) != nonce {
        Err(Error::Protocol(ProtocolCause::NonceMismatch))
    } else {
        Ok(
            (
                from_be32(data.subrange(8, 12)),
                U2FDeviceInfo {
                    protocol_version: data[12],
                    version_major: data[13],
                    version_minor: data[14],
                    version_build: data[15],
                    cap_flags: data[16],
                },
            ),
        )
    }
}

/// Parses the response to the INIT request that carried `nonce`.
///
/// A response that echoes another nonce belongs to another session and is
/// refused.
pub fn parse_init_response(nonce: &[u8; 8], data: &[u8]) -> (r: Result<
    (u32, U2FDeviceInfo),
    Error,
>)
    ensures
        r == init_response(nonce@, data@),
{
    if data.len() < INIT_RESPONSE_LEN {
        return Err(Error::IO(IoCause::UnexpectedEof));
    }
    let mut i: usize = 0;
    while i < NONCE_LEN
        invariant
            i <= NONCE_LEN,
            data@.len() >= INIT_RESPONSE_LEN,
            nonce@.len() == NONCE_LEN,
            forall|j: int| 0 <= j < i ==> data@[j] == nonce@[j],
        decreases NONCE_LEN - i,
    {
        if data[i] != nonce[i] {
            proof {
                assert(data@.subrange(0, NONCE_LEN as int)[i as int] == data@[i as int]);
            }
            return Err(Error::Protocol(ProtocolCause::NonceMismatch));
        }
        i += 1;
    }
    proof {
        assert(data@.subrange(0, NONCE_LEN as int) =~= nonce@);
    }
    let channel_id = u32_from_be(slice_subrange(data, 8, 12));
    Ok(
        (
            channel_id,
            U2FDeviceInfo {
                protocol_version: data[12],
                version_major: data[13],
                version_minor: data[14],
                version_build: data[15],
                cap_flags: data[16],
            },
        ),
    )
}

/// One request of a session as the session saw it: what it handed to the
/// transport and what came back.
pub struct Exchange {
    /// Channel on which the command was sent.
    pub channel_id: u32,
    /// Command that was sent, and that the response had to answer.
    pub cmd: u8,
    /// Payload that was sent.
    pub payload: Seq<u8>,
    /// Payload of the response, or the error that ended the exchange.
    pub outcome: Result<Seq<u8>, Error>,
}

/// What a request returned, as the record of the exchange holds it.
pub open spec fn outcome_of(r: Result<Vec<u8>, Error>) -> Result<Seq<u8>, Error> {
    match r {
        Ok(data) => Ok(data@),
        Err(e) => Err(e),
    }
}

/// The outcome of an exchange whose response is of no interest.
pub open spec fn discarded(outcome: Result<Seq<u8>, Error>) -> Result<(), Error> {
    match outcome {
        Ok(_) => Ok(()),
        Err(e) => Err(e),
    }
}

/// What an INIT exchange means to the session that sent `nonce` on
/// `channel`: the channel on which the session goes on, and what `init`
/// returns. The session moves to the allocated channel only when the
/// exchange succeeded and the response is accepted.
pub open spec fn adopted(channel: u32, nonce: Seq<u8>, outcome: Result<Seq<u8>, Error>) -> (
    u32,
    Result<U2FDeviceInfo, Error>,
) {
    match outcome {
        Err(e) => (channel, Err(e)),
        Ok(data) => match init_response(nonce, data) {
            Ok((allocated, info)) => (allocated, Ok(info)),
            Err(e) => (channel, Err(e)),
        },
    }
}

/// A session with one token over the transport `T`.
pub struct Device<T: U2FHidFramedTransport> {
    handle: T,
    channel_id: u32,
    pub hid_device_info: HIDDeviceInfo,
    exchanges: Ghost<Seq<Exchange>>,
}

impl<T: U2FHidFramedTransport> Device<T> {
    /// The channel on which the session sends its commands.
    pub closed spec fn channel(&self) -> u32 {
        self.channel_id
    }

    /// What is known of the device from its enumeration.
    pub closed spec fn info(&self) -> HIDDeviceInfo {
        self.hid_device_info
    }

    /// The transport that the session owns.
    pub closed spec fn transport(&self) -> T {
        self.handle
    }

    /// The requests that the session has made, oldest first.
    pub closed spec fn exchanges(&self) -> Seq<Exchange> {
        self.exchanges@
    }

    /// Opens a session on the broadcast channel.
    pub fn new(handle: T, hid_device_info: HIDDeviceInfo) -> (dev: Self)
        ensures
            dev.channel() == BROADCAST_CHANNEL_ID,
            dev.info() == hid_device_info,
            dev.transport() == handle,
            dev.exchanges() == Seq::<Exchange>::empty(),
    {
        Device {
            handle,
            channel_id: BROADCAST_CHANNEL_ID,
            hid_device_info,
            exchanges: Ghost(Seq::empty()),
        }
    }

    /// The channel on which the session sends its commands.
    pub fn channel_id(&self) -> (id: u32)
        ensures
            id == self.channel(),
    {
        self.channel_id
    }

    /// The transport that the session owns.
    pub fn handle(&self) -> (handle: &T)
        ensures
            *handle == self.transport(),
    {
        &self.handle
    }

    /// Asks the token for a channel and adopts it.
    ///
    /// Makes one request: INIT with `nonce` on the session's current
    /// channel. The response is judged as `init_response` says: on success
    /// the session goes on on the allocated channel and the token's
    /// description is returned; otherwise the channel stays and the error of
    /// the exchange or of the response is returned.
    pub fn init(&mut self, nonce: [u8; 8]) -> (r: Result<U2FDeviceInfo, Error>)
        ensures
            final(self).info() == old(self).info(),
            final(self).exchanges() == old(self).exchanges().push(final(self).exchanges().last()),
            final(self).exchanges().last().channel_id == old(self).channel(),
            final(self).exchanges().last().cmd == HidCmd::Init.spec_code(),
            final(self).exchanges().last().payload == nonce@,
            (final(self).channel(), r) == adopted(
                old(self).channel(),
                nonce@,
                final(self).exchanges().last().outcome,
            ),
    {
        let data = match self.request(HidCmd::Init.code(), nonce.as_slice()) {
            Ok(data) => data,
            Err(e) => {
                return Err(e);
            },
        };
        match parse_init_response(&nonce, data.as_slice()) {
            Ok((channel_id, info)) => {
                self.channel_id = channel_id;
                Ok(info)
            },
            Err(e) => Err(e),
        }
    }

    /// Asks the token to blink.
    ///
    /// Makes one request: WINK with an empty payload on the session's
    /// channel. The response is discarded; an error of the exchange is
    /// returned.
    pub fn wink(&mut self) -> (r: Result<(), Error>)
        ensures
            final(self).channel() == old(self).channel(),
            final(self).info() == old(self).info(),
            final(self).exchanges() == old(self).exchanges().push(final(self).exchanges().last()),
            final(self).exchanges().last().channel_id == old(self).channel(),
            final(self).exchanges().last().cmd == HidCmd::Wink.spec_code(),
            final(self).exchanges().last().payload == Seq::<u8>::empty(),
            r == discarded(final(self).exchanges().last().outcome),
    {
        let nothing: Vec<u8> = Vec::new();
        match self.request(HidCmd::Wink.code(), nothing.as_slice()) {
            Ok(_) => Ok(()),
            Err(e) => Err(e),
        }
    }

    /// Sends `data` to the token and returns what it sends back.
    ///
    /// Makes one request: PING with `data` on the session's channel.
    pub fn ping(&mut self, data: &[u8]) -> (r: Result<Vec<u8>, Error>)
        ensures
            final(self).channel() == old(self).channel(),
            final(self).info() == old(self).info(),
            final(self).exchanges() == old(self).exchanges().push(
                Exchange {
                    channel_id: old(self).channel(),
                    cmd: HidCmd::Ping.spec_code(),
                    payload: data@,
                    outcome: outcome_of(r),
                },
            ),
            data@.len() > MAX_MESSAGE_LEN ==> r == Err::<Vec<u8>, Error>(
                Error::Protocol(ProtocolCause::PayloadTooLong { len: data@.len() as usize }),
            ),
    {
        self.request(HidCmd::Ping.code(), data)
    }

    /// High level U2F device api to perform HID command and read response.
    /// The data is framed (in 64 byte reports) and sent over the HID interface.
    /// The response is read from one or more frames, validated and the data is returned back
    ///
    /// The exchange is recorded: the channel, command and payload that were
    /// handed to the transport, and what is returned here.
    pub fn request(&mut self, cmd: u8, data: &[u8]) -> (r: Result<Vec<u8>, Error>)
        ensures
            final(self).channel() == old(self).channel(),
            final(self).info() == old(self).info(),
            final(self).exchanges() == old(self).exchanges().push(
                Exchange {
                    channel_id: old(self).channel(),
                    cmd,
                    payload: data@,
                    outcome: outcome_of(r),
                },
            ),
            data@.len() > MAX_MESSAGE_LEN ==> r == Err::<Vec<u8>, Error>(
                Error::Protocol(ProtocolCause::PayloadTooLong { len: data@.len() as usize }),
            ),
            r is Ok ==> r->Ok_0@.len() <= u16::MAX,
    {
        let channel_id = self.channel_id;
        let r = match self.handle.send_cmd(cmd, channel_id, data) {
            Ok(_) => self.handle.read_response(cmd),
            Err(e) => Err(e),
        };
        self.exchanges = Ghost(
            self.exchanges@.push(
                Exchange { channel_id, cmd, payload: data@, outcome: outcome_of(r) },
            ),
        );
        r
    }
}

} // verus!
