//! The framed transport: whole messages over a transport that moves single
//! reports.
//!
//! A transport supplies `data_read` and `data_write`. Everything else is
//! provided here: a message is split into frames and each frame is written
//! as one report; a response is read report by report and reassembled.
//! Nothing is retried.

use crate::errors::{Error, ProtocolCause};
use crate::fragment::{fragment, frame_views, message_frames, MAX_MESSAGE_LEN};
use crate::reassembly::Reassembly;
use crate::u2f_frame::{decode, extend_bytes, U2FFrame, CONT_DATA_MAX, REPORT_LEN};
use vstd::prelude::*;

verus! {

/// Time that a single report may take to arrive, in milliseconds.
pub const READ_TIMEOUT_MS: u64 = 500;

/// Report identifier that precedes every report that is written.
pub const REPORT_ID: u8 = 0;

/// The bytes that are written for a frame: the report identifier, then the
/// 64 bytes of the report.
pub open spec fn report_of(frame: crate::u2f_frame::FrameView) -> Seq<u8> {
    seq![REPORT_ID] + frame.encode()
}

/// Builds the bytes that are written for `frame`.
///
/// Fails when the payload is longer than the frame's shape allows.
pub fn report_bytes(frame: &U2FFrame) -> (r: Result<Vec<u8>, Error>)
    ensures
        frame@.fits() ==> r is Ok && r->Ok_0@ == report_of(frame@) && r->Ok_0@.len() == REPORT_LEN
            + 1,
        !frame@.fits() ==> r == Err::<Vec<u8>, Error>(
            Error::Protocol(
                ProtocolCause::PayloadTooLong { len: frame@.content.data().len() as usize },
            ),
        ),
{
    match frame.as_bytes() {
        Ok(frame_bytes) => {
            let mut report: Vec<u8> = Vec::new();
            report.push(REPORT_ID);
            extend_bytes(&mut report, frame_bytes.as_slice());
            Ok(report)
        },
        Err(e) => Err(e),
    }
}

/// Turns the outcome of reading one report into a frame.
///
/// `read` is what the transport returned: the number of bytes it put into
/// `buffer`, or nothing when the timeout passed. Only a whole report is
/// accepted.
pub fn frame_from_read(read: Option<usize>, buffer: &[u8; 64]) -> (r: Result<U2FFrame, Error>)
    ensures
        read is None ==> r == Err::<U2FFrame, Error>(Error::Protocol(ProtocolCause::NoData)),
        read is Some && read->0 != REPORT_LEN ==> r == Err::<U2FFrame, Error>(
            Error::Protocol(ProtocolCause::UnexpectedDataSize { got: read->0 }),
        ),
        read == Some(REPORT_LEN) ==> r is Ok && r->Ok_0@ == decode(buffer@) && r->Ok_0@.is_full()
            && r->Ok_0@.tag_in_range(),
{
    match read {
        None => Err(Error::Protocol(ProtocolCause::NoData)),
        Some(got) => {
            if got != REPORT_LEN {
                return Err(Error::Protocol(ProtocolCause::UnexpectedDataSize { got }));
            }
            U2FFrame::from_bytes(buffer.as_slice())
        },
    }
}

pub trait U2FHidFramedTransport {
    /// Reads one report into `buffer`, waiting at most `timeout_ms`
    /// milliseconds. Returns the number of bytes read, or nothing when the
    /// timeout passed.
    fn data_read(&mut self, buffer: &mut [u8; 64], timeout_ms: u64) -> Result<Option<usize>, Error>;

    /// Writes one report, its first byte being the report identifier.
    /// Returns the number of bytes written.
    fn data_write(&mut self, buffer: &[u8]) -> Result<usize, Error>;

    /// High level read response
    ///
    /// Reads reports until the payload that the first one announces is
    /// complete. What the response holds is decided by `Reassembly`, frame
    /// by frame; an error of the transport is handed on as it is.
    fn read_response(&mut self, expected_cmd: u8) -> (r: Result<Vec<u8>, Error>)
        ensures
            r is Ok ==> r->Ok_0@.len() <= u16::MAX,
    {
        let init_frame = match self.read_frame() {
            Ok(frame) => frame,
            Err(e) => {
                return Err(e);
            },
        };
        let mut state = match Reassembly::begin(expected_cmd, &init_frame) {
            Ok(state) => state,
            Err(e) => {
                return Err(e);
            },
        };
        while !state.is_complete()
            invariant
                state.wf(),
                state@.total_len <= u16::MAX,
                state@.data.len() <= state@.total_len + CONT_DATA_MAX,
            decreases state@.total_len + CONT_DATA_MAX - state@.data.len(),
        {
            let cont_frame = match self.read_frame() {
                Ok(frame) => frame,
                Err(e) => {
                    return Err(e);
                },
            };
            match state.accept(&cont_frame) {
                Ok(_) => {},
                Err(e) => {
                    return Err(e);
                },
            }
        }
        state.finish()
    }

    /// High level send cmd with data api
    ///
    /// Writes the frames of the message in order and stops at the first
    /// error. A payload that no message can carry is refused before
    /// anything is written.
    fn send_cmd(&mut self, cmd: u8, channel_id: u32, data: &[u8]) -> (r: Result<(), Error>)
        ensures
            data@.len() > MAX_MESSAGE_LEN ==> r == Err::<(), Error>(
                Error::Protocol(ProtocolCause::PayloadTooLong { len: data@.len() as usize }),
            ),
    {
        let frames = match fragment(channel_id, cmd, data) {
            Ok(frames) => frames,
            Err(e) => {
                return Err(e);
            },
        };
        let mut sent: usize = 0;
        while sent < frames.len()
            invariant
                sent <= frames@.len(),
                data@.len() <= MAX_MESSAGE_LEN,
                frame_views(frames@) == message_frames(channel_id, cmd, data@),
            decreases frames@.len() - sent,
        {
            match self.send_frame(&frames[sent]) {
                Ok(_) => {},
                Err(e) => {
                    return Err(e);
                },
            }
            sent += 1;
        }
        Ok(())
    }

    /// Reads one report and decodes it. A frame that is returned fills its
    /// report and has its tag in range.
    fn read_frame(&mut self) -> (r: Result<U2FFrame, Error>)
        ensures
            r is Ok ==> r->Ok_0@.is_full() && r->Ok_0@.tag_in_range(),
    {
        let mut buffer = [0u8; 64];
        let read = match self.data_read(&mut buffer, READ_TIMEOUT_MS) {
            Ok(read) => read,
            Err(e) => {
                return Err(e);
            },
        };
        frame_from_read(read, &buffer)
    }

    /// Writes one frame as one report, preceded by the report identifier.
    fn send_frame(&mut self, frame: &U2FFrame) -> (r: Result<(), Error>)
        ensures
            !frame@.fits() ==> r == Err::<(), Error>(
                Error::Protocol(
                    ProtocolCause::PayloadTooLong { len: frame@.content.data().len() as usize },
                ),
            ),
    {
        let report = match report_bytes(frame) {
            Ok(report) => report,
            Err(e) => {
                return Err(e);
            },
        };
        match self.data_write(report.as_slice()) {
            Ok(_) => Ok(()),
            Err(e) => Err(e),
        }
    }
}

} // verus!
