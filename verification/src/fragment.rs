//! Splitting a logical message into the frames that carry it.
//!
//! A message travels as one initialization frame with the first 57 bytes of
//! the payload and the payload's true length, followed by as many
//! continuation frames of up to 59 bytes as the rest needs, numbered from 0.

use crate::errors::{Error, ProtocolCause};
use crate::u2f_frame::{
    ContentView, FrameView, U2FFrame, U2FFrameContent, CONT_DATA_MAX, INIT_DATA_MAX,
};
use vstd::prelude::*;
use vstd::slice::{slice_subrange, slice_to_vec};

verus! {

/// Sequence numbers that a continuation frame can carry.
pub const SEQ_COUNT: usize = 128;

/// Longest payload that one message can carry: a full initialization frame
/// and 128 full continuation frames.
pub const MAX_MESSAGE_LEN: usize = 7609;

/// The mathematical values of a list of frames.
pub open spec fn frame_views(frames: Seq<U2FFrame>) -> Seq<FrameView> {
    Seq::new(frames.len(), |i: int| frames[i]@)
}

/// Number of continuation frames that a payload of `len` bytes needs.
pub open spec fn cont_count(len: nat) -> nat {
    if len <= INIT_DATA_MAX {
        0
    } else {
        ((len - INIT_DATA_MAX + CONT_DATA_MAX - 1) / (CONT_DATA_MAX as int)) as nat
    }
}

/// Where the payload bytes of continuation frame `k` start.
pub open spec fn cont_start(k: int) -> int {
    INIT_DATA_MAX + k * CONT_DATA_MAX
}

/// The smaller of two numbers.
pub open spec fn least(a: int, b: int) -> int {
    if a <= b {
        a
    } else {
        b
    }
}

/// The initialization frame of a message.
pub open spec fn init_frame(channel_id: u32, cmd: u8, payload: Seq<u8>) -> FrameView {
    FrameView {
        channel_id,
        content: ContentView::Init {
            cmd,
            data_len: payload.len() as u16,
            data: payload.subrange(0, least(payload.len() as int, INIT_DATA_MAX as int)),
        },
    }
}

/// Continuation frame number `k` of a message.
pub open spec fn cont_frame(channel_id: u32, payload: Seq<u8>, k: int) -> FrameView {
    FrameView {
        channel_id,
        content: ContentView::Cont {
            seq: k as u8,
            data: payload.subrange(
                cont_start(k),
                least(payload.len() as int, cont_start(k + 1)),
            ),
        },
    }
}

/// The frames of a message, in the order in which they are sent.
/// Meaningful for payloads of at most `MAX_MESSAGE_LEN` bytes.
pub open spec fn message_frames(channel_id: u32, cmd: u8, payload: Seq<u8>) -> Seq<FrameView> {
    Seq::new(
        1 + cont_count(payload.len()),
        |i: int|
            if i == 0 {
                init_frame(channel_id, cmd, payload)
            } else {
                cont_frame(channel_id, payload, i - 1)
            },
    )
}

/// How the continuation frames cover a payload: none for a payload that fits
/// the initialization frame, else exactly enough, the last one not empty,
/// and never more than there are sequence numbers.
pub proof fn lemma_cont_count(len: nat)
    ensures
        len <= INIT_DATA_MAX ==> cont_count(len) == 0,
        len > INIT_DATA_MAX ==> cont_start(cont_count(len) - 1) < len <= cont_start(
            cont_count(len) as int,
        ),
        len <= MAX_MESSAGE_LEN ==> cont_count(len) <= SEQ_COUNT,
{
}

/// Every frame of a message fits its report, carries a tag in range when the
/// command does, and all but the last are full.
pub proof fn lemma_message_frames_fit(channel_id: u32, cmd: u8, payload: Seq<u8>)
    requires
        payload.len() <= MAX_MESSAGE_LEN,
    ensures
        forall|i: int|
            0 <= i < message_frames(channel_id, cmd, payload).len() ==> {
                &&& (#[trigger] message_frames(channel_id, cmd, payload)[i]).fits()
                &&& message_frames(channel_id, cmd, payload)[i].channel_id == channel_id
                &&& (cmd < 0x80 ==> message_frames(channel_id, cmd, payload)[i].tag_in_range())
                &&& (i + 1 < message_frames(channel_id, cmd, payload).len() ==> message_frames(
                    channel_id,
                    cmd,
                    payload,
                )[i].is_full())
            },
{
    lemma_cont_count(payload.len());
}

/// Splits `data` into the frames of one message on `channel_id`.
///
/// Fails when `data` is longer than a message can carry.
pub fn fragment(channel_id: u32, cmd: u8, data: &[u8]) -> (r: Result<Vec<U2FFrame>, Error>)
    ensures
        data@.len() <= MAX_MESSAGE_LEN ==> r is Ok && frame_views(r->Ok_0@) == message_frames(
            channel_id,
            cmd,
            data@,
        ),
        data@.len() > MAX_MESSAGE_LEN ==> r == Err::<Vec<U2FFrame>, Error>(
            Error::Protocol(ProtocolCause::PayloadTooLong { len: data@.len() as usize }),
        ),
{
    let len = data.len();
    if len > MAX_MESSAGE_LEN {
        return Err(Error::Protocol(ProtocolCause::PayloadTooLong { len }));
    }
    let first_end = if len <= INIT_DATA_MAX {
        len
    } else {
        INIT_DATA_MAX
    };
    let mut frames: Vec<U2FFrame> = Vec::new();
    frames.push(
        U2FFrame {
            channel_id,
            frame_content: U2FFrameContent::Init {
                cmd,
                data_len: len as u16,
                data: slice_to_vec(slice_subrange(data, 0, first_end)),
            },
        },
    );
    let mut sent: usize = first_end;
    let mut sequence: u8 = 0;
    proof {
        lemma_cont_count(len as nat);
    }
    while sent < len
        invariant
            len == data@.len(),
            len <= MAX_MESSAGE_LEN,
            sequence <= cont_count(len as nat),
            len > INIT_DATA_MAX ==> sent == least(len as int, cont_start(sequence as int)),
            len <= INIT_DATA_MAX ==> sent == len,
            frames@.len() == 1 + sequence,
            forall|i: int|
                0 <= i < frames@.len() ==> (#[trigger] frames@[i])@ == message_frames(
                    channel_id,
                    cmd,
                    data@,
                )[i],
        decreases len - sent,
    {
        proof {
            lemma_cont_count(len as nat);
        }
        let end = if len - sent <= CONT_DATA_MAX {
            len
        } else {
            sent + CONT_DATA_MAX
        };
        frames.push(
            U2FFrame {
                channel_id,
                frame_content: U2FFrameContent::Cont {
                    seq: sequence,
                    data: slice_to_vec(slice_subrange(data, sent, end)),
                },
            },
        );
        sequence += 1;
        sent = end;
    }
    proof {
        lemma_cont_count(len as nat);
        assert(frame_views(frames@) =~= message_frames(channel_id, cmd, data@));
    }
    Ok(frames)
}

} // verus!
