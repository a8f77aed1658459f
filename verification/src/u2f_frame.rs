//! Codec for a single 64-byte HID report.
//!
//! A report starts with a big-endian channel identifier and a tag byte. The
//! high bit of the tag tells an initialization frame (command, total payload
//! length, up to 57 payload bytes) from a continuation frame (sequence
//! number, up to 59 payload bytes). Unused payload bytes are zero.

use crate::errors::{Error, IoCause, ProtocolCause};
use crate::wire::{be16, be32, from_be16, from_be32, u16_from_be, u16_to_be, u32_from_be, u32_to_be};
use crate::wire::{lemma_be16_roundtrip, lemma_be32_roundtrip};
use vstd::prelude::*;
use vstd::slice::{slice_subrange, slice_to_vec};

verus! {

/// Length of every HID report on the wire.
pub const REPORT_LEN: usize = 64;

/// Payload bytes that an initialization frame can carry.
pub const INIT_DATA_MAX: usize = 57;

/// Payload bytes that a continuation frame can carry.
pub const CONT_DATA_MAX: usize = 59;

/// Frame Content can be one of two types, either the initial frame or a continuation
#[derive(Debug, Clone, PartialEq, Eq)]
pub enum U2FFrameContent {
    Init { cmd: u8, data_len: u16, data: Vec<u8> },
    Cont { seq: u8, data: Vec<u8> },
}

#[derive(Debug, Clone, PartialEq, Eq)]
pub struct U2FFrame {
    pub channel_id: u32,
    pub frame_content: U2FFrameContent,
}

/// Mathematical value of a frame's content.
pub enum ContentView {
    Init { cmd: u8, data_len: u16, data: Seq<u8> },
    Cont { seq: u8, data: Seq<u8> },
}

/// Mathematical value of a frame.
pub struct FrameView {
    pub channel_id: u32,
    pub content: ContentView,
}

impl View for U2FFrameContent {
    type V = ContentView;

    open spec fn view(&self) -> ContentView {
        match self {
            U2FFrameContent::Init { cmd, data_len, data } => ContentView::Init {
                cmd: *cmd,
                data_len: *data_len,
                data: data@,
            },
            U2FFrameContent::Cont { seq, data } => ContentView::Cont { seq: *seq, data: data@ },
        }
    }
}

impl View for U2FFrame {
    type V = FrameView;

    open spec fn view(&self) -> FrameView {
        FrameView { channel_id: self.channel_id, content: self.frame_content@ }
    }
}

/// `n` zero bytes.
pub open spec fn zeros(n: nat) -> Seq<u8> {
    Seq::new(n, |i: int| 0u8)
}

impl ContentView {
    /// The payload bytes that the frame carries.
    pub open spec fn data(self) -> Seq<u8> {
        match self {
            ContentView::Init { data, .. } => data,
            ContentView::Cont { data, .. } => data,
        }
    }

    /// How many payload bytes a frame of this shape can carry.
    pub open spec fn capacity(self) -> nat {
        match self {
            ContentView::Init { .. } => INIT_DATA_MAX as nat,
            ContentView::Cont { .. } => CONT_DATA_MAX as nat,
        }
    }

    /// The same content with another payload.
    pub open spec fn with_data(self, data: Seq<u8>) -> ContentView {
        match self {
            ContentView::Init { cmd, data_len, .. } => ContentView::Init { cmd, data_len, data },
            ContentView::Cont { seq, .. } => ContentView::Cont { seq, data },
        }
    }

    /// The same content with the high bit of its command or sequence number
    /// cleared: what the tag byte can carry of it.
    pub open spec fn masked(self) -> ContentView {
        match self {
            ContentView::Init { cmd, data_len, data } => ContentView::Init {
                cmd: cmd & 0x7f,
                data_len,
                data,
            },
            ContentView::Cont { seq, data } => ContentView::Cont { seq: seq & 0x7f, data },
        }
    }

    /// The bytes between the channel identifier and the payload.
    pub open spec fn tag_bytes(self) -> Seq<u8> {
        match self {
            ContentView::Init { cmd, data_len, .. } => seq![cmd | 0x80] + be16(data_len),
            ContentView::Cont { seq, .. } => seq![seq & 0x7f],
        }
    }
}

impl FrameView {
    /// The payload is within the bound of the frame's shape.
    pub open spec fn fits(self) -> bool {
        self.content.data().len() <= self.content.capacity()
    }

    /// The payload fills the frame.
    pub open spec fn is_full(self) -> bool {
        self.content.data().len() == self.content.capacity()
    }

    /// The command or sequence number fits the seven bits that the tag byte
    /// leaves for it.
    pub open spec fn tag_in_range(self) -> bool {
        match self.content {
            ContentView::Init { cmd, .. } => cmd < 0x80,
            ContentView::Cont { seq, .. } => seq < 0x80,
        }
    }

    /// The 64 bytes of the report: channel, tag bytes, payload, zero padding.
    /// Meaningful only for a frame that `fits`.
    pub open spec fn encode(self) -> Seq<u8> {
        be32(self.channel_id) + self.content.tag_bytes() + self.content.data() + zeros(
            (self.content.capacity() - self.content.data().len()) as nat,
        )
    }

    /// The frame as a receiver sees it: tag masked to seven bits and the
    /// payload followed by its zero padding.
    pub open spec fn on_the_wire(self) -> FrameView {
        FrameView {
            channel_id: self.channel_id,
            content: self.content.masked().with_data(
                self.content.data() + zeros(
                    (self.content.capacity() - self.content.data().len()) as nat,
                ),
            ),
        }
    }
}

/// The bytes of `bytes` from `start`, at most `cap` of them.
pub open spec fn payload_at(bytes: Seq<u8>, start: int, cap: int) -> Seq<u8> {
    bytes.subrange(start, if bytes.len() - start <= cap { bytes.len() as int } else { start + cap })
}

/// Whether `bytes` holds the fixed fields of a frame.
pub open spec fn decodable(bytes: Seq<u8>) -> bool {
    bytes.len() >= 5 && (bytes[4] & 0x80 != 0 ==> bytes.len() >= 7)
}

/// The frame that a report holds. Meaningful only for `decodable` bytes.
pub open spec fn decode(bytes: Seq<u8>) -> FrameView {
    FrameView {
        channel_id: from_be32(bytes),
        content: if bytes[4] & 0x80 != 0 {
            ContentView::Init {
                cmd: bytes[4] & 0x7f,
                data_len: from_be16(bytes.subrange(5, 7)),
                data: payload_at(bytes, 7, INIT_DATA_MAX as int),
            }
        } else {
            ContentView::Cont { seq: bytes[4], data: payload_at(bytes, 5, CONT_DATA_MAX as int) }
        },
    }
}

/// What the tag bit and the masks do to a byte.
pub proof fn lemma_tag_bits(b: u8)
    ensures
        (b | 0x80) & 0x80 != 0,
        (b | 0x80) & 0x7f == b & 0x7f,
        (b & 0x7f) & 0x80 == 0,
        (b & 0x7f) & 0x7f == b & 0x7f,
        b & 0x7f < 0x80,
        b < 0x80 <==> b & 0x7f == b,
        b < 0x80 <==> b & 0x80 == 0,
{
    assert((b | 0x80) & 0x80 != 0) by (bit_vector);
    assert((b | 0x80) & 0x7f == b & 0x7f) by (bit_vector);
    assert((b & 0x7f) & 0x80 == 0) by (bit_vector);
    assert((b & 0x7f) & 0x7f == b & 0x7f) by (bit_vector);
    assert(b & 0x7f < 0x80) by (bit_vector);
    assert(b < 0x80 <==> b & 0x7f == b) by (bit_vector);
    assert(b < 0x80 <==> b & 0x80 == 0) by (bit_vector);
}

/// Every encoded frame is exactly one report long, and every byte after the
/// payload is zero.
pub proof fn lemma_encode_padding(f: FrameView)
    requires
        f.fits(),
    ensures
        f.encode().len() == REPORT_LEN,
        forall|i: int|
            REPORT_LEN - f.content.capacity() + f.content.data().len() <= i < REPORT_LEN
                ==> f.encode()[i] == 0,
        f.encode().subrange(
            REPORT_LEN - f.content.capacity(),
            REPORT_LEN - f.content.capacity() + f.content.data().len(),
        ) == f.content.data(),
{
}

/// Decoding an encoded frame gives the frame as it is on the wire: the same
/// channel and total length, the tag masked to seven bits, and the payload
/// with its zero padding.
pub proof fn lemma_decode_encode(f: FrameView)
    requires
        f.fits(),
    ensures
        decodable(f.encode()),
        decode(f.encode()) == f.on_the_wire(),
        decode(f.encode()).is_full(),
        decode(f.encode()).tag_in_range(),
{
    let b = f.encode();
    let pad = zeros((f.content.capacity() - f.content.data().len()) as nat);
    lemma_encode_padding(f);
    match f.content {
        ContentView::Init { cmd, data_len, data } => {
            lemma_tag_bits(cmd);
            let rest = seq![cmd | 0x80] + be16(data_len) + data + pad;
            assert(b == be32(f.channel_id) + rest);
            lemma_be32_roundtrip(f.channel_id, rest);
            assert(b[4] == cmd | 0x80);
            assert(b.subrange(5, 7) == be16(data_len) + Seq::<u8>::empty());
            lemma_be16_roundtrip(data_len, Seq::<u8>::empty());
            assert(payload_at(b, 7, INIT_DATA_MAX as int) == data + pad);
        },
        ContentView::Cont { seq, data } => {
            lemma_tag_bits(seq);
            let rest = seq![seq & 0x7f] + data + pad;
            assert(b == be32(f.channel_id) + rest);
            lemma_be32_roundtrip(f.channel_id, rest);
            assert(b[4] == seq & 0x7f);
            assert(payload_at(b, 5, CONT_DATA_MAX as int) == data + pad);
        },
    }
}

/// A frame that fills its report and whose tag is in range comes back from
/// the wire unchanged.
pub proof fn lemma_roundtrip_full(f: FrameView)
    requires
        f.is_full(),
        f.tag_in_range(),
    ensures
        decodable(f.encode()),
        decode(f.encode()) == f,
{
    lemma_decode_encode(f);
    match f.content {
        ContentView::Init { cmd, data_len, data } => {
            lemma_tag_bits(cmd);
            assert(data + zeros(0) == data);
        },
        ContentView::Cont { seq, data } => {
            lemma_tag_bits(seq);
            assert(data + zeros(0) == data);
        },
    }
}

/// Appends every byte of `src` to `out`.
pub(crate) fn extend_bytes(out: &mut Vec<u8>, src: &[u8])
    ensures
        final(out)@ == old(out)@ + src@,
{
    let mut i: usize = 0;
    while i < src.len()
        invariant
            i <= src@.len(),
            out@ == old(out)@ + src@.subrange(0, i as int),
        decreases src@.len() - i,
    {
        out.push(src[i]);
        i += 1;
    }
    assert(src@.subrange(0, src@.len() as int) == src@);
}

/// Appends zero bytes to `out` until it is `len` bytes long.
pub(crate) fn pad_zeros(out: &mut Vec<u8>, len: usize)
    requires
        old(out)@.len() <= len,
    ensures
        final(out)@ == old(out)@ + zeros((len - old(out)@.len()) as nat),
{
    while out.len() < len
        invariant
            old(out)@.len() <= out@.len() <= len,
            out@ == old(out)@ + zeros((out@.len() - old(out)@.len()) as nat),
        decreases len - out@.len(),
    {
        out.push(0u8);
    }
}

impl U2FFrame {
    /// Serializes the frame into the 64 bytes of one report.
    ///
    /// Fails, without producing bytes, when the payload is longer than the
    /// frame's shape allows.
    pub fn as_bytes(&self) -> (r: Result<Vec<u8>, Error>)
        ensures
            self@.fits() ==> r is Ok && r->Ok_0@ == self@.encode() && r->Ok_0@.len() == REPORT_LEN,
            !self@.fits() ==> r == Err::<Vec<u8>, Error>(
                Error::Protocol(
                    ProtocolCause::PayloadTooLong { len: self@.content.data().len() as usize },
                ),
            ),
    {
        let mut bytes: Vec<u8> = Vec::new();
        let channel = u32_to_be(self.channel_id);
        extend_bytes(&mut bytes, channel.as_slice());
        match &self.frame_content {
            U2FFrameContent::Init { cmd, data_len, data } => {
                if data.len() > INIT_DATA_MAX {
                    return Err(
                        Error::Protocol(ProtocolCause::PayloadTooLong { len: data.len() }),
                    );
                }
                bytes.push(*cmd | 0x80);
                let len = u16_to_be(*data_len);
                extend_bytes(&mut bytes, len.as_slice());
                extend_bytes(&mut bytes, data.as_slice());
            },
            U2FFrameContent::Cont { seq, data } => {
                if data.len() > CONT_DATA_MAX {
                    return Err(
                        Error::Protocol(ProtocolCause::PayloadTooLong { len: data.len() }),
                    );
                }
                bytes.push(*seq & 0x7f);
                extend_bytes(&mut bytes, data.as_slice());
            },
        }
        pad_zeros(&mut bytes, REPORT_LEN);
        proof {
            lemma_encode_padding(self@);
            assert(bytes@ == self@.encode());
        }
        Ok(bytes)
    }

    /// Parses a report.
    ///
    /// The payload is everything after the fixed fields, up to the bound of
    /// the frame's shape; padding is not trimmed. Fails when the buffer ends
    /// inside the fixed fields.
    pub fn from_bytes(data: &[u8]) -> (r: Result<U2FFrame, Error>)
        ensures
            decodable(data@) ==> r is Ok && r->Ok_0@ == decode(data@) && r->Ok_0@.fits()
                && r->Ok_0@.tag_in_range(),
            !decodable(data@) ==> r == Err::<U2FFrame, Error>(Error::IO(IoCause::UnexpectedEof)),
            data@.len() == REPORT_LEN ==> r is Ok && r->Ok_0@.is_full(),
    {
        if data.len() < 5 {
            return Err(Error::IO(IoCause::UnexpectedEof));
        }
        let channel_id = u32_from_be(data);
        let tag = data[4];
        proof {
            lemma_tag_bits(tag);
        }
        if tag & 0x80 != 0 {
            if data.len() < 7 {
                return Err(Error::IO(IoCause::UnexpectedEof));
            }
            let data_len = u16_from_be(slice_subrange(data, 5, 7));
            let end = if data.len() - 7 <= INIT_DATA_MAX {
                data.len()
            } else {
                7 + INIT_DATA_MAX
            };
            let payload = slice_to_vec(slice_subrange(data, 7, end));
            Ok(
                U2FFrame {
                    channel_id,
                    frame_content: U2FFrameContent::Init { cmd: tag & 0x7f, data_len, data: payload },
                },
            )
        } else {
            let end = if data.len() - 5 <= CONT_DATA_MAX {
                data.len()
            } else {
                5 + CONT_DATA_MAX
            };
            let payload = slice_to_vec(slice_subrange(data, 5, end));
            Ok(U2FFrame { channel_id, frame_content: U2FFrameContent::Cont { seq: tag, data: payload } })
        }
    }
}

} // verus!
