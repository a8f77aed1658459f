//! Fragmenting a message and reassembling its frames gives the message back.

use crate::errors::Error;
use crate::fragment::{
    cont_count, cont_start, least, lemma_cont_count, lemma_message_frames_fit, message_frames,
    MAX_MESSAGE_LEN,
};
use crate::reassembly::{begin, response_payload, response_payload_from, ReassemblyView};
use crate::u2f_frame::{decode, lemma_decode_encode, lemma_tag_bits, FrameView};
use vstd::prelude::*;

verus! {

/// The frames as a receiver decodes them from the reports that carry them.
/// Meaningful where every frame fits its report.
pub open spec fn received(frames: Seq<FrameView>) -> Seq<FrameView> {
    Seq::new(frames.len(), |i: int| decode(frames[i].encode()))
}

/// `got` holds the frames of the message, each possibly followed by padding
/// in its payload; padding occurs in the last frame only.
spec fn carries(got: Seq<FrameView>, cmd: u8, payload: Seq<u8>) -> bool {
    let n = cont_count(payload.len());
    &&& got.len() == 1 + n
    &&& got[0].content is Init
    &&& got[0].content->cmd == cmd
    &&& got[0].content->data_len == payload.len()
    &&& forall|k: int|
        1 <= k <= n ==> (#[trigger] got[k]).content is Cont && got[k].content->seq == k - 1
    &&& forall|k: int|
        0 <= k <= n ==> {
            let start = if k == 0 {
                0
            } else {
                cont_start(k - 1)
            };
            let end = least(payload.len() as int, cont_start(k));
            &&& (#[trigger] got[k]).content.data().len() >= end - start
            &&& got[k].content.data().subrange(0, end - start) == payload.subrange(start, end)
            &&& (k < n ==> got[k].content.data().len() == end - start)
        }
}

/// The state after `k` continuation frames of the message were accepted.
spec fn gathered(state: ReassemblyView, payload: Seq<u8>, k: int) -> bool {
    let n = cont_count(payload.len());
    &&& 0 <= k <= n
    &&& state.total_len == payload.len()
    &&& state.next_seq == k
    &&& (k < n ==> state.data == payload.subrange(0, cont_start(k)))
    &&& (k == n ==> state.data.len() >= payload.len() && state.data.subrange(
        0,
        payload.len() as int,
    ) == payload)
}

proof fn lemma_read_on(
    state: ReassemblyView,
    got: Seq<FrameView>,
    cmd: u8,
    payload: Seq<u8>,
    k: int,
)
    requires
        payload.len() <= MAX_MESSAGE_LEN,
        carries(got, cmd, payload),
        gathered(state, payload, k),
    ensures
        response_payload_from(state, got, k + 1) == Ok::<Seq<u8>, Error>(payload),
    decreases cont_count(payload.len()) - k,
{
    let n = cont_count(payload.len());
    lemma_cont_count(payload.len());
    if k < n {
        let frame = got[k + 1];
        let start = cont_start(k);
        let end = least(payload.len() as int, cont_start(k + 1));
        assert(frame.content is Cont && frame.content->seq == k);
        assert(!state.is_complete());
        let next = state.accept(frame)->Ok_0;
        assert(state.accept(frame) is Ok);
        let data = frame.content.data();
        assert(data.subrange(0, end - start) == payload.subrange(start, end));
        if k + 1 < n {
            assert(data == data.subrange(0, end - start));
            assert(next.data == payload.subrange(0, cont_start(k + 1)));
        } else {
            assert(next.data.subrange(0, payload.len() as int) == payload.subrange(0, start)
                + data.subrange(0, end - start));
            assert(next.data.subrange(0, payload.len() as int) == payload);
        }
        lemma_read_on(next, got, cmd, payload, k + 1);
    }
}

proof fn lemma_read(got: Seq<FrameView>, cmd: u8, payload: Seq<u8>)
    requires
        payload.len() <= MAX_MESSAGE_LEN,
        carries(got, cmd, payload),
    ensures
        response_payload(cmd, got) == Ok::<Seq<u8>, Error>(payload),
{
    let n = cont_count(payload.len());
    lemma_cont_count(payload.len());
    let state = begin(cmd, got[0])->Ok_0;
    let end = least(payload.len() as int, cont_start(0));
    let data = got[0].content.data();
    assert(data.subrange(0, end) == payload.subrange(0, end));
    assert(state.data == data.subrange(0, least(data.len() as int, payload.len() as int)));
    if n == 0 {
        assert(state.data == payload);
        assert(state.data.subrange(0, payload.len() as int) == payload);
    } else {
        assert(state.data == payload.subrange(0, cont_start(0)));
    }
    lemma_read_on(state, got, cmd, payload, 0);
}

/// Reading the frames of a message as they were built gives its payload,
/// for every payload that a message can carry.
pub proof fn lemma_fragment_roundtrip(channel_id: u32, cmd: u8, payload: Seq<u8>)
    requires
        payload.len() <= MAX_MESSAGE_LEN,
    ensures
        response_payload(cmd, message_frames(channel_id, cmd, payload)) == Ok::<Seq<u8>, Error>(
            payload,
        ),
{
    let frames = message_frames(channel_id, cmd, payload);
    lemma_cont_count(payload.len());
    assert(carries(frames, cmd, payload)) by {
        assert forall|k: int| 0 <= k <= cont_count(payload.len()) implies {
            let start = if k == 0 {
                0
            } else {
                cont_start(k - 1)
            };
            let end = least(payload.len() as int, cont_start(k));
            &&& (#[trigger] frames[k]).content.data().len() >= end - start
            &&& frames[k].content.data().subrange(0, end - start) == payload.subrange(start, end)
            &&& (k < cont_count(payload.len()) ==> frames[k].content.data().len() == end - start)
        } by {
            let data = frames[k].content.data();
            assert(data.subrange(0, data.len() as int) == data);
        }
    }
    lemma_read(frames, cmd, payload);
}

/// Sending a message and reading back the reports that were written gives
/// its payload: for every payload of at most `MAX_MESSAGE_LEN` bytes, every
/// channel and every command, encoding each frame of the message, decoding
/// each report and reassembling the frames returns exactly the payload.
pub proof fn lemma_wire_roundtrip(channel_id: u32, cmd: u8, payload: Seq<u8>)
    requires
        payload.len() <= MAX_MESSAGE_LEN,
        cmd < 0x80,
    ensures
        response_payload(cmd, received(message_frames(channel_id, cmd, payload))) == Ok::<
            Seq<u8>,
            Error,
        >(payload),
{
    let frames = message_frames(channel_id, cmd, payload);
    let got = received(frames);
    let n = cont_count(payload.len());
    lemma_cont_count(payload.len());
    lemma_message_frames_fit(channel_id, cmd, payload);
    lemma_tag_bits(cmd);
    assert forall|k: int| 0 <= k <= n implies (#[trigger] got[k]) == frames[k].on_the_wire() by {
        assert(frames[k].fits());
        lemma_decode_encode(frames[k]);
    }
    assert forall|k: int| 1 <= k <= n implies (#[trigger] got[k]).content is Cont
        && got[k].content->seq == k - 1 by {
        assert(got[k] == frames[k].on_the_wire());
        lemma_tag_bits((k - 1) as u8);
    }
    assert forall|k: int| 0 <= k <= n implies {
        let start = if k == 0 {
            0
        } else {
            cont_start(k - 1)
        };
        let end = least(payload.len() as int, cont_start(k));
        &&& (#[trigger] got[k]).content.data().len() >= end - start
        &&& got[k].content.data().subrange(0, end - start) == payload.subrange(start, end)
        &&& (k < n ==> got[k].content.data().len() == end - start)
    } by {
        assert(got[k] == frames[k].on_the_wire());
        assert(frames[k].fits());
        assert(k < n ==> frames[k].is_full());
        let data = frames[k].content.data();
        assert(got[k].content.data().subrange(0, data.len() as int) == data);
    }
    assert(got[0] == frames[0].on_the_wire());
    assert(carries(got, cmd, payload));
    lemma_read(got, cmd, payload);
}

} // verus!
