//! Reassembling a logical message from the frames of a response.
//!
//! The first frame must be an initialization frame for the expected command.
//! It announces the payload's length and carries its first bytes. While
//! bytes are missing, each further frame must be a continuation frame with
//! the next sequence number, counted from 0. What was gathered is cut to the
//! announced length, which removes the padding of the last frame.

use crate::errors::{Error, ProtocolCause};
use crate::fragment::{frame_views, least, SEQ_COUNT};
use crate::u2f_frame::{extend_bytes, ContentView, FrameView, U2FFrame, U2FFrameContent};
use vstd::prelude::*;
use vstd::slice::{slice_subrange, slice_to_vec};

verus! {

/// A response in the course of being read.
#[derive(Debug, Clone, PartialEq, Eq)]
pub struct Reassembly {
    total_len: u16,
    data: Vec<u8>,
    next_seq: u8,
}

/// Mathematical value of a response in the course of being read.
pub struct ReassemblyView {
    /// Length that the initialization frame announced.
    pub total_len: nat,
    /// Payload bytes gathered so far, padding of the last frame included.
    pub data: Seq<u8>,
    /// Sequence number that the next continuation frame must carry.
    pub next_seq: nat,
}

/// The state after the first frame of a response, or why the frame cannot
/// start the response to `expected_cmd`.
pub open spec fn begin(expected_cmd: u8, frame: FrameView) -> Result<ReassemblyView, Error> {
    match frame.content {
        ContentView::Cont { .. } => Err(Error::Protocol(ProtocolCause::ExpectedInitFrame)),
        ContentView::Init { cmd, data_len, data } => if cmd != expected_cmd {
            Err(Error::Protocol(ProtocolCause::UnexpectedCmd { expected: expected_cmd, got: cmd }))
        } else {
            Ok(
                ReassemblyView {
                    total_len: data_len as nat,
                    data: data.subrange(0, least(data.len() as int, data_len as int)),
                    next_seq: 0,
                },
            )
        },
    }
}

impl ReassemblyView {
    /// All announced bytes have arrived.
    pub open spec fn is_complete(self) -> bool {
        self.data.len() >= self.total_len
    }

    /// The payload of a complete response.
    pub open spec fn payload(self) -> Seq<u8> {
        self.data.subrange(0, self.total_len as int)
    }

    /// The state after one more frame, or why the frame cannot continue the
    /// response.
    pub open spec fn accept(self, frame: FrameView) -> Result<ReassemblyView, Error> {
        match frame.content {
            ContentView::Init { .. } => Err(Error::Protocol(ProtocolCause::ExpectedContFrame)),
            ContentView::Cont { seq, data } => if seq as nat != self.next_seq || seq as nat
                >= SEQ_COUNT {
                Err(
                    Error::Protocol(
                        ProtocolCause::SequenceError { expected: self.next_seq as u8, got: seq },
                    ),
                )
            } else {
                Ok(
                    ReassemblyView {
                        total_len: self.total_len,
                        data: self.data + data,
                        next_seq: self.next_seq + 1,
                    },
                )
            },
        }
    }
}

/// What reading a response gives when the state is `state` and the frames
/// still to come are `frames` from index `from` on: the payload once it is
/// complete, the first error otherwise. Running out of frames before the
/// payload is complete is the device sending nothing.
pub open spec fn response_payload_from(state: ReassemblyView, frames: Seq<FrameView>, from: int) -> Result<
    Seq<u8>,
    Error,
>
    decreases frames.len() - from,
{
    if state.is_complete() {
        Ok(state.payload())
    } else if from < 0 || from >= frames.len() {
        Err(Error::Protocol(ProtocolCause::NoData))
    } else {
        match state.accept(frames[from]) {
            Ok(next) => response_payload_from(next, frames, from + 1),
            Err(e) => Err(e),
        }
    }
}

/// What reading the response to `expected_cmd` gives when the device sends
/// `frames`. Frames after the one that completes the payload are not read.
pub open spec fn response_payload(expected_cmd: u8, frames: Seq<FrameView>) -> Result<Seq<u8>, Error> {
    if frames.len() == 0 {
        Err(Error::Protocol(ProtocolCause::NoData))
    } else {
        match begin(expected_cmd, frames[0]) {
            Ok(state) => response_payload_from(state, frames, 1),
            Err(e) => Err(e),
        }
    }
}

impl View for Reassembly {
    type V = ReassemblyView;

    closed spec fn view(&self) -> ReassemblyView {
        ReassemblyView {
            total_len: self.total_len as nat,
            data: self.data@,
            next_seq: self.next_seq as nat,
        }
    }
}

impl Reassembly {
    /// What every value built by `begin` and `accept` satisfies.
    pub closed spec fn wf(&self) -> bool {
        self.next_seq <= SEQ_COUNT
    }

    /// Starts reading the response to `expected_cmd` with its first frame.
    pub fn begin(expected_cmd: u8, frame: &U2FFrame) -> (r: Result<Reassembly, Error>)
        ensures
            match r {
                Ok(state) => state.wf() && begin(expected_cmd, frame@) == Ok::<
                    ReassemblyView,
                    Error,
                >(state@),
                Err(e) => begin(expected_cmd, frame@) == Err::<ReassemblyView, Error>(e),
            },
    {
        match &frame.frame_content {
            U2FFrameContent::Cont { .. } => Err(
                Error::Protocol(ProtocolCause::ExpectedInitFrame),
            ),
            U2FFrameContent::Init { cmd, data_len, data } => {
                if *cmd != expected_cmd {
                    return Err(
                        Error::Protocol(
                            ProtocolCause::UnexpectedCmd { expected: expected_cmd, got: *cmd },
                        ),
                    );
                }
                let take = if data.len() <= *data_len as usize {
                    data.len()
                } else {
                    *data_len as usize
                };
                Ok(
                    Reassembly {
                        total_len: *data_len,
                        data: slice_to_vec(slice_subrange(data.as_slice(), 0, take)),
                        next_seq: 0,
                    },
                )
            },
        }
    }

    /// Whether all announced bytes have arrived.
    pub fn is_complete(&self) -> (done: bool)
        ensures
            done == self@.is_complete(),
    {
        self.data.len() >= self.total_len as usize
    }

    /// Takes the next frame of the response. On an error the state is as it
    /// was.
    pub fn accept(&mut self, frame: &U2FFrame) -> (r: Result<(), Error>)
        requires
            old(self).wf(),
        ensures
            final(self).wf(),
            match r {
                Ok(_) => old(self)@.accept(frame@) == Ok::<ReassemblyView, Error>(final(self)@),
                Err(e) => old(self)@.accept(frame@) == Err::<ReassemblyView, Error>(e)
                    && *final(self) == *old(self),
            },
    {
        match &frame.frame_content {
            U2FFrameContent::Init { .. } => Err(
                Error::Protocol(ProtocolCause::ExpectedContFrame),
            ),
            U2FFrameContent::Cont { seq, data } => {
                if *seq != self.next_seq || *seq as usize >= SEQ_COUNT {
                    return Err(
                        Error::Protocol(
                            ProtocolCause::SequenceError { expected: self.next_seq, got: *seq },
                        ),
                    );
                }
                extend_bytes(&mut self.data, data.as_slice());
                self.next_seq = self.next_seq + 1;
                Ok(())
            },
        }
    }

    /// Ends the reading: the payload if it is complete, cut to the announced
    /// length; otherwise the error of a device that sent nothing more.
    pub fn finish(self) -> (r: Result<Vec<u8>, Error>)
        ensures
            self@.is_complete() ==> r is Ok && r->Ok_0@ == self@.payload(),
            !self@.is_complete() ==> r == Err::<Vec<u8>, Error>(
                Error::Protocol(ProtocolCause::NoData),
            ),
    {
        if self.data.len() < self.total_len as usize {
            return Err(Error::Protocol(ProtocolCause::NoData));
        }
        let mut data = self.data;
        data.truncate(self.total_len as usize);
        Ok(data)
    }
}

/// Reads the response to `expected_cmd` from frames that are already at
/// hand, in the order in which the device sent them.
pub fn reassemble(expected_cmd: u8, frames: &[U2FFrame]) -> (r: Result<Vec<u8>, Error>)
    ensures
        match r {
            Ok(payload) => response_payload(expected_cmd, frame_views(frames@)) == Ok::<
                Seq<u8>,
                Error,
            >(payload@),
            Err(e) => response_payload(expected_cmd, frame_views(frames@)) == Err::<Seq<u8>, Error>(e),
        },
{
    if frames.len() == 0 {
        return Err(Error::Protocol(ProtocolCause::NoData));
    }
    let mut state = match Reassembly::begin(expected_cmd, &frames[0]) {
        Ok(state) => state,
        Err(e) => {
            return Err(e);
        },
    };
    let mut next: usize = 1;
    while !state.is_complete()
        invariant
            state.wf(),
            1 <= next <= frames@.len(),
            response_payload(expected_cmd, frame_views(frames@)) == response_payload_from(
                state@,
                frame_views(frames@),
                next as int,
            ),
        decreases frames@.len() - next,
    {
        if next >= frames.len() {
            return Err(Error::Protocol(ProtocolCause::NoData));
        }
        match state.accept(&frames[next]) {
            Ok(_) => {},
            Err(e) => {
                return Err(e);
            },
        }
        next += 1;
    }
    state.finish()
}

/// The state after the frames up to and including number `k` were read and
/// accepted, if reading got that far: none of them was refused, and the
/// payload was not complete before any of them but the first.
pub open spec fn state_after(expected_cmd: u8, frames: Seq<FrameView>, k: nat) -> Option<
    ReassemblyView,
>
    decreases k,
{
    if k >= frames.len() {
        None
    } else if k == 0 {
        match begin(expected_cmd, frames[0]) {
            Ok(state) => Some(state),
            Err(_) => None,
        }
    } else {
        match state_after(expected_cmd, frames, (k - 1) as nat) {
            Some(state) => if state.is_complete() {
                None
            } else {
                match state.accept(frames[k as int]) {
                    Ok(next) => Some(next),
                    Err(_) => None,
                }
            },
            None => None,
        }
    }
}

/// `frames` with the frames at `i` and `j` exchanged.
pub open spec fn swapped(frames: Seq<FrameView>, i: int, j: int) -> Seq<FrameView> {
    frames.update(i, frames[j]).update(j, frames[i])
}

/// Once the frames up to number `k` were accepted, the next continuation
/// frame must carry sequence number `k`, and the outcome of the whole
/// response is the outcome of reading on from there.
pub proof fn lemma_state_after(expected_cmd: u8, frames: Seq<FrameView>, k: nat)
    requires
        state_after(expected_cmd, frames, k) is Some,
    ensures
        state_after(expected_cmd, frames, k)->0.next_seq == k,
        k < SEQ_COUNT + 1,
        response_payload(expected_cmd, frames) == response_payload_from(
            state_after(expected_cmd, frames, k)->0,
            frames,
            k as int + 1,
        ),
    decreases k,
{
    if k > 0 {
        lemma_state_after(expected_cmd, frames, (k - 1) as nat);
    }
}

/// The start of a response is checked: a continuation frame in first place
/// is refused, and so is an initialization frame for another command.
pub proof fn lemma_first_frame_checked(expected_cmd: u8, frames: Seq<FrameView>)
    requires
        frames.len() > 0,
    ensures
        frames[0].content is Cont ==> response_payload(expected_cmd, frames) == Err::<
            Seq<u8>,
            Error,
        >(Error::Protocol(ProtocolCause::ExpectedInitFrame)),
        frames[0].content matches ContentView::Init { cmd, .. } ==> cmd != expected_cmd
            ==> response_payload(expected_cmd, frames) == Err::<Seq<u8>, Error>(
            Error::Protocol(ProtocolCause::UnexpectedCmd { expected: expected_cmd, got: cmd }),
        ),
{
}

/// Every frame that is read after the first is checked. If the frames before
/// number `k` were accepted and bytes are still missing, then an
/// initialization frame at `k` is refused, and so is a continuation frame
/// whose sequence number is not `k - 1`.
pub proof fn lemma_bad_continuation(expected_cmd: u8, frames: Seq<FrameView>, k: nat)
    requires
        1 <= k < frames.len(),
        state_after(expected_cmd, frames, (k - 1) as nat) is Some,
        !state_after(expected_cmd, frames, (k - 1) as nat)->0.is_complete(),
    ensures
        frames[k as int].content is Init ==> response_payload(expected_cmd, frames) == Err::<
            Seq<u8>,
            Error,
        >(Error::Protocol(ProtocolCause::ExpectedContFrame)),
        frames[k as int].content matches ContentView::Cont { seq, .. } ==> seq != k - 1
            ==> response_payload(expected_cmd, frames) == Err::<Seq<u8>, Error>(
            Error::Protocol(ProtocolCause::SequenceError { expected: (k - 1) as u8, got: seq }),
        ),
{
    lemma_state_after(expected_cmd, frames, (k - 1) as nat);
}

/// A response whose second frame does not carry sequence number 0 is
/// refused with a sequence error, whenever a second frame is needed.
pub proof fn lemma_second_frame_sequence(expected_cmd: u8, frames: Seq<FrameView>)
    requires
        frames.len() >= 2,
        begin(expected_cmd, frames[0]) is Ok,
        !begin(expected_cmd, frames[0])->Ok_0.is_complete(),
        frames[1].content is Cont,
        frames[1].content->seq != 0,
    ensures
        response_payload(expected_cmd, frames) == Err::<Seq<u8>, Error>(
            Error::Protocol(
                ProtocolCause::SequenceError { expected: 0, got: frames[1].content->seq },
            ),
        ),
{
    lemma_bad_continuation(expected_cmd, frames, 1);
}

/// What holds of a frame that was read and accepted after the first: bytes
/// were missing before it, and it is a continuation frame that carries its
/// own position, counted from 0.
pub proof fn lemma_accepted_frame(expected_cmd: u8, frames: Seq<FrameView>, k: nat, m: nat)
    requires
        state_after(expected_cmd, frames, k) is Some,
        1 <= m <= k,
    ensures
        state_after(expected_cmd, frames, (m - 1) as nat) is Some,
        !state_after(expected_cmd, frames, (m - 1) as nat)->0.is_complete(),
        frames[m as int].content is Cont,
        frames[m as int].content->seq == m - 1,
        m <= SEQ_COUNT,
    decreases k,
{
    lemma_state_after(expected_cmd, frames, k);
    if m < k {
        lemma_accepted_frame(expected_cmd, frames, (k - 1) as nat, m);
    } else {
        lemma_state_after(expected_cmd, frames, (k - 1) as nat);
    }
}

/// Reading depends only on the frames that were read: two streams that agree
/// up to frame `k` are in the same state after it.
pub proof fn lemma_same_prefix(
    expected_cmd: u8,
    frames: Seq<FrameView>,
    other: Seq<FrameView>,
    k: nat,
)
    requires
        k < frames.len(),
        k < other.len(),
        forall|i: int| 0 <= i <= k ==> frames[i] == other[i],
    ensures
        state_after(expected_cmd, frames, k) == state_after(expected_cmd, other, k),
    decreases k,
{
    if k > 0 {
        lemma_same_prefix(expected_cmd, frames, other, (k - 1) as nat);
    }
}

/// Exchanging two continuation frames that were both read and accepted
/// makes the response fail with a sequence error at the first of the two
/// places.
pub proof fn lemma_swapped_continuations(
    expected_cmd: u8,
    frames: Seq<FrameView>,
    i: nat,
    j: nat,
)
    requires
        1 <= i < j,
        state_after(expected_cmd, frames, j) is Some,
    ensures
        response_payload(expected_cmd, swapped(frames, i as int, j as int)) == Err::<
            Seq<u8>,
            Error,
        >(
            Error::Protocol(
                ProtocolCause::SequenceError { expected: (i - 1) as u8, got: (j - 1) as u8 },
            ),
        ),
{
    let other = swapped(frames, i as int, j as int);
    lemma_accepted_frame(expected_cmd, frames, j, i);
    lemma_accepted_frame(expected_cmd, frames, j, j);
    lemma_same_prefix(expected_cmd, frames, other, (i - 1) as nat);
    lemma_bad_continuation(expected_cmd, other, i);
}

} // verus!
