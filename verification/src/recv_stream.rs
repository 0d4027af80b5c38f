//! The streaming body handle attached to a request or response: bytes may be
//! in hand already (a prebuffer and a staging buffer) or still arriving over
//! a bounded channel fed by the connection's read side. Once the end-of-body
//! flag is observed no further bytes are accepted, and a chunked encoding of
//! the stream is terminated exactly once.

use vstd::prelude::*;
use crate::buffer::BinaryMut;
use crate::chunked::{chunk_frame, chunk_terminator, ends_with, encode_chunk_data};

verus! {

#[verifier::external_type_specification]
#[verifier::external_body]
#[verifier::reject_recursive_types(T)]
pub struct ExReceiver<T>(tokio::sync::mpsc::Receiver<T>);

#[verifier::external_type_specification]
#[verifier::external_body]
#[verifier::reject_recursive_types(T)]
pub struct ExSender<T>(tokio::sync::mpsc::Sender<T>);

/// What a non-blocking probe of the body channel produced.
pub enum ChannelPoll {
    /// a producer message: the end-of-body flag and a chunk of bytes
    Msg(bool, Vec<u8>),
    /// nothing queued right now
    Empty,
    /// the producer side is gone
    Closed,
}

/// Relies on tokio::sync::mpsc::Receiver::try_recv: hands out one queued
/// message, or reports the channel empty or disconnected. What it returns
/// depends on what the producer has sent, so nothing is promised of it.
#[verifier::external_body]
pub(crate) fn channel_try_recv(rx: &mut tokio::sync::mpsc::Receiver<(bool, Vec<u8>)>) -> (r:
    ChannelPoll)
{
    match rx.try_recv() {
        Ok((end, bytes)) => ChannelPoll::Msg(end, bytes),
        Err(tokio::sync::mpsc::error::TryRecvError::Empty) => ChannelPoll::Empty,
        Err(tokio::sync::mpsc::error::TryRecvError::Disconnected) => ChannelPoll::Closed,
    }
}

/// Relies on tokio::sync::mpsc::channel: a fresh bounded channel pair.
/// The capacity must be positive, since the call rejects zero.
#[verifier::external_body]
pub(crate) fn channel_pair(cap: usize) -> (r: (
    tokio::sync::mpsc::Sender<(bool, Vec<u8>)>,
    tokio::sync::mpsc::Receiver<(bool, Vec<u8>)>,
))
    requires
        cap > 0,
{
    tokio::sync::mpsc::channel(cap)
}

/// Relies on tokio::sync::mpsc::Sender::try_send: accepts the message unless
/// the channel is full or closed; whether room is available depends on the
/// consumer, so only the outcome flag is reported.
#[verifier::external_body]
pub(crate) fn channel_try_send(
    tx: &tokio::sync::mpsc::Sender<(bool, Vec<u8>)>,
    end: bool,
    bytes: Vec<u8>,
) -> (ok: bool)
{
    tx.try_send((end, bytes)).is_ok()
}

/// The encoding of the bytes in hand: under chunked framing each non-empty
/// buffer becomes one block; otherwise the bytes pass through unchanged.
pub open spec fn encode_payload(pre: Seq<u8>, stag: Seq<u8>, chunked: bool) -> Seq<u8> {
    if chunked {
        (if pre.len() > 0 {
            chunk_frame(pre)
        } else {
            Seq::<u8>::empty()
        }) + (if stag.len() > 0 {
            chunk_frame(stag)
        } else {
            Seq::<u8>::empty()
        })
    } else {
        pre + stag
    }
}

/// An inbound body: prebuffered bytes, bytes still being staged, an optional
/// producer channel, and the end-of-body flag.
pub struct RecvStream {
    receiver: Option<tokio::sync::mpsc::Receiver<(bool, Vec<u8>)>>,
    binary: Option<BinaryMut>,
    binary_mut: Option<BinaryMut>,
    is_end: bool,
    chunk_ended: bool,
}

impl RecvStream {
    /// The prebuffered bytes in hand.
    pub closed spec fn prebuf(&self) -> Seq<u8> {
        match self.binary {
            Some(b) => b@,
            None => Seq::<u8>::empty(),
        }
    }

    /// The staged bytes in hand.
    pub closed spec fn staging(&self) -> Seq<u8> {
        match self.binary_mut {
            Some(b) => b@,
            None => Seq::<u8>::empty(),
        }
    }

    /// Every byte currently in hand, in order.
    pub open spec fn buffered(&self) -> Seq<u8> {
        self.prebuf() + self.staging()
    }

    /// Whether the end of the body has been observed.
    pub closed spec fn ended(&self) -> bool {
        self.is_end
    }

    /// Whether the chunked terminator block has already been written.
    pub closed spec fn terminated(&self) -> bool {
        self.chunk_ended
    }

    /// Whether a producer channel is still attached.
    pub closed spec fn channel_live(&self) -> bool {
        self.receiver is Some
    }

    pub closed spec fn wf(&self) -> bool {
        &&& (self.binary is Some ==> self.binary->0.wf())
        &&& (self.binary_mut is Some ==> self.binary_mut->0.wf())
        &&& (self.chunk_ended ==> self.is_end)
    }

    /// A body with no bytes and no producer, already ended.
    pub fn empty() -> (r: RecvStream)
        ensures
            r.wf(),
            r.buffered() == Seq::<u8>::empty(),
            r.prebuf() == Seq::<u8>::empty(),
            r.staging() == Seq::<u8>::empty(),
            r.ended(),
            !r.terminated(),
            !r.channel_live(),
    {
        let r = RecvStream {
            receiver: None,
            binary: None,
            binary_mut: None,
            is_end: true,
            chunk_ended: false,
        };
        proof {
            assert(r.buffered() =~= Seq::<u8>::empty());
        }
        r
    }

    /// A body holding exactly one finalised payload.
    pub fn only(bytes: Vec<u8>) -> (r: RecvStream)
        ensures
            r.wf(),
            r.buffered() == bytes@,
            r.prebuf() == bytes@,
            r.staging() == Seq::<u8>::empty(),
            r.ended(),
            !r.terminated(),
            !r.channel_live(),
    {
        let ghost contents = bytes@;
        let r = RecvStream {
            receiver: None,
            binary: Some(BinaryMut::from_vec(bytes)),
            binary_mut: None,
            is_end: true,
            chunk_ended: false,
        };
        proof {
            assert(r.buffered() =~= contents);
        }
        r
    }

    /// A channel-backed body: `binary` holds the bytes already received,
    /// `is_end` whether the body is already complete.
    pub fn new(
        receiver: tokio::sync::mpsc::Receiver<(bool, Vec<u8>)>,
        binary: BinaryMut,
        is_end: bool,
    ) -> (r: RecvStream)
        requires
            binary.wf(),
        ensures
            r.wf(),
            r.buffered() == binary@,
            r.prebuf() == Seq::<u8>::empty(),
            r.staging() == binary@,
            r.ended() == is_end,
            !r.terminated(),
            r.channel_live(),
    {
        let ghost contents = binary@;
        let r = RecvStream {
            receiver: Some(receiver),
            binary: None,
            binary_mut: Some(binary),
            is_end,
            chunk_ended: false,
        };
        proof {
            assert(r.buffered() =~= contents);
        }
        r
    }

    pub fn is_end(&self) -> (r: bool)
        ensures
            r == self.ended(),
    {
        self.is_end
    }

    /// Overwrite the end-of-body flag. Once the chunked terminator has been
    /// written the stream cannot be reopened.
    pub fn set_end(&mut self, end: bool)
        requires
            old(self).wf(),
            old(self).terminated() ==> end,
        ensures
            final(self).wf(),
            final(self).ended() == end,
            final(self).buffered() == old(self).buffered(),
            final(self).prebuf() == old(self).prebuf(),
            final(self).staging() == old(self).staging(),
            final(self).terminated() == old(self).terminated(),
            final(self).channel_live() == old(self).channel_live(),
    {
        self.is_end = end;
    }

    /// How many body bytes are in hand right now; bytes not yet received do
    /// not count.
    pub fn body_len(&self) -> (n: usize)
        requires
            self.wf(),
            self.buffered().len() <= usize::MAX,
        ensures
            n == self.buffered().len(),
    {
        let a = match &self.binary {
            Some(b) => b.remaining(),
            None => 0,
        };
        let b = match &self.binary_mut {
            Some(b) => b.remaining(),
            None => 0,
        };
        a + b
    }

    /// Append bytes to the staging buffer.
    fn append_staging(&mut self, bytes: &[u8])
        requires
            old(self).wf(),
        ensures
            final(self).wf(),
            final(self).staging() == old(self).staging() + bytes@,
            final(self).prebuf() == old(self).prebuf(),
            final(self).ended() == old(self).ended(),
            final(self).terminated() == old(self).terminated(),
            final(self).channel_live() == old(self).channel_live(),
    {
        let mut buf = match self.binary_mut.take() {
            Some(b) => b,
            None => BinaryMut::new(),
        };
        buf.put_slice(bytes);
        self.binary_mut = Some(buf);
    }

    /// Record one producer message: append its bytes and take its end flag.
    pub fn push_chunk(&mut self, end: bool, bytes: &[u8])
        requires
            old(self).wf(),
            !old(self).ended(),
        ensures
            final(self).wf(),
            final(self).staging() == old(self).staging() + bytes@,
            final(self).prebuf() == old(self).prebuf(),
            final(self).ended() == end,
            final(self).terminated() == old(self).terminated(),
            final(self).channel_live() == old(self).channel_live(),
    {
        self.append_staging(bytes);
        self.is_end = end;
    }

    /// Detach the producer channel, for a caller that awaits on it directly.
    pub fn take_receiver(&mut self) -> (r: Option<
        tokio::sync::mpsc::Receiver<(bool, Vec<u8>)>,
    >)
        requires
            old(self).wf(),
        ensures
            final(self).wf(),
            r is Some <==> old(self).channel_live(),
            !final(self).channel_live(),
            final(self).buffered() == old(self).buffered(),
            final(self).prebuf() == old(self).prebuf(),
            final(self).staging() == old(self).staging(),
            final(self).ended() == old(self).ended(),
            final(self).terminated() == old(self).terminated(),
    {
        self.receiver.take()
    }

    /// Re-attach a producer channel taken with `take_receiver`.
    pub fn restore_receiver(&mut self, rx: tokio::sync::mpsc::Receiver<(bool, Vec<u8>)>)
        requires
            old(self).wf(),
        ensures
            final(self).wf(),
            final(self).channel_live(),
            final(self).buffered() == old(self).buffered(),
            final(self).prebuf() == old(self).prebuf(),
            final(self).staging() == old(self).staging(),
            final(self).ended() == old(self).ended(),
            final(self).terminated() == old(self).terminated(),
    {
        self.receiver = Some(rx);
    }

    /// Drain whatever the producer has queued, without blocking, stopping at
    /// the first message that carries the end flag. A closed channel counts
    /// as a graceful end of the body.
    pub fn try_recv(&mut self)
        requires
            old(self).wf(),
        ensures
            final(self).wf(),
            final(self).prebuf() == old(self).prebuf(),
            final(self).terminated() == old(self).terminated(),
            final(self).channel_live() == old(self).channel_live(),
            old(self).ended() ==> *final(self) == *old(self),
            exists|delta: Seq<u8>| final(self).staging() == old(self).staging() + delta,
    {
        if self.is_end {
            proof {
                assert(self.staging() =~= self.staging() + Seq::<u8>::empty());
            }
            return;
        }
        let mut rx = match self.receiver.take() {
            Some(r) => r,
            None => {
                proof {
                    assert(self.staging() =~= self.staging() + Seq::<u8>::empty());
                }
                return;
            },
        };
        let ghost pre0 = self.prebuf();
        let ghost stag0 = self.staging();
        let ghost term0 = self.terminated();
        proof {
            assert(self.staging() =~= stag0 + Seq::<u8>::empty());
        }
        let mut k: usize = 0;
        let mut done = false;
        while k < 64 && !done && !self.is_end
            invariant
                self.wf(),
                self.prebuf() == pre0,
                self.terminated() == term0,
                !self.channel_live(),
                exists|delta: Seq<u8>| self.staging() == stag0 + delta,
                k <= 64,
            decreases 64 - k,
        {
            let ghost stag_prev = self.staging();
            match channel_try_recv(&mut rx) {
                ChannelPoll::Msg(end, bytes) => {
                    self.append_staging(bytes.as_slice());
                    self.is_end = end;
                    proof {
                        let d0 = choose|d: Seq<u8>| stag_prev == stag0 + d;
                        assert(self.staging() =~= stag0 + (d0 + bytes@));
                    }
                },
                ChannelPoll::Empty => {
                    done = true;
                },
                ChannelPoll::Closed => {
                    self.is_end = true;
                },
            }
            k = k + 1;
        }
        let ghost dfin = choose|d: Seq<u8>| self.staging() == stag0 + d;
        self.receiver = Some(rx);
        proof {
            assert(stag0 == old(self).staging());
            assert(self.staging() == old(self).staging() + dfin);
        }
    }

    /// Take every byte currently in hand, leaving the buffers empty. Does
    /// not touch the channel.
    pub fn read_now(&mut self) -> (r: Vec<u8>)
        requires
            old(self).wf(),
        ensures
            final(self).wf(),
            r@ == old(self).buffered(),
            final(self).buffered() == Seq::<u8>::empty(),
            final(self).prebuf() == Seq::<u8>::empty(),
            final(self).staging() == Seq::<u8>::empty(),
            final(self).ended() == old(self).ended(),
            final(self).terminated() == old(self).terminated(),
            final(self).channel_live() == old(self).channel_live(),
    {
        let mut out: Vec<u8> = Vec::new();
        match self.binary.take() {
            Some(b) => {
                let mut v = b.copy_vec();
                out.append(&mut v);
            },
            None => {},
        }
        match self.binary_mut.take() {
            Some(b) => {
                let mut v = b.copy_vec();
                out.append(&mut v);
            },
            None => {},
        }
        proof {
            assert(out@ =~= old(self).buffered());
            assert(self.buffered() =~= Seq::<u8>::empty());
        }
        out
    }

    /// View every byte currently in hand without consuming anything.
    pub fn copy_now(&self) -> (r: Vec<u8>)
        requires
            self.wf(),
        ensures
            r@ == self.buffered(),
    {
        let mut out: Vec<u8> = Vec::new();
        match &self.binary {
            Some(b) => {
                let mut v = b.copy_vec();
                out.append(&mut v);
            },
            None => {},
        }
        match &self.binary_mut {
            Some(b) => {
                let mut v = b.copy_vec();
                out.append(&mut v);
            },
            None => {},
        }
        proof {
            assert(out@ =~= self.buffered());
        }
        out
    }

    /// Freeze every byte in hand into one payload.
    pub fn binary(&mut self) -> (r: Vec<u8>)
        requires
            old(self).wf(),
        ensures
            final(self).wf(),
            r@ == old(self).buffered(),
            final(self).buffered() == Seq::<u8>::empty(),
            final(self).ended() == old(self).ended(),
            final(self).terminated() == old(self).terminated(),
            final(self).channel_live() == old(self).channel_live(),
    {
        self.read_now()
    }

    /// Encode everything available right now into `out`: first drain the
    /// channel without blocking, then write the bytes in hand, framed as
    /// chunked blocks when `is_chunked`. When the end of the body has been
    /// observed and `is_chunked` holds, the zero-length terminator block is
    /// written, exactly once over the life of the stream. Returns how many
    /// bytes were written.
    pub fn poll_encode(&mut self, out: &mut BinaryMut, is_chunked: bool) -> (n: usize)
        requires
            old(self).wf(),
            old(out).wf(),
        ensures
            final(self).wf(),
            final(out).wf(),
            final(self).buffered() == Seq::<u8>::empty(),
            final(self).channel_live() == old(self).channel_live(),
            old(self).ended() ==> final(self).ended(),
            final(self).terminated() == (old(self).terminated() || (is_chunked
                && final(self).ended())),
            exists|delta: Seq<u8>|
                {
                    &&& (old(self).ended() ==> delta == Seq::<u8>::empty())
                    &&& final(out)@ == old(out)@ + encode_payload(
                        old(self).prebuf(),
                        old(self).staging() + delta,
                        is_chunked,
                    ) + (if is_chunked && final(self).ended() && !old(self).terminated() {
                        chunk_terminator()
                    } else {
                        Seq::<u8>::empty()
                    })
                },
            (is_chunked && final(self).ended() && !old(self).terminated()) ==> ends_with(
                final(out)@,
                chunk_terminator(),
            ),
            n == final(out)@.len() - old(out)@.len(),
    {
        let n0 = out.remaining();
        self.try_recv();
        let ghost delta = choose|d: Seq<u8>| self.staging() == old(self).staging() + d;
        let ghost stag1 = self.staging();
        let pb = match self.binary.take() {
            Some(b) => {
                let mut b = b;
                b.take_vec()
            },
            None => Vec::new(),
        };
        if pb.len() > 0 {
            if is_chunked {
                encode_chunk_data(out, pb.as_slice());
            } else {
                out.put_vec(&pb);
            }
        }
        let sb = match self.binary_mut.take() {
            Some(b) => {
                let mut b = b;
                b.take_vec()
            },
            None => Vec::new(),
        };
        if sb.len() > 0 {
            if is_chunked {
                encode_chunk_data(out, sb.as_slice());
            } else {
                out.put_vec(&sb);
            }
        }
        proof {
            assert(pb@ == old(self).prebuf());
            assert(sb@ == stag1);
            assert(out@ =~= old(out)@ + encode_payload(old(self).prebuf(), stag1, is_chunked));
        }
        if is_chunked && self.is_end && !self.chunk_ended {
            let e: Vec<u8> = Vec::new();
            encode_chunk_data(out, e.as_slice());
            self.chunk_ended = true;
            proof {
                assert(out@ =~= old(out)@ + encode_payload(
                    old(self).prebuf(),
                    stag1,
                    is_chunked,
                ) + chunk_terminator());
                crate::chunked::lemma_append_ends_with(
                    old(out)@ + encode_payload(old(self).prebuf(), stag1, is_chunked),
                    chunk_terminator(),
                );
            }
        } else {
            proof {
                assert(out@ =~= old(out)@ + encode_payload(
                    old(self).prebuf(),
                    stag1,
                    is_chunked,
                ) + Seq::<u8>::empty());
            }
        }
        proof {
            assert(self.buffered() =~= Seq::<u8>::empty());
            assert(old(self).ended() ==> delta =~= Seq::<u8>::empty());
        }
        let n1 = out.remaining();
        n1 - n0
    }
}

} // verus!
