//! The per-stream HTTP/2 response encoder: first the header frame (or a
//! PUSH_PROMISE, after which the data belongs to the promised stream), then
//! DATA frames as body bytes become available, the last one carrying
//! END_STREAM.

use vstd::prelude::*;
use crate::buffer::BinaryMut;
use crate::frame::Frame;
use crate::message::{Method, RecvResponse};

verus! {

/// Two header lists carry the same fields in the same order.
pub open spec fn headers_eqv(a: Seq<(Vec<u8>, Vec<u8>)>, b: Seq<(Vec<u8>, Vec<u8>)>) -> bool {
    &&& a.len() == b.len()
    &&& forall|i: int|
        0 <= i < a.len() ==> (#[trigger] a[i]).0@ == b[i].0@ && a[i].1@ == b[i].1@
}

/// An exact copy of a byte string.
fn clone_bytes(b: &Vec<u8>) -> (r: Vec<u8>)
    ensures
        r@ == b@,
{
    let mut r: Vec<u8> = Vec::new();
    let mut i: usize = 0;
    while i < b.len()
        invariant
            i <= b@.len(),
            r@ == b@.take(i as int),
        decreases b@.len() - i,
    {
        r.push(b[i]);
        proof {
            assert(r@ =~= b@.take(i + 1));
        }
        i = i + 1;
    }
    proof {
        assert(b@.take(b@.len() as int) =~= b@);
    }
    r
}

/// An exact copy of a header list.
fn clone_headers(hs: &Vec<(Vec<u8>, Vec<u8>)>) -> (r: Vec<(Vec<u8>, Vec<u8>)>)
    ensures
        headers_eqv(r@, hs@),
{
    let mut r: Vec<(Vec<u8>, Vec<u8>)> = Vec::new();
    let mut i: usize = 0;
    while i < hs.len()
        invariant
            i <= hs@.len(),
            r@.len() == i,
            forall|t: int|
                0 <= t < i ==> (#[trigger] r@[t]).0@ == hs@[t].0@ && r@[t].1@ == hs@[t].1@,
        decreases hs@.len() - i,
    {
        let name = clone_bytes(&hs[i].0);
        let value = clone_bytes(&hs[i].1);
        r.push((name, value));
        i = i + 1;
    }
    r
}

/// One outgoing HTTP/2 response and its encoding progress.
pub struct SendResponse {
    /// the stream the next frame goes out on
    pub stream_id: u32,
    /// for server push: the promised stream the body will belong to
    pub push_id: Option<u32>,
    pub response: RecvResponse,
    pub encode_header: bool,
    pub encode_body: bool,
    pub is_end_stream: bool,
    /// the originating request's method, kept to suppress bodies a HEAD
    /// response must not carry
    pub method: Method,
}

impl SendResponse {
    pub open spec fn wf(&self) -> bool {
        self.response.body.wf()
    }

    pub fn new(
        stream_id: u32,
        push_id: Option<u32>,
        response: RecvResponse,
        method: Method,
        is_end_stream: bool,
    ) -> (r: SendResponse)
        requires
            response.wf(),
        ensures
            r.wf(),
            r.stream_id == stream_id,
            r.push_id == push_id,
            r.response == response,
            !r.encode_header,
            !r.encode_body,
            r.is_end_stream == is_end_stream,
            r.method == method,
    {
        SendResponse {
            stream_id,
            push_id,
            response,
            encode_header: false,
            encode_body: false,
            is_end_stream,
            method,
        }
    }

    /// Produce the next batch of frames for this response: the header frame
    /// once (a PUSH_PROMISE re-points the stream at the promised one), then
    /// a DATA frame for whatever body bytes are available now, carrying
    /// END_STREAM exactly when the body is exhausted. Returns whether the
    /// stream is finished, and the frames.
    pub fn encode_frames(&mut self) -> (r: (bool, Vec<Frame>))
        requires
            old(self).wf(),
        ensures
            final(self).wf(),
            final(self).encode_header,
            final(self).encode_body,
            final(self).push_id == old(self).push_id,
            final(self).method == old(self).method,
            final(self).response.status == old(self).response.status,
            final(self).response.body.buffered() == Seq::<u8>::empty(),
            r.0 == final(self).is_end_stream,
            old(self).response.body.ended() ==> final(self).response.body.ended(),
            final(self).stream_id == (if !old(self).encode_header && old(
                self,
            ).push_id is Some {
                old(self).push_id->0
            } else {
                old(self).stream_id
            }),
            old(self).encode_header ==> r.1@.len() <= 1,
            !old(self).encode_header && old(self).push_id is Some ==> r.1@.len() >= 1 && (
            r.1@[0] matches Frame::PushPromise { stream_id, promised_id, status, fields } && {
                &&& stream_id == old(self).stream_id
                &&& promised_id == old(self).push_id->0
                &&& status == old(self).response.status
                &&& headers_eqv(fields@, old(self).response.headers@)
            }),
            !old(self).encode_header && old(self).push_id is None ==> r.1@.len() >= 1 && (
            r.1@[0] matches Frame::Headers { stream_id, status, end_headers, end_stream, fields
            } && {
                &&& stream_id == old(self).stream_id
                &&& status == old(self).response.status
                &&& end_headers
                &&& !end_stream
                &&& headers_eqv(fields@, old(self).response.headers@)
            }),
            ({
                let base: int = if old(self).encode_header {
                    0
                } else {
                    1
                };
                &&& (r.1@.len() == base || r.1@.len() == base + 1)
                &&& (r.1@.len() == base + 1 ==> (
                r.1@[base] matches Frame::Data { stream_id, payload: data, end_stream } && {
                    &&& stream_id == final(self).stream_id
                    &&& old(self).response.body.buffered().is_prefix_of(data@)
                    &&& (old(self).response.body.ended() ==> data@ == old(
                        self,
                    ).response.body.buffered())
                    &&& data@.len() > 0
                    &&& end_stream == final(self).is_end_stream
                    &&& final(self).is_end_stream == final(self).response.body.ended()
                }))
                &&& (r.1@.len() == base ==> old(self).response.body.buffered().len() == 0
                    && final(self).is_end_stream == old(self).is_end_stream)
            }),
    {
        let mut result: Vec<Frame> = Vec::new();
        if !self.encode_header {
            let fields = clone_headers(&self.response.headers);
            match self.push_id {
                Some(push_id) => {
                    result.push(
                        Frame::PushPromise {
                            stream_id: self.stream_id,
                            promised_id: push_id,
                            status: self.response.status,
                            fields,
                        },
                    );
                    self.stream_id = push_id;
                    self.encode_header = true;
                },
                None => {
                    result.push(
                        Frame::Headers {
                            stream_id: self.stream_id,
                            status: self.response.status,
                            end_headers: true,
                            end_stream: false,
                            fields,
                        },
                    );
                    self.encode_header = true;
                },
            }
        }
        self.encode_body = true;
        let ghost body_pre = self.response.body;
        let mut scratch = BinaryMut::new();
        let _ = self.response.body.poll_encode(&mut scratch, false);
        let ghost d = choose|delta: Seq<u8>|
            {
                &&& (body_pre.ended() ==> delta == Seq::<u8>::empty())
                &&& scratch@ == Seq::<u8>::empty() + crate::recv_stream::encode_payload(
                    body_pre.prebuf(),
                    body_pre.staging() + delta,
                    false,
                ) + Seq::<u8>::empty()
            };
        proof {
            assert(body_pre.prebuf() + (body_pre.staging() + d) =~= (body_pre.prebuf()
                + body_pre.staging()) + d);
            assert(scratch@ == body_pre.buffered() + d);
        }
        let ghost base_frames = result@;
        if scratch.remaining() > 0 {
            self.is_end_stream = self.response.body.is_end();
            let end_stream = self.is_end_stream;
            let payload = scratch.take_vec();
            let stream_id = self.stream_id;
            proof {
                assert(payload@ == old(self).response.body.buffered() + d);
            }
            result.push(Frame::Data { stream_id, payload, end_stream });
            proof {
                assert(result@[base_frames.len() as int] matches Frame::Data {
                    stream_id: s,
                    payload: p,
                    end_stream: e,
                } && s == self.stream_id && p@ == old(self).response.body.buffered() + d && e
                    == self.is_end_stream);
            }
        } else {
            proof {
                assert((old(self).response.body.buffered() + d).len() == 0);
            }
        }
        (self.is_end_stream, result)
    }
}

} // verus!
