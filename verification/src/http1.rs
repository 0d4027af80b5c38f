//! The per-connection HTTP/1 I/O buffer: a read buffer fed with socket
//! bytes, a write buffer drained to the socket, and the assembly state
//! machine in between. One outbound message at a time is serialised into the
//! write buffer; inbound bytes are parsed into messages whose bodies are
//! forwarded, chunk by chunk, into the attached `RecvStream`. The 24-byte
//! HTTP/2 client preface at the start of a connection converts it.

use vstd::prelude::*;
use crate::buffer::BinaryMut;
use crate::recv_stream::{RecvStream, encode_payload, channel_pair, channel_try_send};
use crate::message::{Method, RecvRequest, RecvResponse, OutRequest, ClientResponse,
    response_head, request_head, encode_response_head, encode_request_head};
use crate::error::ProtError;
use crate::parsing;
use crate::parsing::{req_parse_complete, req_parse_partial, req_head_size,
    req_head_keep_alive, req_head_body_len, req_head_nobody, resp_parse_complete,
    resp_parse_partial, resp_head_size, resp_head_status, resp_head_body_len};
use crate::chunked::chunk_terminator;

verus! {

/// The 24-byte HTTP/2 client connection preface: `PRI * HTTP/2.0\r\n\r\nSM\r\n\r\n`.
pub open spec fn h2_preface() -> Seq<u8> {
    seq![
        80u8, 82u8, 73u8, 32u8, 42u8, 32u8, 72u8, 84u8, 84u8, 80u8, 47u8, 50u8, 46u8, 48u8,
        13u8, 10u8, 13u8, 10u8, 83u8, 77u8, 13u8, 10u8, 13u8, 10u8,
    ]
}

/// The bytes start with the full HTTP/2 client preface.
pub open spec fn preface_at(bytes: Seq<u8>) -> bool {
    bytes.len() >= 24 && bytes.take(24) == h2_preface()
}

fn preface_vec() -> (v: Vec<u8>)
    ensures
        v@ == h2_preface(),
{
    let mut v: Vec<u8> = Vec::new();
    v.push(80);
    v.push(82);
    v.push(73);
    v.push(32);
    v.push(42);
    v.push(32);
    v.push(72);
    v.push(84);
    v.push(84);
    v.push(80);
    v.push(47);
    v.push(50);
    v.push(46);
    v.push(48);
    v.push(13);
    v.push(10);
    v.push(13);
    v.push(10);
    v.push(83);
    v.push(77);
    v.push(13);
    v.push(10);
    v.push(13);
    v.push(10);
    proof {
        assert(v@ =~= h2_preface());
    }
    v
}

/// How one `receive_body_len` call lowers the remaining declared length.
pub open spec fn consume_step(left: nat, n: nat) -> nat {
    if left <= n {
        0
    } else {
        (left - n) as nat
    }
}

/// The remaining declared length after a run of calls.
pub open spec fn consume_chain(left: nat, ns: Seq<nat>) -> nat
    decreases ns.len(),
{
    if ns.len() == 0 {
        left
    } else {
        consume_chain(consume_step(left, ns[0]), ns.drop_first())
    }
}

pub open spec fn seq_sum(ns: Seq<nat>) -> nat
    decreases ns.len(),
{
    if ns.len() == 0 {
        0
    } else {
        ns[0] + seq_sum(ns.drop_first())
    }
}

pub open spec fn min_nat(a: nat, b: nat) -> nat {
    if a <= b {
        a
    } else {
        b
    }
}

/// Conservation of the declared body length: over any run of
/// `receive_body_len` calls, the bytes accounted against the declared length
/// are exactly the smaller of what was passed in and what was declared.
pub proof fn lemma_receive_conservation(declared: nat, ns: Seq<nat>)
    ensures
        declared - consume_chain(declared, ns) == min_nat(seq_sum(ns), declared),
    decreases ns.len(),
{
    if ns.len() > 0 {
        lemma_receive_conservation(consume_step(declared, ns[0]), ns.drop_first());
    }
}

/// An outbound message staged for the write buffer: its serialised head, the
/// chunked flag, and its streaming body.
struct OutMessage {
    head: Vec<u8>,
    is_chunked: bool,
    body: RecvStream,
}

/// The connection-level state around the two buffers.
pub struct ConnectionInfo {
    deal_req: usize,
    read_sender: Option<tokio::sync::mpsc::Sender<(bool, Vec<u8>)>>,
    res: Option<OutMessage>,
    req: Option<OutMessage>,
    is_keep_alive: bool,
    is_send_body: bool,
    is_send_header: bool,
    is_build_req: bool,
    is_send_end: bool,
    left_body_len: usize,
    surfaced: Ghost<nat>,
    accepted: Ghost<nat>,
    done: Ghost<nat>,
}

impl ConnectionInfo {
    /// The outbound message is fully sent and the peer did not ask to keep
    /// the connection: close once the write buffer drains.
    pub fn is_active_close(&self) -> (r: bool)
        ensures
            r == (self.send_end_spec() && !self.keep_alive_spec()),
    {
        self.is_send_end && !self.is_keep_alive
    }

    pub closed spec fn send_end_spec(&self) -> bool {
        self.is_send_end
    }

    pub closed spec fn keep_alive_spec(&self) -> bool {
        self.is_keep_alive
    }
}

/// What one poll of the inbound request side produced.
pub enum RequestPoll {
    /// a complete request, body attached
    Ready(RecvRequest),
    /// nothing to surface yet: feed more bytes and poll again
    Pending,
    /// the connection is done: the last response went out and the peer did
    /// not ask to keep it
    Close,
    /// the HTTP/2 client preface was found and consumed: hand the buffers to
    /// the HTTP/2 side
    Upgrade,
    /// the inbound bytes do not parse
    Failed(ProtError),
}

/// What one poll of the inbound response side produced.
pub enum ResponsePoll {
    /// a complete response, body attached
    Ready(ClientResponse),
    /// nothing to surface yet: feed more bytes and poll again
    Pending,
    /// the inbound bytes do not parse
    Failed(ProtError),
}

/// The HTTP/1 I/O buffer pair and its assembly state machine.
pub struct IoBuffer {
    read_buf: BinaryMut,
    write_buf: BinaryMut,
    inner: ConnectionInfo,
}

impl IoBuffer {
    /// The bytes read from the socket and not yet consumed.
    pub closed spec fn read_view(&self) -> Seq<u8> {
        self.read_buf@
    }

    /// The bytes staged for the socket and not yet written.
    pub closed spec fn write_view(&self) -> Seq<u8> {
        self.write_buf@
    }

    /// How many inbound messages have been surfaced to the caller.
    pub closed spec fn surfaced(&self) -> nat {
        self.inner.surfaced@
    }

    /// How many outbound messages have been accepted from the caller.
    pub closed spec fn accepted(&self) -> nat {
        self.inner.accepted@
    }

    /// How many outbound messages have been fully serialised.
    pub closed spec fn done_count(&self) -> nat {
        self.inner.done@
    }

    pub closed spec fn res_in_flight(&self) -> bool {
        self.inner.res is Some
    }

    pub closed spec fn req_in_flight(&self) -> bool {
        self.inner.req is Some
    }

    /// Whether an outbound message is currently being serialised.
    pub open spec fn out_in_flight(&self) -> bool {
        self.res_in_flight() || self.req_in_flight()
    }

    /// The serialised head of the in-flight outbound message.
    pub closed spec fn out_head(&self) -> Seq<u8> {
        if self.inner.res is Some {
            self.inner.res->0.head@
        } else if self.inner.req is Some {
            self.inner.req->0.head@
        } else {
            Seq::<u8>::empty()
        }
    }

    pub closed spec fn out_chunked(&self) -> bool {
        if self.inner.res is Some {
            self.inner.res->0.is_chunked
        } else if self.inner.req is Some {
            self.inner.req->0.is_chunked
        } else {
            false
        }
    }

    /// The body of the in-flight outbound message.
    pub closed spec fn out_body(&self) -> RecvStream {
        if self.inner.res is Some {
            self.inner.res->0.body
        } else if self.inner.req is Some {
            self.inner.req->0.body
        } else {
            vstd::pervasive::arbitrary()
        }
    }

    /// Whether the in-flight message's head is already in the write buffer.
    pub closed spec fn header_sent(&self) -> bool {
        self.inner.is_send_header
    }

    pub closed spec fn build_req(&self) -> bool {
        self.inner.is_build_req
    }

    pub closed spec fn keep_alive(&self) -> bool {
        self.inner.is_keep_alive
    }

    pub closed spec fn send_end(&self) -> bool {
        self.inner.is_send_end
    }

    /// The outbound message is done and the connection will not be kept.
    pub open spec fn active_close(&self) -> bool {
        self.send_end() && !self.keep_alive()
    }

    /// The remaining declared length of the inbound body being forwarded.
    pub closed spec fn left_body(&self) -> nat {
        self.inner.left_body_len as nat
    }

    /// Whether a producer endpoint for the inbound body is installed.
    pub closed spec fn sender_live(&self) -> bool {
        self.inner.read_sender is Some
    }

    pub closed spec fn wf(&self) -> bool {
        &&& self.read_buf.wf()
        &&& self.write_buf.wf()
        &&& (self.inner.res is Some ==> self.inner.res->0.body.wf())
        &&& (self.inner.req is Some ==> self.inner.req->0.body.wf())
        &&& !(self.inner.res is Some && self.inner.req is Some)
        &&& self.inner.accepted@ == self.inner.done@ + (if self.out_in_flight() {
            1nat
        } else {
            0nat
        })
        &&& self.inner.surfaced@ <= self.inner.done@ + 1
        &&& (!self.inner.is_build_req ==> self.inner.surfaced@ <= self.inner.done@)
        &&& (self.inner.is_send_end ==> !self.out_in_flight())
        &&& (self.inner.is_send_end ==> !self.inner.is_build_req)
        &&& self.inner.deal_req as nat == self.inner.done@
        &&& (self.out_in_flight() && self.inner.is_send_body ==> !self.out_body().ended())
        &&& (!self.out_in_flight() ==> !self.inner.is_send_header)
    }

    /// A fresh connection buffer: nothing read, nothing staged, no message
    /// in flight, no declared body length.
    pub fn new() -> (r: IoBuffer)
        ensures
            r.wf(),
            r.read_view() == Seq::<u8>::empty(),
            r.write_view() == Seq::<u8>::empty(),
            r.surfaced() == 0,
            r.accepted() == 0,
            r.done_count() == 0,
            !r.out_in_flight(),
            !r.build_req(),
            !r.keep_alive(),
            !r.send_end(),
            r.left_body() == usize::MAX,
            !r.sender_live(),
    {
        IoBuffer {
            read_buf: BinaryMut::new(),
            write_buf: BinaryMut::new(),
            inner: ConnectionInfo {
                deal_req: 0,
                read_sender: None,
                res: None,
                req: None,
                is_keep_alive: false,
                is_send_body: false,
                is_send_header: false,
                is_build_req: false,
                is_send_end: false,
                left_body_len: usize::MAX,
                surfaced: Ghost(0nat),
                accepted: Ghost(0nat),
                done: Ghost(0nat),
            },
        }
    }

    /// Hand socket bytes to the read buffer.
    pub fn feed_read(&mut self, bytes: &[u8])
        requires
            old(self).wf(),
        ensures
            final(self).wf(),
            final(self).read_view() == old(self).read_view() + bytes@,
            final(self).write_view() == old(self).write_view(),
            final(self).surfaced() == old(self).surfaced(),
            final(self).accepted() == old(self).accepted(),
            final(self).done_count() == old(self).done_count(),
            final(self).build_req() == old(self).build_req(),
            final(self).send_end() == old(self).send_end(),
            final(self).keep_alive() == old(self).keep_alive(),
            final(self).left_body() == old(self).left_body(),
    {
        self.read_buf.put_slice(bytes);
    }

    /// Look at the bytes staged for the socket.
    pub fn write_pending(&self) -> (v: Vec<u8>)
        requires
            self.wf(),
        ensures
            v@ == self.write_view(),
    {
        self.write_buf.copy_vec()
    }

    /// Drop the first `n` staged bytes, after they were written out.
    pub fn consume_written(&mut self, n: usize)
        requires
            old(self).wf(),
            n <= old(self).write_view().len(),
        ensures
            final(self).wf(),
            final(self).write_view() == old(self).write_view().skip(n as int),
            final(self).read_view() == old(self).read_view(),
            final(self).surfaced() == old(self).surfaced(),
            final(self).accepted() == old(self).accepted(),
            final(self).done_count() == old(self).done_count(),
            final(self).build_req() == old(self).build_req(),
            final(self).send_end() == old(self).send_end(),
            final(self).keep_alive() == old(self).keep_alive(),
            final(self).left_body() == old(self).left_body(),
    {
        self.write_buf.advance(n);
    }

    /// Delegate of `ConnectionInfo::is_active_close`.
    pub fn is_active_close(&self) -> (r: bool)
        ensures
            r == self.active_close(),
    {
        self.inner.is_active_close()
    }

    pub fn deal_req(&self) -> (n: usize)
        requires
            self.wf(),
        ensures
            n == self.done_count(),
    {
        self.inner.deal_req
    }

    pub fn left_body_len(&self) -> (n: usize)
        ensures
            n == self.left_body(),
    {
        self.inner.left_body_len
    }

    /// Account `body_len` inbound body bytes against the declared length;
    /// reports whether the body is now complete. The declared remainder
    /// falls by exactly the smaller of the two.
    pub fn receive_body_len(&mut self, body_len: usize) -> (end: bool)
        requires
            old(self).wf(),
        ensures
            final(self).wf(),
            end == (old(self).left_body() <= body_len),
            final(self).left_body() == consume_step(old(self).left_body(), body_len as nat),
            final(self).read_view() == old(self).read_view(),
            final(self).write_view() == old(self).write_view(),
            final(self).surfaced() == old(self).surfaced(),
            final(self).accepted() == old(self).accepted(),
            final(self).done_count() == old(self).done_count(),
            final(self).build_req() == old(self).build_req(),
            final(self).send_end() == old(self).send_end(),
            final(self).keep_alive() == old(self).keep_alive(),
            final(self).sender_live() == old(self).sender_live(),
            final(self).out_in_flight() == old(self).out_in_flight(),
    {
        if self.inner.left_body_len <= body_len {
            self.inner.left_body_len = 0;
            true
        } else {
            self.inner.left_body_len = self.inner.left_body_len - body_len;
            false
        }
    }

    /// Tear the buffer pair out for an ownership transfer, as when the
    /// connection upgrades to HTTP/2: the unconsumed read bytes and unsent
    /// write bytes survive unchanged.
    pub fn into(self) -> (r: (BinaryMut, BinaryMut))
        requires
            self.wf(),
        ensures
            r.0.wf(),
            r.1.wf(),
            r.0@ == self.read_view(),
            r.1@ == self.write_view(),
    {
        (self.read_buf, self.write_buf)
    }

    /// Accept a response as the one outbound message in flight. Only a
    /// surfaced and still unanswered request may be answered.
    pub fn send_response(&mut self, res: RecvResponse) -> (r: Result<(), ProtError>)
        requires
            old(self).wf(),
            res.wf(),
            old(self).accepted() < old(self).surfaced(),
        ensures
            final(self).wf(),
            r is Ok,
            final(self).accepted() == old(self).accepted() + 1,
            final(self).surfaced() == old(self).surfaced(),
            final(self).done_count() == old(self).done_count(),
            final(self).read_view() == old(self).read_view(),
            final(self).write_view() == old(self).write_view(),
            final(self).res_in_flight(),
            !final(self).req_in_flight(),
            final(self).out_head() == response_head(res.status, res.headers@, res.is_chunked),
            final(self).out_chunked() == res.is_chunked,
            final(self).out_body() == res.body,
            !final(self).header_sent(),
            !final(self).send_end(),
            final(self).build_req() == old(self).build_req(),
            final(self).keep_alive() == old(self).keep_alive(),
            final(self).left_body() == old(self).left_body(),
            final(self).sender_live() == old(self).sender_live(),
    {
        let head = encode_response_head(res.status, &res.headers, res.is_chunked);
        self.inner.res = Some(OutMessage { head, is_chunked: res.is_chunked, body: res.body });
        self.inner.is_send_header = false;
        self.inner.is_send_body = false;
        self.inner.is_send_end = false;
        self.inner.accepted = Ghost(self.inner.accepted@ + 1);
        Ok(())
    }

    /// Accept a request as the one outbound message in flight, for the
    /// client side of a connection.
    pub fn send_request(&mut self, req: OutRequest) -> (r: Result<(), ProtError>)
        requires
            old(self).wf(),
            req.wf(),
            old(self).accepted() == old(self).done_count(),
        ensures
            final(self).wf(),
            r is Ok,
            final(self).accepted() == old(self).accepted() + 1,
            final(self).surfaced() == old(self).surfaced(),
            final(self).done_count() == old(self).done_count(),
            final(self).read_view() == old(self).read_view(),
            final(self).write_view() == old(self).write_view(),
            final(self).req_in_flight(),
            !final(self).res_in_flight(),
            final(self).out_head() == request_head(req.method, req.path@, req.headers@,
                req.is_chunked),
            final(self).out_chunked() == req.is_chunked,
            final(self).out_body() == req.body,
            !final(self).header_sent(),
            !final(self).send_end(),
            final(self).build_req() == old(self).build_req(),
            final(self).keep_alive() == old(self).keep_alive(),
            final(self).left_body() == old(self).left_body(),
            final(self).sender_live() == old(self).sender_live(),
    {
        let head = encode_request_head(req.method, &req.path, &req.headers, req.is_chunked);
        self.inner.req = Some(OutMessage { head, is_chunked: req.is_chunked, body: req.body });
        self.inner.is_send_header = false;
        self.inner.is_send_body = false;
        self.inner.is_send_end = false;
        self.inner.accepted = Ghost(self.inner.accepted@ + 1);
        Ok(())
    }

    /// Run the outbound state machine once: stage the head if it is not yet
    /// staged, encode whatever body bytes are available, and when the body
    /// reports its end, count the message as dealt with and clear the
    /// in-flight slot. Returns how many bytes were staged.
    pub fn poll_write(&mut self) -> (n: usize)
        requires
            old(self).wf(),
            old(self).done_count() < usize::MAX,
        ensures
            final(self).wf(),
            final(self).read_view() == old(self).read_view(),
            final(self).surfaced() == old(self).surfaced(),
            final(self).accepted() == old(self).accepted(),
            final(self).keep_alive() == old(self).keep_alive(),
            final(self).left_body() == old(self).left_body(),
            final(self).sender_live() == old(self).sender_live(),
            !old(self).out_in_flight() ==> {
                &&& final(self).write_view() == old(self).write_view()
                &&& final(self).done_count() == old(self).done_count()
                &&& !final(self).out_in_flight()
                &&& final(self).send_end() == old(self).send_end()
                &&& final(self).build_req() == old(self).build_req()
            },
            old(self).out_in_flight() ==> {
                &&& old(self).done_count() <= final(self).done_count() <= old(self).done_count()
                    + 1
                &&& (final(self).out_in_flight() <==> final(self).done_count() == old(self).done_count())
                &&& (final(self).send_end() <==> final(self).done_count() == old(self).done_count() + 1)
                &&& (final(self).done_count() == old(self).done_count() + 1 ==> !final(self).build_req())
                &&& (final(self).done_count() == old(self).done_count() ==> final(self).build_req() == old(self).build_req())
                &&& (final(self).out_in_flight() ==> final(self).header_sent())
                &&& final(self).keep_alive() == old(self).keep_alive()
            },
            old(self).out_in_flight() ==> exists|delta: Seq<u8>|
                {
                    &&& (old(self).out_body().ended() ==> delta == Seq::<u8>::empty())
                    &&& final(self).write_view() == old(self).write_view() + (if old(self).header_sent() {
                        Seq::<u8>::empty()
                    } else {
                        old(self).out_head()
                    }) + encode_payload(
                        old(self).out_body().prebuf(),
                        old(self).out_body().staging() + delta,
                        old(self).out_chunked(),
                    ) + (if old(self).out_chunked() && final(self).done_count() == old(self).done_count() + 1 && !old(self).out_body().terminated() {
                        chunk_terminator()
                    } else {
                        Seq::<u8>::empty()
                    })
                },
            n == final(self).write_view().len() - old(self).write_view().len(),
    {
        let w0 = self.write_buf.remaining();
        let picked: Option<(OutMessage, bool)> = match self.inner.res.take() {
            Some(m) => Some((m, true)),
            None => match self.inner.req.take() {
                Some(m) => Some((m, false)),
                None => None,
            },
        };
        match picked {
            None => {
                let w1 = self.write_buf.remaining();
                w1 - w0
            },
            Some((msg, is_res)) => {
                let mut msg = msg;
                let ghost hdr_sent0 = self.inner.is_send_header;
                if !self.inner.is_send_header {
                    self.write_buf.put_vec(&msg.head);
                    self.inner.is_send_header = true;
                }
                let ghost wpre = self.write_buf@;
                let ghost bpre = msg.body;
                let _ = msg.body.poll_encode(&mut self.write_buf, msg.is_chunked);
                let ghost ended_post = msg.body.ended();
                self.inner.is_send_body = true;
                if msg.body.is_end() {
                    self.inner.is_send_end = true;
                    self.inner.deal_req = self.inner.deal_req + 1;
                    self.inner.done = Ghost(self.inner.done@ + 1);
                    self.inner.is_build_req = false;
                    self.inner.is_send_header = false;
                } else {
                    if is_res {
                        self.inner.res = Some(msg);
                    } else {
                        self.inner.req = Some(msg);
                    }
                }
                proof {
                    let d = choose|delta: Seq<u8>|
                        {
                            &&& (bpre.ended() ==> delta == Seq::<u8>::empty())
                            &&& self.write_buf@ == wpre + encode_payload(
                                bpre.prebuf(),
                                bpre.staging() + delta,
                                old(self).out_chunked(),
                            ) + (if old(self).out_chunked() && ended_post
                                && !bpre.terminated() {
                                chunk_terminator()
                            } else {
                                Seq::<u8>::empty()
                            })
                        };
                    assert(bpre == old(self).out_body());
                    assert(old(self).out_body().ended() ==> d == Seq::<u8>::empty());
                    assert(wpre =~= old(self).write_view() + (if old(self).header_sent() {
                        Seq::<u8>::empty()
                    } else {
                        old(self).out_head()
                    }));
                    assert((ended_post) == (self.done_count() == old(self).done_count() + 1));
                    assert(self.write_buf@ =~= old(self).write_view() + (if old(self).header_sent() {
                        Seq::<u8>::empty()
                    } else {
                        old(self).out_head()
                    }) + encode_payload(
                        old(self).out_body().prebuf(),
                        old(self).out_body().staging() + d,
                        old(self).out_chunked(),
                    ) + (if old(self).out_chunked() && self.done_count() == old(self).done_count() + 1 && !old(self).out_body().terminated() {
                        chunk_terminator()
                    } else {
                        Seq::<u8>::empty()
                    }));
                }
                let w1 = self.write_buf.remaining();
                w1 - w0
            },
        }
    }

    /// If the read buffer starts with the full HTTP/2 preface, consume it.
    fn check_preface(&mut self) -> (b: bool)
        requires
            old(self).wf(),
        ensures
            final(self).wf(),
            b == preface_at(old(self).read_view()),
            b ==> final(self).read_view() == old(self).read_view().skip(24),
            !b ==> *final(self) == *old(self),
            final(self).write_view() == old(self).write_view(),
            final(self).surfaced() == old(self).surfaced(),
            final(self).accepted() == old(self).accepted(),
            final(self).done_count() == old(self).done_count(),
            final(self).build_req() == old(self).build_req(),
            final(self).send_end() == old(self).send_end(),
            final(self).keep_alive() == old(self).keep_alive(),
            final(self).left_body() == old(self).left_body(),
            final(self).sender_live() == old(self).sender_live(),
    {
        if self.read_buf.remaining() < 24 {
            return false;
        }
        let p = preface_vec();
        let ghost bytes0 = self.read_view();
        let ghost self0 = *self;
        let mut i: usize = 0;
        while i < 24
            invariant
                *self == self0,
                self0.wf(),
                self.read_view().len() >= 24,
                p@ == h2_preface(),
                i <= 24,
                forall|k: int| 0 <= k < i ==> self.read_view()[k] == h2_preface()[k],
            decreases 24 - i,
        {
            if self.read_buf.get(i) != p[i] {
                proof {
                    assert(self.read_view().take(24)[i as int] == self.read_view()[i as int]);
                    assert(self.read_view().take(24) != h2_preface());
                }
                return false;
            }
            i = i + 1;
        }
        proof {
            assert(self.read_view().take(24) =~= h2_preface());
        }
        self.read_buf.advance(24);
        proof {
            assert(preface_at(bytes0));
        }
        true
    }

    /// Forward the read buffer's bytes to the inbound body's channel, if the
    /// channel has room, accounting them against the declared length; when
    /// the declared length is reached, the producer endpoint is dropped.
    fn ship_body(&mut self)
        requires
            old(self).wf(),
        ensures
            final(self).wf(),
            final(self).write_view() == old(self).write_view(),
            final(self).surfaced() == old(self).surfaced(),
            final(self).accepted() == old(self).accepted(),
            final(self).done_count() == old(self).done_count(),
            final(self).build_req() == old(self).build_req(),
            final(self).send_end() == old(self).send_end(),
            final(self).keep_alive() == old(self).keep_alive(),
            final(self).out_in_flight() == old(self).out_in_flight(),
            (final(self).read_view() == old(self).read_view() && final(self).left_body()
                == old(self).left_body()) || (final(self).read_view() == Seq::<u8>::empty()
                && final(self).left_body() == consume_step(
                old(self).left_body(),
                old(self).read_view().len(),
            )),
    {
        match self.inner.read_sender.take() {
            Some(sender) => {
                let data = self.read_buf.copy_vec();
                let n = data.len();
                let would_end = self.inner.left_body_len <= n;
                if channel_try_send(&sender, would_end, data) {
                    let m = self.read_buf.remaining();
                    self.read_buf.advance(m);
                    let end = self.receive_body_len(n);
                    if !end {
                        self.inner.read_sender = Some(sender);
                    }
                } else {
                    self.inner.read_sender = Some(sender);
                }
            },
            None => {},
        }
    }

    /// Poll for the next inbound request (the server side). The caller runs
    /// `poll_write`, socket writes and socket reads around this; this step
    /// only consumes from the read buffer. When the outbound side is done
    /// and nothing is left to flush on a connection that is not kept, the
    /// connection is reported closed; while a prior message's body is still
    /// being forwarded, no new message is parsed, preserving arrival order;
    /// otherwise the parser's verdict on the buffered bytes decides the
    /// outcome.
    pub fn poll_request(&mut self) -> (r: RequestPoll)
        requires
            old(self).wf(),
        ensures
            final(self).wf(),
            final(self).write_view() == old(self).write_view(),
            final(self).accepted() == old(self).accepted(),
            final(self).done_count() == old(self).done_count(),
            !(r is Ready) ==> final(self).send_end() == old(self).send_end(),
            r is Ready ==> !final(self).send_end(),
            final(self).surfaced() == old(self).surfaced() + (if r is Ready {
                1nat
            } else {
                0nat
            }),
            r is Close <==> old(self).active_close() && old(self).write_view().len() == 0,
            r is Close ==> final(self).read_view() == old(self).read_view(),
            old(self).build_req() ==> (r is Pending || r is Close),
            ({
                let bytes = old(self).read_view();
                let can_work = !(old(self).active_close() && old(self).write_view().len()
                    == 0) && !old(self).build_req();
                &&& (can_work && bytes.len() == 0 ==> r is Pending)
                &&& (can_work && bytes.len() > 0 ==> {
                    &&& (r is Ready <==> req_parse_complete(bytes))
                    &&& (r is Upgrade <==> !req_parse_complete(bytes) && preface_at(bytes))
                    &&& (r is Pending <==> !req_parse_complete(bytes) && !preface_at(bytes)
                        && req_parse_partial(bytes))
                    &&& (r is Failed <==> !req_parse_complete(bytes) && !preface_at(bytes)
                        && !req_parse_partial(bytes))
                })
            }),
            r is Upgrade ==> preface_at(old(self).read_view()) && final(self).read_view()
                == old(self).read_view().skip(24),
            r is Ready ==> final(self).build_req(),
            r is Pending && !old(self).build_req() ==> final(self).read_view() == old(self).read_view() && final(self).left_body() == old(self).left_body(),
            r is Pending && old(self).build_req() ==> (final(self).read_view() == old(self).read_view() && final(self).left_body() == old(self).left_body()) || (final(self).read_view() == Seq::<u8>::empty() && final(self).left_body() == consume_step(
                old(self).left_body(),
                old(self).read_view().len(),
            )),
            r is Failed ==> final(self).read_view() == old(self).read_view(),
            r matches RequestPoll::Ready(req) ==> req.wf() && req.is_keep_alive == final(self).keep_alive() && ({
                let bytes = old(self).read_view();
                let size = req_head_size(bytes) as int;
                &&& 0 <= size <= bytes.len()
                &&& req.is_keep_alive == req_head_keep_alive(bytes)
                &&& req.body_len == req_head_body_len(bytes)
                &&& (req_head_nobody(bytes) ==> {
                    &&& final(self).read_view() == bytes.skip(size)
                    &&& req.body.buffered() == Seq::<u8>::empty()
                    &&& req.body.ended()
                    &&& final(self).left_body() == (if req.body_len == 0 {
                        usize::MAX as int
                    } else {
                        req.body_len as int
                    })
                })
                &&& (!req_head_nobody(bytes) ==> {
                    &&& final(self).read_view() == Seq::<u8>::empty()
                    &&& req.body.buffered() == bytes.skip(size)
                    &&& ({
                        let declared: int = if req.body_len == 0 {
                            usize::MAX as int
                        } else {
                            req.body_len as int
                        };
                        let got: int = bytes.len() - size;
                        &&& req.body.ended() == (declared <= got)
                        &&& final(self).left_body() == (if declared <= got {
                            0int
                        } else {
                            declared - got
                        })
                    })
                })
            }),
    {
        if self.inner.is_send_end && !self.inner.is_keep_alive && self.write_buf.is_empty() {
            return RequestPoll::Close;
        }
        if self.inner.is_build_req {
            self.ship_body();
            return RequestPoll::Pending;
        }
        let bytes = self.read_buf.copy_vec();
        if bytes.len() == 0 {
            return RequestPoll::Pending;
        }
        let mut head = parsing::new_request_head();
        match parsing::parse_request_bytes(&mut head, bytes.as_slice()) {
            parsing::ReqParse::Partial => {
                if self.check_preface() {
                    return RequestPoll::Upgrade;
                }
                RequestPoll::Pending
            },
            parsing::ReqParse::Fail(msg) => {
                if self.check_preface() {
                    return RequestPoll::Upgrade;
                }
                RequestPoll::Failed(ProtError::WebError(msg))
            },
            parsing::ReqParse::Head { size, keep_alive, body_len, nobody } => {
                self.read_buf.advance(size);
                self.inner.is_send_body = false;
                self.inner.is_send_end = false;
                self.inner.is_build_req = true;
                self.inner.is_keep_alive = keep_alive;
                self.inner.left_body_len = if body_len == 0 {
                    usize::MAX
                } else {
                    body_len
                };
                let method = parsing::request_head_method(&head);
                let path = parsing::request_head_path(&head);
                let accept_encoding = parsing::request_accept_encoding(&head);
                let req: RecvRequest;
                if nobody {
                    req = RecvRequest {
                        method,
                        path,
                        is_keep_alive: keep_alive,
                        body_len,
                        accept_encoding,
                        client_ip: None,
                        body: RecvStream::empty(),
                    };
                } else {
                    let (sender, receiver) = channel_pair(30);
                    self.inner.read_sender = Some(sender);
                    let data = self.read_buf.take_vec();
                    let got = data.len();
                    let is_end = self.receive_body_len(got);
                    if is_end {
                        self.inner.read_sender = None;
                    }
                    req = RecvRequest {
                        method,
                        path,
                        is_keep_alive: keep_alive,
                        body_len,
                        accept_encoding,
                        client_ip: None,
                        body: RecvStream::new(receiver, BinaryMut::from_vec(data), is_end),
                    };
                }
                self.inner.surfaced = Ghost(self.inner.surfaced@ + 1);
                proof {
                    let hs: int = size as int;
                    assert(bytes@ == old(self).read_view());
                    assert(0 <= hs <= old(self).read_view().len());
                    if nobody {
                        assert(self.read_view() == old(self).read_view().skip(hs));
                        assert(req.body.buffered() == Seq::<u8>::empty());
                    } else {
                        assert(self.read_view() =~= Seq::<u8>::empty());
                        assert(req.body.buffered() == old(self).read_view().skip(hs));
                    }
                }
                RequestPoll::Ready(req)
            },
        }
    }

    /// Poll for the next inbound response (the client side). While a prior
    /// message's body is still being forwarded, no new message is parsed;
    /// otherwise the parser's verdict on the buffered bytes decides the
    /// outcome.
    pub fn poll_response(&mut self) -> (r: ResponsePoll)
        requires
            old(self).wf(),
        ensures
            final(self).wf(),
            final(self).write_view() == old(self).write_view(),
            final(self).accepted() == old(self).accepted(),
            final(self).done_count() == old(self).done_count(),
            final(self).keep_alive() == old(self).keep_alive(),
            !(r is Ready) ==> final(self).send_end() == old(self).send_end(),
            r is Ready ==> !final(self).send_end(),
            final(self).surfaced() == old(self).surfaced() + (if r is Ready {
                1nat
            } else {
                0nat
            }),
            old(self).build_req() ==> r is Pending,
            ({
                let bytes = old(self).read_view();
                &&& (!old(self).build_req() && bytes.len() == 0 ==> r is Pending)
                &&& (!old(self).build_req() && bytes.len() > 0 ==> {
                    &&& (r is Ready <==> resp_parse_complete(bytes))
                    &&& (r is Pending <==> !resp_parse_complete(bytes) && resp_parse_partial(
                        bytes,
                    ))
                    &&& (r is Failed <==> !resp_parse_complete(bytes) && !resp_parse_partial(
                        bytes,
                    ))
                })
            }),
            r is Ready ==> final(self).build_req(),
            r is Pending && !old(self).build_req() ==> final(self).read_view() == old(self).read_view() && final(self).left_body() == old(self).left_body(),
            r is Pending && old(self).build_req() ==> (final(self).read_view() == old(self).read_view() && final(self).left_body() == old(self).left_body()) || (final(self).read_view() == Seq::<u8>::empty() && final(self).left_body() == consume_step(
                old(self).left_body(),
                old(self).read_view().len(),
            )),
            r is Failed ==> final(self).read_view() == old(self).read_view(),
            r matches ResponsePoll::Ready(res) ==> res.wf() && ({
                let bytes = old(self).read_view();
                let size = resp_head_size(bytes) as int;
                &&& 0 <= size <= bytes.len()
                &&& res.status == resp_head_status(bytes)
                &&& res.body_len == resp_head_body_len(bytes)
                &&& final(self).read_view() == Seq::<u8>::empty()
                &&& res.body.buffered() == bytes.skip(size)
                &&& ({
                    let declared: int = if res.body_len == 0 {
                        usize::MAX as int
                    } else {
                        res.body_len as int
                    };
                    let got: int = bytes.len() - size;
                    &&& res.body.ended() == (declared <= got)
                    &&& final(self).left_body() == (if declared <= got {
                        0int
                    } else {
                        declared - got
                    })
                })
            }),
    {
        if self.inner.is_build_req {
            self.ship_body();
            return ResponsePoll::Pending;
        }
        let bytes = self.read_buf.copy_vec();
        if bytes.len() == 0 {
            return ResponsePoll::Pending;
        }
        match parsing::parse_response_bytes(bytes.as_slice()) {
            parsing::RespParse::Partial => ResponsePoll::Pending,
            parsing::RespParse::Fail(msg) => ResponsePoll::Failed(ProtError::WebError(msg)),
            parsing::RespParse::Head { size, status, body_len } => {
                self.read_buf.advance(size);
                self.inner.is_send_body = false;
                self.inner.is_send_end = false;
                self.inner.is_build_req = true;
                self.inner.left_body_len = if body_len == 0 {
                    usize::MAX
                } else {
                    body_len
                };
                let (sender, receiver) = channel_pair(30);
                self.inner.read_sender = Some(sender);
                let data = self.read_buf.take_vec();
                let got = data.len();
                let is_end = self.receive_body_len(got);
                if is_end {
                    self.inner.read_sender = None;
                }
                let res = ClientResponse {
                    status,
                    body_len,
                    body: RecvStream::new(receiver, BinaryMut::from_vec(data), is_end),
                };
                self.inner.surfaced = Ghost(self.inner.surfaced@ + 1);
                proof {
                    let hs: int = size as int;
                    assert(bytes@ == old(self).read_view());
                    assert(0 <= hs <= old(self).read_view().len());
                    assert(self.read_view() =~= Seq::<u8>::empty());
                    assert(res.body.buffered() == old(self).read_view().skip(hs));
                }
                ResponsePoll::Ready(res)
            },
        }
    }
}

/// At the moment the connection closes, the books are settled: every
/// surfaced request has been answered and every accepted response fully
/// serialised. The hypothesis `accepted <= surfaced` is what server use
/// guarantees: `send_response` only accepts a response for a surfaced,
/// still unanswered request.
pub proof fn lemma_close_settles_all_messages(io: &IoBuffer)
    requires
        io.wf(),
        io.accepted() <= io.surfaced(),
        io.active_close(),
    ensures
        io.surfaced() == io.accepted(),
        io.accepted() == io.done_count(),
        !io.out_in_flight(),
{
}

/// An upgrade consumes exactly the preface: the read buffer before the
/// switch was the preface followed by what remains after it, so the HTTP/2
/// side starts parsing at exactly the surviving bytes.
pub proof fn lemma_upgrade_preserves_bytes(pre: Seq<u8>, post: Seq<u8>)
    requires
        preface_at(pre),
        post == pre.skip(24),
    ensures
        pre == h2_preface() + post,
{
    assert(pre =~= pre.take(24) + pre.skip(24));
}

/// The connection never holds more than one outbound message, and neither
/// direction runs more than one message ahead of the other: every accepted
/// outbound message beyond the fully-serialised ones is the single in-flight
/// one, and at most one inbound message is surfaced beyond those answered.
pub proof fn lemma_message_balance(io: &IoBuffer)
    requires
        io.wf(),
    ensures
        !(io.res_in_flight() && io.req_in_flight()),
        io.done_count() <= io.accepted() <= io.done_count() + 1,
        io.surfaced() <= io.done_count() + 1,
{
}

} // verus!
