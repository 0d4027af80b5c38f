//! The message model the pipeline works on: the request fields the state
//! machine interprets, the outbound response, and the exact byte-level
//! serialisation of HTTP/1.1 message heads.

use vstd::prelude::*;
use crate::recv_stream::RecvStream;
use crate::chunked::crlf;

verus! {

/// The request method, as far as the pipeline cares about it.
#[derive(Clone, Copy, Debug, PartialEq, Eq, Structural)]
pub enum Method {
    Get,
    Post,
    Head,
    Options,
    Put,
    Delete,
    Connect,
    Patch,
    Trace,
    Other,
}

/// Methods whose requests carry no body.
pub open spec fn method_forbids_body(m: Method) -> bool {
    m is Get || m is Head || m is Options || m is Connect
}

impl Method {
    pub fn is_nobody(&self) -> (r: bool)
        ensures
            r == method_forbids_body(*self),
    {
        match self {
            Method::Get => true,
            Method::Head => true,
            Method::Options => true,
            Method::Connect => true,
            _ => false,
        }
    }
}

/// An inbound request: the fields the connection machinery interprets, plus
/// the streaming body.
pub struct RecvRequest {
    pub method: Method,
    pub path: String,
    pub is_keep_alive: bool,
    /// declared `Content-Length`; 0 means none was declared
    pub body_len: usize,
    /// the raw `Accept-Encoding` value, if the request carried one
    pub accept_encoding: Option<Vec<u8>>,
    /// the peer's address, filled in by the dispatcher for the operator
    pub client_ip: Option<String>,
    pub body: RecvStream,
}

impl RecvRequest {
    pub open spec fn wf(&self) -> bool {
        self.body.wf()
    }
}

/// An outbound response: status, header fields as raw byte pairs, whether
/// the body goes out chunked, and the streaming body itself.
pub struct RecvResponse {
    pub status: u16,
    pub headers: Vec<(Vec<u8>, Vec<u8>)>,
    pub is_chunked: bool,
    pub body: RecvStream,
}

impl RecvResponse {
    pub open spec fn wf(&self) -> bool {
        self.body.wf()
    }
}

/// An outbound request, for the client side of a connection.
pub struct OutRequest {
    pub method: Method,
    pub path: Vec<u8>,
    pub headers: Vec<(Vec<u8>, Vec<u8>)>,
    pub is_chunked: bool,
    pub body: RecvStream,
}

impl OutRequest {
    pub open spec fn wf(&self) -> bool {
        self.body.wf()
    }
}

/// An inbound response, for the client side of a connection.
pub struct ClientResponse {
    pub status: u16,
    /// declared `Content-Length`; 0 means none was declared
    pub body_len: usize,
    pub body: RecvStream,
}

impl ClientResponse {
    pub open spec fn wf(&self) -> bool {
        self.body.wf()
    }
}

/// One decimal digit.
pub open spec fn dec_digit(d: nat) -> u8 {
    (48 + d) as u8
}

/// The decimal rendering of `n`, most significant digit first.
pub open spec fn dec_rep(n: nat) -> Seq<u8>
    decreases n,
{
    if n < 10 {
        seq![dec_digit(n)]
    } else {
        dec_rep(n / 10).push(dec_digit(n % 10))
    }
}

/// `HTTP/1.1`
pub open spec fn http11_bytes() -> Seq<u8> {
    seq![72u8, 84u8, 84u8, 80u8, 47u8, 49u8, 46u8, 49u8]
}

/// The reason phrase written after the status code.
pub open spec fn reason_bytes(status: u16) -> Seq<u8> {
    if status == 200 {
        seq![79u8, 75u8]
    } else if status == 404 {
        seq![78u8, 111u8, 116u8, 32u8, 70u8, 111u8, 117u8, 110u8, 100u8]
    } else if status == 500 {
        seq![
            73u8, 110u8, 116u8, 101u8, 114u8, 110u8, 97u8, 108u8, 32u8, 83u8, 101u8, 114u8,
            118u8, 101u8, 114u8, 32u8, 69u8, 114u8, 114u8, 111u8, 114u8,
        ]
    } else {
        Seq::<u8>::empty()
    }
}

/// `HTTP/1.1 <code> <reason>\r\n`
pub open spec fn status_line(status: u16) -> Seq<u8> {
    http11_bytes() + seq![32u8] + dec_rep(status as nat) + seq![32u8] + reason_bytes(status)
        + crlf()
}

/// `<name>: <value>\r\n`
pub open spec fn header_line(name: Seq<u8>, value: Seq<u8>) -> Seq<u8> {
    name + seq![58u8, 32u8] + value + crlf()
}

/// The header fields, one line each, in order.
pub open spec fn header_block(hs: Seq<(Vec<u8>, Vec<u8>)>) -> Seq<u8>
    decreases hs.len(),
{
    if hs.len() == 0 {
        Seq::<u8>::empty()
    } else {
        header_line(hs[0].0@, hs[0].1@) + header_block(hs.drop_first())
    }
}

/// `Transfer-Encoding: chunked\r\n`
pub open spec fn te_chunked_line() -> Seq<u8> {
    header_line(
        seq![
            84u8, 114u8, 97u8, 110u8, 115u8, 102u8, 101u8, 114u8, 45u8, 69u8, 110u8, 99u8,
            111u8, 100u8, 105u8, 110u8, 103u8,
        ],
        seq![99u8, 104u8, 117u8, 110u8, 107u8, 101u8, 100u8],
    )
}

/// A whole response head: status line, header lines, the chunked marker when
/// the body goes out chunked, and the empty line.
pub open spec fn response_head(status: u16, hs: Seq<(Vec<u8>, Vec<u8>)>, chunked: bool) -> Seq<
    u8,
> {
    status_line(status) + header_block(hs) + (if chunked {
        te_chunked_line()
    } else {
        Seq::<u8>::empty()
    }) + crlf()
}

/// The request-method token.
pub open spec fn method_bytes(m: Method) -> Seq<u8> {
    match m {
        Method::Get => seq![71u8, 69u8, 84u8],
        Method::Post => seq![80u8, 79u8, 83u8, 84u8],
        Method::Head => seq![72u8, 69u8, 65u8, 68u8],
        Method::Options => seq![79u8, 80u8, 84u8, 73u8, 79u8, 78u8, 83u8],
        Method::Put => seq![80u8, 85u8, 84u8],
        Method::Delete => seq![68u8, 69u8, 76u8, 69u8, 84u8, 69u8],
        Method::Connect => seq![67u8, 79u8, 78u8, 78u8, 69u8, 67u8, 84u8],
        Method::Patch => seq![80u8, 65u8, 84u8, 67u8, 72u8],
        Method::Trace => seq![84u8, 82u8, 65u8, 67u8, 69u8],
        Method::Other => Seq::<u8>::empty(),
    }
}

/// `<method> <path> HTTP/1.1\r\n`
pub open spec fn request_line(m: Method, path: Seq<u8>) -> Seq<u8> {
    method_bytes(m) + seq![32u8] + path + seq![32u8] + http11_bytes() + crlf()
}

/// A whole request head.
pub open spec fn request_head(m: Method, path: Seq<u8>, hs: Seq<(Vec<u8>, Vec<u8>)>, chunked:
    bool) -> Seq<u8> {
    request_line(m, path) + header_block(hs) + (if chunked {
        te_chunked_line()
    } else {
        Seq::<u8>::empty()
    }) + crlf()
}

/// Splitting the last header off a block splits its serialisation.
pub proof fn lemma_header_block_push(hs: Seq<(Vec<u8>, Vec<u8>)>, x: (Vec<u8>, Vec<u8>))
    ensures
        header_block(hs.push(x)) == header_block(hs) + header_line(x.0@, x.1@),
    decreases hs.len(),
{
    if hs.len() == 0 {
        assert(hs.push(x)[0] == x);
        assert(hs.push(x).drop_first() =~= Seq::<(Vec<u8>, Vec<u8>)>::empty());
        assert(header_block(hs.push(x)) == header_line(x.0@, x.1@) + header_block(
            Seq::<(Vec<u8>, Vec<u8>)>::empty(),
        ));
        assert(header_block(hs.push(x)) =~= header_block(hs) + header_line(x.0@, x.1@));
    } else {
        assert(hs.push(x)[0] == hs[0]);
        assert(hs.push(x).drop_first() =~= hs.drop_first().push(x));
        lemma_header_block_push(hs.drop_first(), x);
        assert(header_block(hs.push(x)) == header_line(hs[0].0@, hs[0].1@) + header_block(
            hs.drop_first().push(x),
        ));
        assert((header_line(hs[0].0@, hs[0].1@) + (header_block(hs.drop_first()) + header_line(
            x.0@,
            x.1@,
        ))) =~= (header_line(hs[0].0@, hs[0].1@) + header_block(hs.drop_first())) + header_line(
            x.0@,
            x.1@,
        ));
        assert(header_block(hs.push(x)) =~= header_block(hs) + header_line(x.0@, x.1@));
    }
}

/// Append the decimal rendering of `n`.
fn push_dec(out: &mut Vec<u8>, n: usize)
    ensures
        final(out)@ == old(out)@ + dec_rep(n as nat),
    decreases n,
{
    if n < 10 {
        out.push(48 + (n as u8));
        proof {
            assert(out@ =~= old(out)@ + dec_rep(n as nat));
        }
    } else {
        push_dec(out, n / 10);
        out.push(48 + ((n % 10) as u8));
        proof {
            assert(out@ =~= old(out)@ + dec_rep(n as nat));
        }
    }
}

/// Append `HTTP/1.1`.
fn push_http11(out: &mut Vec<u8>)
    ensures
        final(out)@ == old(out)@ + http11_bytes(),
{
    out.push(72);
    out.push(84);
    out.push(84);
    out.push(80);
    out.push(47);
    out.push(49);
    out.push(46);
    out.push(49);
    proof {
        assert(out@ =~= old(out)@ + http11_bytes());
    }
}

/// Append the reason phrase for `status`.
fn push_reason(out: &mut Vec<u8>, status: u16)
    ensures
        final(out)@ == old(out)@ + reason_bytes(status),
{
    if status == 200 {
        out.push(79);
        out.push(75);
    } else if status == 404 {
        out.push(78);
        out.push(111);
        out.push(116);
        out.push(32);
        out.push(70);
        out.push(111);
        out.push(117);
        out.push(110);
        out.push(100);
    } else if status == 500 {
        out.push(73);
        out.push(110);
        out.push(116);
        out.push(101);
        out.push(114);
        out.push(110);
        out.push(97);
        out.push(108);
        out.push(32);
        out.push(83);
        out.push(101);
        out.push(114);
        out.push(118);
        out.push(101);
        out.push(114);
        out.push(32);
        out.push(69);
        out.push(114);
        out.push(114);
        out.push(111);
        out.push(114);
    }
    proof {
        assert(out@ =~= old(out)@ + reason_bytes(status));
    }
}

/// Append one header line.
fn push_header_line(out: &mut Vec<u8>, name: &Vec<u8>, value: &Vec<u8>)
    ensures
        final(out)@ == old(out)@ + header_line(name@, value@),
{
    out.extend_from_slice(name.as_slice());
    out.push(58);
    out.push(32);
    out.extend_from_slice(value.as_slice());
    out.push(13);
    out.push(10);
    proof {
        assert(out@ =~= old(out)@ + header_line(name@, value@));
    }
}

/// Append every header line of the block, in order.
fn push_header_block(out: &mut Vec<u8>, headers: &Vec<(Vec<u8>, Vec<u8>)>)
    ensures
        final(out)@ == old(out)@ + header_block(headers@),
{
    let ghost base = out@;
    let mut i: usize = 0;
    while i < headers.len()
        invariant
            i <= headers@.len(),
            out@ == base + header_block(headers@.take(i as int)),
        decreases headers@.len() - i,
    {
        let ghost prefix = headers@.take(i as int);
        push_header_line(out, &headers[i].0, &headers[i].1);
        proof {
            assert(headers@.take(i + 1) =~= prefix.push(headers@[i as int]));
            lemma_header_block_push(prefix, headers@[i as int]);
            assert(out@ =~= base + header_block(headers@.take(i + 1)));
        }
        i = i + 1;
    }
    proof {
        assert(headers@.take(headers@.len() as int) =~= headers@);
    }
}

/// Append `Transfer-Encoding: chunked\r\n`.
fn push_te_chunked(out: &mut Vec<u8>)
    ensures
        final(out)@ == old(out)@ + te_chunked_line(),
{
    out.push(84);
    out.push(114);
    out.push(97);
    out.push(110);
    out.push(115);
    out.push(102);
    out.push(101);
    out.push(114);
    out.push(45);
    out.push(69);
    out.push(110);
    out.push(99);
    out.push(111);
    out.push(100);
    out.push(105);
    out.push(110);
    out.push(103);
    out.push(58);
    out.push(32);
    out.push(99);
    out.push(104);
    out.push(117);
    out.push(110);
    out.push(107);
    out.push(101);
    out.push(100);
    out.push(13);
    out.push(10);
    proof {
        assert(out@ =~= old(out)@ + te_chunked_line());
    }
}

/// Serialise a whole response head.
pub fn encode_response_head(status: u16, headers: &Vec<(Vec<u8>, Vec<u8>)>, is_chunked: bool)
    -> (v: Vec<u8>)
    ensures
        v@ == response_head(status, headers@, is_chunked),
{
    let mut v: Vec<u8> = Vec::new();
    push_http11(&mut v);
    v.push(32);
    push_dec(&mut v, status as usize);
    v.push(32);
    push_reason(&mut v, status);
    v.push(13);
    v.push(10);
    push_header_block(&mut v, headers);
    if is_chunked {
        push_te_chunked(&mut v);
    }
    v.push(13);
    v.push(10);
    proof {
        assert(v@ =~= response_head(status, headers@, is_chunked));
    }
    v
}

/// Serialise a whole request head.
pub fn encode_request_head(
    method: Method,
    path: &Vec<u8>,
    headers: &Vec<(Vec<u8>, Vec<u8>)>,
    is_chunked: bool,
) -> (v: Vec<u8>)
    ensures
        v@ == request_head(method, path@, headers@, is_chunked),
{
    let mut v: Vec<u8> = Vec::new();
    let m = match method {
        Method::Get => {
            let mut t: Vec<u8> = Vec::new();
            t.push(71);
            t.push(69);
            t.push(84);
            t
        },
        Method::Post => {
            let mut t: Vec<u8> = Vec::new();
            t.push(80);
            t.push(79);
            t.push(83);
            t.push(84);
            t
        },
        Method::Head => {
            let mut t: Vec<u8> = Vec::new();
            t.push(72);
            t.push(69);
            t.push(65);
            t.push(68);
            t
        },
        Method::Options => {
            let mut t: Vec<u8> = Vec::new();
            t.push(79);
            t.push(80);
            t.push(84);
            t.push(73);
            t.push(79);
            t.push(78);
            t.push(83);
            t
        },
        Method::Put => {
            let mut t: Vec<u8> = Vec::new();
            t.push(80);
            t.push(85);
            t.push(84);
            t
        },
        Method::Delete => {
            let mut t: Vec<u8> = Vec::new();
            t.push(68);
            t.push(69);
            t.push(76);
            t.push(69);
            t.push(84);
            t.push(69);
            t
        },
        Method::Connect => {
            let mut t: Vec<u8> = Vec::new();
            t.push(67);
            t.push(79);
            t.push(78);
            t.push(78);
            t.push(69);
            t.push(67);
            t.push(84);
            t
        },
        Method::Patch => {
            let mut t: Vec<u8> = Vec::new();
            t.push(80);
            t.push(65);
            t.push(84);
            t.push(67);
            t.push(72);
            t
        },
        Method::Trace => {
            let mut t: Vec<u8> = Vec::new();
            t.push(84);
            t.push(82);
            t.push(65);
            t.push(67);
            t.push(69);
            t
        },
        Method::Other => Vec::new(),
    };
    proof {
        assert(m@ =~= method_bytes(method));
    }
    v.extend_from_slice(m.as_slice());
    v.push(32);
    v.extend_from_slice(path.as_slice());
    v.push(32);
    push_http11(&mut v);
    v.push(13);
    v.push(10);
    push_header_block(&mut v, headers);
    if is_chunked {
        push_te_chunked(&mut v);
    }
    v.push(13);
    v.push(10);
    proof {
        assert(v@ =~= request_head(method, path@, headers@, is_chunked));
    }
    v
}

} // verus!
