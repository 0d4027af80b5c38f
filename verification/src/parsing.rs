//! The boundary to the `webparse` HTTP parser: message heads are parsed by
//! that crate, and the fields this pipeline interprets are taken over as
//! plain values. The parser's verdict is a function of the buffer bytes
//! alone, so it is given names here (`req_parse_complete` and friends) that
//! the connection machinery's contracts can speak of.

use vstd::prelude::*;
use crate::message::Method;

verus! {

/// An opaque request head parsed by webparse. Verus refuses to declare
/// `webparse::Request<T>` itself (its generics carry the crate's own
/// `Serialize` bound), so the value is held behind a hidden field instead.
#[verifier::external_body]
pub struct WebRequestHead {
    inner: webparse::Request<()>,
}

/// The bytes begin with one complete request head.
pub uninterp spec fn req_parse_complete(bytes: Seq<u8>) -> bool;

/// The bytes are a proper prefix of a request head: more are needed.
pub uninterp spec fn req_parse_partial(bytes: Seq<u8>) -> bool;

/// How many leading bytes the complete request head occupies.
pub uninterp spec fn req_head_size(bytes: Seq<u8>) -> usize;

/// Whether the request head asks to keep the connection open.
pub uninterp spec fn req_head_keep_alive(bytes: Seq<u8>) -> bool;

/// The request head's declared `Content-Length`; 0 when absent or negative.
pub uninterp spec fn req_head_body_len(bytes: Seq<u8>) -> usize;

/// Whether the request head's method forbids a body.
pub uninterp spec fn req_head_nobody(bytes: Seq<u8>) -> bool;

/// The bytes begin with one complete response head.
pub uninterp spec fn resp_parse_complete(bytes: Seq<u8>) -> bool;

/// The bytes are a proper prefix of a response head: more are needed.
pub uninterp spec fn resp_parse_partial(bytes: Seq<u8>) -> bool;

/// How many leading bytes the complete response head occupies.
pub uninterp spec fn resp_head_size(bytes: Seq<u8>) -> usize;

/// The response head's status code.
pub uninterp spec fn resp_head_status(bytes: Seq<u8>) -> u16;

/// The response head's declared `Content-Length`; 0 when absent or negative.
pub uninterp spec fn resp_head_body_len(bytes: Seq<u8>) -> usize;

/// The parser's verdict on a run of bytes, with the request-head fields the
/// connection machinery interprets.
pub enum ReqParse {
    /// the head is incomplete: wait for more bytes
    Partial,
    /// the bytes do not parse, with the parser's message
    Fail(String),
    /// a complete head occupying the first `size` bytes
    Head { size: usize, keep_alive: bool, body_len: usize, nobody: bool },
}

/// The parser's verdict on a run of bytes, with the response-head fields the
/// connection machinery interprets.
pub enum RespParse {
    /// the head is incomplete: wait for more bytes
    Partial,
    /// the bytes do not parse, with the parser's message
    Fail(String),
    /// a complete head occupying the first `size` bytes
    Head { size: usize, status: u16, body_len: usize },
}

/// Relies on webparse::Request::new: a fresh, empty request head.
#[verifier::external_body]
pub(crate) fn new_request_head() -> WebRequestHead {
    WebRequestHead { inner: webparse::Request::new() }
}

/// Relies on webparse::Request::parse, WebError::is_partial,
/// Request::is_keep_alive, Request::get_body_len, Request::method and
/// Method::is_nobody: reads one request head from the front of `bytes` into
/// `head` and hands back the fields the connection machinery interprets.
/// The parse succeeds exactly on a complete head and reports an incomplete
/// one as partial; all outcomes depend on the bytes alone, so they are
/// stated against the names above. The consumed count is computed in the
/// source as the drop in the buffer's remaining length, so it never exceeds
/// what was given.
#[verifier::external_body]
pub(crate) fn parse_request_bytes(head: &mut WebRequestHead, bytes: &[u8]) -> (r: ReqParse)
    ensures
        r is Head <==> req_parse_complete(bytes@),
        r is Partial <==> req_parse_partial(bytes@),
        r matches ReqParse::Head { size, keep_alive, body_len, nobody } ==> {
            &&& size == req_head_size(bytes@)
            &&& size <= bytes@.len()
            &&& keep_alive == req_head_keep_alive(bytes@)
            &&& body_len == req_head_body_len(bytes@)
            &&& nobody == req_head_nobody(bytes@)
        },
{
    match head.inner.parse(bytes) {
        Ok(n) => {
            let l = head.inner.get_body_len();
            let body_len = if l < 0 { 0 } else { l as usize };
            let nobody = head.inner.method().is_nobody();
            ReqParse::Head { size: n, keep_alive: head.inner.is_keep_alive(), body_len, nobody }
        },
        Err(e) if e.is_partial() => ReqParse::Partial,
        Err(e) => ReqParse::Fail(format!("{}", e)),
    }
}

/// Relies on webparse::Request::method, telling its variants apart.
#[verifier::external_body]
pub(crate) fn request_head_method(head: &WebRequestHead) -> Method {
    match head.inner.method() {
        webparse::Method::Get => Method::Get,
        webparse::Method::Post => Method::Post,
        webparse::Method::Head => Method::Head,
        webparse::Method::Options => Method::Options,
        webparse::Method::Put => Method::Put,
        webparse::Method::Delete => Method::Delete,
        webparse::Method::Connect => Method::Connect,
        webparse::Method::Patch => Method::Patch,
        webparse::Method::Trace => Method::Trace,
        webparse::Method::None => Method::Other,
        webparse::Method::Extension(_) => Method::Other,
    }
}

/// Relies on webparse::Request::path.
#[verifier::external_body]
pub(crate) fn request_head_path(head: &WebRequestHead) -> String {
    head.inner.path().clone()
}

/// Relies on webparse::Request::headers, HeaderMap::get_option_value and
/// HeaderValue::as_bytes: the raw `Accept-Encoding` value, if the head
/// carried one.
#[verifier::external_body]
pub(crate) fn request_accept_encoding(head: &WebRequestHead) -> Option<Vec<u8>> {
    head.inner.headers().get_option_value(&webparse::HeaderName::ACCEPT_ENCODING).map(
        |v| v.as_bytes().to_vec(),
    )
}

/// Relies on webparse::Response::new, Response::parse, WebError::is_partial,
/// Response::status, StatusCode::as_u16 and Response::get_body_len: reads
/// one response head from the front of `bytes` and hands back the fields
/// the connection machinery interprets, stated against the names above as
/// for requests.
#[verifier::external_body]
pub(crate) fn parse_response_bytes(bytes: &[u8]) -> (r: RespParse)
    ensures
        r is Head <==> resp_parse_complete(bytes@),
        r is Partial <==> resp_parse_partial(bytes@),
        r matches RespParse::Head { size, status, body_len } ==> {
            &&& size == resp_head_size(bytes@)
            &&& size <= bytes@.len()
            &&& status == resp_head_status(bytes@)
            &&& body_len == resp_head_body_len(bytes@)
        },
{
    let mut h = webparse::Response::new(());
    match h.parse(bytes) {
        Ok(n) => {
            let l = h.get_body_len();
            let body_len = if l < 0 { 0 } else { l as usize };
            RespParse::Head { size: n, status: h.status().as_u16(), body_len }
        },
        Err(e) if e.is_partial() => RespParse::Partial,
        Err(e) => RespParse::Fail(format!("{}", e)),
    }
}

} // verus!
