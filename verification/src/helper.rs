//! The request helper around the user-supplied operator: it reads the
//! request's `Accept-Encoding` for the downstream encoders, and it turns the
//! operator's outcome into the response the connection sends — an operator
//! failure becomes a synthetic 500 and never reaches the connection loop.

use vstd::prelude::*;
use crate::message::RecvResponse;
use crate::recv_stream::RecvStream;
use crate::bytesearch::{bytes_contains, contains_seq};
use crate::error::ProtError;

verus! {

/// `gzip`
pub open spec fn gzip_bytes() -> Seq<u8> {
    seq![103u8, 122u8, 105u8, 112u8]
}

/// `deflate`
pub open spec fn deflate_bytes() -> Seq<u8> {
    seq![100u8, 101u8, 102u8, 108u8, 97u8, 116u8, 101u8]
}

/// `br`
pub open spec fn br_bytes() -> Seq<u8> {
    seq![98u8, 114u8]
}

/// `server inner error`
pub open spec fn inner_error_bytes() -> Seq<u8> {
    seq![
        115u8, 101u8, 114u8, 118u8, 101u8, 114u8, 32u8, 105u8, 110u8, 110u8, 101u8, 114u8,
        32u8, 101u8, 114u8, 114u8, 111u8, 114u8,
    ]
}

pub struct HttpHelper;

impl HttpHelper {
    /// Whether the request's `Accept-Encoding` value names gzip, deflate
    /// and br, in that order; without the header nothing is accepted.
    pub fn encoding_flags(accept: &Option<Vec<u8>>) -> (r: (bool, bool, bool))
        ensures
            match accept {
                Some(a) => {
                    &&& r.0 == contains_seq(a@, gzip_bytes())
                    &&& r.1 == contains_seq(a@, deflate_bytes())
                    &&& r.2 == contains_seq(a@, br_bytes())
                },
                None => r == (false, false, false),
            },
    {
        match accept {
            Some(a) => {
                let mut gz: Vec<u8> = Vec::new();
                gz.push(103);
                gz.push(122);
                gz.push(105);
                gz.push(112);
                let mut df: Vec<u8> = Vec::new();
                df.push(100);
                df.push(101);
                df.push(102);
                df.push(108);
                df.push(97);
                df.push(116);
                df.push(101);
                let mut br: Vec<u8> = Vec::new();
                br.push(98);
                br.push(114);
                proof {
                    assert(gz@ =~= gzip_bytes());
                    assert(df@ =~= deflate_bytes());
                    assert(br@ =~= br_bytes());
                }
                let g = bytes_contains(a.as_slice(), gz.as_slice());
                let d = bytes_contains(a.as_slice(), df.as_slice());
                let b = bytes_contains(a.as_slice(), br.as_slice());
                (g, d, b)
            },
            None => (false, false, false),
        }
    }

    /// The response the connection sends for an operator outcome: the
    /// operator's own response on success, a synthetic `500 server inner
    /// error` on failure.
    pub fn finish_response(outcome: Result<RecvResponse, ProtError>) -> (r: RecvResponse)
        requires
            outcome matches Ok(res) ==> res.wf(),
        ensures
            r.wf(),
            outcome matches Ok(res) ==> r == res,
            outcome is Err ==> {
                &&& r.status == 500
                &&& r.headers@.len() == 0
                &&& r.is_chunked
                &&& r.body.buffered() == inner_error_bytes()
                &&& r.body.ended()
            },
    {
        match outcome {
            Ok(res) => res,
            Err(_) => {
                let mut body: Vec<u8> = Vec::new();
                body.push(115);
                body.push(101);
                body.push(114);
                body.push(118);
                body.push(101);
                body.push(114);
                body.push(32);
                body.push(105);
                body.push(110);
                body.push(110);
                body.push(101);
                body.push(114);
                body.push(32);
                body.push(101);
                body.push(114);
                body.push(114);
                body.push(111);
                body.push(114);
                proof {
                    assert(body@ =~= inner_error_bytes());
                }
                RecvResponse {
                    status: 500,
                    headers: Vec::new(),
                    is_chunked: true,
                    body: RecvStream::only(body),
                }
            },
        }
    }
}

} // verus!
