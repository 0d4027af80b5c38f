//! HTTP/1.1 chunked transfer framing: each block of body bytes is written as
//! a lowercase-hex length line, the bytes, and a trailing CRLF; a zero-length
//! block terminates the stream.

use vstd::prelude::*;
use crate::buffer::BinaryMut;

verus! {

/// One lowercase hexadecimal digit.
pub open spec fn hex_digit(d: nat) -> u8 {
    if d < 10 {
        (48 + d) as u8
    } else {
        (87 + d) as u8
    }
}

/// The lowercase hexadecimal rendering of `n`, most significant digit first.
pub open spec fn hex_rep(n: nat) -> Seq<u8>
    decreases n,
{
    if n < 16 {
        seq![hex_digit(n)]
    } else {
        hex_rep(n / 16).push(hex_digit(n % 16))
    }
}

pub open spec fn crlf() -> Seq<u8> {
    seq![13u8, 10u8]
}

/// One chunked-encoding block: hex length, CRLF, the data, CRLF.
pub open spec fn chunk_frame(data: Seq<u8>) -> Seq<u8> {
    hex_rep(data.len()) + crlf() + data + crlf()
}

/// The zero-length block that ends a chunked body: `0\r\n\r\n`.
pub open spec fn chunk_terminator() -> Seq<u8> {
    chunk_frame(Seq::<u8>::empty())
}

/// `s` ends in `suffix`.
pub open spec fn ends_with(s: Seq<u8>, suffix: Seq<u8>) -> bool {
    &&& suffix.len() <= s.len()
    &&& s.skip(s.len() - suffix.len()) == suffix
}

/// The terminator is the five bytes `0 CR LF CR LF`.
pub proof fn lemma_terminator_bytes()
    ensures
        chunk_terminator() =~= seq![48u8, 13u8, 10u8, 13u8, 10u8],
{
    assert(hex_rep(0) =~= seq![48u8]);
}

/// A sequence extended by the terminator ends with the terminator.
pub proof fn lemma_append_ends_with(s: Seq<u8>, suffix: Seq<u8>)
    ensures
        ends_with(s + suffix, suffix),
{
    assert((s + suffix).skip(s.len() as int) =~= suffix);
}

fn hex_digit_exec(d: usize) -> (r: u8)
    requires
        d < 16,
    ensures
        r == hex_digit(d as nat),
{
    if d < 10 {
        48 + (d as u8)
    } else {
        87 + (d as u8)
    }
}

/// Append the lowercase-hex rendering of `n`.
fn push_hex(out: &mut Vec<u8>, n: usize)
    ensures
        final(out)@ == old(out)@ + hex_rep(n as nat),
    decreases n,
{
    if n < 16 {
        out.push(hex_digit_exec(n));
        proof {
            assert(out@ =~= old(out)@ + hex_rep(n as nat));
        }
    } else {
        push_hex(out, n / 16);
        out.push(hex_digit_exec(n % 16));
        proof {
            assert(out@ =~= old(out)@ + hex_rep(n as nat));
        }
    }
}

/// Write one chunked-encoding block for `data` into `out`; a zero-length
/// `data` writes the stream terminator.
pub fn encode_chunk_data(out: &mut BinaryMut, data: &[u8])
    requires
        old(out).wf(),
    ensures
        final(out).wf(),
        final(out)@ == old(out)@ + chunk_frame(data@),
{
    let mut head: Vec<u8> = Vec::new();
    push_hex(&mut head, data.len());
    head.push(13);
    head.push(10);
    out.put_vec(&head);
    out.put_slice(data);
    let mut tail: Vec<u8> = Vec::new();
    tail.push(13);
    tail.push(10);
    out.put_vec(&tail);
    proof {
        assert(head@ =~= hex_rep(data@.len()) + crlf());
        assert(tail@ =~= crlf());
        assert(out@ =~= old(out)@ + chunk_frame(data@));
    }
}


} // verus!
