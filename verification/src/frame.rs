//! The HTTP/2 frames this pipeline builds and orders. The wire encoding is
//! the codec's business; here a frame carries the fields the send pipeline
//! and the priority engine read.

use vstd::prelude::*;

verus! {

/// An outbound HTTP/2 frame, as the send pipeline models it.
pub enum Frame {
    /// a HEADERS frame with the pseudo `:status` and the header fields
    Headers { stream_id: u32, status: u16, end_headers: bool, end_stream: bool, fields: Vec<
        (Vec<u8>, Vec<u8>),
    > },
    /// a DATA frame carrying body bytes
    Data { stream_id: u32, payload: Vec<u8>, end_stream: bool },
    /// a PUSH_PROMISE on `stream_id` promising `promised_id`
    PushPromise { stream_id: u32, promised_id: u32, status: u16, fields: Vec<
        (Vec<u8>, Vec<u8>),
    > },
    /// a SETTINGS frame or its acknowledgement
    Settings { ack: bool },
    /// a WINDOW_UPDATE raising the flow-control window
    WindowUpdate { stream_id: u32, increment: u32 },
    /// a PRIORITY frame: `stream_id` depends on `depend_id` with `weight`
    Priority { stream_id: u32, depend_id: u32, weight: u8 },
    /// a GOAWAY closing the connection
    GoAway { last_stream_id: u32, code: u32, debug: Vec<u8> },
}

} // verus!
