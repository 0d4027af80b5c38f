use wenmeng::{Frame, Method, RecvResponse, RecvStream, SendResponse};

fn response_with_body(body: &[u8]) -> RecvResponse {
    RecvResponse {
        status: 200,
        headers: vec![(b"server".to_vec(), b"demo".to_vec())],
        is_chunked: false,
        body: RecvStream::only(body.to_vec()),
    }
}

#[test]
fn headers_then_data_with_end_stream() {
    let mut sr = SendResponse::new(1, None, response_with_body(b"payload"), Method::Get,
        false);
    let (done, frames) = sr.encode_frames();
    assert!(done);
    assert_eq!(frames.len(), 2);
    match &frames[0] {
        Frame::Headers { stream_id, status, end_headers, end_stream, fields } => {
            assert_eq!(*stream_id, 1);
            assert_eq!(*status, 200);
            assert!(*end_headers);
            assert!(!*end_stream);
            assert_eq!(fields.len(), 1);
            assert_eq!(fields[0].0, b"server".to_vec());
        },
        _ => panic!("expected a HEADERS frame first"),
    }
    match &frames[1] {
        Frame::Data { stream_id, payload, end_stream } => {
            assert_eq!(*stream_id, 1);
            assert_eq!(payload, &b"payload".to_vec());
            assert!(*end_stream);
        },
        _ => panic!("expected a DATA frame second"),
    }
}

#[test]
fn push_promise_retargets_the_stream() {
    let mut sr = SendResponse::new(1, Some(2), response_with_body(b"x"), Method::Get, false);
    let (done, frames) = sr.encode_frames();
    assert!(done);
    assert_eq!(frames.len(), 2);
    match &frames[0] {
        Frame::PushPromise { stream_id, promised_id, status, .. } => {
            assert_eq!(*stream_id, 1);
            assert_eq!(*promised_id, 2);
            assert_eq!(*status, 200);
        },
        _ => panic!("expected a PUSH_PROMISE first"),
    }
    // the promise body belongs to the promised stream
    match &frames[1] {
        Frame::Data { stream_id, .. } => assert_eq!(*stream_id, 2),
        _ => panic!("expected a DATA frame on the promised stream"),
    }
    assert_eq!(sr.stream_id, 2);
}

#[test]
fn header_frame_goes_out_once() {
    let (tx, rx) = tokio::sync::mpsc::channel(4);
    let response = RecvResponse {
        status: 200,
        headers: Vec::new(),
        is_chunked: false,
        body: RecvStream::new(rx, wenmeng::BinaryMut::new(), false),
    };
    let mut sr = SendResponse::new(5, None, response, Method::Get, false);
    let (done, frames) = sr.encode_frames();
    assert!(!done);
    assert_eq!(frames.len(), 1);
    assert!(matches!(frames[0], Frame::Headers { .. }));
    // more body arrives: only a DATA frame follows, no second HEADERS
    tx.try_send((true, b"tail".to_vec())).unwrap();
    let (done, frames) = sr.encode_frames();
    assert!(done);
    assert_eq!(frames.len(), 1);
    match &frames[0] {
        Frame::Data { stream_id, payload, end_stream } => {
            assert_eq!(*stream_id, 5);
            assert_eq!(payload, &b"tail".to_vec());
            assert!(*end_stream);
        },
        _ => panic!("expected a DATA frame"),
    }
}
