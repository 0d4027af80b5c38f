use wenmeng::{IoBuffer, Method, RecvResponse, RecvStream, RequestPoll};

fn contains(hay: &[u8], needle: &[u8]) -> bool {
    if needle.is_empty() {
        return true;
    }
    if needle.len() > hay.len() {
        return false;
    }
    (0..=hay.len() - needle.len()).any(|i| &hay[i..i + needle.len()] == needle)
}

fn ok_response(body: &[u8]) -> RecvResponse {
    RecvResponse {
        status: 200,
        headers: vec![(b"Host".to_vec(), b"x".to_vec())],
        is_chunked: true,
        body: RecvStream::only(body.to_vec()),
    }
}

#[test]
fn echo_round_trip() {
    let mut io = IoBuffer::new();
    io.feed_read(b"POST /e HTTP/1.1\r\nHost:x\r\nContent-Length:5\r\n\r\nhello");
    let req = match io.poll_request() {
        RequestPoll::Ready(req) => req,
        _ => panic!("expected a complete request"),
    };
    assert_eq!(req.method, Method::Post);
    assert_eq!(req.path, "/e".to_string());
    assert_eq!(req.body_len, 5);
    let mut body = req.body;
    assert!(body.is_end());
    assert_eq!(body.read_now(), b"hello".to_vec());
    assert_eq!(io.left_body_len(), 0);

    assert!(io.send_response(ok_response(b"hello")).is_ok());
    io.poll_write();
    let wire = io.write_pending();
    assert!(contains(&wire, b"HTTP/1.1 200"));
    assert!(contains(&wire, b"Transfer-Encoding: chunked"));
    assert!(contains(&wire, b"5\r\nhello\r\n0\r\n\r\n"));
    assert_eq!(io.deal_req(), 1);
}

#[test]
fn keep_alive_serves_two_requests() {
    let mut io = IoBuffer::new();
    io.feed_read(b"GET / HTTP/1.1\r\nConnection: Keep-Alive\r\n\r\n");
    let req1 = match io.poll_request() {
        RequestPoll::Ready(req) => req,
        _ => panic!("expected the first request"),
    };
    assert_eq!(req1.method, Method::Get);
    assert!(req1.is_keep_alive);

    // a second request is not surfaced until the first is answered
    io.feed_read(b"GET / HTTP/1.1\r\nConnection: Keep-Alive\r\n\r\n");
    assert!(matches!(io.poll_request(), RequestPoll::Pending));

    assert!(io.send_response(ok_response(b"a")).is_ok());
    io.poll_write();
    let n = io.write_pending().len();
    io.consume_written(n);
    assert_eq!(io.deal_req(), 1);

    let req2 = match io.poll_request() {
        RequestPoll::Ready(req) => req,
        other => panic!("expected the second request, got {}", kind_of(&other)),
    };
    assert_eq!(req2.method, Method::Get);
    assert!(io.send_response(ok_response(b"b")).is_ok());
    io.poll_write();
    assert_eq!(io.deal_req(), 2);
    // keep-alive: the connection stays open
    let n = io.write_pending().len();
    io.consume_written(n);
    assert!(!io.is_active_close());
}

fn kind_of(r: &RequestPoll) -> &'static str {
    match r {
        RequestPoll::Ready(_) => "ready",
        RequestPoll::Pending => "pending",
        RequestPoll::Close => "close",
        RequestPoll::Upgrade => "upgrade",
        RequestPoll::Failed(_) => "failed",
    }
}

#[test]
fn connection_closes_without_keep_alive() {
    let mut io = IoBuffer::new();
    io.feed_read(b"GET / HTTP/1.1\r\n\r\n");
    let req = match io.poll_request() {
        RequestPoll::Ready(req) => req,
        _ => panic!("expected a request"),
    };
    assert!(!req.is_keep_alive);
    assert!(io.send_response(ok_response(b"x")).is_ok());
    io.poll_write();
    assert!(io.is_active_close());
    let n = io.write_pending().len();
    io.consume_written(n);
    assert!(matches!(io.poll_request(), RequestPoll::Close));
}

#[test]
fn preface_upgrades_and_preserves_bytes() {
    let mut io = IoBuffer::new();
    // the 24-byte client preface followed by an empty SETTINGS frame
    let mut bytes = b"PRI * HTTP/2.0\r\n\r\nSM\r\n\r\n".to_vec();
    let settings = [0u8, 0, 0, 4, 0, 0, 0, 0, 0];
    bytes.extend_from_slice(&settings);
    io.feed_read(&bytes);
    assert!(matches!(io.poll_request(), RequestPoll::Upgrade));
    let (read_buf, _write_buf) = io.into();
    assert_eq!(read_buf.copy_vec(), settings.to_vec());
}

#[test]
fn partial_head_waits_for_more_bytes() {
    let mut io = IoBuffer::new();
    io.feed_read(b"GET / HT");
    assert!(matches!(io.poll_request(), RequestPoll::Pending));
    io.feed_read(b"TP/1.1\r\n\r\n");
    assert!(matches!(io.poll_request(), RequestPoll::Ready(_)));
}

#[test]
fn truncated_body_leaves_declared_remainder() {
    let mut io = IoBuffer::new();
    io.feed_read(b"POST /t HTTP/1.1\r\nContent-Length: 10\r\n\r\n1234567");
    let req = match io.poll_request() {
        RequestPoll::Ready(req) => req,
        _ => panic!("expected a request"),
    };
    let mut body = req.body;
    assert!(!body.is_end());
    assert_eq!(body.read_now(), b"1234567".to_vec());
    assert_eq!(io.left_body_len(), 3);
}

#[test]
fn late_body_bytes_are_forwarded_to_the_stream() {
    let mut io = IoBuffer::new();
    io.feed_read(b"POST /t HTTP/1.1\r\nContent-Length: 10\r\n\r\n1234567");
    let req = match io.poll_request() {
        RequestPoll::Ready(req) => req,
        _ => panic!("expected a request"),
    };
    let mut body = req.body;
    io.feed_read(b"890");
    assert!(matches!(io.poll_request(), RequestPoll::Pending));
    body.try_recv();
    assert!(body.is_end());
    assert_eq!(body.read_now(), b"1234567890".to_vec());
    assert_eq!(io.left_body_len(), 0);
}

#[test]
fn receive_body_len_is_conservation_exact() {
    let mut io = IoBuffer::new();
    io.feed_read(b"HEAD /c HTTP/1.1\r\nContent-Length: 10\r\n\r\n");
    match io.poll_request() {
        RequestPoll::Ready(req) => assert_eq!(req.method, Method::Head),
        _ => panic!("expected a request"),
    }
    assert_eq!(io.left_body_len(), 10);
    assert!(!io.receive_body_len(4));
    assert_eq!(io.left_body_len(), 6);
    assert!(!io.receive_body_len(3));
    assert_eq!(io.left_body_len(), 3);
    // the call that crosses the declared length reports the end and the
    // remainder drops to zero: 4 + 3 + min(5, 3) == min(12, 10)
    assert!(io.receive_body_len(5));
    assert_eq!(io.left_body_len(), 0);
}

#[test]
fn unparsable_bytes_fail_the_poll() {
    let mut io = IoBuffer::new();
    io.feed_read(b"\x01\x02\x03garbage\r\n\r\n");
    assert!(matches!(io.poll_request(), RequestPoll::Failed(_)));
}

#[test]
fn streamed_response_finishes_only_at_end_of_body() {
    let mut io = IoBuffer::new();
    io.feed_read(b"GET / HTTP/1.1\r\nConnection: Keep-Alive\r\n\r\n");
    assert!(matches!(io.poll_request(), RequestPoll::Ready(_)));
    let (tx, rx) = tokio::sync::mpsc::channel(8);
    let res = RecvResponse {
        status: 200,
        headers: Vec::new(),
        is_chunked: true,
        body: RecvStream::new(rx, wenmeng::BinaryMut::new(), false),
    };
    assert!(io.send_response(res).is_ok());
    io.poll_write();
    let first = io.write_pending();
    assert!(contains(&first, b"HTTP/1.1 200"));
    assert!(!contains(&first, b"0\r\n\r\n"));
    assert_eq!(io.deal_req(), 0);
    // the rest of the body arrives: the next poll finishes the message
    tx.try_send((true, b"tail".to_vec())).unwrap();
    io.poll_write();
    let wire = io.write_pending();
    assert!(contains(&wire, b"4\r\ntail\r\n0\r\n\r\n"));
    assert_eq!(io.deal_req(), 1);
}
