use wenmeng::{IoBuffer, Method, OutRequest, RecvStream, ResponsePoll};

fn starts_with(hay: &[u8], prefix: &[u8]) -> bool {
    hay.len() >= prefix.len() && &hay[..prefix.len()] == prefix
}

#[test]
fn send_request_serialises_the_request_line() {
    let mut io = IoBuffer::new();
    let req = OutRequest {
        method: Method::Get,
        path: b"/index.html".to_vec(),
        headers: vec![(b"Host".to_vec(), b"example".to_vec())],
        is_chunked: false,
        body: RecvStream::empty(),
    };
    assert!(io.send_request(req).is_ok());
    io.poll_write();
    let wire = io.write_pending();
    assert!(starts_with(&wire, b"GET /index.html HTTP/1.1\r\nHost: example\r\n\r\n"));
    assert_eq!(io.deal_req(), 1);
}

#[test]
fn poll_response_surfaces_status_and_body() {
    let mut io = IoBuffer::new();
    io.feed_read(b"HTTP/1.1 200 OK\r\nContent-Length: 2\r\n\r\nok");
    let res = match io.poll_response() {
        ResponsePoll::Ready(res) => res,
        _ => panic!("expected a complete response"),
    };
    assert_eq!(res.status, 200);
    assert_eq!(res.body_len, 2);
    let mut body = res.body;
    assert!(body.is_end());
    assert_eq!(body.read_now(), b"ok".to_vec());
}

#[test]
fn partial_response_waits() {
    let mut io = IoBuffer::new();
    io.feed_read(b"HTTP/1.1 2");
    assert!(matches!(io.poll_response(), ResponsePoll::Pending));
    io.feed_read(b"00 OK\r\nContent-Length: 0\r\n\r\n");
    assert!(matches!(io.poll_response(), ResponsePoll::Ready(_)));
}
