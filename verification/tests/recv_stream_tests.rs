use wenmeng::{BinaryMut, RecvStream};

#[test]
fn empty_stream_is_ended() {
    let mut s = RecvStream::empty();
    assert!(s.is_end());
    assert_eq!(s.body_len(), 0);
    assert_eq!(s.read_now(), Vec::<u8>::new());
}

#[test]
fn only_holds_payload() {
    let mut s = RecvStream::only(b"hello".to_vec());
    assert!(s.is_end());
    assert_eq!(s.body_len(), 5);
    assert_eq!(s.copy_now(), b"hello".to_vec());
    assert_eq!(s.read_now(), b"hello".to_vec());
    assert_eq!(s.body_len(), 0);
}

#[test]
fn push_chunk_appends_and_sets_end() {
    let (_tx, rx) = tokio::sync::mpsc::channel(4);
    let mut s = RecvStream::new(rx, BinaryMut::from_vec(b"he".to_vec()), false);
    assert!(!s.is_end());
    s.push_chunk(true, b"llo");
    assert!(s.is_end());
    assert_eq!(s.read_now(), b"hello".to_vec());
}

#[test]
fn try_recv_drains_channel_until_end() {
    let (tx, rx) = tokio::sync::mpsc::channel(8);
    let mut s = RecvStream::new(rx, BinaryMut::new(), false);
    tx.try_send((false, b"ab".to_vec())).unwrap();
    tx.try_send((true, b"cd".to_vec())).unwrap();
    s.try_recv();
    assert!(s.is_end());
    assert_eq!(s.read_now(), b"abcd".to_vec());
}

#[test]
fn closed_channel_counts_as_end() {
    let (tx, rx) = tokio::sync::mpsc::channel(4);
    let mut s = RecvStream::new(rx, BinaryMut::new(), false);
    drop(tx);
    s.try_recv();
    assert!(s.is_end());
}

#[test]
fn poll_encode_chunked_appends_single_terminator() {
    let mut s = RecvStream::only(b"hello".to_vec());
    let mut out = BinaryMut::new();
    let n = s.poll_encode(&mut out, true);
    assert_eq!(out.copy_vec(), b"5\r\nhello\r\n0\r\n\r\n".to_vec());
    assert_eq!(n, 15);
    // a second poll adds nothing: the terminator went out exactly once
    let n2 = s.poll_encode(&mut out, true);
    assert_eq!(n2, 0);
    assert_eq!(out.copy_vec(), b"5\r\nhello\r\n0\r\n\r\n".to_vec());
}

#[test]
fn poll_encode_unchunked_passes_bytes_through() {
    let (tx, rx) = tokio::sync::mpsc::channel(8);
    let mut s = RecvStream::new(rx, BinaryMut::from_vec(b"he".to_vec()), false);
    tx.try_send((true, b"llo".to_vec())).unwrap();
    let mut out = BinaryMut::new();
    s.poll_encode(&mut out, false);
    assert_eq!(out.copy_vec(), b"hello".to_vec());
    assert!(s.is_end());
}

#[test]
fn poll_encode_chunked_empty_ended_stream_terminates_once() {
    let mut s = RecvStream::empty();
    let mut out = BinaryMut::new();
    s.poll_encode(&mut out, true);
    assert_eq!(out.copy_vec(), b"0\r\n\r\n".to_vec());
    s.poll_encode(&mut out, true);
    assert_eq!(out.copy_vec(), b"0\r\n\r\n".to_vec());
}

#[test]
fn set_end_reopens_stream_before_terminator() {
    let mut s = RecvStream::only(b"x".to_vec());
    assert!(s.is_end());
    s.set_end(false);
    assert!(!s.is_end());
    s.set_end(true);
    assert!(s.is_end());
}

#[test]
fn take_receiver_detaches_channel() {
    let (tx, rx) = tokio::sync::mpsc::channel(4);
    let mut s = RecvStream::new(rx, BinaryMut::new(), false);
    let mut got = s.take_receiver().unwrap();
    assert!(s.take_receiver().is_none());
    tx.try_send((true, b"zz".to_vec())).unwrap();
    let (end, data) = got.try_recv().unwrap();
    assert!(end);
    assert_eq!(data, b"zz".to_vec());
    s.restore_receiver(got);
}

#[test]
fn terminator_arrives_with_the_final_chunk() {
    let (tx, rx) = tokio::sync::mpsc::channel(8);
    let mut s = RecvStream::new(rx, BinaryMut::new(), false);
    tx.try_send((false, b"ab".to_vec())).unwrap();
    let mut out = BinaryMut::new();
    s.poll_encode(&mut out, true);
    assert_eq!(out.copy_vec(), b"2\r\nab\r\n".to_vec());
    assert!(!s.is_end());
    tx.try_send((true, b"cd".to_vec())).unwrap();
    s.poll_encode(&mut out, true);
    assert_eq!(out.copy_vec(), b"2\r\nab\r\n2\r\ncd\r\n0\r\n\r\n".to_vec());
    assert!(s.is_end());
    // nothing further: the terminator went out exactly once for the stream
    s.poll_encode(&mut out, true);
    assert_eq!(out.copy_vec(), b"2\r\nab\r\n2\r\ncd\r\n0\r\n\r\n".to_vec());
}
