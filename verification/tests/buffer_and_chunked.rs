use wenmeng::BinaryMut;
use wenmeng::chunked::encode_chunk_data;

fn readable(b: &BinaryMut) -> Vec<u8> {
    b.copy_vec()
}

#[test]
fn buffer_put_advance_take() {
    let mut b = BinaryMut::new();
    assert_eq!(b.remaining(), 0);
    assert!(b.is_empty());
    b.put_slice(b"hello world");
    assert_eq!(b.remaining(), 11);
    b.advance(6);
    assert_eq!(readable(&b), b"world".to_vec());
    assert_eq!(b.get(0), b'w');
    let taken = b.take_vec();
    assert_eq!(taken, b"world".to_vec());
    assert!(b.is_empty());
}

#[test]
fn buffer_from_vec_keeps_bytes() {
    let b = BinaryMut::from_vec(vec![1, 2, 3]);
    assert_eq!(b.remaining(), 3);
    assert_eq!(b.copy_vec(), vec![1, 2, 3]);
}

#[test]
fn chunk_encoding_exact_bytes() {
    let mut out = BinaryMut::new();
    encode_chunk_data(&mut out, b"hello");
    assert_eq!(out.copy_vec(), b"5\r\nhello\r\n".to_vec());
}

#[test]
fn chunk_encoding_hex_length() {
    let data = vec![0u8; 255];
    let mut out = BinaryMut::new();
    encode_chunk_data(&mut out, &data);
    let v = out.copy_vec();
    assert_eq!(&v[..4], b"ff\r\n");
    assert_eq!(v.len(), 4 + 255 + 2);
}

#[test]
fn chunk_terminator_bytes() {
    let mut out = BinaryMut::new();
    encode_chunk_data(&mut out, b"");
    assert_eq!(out.copy_vec(), b"0\r\n\r\n".to_vec());
}
