use freeswitch_esl_rs::buffer::EslBuffer;

#[test]
fn test_basic_operations() {
    let mut buffer = EslBuffer::new();
    assert!(buffer.is_empty());
    assert_eq!(buffer.len(), 0);

    buffer.extend_from_slice(b"Hello World");
    assert!(!buffer.is_empty());
    assert_eq!(buffer.len(), 11);
    assert_eq!(buffer.data(), b"Hello World");
}
#[test]
fn test_advance() {
    let mut buffer = EslBuffer::new();
    buffer.extend_from_slice(b"Hello World");

    buffer.advance(6);
    assert_eq!(buffer.data(), b"World");
    assert_eq!(buffer.len(), 5);
}
#[test]
fn test_find_pattern() {
    let mut buffer = EslBuffer::new();
    buffer.extend_from_slice(b"Header1: Value1\r\nHeader2: Value2\r\n\r\nBody");

    let pos = buffer.find_pattern(b"\r\n\r\n");
    assert_eq!(pos, Some(32));
}
#[test]
fn test_extract_until_pattern() {
    let mut buffer = EslBuffer::new();
    buffer.extend_from_slice(b"Header1: Value1\r\nHeader2: Value2\r\n\r\nBody");

    let headers = buffer.extract_until_pattern(b"\r\n\r\n").unwrap();
    assert_eq!(headers, b"Header1: Value1\r\nHeader2: Value2");
    assert_eq!(buffer.data(), b"Body");
}
#[test]
fn test_extract_bytes() {
    let mut buffer = EslBuffer::new();
    buffer.extend_from_slice(b"Hello World");

    let data = buffer.extract_bytes(5).unwrap();
    assert_eq!(data, b"Hello");
    assert_eq!(buffer.data(), b" World");
}
#[test]
fn test_compact() {
    let mut buffer = EslBuffer::new();
    buffer.extend_from_slice(b"Hello World");
    buffer.advance(6);

    assert_eq!(buffer.data(), b"World");
    buffer.compact();
    assert_eq!(buffer.data(), b"World");
}
#[test]
fn buffer_text_and_peek() {
    let mut buffer = EslBuffer::new();
    buffer.extend_from_slice("héllo".as_bytes());
    assert_eq!(buffer.peek(2), Some(&b"h\xc3"[..]));
    assert_eq!(buffer.peek(99), None);
    assert_eq!(buffer.to_string().unwrap(), "héllo");
    buffer.advance(2).unwrap();
    assert!(buffer.to_string().is_err());
    assert!(buffer.advance(99).is_err());
    let (a, b) = buffer.split_at_pattern(b"l").unwrap();
    assert_eq!(a, b"\xa9");
    assert_eq!(b, b"lo");
    assert!(buffer.capacity() >= buffer.len());
    buffer.clear();
    assert!(buffer.is_empty());
}
