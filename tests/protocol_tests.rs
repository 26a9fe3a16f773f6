use freeswitch_esl_rs::protocol::EslParser;

#[test]
fn test_parse_headers() {
    let parser = EslParser::new();
    let headers_str = "Content-Type: auth/request\r\nContent-Length: 0";
    let headers = parser.parse_headers(headers_str).unwrap();

    assert_eq!(
        headers.get("Content-Type"),
        Some(&"auth/request".to_string())
    );
    assert_eq!(headers.get("Content-Length"), Some(&"0".to_string()));
}
#[test]
fn test_incomplete_message() {
    let mut parser = EslParser::new();
    let data = b"Content-Type: api/response\r\nContent-Length: 10\r\n\r\ntest"; // Only 4 bytes instead of 10

    parser.add_data(data).unwrap();
    let result = parser.parse_message().unwrap();

    assert!(result.is_none()); // Should return None for incomplete message
}