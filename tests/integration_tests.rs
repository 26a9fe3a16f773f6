use freeswitch_esl_rs::buffer::EslBuffer;
use freeswitch_esl_rs::event::{EslEventType, EventFormat};
use freeswitch_esl_rs::headers::HeaderMap;
use freeswitch_esl_rs::protocol::{EslMessage, EslParser, MessageType};
use freeswitch_esl_rs::session::ConnectionMode;

#[test]
fn test_buffer_operations() {
    let mut buffer = EslBuffer::new();

    assert!(buffer.is_empty());
    assert_eq!(buffer.len(), 0);

    buffer.extend_from_slice(b"Hello World");
    assert!(!buffer.is_empty());
    assert_eq!(buffer.len(), 11);
    assert_eq!(buffer.data(), b"Hello World");

    buffer.advance(6).unwrap();
    assert_eq!(buffer.len(), 5);
    assert_eq!(buffer.data(), b"World");

    buffer.extend_from_slice(b"\r\n\r\nBody");
    let pos = buffer.find_pattern(b"\r\n\r\n");
    assert!(pos.is_some());

    let before_pattern = buffer.extract_until_pattern(b"\r\n\r\n").unwrap();
    assert_eq!(before_pattern, b"World");
    assert_eq!(buffer.data(), b"Body");
}

#[test]
fn test_event_types() {
    assert_eq!(EslEventType::ChannelAnswer.to_string(), "CHANNEL_ANSWER");
    assert_eq!(EslEventType::ChannelCreate.to_string(), "CHANNEL_CREATE");
    assert_eq!(EslEventType::Heartbeat.to_string(), "HEARTBEAT");

    assert_eq!(
        EslEventType::parse_event_type("CHANNEL_ANSWER"),
        Some(EslEventType::ChannelAnswer)
    );
    assert_eq!(
        EslEventType::parse_event_type("channel_answer"),
        Some(EslEventType::ChannelAnswer)
    );
    assert_eq!(
        EslEventType::parse_event_type("DTMF"),
        Some(EslEventType::Dtmf)
    );
    assert_eq!(EslEventType::parse_event_type("UNKNOWN_EVENT"), None);
}

#[test]
fn test_json_event_parsing() {
    let json_body = r#"{
        "Event-Name": "CHANNEL_ANSWER",
        "Unique-ID": "json-test-uuid",
        "Caller-Caller-ID-Number": "1000",
        "Answer-State": "answered"
    }"#;

    let mut headers = HeaderMap::new();
    headers.insert("Content-Type".to_string(), "text/event-json".to_string());

    let message = EslMessage::new(MessageType::Event, headers, Some(json_body.to_string()));

    let parser = EslParser::new();
    let event = parser.parse_event(message, EventFormat::Json).unwrap();

    assert_eq!(event.event_type, Some(EslEventType::ChannelAnswer));
    assert_eq!(
        event.header("Unique-ID"),
        Some(&"json-test-uuid".to_string())
    );
    assert_eq!(
        event.header("Caller-Caller-ID-Number"),
        Some(&"1000".to_string())
    );
}

#[test]
fn test_connection_states() {
    assert_eq!(ConnectionMode::Inbound, ConnectionMode::Inbound);
    assert_ne!(ConnectionMode::Inbound, ConnectionMode::Outbound);

    assert_eq!(EventFormat::Plain.to_string(), "plain");
    assert_eq!(EventFormat::Json.to_string(), "json");
    assert_eq!(EventFormat::Xml.to_string(), "xml");
}

#[test]
fn test_buffer_stress() {
    let mut buffer = EslBuffer::new();

    for i in 0..1000 {
        let data = format!("chunk-{}-{}\r\n", i, "x".repeat(100));
        buffer.extend_from_slice(data.as_bytes());
    }

    let mut consumed = 0;
    while !buffer.is_empty() {
        let chunk_size = std::cmp::min(1024, buffer.len());
        buffer.advance(chunk_size).unwrap();
        consumed += chunk_size;

        if consumed % 10240 == 0 {
            buffer.compact();
        }
    }

    assert!(buffer.is_empty());
    println!("Successfully processed {} bytes", consumed);
}
