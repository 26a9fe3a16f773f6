use freeswitch_esl_rs::command::{CommandBuilder, EslCommand};
use freeswitch_esl_rs::error::EslError;
use freeswitch_esl_rs::event::{EslEvent, EslEventPriority, EslEventType, EventFormat};
use freeswitch_esl_rs::headers::HeaderMap;
use freeswitch_esl_rs::numbers::decimal_string;
use freeswitch_esl_rs::originate::{escape_value, unescape_value, Originate, OriginateError, Variables, VariablesType};
use freeswitch_esl_rs::pct::decode_value;
use freeswitch_esl_rs::protocol::{parse_headers, EslMessage, EslParser, MessageType};
use freeswitch_esl_rs::session::{
    events_argument, liveness_expired, on_read, validate_user, ConnectionMode, DisconnectReason, SessionState,
};

#[test]
fn percent_encoding_of_values() {
    let mut event = EslEvent::new();
    event.set_header("Up-Time", "0 years, 1%");
    assert_eq!(event.to_plain_format(), "Up-Time: 0%20years%2C%201%25\n\n");
}

#[test]
fn percent_decoding_of_values() {
    assert_eq!(decode_value("John%20Doe"), "John Doe");
    assert_eq!(decode_value("100%"), "100%");
    assert_eq!(decode_value("%zz%41"), "%zzA");
    assert_eq!(decode_value("%FF"), "%FF");
}

#[test]
fn plain_event_from_message_headers() {
    let mut parser = EslParser::new();
    parser
        .add_data(b"Content-Type: text/event-plain\nEvent-Name: channel_answer\nCaller-Caller-ID-Name: John%20Doe\n\n")
        .unwrap();
    let message = parser.parse_message().unwrap().unwrap();
    let event = parser.parse_event(message, EventFormat::Plain).unwrap();
    assert_eq!(event.event_type, Some(EslEventType::ChannelAnswer));
    assert_eq!(event.header("Caller-Caller-ID-Name"), Some(&"John Doe".to_string()));
}

#[test]
fn xml_event_attribute_scan() {
    let mut headers = HeaderMap::new();
    headers.insert("Content-Type".to_string(), "text/event-xml".to_string());
    let body = "<event>\n  <headers>\n    <Event-Name name=\"HEARTBEAT\"/>\n    <x key=\"v\"/>\n  </headers>\n</event>";
    let message = EslMessage::new(MessageType::Event, headers, Some(body.to_string()));
    let event = EslParser::new().parse_event(message, EventFormat::Xml).unwrap();
    assert_eq!(event.header("Event-Name name"), Some(&"HEARTBEAT".to_string()));
    assert_eq!(event.header("x key"), Some(&"v".to_string()));
}

#[test]
fn json_error_and_missing_body() {
    let message = EslMessage::new(MessageType::Event, HeaderMap::new(), Some("{not json".to_string()));
    assert!(matches!(EslParser::new().parse_event(message, EventFormat::Json), Err(EslError::JsonError { .. })));
    let message = EslMessage::new(MessageType::Event, HeaderMap::new(), None);
    assert!(matches!(EslParser::new().parse_event(message, EventFormat::Json), Err(EslError::ProtocolError { .. })));
    let message = EslMessage::new(MessageType::Event, HeaderMap::new(), Some("[1, 2]".to_string()));
    let event = EslParser::new().parse_event(message, EventFormat::Json).unwrap();
    assert!(event.headers.is_empty());
    let message = EslMessage::new(MessageType::Event, HeaderMap::new(), Some("{\"Event-Name\":\"DTMF\",\"n\":5}".to_string()));
    let event = EslParser::new().parse_event(message, EventFormat::Json).unwrap();
    assert_eq!(event.event_type, Some(EslEventType::Dtmf));
    assert_eq!(event.header("n"), Some(&"5".to_string()));
}

#[test]
fn malformed_header_line_is_rejected() {
    assert!(matches!(parse_headers("Content-Type: x\nno colon here"), Err(EslError::InvalidHeader { .. })));
    let headers = parse_headers("  A :  1 \r\n\nB:2:3\n").unwrap();
    assert_eq!(headers.get("A"), Some(&"1".to_string()));
    assert_eq!(headers.get("B"), Some(&"2:3".to_string()));
}

#[test]
fn framing_errors() {
    let mut parser = EslParser::new();
    parser.add_data(b"Content-Length: 12x\n\n").unwrap();
    assert!(matches!(parser.parse_message(), Err(EslError::InvalidHeader { .. })));

    let mut parser = EslParser::new();
    parser.add_data(b"Content-Length: 999999999\n\n").unwrap();
    assert!(matches!(parser.parse_message(), Err(EslError::ProtocolError { .. })));

    let mut parser = EslParser::new();
    parser.add_data(b"Content-Type: \xff\n\n").unwrap();
    assert!(matches!(parser.parse_message(), Err(EslError::ProtocolError { .. })));

    let mut parser = EslParser::new();
    parser.add_data(b"Content-Length: 2\n\n\xc3\x28").unwrap();
    assert!(matches!(parser.parse_message(), Err(EslError::ProtocolError { .. })));

    let mut parser = EslParser::new();
    parser.add_data(b"Content-Type: api/response\nContent-Length: 0\n\n").unwrap();
    let m = parser.parse_message().unwrap().unwrap();
    assert_eq!(m.message_type, MessageType::ApiResponse);
    assert_eq!(m.body, None);
}

#[test]
fn unknown_content_type_kept() {
    assert_eq!(MessageType::from_content_type("text/rude-rejection"), MessageType::Unknown("text/rude-rejection".to_string()));
    assert_eq!(MessageType::from_content_type("log/data"), MessageType::Unknown("log/data".to_string()));
    let message = EslMessage::new(MessageType::CommandReply, HeaderMap::new(), None);
    assert!(matches!(EslParser::new().parse_event(message, EventFormat::Plain), Err(EslError::ProtocolError { .. })));
}

#[test]
fn priority_header_round_trip() {
    let mut event = EslEvent::new();
    event.set_priority(EslEventPriority::Low);
    assert_eq!(event.header("priority"), Some(&"LOW".to_string()));
    event.set_header("priority", "high");
    assert_eq!(event.priority(), Some(EslEventPriority::High));
    event.set_header("priority", "urgent");
    assert_eq!(event.priority(), None);
}

#[test]
fn unique_id_falls_back_to_caller_header() {
    let mut event = EslEvent::new();
    event.set_header("Caller-Unique-ID", "c-1");
    assert_eq!(event.unique_id(), Some(&"c-1".to_string()));
    event.set_header("Unique-ID", "u-1");
    assert_eq!(event.unique_id(), Some(&"u-1".to_string()));
}

#[test]
fn command_wire_forms() {
    assert_eq!(EslCommand::UserAuth { user: "admin@default".into(), password: "pw".into() }.to_wire_format(), "userauth admin@default:pw\n\n");
    assert_eq!(EslCommand::FilterDelete { header: "Event-Name".into(), value: "HEARTBEAT".into() }.to_wire_format(), "filter delete Event-Name HEARTBEAT\n\n");
    assert_eq!(EslCommand::DivertEvents { on: true }.to_wire_format(), "divert_events on\n\n");
    assert_eq!(EslCommand::MyEvents { uuid: None }.to_wire_format(), "myevents\n\n");
    assert_eq!(EslCommand::NoOp.to_wire_format(), "noop\n\n");
    let exec = EslCommand::Execute { app: "playback".into(), args: Some("a.wav".into()), uuid: Some("u1".into()) };
    assert_eq!(exec.to_wire_format(), "sendmsg u1\ncall-command: execute\nexecute-app-arg: a.wav\nexecute-app-name: playback\n\n");
    let mut event = EslEvent::with_type(EslEventType::Custom);
    event.set_header("Event-Name", "CUSTOM");
    event.set_header("Event-Subclass", "a::b");
    assert_eq!(EslCommand::SendEvent { event }.to_wire_format(), "sendevent CUSTOM\nEvent-Name: CUSTOM\nEvent-Subclass: a%3A%3Ab\n\n");
    let mut msg = EslEvent::new();
    msg.set_header("call-command", "hangup");
    msg.set_body("x".to_string());
    assert_eq!(EslCommand::SendMsg { uuid: None, event: msg }.to_wire_format(), "sendmsg\ncall-command: hangup\nContent-Length: 1\n\nx");
}

#[test]
fn builder_sorts_headers_and_counts_bytes() {
    let cmd = CommandBuilder::new("sendmsg").header("b", "2").header("a", "1").body("é").build();
    assert_eq!(cmd, "sendmsg\na: 1\nb: 2\nContent-Length: 2\n\né");
}

#[test]
fn decimal_text() {
    assert_eq!(decimal_string(0), "0");
    assert_eq!(decimal_string(1234567), "1234567");
}

#[test]
fn variable_value_escaping() {
    assert_eq!(escape_value("a,b'c d"), "'a\\,b\\'c d'");
    assert_eq!(unescape_value("'a\\,b\\'c d'"), "a,b'c d");
    assert!(matches!("{novalue}".parse::<Variables>(), Err(OriginateError::ParseError(_))));
    assert!(matches!("(a=1)".parse::<Variables>(), Err(OriginateError::ParseError(_))));
    let mut v = Variables::new(VariablesType::Channel);
    v.insert("a", "1");
    v.insert("b", "2");
    v.insert("a", "3");
    assert_eq!(v.to_string(), "[a=3,b=2]");
    assert_eq!(v.len(), 2);
}

#[test]
fn originate_parse_errors() {
    assert!(matches!("originate".parse::<Originate>(), Err(OriginateError::ParseError(_))));
    assert!(matches!("originate sofia/x".parse::<Originate>(), Err(OriginateError::ParseError(_))));
    assert!(matches!("originate 'sofia/x &park()".parse::<Originate>(), Err(OriginateError::UnclosedQuote(_))));
    assert!(matches!("originate sofia/x &park() XML default a b notanumber".parse::<Originate>(), Err(OriginateError::ParseError(_))));
    let o: Originate = "originate sofia/x &park() XML default Alice 1000 30".parse().unwrap();
    assert_eq!(o.context.as_deref(), Some("default"));
    assert_eq!(o.cid_name.as_deref(), Some("Alice"));
    assert_eq!(o.cid_num.as_deref(), Some("1000"));
    assert_eq!(o.timeout, Some(30));
    assert_eq!(o.to_string(), "originate sofia/x &park() XML default Alice 1000 30");
}

#[test]
fn session_decisions() {
    assert_eq!(on_read(0), Some(DisconnectReason::ConnectionClosed));
    assert_eq!(on_read(5), None);
    assert!(liveness_expired(1000, 1001));
    assert!(!liveness_expired(1000, 1000));
    assert!(!liveness_expired(0, 99999));
    assert!(validate_user("admin@default").is_ok());
    assert!(matches!(validate_user("admin"), Err(EslError::AuthenticationFailed { .. })));
    assert_eq!(events_argument(&[EslEventType::ChannelAnswer, EslEventType::Heartbeat]), "CHANNEL_ANSWER HEARTBEAT");
    assert_eq!(events_argument(&[EslEventType::Dtmf, EslEventType::All]), "ALL");

    let mut s = SessionState::new(ConnectionMode::Inbound);
    s.authenticated();
    assert!(s.begin_command().is_ok());
    assert_eq!(s.command_timed_out(200), EslError::Timeout { timeout_ms: 200 });
    assert!(!s.reply_arrived());
    s.disconnected(DisconnectReason::HeartbeatExpired);
    s.disconnected(DisconnectReason::ConnectionClosed);
    assert_eq!(s.status(), freeswitch_esl_rs::session::ConnectionStatus::Disconnected(DisconnectReason::HeartbeatExpired));
    assert!(matches!(s.begin_command(), Err(EslError::NotConnected)));
}

#[test]
fn error_classification() {
    assert!(EslError::Timeout { timeout_ms: 5000 }.is_recoverable());
    assert!(!EslError::protocol_error("Invalid message format").is_recoverable());
    assert!(!EslError::auth_failed("Invalid password").is_connection_error());
    assert!(EslError::NotConnected.is_connection_error());
    assert!(EslError::QueueFull.is_recoverable());
    assert!(matches!(EslError::generic("x"), EslError::Generic { .. }));
}

#[test]
fn log_data_is_not_an_event() {
    let mut parser = EslParser::new();
    parser
        .add_data(b"Content-Type: log/data\nLog-Level: 7\nContent-Length: 12\n\nline: a b c\n")
        .unwrap();
    let message = parser.parse_message().unwrap().unwrap();
    assert_eq!(message.message_type, MessageType::Unknown("log/data".to_string()));
    assert_eq!(message.body, Some("line: a b c\n".to_string()));
    assert_eq!(
        freeswitch_esl_rs::session::classify_message(&message),
        freeswitch_esl_rs::session::ReaderAction::Ignore
    );
}

#[test]
fn empty_reply_text_is_not_success() {
    let mut parser = EslParser::new();
    parser.add_data(b"Content-Type: command/reply\nReply-Text:\n\n").unwrap();
    let message = parser.parse_message().unwrap().unwrap();
    assert!(!message.is_success());
    let response = message.into_response();
    assert!(!response.is_success());
    assert!(matches!(response.into_result(), Err(EslError::CommandFailed { .. })));
}

#[test]
fn execute_is_sendmsg_of_its_event() {
    let exec = EslCommand::Execute { app: "hangup".into(), args: Some("USER_BUSY".into()), uuid: Some("u2".into()) };
    let mut event = EslEvent::new();
    event.set_header("call-command", "execute");
    event.set_header("execute-app-name", "hangup");
    event.set_header("execute-app-arg", "USER_BUSY");
    let sendmsg = EslCommand::SendMsg { uuid: Some("u2".into()), event };
    assert_eq!(exec.to_wire_format(), sendmsg.to_wire_format());
}

#[test]
fn four_chunk_api_response() {
    let mut parser = EslParser::new();
    parser.add_data(b"Content-Type: api/response\n").unwrap();
    assert!(parser.parse_message().unwrap().is_none());
    parser.add_data(b"Content-Length: 12\n\n").unwrap();
    assert!(parser.parse_message().unwrap().is_none());
    parser.add_data(b"partial").unwrap();
    assert!(parser.parse_message().unwrap().is_none());
    parser.add_data(b"_body").unwrap();
    let m = parser.parse_message().unwrap().unwrap();
    assert_eq!(m.message_type, MessageType::ApiResponse);
    assert_eq!(m.body, Some("partial_body".to_string()));
    assert_eq!(parser.buffer_len(), 0);
}

#[test]
fn queue_full_notice_is_owed_after_a_drop() {
    let mut backlog = freeswitch_esl_rs::session::EventBacklog::new();
    assert!(!backlog.notice_owed());
    backlog.event_sent(false);
    assert!(backlog.notice_owed());
    backlog.notice_sent(false);
    assert!(backlog.notice_owed());
    backlog.notice_sent(true);
    assert!(!backlog.notice_owed());
}
