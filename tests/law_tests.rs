use freeswitch_esl_rs::buffer::{EslBuffer, MAX_BUFFER_SIZE};
use freeswitch_esl_rs::command::{EslCommand, ReplyStatus};
use freeswitch_esl_rs::error::EslError;
use freeswitch_esl_rs::event::{EslEvent, EslEventType, EventFormat};
use freeswitch_esl_rs::headers::HeaderMap;
use freeswitch_esl_rs::originate::{
    Application, ApplicationList, DialplanType, Endpoint, Originate, Variables, VariablesType,
};
use freeswitch_esl_rs::protocol::{EslMessage, EslParser, MessageType};
use freeswitch_esl_rs::session::{
    check_auth_reply, ConnectionMode, ConnectionStatus, DisconnectReason, ReaderAction, SessionState,
};

fn frame(parser: &mut EslParser, bytes: &[u8]) -> Option<EslMessage> {
    parser.add_data(bytes).unwrap();
    parser.parse_message().unwrap()
}

#[test]
fn plain_event_round_trip_through_framing() {
    let mut source = EslEvent::with_type(EslEventType::BackgroundJob);
    source.set_header("Event-Name", "BACKGROUND_JOB");
    source.set_header("Job-UUID", "job 1, 2: 'x' 100%");
    source.set_header("Content-Length", "7");
    source.set_body("+OK é\n".to_string());
    let plain = source.to_plain_format();
    let wire = format!("Content-Length: {}\nContent-Type: text/event-plain\n\n{}", plain.len(), plain);

    let mut parser = EslParser::new();
    let message = frame(&mut parser, wire.as_bytes()).unwrap();
    assert_eq!(message.message_type, MessageType::Event);
    let parsed = parser.parse_event(message, EventFormat::Plain).unwrap();
    assert_eq!(parsed.headers, source.headers);
    assert_eq!(parsed.body, source.body);
    assert_eq!(parsed.event_type, Some(EslEventType::BackgroundJob));
}

#[test]
fn compaction_keeps_unread_bytes() {
    let mut buffer = EslBuffer::new();
    buffer.extend_from_slice(b"abc\n\ndef");
    let head = buffer.extract_until_pattern(b"\n\n").unwrap();
    assert_eq!(head, b"abc");
    let before = buffer.data().to_vec();
    buffer.compact();
    assert_eq!(buffer.data(), &before[..]);
    buffer.compact();
    assert_eq!(buffer.data(), b"def");
}

#[test]
fn reassembly_at_every_split() {
    let msg = b"Content-Type: api/response\nContent-Length: 5\n\nhello";
    let mut whole = EslParser::new();
    let expected = frame(&mut whole, msg).unwrap();
    for k in 0..msg.len() {
        let mut parser = EslParser::new();
        assert!(frame(&mut parser, &msg[..k]).is_none());
        let m = frame(&mut parser, &msg[k..]).unwrap();
        assert_eq!(m.message_type, expected.message_type);
        assert_eq!(m.headers, expected.headers);
        assert_eq!(m.body, expected.body);
        assert!(parser.parse_message().unwrap().is_none());
    }
}

#[test]
fn size_limit_enforced() {
    let mut parser = EslParser::new();
    let chunk = vec![b'x'; 1024 * 1024];
    for _ in 0..16 {
        parser.add_data(&chunk).unwrap();
    }
    match parser.add_data(b"y") {
        Err(EslError::BufferOverflow { size, limit }) => {
            assert_eq!(size, 16 * 1024 * 1024 + 1);
            assert_eq!(limit, MAX_BUFFER_SIZE);
        }
        other => panic!("expected overflow, got {:?}", other),
    }
}

#[test]
fn array_header_scenario() {
    let mut event = EslEvent::new();
    event.push_header("X", "a");
    assert_eq!(event.header("X"), Some(&"a".to_string()));
    event.push_header("X", "b");
    assert_eq!(event.header("X"), Some(&"ARRAY::a|:b".to_string()));
    event.unshift_header("X", "z");
    assert_eq!(event.header("X"), Some(&"ARRAY::z|:a|:b".to_string()));
}

fn reply(text: Option<&str>) -> EslMessage {
    let mut parser = EslParser::new();
    let wire = match text {
        Some(t) => format!("Content-Type: command/reply\nReply-Text: {}\n\n", t),
        None => "Content-Type: command/reply\n\n".to_string(),
    };
    frame(&mut parser, wire.as_bytes()).unwrap()
}

#[test]
fn reply_classification() {
    let ok = reply(Some("+OK accepted")).into_response();
    assert!(ok.is_success());
    assert_eq!(ok.reply_status(), ReplyStatus::Accepted);
    assert!(ok.into_result().is_ok());

    let err = reply(Some("-ERR no such channel")).into_response();
    assert!(!err.is_success());
    assert_eq!(err.reply_status(), ReplyStatus::Rejected);
    match err.into_result() {
        Err(EslError::CommandFailed { reply_text }) => assert_eq!(reply_text, "-ERR no such channel"),
        other => panic!("expected command failure, got {:?}", other),
    }

    let none = reply(None).into_response();
    assert!(none.is_success());
    assert_eq!(none.reply_status(), ReplyStatus::Other);
    assert!(matches!(none.into_checked(), Err(EslError::UnexpectedReply { .. })));
}

#[test]
fn originate_round_trip_scenario() {
    let mut vars = Variables::new(VariablesType::Default);
    vars.insert("origination_caller_id_name", "O'Brien, Pat");
    vars.insert("leg_timeout", "30");
    let orig = Originate {
        endpoint: Endpoint::Generic { uri: "sofia/gateway/gw/1000".into(), variables: Some(vars) },
        applications: ApplicationList(vec![Application::new("park", Some(""))]),
        dialplan: Some(DialplanType::Inline),
        context: None,
        cid_name: None,
        cid_num: None,
        timeout: None,
    };
    let text = orig.to_string();
    assert_eq!(
        text,
        "originate {origination_caller_id_name='O\\'Brien\\, Pat',leg_timeout=30}sofia/gateway/gw/1000 park: inline"
    );
    let parsed: Originate = text.parse().unwrap();
    match &parsed.endpoint {
        Endpoint::Generic { uri, variables: Some(v) } => {
            assert_eq!(uri, "sofia/gateway/gw/1000");
            assert_eq!(v.get("origination_caller_id_name"), Some("O'Brien, Pat"));
            assert_eq!(v.get("leg_timeout"), Some("30"));
        }
        other => panic!("unexpected endpoint {:?}", other),
    }
    assert_eq!(parsed.applications, orig.applications);
    assert_eq!(parsed.dialplan, Some(DialplanType::Inline));
    assert_eq!(parsed.to_string(), text);
}

#[test]
fn auth_failure_scenario() {
    let mut parser = EslParser::new();
    let challenge = frame(&mut parser, b"Content-Type: auth/request\n\n").unwrap();
    assert_eq!(challenge.message_type, MessageType::AuthRequest);
    let cmd = EslCommand::Auth { password: "wrong".to_string() };
    assert_eq!(cmd.to_wire_format(), "auth wrong\n\n");
    let answer = frame(&mut parser, b"Content-Type: command/reply\nReply-Text: -ERR invalid\n\n").unwrap();
    let mut session = SessionState::new(ConnectionMode::Inbound);
    match check_auth_reply(&answer.into_response()) {
        Err(EslError::AuthenticationFailed { reason }) => assert_eq!(reason, "-ERR invalid"),
        other => panic!("expected authentication failure, got {:?}", other),
    }
    assert!(!session.is_connected());
    assert!(matches!(session.begin_command(), Err(EslError::NotConnected)));
}

#[test]
fn background_job_correlation_scenario() {
    let mut parser = EslParser::new();
    let bg = EslCommand::BgApi { command: "status".to_string() };
    assert_eq!(bg.to_wire_format(), "bgapi status\n\n");
    let reply = frame(
        &mut parser,
        b"Content-Type: command/reply\nReply-Text: +OK Job-UUID: 7f4d\nJob-UUID: 7f4d\n\n",
    )
    .unwrap()
    .into_response();
    let job = reply.job_uuid().unwrap().clone();

    let body = "Event-Name: BACKGROUND_JOB\nJob-UUID: 7f4d\nContent-Length: 3\n\nUP\n";
    let wire = format!("Content-Length: {}\nContent-Type: text/event-plain\n\n{}", body.len(), body);
    let message = frame(&mut parser, wire.as_bytes()).unwrap();
    let event = parser.parse_event(message, EventFormat::Plain).unwrap();
    assert!(event.is_event_type(EslEventType::BackgroundJob));
    assert_eq!(event.job_uuid(), Some(&job));
    assert_eq!(event.body(), Some(&"UP\n".to_string()));
}

#[test]
fn linger_versus_disconnect_scenario() {
    let mut session = SessionState::new(ConnectionMode::Outbound);
    let mut parser = EslParser::new();
    let linger = frame(
        &mut parser,
        b"Content-Type: text/disconnect-notice\nContent-Disposition: linger\nContent-Length: 3\n\nbye",
    )
    .unwrap();
    assert_eq!(session.on_message(&linger), ReaderAction::Ignore);
    assert!(session.is_connected());

    let notice = frame(
        &mut parser,
        b"Content-Type: text/disconnect-notice\nContent-Disposition: disconnect\nContent-Length: 3\n\nbye",
    )
    .unwrap();
    assert_eq!(session.on_message(&notice), ReaderAction::Disconnect(DisconnectReason::ServerNotice));
    assert_eq!(session.status(), ConnectionStatus::Disconnected(DisconnectReason::ServerNotice));
    assert!(!session.is_connected());
}

#[test]
fn header_map_equality_ignores_insertion_order() {
    let mut a = HeaderMap::new();
    a.insert("B".to_string(), "2".to_string());
    a.insert("A".to_string(), "1".to_string());
    let mut b = HeaderMap::new();
    b.insert("A".to_string(), "1".to_string());
    b.insert("B".to_string(), "2".to_string());
    assert_eq!(a, b);
    assert_eq!(a.entries()[0].0, "A");
}

#[test]
fn plain_round_trip_recomputes_content_length() {
    let mut source = EslEvent::new();
    source.set_header("Event-Name", "CUSTOM");
    source.set_header("X-Note", "a b\nc");
    source.set_body("two\nlines".to_string());
    let mut headers = HeaderMap::new();
    headers.insert("Content-Type".to_string(), "text/event-plain".to_string());
    let message = EslMessage::new(MessageType::Event, headers, Some(source.to_plain_format()));
    let parsed = EslParser::new().parse_event(message, EventFormat::Plain).unwrap();
    assert_eq!(parsed.header("X-Note"), Some(&"a b\nc".to_string()));
    assert_eq!(parsed.header("Content-Length"), Some(&"9".to_string()));
    assert_eq!(parsed.body, source.body);
    assert_eq!(parsed.event_type, Some(EslEventType::Custom));

    let mut no_body = EslEvent::new();
    no_body.set_header("Content-Length", "5");
    no_body.set_header("A", "1");
    let mut headers = HeaderMap::new();
    headers.insert("Content-Type".to_string(), "text/event-plain".to_string());
    let message = EslMessage::new(MessageType::Event, headers, Some(no_body.to_plain_format()));
    let parsed = EslParser::new().parse_event(message, EventFormat::Plain).unwrap();
    assert_eq!(parsed.header("Content-Length"), None);
    assert_eq!(parsed.header("A"), Some(&"1".to_string()));
    assert_eq!(parsed.body, None);
}
