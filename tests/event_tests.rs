use freeswitch_esl_rs::event::{EslEvent, EslEventPriority, EslEventType};
use freeswitch_esl_rs::headers::HeaderMap;
use freeswitch_esl_rs::protocol::{EslMessage, EslParser, MessageType};

#[test]
fn test_notify_in_parse() {
    assert_eq!(
        EslEventType::parse_event_type("NOTIFY_IN"),
        Some(EslEventType::NotifyIn)
    );
    assert_eq!(
        EslEventType::parse_event_type("notify_in"),
        Some(EslEventType::NotifyIn)
    );
}
#[test]
fn test_notify_in_display() {
    assert_eq!(EslEventType::NotifyIn.to_string(), "NOTIFY_IN");
}
#[test]
fn test_notify_in_distinct_from_notify() {
    assert_ne!(EslEventType::Notify, EslEventType::NotifyIn);
    assert_ne!(
        EslEventType::Notify.to_string(),
        EslEventType::NotifyIn.to_string()
    );
}
#[test]
fn test_wire_names_match_c_esl() {
    assert_eq!(
        EslEventType::ChannelOutgoing.to_string(),
        "CHANNEL_OUTGOING"
    );
    assert_eq!(EslEventType::Api.to_string(), "API");
    assert_eq!(EslEventType::ReloadXml.to_string(), "RELOADXML");
    assert_eq!(EslEventType::PresenceIn.to_string(), "PRESENCE_IN");
    assert_eq!(EslEventType::Roster.to_string(), "ROSTER");
    assert_eq!(EslEventType::Text.to_string(), "TEXT");
    assert_eq!(EslEventType::ReSchedule.to_string(), "RE_SCHEDULE");

    assert_eq!(
        EslEventType::parse_event_type("CHANNEL_OUTGOING"),
        Some(EslEventType::ChannelOutgoing)
    );
    assert_eq!(
        EslEventType::parse_event_type("API"),
        Some(EslEventType::Api)
    );
    assert_eq!(
        EslEventType::parse_event_type("RELOADXML"),
        Some(EslEventType::ReloadXml)
    );
    assert_eq!(
        EslEventType::parse_event_type("PRESENCE_IN"),
        Some(EslEventType::PresenceIn)
    );
}
#[test]
fn test_del_header() {
    let mut event = EslEvent::new();
    event.set_header("Foo", "bar");
    event.set_header("Baz", "qux");

    let removed = event.del_header("Foo");
    assert_eq!(removed, Some("bar".to_string()));
    assert!(event
        .header("Foo")
        .is_none());
    assert_eq!(event.header("Baz"), Some(&"qux".to_string()));

    let removed_again = event.del_header("Foo");
    assert_eq!(removed_again, None);
}
#[test]
fn test_to_plain_format_basic() {
    let mut event = EslEvent::with_type(EslEventType::Heartbeat);
    event.set_header("Event-Name", "HEARTBEAT");
    event.set_header("Core-UUID", "abc-123");

    let plain = event.to_plain_format();

    assert!(plain.starts_with("Event-Name: "));
    assert!(plain.contains("Core-UUID: "));
    assert!(plain.ends_with("\n\n"));
}
#[test]
fn test_to_plain_format_percent_encoding() {
    let mut event = EslEvent::with_type(EslEventType::Heartbeat);
    event.set_header("Event-Name", "HEARTBEAT");
    event.set_header("Up-Time", "0 years, 0 days");

    let plain = event.to_plain_format();

    assert!(!plain.contains("0 years, 0 days"));
    assert!(plain.contains("Up-Time: "));
    assert!(plain.contains("%20"));
}
#[test]
fn test_to_plain_format_with_body() {
    let mut event = EslEvent::with_type(EslEventType::BackgroundJob);
    event.set_header("Event-Name", "BACKGROUND_JOB");
    event.set_header("Job-UUID", "def-456");
    event.set_body("+OK result\n".to_string());

    let plain = event.to_plain_format();

    assert!(plain.contains("Content-Length: 11\n"));
    assert!(plain.ends_with("\n\n+OK result\n"));
}
#[test]
fn test_to_plain_format_round_trip() {
    let mut source = EslEvent::with_type(EslEventType::Heartbeat);
    source.set_header("Event-Name", "HEARTBEAT");
    source.set_header("Core-UUID", "abc-123");
    source.set_header("Up-Time", "0 years, 0 days, 1 hour");
    source.set_header("Event-Info", "System Ready");

    let plain1 = source.to_plain_format();

    let msg1 = EslMessage::new(
        MessageType::Event,
        {
            let mut h = HeaderMap::new();
            h.insert("Content-Type".to_string(), "text/event-plain".to_string());
            h
        },
        Some(plain1.clone()),
    );
    let parsed1 = EslParser::new()
        .parse_event(msg1, freeswitch_esl_rs::event::EventFormat::Plain)
        .unwrap();

    assert_eq!(parsed1.event_type, source.event_type);
    assert_eq!(parsed1.headers, source.headers);
    assert_eq!(parsed1.body, source.body);

    let plain2 = parsed1.to_plain_format();
    let msg2 = EslMessage::new(
        MessageType::Event,
        {
            let mut h = HeaderMap::new();
            h.insert("Content-Type".to_string(), "text/event-plain".to_string());
            h
        },
        Some(plain2),
    );
    let parsed2 = EslParser::new()
        .parse_event(msg2, freeswitch_esl_rs::event::EventFormat::Plain)
        .unwrap();

    assert_eq!(parsed2.event_type, source.event_type);
    assert_eq!(parsed2.headers, source.headers);
    assert_eq!(parsed2.body, source.body);
}
#[test]
fn test_to_plain_format_round_trip_with_body() {
    let body_text = "+OK Status\nLine 2\n";
    let mut source = EslEvent::with_type(EslEventType::BackgroundJob);
    source.set_header("Event-Name", "BACKGROUND_JOB");
    source.set_header("Job-UUID", "job-789");
    source.set_header(
        "Content-Length",
        &body_text
            .len()
            .to_string(),
    );
    source.set_body(body_text.to_string());

    let plain = source.to_plain_format();
    let msg = EslMessage::new(
        MessageType::Event,
        {
            let mut h = HeaderMap::new();
            h.insert("Content-Type".to_string(), "text/event-plain".to_string());
            h
        },
        Some(plain),
    );
    let parsed = EslParser::new()
        .parse_event(msg, freeswitch_esl_rs::event::EventFormat::Plain)
        .unwrap();

    assert_eq!(parsed.event_type, source.event_type);
    assert_eq!(parsed.headers, source.headers);
    assert_eq!(parsed.body, source.body);
}
#[test]
fn test_set_priority_normal() {
    let mut event = EslEvent::new();
    event.set_priority(EslEventPriority::Normal);
    assert_eq!(event.priority(), Some(EslEventPriority::Normal));
    assert_eq!(event.header("priority"), Some(&"NORMAL".to_string()));
}
#[test]
fn test_set_priority_high() {
    let mut event = EslEvent::new();
    event.set_priority(EslEventPriority::High);
    assert_eq!(event.priority(), Some(EslEventPriority::High));
    assert_eq!(event.header("priority"), Some(&"HIGH".to_string()));
}
#[test]
fn test_priority_display() {
    assert_eq!(EslEventPriority::Normal.to_string(), "NORMAL");
    assert_eq!(EslEventPriority::Low.to_string(), "LOW");
    assert_eq!(EslEventPriority::High.to_string(), "HIGH");
}
#[test]
fn test_priority_from_str() {
    assert_eq!(
        "NORMAL".parse::<EslEventPriority>(),
        Ok(EslEventPriority::Normal)
    );
    assert_eq!("LOW".parse::<EslEventPriority>(), Ok(EslEventPriority::Low));
    assert_eq!(
        "HIGH".parse::<EslEventPriority>(),
        Ok(EslEventPriority::High)
    );
    assert!("INVALID"
        .parse::<EslEventPriority>()
        .is_err());
}
#[test]
fn test_priority_from_str_case_insensitive() {
    assert_eq!(
        "normal".parse::<EslEventPriority>(),
        Ok(EslEventPriority::Normal)
    );
    assert_eq!("Low".parse::<EslEventPriority>(), Ok(EslEventPriority::Low));
    assert_eq!(
        "hIgH".parse::<EslEventPriority>(),
        Ok(EslEventPriority::High)
    );
}
#[test]
fn test_push_header_new() {
    let mut event = EslEvent::new();
    event.push_header("X-Test", "first");
    assert_eq!(event.header("X-Test"), Some(&"first".to_string()));
}
#[test]
fn test_push_header_existing_plain() {
    let mut event = EslEvent::new();
    event.set_header("X-Test".into(), "first".into());
    event.push_header("X-Test", "second");
    assert_eq!(
        event.header("X-Test"),
        Some(&"ARRAY::first|:second".to_string())
    );
}
#[test]
fn test_push_header_existing_array() {
    let mut event = EslEvent::new();
    event.set_header("X-Test".into(), "ARRAY::a|:b".into());
    event.push_header("X-Test", "c");
    assert_eq!(event.header("X-Test"), Some(&"ARRAY::a|:b|:c".to_string()));
}
#[test]
fn test_unshift_header_new() {
    let mut event = EslEvent::new();
    event.unshift_header("X-Test", "only");
    assert_eq!(event.header("X-Test"), Some(&"only".to_string()));
}
#[test]
fn test_unshift_header_existing_array() {
    let mut event = EslEvent::new();
    event.set_header("X-Test".into(), "ARRAY::b|:c".into());
    event.unshift_header("X-Test", "a");
    assert_eq!(event.header("X-Test"), Some(&"ARRAY::a|:b|:c".to_string()));
}
#[test]
fn test_sendevent_with_priority_wire_format() {
    let mut event = EslEvent::with_type(EslEventType::Custom);
    event.set_header("Event-Name".into(), "CUSTOM".into());
    event.set_header("Event-Subclass".into(), "test::priority".into());
    event.set_priority(EslEventPriority::High);

    let plain = event.to_plain_format();
    assert!(plain.contains("priority: HIGH\n"));
}