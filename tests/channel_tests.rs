use freeswitch_esl_rs::event::EslEvent;

#[test]
fn caller_timetable_all_fields() {
    let mut event = EslEvent::new();
    event.set_header("Caller-Profile-Created-Time", "1700000000000000");
    event.set_header("Caller-Channel-Created-Time", "1700000001000000");
    event.set_header("Caller-Channel-Answered-Time", "1700000005000000");
    event.set_header("Caller-Channel-Progress-Time", "1700000002000000");
    event.set_header("Caller-Channel-Progress-Media-Time", "1700000003000000");
    event.set_header("Caller-Channel-Hangup-Time", "0");
    event.set_header("Caller-Channel-Transfer-Time", "0");
    event.set_header("Caller-Channel-Resurrect-Time", "0");
    event.set_header("Caller-Channel-Bridged-Time", "1700000006000000");
    event.set_header("Caller-Channel-Last-Hold", "0");
    event.set_header("Caller-Channel-Hold-Accum", "0");

    let tt = event
        .caller_timetable()
        .expect("should parse");
    assert_eq!(tt.profile_created, Some(1700000000000000));
    assert_eq!(tt.created, Some(1700000001000000));
    assert_eq!(tt.answered, Some(1700000005000000));
    assert_eq!(tt.progress, Some(1700000002000000));
    assert_eq!(tt.progress_media, Some(1700000003000000));
    assert_eq!(tt.hungup, Some(0));
    assert_eq!(tt.transferred, Some(0));
    assert_eq!(tt.resurrected, Some(0));
    assert_eq!(tt.bridged, Some(1700000006000000));
    assert_eq!(tt.last_hold, Some(0));
    assert_eq!(tt.hold_accum, Some(0));
}
#[test]
fn other_leg_timetable() {
    let mut event = EslEvent::new();
    event.set_header("Other-Leg-Profile-Created-Time", "1700000000000000");
    event.set_header("Other-Leg-Channel-Created-Time", "1700000001000000");
    event.set_header("Other-Leg-Channel-Answered-Time", "1700000005000000");
    event.set_header("Other-Leg-Channel-Progress-Time", "0");
    event.set_header("Other-Leg-Channel-Progress-Media-Time", "0");
    event.set_header("Other-Leg-Channel-Hangup-Time", "0");
    event.set_header("Other-Leg-Channel-Transfer-Time", "0");
    event.set_header("Other-Leg-Channel-Resurrect-Time", "0");
    event.set_header("Other-Leg-Channel-Bridged-Time", "1700000006000000");
    event.set_header("Other-Leg-Channel-Last-Hold", "0");
    event.set_header("Other-Leg-Channel-Hold-Accum", "0");

    let tt = event
        .other_leg_timetable()
        .expect("should parse");
    assert_eq!(tt.created, Some(1700000001000000));
    assert_eq!(tt.bridged, Some(1700000006000000));
}
#[test]
fn timetable_no_headers() {
    let event = EslEvent::new();
    assert!(event
        .caller_timetable()
        .is_none());
    assert!(event
        .other_leg_timetable()
        .is_none());
}
#[test]
fn timetable_partial_headers() {
    let mut event = EslEvent::new();
    event.set_header("Caller-Channel-Created-Time", "1700000001000000");

    let tt = event
        .caller_timetable()
        .expect("at least one field parsed");
    assert_eq!(tt.created, Some(1700000001000000));
    assert_eq!(tt.answered, None);
    assert_eq!(tt.profile_created, None);
}
#[test]
fn timetable_invalid_value_only() {
    let mut event = EslEvent::new();
    event.set_header("Caller-Channel-Created-Time", "not_a_number");

    assert!(event
        .caller_timetable()
        .is_none());
}
#[test]
fn timetable_zero_preserved() {
    let mut event = EslEvent::new();
    event.set_header("Caller-Channel-Hangup-Time", "0");

    let tt = event
        .caller_timetable()
        .expect("should parse");
    assert_eq!(tt.hungup, Some(0));
}
#[test]
fn timetable_custom_prefix() {
    let mut event = EslEvent::new();
    event.set_header("Channel-Channel-Created-Time", "1700000001000000");

    let tt = event
        .timetable("Channel")
        .expect("custom prefix should work");
    assert_eq!(tt.created, Some(1700000001000000));
}