use freeswitch_esl_rs::conference::{ConferenceDtmf, ConferenceHold, ConferenceMute, HoldAction, MuteAction};

#[test]
fn conference_mute() {
    let cmd = ConferenceMute {
        name: "conf1".into(),
        action: MuteAction::Mute,
        member_id: "5".into(),
    };
    assert_eq!(cmd.to_string(), "conference conf1 mute 5");
}
#[test]
fn conference_unmute() {
    let cmd = ConferenceMute {
        name: "conf1".into(),
        action: MuteAction::Unmute,
        member_id: "5".into(),
    };
    assert_eq!(cmd.to_string(), "conference conf1 unmute 5");
}
#[test]
fn conference_hold_all() {
    let cmd = ConferenceHold {
        name: "conf1".into(),
        action: HoldAction::Hold,
        member: "all".into(),
        stream: None,
    };
    assert_eq!(cmd.to_string(), "conference conf1 hold all");
}
#[test]
fn conference_hold_with_stream() {
    let cmd = ConferenceHold {
        name: "conf1".into(),
        action: HoldAction::Hold,
        member: "all".into(),
        stream: Some("local_stream://moh".into()),
    };
    assert_eq!(
        cmd.to_string(),
        "conference conf1 hold all local_stream://moh"
    );
}
#[test]
fn conference_unhold() {
    let cmd = ConferenceHold {
        name: "conf1".into(),
        action: HoldAction::Unhold,
        member: "all".into(),
        stream: None,
    };
    assert_eq!(cmd.to_string(), "conference conf1 unhold all");
}
#[test]
fn conference_dtmf() {
    let cmd = ConferenceDtmf {
        name: "conf1".into(),
        member: "all".into(),
        dtmf: "1234".into(),
    };
    assert_eq!(cmd.to_string(), "conference conf1 dtmf all 1234");
}