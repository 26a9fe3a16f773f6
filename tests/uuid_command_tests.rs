use freeswitch_esl_rs::uuid_commands::{
    UuidAnswer, UuidBridge, UuidDeflect, UuidGetVar, UuidHold, UuidKill, UuidSendDtmf, UuidSetVar, UuidTransfer,
};

const UUID: &str = "abc12345-6789-0abc-def0-123456789abc";
const OTHER: &str = "def12345-6789-0abc-def0-123456789abc";

#[test]
fn uuid_answer() {
    let cmd = UuidAnswer { uuid: UUID.into() };
    assert_eq!(cmd.to_string(), format!("uuid_answer {}", UUID));
}
#[test]
fn uuid_bridge() {
    let cmd = UuidBridge {
        uuid: UUID.into(),
        other: OTHER.into(),
    };
    assert_eq!(cmd.to_string(), format!("uuid_bridge {} {}", UUID, OTHER));
}
#[test]
fn uuid_deflect() {
    let cmd = UuidDeflect {
        uuid: UUID.into(),
        uri: "sip:user@host".into(),
    };
    assert_eq!(
        cmd.to_string(),
        format!("uuid_deflect {} sip:user@host", UUID)
    );
}
#[test]
fn uuid_hold_on() {
    let cmd = UuidHold {
        uuid: UUID.into(),
        off: false,
    };
    assert_eq!(cmd.to_string(), format!("uuid_hold {}", UUID));
}
#[test]
fn uuid_hold_off() {
    let cmd = UuidHold {
        uuid: UUID.into(),
        off: true,
    };
    assert_eq!(cmd.to_string(), format!("uuid_hold off {}", UUID));
}
#[test]
fn uuid_kill_no_cause() {
    let cmd = UuidKill {
        uuid: UUID.into(),
        cause: None,
    };
    assert_eq!(cmd.to_string(), format!("uuid_kill {}", UUID));
}
#[test]
fn uuid_kill_with_cause() {
    let cmd = UuidKill {
        uuid: UUID.into(),
        cause: Some("NORMAL_CLEARING".into()),
    };
    assert_eq!(
        cmd.to_string(),
        format!("uuid_kill {} NORMAL_CLEARING", UUID)
    );
}
#[test]
fn uuid_getvar() {
    let cmd = UuidGetVar {
        uuid: UUID.into(),
        key: "sip_call_id".into(),
    };
    assert_eq!(cmd.to_string(), format!("uuid_getvar {} sip_call_id", UUID));
}
#[test]
fn uuid_setvar() {
    let cmd = UuidSetVar {
        uuid: UUID.into(),
        key: "hangup_after_bridge".into(),
        value: "true".into(),
    };
    assert_eq!(
        cmd.to_string(),
        format!("uuid_setvar {} hangup_after_bridge true", UUID)
    );
}
#[test]
fn uuid_transfer_no_dialplan() {
    let cmd = UuidTransfer {
        uuid: UUID.into(),
        destination: "1000".into(),
        dialplan: None,
    };
    assert_eq!(cmd.to_string(), format!("uuid_transfer {} 1000", UUID));
}
#[test]
fn uuid_transfer_with_dialplan() {
    let cmd = UuidTransfer {
        uuid: UUID.into(),
        destination: "1000".into(),
        dialplan: Some("XML".into()),
    };
    assert_eq!(cmd.to_string(), format!("uuid_transfer {} 1000 XML", UUID));
}
#[test]
fn uuid_send_dtmf() {
    let cmd = UuidSendDtmf {
        uuid: UUID.into(),
        dtmf: "1234#".into(),
    };
    assert_eq!(cmd.to_string(), format!("uuid_send_dtmf {} 1234#", UUID));
}