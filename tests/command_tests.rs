use freeswitch_esl_rs::command::{CommandBuilder, EslCommand};
use freeswitch_esl_rs::dptools::AppCommand;

#[test]
fn test_command_builder() {
    let cmd = CommandBuilder::new("api status")
        .header("Custom-Header", "value")
        .body("test body")
        .build();

    assert!(cmd.contains("api status"));
    assert!(cmd.contains("Custom-Header: value"));
    assert!(cmd.contains("Content-Length: 9"));
    assert!(cmd.contains("test body"));
}
#[test]
fn test_esl_commands() {
    let auth = EslCommand::Auth {
        password: "test".to_string(),
    };
    assert_eq!(auth.to_wire_format(), "auth test\n\n");

    let api = EslCommand::Api {
        command: "status".to_string(),
    };
    assert_eq!(api.to_wire_format(), "api status\n\n");

    let events = EslCommand::Events {
        format: "plain".to_string(),
        events: "ALL".to_string(),
    };
    assert_eq!(events.to_wire_format(), "event plain ALL\n\n");
}
#[test]
fn test_app_commands() {
    let answer = AppCommand::answer().to_wire_format();
    assert!(answer.contains("execute-app-name: answer"));

    let hangup = AppCommand::hangup(Some("NORMAL_CLEARING")).to_wire_format();
    assert!(hangup.contains("execute-app-name: hangup"));
    assert!(hangup.contains("execute-app-arg: NORMAL_CLEARING"));
}