use freeswitch_esl::engine::{Action, Engine};
use freeswitch_esl::error::EslError;
use freeswitch_esl::message::Message;
use freeswitch_esl::reply::{interpret_api_reply, parse_api_response, ReplyCode};
use freeswitch_esl::session::{
    api_command, bgapi_command, execute_command, interpret_bgapi_completion, prepare_bgapi,
    prepare_execute, subscribe_command, Esl, HandshakeAction, HandshakePhase,
};

fn msg(headers: &[(&str, &str)], body: Option<&str>) -> Message {
    Message {
        headers: headers.iter().map(|(k, v)| (k.to_string(), v.to_string())).collect(),
        body: body.map(|b| b.to_string()),
    }
}

#[test]
fn api_success_yields_the_trailing_text() {
    assert_eq!(interpret_api_reply("+OK status-text\n"), Ok("status-text".to_string()));
}

#[test]
fn api_failure_carries_the_reason() {
    assert_eq!(
        interpret_api_reply("-ERR reason\n"),
        Err(EslError::ApiError("reason".to_string()))
    );
}

#[test]
fn an_unknown_code_passes_the_raw_body_through() {
    assert_eq!(
        interpret_api_reply("~HUH whatever\n"),
        Ok("~HUH whatever\n".to_string())
    );
}

#[test]
fn a_body_without_whitespace_is_an_internal_error() {
    assert!(matches!(
        parse_api_response("nowhitespace"),
        Err(EslError::InternalError(_))
    ));
}

#[test]
fn parse_api_response_splits_code_and_text() {
    assert_eq!(
        parse_api_response("+OK accepted\n"),
        Ok((ReplyCode::Okay, "accepted".to_string()))
    );
    assert_eq!(
        parse_api_response("-ERR invalid\n"),
        Ok((ReplyCode::Failure, "invalid".to_string()))
    );
}

#[test]
fn inbound_bootstrap_with_the_correct_password_connects() {
    let mut h = Esl::inbound("secret".to_string());
    let greeting = msg(&[("Content-Type", "auth/request")], None);
    match h.on_reply(&greeting) {
        HandshakeAction::Send { command } => assert_eq!(command, "auth secret"),
        _ => panic!("expected the auth command"),
    }
    let auth_ok = msg(&[("Reply-Text", "+OK accepted\n")], None);
    match h.on_reply(&auth_ok) {
        HandshakeAction::Send { command } => {
            assert_eq!(command, "event json BACKGROUND_JOB CHANNEL_EXECUTE_COMPLETE")
        }
        _ => panic!("expected the subscription command"),
    }
    assert!(h.connected);
    let sub_ok = msg(&[("Reply-Text", "+OK event listener enabled json\n")], None);
    assert!(matches!(h.on_reply(&sub_ok), HandshakeAction::Done));
    assert_eq!(h.phase, HandshakePhase::Complete);
}

#[test]
fn inbound_bootstrap_with_the_wrong_password_fails() {
    let mut h = Esl::inbound("wrong".to_string());
    let greeting = msg(&[("Content-Type", "auth/request")], None);
    let _ = h.on_reply(&greeting);
    let auth_err = msg(&[("Reply-Text", "-ERR invalid\n")], None);
    match h.on_reply(&auth_err) {
        HandshakeAction::Fail { error } => assert_eq!(error, EslError::AuthFailed),
        _ => panic!("expected an authentication failure"),
    }
    assert!(!h.connected);
    assert_eq!(h.phase, HandshakePhase::Failed);
}

#[test]
fn outbound_bootstrap_binds_the_call_identifier() {
    let (mut h, first) = Esl::outbound();
    assert_eq!(first, "connect");
    let connect_reply = msg(
        &[("Channel-Unique-ID", "abc-123"), ("Channel-Name", "sofia/x")],
        None,
    );
    match h.on_reply(&connect_reply) {
        HandshakeAction::Send { command } => {
            assert_eq!(command, "event json BACKGROUND_JOB CHANNEL_EXECUTE_COMPLETE")
        }
        _ => panic!("expected the subscription command"),
    }
    let sub_reply = msg(&[("Reply-Text", "+OK\n")], None);
    match h.on_reply(&sub_reply) {
        HandshakeAction::Send { command } => assert_eq!(command, "myevents"),
        _ => panic!("expected the myevents command"),
    }
    let myevents_reply = msg(&[("Reply-Text", "+OK Events Enabled\n")], None);
    assert!(matches!(h.on_reply(&myevents_reply), HandshakeAction::Done));
    assert_eq!(h.call_uuid, Some("abc-123".to_string()));
}

#[test]
fn outbound_bootstrap_without_the_identifier_fails() {
    let (mut h, _first) = Esl::outbound();
    let connect_reply = msg(&[("Channel-Name", "sofia/x")], None);
    let _ = h.on_reply(&connect_reply);
    let sub_reply = msg(&[("Reply-Text", "+OK\n")], None);
    let _ = h.on_reply(&sub_reply);
    let myevents_reply = msg(&[("Reply-Text", "+OK\n")], None);
    assert!(matches!(
        h.on_reply(&myevents_reply),
        HandshakeAction::Fail { error: EslError::InternalError(_) }
    ));
}

#[test]
fn bgapi_completion_reads_the_job_result_from_the_json_body() {
    let event = msg(
        &[("Content-Type", "text/event-json")],
        Some("{\"Event-Name\": \"BACKGROUND_JOB\", \"_body\": \"+OK job-result\\n\"}"),
    );
    assert_eq!(interpret_bgapi_completion(&event), Ok("job-result".to_string()));
}

#[test]
fn bgapi_completion_falls_back_to_the_event_headers() {
    let event = msg(
        &[("_body", "+OK from-header\n")],
        Some("{\"Event-Name\": \"BACKGROUND_JOB\"}"),
    );
    assert_eq!(interpret_bgapi_completion(&event), Ok("from-header".to_string()));
}

#[test]
fn bgapi_completion_body_fields_shadow_headers() {
    let event = msg(
        &[("_body", "+OK from-header\n")],
        Some("{\"_body\": \"-ERR from-body\\n\"}"),
    );
    assert_eq!(
        interpret_bgapi_completion(&event),
        Err(EslError::ApiError("from-body".to_string()))
    );
}

#[test]
fn bgapi_completion_without_any_body_entry_is_an_internal_error() {
    let event = msg(&[("Event-Name", "BACKGROUND_JOB")], Some("{}"));
    assert!(matches!(
        interpret_bgapi_completion(&event),
        Err(EslError::InternalError(_))
    ));
}

#[test]
fn prepare_bgapi_registers_the_job_its_command_names() {
    let mut e = Engine::new();
    let (cmd, id, slot) = prepare_bgapi(&mut e, "originate user/1001 &echo()");
    assert_eq!(id.chars().count(), 36);
    assert_eq!(cmd, format!("bgapi originate user/1001 &echo()\nJob-UUID: {}", id));
    let completion = msg(
        &[("Content-Type", "text/event-json")],
        Some(&format!("{{\"Job-UUID\": \"{}\"}}", id)),
    );
    assert!(matches!(e.on_message(&completion), Action::FulfillJob { slot: s } if s == slot));
}

#[test]
fn prepare_execute_embeds_the_call_and_application_identifiers() {
    let mut e = Engine::new();
    e.bind_call("call-7".to_string());
    let (cmd, id, slot) = prepare_execute(&mut e, "playback", "beep.wav");
    assert_eq!(id.chars().count(), 36);
    assert_eq!(
        cmd,
        format!(
            "sendmsg call-7\nexecute-app-name: playback\nexecute-app-arg: beep.wav\ncall-command: execute\nEvent-UUID: {}",
            id
        )
    );
    let completion = msg(
        &[("Content-Type", "text/event-json")],
        Some(&format!(
            "{{\"Application-UUID\": \"{}\", \"Event-Name\": \"CHANNEL_EXECUTE_COMPLETE\"}}",
            id
        )),
    );
    assert!(matches!(e.on_message(&completion), Action::FulfillJob { slot: s } if s == slot));
}

#[test]
fn command_builders_produce_the_wire_lines() {
    assert_eq!(api_command("reloadxml"), "api reloadxml");
    assert_eq!(bgapi_command("status", "j-1"), "bgapi status\nJob-UUID: j-1");
    assert_eq!(
        subscribe_command(&vec!["BACKGROUND_JOB".to_string(), "CHANNEL_EXECUTE_COMPLETE".to_string()]),
        "event json BACKGROUND_JOB CHANNEL_EXECUTE_COMPLETE"
    );
    assert_eq!(
        execute_command("c-1", "hangup", "NORMAL_CLEARING", "e-1"),
        "sendmsg c-1\nexecute-app-name: hangup\nexecute-app-arg: NORMAL_CLEARING\ncall-command: execute\nEvent-UUID: e-1"
    );
}
