use freeswitch_esl::engine::{Action, Engine};
use freeswitch_esl::message::Message;

fn msg(headers: &[(&str, &str)], body: Option<&str>) -> Message {
    Message {
        headers: headers.iter().map(|(k, v)| (k.to_string(), v.to_string())).collect(),
        body: body.map(|b| b.to_string()),
    }
}

#[test]
fn replies_fulfill_slots_in_send_order() {
    let mut e = Engine::new();
    let s0 = e.begin_command();
    let s1 = e.begin_command();
    let s2 = e.begin_command();
    let reply = msg(&[("Content-Type", "command/reply")], None);
    assert!(matches!(e.on_message(&reply), Action::FulfillReply { slot } if slot == s0));
    assert!(matches!(e.on_message(&reply), Action::FulfillReply { slot } if slot == s1));
    assert!(matches!(e.on_message(&reply), Action::FulfillReply { slot } if slot == s2));
    assert!(matches!(e.on_message(&reply), Action::Ignore));
}

#[test]
fn a_job_is_fulfilled_only_by_its_own_identifier() {
    let mut e = Engine::new();
    let slot = e.begin_job("jobA".to_string());
    let other = msg(
        &[("Content-Type", "text/event-json")],
        Some("{\"Job-UUID\": \"jobB\"}"),
    );
    assert!(matches!(e.on_message(&other), Action::Ignore));
    let own = msg(
        &[("Content-Type", "text/event-json")],
        Some("{\"Job-UUID\": \"jobA\"}"),
    );
    assert!(matches!(e.on_message(&own), Action::FulfillJob { slot: s } if s == slot));
    assert!(matches!(e.on_message(&own), Action::Ignore));
}

#[test]
fn an_application_completion_fulfills_its_job() {
    let mut e = Engine::new();
    let slot = e.begin_job("app-1".to_string());
    let wrong_name = msg(
        &[("Content-Type", "text/event-json")],
        Some("{\"Application-UUID\": \"app-1\", \"Event-Name\": \"CHANNEL_ANSWER\"}"),
    );
    assert!(matches!(e.on_message(&wrong_name), Action::DeliverEvent { .. }));
    let complete = msg(
        &[("Content-Type", "text/event-json")],
        Some("{\"Application-UUID\": \"app-1\", \"Event-Name\": \"CHANNEL_EXECUTE_COMPLETE\"}"),
    );
    assert!(matches!(e.on_message(&complete), Action::FulfillJob { slot: s } if s == slot));
}

#[test]
fn a_free_event_is_delivered_with_its_fields() {
    let mut e = Engine::new();
    let ev = msg(
        &[("Content-Type", "text/event-json")],
        Some("{\"Event-Name\": \"HEARTBEAT\", \"Up-Time\": \"33\"}"),
    );
    match e.on_message(&ev) {
        Action::DeliverEvent { fields } => {
            assert!(fields.contains(&("Event-Name".to_string(), Some("HEARTBEAT".to_string()))));
            assert!(fields.contains(&("Up-Time".to_string(), Some("33".to_string()))));
        }
        other => panic!("expected a delivery, got {:?}", discriminant_name(&other)),
    }
}

fn discriminant_name(a: &Action) -> &'static str {
    match a {
        Action::Shutdown { .. } => "Shutdown",
        Action::FulfillReply { .. } => "FulfillReply",
        Action::FulfillJob { .. } => "FulfillJob",
        Action::DeliverEvent { .. } => "DeliverEvent",
        Action::Ignore => "Ignore",
    }
}

#[test]
fn a_disconnect_notice_drains_every_pending_slot() {
    let mut e = Engine::new();
    let s0 = e.begin_command();
    let s1 = e.begin_command();
    let notice = msg(&[("Content-Type", "text/disconnect-notice")], None);
    match e.on_message(&notice) {
        Action::Shutdown { drained } => assert_eq!(drained, vec![s0, s1]),
        other => panic!("expected a shutdown, got {:?}", discriminant_name(&other)),
    }
    let reply = msg(&[("Content-Type", "command/reply")], None);
    assert!(matches!(e.on_message(&reply), Action::Ignore));
}

#[test]
fn an_event_without_a_body_tears_the_connection_down() {
    let mut e = Engine::new();
    let s0 = e.begin_command();
    let broken = msg(&[("Content-Type", "text/event-json")], None);
    match e.on_message(&broken) {
        Action::Shutdown { drained } => assert_eq!(drained, vec![s0]),
        other => panic!("expected a shutdown, got {:?}", discriminant_name(&other)),
    }
}

#[test]
fn an_unparseable_event_body_tears_the_connection_down() {
    let mut e = Engine::new();
    let broken = msg(&[("Content-Type", "text/event-json")], Some("not json"));
    assert!(matches!(e.on_message(&broken), Action::Shutdown { .. }));
}

#[test]
fn end_of_stream_drains_like_a_disconnect() {
    let mut e = Engine::new();
    let s0 = e.begin_command();
    let s1 = e.begin_command();
    assert_eq!(e.on_stream_end(), vec![s0, s1]);
}

#[test]
fn registering_a_job_twice_keeps_one_slot_per_identifier() {
    let mut e = Engine::new();
    let _old_slot = e.begin_job("J".to_string());
    let new_slot = e.begin_job("J".to_string());
    let own = msg(
        &[("Content-Type", "text/event-json")],
        Some("{\"Job-UUID\": \"J\"}"),
    );
    assert!(matches!(e.on_message(&own), Action::FulfillJob { slot } if slot == new_slot));
    assert!(matches!(e.on_message(&own), Action::Ignore));
}

#[test]
fn connection_flag_setters() {
    let mut e = Engine::new();
    assert!(!e.is_connected());
    e.set_connected(true);
    assert!(e.is_connected());
    e.bind_call("abc".to_string());
    assert_eq!(e.call_uuid, Some("abc".to_string()));
}
