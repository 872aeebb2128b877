use auth_gateway::broker::{consumer_settings, producer_settings, GROUP_ID};
use auth_gateway::consumer::{
    Action, Command, ConsumerEvent, ConsumerState, CustomMessage, Delivery, KafkaMessage, Severity, TOPIC,
};

fn event(id: i32) -> KafkaMessage {
    KafkaMessage {
        action: Action::Create,
        message_id: id,
        data: Some(CustomMessage { name: "n".to_string(), message: "m".to_string() }),
    }
}

fn subscribed() -> ConsumerState {
    let (s, c) = ConsumerState::new().step(ConsumerEvent::Start);
    assert!(matches!(c, Command::Subscribe));
    let (s, c) = s.step(ConsumerEvent::Subscribed);
    assert!(matches!(c, Command::Receive));
    assert_eq!(s, ConsumerState::Receiving);
    s
}

#[test]
fn subscription_failure_aborts() {
    let (s, _) = ConsumerState::new().step(ConsumerEvent::Start);
    assert_eq!(s, ConsumerState::Subscribing);
    let (s, c) = s.step(ConsumerEvent::SubscribeFailed);
    assert_eq!(s, ConsumerState::Stopped);
    assert!(matches!(c, Command::Abort));
}

#[test]
fn undecodable_payload_is_skipped_and_next_is_processed() {
    let s = subscribed();
    let (s, c) = s.step(ConsumerEvent::Received(Delivery::Undecodable));
    assert_eq!(s, ConsumerState::Receiving);
    assert!(matches!(c, Command::Skip(Severity::Error)));
    let (s, c) = s.step(ConsumerEvent::Received(Delivery::Decoded(event(2))));
    assert_eq!(s, ConsumerState::Processing);
    assert!(matches!(c, Command::Process(ref m) if m.message_id == 2));
    let (s, c) = s.step(ConsumerEvent::OffsetStored);
    assert_eq!(s, ConsumerState::Receiving);
    assert!(matches!(c, Command::Receive));
}

#[test]
fn missing_payload_is_logged_and_loop_continues() {
    let s = subscribed();
    let (s, c) = s.step(ConsumerEvent::Received(Delivery::MissingPayload));
    assert_eq!(s, ConsumerState::Receiving);
    assert!(matches!(c, Command::Skip(Severity::Error)));
}

#[test]
fn broker_error_is_a_warning() {
    let s = subscribed();
    let (s, c) = s.step(ConsumerEvent::Received(Delivery::TransportError));
    assert_eq!(s, ConsumerState::Receiving);
    assert!(matches!(c, Command::Skip(Severity::Warn)));
}

#[test]
fn failed_offset_store_does_not_halt() {
    let s = subscribed();
    let (s, _) = s.step(ConsumerEvent::Received(Delivery::Decoded(event(1))));
    let (s, c) = s.step(ConsumerEvent::OffsetStoreFailed);
    assert_eq!(s, ConsumerState::Receiving);
    assert!(matches!(c, Command::Skip(Severity::Warn)));
}

#[test]
fn shutdown_stops_from_any_state() {
    let (s, c) = subscribed().step(ConsumerEvent::Shutdown);
    assert_eq!(s, ConsumerState::Stopped);
    assert!(matches!(c, Command::Halt));
    let (s, c) = s.step(ConsumerEvent::Received(Delivery::Decoded(event(3))));
    assert_eq!(s, ConsumerState::Stopped);
    assert!(matches!(c, Command::Halt));
}

#[test]
fn out_of_place_events_are_ignored() {
    let (s, c) = ConsumerState::new().step(ConsumerEvent::Received(Delivery::Decoded(event(1))));
    assert_eq!(s, ConsumerState::Idle);
    assert!(matches!(c, Command::Ignore));
    let (s, c) = subscribed().step(ConsumerEvent::OffsetStored);
    assert_eq!(s, ConsumerState::Receiving);
    assert!(matches!(c, Command::Ignore));
}

#[test]
fn order_of_decoded_events_is_kept() {
    let mut s = subscribed();
    let mut seen = Vec::new();
    let deliveries = vec![
        Delivery::Decoded(event(1)),
        Delivery::Undecodable,
        Delivery::MissingPayload,
        Delivery::Decoded(event(2)),
        Delivery::TransportError,
        Delivery::Decoded(event(3)),
    ];
    for d in deliveries {
        let (next, c) = s.step(ConsumerEvent::Received(d));
        s = next;
        if let Command::Process(m) = c {
            seen.push(m.message_id);
            let (next, _) = s.step(ConsumerEvent::OffsetStored);
            s = next;
        }
    }
    assert_eq!(seen, vec![1, 2, 3]);
    assert_eq!(s, ConsumerState::Receiving);
}

#[test]
fn client_settings_are_fixed() {
    assert_eq!(TOPIC, "messages");
    let p = producer_settings("kafka:9092");
    assert_eq!(p[0], ("bootstrap.servers".to_string(), "kafka:9092".to_string()));
    assert_eq!(p[1], ("message.timeout.ms".to_string(), "5000".to_string()));
    assert_eq!(p[2], ("allow.auto.create.topics".to_string(), "true".to_string()));
    let c = consumer_settings("kafka:9092");
    assert_eq!(c.len(), 5);
    assert_eq!(c[0], ("group.id".to_string(), GROUP_ID.to_string()));
    assert_eq!(c[1].1, "kafka:9092");
    assert_eq!(c[4], ("enable.auto.commit".to_string(), "true".to_string()));
}
