use oisko::bus::{EventBus, Received};
use oisko::event::AppEvent;
use oisko::stream::{
    frame_payload, keep_alive_frame, next_action, Connection, StreamAction, KEEP_ALIVE_SECONDS,
};

fn comment(name: &str) -> AppEvent {
    AppEvent::CommentCreated {
        id: 1,
        application_id: 2,
        visitor_name: name.to_string(),
        company: "Acme".to_string(),
        role: "Engineer".to_string(),
    }
}

const ADA_FRAME: &str = "data: {\"type\":\"CommentCreated\",\"data\":{\"id\":\"00000000-0000-0000-0000-000000000001\",\"application_id\":\"00000000-0000-0000-0000-000000000002\",\"visitor_name\":\"Ada\",\"company\":\"Acme\",\"role\":\"Engineer\"}}\n\n";

#[test]
fn data_frame_is_one_data_line_and_a_blank_line() {
    assert_eq!(frame_payload("{}"), "data: {}\n\n");
    assert_eq!(frame_payload(""), "data: \n\n");
}

#[test]
fn keep_alive_is_a_comment_line() {
    assert_eq!(keep_alive_frame(), ":\n\n");
    assert_eq!(KEEP_ALIVE_SECONDS, 15);
}

#[test]
fn action_for_each_outcome() {
    assert_eq!(
        next_action(Received::Event(comment("Ada"))),
        StreamAction::Send(ADA_FRAME.to_string())
    );
    assert_eq!(next_action(Received::Lagged(3)), StreamAction::Skip);
    assert_eq!(next_action(Received::Empty), StreamAction::Wait);
    assert_eq!(next_action(Received::Closed), StreamAction::Finish);
}

#[test]
fn event_with_line_breaks_stays_one_frame() {
    let action = next_action(Received::Event(comment("A\nd\ra")));
    match action {
        StreamAction::Send(frame) => {
            assert!(frame.starts_with("data: "));
            assert!(frame.ends_with("\n\n"));
            let inner = &frame[6..frame.len() - 2];
            assert!(!inner.contains('\n') && !inner.contains('\r'));
            let value: serde_json::Value = serde_json::from_str(inner).unwrap();
            assert_eq!(value["data"]["visitor_name"].as_str(), Some("A\nd\ra"));
        }
        other => panic!("unexpected action {:?}", other),
    }
}

#[test]
fn two_clients_receive_the_comment_and_a_late_one_does_not() {
    let mut bus = EventBus::new(100);
    let (mut first, hello_one) = Connection::open(&mut bus).unwrap();
    let (mut second, hello_two) = Connection::open(&mut bus).unwrap();
    assert_eq!(hello_one, ":\n\n");
    assert_eq!(hello_two, ":\n\n");
    assert_eq!(bus.publish(comment("Ada")), 2);
    let (mut third, _) = Connection::open(&mut bus).unwrap();

    assert_eq!(first.advance(&mut bus), StreamAction::Send(ADA_FRAME.to_string()));
    assert_eq!(second.advance(&mut bus), StreamAction::Send(ADA_FRAME.to_string()));
    assert_eq!(third.advance(&mut bus), StreamAction::Wait);
    assert_eq!(first.advance(&mut bus), StreamAction::Wait);
    assert_eq!(second.advance(&mut bus), StreamAction::Wait);
}

#[test]
fn lag_does_not_end_the_connection() {
    let mut bus = EventBus::new(1);
    let (mut client, _) = Connection::open(&mut bus).unwrap();
    bus.publish(comment("Ada"));
    bus.publish(comment("Bob"));
    assert_eq!(client.advance(&mut bus), StreamAction::Skip);
    assert!(client.is_open());
    match client.advance(&mut bus) {
        StreamAction::Send(frame) => assert!(frame.contains("\"visitor_name\":\"Bob\"")),
        other => panic!("unexpected action {:?}", other),
    }
    assert_eq!(client.advance(&mut bus), StreamAction::Wait);
}

#[test]
fn shutdown_ends_the_stream_and_releases_the_subscription() {
    let mut bus = EventBus::new(4);
    let (mut client, _) = Connection::open(&mut bus).unwrap();
    bus.publish(comment("Ada"));
    bus.close();
    assert_eq!(client.advance(&mut bus), StreamAction::Send(ADA_FRAME.to_string()));
    assert_eq!(bus.subscriber_count(), 1);
    assert_eq!(client.advance(&mut bus), StreamAction::Finish);
    assert!(!client.is_open());
    assert_eq!(bus.subscriber_count(), 0);
    assert_eq!(client.advance(&mut bus), StreamAction::Finish);
}

#[test]
fn disconnect_releases_the_subscription_at_once() {
    let mut bus = EventBus::new(4);
    let (mut stays, _) = Connection::open(&mut bus).unwrap();
    let (mut leaves, _) = Connection::open(&mut bus).unwrap();
    assert_eq!(leaves.handle(), 1);
    bus.publish(comment("Ada"));
    leaves.close(&mut bus);
    assert!(!leaves.is_open());
    assert_eq!(bus.subscriber_count(), 1);
    assert!(!bus.is_subscribed(leaves.handle()));
    leaves.close(&mut bus);
    assert_eq!(bus.subscriber_count(), 1);
    assert_eq!(bus.publish(comment("Bob")), 1);
    assert_eq!(leaves.advance(&mut bus), StreamAction::Finish);
    assert_eq!(stays.advance(&mut bus), StreamAction::Send(ADA_FRAME.to_string()));
}
