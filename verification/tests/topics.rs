use make87::interfaces::zenoh::{CongestionControl, HandlerChannel, Priority, Reliability};
use make87::message::Record;
use make87::topics::{
    get_publisher, get_subscriber, resolve_topic_name, ReceiveError, TopicDecl, TopicManager,
};

fn pub_decl(name: &str, key: &str) -> TopicDecl {
    TopicDecl::Pub {
        topic_name: name.to_string(),
        topic_key: key.to_string(),
        message_type: "record".to_string(),
        congestion_control: None,
        priority: None,
        express: None,
        reliability: None,
    }
}

fn sub_decl(name: &str, key: &str, handler: Option<HandlerChannel>) -> TopicDecl {
    TopicDecl::Sub {
        topic_name: name.to_string(),
        topic_key: key.to_string(),
        message_type: "record".to_string(),
        handler,
    }
}

#[test]
fn test_initialize_and_lookup_roles() {
    let decls = vec![pub_decl("A", "k_pub"), sub_decl("B", "k_sub", None)];
    let manager = TopicManager::initialize(&decls).unwrap();

    // Declared names resolve to their keys.
    assert_eq!(resolve_topic_name(&manager, "A"), Some("k_pub".to_string()));
    assert_eq!(resolve_topic_name(&manager, "B"), Some("k_sub".to_string()));
    assert_eq!(resolve_topic_name(&manager, "C"), None);

    // Role must match the declaration.
    assert!(get_publisher(&manager, "k_pub").is_some());
    assert!(get_subscriber(&manager, "k_pub").is_none());
    assert!(get_subscriber(&manager, "k_sub").is_some());
    assert!(get_publisher(&manager, "k_sub").is_none());

    // Undeclared keys answer nothing.
    assert!(get_publisher(&manager, "unknown").is_none());
    assert!(get_subscriber(&manager, "unknown").is_none());
}

#[test]
fn test_initialize_rejects_invalid_key() {
    // A key expression with an empty chunk is not accepted by the transport.
    let decls = vec![pub_decl("A", "bad//key")];
    assert!(TopicManager::initialize(&decls).is_err());
}

#[test]
fn test_publisher_defaults() {
    let decls = vec![pub_decl("A", "k")];
    let manager = TopicManager::initialize(&decls).unwrap();
    let publisher = manager.get_publisher("k").unwrap();
    assert_eq!(publisher.priority, Priority::Data);
    assert_eq!(publisher.reliability, Reliability::Reliable);
    assert_eq!(publisher.congestion_control, CongestionControl::Drop);
    assert!(publisher.express);
}

#[test]
fn test_subscriber_default_channel_is_fifo_100() {
    let decls = vec![sub_decl("A", "k", None)];
    let manager = TopicManager::initialize(&decls).unwrap();
    let subscriber = manager.get_subscriber("k").unwrap();
    assert_eq!(subscriber.handler, HandlerChannel::Fifo { capacity: 100 });
}

#[test]
fn test_fifo_channel_keeps_first_in_order() {
    // FIFO capacity 3: of five emissions the first three are retained, in
    // emission order.
    let decls = vec![sub_decl("A", "k", Some(HandlerChannel::Fifo { capacity: 3 }))];
    let manager = TopicManager::initialize(&decls).unwrap();
    let mut subscriber = manager.get_subscriber("k").unwrap();
    let publisher_decls = vec![pub_decl("A", "k")];
    let publisher_manager = TopicManager::initialize(&publisher_decls).unwrap();
    let publisher = publisher_manager.get_publisher("k").unwrap();

    for id in 1..=5u32 {
        let payload = publisher.encode_payload(&Record { id, name: format!("m{}", id) }).unwrap();
        subscriber.deliver(payload);
    }
    let first = subscriber.receive().unwrap();
    let second = subscriber.receive().unwrap();
    let third = subscriber.receive().unwrap();
    assert_eq!(first.id, 1);
    assert_eq!(second.id, 2);
    assert_eq!(third.id, 3);
    assert!(matches!(subscriber.receive(), Err(ReceiveError::Empty)));
}

#[test]
fn test_ring_channel_keeps_most_recent() {
    // Ring capacity 3: after five emissions with no draining, exactly the
    // most recent three remain, oldest first.
    let decls = vec![sub_decl("A", "k", Some(HandlerChannel::Ring { capacity: 3 }))];
    let manager = TopicManager::initialize(&decls).unwrap();
    let mut subscriber = manager.get_subscriber("k").unwrap();
    let publisher_decls = vec![pub_decl("A", "k")];
    let publisher_manager = TopicManager::initialize(&publisher_decls).unwrap();
    let publisher = publisher_manager.get_publisher("k").unwrap();

    for id in 1..=5u32 {
        let payload = publisher.encode_payload(&Record { id, name: String::new() }).unwrap();
        subscriber.deliver(payload);
    }
    assert_eq!(subscriber.receive().unwrap().id, 3);
    assert_eq!(subscriber.receive().unwrap().id, 4);
    assert_eq!(subscriber.receive().unwrap().id, 5);
    assert!(matches!(subscriber.receive(), Err(ReceiveError::Empty)));
}

#[test]
fn test_decode_failure_does_not_end_subscription() {
    // A malformed payload is reported and discarded; the next valid message
    // on the same endpoint is still delivered.
    let decls = vec![sub_decl("A", "k", None)];
    let manager = TopicManager::initialize(&decls).unwrap();
    let mut subscriber = manager.get_subscriber("k").unwrap();
    let publisher_manager = TopicManager::initialize(&vec![pub_decl("A", "k")]).unwrap();
    let publisher = publisher_manager.get_publisher("k").unwrap();

    subscriber.deliver(b"not protobuf".to_vec());
    let good = publisher.encode_payload(&Record { id: 9, name: "ok".to_string() }).unwrap();
    subscriber.deliver(good);

    assert!(matches!(subscriber.receive(), Err(ReceiveError::Decode(_))));
    let delivered = subscriber.receive().unwrap();
    assert_eq!(delivered, Record { id: 9, name: "ok".to_string() });
}

#[test]
fn test_publish_subscribe_scenario() {
    // One publish declaration "A" -> "k" and one subscribe declaration
    // "A" -> "k"; publishing {id:1} makes the subscriber's next pull return
    // {id:1}.
    let publisher_manager = TopicManager::initialize(&vec![pub_decl("A", "k")]).unwrap();
    let subscriber_manager = TopicManager::initialize(&vec![sub_decl("A", "k", None)]).unwrap();

    let publisher_key = resolve_topic_name(&publisher_manager, "A").unwrap();
    let subscriber_key = resolve_topic_name(&subscriber_manager, "A").unwrap();
    assert_eq!(publisher_key, subscriber_key);

    let publisher = publisher_manager.get_publisher(&publisher_key).unwrap();
    let mut subscriber = subscriber_manager.get_subscriber(&subscriber_key).unwrap();

    let message = Record { id: 1, name: String::new() };
    let payload = publisher.encode_payload(&message).unwrap();
    subscriber.deliver(payload);

    let received = subscriber.receive().unwrap();
    assert_eq!(received, message);
}

#[test]
fn test_receive_with_metadata() {
    let decls = vec![sub_decl("A", "k", None)];
    let manager = TopicManager::initialize(&decls).unwrap();
    let mut subscriber = manager.get_subscriber("k").unwrap();
    let publisher_manager = TopicManager::initialize(&vec![pub_decl("A", "k")]).unwrap();
    let publisher = publisher_manager.get_publisher("k").unwrap();

    let payload = publisher.encode_payload(&Record { id: 5, name: "x".to_string() }).unwrap();
    let payload_len = payload.len();
    subscriber.deliver(payload);

    let with_meta = subscriber.receive_with_metadata().unwrap();
    assert_eq!(with_meta.message.id, 5);
    assert_eq!(with_meta.metadata.topic_name, "k");
    assert_eq!(with_meta.metadata.message_type_decoded, "record");
    assert_eq!(with_meta.metadata.bytes_transmitted, payload_len);
}

#[test]
fn test_subscribe_drain_counts_failures() {
    let decls = vec![sub_decl("A", "k", None)];
    let manager = TopicManager::initialize(&decls).unwrap();
    let mut subscriber = manager.get_subscriber("k").unwrap();
    let publisher_manager = TopicManager::initialize(&vec![pub_decl("A", "k")]).unwrap();
    let publisher = publisher_manager.get_publisher("k").unwrap();

    subscriber.deliver(publisher.encode_payload(&Record { id: 1, name: String::new() }).unwrap());
    subscriber.deliver(b"not protobuf".to_vec());
    subscriber.deliver(publisher.encode_payload(&Record { id: 2, name: String::new() }).unwrap());

    let mut seen: Vec<u32> = Vec::new();
    let mut callback = |rec: Record| seen.push(rec.id);
    let failures = subscriber.subscribe_drain(&mut callback);
    assert_eq!(failures, 1);
    assert_eq!(seen, vec![1, 2]);
}

#[test]
fn test_last_declaration_wins() {
    let decls = vec![pub_decl("A", "k"), sub_decl("A2", "k", None)];
    let manager = TopicManager::initialize(&decls).unwrap();
    assert!(get_publisher(&manager, "k").is_none());
    assert!(get_subscriber(&manager, "k").is_some());
}
