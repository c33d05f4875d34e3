use make87::endpoints::{
    get_provider, get_requester, resolve_endpoint_name, EndpointDecl, EndpointManager,
    EndpointManagerError, ReplyOutcome, SampleKind,
};
use make87::interfaces::zenoh::{CongestionControl, HandlerChannel, Priority};
use make87::message::Record;

fn req_decl(name: &str, key: &str) -> EndpointDecl {
    EndpointDecl::Req {
        endpoint_name: name.to_string(),
        endpoint_key: key.to_string(),
        requester_message_type: "record".to_string(),
        provider_message_type: "record".to_string(),
        congestion_control: None,
        priority: None,
        express: None,
    }
}

fn prv_decl(name: &str, key: &str) -> EndpointDecl {
    EndpointDecl::Prv {
        endpoint_name: name.to_string(),
        endpoint_key: key.to_string(),
        requester_message_type: "record".to_string(),
        provider_message_type: "record".to_string(),
        handler: None,
    }
}

#[test]
fn test_endpoint_initialize_and_lookup_roles() {
    let decls = vec![req_decl("Q", "svc/req"), prv_decl("P", "svc/prv")];
    let manager = EndpointManager::initialize(&decls).unwrap();

    assert_eq!(resolve_endpoint_name(&manager, "Q"), Some("svc/req".to_string()));
    assert_eq!(resolve_endpoint_name(&manager, "P"), Some("svc/prv".to_string()));
    assert_eq!(resolve_endpoint_name(&manager, "missing"), None);

    assert!(get_requester(&manager, "svc/req").is_some());
    assert!(get_provider(&manager, "svc/req").is_none());
    assert!(get_provider(&manager, "svc/prv").is_some());
    assert!(get_requester(&manager, "svc/prv").is_none());
    assert!(get_requester(&manager, "absent").is_none());
    assert!(get_provider(&manager, "absent").is_none());
}

#[test]
fn test_requester_defaults_block_on_congestion() {
    let decls = vec![req_decl("Q", "svc/req")];
    let manager = EndpointManager::initialize(&decls).unwrap();
    let requester = manager.get_requester("svc/req").unwrap();
    assert_eq!(requester.priority, Priority::Data);
    assert!(requester.express);
    assert_eq!(requester.congestion_control, CongestionControl::Block);
}

#[test]
fn test_provider_default_channel() {
    let decls = vec![prv_decl("P", "svc/prv")];
    let manager = EndpointManager::initialize(&decls).unwrap();
    let provider = manager.get_provider("svc/prv").unwrap();
    assert_eq!(provider.handler, HandlerChannel::Fifo { capacity: 100 });
}

#[test]
fn test_endpoint_keys_are_canonized() {
    // A redundant wildcard chain canonizes to a single one.
    let decls = vec![req_decl("Q", "a/**/**/b")];
    let manager = EndpointManager::initialize(&decls).unwrap();
    let requester = manager.get_requester("a/**/**/b").unwrap();
    assert_eq!(requester.key, "a/**/b");
}

#[test]
fn test_request_without_liveliness_marker_fails_fast() {
    // A request against a name with no registered provider liveliness marker
    // fails immediately with an availability error, not a timeout-length
    // wait.
    let decls = vec![req_decl("Q", "svc/req")];
    let manager = EndpointManager::initialize(&decls).unwrap();
    let requester = manager.get_requester("svc/req").unwrap();

    let gate = requester.check_liveliness(None);
    match gate {
        Err(EndpointManagerError::EndpointNotAvailable(name)) => assert_eq!(name, "Q"),
        _ => panic!("expected an availability error"),
    }

    // A retracted marker is just as unavailable.
    assert!(requester.check_liveliness(Some(SampleKind::Delete)).is_err());
    // A live marker lets the call proceed.
    assert!(requester.check_liveliness(Some(SampleKind::Put)).is_ok());
}

#[test]
fn test_request_timeout_maps_to_unavailable() {
    let decls = vec![req_decl("Q", "svc/req")];
    let manager = EndpointManager::initialize(&decls).unwrap();
    let requester = manager.get_requester("svc/req").unwrap();
    match requester.accept_reply(ReplyOutcome::TimedOut) {
        Err(EndpointManagerError::EndpointNotAvailable(name)) => assert_eq!(name, "Q"),
        _ => panic!("expected an availability error"),
    }
}

#[test]
fn test_request_reply_decodes() {
    let decls = vec![req_decl("Q", "svc/req"), prv_decl("P", "svc/prv")];
    let manager = EndpointManager::initialize(&decls).unwrap();
    let requester = manager.get_requester("svc/req").unwrap();

    let encoded = requester.encode_request(&Record { id: 11, name: "ping".to_string() }).unwrap();
    let echoed = requester.accept_reply(ReplyOutcome::Replied(encoded)).unwrap();
    assert_eq!(echoed, Record { id: 11, name: "ping".to_string() });

    assert!(requester.accept_reply(ReplyOutcome::Replied(b"garbage!".to_vec())).is_err());
    assert!(requester
        .accept_reply(ReplyOutcome::TransportError("session closed".to_string()))
        .is_err());
}

#[test]
fn test_provide_reverses_string_scenario() {
    // A provider that reverses the text field: a request carrying "abc"
    // comes back carrying "cba".
    let requester_manager = EndpointManager::initialize(&vec![req_decl("E", "svc/echo")]).unwrap();
    let provider_manager = EndpointManager::initialize(&vec![prv_decl("E", "svc/echo")]).unwrap();
    let requester = requester_manager.get_requester("svc/echo").unwrap();
    let provider = provider_manager.get_provider("svc/echo").unwrap();

    let reverse = |req: Record| Record {
        id: req.id,
        name: req.name.chars().rev().collect::<String>(),
    };

    let query = requester.encode_request(&Record { id: 1, name: "abc".to_string() }).unwrap();
    let reply = provider.serve_query(&query, &reverse).unwrap();
    let answer = requester.accept_reply(ReplyOutcome::Replied(reply)).unwrap();
    assert_eq!(answer, Record { id: 1, name: "cba".to_string() });
}

#[test]
fn test_provide_survives_malformed_query() {
    let provider_manager = EndpointManager::initialize(&vec![prv_decl("E", "svc/echo")]).unwrap();
    let provider = provider_manager.get_provider("svc/echo").unwrap();
    let identity = |req: Record| req;

    // A malformed query yields no reply but does not stop the provider.
    assert!(provider.serve_query(&b"broken".to_vec(), &identity).is_none());

    let requester_manager = EndpointManager::initialize(&vec![req_decl("E", "svc/echo")]).unwrap();
    let requester = requester_manager.get_requester("svc/echo").unwrap();
    let good = requester.encode_request(&Record { id: 2, name: "still up".to_string() }).unwrap();
    assert!(provider.serve_query(&good, &identity).is_some());
}

#[test]
fn test_reply_qos_profile() {
    let qos = make87::endpoints::reply_qos();
    assert_eq!(qos.priority, Priority::RealTime);
    assert!(qos.express);
    assert_eq!(qos.congestion_control, CongestionControl::Block);
}

#[test]
fn test_endpoint_initialize_rejects_invalid_key() {
    // A key with an empty chunk has no canonical form either.
    let decls = vec![req_decl("Q", "bad//key")];
    match EndpointManager::initialize(&decls) {
        Err(EndpointManagerError::ZenohError(key)) => assert_eq!(key, "bad//key"),
        _ => panic!("expected a transport error for the invalid key"),
    }
}
