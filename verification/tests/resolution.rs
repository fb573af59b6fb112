use pear_core::addr::{encode_addr, NetAddress};
use pear_core::command::{Command, CommandResp};
use pear_core::event::{NetworkAction, NetworkEvent};
use pear_core::orchestrator::Orchestrator;

#[test]
fn lookup_failure_yields_not_found() {
    let mut o = Orchestrator::new("me".to_string());
    let acts = o.handle_command(Command::GetUser { uid: "alice".to_string() });
    assert_eq!(acts, vec![NetworkAction::IssueLookup { key: "alice".to_string() }]);
    let out = o.handle_event(NetworkEvent::LookupFailed { uid: "alice".to_string() });
    assert!(out.actions.is_empty());
    assert_eq!(
        out.responses,
        vec![CommandResp::GetUserResp { uid: "alice".to_string(), found: false, connected: false }]
    );
}

#[test]
fn lookup_and_dial_success_yields_connected() {
    let mut o = Orchestrator::new("me".to_string());
    let acts = o.handle_command(Command::GetUser { uid: "bob".to_string() });
    assert_eq!(acts, vec![NetworkAction::IssueLookup { key: "bob".to_string() }]);
    let a = NetAddress { o0: 203, o1: 0, o2: 113, o3: 7, port: 9000 };
    let out = o.handle_event(NetworkEvent::LookupRecordFound {
        uid: "bob".to_string(),
        value: encode_addr(&a),
    });
    assert_eq!(out.actions, vec![NetworkAction::Dial { address: a }]);
    assert!(out.responses.is_empty());
    let out2 = o.handle_event(NetworkEvent::ConnectionEstablished { address: a, dialer: true });
    assert!(out2.actions.is_empty());
    assert_eq!(
        out2.responses,
        vec![CommandResp::GetUserResp { uid: "bob".to_string(), found: true, connected: true }]
    );
}

#[test]
fn concurrent_requests_share_one_lookup() {
    let mut o = Orchestrator::new("me".to_string());
    let first = o.handle_command(Command::GetUser { uid: "carol".to_string() });
    assert_eq!(first, vec![NetworkAction::IssueLookup { key: "carol".to_string() }]);
    let second = o.handle_command(Command::GetUser { uid: "carol".to_string() });
    assert!(second.is_empty());
    let out = o.handle_event(NetworkEvent::LookupFailed { uid: "carol".to_string() });
    assert_eq!(
        out.responses,
        vec![
            CommandResp::GetUserResp { uid: "carol".to_string(), found: false, connected: false },
            CommandResp::GetUserResp { uid: "carol".to_string(), found: false, connected: false },
        ]
    );
}

#[test]
fn requests_resolving_to_one_address_share_one_dial() {
    let mut o = Orchestrator::new("me".to_string());
    o.handle_command(Command::GetUser { uid: "eve".to_string() });
    o.handle_command(Command::GetUser { uid: "dave".to_string() });
    let a = NetAddress { o0: 198, o1: 51, o2: 100, o3: 23, port: 4001 };
    let out_eve = o.handle_event(NetworkEvent::LookupRecordFound {
        uid: "eve".to_string(),
        value: encode_addr(&a),
    });
    assert_eq!(out_eve.actions, vec![NetworkAction::Dial { address: a }]);
    let out_dave = o.handle_event(NetworkEvent::LookupRecordFound {
        uid: "dave".to_string(),
        value: encode_addr(&a),
    });
    assert!(out_dave.actions.is_empty());
    let out = o.handle_event(NetworkEvent::ConnectionEstablished { address: a, dialer: true });
    assert_eq!(
        out.responses,
        vec![
            CommandResp::GetUserResp { uid: "eve".to_string(), found: true, connected: true },
            CommandResp::GetUserResp { uid: "dave".to_string(), found: true, connected: true },
        ]
    );
}

#[test]
fn private_listen_address_is_not_published() {
    let mut o = Orchestrator::new("me".to_string());
    let a = NetAddress { o0: 192, o1: 168, o2: 1, o3: 5, port: 4001 };
    let out = o.handle_event(NetworkEvent::NewListenAddr { address: a });
    assert!(out.actions.is_empty());
    assert!(out.responses.is_empty());
}

#[test]
fn public_listen_address_is_published_once() {
    let mut o = Orchestrator::new("me".to_string());
    let a = NetAddress { o0: 203, o1: 0, o2: 113, o3: 9, port: 4001 };
    let out = o.handle_event(NetworkEvent::NewListenAddr { address: a });
    assert_eq!(
        out.actions,
        vec![NetworkAction::PublishRecord { key: "me".to_string(), value: encode_addr(&a) }]
    );
    assert!(out.responses.is_empty());
}

#[test]
fn undecodable_record_counts_as_lookup_failure() {
    let mut o = Orchestrator::new("me".to_string());
    o.handle_command(Command::GetUser { uid: "alice".to_string() });
    let out = o.handle_event(NetworkEvent::LookupRecordFound {
        uid: "alice".to_string(),
        value: vec![1, 2, 3],
    });
    assert!(out.actions.is_empty());
    assert_eq!(
        out.responses,
        vec![CommandResp::GetUserResp { uid: "alice".to_string(), found: false, connected: false }]
    );
}

#[test]
fn accepted_connection_does_not_resolve_a_dial() {
    let mut o = Orchestrator::new("me".to_string());
    o.handle_command(Command::GetUser { uid: "bob".to_string() });
    let a = NetAddress { o0: 198, o1: 51, o2: 100, o3: 8, port: 7 };
    o.handle_event(NetworkEvent::LookupRecordFound {
        uid: "bob".to_string(),
        value: encode_addr(&a),
    });
    let accepted = o.handle_event(NetworkEvent::ConnectionEstablished { address: a, dialer: false });
    assert!(accepted.actions.is_empty());
    assert!(accepted.responses.is_empty());
    let dialed = o.handle_event(NetworkEvent::ConnectionEstablished { address: a, dialer: true });
    assert_eq!(
        dialed.responses,
        vec![CommandResp::GetUserResp { uid: "bob".to_string(), found: true, connected: true }]
    );
}

#[test]
fn discovered_peer_is_fed_to_routing_table() {
    let mut o = Orchestrator::new("me".to_string());
    let a = NetAddress { o0: 192, o1: 168, o2: 1, o3: 9, port: 4001 };
    let out = o.handle_event(NetworkEvent::PeerDiscovered { peer: vec![7, 7, 7], address: a });
    assert_eq!(out.actions, vec![NetworkAction::AddAddress { peer: vec![7, 7, 7], address: a }]);
    assert!(out.responses.is_empty());
}

#[test]
fn other_events_change_nothing() {
    let mut o = Orchestrator::new("me".to_string());
    let out = o.handle_event(NetworkEvent::Other);
    assert!(out.actions.is_empty());
    assert!(out.responses.is_empty());
}

#[test]
fn resolved_lookup_entry_is_cleaned_up() {
    let mut o = Orchestrator::new("me".to_string());
    o.handle_command(Command::GetUser { uid: "carol".to_string() });
    o.handle_event(NetworkEvent::LookupFailed { uid: "carol".to_string() });
    let again = o.handle_command(Command::GetUser { uid: "carol".to_string() });
    assert_eq!(again, vec![NetworkAction::IssueLookup { key: "carol".to_string() }]);
}

#[test]
fn resolved_dial_entry_is_cleaned_up() {
    let mut o = Orchestrator::new("me".to_string());
    let a = NetAddress { o0: 198, o1: 51, o2: 100, o3: 77, port: 4001 };
    o.handle_command(Command::GetUser { uid: "bob".to_string() });
    o.handle_event(NetworkEvent::LookupRecordFound {
        uid: "bob".to_string(),
        value: encode_addr(&a),
    });
    o.handle_event(NetworkEvent::ConnectionEstablished { address: a, dialer: true });
    o.handle_command(Command::GetUser { uid: "carol".to_string() });
    let out = o.handle_event(NetworkEvent::LookupRecordFound {
        uid: "carol".to_string(),
        value: encode_addr(&a),
    });
    assert_eq!(out.actions, vec![NetworkAction::Dial { address: a }]);
}
