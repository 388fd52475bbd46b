//! Tests of the nexus registry, the conduit decision functions and the
//! byte-string helpers.

use wormhole::bytes::{bytes_eq, clone_bytes};
use wormhole::conduit::{
    classify_transport_event, receive_step, ConduitMessage, PortalIngress, ReceiveStep,
    TransportEvent, TransportStep,
};
use wormhole::nexus::start_nexus;

#[test]
fn nexus_registers_lists_finds_removes() {
    let mut nexus = start_nexus();
    let a = nexus.connected(b"ws://1.2.3.4:8080".to_vec());
    let b = nexus.connected(b"ws://5.6.7.8:8080".to_vec());
    assert_ne!(a, b);
    assert_eq!(nexus.list(), vec![a, b]);
    assert_eq!(nexus.find(&b"ws://5.6.7.8:8080".to_vec()), Some(b));
    assert_eq!(nexus.find(&b"ws://nowhere".to_vec()), None);
    assert!(nexus.remove(a));
    assert!(!nexus.remove(a));
    assert_eq!(nexus.list(), vec![b]);
}

#[test]
fn nexus_permits_identifier_collisions() {
    let mut nexus = start_nexus();
    let a = nexus.connected(b"ws://same".to_vec());
    let b = nexus.connected(b"ws://same".to_vec());
    assert_ne!(a, b);
    // find returns the first registration.
    assert_eq!(nexus.find(&b"ws://same".to_vec()), Some(a));
}

#[test]
fn receive_step_forwards_data_and_stops_on_close() {
    match receive_step(ConduitMessage::Text("hi".to_string())) {
        ReceiveStep::Deliver(PortalIngress::Text(s)) => assert_eq!(s, "hi"),
        _ => panic!("text was not forwarded"),
    }
    match receive_step(ConduitMessage::Binary(vec![1, 2])) {
        ReceiveStep::Deliver(PortalIngress::Binary(b)) => assert_eq!(b, vec![1, 2]),
        _ => panic!("binary was not forwarded"),
    }
    assert!(matches!(
        receive_step(ConduitMessage::Close(Some("bye".to_string()))),
        ReceiveStep::Stop
    ));
}

#[test]
fn transport_events_map_to_conduit_items() {
    assert!(matches!(
        classify_transport_event(TransportEvent::Opened),
        TransportStep::SignalOpened
    ));
    match classify_transport_event(TransportEvent::Binary(vec![9])) {
        TransportStep::Deliver(ConduitMessage::Binary(b)) => assert_eq!(b, vec![9]),
        _ => panic!("binary event was not delivered"),
    }
    assert!(matches!(
        classify_transport_event(TransportEvent::Other),
        TransportStep::Ignore
    ));
    assert!(matches!(
        classify_transport_event(TransportEvent::Failed),
        TransportStep::Deliver(ConduitMessage::Close(None))
    ));
    assert!(matches!(
        classify_transport_event(TransportEvent::Ended),
        TransportStep::Deliver(ConduitMessage::Close(None))
    ));
}

#[test]
fn byte_helpers_copy_and_compare() {
    let v = vec![1u8, 2, 3];
    assert_eq!(clone_bytes(&v), v);
    assert!(bytes_eq(&v, &vec![1, 2, 3]));
    assert!(!bytes_eq(&v, &vec![1, 2]));
    assert!(!bytes_eq(&v, &vec![1, 2, 4]));
    assert!(bytes_eq(&Vec::new(), &Vec::new()));
}
