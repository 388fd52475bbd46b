//! End-to-end sessions over a pair of in-memory portals: discovery, echo,
//! handle transfer, timeouts, teardown and the protocol's edge policies.

use wormhole::codec::{encode_frame, WireErrorKind};
use wormhole::conduit::PortalIngress;
use wormhole::nexus::start_nexus;
use wormhole::portal::{
    Action, LogEvent, Phase, Portal, ReplyOutcome, WormholeError,
};

/// Performs the transmit actions of one side against the other: encodes
/// each emitted frame and feeds it to the peer's ingress, as the conduit
/// would. Returns the peer's resulting actions.
fn ship(actions: Vec<Action>, peer: &mut Portal) -> Vec<Action> {
    let mut out = Vec::new();
    for a in actions {
        if let Action::Transmit(f) = a {
            let bytes = encode_frame(&f);
            out.extend(peer.handle_ingress(PortalIngress::Binary(bytes)));
        }
    }
    out
}

/// Runs discovery: the server publishes `actor` under `name`, the client
/// queries it and instantiates a proxy. Returns the client's proxy key.
fn discover(client: &mut Portal, server: &mut Portal, name: &[u8], actor: u64, tag: &[u8]) -> u64 {
    let (_hub_id, acts) = server
        .publish_named_actor(name.to_vec(), actor, tag.to_vec())
        .unwrap();
    ship(acts, client);
    let (qid, acts) = client.query_named_remote_actor(name.to_vec(), None).unwrap();
    let replies = ship(ship(acts, server), client);
    let (remote_id, remote_tag) = match &replies[..] {
        [Action::ResolveReply { reply_id, outcome: ReplyOutcome::Target { remote_id, type_tag } }] => {
            assert_eq!(*reply_id, qid);
            (*remote_id, type_tag.clone())
        }
        _ => panic!("query did not resolve with a target"),
    };
    client
        .instantiate_proxy_for_remote_actor(remote_id, &remote_tag, &tag.to_vec())
        .unwrap()
}

#[test]
fn named_discovery_and_echo() {
    // The server advertises "hub"; the client discovers it, asks for an
    // echo, and the reply resolves with the same payload.
    let mut client = Portal::new();
    let mut server = Portal::new();
    let key = discover(&mut client, &mut server, b"hub", 100, b"echo");

    let (rid, acts) = client.proxy_ask(key, b"hello".to_vec(), None).unwrap();
    let server_acts = ship(acts, &mut server);
    let token = match &server_acts[..] {
        [Action::DeliverAsk { actor, reply_token, payload }] => {
            assert_eq!(*actor, 100);
            assert_eq!(payload, &b"hello".to_vec());
            *reply_token
        }
        _ => panic!("ask was not delivered to the hub actor"),
    };
    let acts = server.send_reply(token, b"hello".to_vec()).unwrap();
    let client_acts = ship(acts, &mut client);
    match &client_acts[..] {
        [Action::ResolveReply { reply_id, outcome: ReplyOutcome::Value(v) }] => {
            assert_eq!(*reply_id, rid);
            assert_eq!(v, &b"hello".to_vec());
        }
        _ => panic!("ask did not resolve with the echoed value"),
    }
}

#[test]
fn bidirectional_handle_transfer() {
    // The client publishes a callback actor and tells the server its id
    // inside a payload; the server later addresses that id directly, and
    // the client's local actor observes exactly one delivery.
    let mut client = Portal::new();
    let mut server = Portal::new();
    let key = discover(&mut client, &mut server, b"hub", 100, b"chat");

    let (cb_id, acts) = client
        .publish_named_actor(b"callback".to_vec(), 200, b"client_msgs".to_vec())
        .unwrap();
    ship(acts, &mut server);
    // Connect(client_side_callback): the payload carries the callback id.
    let acts = client.proxy_cast(key, vec![cb_id as u8]).unwrap();
    let server_acts = ship(acts, &mut server);
    let told_id = match &server_acts[..] {
        [Action::DeliverCast { actor, payload }] => {
            assert_eq!(*actor, 100);
            payload[0] as u64
        }
        _ => panic!("connect message was not delivered"),
    };
    // The server sends one message back to the transferred handle.
    let sk = server
        .instantiate_proxy_for_remote_actor(told_id, &b"client_msgs".to_vec(), &b"client_msgs".to_vec())
        .unwrap();
    let acts = server.proxy_cast(sk, b"alice:hi".to_vec()).unwrap();
    let client_acts = ship(acts, &mut client);
    match &client_acts[..] {
        [Action::DeliverCast { actor, payload }] => {
            assert_eq!(*actor, 200);
            assert_eq!(payload, &b"alice:hi".to_vec());
        }
        _ => panic!("callback actor did not observe exactly one delivery"),
    }
}

#[test]
fn ask_timeout_and_stray_reply_dropped() {
    // The ask carries a deadline; the sweep resolves it with a timeout,
    // and the server's late reply is dropped with a log event.
    let mut client = Portal::new();
    let mut server = Portal::new();
    let key = discover(&mut client, &mut server, b"hub", 100, b"echo");

    let (rid, acts) = client.proxy_ask(key, b"slow".to_vec(), Some(100)).unwrap();
    let server_acts = ship(acts, &mut server);
    let token = match &server_acts[..] {
        [Action::DeliverAsk { reply_token, .. }] => *reply_token,
        _ => panic!("ask was not delivered"),
    };
    // The deadline elapses before the server answers.
    let tick_acts = client.tick(100);
    match &tick_acts[..] {
        [Action::ResolveReply { reply_id, outcome: ReplyOutcome::TimedOut }] => {
            assert_eq!(*reply_id, rid);
        }
        _ => panic!("deadline did not resolve the ask with a timeout"),
    }
    // The late reply arrives; the port is gone, so it is dropped.
    let acts = server.send_reply(token, b"late".to_vec()).unwrap();
    let client_acts = ship(acts, &mut client);
    match &client_acts[..] {
        [Action::Note(LogEvent::StrayReply)] => {}
        _ => panic!("late reply was not dropped silently"),
    }
    assert_eq!(client.phase(), Phase::Running);
}

#[test]
fn tick_before_deadline_keeps_port() {
    let mut client = Portal::new();
    let mut server = Portal::new();
    let key = discover(&mut client, &mut server, b"hub", 100, b"echo");
    let (rid, acts) = client.proxy_ask(key, b"q".to_vec(), Some(100)).unwrap();
    ship(acts, &mut server);
    // One tick strictly before the deadline resolves nothing.
    assert!(client.tick(99).is_empty());
    let acts = client.tick(100);
    match &acts[..] {
        [Action::ResolveReply { reply_id, outcome: ReplyOutcome::TimedOut }] => {
            assert_eq!(*reply_id, rid);
        }
        _ => panic!("deadline did not fire at its instant"),
    }
}

#[test]
fn peer_close_mid_ask() {
    // The transport closes before the reply arrives: the ask resolves
    // with PeerClosed, the proxy stops, and the nexus forgets the portal.
    let mut nexus = start_nexus();
    let pkey = nexus.connected(b"ws://peer".to_vec());
    let mut client = Portal::new();
    let mut server = Portal::new();
    let key = discover(&mut client, &mut server, b"hub", 100, b"echo");
    let (rid, acts) = client.proxy_ask(key, b"q".to_vec(), None).unwrap();
    ship(acts, &mut server);

    let acts = client.handle_ingress(PortalIngress::Close);
    let mut resolved = false;
    let mut stopped = false;
    let mut sink_closed = false;
    for a in &acts {
        match a {
            Action::ResolveReply { reply_id, outcome: ReplyOutcome::PeerClosed } => {
                assert_eq!(*reply_id, rid);
                resolved = true;
            }
            Action::StopProxy { key: k } => {
                assert_eq!(*k, key);
                stopped = true;
            }
            Action::CloseSink => sink_closed = true,
            _ => {}
        }
    }
    assert!(resolved && stopped && sink_closed);
    assert_eq!(client.phase(), Phase::Draining);
    client.mark_closed();
    assert_eq!(client.phase(), Phase::Closed);
    assert!(nexus.remove(pkey));
    assert!(nexus.list().is_empty());
}

#[test]
fn decode_failure_is_fatal_to_one_portal() {
    // Garbage on the wire drains the portal with an error event; another
    // portal in the same nexus is unaffected.
    let mut nexus = start_nexus();
    let _k1 = nexus.connected(b"ws://a".to_vec());
    let k2 = nexus.connected(b"ws://b".to_vec());
    let mut victim = Portal::new();
    let mut server = Portal::new();
    discover(&mut victim, &mut server, b"hub", 100, b"echo");
    let mut bystander = Portal::new();
    bystander
        .publish_named_actor(b"x".to_vec(), 1, b"t".to_vec())
        .unwrap();

    let acts = victim.handle_ingress(PortalIngress::Binary(vec![250, 251, 252]));
    match &acts[..] {
        [Action::Note(LogEvent::DecodeFailed), rest @ ..] => {
            assert!(rest.iter().any(|a| matches!(a, Action::CloseSink)));
        }
        _ => panic!("decode failure did not drain the portal"),
    }
    assert_eq!(victim.phase(), Phase::Draining);
    assert_eq!(bystander.phase(), Phase::Running);
    assert!(nexus.find(&b"ws://b".to_vec()) == Some(k2));
}

#[test]
fn unknown_target_ask_is_answered_with_error() {
    // Asking an id the server never advertised resolves the client's port
    // with an unknown-target error; both portals keep running.
    let mut client = Portal::new();
    let mut server = Portal::new();
    discover(&mut client, &mut server, b"hub", 100, b"echo");
    // A proxy minted against an id the server never exported.
    let bogus = client
        .instantiate_proxy_for_remote_actor(777, &b"echo".to_vec(), &b"echo".to_vec())
        .unwrap();
    let (rid, acts) = client.proxy_ask(bogus, b"q".to_vec(), None).unwrap();
    let client_acts = ship(ship(acts, &mut server), &mut client);
    match &client_acts[..] {
        [Action::ResolveReply { reply_id, outcome: ReplyOutcome::RemoteError { kind, .. } }] => {
            assert_eq!(*reply_id, rid);
            assert_eq!(*kind, WireErrorKind::UnknownTarget);
        }
        _ => panic!("unknown target did not come back as an error"),
    }
    assert_eq!(client.phase(), Phase::Running);
    assert_eq!(server.phase(), Phase::Running);
}

#[test]
fn unknown_target_cast_is_dropped() {
    let mut client = Portal::new();
    let mut server = Portal::new();
    discover(&mut client, &mut server, b"hub", 100, b"echo");
    let bogus = client
        .instantiate_proxy_for_remote_actor(777, &b"echo".to_vec(), &b"echo".to_vec())
        .unwrap();
    let acts = client.proxy_cast(bogus, b"q".to_vec()).unwrap();
    let server_acts = ship(acts, &mut server);
    assert!(matches!(&server_acts[..], [Action::Note(LogEvent::UnknownTargetCast)]));
    assert_eq!(server.phase(), Phase::Running);
}

#[test]
fn publish_is_idempotent() {
    // Publishing the same actor under the same name again yields the same
    // local id.
    let mut p = Portal::new();
    let (id1, _) = p
        .publish_named_actor(b"root".to_vec(), 5, b"srv".to_vec())
        .unwrap();
    let (id2, _) = p
        .publish_named_actor(b"root".to_vec(), 5, b"srv".to_vec())
        .unwrap();
    let (id3, _) = p
        .publish_named_actor(b"root".to_vec(), 5, b"srv".to_vec())
        .unwrap();
    assert_eq!(id1, id2);
    assert_eq!(id2, id3);
    // A different actor under a new name gets a fresh id.
    let (other, _) = p
        .publish_named_actor(b"aux".to_vec(), 6, b"srv".to_vec())
        .unwrap();
    assert_ne!(other, id1);
}

#[test]
fn ordering_per_sender_is_preserved() {
    // Two casts from the same sender through one proxy arrive in order.
    let mut client = Portal::new();
    let mut server = Portal::new();
    let key = discover(&mut client, &mut server, b"hub", 100, b"echo");
    let first = client.proxy_cast(key, b"one".to_vec()).unwrap();
    let second = client.proxy_cast(key, b"two".to_vec()).unwrap();
    let mut delivered = ship(first, &mut server);
    delivered.extend(ship(second, &mut server));
    match &delivered[..] {
        [Action::DeliverCast { payload: p1, .. }, Action::DeliverCast { payload: p2, .. }] => {
            assert_eq!(p1, &b"one".to_vec());
            assert_eq!(p2, &b"two".to_vec());
        }
        _ => panic!("casts were not delivered in send order"),
    }
}

#[test]
fn ids_are_portal_scoped() {
    // An id minted by one portal addresses nothing in another portal.
    let mut a = Portal::new();
    let mut b = Portal::new();
    let mut peer_of_a = Portal::new();
    let (id_in_a, acts) = a
        .publish_named_actor(b"svc".to_vec(), 50, b"t".to_vec())
        .unwrap();
    ship(acts, &mut peer_of_a);
    // The same numeric id, presented to portal b, is unknown there.
    let mut c = Portal::new();
    let bogus = c
        .instantiate_proxy_for_remote_actor(id_in_a, &b"t".to_vec(), &b"t".to_vec())
        .unwrap();
    let acts = c.proxy_cast(bogus, b"x".to_vec()).unwrap();
    let b_acts = ship(acts, &mut b);
    assert!(matches!(&b_acts[..], [Action::Note(LogEvent::UnknownTargetCast)]));
}

#[test]
fn closed_portal_rejects_new_work() {
    let mut p = Portal::new();
    p.close();
    assert_eq!(
        p.publish_named_actor(b"n".to_vec(), 1, b"t".to_vec()).unwrap_err(),
        WormholeError::PortalClosed
    );
    assert_eq!(
        p.query_named_remote_actor(b"n".to_vec(), None).unwrap_err(),
        WormholeError::PortalClosed
    );
    assert_eq!(
        p.proxy_cast(0, Vec::new()).unwrap_err(),
        WormholeError::PortalClosed
    );
    assert_eq!(
        p.instantiate_proxy_for_remote_actor(0, &Vec::new(), &Vec::new()).unwrap_err(),
        WormholeError::PortalClosed
    );
}

#[test]
fn type_mismatch_and_unknown_proxy_are_reported() {
    let mut p = Portal::new();
    assert_eq!(
        p.instantiate_proxy_for_remote_actor(1, &b"chat".to_vec(), &b"echo".to_vec())
            .unwrap_err(),
        WormholeError::TypeMismatch
    );
    assert_eq!(
        p.proxy_cast(99, b"x".to_vec()).unwrap_err(),
        WormholeError::UnknownProxy
    );
    assert_eq!(
        p.proxy_ask(99, b"x".to_vec(), None).unwrap_err(),
        WormholeError::UnknownProxy
    );
}

#[test]
fn query_for_unknown_name_resolves_unknown_name() {
    let mut client = Portal::new();
    let mut server = Portal::new();
    server
        .publish_named_actor(b"hub".to_vec(), 100, b"echo".to_vec())
        .unwrap();
    let (qid, acts) = client.query_named_remote_actor(b"nowhere".to_vec(), None).unwrap();
    let replies = ship(ship(acts, &mut server), &mut client);
    match &replies[..] {
        [Action::ResolveReply { reply_id, outcome: ReplyOutcome::UnknownName }] => {
            assert_eq!(*reply_id, qid);
        }
        _ => panic!("unknown name did not resolve as such"),
    }
}

#[test]
fn released_handle_goes_dead() {
    // The client drops its proxy; the peer marks the export dead, and a
    // later cast to that id is dropped as unknown.
    let mut client = Portal::new();
    let mut server = Portal::new();
    let key = discover(&mut client, &mut server, b"hub", 100, b"echo");
    let acts = client.release_proxy(key).unwrap();
    ship(acts, &mut server);
    // The handle is gone on both sides: the proxy key no longer works,
    // and the raw id no longer addresses the actor.
    assert_eq!(
        client.proxy_cast(key, b"x".to_vec()).unwrap_err(),
        WormholeError::UnknownProxy
    );
    let mut third = Portal::new();
    let again = discover(&mut third, &mut server, b"hub", 100, b"echo");
    // Republishing revived the export for the new session.
    let acts = third.proxy_cast(again, b"y".to_vec()).unwrap();
    let delivered = ship(acts, &mut server);
    assert!(matches!(&delivered[..], [Action::DeliverCast { actor: 100, .. }]));
}

#[test]
fn cancelled_reply_port_drops_late_answer() {
    let mut client = Portal::new();
    let mut server = Portal::new();
    let key = discover(&mut client, &mut server, b"hub", 100, b"echo");
    let (rid, acts) = client.proxy_ask(key, b"q".to_vec(), None).unwrap();
    let server_acts = ship(acts, &mut server);
    let token = match &server_acts[..] {
        [Action::DeliverAsk { reply_token, .. }] => *reply_token,
        _ => panic!("ask was not delivered"),
    };
    let acts = client.cancel_reply(rid).unwrap();
    ship(acts, &mut server);
    // Cancelling again does nothing.
    assert!(client.cancel_reply(rid).unwrap().is_empty());
    // The answer arrives after the cancellation and is dropped.
    let acts = server.send_reply(token, b"late".to_vec()).unwrap();
    let client_acts = ship(acts, &mut client);
    assert!(matches!(&client_acts[..], [Action::Note(LogEvent::StrayReply)]));
}

#[test]
fn stopped_actor_is_unknown_target() {
    let mut client = Portal::new();
    let mut server = Portal::new();
    let key = discover(&mut client, &mut server, b"hub", 100, b"echo");
    server.mark_actor_stopped(100);
    let (rid, acts) = client.proxy_ask(key, b"q".to_vec(), None).unwrap();
    let client_acts = ship(ship(acts, &mut server), &mut client);
    match &client_acts[..] {
        [Action::ResolveReply { reply_id, outcome: ReplyOutcome::RemoteError { kind, .. } }] => {
            assert_eq!(*reply_id, rid);
            assert_eq!(*kind, WireErrorKind::UnknownTarget);
        }
        _ => panic!("stopped actor still answered"),
    }
}

#[test]
fn export_without_name_mints_stable_id() {
    // The codec-facing export: the same actor gets the same token, and
    // the token addresses the actor once known to the peer.
    let mut client = Portal::new();
    let mut server = Portal::new();
    discover(&mut client, &mut server, b"hub", 100, b"echo");
    let id1 = client.export_local_actor(300, b"cb".to_vec()).unwrap();
    let id2 = client.export_local_actor(300, b"cb".to_vec()).unwrap();
    assert_eq!(id1, id2);
    let sk = server
        .instantiate_proxy_for_remote_actor(id1, &b"cb".to_vec(), &b"cb".to_vec())
        .unwrap();
    let acts = server.proxy_cast(sk, b"ping".to_vec()).unwrap();
    let delivered = ship(acts, &mut client);
    match &delivered[..] {
        [Action::DeliverCast { actor, payload }] => {
            assert_eq!(*actor, 300);
            assert_eq!(payload, &b"ping".to_vec());
        }
        _ => panic!("token did not address the exported actor"),
    }
}
