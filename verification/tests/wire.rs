//! Tests of the wire codec: every frame survives the trip through its
//! byte form, and malformed bytes are rejected.

use wormhole::codec::{
    decode_frame, encode_frame, FoundTarget, Frame, ReleaseKind, WireErrorKind,
};

#[test]
fn advertise_round_trips() {
    let f = Frame::Advertise { name: b"hub".to_vec(), id: 7, type_tag: b"echo".to_vec() };
    let bytes = encode_frame(&f);
    match decode_frame(&bytes) {
        Some(Frame::Advertise { name, id, type_tag }) => {
            assert_eq!(name, b"hub".to_vec());
            assert_eq!(id, 7);
            assert_eq!(type_tag, b"echo".to_vec());
        }
        _ => panic!("frame did not survive the round trip"),
    }
}

#[test]
fn query_round_trips() {
    let f = Frame::Query { name: b"root".to_vec(), reply_id: 42 };
    let bytes = encode_frame(&f);
    match decode_frame(&bytes) {
        Some(Frame::Query { name, reply_id }) => {
            assert_eq!(name, b"root".to_vec());
            assert_eq!(reply_id, 42);
        }
        _ => panic!("frame did not survive the round trip"),
    }
}

#[test]
fn query_reply_round_trips_both_ways() {
    let hit = Frame::QueryReply {
        reply_id: 3,
        found: Some(FoundTarget { id: 9, type_tag: b"chat".to_vec() }),
    };
    match decode_frame(&encode_frame(&hit)) {
        Some(Frame::QueryReply { reply_id, found: Some(t) }) => {
            assert_eq!(reply_id, 3);
            assert_eq!(t.id, 9);
            assert_eq!(t.type_tag, b"chat".to_vec());
        }
        _ => panic!("hit reply did not survive the round trip"),
    }
    let miss = Frame::QueryReply { reply_id: 4, found: None };
    match decode_frame(&encode_frame(&miss)) {
        Some(Frame::QueryReply { reply_id: 4, found: None }) => {}
        _ => panic!("miss reply did not survive the round trip"),
    }
}

#[test]
fn cast_round_trips() {
    let f = Frame::Cast { target: 11, payload: vec![0, 1, 2, 255] };
    match decode_frame(&encode_frame(&f)) {
        Some(Frame::Cast { target, payload }) => {
            assert_eq!(target, 11);
            assert_eq!(payload, vec![0, 1, 2, 255]);
        }
        _ => panic!("frame did not survive the round trip"),
    }
}

#[test]
fn ask_round_trips() {
    let f = Frame::Ask { target: 1, reply_id: 2, payload: b"hello".to_vec() };
    match decode_frame(&encode_frame(&f)) {
        Some(Frame::Ask { target, reply_id, payload }) => {
            assert_eq!(target, 1);
            assert_eq!(reply_id, 2);
            assert_eq!(payload, b"hello".to_vec());
        }
        _ => panic!("frame did not survive the round trip"),
    }
}

#[test]
fn reply_round_trips() {
    let f = Frame::Reply { reply_id: 8, payload: Vec::new() };
    match decode_frame(&encode_frame(&f)) {
        Some(Frame::Reply { reply_id, payload }) => {
            assert_eq!(reply_id, 8);
            assert!(payload.is_empty());
        }
        _ => panic!("frame did not survive the round trip"),
    }
}

#[test]
fn reply_error_round_trips() {
    let f = Frame::ReplyError {
        reply_id: 5,
        kind: WireErrorKind::UnknownTarget,
        message: b"no such target".to_vec(),
    };
    match decode_frame(&encode_frame(&f)) {
        Some(Frame::ReplyError { reply_id, kind, message }) => {
            assert_eq!(reply_id, 5);
            assert_eq!(kind, WireErrorKind::UnknownTarget);
            assert_eq!(message, b"no such target".to_vec());
        }
        _ => panic!("frame did not survive the round trip"),
    }
}

#[test]
fn release_round_trips() {
    let f = Frame::Release { id: 6, kind: ReleaseKind::Handle };
    match decode_frame(&encode_frame(&f)) {
        Some(Frame::Release { id: 6, kind: ReleaseKind::Handle }) => {}
        _ => panic!("frame did not survive the round trip"),
    }
    let f = Frame::Release { id: 7, kind: ReleaseKind::ReplyPort };
    match decode_frame(&encode_frame(&f)) {
        Some(Frame::Release { id: 7, kind: ReleaseKind::ReplyPort }) => {}
        _ => panic!("frame did not survive the round trip"),
    }
}

#[test]
fn encoding_is_tag_then_fields() {
    // One exact byte layout, pinned: tag 4 (Cast), target 1 big-endian,
    // then a two-byte payload behind its 64-bit length prefix.
    let f = Frame::Cast { target: 1, payload: vec![0xAB, 0xCD] };
    let bytes = encode_frame(&f);
    assert_eq!(
        bytes,
        vec![4, 0, 0, 0, 0, 0, 0, 0, 1, 0, 0, 0, 0, 0, 0, 0, 2, 0xAB, 0xCD]
    );
}

#[test]
fn garbage_is_rejected() {
    assert!(decode_frame(&Vec::new()).is_none());
    assert!(decode_frame(&vec![0]).is_none());
    assert!(decode_frame(&vec![99, 1, 2, 3]).is_none());
    // A truncated Cast frame: tag and target but a lying length prefix.
    assert!(decode_frame(&vec![4, 0, 0, 0, 0, 0, 0, 0, 1, 0, 0, 0, 0, 0, 0, 0, 9]).is_none());
    // Trailing bytes after a complete frame are rejected too.
    let mut bytes = encode_frame(&Frame::Release { id: 1, kind: ReleaseKind::Handle });
    bytes.push(0);
    assert!(decode_frame(&bytes).is_none());
}
