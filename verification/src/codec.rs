//! The wire codec: the portal protocol frames and their binary form.
//!
//! Each frame is carried as one binary conduit message. The envelope is a
//! one-byte frame tag followed by the frame's fields; identifiers are 64-bit
//! unsigned integers in big-endian order, and byte strings (names, type
//! tags, payloads) are length-prefixed. The layout is fixed here so both
//! sides of a connection agree on it.
//!
//! [`spec_encode`] and [`spec_decode`] are the mathematical description of
//! the layout; [`encode_frame`] and [`decode_frame`] are the executable
//! codec, each tied exactly to its description. [`lemma_frame_round_trip`]
//! states the law that decoding an encoded frame yields the frame back.

use vstd::prelude::*;

verus! {

/// Frame tag of `Advertise`.
pub const TAG_ADVERTISE: u8 = 1;

/// Frame tag of `Query`.
pub const TAG_QUERY: u8 = 2;

/// Frame tag of `QueryReply`.
pub const TAG_QUERY_REPLY: u8 = 3;

/// Frame tag of `Cast`.
pub const TAG_CAST: u8 = 4;

/// Frame tag of `Ask`.
pub const TAG_ASK: u8 = 5;

/// Frame tag of `Reply`.
pub const TAG_REPLY: u8 = 6;

/// Frame tag of `ReplyError`.
pub const TAG_REPLY_ERROR: u8 = 7;

/// Frame tag of `Release`.
pub const TAG_RELEASE: u8 = 8;

/// Error kinds that travel inside a `ReplyError` frame.
#[derive(Clone, Copy, PartialEq, Eq, Structural, Debug)]
pub enum WireErrorKind {
    /// The `Ask` named a local id the peer never advertised.
    UnknownTarget,
    /// Any other failure reported by the peer.
    Other,
}

/// What a `Release` frame releases.
#[derive(Clone, Copy, PartialEq, Eq, Structural, Debug)]
pub enum ReleaseKind {
    ReplyPort,
    Handle,
}

/// The positive half of a `QueryReply`: the id and type tag under which the
/// peer exports the queried name.
#[derive(Debug)]
pub struct FoundTarget {
    pub id: u64,
    pub type_tag: Vec<u8>,
}

/// Mathematical image of a [`FoundTarget`].
#[verifier::ext_equal]
pub struct FoundTargetModel {
    pub id: u64,
    pub type_tag: Seq<u8>,
}

impl View for FoundTarget {
    type V = FoundTargetModel;

    open spec fn view(&self) -> FoundTargetModel {
        FoundTargetModel { id: self.id, type_tag: self.type_tag@ }
    }
}

/// One frame of the portal protocol.
#[derive(Debug)]
pub enum Frame {
    /// A local actor is exported under `name` with the given id and type tag.
    Advertise { name: Vec<u8>, id: u64, type_tag: Vec<u8> },
    /// Ask the peer which id it exports under `name`.
    Query { name: Vec<u8>, reply_id: u64 },
    /// Answer to a `Query`; `found` is `None` for an unknown name.
    QueryReply { reply_id: u64, found: Option<FoundTarget> },
    /// Fire-and-forget message to the peer's exported actor `target`.
    Cast { target: u64, payload: Vec<u8> },
    /// Like `Cast`, but the payload carries a reply port bound to `reply_id`.
    Ask { target: u64, reply_id: u64, payload: Vec<u8> },
    /// Resolves the peer's outstanding reply port `reply_id` with a value.
    Reply { reply_id: u64, payload: Vec<u8> },
    /// Resolves the peer's outstanding reply port `reply_id` with a failure.
    ReplyError { reply_id: u64, kind: WireErrorKind, message: Vec<u8> },
    /// The peer no longer needs the resource `id`.
    Release { id: u64, kind: ReleaseKind },
}

/// Mathematical image of a [`Frame`].
#[verifier::ext_equal]
pub enum FrameModel {
    Advertise { name: Seq<u8>, id: u64, type_tag: Seq<u8> },
    Query { name: Seq<u8>, reply_id: u64 },
    QueryReply { reply_id: u64, found: Option<FoundTargetModel> },
    Cast { target: u64, payload: Seq<u8> },
    Ask { target: u64, reply_id: u64, payload: Seq<u8> },
    Reply { reply_id: u64, payload: Seq<u8> },
    ReplyError { reply_id: u64, kind: WireErrorKind, message: Seq<u8> },
    Release { id: u64, kind: ReleaseKind },
}

impl View for Frame {
    type V = FrameModel;

    open spec fn view(&self) -> FrameModel {
        match self {
            Frame::Advertise { name, id, type_tag } => FrameModel::Advertise {
                name: name@,
                id: *id,
                type_tag: type_tag@,
            },
            Frame::Query { name, reply_id } => FrameModel::Query {
                name: name@,
                reply_id: *reply_id,
            },
            Frame::QueryReply { reply_id, found } => FrameModel::QueryReply {
                reply_id: *reply_id,
                found: match found {
                    Some(t) => Some(t@),
                    None => None,
                },
            },
            Frame::Cast { target, payload } => FrameModel::Cast {
                target: *target,
                payload: payload@,
            },
            Frame::Ask { target, reply_id, payload } => FrameModel::Ask {
                target: *target,
                reply_id: *reply_id,
                payload: payload@,
            },
            Frame::Reply { reply_id, payload } => FrameModel::Reply {
                reply_id: *reply_id,
                payload: payload@,
            },
            Frame::ReplyError { reply_id, kind, message } => FrameModel::ReplyError {
                reply_id: *reply_id,
                kind: *kind,
                message: message@,
            },
            Frame::Release { id, kind } => FrameModel::Release { id: *id, kind: *kind },
        }
    }
}

/// A frame whose byte-string fields each fit behind a 64-bit length prefix.
/// Every frame built from in-memory vectors satisfies this.
pub open spec fn wf_frame(f: FrameModel) -> bool {
    match f {
        FrameModel::Advertise { name, type_tag, .. } => name.len() <= u64::MAX && type_tag.len()
            <= u64::MAX,
        FrameModel::Query { name, .. } => name.len() <= u64::MAX,
        FrameModel::QueryReply { found, .. } => match found {
            Some(t) => t.type_tag.len() <= u64::MAX,
            None => true,
        },
        FrameModel::Cast { payload, .. } => payload.len() <= u64::MAX,
        FrameModel::Ask { payload, .. } => payload.len() <= u64::MAX,
        FrameModel::Reply { payload, .. } => payload.len() <= u64::MAX,
        FrameModel::ReplyError { message, .. } => message.len() <= u64::MAX,
        FrameModel::Release { .. } => true,
    }
}

/// Big-endian bytes of a 64-bit integer.
pub open spec fn enc_u64(x: u64) -> Seq<u8> {
    seq![
        (x >> 56) as u8,
        (x >> 48) as u8,
        (x >> 40) as u8,
        (x >> 32) as u8,
        (x >> 24) as u8,
        (x >> 16) as u8,
        (x >> 8) as u8,
        x as u8,
    ]
}

/// A length-prefixed byte string.
pub open spec fn enc_bytes(b: Seq<u8>) -> Seq<u8> {
    enc_u64(b.len() as u64) + b
}

/// Byte of a [`WireErrorKind`].
pub open spec fn enc_err_kind(k: WireErrorKind) -> u8 {
    match k {
        WireErrorKind::UnknownTarget => 1,
        WireErrorKind::Other => 2,
    }
}

/// Byte of a [`ReleaseKind`].
pub open spec fn enc_rel_kind(k: ReleaseKind) -> u8 {
    match k {
        ReleaseKind::ReplyPort => 1,
        ReleaseKind::Handle => 2,
    }
}

/// An optional query target: a presence byte, then id and type tag.
pub open spec fn enc_opt_target(o: Option<FoundTargetModel>) -> Seq<u8> {
    match o {
        None => seq![0u8],
        Some(t) => seq![1u8] + enc_u64(t.id) + enc_bytes(t.type_tag),
    }
}

/// The byte form of a frame: its tag, then its fields.
pub open spec fn spec_encode(f: FrameModel) -> Seq<u8> {
    match f {
        FrameModel::Advertise { name, id, type_tag } => seq![TAG_ADVERTISE] + enc_bytes(name)
            + enc_u64(id) + enc_bytes(type_tag),
        FrameModel::Query { name, reply_id } => seq![TAG_QUERY] + enc_bytes(name) + enc_u64(
            reply_id,
        ),
        FrameModel::QueryReply { reply_id, found } => seq![TAG_QUERY_REPLY] + enc_u64(reply_id)
            + enc_opt_target(found),
        FrameModel::Cast { target, payload } => seq![TAG_CAST] + enc_u64(target) + enc_bytes(
            payload,
        ),
        FrameModel::Ask { target, reply_id, payload } => seq![TAG_ASK] + enc_u64(target) + enc_u64(
            reply_id,
        ) + enc_bytes(payload),
        FrameModel::Reply { reply_id, payload } => seq![TAG_REPLY] + enc_u64(reply_id) + enc_bytes(
            payload,
        ),
        FrameModel::ReplyError { reply_id, kind, message } => seq![TAG_REPLY_ERROR] + enc_u64(
            reply_id,
        ) + seq![enc_err_kind(kind)] + enc_bytes(message),
        FrameModel::Release { id, kind } => seq![TAG_RELEASE] + enc_u64(id) + seq![
            enc_rel_kind(kind),
        ],
    }
}

/// The integer held in the first eight bytes of `s`, big-endian.
pub open spec fn dec_u64(s: Seq<u8>) -> u64
    recommends
        s.len() >= 8,
{
    (((s[0] as u64) << 56) | ((s[1] as u64) << 48) | ((s[2] as u64) << 40) | ((s[3] as u64) << 32)
        | ((s[4] as u64) << 24) | ((s[5] as u64) << 16) | ((s[6] as u64) << 8) | (s[7] as u64))
}

/// Reads a 64-bit integer; yields the value and the rest of the input.
pub open spec fn parse_u64(s: Seq<u8>) -> Option<(u64, Seq<u8>)> {
    if s.len() >= 8 {
        Some((dec_u64(s), s.skip(8)))
    } else {
        None
    }
}

/// Reads a length-prefixed byte string; yields it and the rest of the input.
pub open spec fn parse_bytes(s: Seq<u8>) -> Option<(Seq<u8>, Seq<u8>)> {
    match parse_u64(s) {
        None => None,
        Some((n, r)) => if r.len() >= n {
            Some((r.take(n as int), r.skip(n as int)))
        } else {
            None
        },
    }
}

/// Reads an optional query target.
pub open spec fn parse_opt_target(s: Seq<u8>) -> Option<(Option<FoundTargetModel>, Seq<u8>)> {
    if s.len() < 1 {
        None
    } else if s[0] == 0 {
        Some((None, s.skip(1)))
    } else if s[0] == 1 {
        match parse_u64(s.skip(1)) {
            None => None,
            Some((id, r)) => match parse_bytes(r) {
                None => None,
                Some((tag, r2)) => Some((Some(FoundTargetModel { id, type_tag: tag }), r2)),
            },
        }
    } else {
        None
    }
}

/// Reads a [`WireErrorKind`] byte.
pub open spec fn parse_err_kind(b: u8) -> Option<WireErrorKind> {
    if b == 1 {
        Some(WireErrorKind::UnknownTarget)
    } else if b == 2 {
        Some(WireErrorKind::Other)
    } else {
        None
    }
}

/// Reads a [`ReleaseKind`] byte.
pub open spec fn parse_rel_kind(b: u8) -> Option<ReleaseKind> {
    if b == 1 {
        Some(ReleaseKind::ReplyPort)
    } else if b == 2 {
        Some(ReleaseKind::Handle)
    } else {
        None
    }
}

/// The frame held in `s`, if `s` is exactly one well-formed frame.
pub open spec fn spec_decode(s: Seq<u8>) -> Option<FrameModel> {
    if s.len() < 1 {
        None
    } else {
        let t = s[0];
        let r0 = s.skip(1);
        if t == TAG_ADVERTISE {
            match parse_bytes(r0) {
                None => None,
                Some((name, r1)) => match parse_u64(r1) {
                    None => None,
                    Some((id, r2)) => match parse_bytes(r2) {
                        None => None,
                        Some((type_tag, r3)) => if r3.len() == 0 {
                            Some(FrameModel::Advertise { name, id, type_tag })
                        } else {
                            None
                        },
                    },
                },
            }
        } else if t == TAG_QUERY {
            match parse_bytes(r0) {
                None => None,
                Some((name, r1)) => match parse_u64(r1) {
                    None => None,
                    Some((reply_id, r2)) => if r2.len() == 0 {
                        Some(FrameModel::Query { name, reply_id })
                    } else {
                        None
                    },
                },
            }
        } else if t == TAG_QUERY_REPLY {
            match parse_u64(r0) {
                None => None,
                Some((reply_id, r1)) => match parse_opt_target(r1) {
                    None => None,
                    Some((found, r2)) => if r2.len() == 0 {
                        Some(FrameModel::QueryReply { reply_id, found })
                    } else {
                        None
                    },
                },
            }
        } else if t == TAG_CAST {
            match parse_u64(r0) {
                None => None,
                Some((target, r1)) => match parse_bytes(r1) {
                    None => None,
                    Some((payload, r2)) => if r2.len() == 0 {
                        Some(FrameModel::Cast { target, payload })
                    } else {
                        None
                    },
                },
            }
        } else if t == TAG_ASK {
            match parse_u64(r0) {
                None => None,
                Some((target, r1)) => match parse_u64(r1) {
                    None => None,
                    Some((reply_id, r2)) => match parse_bytes(r2) {
                        None => None,
                        Some((payload, r3)) => if r3.len() == 0 {
                            Some(FrameModel::Ask { target, reply_id, payload })
                        } else {
                            None
                        },
                    },
                },
            }
        } else if t == TAG_REPLY {
            match parse_u64(r0) {
                None => None,
                Some((reply_id, r1)) => match parse_bytes(r1) {
                    None => None,
                    Some((payload, r2)) => if r2.len() == 0 {
                        Some(FrameModel::Reply { reply_id, payload })
                    } else {
                        None
                    },
                },
            }
        } else if t == TAG_REPLY_ERROR {
            match parse_u64(r0) {
                None => None,
                Some((reply_id, r1)) => if r1.len() < 1 {
                    None
                } else {
                    match parse_err_kind(r1[0]) {
                        None => None,
                        Some(kind) => match parse_bytes(r1.skip(1)) {
                            None => None,
                            Some((message, r2)) => if r2.len() == 0 {
                                Some(FrameModel::ReplyError { reply_id, kind, message })
                            } else {
                                None
                            },
                        },
                    }
                },
            }
        } else if t == TAG_RELEASE {
            match parse_u64(r0) {
                None => None,
                Some((id, r1)) => if r1.len() == 1 {
                    match parse_rel_kind(r1[0]) {
                        None => None,
                        Some(kind) => Some(FrameModel::Release { id, kind }),
                    }
                } else {
                    None
                },
            }
        } else {
            None
        }
    }
}

proof fn lemma_dec_enc_u64(x: u64)
    ensures
        enc_u64(x).len() == 8,
        dec_u64(enc_u64(x)) == x,
{
    assert((((((x >> 56) as u8) as u64) << 56) | ((((x >> 48) as u8) as u64) << 48) | ((((x >> 40)
        as u8) as u64) << 40) | ((((x >> 32) as u8) as u64) << 32) | ((((x >> 24) as u8) as u64)
        << 24) | ((((x >> 16) as u8) as u64) << 16) | ((((x >> 8) as u8) as u64) << 8) | ((x
        as u8) as u64)) == x) by (bit_vector);
}

proof fn lemma_parse_enc_u64(x: u64, rest: Seq<u8>)
    ensures
        parse_u64(enc_u64(x) + rest) == Some((x, rest)),
{
    lemma_dec_enc_u64(x);
    let s = enc_u64(x) + rest;
    assert(s.skip(8) =~= rest);
    assert(dec_u64(s) == dec_u64(enc_u64(x)));
}

proof fn lemma_parse_enc_bytes(b: Seq<u8>, rest: Seq<u8>)
    requires
        b.len() <= u64::MAX,
    ensures
        parse_bytes(enc_bytes(b) + rest) == Some((b, rest)),
{
    let n = b.len() as u64;
    assert(enc_bytes(b) + rest =~= enc_u64(n) + (b + rest));
    lemma_parse_enc_u64(n, b + rest);
    assert((b + rest).take(n as int) =~= b);
    assert((b + rest).skip(n as int) =~= rest);
}

proof fn lemma_parse_enc_opt_target(o: Option<FoundTargetModel>, rest: Seq<u8>)
    requires
        match o {
            Some(t) => t.type_tag.len() <= u64::MAX,
            None => true,
        },
    ensures
        parse_opt_target(enc_opt_target(o) + rest) == Some((o, rest)),
{
    match o {
        None => {
            let s = enc_opt_target(o) + rest;
            assert(s[0] == 0);
            assert(s.skip(1) =~= rest);
        },
        Some(t) => {
            let s = enc_opt_target(o) + rest;
            assert(s[0] == 1);
            assert(s.skip(1) =~= enc_u64(t.id) + (enc_bytes(t.type_tag) + rest));
            lemma_parse_enc_u64(t.id, enc_bytes(t.type_tag) + rest);
            lemma_parse_enc_bytes(t.type_tag, rest);
        },
    }
}

proof fn rt_advertise(name: Seq<u8>, id: u64, type_tag: Seq<u8>)
    requires
        name.len() <= u64::MAX,
        type_tag.len() <= u64::MAX,
    ensures
        spec_decode(spec_encode(FrameModel::Advertise { name, id, type_tag })) == Some(
            FrameModel::Advertise { name, id, type_tag },
        ),
{
    let s = spec_encode(FrameModel::Advertise { name, id, type_tag });
    assert(s[0] == TAG_ADVERTISE);
    assert(s.skip(1) =~= enc_bytes(name) + (enc_u64(id) + (enc_bytes(type_tag)
        + Seq::<u8>::empty())));
    lemma_parse_enc_bytes(name, enc_u64(id) + (enc_bytes(type_tag) + Seq::<u8>::empty()));
    lemma_parse_enc_u64(id, enc_bytes(type_tag) + Seq::<u8>::empty());
    lemma_parse_enc_bytes(type_tag, Seq::<u8>::empty());
}

proof fn rt_query(name: Seq<u8>, reply_id: u64)
    requires
        name.len() <= u64::MAX,
    ensures
        spec_decode(spec_encode(FrameModel::Query { name, reply_id })) == Some(
            FrameModel::Query { name, reply_id },
        ),
{
    let s = spec_encode(FrameModel::Query { name, reply_id });
    assert(s[0] == TAG_QUERY);
    assert(s.skip(1) =~= enc_bytes(name) + (enc_u64(reply_id) + Seq::<u8>::empty()));
    lemma_parse_enc_bytes(name, enc_u64(reply_id) + Seq::<u8>::empty());
    lemma_parse_enc_u64(reply_id, Seq::<u8>::empty());
}

proof fn rt_query_reply(reply_id: u64, found: Option<FoundTargetModel>)
    requires
        match found {
            Some(t) => t.type_tag.len() <= u64::MAX,
            None => true,
        },
    ensures
        spec_decode(spec_encode(FrameModel::QueryReply { reply_id, found })) == Some(
            FrameModel::QueryReply { reply_id, found },
        ),
{
    let s = spec_encode(FrameModel::QueryReply { reply_id, found });
    assert(s[0] == TAG_QUERY_REPLY);
    assert(s.skip(1) =~= enc_u64(reply_id) + (enc_opt_target(found) + Seq::<u8>::empty()));
    lemma_parse_enc_u64(reply_id, enc_opt_target(found) + Seq::<u8>::empty());
    lemma_parse_enc_opt_target(found, Seq::<u8>::empty());
}

proof fn rt_cast(target: u64, payload: Seq<u8>)
    requires
        payload.len() <= u64::MAX,
    ensures
        spec_decode(spec_encode(FrameModel::Cast { target, payload })) == Some(
            FrameModel::Cast { target, payload },
        ),
{
    let s = spec_encode(FrameModel::Cast { target, payload });
    assert(s[0] == TAG_CAST);
    assert(s.skip(1) =~= enc_u64(target) + (enc_bytes(payload) + Seq::<u8>::empty()));
    lemma_parse_enc_u64(target, enc_bytes(payload) + Seq::<u8>::empty());
    lemma_parse_enc_bytes(payload, Seq::<u8>::empty());
}

proof fn rt_ask(target: u64, reply_id: u64, payload: Seq<u8>)
    requires
        payload.len() <= u64::MAX,
    ensures
        spec_decode(spec_encode(FrameModel::Ask { target, reply_id, payload })) == Some(
            FrameModel::Ask { target, reply_id, payload },
        ),
{
    let s = spec_encode(FrameModel::Ask { target, reply_id, payload });
    assert(s[0] == TAG_ASK);
    assert(s.skip(1) =~= enc_u64(target) + (enc_u64(reply_id) + (enc_bytes(payload)
        + Seq::<u8>::empty())));
    lemma_parse_enc_u64(target, enc_u64(reply_id) + (enc_bytes(payload) + Seq::<u8>::empty()));
    lemma_parse_enc_u64(reply_id, enc_bytes(payload) + Seq::<u8>::empty());
    lemma_parse_enc_bytes(payload, Seq::<u8>::empty());
}

proof fn rt_reply(reply_id: u64, payload: Seq<u8>)
    requires
        payload.len() <= u64::MAX,
    ensures
        spec_decode(spec_encode(FrameModel::Reply { reply_id, payload })) == Some(
            FrameModel::Reply { reply_id, payload },
        ),
{
    let s = spec_encode(FrameModel::Reply { reply_id, payload });
    assert(s[0] == TAG_REPLY);
    assert(s.skip(1) =~= enc_u64(reply_id) + (enc_bytes(payload) + Seq::<u8>::empty()));
    lemma_parse_enc_u64(reply_id, enc_bytes(payload) + Seq::<u8>::empty());
    lemma_parse_enc_bytes(payload, Seq::<u8>::empty());
}

proof fn rt_reply_error(reply_id: u64, kind: WireErrorKind, message: Seq<u8>)
    requires
        message.len() <= u64::MAX,
    ensures
        spec_decode(spec_encode(FrameModel::ReplyError { reply_id, kind, message })) == Some(
            FrameModel::ReplyError { reply_id, kind, message },
        ),
{
    let s = spec_encode(FrameModel::ReplyError { reply_id, kind, message });
    assert(s[0] == TAG_REPLY_ERROR);
    assert(s.skip(1) =~= enc_u64(reply_id) + (seq![enc_err_kind(kind)] + (enc_bytes(message)
        + Seq::<u8>::empty())));
    lemma_parse_enc_u64(reply_id, seq![enc_err_kind(kind)] + (enc_bytes(message)
        + Seq::<u8>::empty()));
    let r1 = seq![enc_err_kind(kind)] + (enc_bytes(message) + Seq::<u8>::empty());
    assert(r1[0] == enc_err_kind(kind));
    assert(parse_err_kind(enc_err_kind(kind)) == Some(kind));
    assert(r1.skip(1) =~= enc_bytes(message) + Seq::<u8>::empty());
    lemma_parse_enc_bytes(message, Seq::<u8>::empty());
}

proof fn rt_release(id: u64, kind: ReleaseKind)
    ensures
        spec_decode(spec_encode(FrameModel::Release { id, kind })) == Some(
            FrameModel::Release { id, kind },
        ),
{
    let s = spec_encode(FrameModel::Release { id, kind });
    assert(s[0] == TAG_RELEASE);
    assert(s.skip(1) =~= enc_u64(id) + seq![enc_rel_kind(kind)]);
    lemma_parse_enc_u64(id, seq![enc_rel_kind(kind)]);
    assert(parse_rel_kind(enc_rel_kind(kind)) == Some(kind));
}

/// Round-trip law of the codec: decoding the byte form of any well-formed
/// frame yields exactly that frame.
pub proof fn lemma_frame_round_trip(f: FrameModel)
    requires
        wf_frame(f),
    ensures
        spec_decode(spec_encode(f)) == Some(f),
{
    match f {
        FrameModel::Advertise { name, id, type_tag } => rt_advertise(name, id, type_tag),
        FrameModel::Query { name, reply_id } => rt_query(name, reply_id),
        FrameModel::QueryReply { reply_id, found } => rt_query_reply(reply_id, found),
        FrameModel::Cast { target, payload } => rt_cast(target, payload),
        FrameModel::Ask { target, reply_id, payload } => rt_ask(target, reply_id, payload),
        FrameModel::Reply { reply_id, payload } => rt_reply(reply_id, payload),
        FrameModel::ReplyError { reply_id, kind, message } => rt_reply_error(
            reply_id,
            kind,
            message,
        ),
        FrameModel::Release { id, kind } => rt_release(id, kind),
    }
}

fn push_u64(out: &mut Vec<u8>, x: u64)
    ensures
        final(out)@ == old(out)@ + enc_u64(x),
{
    out.push(#[verifier::truncate] ((x >> 56) as u8));
    out.push(#[verifier::truncate] ((x >> 48) as u8));
    out.push(#[verifier::truncate] ((x >> 40) as u8));
    out.push(#[verifier::truncate] ((x >> 32) as u8));
    out.push(#[verifier::truncate] ((x >> 24) as u8));
    out.push(#[verifier::truncate] ((x >> 16) as u8));
    out.push(#[verifier::truncate] ((x >> 8) as u8));
    out.push(#[verifier::truncate] (x as u8));
    proof {
        assert(out@ =~= old(out)@ + enc_u64(x));
    }
}

fn push_bytes(out: &mut Vec<u8>, b: &Vec<u8>)
    ensures
        final(out)@ == old(out)@ + enc_bytes(b@),
        b@.len() <= u64::MAX,
{
    push_u64(out, b.len() as u64);
    let mut i: usize = 0;
    while i < b.len()
        invariant
            i <= b.len(),
            out@ == old(out)@ + enc_u64(b@.len() as u64) + b@.take(i as int),
        decreases b.len() - i,
    {
        out.push(b[i]);
        proof {
            assert(b@.take(i as int).push(b@[i as int]) =~= b@.take(i + 1 as int));
        }
        i = i + 1;
    }
    proof {
        assert(b@.take(b.len() as int) =~= b@);
        assert(out@ =~= old(out)@ + enc_bytes(b@));
    }
}

/// Serializes a frame to its byte form.
pub fn encode_frame(f: &Frame) -> (r: Vec<u8>)
    ensures
        wf_frame(f@),
        r@ == spec_encode(f@),
{
    proof {
        assert(usize::MAX <= u64::MAX);
    }
    let mut out: Vec<u8> = Vec::new();
    match f {
        Frame::Advertise { name, id, type_tag } => {
            out.push(TAG_ADVERTISE);
            push_bytes(&mut out, name);
            push_u64(&mut out, *id);
            push_bytes(&mut out, type_tag);
            proof {
                assert(out@ =~= spec_encode(f@));
            }
        },
        Frame::Query { name, reply_id } => {
            out.push(TAG_QUERY);
            push_bytes(&mut out, name);
            push_u64(&mut out, *reply_id);
            proof {
                assert(out@ =~= spec_encode(f@));
            }
        },
        Frame::QueryReply { reply_id, found } => {
            out.push(TAG_QUERY_REPLY);
            push_u64(&mut out, *reply_id);
            match found {
                None => {
                    out.push(0u8);
                    proof {
                        assert(out@ =~= spec_encode(f@));
                    }
                },
                Some(t) => {
                    out.push(1u8);
                    push_u64(&mut out, t.id);
                    push_bytes(&mut out, &t.type_tag);
                    proof {
                        assert(out@ =~= spec_encode(f@));
                    }
                },
            }
        },
        Frame::Cast { target, payload } => {
            out.push(TAG_CAST);
            push_u64(&mut out, *target);
            push_bytes(&mut out, payload);
            proof {
                assert(out@ =~= spec_encode(f@));
            }
        },
        Frame::Ask { target, reply_id, payload } => {
            out.push(TAG_ASK);
            push_u64(&mut out, *target);
            push_u64(&mut out, *reply_id);
            push_bytes(&mut out, payload);
            proof {
                assert(out@ =~= spec_encode(f@));
            }
        },
        Frame::Reply { reply_id, payload } => {
            out.push(TAG_REPLY);
            push_u64(&mut out, *reply_id);
            push_bytes(&mut out, payload);
            proof {
                assert(out@ =~= spec_encode(f@));
            }
        },
        Frame::ReplyError { reply_id, kind, message } => {
            out.push(TAG_REPLY_ERROR);
            push_u64(&mut out, *reply_id);
            match kind {
                WireErrorKind::UnknownTarget => out.push(1u8),
                WireErrorKind::Other => out.push(2u8),
            }
            push_bytes(&mut out, message);
            proof {
                assert(out@ =~= spec_encode(f@));
            }
        },
        Frame::Release { id, kind } => {
            out.push(TAG_RELEASE);
            push_u64(&mut out, *id);
            match kind {
                ReleaseKind::ReplyPort => out.push(1u8),
                ReleaseKind::Handle => out.push(2u8),
            }
            proof {
                assert(out@ =~= spec_encode(f@));
            }
        },
    }
    out
}

fn read_u64(s: &Vec<u8>, i: usize) -> (r: Option<(u64, usize)>)
    requires
        i <= s.len(),
    ensures
        match r {
            Some(p) => parse_u64(s@.skip(i as int)) == Some((p.0, s@.skip(p.1 as int))) && i <= p.1
                <= s.len(),
            None => parse_u64(s@.skip(i as int)) is None,
        },
{
    if s.len() - i < 8 {
        return None;
    }
    let x = (((s[i] as u64) << 56) | ((s[i + 1] as u64) << 48) | ((s[i + 2] as u64) << 40) | ((s[i
        + 3] as u64) << 32) | ((s[i + 4] as u64) << 24) | ((s[i + 5] as u64) << 16) | ((s[i + 6]
        as u64) << 8) | (s[i + 7] as u64));
    proof {
        assert(s@.skip(i as int).skip(8) =~= s@.skip(i + 8 as int));
        assert(dec_u64(s@.skip(i as int)) == x);
    }
    Some((x, i + 8))
}

fn read_bytes(s: &Vec<u8>, i: usize) -> (r: Option<(Vec<u8>, usize)>)
    requires
        i <= s.len(),
    ensures
        match r {
            Some(p) => parse_bytes(s@.skip(i as int)) == Some((p.0@, s@.skip(p.1 as int))) && i
                <= p.1 <= s.len(),
            None => parse_bytes(s@.skip(i as int)) is None,
        },
{
    match read_u64(s, i) {
        None => None,
        Some((n, j)) => {
            if n > (s.len() - j) as u64 {
                proof {
                    assert(s@.skip(j as int).len() < n);
                }
                None
            } else {
                let m = n as usize;
                let mut b: Vec<u8> = Vec::new();
                let mut k: usize = 0;
                while k < m
                    invariant
                        k <= m,
                        j + m <= s.len(),
                        b@ == s@.subrange(j as int, j + k as int),
                    decreases m - k,
                {
                    b.push(s[j + k]);
                    proof {
                        assert(s@.subrange(j as int, j + k as int).push(s@[j + k]) =~= s@.subrange(
                            j as int,
                            j + (k + 1) as int,
                        ));
                    }
                    k = k + 1;
                }
                proof {
                    assert(b@ =~= s@.skip(i as int).skip(8).take(n as int));
                    assert(s@.skip(i as int).skip(8).skip(n as int) =~= s@.skip((j + m) as int));
                }
                Some((b, j + m))
            }
        },
    }
}

/// Parses one frame from its byte form; `None` when the bytes are not
/// exactly one well-formed frame.
pub fn decode_frame(s: &Vec<u8>) -> (r: Option<Frame>)
    ensures
        match r {
            Some(f) => spec_decode(s@) == Some(f@),
            None => spec_decode(s@) is None,
        },
{
    if s.len() == 0 {
        return None;
    }
    let t = s[0];
    if t == TAG_ADVERTISE {
        match read_bytes(s, 1) {
            None => None,
            Some((name, j1)) => match read_u64(s, j1) {
                None => None,
                Some((id, j2)) => match read_bytes(s, j2) {
                    None => None,
                    Some((type_tag, j3)) => if j3 == s.len() {
                        Some(Frame::Advertise { name, id, type_tag })
                    } else {
                        None
                    },
                },
            },
        }
    } else if t == TAG_QUERY {
        match read_bytes(s, 1) {
            None => None,
            Some((name, j1)) => match read_u64(s, j1) {
                None => None,
                Some((reply_id, j2)) => if j2 == s.len() {
                    Some(Frame::Query { name, reply_id })
                } else {
                    None
                },
            },
        }
    } else if t == TAG_QUERY_REPLY {
        match read_u64(s, 1) {
            None => None,
            Some((reply_id, j1)) => {
                if j1 == s.len() {
                    return None;
                }
                let flag = s[j1];
                if flag == 0 {
                    if j1 + 1 == s.len() {
                        proof {
                            assert(s@.skip(j1 as int)[0] == 0);
                            assert(s@.skip(j1 as int).skip(1) =~= s@.skip(j1 + 1 as int));
                        }
                        Some(Frame::QueryReply { reply_id, found: None })
                    } else {
                        proof {
                            assert(s@.skip(j1 as int)[0] == 0);
                            assert(s@.skip(j1 as int).skip(1) =~= s@.skip(j1 + 1 as int));
                        }
                        None
                    }
                } else if flag == 1 {
                    proof {
                        assert(s@.skip(j1 as int)[0] == 1);
                        assert(s@.skip(j1 as int).skip(1) =~= s@.skip(j1 + 1 as int));
                    }
                    match read_u64(s, j1 + 1) {
                        None => None,
                        Some((id, j2)) => match read_bytes(s, j2) {
                            None => None,
                            Some((type_tag, j3)) => if j3 == s.len() {
                                Some(
                                    Frame::QueryReply {
                                        reply_id,
                                        found: Some(FoundTarget { id, type_tag }),
                                    },
                                )
                            } else {
                                None
                            },
                        },
                    }
                } else {
                    proof {
                        assert(s@.skip(j1 as int)[0] == flag);
                    }
                    None
                }
            },
        }
    } else if t == TAG_CAST {
        match read_u64(s, 1) {
            None => None,
            Some((target, j1)) => match read_bytes(s, j1) {
                None => None,
                Some((payload, j2)) => if j2 == s.len() {
                    Some(Frame::Cast { target, payload })
                } else {
                    None
                },
            },
        }
    } else if t == TAG_ASK {
        match read_u64(s, 1) {
            None => None,
            Some((target, j1)) => match read_u64(s, j1) {
                None => None,
                Some((reply_id, j2)) => match read_bytes(s, j2) {
                    None => None,
                    Some((payload, j3)) => if j3 == s.len() {
                        Some(Frame::Ask { target, reply_id, payload })
                    } else {
                        None
                    },
                },
            },
        }
    } else if t == TAG_REPLY {
        match read_u64(s, 1) {
            None => None,
            Some((reply_id, j1)) => match read_bytes(s, j1) {
                None => None,
                Some((payload, j2)) => if j2 == s.len() {
                    Some(Frame::Reply { reply_id, payload })
                } else {
                    None
                },
            },
        }
    } else if t == TAG_REPLY_ERROR {
        match read_u64(s, 1) {
            None => None,
            Some((reply_id, j1)) => {
                if j1 == s.len() {
                    return None;
                }
                let kb = s[j1];
                proof {
                    assert(s@.skip(j1 as int)[0] == kb);
                    assert(s@.skip(j1 as int).skip(1) =~= s@.skip(j1 + 1 as int));
                }
                let kind = if kb == 1 {
                    WireErrorKind::UnknownTarget
                } else if kb == 2 {
                    WireErrorKind::Other
                } else {
                    return None;
                };
                match read_bytes(s, j1 + 1) {
                    None => None,
                    Some((message, j2)) => if j2 == s.len() {
                        Some(Frame::ReplyError { reply_id, kind, message })
                    } else {
                        None
                    },
                }
            },
        }
    } else if t == TAG_RELEASE {
        match read_u64(s, 1) {
            None => None,
            Some((id, j1)) => {
                if j1 + 1 != s.len() {
                    proof {
                        assert(s@.skip(j1 as int).len() == s.len() - j1);
                    }
                    return None;
                }
                let kb = s[j1];
                proof {
                    assert(s@.skip(j1 as int)[0] == kb);
                }
                if kb == 1 {
                    Some(Frame::Release { id, kind: ReleaseKind::ReplyPort })
                } else if kb == 2 {
                    Some(Frame::Release { id, kind: ReleaseKind::Handle })
                } else {
                    None
                }
            },
        }
    } else {
        None
    }
}

} // verus!
