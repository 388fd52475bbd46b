//! The laws of the runtime, stated and proved over the transition
//! functions of the portal and the codec.
//!
//! Each public proof function here is a property of the protocol as a
//! whole: round-trip identity across the wire, per-sender ordering,
//! uniqueness of reply resolution, the drain guarantee of `Close`,
//! isolation of portal-scoped identifiers, and idempotence of publishing.

use vstd::prelude::*;

use crate::codec::{lemma_frame_round_trip, spec_decode, spec_encode, FrameModel, WireErrorKind};
use crate::conduit::PortalIngressModel;
use crate::portal::{
    drain_proxy_acts, drain_reply_acts, expired, export_actor_idx, export_idx, has_export,
    has_export_actor, has_name, has_proxy, has_reply, lemma_sweep_kept, name_idx, proxy_idx,
    reply_idx, sweep_acts, ActionModel, ExportModel, LogEvent, NameModel, Phase, PortalModel,
    ReplyEntry, ReplyOutcomeModel,
};

verus! {

/// The action list resolves the reply port `id`.
pub open spec fn resolves(acts: Seq<ActionModel>, id: u64) -> bool {
    exists|i: int|
        0 <= i < acts.len() && ((#[trigger] acts[i]) matches ActionModel::ResolveReply {
            reply_id,
            ..
        } && reply_id == id)
}

/// Round-trip identity across the wire, sending side to receiving side:
/// when a portal's proxy forwards a payload, the one frame it emits, once
/// encoded, decoded by the peer and dispatched, delivers exactly that
/// payload to the actor exported under the proxy's remote id — and nothing
/// else.
pub proof fn lemma_cast_round_trip(
    sender: PortalModel,
    receiver: PortalModel,
    key: u64,
    payload: Seq<u8>,
)
    requires
        sender.inv(),
        receiver.inv(),
        sender.accepting(),
        receiver.accepting(),
        has_proxy(sender.proxies, key),
        payload.len() <= u64::MAX,
        has_export(receiver.exports, sender.proxies[proxy_idx(sender.proxies, key)].remote_id),
        receiver.exports[export_idx(
            receiver.exports,
            sender.proxies[proxy_idx(sender.proxies, key)].remote_id,
        )].alive,
    ensures
        ({
            let target = sender.proxies[proxy_idx(sender.proxies, key)].remote_id;
            let actor = receiver.exports[export_idx(receiver.exports, target)].actor;
            let frame = FrameModel::Cast { target, payload };
            &&& sender.spec_proxy_cast(key, payload).1 == seq![ActionModel::Transmit(frame)]
            &&& spec_decode(spec_encode(frame)) == Some(frame)
            &&& receiver.spec_ingress(PortalIngressModel::Binary(spec_encode(frame))).1 == seq![
                ActionModel::DeliverCast { actor, payload },
            ]
        }),
{
    let target = sender.proxies[proxy_idx(sender.proxies, key)].remote_id;
    lemma_frame_round_trip(FrameModel::Cast { target, payload });
}

/// Casting a sequence of payloads through one proxy, in order. The portal
/// state is untouched by forwarding, so the emitted frames are exactly one
/// `Cast` per payload, in the same order.
pub open spec fn spec_cast_all(s: PortalModel, key: u64, ps: Seq<Seq<u8>>) -> (
    PortalModel,
    Seq<ActionModel>,
)
    decreases ps.len(),
{
    if ps.len() == 0 {
        (s, Seq::empty())
    } else {
        let (s1, a1) = spec_cast_all(s, key, ps.drop_last());
        let (s2, a2) = s1.spec_proxy_cast(key, ps.last());
        (s2, a1 + a2)
    }
}

/// Handling a sequence of inbound frames, in order.
pub open spec fn spec_handle_all(s: PortalModel, fs: Seq<FrameModel>) -> (
    PortalModel,
    Seq<ActionModel>,
)
    decreases fs.len(),
{
    if fs.len() == 0 {
        (s, Seq::empty())
    } else {
        let (s1, a1) = spec_handle_all(s, fs.drop_last());
        let (s2, a2) = s1.spec_handle_frame(fs.last());
        (s2, a1 + a2)
    }
}

/// The `Cast` frames carrying a sequence of payloads to one target.
pub open spec fn cast_frames(target: u64, ps: Seq<Seq<u8>>) -> Seq<FrameModel> {
    ps.map_values(|p: Seq<u8>| FrameModel::Cast { target, payload: p })
}

/// The deliveries of a sequence of payloads to one actor.
pub open spec fn deliveries(actor: u64, ps: Seq<Seq<u8>>) -> Seq<ActionModel> {
    ps.map_values(|p: Seq<u8>| ActionModel::DeliverCast { actor, payload: p })
}

/// Ordering per sender, sending half: a running portal forwarding a
/// sequence of payloads through one proxy emits exactly one `Cast` frame
/// per payload, in send order, and its state is unchanged.
pub proof fn lemma_order_sent(s: PortalModel, key: u64, ps: Seq<Seq<u8>>)
    requires
        s.inv(),
        s.phase == Phase::Running,
        has_proxy(s.proxies, key),
    ensures
        spec_cast_all(s, key, ps).0 == s,
        spec_cast_all(s, key, ps).1 == ps.map_values(
            |p: Seq<u8>| ActionModel::Transmit(
                FrameModel::Cast {
                    target: s.proxies[proxy_idx(s.proxies, key)].remote_id,
                    payload: p,
                },
            ),
        ),
    decreases ps.len(),
{
    let target = s.proxies[proxy_idx(s.proxies, key)].remote_id;
    let f = |p: Seq<u8>| ActionModel::Transmit(FrameModel::Cast { target, payload: p });
    if ps.len() == 0 {
        assert(spec_cast_all(s, key, ps).1 =~= ps.map_values(f));
    } else {
        lemma_order_sent(s, key, ps.drop_last());
        assert(spec_cast_all(s, key, ps).0 == s);
        assert(spec_cast_all(s, key, ps).1 =~= ps.map_values(f)) by {
            assert(ps.drop_last().map_values(f) =~= ps.map_values(f).drop_last());
        }
    }
}

/// Ordering per sender, receiving half: a running portal handling a
/// sequence of `Cast` frames addressed to one live export delivers exactly
/// the carried payloads to that actor, in arrival order, and its state is
/// unchanged.
pub proof fn lemma_order_delivered(s: PortalModel, target: u64, ps: Seq<Seq<u8>>)
    requires
        s.inv(),
        s.phase == Phase::Running,
        has_export(s.exports, target),
        s.exports[export_idx(s.exports, target)].alive,
    ensures
        spec_handle_all(s, cast_frames(target, ps)).0 == s,
        spec_handle_all(s, cast_frames(target, ps)).1 == deliveries(
            s.exports[export_idx(s.exports, target)].actor,
            ps,
        ),
    decreases ps.len(),
{
    let actor = s.exports[export_idx(s.exports, target)].actor;
    let fs = cast_frames(target, ps);
    if ps.len() == 0 {
        assert(spec_handle_all(s, fs).1 =~= deliveries(actor, ps));
    } else {
        lemma_order_delivered(s, target, ps.drop_last());
        assert(fs.drop_last() =~= cast_frames(target, ps.drop_last()));
        assert(fs.last() == FrameModel::Cast { target, payload: ps.last() });
        assert(spec_handle_all(s, fs).0 == s);
        assert(spec_handle_all(s, fs).1 =~= deliveries(actor, ps)) by {
            assert(deliveries(actor, ps.drop_last()) =~= deliveries(actor, ps).drop_last());
        }
    }
}

/// Removing the entry of an outstanding reply port removes exactly that
/// port: the id is no longer outstanding and every other id is unaffected.
pub proof fn lemma_remove_reply(rs: Seq<ReplyEntry>, id: u64)
    requires
        forall|i: int, j: int|
            0 <= i < rs.len() && 0 <= j < rs.len() && rs[i].reply_id == rs[j].reply_id ==> i == j,
        has_reply(rs, id),
    ensures
        !has_reply(rs.remove(reply_idx(rs, id)), id),
        forall|o: u64|
            o != id ==> (has_reply(rs.remove(reply_idx(rs, id)), o) <==> #[trigger] has_reply(
                rs,
                o,
            )),
{
    let k = reply_idx(rs, id);
    assert(0 <= k < rs.len() && rs[k].reply_id == id);
    let rest = rs.remove(k);
    if has_reply(rest, id) {
        let w = choose|w: int| 0 <= w < rest.len() && rest[w].reply_id == id;
        if w < k {
            assert(rs[w].reply_id == id);
        } else {
            assert(rs[w + 1].reply_id == id);
        }
    }
    assert forall|o: u64| o != id implies (has_reply(rest, o) <==> #[trigger] has_reply(
        rs,
        o,
    )) by {
        if has_reply(rest, o) {
            let w = choose|w: int| 0 <= w < rest.len() && rest[w].reply_id == o;
            if w < k {
                assert(rs[w].reply_id == o);
            } else {
                assert(rs[w + 1].reply_id == o);
            }
        }
        if has_reply(rs, o) {
            let w = choose|w: int| 0 <= w < rs.len() && rs[w].reply_id == o;
            if w < k {
                assert(rest[w].reply_id == o);
            } else {
                assert(rest[w - 1].reply_id == o);
            }
        }
    }
}

/// Reply uniqueness under frame handling: a frame resolves a reply port
/// only while the port is outstanding, a resolved port leaves the table,
/// and a frame for a port that is not outstanding resolves nothing — so a
/// second answer for the same port is dropped.
pub proof fn lemma_reply_resolves_once(s: PortalModel, f: FrameModel)
    requires
        s.inv(),
    ensures
        ({
            let (s2, acts) = s.spec_handle_frame(f);
            forall|id: u64|
                #[trigger] resolves(acts, id) ==> has_reply(s.replies, id) && !has_reply(
                    s2.replies,
                    id,
                )
        }),
{
    let (s2, acts) = s.spec_handle_frame(f);
    assert forall|id: u64| #[trigger] resolves(acts, id) implies has_reply(s.replies, id)
        && !has_reply(s2.replies, id) by {
        if s.accepting() {
            let srun = s.activated();
            match f {
                FrameModel::QueryReply { reply_id, .. } => {
                    if has_reply(srun.replies, reply_id) {
                        assert(id == reply_id);
                        lemma_remove_reply(srun.replies, reply_id);
                    }
                },
                FrameModel::Reply { reply_id, .. } => {
                    if has_reply(srun.replies, reply_id) {
                        assert(id == reply_id);
                        lemma_remove_reply(srun.replies, reply_id);
                    }
                },
                FrameModel::ReplyError { reply_id, .. } => {
                    if has_reply(srun.replies, reply_id) {
                        assert(id == reply_id);
                        lemma_remove_reply(srun.replies, reply_id);
                    }
                },
                _ => {},
            }
        }
    }
}

/// Close drains: draining a live portal resolves every outstanding reply
/// port with `PeerClosed`, stops every proxy, and leaves no port and no
/// proxy behind; the drained portal accepts no further work.
pub proof fn lemma_close_drains(s: PortalModel)
    requires
        s.inv(),
        s.accepting(),
    ensures
        ({
            let (s2, acts) = s.spec_drain();
            &&& s2.replies.len() == 0
            &&& s2.proxies.len() == 0
            &&& !s2.accepting()
            &&& forall|i: int|
                0 <= i < s.replies.len() ==> acts[i] == ActionModel::ResolveReply {
                    reply_id: (#[trigger] s.replies[i]).reply_id,
                    outcome: ReplyOutcomeModel::PeerClosed,
                }
            &&& forall|i: int|
                0 <= i < s.proxies.len() ==> acts[s.replies.len() + i]
                    == ActionModel::StopProxy { key: (#[trigger] s.proxies[i]).key }
            &&& forall|id: u64| has_reply(s.replies, id) ==> #[trigger] resolves(acts, id)
        }),
{
    let (s2, acts) = s.spec_drain();
    assert(acts == drain_reply_acts(s.replies) + drain_proxy_acts(s.proxies) + seq![
        ActionModel::CloseSink,
        ActionModel::Note(LogEvent::PortalClosed),
    ]);
    assert forall|id: u64| has_reply(s.replies, id) implies #[trigger] resolves(acts, id) by {
        let w = choose|w: int| 0 <= w < s.replies.len() && s.replies[w].reply_id == id;
        assert(acts[w] == ActionModel::ResolveReply {
            reply_id: id,
            outcome: ReplyOutcomeModel::PeerClosed,
        });
    }
}

/// Identifier isolation: identifiers are portal-scoped, so an id that a
/// portal did not mint (and therefore does not export) addresses nothing
/// there. A `Cast` to it is dropped with a log event and delivers nothing;
/// an `Ask` to it is answered with an `unknown target` error frame and
/// delivers nothing. The portal keeps running.
pub proof fn lemma_id_isolation(q: PortalModel, id: u64, reply_id: u64, payload: Seq<u8>)
    requires
        q.inv(),
        q.accepting(),
        !has_export(q.exports, id),
    ensures
        q.spec_handle_frame(FrameModel::Cast { target: id, payload }).1 == seq![
            ActionModel::Note(LogEvent::UnknownTargetCast),
        ],
        q.spec_handle_frame(FrameModel::Ask { target: id, reply_id, payload }).1 == seq![
            ActionModel::Transmit(
                FrameModel::ReplyError {
                    reply_id,
                    kind: WireErrorKind::UnknownTarget,
                    message: Seq::empty(),
                },
            ),
            ActionModel::Note(LogEvent::UnknownTargetAsk),
        ],
        q.spec_handle_frame(FrameModel::Cast { target: id, payload }).0.accepting(),
        q.spec_handle_frame(FrameModel::Ask { target: id, reply_id, payload }).0.accepting(),
{
}

/// Idempotent publish: publishing the same actor under the same name a
/// second time yields the same local id and leaves the portal exactly as
/// it was — one logical advertisement, however often it is repeated.
pub proof fn lemma_publish_idempotent(s: PortalModel, name: Seq<u8>, actor: u64, type_tag: Seq<u8>)
    requires
        s.inv(),
        s.accepting(),
        s.next_id < u64::MAX,
    ensures
        ({
            let (s1, id1, _) = s.spec_publish(name, actor, type_tag);
            let (s2, id2, _) = s1.spec_publish(name, actor, type_tag);
            id2 == id1 && s2 == s1
        }),
{
    s.lemma_publish_preserves_inv(name, actor, type_tag);
    let (s1, id1, _) = s.spec_publish(name, actor, type_tag);
    let (s2, id2, _) = s1.spec_publish(name, actor, type_tag);
    assert(s1.phase == Phase::Running);
    assert(s1.activated() == s1);
    let sr = s.activated();
    if has_export_actor(sr.exports, actor) {
        let i = export_actor_idx(sr.exports, actor);
        assert(0 <= i < sr.exports.len() && sr.exports[i].actor == actor);
        assert(s1.exports[i].actor == actor && s1.exports[i].alive && s1.exports[i].local_id
            == id1);
    } else {
        assert(s1.exports[s1.exports.len() - 1].actor == actor);
        assert(s1.exports[s1.exports.len() - 1].alive);
        assert(s1.exports[s1.exports.len() - 1].local_id == id1);
    }
    assert(has_export_actor(s1.exports, actor));
    let i2 = export_actor_idx(s1.exports, actor);
    assert(0 <= i2 < s1.exports.len() && s1.exports[i2].actor == actor);
    assert(s1.exports[i2].alive && s1.exports[i2].local_id == id1) by {
        if has_export_actor(sr.exports, actor) {
            let i = export_actor_idx(sr.exports, actor);
            assert(s1.exports[i].actor == actor);
            assert(i2 == i);
        } else {
            assert(i2 == s1.exports.len() - 1);
        }
    }
    assert(id2 == id1);
    assert(s1.exports.update(i2, ExportModel { alive: true, ..s1.exports[i2] }) =~~= s1.exports);
    assert(has_name(s1.names, name)) by {
        if has_name(sr.names, name) {
            let j = name_idx(sr.names, name);
            assert(0 <= j < sr.names.len() && sr.names[j].name == name);
            assert(s1.names[j].name == name);
        } else {
            assert(s1.names[s1.names.len() - 1].name == name);
        }
    }
    let j2 = name_idx(s1.names, name);
    assert(0 <= j2 < s1.names.len() && s1.names[j2].name == name);
    assert(s1.names[j2] == NameModel { name, local_id: id1 }) by {
        if has_name(sr.names, name) {
            let j = name_idx(sr.names, name);
            assert(s1.names[j].name == name);
            assert(j2 == j);
        } else {
            assert(j2 == s1.names.len() - 1);
        }
    }
    assert(s1.names.update(j2, NameModel { name, local_id: id1 }) =~~= s1.names);
    assert(s2 =~~= s1);
}


proof fn lemma_sweep_acts_resolves(rs: Seq<ReplyEntry>, now: u64)
    ensures
        forall|id: u64|
            #[trigger] resolves(sweep_acts(rs, now), id) <==> exists|i: int|
                0 <= i < rs.len() && (#[trigger] rs[i]).reply_id == id && expired(
                    rs[i],
                    now,
                ),
    decreases rs.len(),
{
    let acts = sweep_acts(rs, now);
    if rs.len() == 0 {
        assert forall|id: u64| #[trigger] resolves(acts, id) implies false by {}
    } else {
        let pre = rs.drop_last();
        lemma_sweep_acts_resolves(pre, now);
        let p = sweep_acts(pre, now);
        let last = rs.last();
        assert(forall|i: int| 0 <= i < pre.len() ==> pre[i] == rs[i]);
        assert forall|id: u64| #[trigger] resolves(acts, id) implies exists|i: int|
            0 <= i < rs.len() && (#[trigger] rs[i]).reply_id == id && expired(
                rs[i],
                now,
            ) by {
            let k = choose|k: int|
                0 <= k < acts.len() && ((#[trigger] acts[k]) matches ActionModel::ResolveReply {
                    reply_id,
                    ..
                } && reply_id == id);
            if k < p.len() {
                assert(resolves(p, id));
                let i = choose|i: int|
                    0 <= i < pre.len() && (#[trigger] pre[i]).reply_id == id
                        && expired(pre[i], now);
                assert(rs[i].reply_id == id && expired(rs[i], now));
            } else {
                assert(expired(last, now) && last.reply_id == id);
                assert(rs[rs.len() - 1].reply_id == id);
            }
        }
        assert forall|id: u64|
            (exists|i: int|
                0 <= i < rs.len() && (#[trigger] rs[i]).reply_id == id && expired(
                    rs[i],
                    now,
                )) implies resolves(acts, id) by {
            let i = choose|i: int|
                0 <= i < rs.len() && (#[trigger] rs[i]).reply_id == id && expired(
                    rs[i],
                    now,
                );
            if i < rs.len() - 1 {
                assert(pre[i].reply_id == id && expired(pre[i], now));
                assert(resolves(p, id));
                let k = choose|k: int|
                    0 <= k < p.len() && ((#[trigger] p[k]) matches ActionModel::ResolveReply {
                        reply_id,
                        ..
                    } && reply_id == id);
                if expired(last, now) {
                    assert(acts[k] == p[k]);
                } else {
                    assert(acts[k] == p[k]);
                }
            } else {
                assert(expired(last, now));
                assert(acts[acts.len() - 1] == ActionModel::ResolveReply {
                    reply_id: last.reply_id,
                    outcome: ReplyOutcomeModel::TimedOut,
                });
            }
        }
    }
}

/// Timeouts resolve exactly once: a sweep resolves precisely the expired
/// outstanding reply ports, each of which then leaves the table — so a
/// later answer from the peer finds no port and is dropped, and a second
/// sweep resolves nothing further.
pub proof fn lemma_timeout_resolves_once(s: PortalModel, now: u64)
    requires
        s.inv(),
        s.accepting(),
    ensures
        ({
            let (s2, acts) = s.spec_tick(now);
            forall|id: u64|
                #[trigger] resolves(acts, id) ==> has_reply(s.replies, id) && !has_reply(
                    s2.replies,
                    id,
                )
        }),
{
    let (s2, acts) = s.spec_tick(now);
    lemma_sweep_acts_resolves(s.replies, now);
    lemma_sweep_kept(s.replies, now, s.next_id);
    assert forall|id: u64| #[trigger] resolves(acts, id) implies has_reply(s.replies, id)
        && !has_reply(s2.replies, id) by {
        let i = choose|i: int|
            0 <= i < s.replies.len() && (#[trigger] s.replies[i]).reply_id == id
                && expired(s.replies[i], now);
        assert(has_reply(s.replies, id));
        if has_reply(s2.replies, id) {
            let j = choose|j: int|
                0 <= j < s.replies.len() && (#[trigger] s.replies[j]).reply_id == id
                    && !expired(s.replies[j], now);
            assert(i == j);
        }
    }
}

} // verus!
