//! The portal: the live endpoint of one connection, and its state machine.
//!
//! A portal owns the table of exported local actors, the name bindings under
//! which they are advertised, the outstanding reply ports, and the proxy
//! registrations for remote actors. Every operation — a local publish or
//! query, a frame arriving from the wire, a timeout sweep, a close — is a
//! transition: it updates the tables and returns the list of [`Action`]s the
//! surrounding tasks must perform (frames to transmit, payloads to deliver
//! to local actors, reply ports to resolve, proxies to stop).
//!
//! Identifiers are minted by one monotonic per-portal allocator, so local
//! ids, reply ids and proxy keys are never reused within a portal and never
//! mean anything in another portal.

use vstd::prelude::*;

use crate::bytes::{bytes_eq, clone_bytes};
use crate::codec::{
    decode_frame, spec_decode, FoundTarget, FoundTargetModel, Frame, FrameModel, ReleaseKind,
    WireErrorKind,
};
use crate::conduit::{PortalIngress, PortalIngressModel};

verus! {

/// Lifecycle of a portal.
#[derive(Clone, Copy, PartialEq, Eq, Structural, Debug)]
pub enum Phase {
    /// The sink is bound but no frame has been exchanged yet.
    Opening,
    /// Normal operation.
    Running,
    /// Teardown: tables swept, sink closing, no new frames accepted.
    Draining,
    /// Terminal; the nexus forgets the portal.
    Closed,
}

/// A local failure of a portal operation.
#[derive(Clone, Copy, PartialEq, Eq, Structural, Debug)]
pub enum WormholeError {
    /// The portal is draining or closed and accepts no new work.
    PortalClosed,
    /// A proxy was requested with a type tag other than the remote
    /// reference's.
    TypeMismatch,
    /// The given proxy key was never issued by this portal.
    UnknownProxy,
}

/// An entry of the export table: a local actor the peer may address.
pub struct ExportEntry {
    /// The portal-scoped id under which the peer addresses the actor.
    pub local_id: u64,
    /// The application's key for the local actor cell.
    pub actor: u64,
    /// Tag of the actor's message type, fixed at publish time.
    pub type_tag: Vec<u8>,
    /// False once the local actor has terminated or its handle was released.
    pub alive: bool,
}

/// Mathematical image of an [`ExportEntry`].
#[verifier::ext_equal]
pub struct ExportModel {
    pub local_id: u64,
    pub actor: u64,
    pub type_tag: Seq<u8>,
    pub alive: bool,
}

impl View for ExportEntry {
    type V = ExportModel;

    open spec fn view(&self) -> ExportModel {
        ExportModel {
            local_id: self.local_id,
            actor: self.actor,
            type_tag: self.type_tag@,
            alive: self.alive,
        }
    }
}

/// A name under which an export is advertised.
pub struct NameBinding {
    pub name: Vec<u8>,
    pub local_id: u64,
}

/// Mathematical image of a [`NameBinding`].
#[verifier::ext_equal]
pub struct NameModel {
    pub name: Seq<u8>,
    pub local_id: u64,
}

impl View for NameBinding {
    type V = NameModel;

    open spec fn view(&self) -> NameModel {
        NameModel { name: self.name@, local_id: self.local_id }
    }
}

/// An outstanding reply port: this side sent a `Query` or `Ask` and awaits
/// the peer's answer under `reply_id`, optionally no later than `deadline`.
#[derive(Clone, Copy, PartialEq, Eq, Structural, Debug)]
pub struct ReplyEntry {
    pub reply_id: u64,
    /// Absolute time after which [`Portal::tick`] resolves the port with
    /// [`ReplyOutcome::TimedOut`]. `None` waits forever.
    pub deadline: Option<u64>,
}

/// A proxy registration: a local stand-in forwarding to a remote actor.
#[derive(Clone, Copy, PartialEq, Eq, Structural, Debug)]
pub struct ProxyEntry {
    /// The portal-scoped key issued at instantiation.
    pub key: u64,
    /// The peer's id for the actor the proxy forwards to.
    pub remote_id: u64,
}

/// How an outstanding reply port resolves. Exactly one outcome reaches each
/// port.
#[derive(Debug)]
pub enum ReplyOutcome {
    /// The peer answered an `Ask` with a value.
    Value(Vec<u8>),
    /// The peer answered a `Query`: it exports the name under this id.
    Target { remote_id: u64, type_tag: Vec<u8> },
    /// The peer answered a `Query` for a name it does not export.
    UnknownName,
    /// The peer answered with an error frame.
    RemoteError { kind: WireErrorKind, message: Vec<u8> },
    /// The deadline elapsed before any answer arrived.
    TimedOut,
    /// The portal drained while the port was outstanding.
    PeerClosed,
}

/// Mathematical image of a [`ReplyOutcome`].
#[verifier::ext_equal]
pub enum ReplyOutcomeModel {
    Value(Seq<u8>),
    Target { remote_id: u64, type_tag: Seq<u8> },
    UnknownName,
    RemoteError { kind: WireErrorKind, message: Seq<u8> },
    TimedOut,
    PeerClosed,
}

impl View for ReplyOutcome {
    type V = ReplyOutcomeModel;

    open spec fn view(&self) -> ReplyOutcomeModel {
        match self {
            ReplyOutcome::Value(p) => ReplyOutcomeModel::Value(p@),
            ReplyOutcome::Target { remote_id, type_tag } => ReplyOutcomeModel::Target {
                remote_id: *remote_id,
                type_tag: type_tag@,
            },
            ReplyOutcome::UnknownName => ReplyOutcomeModel::UnknownName,
            ReplyOutcome::RemoteError { kind, message } => ReplyOutcomeModel::RemoteError {
                kind: *kind,
                message: message@,
            },
            ReplyOutcome::TimedOut => ReplyOutcomeModel::TimedOut,
            ReplyOutcome::PeerClosed => ReplyOutcomeModel::PeerClosed,
        }
    }
}

/// A structured event the runtime reports for observability.
#[derive(Clone, Copy, PartialEq, Eq, Structural, Debug)]
pub enum LogEvent {
    /// A name was advertised to the peer.
    Advertised,
    /// A peer query matched a live export.
    QueryHit,
    /// A peer query named nothing we export.
    QueryMiss,
    /// A `Cast` named an unknown or dead target and was dropped.
    UnknownTargetCast,
    /// An `Ask` named an unknown or dead target and was answered with an
    /// error frame.
    UnknownTargetAsk,
    /// A reply arrived for a port no longer outstanding and was dropped.
    StrayReply,
    /// An inbound message could not be decoded; fatal for the portal.
    DecodeFailed,
    /// The portal drained.
    PortalClosed,
}

/// One effect the surrounding tasks must perform after a transition.
#[derive(Debug)]
pub enum Action {
    /// Serialize this frame and send it on the sink.
    Transmit(Frame),
    /// Hand this payload to the local actor `actor` (fire and forget).
    DeliverCast { actor: u64, payload: Vec<u8> },
    /// Hand this payload to `actor` together with a reply token; the answer
    /// comes back through [`Portal::send_reply`] with the same token.
    DeliverAsk { actor: u64, reply_token: u64, payload: Vec<u8> },
    /// Complete the local reply port `reply_id` with the outcome.
    ResolveReply { reply_id: u64, outcome: ReplyOutcome },
    /// Stop the proxy actor registered under `key`.
    StopProxy { key: u64 },
    /// Close the sink; no further transmission will be requested.
    CloseSink,
    /// Emit a structured log event.
    Note(LogEvent),
}

/// Mathematical image of an [`Action`].
#[verifier::ext_equal]
pub enum ActionModel {
    Transmit(FrameModel),
    DeliverCast { actor: u64, payload: Seq<u8> },
    DeliverAsk { actor: u64, reply_token: u64, payload: Seq<u8> },
    ResolveReply { reply_id: u64, outcome: ReplyOutcomeModel },
    StopProxy { key: u64 },
    CloseSink,
    Note(LogEvent),
}

impl View for Action {
    type V = ActionModel;

    open spec fn view(&self) -> ActionModel {
        match self {
            Action::Transmit(f) => ActionModel::Transmit(f@),
            Action::DeliverCast { actor, payload } => ActionModel::DeliverCast {
                actor: *actor,
                payload: payload@,
            },
            Action::DeliverAsk { actor, reply_token, payload } => ActionModel::DeliverAsk {
                actor: *actor,
                reply_token: *reply_token,
                payload: payload@,
            },
            Action::ResolveReply { reply_id, outcome } => ActionModel::ResolveReply {
                reply_id: *reply_id,
                outcome: outcome@,
            },
            Action::StopProxy { key } => ActionModel::StopProxy { key: *key },
            Action::CloseSink => ActionModel::CloseSink,
            Action::Note(e) => ActionModel::Note(*e),
        }
    }
}

/// The list of actions a transition returned, as models.
pub open spec fn acts_of(v: Vec<Action>) -> Seq<ActionModel> {
    v@.map_values(|a: Action| a@)
}

/// Mathematical image of a [`Portal`].
#[verifier::ext_equal]
pub struct PortalModel {
    pub phase: Phase,
    pub next_id: u64,
    pub exports: Seq<ExportModel>,
    pub names: Seq<NameModel>,
    pub replies: Seq<ReplyEntry>,
    pub proxies: Seq<ProxyEntry>,
}

/// There is an export under this local id.
pub open spec fn has_export(s: Seq<ExportModel>, id: u64) -> bool {
    exists|i: int| 0 <= i < s.len() && s[i].local_id == id
}

/// Index of the export under this local id (unique under the invariant).
pub open spec fn export_idx(s: Seq<ExportModel>, id: u64) -> int {
    choose|i: int| 0 <= i < s.len() && s[i].local_id == id
}

/// There is an export for this actor key.
pub open spec fn has_export_actor(s: Seq<ExportModel>, actor: u64) -> bool {
    exists|i: int| 0 <= i < s.len() && s[i].actor == actor
}

/// Index of the export for this actor key (unique under the invariant).
pub open spec fn export_actor_idx(s: Seq<ExportModel>, actor: u64) -> int {
    choose|i: int| 0 <= i < s.len() && s[i].actor == actor
}

/// There is a binding for this name.
pub open spec fn has_name(s: Seq<NameModel>, name: Seq<u8>) -> bool {
    exists|i: int| 0 <= i < s.len() && s[i].name == name
}

/// Index of the binding for this name (unique under the invariant).
pub open spec fn name_idx(s: Seq<NameModel>, name: Seq<u8>) -> int {
    choose|i: int| 0 <= i < s.len() && s[i].name == name
}

/// There is an outstanding reply port under this id.
pub open spec fn has_reply(s: Seq<ReplyEntry>, id: u64) -> bool {
    exists|i: int| 0 <= i < s.len() && s[i].reply_id == id
}

/// Index of the outstanding reply port (unique under the invariant).
pub open spec fn reply_idx(s: Seq<ReplyEntry>, id: u64) -> int {
    choose|i: int| 0 <= i < s.len() && s[i].reply_id == id
}

/// There is a proxy registered under this key.
pub open spec fn has_proxy(s: Seq<ProxyEntry>, key: u64) -> bool {
    exists|i: int| 0 <= i < s.len() && s[i].key == key
}

/// Index of the proxy registered under this key (unique under the
/// invariant).
pub open spec fn proxy_idx(s: Seq<ProxyEntry>, key: u64) -> int {
    choose|i: int| 0 <= i < s.len() && s[i].key == key
}

impl PortalModel {
    /// Well-formedness of a portal: every id came from the monotonic
    /// allocator and is unique in its table, every name binds an existing
    /// export, and a draining or closed portal has swept its tables.
    pub open spec fn inv(self) -> bool {
        &&& forall|i: int| 0 <= i < self.exports.len() ==> (#[trigger] self.exports[i]).local_id
            < self.next_id
        &&& forall|i: int, j: int|
            0 <= i < self.exports.len() && 0 <= j < self.exports.len() && self.exports[i].local_id
                == self.exports[j].local_id ==> i == j
        &&& forall|i: int, j: int|
            0 <= i < self.exports.len() && 0 <= j < self.exports.len() && self.exports[i].actor
                == self.exports[j].actor ==> i == j
        &&& forall|i: int| 0 <= i < self.names.len() ==> has_export(
            self.exports,
            (#[trigger] self.names[i]).local_id,
        )
        &&& forall|i: int, j: int|
            0 <= i < self.names.len() && 0 <= j < self.names.len() && self.names[i].name
                == self.names[j].name ==> i == j
        &&& forall|i: int| 0 <= i < self.replies.len() ==> (#[trigger] self.replies[i]).reply_id
            < self.next_id
        &&& forall|i: int, j: int|
            0 <= i < self.replies.len() && 0 <= j < self.replies.len() && self.replies[i].reply_id
                == self.replies[j].reply_id ==> i == j
        &&& forall|i: int| 0 <= i < self.proxies.len() ==> (#[trigger] self.proxies[i]).key
            < self.next_id
        &&& forall|i: int, j: int|
            0 <= i < self.proxies.len() && 0 <= j < self.proxies.len() && self.proxies[i].key
                == self.proxies[j].key ==> i == j
        &&& (self.phase == Phase::Draining || self.phase == Phase::Closed) ==> self.replies.len()
            == 0 && self.proxies.len() == 0
    }

    /// The portal still accepts work: it is neither draining nor closed.
    pub open spec fn accepting(self) -> bool {
        self.phase == Phase::Opening || self.phase == Phase::Running
    }

    /// The portal after its first exchanged frame: `Opening` becomes
    /// `Running`.
    pub open spec fn activated(self) -> PortalModel {
        if self.phase == Phase::Opening {
            PortalModel { phase: Phase::Running, ..self }
        } else {
            self
        }
    }

    /// A fresh portal, as handed out by the nexus.
    pub open spec fn spec_new() -> PortalModel {
        PortalModel {
            phase: Phase::Opening,
            next_id: 0,
            exports: Seq::empty(),
            names: Seq::empty(),
            replies: Seq::empty(),
            proxies: Seq::empty(),
        }
    }

    /// Publishing a local actor under a name. The actor's export entry is
    /// reused if it exists (so republishing is idempotent), the name is
    /// bound to its local id (replacing any previous binding of that name),
    /// and an `Advertise` frame is emitted.
    pub open spec fn spec_publish(self, name: Seq<u8>, actor: u64, type_tag: Seq<u8>) -> (
        PortalModel,
        u64,
        Seq<ActionModel>,
    )
        recommends
            self.accepting(),
            self.next_id < u64::MAX,
    {
        let s1 = self.activated();
        let (s2, id, tag) = if has_export_actor(s1.exports, actor) {
            let i = export_actor_idx(s1.exports, actor);
            let e = s1.exports[i];
            (
                PortalModel { exports: s1.exports.update(i, ExportModel { alive: true, ..e }), ..s1 },
                e.local_id,
                e.type_tag,
            )
        } else {
            (
                PortalModel {
                    exports: s1.exports.push(
                        ExportModel { local_id: s1.next_id, actor, type_tag, alive: true },
                    ),
                    next_id: (s1.next_id + 1) as u64,
                    ..s1
                },
                s1.next_id,
                type_tag,
            )
        };
        let s3 = if has_name(s2.names, name) {
            PortalModel {
                names: s2.names.update(name_idx(s2.names, name), NameModel { name, local_id: id }),
                ..s2
            }
        } else {
            PortalModel { names: s2.names.push(NameModel { name, local_id: id }), ..s2 }
        };
        (
            s3,
            id,
            seq![
                ActionModel::Transmit(FrameModel::Advertise { name, id, type_tag: tag }),
                ActionModel::Note(LogEvent::Advertised),
            ],
        )
    }

    /// Publishing preserves the portal invariant.
    pub proof fn lemma_publish_preserves_inv(self, name: Seq<u8>, actor: u64, type_tag: Seq<u8>)
        requires
            self.inv(),
            self.accepting(),
            self.next_id < u64::MAX,
        ensures
            self.spec_publish(name, actor, type_tag).0.inv(),
    {
        let s1 = self.activated();
        let (s3, id, _) = self.spec_publish(name, actor, type_tag);
        let s2 = if has_export_actor(s1.exports, actor) {
            let i = export_actor_idx(s1.exports, actor);
            PortalModel {
                exports: s1.exports.update(i, ExportModel { alive: true, ..s1.exports[i] }),
                ..s1
            }
        } else {
            PortalModel {
                exports: s1.exports.push(
                    ExportModel { local_id: s1.next_id, actor, type_tag, alive: true },
                ),
                next_id: (s1.next_id + 1) as u64,
                ..s1
            }
        };
        if has_export_actor(s1.exports, actor) {
            let i = export_actor_idx(s1.exports, actor);
            assert(0 <= i < s1.exports.len() && s1.exports[i].actor == actor);
            assert(forall|j: int|
                0 <= j < s2.exports.len() && j != i ==> s2.exports[j] == s1.exports[j]);
            assert(s2.exports[i].local_id == s1.exports[i].local_id);
            assert(s2.exports[i].actor == actor);
        } else {
            assert(forall|j: int|
                0 <= j < s1.exports.len() ==> s2.exports[j] == s1.exports[j]);
            assert(s2.exports[s1.exports.len() as int].local_id == s1.next_id);
            assert(forall|j: int|
                0 <= j < s1.exports.len() ==> (#[trigger] s2.exports[j]).local_id < s1.next_id);
            assert(forall|j: int|
                0 <= j < s1.exports.len() ==> (#[trigger] s2.exports[j]).actor != actor);
        }
        assert(has_export(s2.exports, id)) by {
            if has_export_actor(s1.exports, actor) {
                let i = export_actor_idx(s1.exports, actor);
                assert(s2.exports[i].local_id == id);
            } else {
                assert(s2.exports[s1.exports.len() as int].local_id == id);
            }
        }
        assert(forall|k: int|
            0 <= k < s2.names.len() ==> has_export(
                s2.exports,
                (#[trigger] s2.names[k]).local_id,
            )) by {
            assert forall|k: int| 0 <= k < s2.names.len() implies has_export(
                s2.exports,
                (#[trigger] s2.names[k]).local_id,
            ) by {
                let w = choose|w: int|
                    0 <= w < s1.exports.len() && s1.exports[w].local_id == s1.names[k].local_id;
                assert(s2.exports[w].local_id == s1.names[k].local_id);
            }
        }
        if has_name(s2.names, name) {
            let j = name_idx(s2.names, name);
            assert(0 <= j < s2.names.len() && s2.names[j].name == name);
            assert(forall|k: int|
                0 <= k < s3.names.len() && k != j ==> s3.names[k] == s2.names[k]);
            assert(s3.names[j].local_id == id && s3.names[j].name == name);
        } else {
            assert(forall|k: int| 0 <= k < s2.names.len() ==> s3.names[k] == s2.names[k]);
            assert(s3.names[s2.names.len() as int] == NameModel { name, local_id: id });
        }
        assert(s3.inv());
    }

    /// Querying the peer for a named actor: a fresh reply port is
    /// registered and a `Query` frame is emitted; the returned id names the
    /// port that will resolve with the answer.
    pub open spec fn spec_query(self, name: Seq<u8>, deadline: Option<u64>) -> (
        PortalModel,
        u64,
        Seq<ActionModel>,
    )
        recommends
            self.accepting(),
            self.next_id < u64::MAX,
    {
        let s1 = self.activated();
        let id = s1.next_id;
        let s2 = PortalModel {
            next_id: (s1.next_id + 1) as u64,
            replies: s1.replies.push(ReplyEntry { reply_id: id, deadline }),
            ..s1
        };
        (s2, id, seq![ActionModel::Transmit(FrameModel::Query { name, reply_id: id })])
    }
}

/// The live endpoint of one connection: the portal protocol state machine.
pub struct Portal {
    phase: Phase,
    next_id: u64,
    exports: Vec<ExportEntry>,
    names: Vec<NameBinding>,
    replies: Vec<ReplyEntry>,
    proxies: Vec<ProxyEntry>,
}

impl View for Portal {
    type V = PortalModel;

    closed spec fn view(&self) -> PortalModel {
        PortalModel {
            phase: self.phase,
            next_id: self.next_id,
            exports: self.exports@.map_values(|e: ExportEntry| e@),
            names: self.names@.map_values(|n: NameBinding| n@),
            replies: self.replies@,
            proxies: self.proxies@,
        }
    }
}

impl Portal {
    /// A fresh portal in `Opening` phase with empty tables.
    pub fn new() -> (r: Portal)
        ensures
            r@ == PortalModel::spec_new(),
            r@.inv(),
    {
        let r = Portal {
            phase: Phase::Opening,
            next_id: 0,
            exports: Vec::new(),
            names: Vec::new(),
            replies: Vec::new(),
            proxies: Vec::new(),
        };
        proof {
            assert(r@ =~~= PortalModel::spec_new());
        }
        r
    }

    /// The portal's lifecycle phase.
    pub fn phase(&self) -> (r: Phase)
        ensures
            r == self@.phase,
    {
        self.phase
    }

    fn activate(&mut self)
        ensures
            final(self)@ == old(self)@.activated(),
    {
        if self.phase == Phase::Opening {
            self.phase = Phase::Running;
        }
        proof {
            assert(self@ =~~= old(self)@.activated());
        }
    }

    fn find_export_by_id(&self, id: u64) -> (r: Option<usize>)
        ensures
            match r {
                Some(i) => i < self@.exports.len() && self@.exports[i as int].local_id == id,
                None => !has_export(self@.exports, id),
            },
    {
        let mut i: usize = 0;
        while i < self.exports.len()
            invariant
                i <= self.exports.len(),
                self@.exports.len() == self.exports.len(),
                forall|j: int| 0 <= j < i ==> (#[trigger] self@.exports[j]).local_id != id,
            decreases self.exports.len() - i,
        {
            if self.exports[i].local_id == id {
                return Some(i);
            }
            i = i + 1;
        }
        None
    }

    fn find_export_by_actor(&self, actor: u64) -> (r: Option<usize>)
        ensures
            match r {
                Some(i) => i < self@.exports.len() && self@.exports[i as int].actor == actor,
                None => !has_export_actor(self@.exports, actor),
            },
    {
        let mut i: usize = 0;
        while i < self.exports.len()
            invariant
                i <= self.exports.len(),
                self@.exports.len() == self.exports.len(),
                forall|j: int| 0 <= j < i ==> (#[trigger] self@.exports[j]).actor != actor,
            decreases self.exports.len() - i,
        {
            if self.exports[i].actor == actor {
                return Some(i);
            }
            i = i + 1;
        }
        None
    }

    fn find_name(&self, name: &Vec<u8>) -> (r: Option<usize>)
        ensures
            match r {
                Some(i) => i < self@.names.len() && self@.names[i as int].name == name@,
                None => !has_name(self@.names, name@),
            },
    {
        let mut i: usize = 0;
        while i < self.names.len()
            invariant
                i <= self.names.len(),
                self@.names.len() == self.names.len(),
                forall|j: int| 0 <= j < i ==> (#[trigger] self@.names[j]).name != name@,
            decreases self.names.len() - i,
        {
            if bytes_eq(&self.names[i].name, name) {
                return Some(i);
            }
            i = i + 1;
        }
        None
    }

    fn find_reply(&self, id: u64) -> (r: Option<usize>)
        ensures
            match r {
                Some(i) => i < self@.replies.len() && self@.replies[i as int].reply_id == id,
                None => !has_reply(self@.replies, id),
            },
    {
        let mut i: usize = 0;
        while i < self.replies.len()
            invariant
                i <= self.replies.len(),
                forall|j: int| 0 <= j < i ==> (#[trigger] self@.replies[j]).reply_id != id,
            decreases self.replies.len() - i,
        {
            if self.replies[i].reply_id == id {
                return Some(i);
            }
            i = i + 1;
        }
        None
    }

    fn find_proxy(&self, key: u64) -> (r: Option<usize>)
        ensures
            match r {
                Some(i) => i < self@.proxies.len() && self@.proxies[i as int].key == key,
                None => !has_proxy(self@.proxies, key),
            },
    {
        let mut i: usize = 0;
        while i < self.proxies.len()
            invariant
                i <= self.proxies.len(),
                forall|j: int| 0 <= j < i ==> (#[trigger] self@.proxies[j]).key != key,
            decreases self.proxies.len() - i,
        {
            if self.proxies[i].key == key {
                return Some(i);
            }
            i = i + 1;
        }
        None
    }

    /// Advertises a local actor under `name`. A new local id is allocated
    /// only if this actor is not yet exported; republishing reuses the
    /// existing id. The name is bound to the id, replacing any previous
    /// binding, and an `Advertise` frame is emitted. Fails with
    /// [`WormholeError::PortalClosed`] once the portal drains.
    pub fn publish_named_actor(&mut self, name: Vec<u8>, actor: u64, type_tag: Vec<u8>) -> (r:
        Result<(u64, Vec<Action>), WormholeError>)
        requires
            old(self)@.inv(),
            old(self)@.next_id < u64::MAX,
        ensures
            final(self)@.inv(),
            old(self)@.accepting() ==> ({
                let (s2, id, acts) = old(self)@.spec_publish(name@, actor, type_tag@);
                &&& r matches Ok(p) && p.0 == id && acts_of(p.1) == acts
                &&& final(self)@ == s2
            }),
            !old(self)@.accepting() ==> (r matches Err(WormholeError::PortalClosed)
                && final(self)@ == old(self)@),
    {
        if self.phase == Phase::Draining || self.phase == Phase::Closed {
            return Err(WormholeError::PortalClosed);
        }
        self.activate();
        let ghost s1 = old(self)@.activated();
        let (id, tag_out) = match self.find_export_by_actor(actor) {
            Some(i) => {
                let e = &self.exports[i];
                let id = e.local_id;
                let tag_out = clone_bytes(&e.type_tag);
                let alive_entry = ExportEntry {
                    local_id: id,
                    actor: self.exports[i].actor,
                    type_tag: clone_bytes(&self.exports[i].type_tag),
                    alive: true,
                };
                self.exports.set(i, alive_entry);
                proof {
                    assert(i as int == export_actor_idx(s1.exports, actor)) by {
                        assert(s1.exports[i as int].actor == actor);
                    }
                    assert(self@.exports =~= s1.exports.update(
                        export_actor_idx(s1.exports, actor),
                        ExportModel { alive: true, ..s1.exports[export_actor_idx(s1.exports, actor)] },
                    ));
                }
                (id, tag_out)
            },
            None => {
                let id = self.next_id;
                let tag_out = clone_bytes(&type_tag);
                self.exports.push(ExportEntry { local_id: id, actor, type_tag, alive: true });
                self.next_id = self.next_id + 1;
                proof {
                    assert(self@.exports =~= s1.exports.push(
                        ExportModel { local_id: id, actor, type_tag: tag_out@, alive: true },
                    ));
                }
                (id, tag_out)
            },
        };
        let ghost s2 = self@;
        match self.find_name(&name) {
            Some(j) => {
                let binding = NameBinding { name: clone_bytes(&name), local_id: id };
                self.names.set(j, binding);
                proof {
                    assert(j as int == name_idx(s2.names, name@)) by {
                        assert(s2.names[j as int].name == name@);
                    }
                    assert(self@.names =~= s2.names.update(
                        name_idx(s2.names, name@),
                        NameModel { name: name@, local_id: id },
                    ));
                }
            },
            None => {
                let binding = NameBinding { name: clone_bytes(&name), local_id: id };
                self.names.push(binding);
                proof {
                    assert(self@.names =~= s2.names.push(NameModel { name: name@, local_id: id }));
                }
            },
        }
        let mut acts: Vec<Action> = Vec::new();
        acts.push(
            Action::Transmit(Frame::Advertise { name: clone_bytes(&name), id, type_tag: tag_out }),
        );
        acts.push(Action::Note(LogEvent::Advertised));
        proof {
            let (ms, mid, macts) = old(self)@.spec_publish(name@, actor, type_tag@);
            assert(self@ =~~= ms);
            assert(acts_of(acts) =~~= macts);
            old(self)@.lemma_publish_preserves_inv(name@, actor, type_tag@);
        }
        Ok((id, acts))
    }

    /// Asks the peer which actor it exports under `name`. Registers a fresh
    /// reply port (optionally with a deadline) and emits a `Query` frame;
    /// the port later resolves with [`ReplyOutcome::Target`] or
    /// [`ReplyOutcome::UnknownName`]. Fails with
    /// [`WormholeError::PortalClosed`] once the portal drains.
    pub fn query_named_remote_actor(&mut self, name: Vec<u8>, deadline: Option<u64>) -> (r: Result<
        (u64, Vec<Action>),
        WormholeError,
    >)
        requires
            old(self)@.inv(),
            old(self)@.next_id < u64::MAX,
        ensures
            final(self)@.inv(),
            old(self)@.accepting() ==> ({
                let (s2, id, acts) = old(self)@.spec_query(name@, deadline);
                &&& r matches Ok(p) && p.0 == id && acts_of(p.1) == acts
                &&& final(self)@ == s2
            }),
            !old(self)@.accepting() ==> (r matches Err(WormholeError::PortalClosed)
                && final(self)@ == old(self)@),
    {
        if self.phase == Phase::Draining || self.phase == Phase::Closed {
            return Err(WormholeError::PortalClosed);
        }
        self.activate();
        let id = self.next_id;
        self.replies.push(ReplyEntry { reply_id: id, deadline });
        self.next_id = self.next_id + 1;
        let mut acts: Vec<Action> = Vec::new();
        acts.push(Action::Transmit(Frame::Query { name, reply_id: id }));
        proof {
            let (ms, mid, macts) = old(self)@.spec_query(name@, deadline);
            assert(self@ =~~= ms);
            assert(acts_of(acts) =~~= macts);
            assert(self@.inv());
        }
        Ok((id, acts))
    }
}



/// The resolutions a drain performs: `PeerClosed` for every outstanding
/// reply port, in table order.
pub open spec fn drain_reply_acts(rs: Seq<ReplyEntry>) -> Seq<ActionModel> {
    rs.map_values(
        |r: ReplyEntry| ActionModel::ResolveReply {
            reply_id: r.reply_id,
            outcome: ReplyOutcomeModel::PeerClosed,
        },
    )
}

/// The stop orders a drain issues: one per registered proxy, in table
/// order.
pub open spec fn drain_proxy_acts(ps: Seq<ProxyEntry>) -> Seq<ActionModel> {
    ps.map_values(|p: ProxyEntry| ActionModel::StopProxy { key: p.key })
}

/// The reply port's deadline has passed at time `now`.
pub open spec fn expired(r: ReplyEntry, now: u64) -> bool {
    match r.deadline {
        Some(d) => d <= now,
        None => false,
    }
}

/// The reply ports still outstanding after a timeout sweep at `now`.
pub open spec fn sweep_kept(rs: Seq<ReplyEntry>, now: u64) -> Seq<ReplyEntry>
    decreases rs.len(),
{
    if rs.len() == 0 {
        Seq::empty()
    } else {
        let p = sweep_kept(rs.drop_last(), now);
        if expired(rs.last(), now) {
            p
        } else {
            p.push(rs.last())
        }
    }
}

/// The resolutions a timeout sweep at `now` performs: one `TimedOut` per
/// expired port, in table order.
pub open spec fn sweep_acts(rs: Seq<ReplyEntry>, now: u64) -> Seq<ActionModel>
    decreases rs.len(),
{
    if rs.len() == 0 {
        Seq::empty()
    } else {
        let p = sweep_acts(rs.drop_last(), now);
        if expired(rs.last(), now) {
            p.push(
                ActionModel::ResolveReply {
                    reply_id: rs.last().reply_id,
                    outcome: ReplyOutcomeModel::TimedOut,
                },
            )
        } else {
            p
        }
    }
}

/// A sweep keeps exactly the unexpired ports: it preserves id bounds and
/// uniqueness, and a port survives it if and only if it was outstanding and
/// not expired.
pub proof fn lemma_sweep_kept(rs: Seq<ReplyEntry>, now: u64, bound: u64)
    requires
        forall|i: int| 0 <= i < rs.len() ==> (#[trigger] rs[i]).reply_id < bound,
        forall|i: int, j: int|
            0 <= i < rs.len() && 0 <= j < rs.len() && rs[i].reply_id == rs[j].reply_id ==> i == j,
    ensures
        forall|i: int|
            0 <= i < sweep_kept(rs, now).len() ==> (#[trigger] sweep_kept(rs, now)[i]).reply_id
                < bound,
        forall|i: int, j: int|
            0 <= i < sweep_kept(rs, now).len() && 0 <= j < sweep_kept(rs, now).len() && sweep_kept(
                rs,
                now,
            )[i].reply_id == sweep_kept(rs, now)[j].reply_id ==> i == j,
        forall|id: u64|
            has_reply(sweep_kept(rs, now), id) <==> exists|i: int|
                0 <= i < rs.len() && (#[trigger] rs[i]).reply_id == id && !expired(rs[i], now),
    decreases rs.len(),
{
    if rs.len() == 0 {
        assert forall|id: u64| has_reply(sweep_kept(rs, now), id) implies false by {}
    } else {
        let pre = rs.drop_last();
        assert(forall|i: int| 0 <= i < pre.len() ==> pre[i] == rs[i]);
        lemma_sweep_kept(pre, now, bound);
        let p = sweep_kept(pre, now);
        let last = rs.last();
        if expired(last, now) {
            assert(sweep_kept(rs, now) == p);
            assert forall|id: u64| has_reply(sweep_kept(rs, now), id) implies exists|i: int|
                0 <= i < rs.len() && (#[trigger] rs[i]).reply_id == id && !expired(rs[i], now) by {
                assert(has_reply(pre, id));
            }
            assert forall|id: u64|
                (exists|i: int|
                    0 <= i < rs.len() && (#[trigger] rs[i]).reply_id == id && !expired(
                        rs[i],
                        now,
                    )) implies has_reply(sweep_kept(rs, now), id) by {
                let i = choose|i: int|
                    0 <= i < rs.len() && (#[trigger] rs[i]).reply_id == id && !expired(rs[i], now);
                assert(i < rs.len() - 1);
                assert(pre[i].reply_id == id && !expired(pre[i], now));
            }
        } else {
            assert(sweep_kept(rs, now) == p.push(last));
            assert(!has_reply(p, last.reply_id)) by {
                if has_reply(p, last.reply_id) {
                    let i = choose|i: int|
                        0 <= i < pre.len() && (#[trigger] pre[i]).reply_id == last.reply_id
                            && !expired(pre[i], now);
                    assert(rs[i].reply_id == rs[rs.len() - 1].reply_id);
                }
            }
            assert forall|id: u64| has_reply(sweep_kept(rs, now), id) implies exists|i: int|
                0 <= i < rs.len() && (#[trigger] rs[i]).reply_id == id && !expired(rs[i], now) by {
                let k = choose|k: int|
                    0 <= k < p.push(last).len() && p.push(last)[k].reply_id == id;
                if k < p.len() {
                    assert(has_reply(p, id));
                } else {
                    assert(rs[rs.len() - 1].reply_id == id && !expired(rs[rs.len() - 1], now));
                }
            }
            assert forall|id: u64|
                (exists|i: int|
                    0 <= i < rs.len() && (#[trigger] rs[i]).reply_id == id && !expired(
                        rs[i],
                        now,
                    )) implies has_reply(sweep_kept(rs, now), id) by {
                let i = choose|i: int|
                    0 <= i < rs.len() && (#[trigger] rs[i]).reply_id == id && !expired(rs[i], now);
                if i < rs.len() - 1 {
                    assert(pre[i].reply_id == id && !expired(pre[i], now));
                    assert(has_reply(p, id));
                    let w = choose|w: int| 0 <= w < p.len() && p[w].reply_id == id;
                    assert(p.push(last)[w].reply_id == id);
                } else {
                    assert(p.push(last)[p.len() as int].reply_id == id);
                }
            }
        }
    }
}

impl PortalModel {
    /// Registering a proxy for a remote actor: a fresh key is issued.
    pub open spec fn spec_instantiate(self, remote_id: u64) -> (PortalModel, u64)
        recommends
            self.accepting(),
            self.next_id < u64::MAX,
    {
        let key = self.next_id;
        (
            PortalModel {
                next_id: (self.next_id + 1) as u64,
                proxies: self.proxies.push(ProxyEntry { key, remote_id }),
                ..self
            },
            key,
        )
    }

    /// A proxy forwarding a fire-and-forget message: a `Cast` frame to the
    /// proxy's remote id. The tables are unchanged.
    pub open spec fn spec_proxy_cast(self, key: u64, payload: Seq<u8>) -> (
        PortalModel,
        Seq<ActionModel>,
    )
        recommends
            self.accepting(),
            has_proxy(self.proxies, key),
    {
        let target = self.proxies[proxy_idx(self.proxies, key)].remote_id;
        (
            self.activated(),
            seq![ActionModel::Transmit(FrameModel::Cast { target, payload })],
        )
    }

    /// A proxy forwarding an ask: a fresh reply port is registered and an
    /// `Ask` frame is emitted.
    pub open spec fn spec_proxy_ask(self, key: u64, payload: Seq<u8>, deadline: Option<u64>) -> (
        PortalModel,
        u64,
        Seq<ActionModel>,
    )
        recommends
            self.accepting(),
            has_proxy(self.proxies, key),
            self.next_id < u64::MAX,
    {
        let s1 = self.activated();
        let target = self.proxies[proxy_idx(self.proxies, key)].remote_id;
        let rid = s1.next_id;
        (
            PortalModel {
                next_id: (s1.next_id + 1) as u64,
                replies: s1.replies.push(ReplyEntry { reply_id: rid, deadline }),
                ..s1
            },
            rid,
            seq![ActionModel::Transmit(FrameModel::Ask { target, reply_id: rid, payload })],
        )
    }

    /// Answering an inbound ask: a `Reply` frame carrying the peer's token.
    pub open spec fn spec_send_reply(self, token: u64, payload: Seq<u8>) -> (
        PortalModel,
        Seq<ActionModel>,
    )
        recommends
            self.accepting(),
    {
        (
            self.activated(),
            seq![ActionModel::Transmit(FrameModel::Reply { reply_id: token, payload })],
        )
    }

    /// Teardown: every outstanding reply port resolves with `PeerClosed`,
    /// every proxy is stopped, the sink is closed and the portal drains.
    /// Draining twice does nothing.
    pub open spec fn spec_drain(self) -> (PortalModel, Seq<ActionModel>) {
        if !self.accepting() {
            (self, Seq::empty())
        } else {
            (
                PortalModel {
                    phase: Phase::Draining,
                    replies: Seq::empty(),
                    proxies: Seq::empty(),
                    ..self
                },
                drain_reply_acts(self.replies) + drain_proxy_acts(self.proxies) + seq![
                    ActionModel::CloseSink,
                    ActionModel::Note(LogEvent::PortalClosed),
                ],
            )
        }
    }

    /// An undecodable inbound message: fatal, the portal drains.
    pub open spec fn spec_fail(self) -> (PortalModel, Seq<ActionModel>) {
        if !self.accepting() {
            (self, Seq::empty())
        } else {
            let (s2, acts) = self.spec_drain();
            (s2, seq![ActionModel::Note(LogEvent::DecodeFailed)] + acts)
        }
    }

    /// A timeout sweep at time `now`: every reply port whose deadline has
    /// passed resolves with `TimedOut` and leaves the table.
    pub open spec fn spec_tick(self, now: u64) -> (PortalModel, Seq<ActionModel>) {
        if !self.accepting() {
            (self, Seq::empty())
        } else {
            (
                PortalModel { replies: sweep_kept(self.replies, now), ..self },
                sweep_acts(self.replies, now),
            )
        }
    }

    /// Exporting a local actor without a name: the codec asks for this
    /// while serializing a message that carries a local actor reference,
    /// and embeds the returned id as the handle token. The actor's entry
    /// is reused if it exists. No frame is emitted; the token travels
    /// inside the payload.
    pub open spec fn spec_export(self, actor: u64, type_tag: Seq<u8>) -> (PortalModel, u64)
        recommends
            self.accepting(),
            self.next_id < u64::MAX,
    {
        if has_export_actor(self.exports, actor) {
            let i = export_actor_idx(self.exports, actor);
            let e = self.exports[i];
            (
                PortalModel {
                    exports: self.exports.update(i, ExportModel { alive: true, ..e }),
                    ..self
                },
                e.local_id,
            )
        } else {
            (
                PortalModel {
                    exports: self.exports.push(
                        ExportModel { local_id: self.next_id, actor, type_tag, alive: true },
                    ),
                    next_id: (self.next_id + 1) as u64,
                    ..self
                },
                self.next_id,
            )
        }
    }

    /// A terminated local actor: its export goes dead, so frames
    /// addressed to it are handled as unknown-target from now on.
    pub open spec fn spec_retire(self, actor: u64) -> PortalModel {
        if has_export_actor(self.exports, actor) {
            let i = export_actor_idx(self.exports, actor);
            PortalModel {
                exports: self.exports.update(i, ExportModel { alive: false, ..self.exports[i] }),
                ..self
            }
        } else {
            self
        }
    }

    /// Dropping a proxy: its registration is removed and the peer is told
    /// the handle is no longer needed.
    pub open spec fn spec_release_proxy(self, key: u64) -> (PortalModel, Seq<ActionModel>)
        recommends
            self.accepting(),
            has_proxy(self.proxies, key),
    {
        let i = proxy_idx(self.proxies, key);
        let rid = self.proxies[i].remote_id;
        (
            PortalModel { proxies: self.proxies.remove(i), ..self.activated() },
            seq![
                ActionModel::Transmit(
                    FrameModel::Release { id: rid, kind: ReleaseKind::Handle },
                ),
            ],
        )
    }

    /// Dropping a reply port before it resolves: its entry is removed
    /// (the port resolves with nothing) and the peer is told the port is
    /// no longer needed. Cancelling an unknown or already resolved port
    /// does nothing.
    pub open spec fn spec_cancel_reply(self, reply_id: u64) -> (PortalModel, Seq<ActionModel>) {
        if has_reply(self.replies, reply_id) {
            (
                PortalModel {
                    replies: self.replies.remove(reply_idx(self.replies, reply_id)),
                    ..self.activated()
                },
                seq![
                    ActionModel::Transmit(
                        FrameModel::Release { id: reply_id, kind: ReleaseKind::ReplyPort },
                    ),
                ],
            )
        } else {
            (self, Seq::empty())
        }
    }

    /// One inbound frame, dispatched by the portal protocol. A frame
    /// arriving while the portal drains is ignored.
    pub open spec fn spec_handle_frame(self, f: FrameModel) -> (PortalModel, Seq<ActionModel>)
        recommends
            self.inv(),
    {
        if !self.accepting() {
            (self, Seq::empty())
        } else {
            let s = self.activated();
            match f {
                FrameModel::Advertise { .. } => (s, Seq::empty()),
                FrameModel::Query { name, reply_id } => if has_name(s.names, name) {
                    let lid = s.names[name_idx(s.names, name)].local_id;
                    let e = s.exports[export_idx(s.exports, lid)];
                    if e.alive {
                        (
                            s,
                            seq![
                                ActionModel::Transmit(
                                    FrameModel::QueryReply {
                                        reply_id,
                                        found: Some(
                                            FoundTargetModel { id: lid, type_tag: e.type_tag },
                                        ),
                                    },
                                ),
                                ActionModel::Note(LogEvent::QueryHit),
                            ],
                        )
                    } else {
                        (
                            s,
                            seq![
                                ActionModel::Transmit(
                                    FrameModel::QueryReply { reply_id, found: None },
                                ),
                                ActionModel::Note(LogEvent::QueryMiss),
                            ],
                        )
                    }
                } else {
                    (
                        s,
                        seq![
                            ActionModel::Transmit(FrameModel::QueryReply { reply_id, found: None }),
                            ActionModel::Note(LogEvent::QueryMiss),
                        ],
                    )
                },
                FrameModel::QueryReply { reply_id, found } => if has_reply(s.replies, reply_id) {
                    (
                        PortalModel {
                            replies: s.replies.remove(reply_idx(s.replies, reply_id)),
                            ..s
                        },
                        seq![
                            ActionModel::ResolveReply {
                                reply_id,
                                outcome: match found {
                                    Some(t) => ReplyOutcomeModel::Target {
                                        remote_id: t.id,
                                        type_tag: t.type_tag,
                                    },
                                    None => ReplyOutcomeModel::UnknownName,
                                },
                            },
                        ],
                    )
                } else {
                    (s, seq![ActionModel::Note(LogEvent::StrayReply)])
                },
                FrameModel::Cast { target, payload } => if has_export(s.exports, target)
                    && s.exports[export_idx(s.exports, target)].alive {
                    (
                        s,
                        seq![
                            ActionModel::DeliverCast {
                                actor: s.exports[export_idx(s.exports, target)].actor,
                                payload,
                            },
                        ],
                    )
                } else {
                    (s, seq![ActionModel::Note(LogEvent::UnknownTargetCast)])
                },
                FrameModel::Ask { target, reply_id, payload } => if has_export(s.exports, target)
                    && s.exports[export_idx(s.exports, target)].alive {
                    (
                        s,
                        seq![
                            ActionModel::DeliverAsk {
                                actor: s.exports[export_idx(s.exports, target)].actor,
                                reply_token: reply_id,
                                payload,
                            },
                        ],
                    )
                } else {
                    (
                        s,
                        seq![
                            ActionModel::Transmit(
                                FrameModel::ReplyError {
                                    reply_id,
                                    kind: WireErrorKind::UnknownTarget,
                                    message: Seq::empty(),
                                },
                            ),
                            ActionModel::Note(LogEvent::UnknownTargetAsk),
                        ],
                    )
                },
                FrameModel::Reply { reply_id, payload } => if has_reply(s.replies, reply_id) {
                    (
                        PortalModel {
                            replies: s.replies.remove(reply_idx(s.replies, reply_id)),
                            ..s
                        },
                        seq![
                            ActionModel::ResolveReply {
                                reply_id,
                                outcome: ReplyOutcomeModel::Value(payload),
                            },
                        ],
                    )
                } else {
                    (s, seq![ActionModel::Note(LogEvent::StrayReply)])
                },
                FrameModel::ReplyError { reply_id, kind, message } => if has_reply(
                    s.replies,
                    reply_id,
                ) {
                    (
                        PortalModel {
                            replies: s.replies.remove(reply_idx(s.replies, reply_id)),
                            ..s
                        },
                        seq![
                            ActionModel::ResolveReply {
                                reply_id,
                                outcome: ReplyOutcomeModel::RemoteError { kind, message },
                            },
                        ],
                    )
                } else {
                    (s, seq![ActionModel::Note(LogEvent::StrayReply)])
                },
                FrameModel::Release { id, kind } => match kind {
                    ReleaseKind::Handle => if has_export(s.exports, id) {
                        let i = export_idx(s.exports, id);
                        (
                            PortalModel {
                                exports: s.exports.update(
                                    i,
                                    ExportModel { alive: false, ..s.exports[i] },
                                ),
                                ..s
                            },
                            Seq::empty(),
                        )
                    } else {
                        (s, Seq::empty())
                    },
                    ReleaseKind::ReplyPort => if has_reply(s.replies, id) {
                        (
                            PortalModel { replies: s.replies.remove(reply_idx(s.replies, id)), ..s },
                            Seq::empty(),
                        )
                    } else {
                        (s, Seq::empty())
                    },
                },
            }
        }
    }

    /// One inbound conduit item: binary frames are decoded and dispatched,
    /// an undecodable item (or a textual one — frames are binary only) is
    /// fatal, and `Close` drains the portal.
    pub open spec fn spec_ingress(self, m: PortalIngressModel) -> (PortalModel, Seq<ActionModel>)
        recommends
            self.inv(),
    {
        match m {
            PortalIngressModel::Binary(b) => match spec_decode(b) {
                Some(f) => self.spec_handle_frame(f),
                None => self.spec_fail(),
            },
            PortalIngressModel::Text(_) => self.spec_fail(),
            PortalIngressModel::Close => self.spec_drain(),
        }
    }

    /// Handling a frame preserves the portal invariant.
    pub proof fn lemma_handle_frame_preserves_inv(self, f: FrameModel)
        requires
            self.inv(),
        ensures
            self.spec_handle_frame(f).0.inv(),
    {
        if self.accepting() {
            let s = self.activated();
            let s2 = self.spec_handle_frame(f).0;
            match f {
                FrameModel::Release { id, kind } => {
                    match kind {
                        ReleaseKind::Handle => {
                            if has_export(s.exports, id) {
                                let i = export_idx(s.exports, id);
                                assert(0 <= i < s.exports.len() && s.exports[i].local_id == id);
                                assert(forall|j: int|
                                    0 <= j < s2.exports.len() && j != i ==> s2.exports[j]
                                        == s.exports[j]);
                                assert(s2.exports[i].local_id == s.exports[i].local_id
                                    && s2.exports[i].actor == s.exports[i].actor);
                                assert forall|k: int| 0 <= k < s2.names.len() implies has_export(
                                    s2.exports,
                                    (#[trigger] s2.names[k]).local_id,
                                ) by {
                                    let w = choose|w: int|
                                        0 <= w < s.exports.len() && s.exports[w].local_id
                                            == s.names[k].local_id;
                                    assert(s2.exports[w].local_id == s.names[k].local_id);
                                }
                            }
                        },
                        ReleaseKind::ReplyPort => {},
                    }
                },
                _ => {},
            }
            assert(s2.inv());
        }
    }
}


impl Portal {
    /// Registers a proxy for the remote actor `remote_id`, checking that
    /// the caller's statically known type tag equals the remote
    /// reference's. The returned key addresses the proxy in
    /// [`Portal::proxy_cast`] and [`Portal::proxy_ask`]. Fails with
    /// [`WormholeError::TypeMismatch`] on a tag mismatch and with
    /// [`WormholeError::PortalClosed`] once the portal drains.
    pub fn instantiate_proxy_for_remote_actor(
        &mut self,
        remote_id: u64,
        remote_tag: &Vec<u8>,
        expected_tag: &Vec<u8>,
    ) -> (r: Result<u64, WormholeError>)
        requires
            old(self)@.inv(),
            old(self)@.next_id < u64::MAX,
        ensures
            final(self)@.inv(),
            old(self)@.accepting() && remote_tag@ == expected_tag@ ==> ({
                let (s2, key) = old(self)@.spec_instantiate(remote_id);
                r matches Ok(k) && k == key && final(self)@ == s2
            }),
            old(self)@.accepting() && remote_tag@ != expected_tag@ ==> (r matches Err(
                WormholeError::TypeMismatch,
            ) && final(self)@ == old(self)@),
            !old(self)@.accepting() ==> (r matches Err(WormholeError::PortalClosed)
                && final(self)@ == old(self)@),
    {
        if self.phase == Phase::Draining || self.phase == Phase::Closed {
            return Err(WormholeError::PortalClosed);
        }
        if !bytes_eq(remote_tag, expected_tag) {
            return Err(WormholeError::TypeMismatch);
        }
        let key = self.next_id;
        self.proxies.push(ProxyEntry { key, remote_id });
        self.next_id = self.next_id + 1;
        proof {
            let (ms, mk) = old(self)@.spec_instantiate(remote_id);
            assert(self@ =~~= ms);
            assert(self@.inv());
        }
        Ok(key)
    }

    /// Forwards a fire-and-forget message from the proxy under `key`: emits
    /// a `Cast` frame addressed to the proxy's remote actor. The tables are
    /// unchanged.
    pub fn proxy_cast(&mut self, key: u64, payload: Vec<u8>) -> (r: Result<
        Vec<Action>,
        WormholeError,
    >)
        requires
            old(self)@.inv(),
        ensures
            final(self)@.inv(),
            old(self)@.accepting() && has_proxy(old(self)@.proxies, key) ==> ({
                let (s2, acts) = old(self)@.spec_proxy_cast(key, payload@);
                r matches Ok(a) && acts_of(a) == acts && final(self)@ == s2
            }),
            old(self)@.accepting() && !has_proxy(old(self)@.proxies, key) ==> (r matches Err(
                WormholeError::UnknownProxy,
            ) && final(self)@ == old(self)@),
            !old(self)@.accepting() ==> (r matches Err(WormholeError::PortalClosed)
                && final(self)@ == old(self)@),
    {
        if self.phase == Phase::Draining || self.phase == Phase::Closed {
            return Err(WormholeError::PortalClosed);
        }
        let i = match self.find_proxy(key) {
            Some(i) => i,
            None => {
                return Err(WormholeError::UnknownProxy);
            },
        };
        let target = self.proxies[i].remote_id;
        self.activate();
        let mut acts: Vec<Action> = Vec::new();
        acts.push(Action::Transmit(Frame::Cast { target, payload }));
        proof {
            assert(old(self)@.proxies[proxy_idx(old(self)@.proxies, key)].key == key) by {
                assert(old(self)@.proxies[i as int].key == key);
            }
            assert(i as int == proxy_idx(old(self)@.proxies, key));
            let (ms, macts) = old(self)@.spec_proxy_cast(key, payload@);
            assert(self@ =~~= ms);
            assert(acts_of(acts) =~~= macts);
        }
        Ok(acts)
    }

    /// Forwards an ask from the proxy under `key`: registers a fresh reply
    /// port (optionally with a deadline) and emits an `Ask` frame. The
    /// returned id names the port that will resolve with the answer, a
    /// timeout, or `PeerClosed`.
    pub fn proxy_ask(&mut self, key: u64, payload: Vec<u8>, deadline: Option<u64>) -> (r: Result<
        (u64, Vec<Action>),
        WormholeError,
    >)
        requires
            old(self)@.inv(),
            old(self)@.next_id < u64::MAX,
        ensures
            final(self)@.inv(),
            old(self)@.accepting() && has_proxy(old(self)@.proxies, key) ==> ({
                let (s2, rid, acts) = old(self)@.spec_proxy_ask(key, payload@, deadline);
                r matches Ok(p) && p.0 == rid && acts_of(p.1) == acts && final(self)@ == s2
            }),
            old(self)@.accepting() && !has_proxy(old(self)@.proxies, key) ==> (r matches Err(
                WormholeError::UnknownProxy,
            ) && final(self)@ == old(self)@),
            !old(self)@.accepting() ==> (r matches Err(WormholeError::PortalClosed)
                && final(self)@ == old(self)@),
    {
        if self.phase == Phase::Draining || self.phase == Phase::Closed {
            return Err(WormholeError::PortalClosed);
        }
        let i = match self.find_proxy(key) {
            Some(i) => i,
            None => {
                return Err(WormholeError::UnknownProxy);
            },
        };
        let target = self.proxies[i].remote_id;
        self.activate();
        let rid = self.next_id;
        self.replies.push(ReplyEntry { reply_id: rid, deadline });
        self.next_id = self.next_id + 1;
        let mut acts: Vec<Action> = Vec::new();
        acts.push(Action::Transmit(Frame::Ask { target, reply_id: rid, payload }));
        proof {
            assert(old(self)@.proxies[proxy_idx(old(self)@.proxies, key)].key == key) by {
                assert(old(self)@.proxies[i as int].key == key);
            }
            assert(i as int == proxy_idx(old(self)@.proxies, key));
            let (ms, mrid, macts) = old(self)@.spec_proxy_ask(key, payload@, deadline);
            assert(self@ =~~= ms);
            assert(acts_of(acts) =~~= macts);
            assert(self@.inv());
        }
        Ok((rid, acts))
    }

    /// Answers an inbound ask: emits a `Reply` frame carrying the peer's
    /// reply token, as received in [`Action::DeliverAsk`].
    pub fn send_reply(&mut self, token: u64, payload: Vec<u8>) -> (r: Result<
        Vec<Action>,
        WormholeError,
    >)
        requires
            old(self)@.inv(),
        ensures
            final(self)@.inv(),
            old(self)@.accepting() ==> ({
                let (s2, acts) = old(self)@.spec_send_reply(token, payload@);
                r matches Ok(a) && acts_of(a) == acts && final(self)@ == s2
            }),
            !old(self)@.accepting() ==> (r matches Err(WormholeError::PortalClosed)
                && final(self)@ == old(self)@),
    {
        if self.phase == Phase::Draining || self.phase == Phase::Closed {
            return Err(WormholeError::PortalClosed);
        }
        self.activate();
        let mut acts: Vec<Action> = Vec::new();
        acts.push(Action::Transmit(Frame::Reply { reply_id: token, payload }));
        proof {
            let (ms, macts) = old(self)@.spec_send_reply(token, payload@);
            assert(self@ =~~= ms);
            assert(acts_of(acts) =~~= macts);
        }
        Ok(acts)
    }

    /// Drains the portal: resolves every outstanding reply port with
    /// `PeerClosed`, stops every proxy, closes the sink. Draining an
    /// already draining or closed portal does nothing.
    pub fn close(&mut self) -> (r: Vec<Action>)
        requires
            old(self)@.inv(),
        ensures
            final(self)@.inv(),
            ({
                let (s2, acts) = old(self)@.spec_drain();
                final(self)@ == s2 && acts_of(r) == acts
            }),
    {
        if self.phase == Phase::Draining || self.phase == Phase::Closed {
            let acts: Vec<Action> = Vec::new();
            proof {
                assert(acts_of(acts) =~= Seq::<ActionModel>::empty());
            }
            return acts;
        }
        self.phase = Phase::Draining;
        let ghost rs = old(self)@.replies;
        let ghost ps = old(self)@.proxies;
        let mut acts: Vec<Action> = Vec::new();
        let mut i: usize = 0;
        while i < self.replies.len()
            invariant
                i <= self.replies.len(),
                self@.replies == rs,
                acts_of(acts) == drain_reply_acts(rs.take(i as int)),
            decreases self.replies.len() - i,
        {
            let ghost pre = acts@;
            let id = self.replies[i].reply_id;
            acts.push(Action::ResolveReply { reply_id: id, outcome: ReplyOutcome::PeerClosed });
            proof {
                let m1 = acts_of(acts);
                let m2 = drain_reply_acts(rs.take(i + 1 as int));
                assert(m1.len() == acts@.len());
                assert(acts@.len() == pre.len() + 1);
                assert(pre.map_values(|a: Action| a@).len() == pre.len());
                assert(pre.map_values(|a: Action| a@) == drain_reply_acts(rs.take(i as int)));
                assert(rs.len() == self@.replies.len());
                assert(i < self@.replies.len());
                assert(rs.take(i as int).len() == i as int);
                assert(pre.len() == i as int);
                assert(i + 1 <= rs.len());
                assert(m2.len() == rs.take(i + 1 as int).len());
                assert(m1.len() == m2.len());
                assert forall|j: int| 0 <= j < m1.len() implies m1[j] == m2[j] by {
                    if j < i as int {
                        assert(acts@[j] == pre[j]);
                        assert(m1[j] == pre.map_values(|a: Action| a@)[j]);
                        assert(pre.map_values(|a: Action| a@)[j] == drain_reply_acts(
                            rs.take(i as int),
                        )[j]);
                    } else {
                        assert(m1[j] == acts@[j]@);
                    }
                }
                assert(m1 =~= m2);
            }
            i = i + 1;
        }
        proof {
            assert(rs.take(self.replies.len() as int) =~= rs);
        }
        let mut k: usize = 0;
        while k < self.proxies.len()
            invariant
                k <= self.proxies.len(),
                self@.proxies == ps,
                acts_of(acts) == drain_reply_acts(rs) + drain_proxy_acts(ps.take(k as int)),
            decreases self.proxies.len() - k,
        {
            let ghost pre = acts@;
            let key = self.proxies[k].key;
            acts.push(Action::StopProxy { key });
            proof {
                let m1 = acts_of(acts);
                let m2 = drain_reply_acts(rs) + drain_proxy_acts(ps.take(k + 1 as int));
                assert(pre.map_values(|a: Action| a@).len() == pre.len());
                assert(pre.map_values(|a: Action| a@) == drain_reply_acts(rs) + drain_proxy_acts(
                    ps.take(k as int),
                ));
                assert(ps.len() == self@.proxies.len());
                assert(k < self@.proxies.len());
                assert(ps.take(k as int).len() == k as int);
                assert(pre.len() == rs.len() + k as int);
                assert(m1.len() == m2.len());
                assert forall|j: int| 0 <= j < m1.len() implies m1[j] == m2[j] by {
                    if j < pre.len() {
                        assert(acts@[j] == pre[j]);
                        assert(m1[j] == pre.map_values(|a: Action| a@)[j]);
                        assert(pre.map_values(|a: Action| a@)[j] == (drain_reply_acts(rs)
                            + drain_proxy_acts(ps.take(k as int)))[j]);
                    } else {
                        assert(m1[j] == acts@[j]@);
                        assert(m2[j] == ActionModel::StopProxy { key: ps[k as int].key });
                    }
                }
                assert(m1 =~= m2);
            }
            k = k + 1;
        }
        proof {
            assert(ps.take(self.proxies.len() as int) =~= ps);
        }
        acts.push(Action::CloseSink);
        acts.push(Action::Note(LogEvent::PortalClosed));
        self.replies = Vec::new();
        self.proxies = Vec::new();
        proof {
            let (ms, macts) = old(self)@.spec_drain();
            assert(self@ =~~= ms);
            assert(acts_of(acts) =~~= macts);
        }
        acts
    }

    /// Reports that an application decoder rejected a delivered payload:
    /// fatal for the portal, which drains as on a transport failure.
    pub fn report_decode_failure(&mut self) -> (r: Vec<Action>)
        requires
            old(self)@.inv(),
        ensures
            final(self)@.inv(),
            ({
                let (s2, acts) = old(self)@.spec_fail();
                final(self)@ == s2 && acts_of(r) == acts
            }),
    {
        if self.phase == Phase::Draining || self.phase == Phase::Closed {
            let acts: Vec<Action> = Vec::new();
            proof {
                assert(acts_of(acts) =~= Seq::<ActionModel>::empty());
            }
            return acts;
        }
        let mut acts: Vec<Action> = Vec::new();
        acts.push(Action::Note(LogEvent::DecodeFailed));
        let mut rest = self.close();
        acts.append(&mut rest);
        proof {
            let (ms, macts) = old(self)@.spec_fail();
            assert(self@ =~~= ms);
            assert(acts_of(acts) =~~= macts);
        }
        acts
    }

    /// Marks a draining portal closed (after its sink has shut down); the
    /// nexus then forgets it. Does nothing in any other phase.
    pub fn mark_closed(&mut self)
        requires
            old(self)@.inv(),
        ensures
            final(self)@.inv(),
            old(self)@.phase == Phase::Draining ==> final(self)@ == (PortalModel {
                phase: Phase::Closed,
                ..old(self)@
            }),
            old(self)@.phase != Phase::Draining ==> final(self)@ == old(self)@,
    {
        if self.phase == Phase::Draining {
            self.phase = Phase::Closed;
            proof {
                assert(self@ =~~= (PortalModel { phase: Phase::Closed, ..old(self)@ }));
            }
        }
    }

    /// Sweeps reply-port deadlines at time `now`: each expired port
    /// resolves with `TimedOut` and leaves the table, so a later answer
    /// from the peer is dropped as stray.
    pub fn tick(&mut self, now: u64) -> (r: Vec<Action>)
        requires
            old(self)@.inv(),
        ensures
            final(self)@.inv(),
            ({
                let (s2, acts) = old(self)@.spec_tick(now);
                final(self)@ == s2 && acts_of(r) == acts
            }),
    {
        if self.phase == Phase::Draining || self.phase == Phase::Closed {
            let acts: Vec<Action> = Vec::new();
            proof {
                assert(acts_of(acts) =~= Seq::<ActionModel>::empty());
            }
            return acts;
        }
        let ghost rs = old(self)@.replies;
        let mut kept: Vec<ReplyEntry> = Vec::new();
        let mut acts: Vec<Action> = Vec::new();
        let mut i: usize = 0;
        while i < self.replies.len()
            invariant
                i <= self.replies.len(),
                self@.replies == rs,
                kept@ == sweep_kept(rs.take(i as int), now),
                acts_of(acts) == sweep_acts(rs.take(i as int), now),
            decreases self.replies.len() - i,
        {
            let r0 = self.replies[i];
            let is_exp = match r0.deadline {
                Some(d) => d <= now,
                None => false,
            };
            if is_exp {
                acts.push(
                    Action::ResolveReply { reply_id: r0.reply_id, outcome: ReplyOutcome::TimedOut },
                );
            } else {
                kept.push(r0);
            }
            proof {
                assert(rs.take(i + 1 as int).drop_last() =~= rs.take(i as int));
                assert(rs.take(i + 1 as int).last() == rs[i as int]);
                assert(kept@ =~= sweep_kept(rs.take(i + 1 as int), now));
                assert(acts_of(acts) =~= sweep_acts(rs.take(i + 1 as int), now));
            }
            i = i + 1;
        }
        proof {
            assert(rs.take(self.replies.len() as int) =~= rs);
        }
        self.replies = kept;
        proof {
            lemma_sweep_kept(rs, now, old(self)@.next_id);
            let (ms, macts) = old(self)@.spec_tick(now);
            assert(self@ =~~= ms);
            assert(self@.inv());
        }
        acts
    }
}


impl Portal {
    /// Dispatches one inbound protocol frame: delivers casts and asks to
    /// live exports, resolves outstanding reply ports, answers queries,
    /// and honours releases, with the edge policies of the protocol
    /// (unknown cast target dropped, unknown ask target answered with an
    /// error frame, stray replies dropped). A frame arriving while the
    /// portal drains is ignored.
    pub fn handle_frame(&mut self, f: Frame) -> (r: Vec<Action>)
        requires
            old(self)@.inv(),
        ensures
            final(self)@.inv(),
            ({
                let (s2, macts) = old(self)@.spec_handle_frame(f@);
                final(self)@ == s2 && acts_of(r) == macts
            }),
    {
        proof {
            old(self)@.lemma_handle_frame_preserves_inv(f@);
        }
        let ghost fm = f@;
        if self.phase == Phase::Draining || self.phase == Phase::Closed {
            let acts: Vec<Action> = Vec::new();
            proof {
                assert(acts_of(acts) =~= Seq::<ActionModel>::empty());
            }
            return acts;
        }
        self.activate();
        let ghost s = old(self)@.activated();
        let mut acts: Vec<Action> = Vec::new();
        match f {
            Frame::Advertise { .. } => {},
            Frame::Query { name, reply_id } => {
                match self.find_name(&name) {
                    Some(j) => {
                        let lid = self.names[j].local_id;
                        proof {
                            assert(s.names[name_idx(s.names, name@)].name == name@) by {
                                assert(s.names[j as int].name == name@);
                            }
                            assert(j as int == name_idx(s.names, name@));
                            assert(has_export(s.exports, lid));
                        }
                        match self.find_export_by_id(lid) {
                            Some(ei) => {
                                proof {
                                    assert(ei as int == export_idx(s.exports, lid)) by {
                                        assert(s.exports[ei as int].local_id == lid);
                                    }
                                }
                                if self.exports[ei].alive {
                                    let tag = clone_bytes(&self.exports[ei].type_tag);
                                    acts.push(
                                        Action::Transmit(
                                            Frame::QueryReply {
                                                reply_id,
                                                found: Some(FoundTarget { id: lid, type_tag: tag }),
                                            },
                                        ),
                                    );
                                    acts.push(Action::Note(LogEvent::QueryHit));
                                } else {
                                    acts.push(
                                        Action::Transmit(Frame::QueryReply { reply_id, found: None }),
                                    );
                                    acts.push(Action::Note(LogEvent::QueryMiss));
                                }
                            },
                            None => {
                                proof {
                                    assert(false);
                                }
                            },
                        }
                    },
                    None => {
                        acts.push(Action::Transmit(Frame::QueryReply { reply_id, found: None }));
                        acts.push(Action::Note(LogEvent::QueryMiss));
                    },
                }
            },
            Frame::QueryReply { reply_id, found } => {
                match self.find_reply(reply_id) {
                    Some(i) => {
                        proof {
                            assert(s.replies[reply_idx(s.replies, reply_id)].reply_id == reply_id)
                                by {
                                assert(s.replies[i as int].reply_id == reply_id);
                            }
                            assert(i as int == reply_idx(s.replies, reply_id));
                        }
                        self.replies.remove(i);
                        let outcome = match found {
                            Some(t) => ReplyOutcome::Target {
                                remote_id: t.id,
                                type_tag: t.type_tag,
                            },
                            None => ReplyOutcome::UnknownName,
                        };
                        acts.push(Action::ResolveReply { reply_id, outcome });
                    },
                    None => {
                        acts.push(Action::Note(LogEvent::StrayReply));
                    },
                }
            },
            Frame::Cast { target, payload } => {
                match self.find_export_by_id(target) {
                    Some(ei) => {
                        proof {
                            assert(s.exports[export_idx(s.exports, target)].local_id == target) by {
                                assert(s.exports[ei as int].local_id == target);
                            }
                            assert(ei as int == export_idx(s.exports, target));
                        }
                        if self.exports[ei].alive {
                            let actor = self.exports[ei].actor;
                            acts.push(Action::DeliverCast { actor, payload });
                        } else {
                            acts.push(Action::Note(LogEvent::UnknownTargetCast));
                        }
                    },
                    None => {
                        acts.push(Action::Note(LogEvent::UnknownTargetCast));
                    },
                }
            },
            Frame::Ask { target, reply_id, payload } => {
                match self.find_export_by_id(target) {
                    Some(ei) => {
                        proof {
                            assert(s.exports[export_idx(s.exports, target)].local_id == target) by {
                                assert(s.exports[ei as int].local_id == target);
                            }
                            assert(ei as int == export_idx(s.exports, target));
                        }
                        if self.exports[ei].alive {
                            let actor = self.exports[ei].actor;
                            acts.push(Action::DeliverAsk { actor, reply_token: reply_id, payload });
                        } else {
                            acts.push(
                                Action::Transmit(
                                    Frame::ReplyError {
                                        reply_id,
                                        kind: WireErrorKind::UnknownTarget,
                                        message: Vec::new(),
                                    },
                                ),
                            );
                            acts.push(Action::Note(LogEvent::UnknownTargetAsk));
                        }
                    },
                    None => {
                        acts.push(
                            Action::Transmit(
                                Frame::ReplyError {
                                    reply_id,
                                    kind: WireErrorKind::UnknownTarget,
                                    message: Vec::new(),
                                },
                            ),
                        );
                        acts.push(Action::Note(LogEvent::UnknownTargetAsk));
                    },
                }
            },
            Frame::Reply { reply_id, payload } => {
                match self.find_reply(reply_id) {
                    Some(i) => {
                        proof {
                            assert(s.replies[reply_idx(s.replies, reply_id)].reply_id == reply_id)
                                by {
                                assert(s.replies[i as int].reply_id == reply_id);
                            }
                            assert(i as int == reply_idx(s.replies, reply_id));
                        }
                        self.replies.remove(i);
                        acts.push(
                            Action::ResolveReply { reply_id, outcome: ReplyOutcome::Value(payload) },
                        );
                    },
                    None => {
                        acts.push(Action::Note(LogEvent::StrayReply));
                    },
                }
            },
            Frame::ReplyError { reply_id, kind, message } => {
                match self.find_reply(reply_id) {
                    Some(i) => {
                        proof {
                            assert(s.replies[reply_idx(s.replies, reply_id)].reply_id == reply_id)
                                by {
                                assert(s.replies[i as int].reply_id == reply_id);
                            }
                            assert(i as int == reply_idx(s.replies, reply_id));
                        }
                        self.replies.remove(i);
                        acts.push(
                            Action::ResolveReply {
                                reply_id,
                                outcome: ReplyOutcome::RemoteError { kind, message },
                            },
                        );
                    },
                    None => {
                        acts.push(Action::Note(LogEvent::StrayReply));
                    },
                }
            },
            Frame::Release { id, kind } => {
                match kind {
                    ReleaseKind::Handle => {
                        match self.find_export_by_id(id) {
                            Some(ei) => {
                                proof {
                                    assert(s.exports[export_idx(s.exports, id)].local_id == id) by {
                                        assert(s.exports[ei as int].local_id == id);
                                    }
                                    assert(ei as int == export_idx(s.exports, id));
                                }
                                let dead = ExportEntry {
                                    local_id: self.exports[ei].local_id,
                                    actor: self.exports[ei].actor,
                                    type_tag: clone_bytes(&self.exports[ei].type_tag),
                                    alive: false,
                                };
                                self.exports.set(ei, dead);
                                proof {
                                    assert(self@.exports =~= s.exports.update(
                                        ei as int,
                                        ExportModel { alive: false, ..s.exports[ei as int] },
                                    ));
                                }
                            },
                            None => {},
                        }
                    },
                    ReleaseKind::ReplyPort => {
                        match self.find_reply(id) {
                            Some(i) => {
                                proof {
                                    assert(s.replies[reply_idx(s.replies, id)].reply_id == id) by {
                                        assert(s.replies[i as int].reply_id == id);
                                    }
                                    assert(i as int == reply_idx(s.replies, id));
                                }
                                self.replies.remove(i);
                            },
                            None => {},
                        }
                    },
                }
            },
        }
        proof {
            let (ms, macts) = old(self)@.spec_handle_frame(fm);
            assert(self@ =~~= ms);
            assert(acts_of(acts) =~~= macts);
        }
        acts
    }

    /// One item from the receive loop: a binary frame is decoded and
    /// dispatched; an undecodable item, or a textual one (frames travel in
    /// binary form only), is fatal and drains the portal; `Close` drains
    /// the portal.
    pub fn handle_ingress(&mut self, m: PortalIngress) -> (r: Vec<Action>)
        requires
            old(self)@.inv(),
        ensures
            final(self)@.inv(),
            ({
                let (s2, macts) = old(self)@.spec_ingress(m@);
                final(self)@ == s2 && acts_of(r) == macts
            }),
    {
        match m {
            PortalIngress::Binary(b) => {
                match decode_frame(&b) {
                    Some(fr) => self.handle_frame(fr),
                    None => self.report_decode_failure(),
                }
            },
            PortalIngress::Text(_) => self.report_decode_failure(),
            PortalIngress::Close => self.close(),
        }
    }
}


impl Portal {
    /// Exports a local actor without advertising a name: the application's
    /// codec calls this while serializing a message that carries a local
    /// actor reference, and embeds the returned id in the payload as the
    /// handle token. Republishing the same actor yields the same id.
    pub fn export_local_actor(&mut self, actor: u64, type_tag: Vec<u8>) -> (r: Result<
        u64,
        WormholeError,
    >)
        requires
            old(self)@.inv(),
            old(self)@.next_id < u64::MAX,
        ensures
            final(self)@.inv(),
            old(self)@.accepting() ==> ({
                let (s2, id) = old(self)@.spec_export(actor, type_tag@);
                r matches Ok(k) && k == id && final(self)@ == s2
            }),
            !old(self)@.accepting() ==> (r matches Err(WormholeError::PortalClosed)
                && final(self)@ == old(self)@),
    {
        if self.phase == Phase::Draining || self.phase == Phase::Closed {
            return Err(WormholeError::PortalClosed);
        }
        let id = match self.find_export_by_actor(actor) {
            Some(i) => {
                let id = self.exports[i].local_id;
                let alive_entry = ExportEntry {
                    local_id: id,
                    actor: self.exports[i].actor,
                    type_tag: clone_bytes(&self.exports[i].type_tag),
                    alive: true,
                };
                self.exports.set(i, alive_entry);
                proof {
                    assert(old(self)@.exports[export_actor_idx(old(self)@.exports, actor)].actor
                        == actor) by {
                        assert(old(self)@.exports[i as int].actor == actor);
                    }
                    assert(i as int == export_actor_idx(old(self)@.exports, actor));
                    assert(self@.exports =~= old(self)@.exports.update(
                        i as int,
                        ExportModel { alive: true, ..old(self)@.exports[i as int] },
                    ));
                }
                id
            },
            None => {
                let id = self.next_id;
                self.exports.push(ExportEntry { local_id: id, actor, type_tag, alive: true });
                self.next_id = self.next_id + 1;
                id
            },
        };
        proof {
            let (ms, mid) = old(self)@.spec_export(actor, type_tag@);
            assert(self@ =~~= ms);
            assert forall|k: int| 0 <= k < self@.names.len() implies has_export(
                self@.exports,
                (#[trigger] self@.names[k]).local_id,
            ) by {
                let w = choose|w: int|
                    0 <= w < old(self)@.exports.len() && old(self)@.exports[w].local_id == old(
                        self,
                    )@.names[k].local_id;
                assert(self@.exports[w].local_id == old(self)@.names[k].local_id);
            }
            assert(self@.inv());
        }
        Ok(id)
    }

    /// Marks a terminated local actor's export dead: from now on frames
    /// addressed to its id are handled as unknown-target. Marking an actor
    /// that was never exported does nothing.
    pub fn mark_actor_stopped(&mut self, actor: u64)
        requires
            old(self)@.inv(),
        ensures
            final(self)@.inv(),
            final(self)@ == old(self)@.spec_retire(actor),
    {
        match self.find_export_by_actor(actor) {
            Some(i) => {
                let dead = ExportEntry {
                    local_id: self.exports[i].local_id,
                    actor: self.exports[i].actor,
                    type_tag: clone_bytes(&self.exports[i].type_tag),
                    alive: false,
                };
                self.exports.set(i, dead);
                proof {
                    assert(old(self)@.exports[export_actor_idx(old(self)@.exports, actor)].actor
                        == actor) by {
                        assert(old(self)@.exports[i as int].actor == actor);
                    }
                    assert(i as int == export_actor_idx(old(self)@.exports, actor));
                    assert(self@ =~~= old(self)@.spec_retire(actor));
                    assert forall|k: int| 0 <= k < self@.names.len() implies has_export(
                        self@.exports,
                        (#[trigger] self@.names[k]).local_id,
                    ) by {
                        let w = choose|w: int|
                            0 <= w < old(self)@.exports.len() && old(self)@.exports[w].local_id
                                == old(self)@.names[k].local_id;
                        assert(self@.exports[w].local_id == old(self)@.names[k].local_id);
                    }
                    assert(self@.inv());
                }
            },
            None => {
                proof {
                    assert(self@ =~~= old(self)@.spec_retire(actor));
                }
            },
        }
    }

    /// Drops the proxy under `key` and tells the peer the handle is no
    /// longer needed, bounding the peer's export table. Fails with
    /// [`WormholeError::UnknownProxy`] for a key this portal never issued.
    pub fn release_proxy(&mut self, key: u64) -> (r: Result<Vec<Action>, WormholeError>)
        requires
            old(self)@.inv(),
        ensures
            final(self)@.inv(),
            old(self)@.accepting() && has_proxy(old(self)@.proxies, key) ==> ({
                let (s2, acts) = old(self)@.spec_release_proxy(key);
                r matches Ok(a) && acts_of(a) == acts && final(self)@ == s2
            }),
            old(self)@.accepting() && !has_proxy(old(self)@.proxies, key) ==> (r matches Err(
                WormholeError::UnknownProxy,
            ) && final(self)@ == old(self)@),
            !old(self)@.accepting() ==> (r matches Err(WormholeError::PortalClosed)
                && final(self)@ == old(self)@),
    {
        if self.phase == Phase::Draining || self.phase == Phase::Closed {
            return Err(WormholeError::PortalClosed);
        }
        let i = match self.find_proxy(key) {
            Some(i) => i,
            None => {
                return Err(WormholeError::UnknownProxy);
            },
        };
        let rid = self.proxies[i].remote_id;
        self.activate();
        proof {
            assert(old(self)@.proxies[proxy_idx(old(self)@.proxies, key)].key == key) by {
                assert(old(self)@.proxies[i as int].key == key);
            }
            assert(i as int == proxy_idx(old(self)@.proxies, key));
        }
        self.proxies.remove(i);
        let mut acts: Vec<Action> = Vec::new();
        acts.push(Action::Transmit(Frame::Release { id: rid, kind: ReleaseKind::Handle }));
        proof {
            let (ms, macts) = old(self)@.spec_release_proxy(key);
            assert(self@ =~~= ms);
            assert(acts_of(acts) =~~= macts);
            assert(self@.inv());
        }
        Ok(acts)
    }

    /// Drops an outstanding reply port without resolving it and tells the
    /// peer the port is no longer needed; a later answer for it will be
    /// dropped as stray. Cancelling an unknown or already resolved port
    /// does nothing.
    pub fn cancel_reply(&mut self, reply_id: u64) -> (r: Result<Vec<Action>, WormholeError>)
        requires
            old(self)@.inv(),
        ensures
            final(self)@.inv(),
            old(self)@.accepting() ==> ({
                let (s2, acts) = old(self)@.spec_cancel_reply(reply_id);
                r matches Ok(a) && acts_of(a) == acts && final(self)@ == s2
            }),
            !old(self)@.accepting() ==> (r matches Err(WormholeError::PortalClosed)
                && final(self)@ == old(self)@),
    {
        if self.phase == Phase::Draining || self.phase == Phase::Closed {
            return Err(WormholeError::PortalClosed);
        }
        let mut acts: Vec<Action> = Vec::new();
        match self.find_reply(reply_id) {
            Some(i) => {
                self.activate();
                proof {
                    assert(old(self)@.replies[reply_idx(old(self)@.replies, reply_id)].reply_id
                        == reply_id) by {
                        assert(old(self)@.replies[i as int].reply_id == reply_id);
                    }
                    assert(i as int == reply_idx(old(self)@.replies, reply_id));
                }
                self.replies.remove(i);
                acts.push(
                    Action::Transmit(Frame::Release { id: reply_id, kind: ReleaseKind::ReplyPort }),
                );
                proof {
                    let (ms, macts) = old(self)@.spec_cancel_reply(reply_id);
                    assert(self@ =~~= ms);
                    assert(acts_of(acts) =~~= macts);
                }
            },
            None => {
                proof {
                    assert(acts_of(acts) =~= Seq::<ActionModel>::empty());
                }
            },
        }
        Ok(acts)
    }
}

} // verus!
