//! The conduit: the vocabulary shared between a portal and its transport.
//!
//! A conduit is a pair (sink, source) of framed messages. The runtime never
//! touches a socket itself: an adapter task reads transport events, asks
//! [`classify_transport_event`] what each one means, and feeds the resulting
//! [`ConduitMessage`] items to the portal's receive loop, which in turn asks
//! [`receive_step`] what to hand to the portal. Both decision functions are
//! pure; the loops around them live outside the verified core.

use vstd::prelude::*;

verus! {

/// One framed message on a conduit: the only vocabulary the portal shares
/// with the transport.
pub enum ConduitMessage {
    Text(String),
    Binary(Vec<u8>),
    Close(Option<String>),
}

/// Mathematical image of a [`ConduitMessage`].
pub enum ConduitMessageModel {
    Text(Seq<char>),
    Binary(Seq<u8>),
    Close(Option<Seq<char>>),
}

impl View for ConduitMessage {
    type V = ConduitMessageModel;

    open spec fn view(&self) -> ConduitMessageModel {
        match self {
            ConduitMessage::Text(s) => ConduitMessageModel::Text(s@),
            ConduitMessage::Binary(b) => ConduitMessageModel::Binary(b@),
            ConduitMessage::Close(r) => ConduitMessageModel::Close(
                match r {
                    Some(s) => Some(s@),
                    None => None,
                },
            ),
        }
    }
}

/// What a portal accepts from its receive loop.
pub enum PortalIngress {
    Text(String),
    Binary(Vec<u8>),
    Close,
}

/// Mathematical image of a [`PortalIngress`].
pub enum PortalIngressModel {
    Text(Seq<char>),
    Binary(Seq<u8>),
    Close,
}

impl View for PortalIngress {
    type V = PortalIngressModel;

    open spec fn view(&self) -> PortalIngressModel {
        match self {
            PortalIngress::Text(s) => PortalIngressModel::Text(s@),
            PortalIngress::Binary(b) => PortalIngressModel::Binary(b@),
            PortalIngress::Close => PortalIngressModel::Close,
        }
    }
}

/// Decision of the receive loop for one conduit item.
pub enum ReceiveStep {
    /// Hand the ingress to the portal and keep reading.
    Deliver(PortalIngress),
    /// Hand [`PortalIngress::Close`] to the portal and stop reading.
    Stop,
}

/// One step of the portal's receive loop: turns a conduit item into the
/// ingress to deliver. `Text` and `Binary` are forwarded; `Close` ends the
/// loop, after which the loop delivers [`PortalIngress::Close`] exactly once.
/// A transport error on the source is treated by the loop as `Close`.
pub fn receive_step(msg: ConduitMessage) -> (r: ReceiveStep)
    ensures
        match msg@ {
            ConduitMessageModel::Text(s) => r matches ReceiveStep::Deliver(i) && i@
                == PortalIngressModel::Text(s),
            ConduitMessageModel::Binary(b) => r matches ReceiveStep::Deliver(i) && i@
                == PortalIngressModel::Binary(b),
            ConduitMessageModel::Close(_) => r matches ReceiveStep::Stop,
        },
{
    match msg {
        ConduitMessage::Text(s) => ReceiveStep::Deliver(PortalIngress::Text(s)),
        ConduitMessage::Binary(b) => ReceiveStep::Deliver(PortalIngress::Binary(b)),
        ConduitMessage::Close(_) => ReceiveStep::Stop,
    }
}

/// A transport-level event, as an adapter sees it. Concrete WebSocket event
/// types are translated into this shape at the unverified edge; the decision
/// of what each event means for the conduit is taken here.
pub enum TransportEvent {
    /// The transport reports readiness.
    Opened,
    /// A textual frame arrived.
    Text(String),
    /// A binary frame arrived.
    Binary(Vec<u8>),
    /// An unrelated control frame arrived (ping, pong, ...).
    Other,
    /// The transport reports a failure.
    Failed,
    /// The transport ended.
    Ended,
}

/// Mathematical image of a [`TransportEvent`].
pub enum TransportEventModel {
    Opened,
    Text(Seq<char>),
    Binary(Seq<u8>),
    Other,
    Failed,
    Ended,
}

impl View for TransportEvent {
    type V = TransportEventModel;

    open spec fn view(&self) -> TransportEventModel {
        match self {
            TransportEvent::Opened => TransportEventModel::Opened,
            TransportEvent::Text(s) => TransportEventModel::Text(s@),
            TransportEvent::Binary(b) => TransportEventModel::Binary(b@),
            TransportEvent::Other => TransportEventModel::Other,
            TransportEvent::Failed => TransportEventModel::Failed,
            TransportEvent::Ended => TransportEventModel::Ended,
        }
    }
}

/// Decision of an adapter for one transport event.
pub enum TransportStep {
    /// Signal whoever awaits connection readiness.
    SignalOpened,
    /// Emit this conduit message towards the portal.
    Deliver(ConduitMessage),
    /// Nothing to do for this event.
    Ignore,
}

/// One step of a transport adapter: maps a transport event to the conduit
/// item it stands for. Data frames are forwarded; a failure or the end of
/// the transport becomes one `Close` (the adapter loop stops afterwards, so
/// at most one `Close` is ever emitted); control frames are ignored.
pub fn classify_transport_event(ev: TransportEvent) -> (r: TransportStep)
    ensures
        match ev@ {
            TransportEventModel::Opened => r matches TransportStep::SignalOpened,
            TransportEventModel::Text(s) => r matches TransportStep::Deliver(m) && m@
                == ConduitMessageModel::Text(s),
            TransportEventModel::Binary(b) => r matches TransportStep::Deliver(m) && m@
                == ConduitMessageModel::Binary(b),
            TransportEventModel::Other => r matches TransportStep::Ignore,
            TransportEventModel::Failed => r matches TransportStep::Deliver(m) && m@
                == ConduitMessageModel::Close(None::<Seq<char>>),
            TransportEventModel::Ended => r matches TransportStep::Deliver(m) && m@
                == ConduitMessageModel::Close(None::<Seq<char>>),
        },
{
    match ev {
        TransportEvent::Opened => TransportStep::SignalOpened,
        TransportEvent::Text(s) => TransportStep::Deliver(ConduitMessage::Text(s)),
        TransportEvent::Binary(b) => TransportStep::Deliver(ConduitMessage::Binary(b)),
        TransportEvent::Other => TransportStep::Ignore,
        TransportEvent::Failed => TransportStep::Deliver(ConduitMessage::Close(None)),
        TransportEvent::Ended => TransportStep::Deliver(ConduitMessage::Close(None)),
    }
}

} // verus!
