//! TCP connections over QUIC streams: which stream carries which connection, and where it leads.

use crate::addr::SocketAddr;
use crate::tcp_server::{StreamMessage, StreamRequest};
use vstd::prelude::*;

verus! {

/// How long connecting to a destination may take (s).
pub const CONNECT_TIMEOUT_SECS: u64 = 5;

/// Size of the kernel's buffers to ask for (bytes).
pub const TCP_SOCKET_BUFFER_BYTES: u32 = 512 * 1024;

/// The two sides of a TCP tunnel.
pub struct TcpTunnel;

/// What the side that opens streams is about.
#[derive(Clone, Copy, Debug, PartialEq, Eq, Structural)]
pub enum ServePhase {
    /// It waits for an accepted connection.
    Receiving,
    /// It opens a stream for the connection it holds.
    Opening,
    /// It writes the destination of the connection it holds to the stream.
    Addressing,
    /// It has ended.
    Finished,
}

/// What happened to the side that opens streams.
pub enum ServeEvent<S> {
    /// This came through the channel; nothing comes where the channel is closed.
    Received(Option<StreamMessage<S>>),
    /// A stream has been opened, or could not be.
    Opened(bool),
    /// The destination has been written, or could not be.
    Addressed(bool),
}

/// What the side that opens streams is to do.
pub enum ServeAction<S> {
    /// Wait for a message from the channel.
    Receive,
    /// Open a stream.
    Open,
    /// Write this destination to the stream.
    Address(Option<SocketAddr>),
    /// Let this connection flow through the stream, and wait for a message from the channel.
    Flow(StreamRequest<S>),
    /// End.
    Quit,
}

/// The side that opens a stream for each accepted connection.
pub struct TcpServing<S> {
    phase: ServePhase,
    held: Option<StreamRequest<S>>,
}

impl<S> TcpServing<S> {
    pub closed spec fn phase(self) -> ServePhase {
        self.phase
    }

    /// The connection for which there is no stream yet.
    pub closed spec fn held(self) -> Option<StreamRequest<S>> {
        self.held
    }

    /// A connection is held exactly while a stream is being prepared for it; once the side has
    /// ended there may be one left.
    pub open spec fn wf(self) -> bool {
        match self.phase() {
            ServePhase::Receiving => self.held() is None,
            ServePhase::Opening => self.held() is Some,
            ServePhase::Addressing => self.held() is Some,
            ServePhase::Finished => true,
        }
    }

    /// Whether the event can happen in this phase.
    pub open spec fn may_see(self, event: ServeEvent<S>) -> bool {
        match event {
            ServeEvent::Received(_) => self.phase() == ServePhase::Receiving,
            ServeEvent::Opened(_) => self.phase() == ServePhase::Opening,
            ServeEvent::Addressed(_) => self.phase() == ServePhase::Addressing,
        }
    }

    /// What an event leads to: the phase, the connection held, and what to do.
    pub open spec fn after(self, event: ServeEvent<S>) -> (
        ServePhase,
        Option<StreamRequest<S>>,
        ServeAction<S>,
    ) {
        match event {
            ServeEvent::Received(Some(StreamMessage::Request(request))) => (
                ServePhase::Opening,
                Some(request),
                ServeAction::Open,
            ),
            ServeEvent::Received(_) => (ServePhase::Finished, None, ServeAction::Quit),
            ServeEvent::Opened(true) => (
                ServePhase::Addressing,
                self.held(),
                ServeAction::Address(self.held()->0.dst_addr),
            ),
            ServeEvent::Opened(false) => (ServePhase::Finished, self.held(), ServeAction::Quit),
            ServeEvent::Addressed(true) => (
                ServePhase::Receiving,
                None,
                ServeAction::Flow(self.held()->0),
            ),
            ServeEvent::Addressed(false) => (
                ServePhase::Opening,
                self.held(),
                ServeAction::Open,
            ),
        }
    }

    /// Takes note of an event and tells what to do.
    pub fn step(&mut self, event: ServeEvent<S>) -> (r: ServeAction<S>)
        requires
            old(self).wf(),
            old(self).may_see(event),
        ensures
            final(self).wf(),
            (final(self).phase(), final(self).held(), r) == old(self).after(event),
    {
        match event {
            ServeEvent::Received(message) => {
                match message {
                    Some(StreamMessage::Request(request)) => {
                        self.phase = ServePhase::Opening;
                        self.held = Some(request);
                        ServeAction::Open
                    },
                    _ => {
                        self.phase = ServePhase::Finished;
                        ServeAction::Quit
                    },
                }
            },
            ServeEvent::Opened(opened) => if opened {
                self.phase = ServePhase::Addressing;
                let dst_addr = match &self.held {
                    Some(request) => request.dst_addr,
                    None => None,
                };
                ServeAction::Address(dst_addr)
            } else {
                self.phase = ServePhase::Finished;
                ServeAction::Quit
            },
            ServeEvent::Addressed(written) => if written {
                match self.held.take() {
                    Some(request) => {
                        self.phase = ServePhase::Receiving;
                        ServeAction::Flow(request)
                    },
                    None => ServeAction::Quit,
                }
            } else {
                self.phase = ServePhase::Opening;
                ServeAction::Open
            },
        }
    }

    /// The connection that is left without a stream, to be served once the tunnel is up again.
    pub fn pending_request(self) -> (r: Option<StreamRequest<S>>)
        ensures
            r == self.held(),
    {
        self.held
    }
}

/// A connection, if there is one.
pub open spec fn one<S>(request: Option<StreamRequest<S>>) -> Seq<StreamRequest<S>> {
    match request {
        Some(request) => seq![request],
        None => Seq::empty(),
    }
}

/// The connection that comes with an event.
pub open spec fn incoming<S>(event: ServeEvent<S>) -> Option<StreamRequest<S>> {
    match event {
        ServeEvent::Received(Some(StreamMessage::Request(request))) => Some(request),
        _ => None,
    }
}

/// The connection that an action lets flow.
pub open spec fn outgoing<S>(action: ServeAction<S>) -> Option<StreamRequest<S>> {
    match action {
        ServeAction::Flow(request) => Some(request),
        _ => None,
    }
}

/// No accepted connection is lost or doubled: those that were held or have come in are held
/// afterwards or flow.
pub proof fn no_connection_is_lost<S>(serving: TcpServing<S>, event: ServeEvent<S>)
    requires
        serving.wf(),
        serving.may_see(event),
    ensures
        one(serving.held()) + one(incoming(event)) == one(outgoing(serving.after(event).2)) + one(
            serving.after(event).1,
        ),
{
    assert(one(serving.held()) + one(incoming(event)) =~= one(outgoing(serving.after(event).2))
        + one(serving.after(event).1));
}

/// A connection flows only through a stream to which its own destination has been written. A
/// stream to which that could not be written is given up for another one, for the same
/// connection.
pub proof fn connection_is_addressed_before_it_flows<S>(
    serving: TcpServing<S>,
    event: ServeEvent<S>,
)
    requires
        serving.wf(),
        serving.may_see(event),
    ensures
        ({
            let (phase, held, action) = serving.after(event);
            &&& action matches ServeAction::Address(dst_addr) ==> {
                &&& event == ServeEvent::<S>::Opened(true)
                &&& held is Some
                &&& held == serving.held()
                &&& dst_addr == held->0.dst_addr
                &&& phase == ServePhase::Addressing
            }
            &&& action matches ServeAction::Flow(request) ==> {
                &&& event == ServeEvent::<S>::Addressed(true)
                &&& serving.phase() == ServePhase::Addressing
                &&& serving.held() == Some(request)
                &&& held is None
                &&& phase == ServePhase::Receiving
            }
            &&& action is Open ==> {
                &&& phase == ServePhase::Opening
                &&& incoming(event) is Some ==> held == incoming(event)
                &&& incoming(event) is None ==> event == ServeEvent::<S>::Addressed(false) && held
                    == serving.held()
            }
            &&& event == ServeEvent::<S>::Opened(true) ==> action is Address
            &&& event == ServeEvent::<S>::Addressed(true) ==> action is Flow
        }),
{
}

/// Serving ends exactly when its channel is closed or tells it to quit, or when no stream can be
/// opened; in the last case the connection that waits for one is kept.
pub proof fn serving_ends_only_when_told<S>(serving: TcpServing<S>, event: ServeEvent<S>)
    requires
        serving.wf(),
        serving.may_see(event),
    ensures
        ({
            let (phase, held, action) = serving.after(event);
            &&& action is Quit <==> phase == ServePhase::Finished
            &&& action is Quit <==> event == ServeEvent::<S>::Opened(false) || (event is Received
                && incoming(event) is None)
            &&& action is Quit && event is Opened ==> held is Some && held == serving.held()
            &&& action is Quit && event is Received ==> held is None
        }),
{
}

/// Where a stream that the peer has opened leads.
#[derive(Clone, Copy, Debug, PartialEq, Eq, Structural)]
pub enum Destination {
    /// To this address.
    Connect(SocketAddr),
    /// To the address that comes first in the stream.
    Read,
    /// Nowhere; the stream is dropped.
    Nowhere,
}

impl TcpTunnel {
    /// Starts to serve accepted connections, beginning with one that was left over.
    pub fn start_serving<S>(pending_request: Option<StreamRequest<S>>) -> (r: (
        TcpServing<S>,
        ServeAction<S>,
    ))
        ensures
            r.0.wf(),
            r.0.held() == pending_request,
            pending_request is Some ==> r.0.phase() == ServePhase::Opening && r.1
                == ServeAction::<S>::Open,
            pending_request is None ==> r.0.phase() == ServePhase::Receiving && r.1
                == ServeAction::<S>::Receive,
    {
        match pending_request {
            Some(request) => (
                TcpServing { phase: ServePhase::Opening, held: Some(request) },
                ServeAction::Open,
            ),
            None => (
                TcpServing { phase: ServePhase::Receiving, held: None },
                ServeAction::Receive,
            ),
        }
    }

    /// Where a stream leads that the peer has opened: to the upstream, if there is one.
    pub fn start_accepting(upstream_addr: Option<SocketAddr>) -> (r: Destination)
        ensures
            r == (match upstream_addr {
                Some(addr) => Destination::Connect(addr),
                None => Destination::Read,
            }),
    {
        match upstream_addr {
            Some(addr) => Destination::Connect(addr),
            None => Destination::Read,
        }
    }

    /// Where a stream leads whose destination has been read, if it could be.
    pub fn destination_read(dst_addr: Option<SocketAddr>) -> (r: Destination)
        ensures
            r == (match dst_addr {
                Some(addr) => Destination::Connect(addr),
                None => Destination::Nowhere,
            }),
    {
        match dst_addr {
            Some(addr) => Destination::Connect(addr),
            None => Destination::Nowhere,
        }
    }
}

} // verus!
