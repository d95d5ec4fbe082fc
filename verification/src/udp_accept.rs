//! The receiving side of a UDP tunnel: packets from a stream go to a peer, and its answers back.

use crate::addr::SocketAddr;
use crate::tunnel_message::{
    decode_all, lemma_decode_advances, push_bytes, udp_frames, MessageError, TunnelMessage,
};
use crate::udp_batch::{
    udp_batch, Packets, UdpBatch, UDP_WRITE_BATCH_BYTES, UDP_WRITE_BATCH_PACKETS,
};
use crate::udp_tunnel::{Activity, UdpTunnel};
use vstd::prelude::*;

verus! {

/// Where a packet from the tunnel goes.
#[derive(Clone, Copy, Debug, PartialEq, Eq, Structural)]
pub enum Route {
    /// To the peer of the socket that is there.
    Send,
    /// To this address, by a new socket connected to it; an old socket is shut down first.
    Connect(SocketAddr),
}

/// A packet from the tunnel, and where it goes.
pub struct RoutedPacket {
    pub route: Route,
    pub payload: Vec<u8>,
}

/// Why the receiving side ends.
#[derive(Clone, Copy, Debug, PartialEq, Eq, Structural)]
pub enum ProcessError {
    /// A packet cannot be read.
    Message(MessageError),
    /// A packet names no peer, and there is no socket.
    NoUpstream,
}

/// The receiving side of one stream.
#[derive(Clone, Copy, Debug, PartialEq, Eq, Structural)]
pub struct UdpAccepting {
    /// Where all packets go, if that is fixed.
    pub upstream_addr: Option<SocketAddr>,
    /// The address to which the socket is connected, if there is one.
    pub connected: Option<SocketAddr>,
}

impl UdpAccepting {
    /// Where a packet for `peer` goes, if anywhere: to the fixed upstream, or else to its peer, or
    /// else to the peer of the packet before it.
    pub open spec fn route(self, peer: Option<SocketAddr>) -> Option<Route> {
        match peer {
            Some(peer) => if self.upstream_addr is Some || self.connected == Some(peer) {
                Some(Route::Send)
            } else {
                Some(Route::Connect(peer))
            },
            None => if self.connected is Some {
                Some(Route::Send)
            } else {
                None
            },
        }
    }

    /// The receiving side after a packet has been routed.
    pub open spec fn routed(self, route: Route) -> UdpAccepting {
        match route {
            Route::Send => self,
            Route::Connect(addr) => UdpAccepting { connected: Some(addr), ..self },
        }
    }

    /// Where packets go one after another, up to the first that goes nowhere, and whether there
    /// is one.
    pub open spec fn route_all(self, packets: Packets) -> (
        UdpAccepting,
        Seq<(Route, Seq<u8>)>,
        bool,
    )
        decreases packets.len(),
    {
        if packets.len() == 0 {
            (self, Seq::empty(), false)
        } else {
            match self.route(packets[0].0) {
                None => (self, Seq::empty(), true),
                Some(route) => {
                    let rest = self.routed(route).route_all(packets.drop_first());
                    (rest.0, seq![(route, packets[0].1)] + rest.1, rest.2)
                },
            }
        }
    }

    /// The sockets that are there: one to the fixed upstream, where there is one.
    pub open spec fn wf(self) -> bool {
        self.upstream_addr is Some ==> self.connected == self.upstream_addr
    }

    /// Routes the packets of a batch, up to the first that cannot be read or goes nowhere.
    pub fn process(&mut self, data: &[u8]) -> (r: (Vec<RoutedPacket>, Option<ProcessError>))
        requires
            old(self).wf(),
        ensures
            final(self).wf(),
            ({
                let read = decode_all(data@, 0);
                let routed = old(self).route_all(read.0);
                &&& *final(self) == routed.0
                &&& routes(r.0@) == routed.1
                &&& r.1 == (if routed.2 {
                    Some(ProcessError::NoUpstream)
                } else {
                    match read.1 {
                        Some(e) => Some(ProcessError::Message(e)),
                        None => None,
                    }
                })
            }),
    {
        let ghost read = decode_all(data@, 0);
        let ghost all = self.route_all(read.0);
        let mut routed: Vec<RoutedPacket> = Vec::new();
        let mut cursor: usize = 0;
        assert(routes(routed@) + all.1 =~= all.1);
        loop
            invariant
                cursor <= data@.len(),
                self.wf(),
                read == decode_all(data@, 0),
                all == old(self).route_all(read.0),
                read.1 == decode_all(data@, cursor as int).1,
                self.route_all(decode_all(data@, cursor as int).0).0 == all.0,
                routes(routed@) + self.route_all(decode_all(data@, cursor as int).0).1 == all.1,
                self.route_all(decode_all(data@, cursor as int).0).2 == all.2,
            decreases data@.len() - cursor,
        {
            let ghost at = cursor as int;
            let ghost before = routed@;
            let ghost rest = decode_all(data@, at);
            let ghost this = *self;
            proof {
                lemma_decode_advances(data@, at);
            }
            match TunnelMessage::decode_udp_packet(data, &mut cursor) {
                Ok(Some((peer, payload))) => {
                    proof {
                        assert(rest.0[0] == (peer, payload@));
                        assert(rest.0.drop_first() =~= decode_all(data@, cursor as int).0);
                    }
                    let route = match peer {
                        Some(peer) => if self.upstream_addr.is_some() || self.connected == Some(
                            peer,
                        ) {
                            Route::Send
                        } else {
                            Route::Connect(peer)
                        },
                        None => if self.connected.is_some() {
                            Route::Send
                        } else {
                            assert(routes(routed@) + Seq::<(Route, Seq<u8>)>::empty() =~= routes(
                                routed@,
                            ));
                            return (routed, Some(ProcessError::NoUpstream));
                        },
                    };
                    if let Route::Connect(addr) = route {
                        self.connected = Some(addr);
                    }
                    let mut copy: Vec<u8> = Vec::new();
                    push_bytes(&mut copy, payload);
                    routed.push(RoutedPacket { route, payload: copy });
                    proof {
                        assert(*self == this.routed(route));
                        assert(routes(routed@) =~= routes(before).push((route, payload@)));
                        let tail = self.route_all(decode_all(data@, cursor as int).0);
                        assert(routes(routed@) + tail.1 =~= routes(before) + this.route_all(
                            rest.0,
                        ).1);
                    }
                },
                Ok(None) => {
                    assert(routes(routed@) + Seq::<(Route, Seq<u8>)>::empty() =~= routes(routed@));
                    return (routed, None);
                },
                Err(e) => {
                    assert(routes(routed@) + Seq::<(Route, Seq<u8>)>::empty() =~= routes(routed@));
                    return (routed, Some(ProcessError::Message(e)));
                },
            }
        }
    }
}

/// What routed packets say.
pub open spec fn routes(packets: Seq<RoutedPacket>) -> Seq<(Route, Seq<u8>)> {
    packets.map_values(|p: RoutedPacket| (p.route, p.payload@))
}

/// Where the upstream is fixed, every packet goes there, whatever peer it names.
pub proof fn fixed_upstream_takes_all(accepting: UdpAccepting, packets: Packets)
    requires
        accepting.wf(),
        accepting.upstream_addr is Some,
    ensures
        accepting.route_all(packets).0 == accepting,
        accepting.route_all(packets).1 == packets.map_values(
            |p: (Option<SocketAddr>, Seq<u8>)| (Route::Send, p.1),
        ),
        !accepting.route_all(packets).2,
    decreases packets.len(),
{
    let sent = |p: (Option<SocketAddr>, Seq<u8>)| (Route::Send, p.1);
    if packets.len() > 0 {
        fixed_upstream_takes_all(accepting, packets.drop_first());
        assert(packets.map_values(sent) =~= seq![sent(packets[0])]
            + packets.drop_first().map_values(sent));
    } else {
        assert(packets.map_values(sent) =~= Seq::empty());
    }
}

/// Without a fixed upstream a packet that names a peer goes to that peer.
pub proof fn named_peer_is_reached(accepting: UdpAccepting, peer: SocketAddr)
    requires
        accepting.upstream_addr is None,
    ensures
        accepting.route(Some(peer)) is Some,
        accepting.routed(accepting.route(Some(peer))->0).connected == Some(peer),
{
}

/// What came of reading from a stream or a socket within the timeout.
#[derive(Clone, Copy, Debug, PartialEq, Eq, Structural)]
pub enum ReadOutcome {
    Read,
    Failed,
    TimedOut,
}

/// What came of trying to send a datagram.
#[derive(Clone, Copy, Debug, PartialEq, Eq, Structural)]
pub enum TrySend {
    /// This many bytes were taken.
    Sent(usize),
    /// The socket is not ready.
    WouldBlock,
    Failed,
}

/// What to do about a datagram.
#[derive(Clone, Copy, Debug, PartialEq, Eq, Structural)]
pub enum SendStep {
    /// Nothing more.
    Done,
    /// Wait until the socket is ready, and try again.
    Wait,
    /// Give up: only this many bytes were taken.
    Partial(usize),
    /// Give up.
    Failed,
}

impl UdpTunnel {
    /// Starts the receiving side; a socket to the fixed upstream is needed right away.
    pub fn start_accepting(upstream_addr: Option<SocketAddr>) -> (r: UdpAccepting)
        ensures
            r == (UdpAccepting { upstream_addr, connected: upstream_addr }),
            r.wf(),
    {
        UdpAccepting { upstream_addr, connected: upstream_addr }
    }

    /// Whether to read on, given what came of reading; a stream that was read from is in use.
    pub fn keeps_reading(
        outcome: ReadOutcome,
        activity: &mut Activity,
        now: u64,
        timeout_ms: u64,
    ) -> (r: bool)
        ensures
            r == (match outcome {
                ReadOutcome::Read => true,
                ReadOutcome::Failed => false,
                ReadOutcome::TimedOut => crate::udp_tunnel::elapsed(old(activity).last, now)
                    < timeout_ms * 1000000,
            }),
            *final(activity) == (if outcome == ReadOutcome::Read {
                Activity { last: now }
            } else {
                *old(activity)
            }),
    {
        match outcome {
            ReadOutcome::Read => {
                activity.touch(now);
                true
            },
            ReadOutcome::Failed => false,
            ReadOutcome::TimedOut => !activity.is_expired(now, timeout_ms),
        }
    }

    /// What to do about a datagram of `len` bytes, given what came of trying to send it.
    pub fn send_connected_udp(outcome: TrySend, len: usize) -> (r: SendStep)
        ensures
            r == (match outcome {
                TrySend::Sent(written) => if written == len {
                    SendStep::Done
                } else {
                    SendStep::Partial(written)
                },
                TrySend::WouldBlock => SendStep::Wait,
                TrySend::Failed => SendStep::Failed,
            }),
    {
        match outcome {
            TrySend::Sent(written) => if written == len {
                SendStep::Done
            } else {
                SendStep::Partial(written)
            },
            TrySend::WouldBlock => SendStep::Wait,
            TrySend::Failed => SendStep::Failed,
        }
    }
}

/// What the side that takes a peer's answers back is about.
#[derive(Clone, Copy, Debug, PartialEq, Eq, Structural)]
pub enum ForwardPhase {
    /// It waits for a datagram.
    Receiving,
    /// It fills a batch.
    Filling,
    /// It writes a batch.
    Writing,
    /// It has ended.
    Finished,
}

/// What happened to the side that takes a peer's answers back.
pub enum ForwardEvent {
    /// The socket is no longer needed.
    Shutdown,
    /// This datagram came.
    Received(Vec<u8>),
    /// The socket failed.
    ReceiveFailed,
    /// No datagram came in time; whether the stream has expired.
    TimedOut(bool),
    /// This datagram was there right away; nothing where none was.
    TryReceived(Option<Vec<u8>>),
    /// The batch has been written, or could not be.
    Written(bool),
}

/// What the side that takes a peer's answers back is to do.
pub enum ForwardAction {
    /// Wait for a datagram, for the end of the timeout or for the shutdown.
    Receive,
    /// Look whether there is another datagram.
    TryReceive,
    /// Write this to the stream.
    Write(Vec<u8>),
    /// End.
    Quit,
}

/// What `ForwardAction` says; a batch by its packets.
#[verifier::ext_equal]
pub enum ForwardActionView {
    Receive,
    TryReceive,
    Write(Packets),
    Quit,
}

impl ForwardAction {
    /// Whether the action is the given one.
    pub open spec fn means(self, view: ForwardActionView) -> bool {
        match (self, view) {
            (ForwardAction::Receive, ForwardActionView::Receive) => true,
            (ForwardAction::TryReceive, ForwardActionView::TryReceive) => true,
            (ForwardAction::Write(data), ForwardActionView::Write(packets)) => data@ == udp_batch(
                packets,
            ),
            (ForwardAction::Quit, ForwardActionView::Quit) => true,
            _ => false,
        }
    }
}

/// The side that takes a peer's answers back to the stream.
pub struct UdpForwarding {
    phase: ForwardPhase,
    write_batch: UdpBatch,
}

/// What that side knows.
#[verifier::ext_equal]
pub struct UdpForwardingView {
    pub phase: ForwardPhase,
    /// The packets in the batch.
    pub packets: Packets,
    /// How many packets have been offered to the batch.
    pub count: nat,
}

impl View for UdpForwarding {
    type V = UdpForwardingView;

    closed spec fn view(&self) -> UdpForwardingView {
        UdpForwardingView {
            phase: self.phase,
            packets: self.write_batch.packets(),
            count: self.write_batch.count(),
        }
    }
}

/// The packets of a batch with one more, unless it is too long.
pub open spec fn with_datagram(packets: Packets, data: Seq<u8>) -> Packets {
    if data.len() <= u16::MAX {
        packets.push((None, data))
    } else {
        packets
    }
}

impl UdpForwardingView {
    pub open spec fn to(self, phase: ForwardPhase, action: ForwardActionView) -> (
        UdpForwardingView,
        ForwardActionView,
    ) {
        (UdpForwardingView { phase, ..self }, action)
    }

    /// Writes the batch.
    pub open spec fn write(self) -> (UdpForwardingView, ForwardActionView) {
        (
            UdpForwardingView {
                phase: ForwardPhase::Writing,
                packets: Seq::empty(),
                count: 0,
            },
            ForwardActionView::Write(self.packets),
        )
    }

    /// Goes on filling the batch while it has room, and writes it otherwise.
    pub open spec fn fill_or_write(self) -> (UdpForwardingView, ForwardActionView) {
        if 4 + udp_frames(self.packets).len() < UDP_WRITE_BATCH_BYTES && self.count
            < UDP_WRITE_BATCH_PACKETS {
            self.to(ForwardPhase::Filling, ForwardActionView::TryReceive)
        } else {
            self.write()
        }
    }

    /// The batch holds packets only while it is filled.
    pub open spec fn inv(self) -> bool {
        self.packets.len() > 0 ==> self.phase == ForwardPhase::Filling
    }

    /// Whether the event can happen in this phase.
    pub open spec fn may_see(self, event: ForwardEvent) -> bool {
        match event {
            ForwardEvent::Shutdown => self.phase == ForwardPhase::Receiving,
            ForwardEvent::Received(_) => self.phase == ForwardPhase::Receiving,
            ForwardEvent::ReceiveFailed => self.phase == ForwardPhase::Receiving,
            ForwardEvent::TimedOut(_) => self.phase == ForwardPhase::Receiving,
            ForwardEvent::TryReceived(_) => self.phase == ForwardPhase::Filling,
            ForwardEvent::Written(_) => self.phase == ForwardPhase::Writing,
        }
    }

    /// What an event leads to, and what to do.
    pub open spec fn after(self, event: ForwardEvent) -> (UdpForwardingView, ForwardActionView) {
        match event {
            ForwardEvent::Shutdown => self.to(ForwardPhase::Finished, ForwardActionView::Quit),
            ForwardEvent::ReceiveFailed => self.to(ForwardPhase::Finished, ForwardActionView::Quit),
            ForwardEvent::TimedOut(expired) => if expired {
                self.to(ForwardPhase::Finished, ForwardActionView::Quit)
            } else {
                self.to(ForwardPhase::Receiving, ForwardActionView::Receive)
            },
            ForwardEvent::Received(data) => {
                let started = UdpForwardingView {
                    packets: with_datagram(Seq::empty(), data@),
                    count: 1,
                    ..self
                };
                if data@.len() <= u16::MAX {
                    started.fill_or_write()
                } else {
                    started.to(ForwardPhase::Receiving, ForwardActionView::Receive)
                }
            },
            ForwardEvent::TryReceived(Some(data)) => (UdpForwardingView {
                packets: with_datagram(self.packets, data@),
                count: self.count + 1,
                ..self
            }).fill_or_write(),
            ForwardEvent::TryReceived(None) => self.write(),
            ForwardEvent::Written(written) => if written {
                self.to(ForwardPhase::Receiving, ForwardActionView::Receive)
            } else {
                self.to(ForwardPhase::Finished, ForwardActionView::Quit)
            },
        }
    }
}

impl UdpForwarding {
    /// The batch is one that can be sent, and has room while it is filled.
    pub closed spec fn batch_wf(self) -> bool {
        &&& self.write_batch.wf()
        &&& self.phase == ForwardPhase::Filling ==> self.write_batch.room()
    }

    pub open spec fn wf(self) -> bool {
        self.batch_wf() && self@.inv()
    }

    fn write(&mut self) -> (r: ForwardAction)
        requires
            old(self).write_batch.wf(),
        ensures
            final(self).batch_wf(),
            final(self)@ == old(self)@.write().0,
            r.means(old(self)@.write().1),
    {
        let data = self.write_batch.finish();
        self.phase = ForwardPhase::Writing;
        ForwardAction::Write(data)
    }

    fn fill_or_write(&mut self) -> (r: ForwardAction)
        requires
            old(self).write_batch.wf(),
        ensures
            final(self).batch_wf(),
            final(self)@ == old(self)@.fill_or_write().0,
            r.means(old(self)@.fill_or_write().1),
    {
        if self.write_batch.has_room() {
            self.phase = ForwardPhase::Filling;
            ForwardAction::TryReceive
        } else {
            self.write()
        }
    }

    /// Starts taking answers back.
    pub fn udp_to_quic() -> (r: (UdpForwarding, ForwardAction))
        ensures
            r.0.wf(),
            r.0@ == (UdpForwardingView {
                phase: ForwardPhase::Receiving,
                packets: Seq::empty(),
                count: 0,
            }),
            r.1.means(ForwardActionView::Receive),
    {
        (
            UdpForwarding { phase: ForwardPhase::Receiving, write_batch: UdpBatch::new() },
            ForwardAction::Receive,
        )
    }

    /// Takes note of an event and tells what to do.
    pub fn step(&mut self, event: ForwardEvent) -> (r: ForwardAction)
        requires
            old(self).wf(),
            old(self)@.may_see(event),
        ensures
            final(self).wf(),
            final(self)@ == old(self)@.after(event).0,
            r.means(old(self)@.after(event).1),
    {
        match event {
            ForwardEvent::Shutdown => {
                self.phase = ForwardPhase::Finished;
                ForwardAction::Quit
            },
            ForwardEvent::ReceiveFailed => {
                self.phase = ForwardPhase::Finished;
                ForwardAction::Quit
            },
            ForwardEvent::TimedOut(expired) => if expired {
                self.phase = ForwardPhase::Finished;
                ForwardAction::Quit
            } else {
                ForwardAction::Receive
            },
            ForwardEvent::Received(data) => {
                self.write_batch.start();
                match self.write_batch.add(None, data.as_slice()) {
                    Ok(()) => self.fill_or_write(),
                    Err(_) => ForwardAction::Receive,
                }
            },
            ForwardEvent::TryReceived(received) => match received {
                Some(data) => {
                    let _ = self.write_batch.add(None, data.as_slice());
                    self.fill_or_write()
                },
                None => self.write(),
            },
            ForwardEvent::Written(written) => if written {
                self.phase = ForwardPhase::Receiving;
                ForwardAction::Receive
            } else {
                self.phase = ForwardPhase::Finished;
                ForwardAction::Quit
            },
        }
    }
}

/// The datagram that comes with an event.
pub open spec fn datagram(event: ForwardEvent) -> Packets {
    match event {
        ForwardEvent::Received(data) => seq![(None, data@)],
        ForwardEvent::TryReceived(Some(data)) => seq![(None, data@)],
        _ => Seq::empty(),
    }
}

/// The packets that an action writes.
pub open spec fn written_by(action: ForwardActionView) -> Packets {
    match action {
        ForwardActionView::Write(packets) => packets,
        _ => Seq::empty(),
    }
}

/// Answers that are short enough leave in the order in which they came; none is lost and none is
/// doubled.
pub proof fn answers_keep_their_order(view: UdpForwardingView, event: ForwardEvent)
    requires
        view.inv(),
        view.may_see(event),
        datagram(event).len() > 0 ==> datagram(event)[0].1.len() <= u16::MAX,
    ensures
        written_by(view.after(event).1) + view.after(event).0.packets == view.packets + datagram(
            event,
        ),
{
    assert(written_by(view.after(event).1) + view.after(event).0.packets =~= view.packets
        + datagram(event));
}

} // verus!
