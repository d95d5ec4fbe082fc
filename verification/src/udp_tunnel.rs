//! UDP packets over QUIC streams: one stream for each local address, and batches on each stream.

use crate::addr::SocketAddr;
use crate::hash_tables::{
    addr_key, addr_map, addr_map_get, addr_map_insert, addr_map_remove, key_of_addr, lookup,
    new_addr_map, AddrKey,
};
use crate::tunnel_message::{decode_all, push_bytes, udp_frames, MessageError, TunnelMessage};
use crate::udp_batch::{
    udp_batch, Packets, UdpBatch, UDP_WRITE_BATCH_BYTES, UDP_WRITE_BATCH_PACKETS,
};
use crate::udp_server::{UdpMessage, UdpPacket};
use ahash::AHashMap;
use vstd::prelude::*;

verus! {

/// The two sides of a UDP tunnel.
pub struct UdpTunnel;

/// When a stream was last used (ns, on some clock).
#[derive(Clone, Copy, Debug, PartialEq, Eq, Structural)]
pub struct Activity {
    pub last: u64,
}

/// How long ago `last` was; nothing where it lies ahead.
pub open spec fn elapsed(last: u64, now: u64) -> int {
    if now > last {
        now - last
    } else {
        0
    }
}

impl Activity {
    /// Used just now.
    pub fn new(now: u64) -> (r: Activity)
        ensures
            r == (Activity { last: now }),
    {
        Activity { last: now }
    }

    /// Takes note that the stream is used now.
    pub fn touch(&mut self, now: u64)
        ensures
            *final(self) == (Activity { last: now }),
    {
        self.last = now;
    }

    /// Whether the stream has not been used for the given time (ms).
    pub fn is_expired(&self, now: u64, timeout_ms: u64) -> (r: bool)
        ensures
            r == (elapsed(self.last, now) >= timeout_ms * 1000000),
    {
        let elapsed: u64 = if now > self.last {
            now - self.last
        } else {
            0
        };
        elapsed as u128 >= timeout_ms as u128 * 1000000
    }
}

/// A stream that has just been used expires no sooner than its timeout.
pub proof fn touched_stream_lives(touched: u64, now: u64, timeout_ms: u64)
    requires
        timeout_ms > 0,
        now < touched + timeout_ms * 1000000,
    ensures
        elapsed(touched, now) < timeout_ms * 1000000,
{
}

/// A stream that has not been used for its timeout has expired, and stays so until it is used
/// again; the timeout counts milliseconds on a clock of nanoseconds.
pub proof fn unused_stream_expires(touched: u64, now: u64, later: u64, timeout_ms: u64)
    requires
        touched <= now <= later,
    ensures
        elapsed(touched, now) == now - touched,
        now - touched >= timeout_ms * 1000000 <==> elapsed(touched, now) >= timeout_ms * 1000000,
        elapsed(touched, now) >= timeout_ms * 1000000 ==> elapsed(touched, later) >= timeout_ms
            * 1000000,
{
}

/// What `UdpPacket` says.
#[verifier::ext_equal]
pub struct PacketView {
    pub payload: Seq<u8>,
    pub local_addr: SocketAddr,
    pub peer_addr: Option<SocketAddr>,
}

impl View for UdpPacket {
    type V = PacketView;

    open spec fn view(&self) -> PacketView {
        PacketView {
            payload: self.payload@,
            local_addr: self.local_addr,
            peer_addr: self.peer_addr,
        }
    }
}

/// What the sending side is about.
#[derive(Clone, Copy, Debug, PartialEq, Eq, Structural)]
pub enum UdpPhase {
    /// It waits for a packet.
    Receiving,
    /// It opens a stream for the packet it holds.
    Opening,
    /// It fills a batch for the given stream and local address.
    Filling(usize, SocketAddr),
    /// It writes a batch to the stream of the given local address.
    Writing(SocketAddr),
    /// It has ended.
    Finished,
}

/// What opening a stream led to.
#[derive(Clone, Copy, Debug, PartialEq, Eq, Structural)]
pub enum StreamOpened {
    /// This stream.
    Stream(usize),
    /// Nothing, though the connection is up.
    Failed,
    /// Nothing: the connection is closed.
    ConnectionClosed,
}

/// What is in the channel right now.
pub enum TryReceived {
    Message(UdpMessage),
    /// Nothing yet.
    Empty,
    /// Nothing any more.
    Disconnected,
}

/// What happened to the sending side.
pub enum UdpEvent {
    /// This came through the channel; nothing comes where the channel is closed.
    Received(Option<UdpMessage>),
    /// Opening a stream led to this.
    Opened(StreamOpened),
    /// This is in the channel right now.
    TryReceived(TryReceived),
    /// The batch has been written, or could not be.
    Written(bool),
}

/// What the sending side is to do.
pub enum UdpAction {
    /// Wait for a message from the channel.
    Receive,
    /// Open a stream for this local address.
    Open(SocketAddr),
    /// Look what is in the channel right now.
    TryReceive,
    /// Write this to the stream.
    Write { stream: usize, data: Vec<u8> },
    /// End.
    Quit,
}

/// What `UdpAction` says; a batch by its packets.
#[verifier::ext_equal]
pub enum UdpActionView {
    Receive,
    Open(SocketAddr),
    TryReceive,
    Write(usize, Packets),
    Quit,
}

impl UdpAction {
    /// Whether the action is the given one.
    pub open spec fn means(self, view: UdpActionView) -> bool {
        match (self, view) {
            (UdpAction::Receive, UdpActionView::Receive) => true,
            (UdpAction::Open(a), UdpActionView::Open(b)) => a == b,
            (UdpAction::TryReceive, UdpActionView::TryReceive) => true,
            (UdpAction::Write { stream, data }, UdpActionView::Write(s, packets)) => stream == s
                && data@ == udp_batch(packets),
            (UdpAction::Quit, UdpActionView::Quit) => true,
            _ => false,
        }
    }
}

/// The sending side: packets from local addresses go into streams.
pub struct UdpServing {
    phase: UdpPhase,
    streams: AHashMap<AddrKey, usize>,
    pending_packet: Option<UdpPacket>,
    held: Option<UdpPacket>,
    write_batch: UdpBatch,
    should_quit: bool,
}

/// What the sending side knows.
#[verifier::ext_equal]
pub struct UdpServingView {
    pub phase: UdpPhase,
    /// Streams by local address.
    pub streams: Map<AddrKey, usize>,
    /// The packet to go on with after the batch.
    pub pending: Option<PacketView>,
    /// The packet for which a stream is being opened.
    pub held: Option<PacketView>,
    /// The packets in the batch.
    pub packets: Packets,
    /// How many packets have been offered to the batch.
    pub count: nat,
    /// Whether to end after the batch.
    pub should_quit: bool,
}

pub open spec fn packet_view(packet: Option<UdpPacket>) -> Option<PacketView> {
    match packet {
        Some(packet) => Some(packet@),
        None => None,
    }
}

impl View for UdpServing {
    type V = UdpServingView;

    closed spec fn view(&self) -> UdpServingView {
        UdpServingView {
            phase: self.phase,
            streams: addr_map(self.streams),
            pending: packet_view(self.pending_packet),
            held: packet_view(self.held),
            packets: self.write_batch.packets(),
            count: self.write_batch.count(),
            should_quit: self.should_quit,
        }
    }
}

/// Whether a batch takes one more packet.
pub open spec fn room(packets: Packets, count: nat) -> bool {
    4 + udp_frames(packets).len() < UDP_WRITE_BATCH_BYTES && count < UDP_WRITE_BATCH_PACKETS
}

/// The packets of a batch with one more, unless its payload is too long.
pub open spec fn with_packet(packets: Packets, packet: PacketView) -> Packets {
    if packet.payload.len() <= u16::MAX {
        packets.push((packet.peer_addr, packet.payload))
    } else {
        packets
    }
}

impl UdpServingView {
    /// Goes on filling the batch while it has room, and writes it otherwise.
    pub open spec fn fill_or_write(self, stream: usize, local_addr: SocketAddr) -> (
        UdpServingView,
        UdpActionView,
    ) {
        if room(self.packets, self.count) {
            (
                UdpServingView { phase: UdpPhase::Filling(stream, local_addr), ..self },
                UdpActionView::TryReceive,
            )
        } else {
            self.write(stream, local_addr)
        }
    }

    /// Writes the batch.
    pub open spec fn write(self, stream: usize, local_addr: SocketAddr) -> (
        UdpServingView,
        UdpActionView,
    ) {
        (
            UdpServingView {
                phase: UdpPhase::Writing(local_addr),
                packets: Seq::empty(),
                count: 0,
                ..self
            },
            UdpActionView::Write(stream, self.packets),
        )
    }

    /// Waits for a packet.
    pub open spec fn receive(self) -> (UdpServingView, UdpActionView) {
        (UdpServingView { phase: UdpPhase::Receiving, ..self }, UdpActionView::Receive)
    }

    /// Ends.
    pub open spec fn quit(self) -> (UdpServingView, UdpActionView) {
        (UdpServingView { phase: UdpPhase::Finished, ..self }, UdpActionView::Quit)
    }

    /// Starts a batch with a packet; one that is too long is dropped.
    pub open spec fn start_batch(self, stream: usize, packet: PacketView) -> (
        UdpServingView,
        UdpActionView,
    ) {
        let started = UdpServingView {
            packets: with_packet(Seq::empty(), packet),
            count: 1,
            ..self
        };
        if packet.payload.len() <= u16::MAX {
            started.fill_or_write(stream, packet.local_addr)
        } else {
            started.receive()
        }
    }

    /// Takes a packet on: opens a stream for its local address unless there is one.
    pub open spec fn begin(self, packet: PacketView) -> (UdpServingView, UdpActionView) {
        match lookup(self.streams, addr_key(Some(packet.local_addr))) {
            Some(stream) => self.start_batch(stream, packet),
            None => (
                UdpServingView { phase: UdpPhase::Opening, held: Some(packet), ..self },
                UdpActionView::Open(packet.local_addr),
            ),
        }
    }

    /// Goes on with the packet kept back, or waits for one.
    pub open spec fn next(self) -> (UdpServingView, UdpActionView) {
        match self.pending {
            Some(packet) => (UdpServingView { pending: None, ..self }).begin(packet),
            None => self.receive(),
        }
    }

    /// A packet is held while a stream is opened for it and kept back only while a batch is
    /// written after which there is more to do; the batch holds packets only while it is filled.
    pub open spec fn inv(self) -> bool {
        &&& self.held is Some <==> self.phase is Opening
        &&& self.pending is Some ==> self.phase is Writing && !self.should_quit
        &&& self.should_quit ==> self.phase is Writing || self.phase is Finished
        &&& self.packets.len() > 0 ==> self.phase is Filling
    }

    /// Whether the event can happen in this phase.
    pub open spec fn may_see(self, event: UdpEvent) -> bool {
        match event {
            UdpEvent::Received(_) => self.phase is Receiving,
            UdpEvent::Opened(_) => self.phase is Opening,
            UdpEvent::TryReceived(_) => self.phase is Filling,
            UdpEvent::Written(_) => self.phase is Writing,
        }
    }

    /// What an event leads to, and what to do.
    pub open spec fn after(self, event: UdpEvent) -> (UdpServingView, UdpActionView) {
        match (event, self.phase) {
            (UdpEvent::Received(Some(UdpMessage::Packet(packet))), _) => self.begin(packet@),
            (UdpEvent::Received(_), _) => self.quit(),
            (UdpEvent::Opened(StreamOpened::Stream(stream)), _) => {
                let packet = self.held->0;
                (UdpServingView {
                    held: None,
                    streams: self.streams.insert(addr_key(Some(packet.local_addr)), stream),
                    ..self
                }).start_batch(stream, packet)
            },
            (UdpEvent::Opened(StreamOpened::Failed), _) => (UdpServingView {
                held: None,
                ..self
            }).next(),
            (UdpEvent::Opened(StreamOpened::ConnectionClosed), _) => (UdpServingView {
                held: None,
                ..self
            }).quit(),
            (
                UdpEvent::TryReceived(TryReceived::Message(UdpMessage::Packet(packet))),
                UdpPhase::Filling(stream, local_addr),
            ) => if packet.local_addr == local_addr {
                (UdpServingView {
                    packets: with_packet(self.packets, packet@),
                    count: self.count + 1,
                    ..self
                }).fill_or_write(stream, local_addr)
            } else {
                (UdpServingView { pending: Some(packet@), ..self }).write(stream, local_addr)
            },
            (
                UdpEvent::TryReceived(TryReceived::Message(UdpMessage::Quit)),
                UdpPhase::Filling(stream, local_addr),
            ) => (UdpServingView { should_quit: true, ..self }).write(stream, local_addr),
            (
                UdpEvent::TryReceived(TryReceived::Empty),
                UdpPhase::Filling(stream, local_addr),
            ) => self.write(stream, local_addr),
            (
                UdpEvent::TryReceived(TryReceived::Disconnected),
                UdpPhase::Filling(stream, local_addr),
            ) => (UdpServingView { should_quit: true, ..self }).write(stream, local_addr),
            (UdpEvent::Written(written), UdpPhase::Writing(local_addr)) => {
                let kept = if written {
                    self
                } else {
                    UdpServingView {
                        streams: self.streams.remove(addr_key(Some(local_addr))),
                        ..self
                    }
                };
                if self.should_quit {
                    kept.quit()
                } else {
                    kept.next()
                }
            },
            _ => self.quit(),
        }
    }
}

impl UdpServing {
    /// The batch is one that can be sent, and has room while it is filled.
    pub closed spec fn batch_wf(self) -> bool {
        &&& self.write_batch.wf()
        &&& self.phase is Filling ==> self.write_batch.room()
    }

    pub open spec fn wf(self) -> bool {
        self.batch_wf() && self@.inv()
    }

    fn write(&mut self, stream: usize, local_addr: SocketAddr) -> (r: UdpAction)
        requires
            old(self).write_batch.wf(),
        ensures
            final(self).batch_wf(),
            final(self)@ == old(self)@.write(stream, local_addr).0,
            r.means(old(self)@.write(stream, local_addr).1),
    {
        let data = self.write_batch.finish();
        self.phase = UdpPhase::Writing(local_addr);
        UdpAction::Write { stream, data }
    }

    fn fill_or_write(&mut self, stream: usize, local_addr: SocketAddr) -> (r: UdpAction)
        requires
            old(self).write_batch.wf(),
        ensures
            final(self).batch_wf(),
            final(self)@ == old(self)@.fill_or_write(stream, local_addr).0,
            r.means(old(self)@.fill_or_write(stream, local_addr).1),
    {
        if self.write_batch.has_room() {
            self.phase = UdpPhase::Filling(stream, local_addr);
            UdpAction::TryReceive
        } else {
            self.write(stream, local_addr)
        }
    }

    fn start_batch(&mut self, stream: usize, packet: UdpPacket) -> (r: UdpAction)
        requires
            old(self).write_batch.wf(),
        ensures
            final(self).batch_wf(),
            final(self)@ == old(self)@.start_batch(stream, packet@).0,
            r.means(old(self)@.start_batch(stream, packet@).1),
    {
        self.write_batch.start();
        match self.write_batch.add(packet.peer_addr, packet.payload.as_slice()) {
            Ok(()) => self.fill_or_write(stream, packet.local_addr),
            Err(_) => {
                self.phase = UdpPhase::Receiving;
                UdpAction::Receive
            },
        }
    }

    /// The stream for a local address, if there is one.
    pub fn stream_of(&self, local_addr: SocketAddr) -> (r: Option<usize>)
        ensures
            r == lookup(self@.streams, addr_key(Some(local_addr))),
    {
        addr_map_get(&self.streams, &key_of_addr(Some(local_addr)))
    }

    fn open_stream(&mut self, packet: UdpPacket) -> (r: UdpAction)
        requires
            old(self).write_batch.wf(),
        ensures
            final(self).batch_wf(),
            final(self)@ == old(self)@.begin(packet@).0,
            r.means(old(self)@.begin(packet@).1),
    {
        match self.stream_of(packet.local_addr) {
            Some(stream) => self.start_batch(stream, packet),
            None => {
                let local_addr = packet.local_addr;
                self.phase = UdpPhase::Opening;
                self.held = Some(packet);
                UdpAction::Open(local_addr)
            },
        }
    }

    fn next(&mut self) -> (r: UdpAction)
        requires
            old(self).write_batch.wf(),
        ensures
            final(self).batch_wf(),
            final(self)@ == old(self)@.next().0,
            r.means(old(self)@.next().1),
    {
        match self.pending_packet.take() {
            Some(packet) => self.open_stream(packet),
            None => {
                self.phase = UdpPhase::Receiving;
                UdpAction::Receive
            },
        }
    }

    fn quit(&mut self) -> (r: UdpAction)
        requires
            old(self).write_batch.wf(),
        ensures
            final(self).batch_wf(),
            final(self)@ == old(self)@.quit().0,
            r.means(old(self)@.quit().1),
    {
        self.phase = UdpPhase::Finished;
        UdpAction::Quit
    }

    /// Takes note of an event and tells what to do.
    pub fn step(&mut self, event: UdpEvent) -> (r: UdpAction)
        requires
            old(self).wf(),
            old(self)@.may_see(event),
        ensures
            final(self).wf(),
            final(self)@ == old(self)@.after(event).0,
            r.means(old(self)@.after(event).1),
    {
        match event {
            UdpEvent::Received(message) => match message {
                Some(UdpMessage::Packet(packet)) => self.open_stream(packet),
                Some(UdpMessage::Quit) => self.quit(),
                None => self.quit(),
            },
            UdpEvent::Opened(opened) => match self.held.take() {
                Some(packet) => match opened {
                    StreamOpened::Stream(stream) => {
                        addr_map_insert(
                            &mut self.streams,
                            key_of_addr(Some(packet.local_addr)),
                            stream,
                        );
                        self.start_batch(stream, packet)
                    },
                    StreamOpened::Failed => self.next(),
                    StreamOpened::ConnectionClosed => self.quit(),
                },
                None => self.quit(),
            },
            UdpEvent::TryReceived(received) => match self.phase {
                UdpPhase::Filling(stream, local_addr) => match received {
                    TryReceived::Message(UdpMessage::Packet(packet)) => {
                        if packet.local_addr == local_addr {
                            let _ = self.write_batch.add(
                                packet.peer_addr,
                                packet.payload.as_slice(),
                            );
                            self.fill_or_write(stream, local_addr)
                        } else {
                            self.pending_packet = Some(packet);
                            self.write(stream, local_addr)
                        }
                    },
                    TryReceived::Message(UdpMessage::Quit) => {
                        self.should_quit = true;
                        self.write(stream, local_addr)
                    },
                    TryReceived::Empty => self.write(stream, local_addr),
                    TryReceived::Disconnected => {
                        self.should_quit = true;
                        self.write(stream, local_addr)
                    },
                },
                _ => self.quit(),
            },
            UdpEvent::Written(written) => match self.phase {
                UdpPhase::Writing(local_addr) => {
                    if !written {
                        addr_map_remove(&mut self.streams, &key_of_addr(Some(local_addr)));
                    }
                    if self.should_quit {
                        self.quit()
                    } else {
                        self.next()
                    }
                },
                _ => self.quit(),
            },
        }
    }

    /// Forgets a stream whose responses have ended, unless the local address has another one by
    /// now.
    pub fn stream_ended(&mut self, local_addr: SocketAddr, stream: usize)
        requires
            old(self).wf(),
        ensures
            final(self).wf(),
            final(self)@ == (UdpServingView {
                streams: if lookup(old(self)@.streams, addr_key(Some(local_addr))) == Some(
                    stream,
                ) {
                    old(self)@.streams.remove(addr_key(Some(local_addr)))
                } else {
                    old(self)@.streams
                },
                ..old(self)@
            }),
    {
        if let Some(current) = self.stream_of(local_addr) {
            if current == stream {
                addr_map_remove(&mut self.streams, &key_of_addr(Some(local_addr)));
            }
        }
    }
}

/// A packet without its local address.
pub open spec fn item(packet: PacketView) -> (Option<SocketAddr>, Seq<u8>) {
    (packet.peer_addr, packet.payload)
}

/// A packet, if there is one.
pub open spec fn items(packet: Option<PacketView>) -> Packets {
    match packet {
        Some(packet) => seq![item(packet)],
        None => Seq::empty(),
    }
}

/// The packet that comes with an event.
pub open spec fn arriving(event: UdpEvent) -> Option<PacketView> {
    match event {
        UdpEvent::Received(Some(UdpMessage::Packet(packet))) => Some(packet@),
        UdpEvent::TryReceived(TryReceived::Message(UdpMessage::Packet(packet))) => Some(packet@),
        _ => None,
    }
}

/// The packets that an action writes.
pub open spec fn leaving(action: UdpActionView) -> Packets {
    match action {
        UdpActionView::Write(_, packets) => packets,
        _ => Seq::empty(),
    }
}

/// A packet is short enough for a frame.
pub open spec fn fits(packet: Option<PacketView>) -> bool {
    packet matches Some(packet) ==> packet.payload.len() <= u16::MAX
}

/// The packets on their way: in the batch, waiting for a stream, or kept back.
pub open spec fn under_way(view: UdpServingView) -> Packets {
    view.packets + items(view.held) + items(view.pending)
}

/// Packets that are short enough leave in the order in which they came, none is lost and none is
/// doubled, as long as streams can be opened.
pub proof fn packets_keep_their_order(view: UdpServingView, event: UdpEvent)
    requires
        view.inv(),
        view.may_see(event),
        fits(arriving(event)),
        fits(view.held),
        fits(view.pending),
        event matches UdpEvent::Opened(opened) ==> opened is Stream,
    ensures
        leaving(view.after(event).1) + under_way(view.after(event).0) == under_way(view) + items(
            arriving(event),
        ),
{
    assert(leaving(view.after(event).1) + under_way(view.after(event).0) =~= under_way(view)
        + items(arriving(event)));
}

impl UdpTunnel {
    /// Starts the sending side.
    pub fn start_serving() -> (r: (UdpServing, UdpAction))
        ensures
            r.0.wf(),
            r.0@ == (UdpServingView {
                phase: UdpPhase::Receiving,
                streams: Map::empty(),
                pending: None,
                held: None,
                packets: Seq::empty(),
                count: 0,
                should_quit: false,
            }),
            r.1.means(UdpActionView::Receive),
    {
        (
            UdpServing {
                phase: UdpPhase::Receiving,
                streams: new_addr_map(),
                pending_packet: None,
                held: None,
                write_batch: UdpBatch::new(),
                should_quit: false,
            },
            UdpAction::Receive,
        )
    }

    /// The packets of a batch of responses for a local address: all of them, or all before the
    /// first that cannot be read.
    pub fn responses(data: &[u8], local_addr: SocketAddr) -> (r: (
        Vec<UdpPacket>,
        Option<MessageError>,
    ))
        ensures
            packet_views(r.0@) == decode_all(data@, 0).0.map_values(
                |p: (Option<SocketAddr>, Seq<u8>)| response(p, local_addr),
            ),
            r.1 == decode_all(data@, 0).1,
            r.0@.len() == decode_all(data@, 0).0.len(),
            forall|i: int|
                0 <= i < r.0@.len() ==> (#[trigger] r.0@[i]).local_addr == local_addr
                    && r.0@[i].peer_addr is None && r.0@[i].payload@ == decode_all(
                    data@,
                    0,
                ).0[i].1,
    {
        let ghost all = decode_all(data@, 0);
        let ghost to_response = |p: (Option<SocketAddr>, Seq<u8>)| response(p, local_addr);
        let mut packets: Vec<UdpPacket> = Vec::new();
        let mut cursor: usize = 0;
        assert(packet_views(packets@) + all.0.map_values(to_response) =~= all.0.map_values(
            to_response,
        ));
        loop
            invariant
                cursor <= data@.len(),
                all == decode_all(data@, 0),
                to_response == (|p: (Option<SocketAddr>, Seq<u8>)| response(p, local_addr)),
                packet_views(packets@) + decode_all(data@, cursor as int).0.map_values(to_response)
                    == all.0.map_values(to_response),
                all.1 == decode_all(data@, cursor as int).1,
            decreases data@.len() - cursor,
        {
            let ghost at = cursor as int;
            let ghost before = packets@;
            let ghost rest = decode_all(data@, at);
            proof {
                crate::tunnel_message::lemma_decode_advances(data@, at);
            }
            match TunnelMessage::decode_udp_packet(data, &mut cursor) {
                Ok(Some((_, payload))) => {
                    let mut copy: Vec<u8> = Vec::new();
                    push_bytes(&mut copy, payload);
                    packets.push(UdpPacket { payload: copy, local_addr, peer_addr: None });
                    proof {
                        let first = rest.0[0];
                        let tail = decode_all(data@, cursor as int);
                        assert(rest.0 == seq![first] + tail.0);
                        assert(rest.0.map_values(to_response) =~= seq![response(first, local_addr)]
                            + tail.0.map_values(to_response));
                        assert(packet_views(packets@) =~= packet_views(before).push(
                            response(first, local_addr),
                        ));
                        assert(packet_views(packets@) + tail.0.map_values(to_response)
                            =~= packet_views(before) + rest.0.map_values(to_response));
                    }
                },
                Ok(None) => {
                    proof {
                        lemma_all_responses(packets@, all.0, rest.0, local_addr);
                    }
                    return (packets, None);
                },
                Err(e) => {
                    proof {
                        lemma_all_responses(packets@, all.0, rest.0, local_addr);
                    }
                    return (packets, Some(e));
                },
            }
        }
    }
}

/// Packets made of all that was read are as many, with the payloads in the same order.
proof fn lemma_all_responses(
    packets: Seq<UdpPacket>,
    all: Packets,
    rest: Packets,
    local_addr: SocketAddr,
)
    requires
        rest.len() == 0,
        packet_views(packets) + rest.map_values(
            |p: (Option<SocketAddr>, Seq<u8>)| response(p, local_addr),
        ) == all.map_values(|p: (Option<SocketAddr>, Seq<u8>)| response(p, local_addr)),
    ensures
        packet_views(packets) == all.map_values(
            |p: (Option<SocketAddr>, Seq<u8>)| response(p, local_addr),
        ),
        packets.len() == all.len(),
        forall|i: int|
            0 <= i < packets.len() ==> (#[trigger] packets[i])@ == response(all[i], local_addr),
{
    let to_response = |p: (Option<SocketAddr>, Seq<u8>)| response(p, local_addr);
    let made = all.map_values(to_response);
    assert(packet_views(packets) + rest.map_values(to_response) =~= packet_views(packets));
    assert forall|i: int| 0 <= i < packets.len() implies (#[trigger] packets[i])@ == response(
        all[i],
        local_addr,
    ) by {
        assert(packet_views(packets)[i] == made[i]);
    }
}

/// A response from the tunnel as a packet for a local address.
pub open spec fn response(
    packet: (Option<SocketAddr>, Seq<u8>),
    local_addr: SocketAddr,
) -> PacketView {
    PacketView { payload: packet.1, local_addr, peer_addr: None }
}

/// What packets say.
pub open spec fn packet_views(packets: Seq<UdpPacket>) -> Seq<PacketView> {
    packets.map_values(|p: UdpPacket| p@)
}

} // verus!
