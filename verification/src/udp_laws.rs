//! Where UDP packets go: onto the stream of the local address they came from, and back.

use crate::addr::SocketAddr;
use crate::hash_tables::{addr_key, lemma_addr_key_injective, lookup};
use crate::tunnel_message::{be32, udp_frames, wire_addr, wire_packets, MessageError};
use crate::udp_accept::{
    fixed_upstream_takes_all, routes, ForwardAction, ForwardActionView, ForwardEvent,
    ProcessError, ReadOutcome, Route, RoutedPacket, SendStep, TrySend, UdpAccepting, UdpForwarding,
    UdpForwardingView,
};
use crate::udp_batch::{batch_reads_back, sendable, udp_batch, Packets, UdpBatch};
use crate::udp_server::{UdpMessage, UdpPacket};
use crate::udp_tunnel::{
    arriving, Activity, StreamOpened, TryReceived, UdpAction, UdpActionView, UdpEvent, UdpPhase,
    UdpServing, UdpServingView, UdpTunnel,
};
use vstd::prelude::*;

verus! {

/// The stream that a local address has, if it has one.
pub open spec fn stream_for(view: UdpServingView, local_addr: SocketAddr) -> Option<usize> {
    lookup(view.streams, addr_key(Some(local_addr)))
}

/// How many packets are in the batch after an event, counting those that are written right then.
pub open spec fn batched_after(view: UdpServingView, event: UdpEvent) -> nat {
    match view.after(event).1 {
        UdpActionView::Write(_, packets) => packets.len(),
        _ => view.after(event).0.packets.len(),
    }
}

/// The local addresses from which the packets of the batch came, where `origins` are those before
/// the event: a batch that has grown has taken in the packet that just came, that was waiting for
/// its stream or that was kept back.
pub open spec fn origins_after(
    view: UdpServingView,
    event: UdpEvent,
    origins: Seq<SocketAddr>,
) -> Seq<SocketAddr> {
    if batched_after(view, event) <= origins.len() {
        origins.take(batched_after(view, event) as int)
    } else {
        match arriving(event) {
            Some(packet) => origins.push(packet.local_addr),
            None => match view.held {
                Some(packet) => origins.push(packet.local_addr),
                None => origins.push(view.pending->0.local_addr),
            },
        }
    }
}

/// All packets of a batch came from one local address.
pub open spec fn all_from(origins: Seq<SocketAddr>, local_addr: SocketAddr) -> bool {
    forall|i: int| 0 <= i < origins.len() ==> #[trigger] origins[i] == local_addr
}

/// Every packet that is written to a stream came from the local address for which that stream was
/// opened or looked up. While a batch is filled for a local address, all its packets came from
/// there, and so it stays, whatever happens next.
pub proof fn batch_has_one_origin(view: UdpServingView, event: UdpEvent, origins: Seq<SocketAddr>)
    requires
        view.inv(),
        view.may_see(event),
        origins.len() == view.packets.len(),
        view.phase matches UdpPhase::Filling(_, local_addr) ==> all_from(origins, local_addr),
    ensures
        ({
            let (view1, action) = view.after(event);
            let origins1 = origins_after(view, event, origins);
            &&& origins1.len() == batched_after(view, event)
            &&& view1.phase matches UdpPhase::Filling(stream, local_addr) ==> all_from(
                origins1,
                local_addr,
            ) && (view.phase == UdpPhase::Filling(stream, local_addr) || stream_for(
                view1,
                local_addr,
            ) == Some(stream))
            &&& action matches UdpActionView::Write(stream, _) ==> {
                &&& view1.phase is Writing
                &&& all_from(origins1, view1.phase->Writing_0)
                &&& view.phase == UdpPhase::Filling(stream, view1.phase->Writing_0) || stream_for(
                    view1,
                    view1.phase->Writing_0,
                ) == Some(stream)
            }
        }),
{
}

/// A packet from another local address ends the batch that is being filled: the batch is written
/// as it is, and the packet is kept back, whether or not its own address has a stream. A packet
/// from the same address never ends it unless it makes the batch full.
pub proof fn other_addresses_wait(
    view: UdpServingView,
    packet: UdpPacket,
    stream: usize,
    local_addr: SocketAddr,
)
    requires
        view.phase == UdpPhase::Filling(stream, local_addr),
    ensures
        ({
            let event = UdpEvent::TryReceived(TryReceived::Message(UdpMessage::Packet(packet)));
            let (view1, action) = view.after(event);
            let item = (packet.peer_addr, packet.payload@);
            let more = if packet.payload@.len() <= 65535 {
                view.packets.push(item)
            } else {
                view.packets
            };
            let full = 4 + udp_frames(more).len() >= 65536 || view.count + 1 >= 64;
            &&& view1.streams == view.streams
            &&& packet.local_addr != local_addr ==> {
                &&& action == UdpActionView::Write(stream, view.packets)
                &&& view1.pending == Some(packet@)
                &&& view1.packets.len() == 0
                &&& view1.phase == UdpPhase::Writing(local_addr)
            }
            &&& packet.local_addr == local_addr ==> view1.pending == view.pending
            &&& packet.local_addr == local_addr && !full ==> {
                &&& action is TryReceive
                &&& view1.packets == more
                &&& view1.phase == view.phase
            }
            &&& packet.local_addr == local_addr && full ==> {
                &&& action == UdpActionView::Write(stream, more)
                &&& view1.packets.len() == 0
                &&& view1.phase == UdpPhase::Writing(local_addr)
            }
        }),
{
}

/// A packet that is taken on goes to the stream that its local address has; where it has none,
/// one is opened for that very address and the packet waits for it.
pub proof fn packet_goes_to_its_stream(view: UdpServingView, packet: UdpPacket)
    requires
        view.inv(),
        view.phase is Receiving,
    ensures
        ({
            let (view1, action) = view.after(
                UdpEvent::Received(Some(UdpMessage::Packet(packet))),
            );
            let short = packet.payload@.len() <= 65535;
            let item = (packet.peer_addr, packet.payload@);
            &&& view1.streams == view.streams
            &&& match stream_for(view, packet.local_addr) {
                Some(stream) => {
                    &&& !short ==> action is Receive && view1.packets.len() == 0
                    &&& short ==> {
                        ||| view1.phase == UdpPhase::Filling(stream, packet.local_addr)
                            && view1.packets == seq![item] && action is TryReceive
                        ||| action == UdpActionView::Write(stream, seq![item])
                            && 4 + udp_frames(seq![item]).len() >= 65536
                    }
                },
                None => {
                    &&& action == UdpActionView::Open(packet.local_addr)
                    &&& view1.held == Some(packet@)
                    &&& view1.phase is Opening
                },
            }
        }),
{
    let item = (packet.peer_addr, packet.payload@);
    assert(Seq::empty().push(item) =~= seq![item]);
}

/// A stream that has been opened belongs to the local address of the packet that waited for it,
/// and that packet is the first on it. All other local addresses keep the streams they have.
pub proof fn opened_stream_belongs_to_its_address(
    view: UdpServingView,
    stream: usize,
    other: SocketAddr,
)
    requires
        view.inv(),
        view.phase is Opening,
    ensures
        ({
            let packet = view.held->0;
            let (view1, action) = view.after(UdpEvent::Opened(StreamOpened::Stream(stream)));
            let item = (packet.peer_addr, packet.payload);
            &&& stream_for(view1, packet.local_addr) == Some(stream)
            &&& other != packet.local_addr ==> stream_for(view1, other) == stream_for(view, other)
            &&& view1.held is None
            &&& packet.payload.len() > 65535 ==> action is Receive && view1.packets.len() == 0
            &&& packet.payload.len() <= 65535 ==> {
                ||| view1.phase == UdpPhase::Filling(stream, packet.local_addr) && view1.packets
                    == seq![item] && action is TryReceive
                ||| action == UdpActionView::Write(stream, seq![item]) && 4 + udp_frames(
                    seq![item],
                ).len() >= 65536
            }
        }),
{
    let packet = view.held->0;
    let item = (packet.peer_addr, packet.payload);
    assert(Seq::empty().push(item) =~= seq![item]);
    if addr_key(Some(other)) == addr_key(Some(packet.local_addr)) {
        lemma_addr_key_injective(Some(other), Some(packet.local_addr));
    }
}

/// A stream that could not be written to is forgotten, and no other is. What was kept back is
/// taken on next; where nothing was, the next packet is awaited; after the last batch, the end
/// comes.
pub proof fn failed_stream_is_forgotten(
    view: UdpServingView,
    written: bool,
    local_addr: SocketAddr,
    other: SocketAddr,
)
    requires
        view.inv(),
        view.phase == UdpPhase::Writing(local_addr),
    ensures
        ({
            let (view1, action) = view.after(UdpEvent::Written(written));
            &&& !written ==> stream_for(view1, local_addr) is None
            &&& written || other != local_addr ==> stream_for(view1, other) == stream_for(
                view,
                other,
            )
            &&& view1.pending is None
            &&& view.should_quit <==> action is Quit
            &&& view.pending is None ==> (action is Receive <==> !view.should_quit)
            &&& view.pending matches Some(packet) ==> {
                &&& action is Open ==> action->Open_0 == packet.local_addr && view1.held == Some(
                    packet,
                ) && stream_for(view1, packet.local_addr) is None
                &&& view1.phase is Filling ==> view1.packets == seq![
                    (packet.peer_addr, packet.payload),
                ] && view1.phase == UdpPhase::Filling(
                    stream_for(view1, packet.local_addr)->0,
                    packet.local_addr,
                ) && stream_for(view1, packet.local_addr) is Some
                &&& action matches UdpActionView::Write(stream, packets) ==> packets == seq![
                    (packet.peer_addr, packet.payload),
                ] && stream_for(view1, packet.local_addr) == Some(stream)
                &&& action is Receive <==> packet.payload.len() > 65535 && stream_for(
                    view1,
                    packet.local_addr,
                ) is Some
            }
        }),
{
    if addr_key(Some(other)) == addr_key(Some(local_addr)) {
        lemma_addr_key_injective(Some(other), Some(local_addr));
    }
    if let Some(packet) = view.pending {
        let item = (packet.peer_addr, packet.payload);
        assert(Seq::empty().push(item) =~= seq![item]);
    }
}

/// The sending side ends exactly when its channel is closed or tells it to quit, or when the
/// connection is closed; a batch that is being filled then is written first. A stream that merely
/// could not be opened costs the packet that waited for it, and nothing else.
pub proof fn sending_ends_only_when_told(view: UdpServingView, event: UdpEvent)
    requires
        view.inv(),
        view.may_see(event),
    ensures
        ({
            let (view1, action) = view.after(event);
            &&& action is Quit <==> {
                ||| event == UdpEvent::Received(None)
                ||| event == UdpEvent::Received(Some(UdpMessage::Quit))
                ||| event == UdpEvent::Opened(StreamOpened::ConnectionClosed)
                ||| event is Written && view.should_quit
            }
            &&& action is Quit <==> view1.phase is Finished
            &&& event == UdpEvent::TryReceived(TryReceived::Disconnected) || event
                == UdpEvent::TryReceived(TryReceived::Message(UdpMessage::Quit)) ==> {
                &&& view1.should_quit
                &&& action == UdpActionView::Write(view.phase->Filling_0, view.packets)
            }
            &&& event == UdpEvent::TryReceived(TryReceived::Empty) ==> {
                &&& !view1.should_quit
                &&& action == UdpActionView::Write(view.phase->Filling_0, view.packets)
            }
            &&& event == UdpEvent::Opened(StreamOpened::Failed) ==> {
                &&& action is Receive
                &&& view1.streams == view.streams
                &&& view1.held is None
            }
        }),
{
}

/// Where a packet from the tunnel is to go: to the fixed upstream, or else to the peer it names, or
/// else to the peer to which the socket is connected.
pub open spec fn destination(accepting: UdpAccepting, peer: Option<SocketAddr>) -> Option<
    SocketAddr,
> {
    if accepting.upstream_addr is Some {
        accepting.upstream_addr
    } else if peer is Some {
        peer
    } else {
        accepting.connected
    }
}

/// A packet from the tunnel reaches its destination and nothing else: it is sent through the
/// socket that is there only if that one is connected to the destination, and a new socket is
/// connected, to the destination, only if it is not. It goes nowhere only if it has no
/// destination. Afterwards the socket is connected to the destination.
pub proof fn packet_reaches_its_destination(accepting: UdpAccepting, peer: Option<SocketAddr>)
    requires
        accepting.wf(),
    ensures
        ({
            let to = destination(accepting, peer);
            let route = accepting.route(peer);
            &&& route is None <==> to is None
            &&& route == Some(Route::Send) <==> to is Some && accepting.connected == to
            &&& route matches Some(Route::Connect(addr)) ==> to == Some(addr)
                && accepting.connected != to
            &&& route is Some ==> accepting.routed(route->0).connected == to
            &&& route is Some ==> accepting.routed(route->0).upstream_addr
                == accepting.upstream_addr
        }),
{
}

/// The packets of a batch are routed one after another, in order and with the payloads they came
/// with, each from the socket that the one before it left. All are, unless one has no destination:
/// then those before it are.
pub proof fn batch_is_routed_in_order(accepting: UdpAccepting, packets: Packets)
    requires
        accepting.wf(),
    ensures
        ({
            let (last, routed, stuck) = accepting.route_all(packets);
            &&& routed.len() <= packets.len()
            &&& forall|i: int| 0 <= i < routed.len() ==> (#[trigger] routed[i]).1 == packets[i].1
            &&& stuck <==> routed.len() < packets.len()
            &&& stuck ==> destination(last, packets[routed.len() as int].0) is None
            &&& last.upstream_addr == accepting.upstream_addr
            &&& packets.len() > 0 && destination(accepting, packets[0].0) is None ==> stuck
                && routed.len() == 0
            &&& packets.len() > 0 && destination(accepting, packets[0].0) is Some ==> {
                let next = UdpAccepting {
                    connected: destination(accepting, packets[0].0),
                    ..accepting
                };
                &&& routed.len() > 0
                &&& routed[0].0 == (if accepting.connected == next.connected {
                    Route::Send
                } else {
                    Route::Connect(next.connected->0)
                })
                &&& routed.drop_first() == next.route_all(packets.drop_first()).1
                &&& last == next.route_all(packets.drop_first()).0
            }
        }),
    decreases packets.len(),
{
    if packets.len() > 0 {
        packet_reaches_its_destination(accepting, packets[0].0);
        let route = accepting.route(packets[0].0);
        if route is Some {
            let next = accepting.routed(route->0);
            let rest = packets.drop_first();
            batch_is_routed_in_order(next, rest);
            let (last, routed, stuck) = accepting.route_all(packets);
            let after = next.route_all(rest).1;
            assert(routed.drop_first() =~= after);
            assert forall|i: int| 0 <= i < routed.len() implies (#[trigger] routed[i]).1
                == packets[i].1 by {
                if i > 0 {
                    assert(routed[i] == after[i - 1]);
                    assert(rest[i - 1] == packets[i]);
                }
            }
            if stuck {
                assert(rest[after.len() as int] == packets[routed.len() as int]);
            }
        }
    }
}

/// Taking answers back ends exactly when the socket is no longer needed or fails, when the stream
/// has expired or when it cannot be written to. A timeout alone does not end it, and nothing that
/// is in a batch is left behind.
pub proof fn answers_end_only_when_they_must(view: UdpForwardingView, event: ForwardEvent)
    requires
        view.inv(),
        view.may_see(event),
    ensures
        ({
            let (view1, action) = view.after(event);
            &&& action is Quit <==> event is Shutdown || event is ReceiveFailed || event
                == ForwardEvent::TimedOut(true) || event == ForwardEvent::Written(false)
            &&& action is Quit <==> view1.phase is Finished
            &&& action is Receive <==> view1.phase is Receiving
            &&& action is TryReceive <==> view1.phase is Filling
            &&& action is Write <==> view1.phase is Writing
            &&& event == ForwardEvent::TimedOut(false) || event == ForwardEvent::Written(true)
                ==> action is Receive
            &&& event == ForwardEvent::TryReceived(None) ==> action == ForwardActionView::Write(
                view.packets,
            )
            &&& action is Quit ==> view.packets.len() == 0
            &&& view1.inv()
        }),
{
}

/// A datagram joins the batch of answers without a peer address, unless it is too long. The batch
/// is written as soon as it is full, and filled on until then.
pub proof fn answers_are_batched(view: UdpForwardingView, data: Vec<u8>)
    requires
        view.inv(),
        view.phase is Filling,
    ensures
        ({
            let (view1, action) = view.after(ForwardEvent::TryReceived(Some(data)));
            let more = if data@.len() <= 65535 {
                view.packets.push((None, data@))
            } else {
                view.packets
            };
            let full = 4 + udp_frames(more).len() >= 65536 || view.count + 1 >= 64;
            &&& full ==> action == ForwardActionView::Write(more) && view1.packets.len() == 0
            &&& !full ==> action is TryReceive && view1.packets == more && view1.count
                == view.count + 1
        }),
{
}

/// The first datagram starts a batch of its own; one that is too long is dropped, and the next is
/// awaited.
pub proof fn answers_start_a_batch(view: UdpForwardingView, data: Vec<u8>)
    requires
        view.inv(),
        view.phase is Receiving,
    ensures
        ({
            let (view1, action) = view.after(ForwardEvent::Received(data));
            let first: Packets = seq![(None, data@)];
            let full = 4 + udp_frames(first).len() >= 65536;
            &&& data@.len() > 65535 ==> action is Receive && view1.packets.len() == 0
            &&& data@.len() <= 65535 && full ==> action == ForwardActionView::Write(first)
            &&& data@.len() <= 65535 && !full ==> action is TryReceive && view1.packets == first
                && view1.count == 1
        }),
{
    let first: Packets = seq![(None, data@)];
    assert(Seq::empty().push((None::<SocketAddr>, data@)) =~= first);
}

/// What the sending side does about a packet from another local address while it fills a batch: it
/// writes the batch without that packet to the stream of the batch, and keeps the packet back.
pub proof fn step_keeps_other_addresses_apart(
    serving: &mut UdpServing,
    packet: UdpPacket,
    stream: usize,
    local_addr: SocketAddr,
    r: UdpAction,
)
    requires
        call_ensures(
            UdpServing::step,
            (
                serving,
                UdpEvent::TryReceived(TryReceived::Message(UdpMessage::Packet(packet))),
            ),
            r,
        ),
        old(serving)@.phase == UdpPhase::Filling(stream, local_addr),
        packet.local_addr != local_addr,
    ensures
        r is Write,
        r->stream == stream,
        r->data@ == udp_batch(old(serving)@.packets),
        final(serving)@.pending == Some(packet@),
        final(serving)@.packets.len() == 0,
        final(serving)@.streams == old(serving)@.streams,
{
    other_addresses_wait(old(serving)@, packet, stream, local_addr);
}

/// What the sending side does about a packet that it waited for: it opens a stream for the local
/// address of the packet exactly if that address has none; otherwise the packet goes to that
/// stream.
pub proof fn step_opens_streams_for_addresses(
    serving: &mut UdpServing,
    packet: UdpPacket,
    r: UdpAction,
)
    requires
        call_ensures(
            UdpServing::step,
            (serving, UdpEvent::Received(Some(UdpMessage::Packet(packet)))),
            r,
        ),
        old(serving)@.inv(),
        old(serving)@.phase is Receiving,
    ensures
        stream_for(old(serving)@, packet.local_addr) is None <==> r == UdpAction::Open(
            packet.local_addr,
        ),
        stream_for(old(serving)@, packet.local_addr) matches Some(stream) ==> {
            &&& r matches UdpAction::Write { stream: s, .. } ==> s == stream
            &&& final(serving)@.phase matches UdpPhase::Filling(s, a) ==> s == stream && a
                == packet.local_addr
        },
{
    packet_goes_to_its_stream(old(serving)@, packet);
}

/// A local address has a stream exactly if one is recorded for it.
pub proof fn recorded_stream_is_found(
    serving: &UdpServing,
    local_addr: SocketAddr,
    r: Option<usize>,
)
    requires
        call_ensures(UdpServing::stream_of, (serving, local_addr), r),
    ensures
        r == stream_for(serving@, local_addr),
{
}

/// A stream whose responses have ended is forgotten only if it is still the one of its local
/// address, and no other address loses its stream.
pub proof fn ended_stream_is_forgotten(
    serving: &mut UdpServing,
    local_addr: SocketAddr,
    stream: usize,
    other: SocketAddr,
)
    requires
        call_ensures(UdpServing::stream_ended, (serving, local_addr, stream), ()),
    ensures
        stream_for(old(serving)@, local_addr) == Some(stream) ==> stream_for(
            final(serving)@,
            local_addr,
        ) is None,
        stream_for(old(serving)@, local_addr) != Some(stream) ==> stream_for(
            final(serving)@,
            local_addr,
        ) == stream_for(old(serving)@, local_addr),
        other != local_addr ==> stream_for(final(serving)@, other) == stream_for(
            old(serving)@,
            other,
        ),
        final(serving)@.phase == old(serving)@.phase,
        final(serving)@.packets == old(serving)@.packets,
        final(serving)@.pending == old(serving)@.pending,
        final(serving)@.held == old(serving)@.held,
{
    if addr_key(Some(other)) == addr_key(Some(local_addr)) {
        lemma_addr_key_injective(Some(other), Some(local_addr));
    }
}

/// Responses for a local address go to that address, in the order in which they came.
pub proof fn responses_go_back_to_their_address(
    packets: Packets,
    data: &[u8],
    local_addr: SocketAddr,
    r: (Vec<UdpPacket>, Option<MessageError>),
    i: int,
)
    requires
        call_ensures(UdpTunnel::responses, (data, local_addr), r),
        sendable(packets),
        data@ == udp_frames(packets),
    ensures
        r.1 is None,
        r.0@.len() == packets.len(),
        0 <= i < packets.len() ==> r.0@[i].local_addr == local_addr && r.0@[i].payload@
            == packets[i].1 && r.0@[i].peer_addr is None,
{
    batch_reads_back(packets);
    assert(udp_batch(packets).skip(4) =~= udp_frames(packets));
}

/// A stream has expired exactly if it has not been used for the given number of milliseconds, on a
/// clock of nanoseconds.
pub proof fn stream_expires_after_its_timeout(
    activity: &Activity,
    now: u64,
    timeout_ms: u64,
    r: bool,
)
    requires
        call_ensures(Activity::is_expired, (activity, now, timeout_ms), r),
    ensures
        now >= activity.last ==> (r <==> now - activity.last >= timeout_ms * 1000000),
        now < activity.last ==> (r <==> timeout_ms == 0),
{
}

/// Reading goes on after every read, which counts as use; after a timeout only while the stream
/// has not expired; never after a failure.
pub proof fn reading_goes_on_while_it_may(
    outcome: ReadOutcome,
    activity: &mut Activity,
    now: u64,
    timeout_ms: u64,
    r: bool,
)
    requires
        call_ensures(UdpTunnel::keeps_reading, (outcome, activity, now, timeout_ms), r),
        now >= old(activity).last,
    ensures
        outcome is Read ==> r && final(activity).last == now,
        outcome is Failed ==> !r,
        outcome is TimedOut ==> (r <==> now - old(activity).last < timeout_ms * 1000000),
        !(outcome is Read) ==> final(activity).last == old(activity).last,
{
}

/// A datagram counts as sent only if all of it was taken, and is tried again only if the socket
/// was not ready.
pub proof fn datagram_is_sent_whole(outcome: TrySend, len: usize, r: SendStep)
    requires
        call_ensures(UdpTunnel::send_connected_udp, (outcome, len), r),
    ensures
        r is Done <==> outcome == TrySend::Sent(len),
        r is Wait <==> outcome is WouldBlock,
        r is Failed <==> outcome is Failed,
        r matches SendStep::Partial(written) ==> outcome == TrySend::Sent(written) && written
            != len,
{
}

/// The receiving side starts with a socket to the fixed upstream, if there is one, and with none
/// otherwise.
pub proof fn receiving_starts_at_the_upstream(upstream_addr: Option<SocketAddr>, r: UdpAccepting)
    requires
        call_ensures(UdpTunnel::start_accepting, (upstream_addr,), r),
    ensures
        r.upstream_addr == upstream_addr,
        r.connected == upstream_addr,
{
}

/// The packets of a batch from the tunnel are routed in order and whole: where the upstream is
/// fixed, all through the socket that is there; otherwise each to the peer it names, by a new
/// socket only where that is another peer than before.
pub proof fn received_batch_is_routed(
    accepting: &mut UdpAccepting,
    data: &[u8],
    packets: Packets,
    r: (Vec<RoutedPacket>, Option<ProcessError>),
    i: int,
)
    requires
        call_ensures(UdpAccepting::process, (accepting, data), r),
        old(accepting).wf(),
        sendable(packets),
        data@ == udp_frames(packets),
    ensures
        r.0@.len() <= packets.len(),
        0 <= i < r.0@.len() ==> r.0@[i].payload@ == packets[i].1,
        r.1 is None <==> r.0@.len() == packets.len(),
        r.1 is Some ==> r.1 == Some(ProcessError::NoUpstream),
        old(accepting).upstream_addr is Some ==> r.1 is None && final(accepting).connected
            == old(accepting).connected,
        old(accepting).upstream_addr is Some && 0 <= i < r.0@.len() ==> r.0@[i].route
            == Route::Send,
        packets.len() > 0 && old(accepting).upstream_addr is None ==> {
            &&& packets[0].0 is None && old(accepting).connected is None ==> r.0@.len() == 0
            &&& packets[0].0 is None && old(accepting).connected is Some ==> r.0@.len() > 0
                && r.0@[0].route == Route::Send
            &&& packets[0].0 is Some && wire_addr(packets[0].0) == old(accepting).connected
                ==> r.0@.len() > 0 && r.0@[0].route == Route::Send
            &&& packets[0].0 is Some && wire_addr(packets[0].0) != old(accepting).connected
                ==> r.0@.len() > 0 && r.0@[0].route == Route::Connect(wire_addr(packets[0].0)->0)
        },
{
    batch_reads_back(packets);
    assert(udp_batch(packets).skip(4) =~= udp_frames(packets));
    let read = wire_packets(packets);
    let routed = old(accepting).route_all(read).1;
    batch_is_routed_in_order(*old(accepting), read);
    assert(routes(r.0@) == routed);
    assert(routes(r.0@).len() == r.0@.len());
    if 0 <= i < r.0@.len() {
        assert(routed[i] == (r.0@[i].route, r.0@[i].payload@));
        assert(read[i].1 == packets[i].1);
    }
    if old(accepting).upstream_addr is Some {
        fixed_upstream_takes_all(*old(accepting), read);
    }
    if packets.len() > 0 {
        assert(read[0].0 == wire_addr(packets[0].0));
        if r.0@.len() > 0 {
            assert(routed[0] == (r.0@[0].route, r.0@[0].payload@));
        }
    }
}

/// What the side that takes answers back does: it writes what it has collected as one batch once
/// nothing more is there, and ends only with its socket, its stream or their timeout.
pub proof fn answers_are_written_back(
    forwarding: &mut UdpForwarding,
    event: ForwardEvent,
    r: ForwardAction,
)
    requires
        call_ensures(UdpForwarding::step, (forwarding, event), r),
        old(forwarding)@.inv(),
        old(forwarding)@.may_see(event),
    ensures
        r is Quit <==> event is Shutdown || event is ReceiveFailed || event
            == ForwardEvent::TimedOut(true) || event == ForwardEvent::Written(false),
        event == ForwardEvent::TryReceived(None) ==> r is Write && r->Write_0@ == udp_batch(
            old(forwarding)@.packets,
        ) && final(forwarding)@.packets.len() == 0,
        event == ForwardEvent::TimedOut(false) || event == ForwardEvent::Written(true)
            ==> r is Receive,
{
    answers_end_only_when_they_must(old(forwarding)@, event);
}

/// A stream that has just been opened or touched is in use now.
pub proof fn touching_is_using(fresh: Activity, activity: &mut Activity, now: u64)
    requires
        call_ensures(Activity::new, (now,), fresh),
        call_ensures(Activity::touch, (activity, now), ()),
    ensures
        fresh.last == now,
        final(activity).last == now,
{
}

/// The sending side starts with nothing: no stream, no packet, waiting for the first one.
pub proof fn sending_starts_empty(r: (UdpServing, UdpAction), addr: SocketAddr)
    requires
        call_ensures(UdpTunnel::start_serving, (), r),
    ensures
        r.1 is Receive,
        r.0@.phase is Receiving,
        r.0@.packets.len() == 0,
        r.0@.pending is None,
        r.0@.held is None,
        !r.0@.should_quit,
        stream_for(r.0@, addr) is None,
{
}

/// A batch takes packets while it is shorter than 65536 bytes and has been offered fewer than 64 of
/// them; it keeps those it takes in order, refuses one that is too long, and is empty once it has
/// been handed over.
pub proof fn batch_collects_until_full(
    fresh: UdpBatch,
    batch: &UdpBatch,
    room: bool,
    growing: &mut UdpBatch,
    peer: Option<SocketAddr>,
    payload: &[u8],
    added: Result<(), MessageError>,
    finished: &mut UdpBatch,
    data: Vec<u8>,
)
    requires
        call_ensures(UdpBatch::new, (), fresh),
        call_ensures(UdpBatch::has_room, (batch,), room),
        call_ensures(UdpBatch::add, (growing, peer, payload), added),
        call_ensures(UdpBatch::finish, (finished,), data),
    ensures
        fresh.packets().len() == 0 && fresh.count() == 0,
        room <==> 4 + udp_frames(batch.packets()).len() < 65536 && batch.count() < 64,
        added is Ok <==> payload@.len() <= 65535,
        added is Ok ==> final(growing).packets() == old(growing).packets().push((peer, payload@)),
        added is Err ==> final(growing).packets() == old(growing).packets(),
        final(growing).count() == old(growing).count() + 1,
        data@ == be32(udp_frames(old(finished).packets()).len()) + udp_frames(
            old(finished).packets(),
        ),
        final(finished).packets().len() == 0,
{
}

} // verus!
