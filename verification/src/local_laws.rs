//! What the local servers do with what comes in, and how they end.

use crate::addr::{
    localhost, socket_addr_with_unspecified_ip_port, IpAddr, Ipv4Addr, Ipv6Addr, SocketAddr,
    SocketAddrV4, SocketAddrV6,
};
use crate::config::{TUNNEL_MODE_IN, TUNNEL_MODE_OUT, UDP_PACKET_SIZE};
use crate::handle::{HandleError, HandleState, ShutdownPlan, Wait};
use crate::server::{
    CLEAR_INTERVAL_SECS, CLOSE_PREEMPTED, PREEMPTION_DELAY_MS, PROBE_TIMEOUT_MS,
    RELOAD_INTERVAL_SECS,
};
use crate::tcp_server::{
    SendOutcome, StreamMessage, StreamRequest, TcpServer, SEND_TIMEOUT_MS, TCP_CHANNEL_CAPACITY,
};
use crate::tcp_tunnel::{
    Destination, ServeAction, ServeEvent, ServePhase, TcpServing, TcpTunnel, CONNECT_TIMEOUT_SECS,
    TCP_SOCKET_BUFFER_BYTES,
};
use crate::tunnel_info_bridge::TunnelInfoBridge;
use crate::tunnel_task::{
    CLOSE_SHUTDOWN, CLOSE_TUNNEL_REMOVED, LOGIN_RESPONSE_TIMEOUT_SECS,
    POST_TRAFFIC_DATA_INTERVAL_SECS,
};
use crate::udp_server::{
    UdpMessage, UdpPacket, UdpServer, UDP_CHANNEL_CAPACITY, UDP_SOCKET_BUFFER_BYTES,
};
use crate::watcher::POLL_INTERVAL_MS;
use vstd::prelude::*;

verus! {

/// Shutting a server down touches neither whether it takes traffic nor whether its tasks have
/// ended, and hands the waiting for its tasks out once. Dropping a handle touches nothing but
/// whether the server has been told to end.
pub proof fn shutdown_touches_nothing_else(state: HandleState, owners: nat)
    ensures
        ({
            let (shut, plan) = state.shut();
            let (dropped, signal) = state.dropped(owners);
            &&& shut.terminated
            &&& !shut.tasks
            &&& shut.active == state.active
            &&& shut.completed == state.completed
            &&& plan.wait == Wait::Tasks <==> state.tasks
            &&& plan.wait == Wait::Nothing <==> !state.tasks && state.completed
            &&& plan.wait == Wait::Completion <==> !state.tasks && !state.completed
            &&& plan.signal <==> !state.terminated
            &&& dropped.active == state.active
            &&& dropped.tasks == state.tasks
            &&& dropped.completed == state.completed
            &&& dropped.terminated <==> state.terminated || owners == 1
            &&& signal <==> owners == 1 && !state.terminated
            &&& !HandleState::started().active
            &&& !HandleState::started().terminated
            &&& HandleState::started().tasks
            &&& !HandleState::started().completed
        }),
{
}

/// A connection is handed over while connections are wanted, with no destination of its own; while
/// they are not wanted it is dropped; once the server has been told to end, the receiver is told
/// so instead, whether connections are wanted or not.
pub proof fn accepted_connection_is_handed_over<S, R, T>(
    server: &TcpServer<S, R>,
    stream: T,
    r: Option<StreamMessage<T>>,
)
    requires
        call_ensures(TcpServer::<S, R>::accepted::<T>, (server, stream), r),
    ensures
        server.state().terminated <==> r == Some(StreamMessage::<T>::Quit),
        !server.state().terminated && server.state().active ==> r == Some(
            StreamMessage::Request(StreamRequest { stream, dst_addr: None }),
        ),
        !server.state().terminated && !server.state().active <==> r is None,
{
}

/// A listener ends only when nobody receives any more; a receiver without room does not end it.
pub proof fn listener_outlives_a_full_channel<S, R>(outcome: SendOutcome, r: bool)
    requires
        call_ensures(TcpServer::<S, R>::keeps_listening, (outcome,), r),
    ensures
        !r <==> outcome is Closed,
{
}

/// The receiver of a TCP server can be taken once, and again after it has been put back; while it
/// is taken, connections are wanted, and otherwise they are not.
pub proof fn tcp_receiver_is_taken_and_put_back<S, R>(
    first: &mut TcpServer<S, R>,
    second: &mut TcpServer<S, R>,
    third: &mut TcpServer<S, R>,
    receiver: R,
    taken: Result<R, HandleError>,
    again: Result<R, HandleError>,
)
    requires
        call_ensures(TcpServer::<S, R>::put_receiver, (first, receiver), ()),
        call_ensures(TcpServer::<S, R>::take_receiver, (second,), taken),
        call_ensures(TcpServer::<S, R>::take_receiver, (third,), again),
        *old(second) == *final(first),
        *old(third) == *final(second),
    ensures
        !final(first).state().active,
        taken == Ok::<R, HandleError>(receiver),
        final(second).state().active,
        again == Err::<R, HandleError>(HandleError::ReceiverTaken),
        final(third).spec_addr() == old(first).spec_addr(),
        final(third).sender() == old(first).sender(),
        final(third).state().terminated == old(first).state().terminated,
{
}

/// The receiver of a UDP server can be taken once, and again after it has been put back; while it
/// is taken, packets are wanted, and otherwise they are not.
pub proof fn udp_receiver_is_taken_and_put_back<S, R>(
    first: &mut UdpServer<S, R>,
    second: &mut UdpServer<S, R>,
    third: &mut UdpServer<S, R>,
    receiver: R,
    taken: Result<R, HandleError>,
    again: Result<R, HandleError>,
)
    requires
        call_ensures(UdpServer::<S, R>::put_receiver, (first, receiver), ()),
        call_ensures(UdpServer::<S, R>::take_receiver, (second,), taken),
        call_ensures(UdpServer::<S, R>::take_receiver, (third,), again),
        *old(second) == *final(first),
        *old(third) == *final(second),
    ensures
        !final(first).state().active,
        taken == Ok::<R, HandleError>(receiver),
        final(second).state().active,
        again == Err::<R, HandleError>(HandleError::ReceiverTaken),
        final(third).spec_addr() == old(first).spec_addr(),
        final(third).sender() == old(first).sender(),
        final(third).state().terminated == old(first).state().terminated,
{
}

/// A server that has just been started listens at its address, has its receiver, and wants no
/// traffic yet.
pub proof fn started_servers_wait_for_a_receiver<S, R>(
    addr: SocketAddr,
    sender: S,
    receiver: R,
    tcp: TcpServer<S, R>,
    udp: UdpServer<S, R>,
)
    requires
        call_ensures(TcpServer::<S, R>::bind_and_start, (addr, sender, receiver), tcp),
        call_ensures(UdpServer::<S, R>::bind_and_start, (addr, sender, receiver), udp),
    ensures
        tcp.spec_addr() == addr && udp.spec_addr() == addr,
        tcp.sender() == sender && udp.sender() == sender,
        tcp.receiver() == Some(receiver) && udp.receiver() == Some(receiver),
        !tcp.state().active && !udp.state().active,
        !tcp.state().terminated && !udp.state().terminated,
        !tcp.state().completed && !udp.state().completed,
{
}

/// A server is told to end once, however often it is shut down; whoever shuts it down first waits
/// for its tasks, whoever comes later for the first, and nobody once its end has been noted.
pub proof fn tcp_server_is_shut_down_once<S, R>(
    first: &mut TcpServer<S, R>,
    second: &mut TcpServer<S, R>,
    noted: &mut TcpServer<S, R>,
    third: &mut TcpServer<S, R>,
    a: ShutdownPlan,
    b: ShutdownPlan,
    c: ShutdownPlan,
)
    requires
        call_ensures(TcpServer::<S, R>::shutdown, (first,), a),
        call_ensures(TcpServer::<S, R>::shutdown, (second,), b),
        call_ensures(TcpServer::<S, R>::completed, (noted,), ()),
        call_ensures(TcpServer::<S, R>::shutdown, (third,), c),
        *old(second) == *final(first),
        *old(noted) == *final(second),
        *old(third) == *final(noted),
        !old(first).state().terminated,
        old(first).state().tasks,
        !old(first).state().completed,
    ensures
        a.signal && a.wait == Wait::Tasks,
        !b.signal && b.wait == Wait::Completion,
        !c.signal && c.wait == Wait::Nothing,
        final(third).state().terminated,
        final(third).receiver() == old(first).receiver(),
        final(third).spec_addr() == old(first).spec_addr(),
{
}

/// The same holds of a UDP server.
pub proof fn udp_server_is_shut_down_once<S, R>(
    first: &mut UdpServer<S, R>,
    second: &mut UdpServer<S, R>,
    noted: &mut UdpServer<S, R>,
    third: &mut UdpServer<S, R>,
    a: ShutdownPlan,
    b: ShutdownPlan,
    c: ShutdownPlan,
)
    requires
        call_ensures(UdpServer::<S, R>::shutdown, (first,), a),
        call_ensures(UdpServer::<S, R>::shutdown, (second,), b),
        call_ensures(UdpServer::<S, R>::completed, (noted,), ()),
        call_ensures(UdpServer::<S, R>::shutdown, (third,), c),
        *old(second) == *final(first),
        *old(noted) == *final(second),
        *old(third) == *final(noted),
        !old(first).state().terminated,
        old(first).state().tasks,
        !old(first).state().completed,
    ensures
        a.signal && a.wait == Wait::Tasks,
        !b.signal && b.wait == Wait::Completion,
        !c.signal && c.wait == Wait::Nothing,
        final(third).state().terminated,
        final(third).receiver() == old(first).receiver(),
        final(third).spec_addr() == old(first).spec_addr(),
{
}

/// The last handle of a server that is dropped ends it, unless it has been told to end before; no
/// other handle does.
pub proof fn last_handle_ends_a_server<S, R>(
    tcp: &mut TcpServer<S, R>,
    udp: &mut UdpServer<S, R>,
    owners: usize,
    a: bool,
    b: bool,
)
    requires
        call_ensures(TcpServer::<S, R>::drop_handle, (tcp, owners), a),
        call_ensures(UdpServer::<S, R>::drop_handle, (udp, owners), b),
    ensures
        a <==> owners == 1 && !old(tcp).state().terminated,
        b <==> owners == 1 && !old(udp).state().terminated,
        final(tcp).state().terminated <==> old(tcp).state().terminated || owners == 1,
        final(udp).state().terminated <==> old(udp).state().terminated || owners == 1,
        final(tcp).receiver() == old(tcp).receiver(),
        final(udp).receiver() == old(udp).receiver(),
{
}

/// A datagram is taken as it came, with the address it came from and no peer, exactly while packets
/// are wanted.
pub proof fn received_datagram_keeps_its_address<S, R>(
    server: &UdpServer<S, R>,
    data: Vec<u8>,
    local_addr: SocketAddr,
    r: Option<UdpMessage>,
)
    requires
        call_ensures(UdpServer::<S, R>::received, (server, data, local_addr), r),
    ensures
        server.state().active <==> r is Some,
        r matches Some(message) ==> {
            &&& message is Packet
            &&& message->Packet_0.payload@ == data@
            &&& message->Packet_0.local_addr == local_addr
            &&& message->Packet_0.peer_addr is None
        },
{
}

/// A packet that comes through the channel is sent out as it is; anything else ends the sending.
pub proof fn packets_are_sent_until_told_to_quit<S, R>(
    message: Option<UdpMessage>,
    r: Option<UdpPacket>,
)
    requires
        call_ensures(UdpServer::<S, R>::next_to_send, (message,), r),
    ensures
        r is Some <==> message is Some && message->0 is Packet,
        r matches Some(packet) ==> message == Some(UdpMessage::Packet(packet)),
{
}

/// Packets are wanted or not as was set last, and setting it changes nothing else.
pub proof fn wanted_packets_are_set<S, R>(server: &mut UdpServer<S, R>, active: bool)
    requires
        call_ensures(UdpServer::<S, R>::set_active, (server, active), ()),
    ensures
        final(server).state().active == active,
        final(server).state().terminated == old(server).state().terminated,
        final(server).state().completed == old(server).state().completed,
        final(server).receiver() == old(server).receiver(),
        final(server).spec_addr() == old(server).spec_addr(),
{
}

/// A stream that the peer has opened leads to the upstream if there is one, else to the address
/// that it starts with, and nowhere if that cannot be read.
pub proof fn stream_leads_to_its_destination(
    addr: SocketAddr,
    fixed: Destination,
    open: Destination,
    named: Destination,
    unnamed: Destination,
)
    requires
        call_ensures(TcpTunnel::start_accepting, (Some(addr),), fixed),
        call_ensures(TcpTunnel::start_accepting, (None,), open),
        call_ensures(TcpTunnel::destination_read, (Some(addr),), named),
        call_ensures(TcpTunnel::destination_read, (None,), unnamed),
    ensures
        fixed == Destination::Connect(addr),
        open == Destination::Read,
        named == Destination::Connect(addr),
        unnamed == Destination::Nowhere,
{
}

/// A connection that was accepted is addressed as asked for and then flows through the stream that
/// was opened for it; the next one is awaited after that.
pub proof fn connection_flows_through_its_stream<S>(
    first: &mut TcpServing<S>,
    second: &mut TcpServing<S>,
    third: &mut TcpServing<S>,
    request: StreamRequest<S>,
    a: ServeAction<S>,
    b: ServeAction<S>,
    c: ServeAction<S>,
)
    requires
        call_ensures(
            TcpServing::<S>::step,
            (first, ServeEvent::Received(Some(StreamMessage::Request(request)))),
            a,
        ),
        call_ensures(TcpServing::<S>::step, (second, ServeEvent::Opened(true)), b),
        call_ensures(TcpServing::<S>::step, (third, ServeEvent::Addressed(true)), c),
        old(first).wf(),
        old(first).phase() == ServePhase::Receiving,
        *old(second) == *final(first),
        *old(third) == *final(second),
    ensures
        a == ServeAction::<S>::Open,
        b == ServeAction::<S>::Address(request.dst_addr),
        c == ServeAction::Flow(request),
        final(third).phase() == ServePhase::Receiving,
        final(third).held() is None,
{
}

/// Where a tunnel is served again, a connection that was left without a stream comes first.
pub proof fn left_over_connection_comes_first<S>(
    pending: Option<StreamRequest<S>>,
    r: (TcpServing<S>, ServeAction<S>),
)
    requires
        call_ensures(TcpTunnel::start_serving::<S>, (pending,), r),
    ensures
        r.0.held() == pending,
        pending is Some <==> r.1 == ServeAction::<S>::Open,
        pending is None <==> r.1 == ServeAction::<S>::Receive,
        pending is Some <==> r.0.phase() == ServePhase::Opening,
{
}

/// A report reaches the listener exactly if there is one and the report could be written down.
pub proof fn report_reaches_the_listener<L>(
    bridge: &TunnelInfoBridge<L>,
    written: bool,
    r: Option<&L>,
    has: bool,
)
    requires
        call_ensures(TunnelInfoBridge::<L>::post_tunnel_info, (bridge, written), r),
        call_ensures(TunnelInfoBridge::<L>::has_listener, (bridge,), has),
    ensures
        has <==> bridge.listener() is Some,
        r is Some <==> written && has,
        r matches Some(listener) ==> bridge.listener() == Some(*listener),
{
}

/// What the parts of an address are, how it is put together, and which addresses are special.
pub proof fn addresses_are_told_apart(
    ip: &IpAddr,
    port: u16,
    addr: SocketAddr,
    back: IpAddr,
    number: u16,
    loopback: bool,
    unspecified: bool,
)
    requires
        call_ensures(SocketAddr::new, (*ip, port), addr),
        call_ensures(SocketAddr::ip, (&addr,), back),
        call_ensures(SocketAddr::port, (&addr,), number),
        call_ensures(IpAddr::is_loopback, (ip,), loopback),
        call_ensures(IpAddr::is_unspecified, (ip,), unspecified),
    ensures
        back == *ip,
        number == port,
        addr matches SocketAddr::V6(a) ==> a.flowinfo == 0 && a.scope_id == 0,
        *ip matches IpAddr::V4(a) ==> (loopback <==> a.0 == 127) && (unspecified <==> a.0 == 0
            && a.1 == 0 && a.2 == 0 && a.3 == 0),
        *ip matches IpAddr::V6(a) ==> {
            let low = a.0 == 0 && a.1 == 0 && a.2 == 0 && a.3 == 0 && a.4 == 0 && a.5 == 0 && a.6
                == 0;
            &&& loopback <==> low && a.7 == 1
            &&& unspecified <==> low && a.7 == 0
        },
{
}

/// The address to bind for any port of all interfaces, for either family, and that of a port of
/// the local host.
pub proof fn addresses_to_bind_are_special(
    v4: SocketAddr,
    v6: SocketAddr,
    port: u16,
    local: SocketAddr,
)
    requires
        call_ensures(socket_addr_with_unspecified_ip_port, (false,), v4),
        call_ensures(socket_addr_with_unspecified_ip_port, (true,), v6),
        call_ensures(localhost, (port,), local),
    ensures
        v4 == SocketAddr::V4(SocketAddrV4 { ip: Ipv4Addr(0, 0, 0, 0), port: 0 }),
        v6 == SocketAddr::V6(
            SocketAddrV6 {
                ip: Ipv6Addr(0, 0, 0, 0, 0, 0, 0, 0),
                port: 0,
                flowinfo: 0,
                scope_id: 0,
            },
        ),
        local == SocketAddr::V4(SocketAddrV4 { ip: Ipv4Addr(127, 0, 0, 1), port }),
{
}

/// The codes with which connections are closed are told apart, and all waiting is bounded: an owner
/// has less than a second to answer, a taken-over port a part of that to become free, and a login
/// ten seconds to be answered.
pub proof fn codes_and_times_are_agreed()
    ensures
        CLOSE_SHUTDOWN == 1 && CLOSE_PREEMPTED == 2 && CLOSE_TUNNEL_REMOVED == 5,
        PROBE_TIMEOUT_MS == 800 && PREEMPTION_DELAY_MS == 150 && SEND_TIMEOUT_MS == 300,
        LOGIN_RESPONSE_TIMEOUT_SECS == 10 && CONNECT_TIMEOUT_SECS == 5,
        CLEAR_INTERVAL_SECS == 2 && RELOAD_INTERVAL_SECS == 24 * 60 * 60,
        POST_TRAFFIC_DATA_INTERVAL_SECS == 30 && POLL_INTERVAL_MS == 500,
        TCP_CHANNEL_CAPACITY == 128 && UDP_CHANNEL_CAPACITY == 1024,
        TCP_SOCKET_BUFFER_BYTES == 524288 && UDP_SOCKET_BUFFER_BYTES == 4194304,
        UDP_PACKET_SIZE == 65535,
        TUNNEL_MODE_IN@ == "IN"@ && TUNNEL_MODE_OUT@ == "OUT"@,
{
}

} // verus!
