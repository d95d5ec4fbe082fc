//! What the client does for one tunnel, from the first connection to the last.

use crate::addr::SocketAddr;
use crate::client::{Client, ClientState, ClientView};
use crate::config::{Tunnel, TunnelConfig, UpstreamType};
use crate::hash_tables::{lemma_tunnel_key_injective, lookup, tunnel_key};
use crate::tunnel_message::{LoginRequest, LoginResponse, MessageView, TunnelMessage};
use crate::tunnel_task::{
    check_login_response, login_failure, Serving, TaskAction, TaskEvent, TaskPhase, TaskStep,
    TunnelTask,
};
use vstd::prelude::*;

verus! {

/// A tunnel with a network address, once logged in, is served over its own transport and leads to
/// its own local server: streams lead to TCP connections exactly if it is a TCP tunnel and to
/// datagrams exactly if it is a UDP tunnel. The connection served is the one that was opened, and
/// its streams time out as is configured for that transport.
pub proof fn tunnel_is_served_over_its_transport(
    task: TunnelTask,
    client: ClientView,
    config: TunnelConfig,
    connection: usize,
)
    requires
        task.phase == TaskPhase::Connecting,
        task.tunnel == Tunnel::NetworkBased(config),
        client.client_state != ClientState::Stopping,
        client.client_state != ClientState::Terminated,
    ensures
        ({
            let (phase, client1, step) = task.after(
                client,
                TaskEvent::ConnectEnded(Some(connection)),
                false,
            );
            &&& phase == TaskPhase::Serving
            &&& step.action is Serve
            &&& !step.close_removed
            &&& step.action->connection == connection
            &&& config.upstream.upstream_type is Tcp <==> step.action->serving
                == Serving::AcceptTcp(config.local_server_addr)
            &&& config.upstream.upstream_type is Udp <==> step.action->serving
                == Serving::AcceptUdp(config.local_server_addr)
            &&& config.upstream.upstream_type is Tcp ==> step.action->timeout_ms
                == client.config.tcp_timeout_ms
            &&& config.upstream.upstream_type is Udp ==> step.action->timeout_ms
                == client.config.udp_timeout_ms
            &&& client1.client_state == ClientState::Tunneling
        }),
{
}

/// A tunnel whose streams or packets are handed in is served over its own transport, with the
/// idle timeout of that transport, and leaves no record of its connection.
pub proof fn channel_is_served_over_its_transport(
    task: TunnelTask,
    client: ClientView,
    upstream_type: UpstreamType,
    connection: usize,
)
    requires
        task.phase == TaskPhase::Connecting,
        task.tunnel == Tunnel::ChannelBased(upstream_type),
        client.client_state != ClientState::Stopping,
        client.client_state != ClientState::Terminated,
    ensures
        ({
            let (phase, client1, step) = task.after(
                client,
                TaskEvent::ConnectEnded(Some(connection)),
                false,
            );
            &&& phase == TaskPhase::Serving
            &&& step.action is Serve
            &&& step.action->connection == connection
            &&& upstream_type is Tcp <==> step.action->serving == Serving::ChannelTcp
            &&& upstream_type is Udp <==> step.action->serving == Serving::ChannelUdp
            &&& upstream_type is Tcp ==> step.action->timeout_ms == client.config.tcp_timeout_ms
            &&& upstream_type is Udp ==> step.action->timeout_ms == client.config.udp_timeout_ms
            &&& client1 == (ClientView { client_state: ClientState::Tunneling, ..client })
        }),
{
}

/// A connection that has been opened is recorded for its tunnel and for no other; one that is no
/// longer served is no longer recorded, and all others still are.
pub proof fn connection_is_recorded_for_its_tunnel(
    task: TunnelTask,
    client: ClientView,
    event: TaskEvent,
    cancelled: bool,
    config: TunnelConfig,
    other: TunnelConfig,
)
    requires
        task.may_see(event, client),
        task.tunnel == Tunnel::NetworkBased(config),
    ensures
        ({
            let (phase, client1, step) = task.after(client, event, cancelled);
            let mine = lookup(client1.connections, tunnel_key(config));
            &&& other != config ==> lookup(client1.connections, tunnel_key(other)) == lookup(
                client.connections,
                tunnel_key(other),
            )
            &&& step.action matches TaskAction::Serve { connection, .. } ==> mine == Some(
                connection,
            )
            &&& task.phase == TaskPhase::Serving ==> mine is None
        }),
{
    if tunnel_key(other) == tunnel_key(config) {
        lemma_tunnel_key_injective(other, config);
    }
}

/// A tunnel goes on as long as neither it nor its client is to end: it is connected when it
/// starts, and connected again after its connection has ended, with the configured wait before
/// each further attempt. It ends when logging in has been given up, or when it is cancelled while
/// it connects. A connection is closed by its tunnel only where the tunnel is cancelled while it
/// is served.
pub proof fn tunnel_is_connected_again(
    task: TunnelTask,
    client: ClientView,
    event: TaskEvent,
    cancelled: bool,
)
    requires
        task.may_see(event, client),
    ensures
        ({
            let (phase, client1, step) = task.after(client, event, cancelled);
            let ending = cancelled || client.client_state == ClientState::Stopping
                || client.client_state == ClientState::Terminated;
            &&& step.action is Connect ==> step.action == (TaskAction::Connect {
                retry_after_ms: client.config.wait_before_retry_ms,
            })
            &&& step.action is Connect <==> phase == TaskPhase::Connecting
            &&& step.action is Serve <==> phase == TaskPhase::Serving
            &&& step.action is Quit <==> phase == TaskPhase::Finished
            &&& event is Started || event is ServeEnded ==> (step.action is Connect <==> !ending)
            &&& event is ConnectEnded ==> (step.action is Serve <==> !ending
                && event->ConnectEnded_0 is Some)
            &&& event is ConnectEnded ==> (step.action is Quit <==> ending
                || event->ConnectEnded_0 is None)
            &&& event is Cancelled && task.phase == TaskPhase::Connecting ==> step.action is Quit
            &&& event is Cancelled && task.phase == TaskPhase::Serving ==> (step.action is Connect
                <==> !ending)
            &&& step.close_removed <==> event is Cancelled && task.phase == TaskPhase::Serving
            &&& client1.config == client.config
        }),
{
}

/// The traffic of a connection that is no longer served is added to the total of the client,
/// counter by counter; no other event changes the total.
pub proof fn traffic_is_counted_once(
    task: TunnelTask,
    client: ClientView,
    event: TaskEvent,
    cancelled: bool,
)
    requires
        task.may_see(event, client),
    ensures
        ({
            let total = client.total_traffic_data;
            let total1 = task.after(client, event, cancelled).1.total_traffic_data;
            &&& !(event is ServeEnded) || task.tunnel is ChannelBased ==> total1 == total
            &&& event is ServeEnded && task.tunnel is NetworkBased ==> {
                let stats = event->ServeEnded_0;
                &&& total1.rx_bytes == total.rx_bytes + stats.rx_bytes
                &&& total1.tx_bytes == total.tx_bytes + stats.tx_bytes
                &&& total1.rx_dgrams == total.rx_dgrams + stats.rx_dgrams
                &&& total1.tx_dgrams == total.tx_dgrams + stats.tx_dgrams
            }
        }),
{
}

/// A login succeeds exactly if the server says that it has been accepted; the reason that a
/// server gives for turning a client away ends the text that the client reports.
pub proof fn login_succeeds_only_if_accepted(
    index: usize,
    request: LoginRequest,
    remote: SocketAddr,
    response: TunnelMessage,
)
    ensures
        ({
            let failure = login_failure(index, request, remote, response);
            &&& failure is None <==> (response matches TunnelMessage::LoginResponse(r)
                && r is Accepted)
            &&& response matches TunnelMessage::LoginResponse(LoginResponse::Rejected { reason })
                ==> failure is Some && failure->0.len() >= reason@.len() && failure->0.skip(
                failure->0.len() - reason@.len(),
            ) == reason@
        }),
{
    if let TunnelMessage::LoginResponse(LoginResponse::Rejected { reason }) = response {
        let text = login_failure(index, request, remote, response)->0;
        assert(text.skip(text.len() - reason@.len()) =~= reason@);
    }
}

/// How a tunnel with a network address is served: over TCP exactly if it is a TCP tunnel, over UDP
/// exactly if it is a UDP tunnel, and always at its own local server.
pub proof fn network_tunnel_is_handled_by_its_transport(
    task: &TunnelTask,
    config: TunnelConfig,
    r: Serving,
)
    requires
        call_ensures(TunnelTask::handle_network_based_tunnel, (task,), r),
        task.tunnel == Tunnel::NetworkBased(config),
    ensures
        config.upstream.upstream_type is Tcp <==> r == Serving::AcceptTcp(
            config.local_server_addr,
        ),
        config.upstream.upstream_type is Udp <==> r == Serving::AcceptUdp(
            config.local_server_addr,
        ),
{
}

/// What the client does for a tunnel that has just been logged in, while neither is to end: it
/// serves that connection over the tunnel's transport at the tunnel's local server, with the
/// timeout of that transport.
pub proof fn logged_in_tunnel_is_served(
    task: &mut TunnelTask,
    client: &mut Client,
    connection: usize,
    config: TunnelConfig,
    r: TaskStep,
)
    requires
        call_ensures(
            TunnelTask::connect_and_serve,
            (task, client, TaskEvent::ConnectEnded(Some(connection)), false),
            r,
        ),
        old(task).phase == TaskPhase::Connecting,
        old(task).tunnel == Tunnel::NetworkBased(config),
        old(client)@.client_state != ClientState::Stopping,
        old(client)@.client_state != ClientState::Terminated,
    ensures
        config.upstream.upstream_type is Tcp ==> r.action == (TaskAction::Serve {
            connection,
            serving: Serving::AcceptTcp(config.local_server_addr),
            timeout_ms: old(client)@.config.tcp_timeout_ms,
        }),
        config.upstream.upstream_type is Udp ==> r.action == (TaskAction::Serve {
            connection,
            serving: Serving::AcceptUdp(config.local_server_addr),
            timeout_ms: old(client)@.config.udp_timeout_ms,
        }),
        !r.close_removed,
        final(task).phase == TaskPhase::Serving,
        final(task).tunnel == old(task).tunnel,
        final(client)@.client_state == ClientState::Tunneling,
        lookup(final(client)@.connections, tunnel_key(config)) == Some(connection),
{
}

/// The tasks of tunnels that are handed in are of the transport they are named after, and have yet
/// to be started; a login asks for exactly the tunnel it is for, with the client's password.
pub proof fn handed_in_tunnels_keep_their_transport(
    client: &Client,
    tcp: TunnelTask,
    udp: TunnelTask,
    client_id: String,
    tunnel: Tunnel,
    request: LoginRequest,
)
    requires
        call_ensures(Client::connect_and_serve_tcp_async, (client,), tcp),
        call_ensures(Client::connect_and_serve_udp_async, (client,), udp),
        call_ensures(Client::login_request, (client, client_id, tunnel), request),
    ensures
        tcp.tunnel == Tunnel::ChannelBased(UpstreamType::Tcp),
        udp.tunnel == Tunnel::ChannelBased(UpstreamType::Udp),
        tcp.phase == TaskPhase::Ready,
        udp.phase == TaskPhase::Ready,
        request.password@ == client@.config.password,
        request.client_id == client_id,
        request.tunnel == tunnel,
{
}

/// The client takes a login for successful exactly if the server has accepted it.
pub proof fn answer_decides_the_login(
    index: usize,
    request: &LoginRequest,
    remote: &SocketAddr,
    response: &TunnelMessage,
    r: Result<(), String>,
)
    requires
        call_ensures(check_login_response, (index, request, remote, response), r),
    ensures
        r is Ok <==> response@ is Accepted,
        response@ matches MessageView::Rejected(reason) ==> r->Err_0@.len() >= reason.len()
            && r->Err_0@.skip(r->Err_0@.len() - reason.len()) == reason,
{
    login_succeeds_only_if_accepted(index, *request, *remote, *response);
}

} // verus!
