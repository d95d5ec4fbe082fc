//! The life of one tunnel on the client: connect, log in, serve, and connect again.

use crate::addr::SocketAddr;
use crate::client::{Client, ClientState, ClientView, TunnelTraffic};
use crate::config::{Tunnel, UpstreamType};
use crate::hash_tables::tunnel_key;
use crate::number::{decimal_text, push_decimal};
use crate::server::{bind_failure, login_addr, LoginAction, LoginEvent, LoginView, ServerView};
use crate::text::{extend_str, string_of};
use crate::tunnel_message::{LoginRequest, LoginResponse, TunnelMessage};
use vstd::prelude::*;

verus! {

/// How long the client waits for the response to a login (s).
pub const LOGIN_RESPONSE_TIMEOUT_SECS: u64 = 10;

/// How often traffic is reported (s).
pub const POST_TRAFFIC_DATA_INTERVAL_SECS: u64 = 30;

/// QUIC close code of a client that shuts down.
pub const CLOSE_SHUTDOWN: u32 = 1;

/// QUIC close code of a tunnel that has been removed.
pub const CLOSE_TUNNEL_REMOVED: u32 = 5;

/// Where a tunnel stands.
#[derive(Clone, Copy, Debug, PartialEq, Eq, Structural)]
pub enum TaskPhase {
    Ready,
    Connecting,
    Serving,
    Finished,
}

/// What happened to a tunnel.
#[derive(Clone, Copy, Debug, PartialEq, Eq, Structural)]
pub enum TaskEvent {
    /// The task has been started.
    Started,
    /// Logging in led to this connection, or was given up.
    ConnectEnded(Option<usize>),
    /// The connection is no longer served; its traffic.
    ServeEnded(TunnelTraffic),
    /// The tunnel has been cancelled.
    Cancelled,
}

/// How a connection is served.
#[derive(Clone, Copy, Debug, PartialEq, Eq, Structural)]
pub enum Serving {
    /// Streams opened by the server lead to this TCP address.
    AcceptTcp(SocketAddr),
    /// Streams opened by the server lead to this UDP address.
    AcceptUdp(SocketAddr),
    /// Streams handed in by the embedding program go to the server.
    ChannelTcp,
    /// Packets handed in by the embedding program go to the server.
    ChannelUdp,
}

/// What to do next for a tunnel.
#[derive(Clone, Copy, Debug, PartialEq, Eq, Structural)]
pub enum TaskAction {
    /// Connect and log in, as often as it takes, and wait this long before each further attempt
    /// (ms).
    Connect { retry_after_ms: u64 },
    /// Serve this connection, with this idle timeout of its streams (ms).
    Serve { connection: usize, serving: Serving, timeout_ms: u64 },
    /// Nothing more.
    Quit,
}

/// What to do for a tunnel.
#[derive(Clone, Copy, Debug, PartialEq, Eq, Structural)]
pub struct TaskStep {
    /// Close the connection first, with `CLOSE_TUNNEL_REMOVED` and "tunnel removed".
    pub close_removed: bool,
    pub action: TaskAction,
}

/// One tunnel.
#[derive(Clone, Copy, Debug, PartialEq, Eq, Structural)]
pub struct TunnelTask {
    pub tunnel: Tunnel,
    pub phase: TaskPhase,
}

/// How the connection of a tunnel is served.
pub open spec fn serving_of(tunnel: Tunnel) -> Serving {
    match tunnel {
        Tunnel::NetworkBased(config) => match config.upstream.upstream_type {
            UpstreamType::Tcp => Serving::AcceptTcp(config.local_server_addr),
            UpstreamType::Udp => Serving::AcceptUdp(config.local_server_addr),
        },
        Tunnel::ChannelBased(UpstreamType::Tcp) => Serving::ChannelTcp,
        Tunnel::ChannelBased(UpstreamType::Udp) => Serving::ChannelUdp,
    }
}

/// The transport of a tunnel.
pub open spec fn transport_of(tunnel: Tunnel) -> UpstreamType {
    match tunnel {
        Tunnel::NetworkBased(config) => config.upstream.upstream_type,
        Tunnel::ChannelBased(upstream_type) => upstream_type,
    }
}

/// The idle timeout for the streams of a tunnel (ms).
pub open spec fn stream_timeout(tunnel: Tunnel, client: ClientView) -> u64 {
    match transport_of(tunnel) {
        UpstreamType::Tcp => client.config.tcp_timeout_ms,
        UpstreamType::Udp => client.config.udp_timeout_ms,
    }
}

/// What the client knows once the connection of a tunnel is served.
pub open spec fn served(tunnel: Tunnel, client: ClientView, connection: usize) -> ClientView {
    ClientView {
        client_state: ClientState::Tunneling,
        connections: match tunnel {
            Tunnel::NetworkBased(config) => client.connections.insert(
                tunnel_key(config),
                connection,
            ),
            Tunnel::ChannelBased(_) => client.connections,
        },
        ..client
    }
}

/// What the client knows once the connection of a tunnel is no longer served.
pub open spec fn unserved(
    tunnel: Tunnel,
    client: ClientView,
    stats: Option<TunnelTraffic>,
) -> ClientView {
    match tunnel {
        Tunnel::NetworkBased(config) => ClientView {
            connections: client.connections.remove(tunnel_key(config)),
            total_traffic_data: match stats {
                Some(stats) => client.total_traffic_data.plus(stats),
                None => client.total_traffic_data,
            },
            ..client
        },
        Tunnel::ChannelBased(_) => client,
    }
}

/// Connects again, unless the tunnel or the client is to end.
pub open spec fn again(client: ClientView, ending: bool) -> (TaskPhase, TaskAction) {
    if ending {
        (TaskPhase::Finished, TaskAction::Quit)
    } else {
        (
            TaskPhase::Connecting,
            TaskAction::Connect { retry_after_ms: client.config.wait_before_retry_ms },
        )
    }
}

impl TunnelTask {
    /// Whether the event can happen in this phase.
    pub open spec fn may_see(self, event: TaskEvent, client: ClientView) -> bool {
        match event {
            TaskEvent::Started => self.phase == TaskPhase::Ready,
            TaskEvent::ConnectEnded(_) => self.phase == TaskPhase::Connecting,
            TaskEvent::ServeEnded(stats) => self.phase == TaskPhase::Serving && (
            self.tunnel is NetworkBased ==> client.total_traffic_data.addable(stats)),
            TaskEvent::Cancelled => self.phase == TaskPhase::Connecting || self.phase
                == TaskPhase::Serving,
        }
    }

    /// What an event leads to: the phase, what the client knows, and what to do.
    pub open spec fn after(self, client: ClientView, event: TaskEvent, cancelled: bool) -> (
        TaskPhase,
        ClientView,
        TaskStep,
    ) {
        let ending = cancelled || client.client_state.ending();
        let next = again(client, ending);
        match event {
            TaskEvent::Started => (
                next.0,
                client,
                TaskStep { close_removed: false, action: next.1 },
            ),
            TaskEvent::ConnectEnded(connection) => if ending || connection is None {
                (
                    TaskPhase::Finished,
                    client,
                    TaskStep { close_removed: false, action: TaskAction::Quit },
                )
            } else {
                (
                    TaskPhase::Serving,
                    served(self.tunnel, client, connection->0),
                    TaskStep {
                        close_removed: false,
                        action: TaskAction::Serve {
                            connection: connection->0,
                            serving: serving_of(self.tunnel),
                            timeout_ms: stream_timeout(self.tunnel, client),
                        },
                    },
                )
            },
            TaskEvent::ServeEnded(stats) => (
                next.0,
                unserved(self.tunnel, client, Some(stats)),
                TaskStep { close_removed: false, action: next.1 },
            ),
            TaskEvent::Cancelled => if self.phase == TaskPhase::Serving {
                (
                    next.0,
                    unserved(self.tunnel, client, None),
                    TaskStep { close_removed: true, action: next.1 },
                )
            } else {
                (
                    TaskPhase::Finished,
                    client,
                    TaskStep { close_removed: false, action: TaskAction::Quit },
                )
            },
        }
    }

    /// A tunnel about to be started.
    pub fn new(tunnel: Tunnel) -> (r: TunnelTask)
        ensures
            r == (TunnelTask { tunnel, phase: TaskPhase::Ready }),
    {
        TunnelTask { tunnel, phase: TaskPhase::Ready }
    }

    /// How the connection is served.
    pub fn handle_network_based_tunnel(&self) -> (r: Serving)
        ensures
            r == serving_of(self.tunnel),
            self.tunnel matches Tunnel::NetworkBased(config) ==> (r is AcceptTcp
                <==> config.upstream.upstream_type is Tcp) && (r is AcceptUdp
                <==> config.upstream.upstream_type is Udp),
            self.tunnel matches Tunnel::NetworkBased(config) ==> r == Serving::AcceptTcp(
                config.local_server_addr,
            ) || r == Serving::AcceptUdp(config.local_server_addr),
    {
        match self.tunnel {
            Tunnel::NetworkBased(config) => match config.upstream.upstream_type {
                UpstreamType::Tcp => Serving::AcceptTcp(config.local_server_addr),
                UpstreamType::Udp => Serving::AcceptUdp(config.local_server_addr),
            },
            Tunnel::ChannelBased(UpstreamType::Tcp) => Serving::ChannelTcp,
            Tunnel::ChannelBased(UpstreamType::Udp) => Serving::ChannelUdp,
        }
    }

    fn stop_serving(&self, client: &mut Client, stats: Option<TunnelTraffic>)
        requires
            stats is Some && self.tunnel is NetworkBased
                ==> old(client)@.total_traffic_data.addable(stats->0),
        ensures
            final(client)@ == unserved(self.tunnel, old(client)@, stats),
    {
        match self.tunnel {
            Tunnel::NetworkBased(config) => {
                if let Some(stats) = stats {
                    client.add_traffic(stats);
                }
                client.connection_closed(config);
            },
            Tunnel::ChannelBased(_) => {},
        }
    }

    /// Takes note of an event and tells what to do; `cancelled` tells whether the tunnel is to
    /// end.
    pub fn connect_and_serve(
        &mut self,
        client: &mut Client,
        event: TaskEvent,
        cancelled: bool,
    ) -> (r: TaskStep)
        requires
            old(self).may_see(event, old(client)@),
        ensures
            final(self).tunnel == old(self).tunnel,
            final(self).phase == old(self).after(old(client)@, event, cancelled).0,
            final(client)@ == old(self).after(old(client)@, event, cancelled).1,
            r == old(self).after(old(client)@, event, cancelled).2,
    {
        let ending = cancelled || client.should_quit();
        let mut close_removed = false;
        match event {
            TaskEvent::Started => {},
            TaskEvent::ConnectEnded(connection) => {
                if !ending {
                    if let Some(connection) = connection {
                        let config = client.get_config();
                        let timeout_ms: u64 = match self.tunnel {
                            Tunnel::NetworkBased(t) => match t.upstream.upstream_type {
                                UpstreamType::Tcp => config.tcp_timeout_ms,
                                UpstreamType::Udp => config.udp_timeout_ms,
                            },
                            Tunnel::ChannelBased(UpstreamType::Tcp) => config.tcp_timeout_ms,
                            Tunnel::ChannelBased(UpstreamType::Udp) => config.udp_timeout_ms,
                        };
                        if let Tunnel::NetworkBased(t) = self.tunnel {
                            client.connection_opened(t, connection);
                        }
                        client.set_and_post_tunnel_state(ClientState::Tunneling);
                        self.phase = TaskPhase::Serving;
                        return TaskStep {
                            close_removed: false,
                            action: TaskAction::Serve {
                                connection,
                                serving: self.handle_network_based_tunnel(),
                                timeout_ms,
                            },
                        };
                    }
                }
                self.phase = TaskPhase::Finished;
                return TaskStep { close_removed: false, action: TaskAction::Quit };
            },
            TaskEvent::ServeEnded(stats) => {
                self.stop_serving(client, Some(stats));
            },
            TaskEvent::Cancelled => {
                if self.phase == TaskPhase::Serving {
                    self.stop_serving(client, None);
                    close_removed = true;
                } else {
                    self.phase = TaskPhase::Finished;
                    return TaskStep { close_removed: false, action: TaskAction::Quit };
                }
            },
        }
        if ending {
            self.phase = TaskPhase::Finished;
            TaskStep { close_removed, action: TaskAction::Quit }
        } else {
            self.phase = TaskPhase::Connecting;
            let retry_after_ms: u64 = client.get_config().wait_before_retry_ms;
            TaskStep { close_removed, action: TaskAction::Connect { retry_after_ms } }
        }
    }
}

/// A connection is recorded exactly while its tunnel is served: if that held before an event, it
/// holds after it. The records of other tunnels stay as they are.
pub proof fn recorded_exactly_while_served(
    task: TunnelTask,
    client: ClientView,
    event: TaskEvent,
    cancelled: bool,
)
    requires
        task.may_see(event, client),
        task.tunnel is NetworkBased,
        task.phase == TaskPhase::Serving <==> client.connections.dom().contains(
            tunnel_key(task.tunnel->NetworkBased_0),
        ),
    ensures
        ({
            let (phase, client1, step) = task.after(client, event, cancelled);
            let key = tunnel_key(task.tunnel->NetworkBased_0);
            &&& phase == TaskPhase::Serving <==> client1.connections.dom().contains(key)
            &&& phase == TaskPhase::Serving ==> step.action is Serve && client1.connections[key]
                == step.action->connection
            &&& client1.connections.remove(key) == client.connections.remove(key)
        }),
{
    let key = tunnel_key(task.tunnel->NetworkBased_0);
    let client1 = task.after(client, event, cancelled).1;
    assert(client1.connections.remove(key) =~= client.connections.remove(key));
}

/// A tunnel that has been cancelled, or whose client is stopping or has stopped, ends with the
/// next event.
pub proof fn ending_tunnel_quits(
    task: TunnelTask,
    client: ClientView,
    event: TaskEvent,
    cancelled: bool,
)
    requires
        task.may_see(event, client),
        cancelled || client.client_state.ending(),
    ensures
        task.after(client, event, cancelled).0 == TaskPhase::Finished,
        task.after(client, event, cancelled).2.action == TaskAction::Quit,
{
}

/// Why a login failed.
pub open spec fn login_failure(
    index: usize,
    request: LoginRequest,
    remote: SocketAddr,
    response: TunnelMessage,
) -> Option<Seq<char>> {
    match response {
        TunnelMessage::LoginResponse(LoginResponse::Accepted { .. }) => None,
        TunnelMessage::LoginResponse(LoginResponse::Rejected { reason }) => Some(
            decimal_text(index as nat) + ":"@ + request.text_with_remote(remote)
                + " failed to login: "@ + reason@,
        ),
        TunnelMessage::Login(_) => Some("server sent a login request instead of a response"@),
    }
}

/// Holds the answer to a login against what was asked for; an error is the text to report.
pub fn check_login_response(
    index: usize,
    request: &LoginRequest,
    remote_addr: &SocketAddr,
    response: &TunnelMessage,
) -> (r: Result<(), String>)
    ensures
        match login_failure(index, *request, *remote_addr, *response) {
            None => r is Ok,
            Some(text) => r is Err && r->Err_0@ == text,
        },
{
    match response {
        TunnelMessage::LoginResponse(LoginResponse::Accepted { .. }) => Ok(()),
        TunnelMessage::LoginResponse(LoginResponse::Rejected { reason }) => {
            let mut v: Vec<char> = Vec::new();
            push_decimal(&mut v, index as u64);
            extend_str(&mut v, ":");
            extend_str(&mut v, request.format_with_remote_addr(remote_addr).as_str());
            extend_str(&mut v, " failed to login: ");
            extend_str(&mut v, reason.as_str());
            assert(v@ =~= login_failure(index, *request, *remote_addr, *response)->0);
            Err(string_of(v.as_slice()))
        },
        TunnelMessage::Login(_) => Err(
            "server sent a login request instead of a response".to_owned(),
        ),
    }
}

/// Whatever the server answers to a login tells the client what became of it: a client that is
/// accepted takes its login for successful, and one that is turned away reports that its address
/// could not be bound.
pub proof fn answers_tell_the_outcome(
    login: LoginView,
    server: ServerView,
    event: LoginEvent,
    action: LoginAction,
    index: usize,
    request: LoginRequest,
    remote: SocketAddr,
)
    requires
        login.may_see(event),
        action@ == login.after(server, event).2,
    ensures
        action matches LoginAction::Respond(response) ==> login_failure(
            index,
            request,
            remote,
            response,
        ) is None && login.after(server, event).0.phase is Responding,
        action matches LoginAction::Reject { response, .. } ==> login_addr(login) is Some
            && login_failure(index, request, remote, response) == Some(
            decimal_text(index as nat) + ":"@ + request.text_with_remote(remote)
                + " failed to login: "@ + bind_failure(login_addr(login)->0),
        ) && login.after(server, event).0.phase is Refused,
{
}

impl Client {
    /// The task of a TCP tunnel whose streams are handed in by the embedding program.
    pub fn connect_and_serve_tcp_async(&self) -> (r: TunnelTask)
        ensures
            r == (TunnelTask {
                tunnel: Tunnel::ChannelBased(UpstreamType::Tcp),
                phase: TaskPhase::Ready,
            }),
    {
        TunnelTask::new(Tunnel::ChannelBased(UpstreamType::Tcp))
    }

    /// The task of a UDP tunnel whose packets are handed in by the embedding program.
    pub fn connect_and_serve_udp_async(&self) -> (r: TunnelTask)
        ensures
            r == (TunnelTask {
                tunnel: Tunnel::ChannelBased(UpstreamType::Udp),
                phase: TaskPhase::Ready,
            }),
    {
        TunnelTask::new(Tunnel::ChannelBased(UpstreamType::Udp))
    }

    /// The request with which a tunnel is asked for.
    pub fn login_request(&self, client_id: String, tunnel: Tunnel) -> (r: LoginRequest)
        ensures
            r.password@ == self@.config.password,
            r.client_id == client_id,
            r.tunnel == tunnel,
    {
        LoginRequest { password: self.get_config().password, client_id, tunnel }
    }
}

} // verus!
