//! What a client that logs in can count on: which requests are served, at which address, over
//! which transport, and for how long.

use crate::addr::SocketAddr;
use crate::addr_parse::socket_addr_text;
use crate::addr_round_trip::socket_addr_round_trip;
use crate::config::{ServerConfig, Tunnel, TunnelConfig, UpstreamType};
use crate::mapping_round_trip::no_flow_label;
use crate::server::{
    clearing_splits_sessions, connections_of, has_session, lemma_owner_at, lemma_session_split,
    preempted_at, sessions_at, CertSource, ExpiredSessions, Login, LoginAction, LoginActionView,
    LoginEvent, LoginPhase, LoginView, Server, ServerError, ServerView, Session, TcpTunnelInInfo,
    TunnelType, UdpTunnelInInfo,
};
use crate::settings_laws::lemma_address_has_colon;
use crate::tunnel_message::{LoginRequest, MessageView, TunnelMessage};
use vstd::prelude::*;

verus! {

/// Whether a server binds an address for its clients: one in `127.0.0.0/8`, `0.0.0.0`, `::1` or
/// `::`, on any port.
pub open spec fn served_address(addr: SocketAddr) -> bool {
    match addr {
        SocketAddr::V4(a) => a.ip.0 == 127 || (a.ip.0 == 0 && a.ip.1 == 0 && a.ip.2 == 0 && a.ip.3
            == 0),
        SocketAddr::V6(a) => a.ip.0 == 0 && a.ip.1 == 0 && a.ip.2 == 0 && a.ip.3 == 0 && a.ip.4
            == 0 && a.ip.5 == 0 && a.ip.6 == 0 && a.ip.7 <= 1,
    }
}

/// A login with the password of the server for a network address is refused only where that
/// address is neither a loopback nor the unspecified one, and then for that reason. Otherwise the
/// address is bound for the transport asked for, or an owner of the address is asked first;
/// neither the transport nor the port nor the direction of the tunnel matters.
pub proof fn allowed_address_is_never_refused(
    login: LoginView,
    server: ServerView,
    request: LoginRequest,
    tunnel: TunnelConfig,
    addr: SocketAddr,
)
    requires
        login.wf(),
        login.phase is Waiting,
        request.password@ == server.config.password,
        request.tunnel == Tunnel::NetworkBased(tunnel),
        tunnel.upstream.upstream_addr == Some(addr),
    ensures
        ({
            let (login1, server1, action) = login.after(
                server,
                LoginEvent::Received(TunnelMessage::Login(request)),
            );
            let upstream_type = tunnel.upstream.upstream_type;
            let owned = exists|conn: usize|
                #[trigger] has_session(server, Session { bound_port: addr, conn });
            &&& !served_address(addr) <==> action == LoginActionView::Drop(
                ServerError::AddressNotAllowed(addr),
            )
            &&& !served_address(addr) <==> login1.phase is Refused
            &&& server1 == server
            &&& login1.conn == login.conn
            &&& served_address(addr) && !owned ==> {
                &&& action == (LoginActionView::Bind {
                    addr,
                    upstream_type,
                    closed: Seq::empty(),
                    preempted: false,
                })
                &&& login1.phase == (LoginPhase::Binding { addr, upstream_type, preempted: false })
            }
            &&& served_address(addr) && owned ==> {
                &&& action is Probe
                &&& has_session(server, Session { bound_port: addr, conn: action->Probe_0 })
                &&& login1.phase == (LoginPhase::Probing {
                    addr,
                    upstream_type,
                    asked: action->Probe_0,
                })
            }
        }),
{
    assert(served_address(addr) <==> addr.spec_ip().unspecified() || addr.spec_ip().loopback());
    lemma_owner_at(server.udp_sessions, addr, login.dead);
    lemma_owner_at(server.tcp_sessions, addr, login.dead);
    assert(login.dead =~= Seq::empty());
    lemma_session_split(server.tcp_sessions, addr);
    lemma_session_split(server.udp_sessions, addr);
    assert forall|conn: usize| #[trigger]
        has_session(server, Session { bound_port: addr, conn }) implies (exists|i: int|
        0 <= i < server.tcp_sessions.len() && (#[trigger] server.tcp_sessions[i]).bound_port
            == addr) || (exists|i: int|
        0 <= i < server.udp_sessions.len() && (#[trigger] server.udp_sessions[i]).bound_port
            == addr) by {
        let s = Session { bound_port: addr, conn };
        if server.tcp_sessions.contains(s) {
            let i = choose|i: int|
                0 <= i < server.tcp_sessions.len() && server.tcp_sessions[i] == s;
            assert(server.tcp_sessions[i].bound_port == addr);
        } else {
            let i = choose|i: int|
                0 <= i < server.udp_sessions.len() && server.udp_sessions[i] == s;
            assert(server.udp_sessions[i].bound_port == addr);
        }
    }
    let (_, _, action) = login.after(server, LoginEvent::Received(TunnelMessage::Login(request)));
    match action {
        LoginActionView::Bind { closed, .. } => {
            assert(closed =~= Seq::<usize>::empty());
        },
        LoginActionView::Probe(conn) => {
            assert(has_session(server, Session { bound_port: addr, conn }));
        },
        _ => {},
    }
}

/// Each request that names no address to bind is refused for a reason of its own, and in this
/// order: what is no login at all, another password, a tunnel without a network address, and a
/// tunnel that leaves the address open.
pub proof fn unusable_request_is_refused(
    login: LoginView,
    server: ServerView,
    message: TunnelMessage,
)
    requires
        login.phase is Waiting,
    ensures
        ({
            let (login1, server1, action) = login.after(server, LoginEvent::Received(message));
            &&& server1 == server || action is Bind
            &&& message is LoginResponse ==> action == LoginActionView::Drop(
                ServerError::UnexpectedMessage,
            )
            &&& message matches TunnelMessage::Login(request) ==> {
                let same = request.password@ == server.config.password;
                &&& !same <==> action == LoginActionView::Drop(ServerError::PasswordMismatch)
                &&& same && request.tunnel is ChannelBased <==> action == LoginActionView::Drop(
                    ServerError::ChannelBasedTunnel,
                )
                &&& same && request.tunnel is NetworkBased
                    && request.tunnel->NetworkBased_0.upstream.upstream_addr is None <==> action
                    == LoginActionView::Drop(ServerError::NoBindAddress)
            }
            &&& action is Drop <==> login1.phase is Refused
        }),
{
}

/// The address and the transport of a login that is under way.
pub open spec fn login_target(login: LoginView) -> Option<(SocketAddr, UpstreamType)> {
    match login.phase {
        LoginPhase::Probing { addr, upstream_type, .. } => Some((addr, upstream_type)),
        LoginPhase::Binding { addr, upstream_type, .. } => Some((addr, upstream_type)),
        LoginPhase::Responding { addr, upstream_type } => Some((addr, upstream_type)),
        _ => None,
    }
}

/// Whatever happens to a login that is under way, it goes on for the same connection, address and
/// transport until it is refused or served. What is bound is that address for that transport.
/// What is served is that address for that connection: over TCP, with the idle timeout for TCP and
/// one more TCP session, or over UDP, with the idle timeout for UDP and one more UDP session.
pub proof fn login_serves_what_it_was_asked_for(
    login: LoginView,
    server: ServerView,
    event: LoginEvent,
    addr: SocketAddr,
    upstream_type: UpstreamType,
)
    requires
        login.may_see(event),
        login_target(login) == Some((addr, upstream_type)),
    ensures
        ({
            let (login1, server1, action) = login.after(server, event);
            let session = Session { bound_port: addr, conn: login.conn };
            &&& login1.conn == login.conn
            &&& login1.phase is Refused || login1.phase is Serving || login_target(login1) == Some(
                (addr, upstream_type),
            )
            &&& action matches LoginActionView::Bind { addr: a, upstream_type: t, .. } ==> a == addr
                && t == upstream_type
            &&& login1.phase is Serving <==> event == LoginEvent::Responded(true)
            &&& login1.phase is Serving <==> action is Serve
            &&& action matches LoginActionView::Serve { tunnel, timeout_ms } ==> {
                &&& tunnel is TcpIn <==> upstream_type is Tcp
                &&& tunnel matches TunnelType::TcpIn(info) ==> info.bound_port == addr && info.conn
                    == login.conn && timeout_ms == server.config.tcp_timeout_ms
                    && server1.tcp_sessions == server.tcp_sessions.push(session)
                    && server1.udp_sessions == server.udp_sessions
                &&& tunnel matches TunnelType::UdpIn(info) ==> info.bound_port == addr && info.conn
                    == login.conn && timeout_ms == server.config.udp_timeout_ms
                    && server1.udp_sessions == server.udp_sessions.push(session)
                    && server1.tcp_sessions == server.tcp_sessions
            }
            &&& server1.config == server.config
            &&& server1.endpoint == server.endpoint
        }),
{
}

/// An answer that an owner is alive ends a login with that as the reason. Otherwise the next
/// owner that has not been asked is asked, those of UDP sessions first. Only when all have been
/// asked is the address taken over: the connections of all its sessions are closed and no others,
/// its sessions are gone, and the other sessions stay.
pub proof fn owners_are_asked_before_they_are_replaced(
    login: LoginView,
    server: ServerView,
    alive: bool,
    addr: SocketAddr,
    upstream_type: UpstreamType,
    asked: usize,
    session: Session,
    conn: usize,
)
    requires
        login.phase == (LoginPhase::Probing { addr, upstream_type, asked }),
    ensures
        ({
            let (login1, server1, action) = login.after(server, LoginEvent::Probed(alive));
            let known = login.dead.push(asked);
            let owner = Session { bound_port: addr, conn };
            &&& alive <==> action == LoginActionView::Drop(ServerError::StillAlive(addr))
            &&& alive ==> server1 == server
            &&& !alive ==> login1.dead == known && (action is Probe || action is Bind)
            &&& action matches LoginActionView::Probe(next) ==> {
                &&& server1 == server
                &&& has_session(server, Session { bound_port: addr, conn: next })
                &&& !known.contains(next)
                &&& server.udp_sessions.contains(owner) && !known.contains(conn)
                    ==> server.udp_sessions.contains(Session { bound_port: addr, conn: next })
            }
            &&& action matches LoginActionView::Bind { closed, preempted, .. } ==> {
                &&& preempted
                &&& login1.phase == (LoginPhase::Binding { addr, upstream_type, preempted: true })
                &&& closed.contains(conn) <==> has_session(server, owner)
                &&& has_session(server, owner) ==> known.contains(conn)
                &&& server1.tcp_sessions.contains(session) <==> server.tcp_sessions.contains(
                    session,
                ) && session.bound_port != addr
                &&& server1.udp_sessions.contains(session) <==> server.udp_sessions.contains(
                    session,
                ) && session.bound_port != addr
            }
        }),
{
    let (_, _, action) = login.after(server, LoginEvent::Probed(alive));
    let known = login.dead.push(asked);
    let owner = Session { bound_port: addr, conn };
    assert(known.last() == asked);
    lemma_owner_at(server.udp_sessions, addr, known);
    lemma_owner_at(server.tcp_sessions, addr, known);
    lemma_session_split(server.tcp_sessions, addr);
    lemma_session_split(server.udp_sessions, addr);
    if server.udp_sessions.contains(owner) {
        let i = choose|i: int|
            0 <= i < server.udp_sessions.len() && server.udp_sessions[i] == owner;
        assert(server.udp_sessions[i].bound_port == addr);
    }
    if server.tcp_sessions.contains(owner) {
        let i = choose|i: int|
            0 <= i < server.tcp_sessions.len() && server.tcp_sessions[i] == owner;
        assert(server.tcp_sessions[i].bound_port == addr);
    }
    if let LoginActionView::Bind { closed, .. } = action {
        lemma_either_part(server, addr, closed, conn);
    }
}

proof fn lemma_either_part(server: ServerView, addr: SocketAddr, closed: Seq<usize>, conn: usize)
    requires
        closed == preempted_at(server, addr),
    ensures
        closed.contains(conn) <==> has_session(server, Session { bound_port: addr, conn }),
{
    let tcp = connections_of(sessions_at(server.tcp_sessions, addr, true));
    let udp = connections_of(sessions_at(server.udp_sessions, addr, true));
    lemma_session_split(server.tcp_sessions, addr);
    lemma_session_split(server.udp_sessions, addr);
    assert(closed == tcp + udp);
    if closed.contains(conn) {
        let j = choose|j: int| 0 <= j < closed.len() && closed[j] == conn;
        if j < tcp.len() {
            assert(tcp[j] == conn);
        } else {
            assert(udp[j - tcp.len()] == conn);
        }
    }
    if tcp.contains(conn) {
        let j = choose|j: int| 0 <= j < tcp.len() && tcp[j] == conn;
        assert(closed[j] == conn);
    }
    if udp.contains(conn) {
        let j = choose|j: int| 0 <= j < udp.len() && udp[j] == conn;
        assert(closed[tcp.len() + j] == conn);
    }
}

/// The client is told the truth: that it has been accepted once its address is bound, whether it
/// replaces another client, and otherwise which address could not be bound.
pub proof fn answer_tells_what_was_bound(
    login: LoginView,
    server: ServerView,
    bound: bool,
    addr: SocketAddr,
    upstream_type: UpstreamType,
    preempted: bool,
)
    requires
        login.phase == (LoginPhase::Binding { addr, upstream_type, preempted }),
    ensures
        ({
            let (login1, server1, action) = login.after(server, LoginEvent::Bound(bound));
            &&& server1 == server
            &&& bound ==> action == LoginActionView::Accept(preempted)
            &&& bound ==> login1.phase == (LoginPhase::Responding { addr, upstream_type })
            &&& !bound ==> action == LoginActionView::Reject(
                "udp server failed to bind at: "@ + addr.text(),
                ServerError::BindFailed(addr),
            )
            &&& !bound ==> login1.phase is Refused
        }),
{
}

/// A login for an address that nobody has, whose address is bound and whose response is sent, is
/// accepted as replacing nobody and ends in one more session: at that address, over the transport
/// asked for, for the connection of the client. No other session changes.
pub proof fn free_address_is_served(
    login: LoginView,
    server: ServerView,
    request: LoginRequest,
    tunnel: TunnelConfig,
    addr: SocketAddr,
)
    requires
        login.wf(),
        login.phase is Waiting,
        request.password@ == server.config.password,
        request.tunnel == Tunnel::NetworkBased(tunnel),
        tunnel.upstream.upstream_addr == Some(addr),
        served_address(addr),
        forall|conn: usize| !#[trigger] has_session(server, Session { bound_port: addr, conn }),
    ensures
        ({
            let (l1, s1, a1) = login.after(
                server,
                LoginEvent::Received(TunnelMessage::Login(request)),
            );
            let (l2, s2, a2) = l1.after(s1, LoginEvent::Bound(true));
            let (l3, s3, a3) = l2.after(s2, LoginEvent::Responded(true));
            let session = Session { bound_port: addr, conn: login.conn };
            &&& a2 == LoginActionView::Accept(false)
            &&& l3.phase is Serving
            &&& tunnel.upstream.upstream_type is Tcp ==> s3 == (ServerView {
                tcp_sessions: server.tcp_sessions.push(session),
                ..server
            })
            &&& tunnel.upstream.upstream_type is Udp ==> s3 == (ServerView {
                udp_sessions: server.udp_sessions.push(session),
                ..server
            })
        }),
{
    allowed_address_is_never_refused(login, server, request, tunnel, addr);
}

/// What the server does about a login with its password for a network address: it binds that very
/// address for that very transport, or asks an owner of it first, if the address is a loopback or
/// the unspecified one; otherwise, and only then, it drops the client for its address.
pub proof fn server_binds_what_is_asked_for(
    login: &mut Login,
    server: &mut Server,
    request: LoginRequest,
    tunnel: TunnelConfig,
    addr: SocketAddr,
    r: LoginAction,
)
    requires
        call_ensures(
            Login::authenticate_connection,
            (login, server, LoginEvent::Received(TunnelMessage::Login(request))),
            r,
        ),
        old(login)@.wf(),
        old(login)@.phase is Waiting,
        request.password@ == old(server)@.config.password,
        request.tunnel == Tunnel::NetworkBased(tunnel),
        tunnel.upstream.upstream_addr == Some(addr),
    ensures
        served_address(addr) ==> {
            ||| r is Bind && r->Bind_addr == addr && r->Bind_upstream_type
                == tunnel.upstream.upstream_type && r->Bind_closed@.len() == 0
                && !r->Bind_preempted
            ||| r is Probe && has_session(
                old(server)@,
                Session { bound_port: addr, conn: r->Probe_0 },
            )
        },
        served_address(addr) ==> !(final(login)@.phase is Refused),
        !served_address(addr) <==> r == LoginAction::Drop(ServerError::AddressNotAllowed(addr)),
        final(server)@ == old(server)@,
{
    allowed_address_is_never_refused(old(login)@, old(server)@, request, tunnel, addr);
}

/// What the server does about anything else that comes first: it drops the client, each time for
/// the reason that applies, and touches no session.
pub proof fn server_drops_unusable_requests(
    login: &mut Login,
    server: &mut Server,
    message: TunnelMessage,
    r: LoginAction,
)
    requires
        call_ensures(
            Login::authenticate_connection,
            (login, server, LoginEvent::Received(message)),
            r,
        ),
        old(login)@.wf(),
        old(login)@.phase is Waiting,
    ensures
        message is LoginResponse ==> r == LoginAction::Drop(ServerError::UnexpectedMessage),
        message matches TunnelMessage::Login(request) ==> {
            &&& request.password@ != old(server)@.config.password ==> r == LoginAction::Drop(
                ServerError::PasswordMismatch,
            )
            &&& request.password@ == old(server)@.config.password && request.tunnel is ChannelBased
                ==> r == LoginAction::Drop(ServerError::ChannelBasedTunnel)
            &&& request.password@ == old(server)@.config.password && request.tunnel is NetworkBased
                && request.tunnel->NetworkBased_0.upstream.upstream_addr is None ==> r
                == LoginAction::Drop(ServerError::NoBindAddress)
        },
        r is Drop ==> final(server)@ == old(server)@ && final(login)@.phase is Refused,
{
    unusable_request_is_refused(old(login)@, old(server)@, message);
}

/// What the server answers once the address has been bound or could not be, and what it serves
/// once the answer has been sent.
pub proof fn server_serves_what_it_bound(
    login: &mut Login,
    server: &mut Server,
    event: LoginEvent,
    addr: SocketAddr,
    upstream_type: UpstreamType,
    r: LoginAction,
)
    requires
        call_ensures(Login::authenticate_connection, (login, server, event), r),
        old(login)@.wf(),
        old(login)@.may_see(event),
        login_target(old(login)@) == Some((addr, upstream_type)),
    ensures
        event == LoginEvent::Bound(true) ==> r is Respond && r->Respond_0@
            == MessageView::Accepted(old(login)@.phase->Binding_preempted),
        event == LoginEvent::Bound(false) ==> r is Reject && r->response@ == MessageView::Rejected(
            "udp server failed to bind at: "@ + addr.text(),
        ) && r->error == ServerError::BindFailed(addr),
        event == LoginEvent::Responded(true) && upstream_type is Tcp ==> r == (LoginAction::Serve {
            tunnel: TunnelType::TcpIn(
                TcpTunnelInInfo { bound_port: addr, conn: old(login)@.conn },
            ),
            timeout_ms: old(server)@.config.tcp_timeout_ms,
        }),
        event == LoginEvent::Responded(true) && upstream_type is Udp ==> r == (LoginAction::Serve {
            tunnel: TunnelType::UdpIn(
                UdpTunnelInInfo { bound_port: addr, conn: old(login)@.conn },
            ),
            timeout_ms: old(server)@.config.udp_timeout_ms,
        }),
        event == LoginEvent::Responded(false) ==> r == LoginAction::Drop(
            ServerError::ResponseNotSent,
        ),
        event == LoginEvent::Probed(true) ==> r == LoginAction::Drop(
            ServerError::StillAlive(addr),
        ),
{
}

/// A password opens the server only if it is the server's, character by character.
pub proof fn only_the_same_password_passes(
    given: &str,
    own: &str,
    r: Result<(), ServerError>,
)
    requires
        call_ensures(Server::check_password, (given, own), r),
    ensures
        r is Ok <==> given@ == own@,
        r is Err ==> r->Err_0 == ServerError::PasswordMismatch,
{
}

/// An endpoint that could be bound is served once, whatever was bound before; one that could not
/// be bound leaves the server as it was.
pub proof fn bound_endpoint_is_served_once(
    first: &mut Server,
    second: &mut Server,
    third: &mut Server,
    addr: SocketAddr,
    bound: Result<SocketAddr, ServerError>,
    served: Result<(), ServerError>,
    again: Result<(), ServerError>,
)
    requires
        call_ensures(Server::bind, (first, Some(addr)), bound),
        call_ensures(Server::serve, (second,), served),
        call_ensures(Server::serve, (third,), again),
        old(second)@ == final(first)@,
        old(third)@ == final(second)@,
    ensures
        bound == Ok::<SocketAddr, ServerError>(addr),
        served is Ok,
        again == Err::<(), ServerError>(ServerError::NothingToServe),
        final(third)@.config == old(first)@.config,
        final(third)@.tcp_sessions == old(first)@.tcp_sessions,
        final(third)@.udp_sessions == old(first)@.udp_sessions,
{
}

/// Without a path to a certificate the server makes one up; with one it reads that file, and the
/// key from the other.
pub proof fn certificate_comes_from_its_file(cert_path: &str, key_path: &str, r: CertSource)
    requires
        call_ensures(Server::read_certs_and_key, (cert_path, key_path), r),
    ensures
        cert_path@.len() == 0 <==> r is SelfSigned,
        r matches CertSource::SelfSigned(name) ==> name@ == "localhost"@,
        r matches CertSource::Files { cert_path: c, key_path: k } ==> c@ == cert_path@ && k@
            == key_path@,
{
}

/// The address that a server binds is the configured one, read as a socket address; a text that is
/// none is refused.
pub proof fn configured_address_is_bound(
    server: &Server,
    addr: SocketAddr,
    r: Result<SocketAddr, ServerError>,
)
    requires
        call_ensures(Server::bind_addr, (server,), r),
        no_flow_label(addr),
    ensures
        server@.config.addr == addr.text() ==> r == Ok::<SocketAddr, ServerError>(addr),
        !server@.config.addr.contains(':') ==> r == Err::<SocketAddr, ServerError>(
            ServerError::InvalidAddress,
        ),
{
    socket_addr_round_trip(addr);
    if socket_addr_text(server@.config.addr) is Some {
        lemma_address_has_colon(server@.config.addr);
    }
}

/// Clearing takes out exactly the sessions whose connections have been closed, each from its own
/// transport, and hands them over.
pub proof fn cleared_sessions_are_handed_over(
    server: &mut Server,
    closed: &[usize],
    r: ExpiredSessions,
    session: Session,
)
    requires
        call_ensures(Server::clear_expired_sessions, (server, closed), r),
    ensures
        r.tcp@.contains(session) <==> old(server)@.tcp_sessions.contains(session)
            && closed@.contains(session.conn),
        r.udp@.contains(session) <==> old(server)@.udp_sessions.contains(session)
            && closed@.contains(session.conn),
        final(server)@.tcp_sessions.contains(session) <==> old(server)@.tcp_sessions.contains(
            session,
        ) && !closed@.contains(session.conn),
        final(server)@.udp_sessions.contains(session) <==> old(server)@.udp_sessions.contains(
            session,
        ) && !closed@.contains(session.conn),
        final(server)@.config == old(server)@.config,
        final(server)@.endpoint == old(server)@.endpoint,
{
    clearing_splits_sessions(old(server)@.tcp_sessions, closed@, session);
    clearing_splits_sessions(old(server)@.udp_sessions, closed@, session);
}

/// The connections of a server are those of all its sessions, TCP sessions first.
pub proof fn all_sessions_have_connections(server: &Server, r: Vec<usize>, i: int)
    requires
        call_ensures(Server::connections, (server,), r),
    ensures
        r@.len() == server@.tcp_sessions.len() + server@.udp_sessions.len(),
        0 <= i < server@.tcp_sessions.len() ==> r@[i] == server@.tcp_sessions[i].conn,
        0 <= i < server@.udp_sessions.len() ==> r@[server@.tcp_sessions.len() + i]
            == server@.udp_sessions[i].conn,
{
}

/// A server that has just been made keeps its configuration, has nothing to serve and no session;
/// a login that has just begun waits for its request and has asked nobody.
pub proof fn new_server_is_empty(
    config: ServerConfig,
    server: Server,
    conn: usize,
    login: Login,
    phase: LoginPhase,
)
    requires
        call_ensures(Server::new, (config,), server),
        call_ensures(Login::new, (conn,), login),
        call_ensures(Login::phase, (&login,), phase),
    ensures
        server@.config == config@,
        !server@.endpoint,
        server@.tcp_sessions.len() == 0,
        server@.udp_sessions.len() == 0,
        login@.conn == conn,
        login@.dead.len() == 0,
        login@.wf(),
        phase is Waiting,
{
}

} // verus!
