//! The server: logging clients in, and the sessions of the inbound tunnels it serves.

use crate::addr::SocketAddr;
use crate::addr_parse::{parse_socket_addr, socket_addr_text};
use crate::addr_text::push_socket_addr;
use crate::config::{
    supported_cipher_suites, CipherSuite, ServerConfig, ServerConfigView, Tunnel, TunnelConfig,
    UpstreamType,
};
use crate::connect::{settings_for, transport_settings, TransportSettings};
use crate::text::{chars_of, same_str, string_of};
use crate::tunnel_message::{LoginResponse, TunnelMessage};
use vstd::prelude::*;

verus! {

/// QUIC close code of a session whose port another client has taken over.
pub const CLOSE_PREEMPTED: u32 = 2;

/// How long the owner of a port has to show that it is alive (ms).
pub const PROBE_TIMEOUT_MS: u64 = 800;

/// How long a port is given to become free after its session has been closed (ms).
pub const PREEMPTION_DELAY_MS: u64 = 150;

/// How often expired sessions are cleared (s).
pub const CLEAR_INTERVAL_SECS: u64 = 2;

/// How often certificates are read again (s).
pub const RELOAD_INTERVAL_SECS: u64 = 86400;

/// Why the server refuses to bind, to serve or to log a client in.
#[derive(Clone, Copy, Debug, PartialEq, Eq, Structural)]
pub enum ServerError {
    /// The configured address is not one.
    InvalidAddress,
    /// The endpoint could not be bound.
    EndpointNotBound,
    /// There is no endpoint to serve.
    NothingToServe,
    /// The client sent something other than a login.
    UnexpectedMessage,
    /// The client gave another password.
    PasswordMismatch,
    /// The client asked for a tunnel without a network address.
    ChannelBasedTunnel,
    /// The client named no address to bind.
    NoBindAddress,
    /// The client named an address that is neither a loopback nor the unspecified one.
    AddressNotAllowed(SocketAddr),
    /// The owner of the address is alive.
    StillAlive(SocketAddr),
    /// The address could not be bound.
    BindFailed(SocketAddr),
    /// The client did not take the response.
    ResponseNotSent,
}

/// An inbound TCP tunnel: the server listens for the client.
#[derive(Clone, Copy, Debug, PartialEq, Eq, Structural)]
pub struct TcpTunnelInInfo {
    pub bound_port: SocketAddr,
    pub conn: usize,
}

/// An inbound UDP tunnel: the server receives datagrams for the client.
#[derive(Clone, Copy, Debug, PartialEq, Eq, Structural)]
pub struct UdpTunnelInInfo {
    pub bound_port: SocketAddr,
    pub conn: usize,
}

/// What a client that has logged in is served.
#[derive(Clone, Copy, Debug, PartialEq, Eq, Structural)]
pub enum TunnelType {
    TcpIn(TcpTunnelInInfo),
    UdpIn(UdpTunnelInInfo),
}

/// A session: the address bound for a client, and the connection to that client.
#[derive(Clone, Copy, Debug, PartialEq, Eq, Structural)]
pub struct Session {
    pub bound_port: SocketAddr,
    pub conn: usize,
}

/// Sessions whose connections have ended.
pub struct ExpiredSessions {
    pub tcp: Vec<Session>,
    pub udp: Vec<Session>,
}

/// Where the server's certificate comes from.
pub enum CertSource {
    /// It is made up for this name.
    SelfSigned(String),
    /// It is read from files.
    Files { cert_path: String, key_path: String },
}

/// TLS and transport settings of the server.
pub struct EndpointPlan {
    pub certificate: CertSource,
    pub cipher_suites: Vec<CipherSuite>,
    pub transport: TransportSettings,
}

/// The server's bookkeeping.
pub struct Server {
    config: ServerConfig,
    endpoint: bool,
    tcp_sessions: Vec<Session>,
    udp_sessions: Vec<Session>,
}

/// What the server knows.
pub struct ServerView {
    pub config: ServerConfigView,
    /// Whether there is an endpoint that is not served yet.
    pub endpoint: bool,
    pub tcp_sessions: Seq<Session>,
    pub udp_sessions: Seq<Session>,
}

impl View for Server {
    type V = ServerView;

    closed spec fn view(&self) -> ServerView {
        ServerView {
            config: self.config@,
            endpoint: self.endpoint,
            tcp_sessions: self.tcp_sessions@,
            udp_sessions: self.udp_sessions@,
        }
    }
}

/// The connection of the first session at an address, of those whose connections are not among
/// `known`.
pub open spec fn owner_at(sessions: Seq<Session>, addr: SocketAddr, known: Seq<usize>) -> Option<
    usize,
>
    decreases sessions.len(),
{
    if sessions.len() == 0 {
        None
    } else {
        match owner_at(sessions.drop_last(), addr, known) {
            Some(conn) => Some(conn),
            None => if sessions.last().bound_port == addr && !known.contains(
                sessions.last().conn,
            ) {
                Some(sessions.last().conn)
            } else {
                None
            },
        }
    }
}

/// The sessions that are, or are not, at an address.
pub open spec fn sessions_at(sessions: Seq<Session>, addr: SocketAddr, at: bool) -> Seq<Session> {
    sessions.filter(|s: Session| (s.bound_port == addr) == at)
}

/// The connections of sessions.
pub open spec fn connections_of(sessions: Seq<Session>) -> Seq<usize> {
    sessions.map_values(|s: Session| s.conn)
}

/// No two sessions are at the same address.
pub open spec fn distinct_ports(sessions: Seq<Session>) -> bool {
    forall|i: int, j: int|
        0 <= i < j < sessions.len() ==> (#[trigger] sessions[i]).bound_port != (
        #[trigger] sessions[j]).bound_port
}

/// No session is at the address.
pub open spec fn port_free(sessions: Seq<Session>, addr: SocketAddr) -> bool {
    forall|i: int| 0 <= i < sessions.len() ==> (#[trigger] sessions[i]).bound_port != addr
}

/// What `owner_at` finds is a session at the address; where it finds none, all sessions there
/// have known connections.
pub proof fn lemma_owner_at(sessions: Seq<Session>, addr: SocketAddr, known: Seq<usize>)
    ensures
        match owner_at(sessions, addr, known) {
            Some(conn) => sessions.contains(Session { bound_port: addr, conn })
                && !known.contains(conn),
            None => forall|i: int|
                0 <= i < sessions.len() && (#[trigger] sessions[i]).bound_port == addr
                    ==> known.contains(sessions[i].conn),
        },
    decreases sessions.len(),
{
    if sessions.len() > 0 {
        let shorter = sessions.drop_last();
        let last = sessions.last();
        lemma_owner_at(shorter, addr, known);
        match owner_at(shorter, addr, known) {
            Some(conn) => {
                let owner = Session { bound_port: addr, conn };
                let j = choose|j: int| 0 <= j < shorter.len() && shorter[j] == owner;
                assert(sessions[j] == owner);
            },
            None => {
                assert forall|i: int|
                    0 <= i < sessions.len() - 1 && (#[trigger] sessions[i]).bound_port
                        == addr implies known.contains(sessions[i].conn) by {
                    assert(shorter[i] == sessions[i]);
                }
                assert(sessions[sessions.len() - 1] == last);
            },
        }
    }
}

fn find_owner(sessions: &Vec<Session>, addr: SocketAddr, known: &Vec<usize>) -> (r: Option<usize>)
    ensures
        r == owner_at(sessions@, addr, known@),
{
    let mut i: usize = 0;
    let ghost all = sessions@;
    assert(all.take(0) =~= Seq::empty());
    while i < sessions.len()
        invariant
            i <= sessions@.len(),
            all == sessions@,
            owner_at(all.take(i as int), addr, known@) is None,
        decreases sessions@.len() - i,
    {
        assert(all.take(i + 1).drop_last() =~= all.take(i as int));
        assert(all.take(i + 1).last() == all[i as int]);
        if sessions[i].bound_port == addr && !holds(known.as_slice(), sessions[i].conn) {
            proof {
                lemma_owner_at_prefix(all, addr, known@, i + 1);
            }
            return Some(sessions[i].conn);
        }
        i += 1;
    }
    assert(all.take(all.len() as int) =~= all);
    None
}

proof fn lemma_owner_at_prefix(
    sessions: Seq<Session>,
    addr: SocketAddr,
    known: Seq<usize>,
    n: int,
)
    requires
        0 <= n <= sessions.len(),
        owner_at(sessions.take(n), addr, known) is Some,
    ensures
        owner_at(sessions, addr, known) == owner_at(sessions.take(n), addr, known),
    decreases sessions.len() - n,
{
    if n < sessions.len() {
        assert(sessions.take(n + 1).drop_last() =~= sessions.take(n));
        lemma_owner_at_prefix(sessions, addr, known, n + 1);
    } else {
        assert(sessions.take(n) =~= sessions);
    }
}

/// Takes the sessions at an address out, and adds their connections to `closed`.
fn take_at(sessions: &mut Vec<Session>, addr: SocketAddr, closed: &mut Vec<usize>)
    ensures
        final(sessions)@ == sessions_at(old(sessions)@, addr, false),
        final(closed)@ == old(closed)@ + connections_of(sessions_at(old(sessions)@, addr, true)),
{
    let ghost all = sessions@;
    let ghost before = closed@;
    let mut kept: Vec<Session> = Vec::new();
    let mut i: usize = 0;
    proof {
        reveal(Seq::filter);
        assert(all.take(0) =~= Seq::empty());
        assert(closed@ =~= before + connections_of(sessions_at(all.take(0), addr, true)));
    }
    while i < sessions.len()
        invariant
            i <= sessions@.len(),
            all == sessions@,
            kept@ == sessions_at(all.take(i as int), addr, false),
            closed@ == before + connections_of(sessions_at(all.take(i as int), addr, true)),
        decreases sessions@.len() - i,
    {
        let ghost gone = sessions_at(all.take(i as int), addr, true);
        proof {
            reveal(Seq::filter);
            assert(all.take(i + 1).drop_last() =~= all.take(i as int));
            assert(all.take(i + 1).last() == all[i as int]);
        }
        let session = sessions[i];
        if session.bound_port == addr {
            closed.push(session.conn);
            assert(connections_of(gone.push(session)) =~= connections_of(gone).push(session.conn));
            assert(closed@ =~= before + connections_of(gone.push(session)));
        } else {
            kept.push(session);
        }
        i += 1;
    }
    assert(all.take(all.len() as int) =~= all);
    *sessions = kept;
}

/// Sessions whose connection is, or is not, among `conns`.
pub open spec fn sessions_of(sessions: Seq<Session>, conns: Seq<usize>, among: bool) -> Seq<
    Session,
> {
    sessions.filter(|s: Session| conns.contains(s.conn) == among)
}

fn holds(conns: &[usize], conn: usize) -> (r: bool)
    ensures
        r == conns@.contains(conn),
{
    let mut i: usize = 0;
    while i < conns.len()
        invariant
            i <= conns@.len(),
            forall|j: int| 0 <= j < i ==> #[trigger] conns@[j] != conn,
        decreases conns@.len() - i,
    {
        if conns[i] == conn {
            assert(conns@[i as int] == conn);
            return true;
        }
        i += 1;
    }
    false
}

/// Takes the sessions out whose connections are among `closed`, and returns them.
fn take_closed(sessions: &mut Vec<Session>, closed: &[usize]) -> (expired: Vec<Session>)
    ensures
        final(sessions)@ == sessions_of(old(sessions)@, closed@, false),
        expired@ == sessions_of(old(sessions)@, closed@, true),
{
    let ghost all = sessions@;
    let mut kept: Vec<Session> = Vec::new();
    let mut expired: Vec<Session> = Vec::new();
    let mut i: usize = 0;
    proof {
        reveal(Seq::filter);
        assert(all.take(0) =~= Seq::empty());
    }
    while i < sessions.len()
        invariant
            i <= sessions@.len(),
            all == sessions@,
            kept@ == sessions_of(all.take(i as int), closed@, false),
            expired@ == sessions_of(all.take(i as int), closed@, true),
        decreases sessions@.len() - i,
    {
        proof {
            reveal(Seq::filter);
            assert(all.take(i + 1).drop_last() =~= all.take(i as int));
            assert(all.take(i + 1).last() == all[i as int]);
        }
        let session = sessions[i];
        if holds(closed, session.conn) {
            expired.push(session);
        } else {
            kept.push(session);
        }
        i += 1;
    }
    assert(all.take(all.len() as int) =~= all);
    *sessions = kept;
    expired
}

impl Server {
    /// Creates a server with the given runtime configuration.
    pub fn new(config: ServerConfig) -> (r: Server)
        ensures
            r@ == (ServerView {
                config: config@,
                endpoint: false,
                tcp_sessions: Seq::empty(),
                udp_sessions: Seq::empty(),
            }),
    {
        Server { config, endpoint: false, tcp_sessions: Vec::new(), udp_sessions: Vec::new() }
    }

    /// A copy of the server's configuration.
    pub fn get_config(&self) -> (r: ServerConfig)
        ensures
            r@ == self@.config,
    {
        self.config.clone()
    }

    /// The address on which to bind the endpoint.
    pub fn bind_addr(&self) -> (r: Result<SocketAddr, ServerError>)
        ensures
            r == (match socket_addr_text(self@.config.addr) {
                Some(addr) => Ok::<SocketAddr, ServerError>(addr),
                None => Err::<SocketAddr, ServerError>(ServerError::InvalidAddress),
            }),
    {
        let chars = chars_of(self.config.addr.as_str());
        match parse_socket_addr(chars.as_slice()) {
            Some(addr) => Ok(addr),
            None => Err(ServerError::InvalidAddress),
        }
    }

    /// Takes note of the endpoint, bound at the given address if it could be bound, and returns
    /// that address.
    pub fn bind(&mut self, bound: Option<SocketAddr>) -> (r: Result<SocketAddr, ServerError>)
        ensures
            match bound {
                Some(addr) => r == Ok::<SocketAddr, ServerError>(addr) && final(self)@ == (
                ServerView { endpoint: true, ..old(self)@ }),
                None => r == Err::<SocketAddr, ServerError>(ServerError::EndpointNotBound)
                    && final(self)@ == old(self)@,
            },
    {
        match bound {
            Some(addr) => {
                self.endpoint = true;
                Ok(addr)
            },
            None => Err(ServerError::EndpointNotBound),
        }
    }

    /// Takes the endpoint to serve it; it can be taken once.
    pub fn serve(&mut self) -> (r: Result<(), ServerError>)
        ensures
            r == (if old(self)@.endpoint {
                Ok::<(), ServerError>(())
            } else {
                Err::<(), ServerError>(ServerError::NothingToServe)
            }),
            final(self)@ == (ServerView { endpoint: false, ..old(self)@ }),
    {
        if self.endpoint {
            self.endpoint = false;
            Ok(())
        } else {
            Err(ServerError::NothingToServe)
        }
    }

    /// Where the certificate comes from: without a path to one, it is made up for "localhost".
    pub fn read_certs_and_key(cert_path: &str, key_path: &str) -> (r: CertSource)
        ensures
            cert_path@.len() == 0 ==> r is SelfSigned && r->0@ == "localhost"@,
            cert_path@.len() > 0 ==> r is Files && r->cert_path@ == cert_path@ && r->key_path@
                == key_path@,
    {
        if cert_path.is_empty() {
            CertSource::SelfSigned("localhost".to_owned())
        } else {
            CertSource::Files { cert_path: cert_path.to_owned(), key_path: key_path.to_owned() }
        }
    }

    /// The settings of the endpoint.
    pub fn load_quinn_server_config(&self) -> (r: EndpointPlan)
        requires
            self@.config.quic_timeout_ms * 2 <= u64::MAX,
        ensures
            self@.config.cert_path.len() == 0 ==> r.certificate is SelfSigned
                && r.certificate->0@ == "localhost"@,
            self@.config.cert_path.len() > 0 ==> r.certificate is Files
                && r.certificate->cert_path@ == self@.config.cert_path && r.certificate->key_path@
                == self@.config.key_path,
            r.cipher_suites@ == seq![
                CipherSuite::Aes128Gcm,
                CipherSuite::Chacha20Poly1305,
                CipherSuite::Aes256Gcm,
            ],
            r.transport == settings_for(self@.config.quic_timeout_ms),
    {
        EndpointPlan {
            certificate: Server::read_certs_and_key(
                self.config.cert_path.as_str(),
                self.config.key_path.as_str(),
            ),
            cipher_suites: supported_cipher_suites(),
            transport: transport_settings(self.config.quic_timeout_ms),
        }
    }

    /// Connections of all sessions.
    pub fn connections(&self) -> (r: Vec<usize>)
        ensures
            r@ == (self@.tcp_sessions + self@.udp_sessions).map_values(|s: Session| s.conn),
    {
        let mut conns: Vec<usize> = Vec::new();
        let ghost all = (self@.tcp_sessions + self@.udp_sessions).map_values(|s: Session| s.conn);
        let n: usize = self.tcp_sessions.len();
        let m: usize = self.udp_sessions.len();
        let mut i: usize = 0;
        while i < n
            invariant
                i <= n,
                n == self.tcp_sessions@.len(),
                all == (self@.tcp_sessions + self@.udp_sessions).map_values(|s: Session| s.conn),
                conns@ == all.take(i as int),
            decreases n - i,
        {
            conns.push(self.tcp_sessions[i].conn);
            assert(conns@ =~= all.take(i + 1));
            i += 1;
        }
        let mut j: usize = 0;
        while j < m
            invariant
                j <= m,
                n == self.tcp_sessions@.len(),
                m == self.udp_sessions@.len(),
                all == (self@.tcp_sessions + self@.udp_sessions).map_values(|s: Session| s.conn),
                conns@ == all.take(n + j),
            decreases m - j,
        {
            conns.push(self.udp_sessions[j].conn);
            assert(conns@ =~= all.take(n + j + 1));
            j += 1;
        }
        assert(all.take(all.len() as int) =~= all);
        conns
    }

    /// Takes the sessions out whose connections have been closed, and returns them.
    pub fn clear_expired_sessions(&mut self, closed: &[usize]) -> (r: ExpiredSessions)
        ensures
            r.tcp@ == sessions_of(old(self)@.tcp_sessions, closed@, true),
            r.udp@ == sessions_of(old(self)@.udp_sessions, closed@, true),
            final(self)@ == (ServerView {
                tcp_sessions: sessions_of(old(self)@.tcp_sessions, closed@, false),
                udp_sessions: sessions_of(old(self)@.udp_sessions, closed@, false),
                ..old(self)@
            }),
    {
        let udp = take_closed(&mut self.udp_sessions, closed);
        let tcp = take_closed(&mut self.tcp_sessions, closed);
        ExpiredSessions { tcp, udp }
    }

    /// Refuses a password that is not the given one.
    pub fn check_password(password1: &str, password2: &str) -> (r: Result<(), ServerError>)
        ensures
            r == (if password1@ == password2@ {
                Ok::<(), ServerError>(())
            } else {
                Err::<(), ServerError>(ServerError::PasswordMismatch)
            }),
    {
        if same_str(password1, password2) {
            Ok(())
        } else {
            Err(ServerError::PasswordMismatch)
        }
    }
}

/// The connection to ask next whether it is alive, of those at an address that are not among
/// `known`; a UDP session is asked before a TCP session.
pub open spec fn owner_of(server: ServerView, addr: SocketAddr, known: Seq<usize>) -> Option<
    usize,
> {
    match owner_at(server.udp_sessions, addr, known) {
        Some(conn) => Some(conn),
        None => owner_at(server.tcp_sessions, addr, known),
    }
}

/// The connections closed when an address is taken over.
pub open spec fn preempted_at(server: ServerView, addr: SocketAddr) -> Seq<usize> {
    connections_of(sessions_at(server.tcp_sessions, addr, true)) + connections_of(
        sessions_at(server.udp_sessions, addr, true),
    )
}

/// What the server knows once an address has been taken over.
pub open spec fn after_preemption(server: ServerView, addr: SocketAddr) -> ServerView {
    ServerView {
        tcp_sessions: sessions_at(server.tcp_sessions, addr, false),
        udp_sessions: sessions_at(server.udp_sessions, addr, false),
        ..server
    }
}

/// What the server knows once a tunnel is served.
pub open spec fn with_session(server: ServerView, tunnel: TunnelType) -> ServerView {
    match tunnel {
        TunnelType::TcpIn(info) => ServerView {
            tcp_sessions: server.tcp_sessions.push(
                Session { bound_port: info.bound_port, conn: info.conn },
            ),
            ..server
        },
        TunnelType::UdpIn(info) => ServerView {
            udp_sessions: server.udp_sessions.push(
                Session { bound_port: info.bound_port, conn: info.conn },
            ),
            ..server
        },
    }
}

/// The reason given to a client whose address could not be bound.
pub open spec fn bind_failure(addr: SocketAddr) -> Seq<char> {
    "udp server failed to bind at: "@ + addr.text()
}

impl Server {
    fn owner(&self, addr: SocketAddr, known: &Vec<usize>) -> (r: Option<usize>)
        ensures
            r == owner_of(self@, addr, known@),
    {
        match find_owner(&self.udp_sessions, addr, known) {
            Some(conn) => Some(conn),
            None => find_owner(&self.tcp_sessions, addr, known),
        }
    }

    fn preempt(&mut self, addr: SocketAddr) -> (closed: Vec<usize>)
        ensures
            closed@ == preempted_at(old(self)@, addr),
            final(self)@ == after_preemption(old(self)@, addr),
    {
        let mut closed: Vec<usize> = Vec::new();
        take_at(&mut self.tcp_sessions, addr, &mut closed);
        take_at(&mut self.udp_sessions, addr, &mut closed);
        assert(closed@ =~= preempted_at(old(self)@, addr));
        closed
    }

    fn register(&mut self, tunnel: TunnelType)
        ensures
            final(self)@ == with_session(old(self)@, tunnel),
    {
        match tunnel {
            TunnelType::TcpIn(info) => {
                self.tcp_sessions.push(Session { bound_port: info.bound_port, conn: info.conn });
            },
            TunnelType::UdpIn(info) => {
                self.udp_sessions.push(Session { bound_port: info.bound_port, conn: info.conn });
            },
        }
    }
}

/// What a login asks for, or why it is refused without a word.
pub open spec fn requested(config: ServerConfigView, message: TunnelMessage) -> Result<
    TunnelConfig,
    ServerError,
> {
    match message {
        TunnelMessage::Login(request) => if request.password@ != config.password {
            Err(ServerError::PasswordMismatch)
        } else {
            match request.tunnel {
                Tunnel::NetworkBased(tunnel) => Ok(tunnel),
                Tunnel::ChannelBased(_) => Err(ServerError::ChannelBasedTunnel),
            }
        },
        TunnelMessage::LoginResponse(_) => Err(ServerError::UnexpectedMessage),
    }
}

/// The address to bind for a tunnel, or why it is refused without a word.
pub open spec fn bindable(tunnel: TunnelConfig) -> Result<SocketAddr, ServerError> {
    match tunnel.upstream.upstream_addr {
        None => Err(ServerError::NoBindAddress),
        Some(addr) => if addr.spec_ip().unspecified() || addr.spec_ip().loopback() {
            Ok(addr)
        } else {
            Err(ServerError::AddressNotAllowed(addr))
        },
    }
}

/// How far a client has come in logging in.
#[derive(Clone, Copy, Debug, PartialEq, Eq, Structural)]
pub enum LoginPhase {
    /// Its request is awaited.
    Waiting,
    /// An owner of the address, the client of this connection, is being asked whether it is alive.
    Probing { addr: SocketAddr, upstream_type: UpstreamType, asked: usize },
    /// The address is being bound.
    Binding { addr: SocketAddr, upstream_type: UpstreamType, preempted: bool },
    /// The response is being sent.
    Responding { addr: SocketAddr, upstream_type: UpstreamType },
    /// It is served.
    Serving,
    /// It has been refused.
    Refused,
}

/// What happened while a client logs in.
pub enum LoginEvent {
    /// This message came.
    Received(TunnelMessage),
    /// The owner that was asked is alive, or is not.
    Probed(bool),
    /// The address has been bound, or could not be.
    Bound(bool),
    /// The response has been sent, or could not be.
    Responded(bool),
}

/// What to do for a client that logs in.
pub enum LoginAction {
    /// Ask whether the client of this connection is alive; wait at most `PROBE_TIMEOUT_MS`.
    Probe(usize),
    /// Close these connections with `CLOSE_PREEMPTED` and "preempted", wait for
    /// `PREEMPTION_DELAY_MS` if the address has been taken over, and bind it.
    Bind { addr: SocketAddr, upstream_type: UpstreamType, closed: Vec<usize>, preempted: bool },
    /// Send this response.
    Respond(TunnelMessage),
    /// Send this response and drop the client.
    Reject { response: TunnelMessage, error: ServerError },
    /// Drop the client.
    Drop(ServerError),
    /// Serve the tunnel, with this idle timeout of its streams (ms).
    Serve { tunnel: TunnelType, timeout_ms: u64 },
}

/// What `LoginAction` says.
#[verifier::ext_equal]
pub enum LoginActionView {
    Probe(usize),
    Bind { addr: SocketAddr, upstream_type: UpstreamType, closed: Seq<usize>, preempted: bool },
    /// The client is told that it has been accepted; whether it replaces another.
    Accept(bool),
    /// The client is told this reason and dropped.
    Reject(Seq<char>, ServerError),
    Drop(ServerError),
    Serve { tunnel: TunnelType, timeout_ms: u64 },
    /// No action of the server.
    Other,
}

impl View for LoginAction {
    type V = LoginActionView;

    open spec fn view(&self) -> LoginActionView {
        match self {
            LoginAction::Probe(conn) => LoginActionView::Probe(*conn),
            LoginAction::Bind { addr, upstream_type, closed, preempted } => LoginActionView::Bind {
                addr: *addr,
                upstream_type: *upstream_type,
                closed: closed@,
                preempted: *preempted,
            },
            LoginAction::Respond(
                TunnelMessage::LoginResponse(LoginResponse::Accepted { replaced_previous }),
            ) => LoginActionView::Accept(*replaced_previous),
            LoginAction::Reject {
                response: TunnelMessage::LoginResponse(LoginResponse::Rejected { reason }),
                error,
            } => LoginActionView::Reject(reason@, *error),
            LoginAction::Drop(error) => LoginActionView::Drop(*error),
            LoginAction::Serve { tunnel, timeout_ms } => LoginActionView::Serve {
                tunnel: *tunnel,
                timeout_ms: *timeout_ms,
            },
            _ => LoginActionView::Other,
        }
    }
}

/// A client that logs in over the given connection.
pub struct Login {
    conn: usize,
    phase: LoginPhase,
    dead: Vec<usize>,
}

/// What `Login` says.
#[verifier::ext_equal]
pub struct LoginView {
    pub conn: usize,
    pub phase: LoginPhase,
    /// Connections of owners of the address that were asked and are not alive.
    pub dead: Seq<usize>,
}

impl View for Login {
    type V = LoginView;

    closed spec fn view(&self) -> LoginView {
        LoginView { conn: self.conn, phase: self.phase, dead: self.dead@ }
    }
}

/// The tunnel that a connection asks for.
pub open spec fn tunnel_type(upstream_type: UpstreamType, addr: SocketAddr, conn: usize) -> TunnelType {
    match upstream_type {
        UpstreamType::Tcp => TunnelType::TcpIn(TcpTunnelInInfo { bound_port: addr, conn }),
        UpstreamType::Udp => TunnelType::UdpIn(UdpTunnelInInfo { bound_port: addr, conn }),
    }
}

/// The idle timeout for the streams of a transport (ms).
pub open spec fn served_timeout(upstream_type: UpstreamType, config: ServerConfigView) -> u64 {
    match upstream_type {
        UpstreamType::Tcp => config.tcp_timeout_ms,
        UpstreamType::Udp => config.udp_timeout_ms,
    }
}

impl LoginView {
    /// Nobody has been asked before the request has come.
    pub open spec fn wf(self) -> bool {
        self.phase is Waiting ==> self.dead.len() == 0
    }

    /// Whether the event can happen in this phase.
    pub open spec fn may_see(self, event: LoginEvent) -> bool {
        match event {
            LoginEvent::Received(_) => self.phase is Waiting,
            LoginEvent::Probed(_) => self.phase is Probing,
            LoginEvent::Bound(_) => self.phase is Binding,
            LoginEvent::Responded(_) => self.phase is Responding,
        }
    }

    /// In another phase.
    pub open spec fn to(self, phase: LoginPhase) -> LoginView {
        LoginView { phase, ..self }
    }

    /// Refused without a word.
    pub open spec fn drop_with(self, server: ServerView, error: ServerError) -> (
        LoginView,
        ServerView,
        LoginActionView,
    ) {
        (self.to(LoginPhase::Refused), server, LoginActionView::Drop(error))
    }

    /// Asks the next owner of the address. Where all have been asked, and none is alive, the
    /// address is taken over and bound.
    pub open spec fn ask_or_bind(
        self,
        server: ServerView,
        addr: SocketAddr,
        upstream_type: UpstreamType,
    ) -> (LoginView, ServerView, LoginActionView) {
        match owner_of(server, addr, self.dead) {
            Some(asked) => (
                self.to(LoginPhase::Probing { addr, upstream_type, asked }),
                server,
                LoginActionView::Probe(asked),
            ),
            None => {
                let preempted = self.dead.len() > 0;
                (
                    self.to(LoginPhase::Binding { addr, upstream_type, preempted }),
                    after_preemption(server, addr),
                    LoginActionView::Bind {
                        addr,
                        upstream_type,
                        closed: preempted_at(server, addr),
                        preempted,
                    },
                )
            },
        }
    }

    /// What an event leads to: the login, what the server knows, and what to do.
    pub open spec fn after(self, server: ServerView, event: LoginEvent) -> (
        LoginView,
        ServerView,
        LoginActionView,
    ) {
        match (event, self.phase) {
            (LoginEvent::Received(message), _) => match requested(server.config, message) {
                Err(e) => self.drop_with(server, e),
                Ok(tunnel) => match bindable(tunnel) {
                    Err(e) => self.drop_with(server, e),
                    Ok(addr) => self.ask_or_bind(server, addr, tunnel.upstream.upstream_type),
                },
            },
            (
                LoginEvent::Probed(alive),
                LoginPhase::Probing { addr, upstream_type, asked },
            ) => if alive {
                self.drop_with(server, ServerError::StillAlive(addr))
            } else {
                (LoginView { dead: self.dead.push(asked), ..self }).ask_or_bind(
                    server,
                    addr,
                    upstream_type,
                )
            },
            (
                LoginEvent::Bound(bound),
                LoginPhase::Binding { addr, upstream_type, preempted },
            ) => if bound {
                (
                    self.to(LoginPhase::Responding { addr, upstream_type }),
                    server,
                    LoginActionView::Accept(preempted),
                )
            } else {
                (
                    self.to(LoginPhase::Refused),
                    server,
                    LoginActionView::Reject(bind_failure(addr), ServerError::BindFailed(addr)),
                )
            },
            (LoginEvent::Responded(sent), LoginPhase::Responding { addr, upstream_type }) => if sent {
                let tunnel = tunnel_type(upstream_type, addr, self.conn);
                (
                    self.to(LoginPhase::Serving),
                    with_session(server, tunnel),
                    LoginActionView::Serve {
                        tunnel,
                        timeout_ms: served_timeout(upstream_type, server.config),
                    },
                )
            } else {
                self.drop_with(server, ServerError::ResponseNotSent)
            },
            _ => (self, server, LoginActionView::Other),
        }
    }
}

impl Login {
    /// A client whose request is awaited.
    pub fn new(conn: usize) -> (r: Login)
        ensures
            r@ == (LoginView { conn, phase: LoginPhase::Waiting, dead: Seq::empty() }),
            r@.wf(),
    {
        Login { conn, phase: LoginPhase::Waiting, dead: Vec::new() }
    }

    /// How far the client has come.
    pub fn phase(&self) -> (r: LoginPhase)
        ensures
            r == self@.phase,
    {
        self.phase
    }

    /// Takes note of an event and tells what to do.
    pub fn authenticate_connection(&mut self, server: &mut Server, event: LoginEvent) -> (r:
        LoginAction)
        requires
            old(self)@.wf(),
            old(self)@.may_see(event),
        ensures
            final(self)@.wf(),
            final(self)@ == old(self)@.after(old(server)@, event).0,
            final(server)@ == old(self)@.after(old(server)@, event).1,
            r@ == old(self)@.after(old(server)@, event).2,
    {
        match event {
            LoginEvent::Received(message) => match Login::requested_tunnel(server, &message) {
                Err(e) => {
                    self.phase = LoginPhase::Refused;
                    LoginAction::Drop(e)
                },
                Ok(tunnel) => self.derive_tunnel_type(server, tunnel),
            },
            LoginEvent::Probed(alive) => match self.phase {
                LoginPhase::Probing { addr, upstream_type, asked } => if alive {
                    self.phase = LoginPhase::Refused;
                    LoginAction::Drop(ServerError::StillAlive(addr))
                } else {
                    self.dead.push(asked);
                    self.ask_or_bind(server, addr, upstream_type)
                },
                _ => LoginAction::Drop(ServerError::UnexpectedMessage),
            },
            LoginEvent::Bound(bound) => match self.phase {
                LoginPhase::Binding { addr, upstream_type, preempted } => if bound {
                    self.phase = LoginPhase::Responding { addr, upstream_type };
                    LoginAction::Respond(
                        TunnelMessage::LoginResponse(
                            LoginResponse::Accepted { replaced_previous: preempted },
                        ),
                    )
                } else {
                    self.phase = LoginPhase::Refused;
                    let mut v = chars_of("udp server failed to bind at: ");
                    push_socket_addr(&mut v, addr);
                    assert(v@ =~= bind_failure(addr));
                    LoginAction::Reject {
                        response: TunnelMessage::send_rejection(string_of(v.as_slice())),
                        error: ServerError::BindFailed(addr),
                    }
                },
                _ => LoginAction::Drop(ServerError::UnexpectedMessage),
            },
            LoginEvent::Responded(sent) => match self.phase {
                LoginPhase::Responding { addr, upstream_type } => if sent {
                    let tunnel = match upstream_type {
                        UpstreamType::Tcp => TunnelType::TcpIn(
                            TcpTunnelInInfo { bound_port: addr, conn: self.conn },
                        ),
                        UpstreamType::Udp => TunnelType::UdpIn(
                            UdpTunnelInInfo { bound_port: addr, conn: self.conn },
                        ),
                    };
                    let timeout_ms: u64 = match upstream_type {
                        UpstreamType::Tcp => server.config.tcp_timeout_ms,
                        UpstreamType::Udp => server.config.udp_timeout_ms,
                    };
                    server.register(tunnel);
                    self.phase = LoginPhase::Serving;
                    LoginAction::Serve { tunnel, timeout_ms }
                } else {
                    self.phase = LoginPhase::Refused;
                    LoginAction::Drop(ServerError::ResponseNotSent)
                },
                _ => LoginAction::Drop(ServerError::UnexpectedMessage),
            },
        }
    }

    fn ask_or_bind(
        &mut self,
        server: &mut Server,
        addr: SocketAddr,
        upstream_type: UpstreamType,
    ) -> (r: LoginAction)
        ensures
            final(self)@ == old(self)@.ask_or_bind(old(server)@, addr, upstream_type).0,
            final(server)@ == old(self)@.ask_or_bind(old(server)@, addr, upstream_type).1,
            r@ == old(self)@.ask_or_bind(old(server)@, addr, upstream_type).2,
    {
        match server.owner(addr, &self.dead) {
            Some(asked) => {
                self.phase = LoginPhase::Probing { addr, upstream_type, asked };
                LoginAction::Probe(asked)
            },
            None => {
                let preempted = self.dead.len() > 0;
                let closed = server.preempt(addr);
                self.phase = LoginPhase::Binding { addr, upstream_type, preempted };
                LoginAction::Bind { addr, upstream_type, closed, preempted }
            },
        }
    }

    fn requested_tunnel(server: &Server, message: &TunnelMessage) -> (r: Result<
        TunnelConfig,
        ServerError,
    >)
        ensures
            r == requested(server@.config, *message),
    {
        match message {
            TunnelMessage::Login(request) => {
                match Server::check_password(
                    server.config.password.as_str(),
                    request.password.as_str(),
                ) {
                    Err(e) => Err(e),
                    Ok(()) => match request.tunnel {
                        Tunnel::NetworkBased(tunnel) => Ok(tunnel),
                        Tunnel::ChannelBased(_) => Err(ServerError::ChannelBasedTunnel),
                    },
                }
            },
            TunnelMessage::LoginResponse(_) => Err(ServerError::UnexpectedMessage),
        }
    }

    fn derive_tunnel_type(&mut self, server: &mut Server, tunnel: TunnelConfig) -> (r: LoginAction)
        ensures
            match bindable(tunnel) {
                Err(e) => (final(self)@, final(server)@, r@) == old(self)@.drop_with(
                    old(server)@,
                    e,
                ),
                Ok(addr) => (final(self)@, final(server)@, r@) == old(self)@.ask_or_bind(
                    old(server)@,
                    addr,
                    tunnel.upstream.upstream_type,
                ),
            },
    {
        let addr = match tunnel.upstream.upstream_addr {
            Some(addr) => addr,
            None => {
                self.phase = LoginPhase::Refused;
                return LoginAction::Drop(ServerError::NoBindAddress);
            },
        };
        if !addr.ip().is_unspecified() && !addr.ip().is_loopback() {
            self.phase = LoginPhase::Refused;
            return LoginAction::Drop(ServerError::AddressNotAllowed(addr));
        }
        self.ask_or_bind(server, addr, tunnel.upstream.upstream_type)
    }
}

/// A login that is refused leaves all sessions as they are and closes no connection. It is refused
/// whenever an owner of its address that was asked is alive.
pub proof fn refused_login_disrupts_nobody(login: LoginView, server: ServerView, event: LoginEvent)
    requires
        login.may_see(event),
    ensures
        login.after(server, event).0.phase is Refused ==> login.after(server, event).1 == server
            && (login.after(server, event).2 is Drop || login.after(server, event).2 is Reject),
        event == LoginEvent::Probed(true) ==> login.after(server, event).0.phase is Refused,
{
}

/// Only a client that gave the password of the server gets past its request.
pub proof fn password_is_required(login: LoginView, server: ServerView, message: TunnelMessage)
    requires
        login.phase is Waiting,
        !(login.after(server, LoginEvent::Received(message)).0.phase is Refused),
    ensures
        message is Login,
        message->Login_0.password@ == server.config.password,
{
}

/// Whether a session is one of the server's.
pub open spec fn has_session(server: ServerView, session: Session) -> bool {
    server.tcp_sessions.contains(session) || server.udp_sessions.contains(session)
}

/// An owner of an address keeps it until it has been asked itself and is not alive: no login takes
/// the session of any other connection out or closes that connection. A connection counts as not
/// alive only after it has been asked.
pub proof fn only_the_dead_lose_their_ports(
    login: LoginView,
    server: ServerView,
    event: LoginEvent,
    session: Session,
    conn: usize,
)
    requires
        login.wf(),
        login.may_see(event),
    ensures
        has_session(server, session) && !has_session(login.after(server, event).1, session)
            ==> login.after(server, event).0.dead.contains(session.conn),
        login.after(server, event).2 matches LoginActionView::Bind { closed, .. }
            && closed.contains(conn) ==> login.after(server, event).0.dead.contains(conn),
        login.after(server, event).0.dead == (if event == LoginEvent::Probed(false) {
            login.dead.push(login.phase->Probing_asked)
        } else {
            login.dead
        }),
{
    let (login1, _, action) = login.after(server, event);
    match action {
        LoginActionView::Bind { addr, closed, .. } => {
            lemma_all_dead(server, addr, login1.dead);
            lemma_sessions_at(server.tcp_sessions, addr, false, session);
            lemma_sessions_at(server.udp_sessions, addr, false, session);
            let tcp = sessions_at(server.tcp_sessions, addr, true);
            let udp = sessions_at(server.udp_sessions, addr, true);
            if closed.contains(conn) {
                let j = choose|j: int| 0 <= j < closed.len() && closed[j] == conn;
                let owner = if j < tcp.len() {
                    tcp[j]
                } else {
                    udp[j - tcp.len()]
                };
                assert(owner.conn == conn);
                lemma_sessions_at(server.tcp_sessions, addr, true, owner);
                lemma_sessions_at(server.udp_sessions, addr, true, owner);
                assert(tcp.contains(owner) || udp.contains(owner));
                assert(has_session(server, owner) && owner.bound_port == addr);
            }
        },
        LoginActionView::Serve { tunnel, .. } => {
            let mine = match tunnel {
                TunnelType::TcpIn(info) => Session { bound_port: info.bound_port, conn: info.conn },
                TunnelType::UdpIn(info) => Session { bound_port: info.bound_port, conn: info.conn },
            };
            lemma_push_contains(server.tcp_sessions, mine, session);
            lemma_push_contains(server.udp_sessions, mine, session);
        },
        _ => {},
    }
}

proof fn lemma_all_dead(server: ServerView, addr: SocketAddr, dead: Seq<usize>)
    requires
        owner_of(server, addr, dead) is None,
    ensures
        forall|s: Session| #[trigger]
            has_session(server, s) && s.bound_port == addr ==> dead.contains(s.conn),
{
    lemma_owner_at(server.tcp_sessions, addr, dead);
    lemma_owner_at(server.udp_sessions, addr, dead);
    assert forall|s: Session| #[trigger]
        has_session(server, s) && s.bound_port == addr implies dead.contains(s.conn) by {
        if server.tcp_sessions.contains(s) {
            let j = choose|j: int|
                0 <= j < server.tcp_sessions.len() && server.tcp_sessions[j] == s;
            assert(server.tcp_sessions[j].bound_port == addr);
        } else {
            let j = choose|j: int|
                0 <= j < server.udp_sessions.len() && server.udp_sessions[j] == s;
            assert(server.udp_sessions[j].bound_port == addr);
        }
    }
}

proof fn lemma_sessions_at(sessions: Seq<Session>, addr: SocketAddr, at: bool, session: Session)
    ensures
        sessions_at(sessions, addr, at).contains(session) <==> sessions.contains(session) && (
        session.bound_port == addr) == at,
    decreases sessions.len(),
{
    reveal(Seq::filter);
    if sessions.len() > 0 {
        let shorter = sessions.drop_last();
        let last = sessions.last();
        lemma_sessions_at(shorter, addr, at, session);
        assert(sessions =~= shorter.push(last));
        lemma_push_contains(shorter, last, session);
        lemma_push_contains(sessions_at(shorter, addr, at), last, session);
    }
}

/// Where no session is at an address, taking it over closes no connection and takes no session
/// out; where it is taken over, all connections of its sessions are closed, and no others.
pub proof fn lemma_session_split(sessions: Seq<Session>, addr: SocketAddr)
    ensures
        port_free(sessions, addr) ==> sessions_at(sessions, addr, false) == sessions,
        port_free(sessions, addr) ==> connections_of(sessions_at(sessions, addr, true)).len() == 0,
        forall|conn: usize| #[trigger]
            connections_of(sessions_at(sessions, addr, true)).contains(conn)
                <==> sessions.contains(Session { bound_port: addr, conn }),
        forall|s: Session| #[trigger]
            sessions_at(sessions, addr, false).contains(s) <==> sessions.contains(s)
                && s.bound_port != addr,
    decreases sessions.len(),
{
    reveal(Seq::filter);
    let at = sessions_at(sessions, addr, true);
    if sessions.len() > 0 && port_free(sessions, addr) {
        let shorter = sessions.drop_last();
        assert forall|i: int| 0 <= i < shorter.len() implies (#[trigger] shorter[i]).bound_port
            != addr by {
            assert(shorter[i] == sessions[i]);
        }
        lemma_session_split(shorter, addr);
        assert(sessions[sessions.len() - 1] == sessions.last());
        assert(sessions =~= shorter.push(sessions.last()));
        assert(connections_of(sessions_at(shorter, addr, true)).len() == 0);
    }
    assert forall|conn: usize| #[trigger] connections_of(at).contains(conn) <==> sessions.contains(
        Session { bound_port: addr, conn },
    ) by {
        let owner = Session { bound_port: addr, conn };
        lemma_sessions_at(sessions, addr, true, owner);
        if connections_of(at).contains(conn) {
            let j = choose|j: int| 0 <= j < at.len() && connections_of(at)[j] == conn;
            lemma_sessions_at(sessions, addr, true, at[j]);
            assert(at.contains(at[j]));
            assert(at[j] == owner);
        }
        if sessions.contains(owner) {
            let j = choose|j: int| 0 <= j < at.len() && at[j] == owner;
            assert(connections_of(at)[j] == conn);
        }
    }
    assert forall|s: Session| #[trigger]
        sessions_at(sessions, addr, false).contains(s) <==> sessions.contains(s) && s.bound_port
            != addr by {
        lemma_sessions_at(sessions, addr, false, s);
    }
}

/// The address that a login is about, once it is known.
pub open spec fn login_addr(login: LoginView) -> Option<SocketAddr> {
    match login.phase {
        LoginPhase::Probing { addr, .. } => Some(addr),
        LoginPhase::Binding { addr, .. } => Some(addr),
        LoginPhase::Responding { addr, .. } => Some(addr),
        _ => None,
    }
}

/// A login leaves the sessions at all other addresses as they are.
pub proof fn login_leaves_other_ports_alone(
    login: LoginView,
    server: ServerView,
    event: LoginEvent,
    session: Session,
)
    requires
        login.wf(),
        login.may_see(event),
        login_addr(login) != Some(session.bound_port),
    ensures
        login.after(server, event).1.tcp_sessions.contains(session)
            <==> server.tcp_sessions.contains(session),
        login.after(server, event).1.udp_sessions.contains(session)
            <==> server.udp_sessions.contains(session),
{
    let (login1, _, action) = login.after(server, event);
    match action {
        LoginActionView::Bind { addr, .. } => {
            lemma_all_dead(server, addr, login1.dead);
            lemma_sessions_at(server.tcp_sessions, addr, false, session);
            lemma_sessions_at(server.udp_sessions, addr, false, session);
            if event is Received && has_session(server, session) {
                assert(session.bound_port == addr ==> login1.dead.contains(session.conn));
            }
        },
        LoginActionView::Serve { tunnel, .. } => {
            let mine = Session { bound_port: login_addr(login)->0, conn: login.conn };
            lemma_push_contains(server.tcp_sessions, mine, session);
            lemma_push_contains(server.udp_sessions, mine, session);
        },
        _ => {},
    }
}

/// Taking an address over leaves it free. Where no two sessions were at the same address, still
/// no two are.
pub proof fn preemption_frees_the_port(server: ServerView, addr: SocketAddr)
    ensures
        port_free(after_preemption(server, addr).tcp_sessions, addr),
        port_free(after_preemption(server, addr).udp_sessions, addr),
        distinct_ports(server.tcp_sessions) ==> distinct_ports(
            after_preemption(server, addr).tcp_sessions,
        ),
        distinct_ports(server.udp_sessions) ==> distinct_ports(
            after_preemption(server, addr).udp_sessions,
        ),
{
    lemma_others_free(server.tcp_sessions, addr);
    lemma_others_free(server.udp_sessions, addr);
}

proof fn lemma_others_free(sessions: Seq<Session>, addr: SocketAddr)
    ensures
        port_free(sessions_at(sessions, addr, false), addr),
        distinct_ports(sessions) ==> distinct_ports(sessions_at(sessions, addr, false)),
    decreases sessions.len(),
{
    let rest = sessions_at(sessions, addr, false);
    assert forall|i: int| 0 <= i < rest.len() implies (#[trigger] rest[i]).bound_port != addr by {
        lemma_sessions_at(sessions, addr, false, rest[i]);
        assert(rest.contains(rest[i]));
    }
    if distinct_ports(sessions) && sessions.len() > 0 {
        reveal(Seq::filter);
        let shorter = sessions.drop_last();
        let last = sessions.last();
        let part = sessions_at(shorter, addr, false);
        assert forall|i: int, j: int| 0 <= i < j < shorter.len() implies (
        #[trigger] shorter[i]).bound_port != (#[trigger] shorter[j]).bound_port by {
            assert(shorter[i] == sessions[i] && shorter[j] == sessions[j]);
        }
        lemma_others_free(shorter, addr);
        assert forall|i: int| 0 <= i < part.len() implies (#[trigger] part[i]).bound_port
            != last.bound_port by {
            lemma_sessions_at(shorter, addr, false, part[i]);
            assert(part.contains(part[i]));
            let j = choose|j: int| 0 <= j < shorter.len() && shorter[j] == part[i];
            assert(sessions[j].bound_port != sessions[sessions.len() - 1].bound_port);
        }
    }
}

/// Where no two sessions were at the same address, serving a tunnel at a free one keeps it so.
pub proof fn serving_a_free_port_keeps_ports_distinct(server: ServerView, tunnel: TunnelType)
    requires
        distinct_ports(server.tcp_sessions),
        distinct_ports(server.udp_sessions),
        tunnel matches TunnelType::TcpIn(info) ==> port_free(server.tcp_sessions, info.bound_port),
        tunnel matches TunnelType::UdpIn(info) ==> port_free(server.udp_sessions, info.bound_port),
    ensures
        distinct_ports(with_session(server, tunnel).tcp_sessions),
        distinct_ports(with_session(server, tunnel).udp_sessions),
{
}

/// Clearing expired sessions splits the sessions into those whose connections have been closed
/// and the others, and never makes two sessions share an address.
pub proof fn clearing_splits_sessions(sessions: Seq<Session>, closed: Seq<usize>, session: Session)
    ensures
        sessions_of(sessions, closed, true).contains(session) <==> sessions.contains(session)
            && closed.contains(session.conn),
        sessions_of(sessions, closed, false).contains(session) <==> sessions.contains(session)
            && !closed.contains(session.conn),
        sessions_of(sessions, closed, true).len() + sessions_of(sessions, closed, false).len()
            == sessions.len(),
        distinct_ports(sessions) ==> distinct_ports(sessions_of(sessions, closed, false)),
    decreases sessions.len(),
{
    reveal(Seq::filter);
    if sessions.len() > 0 {
        let shorter = sessions.drop_last();
        let last = sessions.last();
        clearing_splits_sessions(shorter, closed, session);
        assert(sessions =~= shorter.push(last));
        lemma_push_contains(shorter, last, session);
        let gone = sessions_of(shorter, closed, true);
        let left = sessions_of(shorter, closed, false);
        lemma_push_contains(gone, last, session);
        lemma_push_contains(left, last, session);
        if distinct_ports(sessions) {
            assert forall|i: int, j: int| 0 <= i < j < shorter.len() implies (
            #[trigger] shorter[i]).bound_port != (#[trigger] shorter[j]).bound_port by {
                assert(shorter[i] == sessions[i] && shorter[j] == sessions[j]);
            }
            assert forall|i: int| 0 <= i < left.len() implies (#[trigger] left[i]).bound_port
                != last.bound_port by {
                clearing_splits_sessions(shorter, closed, left[i]);
                assert(left.contains(left[i]));
                let j = choose|j: int| 0 <= j < shorter.len() && shorter[j] == left[i];
                assert(sessions[j].bound_port != sessions[sessions.len() - 1].bound_port);
            }
        }
    }
}

proof fn lemma_push_contains(sessions: Seq<Session>, last: Session, session: Session)
    ensures
        sessions.push(last).contains(session) <==> sessions.contains(session) || session == last,
{
    let more = sessions.push(last);
    if sessions.contains(session) {
        let j = choose|j: int| 0 <= j < sessions.len() && sessions[j] == session;
        assert(more[j] == session);
    }
    if more.contains(session) {
        let j = choose|j: int| 0 <= j < more.len() && more[j] == session;
        if j < sessions.len() {
            assert(sessions[j] == session);
        }
    }
    assert(more[sessions.len() as int] == last);
}

} // verus!
