//! Tunnel definitions and the runtime configuration of client and server.

use crate::addr::{local_addr, localhost, SocketAddr};
use crate::addr_parse::{parse_socket_addr, socket_addr_text};
use crate::number::{parse_port, port_text};
use crate::text::{
    chars_of, extend_str, has_char, spells, split, split_chars, split_str, string_of, string_views,
    views,
};
use vstd::prelude::*;

verus! {

/// Human-readable tunnel direction used in mapping strings.
pub const TUNNEL_MODE_IN: &'static str = "IN";

/// Human-readable tunnel direction used in mapping strings.
pub const TUNNEL_MODE_OUT: &'static str = "OUT";

/// Maximum UDP payload size representable by the tunnel wire format.
pub const UDP_PACKET_SIZE: usize = 65535;

/// Receive window of one QUIC stream.
pub const QUIC_STREAM_RECEIVE_WINDOW: u32 = 16 * 1024 * 1024;

/// Receive window of one QUIC connection.
pub const QUIC_CONNECTION_WINDOW: u32 = 64 * 1024 * 1024;

/// Send window of one QUIC connection.
pub const QUIC_SEND_WINDOW: u64 = 64 * 1024 * 1024;

/// How many bidirectional streams a peer may have open at once.
pub const QUIC_MAX_CONCURRENT_BIDI_STREAMS: u32 = 4096;

/// The shortest interval between two endpoint migrations, in milliseconds.
pub const MIN_HOP_INTERVAL_MS: u64 = 5000;

/// Why a configuration was refused.
#[derive(Clone, Copy, Debug, PartialEq, Eq, Structural)]
pub enum ConfigError {
    /// Neither TCP nor UDP mappings were given.
    NoMappings,
    /// A mapping has neither of the forms `BIND^DESTINATION` and `MODE^SRC^DEST`.
    InvalidMappingFormat,
    /// The mode of a mapping is neither `IN` nor `OUT`.
    InvalidTunnelType,
    /// An address is neither a port nor `IP:PORT`.
    InvalidAddress,
    /// `ANY` was given for the local address.
    AnyAsLocalAddress,
    /// `ANY` was given for the peer's address of an inbound tunnel.
    AnyForInboundTunnel,
    /// The protocol of a tunnel is neither `tcp` nor `udp`.
    InvalidProtocol,
    /// An address or a password that has no default was not given.
    MissingSetting,
}

/// A TLS 1.3 cipher suite.
#[derive(Clone, Copy, Debug, PartialEq, Eq, Structural)]
pub enum CipherSuite {
    Aes128Gcm,
    Chacha20Poly1305,
    Aes256Gcm,
}

/// The cipher suite that a user's choice of name stands for.
#[derive(Clone, Copy, Debug, PartialEq, Eq, Structural)]
pub struct SelectedCipherSuite(pub CipherSuite);

impl CipherSuite {
    /// The name of the suite in configurations.
    pub open spec fn name(self) -> Seq<char> {
        match self {
            CipherSuite::Aes128Gcm => "aes-128-gcm"@,
            CipherSuite::Chacha20Poly1305 => "chacha20-poly1305"@,
            CipherSuite::Aes256Gcm => "aes-256-gcm"@,
        }
    }
}

/// The suite with the given name; `chacha20-poly1305` for a name that is none.
pub open spec fn suite_named(name: Seq<char>) -> CipherSuite {
    if name == CipherSuite::Aes256Gcm.name() {
        CipherSuite::Aes256Gcm
    } else if name == CipherSuite::Aes128Gcm.name() {
        CipherSuite::Aes128Gcm
    } else {
        CipherSuite::Chacha20Poly1305
    }
}

/// The names under which cipher suites can be chosen.
pub fn supported_cipher_suite_strs() -> (r: Vec<&'static str>)
    ensures
        r@.len() == 3,
        r@[0]@ == CipherSuite::Aes128Gcm.name(),
        r@[1]@ == CipherSuite::Chacha20Poly1305.name(),
        r@[2]@ == CipherSuite::Aes256Gcm.name(),
{
    vec!["aes-128-gcm", "chacha20-poly1305", "aes-256-gcm"]
}

/// The suites that a server offers, in order of preference.
pub fn supported_cipher_suites() -> (r: Vec<CipherSuite>)
    ensures
        r@ == seq![
            CipherSuite::Aes128Gcm,
            CipherSuite::Chacha20Poly1305,
            CipherSuite::Aes256Gcm,
        ],
{
    let r = vec![CipherSuite::Aes128Gcm, CipherSuite::Chacha20Poly1305, CipherSuite::Aes256Gcm];
    assert(r@ =~= seq![
        CipherSuite::Aes128Gcm,
        CipherSuite::Chacha20Poly1305,
        CipherSuite::Aes256Gcm,
    ]);
    r
}

impl SelectedCipherSuite {
    /// Selects the suite with the given name, or the default for any other text.
    pub fn from_str(s: &str) -> (r: Result<SelectedCipherSuite, ()>)
        ensures
            r == Ok::<SelectedCipherSuite, ()>(SelectedCipherSuite(suite_named(s@))),
    {
        let name = chars_of(s);
        let suite = if spells(name.as_slice(), "aes-256-gcm") {
            CipherSuite::Aes256Gcm
        } else if spells(name.as_slice(), "aes-128-gcm") {
            CipherSuite::Aes128Gcm
        } else {
            CipherSuite::Chacha20Poly1305
        };
        Ok(SelectedCipherSuite(suite))
    }

    /// The suite.
    pub fn deref(&self) -> (r: CipherSuite)
        ensures
            r == self.0,
    {
        self.0
    }
}

/// Every suite is selected by its own name.
pub proof fn suite_selected_by_its_name(suite: CipherSuite)
    ensures
        suite_named(suite.name()) == suite,
{
    reveal_strlit("aes-128-gcm");
    reveal_strlit("aes-256-gcm");
    reveal_strlit("chacha20-poly1305");
    assert("aes-128-gcm"@[4] == '1');
    assert("aes-256-gcm"@[4] == '2');
    assert("chacha20-poly1305"@[4] == 'h');
}

/// Direction of a tunnel: inbound or outbound relative to the client.
#[derive(Clone, Copy, Debug, PartialEq, Eq, Hash, Structural)]
pub enum TunnelMode {
    In,
    Out,
}

impl TunnelMode {
    pub open spec fn text(self) -> Seq<char> {
        match self {
            TunnelMode::In => "IN"@,
            TunnelMode::Out => "OUT"@,
        }
    }

    /// The direction as mapping strings write it.
    pub fn to_string(&self) -> (r: String)
        ensures
            r@ == self.text(),
    {
        match *self {
            TunnelMode::In => "IN".to_owned(),
            TunnelMode::Out => "OUT".to_owned(),
        }
    }
}

/// Transport type for a tunnel: TCP or UDP.
#[derive(Clone, Copy, Debug, PartialEq, Eq, Hash, Structural)]
pub enum UpstreamType {
    Tcp,
    Udp,
}

impl UpstreamType {
    pub open spec fn text(self) -> Seq<char> {
        match self {
            UpstreamType::Tcp => "TCP"@,
            UpstreamType::Udp => "UDP"@,
        }
    }

    /// The transport in capitals.
    pub fn to_string(&self) -> (r: String)
        ensures
            r@ == self.text(),
    {
        match *self {
            UpstreamType::Tcp => "TCP".to_owned(),
            UpstreamType::Udp => "UDP".to_owned(),
        }
    }
}

/// Upstream endpoint definition.
#[derive(Clone, Copy, Debug, PartialEq, Eq, Hash, Structural)]
pub struct Upstream {
    /// Address on the peer side; none means the peer's default in OUT mode.
    pub upstream_addr: Option<SocketAddr>,
    /// Transport type to use when forwarding.
    pub upstream_type: UpstreamType,
}

impl Upstream {
    pub open spec fn text(self) -> Seq<char> {
        match self.upstream_addr {
            Some(addr) => addr.text(),
            None => "PeerDefault"@,
        }
    }

    /// The address, or `PeerDefault` where there is none.
    pub fn to_string(&self) -> (r: String)
        ensures
            r@ == self.text(),
    {
        match self.upstream_addr {
            Some(addr) => addr.to_string(),
            None => "PeerDefault".to_owned(),
        }
    }
}

/// A single tunnel specification.
#[derive(Clone, Copy, Debug, PartialEq, Eq, Hash, Structural)]
pub struct TunnelConfig {
    /// Direction of the tunnel, relative to the client.
    pub mode: TunnelMode,
    /// Address on the client's side: where traffic is forwarded to, or listened for.
    pub local_server_addr: SocketAddr,
    /// The peer's side.
    pub upstream: Upstream,
}

/// What a tunnel is driven by.
#[derive(Clone, Copy, Debug, PartialEq, Eq, Hash, Structural)]
pub enum Tunnel {
    /// Local networking.
    NetworkBased(TunnelConfig),
    /// In-process channels, without any local binding.
    ChannelBased(UpstreamType),
}

/// Client-side runtime configuration.
#[derive(Debug)]
pub struct ClientConfig {
    /// Path to a PEM certificate for server identity (self-signed use-case).
    pub cert_path: String,
    /// Preferred TLS cipher suite.
    pub cipher: String,
    /// Server address: a host or IP with an optional port.
    pub server_addr: String,
    /// Shared password for authentication.
    pub password: String,
    /// Wait time before retrying a failed connection.
    pub wait_before_retry_ms: u64,
    /// QUIC idle timeout (ms).
    pub quic_timeout_ms: u64,
    /// TCP idle timeout (ms).
    pub tcp_timeout_ms: u64,
    /// UDP idle timeout (ms).
    pub udp_timeout_ms: u64,
    /// Periodic endpoint migration interval (ms); 0 disables.
    pub hop_interval_ms: u64,
    /// Tunnel definitions to start.
    pub tunnels: Vec<TunnelConfig>,
    /// DNS-over-TLS servers (domain names). Asked before `dns_servers`.
    pub dot_servers: Vec<String>,
    /// Plain DNS servers (IP addresses).
    pub dns_servers: Vec<String>,
    /// Number of async worker threads.
    pub workers: usize,
}

/// What a `ClientConfig` holds.
pub struct ClientConfigView {
    pub cert_path: Seq<char>,
    pub cipher: Seq<char>,
    pub server_addr: Seq<char>,
    pub password: Seq<char>,
    pub wait_before_retry_ms: u64,
    pub quic_timeout_ms: u64,
    pub tcp_timeout_ms: u64,
    pub udp_timeout_ms: u64,
    pub hop_interval_ms: u64,
    pub tunnels: Seq<TunnelConfig>,
    pub dot_servers: Seq<Seq<char>>,
    pub dns_servers: Seq<Seq<char>>,
    pub workers: usize,
}

impl View for ClientConfig {
    type V = ClientConfigView;

    open spec fn view(&self) -> ClientConfigView {
        ClientConfigView {
            cert_path: self.cert_path@,
            cipher: self.cipher@,
            server_addr: self.server_addr@,
            password: self.password@,
            wait_before_retry_ms: self.wait_before_retry_ms,
            quic_timeout_ms: self.quic_timeout_ms,
            tcp_timeout_ms: self.tcp_timeout_ms,
            udp_timeout_ms: self.udp_timeout_ms,
            hop_interval_ms: self.hop_interval_ms,
            tunnels: self.tunnels@,
            dot_servers: string_views(self.dot_servers@),
            dns_servers: string_views(self.dns_servers@),
            workers: self.workers,
        }
    }
}

/// A copy of a list of strings.
pub fn clone_strings(v: &Vec<String>) -> (r: Vec<String>)
    ensures
        string_views(r@) == string_views(v@),
{
    let mut r: Vec<String> = Vec::new();
    let mut i: usize = 0;
    while i < v.len()
        invariant
            i <= v@.len(),
            r@ =~= v@.take(i as int),
        decreases v@.len() - i,
    {
        r.push(v[i].clone());
        i += 1;
    }
    assert(r@ =~= v@);
    r
}

/// A copy of a list of tunnels.
pub fn clone_tunnels(v: &Vec<TunnelConfig>) -> (r: Vec<TunnelConfig>)
    ensures
        r@ == v@,
{
    vstd::slice::slice_to_vec(v.as_slice())
}

impl Clone for ClientConfig {
    fn clone(&self) -> (r: ClientConfig)
        ensures
            r@ == self@,
    {
        ClientConfig {
            cert_path: self.cert_path.clone(),
            cipher: self.cipher.clone(),
            server_addr: self.server_addr.clone(),
            password: self.password.clone(),
            wait_before_retry_ms: self.wait_before_retry_ms,
            quic_timeout_ms: self.quic_timeout_ms,
            tcp_timeout_ms: self.tcp_timeout_ms,
            udp_timeout_ms: self.udp_timeout_ms,
            hop_interval_ms: self.hop_interval_ms,
            tunnels: clone_tunnels(&self.tunnels),
            dot_servers: clone_strings(&self.dot_servers),
            dns_servers: clone_strings(&self.dns_servers),
            workers: self.workers,
        }
    }
}

impl Default for ClientConfig {
    /// Empty texts and lists, zero for every number.
    fn default() -> (r: ClientConfig)
        ensures
            r@ == (ClientConfigView {
                cert_path: Seq::empty(),
                cipher: Seq::empty(),
                server_addr: Seq::empty(),
                password: Seq::empty(),
                wait_before_retry_ms: 0,
                quic_timeout_ms: 0,
                tcp_timeout_ms: 0,
                udp_timeout_ms: 0,
                hop_interval_ms: 0,
                tunnels: Seq::empty(),
                dot_servers: Seq::empty(),
                dns_servers: Seq::empty(),
                workers: 0,
            }),
    {
        let r = ClientConfig {
            cert_path: String::new(),
            cipher: String::new(),
            server_addr: String::new(),
            password: String::new(),
            wait_before_retry_ms: 0,
            quic_timeout_ms: 0,
            tcp_timeout_ms: 0,
            udp_timeout_ms: 0,
            hop_interval_ms: 0,
            tunnels: Vec::new(),
            dot_servers: Vec::new(),
            dns_servers: Vec::new(),
            workers: 0,
        };
        assert(r@.dot_servers =~= Seq::empty());
        assert(r@.dns_servers =~= Seq::empty());
        r
    }
}

/// Server-side runtime configuration.
#[derive(Debug)]
pub struct ServerConfig {
    /// Bind address for the server (host:port).
    pub addr: String,
    /// Shared password for authentication.
    pub password: String,
    /// Path to certificate PEM.
    pub cert_path: String,
    /// Path to private key PEM.
    pub key_path: String,
    /// QUIC idle timeout (ms).
    pub quic_timeout_ms: u64,
    /// TCP idle timeout (ms).
    pub tcp_timeout_ms: u64,
    /// UDP idle timeout (ms).
    pub udp_timeout_ms: u64,
    /// Where TCP tunnels in OUT mode lead when the client names no upstream.
    pub default_tcp_upstream: Option<SocketAddr>,
    /// Where UDP tunnels in OUT mode lead when the client names no upstream.
    pub default_udp_upstream: Option<SocketAddr>,
    /// Address of a dashboard, such as `0.0.0.0:3515`.
    pub dashboard_server: String,
    /// `user:password` of the dashboard.
    pub dashboard_server_credential: String,
}

/// What a `ServerConfig` holds.
pub struct ServerConfigView {
    pub addr: Seq<char>,
    pub password: Seq<char>,
    pub cert_path: Seq<char>,
    pub key_path: Seq<char>,
    pub quic_timeout_ms: u64,
    pub tcp_timeout_ms: u64,
    pub udp_timeout_ms: u64,
    pub default_tcp_upstream: Option<SocketAddr>,
    pub default_udp_upstream: Option<SocketAddr>,
    pub dashboard_server: Seq<char>,
    pub dashboard_server_credential: Seq<char>,
}

impl View for ServerConfig {
    type V = ServerConfigView;

    open spec fn view(&self) -> ServerConfigView {
        ServerConfigView {
            addr: self.addr@,
            password: self.password@,
            cert_path: self.cert_path@,
            key_path: self.key_path@,
            quic_timeout_ms: self.quic_timeout_ms,
            tcp_timeout_ms: self.tcp_timeout_ms,
            udp_timeout_ms: self.udp_timeout_ms,
            default_tcp_upstream: self.default_tcp_upstream,
            default_udp_upstream: self.default_udp_upstream,
            dashboard_server: self.dashboard_server@,
            dashboard_server_credential: self.dashboard_server_credential@,
        }
    }
}

impl Clone for ServerConfig {
    fn clone(&self) -> (r: ServerConfig)
        ensures
            r@ == self@,
    {
        ServerConfig {
            addr: self.addr.clone(),
            password: self.password.clone(),
            cert_path: self.cert_path.clone(),
            key_path: self.key_path.clone(),
            quic_timeout_ms: self.quic_timeout_ms,
            tcp_timeout_ms: self.tcp_timeout_ms,
            udp_timeout_ms: self.udp_timeout_ms,
            default_tcp_upstream: self.default_tcp_upstream,
            default_udp_upstream: self.default_udp_upstream,
            dashboard_server: self.dashboard_server.clone(),
            dashboard_server_credential: self.dashboard_server_credential.clone(),
        }
    }
}

impl Default for ServerConfig {
    /// Empty texts, no upstreams, zero for every number.
    fn default() -> (r: ServerConfig)
        ensures
            r@ == (ServerConfigView {
                addr: Seq::empty(),
                password: Seq::empty(),
                cert_path: Seq::empty(),
                key_path: Seq::empty(),
                quic_timeout_ms: 0,
                tcp_timeout_ms: 0,
                udp_timeout_ms: 0,
                default_tcp_upstream: None,
                default_udp_upstream: None,
                dashboard_server: Seq::empty(),
                dashboard_server_credential: Seq::empty(),
            }),
    {
        ServerConfig {
            addr: String::new(),
            password: String::new(),
            cert_path: String::new(),
            key_path: String::new(),
            quic_timeout_ms: 0,
            tcp_timeout_ms: 0,
            udp_timeout_ms: 0,
            default_tcp_upstream: None,
            default_udp_upstream: None,
            dashboard_server: String::new(),
            dashboard_server_credential: String::new(),
        }
    }
}

/// An address of a mapping: `ANY`, a port on the local host, or an IP with a port.
#[verifier::opaque]
pub open spec fn address_field(s: Seq<char>) -> Result<Option<SocketAddr>, ConfigError> {
    if s == "ANY"@ {
        Ok(None)
    } else if port_text(s) is Some {
        Ok(Some(local_addr(port_text(s)->0)))
    } else if socket_addr_text(s) is Some {
        Ok(socket_addr_text(s))
    } else {
        Err(ConfigError::InvalidAddress)
    }
}

/// The tunnel that a mapping stands for: `BIND^DESTINATION` for an inbound tunnel, or
/// `MODE^SRC^DEST`.
pub open spec fn mapping_text(s: Seq<char>, upstream_type: UpstreamType) -> Result<
    TunnelConfig,
    ConfigError,
> {
    let parts = split(s, '^');
    if parts.len() == 2 {
        mapped_tunnel(TunnelMode::In, parts[1], parts[0], upstream_type)
    } else if parts.len() != 3 {
        Err(ConfigError::InvalidMappingFormat)
    } else if parts[0] == "IN"@ {
        mapped_tunnel(TunnelMode::In, parts[1], parts[2], upstream_type)
    } else if parts[0] == "OUT"@ {
        mapped_tunnel(TunnelMode::Out, parts[1], parts[2], upstream_type)
    } else {
        Err(ConfigError::InvalidTunnelType)
    }
}

/// The tunnel between a local address and an address on the peer's side, both as text.
pub open spec fn mapped_tunnel(
    mode: TunnelMode,
    local: Seq<char>,
    peer: Seq<char>,
    upstream_type: UpstreamType,
) -> Result<TunnelConfig, ConfigError> {
    match address_field(local) {
        Err(e) => Err(e),
        Ok(None) => Err(ConfigError::AnyAsLocalAddress),
        Ok(Some(local_server_addr)) => match address_field(peer) {
            Err(e) => Err(e),
            Ok(upstream_addr) => if upstream_addr is None && mode == TunnelMode::In {
                Err(ConfigError::AnyForInboundTunnel)
            } else {
                Ok(
                    TunnelConfig {
                        mode,
                        local_server_addr,
                        upstream: Upstream { upstream_addr, upstream_type },
                    },
                )
            },
        },
    }
}

/// The tunnels of the mappings up to the first one that is refused, and why that one is.
pub open spec fn mapped_tunnels(mappings: Seq<Seq<char>>, upstream_type: UpstreamType) -> (
    Seq<TunnelConfig>,
    Option<ConfigError>,
)
    decreases mappings.len(),
{
    if mappings.len() == 0 {
        (Seq::empty(), None)
    } else {
        let before = mapped_tunnels(mappings.drop_last(), upstream_type);
        if before.1 is Some {
            before
        } else {
            match mapping_text(mappings.last(), upstream_type) {
                Ok(tunnel) => (before.0.push(tunnel), None),
                Err(e) => (before.0, Some(e)),
            }
        }
    }
}

/// The tunnels of a comma-separated list of mappings; the empty text lists none.
pub open spec fn mapping_list(mappings: Seq<char>, upstream_type: UpstreamType) -> (
    Seq<TunnelConfig>,
    Option<ConfigError>,
) {
    if mappings.len() == 0 {
        (Seq::empty(), None)
    } else {
        mapped_tunnels(split(mappings, ','), upstream_type)
    }
}

fn parse_address_field(s: &[char]) -> (r: Result<Option<SocketAddr>, ConfigError>)
    ensures
        r == address_field(s@),
{
    proof {
        reveal(address_field);
    }
    if spells(s, "ANY") {
        return Ok(None);
    }
    if let Some(port) = parse_port(s) {
        return Ok(Some(localhost(port)));
    }
    match parse_socket_addr(s) {
        Some(addr) => Ok(Some(addr)),
        None => Err(ConfigError::InvalidAddress),
    }
}

fn make_tunnel(
    mode: TunnelMode,
    local: &[char],
    peer: &[char],
    upstream_type: UpstreamType,
) -> (r: Result<TunnelConfig, ConfigError>)
    ensures
        r == mapped_tunnel(mode, local@, peer@, upstream_type),
{
    let local_server_addr = match parse_address_field(local) {
        Err(e) => return Err(e),
        Ok(None) => return Err(ConfigError::AnyAsLocalAddress),
        Ok(Some(addr)) => addr,
    };
    let upstream_addr = match parse_address_field(peer) {
        Err(e) => return Err(e),
        Ok(addr) => addr,
    };
    if upstream_addr.is_none() && mode == TunnelMode::In {
        return Err(ConfigError::AnyForInboundTunnel);
    }
    Ok(
        TunnelConfig {
            mode,
            local_server_addr,
            upstream: Upstream { upstream_addr, upstream_type },
        },
    )
}

fn parse_mapping(s: &[char], upstream_type: UpstreamType) -> (r: Result<TunnelConfig, ConfigError>)
    ensures
        r == mapping_text(s@, upstream_type),
{
    let parts = split_chars(s, '^');
    assert(views(parts@).len() == parts@.len());
    assert(forall|i: int| 0 <= i < parts@.len() ==> views(parts@)[i] == #[trigger] parts@[i]@);
    if parts.len() == 2 {
        return make_tunnel(
            TunnelMode::In,
            parts[1].as_slice(),
            parts[0].as_slice(),
            upstream_type,
        );
    }
    if parts.len() != 3 {
        return Err(ConfigError::InvalidMappingFormat);
    }
    let mode = if spells(parts[0].as_slice(), "IN") {
        TunnelMode::In
    } else if spells(parts[0].as_slice(), "OUT") {
        TunnelMode::Out
    } else {
        return Err(ConfigError::InvalidTunnelType);
    };
    make_tunnel(mode, parts[1].as_slice(), parts[2].as_slice(), upstream_type)
}

/// Appends the tunnels of a comma-separated list of mappings, up to the first mapping that
/// is refused.
pub fn parse_addr_mappings(
    mappings: &str,
    upstream_type: UpstreamType,
    v: &mut Vec<TunnelConfig>,
) -> (r: Result<(), ConfigError>)
    ensures
        final(v)@ == old(v)@ + mapping_list(mappings@, upstream_type).0,
        r == (match mapping_list(mappings@, upstream_type).1 {
            Some(e) => Err::<(), ConfigError>(e),
            None => Ok::<(), ConfigError>(()),
        }),
{
    if mappings.is_empty() {
        return Ok(());
    }
    let ghost before = v@;
    let chars = chars_of(mappings);
    let parts = split_chars(chars.as_slice(), ',');
    let ghost texts = views(parts@);
    let mut i: usize = 0;
    assert(texts.take(0) =~= Seq::empty());
    while i < parts.len()
        invariant
            i <= parts@.len(),
            texts == views(parts@),
            texts == split(mappings@, ','),
            mappings@.len() > 0,
            before == old(v)@,
            mapped_tunnels(texts.take(i as int), upstream_type).1 is None,
            v@ == before + mapped_tunnels(texts.take(i as int), upstream_type).0,
        decreases parts@.len() - i,
    {
        assert(texts[i as int] == parts@[i as int]@);
        assert(texts.take(i + 1).drop_last() =~= texts.take(i as int));
        assert(texts.take(i + 1).last() == texts[i as int]);
        match parse_mapping(parts[i].as_slice(), upstream_type) {
            Ok(tunnel) => {
                v.push(tunnel);
            },
            Err(e) => {
                proof {
                    lemma_refused_stays_refused(texts, i + 1, upstream_type);
                }
                return Err(e);
            },
        }
        i += 1;
    }
    assert(texts.take(parts@.len() as int) =~= texts);
    Ok(())
}

proof fn lemma_refused_stays_refused(texts: Seq<Seq<char>>, n: int, upstream_type: UpstreamType)
    requires
        0 <= n <= texts.len(),
        mapped_tunnels(texts.take(n), upstream_type).1 is Some,
    ensures
        mapped_tunnels(texts, upstream_type) == mapped_tunnels(texts.take(n), upstream_type),
    decreases texts.len() - n,
{
    if n < texts.len() {
        assert(texts.take(n + 1).drop_last() =~= texts.take(n));
        lemma_refused_stays_refused(texts, n + 1, upstream_type);
    } else {
        assert(texts.take(n) =~= texts);
    }
}

/// A timeout, with a default for zero.
pub open spec fn or_default(ms: u64, default: u64) -> u64 {
    if ms == 0 {
        default
    } else {
        ms
    }
}

/// The migration interval in effect: none, or at least the shortest one.
pub open spec fn hop_interval(ms: u64) -> u64 {
    if ms != 0 && ms < MIN_HOP_INTERVAL_MS {
        MIN_HOP_INTERVAL_MS
    } else {
        ms
    }
}

/// Migration is either off or not more frequent than every `MIN_HOP_INTERVAL_MS`; an interval that
/// is long enough is kept.
pub proof fn migration_is_never_too_frequent(ms: u64)
    ensures
        hop_interval(ms) == 0 || hop_interval(ms) >= MIN_HOP_INTERVAL_MS,
        hop_interval(ms) == 0 <==> ms == 0,
        ms >= MIN_HOP_INTERVAL_MS ==> hop_interval(ms) == ms,
{
}

/// The server address in effect: a mere port means that port on the local host.
pub open spec fn server_address(s: Seq<char>) -> Seq<char> {
    if !s.contains(':') && port_text(s) is Some {
        "127.0.0.1:"@ + s
    } else {
        s
    }
}

fn effective_server_addr(server_addr: &str) -> (r: String)
    ensures
        r@ == server_address(server_addr@),
{
    let chars = chars_of(server_addr);
    if !has_char(chars.as_slice(), ':') && parse_port(chars.as_slice()).is_some() {
        let mut v = chars_of("127.0.0.1:");
        extend_str(&mut v, server_addr);
        string_of(v.as_slice())
    } else {
        server_addr.to_owned()
    }
}

/// The servers in a comma-separated list; there are none in an empty text.
pub open spec fn server_list(s: Seq<char>) -> Seq<Seq<char>> {
    if s.len() == 0 {
        Seq::empty()
    } else {
        split(s, ',')
    }
}

fn parse_server_list(s: &str) -> (r: Vec<String>)
    ensures
        string_views(r@) == server_list(s@),
{
    if s.is_empty() {
        let none: Vec<String> = Vec::new();
        assert(string_views(none@) =~= Seq::empty());
        none
    } else {
        split_str(s, ',')
    }
}

impl ClientConfig {
    /// Creates a configuration from mapping strings.
    ///
    /// - `tcp_addr_mappings` and `udp_addr_mappings` are comma-separated entries of the form
    ///   `BIND^DESTINATION` (the server listens on BIND, the client forwards to
    ///   DESTINATION), or `MODE^SRC^DEST` where MODE is IN or OUT, SRC is `[ip:]port` and
    ///   DEST is `[ip:]port` or ANY (the peer's default, only valid in OUT mode).
    /// - `dot` and `dns` are comma-separated servers, where an empty text names none.
    /// - `workers` of 0 uses `available_workers`, the number of logical CPUs.
    pub fn create(
        server_addr: &str,
        password: &str,
        cert: &str,
        cipher: &str,
        tcp_addr_mappings: &str,
        udp_addr_mappings: &str,
        dot: &str,
        dns: &str,
        workers: usize,
        wait_before_retry_ms: u64,
        quic_timeout_ms: u64,
        tcp_timeout_ms: u64,
        udp_timeout_ms: u64,
        hop_interval_ms: u64,
        available_workers: usize,
    ) -> (r: Result<ClientConfig, ConfigError>)
        ensures
            tcp_addr_mappings@.len() == 0 && udp_addr_mappings@.len() == 0 ==> r == Err::<
                ClientConfig,
                ConfigError,
            >(ConfigError::NoMappings),
            tcp_addr_mappings@.len() > 0 || udp_addr_mappings@.len() > 0 ==> {
                let tcp = mapping_list(tcp_addr_mappings@, UpstreamType::Tcp);
                let udp = mapping_list(udp_addr_mappings@, UpstreamType::Udp);
                if tcp.1 is Some {
                    r == Err::<ClientConfig, ConfigError>(tcp.1->0)
                } else if udp.1 is Some {
                    r == Err::<ClientConfig, ConfigError>(udp.1->0)
                } else {
                    &&& r is Ok
                    &&& r->Ok_0@ == (ClientConfigView {
                        cert_path: cert@,
                        cipher: cipher@,
                        server_addr: server_address(server_addr@),
                        password: password@,
                        wait_before_retry_ms,
                        quic_timeout_ms: or_default(quic_timeout_ms, 30000),
                        tcp_timeout_ms: or_default(tcp_timeout_ms, 30000),
                        udp_timeout_ms: or_default(udp_timeout_ms, 5000),
                        hop_interval_ms: hop_interval(hop_interval_ms),
                        tunnels: tcp.0 + udp.0,
                        dot_servers: server_list(dot@),
                        dns_servers: server_list(dns@),
                        workers: if workers > 0 {
                            workers
                        } else {
                            available_workers
                        },
                    })
                }
            },
    {
        if tcp_addr_mappings.is_empty() && udp_addr_mappings.is_empty() {
            return Err(ConfigError::NoMappings);
        }
        let mut tunnels: Vec<TunnelConfig> = Vec::new();
        let tcp = parse_addr_mappings(tcp_addr_mappings, UpstreamType::Tcp, &mut tunnels);
        if let Err(e) = tcp {
            return Err(e);
        }
        let udp = parse_addr_mappings(udp_addr_mappings, UpstreamType::Udp, &mut tunnels);
        if let Err(e) = udp {
            return Err(e);
        }
        let config = ClientConfig {
            cert_path: cert.to_owned(),
            cipher: cipher.to_owned(),
            server_addr: effective_server_addr(server_addr),
            password: password.to_owned(),
            wait_before_retry_ms,
            quic_timeout_ms: if quic_timeout_ms == 0 {
                30000
            } else {
                quic_timeout_ms
            },
            tcp_timeout_ms: if tcp_timeout_ms == 0 {
                30000
            } else {
                tcp_timeout_ms
            },
            udp_timeout_ms: if udp_timeout_ms == 0 {
                5000
            } else {
                udp_timeout_ms
            },
            hop_interval_ms: if hop_interval_ms != 0 && hop_interval_ms < MIN_HOP_INTERVAL_MS {
                MIN_HOP_INTERVAL_MS
            } else {
                hop_interval_ms
            },
            tunnels,
            dot_servers: parse_server_list(dot),
            dns_servers: parse_server_list(dns),
            workers: if workers > 0 {
                workers
            } else {
                available_workers
            },
        };
        assert(config@.tunnels =~= mapping_list(tcp_addr_mappings@, UpstreamType::Tcp).0
            + mapping_list(udp_addr_mappings@, UpstreamType::Udp).0);
        Ok(config)
    }
}

} // verus!
