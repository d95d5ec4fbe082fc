//! How the client reaches its server: transport settings, trust, and name resolution.

use crate::addr::{IpAddr, SocketAddr};
use crate::addr_parse::{parse_socket_addr, socket_addr_text};
use crate::config::{
    clone_strings, suite_named, CipherSuite, ClientConfig, SelectedCipherSuite,
    QUIC_CONNECTION_WINDOW, QUIC_MAX_CONCURRENT_BIDI_STREAMS, QUIC_SEND_WINDOW,
    QUIC_STREAM_RECEIVE_WINDOW,
};
use crate::number::{parse_port, port_text};
use crate::text::{chars_of, last_position, rfind, slice_of, string_of, string_views};
use vstd::prelude::*;

verus! {

/// The port of a server address that names none.
pub const DEFAULT_SERVER_PORT: u16 = 3515;

/// Settings of a QUIC transport.
#[derive(Clone, Copy, Debug, PartialEq, Eq, Structural)]
pub struct TransportSettings {
    pub stream_receive_window: u32,
    pub receive_window: u32,
    pub send_window: u64,
    pub max_concurrent_bidi_streams: u32,
    /// Idle timeout (ms), where there is one.
    pub max_idle_timeout_ms: Option<u32>,
    /// Interval of keep-alives (ms), where there are any.
    pub keep_alive_interval_ms: Option<u64>,
}

/// The settings for an idle timeout in milliseconds, where 0 means none.
///
/// A connection is kept alive by a packet after two thirds of the timeout.
pub open spec fn settings_for(quic_timeout_ms: u64) -> TransportSettings {
    TransportSettings {
        stream_receive_window: QUIC_STREAM_RECEIVE_WINDOW,
        receive_window: QUIC_CONNECTION_WINDOW,
        send_window: QUIC_SEND_WINDOW,
        max_concurrent_bidi_streams: QUIC_MAX_CONCURRENT_BIDI_STREAMS,
        max_idle_timeout_ms: if quic_timeout_ms > 0 {
            Some(quic_timeout_ms as u32)
        } else {
            None
        },
        keep_alive_interval_ms: if quic_timeout_ms > 0 {
            Some((quic_timeout_ms * 2 / 3) as u64)
        } else {
            None
        },
    }
}

/// The settings of the transport.
pub fn transport_settings(quic_timeout_ms: u64) -> (r: TransportSettings)
    requires
        quic_timeout_ms * 2 <= u64::MAX,
    ensures
        r == settings_for(quic_timeout_ms),
{
    let (max_idle_timeout_ms, keep_alive_interval_ms) = if quic_timeout_ms > 0 {
        (Some(#[verifier::truncate] (quic_timeout_ms as u32)), Some(quic_timeout_ms * 2 / 3))
    } else {
        (None, None)
    };
    TransportSettings {
        stream_receive_window: QUIC_STREAM_RECEIVE_WINDOW,
        receive_window: QUIC_CONNECTION_WINDOW,
        send_window: QUIC_SEND_WINDOW,
        max_concurrent_bidi_streams: QUIC_MAX_CONCURRENT_BIDI_STREAMS,
        max_idle_timeout_ms,
        keep_alive_interval_ms,
    }
}

/// A live connection is kept alive before it can time out.
pub proof fn keep_alive_precedes_timeout(quic_timeout_ms: u64)
    requires
        0 < quic_timeout_ms <= u32::MAX,
    ensures
        settings_for(quic_timeout_ms).max_idle_timeout_ms is Some,
        settings_for(quic_timeout_ms).keep_alive_interval_ms is Some,
        settings_for(quic_timeout_ms).keep_alive_interval_ms->0 < settings_for(
            quic_timeout_ms,
        ).max_idle_timeout_ms->0,
{
}

/// Whom the client trusts to be its server.
pub enum Trust {
    /// Whom the platform trusts.
    Platform,
    /// Anyone.
    Anyone,
    /// Those whose certificates are in this file.
    File(String),
}

/// TLS settings of the client.
pub struct TlsPlan {
    /// The preferred suite, and the one that QUIC cannot do without.
    pub cipher_suites: Vec<CipherSuite>,
    pub trust: Trust,
    /// The name that the server is to have.
    pub domain: String,
}

/// A server address without its port.
pub open spec fn host_part(server_addr: Seq<char>) -> Seq<char> {
    match last_position(server_addr, ':') {
        Some(i) => server_addr.take(i),
        None => server_addr,
    }
}

fn host_of(server_addr: &str) -> (r: String)
    ensures
        r@ == host_part(server_addr@),
{
    let chars = chars_of(server_addr);
    match rfind(chars.as_slice(), ':') {
        Some(i) => {
            let host = slice_of(chars.as_slice(), 0, i);
            assert(host@ =~= server_addr@.take(i as int));
            string_of(host.as_slice())
        },
        None => server_addr.to_owned(),
    }
}

/// Whether the text is an IP address with a port.
pub fn is_ip_addr(addr: &str) -> (r: bool)
    ensures
        r == socket_addr_text(addr@) is Some,
{
    let chars = chars_of(addr);
    parse_socket_addr(chars.as_slice()).is_some()
}

/// Why a server cannot be connected to.
#[derive(Clone, Copy, Debug, PartialEq, Eq, Structural)]
pub enum ConnectError {
    /// The port of the server address is not one.
    InvalidAddress,
    /// No lookup led to an address of the server.
    Unresolved,
    /// The certificate file holds no certificate.
    NoCertificates,
}

/// Refuses a certificate file in which none was found.
pub fn check_certificates(found: usize) -> (r: Result<(), ConnectError>)
    ensures
        r == (if found == 0 {
            Err::<(), ConnectError>(ConnectError::NoCertificates)
        } else {
            Ok::<(), ConnectError>(())
        }),
{
    if found == 0 {
        Err(ConnectError::NoCertificates)
    } else {
        Ok(())
    }
}

/// Where to look the server's name up.
pub enum Lookup {
    /// By DNS over TLS, from this server.
    Dot(String),
    /// By plain DNS, from these servers.
    NameServers(Vec<String>),
    /// As the system does it.
    System,
}

/// What `Lookup` says.
#[verifier::ext_equal]
pub enum LookupView {
    Dot(Seq<char>),
    NameServers(Seq<Seq<char>>),
    System,
}

impl View for Lookup {
    type V = LookupView;

    open spec fn view(&self) -> LookupView {
        match self {
            Lookup::Dot(server) => LookupView::Dot(server@),
            Lookup::NameServers(servers) => LookupView::NameServers(string_views(servers@)),
            Lookup::System => LookupView::System,
        }
    }
}

/// What lookups say.
pub open spec fn lookup_views(lookups: Seq<Lookup>) -> Seq<LookupView> {
    lookups.map_values(|l: Lookup| l@)
}

/// The DNS-over-TLS servers to ask, in order.
pub open spec fn dot_lookups(servers: Seq<Seq<char>>) -> Seq<LookupView>
    decreases servers.len(),
{
    if servers.len() == 0 {
        Seq::empty()
    } else if servers.last().len() == 0 {
        dot_lookups(servers.drop_last())
    } else {
        dot_lookups(servers.drop_last()).push(LookupView::Dot(servers.last()))
    }
}

/// The lookups to try, in order: DNS-over-TLS servers, plain DNS servers, the system.
pub open spec fn lookups(dot_servers: Seq<Seq<char>>, dns_servers: Seq<Seq<char>>) -> Seq<
    LookupView,
> {
    dot_lookups(dot_servers).push(
        if dns_servers.len() > 0 {
            LookupView::NameServers(dns_servers)
        } else {
            LookupView::System
        },
    ).push(LookupView::System)
}

/// How to find the server's address.
pub enum ServerTarget {
    /// It is this.
    Address(SocketAddr),
    /// It is the address of this name with this port; the lookups to try, in order.
    Name { domain: String, port: u16, lookups: Vec<Lookup> },
}

/// A name to look up, and the port to go with its address.
pub open spec fn name_and_port(server_addr: Seq<char>) -> Option<(Seq<char>, u16)> {
    match last_position(server_addr, ':') {
        None => Some((server_addr, DEFAULT_SERVER_PORT)),
        Some(i) => match port_text(server_addr.skip(i + 1)) {
            Some(port) => Some((server_addr.take(i), port)),
            None => None,
        },
    }
}

/// How far the search for the server's address has come.
#[derive(Clone, Copy, Debug, PartialEq, Eq, Structural)]
pub enum Resolution {
    /// It is this.
    Found(SocketAddr),
    /// The lookup with this number is next.
    Ask(usize),
    /// All lookups have failed.
    Failed,
}

/// Where the search stands after the given answers: the last one decides if it names an address,
/// otherwise the next lookup is due.
pub open spec fn resolution(port: u16, lookups: nat, answers: Seq<Option<IpAddr>>) -> Resolution {
    if answers.len() > 0 && answers.last() is Some {
        Resolution::Found(SocketAddr::of(answers.last()->0, port))
    } else if answers.len() < lookups {
        Resolution::Ask(answers.len() as usize)
    } else {
        Resolution::Failed
    }
}

/// Decides on the next lookup, given the answers to those so far.
pub fn lookup_server_ip(port: u16, lookups: &Vec<Lookup>, answers: &[Option<IpAddr>]) -> (r:
    Resolution)
    ensures
        r == resolution(port, lookups@.len(), answers@),
{
    let n: usize = answers.len();
    if n > 0 {
        if let Some(ip) = answers[n - 1] {
            return Resolution::Found(SocketAddr::new(ip, port));
        }
    }
    if n < lookups.len() {
        Resolution::Ask(n)
    } else {
        Resolution::Failed
    }
}

fn plan_lookups(dot_servers: &Vec<String>, dns_servers: &Vec<String>) -> (r: Vec<Lookup>)
    ensures
        lookup_views(r@) == lookups(string_views(dot_servers@), string_views(dns_servers@)),
{
    let ghost dots = string_views(dot_servers@);
    let mut plan: Vec<Lookup> = Vec::new();
    let mut i: usize = 0;
    assert(dots.take(0) =~= Seq::empty());
    assert(lookup_views(plan@) =~= dot_lookups(dots.take(0)));
    while i < dot_servers.len()
        invariant
            i <= dot_servers@.len(),
            dots == string_views(dot_servers@),
            lookup_views(plan@) == dot_lookups(dots.take(i as int)),
        decreases dot_servers@.len() - i,
    {
        let ghost before = plan@;
        assert(dots.take(i + 1).drop_last() =~= dots.take(i as int));
        assert(dots.take(i + 1).last() == dot_servers@[i as int]@);
        if !dot_servers[i].as_str().is_empty() {
            plan.push(Lookup::Dot(dot_servers[i].as_str().to_owned()));
            assert(lookup_views(plan@) =~= lookup_views(before).push(
                LookupView::Dot(dot_servers@[i as int]@),
            ));
        }
        i += 1;
    }
    assert(dots.take(dot_servers@.len() as int) =~= dots);
    let ghost before = plan@;
    if dns_servers.len() > 0 {
        plan.push(Lookup::NameServers(clone_strings(dns_servers)));
    } else {
        plan.push(Lookup::System);
    }
    plan.push(Lookup::System);
    assert(lookup_views(plan@) =~= lookups(
        string_views(dot_servers@),
        string_views(dns_servers@),
    ));
    plan
}

impl ClientConfig {
    /// The TLS settings: which suites, whom to trust, and the name of the server.
    pub fn parse_client_config_and_domain(&self) -> (r: TlsPlan)
        ensures
            r.cipher_suites@ == seq![suite_named(self@.cipher), CipherSuite::Aes128Gcm],
            self@.cert_path.len() > 0 ==> r.trust is File && r.trust->0@ == self@.cert_path
                && r.domain@ == host_part(self@.server_addr),
            self@.cert_path.len() == 0 && socket_addr_text(self@.server_addr) is None
                ==> r.trust is Platform && r.domain@ == host_part(self@.server_addr),
            self@.cert_path.len() == 0 && socket_addr_text(self@.server_addr) is Some
                ==> r.trust is Anyone && r.domain@ == "localhost"@,
    {
        let cipher = match SelectedCipherSuite::from_str(self.cipher.as_str()) {
            Ok(suite) => suite.deref(),
            Err(()) => CipherSuite::Chacha20Poly1305,
        };
        let mut cipher_suites: Vec<CipherSuite> = Vec::new();
        cipher_suites.push(cipher);
        cipher_suites.push(CipherSuite::Aes128Gcm);
        if !self.cert_path.as_str().is_empty() {
            TlsPlan {
                cipher_suites,
                trust: Trust::File(self.cert_path.as_str().to_owned()),
                domain: host_of(self.server_addr.as_str()),
            }
        } else if is_ip_addr(self.server_addr.as_str()) {
            TlsPlan { cipher_suites, trust: Trust::Anyone, domain: "localhost".to_owned() }
        } else {
            TlsPlan {
                cipher_suites,
                trust: Trust::Platform,
                domain: host_of(self.server_addr.as_str()),
            }
        }
    }

    /// How to find the server's address.
    pub fn parse_server_addr(&self) -> (r: Result<ServerTarget, ConnectError>)
        ensures
            match socket_addr_text(self@.server_addr) {
                Some(addr) => r == Ok::<ServerTarget, ConnectError>(ServerTarget::Address(addr)),
                None => match name_and_port(self@.server_addr) {
                    None => r == Err::<ServerTarget, ConnectError>(ConnectError::InvalidAddress),
                    Some((domain, port)) => {
                        &&& r is Ok
                        &&& r->Ok_0 is Name
                        &&& r->Ok_0->domain@ == domain
                        &&& r->Ok_0->port == port
                        &&& lookup_views(r->Ok_0->lookups@) == lookups(
                            self@.dot_servers,
                            self@.dns_servers,
                        )
                    },
                },
            },
    {
        let chars = chars_of(self.server_addr.as_str());
        if let Some(addr) = parse_socket_addr(chars.as_slice()) {
            return Ok(ServerTarget::Address(addr));
        }
        let lookups = plan_lookups(&self.dot_servers, &self.dns_servers);
        match rfind(chars.as_slice(), ':') {
            None => Ok(
                ServerTarget::Name {
                    domain: self.server_addr.as_str().to_owned(),
                    port: DEFAULT_SERVER_PORT,
                    lookups,
                },
            ),
            Some(i) => {
                let port_chars = slice_of(chars.as_slice(), i + 1, chars.len());
                assert(port_chars@ =~= self@.server_addr.skip(i + 1));
                match parse_port(port_chars.as_slice()) {
                    None => Err(ConnectError::InvalidAddress),
                    Some(port) => {
                        let domain = slice_of(chars.as_slice(), 0, i);
                        assert(domain@ =~= self@.server_addr.take(i as int));
                        Ok(ServerTarget::Name { domain: string_of(domain.as_slice()), port, lookups })
                    },
                }
            },
        }
    }
}

/// The search ends with the first lookup that finds an address: as long as none has, the next
/// lookup is asked, and once one has, its address is taken with the given port.
pub proof fn first_answer_wins(port: u16, lookups: nat, answers: Seq<Option<IpAddr>>, ip: IpAddr)
    requires
        answers.len() < lookups <= usize::MAX,
        forall|i: int| 0 <= i < answers.len() ==> (#[trigger] answers[i]) is None,
    ensures
        resolution(port, lookups, answers) == Resolution::Ask(answers.len() as usize),
        resolution(port, lookups, answers.push(Some(ip))) == Resolution::Found(
            SocketAddr::of(ip, port),
        ),
        answers.len() + 1 == lookups ==> resolution(port, lookups, answers.push(None))
            == Resolution::Failed,
{
}

} // verus!
