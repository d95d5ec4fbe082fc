//! Settings of the two programs: what is given on the command line, what is in the configuration
//! file, and what results from both.

use crate::addr::{local_addr, localhost, SocketAddr};
use crate::addr_parse::{parse_socket_addr, socket_addr_text};
use crate::addr_text::push_socket_addr;
use crate::config::{
    ConfigError, ServerConfig, ServerConfigView, TunnelConfig, TunnelMode, Upstream, UpstreamType,
};
use crate::number::{parse_port, port_text};
use crate::text::{chars_of, extend_str, has_char, join, lower, spells, string_of, to_lower};
use vstd::prelude::*;

verus! {

/// A tunnel in the configuration file.
pub struct TomlTunnel {
    pub name: Option<String>,
    pub protocol: String,
    /// What the server listens on.
    pub bind: String,
    /// Where the client forwards to.
    pub destination: String,
}

/// What `TomlTunnel` says of the tunnel.
pub struct TomlTunnelView {
    pub protocol: Seq<char>,
    pub bind: Seq<char>,
    pub destination: Seq<char>,
}

impl View for TomlTunnel {
    type V = TomlTunnelView;

    open spec fn view(&self) -> TomlTunnelView {
        TomlTunnelView {
            protocol: self.protocol@,
            bind: self.bind@,
            destination: self.destination@,
        }
    }
}

/// What tunnels of the configuration file say.
pub open spec fn toml_views(tunnels: Seq<TomlTunnel>) -> Seq<TomlTunnelView> {
    tunnels.map_values(|t: TomlTunnel| t@)
}

/// An address of a tunnel: a port on the local host, or an IP with a port.
pub open spec fn tunnel_addr(value: Seq<char>) -> Result<SocketAddr, ConfigError> {
    match port_text(value) {
        Some(port) => Ok(local_addr(port)),
        None => match socket_addr_text(value) {
            Some(addr) => Ok(addr),
            None => Err(ConfigError::InvalidAddress),
        },
    }
}

/// Reads an address of a tunnel.
pub fn parse_tunnel_addr(value: &str) -> (r: Result<SocketAddr, ConfigError>)
    ensures
        r == tunnel_addr(value@),
{
    let chars = chars_of(value);
    if let Some(port) = parse_port(chars.as_slice()) {
        return Ok(localhost(port));
    }
    match parse_socket_addr(chars.as_slice()) {
        Some(addr) => Ok(addr),
        None => Err(ConfigError::InvalidAddress),
    }
}

/// The transport that a protocol name stands for, in upper or lower case.
pub open spec fn protocol_named(protocol: Seq<char>) -> Option<UpstreamType> {
    if lower(protocol) == "tcp"@ {
        Some(UpstreamType::Tcp)
    } else if lower(protocol) == "udp"@ {
        Some(UpstreamType::Udp)
    } else {
        None
    }
}

/// The inbound tunnel that an entry of the configuration file stands for.
#[verifier::opaque]
pub open spec fn toml_tunnel(tunnel: TomlTunnelView) -> Result<TunnelConfig, ConfigError> {
    match protocol_named(tunnel.protocol) {
        None => Err(ConfigError::InvalidProtocol),
        Some(upstream_type) => match tunnel_addr(tunnel.bind) {
            Err(e) => Err(e),
            Ok(bind) => match tunnel_addr(tunnel.destination) {
                Err(e) => Err(e),
                Ok(destination) => Ok(
                    TunnelConfig {
                        mode: TunnelMode::In,
                        local_server_addr: destination,
                        upstream: Upstream { upstream_addr: Some(bind), upstream_type },
                    },
                ),
            },
        },
    }
}

/// The tunnels that entries of the configuration file stand for; the first that stands for none
/// decides the error.
pub open spec fn toml_tunnels(tunnels: Seq<TomlTunnelView>) -> Result<
    Seq<TunnelConfig>,
    ConfigError,
>
    decreases tunnels.len(),
{
    if tunnels.len() == 0 {
        Ok(Seq::empty())
    } else {
        match toml_tunnels(tunnels.drop_last()) {
            Err(e) => Err(e),
            Ok(before) => match toml_tunnel(tunnels.last()) {
                Err(e) => Err(e),
                Ok(tunnel) => Ok(before.push(tunnel)),
            },
        }
    }
}

proof fn lemma_first_bad_entry_decides(tunnels: Seq<TomlTunnelView>, n: int)
    requires
        0 <= n <= tunnels.len(),
        toml_tunnels(tunnels.take(n)) is Err,
    ensures
        toml_tunnels(tunnels) == toml_tunnels(tunnels.take(n)),
    decreases tunnels.len() - n,
{
    if n < tunnels.len() {
        assert(tunnels.take(n + 1).drop_last() =~= tunnels.take(n));
        lemma_first_bad_entry_decides(tunnels, n + 1);
    } else {
        assert(tunnels.take(n) =~= tunnels);
    }
}

fn parse_toml_tunnel(tunnel: &TomlTunnel) -> (r: Result<TunnelConfig, ConfigError>)
    ensures
        r == toml_tunnel(tunnel@),
{
    proof {
        reveal(toml_tunnel);
    }
    let protocol = chars_of(tunnel.protocol.as_str());
    let protocol = to_lower(protocol.as_slice());
    let upstream_type = if spells(protocol.as_slice(), "tcp") {
        UpstreamType::Tcp
    } else if spells(protocol.as_slice(), "udp") {
        UpstreamType::Udp
    } else {
        return Err(ConfigError::InvalidProtocol);
    };
    let bind = match parse_tunnel_addr(tunnel.bind.as_str()) {
        Ok(addr) => addr,
        Err(e) => return Err(e),
    };
    let destination = match parse_tunnel_addr(tunnel.destination.as_str()) {
        Ok(addr) => addr,
        Err(e) => return Err(e),
    };
    Ok(
        TunnelConfig {
            mode: TunnelMode::In,
            local_server_addr: destination,
            upstream: Upstream { upstream_addr: Some(bind), upstream_type },
        },
    )
}

fn parse_all(tunnels: &Vec<TomlTunnel>) -> (r: Result<Vec<TunnelConfig>, ConfigError>)
    ensures
        match toml_tunnels(toml_views(tunnels@)) {
            Ok(all) => r is Ok && r->Ok_0@ == all,
            Err(e) => r is Err && r->Err_0 == e,
        },
{
    let mut parsed: Vec<TunnelConfig> = Vec::new();
    let ghost all = toml_views(tunnels@);
    let mut i: usize = 0;
    assert(all.take(0) =~= Seq::empty());
    while i < tunnels.len()
        invariant
            i <= tunnels@.len(),
            all == toml_views(tunnels@),
            toml_tunnels(all.take(i as int)) == Ok::<Seq<TunnelConfig>, ConfigError>(parsed@),
        decreases tunnels@.len() - i,
    {
        assert(all.take(i + 1).drop_last() =~= all.take(i as int));
        assert(all.take(i + 1).last() == tunnels@[i as int]@);
        match parse_toml_tunnel(&tunnels[i]) {
            Ok(tunnel) => {
                parsed.push(tunnel);
            },
            Err(e) => {
                proof {
                    lemma_first_bad_entry_decides(all, i + 1);
                }
                return Err(e);
            },
        }
        i += 1;
    }
    assert(all.take(all.len() as int) =~= all);
    Ok(parsed)
}

/// What the tunnels that the configuration file lists say; there are none where it lists none.
pub open spec fn listed(tunnels: Option<Vec<TomlTunnel>>) -> Seq<TomlTunnelView> {
    match tunnels {
        Some(tunnels) => toml_views(tunnels@),
        None => Seq::empty(),
    }
}

/// Reads the tunnels of the configuration file.
pub fn parse_toml_tunnels(tunnels: &Option<Vec<TomlTunnel>>) -> (r: Result<
    Vec<TunnelConfig>,
    ConfigError,
>)
    ensures
        match toml_tunnels(listed(*tunnels)) {
            Ok(all) => r is Ok && r->Ok_0@ == all,
            Err(e) => r is Err && r->Err_0 == e,
        },
{
    match tunnels {
        Some(tunnels) => parse_all(tunnels),
        None => Ok(Vec::new()),
    }
}

/// The mapping `BIND^DESTINATION` of an inbound tunnel.
pub open spec fn mapping_of(tunnel: TunnelConfig) -> Seq<char>
    recommends
        tunnel.upstream.upstream_addr is Some,
{
    tunnel.upstream.upstream_addr->0.text().push('^') + tunnel.local_server_addr.text()
}

/// The mappings of the tunnels of one transport.
pub open spec fn mappings_of(tunnels: Seq<TunnelConfig>, upstream_type: UpstreamType) -> Seq<
    Seq<char>,
>
    decreases tunnels.len(),
{
    if tunnels.len() == 0 {
        Seq::empty()
    } else if tunnels.last().upstream.upstream_type == upstream_type {
        mappings_of(tunnels.drop_last(), upstream_type).push(mapping_of(tunnels.last()))
    } else {
        mappings_of(tunnels.drop_last(), upstream_type)
    }
}

proof fn lemma_join_push(parts: Seq<Seq<char>>, part: Seq<char>)
    requires
        parts.len() > 0,
    ensures
        join(parts.push(part), ',') == join(parts, ',').push(',') + part,
{
    assert(parts.push(part).drop_last() =~= parts);
}

/// Without tunnels there is nothing to map.
pub proof fn lemma_no_mappings()
    ensures
        join(mappings_of(Seq::empty(), UpstreamType::Tcp), ',') == Seq::<char>::empty(),
        join(mappings_of(Seq::empty(), UpstreamType::Udp), ',') == Seq::<char>::empty(),
{
    assert(join(mappings_of(Seq::empty(), UpstreamType::Tcp), ',') =~= Seq::empty());
    assert(join(mappings_of(Seq::empty(), UpstreamType::Udp), ',') =~= Seq::empty());
}

/// Writes the mappings of the tunnels of one transport as a comma-separated list.
pub fn tunnel_mappings(tunnels: &Vec<TunnelConfig>, upstream_type: UpstreamType) -> (r: String)
    requires
        forall|i: int|
            0 <= i < tunnels@.len() ==> (#[trigger] tunnels@[i]).upstream.upstream_addr is Some,
    ensures
        r@ == join(mappings_of(tunnels@, upstream_type), ','),
{
    let ghost all = tunnels@;
    let mut v: Vec<char> = Vec::new();
    let mut first = true;
    let mut i: usize = 0;
    assert(all.take(0) =~= Seq::empty());
    assert(v@ =~= join(mappings_of(all.take(0), upstream_type), ','));
    while i < tunnels.len()
        invariant
            i <= tunnels@.len(),
            all == tunnels@,
            forall|i: int|
                0 <= i < tunnels@.len() ==> (#[trigger] tunnels@[i]).upstream.upstream_addr is Some,
            first <==> mappings_of(all.take(i as int), upstream_type).len() == 0,
            v@ == join(mappings_of(all.take(i as int), upstream_type), ','),
        decreases tunnels@.len() - i,
    {
        let tunnel = tunnels[i];
        let ghost before = v@;
        let ghost listed = mappings_of(all.take(i as int), upstream_type);
        assert(all.take(i + 1).drop_last() =~= all.take(i as int));
        assert(all.take(i + 1).last() == all[i as int]);
        if tunnel.upstream.upstream_type == upstream_type {
            if let Some(bind) = tunnel.upstream.upstream_addr {
                if !first {
                    v.push(',');
                }
                push_socket_addr(&mut v, bind);
                v.push('^');
                push_socket_addr(&mut v, tunnel.local_server_addr);
                proof {
                    let now = listed.push(mapping_of(tunnel));
                    if listed.len() > 0 {
                        lemma_join_push(listed, mapping_of(tunnel));
                        assert(v@ =~= before.push(',') + mapping_of(tunnel));
                    } else {
                        assert(before =~= Seq::empty());
                        assert(v@ =~= mapping_of(tunnel));
                    }
                    assert(v@ == join(now, ','));
                }
                first = false;
            }
        }
        i += 1;
    }
    assert(all.take(all.len() as int) =~= all);
    string_of(v.as_slice())
}

/// How much is logged.
#[derive(Clone, Copy, Debug, PartialEq, Eq, Structural)]
pub enum LogLevel {
    Trace,
    Debug,
    Info,
    Warn,
    Error,
}

impl LogLevel {
    pub open spec fn text(self) -> Seq<char> {
        match self {
            LogLevel::Trace => "trace"@,
            LogLevel::Debug => "debug"@,
            LogLevel::Info => "info"@,
            LogLevel::Warn => "warn"@,
            LogLevel::Error => "error"@,
        }
    }

    /// The level that a name or an initial stands for, in upper or lower case; `Info` where it
    /// stands for none.
    pub open spec fn named(name: Seq<char>) -> LogLevel {
        let name = lower(name);
        if name == "trace"@ || name == "t"@ {
            LogLevel::Trace
        } else if name == "debug"@ || name == "d"@ {
            LogLevel::Debug
        } else if name == "warn"@ || name == "warning"@ || name == "w"@ {
            LogLevel::Warn
        } else if name == "error"@ || name == "e"@ {
            LogLevel::Error
        } else {
            LogLevel::Info
        }
    }

    /// The level that a name or an initial stands for.
    pub fn from_name(name: &str) -> (r: LogLevel)
        ensures
            r == LogLevel::named(name@),
    {
        let chars = chars_of(name);
        let chars = to_lower(chars.as_slice());
        let name = chars.as_slice();
        if spells(name, "trace") || spells(name, "t") {
            LogLevel::Trace
        } else if spells(name, "debug") || spells(name, "d") {
            LogLevel::Debug
        } else if spells(name, "warn") || spells(name, "warning") || spells(name, "w") {
            LogLevel::Warn
        } else if spells(name, "error") || spells(name, "e") {
            LogLevel::Error
        } else {
            LogLevel::Info
        }
    }

    /// The name of the level.
    pub fn to_string(&self) -> (r: String)
        ensures
            r@ == self.text(),
    {
        match *self {
            LogLevel::Trace => "trace".to_owned(),
            LogLevel::Debug => "debug".to_owned(),
            LogLevel::Info => "info".to_owned(),
            LogLevel::Warn => "warn".to_owned(),
            LogLevel::Error => "error".to_owned(),
        }
    }

    /// The filter with which logging is started.
    pub fn log_filter(&self) -> (r: String)
        ensures
            r@ == "rstun="@ + self.text() + ",rs_utilities="@ + self.text(),
    {
        let mut v = chars_of("rstun=");
        extend_str(&mut v, self.to_string().as_str());
        extend_str(&mut v, ",rs_utilities=");
        extend_str(&mut v, self.to_string().as_str());
        string_of(v.as_slice())
    }
}

/// What kind of runtime to start.
#[derive(Clone, Copy, Debug, PartialEq, Eq, Structural)]
pub enum RuntimeKind {
    /// The current thread does everything.
    CurrentThread,
    /// This many threads share the work.
    MultiThread(usize),
}

/// The runtime for a number of worker threads.
pub fn runtime_kind(workers: usize) -> (r: RuntimeKind)
    ensures
        r == (if workers == 1 {
            RuntimeKind::CurrentThread
        } else {
            RuntimeKind::MultiThread(workers)
        }),
{
    if workers == 1 {
        RuntimeKind::CurrentThread
    } else {
        RuntimeKind::MultiThread(workers)
    }
}

/// A text from the command line; without one, from the file; without that, empty.
pub open spec fn given_text(given: Seq<char>, in_file: Option<String>) -> Seq<char> {
    if given.len() > 0 {
        given
    } else {
        match in_file {
            Some(text) => text@,
            None => Seq::empty(),
        }
    }
}

/// A value from the command line; without one, from the file; without that, the default.
pub open spec fn given<T>(given: Option<T>, in_file: Option<T>, default: T) -> T {
    match given {
        Some(value) => value,
        None => match in_file {
            Some(value) => value,
            None => default,
        },
    }
}

/// A level from the command line; without one, from the file; without that, `Info`.
pub open spec fn given_level(given: Option<LogLevel>, in_file: Option<String>) -> LogLevel {
    match given {
        Some(level) => level,
        None => match in_file {
            Some(name) => LogLevel::named(name@),
            None => LogLevel::Info,
        },
    }
}

fn choose_text(given: &String, in_file: &Option<String>) -> (r: String)
    ensures
        r@ == given_text(given@, *in_file),
{
    if !given.as_str().is_empty() {
        given.as_str().to_owned()
    } else {
        match in_file {
            Some(text) => text.as_str().to_owned(),
            None => {
                let empty = String::new();
                assert(empty@ =~= Seq::empty());
                empty
            },
        }
    }
}

fn choose_number(given: Option<u64>, in_file: Option<u64>, default: u64) -> (r: u64)
    ensures
        r == self::given(given, in_file, default),
{
    match given {
        Some(value) => value,
        None => match in_file {
            Some(value) => value,
            None => default,
        },
    }
}

fn choose_workers(given: Option<usize>, in_file: Option<usize>) -> (r: usize)
    ensures
        r == self::given(given, in_file, 0),
{
    match given {
        Some(value) => value,
        None => match in_file {
            Some(value) => value,
            None => 0,
        },
    }
}

fn choose_level(given: Option<LogLevel>, in_file: &Option<String>) -> (r: LogLevel)
    ensures
        r == given_level(given, *in_file),
{
    match given {
        Some(level) => level,
        None => match in_file {
            Some(name) => LogLevel::from_name(name.as_str()),
            None => LogLevel::Info,
        },
    }
}

/// What is given to the client on its command line. An empty text, or nothing, is not given.
pub struct ClientArgs {
    pub server_addr: String,
    pub password: String,
    pub tcp_mappings: String,
    pub udp_mappings: String,
    pub cert: String,
    pub cipher: Option<String>,
    pub workers: Option<usize>,
    pub wait_before_retry_ms: Option<u64>,
    pub quic_timeout_ms: Option<u64>,
    pub tcp_timeout_ms: Option<u64>,
    pub udp_timeout_ms: Option<u64>,
    pub hop_interval_ms: Option<u64>,
    pub dot: String,
    pub dns: String,
    pub loglevel: Option<LogLevel>,
}

/// The configuration file of the client.
pub struct ClientFile {
    pub server_address: Option<String>,
    pub password: Option<String>,
    pub workers: Option<usize>,
    pub log_level: Option<String>,
    pub retry_interval_ms: Option<u64>,
    pub connection_migration_interval_ms: Option<u64>,
    pub cert: Option<String>,
    pub cipher: Option<String>,
    pub dns_servers: Option<String>,
    pub dot_servers: Option<String>,
    pub quic_idle_ms: Option<u64>,
    pub tcp_idle_ms: Option<u64>,
    pub udp_idle_ms: Option<u64>,
    pub tunnels: Option<Vec<TomlTunnel>>,
}

/// The settings of the client.
pub struct ClientSettings {
    pub server_addr: String,
    pub password: String,
    pub tcp_mappings: String,
    pub udp_mappings: String,
    pub cert: String,
    pub cipher: String,
    pub workers: usize,
    pub wait_before_retry_ms: u64,
    pub quic_timeout_ms: u64,
    pub tcp_timeout_ms: u64,
    pub udp_timeout_ms: u64,
    pub hop_interval_ms: u64,
    pub dot: String,
    pub dns: String,
    pub loglevel: LogLevel,
    /// Whether the tunnels come from the file, so that changes to it are to be followed.
    pub tunnels_from_file: bool,
}

/// The tunnels that the file lists, where they count: mappings on the command line override them.
pub open spec fn file_tunnels(args: ClientArgs, file: ClientFile) -> Result<
    Seq<TunnelConfig>,
    ConfigError,
> {
    if args.tcp_mappings@.len() > 0 || args.udp_mappings@.len() > 0 || file.tunnels is None {
        Ok(Seq::empty())
    } else {
        toml_tunnels(toml_views(file.tunnels->0@))
    }
}

/// The mappings in effect for a transport.
pub open spec fn mappings_in_effect(
    given: Seq<char>,
    tunnels: Seq<TunnelConfig>,
    upstream_type: UpstreamType,
) -> Seq<char> {
    if given.len() > 0 {
        given
    } else {
        join(mappings_of(tunnels, upstream_type), ',')
    }
}

/// Why the settings of the client are refused, if they are.
pub open spec fn client_settings_error(args: ClientArgs, file: ClientFile) -> Option<ConfigError> {
    if file_tunnels(args, file) is Err {
        Some(file_tunnels(args, file)->Err_0)
    } else if given_text(args.server_addr@, file.server_address).len() == 0 || given_text(
        args.password@,
        file.password,
    ).len() == 0 {
        Some(ConfigError::MissingSetting)
    } else {
        None
    }
}

impl ClientSettings {
    /// The settings that result from the command line and the file: the command line overrides
    /// the file, and the file the defaults.
    pub open spec fn result_of(self, args: ClientArgs, file: ClientFile) -> bool {
        let tunnels = file_tunnels(args, file)->Ok_0;
        &&& self.server_addr@ == given_text(args.server_addr@, file.server_address)
        &&& self.password@ == given_text(args.password@, file.password)
        &&& self.tcp_mappings@ == mappings_in_effect(
            args.tcp_mappings@,
            tunnels,
            UpstreamType::Tcp,
        )
        &&& self.udp_mappings@ == mappings_in_effect(
            args.udp_mappings@,
            tunnels,
            UpstreamType::Udp,
        )
        &&& self.cert@ == given_text(args.cert@, file.cert)
        &&& self.cipher@ == (match args.cipher {
            Some(cipher) => cipher@,
            None => match file.cipher {
                Some(cipher) => cipher@,
                None => "chacha20-poly1305"@,
            },
        })
        &&& self.workers == given(args.workers, file.workers, 0)
        &&& self.wait_before_retry_ms == given(
            args.wait_before_retry_ms,
            file.retry_interval_ms,
            5000,
        )
        &&& self.quic_timeout_ms == given(args.quic_timeout_ms, file.quic_idle_ms, 30000)
        &&& self.tcp_timeout_ms == given(args.tcp_timeout_ms, file.tcp_idle_ms, 30000)
        &&& self.udp_timeout_ms == given(args.udp_timeout_ms, file.udp_idle_ms, 5000)
        &&& self.hop_interval_ms == given(
            args.hop_interval_ms,
            file.connection_migration_interval_ms,
            0,
        )
        &&& self.dot@ == given_text(args.dot@, file.dot_servers)
        &&& self.dns@ == given_text(args.dns@, file.dns_servers)
        &&& self.loglevel == given_level(args.loglevel, file.log_level)
        &&& self.tunnels_from_file == (args.tcp_mappings@.len() == 0 && args.udp_mappings@.len()
            == 0)
    }

    /// Puts the command line and the file together.
    pub fn resolve(args: &ClientArgs, file: &ClientFile) -> (r: Result<
        ClientSettings,
        ConfigError,
    >)
        ensures
            match client_settings_error(*args, *file) {
                Some(e) => r is Err && r->Err_0 == e,
                None => r is Ok && r->Ok_0.result_of(*args, *file),
            },
            r matches Ok(settings) ==> settings.workers == (match (
                args.workers,
                file.workers,
            ) {
                (Some(given), _) => given,
                (None, Some(in_file)) => in_file,
                (None, None) => 0,
            }),
            r matches Ok(settings) ==> settings.wait_before_retry_ms == (match (
                args.wait_before_retry_ms,
                file.retry_interval_ms,
            ) {
                (Some(given), _) => given,
                (None, Some(in_file)) => in_file,
                (None, None) => 5000,
            }),
            r matches Ok(settings) ==> settings.quic_timeout_ms == (match (
                args.quic_timeout_ms,
                file.quic_idle_ms,
            ) {
                (Some(given), _) => given,
                (None, Some(in_file)) => in_file,
                (None, None) => 30000,
            }),
            r matches Ok(settings) ==> settings.tcp_timeout_ms == (match (
                args.tcp_timeout_ms,
                file.tcp_idle_ms,
            ) {
                (Some(given), _) => given,
                (None, Some(in_file)) => in_file,
                (None, None) => 30000,
            }),
            r matches Ok(settings) ==> settings.udp_timeout_ms == (match (
                args.udp_timeout_ms,
                file.udp_idle_ms,
            ) {
                (Some(given), _) => given,
                (None, Some(in_file)) => in_file,
                (None, None) => 5000,
            }),
            r matches Ok(settings) ==> settings.hop_interval_ms == (match (
                args.hop_interval_ms,
                file.connection_migration_interval_ms,
            ) {
                (Some(given), _) => given,
                (None, Some(in_file)) => in_file,
                (None, None) => 0,
            }),
            r matches Ok(settings) ==> settings.server_addr@ == (match file.server_address {
                Some(in_file) if args.server_addr@.len() == 0 => in_file@,
                _ => args.server_addr@,
            }),
            r matches Ok(settings) ==> settings.password@ == (match file.password {
                Some(in_file) if args.password@.len() == 0 => in_file@,
                _ => args.password@,
            }),
            r matches Ok(settings) ==> settings.cert@ == (match file.cert {
                Some(in_file) if args.cert@.len() == 0 => in_file@,
                _ => args.cert@,
            }),
            r matches Ok(settings) ==> settings.dot@ == (match file.dot_servers {
                Some(in_file) if args.dot@.len() == 0 => in_file@,
                _ => args.dot@,
            }),
            r matches Ok(settings) ==> settings.dns@ == (match file.dns_servers {
                Some(in_file) if args.dns@.len() == 0 => in_file@,
                _ => args.dns@,
            }),
    {
        assert(args.server_addr@.len() == 0 ==> args.server_addr@ =~= Seq::empty());
        assert(args.password@.len() == 0 ==> args.password@ =~= Seq::empty());
        assert(args.cert@.len() == 0 ==> args.cert@ =~= Seq::empty());
        assert(args.dot@.len() == 0 ==> args.dot@ =~= Seq::empty());
        assert(args.dns@.len() == 0 ==> args.dns@ =~= Seq::empty());
        let tunnels_from_file = args.tcp_mappings.as_str().is_empty()
            && args.udp_mappings.as_str().is_empty();
        let mut tcp_mappings = args.tcp_mappings.as_str().to_owned();
        let mut udp_mappings = args.udp_mappings.as_str().to_owned();
        if tunnels_from_file && file.tunnels.is_some() {
            let tunnels = match parse_toml_tunnels(&file.tunnels) {
                Ok(tunnels) => tunnels,
                Err(e) => return Err(e),
            };
            proof {
                lemma_toml_tunnels_bind(toml_views(file.tunnels->0@));
            }
            tcp_mappings = tunnel_mappings(&tunnels, UpstreamType::Tcp);
            udp_mappings = tunnel_mappings(&tunnels, UpstreamType::Udp);
        }
        proof {
            lemma_no_mappings();
        }
        assert(tunnels_from_file && file.tunnels is None ==> tcp_mappings@ =~= Seq::empty()
            && udp_mappings@ =~= Seq::empty());
        let server_addr = choose_text(&args.server_addr, &file.server_address);
        let password = choose_text(&args.password, &file.password);
        if server_addr.as_str().is_empty() || password.as_str().is_empty() {
            return Err(ConfigError::MissingSetting);
        }
        let cipher = match &args.cipher {
            Some(cipher) => cipher.as_str().to_owned(),
            None => match &file.cipher {
                Some(cipher) => cipher.as_str().to_owned(),
                None => "chacha20-poly1305".to_owned(),
            },
        };
        if !tunnels_from_file {
            if args.tcp_mappings.as_str().is_empty() {
                assert(tcp_mappings@ =~= Seq::empty());
            }
            if args.udp_mappings.as_str().is_empty() {
                assert(udp_mappings@ =~= Seq::empty());
            }
        }
        Ok(
            ClientSettings {
                server_addr,
                password,
                tcp_mappings,
                udp_mappings,
                cert: choose_text(&args.cert, &file.cert),
                cipher,
                workers: choose_workers(args.workers, file.workers),
                wait_before_retry_ms: choose_number(
                    args.wait_before_retry_ms,
                    file.retry_interval_ms,
                    5000,
                ),
                quic_timeout_ms: choose_number(args.quic_timeout_ms, file.quic_idle_ms, 30000),
                tcp_timeout_ms: choose_number(args.tcp_timeout_ms, file.tcp_idle_ms, 30000),
                udp_timeout_ms: choose_number(args.udp_timeout_ms, file.udp_idle_ms, 5000),
                hop_interval_ms: choose_number(
                    args.hop_interval_ms,
                    file.connection_migration_interval_ms,
                    0,
                ),
                dot: choose_text(&args.dot, &file.dot_servers),
                dns: choose_text(&args.dns, &file.dns_servers),
                loglevel: choose_level(args.loglevel, &file.log_level),
                tunnels_from_file,
            },
        )
    }
}

proof fn lemma_toml_tunnels_bind(tunnels: Seq<TomlTunnelView>)
    requires
        toml_tunnels(tunnels) is Ok,
    ensures
        forall|i: int|
            0 <= i < toml_tunnels(tunnels)->Ok_0.len() ==> (
            #[trigger] toml_tunnels(tunnels)->Ok_0[i]).upstream.upstream_addr is Some,
    decreases tunnels.len(),
{
    reveal(toml_tunnel);
    if tunnels.len() > 0 {
        lemma_toml_tunnels_bind(tunnels.drop_last());
    }
}

/// What is given to the server on its command line. An empty text, or nothing, is not given.
pub struct ServerArgs {
    pub addr: String,
    pub tcp_upstream: String,
    pub udp_upstream: String,
    pub password: String,
    pub cert: String,
    pub key: String,
    pub workers: Option<usize>,
    pub quic_timeout_ms: Option<u64>,
    pub tcp_timeout_ms: Option<u64>,
    pub udp_timeout_ms: Option<u64>,
    pub loglevel: Option<LogLevel>,
}

/// The configuration file of the server.
pub struct ServerFile {
    pub bind_address: Option<String>,
    pub password: Option<String>,
    pub workers: Option<usize>,
    pub log_level: Option<String>,
    pub cert: Option<String>,
    pub key: Option<String>,
    pub quic_idle_ms: Option<u64>,
    pub tcp_idle_ms: Option<u64>,
    pub udp_idle_ms: Option<u64>,
}

/// The settings of the server.
pub struct ServerSettings {
    pub config: ServerConfig,
    pub workers: usize,
    pub loglevel: LogLevel,
}

/// The address to bind: a mere port means that port on the local host.
pub open spec fn bind_address(addr: Seq<char>) -> Seq<char> {
    if addr.contains(':') {
        addr
    } else {
        "127.0.0.1:"@ + addr
    }
}

/// A default upstream; a text that is not `[ip:]port` names none.
pub open spec fn default_upstream(value: Seq<char>) -> Option<SocketAddr> {
    match tunnel_addr(value) {
        Ok(addr) => Some(addr),
        Err(_) => None,
    }
}

fn parse_default_upstream(value: &str) -> (r: Option<SocketAddr>)
    ensures
        r == default_upstream(value@),
{
    match parse_tunnel_addr(value) {
        Ok(addr) => Some(addr),
        Err(_) => None,
    }
}

fn effective_bind_address(addr: &str) -> (r: String)
    ensures
        r@ == bind_address(addr@),
        addr@.contains(':') ==> r@ == addr@,
        !addr@.contains(':') ==> r@ == "127.0.0.1:"@ + addr@,
{
    let chars = chars_of(addr);
    if has_char(chars.as_slice(), ':') {
        addr.to_owned()
    } else {
        let mut v = chars_of("127.0.0.1:");
        extend_str(&mut v, addr);
        string_of(v.as_slice())
    }
}

/// Why the settings of the server are refused, if they are.
pub open spec fn server_settings_error(args: ServerArgs, file: ServerFile) -> Option<ConfigError> {
    if given_text(args.addr@, file.bind_address).len() == 0 || given_text(
        args.password@,
        file.password,
    ).len() == 0 {
        Some(ConfigError::MissingSetting)
    } else {
        None
    }
}

impl ServerSettings {
    /// The settings that result from the command line and the file: the command line overrides
    /// the file, and the file the defaults. `available_workers` is the number of logical CPUs.
    pub open spec fn result_of(
        self,
        args: ServerArgs,
        file: ServerFile,
        available_workers: usize,
    ) -> bool {
        let workers = given(args.workers, file.workers, 0);
        &&& self.config@ == (ServerConfigView {
            addr: bind_address(given_text(args.addr@, file.bind_address)),
            password: given_text(args.password@, file.password),
            cert_path: given_text(args.cert@, file.cert),
            key_path: given_text(args.key@, file.key),
            quic_timeout_ms: given(args.quic_timeout_ms, file.quic_idle_ms, 40000),
            tcp_timeout_ms: given(args.tcp_timeout_ms, file.tcp_idle_ms, 30000),
            udp_timeout_ms: given(args.udp_timeout_ms, file.udp_idle_ms, 5000),
            default_tcp_upstream: default_upstream(args.tcp_upstream@),
            default_udp_upstream: default_upstream(args.udp_upstream@),
            dashboard_server: Seq::empty(),
            dashboard_server_credential: Seq::empty(),
        })
        &&& self.workers == (if workers > 0 {
            workers
        } else {
            available_workers
        })
        &&& self.loglevel == given_level(args.loglevel, file.log_level)
    }

    /// Puts the command line and the file together.
    pub fn resolve(args: &ServerArgs, file: &ServerFile, available_workers: usize) -> (r: Result<
        ServerSettings,
        ConfigError,
    >)
        ensures
            match server_settings_error(*args, *file) {
                Some(e) => r is Err && r->Err_0 == e,
                None => r is Ok && r->Ok_0.result_of(*args, *file, available_workers),
            },
            r matches Ok(settings) ==> settings.config@.quic_timeout_ms == (match (
                args.quic_timeout_ms,
                file.quic_idle_ms,
            ) {
                (Some(given), _) => given,
                (None, Some(in_file)) => in_file,
                (None, None) => 40000,
            }),
            r matches Ok(settings) ==> settings.config@.tcp_timeout_ms == (match (
                args.tcp_timeout_ms,
                file.tcp_idle_ms,
            ) {
                (Some(given), _) => given,
                (None, Some(in_file)) => in_file,
                (None, None) => 30000,
            }),
            r matches Ok(settings) ==> settings.config@.udp_timeout_ms == (match (
                args.udp_timeout_ms,
                file.udp_idle_ms,
            ) {
                (Some(given), _) => given,
                (None, Some(in_file)) => in_file,
                (None, None) => 5000,
            }),
            r matches Ok(settings) ==> settings.config@.password == (match file.password {
                Some(in_file) if args.password@.len() == 0 => in_file@,
                _ => args.password@,
            }),
            r matches Ok(settings) ==> settings.config@.cert_path == (match file.cert {
                Some(in_file) if args.cert@.len() == 0 => in_file@,
                _ => args.cert@,
            }),
            r matches Ok(settings) ==> settings.config@.key_path == (match file.key {
                Some(in_file) if args.key@.len() == 0 => in_file@,
                _ => args.key@,
            }),
            args.addr@.contains(':') ==> (r matches Ok(settings) ==> settings.config@.addr
                == args.addr@),
    {
        assert(args.password@.len() == 0 ==> args.password@ =~= Seq::empty());
        assert(args.cert@.len() == 0 ==> args.cert@ =~= Seq::empty());
        assert(args.key@.len() == 0 ==> args.key@ =~= Seq::empty());
        let addr = choose_text(&args.addr, &file.bind_address);
        let password = choose_text(&args.password, &file.password);
        if addr.as_str().is_empty() || password.as_str().is_empty() {
            return Err(ConfigError::MissingSetting);
        }
        let workers: usize = choose_workers(args.workers, file.workers);
        let mut config = ServerConfig::default();
        config.addr = effective_bind_address(addr.as_str());
        config.password = password;
        config.cert_path = choose_text(&args.cert, &file.cert);
        config.key_path = choose_text(&args.key, &file.key);
        config.quic_timeout_ms = choose_number(args.quic_timeout_ms, file.quic_idle_ms, 40000);
        config.tcp_timeout_ms = choose_number(args.tcp_timeout_ms, file.tcp_idle_ms, 30000);
        config.udp_timeout_ms = choose_number(args.udp_timeout_ms, file.udp_idle_ms, 5000);
        config.default_tcp_upstream = parse_default_upstream(args.tcp_upstream.as_str());
        config.default_udp_upstream = parse_default_upstream(args.udp_upstream.as_str());
        Ok(
            ServerSettings {
                config,
                workers: if workers > 0 {
                    workers
                } else {
                    available_workers
                },
                loglevel: choose_level(args.loglevel, &file.log_level),
            },
        )
    }
}

/// A value given on the command line is the one in effect, whatever the file says.
pub proof fn command_line_overrides<T>(value: T, in_file: Option<T>, default: T)
    ensures
        given(Some(value), in_file, default) == value,
        given(None, Some(value), default) == value,
        given(None, None, default) == default,
{
}

} // verus!
