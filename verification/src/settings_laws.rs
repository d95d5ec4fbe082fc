//! Where each setting of the two programs comes from, and what the addresses among them mean.

use crate::addr::{Ipv4Addr, SocketAddr, SocketAddrV4};
use crate::addr_parse::socket_addr_text;
use crate::addr_round_trip::{lemma_socket_addr_chars, socket_addr_round_trip};
use crate::config::{mapping_list, ConfigError, TunnelConfig, TunnelMode, UpstreamType};
use crate::mapping_round_trip::{
    file_tunnels_read_back, lemma_no_port, no_flow_label, of_transport,
};
use crate::number::port_text;
use crate::number_laws::{digits_only, local_port_reads_as_local_address};
use crate::settings::{
    bind_address, client_settings_error, default_upstream, lemma_no_mappings, listed,
    parse_toml_tunnels, runtime_kind, server_settings_error, toml_tunnel, toml_tunnels, toml_views,
    tunnel_addr, ClientArgs, ClientFile, ClientSettings, LogLevel, RuntimeKind, ServerArgs,
    ServerFile, ServerSettings, TomlTunnel, TomlTunnelView,
};
use crate::text::{lower, lower_char};
use vstd::prelude::*;

verus! {

/// Each number among the settings of the client has a key of its own in the file: it is what the
/// command line says, else what that key says, else its default, and no other key matters.
pub proof fn client_numbers_have_their_own_keys(
    settings: ClientSettings,
    args: ClientArgs,
    file: ClientFile,
)
    requires
        settings.result_of(args, file),
    ensures
        settings.hop_interval_ms == (match (
            args.hop_interval_ms,
            file.connection_migration_interval_ms,
        ) {
            (Some(given), _) => given,
            (None, Some(in_file)) => in_file,
            (None, None) => 0,
        }),
        settings.wait_before_retry_ms == (match (
            args.wait_before_retry_ms,
            file.retry_interval_ms,
        ) {
            (Some(given), _) => given,
            (None, Some(in_file)) => in_file,
            (None, None) => 5000,
        }),
        settings.quic_timeout_ms == (match (args.quic_timeout_ms, file.quic_idle_ms) {
            (Some(given), _) => given,
            (None, Some(in_file)) => in_file,
            (None, None) => 30000,
        }),
        settings.tcp_timeout_ms == (match (args.tcp_timeout_ms, file.tcp_idle_ms) {
            (Some(given), _) => given,
            (None, Some(in_file)) => in_file,
            (None, None) => 30000,
        }),
        settings.udp_timeout_ms == (match (args.udp_timeout_ms, file.udp_idle_ms) {
            (Some(given), _) => given,
            (None, Some(in_file)) => in_file,
            (None, None) => 5000,
        }),
        settings.workers == (match (args.workers, file.workers) {
            (Some(given), _) => given,
            (None, Some(in_file)) => in_file,
            (None, None) => 0,
        }),
{
}

/// Each text among the settings of the client has a key of its own in the file: it is what the
/// command line says, else what that key says, else it is empty; the cipher is `chacha20-poly1305`
/// where nothing names one.
pub proof fn client_texts_have_their_own_keys(
    settings: ClientSettings,
    args: ClientArgs,
    file: ClientFile,
)
    requires
        settings.result_of(args, file),
    ensures
        args.server_addr@.len() > 0 ==> settings.server_addr@ == args.server_addr@,
        args.server_addr@.len() == 0 ==> (file.server_address matches Some(text)
            ==> settings.server_addr@ == text@),
        args.password@.len() > 0 ==> settings.password@ == args.password@,
        args.password@.len() == 0 ==> (file.password matches Some(text) ==> settings.password@
            == text@),
        args.cert@.len() > 0 ==> settings.cert@ == args.cert@,
        args.cert@.len() == 0 ==> (file.cert matches Some(text) ==> settings.cert@ == text@),
        args.cert@.len() == 0 && file.cert is None ==> settings.cert@.len() == 0,
        args.dot@.len() > 0 ==> settings.dot@ == args.dot@,
        args.dot@.len() == 0 ==> (file.dot_servers matches Some(text) ==> settings.dot@ == text@),
        args.dot@.len() == 0 && file.dot_servers is None ==> settings.dot@.len() == 0,
        args.dns@.len() > 0 ==> settings.dns@ == args.dns@,
        args.dns@.len() == 0 ==> (file.dns_servers matches Some(text) ==> settings.dns@ == text@),
        args.dns@.len() == 0 && file.dns_servers is None ==> settings.dns@.len() == 0,
        args.cipher matches Some(text) ==> settings.cipher@ == text@,
        args.cipher is None ==> (file.cipher matches Some(text) ==> settings.cipher@ == text@),
        args.cipher is None && file.cipher is None ==> settings.cipher@ == "chacha20-poly1305"@,
        args.loglevel matches Some(level) ==> settings.loglevel == level,
        args.loglevel is None && file.log_level is None ==> settings.loglevel == LogLevel::Info,
        args.loglevel is None ==> (file.log_level matches Some(name) ==> settings.loglevel
            == LogLevel::named(name@)),
{
}

/// Mappings on the command line are in effect as they are given, and then the tunnels of the file
/// are not, not even to refuse them. Tunnels count as coming from the file exactly if no mapping
/// is given on the command line.
pub proof fn given_mappings_override_the_file(
    settings: ClientSettings,
    args: ClientArgs,
    file: ClientFile,
    other: ClientFile,
)
    requires
        settings.result_of(args, file),
        args.tcp_mappings@.len() > 0 || args.udp_mappings@.len() > 0,
        other == (ClientFile { tunnels: other.tunnels, ..file }),
    ensures
        settings.tcp_mappings@ == args.tcp_mappings@,
        settings.udp_mappings@ == args.udp_mappings@,
        !settings.tunnels_from_file,
        client_settings_error(args, other) == client_settings_error(args, file),
{
    lemma_no_mappings();
    assert(args.tcp_mappings@.len() == 0 ==> args.tcp_mappings@ =~= Seq::empty());
    assert(args.udp_mappings@.len() == 0 ==> args.udp_mappings@ =~= Seq::empty());
}

/// Without mappings on the command line, the tunnels of the file are in effect: the mappings for
/// TCP read as its TCP tunnels and those for UDP as its UDP tunnels, in the order of the file.
pub proof fn file_tunnels_are_in_effect(
    settings: ClientSettings,
    args: ClientArgs,
    file: ClientFile,
)
    requires
        settings.result_of(args, file),
        client_settings_error(args, file) is None,
        args.tcp_mappings@.len() == 0,
        args.udp_mappings@.len() == 0,
    ensures
        settings.tunnels_from_file,
        toml_tunnels(listed(file.tunnels)) is Ok,
        mapping_list(settings.tcp_mappings@, UpstreamType::Tcp) == (
            of_transport(toml_tunnels(listed(file.tunnels))->Ok_0, UpstreamType::Tcp),
            None::<ConfigError>,
        ),
        mapping_list(settings.udp_mappings@, UpstreamType::Udp) == (
            of_transport(toml_tunnels(listed(file.tunnels))->Ok_0, UpstreamType::Udp),
            None::<ConfigError>,
        ),
{
    file_tunnels_read_back(listed(file.tunnels), UpstreamType::Tcp);
    file_tunnels_read_back(listed(file.tunnels), UpstreamType::Udp);
}

/// A client needs the address of a server and a password, from the command line or from the file;
/// given both, its settings are refused only for what the tunnels of the file say, and only where
/// these count.
pub proof fn client_needs_address_and_password(args: ClientArgs, file: ClientFile)
    ensures
        ({
            let addressed = args.server_addr@.len() > 0 || (file.server_address is Some
                && file.server_address->0@.len() > 0);
            let keyed = args.password@.len() > 0 || (file.password is Some
                && file.password->0@.len() > 0);
            let mapped = args.tcp_mappings@.len() > 0 || args.udp_mappings@.len() > 0;
            let refused = !mapped && toml_tunnels(listed(file.tunnels)) is Err;
            &&& client_settings_error(args, file) is None <==> addressed && keyed && !refused
            &&& refused ==> client_settings_error(args, file) == Some(
                toml_tunnels(listed(file.tunnels))->Err_0,
            )
            &&& !refused && !(addressed && keyed) ==> client_settings_error(args, file) == Some(
                ConfigError::MissingSetting,
            )
        }),
{
}

/// Each setting of the server has a key of its own in the file: it is what the command line says,
/// else what that key says, else its default. The default upstreams come from the command line
/// alone, each from its own argument. All processors are used where no number of workers is given.
pub proof fn server_settings_have_their_own_keys(
    settings: ServerSettings,
    args: ServerArgs,
    file: ServerFile,
    available_workers: usize,
)
    requires
        settings.result_of(args, file, available_workers),
    ensures
        settings.config@.quic_timeout_ms == (match (args.quic_timeout_ms, file.quic_idle_ms) {
            (Some(given), _) => given,
            (None, Some(in_file)) => in_file,
            (None, None) => 40000,
        }),
        settings.config@.tcp_timeout_ms == (match (args.tcp_timeout_ms, file.tcp_idle_ms) {
            (Some(given), _) => given,
            (None, Some(in_file)) => in_file,
            (None, None) => 30000,
        }),
        settings.config@.udp_timeout_ms == (match (args.udp_timeout_ms, file.udp_idle_ms) {
            (Some(given), _) => given,
            (None, Some(in_file)) => in_file,
            (None, None) => 5000,
        }),
        settings.workers == (match (args.workers, file.workers) {
            (Some(given), _) => if given > 0 {
                given
            } else {
                available_workers
            },
            (None, Some(in_file)) => if in_file > 0 {
                in_file
            } else {
                available_workers
            },
            (None, None) => available_workers,
        }),
        args.password@.len() > 0 ==> settings.config@.password == args.password@,
        args.password@.len() == 0 ==> (file.password matches Some(text)
            ==> settings.config@.password == text@),
        args.cert@.len() > 0 ==> settings.config@.cert_path == args.cert@,
        args.cert@.len() == 0 ==> (file.cert matches Some(text) ==> settings.config@.cert_path
            == text@),
        args.cert@.len() == 0 && file.cert is None ==> settings.config@.cert_path.len() == 0,
        args.key@.len() > 0 ==> settings.config@.key_path == args.key@,
        args.key@.len() == 0 ==> (file.key matches Some(text) ==> settings.config@.key_path
            == text@),
        args.key@.len() == 0 && file.key is None ==> settings.config@.key_path.len() == 0,
        args.addr@.contains(':') ==> settings.config@.addr == args.addr@,
        args.addr@.len() == 0 ==> (file.bind_address matches Some(text) ==> text@.contains(':')
            ==> settings.config@.addr == text@),
        args.loglevel matches Some(level) ==> settings.loglevel == level,
        args.loglevel is None && file.log_level is None ==> settings.loglevel == LogLevel::Info,
        args.loglevel is None ==> (file.log_level matches Some(name) ==> settings.loglevel
            == LogLevel::named(name@)),
        settings.config@.default_tcp_upstream == default_upstream(args.tcp_upstream@),
        settings.config@.default_udp_upstream == default_upstream(args.udp_upstream@),
{
}

/// A server needs an address to bind and a password, from the command line or from the file, and
/// nothing else.
pub proof fn server_needs_address_and_password(args: ServerArgs, file: ServerFile)
    ensures
        ({
            let addressed = args.addr@.len() > 0 || (file.bind_address is Some
                && file.bind_address->0@.len() > 0);
            let keyed = args.password@.len() > 0 || (file.password is Some
                && file.password->0@.len() > 0);
            &&& server_settings_error(args, file) is None <==> addressed && keyed
            &&& !(addressed && keyed) ==> server_settings_error(args, file) == Some(
                ConfigError::MissingSetting,
            )
        }),
{
}

/// An address to bind that has a colon is taken as it is, so that whatever reads as a socket
/// address resolves to that very address. A mere port resolves to that port of `127.0.0.1`.
pub proof fn bind_address_means_what_it_says(text: Seq<char>)
    ensures
        text.contains(':') ==> bind_address(text) == text,
        socket_addr_text(text) is Some ==> text.contains(':') && bind_address(text) == text
            && socket_addr_text(bind_address(text)) == socket_addr_text(text),
        digits_only(text) && port_text(text) is Some ==> socket_addr_text(bind_address(text))
            == Some(
            SocketAddr::V4(
                SocketAddrV4 { ip: Ipv4Addr(127, 0, 0, 1), port: port_text(text)->0 },
            ),
        ),
{
    if digits_only(text) && port_text(text) is Some {
        if text.contains(':') {
            let i = choose|i: int| 0 <= i < text.len() && text[i] == ':';
            assert('0' <= text[i] <= '9');
        }
        local_port_reads_as_local_address(text, port_text(text)->0);
    }
    if socket_addr_text(text) is Some {
        lemma_address_has_colon(text);
    }
}

/// What reads as a socket address has a colon.
pub proof fn lemma_address_has_colon(text: Seq<char>)
    requires
        socket_addr_text(text) is Some,
    ensures
        text.contains(':'),
{
}

/// The address that a server binds is the one it was given: an IP with a port as written, for
/// either family, from the command line or, without one there, from the file; a mere port is one
/// of `127.0.0.1`.
pub proof fn server_binds_the_given_address(
    settings: ServerSettings,
    args: ServerArgs,
    file: ServerFile,
    available_workers: usize,
    addr: SocketAddr,
    in_file: String,
)
    requires
        settings.result_of(args, file, available_workers),
        no_flow_label(addr),
    ensures
        args.addr@ == addr.text() ==> socket_addr_text(settings.config@.addr) == Some(addr),
        args.addr@.len() == 0 && file.bind_address == Some(in_file) && in_file@ == addr.text()
            ==> socket_addr_text(settings.config@.addr) == Some(addr),
        digits_only(args.addr@) && port_text(args.addr@) is Some ==> socket_addr_text(
            settings.config@.addr,
        ) == Some(
            SocketAddr::V4(
                SocketAddrV4 { ip: Ipv4Addr(127, 0, 0, 1), port: port_text(args.addr@)->0 },
            ),
        ),
{
    lemma_socket_addr_chars(addr);
    socket_addr_round_trip(addr);
    bind_address_means_what_it_says(args.addr@);
    bind_address_means_what_it_says(addr.text());
}

/// An address of a tunnel is an IP with a port, of either family, or a mere port of `127.0.0.1`,
/// and nothing else; the same holds of a default upstream, which is none where the text is
/// neither.
pub proof fn tunnel_address_means_what_it_says(addr: SocketAddr, text: Seq<char>)
    requires
        no_flow_label(addr),
    ensures
        tunnel_addr(addr.text()) == Ok::<SocketAddr, ConfigError>(addr),
        default_upstream(addr.text()) == Some(addr),
        port_text(text) matches Some(port) ==> tunnel_addr(text) == Ok::<SocketAddr, ConfigError>(
            SocketAddr::V4(SocketAddrV4 { ip: Ipv4Addr(127, 0, 0, 1), port }),
        ) && default_upstream(text) == Some(
            SocketAddr::V4(SocketAddrV4 { ip: Ipv4Addr(127, 0, 0, 1), port }),
        ),
        port_text(text) is None && socket_addr_text(text) is None ==> tunnel_addr(text) == Err::<
            SocketAddr,
            ConfigError,
        >(ConfigError::InvalidAddress) && default_upstream(text) is None,
{
    lemma_socket_addr_chars(addr);
    socket_addr_round_trip(addr);
    lemma_no_port(addr.text());
}

/// An entry of the configuration file is an inbound tunnel of the protocol it names: the server
/// binds what stands under `bind`, and the client forwards to what stands under `destination`. It
/// is refused only for its protocol or for one of the two addresses.
pub proof fn entry_binds_and_forwards(
    entry: TomlTunnelView,
    bind: SocketAddr,
    destination: SocketAddr,
)
    requires
        no_flow_label(bind),
        no_flow_label(destination),
    ensures
        ({
            let tunnel = toml_tunnel(entry);
            let tcp = lower(entry.protocol) == seq!['t', 'c', 'p'];
            let udp = lower(entry.protocol) == seq!['u', 'd', 'p'];
            &&& !tcp && !udp <==> tunnel == Err::<TunnelConfig, ConfigError>(
                ConfigError::InvalidProtocol,
            )
            &&& tunnel is Ok <==> (tcp || udp) && tunnel_addr(entry.bind) is Ok && tunnel_addr(
                entry.destination,
            ) is Ok
            &&& tunnel matches Ok(t) ==> {
                &&& t.mode == TunnelMode::In
                &&& t.upstream.upstream_type == UpstreamType::Tcp <==> tcp
                &&& t.upstream.upstream_type == UpstreamType::Udp <==> udp
                &&& t.upstream.upstream_addr == Some(tunnel_addr(entry.bind)->Ok_0)
                &&& t.local_server_addr == tunnel_addr(entry.destination)->Ok_0
                &&& entry.bind == bind.text() ==> t.upstream.upstream_addr == Some(bind)
                &&& entry.destination == destination.text() ==> t.local_server_addr == destination
            }
        }),
{
    reveal(toml_tunnel);
    reveal_strlit("tcp");
    reveal_strlit("udp");
    assert("tcp"@ =~= seq!['t', 'c', 'p']);
    assert("udp"@ =~= seq!['u', 'd', 'p']);
    assert("tcp"@[0] != "udp"@[0]);
    tunnel_address_means_what_it_says(bind, entry.bind);
    tunnel_address_means_what_it_says(destination, entry.destination);
}

/// The entries of the configuration file are the tunnels, one for each and in the same order;
/// they are refused as soon as one of them is, for the reason of the first that is.
pub proof fn every_entry_is_a_tunnel(entries: Seq<TomlTunnelView>, i: int)
    requires
        0 <= i < entries.len(),
    ensures
        toml_tunnels(entries) matches Ok(tunnels) ==> tunnels.len() == entries.len() && toml_tunnel(
            entries[i],
        ) == Ok::<TunnelConfig, ConfigError>(tunnels[i]),
        toml_tunnel(entries[i]) is Err && (forall|j: int|
            0 <= j < i ==> toml_tunnel(#[trigger] entries[j]) is Ok) ==> toml_tunnels(entries)
            == Err::<Seq<TunnelConfig>, ConfigError>(toml_tunnel(entries[i])->Err_0),
        (forall|j: int| 0 <= j < entries.len() ==> toml_tunnel(#[trigger] entries[j]) is Ok)
            ==> toml_tunnels(entries) is Ok,
    decreases entries.len(),
{
    let shorter = entries.drop_last();
    assert forall|j: int| 0 <= j < shorter.len() implies shorter[j] == #[trigger] entries[j] by {}
    if toml_tunnels(entries) is Ok {
        lemma_tunnel_count(shorter);
    }
    if i < entries.len() - 1 {
        every_entry_is_a_tunnel(shorter, i);
    } else if shorter.len() > 0 {
        every_entry_is_a_tunnel(shorter, 0);
    }
    if toml_tunnel(entries[i]) is Err && (forall|j: int|
        0 <= j < i ==> toml_tunnel(#[trigger] entries[j]) is Ok) {
        assert forall|j: int| 0 <= j < i implies toml_tunnel(#[trigger] shorter[j]) is Ok by {
            assert(shorter[j] == entries[j]);
        }
    }
    if forall|j: int| 0 <= j < entries.len() ==> toml_tunnel(#[trigger] entries[j]) is Ok {
        assert forall|j: int| 0 <= j < shorter.len() implies toml_tunnel(
            #[trigger] shorter[j],
        ) is Ok by {
            assert(shorter[j] == entries[j]);
        }
        assert(toml_tunnel(entries[entries.len() - 1]) is Ok);
    }
}

proof fn lemma_tunnel_count(entries: Seq<TomlTunnelView>)
    requires
        toml_tunnels(entries) is Ok,
    ensures
        toml_tunnels(entries)->Ok_0.len() == entries.len(),
    decreases entries.len(),
{
    if entries.len() > 0 {
        lemma_tunnel_count(entries.drop_last());
    }
}

/// Names are compared without regard to the case of ASCII letters: a letter stands for its
/// lower-case form, and every other character for itself.
pub proof fn case_of_letters_does_not_matter(s: Seq<char>, i: int)
    requires
        0 <= i < s.len(),
    ensures
        lower(s).len() == s.len(),
        !('A' <= s[i] <= 'Z') ==> lower(s)[i] == s[i],
        'A' <= s[i] <= 'Z' ==> (lower(s)[i] as int) == (s[i] as int) + ('a' as int) - ('A' as int),
        lower(lower(s)) == lower(s),
{
    assert forall|c: char| lower_char(#[trigger] lower_char(c)) == lower_char(c) by {
        if 'A' <= c <= 'Z' {
            let low = (c as u32) + 32;
            assert(97 <= low <= 122);
        }
    }
    if 'A' <= s[i] <= 'Z' {
        let low = (s[i] as u32) + 32;
        assert(97 <= low <= 122);
    }
    assert(lower(lower(s)) =~= lower(s));
}

/// Every level is known by its own name and by its initial; what is no level's name means `Info`.
pub proof fn levels_are_known_by_name(level: LogLevel, name: Seq<char>)
    ensures
        LogLevel::named(level.text()) == level,
        LogLevel::named(seq![level.text()[0]]) == level,
        LogLevel::named(name) == LogLevel::named(lower(name)),
        LogLevel::named(seq!['w', 'a', 'r', 'n', 'i', 'n', 'g']) == LogLevel::Warn,
{
    reveal_strlit("trace");
    reveal_strlit("debug");
    reveal_strlit("info");
    reveal_strlit("warn");
    reveal_strlit("error");
    reveal_strlit("warning");
    reveal_strlit("t");
    reveal_strlit("d");
    reveal_strlit("w");
    reveal_strlit("e");
    if name.len() > 0 {
        case_of_letters_does_not_matter(name, 0);
    } else {
        assert(lower(lower(name)) =~= lower(name));
    }
    assert(lower(level.text()) =~= level.text());
    let initial = seq![level.text()[0]];
    assert(lower(initial) =~= initial);
    let warning = seq!['w', 'a', 'r', 'n', 'i', 'n', 'g'];
    assert(lower(warning) =~= warning);
    assert("warning"@ =~= warning);
    assert("t"@ =~= seq!['t']);
    assert("d"@ =~= seq!['d']);
    assert("w"@ =~= seq!['w']);
    assert("e"@ =~= seq!['e']);
    assert("trace"@.len() == 5 && "debug"@.len() == 5 && "info"@.len() == 4 && "warn"@.len() == 4);
    assert("trace"@[0] == 't' && "debug"@[0] == 'd' && "info"@[0] == 'i' && "warn"@[0] == 'w');
    assert("error"@.len() == 5 && "error"@[0] == 'e');
    assert(warning[0] == 'w' && warning.len() == 7);
    assert(initial[0] == level.text()[0] && initial.len() == 1);
}

/// The client's settings, once resolved, have each number from where it belongs: the command line,
/// else the key of that number in the file, else its default. Where the command line names no
/// migration interval, for example, it is the one of the file, and migration is off without one.
pub proof fn resolved_client_numbers_have_their_own_keys(
    args: &ClientArgs,
    file: &ClientFile,
    r: Result<ClientSettings, ConfigError>,
)
    requires
        call_ensures(ClientSettings::resolve, (args, file), r),
        r is Ok,
    ensures
        ({
            let settings = r->Ok_0;
            &&& args.hop_interval_ms matches Some(v) ==> settings.hop_interval_ms == v
            &&& args.hop_interval_ms is None && file.connection_migration_interval_ms is Some
                ==> settings.hop_interval_ms == file.connection_migration_interval_ms->0
            &&& args.hop_interval_ms is None && file.connection_migration_interval_ms is None
                ==> settings.hop_interval_ms == 0
            &&& args.wait_before_retry_ms matches Some(v) ==> settings.wait_before_retry_ms == v
            &&& args.wait_before_retry_ms is None ==> (file.retry_interval_ms matches Some(v)
                ==> settings.wait_before_retry_ms == v)
            &&& args.wait_before_retry_ms is None && file.retry_interval_ms is None
                ==> settings.wait_before_retry_ms == 5000
            &&& args.quic_timeout_ms matches Some(v) ==> settings.quic_timeout_ms == v
            &&& args.quic_timeout_ms is None ==> (file.quic_idle_ms matches Some(v)
                ==> settings.quic_timeout_ms == v)
            &&& args.quic_timeout_ms is None && file.quic_idle_ms is None
                ==> settings.quic_timeout_ms == 30000
            &&& args.tcp_timeout_ms matches Some(v) ==> settings.tcp_timeout_ms == v
            &&& args.tcp_timeout_ms is None ==> (file.tcp_idle_ms matches Some(v)
                ==> settings.tcp_timeout_ms == v)
            &&& args.tcp_timeout_ms is None && file.tcp_idle_ms is None ==> settings.tcp_timeout_ms
                == 30000
            &&& args.udp_timeout_ms matches Some(v) ==> settings.udp_timeout_ms == v
            &&& args.udp_timeout_ms is None ==> (file.udp_idle_ms matches Some(v)
                ==> settings.udp_timeout_ms == v)
            &&& args.udp_timeout_ms is None && file.udp_idle_ms is None ==> settings.udp_timeout_ms
                == 5000
            &&& args.workers matches Some(v) ==> settings.workers == v
            &&& args.workers is None ==> (file.workers matches Some(v) ==> settings.workers == v)
            &&& args.workers is None && file.workers is None ==> settings.workers == 0
        }),
{
}

/// Whatever else the file says, what is resolved of one key stays the same: two files that agree
/// on the migration interval give the same, and so for each other key.
pub proof fn resolved_client_settings_do_not_mix_keys(
    args: &ClientArgs,
    file: &ClientFile,
    other: &ClientFile,
    r: Result<ClientSettings, ConfigError>,
    s: Result<ClientSettings, ConfigError>,
)
    requires
        call_ensures(ClientSettings::resolve, (args, file), r),
        call_ensures(ClientSettings::resolve, (args, other), s),
        r is Ok,
        s is Ok,
    ensures
        ({
            let a = r->Ok_0;
            let b = s->Ok_0;
            &&& file.connection_migration_interval_ms == other.connection_migration_interval_ms
                ==> a.hop_interval_ms == b.hop_interval_ms
            &&& file.retry_interval_ms == other.retry_interval_ms ==> a.wait_before_retry_ms
                == b.wait_before_retry_ms
            &&& file.quic_idle_ms == other.quic_idle_ms ==> a.quic_timeout_ms == b.quic_timeout_ms
            &&& file.tcp_idle_ms == other.tcp_idle_ms ==> a.tcp_timeout_ms == b.tcp_timeout_ms
            &&& file.udp_idle_ms == other.udp_idle_ms ==> a.udp_timeout_ms == b.udp_timeout_ms
            &&& file.workers == other.workers ==> a.workers == b.workers
            &&& file.server_address == other.server_address ==> a.server_addr@ == b.server_addr@
            &&& file.password == other.password ==> a.password@ == b.password@
            &&& file.cert == other.cert ==> a.cert@ == b.cert@
            &&& file.cipher == other.cipher ==> a.cipher@ == b.cipher@
            &&& file.dot_servers == other.dot_servers ==> a.dot@ == b.dot@
            &&& file.dns_servers == other.dns_servers ==> a.dns@ == b.dns@
            &&& file.log_level == other.log_level ==> a.loglevel == b.loglevel
            &&& file.tunnels == other.tunnels ==> a.tcp_mappings@ == b.tcp_mappings@
                && a.udp_mappings@ == b.udp_mappings@
            &&& a.tunnels_from_file == b.tunnels_from_file
        }),
{
}

/// The server's settings, once resolved, bind the address that was given: an IP with a port as
/// written, for either family, and a mere port as one of `127.0.0.1`; the command line comes
/// before the file.
pub proof fn resolved_server_binds_the_given_address(
    args: &ServerArgs,
    file: &ServerFile,
    available_workers: usize,
    r: Result<ServerSettings, ConfigError>,
    addr: SocketAddr,
    port: u16,
)
    requires
        call_ensures(ServerSettings::resolve, (args, file, available_workers), r),
        no_flow_label(addr),
        r is Ok,
    ensures
        ({
            let bound = socket_addr_text(r->Ok_0.config@.addr);
            let local = SocketAddr::V4(SocketAddrV4 { ip: Ipv4Addr(127, 0, 0, 1), port });
            &&& args.addr@ == addr.text() ==> bound == Some(addr)
            &&& socket_addr_text(args.addr@) is Some ==> bound == socket_addr_text(args.addr@)
            &&& digits_only(args.addr@) && port_text(args.addr@) == Some(port) ==> bound == Some(
                local,
            )
            &&& args.addr@.len() == 0 && file.bind_address is Some && socket_addr_text(
                file.bind_address->0@,
            ) is Some ==> bound == socket_addr_text(file.bind_address->0@)
            &&& args.addr@.len() == 0 && file.bind_address is Some && digits_only(
                file.bind_address->0@,
            ) && port_text(file.bind_address->0@) == Some(port) ==> bound == Some(local)
        }),
{
    lemma_socket_addr_chars(addr);
    socket_addr_round_trip(addr);
    bind_address_means_what_it_says(addr.text());
    bind_address_means_what_it_says(args.addr@);
    if socket_addr_text(args.addr@) is Some {
        lemma_address_has_colon(args.addr@);
    }
    if file.bind_address is Some {
        bind_address_means_what_it_says(file.bind_address->0@);
    }
}

/// The server's settings, once resolved, have each value from where it belongs: the command line,
/// else its key in the file, else its default.
pub proof fn resolved_server_settings_have_their_own_keys(
    args: &ServerArgs,
    file: &ServerFile,
    available_workers: usize,
    r: Result<ServerSettings, ConfigError>,
)
    requires
        call_ensures(ServerSettings::resolve, (args, file, available_workers), r),
        r is Ok,
    ensures
        ({
            let config = r->Ok_0.config@;
            &&& args.quic_timeout_ms matches Some(v) ==> config.quic_timeout_ms == v
            &&& args.quic_timeout_ms is None ==> (file.quic_idle_ms matches Some(v)
                ==> config.quic_timeout_ms == v)
            &&& args.quic_timeout_ms is None && file.quic_idle_ms is None ==> config.quic_timeout_ms
                == 40000
            &&& args.tcp_timeout_ms matches Some(v) ==> config.tcp_timeout_ms == v
            &&& args.tcp_timeout_ms is None ==> (file.tcp_idle_ms matches Some(v)
                ==> config.tcp_timeout_ms == v)
            &&& args.tcp_timeout_ms is None && file.tcp_idle_ms is None ==> config.tcp_timeout_ms
                == 30000
            &&& args.udp_timeout_ms matches Some(v) ==> config.udp_timeout_ms == v
            &&& args.udp_timeout_ms is None ==> (file.udp_idle_ms matches Some(v)
                ==> config.udp_timeout_ms == v)
            &&& args.udp_timeout_ms is None && file.udp_idle_ms is None ==> config.udp_timeout_ms
                == 5000
            &&& args.password@.len() > 0 ==> config.password == args.password@
            &&& args.password@.len() == 0 && file.password is Some ==> config.password
                == file.password->0@
            &&& args.cert@.len() > 0 ==> config.cert_path == args.cert@
            &&& args.cert@.len() == 0 && file.cert is Some ==> config.cert_path == file.cert->0@
            &&& args.key@.len() > 0 ==> config.key_path == args.key@
            &&& args.key@.len() == 0 && file.key is Some ==> config.key_path == file.key->0@
            &&& config.dashboard_server.len() == 0
            &&& config.dashboard_server_credential.len() == 0
            &&& config.default_tcp_upstream == default_upstream(args.tcp_upstream@)
            &&& config.default_udp_upstream == default_upstream(args.udp_upstream@)
            &&& r->Ok_0.workers > 0 || available_workers == 0
        }),
{
}

/// A runtime of one worker is the current thread; any other number of workers is a runtime of that
/// many threads.
pub proof fn one_worker_is_the_current_thread(workers: usize, r: RuntimeKind)
    requires
        call_ensures(runtime_kind, (workers,), r),
    ensures
        workers == 1 <==> r is CurrentThread,
        workers != 1 ==> r == RuntimeKind::MultiThread(workers),
{
}

/// The tunnels of a configuration file are read one by one and in order; where the file lists none,
/// there are none.
pub proof fn listed_tunnels_are_read(
    tunnels: &Option<Vec<TomlTunnel>>,
    r: Result<Vec<TunnelConfig>, ConfigError>,
    i: int,
)
    requires
        call_ensures(parse_toml_tunnels, (tunnels,), r),
    ensures
        tunnels is None ==> r is Ok && r->Ok_0@.len() == 0,
        tunnels is Some && r is Ok ==> r->Ok_0@.len() == tunnels->0@.len(),
        tunnels is Some && r is Ok && 0 <= i < r->Ok_0@.len() ==> toml_tunnel(tunnels->0@[i]@)
            == Ok::<TunnelConfig, ConfigError>(r->Ok_0@[i]),
        tunnels is Some && 0 <= i < tunnels->0@.len() && toml_tunnel(tunnels->0@[i]@) is Err
            ==> r is Err,
{
    if tunnels is Some {
        let entries = toml_views(tunnels->0@);
        if entries.len() > 0 && r is Ok {
            every_entry_is_a_tunnel(entries, 0);
        }
        if 0 <= i < entries.len() {
            every_entry_is_a_tunnel(entries, i);
        }
    }
}

/// Levels are read from names, written as their names, and logged with a filter for both crates.
pub proof fn levels_are_read_and_written(
    name: &str,
    read: LogLevel,
    level: &LogLevel,
    text: String,
    filter: String,
)
    requires
        call_ensures(LogLevel::from_name, (name,), read),
        call_ensures(LogLevel::to_string, (level,), text),
        call_ensures(LogLevel::log_filter, (level,), filter),
    ensures
        name@ == text@ ==> read == *level,
        name@ == lower(text@) ==> read == *level,
        filter@ == "rstun="@ + text@ + ",rs_utilities="@ + text@,
{
    levels_are_known_by_name(*level, name@);
    levels_are_known_by_name(*level, level.text());
}

} // verus!
