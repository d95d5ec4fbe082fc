//! What mappings, lists of servers and server addresses in a configuration mean.

use crate::addr::{IpAddr, Ipv4Addr, SocketAddr, SocketAddrV4, SocketAddrV6};
use crate::addr_parse::socket_addr_text;
use crate::addr_round_trip::{is_addr_char, lemma_socket_addr_chars, socket_addr_round_trip};
use crate::config::{
    address_field, hop_interval, mapped_tunnels, mapping_list, mapping_text, or_default,
    parse_addr_mappings, server_address, server_list, suite_named, suite_selected_by_its_name,
    supported_cipher_suite_strs, supported_cipher_suites, CipherSuite, ClientConfig, ConfigError,
    SelectedCipherSuite, TunnelConfig, TunnelMode, Upstream, UpstreamType,
};
use crate::connect::{
    check_certificates, dot_lookups, host_part, is_ip_addr, lookup_server_ip, lookup_views,
    lookups, name_and_port, settings_for, transport_settings, ConnectError, Lookup, LookupView,
    Resolution, ServerTarget, TlsPlan, TransportSettings,
};
use crate::mapping_round_trip::{lacks, lemma_no_port, no_flow_label, split_undoes_join};
use crate::number::port_text;
use crate::number_laws::{digits_only, local_port_reads_as_local_address};
use crate::server::{CertSource, EndpointPlan, Server};
use crate::settings_laws::lemma_address_has_colon;
use crate::text::{join, last_position, split};
use vstd::prelude::*;

verus! {

/// Whether a text stands for an address: it is that address, written out, or the mere port of an
/// address of `127.0.0.1`.
pub open spec fn stands_for(text: Seq<char>, addr: SocketAddr) -> bool {
    ||| no_flow_label(addr) && text == addr.text()
    ||| digits_only(text) && port_text(text) is Some && addr == SocketAddr::V4(
        SocketAddrV4 { ip: Ipv4Addr(127, 0, 0, 1), port: port_text(text)->0 },
    )
}

/// The text that leaves an address to the peer.
pub open spec fn any() -> Seq<char> {
    seq!['A', 'N', 'Y']
}

/// Pieces of a mapping, put together.
pub open spec fn mapping(pieces: Seq<Seq<char>>) -> Seq<char> {
    join(pieces, '^')
}

/// What stands for an address is read as that address, and holds no separator.
proof fn lemma_stands_for(text: Seq<char>, addr: SocketAddr)
    requires
        stands_for(text, addr),
    ensures
        address_field(text) == Ok::<Option<SocketAddr>, ConfigError>(Some(addr)),
        lacks(text, '^'),
        lacks(text, ','),
{
    reveal(address_field);
    reveal_strlit("ANY");
    assert("ANY"@[0] == 'A');
    if no_flow_label(addr) && text == addr.text() {
        lemma_socket_addr_chars(addr);
        socket_addr_round_trip(addr);
        lemma_no_port(text);
        assert forall|i: int| 0 <= i < text.len() implies #[trigger] text[i] != '^' && text[i]
            != ',' by {
            assert(is_addr_char(text[i]));
        }
    } else {
        assert('0' <= text[0] <= '9');
        assert forall|i: int| 0 <= i < text.len() implies #[trigger] text[i] != '^' && text[i]
            != ',' by {
            assert('0' <= text[i] <= '9');
        }
    }
}

proof fn lemma_any()
    ensures
        address_field(any()) == Ok::<Option<SocketAddr>, ConfigError>(None),
        lacks(any(), '^'),
{
    reveal(address_field);
    reveal_strlit("ANY");
    assert("ANY"@ =~= any());
}

proof fn lemma_two_pieces(a: Seq<char>, b: Seq<char>)
    requires
        lacks(a, '^'),
        lacks(b, '^'),
    ensures
        split(mapping(seq![a, b]), '^') == seq![a, b],
{
    let pieces = seq![a, b];
    assert forall|i: int| 0 <= i < pieces.len() implies lacks(#[trigger] pieces[i], '^') by {}
    split_undoes_join(pieces, '^');
}

proof fn lemma_three_pieces(a: Seq<char>, b: Seq<char>, c: Seq<char>)
    requires
        lacks(a, '^'),
        lacks(b, '^'),
        lacks(c, '^'),
    ensures
        split(mapping(seq![a, b, c]), '^') == seq![a, b, c],
{
    let pieces = seq![a, b, c];
    assert forall|i: int| 0 <= i < pieces.len() implies lacks(#[trigger] pieces[i], '^') by {}
    split_undoes_join(pieces, '^');
}

/// The tunnel between two addresses that have been read, the near one on the side of the client;
/// none stands for an address that is left to the peer.
spec fn tunnel_between(
    mode: TunnelMode,
    near: Option<SocketAddr>,
    far: Option<SocketAddr>,
    upstream_type: UpstreamType,
) -> Result<TunnelConfig, ConfigError> {
    match near {
        None => Err(ConfigError::AnyAsLocalAddress),
        Some(local_server_addr) => if far is None && mode == TunnelMode::In {
            Err(ConfigError::AnyForInboundTunnel)
        } else {
            Ok(
                TunnelConfig {
                    mode,
                    local_server_addr,
                    upstream: Upstream { upstream_addr: far, upstream_type },
                },
            )
        },
    }
}

proof fn lemma_two_fields(
    s: Seq<char>,
    a: Seq<char>,
    b: Seq<char>,
    far: Option<SocketAddr>,
    near: Option<SocketAddr>,
    upstream_type: UpstreamType,
)
    requires
        split(s, '^') == seq![a, b],
        address_field(a) == Ok::<Option<SocketAddr>, ConfigError>(far),
        address_field(b) == Ok::<Option<SocketAddr>, ConfigError>(near),
    ensures
        mapping_text(s, upstream_type) == tunnel_between(TunnelMode::In, near, far, upstream_type),
{
}

proof fn lemma_three_fields(
    s: Seq<char>,
    mode: Seq<char>,
    a: Seq<char>,
    b: Seq<char>,
    near: Option<SocketAddr>,
    far: Option<SocketAddr>,
    upstream_type: UpstreamType,
)
    requires
        split(s, '^') == seq![mode, a, b],
        address_field(a) == Ok::<Option<SocketAddr>, ConfigError>(near),
        address_field(b) == Ok::<Option<SocketAddr>, ConfigError>(far),
    ensures
        mapping_text(s, upstream_type) == (if mode == "IN"@ {
            tunnel_between(TunnelMode::In, near, far, upstream_type)
        } else if mode == "OUT"@ {
            tunnel_between(TunnelMode::Out, near, far, upstream_type)
        } else {
            Err::<TunnelConfig, ConfigError>(ConfigError::InvalidTunnelType)
        }),
{
}

/// A mapping of two pieces is an inbound tunnel: the server binds the first address and the client
/// forwards to the second. Neither may be left to the peer.
pub proof fn two_pieces_bind_and_forward(
    bind: Seq<char>,
    destination: Seq<char>,
    bound: SocketAddr,
    local: SocketAddr,
    upstream_type: UpstreamType,
)
    requires
        stands_for(bind, bound),
        stands_for(destination, local),
    ensures
        mapping_text(mapping(seq![bind, destination]), upstream_type) == Ok::<
            TunnelConfig,
            ConfigError,
        >(
            TunnelConfig {
                mode: TunnelMode::In,
                local_server_addr: local,
                upstream: Upstream { upstream_addr: Some(bound), upstream_type },
            },
        ),
        mapping_text(mapping(seq![any(), destination]), upstream_type) == Err::<
            TunnelConfig,
            ConfigError,
        >(ConfigError::AnyForInboundTunnel),
        mapping_text(mapping(seq![bind, any()]), upstream_type) == Err::<TunnelConfig, ConfigError>(
            ConfigError::AnyAsLocalAddress,
        ),
{
    lemma_stands_for(bind, bound);
    lemma_stands_for(destination, local);
    lemma_any();
    lemma_two_pieces(bind, destination);
    lemma_two_pieces(any(), destination);
    lemma_two_pieces(bind, any());
    let both = mapping(seq![bind, destination]);
    lemma_two_fields(both, bind, destination, Some(bound), Some(local), upstream_type);
    let unbound = mapping(seq![any(), destination]);
    lemma_two_fields(unbound, any(), destination, None, Some(local), upstream_type);
    let aimless = mapping(seq![bind, any()]);
    lemma_two_fields(aimless, bind, any(), Some(bound), None, upstream_type);
}

/// A mapping of three pieces names its direction, the address on the side of the client and the
/// address on the side of the peer, in this order. The peer's address may be left open, but only
/// for an outbound tunnel; the client's may not. No other direction is known.
pub proof fn three_pieces_name_a_direction(
    mode: Seq<char>,
    near: Seq<char>,
    far: Seq<char>,
    local: SocketAddr,
    peer: SocketAddr,
    upstream_type: UpstreamType,
)
    requires
        stands_for(near, local),
        stands_for(far, peer),
        lacks(mode, '^'),
    ensures
        ({
            let inbound = mode == seq!['I', 'N'];
            let outbound = mode == seq!['O', 'U', 'T'];
            let named = mapping_text(mapping(seq![mode, near, far]), upstream_type);
            let open = mapping_text(mapping(seq![mode, near, any()]), upstream_type);
            let homeless = mapping_text(mapping(seq![mode, any(), far]), upstream_type);
            &&& inbound || outbound ==> named == Ok::<TunnelConfig, ConfigError>(
                TunnelConfig {
                    mode: if inbound {
                        TunnelMode::In
                    } else {
                        TunnelMode::Out
                    },
                    local_server_addr: local,
                    upstream: Upstream { upstream_addr: Some(peer), upstream_type },
                },
            )
            &&& inbound ==> open == Err::<TunnelConfig, ConfigError>(
                ConfigError::AnyForInboundTunnel,
            )
            &&& outbound ==> open == Ok::<TunnelConfig, ConfigError>(
                TunnelConfig {
                    mode: TunnelMode::Out,
                    local_server_addr: local,
                    upstream: Upstream { upstream_addr: None, upstream_type },
                },
            )
            &&& inbound || outbound ==> homeless == Err::<TunnelConfig, ConfigError>(
                ConfigError::AnyAsLocalAddress,
            )
            &&& !inbound && !outbound ==> named == Err::<TunnelConfig, ConfigError>(
                ConfigError::InvalidTunnelType,
            )
        }),
{
    lemma_stands_for(near, local);
    lemma_stands_for(far, peer);
    lemma_any();
    lemma_three_pieces(mode, near, far);
    lemma_three_pieces(mode, near, any());
    lemma_three_pieces(mode, any(), far);
    let both = mapping(seq![mode, near, far]);
    lemma_three_fields(both, mode, near, far, Some(local), Some(peer), upstream_type);
    let unbound = mapping(seq![mode, near, any()]);
    lemma_three_fields(unbound, mode, near, any(), Some(local), None, upstream_type);
    let homeless = mapping(seq![mode, any(), far]);
    lemma_three_fields(homeless, mode, any(), far, None, Some(peer), upstream_type);
    reveal_strlit("IN");
    reveal_strlit("OUT");
    assert("IN"@ =~= seq!['I', 'N']);
    assert("OUT"@ =~= seq!['O', 'U', 'T']);
    assert("IN"@.len() != "OUT"@.len());
}

/// A mapping is made of two or three pieces, and each address of it is `ANY`, a port or an address;
/// anything else is refused. Whatever is accepted has the transport that was asked for.
pub proof fn other_mappings_are_refused(pieces: Seq<Seq<char>>, upstream_type: UpstreamType, i: int)
    requires
        pieces.len() > 0,
        forall|k: int| 0 <= k < pieces.len() ==> lacks(#[trigger] pieces[k], '^'),
    ensures
        ({
            let tunnel = mapping_text(mapping(pieces), upstream_type);
            let unknown = pieces[i] != any() && port_text(pieces[i]) is None && socket_addr_text(
                pieces[i],
            ) is None;
            &&& pieces.len() != 2 && pieces.len() != 3 ==> tunnel == Err::<
                TunnelConfig,
                ConfigError,
            >(ConfigError::InvalidMappingFormat)
            &&& pieces.len() == 2 && 0 <= i < 2 && unknown ==> tunnel is Err
            &&& pieces.len() == 3 && 1 <= i < 3 && unknown ==> tunnel is Err
            &&& tunnel matches Ok(t) ==> t.upstream.upstream_type == upstream_type
        }),
{
    split_undoes_join(pieces, '^');
    lemma_unknown(pieces[i]);
}

/// What is neither `ANY` nor a port nor an address is refused.
proof fn lemma_unknown(text: Seq<char>)
    ensures
        text != any() && port_text(text) is None && socket_addr_text(text) is None
            ==> address_field(text) is Err,
{
    reveal(address_field);
    reveal_strlit("ANY");
    assert("ANY"@ =~= any());
}

/// A list of mappings is one tunnel for each mapping, in the same order, all of the transport
/// asked for; what is refused first ends the list, and the tunnels before it still count.
pub proof fn list_is_read_in_order(mappings: Seq<Seq<char>>, upstream_type: UpstreamType, n: int)
    requires
        0 <= n < mappings.len(),
        forall|k: int| 0 <= k < mappings.len() ==> lacks(#[trigger] mappings[k], ','),
        forall|k: int|
            0 <= k < n ==> mapping_text(#[trigger] mappings[k], upstream_type) is Ok,
        join(mappings, ',').len() > 0,
    ensures
        ({
            let (tunnels, error) = mapping_list(join(mappings, ','), upstream_type);
            &&& tunnels.len() >= n
            &&& forall|k: int|
                0 <= k < n ==> Ok::<TunnelConfig, ConfigError>(#[trigger] tunnels[k])
                    == mapping_text(mappings[k], upstream_type)
            &&& mapping_text(mappings[n], upstream_type) matches Err(e) ==> error == Some(e)
                && tunnels.len() == n
            &&& n + 1 == mappings.len() && mapping_text(mappings[n], upstream_type) is Ok ==> error
                is None && tunnels.len() == mappings.len() && mapping_text(
                mappings[n],
                upstream_type,
            ) == Ok::<TunnelConfig, ConfigError>(tunnels[n])
        }),
{
    split_undoes_join(mappings, ',');
    lemma_mapped(mappings, upstream_type, n);
}

proof fn lemma_mapped(mappings: Seq<Seq<char>>, upstream_type: UpstreamType, n: int)
    requires
        0 <= n < mappings.len(),
        forall|k: int|
            0 <= k < n ==> mapping_text(#[trigger] mappings[k], upstream_type) is Ok,
    ensures
        ({
            let (tunnels, error) = mapped_tunnels(mappings, upstream_type);
            &&& tunnels.len() >= n
            &&& forall|k: int|
                0 <= k < n ==> Ok::<TunnelConfig, ConfigError>(#[trigger] tunnels[k])
                    == mapping_text(mappings[k], upstream_type)
            &&& mapping_text(mappings[n], upstream_type) matches Err(e) ==> error == Some(e)
                && tunnels.len() == n
            &&& mapping_text(mappings[n], upstream_type) is Ok ==> tunnels.len() > n
                && mapping_text(mappings[n], upstream_type) == Ok::<TunnelConfig, ConfigError>(
                tunnels[n],
            )
            &&& n + 1 == mappings.len() && mapping_text(mappings[n], upstream_type) is Ok ==> error
                is None && tunnels.len() == mappings.len()
        }),
    decreases mappings.len(),
{
    let shorter = mappings.drop_last();
    if n < shorter.len() {
        assert forall|k: int| 0 <= k < n implies mapping_text(
            #[trigger] shorter[k],
            upstream_type,
        ) is Ok by {
            assert(shorter[k] == mappings[k]);
        }
        lemma_mapped(shorter, upstream_type, n);
        assert forall|k: int| 0 <= k < n implies mapping_text(#[trigger] shorter[k], upstream_type)
            == mapping_text(mappings[k], upstream_type) by {}
        let before = mapped_tunnels(shorter, upstream_type).0;
        let all = mapped_tunnels(mappings, upstream_type).0;
        assert forall|k: int| 0 <= k < before.len() implies all[k] == #[trigger] before[k] by {}
        assert forall|k: int| 0 <= k < n implies Ok::<TunnelConfig, ConfigError>(#[trigger] all[k])
            == mapping_text(mappings[k], upstream_type) by {
            assert(all[k] == before[k]);
            assert(shorter[k] == mappings[k]);
        }
    } else if n > 0 {
        assert forall|k: int| 0 <= k < n - 1 implies mapping_text(
            #[trigger] shorter[k],
            upstream_type,
        ) is Ok by {
            assert(shorter[k] == mappings[k]);
        }
        assert(shorter[n - 1] == mappings[n - 1]);
        lemma_mapped(shorter, upstream_type, n - 1);
        let before = mapped_tunnels(shorter, upstream_type).0;
        let all = mapped_tunnels(mappings, upstream_type).0;
        assert forall|k: int| 0 <= k < n implies Ok::<TunnelConfig, ConfigError>(#[trigger] all[k])
            == mapping_text(mappings[k], upstream_type) by {
            assert(all[k] == before[k]);
            assert(shorter[k] == mappings[k]);
        }
    } else {
        assert(shorter.len() == 0);
    }
}

/// Servers in a list are separated by commas and kept in order; an empty text lists none.
pub proof fn servers_are_listed_in_order(servers: Seq<Seq<char>>)
    requires
        forall|i: int| 0 <= i < servers.len() ==> lacks(#[trigger] servers[i], ','),
        servers.len() > 0 ==> join(servers, ',').len() > 0,
    ensures
        server_list(join(servers, ',')) == servers,
        server_list(Seq::empty()).len() == 0,
{
    if servers.len() > 0 {
        split_undoes_join(servers, ',');
    } else {
        assert(join(servers, ',') =~= Seq::<char>::empty());
        assert(servers =~= Seq::empty());
    }
}

/// A timeout of zero stands for its default, and any other for itself. Migration is off for zero,
/// and otherwise at least five seconds apart.
pub proof fn zero_stands_for_the_default(ms: u64, default: u64)
    ensures
        or_default(0, default) == default,
        ms > 0 ==> or_default(ms, default) == ms,
        hop_interval(0) == 0,
        0 < ms < 5000 ==> hop_interval(ms) == 5000,
        ms >= 5000 ==> hop_interval(ms) == ms,
{
}

/// A server address that is a mere port is that port of `127.0.0.1`; every other one is taken as
/// it is given.
pub proof fn server_address_means_what_it_says(text: Seq<char>)
    ensures
        text.contains(':') || port_text(text) is None ==> server_address(text) == text,
        socket_addr_text(text) is Some ==> socket_addr_text(server_address(text))
            == socket_addr_text(text),
        digits_only(text) && port_text(text) is Some ==> socket_addr_text(server_address(text))
            == Some(
            SocketAddr::V4(
                SocketAddrV4 { ip: Ipv4Addr(127, 0, 0, 1), port: port_text(text)->0 },
            ),
        ),
{
    if digits_only(text) && port_text(text) is Some {
        if text.contains(':') {
            let i = choose|i: int| 0 <= i < text.len() && text[i] == ':';
            assert('0' <= text[i] <= '9');
        }
        local_port_reads_as_local_address(text, port_text(text)->0);
    }
    if socket_addr_text(text) is Some {
        lemma_address_has_colon(text);
    }
}

proof fn lemma_last_position(before: Seq<char>, after: Seq<char>, c: char)
    requires
        lacks(after, c),
    ensures
        last_position(before.push(c) + after, c) == Some(before.len() as int),
    decreases after.len(),
{
    let s = before.push(c) + after;
    if after.len() > 0 {
        let shorter = after.drop_last();
        lemma_last_position(before, shorter, c);
        assert(s.drop_last() =~= before.push(c) + shorter);
        assert(s.last() == after[after.len() - 1]);
    } else {
        assert(s =~= before.push(c));
    }
}

proof fn lemma_no_position(s: Seq<char>, c: char)
    requires
        lacks(s, c),
    ensures
        last_position(s, c) is None,
    decreases s.len(),
{
    if s.len() > 0 {
        assert(s.last() == s[s.len() - 1]);
        lemma_no_position(s.drop_last(), c);
    }
}

/// The port of a server stands behind the last colon of its address, and the name to look up before
/// it; without a colon the port is 3515. What stands there and is no port makes the address
/// invalid.
pub proof fn name_stands_before_the_port(name: Seq<char>, port: Seq<char>)
    requires
        lacks(port, ':'),
    ensures
        name_and_port(name.push(':') + port) == (match port_text(port) {
            Some(number) => Some((name, number)),
            None => None,
        }),
        host_part(name.push(':') + port) == name,
        lacks(name, ':') ==> name_and_port(name) == Some((name, 3515u16)),
        lacks(name, ':') ==> host_part(name) == name,
{
    let s = name.push(':') + port;
    lemma_last_position(name, port, ':');
    assert(s.take(name.len() as int) =~= name);
    assert(s.skip(name.len() as int + 1) =~= port);
    if lacks(name, ':') {
        lemma_no_position(name, ':');
    }
}

/// A name is looked up with each DNS-over-TLS server that is named, in order, and with no unnamed
/// one; then with the plain DNS servers, all of them, if there are any; and at last with the
/// system.
pub proof fn names_are_looked_up_in_order(
    dot_servers: Seq<Seq<char>>,
    dns_servers: Seq<Seq<char>>,
    more: Seq<char>,
)
    ensures
        ({
            let all = lookups(dot_servers, dns_servers);
            let n = all.len() as int;
            &&& n >= 2
            &&& all[n - 1] is System
            &&& dns_servers.len() > 0 ==> all[n - 2] == LookupView::NameServers(dns_servers)
            &&& dns_servers.len() == 0 ==> all[n - 2] is System
            &&& forall|i: int| 0 <= i < n - 2 ==> (#[trigger] all[i]) is Dot
            &&& n - 2 <= dot_servers.len()
            &&& (forall|i: int|
                0 <= i < dot_servers.len() ==> (#[trigger] dot_servers[i]).len() > 0) ==> n - 2
                == dot_servers.len() && (forall|i: int|
                0 <= i < n - 2 ==> #[trigger] all[i] == LookupView::Dot(dot_servers[i]))
            &&& more.len() == 0 ==> lookups(dot_servers.push(more), dns_servers) == all
            &&& more.len() > 0 ==> lookups(dot_servers.push(more), dns_servers) == all.insert(
                n - 2,
                LookupView::Dot(more),
            )
        }),
{
    lemma_dot_lookups(dot_servers);
    let all = lookups(dot_servers, dns_servers);
    assert(dot_servers.push(more).drop_last() =~= dot_servers);
    if more.len() > 0 {
        assert(lookups(dot_servers.push(more), dns_servers) =~= all.insert(
            all.len() - 2,
            LookupView::Dot(more),
        ));
    }
}

proof fn lemma_dot_lookups(servers: Seq<Seq<char>>)
    ensures
        dot_lookups(servers).len() <= servers.len(),
        forall|i: int| 0 <= i < dot_lookups(servers).len() ==> (#[trigger] dot_lookups(
            servers,
        )[i]) is Dot,
        (forall|i: int| 0 <= i < servers.len() ==> (#[trigger] servers[i]).len() > 0)
            ==> dot_lookups(servers).len() == servers.len() && (forall|i: int|
            0 <= i < servers.len() ==> #[trigger] dot_lookups(servers)[i] == LookupView::Dot(
                servers[i],
            )),
    decreases servers.len(),
{
    if servers.len() > 0 {
        let shorter = servers.drop_last();
        lemma_dot_lookups(shorter);
        if forall|i: int| 0 <= i < servers.len() ==> (#[trigger] servers[i]).len() > 0 {
            assert forall|i: int| 0 <= i < shorter.len() implies (#[trigger] shorter[i]).len()
                > 0 by {
                assert(shorter[i] == servers[i]);
            }
            assert(servers[servers.len() - 1].len() > 0);
        }
    }
}

/// A QUIC connection times out after the configured time and is kept alive after two thirds of it;
/// with a time of zero it does neither. Its windows and its number of streams do not depend on
/// that time.
pub proof fn transport_follows_the_timeout(quic_timeout_ms: u64)
    requires
        quic_timeout_ms <= u32::MAX,
    ensures
        ({
            let settings = settings_for(quic_timeout_ms);
            &&& quic_timeout_ms == 0 ==> settings.max_idle_timeout_ms is None
                && settings.keep_alive_interval_ms is None
            &&& quic_timeout_ms > 0 ==> settings.max_idle_timeout_ms == Some(
                quic_timeout_ms as u32,
            ) && settings.keep_alive_interval_ms is Some
            &&& quic_timeout_ms > 0 ==> 3 * settings.keep_alive_interval_ms->0 <= 2
                * quic_timeout_ms < 3 * settings.keep_alive_interval_ms->0 + 3
            &&& settings.stream_receive_window == 16 * 1024 * 1024
            &&& settings.receive_window == 64 * 1024 * 1024
            &&& settings.send_window == 64 * 1024 * 1024
            &&& settings.max_concurrent_bidi_streams == 4096
        }),
{
}

/// A name that is none of the three stands for `chacha20-poly1305`, the other two for themselves.
pub proof fn cipher_names_are_exact(name: Seq<char>)
    ensures
        suite_named(name) == CipherSuite::Aes128Gcm <==> name == "aes-128-gcm"@,
        suite_named(name) == CipherSuite::Aes256Gcm <==> name == "aes-256-gcm"@,
        suite_named(name) == CipherSuite::Chacha20Poly1305 <==> name != "aes-128-gcm"@ && name
            != "aes-256-gcm"@,
{
    reveal_strlit("aes-128-gcm");
    reveal_strlit("aes-256-gcm");
    assert("aes-128-gcm"@[4] == '1');
    assert("aes-256-gcm"@[4] == '2');
}

/// The tunnels that a text lists are added behind those that are there already, all of the
/// transport asked for; an empty text lists none.
pub proof fn listed_tunnels_are_added(
    mappings: &str,
    upstream_type: UpstreamType,
    v: &mut Vec<TunnelConfig>,
    r: Result<(), ConfigError>,
    pieces: Seq<Seq<char>>,
)
    requires
        call_ensures(parse_addr_mappings, (mappings, upstream_type, v), r),
        pieces.len() == 1,
        lacks(pieces[0], ','),
        pieces[0].len() > 0,
    ensures
        mappings@.len() == 0 ==> r is Ok && final(v)@ == old(v)@,
        mappings@ == pieces[0] ==> match mapping_text(pieces[0], upstream_type) {
            Ok(tunnel) => r is Ok && final(v)@ == old(v)@.push(tunnel),
            Err(e) => r == Err::<(), ConfigError>(e) && final(v)@ == old(v)@,
        },
        final(v)@.take(old(v)@.len() as int) == old(v)@,
{
    assert(final(v)@.take(old(v)@.len() as int) =~= old(v)@);
    if mappings@.len() == 0 {
        assert(final(v)@ =~= old(v)@);
    }
    if mappings@ == pieces[0] {
        assert(join(pieces, ',') == pieces[0]);
        list_is_read_in_order(pieces, upstream_type, 0);
        let tunnels = mapping_list(mappings@, upstream_type).0;
        if mapping_text(pieces[0], upstream_type) is Ok {
            assert(final(v)@ =~= old(v)@.push(tunnels[0]));
        } else {
            assert(final(v)@ =~= old(v)@);
        }
    }
}

/// A configuration keeps what it is given, each value in its own place. A timeout of zero stands
/// for thirty seconds, and for five seconds with UDP; without workers, all processors are used.
pub proof fn configuration_keeps_what_it_is_given(
    texts: (&str, &str, &str, &str, &str, &str, &str, &str),
    workers: usize,
    times: (u64, u64, u64, u64, u64),
    available_workers: usize,
    r: Result<ClientConfig, ConfigError>,
)
    requires
        call_ensures(
            ClientConfig::create,
            (
                texts.0,
                texts.1,
                texts.2,
                texts.3,
                texts.4,
                texts.5,
                texts.6,
                texts.7,
                workers,
                times.0,
                times.1,
                times.2,
                times.3,
                times.4,
                available_workers,
            ),
            r,
        ),
    ensures
        ({
            let tcp = mapping_list(texts.4@, UpstreamType::Tcp);
            let udp = mapping_list(texts.5@, UpstreamType::Udp);
            let none = texts.4@.len() == 0 && texts.5@.len() == 0;
            &&& none <==> r == Err::<ClientConfig, ConfigError>(ConfigError::NoMappings) && none
            &&& r is Ok <==> !none && tcp.1 is None && udp.1 is None
            &&& !none && tcp.1 is Some ==> r == Err::<ClientConfig, ConfigError>(tcp.1->0)
            &&& r matches Ok(config) ==> {
                &&& (texts.0@.contains(':') || port_text(texts.0@) is None) ==> config.server_addr@
                    == texts.0@
                &&& config.password@ == texts.1@
                &&& config.cert_path@ == texts.2@
                &&& config.cipher@ == texts.3@
                &&& config.tunnels@ == tcp.0 + udp.0
                &&& texts.6@.len() == 0 ==> config.dot_servers@.len() == 0
                &&& texts.7@.len() == 0 ==> config.dns_servers@.len() == 0
                &&& config@.dot_servers == server_list(texts.6@)
                &&& config@.dns_servers == server_list(texts.7@)
                &&& workers > 0 ==> config.workers == workers
                &&& workers == 0 ==> config.workers == available_workers
                &&& config.wait_before_retry_ms == times.0
                &&& times.1 > 0 ==> config.quic_timeout_ms == times.1
                &&& times.1 == 0 ==> config.quic_timeout_ms == 30000
                &&& times.2 > 0 ==> config.tcp_timeout_ms == times.2
                &&& times.2 == 0 ==> config.tcp_timeout_ms == 30000
                &&& times.3 > 0 ==> config.udp_timeout_ms == times.3
                &&& times.3 == 0 ==> config.udp_timeout_ms == 5000
                &&& times.4 == 0 ==> config.hop_interval_ms == 0
                &&& 0 < times.4 < 5000 ==> config.hop_interval_ms == 5000
                &&& times.4 >= 5000 ==> config.hop_interval_ms == times.4
            }
        }),
{
    if let Ok(config) = r {
        assert(config@.dot_servers.len() == config.dot_servers@.len());
        assert(config@.dns_servers.len() == config.dns_servers@.len());
    }
}

/// How a server is found: at the address given, where it is an IP with a port; by the name before
/// the last colon with the port behind it, or with port 3515 without a colon; and not at all where
/// what stands behind the last colon is no port.
pub proof fn server_is_found_where_it_is_named(
    config: &ClientConfig,
    r: Result<ServerTarget, ConnectError>,
    addr: SocketAddr,
    name: Seq<char>,
    port: Seq<char>,
)
    requires
        call_ensures(ClientConfig::parse_server_addr, (config,), r),
        no_flow_label(addr),
        lacks(port, ':'),
    ensures
        config@.server_addr == addr.text() ==> r == Ok::<ServerTarget, ConnectError>(
            ServerTarget::Address(addr),
        ),
        config@.server_addr == name.push(':') + port && socket_addr_text(config@.server_addr)
            is None ==> match port_text(port) {
            Some(number) => r is Ok && r->Ok_0 is Name && r->Ok_0->domain@ == name && r->Ok_0->port
                == number,
            None => r == Err::<ServerTarget, ConnectError>(ConnectError::InvalidAddress),
        },
        config@.server_addr == name && lacks(name, ':') ==> r is Ok && r->Ok_0 is Name
            && r->Ok_0->domain@ == name && r->Ok_0->port == 3515,
        r is Ok && r->Ok_0 is Name ==> {
            let all = r->Ok_0->lookups@;
            &&& all.len() >= 2
            &&& all[all.len() - 1] is System
            &&& config.dns_servers@.len() == 0 ==> all[all.len() - 2] is System
            &&& config.dns_servers@.len() > 0 ==> all[all.len() - 2]@ == LookupView::NameServers(
                config@.dns_servers,
            )
            &&& forall|i: int| 0 <= i < all.len() - 2 ==> (#[trigger] all[i]) is Dot
        },
{
    socket_addr_round_trip(addr);
    name_stands_before_the_port(name, port);
    if lacks(name, ':') && socket_addr_text(name) is Some {
        lemma_address_has_colon(name);
    }
    names_are_looked_up_in_order(config@.dot_servers, config@.dns_servers, Seq::empty());
    if r is Ok && r->Ok_0 is Name {
        let all = r->Ok_0->lookups@;
        let views = lookup_views(all);
        assert(views == lookups(config@.dot_servers, config@.dns_servers));
        assert(views[all.len() - 1] == all[all.len() - 1]@);
        assert(views[all.len() - 2] == all[all.len() - 2]@);
        assert(config@.dns_servers.len() == config.dns_servers@.len());
        assert forall|i: int| 0 <= i < all.len() - 2 implies (#[trigger] all[i]) is Dot by {
            assert(views[i] == all[i]@);
        }
    }
}

/// Whom a client trusts: with a certificate file, those whose certificates are in it; without one,
/// whom the platform trusts, and anyone where the server is given by its address alone. It offers
/// the suite it was told to, and `aes-128-gcm`.
pub proof fn trust_follows_the_configuration(
    config: &ClientConfig,
    r: TlsPlan,
    addr: SocketAddr,
    name: Seq<char>,
    port: Seq<char>,
)
    requires
        call_ensures(ClientConfig::parse_client_config_and_domain, (config,), r),
        no_flow_label(addr),
        lacks(port, ':'),
    ensures
        config@.cert_path.len() > 0 <==> r.trust is File,
        config@.cert_path.len() > 0 ==> r.trust->0@ == config@.cert_path,
        config@.cert_path.len() == 0 && config@.server_addr == addr.text() ==> r.trust is Anyone
            && r.domain@ == "localhost"@,
        config@.cert_path.len() == 0 && socket_addr_text(config@.server_addr) is None
            ==> r.trust is Platform,
        !(r.trust is Anyone) && config@.server_addr == name.push(':') + port ==> r.domain@ == name,
        !(r.trust is Anyone) && config@.server_addr == name && lacks(name, ':') ==> r.domain@
            == name,
        r.cipher_suites@.len() == 2,
        r.cipher_suites@[1] == CipherSuite::Aes128Gcm,
        config@.cipher == "aes-128-gcm"@ ==> r.cipher_suites@[0] == CipherSuite::Aes128Gcm,
        config@.cipher == "aes-256-gcm"@ ==> r.cipher_suites@[0] == CipherSuite::Aes256Gcm,
        config@.cipher != "aes-128-gcm"@ && config@.cipher != "aes-256-gcm"@
            ==> r.cipher_suites@[0] == CipherSuite::Chacha20Poly1305,
{
    socket_addr_round_trip(addr);
    name_stands_before_the_port(name, port);
    cipher_names_are_exact(config@.cipher);
}

/// Lookups are tried one after another until one gives an address, which is taken with the port
/// asked for; without an answer from any of them, the server is not found.
pub proof fn lookups_are_tried_in_turn(
    port: u16,
    lookups: &Vec<Lookup>,
    answers: &[Option<IpAddr>],
    r: Resolution,
)
    requires
        call_ensures(lookup_server_ip, (port, lookups, answers), r),
        answers@.len() <= lookups@.len(),
    ensures
        answers@.len() == 0 && lookups@.len() > 0 ==> r == Resolution::Ask(0),
        answers@.len() > 0 ==> {
            &&& answers@.last() matches Some(IpAddr::V4(ip)) ==> r == Resolution::Found(
                SocketAddr::V4(SocketAddrV4 { ip, port }),
            )
            &&& answers@.last() matches Some(IpAddr::V6(ip)) ==> r == Resolution::Found(
                SocketAddr::V6(SocketAddrV6 { ip, port, flowinfo: 0, scope_id: 0 }),
            )
            &&& answers@.last() is None && answers@.len() < lookups@.len() ==> r == Resolution::Ask(
                answers@.len() as usize,
            )
            &&& answers@.last() is None && answers@.len() == lookups@.len() ==> r
                == Resolution::Failed
        },
{
}

/// A certificate file is refused exactly if no certificate was found in it. A text counts as the
/// address of a server exactly if it reads as a socket address.
pub proof fn certificates_and_addresses_are_checked(
    found: usize,
    checked: Result<(), ConnectError>,
    text: &str,
    is_ip: bool,
    addr: SocketAddr,
)
    requires
        call_ensures(check_certificates, (found,), checked),
        call_ensures(is_ip_addr, (text,), is_ip),
        no_flow_label(addr),
    ensures
        checked is Err <==> found == 0,
        checked is Err ==> checked->Err_0 == ConnectError::NoCertificates,
        text@ == addr.text() ==> is_ip,
        !text@.contains(':') ==> !is_ip,
{
    socket_addr_round_trip(addr);
    if socket_addr_text(text@) is Some {
        lemma_address_has_colon(text@);
    }
}

/// The suites that can be chosen by name are those that a server offers, in the same order, and
/// each name chooses its suite.
pub proof fn offered_suites_can_be_chosen(
    names: Vec<&'static str>,
    suites: Vec<CipherSuite>,
    name: &str,
    chosen: Result<SelectedCipherSuite, ()>,
    i: int,
)
    requires
        call_ensures(supported_cipher_suite_strs, (), names),
        call_ensures(supported_cipher_suites, (), suites),
        call_ensures(SelectedCipherSuite::from_str, (name,), chosen),
        0 <= i < suites@.len(),
    ensures
        names@.len() == 3 && suites@.len() == 3,
        names@[0]@ == "aes-128-gcm"@,
        names@[1]@ == "chacha20-poly1305"@,
        names@[2]@ == "aes-256-gcm"@,
        name@ == names@[i]@ ==> chosen == Ok::<SelectedCipherSuite, ()>(
            SelectedCipherSuite(suites@[i]),
        ),
        suites@[0] == CipherSuite::Aes128Gcm,
        suites@[1] == CipherSuite::Chacha20Poly1305,
        suites@[2] == CipherSuite::Aes256Gcm,
{
    suite_selected_by_its_name(suites@[i]);
}

/// The transport of a client or a server follows the timeout it was configured with.
pub proof fn transports_follow_their_timeouts(
    quic_timeout_ms: u64,
    r: TransportSettings,
    server: &Server,
    plan: EndpointPlan,
)
    requires
        call_ensures(transport_settings, (quic_timeout_ms,), r),
        call_ensures(Server::load_quinn_server_config, (server,), plan),
        quic_timeout_ms <= u32::MAX,
        server@.config.quic_timeout_ms == quic_timeout_ms,
    ensures
        plan.transport == r,
        quic_timeout_ms == 0 <==> r.max_idle_timeout_ms is None,
        quic_timeout_ms == 0 <==> r.keep_alive_interval_ms is None,
        quic_timeout_ms > 0 ==> r.max_idle_timeout_ms == Some(quic_timeout_ms as u32),
        quic_timeout_ms > 0 ==> r.keep_alive_interval_ms == Some((quic_timeout_ms * 2 / 3) as u64),
        r.stream_receive_window == 16777216,
        r.receive_window == 67108864,
        r.send_window == 67108864,
        r.max_concurrent_bidi_streams == 4096,
        plan.cipher_suites@ == seq![
            CipherSuite::Aes128Gcm,
            CipherSuite::Chacha20Poly1305,
            CipherSuite::Aes256Gcm,
        ],
        plan.certificate is SelfSigned <==> server@.config.cert_path.len() == 0,
        plan.certificate matches CertSource::Files { cert_path, key_path } ==> cert_path@
            == server@.config.cert_path && key_path@ == server@.config.key_path,
{
}

} // verus!
