//! Tunnels written as mappings read back as those tunnels.

use crate::addr::SocketAddr;

use crate::addr_round_trip::{is_addr_char, lemma_socket_addr_chars, socket_addr_round_trip};
use crate::config::{
    address_field, mapped_tunnels, mapping_list, mapping_text, ConfigError, TunnelConfig,
    TunnelMode, UpstreamType,
};
use crate::number::{is_digit, lemma_run_end_bounds, port_text, run_end};
use crate::settings::{
    mapping_of, mappings_of, toml_tunnel, toml_tunnels, tunnel_addr, TomlTunnelView,
};
use crate::text::{join, split};
use vstd::prelude::*;

verus! {

/// Whether a character does not occur.
pub open spec fn lacks(s: Seq<char>, c: char) -> bool {
    forall|i: int| 0 <= i < s.len() ==> #[trigger] s[i] != c
}

proof fn lemma_split_not_empty(s: Seq<char>, sep: char)
    ensures
        split(s, sep).len() > 0,
    decreases s.len(),
{
    if s.len() > 0 {
        lemma_split_not_empty(s.drop_last(), sep);
    }
}

/// Text without a separator extends the last piece.
proof fn lemma_split_extend(s: Seq<char>, t: Seq<char>, sep: char)
    requires
        lacks(t, sep),
    ensures
        split(s + t, sep) == split(s, sep).drop_last().push(split(s, sep).last() + t),
    decreases t.len(),
{
    lemma_split_not_empty(s, sep);
    let before = split(s, sep);
    if t.len() == 0 {
        assert(s + t =~= s);
        assert(before.last() + t =~= before.last());
        assert(before =~= before.drop_last().push(before.last()));
    } else {
        let shorter = t.drop_last();
        lemma_split_extend(s, shorter, sep);
        assert((s + t).drop_last() =~= s + shorter);
        assert((s + t).last() == t[t.len() - 1]);
        let part = before.drop_last().push(before.last() + shorter);
        assert(part.drop_last() =~= before.drop_last());
        assert((before.last() + shorter).push(t.last()) =~= before.last() + t);
        assert(split(s + t, sep) =~= before.drop_last().push(before.last() + t));
    }
}

/// Pieces without separators, joined, are split into these pieces again.
pub proof fn split_undoes_join(parts: Seq<Seq<char>>, sep: char)
    requires
        parts.len() > 0,
        forall|i: int| 0 <= i < parts.len() ==> lacks(#[trigger] parts[i], sep),
    ensures
        split(join(parts, sep), sep) == parts,
    decreases parts.len(),
{
    let last = parts.last();
    assert(lacks(parts[parts.len() - 1], sep));
    if parts.len() == 1 {
        let empty = Seq::<char>::empty();
        lemma_split_extend(empty, last, sep);
        assert(empty + last =~= last);
        assert(split(empty, sep) =~= seq![empty]);
        assert(split(last, sep) =~= parts);
    } else {
        let shorter = parts.drop_last();
        assert forall|i: int| 0 <= i < shorter.len() implies lacks(#[trigger] shorter[i], sep) by {
            assert(shorter[i] == parts[i]);
        }
        split_undoes_join(shorter, sep);
        let head = join(shorter, sep).push(sep);
        assert(head.drop_last() =~= join(shorter, sep));
        assert(split(head, sep) == shorter.push(Seq::empty()));
        lemma_split_extend(head, last, sep);
        let before = split(head, sep);
        assert(before.drop_last() =~= shorter);
        assert(before.last() + last =~= last);
        assert(split(head + last, sep) =~= parts);
    }
}

/// No flow label is set.
pub open spec fn no_flow_label(addr: SocketAddr) -> bool {
    addr matches SocketAddr::V6(a) ==> a.flowinfo == 0
}

/// A text with a colon is no port.
pub proof fn lemma_no_port(s: Seq<char>)
    requires
        s.contains(':'),
        s.len() > 0,
        s[0] != '+',
    ensures
        port_text(s) is None,
{
    let i = choose|i: int| 0 <= i < s.len() && s[i] == ':';
    lemma_run_end_bounds(s, 0, false);
    if run_end(s, 0, false) == s.len() {
        assert(is_digit(s[i], false));
    }
}

/// An address field reads back as it was written.
proof fn lemma_address_field(addr: SocketAddr)
    requires
        no_flow_label(addr),
    ensures
        address_field(addr.text()) == Ok::<Option<SocketAddr>, ConfigError>(Some(addr)),
{
    lemma_socket_addr_chars(addr);
    socket_addr_round_trip(addr);
    lemma_no_port(addr.text());
    reveal(address_field);
    reveal_strlit("ANY");
    assert("ANY"@[0] == 'A');
}

proof fn lemma_addr_lacks(addr: SocketAddr, c: char)
    requires
        c == ',' || c == '^',
    ensures
        lacks(addr.text(), c),
{
    lemma_socket_addr_chars(addr);
    let s = addr.text();
    assert forall|i: int| 0 <= i < s.len() implies #[trigger] s[i] != c by {
        assert(is_addr_char(s[i]));
    }
}

/// A tunnel that can be written as a mapping: inbound, with an address to bind, and no flow labels.
pub open spec fn writable(t: TunnelConfig) -> bool {
    &&& t.mode == TunnelMode::In
    &&& t.upstream.upstream_addr is Some
    &&& no_flow_label(t.upstream.upstream_addr->0)
    &&& no_flow_label(t.local_server_addr)
}

proof fn lemma_split_mapping(bind: Seq<char>, local: Seq<char>)
    requires
        lacks(bind, '^'),
        lacks(local, '^'),
    ensures
        split(bind.push('^') + local, '^') == seq![bind, local],
{
    let parts = seq![bind, local];
    assert(parts.drop_last() =~= seq![bind]);
    reveal_with_fuel(join, 2);
    assert(join(parts, '^') == bind.push('^') + local);
    assert forall|i: int| 0 <= i < parts.len() implies lacks(#[trigger] parts[i], '^') by {}
    split_undoes_join(parts, '^');
}

proof fn lemma_mapping_fields(s: Seq<char>, bind: Seq<char>, local: Seq<char>, t: TunnelConfig)
    requires
        writable(t),
        split(s, '^') == seq![bind, local],
        address_field(bind) == Ok::<Option<SocketAddr>, ConfigError>(t.upstream.upstream_addr),
        address_field(local) == Ok::<Option<SocketAddr>, ConfigError>(Some(t.local_server_addr)),
    ensures
        mapping_text(s, t.upstream.upstream_type) == Ok::<TunnelConfig, ConfigError>(t),
{
}

proof fn lemma_mapping_lacks_comma(bind: Seq<char>, local: Seq<char>)
    requires
        lacks(bind, ','),
        lacks(local, ','),
    ensures
        lacks(bind.push('^') + local, ','),
        (bind.push('^') + local).len() > 0,
{
}

/// A mapping reads back as the tunnel that was written.
pub proof fn mapping_round_trip(t: TunnelConfig)
    requires
        writable(t),
    ensures
        mapping_text(mapping_of(t), t.upstream.upstream_type) == Ok::<TunnelConfig, ConfigError>(t),
        lacks(mapping_of(t), ','),
        mapping_of(t).len() > 0,
{
    let bind_addr = t.upstream.upstream_addr->0;
    let bind = bind_addr.text();
    let local = t.local_server_addr.text();
    lemma_addr_lacks(bind_addr, '^');
    lemma_addr_lacks(t.local_server_addr, '^');
    lemma_addr_lacks(bind_addr, ',');
    lemma_addr_lacks(t.local_server_addr, ',');
    lemma_split_mapping(bind, local);
    lemma_mapping_lacks_comma(bind, local);
    lemma_address_field(bind_addr);
    lemma_address_field(t.local_server_addr);
    lemma_mapping_fields(mapping_of(t), bind, local, t);
}

/// The tunnels of one transport.
pub open spec fn of_transport(ts: Seq<TunnelConfig>, upstream_type: UpstreamType) -> Seq<
    TunnelConfig,
>
    decreases ts.len(),
{
    if ts.len() == 0 {
        Seq::empty()
    } else if ts.last().upstream.upstream_type == upstream_type {
        of_transport(ts.drop_last(), upstream_type).push(ts.last())
    } else {
        of_transport(ts.drop_last(), upstream_type)
    }
}

proof fn lemma_mappings_read_back(ts: Seq<TunnelConfig>, upstream_type: UpstreamType)
    requires
        forall|i: int| 0 <= i < ts.len() ==> writable(#[trigger] ts[i]),
    ensures
        mapped_tunnels(mappings_of(ts, upstream_type), upstream_type) == (
            of_transport(ts, upstream_type),
            None::<ConfigError>,
        ),
        forall|i: int|
            0 <= i < mappings_of(ts, upstream_type).len() ==> lacks(
                #[trigger] mappings_of(ts, upstream_type)[i],
                ',',
            ) && mappings_of(ts, upstream_type)[i].len() > 0,
    decreases ts.len(),
{
    if ts.len() > 0 {
        let shorter = ts.drop_last();
        let last = ts.last();
        assert forall|i: int| 0 <= i < shorter.len() implies writable(#[trigger] shorter[i]) by {
            assert(shorter[i] == ts[i]);
        }
        assert(writable(ts[ts.len() - 1]));
        lemma_mappings_read_back(shorter, upstream_type);
        if last.upstream.upstream_type == upstream_type {
            mapping_round_trip(last);
            let before = mappings_of(shorter, upstream_type);
            assert(mappings_of(ts, upstream_type).drop_last() =~= before);
        }
    }
}

proof fn lemma_join_not_empty(parts: Seq<Seq<char>>, sep: char)
    requires
        parts.len() > 0,
        parts[0].len() > 0,
    ensures
        join(parts, sep).len() > 0,
    decreases parts.len(),
{
    if parts.len() > 1 {
        lemma_join_not_empty(parts.drop_last(), sep);
    }
}

/// A list of mappings reads back as the tunnels that were written, in the same order.
pub proof fn mappings_round_trip(ts: Seq<TunnelConfig>, upstream_type: UpstreamType)
    requires
        forall|i: int| 0 <= i < ts.len() ==> writable(#[trigger] ts[i]),
    ensures
        mapping_list(join(mappings_of(ts, upstream_type), ','), upstream_type) == (
            of_transport(ts, upstream_type),
            None::<ConfigError>,
        ),
{
    let parts = mappings_of(ts, upstream_type);
    lemma_mappings_read_back(ts, upstream_type);
    if parts.len() > 0 {
        split_undoes_join(parts, ',');
        lemma_join_not_empty(parts, ',');
    } else {
        assert(join(parts, ',') =~= Seq::<char>::empty());
        assert(of_transport(ts, upstream_type) =~= Seq::empty());
    }
}

/// The tunnels of the configuration file are the tunnels that the client runs: written as
/// mappings, they read back unchanged.
pub proof fn file_tunnels_read_back(file: Seq<TomlTunnelView>, upstream_type: UpstreamType)
    requires
        toml_tunnels(file) is Ok,
    ensures
        mapping_list(
            join(mappings_of(toml_tunnels(file)->Ok_0, upstream_type), ','),
            upstream_type,
        ) == (of_transport(toml_tunnels(file)->Ok_0, upstream_type), None::<ConfigError>),
{
    lemma_toml_writable(file);
    mappings_round_trip(toml_tunnels(file)->Ok_0, upstream_type);
}

proof fn lemma_toml_writable(file: Seq<TomlTunnelView>)
    requires
        toml_tunnels(file) is Ok,
    ensures
        forall|i: int|
            0 <= i < toml_tunnels(file)->Ok_0.len() ==> writable(
                #[trigger] toml_tunnels(file)->Ok_0[i],
            ),
    decreases file.len(),
{
    if file.len() > 0 {
        lemma_toml_writable(file.drop_last());
        reveal(toml_tunnel);
        lemma_no_flow_label_read(file.last().bind);
        lemma_no_flow_label_read(file.last().destination);
    }
}

proof fn lemma_no_flow_label_read(value: Seq<char>)
    requires
        tunnel_addr(value) is Ok,
    ensures
        no_flow_label(tunnel_addr(value)->Ok_0),
{
}

} // verus!
