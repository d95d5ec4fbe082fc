//! Hash tables keyed by addresses and tunnels, backed by `ahash`.
//!
//! The keys are tuples of integers, so that equality of keys is equality of numbers.

use crate::addr::SocketAddr;
use crate::config::{TunnelConfig, TunnelMode, UpstreamType};
use ahash::{AHashMap, AHashSet};
use vstd::prelude::*;

verus! {

/// An optional socket address: family (0, 4 or 6), segments or octets, port, flow label, scope.
pub type AddrKey = (u8, (u16, u16, u16, u16, u16, u16, u16, u16), u16, u32, u32);

/// A tunnel: direction, local address, upstream address, transport.
pub type TunnelKey = (u8, AddrKey, AddrKey, u8);

/// A claim to a port of the server: transport and port.
pub type PortKey = (u8, u16);

pub open spec fn addr_key(addr: Option<SocketAddr>) -> AddrKey {
    match addr {
        None => (0u8, (0u16, 0u16, 0u16, 0u16, 0u16, 0u16, 0u16, 0u16), 0u16, 0u32, 0u32),
        Some(SocketAddr::V4(a)) => (
            4u8,
            (
                a.ip.0 as u16,
                a.ip.1 as u16,
                a.ip.2 as u16,
                a.ip.3 as u16,
                0u16,
                0u16,
                0u16,
                0u16,
            ),
            a.port,
            0u32,
            0u32,
        ),
        Some(SocketAddr::V6(a)) => (
            6u8,
            (a.ip.0, a.ip.1, a.ip.2, a.ip.3, a.ip.4, a.ip.5, a.ip.6, a.ip.7),
            a.port,
            a.flowinfo,
            a.scope_id,
        ),
    }
}

pub open spec fn type_key(t: UpstreamType) -> u8 {
    match t {
        UpstreamType::Tcp => 0,
        UpstreamType::Udp => 1,
    }
}

pub open spec fn tunnel_key(t: TunnelConfig) -> TunnelKey {
    (
        match t.mode {
            TunnelMode::In => 0u8,
            TunnelMode::Out => 1u8,
        },
        addr_key(Some(t.local_server_addr)),
        addr_key(t.upstream.upstream_addr),
        type_key(t.upstream.upstream_type),
    )
}

/// Different addresses have different keys.
pub proof fn lemma_addr_key_injective(a: Option<SocketAddr>, b: Option<SocketAddr>)
    requires
        addr_key(a) == addr_key(b),
    ensures
        a == b,
{
}

/// Different tunnels have different keys.
pub proof fn lemma_tunnel_key_injective(a: TunnelConfig, b: TunnelConfig)
    requires
        tunnel_key(a) == tunnel_key(b),
    ensures
        a == b,
{
    lemma_addr_key_injective(Some(a.local_server_addr), Some(b.local_server_addr));
    lemma_addr_key_injective(a.upstream.upstream_addr, b.upstream.upstream_addr);
}

/// The key of an optional address.
pub fn key_of_addr(addr: Option<SocketAddr>) -> (r: AddrKey)
    ensures
        r == addr_key(addr),
{
    match addr {
        None => (0, (0, 0, 0, 0, 0, 0, 0, 0), 0, 0, 0),
        Some(SocketAddr::V4(a)) => (
            4,
            (a.ip.0 as u16, a.ip.1 as u16, a.ip.2 as u16, a.ip.3 as u16, 0, 0, 0, 0),
            a.port,
            0,
            0,
        ),
        Some(SocketAddr::V6(a)) => (
            6,
            (a.ip.0, a.ip.1, a.ip.2, a.ip.3, a.ip.4, a.ip.5, a.ip.6, a.ip.7),
            a.port,
            a.flowinfo,
            a.scope_id,
        ),
    }
}

/// The key of a transport.
pub fn key_of_type(t: UpstreamType) -> (r: u8)
    ensures
        r == type_key(t),
{
    match t {
        UpstreamType::Tcp => 0,
        UpstreamType::Udp => 1,
    }
}

/// The key of a tunnel.
pub fn key_of_tunnel(t: TunnelConfig) -> (r: TunnelKey)
    ensures
        r == tunnel_key(t),
{
    (
        match t.mode {
            TunnelMode::In => 0,
            TunnelMode::Out => 1,
        },
        key_of_addr(Some(t.local_server_addr)),
        key_of_addr(t.upstream.upstream_addr),
        key_of_type(t.upstream.upstream_type),
    )
}

/// `ahash::AHashSet`.
#[verifier::external_type_specification]
#[verifier::external_body]
#[verifier::reject_recursive_types(T)]
#[verifier::reject_recursive_types(S)]
pub struct ExAHashSet<T, S>(AHashSet<T, S>);

/// `ahash::AHashMap`.
#[verifier::external_type_specification]
#[verifier::external_body]
#[verifier::reject_recursive_types(K)]
#[verifier::reject_recursive_types(V)]
#[verifier::reject_recursive_types(S)]
pub struct ExAHashMap<K, V, S>(AHashMap<K, V, S>);

/// `ahash::RandomState`, the hasher of both.
#[verifier::external_type_specification]
#[verifier::external_body]
pub struct ExRandomState(ahash::RandomState);

/// The tunnels that a set holds.
pub uninterp spec fn tunnel_set(s: AHashSet<TunnelKey>) -> Set<TunnelKey>;

/// The port claims that a set holds.
pub uninterp spec fn port_set(s: AHashSet<PortKey>) -> Set<PortKey>;

/// What a table says of tunnels.
pub uninterp spec fn tunnel_map(m: AHashMap<TunnelKey, usize>) -> Map<TunnelKey, usize>;

/// What a table says of addresses.
pub uninterp spec fn addr_map(m: AHashMap<AddrKey, usize>) -> Map<AddrKey, usize>;

/// `AHashSet::new`: an empty set.
#[verifier::external_body]
pub(crate) fn new_tunnel_set() -> (r: AHashSet<TunnelKey>)
    ensures
        tunnel_set(r) == Set::<TunnelKey>::empty(),
{
    AHashSet::new()
}

/// `AHashSet::insert`: adds the key and tells whether it was new.
#[verifier::external_body]
pub(crate) fn tunnel_set_insert(s: &mut AHashSet<TunnelKey>, k: TunnelKey) -> (fresh: bool)
    ensures
        fresh == !tunnel_set(*old(s)).contains(k),
        tunnel_set(*final(s)) == tunnel_set(*old(s)).insert(k),
{
    s.insert(k)
}

/// `AHashSet::contains`: whether the key is in the set.
#[verifier::external_body]
pub(crate) fn tunnel_set_contains(s: &AHashSet<TunnelKey>, k: &TunnelKey) -> (r: bool)
    ensures
        r == tunnel_set(*s).contains(*k),
{
    s.contains(k)
}

/// `AHashSet::new`: an empty set.
#[verifier::external_body]
pub(crate) fn new_port_set() -> (r: AHashSet<PortKey>)
    ensures
        port_set(r) == Set::<PortKey>::empty(),
{
    AHashSet::new()
}

/// `AHashSet::insert`: adds the key and tells whether it was new.
#[verifier::external_body]
pub(crate) fn port_set_insert(s: &mut AHashSet<PortKey>, k: PortKey) -> (fresh: bool)
    ensures
        fresh == !port_set(*old(s)).contains(k),
        port_set(*final(s)) == port_set(*old(s)).insert(k),
{
    s.insert(k)
}

/// `AHashMap::new`: an empty table.
#[verifier::external_body]
pub(crate) fn new_tunnel_map() -> (r: AHashMap<TunnelKey, usize>)
    ensures
        (tunnel_map(r) == Map::<TunnelKey, usize>::empty()),
{
    AHashMap::new()
}

/// `AHashMap::insert`: enters the value under the key, in place of any earlier one.
#[verifier::external_body]
pub(crate) fn tunnel_map_insert(m: &mut AHashMap<TunnelKey, usize>, k: TunnelKey, v: usize)
    ensures
        tunnel_map(*final(m)) == tunnel_map(*old(m)).insert(k, v),
{
    m.insert(k, v);
}

/// `AHashMap::remove`: takes the key out and returns what was entered under it.
#[verifier::external_body]
pub(crate) fn tunnel_map_remove(m: &mut AHashMap<TunnelKey, usize>, k: &TunnelKey) -> (r: Option<
    usize,
>)
    ensures
        r == (if tunnel_map(*old(m)).dom().contains(*k) {
            Some(tunnel_map(*old(m))[*k])
        } else {
            None
        }),
        tunnel_map(*final(m)) == tunnel_map(*old(m)).remove(*k),
{
    m.remove(k)
}

/// `AHashMap::get`: what is entered under the key.
#[verifier::external_body]
pub(crate) fn tunnel_map_get(m: &AHashMap<TunnelKey, usize>, k: &TunnelKey) -> (r: Option<usize>)
    ensures
        r == (if tunnel_map(*m).dom().contains(*k) {
            Some(tunnel_map(*m)[*k])
        } else {
            None
        }),
{
    m.get(k).copied()
}

/// `AHashMap::keys`: every key once, in no particular order.
#[verifier::external_body]
pub(crate) fn tunnel_map_keys(m: &AHashMap<TunnelKey, usize>) -> (r: Vec<TunnelKey>)
    ensures
        r@.no_duplicates(),
        forall|k: TunnelKey| r@.contains(k) <==> tunnel_map(*m).dom().contains(k),
{
    m.keys().copied().collect()
}

/// `AHashMap::new`: an empty table.
#[verifier::external_body]
pub(crate) fn new_addr_map() -> (r: AHashMap<AddrKey, usize>)
    ensures
        (addr_map(r) == Map::<AddrKey, usize>::empty()),
{
    AHashMap::new()
}

/// `AHashMap::insert`: enters the value under the key, in place of any earlier one.
#[verifier::external_body]
pub(crate) fn addr_map_insert(m: &mut AHashMap<AddrKey, usize>, k: AddrKey, v: usize)
    ensures
        addr_map(*final(m)) == addr_map(*old(m)).insert(k, v),
{
    m.insert(k, v);
}

/// `AHashMap::remove`: takes the key out and returns what was entered under it.
#[verifier::external_body]
pub(crate) fn addr_map_remove(m: &mut AHashMap<AddrKey, usize>, k: &AddrKey) -> (r: Option<usize>)
    ensures
        r == (if addr_map(*old(m)).dom().contains(*k) {
            Some(addr_map(*old(m))[*k])
        } else {
            None
        }),
        addr_map(*final(m)) == addr_map(*old(m)).remove(*k),
{
    m.remove(k)
}

/// `AHashMap::get`: what is entered under the key.
#[verifier::external_body]
pub(crate) fn addr_map_get(m: &AHashMap<AddrKey, usize>, k: &AddrKey) -> (r: Option<usize>)
    ensures
        r == (if addr_map(*m).dom().contains(*k) {
            Some(addr_map(*m)[*k])
        } else {
            None
        }),
{
    m.get(k).copied()
}

/// `AHashMap::drain`: empties the table and hands every entered value out, in no particular order.
#[verifier::external_body]
pub(crate) fn addr_map_drain(m: &mut AHashMap<AddrKey, usize>) -> (r: Vec<usize>)
    ensures
        are_values(r@, addr_map(*old(m))),
        (addr_map(*final(m)) == Map::<AddrKey, usize>::empty()),
{
    m.drain().map(|(_, v)| v).collect()
}

/// `AHashMap::drain`: empties the table and hands every entered value out, in no particular order.
#[verifier::external_body]
pub(crate) fn tunnel_map_drain(m: &mut AHashMap<TunnelKey, usize>) -> (r: Vec<usize>)
    ensures
        are_values(r@, tunnel_map(*old(m))),
        (tunnel_map(*final(m)) == Map::<TunnelKey, usize>::empty()),
{
    m.drain().map(|(_, v)| v).collect()
}

/// The values entered in a map, one for each key, in any order.
pub open spec fn are_values<K>(values: Seq<usize>, m: Map<K, usize>) -> bool {
    exists|keys: Seq<K>|
        #![trigger keys.no_duplicates()]
        {
            &&& keys.no_duplicates()
            &&& forall|k: K| keys.contains(k) <==> m.dom().contains(k)
            &&& values == keys.map_values(|k: K| m[k])
        }
}

/// What a map holds under a key.
pub open spec fn lookup<K>(m: Map<K, usize>, k: K) -> Option<usize> {
    if m.dom().contains(k) {
        Some(m[k])
    } else {
        None
    }
}

} // verus!
