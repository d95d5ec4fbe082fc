//! Control messages as plain values, and those as bytes by `postcard`.
//!
//! A message is a tuple of its fields in the order of their declaration. A choice between two
//! variants is a `Result`, whose `Ok` is the first of them; one between two variants without
//! fields is a `bool`. Of an address, IP and port are kept.

use crate::addr::{make_segment, segment_of, IpAddr, Ipv4Addr, Ipv6Addr, SocketAddr};
use crate::config::{Tunnel, TunnelConfig, TunnelMode, Upstream, UpstreamType};
use crate::tunnel_message::{LoginRequest, LoginResponse, MessageView, TunnelMessage};
use vstd::prelude::*;

verus! {

/// Eight octets.
pub type Octets8 = (u8, u8, u8, u8, u8, u8, u8, u8);

/// An address: the octets of its IP, and its port.
pub type WireAddr = Result<((u8, u8, u8, u8), u16), ((Octets8, Octets8), u16)>;

/// A tunnel: one between addresses, with its direction and its transport, or a transport alone.
pub type WireTunnel = Result<(bool, WireAddr, (Option<WireAddr>, bool)), bool>;

/// A message: a login, or the answer to one.
pub type WireMessage = Result<(String, String, WireTunnel), Result<bool, String>>;

/// What `WireMessage` says.
pub type WireMessageView = Result<(Seq<char>, Seq<char>, WireTunnel), Result<bool, Seq<char>>>;

pub open spec fn wire_view(m: WireMessage) -> WireMessageView {
    match m {
        Ok((password, client_id, tunnel)) => Ok((password@, client_id@, tunnel)),
        Err(Ok(replaced_previous)) => Err(Ok(replaced_previous)),
        Err(Err(reason)) => Err(Err(reason@)),
    }
}

/// `postcard::Error`, carried opaquely.
#[verifier::external_type_specification]
#[verifier::external_body]
pub struct ExPostcardError(postcard::Error);

/// The bytes that `postcard::to_allocvec` makes of a message.
pub uninterp spec fn postcard_encoded(m: WireMessageView) -> Seq<u8>;

/// What `postcard::from_bytes` makes of bytes on a machine with words of the given number of bits:
/// the message that they start with, or none where they start with none.
pub uninterp spec fn postcard_decoded(data: Seq<u8>, word_bits: u32) -> Option<WireMessageView>;

/// `postcard::to_allocvec`: any message has its bytes, and they are read back as that message.
#[verifier::external_body]
pub(crate) fn postcard_encode(m: &WireMessage) -> (r: Result<Vec<u8>, postcard::Error>)
    ensures
        r is Ok,
        r matches Ok(data) ==> data@ == postcard_encoded(wire_view(*m)),
        r matches Ok(data) ==> postcard_decoded(data@, usize::BITS) == Some(wire_view(*m)),
{
    postcard::to_allocvec(m)
}

/// `postcard::from_bytes`: the message that the bytes start with, or an error where they start
/// with none.
#[verifier::external_body]
pub(crate) fn postcard_decode(data: &[u8]) -> (r: Result<WireMessage, postcard::Error>)
    ensures
        r is Ok <==> postcard_decoded(data@, usize::BITS) is Some,
        r matches Ok(m) ==> postcard_decoded(data@, usize::BITS) == Some(wire_view(m)),
{
    postcard::from_bytes(data)
}

/// The octets of four segments.
pub open spec fn octets_of(a: u16, b: u16, c: u16, d: u16) -> Octets8 {
    (
        (a / 256) as u8,
        (a % 256) as u8,
        (b / 256) as u8,
        (b % 256) as u8,
        (c / 256) as u8,
        (c % 256) as u8,
        (d / 256) as u8,
        (d % 256) as u8,
    )
}

fn make_octets(a: u16, b: u16, c: u16, d: u16) -> (r: Octets8)
    ensures
        r == octets_of(a, b, c, d),
{
    (
        (a / 256) as u8,
        (a % 256) as u8,
        (b / 256) as u8,
        (b % 256) as u8,
        (c / 256) as u8,
        (c % 256) as u8,
        (d / 256) as u8,
        (d % 256) as u8,
    )
}

/// An address as a plain value.
pub open spec fn addr_to_wire(addr: SocketAddr) -> WireAddr {
    match addr {
        SocketAddr::V4(a) => Ok(((a.ip.0, a.ip.1, a.ip.2, a.ip.3), a.port)),
        SocketAddr::V6(a) => Err(
            (
                (
                    octets_of(a.ip.0, a.ip.1, a.ip.2, a.ip.3),
                    octets_of(a.ip.4, a.ip.5, a.ip.6, a.ip.7),
                ),
                a.port,
            ),
        ),
    }
}

/// The address that a plain value stands for.
pub open spec fn addr_from_wire(addr: WireAddr) -> SocketAddr {
    match addr {
        Ok((o, port)) => SocketAddr::of(IpAddr::V4(Ipv4Addr(o.0, o.1, o.2, o.3)), port),
        Err(((h, l), port)) => SocketAddr::of(
            IpAddr::V6(
                Ipv6Addr(
                    segment_of(h.0, h.1),
                    segment_of(h.2, h.3),
                    segment_of(h.4, h.5),
                    segment_of(h.6, h.7),
                    segment_of(l.0, l.1),
                    segment_of(l.2, l.3),
                    segment_of(l.4, l.5),
                    segment_of(l.6, l.7),
                ),
            ),
            port,
        ),
    }
}

fn make_wire_addr(addr: SocketAddr) -> (r: WireAddr)
    ensures
        r == addr_to_wire(addr),
{
    match addr {
        SocketAddr::V4(a) => Ok(((a.ip.0, a.ip.1, a.ip.2, a.ip.3), a.port)),
        SocketAddr::V6(a) => Err(
            (
                (
                    make_octets(a.ip.0, a.ip.1, a.ip.2, a.ip.3),
                    make_octets(a.ip.4, a.ip.5, a.ip.6, a.ip.7),
                ),
                a.port,
            ),
        ),
    }
}

fn make_addr(addr: WireAddr) -> (r: SocketAddr)
    ensures
        r == addr_from_wire(addr),
{
    match addr {
        Ok((o, port)) => SocketAddr::new(IpAddr::V4(Ipv4Addr(o.0, o.1, o.2, o.3)), port),
        Err(((h, l), port)) => SocketAddr::new(
            IpAddr::V6(
                Ipv6Addr(
                    make_segment(h.0, h.1),
                    make_segment(h.2, h.3),
                    make_segment(h.4, h.5),
                    make_segment(h.6, h.7),
                    make_segment(l.0, l.1),
                    make_segment(l.2, l.3),
                    make_segment(l.4, l.5),
                    make_segment(l.6, l.7),
                ),
            ),
            port,
        ),
    }
}

/// Whether a transport is the second one.
pub open spec fn type_to_wire(t: UpstreamType) -> bool {
    t == UpstreamType::Udp
}

pub open spec fn type_from_wire(second: bool) -> UpstreamType {
    if second {
        UpstreamType::Udp
    } else {
        UpstreamType::Tcp
    }
}

/// A tunnel as a plain value.
pub open spec fn tunnel_to_wire(tunnel: Tunnel) -> WireTunnel {
    match tunnel {
        Tunnel::NetworkBased(t) => Ok(
            (
                t.mode == TunnelMode::Out,
                addr_to_wire(t.local_server_addr),
                (
                    match t.upstream.upstream_addr {
                        Some(addr) => Some(addr_to_wire(addr)),
                        None => None,
                    },
                    type_to_wire(t.upstream.upstream_type),
                ),
            ),
        ),
        Tunnel::ChannelBased(t) => Err(type_to_wire(t)),
    }
}

/// The tunnel that a plain value stands for.
pub open spec fn tunnel_from_wire(tunnel: WireTunnel) -> Tunnel {
    match tunnel {
        Ok((out, local, (upstream, second))) => Tunnel::NetworkBased(
            TunnelConfig {
                mode: if out {
                    TunnelMode::Out
                } else {
                    TunnelMode::In
                },
                local_server_addr: addr_from_wire(local),
                upstream: Upstream {
                    upstream_addr: match upstream {
                        Some(addr) => Some(addr_from_wire(addr)),
                        None => None,
                    },
                    upstream_type: type_from_wire(second),
                },
            },
        ),
        Err(second) => Tunnel::ChannelBased(type_from_wire(second)),
    }
}

fn make_wire_tunnel(tunnel: Tunnel) -> (r: WireTunnel)
    ensures
        r == tunnel_to_wire(tunnel),
{
    match tunnel {
        Tunnel::NetworkBased(t) => {
            let upstream = match t.upstream.upstream_addr {
                Some(addr) => Some(make_wire_addr(addr)),
                None => None,
            };
            let second = t.upstream.upstream_type == UpstreamType::Udp;
            Ok((t.mode == TunnelMode::Out, make_wire_addr(t.local_server_addr), (upstream, second)))
        },
        Tunnel::ChannelBased(t) => Err(t == UpstreamType::Udp),
    }
}

fn make_type(second: bool) -> (r: UpstreamType)
    ensures
        r == type_from_wire(second),
{
    if second {
        UpstreamType::Udp
    } else {
        UpstreamType::Tcp
    }
}

fn make_tunnel(tunnel: WireTunnel) -> (r: Tunnel)
    ensures
        r == tunnel_from_wire(tunnel),
{
    match tunnel {
        Ok((out, local, (upstream, second))) => {
            let upstream_addr = match upstream {
                Some(addr) => Some(make_addr(addr)),
                None => None,
            };
            Tunnel::NetworkBased(
                TunnelConfig {
                    mode: if out {
                        TunnelMode::Out
                    } else {
                        TunnelMode::In
                    },
                    local_server_addr: make_addr(local),
                    upstream: Upstream { upstream_addr, upstream_type: make_type(second) },
                },
            )
        },
        Err(second) => Tunnel::ChannelBased(make_type(second)),
    }
}

/// A message as a plain value.
pub open spec fn message_to_wire(m: MessageView) -> WireMessageView {
    match m {
        MessageView::Login { password, client_id, tunnel } => Ok(
            (password, client_id, tunnel_to_wire(tunnel)),
        ),
        MessageView::Accepted(replaced_previous) => Err(Ok(replaced_previous)),
        MessageView::Rejected(reason) => Err(Err(reason)),
    }
}

/// The message that a plain value stands for.
pub open spec fn message_from_wire(m: WireMessageView) -> MessageView {
    match m {
        Ok((password, client_id, tunnel)) => MessageView::Login {
            password,
            client_id,
            tunnel: tunnel_from_wire(tunnel),
        },
        Err(Ok(replaced_previous)) => MessageView::Accepted(replaced_previous),
        Err(Err(reason)) => MessageView::Rejected(reason),
    }
}

/// Makes a plain value of a message.
pub fn to_wire(m: &TunnelMessage) -> (r: WireMessage)
    ensures
        wire_view(r) == message_to_wire(m@),
{
    match m {
        TunnelMessage::Login(request) => Ok(
            (
                request.password.as_str().to_owned(),
                request.client_id.as_str().to_owned(),
                make_wire_tunnel(request.tunnel),
            ),
        ),
        TunnelMessage::LoginResponse(LoginResponse::Accepted { replaced_previous }) => Err(
            Ok(*replaced_previous),
        ),
        TunnelMessage::LoginResponse(LoginResponse::Rejected { reason }) => Err(
            Err(reason.as_str().to_owned()),
        ),
    }
}

/// Makes a message of a plain value.
pub fn from_wire(m: WireMessage) -> (r: TunnelMessage)
    ensures
        r@ == message_from_wire(wire_view(m)),
{
    match m {
        Ok((password, client_id, tunnel)) => TunnelMessage::Login(
            LoginRequest { password, client_id, tunnel: make_tunnel(tunnel) },
        ),
        Err(Ok(replaced_previous)) => TunnelMessage::LoginResponse(
            LoginResponse::Accepted { replaced_previous },
        ),
        Err(Err(reason)) => TunnelMessage::LoginResponse(LoginResponse::Rejected { reason }),
    }
}

/// What an address keeps of itself on its way.
pub open spec fn kept_addr(addr: SocketAddr) -> SocketAddr {
    SocketAddr::of(addr.spec_ip(), addr.spec_port())
}

/// What a tunnel keeps of itself on its way: its addresses without flow labels and scopes.
pub open spec fn kept_tunnel(tunnel: Tunnel) -> Tunnel {
    match tunnel {
        Tunnel::NetworkBased(t) => Tunnel::NetworkBased(
            TunnelConfig {
                local_server_addr: kept_addr(t.local_server_addr),
                upstream: Upstream {
                    upstream_addr: match t.upstream.upstream_addr {
                        Some(addr) => Some(kept_addr(addr)),
                        None => None,
                    },
                    ..t.upstream
                },
                ..t
            },
        ),
        Tunnel::ChannelBased(_) => tunnel,
    }
}

/// What a message keeps of itself on its way.
pub open spec fn kept_message(m: MessageView) -> MessageView {
    match m {
        MessageView::Login { password, client_id, tunnel } => MessageView::Login {
            password,
            client_id,
            tunnel: kept_tunnel(tunnel),
        },
        _ => m,
    }
}

/// An address without flow label and scope.
pub open spec fn plain_addr(addr: SocketAddr) -> bool {
    addr matches SocketAddr::V6(a) ==> a.flowinfo == 0 && a.scope_id == 0
}

/// A message whose addresses have no flow labels and no scopes.
pub open spec fn plain_message(m: MessageView) -> bool {
    m matches MessageView::Login { tunnel: Tunnel::NetworkBased(t), .. } ==> {
        &&& plain_addr(t.local_server_addr)
        &&& t.upstream.upstream_addr matches Some(addr) ==> plain_addr(addr)
    }
}

proof fn lemma_addr_from_wire(addr: SocketAddr)
    ensures
        addr_from_wire(addr_to_wire(addr)) == kept_addr(addr),
        plain_addr(addr) ==> kept_addr(addr) == addr,
{
}

/// A message that was made a plain value is made of it again: all of it where its addresses have
/// no flow labels and no scopes, and all but those otherwise.
pub proof fn from_wire_undoes_to_wire(m: MessageView)
    ensures
        message_from_wire(message_to_wire(m)) == kept_message(m),
        plain_message(m) ==> kept_message(m) == m,
{
    if let MessageView::Login { tunnel: Tunnel::NetworkBased(t), .. } = m {
        lemma_addr_from_wire(t.local_server_addr);
        if let Some(addr) = t.upstream.upstream_addr {
            lemma_addr_from_wire(addr);
        }
    }
}

} // verus!
