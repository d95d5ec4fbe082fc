//! The messages exchanged over QUIC streams: the login exchange, the length prefix of
//! control messages, and the compact frames in which UDP packets travel.

use crate::addr::{
    lemma_segment_octets, make_segment, segment_octets, segment_of, IpAddr, Ipv4Addr, Ipv6Addr,
    SocketAddr, SocketAddrV4, SocketAddrV6,
};
use crate::addr_text::push_socket_addr;
use crate::config::Tunnel;
use crate::number::{decimal_text, push_decimal};
use crate::text::{blank, extend_str, is_blank, string_of};
use crate::wire::{
    from_wire, from_wire_undoes_to_wire, kept_message, message_from_wire, message_to_wire,
    plain_message, postcard_decode, postcard_decoded, postcard_encode, postcard_encoded, to_wire,
};
use vstd::prelude::*;
use vstd::utf8::encode_utf8;

verus! {

/// The longest body of a UDP batch that a receiver accepts.
pub const MAX_UDP_BATCH_BYTES: usize = 128 * 1024;

/// The longest control message.
pub const MAX_CONTROL_MESSAGE_BYTES: usize = 64 * 1024;

/// The longest client identifier, in bytes.
pub const MAX_CLIENT_ID_BYTES: usize = 128;

/// Why a message was refused.
#[derive(Clone, Copy, Debug, PartialEq, Eq, Structural)]
pub enum MessageError {
    /// A control message of this many bytes is too long.
    ControlMessageTooLarge(usize),
    /// The body of a control message is none.
    MalformedMessage,
    /// The client identifier holds nothing but white space.
    EmptyClientId,
    /// The client identifier is too long.
    ClientIdTooLong,
    /// A UDP batch is too short for its length prefix.
    MissingLengthPrefix,
    /// A UDP batch is too long for its length prefix.
    BatchTooLarge,
    /// A UDP batch of this many bytes is longer than a receiver accepts.
    BatchRefused(usize),
    /// A datagram is longer than a frame can hold.
    PayloadTooLarge,
    /// The end of a frame lies beyond what can be addressed.
    FrameLengthOverflow,
    /// A frame ends early.
    TruncatedFrame,
    /// A frame starts with an unknown address family.
    InvalidAddressFamily(u8),
}

/// Control messages used during login.
#[derive(Clone, Debug)]
pub enum TunnelMessage {
    /// Client to server: authenticate and declare the requested tunnel.
    Login(LoginRequest),
    /// Server to client: result of the login request.
    LoginResponse(LoginResponse),
}

/// Login payload containing authentication, ownership, and tunnel details.
#[derive(Clone, Debug)]
pub struct LoginRequest {
    pub password: String,
    pub client_id: String,
    pub tunnel: Tunnel,
}

/// The server's answer to a login.
#[derive(Clone, Debug)]
pub enum LoginResponse {
    Accepted { replaced_previous: bool },
    Rejected { reason: String },
}

/// What `TunnelMessage` says.
#[verifier::ext_equal]
pub enum MessageView {
    Login { password: Seq<char>, client_id: Seq<char>, tunnel: Tunnel },
    /// The login is accepted; whether it replaces another.
    Accepted(bool),
    /// The login is refused for this reason.
    Rejected(Seq<char>),
}

impl View for TunnelMessage {
    type V = MessageView;

    open spec fn view(&self) -> MessageView {
        match self {
            TunnelMessage::Login(request) => MessageView::Login {
                password: request.password@,
                client_id: request.client_id@,
                tunnel: request.tunnel,
            },
            TunnelMessage::LoginResponse(LoginResponse::Accepted { replaced_previous }) => {
                MessageView::Accepted(*replaced_previous)
            },
            TunnelMessage::LoginResponse(LoginResponse::Rejected { reason }) => {
                MessageView::Rejected(reason@)
            },
        }
    }
}

/// The body of a control message.
pub open spec fn message_body(m: MessageView) -> Seq<u8> {
    postcard_encoded(message_to_wire(m))
}

/// The control message in a body, if there is one.
pub open spec fn message_in(body: Seq<u8>) -> Option<MessageView> {
    match postcard_decoded(body, usize::BITS) {
        Some(m) => Some(message_from_wire(m)),
        None => None,
    }
}

/// Refuses control messages that are too long, before anything is allocated for them.
pub fn validate_control_message_len(len: usize) -> (r: Result<(), MessageError>)
    ensures
        r == (if len > MAX_CONTROL_MESSAGE_BYTES {
            Err::<(), MessageError>(MessageError::ControlMessageTooLarge(len))
        } else {
            Ok::<(), MessageError>(())
        }),
{
    if len > MAX_CONTROL_MESSAGE_BYTES {
        return Err(MessageError::ControlMessageTooLarge(len));
    }
    Ok(())
}

/// A number as four bytes, most significant first.
pub open spec fn be32(n: nat) -> Seq<u8> {
    seq![
        (n / 16777216) as u8,
        (n / 65536 % 256) as u8,
        (n / 256 % 256) as u8,
        (n % 256) as u8,
    ]
}

/// The number that four bytes make, most significant first.
pub open spec fn be32_value(b: Seq<u8>) -> nat {
    (b[0] as nat) * 16777216 + (b[1] as nat) * 65536 + (b[2] as nat) * 256 + b[3] as nat
}

/// Four bytes hold any number below 2^32.
pub proof fn lemma_be32(n: nat)
    requires
        n <= u32::MAX,
    ensures
        be32_value(be32(n)) == n,
        be32(n).len() == 4,
{
    assert(n == (n / 16777216) * 16777216 + (n / 65536 % 256) * 65536 + (n / 256 % 256) * 256 + n
        % 256);
}

/// What an address keeps of itself on the wire: no flow label and no scope.
pub open spec fn wire_addr(peer: Option<SocketAddr>) -> Option<SocketAddr> {
    match peer {
        Some(addr) => Some(SocketAddr::of(addr.spec_ip(), addr.spec_port())),
        None => None,
    }
}

/// The address part of a frame: a family marker, and behind it IP and port if there is a peer.
pub open spec fn peer_header(peer: Option<SocketAddr>) -> Seq<u8> {
    match peer {
        None => seq![0u8],
        Some(SocketAddr::V4(addr)) => seq![4u8] + addr.ip.octets() + segment_octets(addr.port),
        Some(SocketAddr::V6(addr)) => seq![6u8] + addr.ip.octets() + segment_octets(addr.port),
    }
}

/// One UDP packet as a frame: its peer, the length of its payload, and the payload.
pub open spec fn udp_frame(peer: Option<SocketAddr>, payload: Seq<u8>) -> Seq<u8> {
    peer_header(peer) + segment_octets(payload.len() as u16) + payload
}

/// What decoding finds at a position of a batch.
pub enum Decoded {
    /// The batch ends here.
    End,
    /// A packet.
    Packet(Option<SocketAddr>, Seq<u8>),
    /// No packet, and why not.
    Failed(MessageError),
}

/// Why `len` bytes cannot be taken at `cursor`, if they cannot.
pub open spec fn take_error(data: Seq<u8>, cursor: int, len: int) -> Option<MessageError> {
    if cursor + len > usize::MAX {
        Some(MessageError::FrameLengthOverflow)
    } else if cursor + len > data.len() {
        Some(MessageError::TruncatedFrame)
    } else {
        None
    }
}

/// The IPv4 address and port in six bytes at `at`.
pub open spec fn ipv4_peer_at(data: Seq<u8>, at: int) -> SocketAddr {
    SocketAddr::of(
        IpAddr::V4(Ipv4Addr(data[at], data[at + 1], data[at + 2], data[at + 3])),
        segment_of(data[at + 4], data[at + 5]),
    )
}

/// The IPv6 address and port in eighteen bytes at `at`.
pub open spec fn ipv6_peer_at(data: Seq<u8>, at: int) -> SocketAddr {
    SocketAddr::of(
        IpAddr::V6(
            Ipv6Addr(
                segment_of(data[at], data[at + 1]),
                segment_of(data[at + 2], data[at + 3]),
                segment_of(data[at + 4], data[at + 5]),
                segment_of(data[at + 6], data[at + 7]),
                segment_of(data[at + 8], data[at + 9]),
                segment_of(data[at + 10], data[at + 11]),
                segment_of(data[at + 12], data[at + 13]),
                segment_of(data[at + 14], data[at + 15]),
            ),
        ),
        segment_of(data[at + 16], data[at + 17]),
    )
}

/// The address part of the frame at `cursor`, and the position behind what could be read.
pub open spec fn decode_peer(data: Seq<u8>, cursor: int) -> (
    Result<Option<SocketAddr>, MessageError>,
    int,
) {
    match take_error(data, cursor, 1) {
        Some(e) => (Err(e), cursor),
        None => if data[cursor] == 0 {
            (Ok(None), cursor + 1)
        } else if data[cursor] == 4 {
            match take_error(data, cursor + 1, 6) {
                Some(e) => (Err(e), cursor + 1),
                None => (Ok(Some(ipv4_peer_at(data, cursor + 1))), cursor + 7),
            }
        } else if data[cursor] == 6 {
            match take_error(data, cursor + 1, 18) {
                Some(e) => (Err(e), cursor + 1),
                None => (Ok(Some(ipv6_peer_at(data, cursor + 1))), cursor + 19),
            }
        } else {
            (Err(MessageError::InvalidAddressFamily(data[cursor])), cursor + 1)
        },
    }
}

/// The packet at `cursor`, and the position behind what could be read.
#[verifier::opaque]
pub open spec fn decode_at(data: Seq<u8>, cursor: int) -> (Decoded, int) {
    if cursor == data.len() {
        (Decoded::End, cursor)
    } else {
        match decode_peer(data, cursor) {
            (Err(e), at) => (Decoded::Failed(e), at),
            (Ok(peer), at) => match take_error(data, at, 2) {
                Some(e) => (Decoded::Failed(e), at),
                None => {
                    let len = segment_of(data[at], data[at + 1]) as int;
                    match take_error(data, at + 2, len) {
                        Some(e) => (Decoded::Failed(e), at + 2),
                        None => (
                            Decoded::Packet(peer, data.subrange(at + 2, at + 2 + len)),
                            at + 2 + len,
                        ),
                    }
                },
            },
        }
    }
}

/// Takes `len` bytes at the cursor and moves it behind them.
fn take<'a>(data: &'a [u8], cursor: &mut usize, len: usize) -> (r: Result<&'a [u8], MessageError>)
    ensures
        match take_error(data@, *old(cursor) as int, len as int) {
            Some(e) => r == Err::<&'a [u8], MessageError>(e) && *final(cursor) == *old(cursor),
            None => r is Ok && r->Ok_0@ == data@.subrange(
                *old(cursor) as int,
                *old(cursor) + len,
            ) && *final(cursor) == *old(cursor) + len,
        },
{
    let start: usize = *cursor;
    let end: usize = match start.checked_add(len) {
        Some(end) => end,
        None => return Err(MessageError::FrameLengthOverflow),
    };
    if end > data.len() {
        return Err(MessageError::TruncatedFrame);
    }
    *cursor = end;
    Ok(vstd::slice::slice_subrange(data, start, end))
}

fn push_segment(output: &mut Vec<u8>, n: u16)
    ensures
        final(output)@ == old(output)@ + segment_octets(n),
{
    output.push((n / 256) as u8);
    output.push((n % 256) as u8);
}

pub(crate) fn push_bytes(output: &mut Vec<u8>, data: &[u8])
    ensures
        final(output)@ == old(output)@ + data@,
{
    let ghost before = output@;
    let mut i: usize = 0;
    while i < data.len()
        invariant
            i <= data@.len(),
            output@ == before + data@.take(i as int),
        decreases data@.len() - i,
    {
        output.push(data[i]);
        i += 1;
    }
    assert(data@.take(data@.len() as int) =~= data@);
}

fn push_peer(output: &mut Vec<u8>, peer_addr: Option<SocketAddr>)
    ensures
        final(output)@ == old(output)@ + peer_header(peer_addr),
{
    let ghost before = output@;
    match peer_addr {
        None => {
            output.push(0);
        },
        Some(SocketAddr::V4(addr)) => {
            output.push(4);
            output.push(addr.ip.0);
            output.push(addr.ip.1);
            output.push(addr.ip.2);
            output.push(addr.ip.3);
            push_segment(output, addr.port);
        },
        Some(SocketAddr::V6(addr)) => {
            output.push(6);
            push_segment(output, addr.ip.0);
            push_segment(output, addr.ip.1);
            push_segment(output, addr.ip.2);
            push_segment(output, addr.ip.3);
            push_segment(output, addr.ip.4);
            push_segment(output, addr.ip.5);
            push_segment(output, addr.ip.6);
            push_segment(output, addr.ip.7);
            push_segment(output, addr.port);
        },
    }
    assert(output@ =~= before + peer_header(peer_addr));
}

fn read_peer(data: &[u8], cursor: &mut usize) -> (r: Result<Option<SocketAddr>, MessageError>)
    ensures
        r == decode_peer(data@, *old(cursor) as int).0,
        *final(cursor) == decode_peer(data@, *old(cursor) as int).1,
{
    let ghost start = *cursor as int;
    let family: u8 = match take(data, cursor, 1) {
        Ok(b) => b[0],
        Err(e) => return Err(e),
    };
    assert(family == data@[start]);
    if family == 0 {
        Ok(None)
    } else if family == 4 {
        let b = match take(data, cursor, 6) {
            Ok(b) => b,
            Err(e) => return Err(e),
        };
        assert(forall|i: int| 0 <= i < 6 ==> b@[i] == #[trigger] data@[start + 1 + i]);
        let ip = IpAddr::V4(Ipv4Addr(b[0], b[1], b[2], b[3]));
        let addr = SocketAddr::new(ip, make_segment(b[4], b[5]));
        assert(addr == ipv4_peer_at(data@, start + 1)) by {
            assert(b@ =~= data@.subrange(start + 1, start + 7));
        }
        Ok(Some(addr))
    } else if family == 6 {
        let b = match take(data, cursor, 18) {
            Ok(b) => b,
            Err(e) => return Err(e),
        };
        let ip = IpAddr::V6(
            Ipv6Addr(
                make_segment(b[0], b[1]),
                make_segment(b[2], b[3]),
                make_segment(b[4], b[5]),
                make_segment(b[6], b[7]),
                make_segment(b[8], b[9]),
                make_segment(b[10], b[11]),
                make_segment(b[12], b[13]),
                make_segment(b[14], b[15]),
            ),
        );
        let addr = SocketAddr::new(ip, make_segment(b[16], b[17]));
        Ok(Some(addr))
    } else {
        Err(MessageError::InvalidAddressFamily(family))
    }
}

impl TunnelMessage {
    /// The bytes to write for a control message: the length of its body, and the body. Refused if
    /// the body is too long.
    ///
    /// `recv` takes that length on, and from the body `recv_body` has the message again, without
    /// the flow labels and scopes of its addresses.
    pub fn send(msg: &TunnelMessage) -> (r: Result<Vec<u8>, MessageError>)
        ensures
            message_body(msg@).len() > MAX_CONTROL_MESSAGE_BYTES ==> r == Err::<
                Vec<u8>,
                MessageError,
            >(MessageError::ControlMessageTooLarge(message_body(msg@).len() as usize)),
            message_body(msg@).len() <= MAX_CONTROL_MESSAGE_BYTES ==> r is Ok && r->Ok_0@ == be32(
                message_body(msg@).len(),
            ) + message_body(msg@),
            r matches Ok(bytes) ==> {
                &&& be32_value(bytes@.take(4)) == bytes@.len() - 4 <= MAX_CONTROL_MESSAGE_BYTES
                &&& message_in(bytes@.skip(4)) == Some(kept_message(msg@))
                &&& plain_message(msg@) ==> message_in(bytes@.skip(4)) == Some(msg@)
            },
    {
        let body = match postcard_encode(&to_wire(msg)) {
            Ok(body) => body,
            Err(_) => return Err(MessageError::MalformedMessage),
        };
        proof {
            from_wire_undoes_to_wire(msg@);
            if body@.len() <= MAX_CONTROL_MESSAGE_BYTES {
                control_message_round_trip(body@);
            }
        }
        TunnelMessage::frame(body.as_slice())
    }

    /// The control message in a body that has been received.
    pub fn recv_body(body: &[u8]) -> (r: Result<TunnelMessage, MessageError>)
        ensures
            match message_in(body@) {
                Some(m) => r is Ok && r->Ok_0@ == m,
                None => r == Err::<TunnelMessage, MessageError>(MessageError::MalformedMessage),
            },
    {
        match postcard_decode(body) {
            Ok(m) => Ok(from_wire(m)),
            Err(_) => Err(MessageError::MalformedMessage),
        }
    }

    /// The bytes to write for the body of a control message: its length and the body.
    pub fn frame(msg: &[u8]) -> (r: Result<Vec<u8>, MessageError>)
        ensures
            msg@.len() > MAX_CONTROL_MESSAGE_BYTES ==> r == Err::<Vec<u8>, MessageError>(
                MessageError::ControlMessageTooLarge(msg@.len() as usize),
            ),
            msg@.len() <= MAX_CONTROL_MESSAGE_BYTES ==> r is Ok && r->Ok_0@ == be32(msg@.len())
                + msg@,
    {
        match validate_control_message_len(msg.len()) {
            Err(e) => return Err(e),
            Ok(()) => {},
        }
        let len: u32 = msg.len() as u32;
        let mut output: Vec<u8> = Vec::new();
        output.push((len / 16777216) as u8);
        output.push((len / 65536 % 256) as u8);
        output.push((len / 256 % 256) as u8);
        output.push((len % 256) as u8);
        assert(output@ =~= be32(len as nat));
        push_bytes(&mut output, msg);
        Ok(output)
    }

    /// How many bytes follow a length prefix; refused if they are too many.
    pub fn recv(prefix: u32) -> (r: Result<usize, MessageError>)
        ensures
            prefix > MAX_CONTROL_MESSAGE_BYTES ==> r == Err::<usize, MessageError>(
                MessageError::ControlMessageTooLarge(prefix as usize),
            ),
            prefix <= MAX_CONTROL_MESSAGE_BYTES ==> r == Ok::<usize, MessageError>(
                prefix as usize,
            ),
    {
        match validate_control_message_len(prefix as usize) {
            Err(e) => Err(e),
            Ok(()) => Ok(prefix as usize),
        }
    }

    /// The answer to a login that is refused.
    pub fn send_rejection(reason: String) -> (r: TunnelMessage)
        ensures
            r == TunnelMessage::LoginResponse(LoginResponse::Rejected { reason }),
    {
        TunnelMessage::LoginResponse(LoginResponse::Rejected { reason })
    }

    /// Starts a reusable UDP batch with room for its length prefix.
    pub fn start_udp_batch(output: &mut Vec<u8>)
        ensures
            final(output)@ == seq![0u8, 0, 0, 0],
    {
        output.clear();
        output.push(0);
        output.push(0);
        output.push(0);
        output.push(0);
        assert(output@ =~= seq![0u8, 0, 0, 0]);
    }

    /// Fills in the length prefix of a UDP batch.
    pub fn finish_udp_batch(output: &mut [u8]) -> (r: Result<(), MessageError>)
        ensures
            old(output)@.len() < 4 ==> r == Err::<(), MessageError>(
                MessageError::MissingLengthPrefix,
            ) && final(output)@ == old(output)@,
            old(output)@.len() - 4 > u32::MAX ==> r == Err::<(), MessageError>(
                MessageError::BatchTooLarge,
            ) && final(output)@ == old(output)@,
            4 <= old(output)@.len() <= u32::MAX + 4 ==> r == Ok::<(), MessageError>(())
                && final(output)@ == be32((old(output)@.len() - 4) as nat) + old(output)@.skip(4),
    {
        if output.len() < 4 {
            return Err(MessageError::MissingLengthPrefix);
        }
        let body: u64 = (output.len() - 4) as u64;
        if body > 0xffff_ffff {
            return Err(MessageError::BatchTooLarge);
        }
        output[0] = (body / 16777216) as u8;
        output[1] = (body / 65536 % 256) as u8;
        output[2] = (body / 256 % 256) as u8;
        output[3] = (body % 256) as u8;
        assert(output@ =~= be32(body as nat) + old(output)@.skip(4));
        Ok(())
    }

    /// Appends a packet with its optional dynamic destination as one frame.
    pub fn append_udp_packet(
        output: &mut Vec<u8>,
        peer_addr: Option<SocketAddr>,
        data: &[u8],
    ) -> (r: Result<(), MessageError>)
        ensures
            data@.len() > u16::MAX ==> r == Err::<(), MessageError>(MessageError::PayloadTooLarge)
                && final(output)@ == old(output)@,
            data@.len() <= u16::MAX ==> r == Ok::<(), MessageError>(()) && final(output)@ == old(
                output,
            )@ + udp_frame(peer_addr, data@),
    {
        let ghost before = output@;
        if data.len() > 65535 {
            return Err(MessageError::PayloadTooLarge);
        }
        push_peer(output, peer_addr);
        push_segment(output, data.len() as u16);
        push_bytes(output, data);
        assert(output@ =~= before + udp_frame(peer_addr, data@));
        Ok(())
    }

    /// Makes room for the batch that a length prefix announces; refused if it is too long.
    pub fn recv_udp_batch(prefix: u32, data: &mut Vec<u8>) -> (r: Result<(), MessageError>)
        ensures
            prefix > MAX_UDP_BATCH_BYTES ==> r == Err::<(), MessageError>(
                MessageError::BatchRefused(prefix as usize),
            ) && final(data)@ == old(data)@,
            prefix <= MAX_UDP_BATCH_BYTES ==> r == Ok::<(), MessageError>(()) && final(data)@.len()
                == prefix,
            prefix <= MAX_UDP_BATCH_BYTES ==> forall|i: int|
                0 <= i < prefix ==> #[trigger] final(data)@[i] == (if i < old(data)@.len() {
                    old(data)@[i]
                } else {
                    0u8
                }),
    {
        let len: usize = prefix as usize;
        if len > MAX_UDP_BATCH_BYTES {
            return Err(MessageError::BatchRefused(len));
        }
        data.resize(len, 0);
        Ok(())
    }

    /// Decodes the next packet of a batch and moves the cursor behind it.
    pub fn decode_udp_packet<'a>(data: &'a [u8], cursor: &mut usize) -> (r: Result<
        Option<(Option<SocketAddr>, &'a [u8])>,
        MessageError,
    >)
        ensures
            *final(cursor) == decode_at(data@, *old(cursor) as int).1,
            match decode_at(data@, *old(cursor) as int).0 {
                Decoded::End => r is Ok && r->Ok_0 is None,
                Decoded::Packet(peer, payload) => r is Ok && r->Ok_0 is Some && (r->Ok_0->0).0
                    == peer && (r->Ok_0->0).1@ == payload,
                Decoded::Failed(e) => r is Err && r->Err_0 == e,
            },
    {
        proof {
            reveal(decode_at);
        }
        if *cursor == data.len() {
            return Ok(None);
        }
        let peer_addr = match read_peer(data, cursor) {
            Ok(peer_addr) => peer_addr,
            Err(e) => return Err(e),
        };
        let len: usize = match take(data, cursor, 2) {
            Ok(b) => make_segment(b[0], b[1]) as usize,
            Err(e) => return Err(e),
        };
        match take(data, cursor, len) {
            Ok(payload) => Ok(Some((peer_addr, payload))),
            Err(e) => Err(e),
        }
    }
}

impl LoginRequest {
    /// Refuses a client identifier that is blank or too long.
    pub fn validate_client_id(client_id: &str) -> (r: Result<(), MessageError>)
        ensures
            r == (if blank(client_id@) {
                Err::<(), MessageError>(MessageError::EmptyClientId)
            } else if encode_utf8(client_id@).len() > MAX_CLIENT_ID_BYTES {
                Err::<(), MessageError>(MessageError::ClientIdTooLong)
            } else {
                Ok::<(), MessageError>(())
            }),
    {
        if is_blank(client_id) {
            return Err(MessageError::EmptyClientId);
        }
        let bytes = client_id.as_bytes();
        if bytes.len() > MAX_CLIENT_ID_BYTES {
            return Err(MessageError::ClientIdTooLong);
        }
        Ok(())
    }

    /// The upstream as seen from the client: a loopback address is one of the server's.
    pub open spec fn upstream_text(upstream: Option<SocketAddr>, remote: SocketAddr) -> Seq<char> {
        match upstream {
            None => "PeerDefault"@,
            Some(addr) => if addr.spec_ip().loopback() {
                remote.spec_ip().text() + ":"@ + decimal_text(addr.spec_port() as nat)
            } else {
                addr.text()
            },
        }
    }

    pub open spec fn text_with_remote(self, remote: SocketAddr) -> Seq<char> {
        match self.tunnel {
            Tunnel::ChannelBased(upstream_type) => upstream_type.text()
                + "_ChannelBased \u{2192}  "@ + remote.text(),
            Tunnel::NetworkBased(cfg) => cfg.upstream.upstream_type.text() + " \u{2192}  "@
                + cfg.local_server_addr.text() + " \u{2192}  "@ + remote.text() + " \u{2192}  "@
                + LoginRequest::upstream_text(cfg.upstream.upstream_addr, remote),
        }
    }

    /// A human-friendly description with the server's address.
    pub fn format_with_remote_addr(&self, remote_addr: &SocketAddr) -> (r: String)
        ensures
            r@ == self.text_with_remote(*remote_addr),
    {
        let mut v: Vec<char> = Vec::new();
        match self.tunnel {
            Tunnel::ChannelBased(upstream_type) => {
                extend_str(&mut v, upstream_type.to_string().as_str());
                extend_str(&mut v, "_ChannelBased \u{2192}  ");
                push_socket_addr(&mut v, *remote_addr);
            },
            Tunnel::NetworkBased(cfg) => {
                extend_str(&mut v, cfg.upstream.upstream_type.to_string().as_str());
                extend_str(&mut v, " \u{2192}  ");
                push_socket_addr(&mut v, cfg.local_server_addr);
                extend_str(&mut v, " \u{2192}  ");
                push_socket_addr(&mut v, *remote_addr);
                extend_str(&mut v, " \u{2192}  ");
                let ghost before = v@;
                match cfg.upstream.upstream_addr {
                    None => {
                        extend_str(&mut v, "PeerDefault");
                    },
                    Some(addr) => {
                        if addr.ip().is_loopback() {
                            extend_str(&mut v, remote_addr.ip().to_string().as_str());
                            extend_str(&mut v, ":");
                            push_decimal(&mut v, addr.port() as u64);
                        } else {
                            push_socket_addr(&mut v, addr);
                        }
                    },
                }
                assert(v@ =~= before + LoginRequest::upstream_text(
                    cfg.upstream.upstream_addr,
                    *remote_addr,
                ));
            },
        }
        assert(v@ =~= self.text_with_remote(*remote_addr));
        string_of(v.as_slice())
    }

    pub open spec fn text(self) -> Seq<char> {
        match self.tunnel {
            Tunnel::ChannelBased(upstream_type) => upstream_type.text() + "_ChannelBased"@,
            Tunnel::NetworkBased(cfg) => cfg.upstream.upstream_type.text(),
        }
    }

    /// A short description of the requested tunnel.
    pub fn to_string(&self) -> (r: String)
        ensures
            r@ == self.text(),
    {
        match self.tunnel {
            Tunnel::ChannelBased(upstream_type) => {
                let mut v: Vec<char> = Vec::new();
                extend_str(&mut v, upstream_type.to_string().as_str());
                extend_str(&mut v, "_ChannelBased");
                assert(v@ =~= self.text());
                string_of(v.as_slice())
            },
            Tunnel::NetworkBased(cfg) => cfg.upstream.upstream_type.to_string(),
        }
    }
}

impl TunnelMessage {
    pub open spec fn text(self) -> Seq<char> {
        match self {
            TunnelMessage::Login(request) => request.text(),
            TunnelMessage::LoginResponse(LoginResponse::Accepted { replaced_previous }) => {
                if replaced_previous {
                    "accepted (replaced previous session)"@
                } else {
                    "accepted"@
                }
            },
            TunnelMessage::LoginResponse(LoginResponse::Rejected { reason }) => "rejected: "@
                + reason@,
        }
    }

    /// A short description of the message.
    pub fn to_string(&self) -> (r: String)
        ensures
            r@ == self.text(),
    {
        match self {
            TunnelMessage::Login(request) => request.to_string(),
            TunnelMessage::LoginResponse(LoginResponse::Accepted { replaced_previous }) => {
                if *replaced_previous {
                    "accepted (replaced previous session)".to_owned()
                } else {
                    "accepted".to_owned()
                }
            },
            TunnelMessage::LoginResponse(LoginResponse::Rejected { reason }) => {
                let mut v: Vec<char> = Vec::new();
                extend_str(&mut v, "rejected: ");
                extend_str(&mut v, reason.as_str());
                assert(v@ =~= self.text());
                string_of(v.as_slice())
            },
        }
    }
}

proof fn lemma_decode_no_peer(before: Seq<u8>, after: Seq<u8>)
    requires
        (before + peer_header(None) + after).len() <= usize::MAX,
    ensures
        decode_peer(before + peer_header(None) + after, before.len() as int) == (
            Ok::<Option<SocketAddr>, MessageError>(None),
            (before.len() + 1) as int,
        ),
{
    let data = before + peer_header(None) + after;
    assert(data[before.len() as int] == 0);
}

proof fn lemma_decode_ipv4_peer(before: Seq<u8>, addr: SocketAddrV4, after: Seq<u8>)
    requires
        (before + peer_header(Some(SocketAddr::V4(addr))) + after).len() <= usize::MAX,
    ensures
        decode_peer(
            before + peer_header(Some(SocketAddr::V4(addr))) + after,
            before.len() as int,
        ) == (
            Ok::<Option<SocketAddr>, MessageError>(wire_addr(Some(SocketAddr::V4(addr)))),
            (before.len() + 7) as int,
        ),
{
    let header = peer_header(Some(SocketAddr::V4(addr)));
    let data = before + header + after;
    let n = before.len() as int;
    lemma_segment_octets(addr.port);
    assert(header.len() == 7);
    assert(data.subrange(n, n + 7) =~= header);
    assert(data[n] == header[0]);
    assert(data[n + 1] == header[1]);
    assert(data[n + 2] == header[2]);
    assert(data[n + 3] == header[3]);
    assert(data[n + 4] == header[4]);
    assert(data[n + 5] == header[5]);
    assert(data[n + 6] == header[6]);
}

proof fn lemma_decode_ipv6_peer(before: Seq<u8>, addr: SocketAddrV6, after: Seq<u8>)
    requires
        (before + peer_header(Some(SocketAddr::V6(addr))) + after).len() <= usize::MAX,
    ensures
        decode_peer(
            before + peer_header(Some(SocketAddr::V6(addr))) + after,
            before.len() as int,
        ) == (
            Ok::<Option<SocketAddr>, MessageError>(wire_addr(Some(SocketAddr::V6(addr)))),
            (before.len() + 19) as int,
        ),
{
    let octets = addr.ip.octets();
    let header = peer_header(Some(SocketAddr::V6(addr)));
    let data = before + header + after;
    let n = before.len() as int;
    lemma_segment_octets(addr.port);
    lemma_ipv6_octets(addr.ip);
    assert(header.len() == 19);
    assert(data[n] == header[0] == 6);
    assert forall|i: int| 0 <= i < 16 implies data[n + 1 + i] == #[trigger] octets[i] by {
        assert(data[n + 1 + i] == header[1 + i]);
        assert(header[1 + i] == octets[i]);
    }
    assert(ipv6_peer_at(data, n + 1) == SocketAddr::of(IpAddr::V6(addr.ip), addr.port)) by {
        assert(data[n + 17] == header[17] == segment_octets(addr.port)[0]);
        assert(data[n + 18] == header[18] == segment_octets(addr.port)[1]);
        assert(octets[0] == octets[0] && octets[1] == octets[1] && octets[2] == octets[2]
            && octets[3] == octets[3] && octets[4] == octets[4] && octets[5] == octets[5]
            && octets[6] == octets[6] && octets[7] == octets[7] && octets[8] == octets[8]
            && octets[9] == octets[9] && octets[10] == octets[10] && octets[11] == octets[11]
            && octets[12] == octets[12] && octets[13] == octets[13] && octets[14] == octets[14]
            && octets[15] == octets[15]);
    }
}

pub proof fn lemma_decode_peer(before: Seq<u8>, peer: Option<SocketAddr>, after: Seq<u8>)
    requires
        (before + peer_header(peer) + after).len() <= usize::MAX,
    ensures
        decode_peer(before + peer_header(peer) + after, before.len() as int) == (
            Ok::<Option<SocketAddr>, MessageError>(wire_addr(peer)),
            (before.len() + peer_header(peer).len()) as int,
        ),
{
    match peer {
        None => lemma_decode_no_peer(before, after),
        Some(SocketAddr::V4(addr)) => lemma_decode_ipv4_peer(before, addr, after),
        Some(SocketAddr::V6(addr)) => {
            lemma_decode_ipv6_peer(before, addr, after);
            lemma_ipv6_octets(addr.ip);
        },
    }
}

/// A packet that was written reads back: its payload unchanged, its peer as the wire
/// keeps it, and the cursor right behind it, whatever stands around the frame.
pub proof fn udp_packet_round_trip(
    before: Seq<u8>,
    peer: Option<SocketAddr>,
    payload: Seq<u8>,
    after: Seq<u8>,
)
    requires
        payload.len() <= u16::MAX,
        (before + udp_frame(peer, payload) + after).len() <= usize::MAX,
    ensures
        decode_at(before + udp_frame(peer, payload) + after, before.len() as int) == (
            Decoded::Packet(wire_addr(peer), payload),
            (before.len() + udp_frame(peer, payload).len()) as int,
        ),
{
    reveal(decode_at);
    let data = before + udp_frame(peer, payload) + after;
    let header = peer_header(peer);
    let rest = segment_octets(payload.len() as u16) + payload + after;
    let at = (before.len() + header.len()) as int;
    assert(data =~= before + header + rest);
    lemma_decode_peer(before, peer, rest);
    lemma_segment_octets(payload.len() as u16);
    assert(data[at] == rest[0] == segment_octets(payload.len() as u16)[0]);
    assert(data[at + 1] == rest[1] == segment_octets(payload.len() as u16)[1]);
    assert(data.subrange(at + 2, at + 2 + payload.len()) =~= payload);
}

proof fn lemma_octets_of_segment(hi: u8, lo: u8)
    ensures
        segment_octets(segment_of(hi, lo)) == seq![hi, lo],
{
    assert(segment_octets(segment_of(hi, lo)) =~= seq![hi, lo]);
}

proof fn lemma_encode_ipv4_peer(data: Seq<u8>, at: int)
    requires
        0 <= at,
        at + 7 <= data.len(),
        data[at] == 4,
    ensures
        peer_header(Some(ipv4_peer_at(data, at + 1))) == data.subrange(at, at + 7),
{
    lemma_octets_of_segment(data[at + 5], data[at + 6]);
    assert(peer_header(Some(ipv4_peer_at(data, at + 1))) =~= data.subrange(at, at + 7));
}

proof fn lemma_encode_ipv6_peer(data: Seq<u8>, at: int)
    requires
        0 <= at,
        at + 19 <= data.len(),
        data[at] == 6,
    ensures
        peer_header(Some(ipv6_peer_at(data, at + 1))) == data.subrange(at, at + 19),
{
    lemma_octets_of_segment(data[at + 1], data[at + 2]);
    lemma_octets_of_segment(data[at + 3], data[at + 4]);
    lemma_octets_of_segment(data[at + 5], data[at + 6]);
    lemma_octets_of_segment(data[at + 7], data[at + 8]);
    lemma_octets_of_segment(data[at + 9], data[at + 10]);
    lemma_octets_of_segment(data[at + 11], data[at + 12]);
    lemma_octets_of_segment(data[at + 13], data[at + 14]);
    lemma_octets_of_segment(data[at + 15], data[at + 16]);
    lemma_octets_of_segment(data[at + 17], data[at + 18]);
    assert(peer_header(Some(ipv6_peer_at(data, at + 1))) =~= data.subrange(at, at + 19));
}

/// A packet that was read is written as exactly the bytes that were read.
pub proof fn decoded_packet_encodes_back(data: Seq<u8>, cursor: int)
    requires
        0 <= cursor <= data.len(),
        decode_at(data, cursor).0 is Packet,
    ensures
        cursor < decode_at(data, cursor).1 <= data.len(),
        udp_frame(decode_at(data, cursor).0->Packet_0, decode_at(data, cursor).0->Packet_1)
            == data.subrange(cursor, decode_at(data, cursor).1),
{
    reveal(decode_at);
    let at = decode_peer(data, cursor).1;
    let peer = decode_peer(data, cursor).0->Ok_0;
    let next = decode_at(data, cursor).1;
    let payload = data.subrange(at + 2, next);
    if data[cursor] == 4 {
        lemma_encode_ipv4_peer(data, cursor);
    } else if data[cursor] == 6 {
        lemma_encode_ipv6_peer(data, cursor);
    }
    assert(peer_header(peer) =~= data.subrange(cursor, at));
    lemma_octets_of_segment(data[at], data[at + 1]);
    assert(segment_octets(payload.len() as u16) =~= data.subrange(at, at + 2));
    assert(udp_frame(peer, payload) =~= data.subrange(cursor, next));
}

/// A batch of packets as consecutive frames.
pub open spec fn udp_frames(packets: Seq<(Option<SocketAddr>, Seq<u8>)>) -> Seq<u8>
    decreases packets.len(),
{
    if packets.len() == 0 {
        Seq::empty()
    } else {
        udp_frame(packets[0].0, packets[0].1) + udp_frames(packets.drop_first())
    }
}

/// All packets from `cursor` on, up to the first that cannot be read, and why it cannot.
pub open spec fn decode_all(data: Seq<u8>, cursor: int) -> (
    Seq<(Option<SocketAddr>, Seq<u8>)>,
    Option<MessageError>,
)
    decreases data.len() - cursor,
{
    if cursor < 0 || cursor > data.len() {
        (Seq::empty(), Some(MessageError::TruncatedFrame))
    } else {
        match decode_at(data, cursor) {
            (Decoded::End, _) => (Seq::empty(), None),
            (Decoded::Failed(e), _) => (Seq::empty(), Some(e)),
            (Decoded::Packet(peer, payload), next) => {
                proof {
                    reveal(decode_at);
                }
                let rest = decode_all(data, next);
                (seq![(peer, payload)] + rest.0, rest.1)
            },
        }
    }
}

/// Decoding a packet moves forward, and never past the end.
pub proof fn lemma_decode_advances(data: Seq<u8>, cursor: int)
    requires
        0 <= cursor <= data.len(),
    ensures
        decode_at(data, cursor).0 is Packet ==> cursor < decode_at(data, cursor).1 <= data.len(),
{
    reveal(decode_at);
}

/// Packets as the wire keeps them.
pub open spec fn wire_packets(packets: Seq<(Option<SocketAddr>, Seq<u8>)>) -> Seq<
    (Option<SocketAddr>, Seq<u8>),
> {
    packets.map_values(|p: (Option<SocketAddr>, Seq<u8>)| (wire_addr(p.0), p.1))
}

/// Appending a packet appends its frame.
pub proof fn lemma_udp_frames_push(
    packets: Seq<(Option<SocketAddr>, Seq<u8>)>,
    peer: Option<SocketAddr>,
    payload: Seq<u8>,
)
    ensures
        udp_frames(packets.push((peer, payload))) == udp_frames(packets) + udp_frame(
            peer,
            payload,
        ),
    decreases packets.len(),
{
    let all = packets.push((peer, payload));
    if packets.len() == 0 {
        assert(all.drop_first() =~= Seq::empty());
        assert(udp_frames(all.drop_first()) =~= Seq::<u8>::empty());
        assert(udp_frames(all) =~= udp_frame(peer, payload));
        assert(udp_frames(packets) + udp_frame(peer, payload) =~= udp_frame(peer, payload));
    } else {
        assert(all.drop_first() =~= packets.drop_first().push((peer, payload)));
        lemma_udp_frames_push(packets.drop_first(), peer, payload);
        assert(udp_frames(all) =~= udp_frames(packets) + udp_frame(peer, payload));
    }
}

/// A batch reads back as the packets that were written to it, in the same order.
pub proof fn udp_batch_round_trip(
    before: Seq<u8>,
    packets: Seq<(Option<SocketAddr>, Seq<u8>)>,
)
    requires
        forall|i: int| 0 <= i < packets.len() ==> (#[trigger] packets[i]).1.len() <= u16::MAX,
        (before + udp_frames(packets)).len() <= usize::MAX,
    ensures
        decode_all(before + udp_frames(packets), before.len() as int) == (
            wire_packets(packets),
            None::<MessageError>,
        ),
    decreases packets.len(),
{
    let data = before + udp_frames(packets);
    if packets.len() == 0 {
        assert(wire_packets(packets) =~= Seq::empty());
        assert(decode_at(data, before.len() as int) == (Decoded::End, before.len() as int)) by {
            reveal(decode_at);
        }
    } else {
        let frame = udp_frame(packets[0].0, packets[0].1);
        let rest = packets.drop_first();
        assert(data =~= before + frame + udp_frames(rest));
        assert(frame.len() >= 3);
        udp_packet_round_trip(before, packets[0].0, packets[0].1, udp_frames(rest));
        assert(data =~= (before + frame) + udp_frames(rest));
        assert forall|i: int| 0 <= i < rest.len() implies (#[trigger] rest[i]).1.len()
            <= u16::MAX by {
            assert(rest[i] == packets[i + 1]);
        }
        udp_batch_round_trip(before + frame, rest);
        assert(wire_packets(packets) =~= seq![(wire_addr(packets[0].0), packets[0].1)]
            + wire_packets(rest));
    }
}

/// The octets of an IPv6 address hold all of its segments.
proof fn lemma_ipv6_octets(ip: Ipv6Addr)
    ensures
        ip.octets().len() == 16,
        segment_of(ip.octets()[0], ip.octets()[1]) == ip.0,
        segment_of(ip.octets()[2], ip.octets()[3]) == ip.1,
        segment_of(ip.octets()[4], ip.octets()[5]) == ip.2,
        segment_of(ip.octets()[6], ip.octets()[7]) == ip.3,
        segment_of(ip.octets()[8], ip.octets()[9]) == ip.4,
        segment_of(ip.octets()[10], ip.octets()[11]) == ip.5,
        segment_of(ip.octets()[12], ip.octets()[13]) == ip.6,
        segment_of(ip.octets()[14], ip.octets()[15]) == ip.7,
{
    lemma_segment_octets(ip.0);
    lemma_segment_octets(ip.1);
    lemma_segment_octets(ip.2);
    lemma_segment_octets(ip.3);
    lemma_segment_octets(ip.4);
    lemma_segment_octets(ip.5);
    lemma_segment_octets(ip.6);
    lemma_segment_octets(ip.7);
}

/// The body of a control message is announced by its prefix and follows it unchanged.
pub proof fn control_message_round_trip(msg: Seq<u8>)
    requires
        msg.len() <= MAX_CONTROL_MESSAGE_BYTES,
    ensures
        be32_value((be32(msg.len()) + msg).take(4)) == msg.len(),
        (be32(msg.len()) + msg).skip(4) == msg,
{
    lemma_be32(msg.len());
    assert((be32(msg.len()) + msg).take(4) =~= be32(msg.len()));
    assert((be32(msg.len()) + msg).skip(4) =~= msg);
}

} // verus!
