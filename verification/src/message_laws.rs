//! The layout of what goes over the wire, byte by byte, and how requests are described.

use crate::addr::{
    lemma_segment_octets, segment_octets, SocketAddr, SocketAddrV4, SocketAddrV6,
};
use crate::compression::{
    compress, compress_if_worthwhile, decompress, shorter_form, CompressionError,
};
use crate::client::ClientState;
use crate::config::{Tunnel, TunnelConfig, TunnelMode, UpstreamType};
use crate::number::decimal_text;
use crate::settings::LogLevel;
use crate::text::blank;
use crate::tunnel_message::{
    be32, decode_at, decode_peer, lemma_decode_peer, peer_header, udp_frame, udp_frames,
    udp_packet_round_trip, validate_control_message_len, Decoded, LoginRequest, LoginResponse,
    MessageError, MessageView, TunnelMessage,
};
use crate::udp_batch::{udp_batch, Packets};
use crate::wire::{
    addr_to_wire, message_from_wire, message_to_wire, plain_message, tunnel_to_wire,
    WireMessageView,
};
use vstd::prelude::*;

verus! {

/// A frame starts with the family of the peer's address, zero where there is none, followed by the
/// address and the port; then come the length of the payload and the payload. All numbers are
/// written most significant byte first.
pub proof fn frames_are_laid_out(
    payload: Seq<u8>,
    v4: SocketAddrV4,
    v6: SocketAddrV6,
)
    requires
        payload.len() <= 65535,
    ensures
        ({
            let hi = (payload.len() / 256) as u8;
            let lo = (payload.len() % 256) as u8;
            let own = udp_frame(Some(SocketAddr::V6(v6)), payload);
            &&& udp_frame(None, payload) == seq![0u8, hi, lo] + payload
            &&& udp_frame(Some(SocketAddr::V4(v4)), payload) == seq![
                4u8,
                v4.ip.0,
                v4.ip.1,
                v4.ip.2,
                v4.ip.3,
                (v4.port / 256) as u8,
                (v4.port % 256) as u8,
                hi,
                lo,
            ] + payload
            &&& own.len() == 21 + payload.len()
            &&& own[0] == 6
            &&& own[1] == v6.ip.0 / 256 && own[2] == v6.ip.0 % 256
            &&& own[3] == v6.ip.1 / 256 && own[4] == v6.ip.1 % 256
            &&& own[5] == v6.ip.2 / 256 && own[6] == v6.ip.2 % 256
            &&& own[7] == v6.ip.3 / 256 && own[8] == v6.ip.3 % 256
            &&& own[9] == v6.ip.4 / 256 && own[10] == v6.ip.4 % 256
            &&& own[11] == v6.ip.5 / 256 && own[12] == v6.ip.5 % 256
            &&& own[13] == v6.ip.6 / 256 && own[14] == v6.ip.6 % 256
            &&& own[15] == v6.ip.7 / 256 && own[16] == v6.ip.7 % 256
            &&& own[17] == v6.port / 256 && own[18] == v6.port % 256
            &&& own[19] == hi && own[20] == lo
            &&& own.skip(21) == payload
        }),
{
    let len = segment_octets(payload.len() as u16);
    assert(udp_frame(None, payload) =~= seq![0u8, len[0], len[1]] + payload);
    let own = udp_frame(Some(SocketAddr::V6(v6)), payload);
    assert(own.skip(21) =~= payload);
}

/// A batch starts with the length of its frames in four bytes, most significant first; the frames
/// follow one after another.
pub proof fn batches_are_laid_out(packets: Packets, n: nat)
    requires
        n <= u32::MAX,
    ensures
        be32(n).len() == 4,
        be32(n)[0] == n / 16777216,
        be32(n)[1] == n / 65536 % 256,
        be32(n)[2] == n / 256 % 256,
        be32(n)[3] == n % 256,
        udp_batch(packets) == be32(udp_frames(packets).len()) + udp_frames(packets),
        packets.len() > 0 ==> udp_frames(packets) == udp_frame(packets[0].0, packets[0].1)
            + udp_frames(packets.drop_first()),
        udp_frames(Seq::empty()).len() == 0,
{
}

/// A first byte that is no family of addresses is refused for what it is; where the data end, there
/// is no further packet.
pub proof fn unknown_families_are_refused(data: Seq<u8>, cursor: int)
    requires
        0 <= cursor < data.len() <= usize::MAX,
        data[cursor] != 0,
        data[cursor] != 4,
        data[cursor] != 6,
    ensures
        decode_at(data, cursor).0 == Decoded::Failed(
            MessageError::InvalidAddressFamily(data[cursor]),
        ),
        decode_at(data, data.len() as int).0 is End,
{
    reveal(decode_at);
}

proof fn lemma_short_header(header: Seq<u8>, peer: Option<SocketAddr>, n: int)
    requires
        header == peer_header(peer),
        0 < n < header.len(),
    ensures
        decode_peer(header.take(n), 0).0 == Err::<Option<SocketAddr>, MessageError>(
            MessageError::TruncatedFrame,
        ),
{
    assert(header.take(n)[0] == header[0]);
}

/// A frame of which a part is missing at the end is refused for that.
pub proof fn truncated_frames_are_refused(peer: Option<SocketAddr>, payload: Seq<u8>, n: int)
    requires
        payload.len() <= 65535,
        0 < n < udp_frame(peer, payload).len(),
        udp_frame(peer, payload).len() <= usize::MAX,
    ensures
        decode_at(udp_frame(peer, payload).take(n), 0).0 == Decoded::Failed(
            MessageError::TruncatedFrame,
        ),
{
    reveal(decode_at);
    let frame = udp_frame(peer, payload);
    let part = frame.take(n);
    let header = peer_header(peer);
    let size = header.len() as int;
    if n < size {
        lemma_short_header(header, peer, n);
        assert(part =~= header.take(n));
    } else {
        let rest = part.skip(size);
        let none = Seq::<u8>::empty();
        assert(part =~= none + header + rest);
        lemma_decode_peer(none, peer, rest);
        if n >= size + 2 {
            let len = segment_octets(payload.len() as u16);
            assert(part[size] == len[0]);
            assert(part[size + 1] == len[1]);
            lemma_segment_octets(payload.len() as u16);
        }
    }
}

/// Every value that can come over the wire is one message, and the message is written as that
/// value again.
pub proof fn to_wire_undoes_from_wire(m: WireMessageView)
    ensures
        message_to_wire(message_from_wire(m)) == m,
{
}

/// A login goes over the wire as its password, its client and its tunnel, in this order. Of a
/// tunnel with addresses go whether it is outbound, the local address, the upstream address if
/// there is one, and whether it is a UDP tunnel; of any other, whether it is a UDP tunnel.
pub proof fn logins_are_laid_out(
    password: Seq<char>,
    client_id: Seq<char>,
    t: TunnelConfig,
    upstream_type: UpstreamType,
    a: SocketAddrV4,
)
    ensures
        ({
            let sent = message_to_wire(
                MessageView::Login { password, client_id, tunnel: Tunnel::NetworkBased(t) },
            );
            let tunnel = (sent->Ok_0).2;
            &&& sent is Ok
            &&& (sent->Ok_0).0 == password
            &&& (sent->Ok_0).1 == client_id
            &&& tunnel is Ok
            &&& (tunnel->Ok_0).0 == (t.mode is Out)
            &&& (tunnel->Ok_0).1 == addr_to_wire(t.local_server_addr)
            &&& ((tunnel->Ok_0).2).0 == (match t.upstream.upstream_addr {
                Some(addr) => Some(addr_to_wire(addr)),
                None => None,
            })
            &&& ((tunnel->Ok_0).2).1 == (t.upstream.upstream_type is Udp)
        }),
        tunnel_to_wire(Tunnel::ChannelBased(upstream_type)) is Err,
        tunnel_to_wire(Tunnel::ChannelBased(upstream_type))->Err_0 == (upstream_type is Udp),
        addr_to_wire(SocketAddr::V4(a)) is Ok,
        addr_to_wire(SocketAddr::V4(a))->Ok_0 == ((a.ip.0, a.ip.1, a.ip.2, a.ip.3), a.port),
{
}

/// The upstream of a request is described as the client sees it: an address in `127.0.0.0/8` or
/// `::1` is one of the server's, so it is shown under the server's IP with its own port; any other
/// is shown as it is.
pub proof fn upstream_is_described_as_seen(addr: SocketAddr, remote: SocketAddr)
    ensures
        ({
            let text = LoginRequest::upstream_text(Some(addr), remote);
            let own = match addr {
                SocketAddr::V4(a) => a.ip.0 == 127,
                SocketAddr::V6(a) => a.ip.0 == 0 && a.ip.1 == 0 && a.ip.2 == 0 && a.ip.3 == 0
                    && a.ip.4 == 0 && a.ip.5 == 0 && a.ip.6 == 0 && a.ip.7 == 1,
            };
            let server = match remote {
                SocketAddr::V4(a) => a.ip.text(),
                SocketAddr::V6(a) => a.ip.text(),
            };
            let port = match addr {
                SocketAddr::V4(a) => a.port,
                SocketAddr::V6(a) => a.port,
            };
            &&& own ==> text == server.push(':') + decimal_text(port as nat)
            &&& !own ==> text == addr.text()
            &&& LoginRequest::upstream_text(None, remote) == "PeerDefault"@
        }),
{
    reveal_strlit(":");
    let server = remote.spec_ip().text();
    assert(server + ":"@ =~= server.push(':'));
}

/// A request is described by its transport, then the local address, then the server's address,
/// then the upstream.
pub proof fn request_is_described_in_order(request: LoginRequest, remote: SocketAddr)
    ensures
        request.tunnel matches Tunnel::NetworkBased(t) ==> request.text_with_remote(remote)
            == t.upstream.upstream_type.text() + " \u{2192}  "@ + t.local_server_addr.text()
            + " \u{2192}  "@ + remote.text() + " \u{2192}  "@ + LoginRequest::upstream_text(
            t.upstream.upstream_addr,
            remote,
        ),
        request.tunnel matches Tunnel::ChannelBased(upstream_type) ==> request.text_with_remote(
            remote,
        ) == upstream_type.text() + "_ChannelBased \u{2192}  "@ + remote.text(),
        UpstreamType::Tcp.text() == "TCP"@,
        UpstreamType::Udp.text() == "UDP"@,
{
}

/// Data is sent compressed exactly if that makes it shorter, so that what is sent is never longer
/// than the data, and it is always told which of the two was sent.
pub proof fn shorter_form_is_sent(data: Seq<u8>, compressed: Seq<u8>)
    ensures
        shorter_form(data, compressed).1 <==> compressed.len() < data.len(),
        shorter_form(data, compressed).1 ==> shorter_form(data, compressed).0 == compressed,
        !shorter_form(data, compressed).1 ==> shorter_form(data, compressed).0 == data,
        shorter_form(data, compressed).0.len() <= data.len(),
        shorter_form(data, compressed).0.len() <= compressed.len(),
{
}

/// A control message may be up to 65536 bytes long, and no longer: when it is sent, when it is
/// framed and when it is announced. What is framed is its length in four bytes, most significant
/// first, and the message.
pub proof fn control_messages_are_limited(
    len: usize,
    checked: Result<(), MessageError>,
    prefix: u32,
    announced: Result<usize, MessageError>,
    msg: &[u8],
    framed: Result<Vec<u8>, MessageError>,
)
    requires
        call_ensures(validate_control_message_len, (len,), checked),
        call_ensures(TunnelMessage::recv, (prefix,), announced),
        call_ensures(TunnelMessage::frame, (msg,), framed),
    ensures
        checked is Ok <==> len <= 65536,
        len > 65536 ==> checked == Err::<(), MessageError>(
            MessageError::ControlMessageTooLarge(len),
        ),
        prefix <= 65536 ==> announced == Ok::<usize, MessageError>(prefix as usize),
        prefix > 65536 ==> announced == Err::<usize, MessageError>(
            MessageError::ControlMessageTooLarge(prefix as usize),
        ),
        framed is Ok <==> msg@.len() <= 65536,
        framed matches Ok(bytes) ==> bytes@.len() == 4 + msg@.len() && bytes@.skip(4) == msg@
            && bytes@[0] == 0 && bytes@[1] == msg@.len() / 65536 && bytes@[2] == msg@.len() / 256
            % 256 && bytes@[3] == msg@.len() % 256,
{
    if let Ok(bytes) = framed {
        assert(bytes@.skip(4) =~= msg@);
    }
}

/// A control message that was sent is received as it was, but for flow labels and scopes: the
/// bytes announce the length of the body, and the body is read as the message.
pub proof fn sent_message_is_received(
    msg: &TunnelMessage,
    sent: Result<Vec<u8>, MessageError>,
    body: &[u8],
    received: Result<TunnelMessage, MessageError>,
)
    requires
        call_ensures(TunnelMessage::send, (msg,), sent),
        call_ensures(TunnelMessage::recv_body, (body,), received),
        sent is Ok,
        body@ == sent->Ok_0@.skip(4),
        msg@ matches MessageView::Login { tunnel: Tunnel::NetworkBased(t), .. } ==> (
        t.local_server_addr matches SocketAddr::V6(a) ==> a.flowinfo == 0 && a.scope_id == 0) && (
        t.upstream.upstream_addr matches Some(SocketAddr::V6(a)) ==> a.flowinfo == 0 && a.scope_id
            == 0),
    ensures
        received is Ok,
        received->Ok_0@ == msg@,
        sent->Ok_0@.len() == 4 + body@.len(),
{
    assert(plain_message(msg@));
}

/// A packet of up to 65535 bytes is appended behind what is there, and a longer one is refused and
/// leaves it as it is.
pub proof fn packets_are_appended(
    output: &mut Vec<u8>,
    peer: Option<SocketAddr>,
    data: &[u8],
    r: Result<(), MessageError>,
)
    requires
        call_ensures(TunnelMessage::append_udp_packet, (output, peer, data), r),
    ensures
        r is Ok <==> data@.len() <= 65535,
        r is Err ==> r->Err_0 == MessageError::PayloadTooLarge && final(output)@ == old(output)@,
        r is Ok ==> final(output)@.take(old(output)@.len() as int) == old(output)@,
        r is Ok && peer is None ==> final(output)@.skip(old(output)@.len() as int) == seq![
            0u8,
            (data@.len() / 256) as u8,
            (data@.len() % 256) as u8,
        ] + data@,
        r is Ok ==> final(output)@.skip(final(output)@.len() - data@.len()) == data@,
{
    if r is Ok {
        assert(final(output)@.take(old(output)@.len() as int) =~= old(output)@);
        assert(final(output)@.skip(final(output)@.len() - data@.len()) =~= data@);
        if peer is None {
            assert(final(output)@.skip(old(output)@.len() as int) =~= udp_frame(None, data@));
            assert(udp_frame(None, data@) =~= seq![
                0u8,
                (data@.len() / 256) as u8,
                (data@.len() % 256) as u8,
            ] + data@);
        }
    }
}

/// A batch of up to 131072 bytes is made room for, and a longer one is refused.
pub proof fn batches_are_limited(prefix: u32, data: &mut Vec<u8>, r: Result<(), MessageError>)
    requires
        call_ensures(TunnelMessage::recv_udp_batch, (prefix, data), r),
    ensures
        r is Ok <==> prefix <= 131072,
        r is Ok ==> final(data)@.len() == prefix,
        r is Err ==> r->Err_0 == MessageError::BatchRefused(prefix as usize) && final(data)@
            == old(data)@,
{
}

/// A client needs a name with something visible in it that is at most 128 bytes long; which of the
/// two is missing is told, the former first.
pub proof fn client_names_are_checked(client_id: &str, r: Result<(), MessageError>)
    requires
        call_ensures(LoginRequest::validate_client_id, (client_id,), r),
    ensures
        blank(client_id@) <==> r == Err::<(), MessageError>(MessageError::EmptyClientId),
        !blank(client_id@) && vstd::utf8::encode_utf8(client_id@).len() > 128 <==> r == Err::<
            (),
            MessageError,
        >(MessageError::ClientIdTooLong),
        r is Ok <==> !blank(client_id@) && vstd::utf8::encode_utf8(client_id@).len() <= 128,
{
}

/// What is compressed is decompressed to what it was. Data shorter than the given size is sent as
/// it is; other data is sent in the shorter of its two forms, and never in one longer than itself.
pub proof fn compression_is_undone(
    data: &[u8],
    compressed: Result<Vec<u8>, CompressionError>,
    received: &[u8],
    back: Result<Vec<u8>, CompressionError>,
    min_size: usize,
    sent: Result<(Vec<u8>, bool), CompressionError>,
)
    requires
        call_ensures(compress, (data,), compressed),
        call_ensures(decompress, (received,), back),
        call_ensures(compress_if_worthwhile, (data, min_size), sent),
    ensures
        compressed is Ok && received@ == compressed->Ok_0@ ==> back is Ok && back->Ok_0@ == data@,
        data@.len() < min_size ==> sent is Ok && !sent->Ok_0.1 && sent->Ok_0.0@ == data@,
        sent is Ok && sent->Ok_0.1 ==> data@.len() >= min_size && sent->Ok_0.0@.len() < data@.len(),
        sent is Ok && sent->Ok_0.1 && received@ == sent->Ok_0.0@ ==> back is Ok && back->Ok_0@
            == data@,
        sent is Ok && !sent->Ok_0.1 ==> sent->Ok_0.0@ == data@,
        data@.len() >= min_size && compressed is Ok ==> sent is Ok && (sent->Ok_0.1
            <==> compressed->Ok_0@.len() < data@.len()),
        sent is Ok && sent->Ok_0.1 && compressed is Ok ==> sent->Ok_0.0@ == compressed->Ok_0@,
{
}

/// A packet that was written is read back, wherever it stands in the data: its payload, its peer
/// without flow label and scope, and the position right behind it.
pub proof fn written_packet_is_read(
    before: Seq<u8>,
    peer: Option<SocketAddr>,
    payload: Seq<u8>,
    after: Seq<u8>,
    data: &[u8],
    cursor: &mut usize,
    r: Result<Option<(Option<SocketAddr>, &[u8])>, MessageError>,
)
    requires
        call_ensures(TunnelMessage::decode_udp_packet, (data, cursor), r),
        payload.len() <= 65535,
        data@ == before + udp_frame(peer, payload) + after,
        data@.len() <= usize::MAX,
        *old(cursor) == before.len(),
    ensures
        r is Ok,
        r->Ok_0 is Some,
        (r->Ok_0->0).1@ == payload,
        peer is None <==> (r->Ok_0->0).0 is None,
        peer matches Some(SocketAddr::V4(a)) ==> (r->Ok_0->0).0 == peer,
        peer matches Some(SocketAddr::V6(a)) ==> (r->Ok_0->0).0 == Some(
            SocketAddr::V6(SocketAddrV6 { ip: a.ip, port: a.port, flowinfo: 0, scope_id: 0 }),
        ),
        *final(cursor) == before.len() + udp_frame(peer, payload).len(),
{
    udp_packet_round_trip(before, peer, payload, after);
}

/// A batch starts as four bytes of room for its length, which is filled in at the end; the frames
/// stay as they are.
pub proof fn batch_length_is_filled_in(
    fresh: &mut Vec<u8>,
    output: &mut [u8],
    r: Result<(), MessageError>,
)
    requires
        call_ensures(TunnelMessage::start_udp_batch, (fresh,), ()),
        call_ensures(TunnelMessage::finish_udp_batch, (output,), r),
        old(output)@.len() <= u32::MAX,
    ensures
        final(fresh)@ == seq![0u8, 0, 0, 0],
        r is Ok <==> old(output)@.len() >= 4,
        r is Err ==> r->Err_0 == MessageError::MissingLengthPrefix && final(output)@
            == old(output)@,
        r is Ok ==> {
            let len = old(output)@.len() - 4;
            &&& final(output)@.len() == old(output)@.len()
            &&& final(output)@.skip(4) == old(output)@.skip(4)
            &&& final(output)@[0] == len / 16777216
            &&& final(output)@[1] == len / 65536 % 256
            &&& final(output)@[2] == len / 256 % 256
            &&& final(output)@[3] == len % 256
        },
{
    if r is Ok {
        assert(final(output)@.skip(4) =~= old(output)@.skip(4));
    }
}

/// What names of things are: of the states of a client, of directions, of transports and of
/// answers.
pub proof fn names_are_as_users_know_them(reason: String)
    ensures
        TunnelMode::In.text() == "IN"@,
        TunnelMode::Out.text() == "OUT"@,
        UpstreamType::Tcp.text() == "TCP"@,
        UpstreamType::Udp.text() == "UDP"@,
        ClientState::Idle.text() == "Idle"@,
        ClientState::Connecting.text() == "Connecting"@,
        ClientState::Connected.text() == "Connected"@,
        ClientState::LoggingIn.text() == "LoggingIn"@,
        ClientState::Tunneling.text() == "Tunneling"@,
        ClientState::Stopping.text() == "Stopping"@,
        ClientState::Terminated.text() == "Terminated"@,
        LogLevel::Trace.text() == "trace"@,
        LogLevel::Debug.text() == "debug"@,
        LogLevel::Info.text() == "info"@,
        LogLevel::Warn.text() == "warn"@,
        LogLevel::Error.text() == "error"@,
        TunnelMessage::LoginResponse(LoginResponse::Rejected { reason }).text() == "rejected: "@
            + reason@,
        TunnelMessage::LoginResponse(LoginResponse::Accepted { replaced_previous: false }).text()
            == "accepted"@,
        TunnelMessage::LoginResponse(LoginResponse::Accepted { replaced_previous: true }).text()
            == "accepted (replaced previous session)"@,
{
}

} // verus!
