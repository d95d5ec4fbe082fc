//! UDP packets on their way into a tunnel, collected in batches.

use crate::addr::SocketAddr;
use crate::tunnel_message::{
    be32, be32_value, decode_all, lemma_be32, lemma_udp_frames_push, peer_header,
    udp_batch_round_trip, udp_frame, udp_frames, wire_packets, MessageError, TunnelMessage,
    MAX_UDP_BATCH_BYTES,
};
use vstd::prelude::*;

verus! {

/// A batch of at least this many bytes takes no more packets.
pub const UDP_WRITE_BATCH_BYTES: usize = 64 * 1024;

/// A batch of this many packets takes no more.
pub const UDP_WRITE_BATCH_PACKETS: usize = 64;

/// Packets: peer, where one is given, and payload.
pub type Packets = Seq<(Option<SocketAddr>, Seq<u8>)>;

/// Packets that the sender puts in one batch.
pub open spec fn sendable(packets: Packets) -> bool {
    &&& packets.len() <= UDP_WRITE_BATCH_PACKETS
    &&& forall|i: int| 0 <= i < packets.len() ==> (#[trigger] packets[i]).1.len() <= u16::MAX
    &&& packets.len() > 0 ==> 4 + udp_frames(packets.drop_last()).len() < UDP_WRITE_BATCH_BYTES
}

/// A batch on the wire: the length of its frames, and the frames.
pub open spec fn udp_batch(packets: Packets) -> Seq<u8> {
    be32(udp_frames(packets).len()) + udp_frames(packets)
}

/// A batch being collected.
pub struct UdpBatch {
    data: Vec<u8>,
    count: usize,
    packets: Ghost<Packets>,
}

impl UdpBatch {
    /// The packets in the batch.
    pub closed spec fn packets(self) -> Packets {
        self.packets@
    }

    /// How many packets have been offered, those that were too long included.
    pub closed spec fn count(self) -> nat {
        self.count as nat
    }

    pub closed spec fn wf(self) -> bool {
        &&& self.data@ == seq![0u8, 0, 0, 0] + udp_frames(self.packets@)
        &&& self.count <= UDP_WRITE_BATCH_PACKETS
        &&& self.packets@.len() <= self.count
        &&& sendable(self.packets@)
    }

    /// Whether the batch takes one more packet.
    pub open spec fn room(self) -> bool {
        4 + udp_frames(self.packets()).len() < UDP_WRITE_BATCH_BYTES && self.count()
            < UDP_WRITE_BATCH_PACKETS
    }

    /// An empty batch.
    pub fn new() -> (r: UdpBatch)
        ensures
            r.wf(),
            r.packets() == Packets::empty(),
            r.count() == 0,
            r.room(),
    {
        let mut data: Vec<u8> = Vec::new();
        TunnelMessage::start_udp_batch(&mut data);
        assert(data@ =~= seq![0u8, 0, 0, 0] + udp_frames(Packets::empty()));
        UdpBatch { data, count: 0, packets: Ghost(Seq::empty()) }
    }

    /// Empties the batch.
    pub fn start(&mut self)
        ensures
            final(self).wf(),
            final(self).packets() == Packets::empty(),
            final(self).count() == 0,
            final(self).room(),
    {
        TunnelMessage::start_udp_batch(&mut self.data);
        self.count = 0;
        self.packets = Ghost(Seq::empty());
        assert(self.data@ =~= seq![0u8, 0, 0, 0] + udp_frames(Packets::empty()));
    }

    /// Adds a packet, unless its payload is too long.
    pub fn add(&mut self, peer_addr: Option<SocketAddr>, payload: &[u8]) -> (r: Result<
        (),
        MessageError,
    >)
        requires
            old(self).wf(),
            old(self).room(),
        ensures
            final(self).wf(),
            final(self).count() == old(self).count() + 1,
            payload@.len() <= u16::MAX ==> r is Ok && final(self).packets() == old(
                self,
            ).packets().push((peer_addr, payload@)),
            payload@.len() > u16::MAX ==> r == Err::<(), MessageError>(
                MessageError::PayloadTooLarge,
            ) && final(self).packets() == old(self).packets(),
    {
        let ghost before = self.packets@;
        let r = TunnelMessage::append_udp_packet(&mut self.data, peer_addr, payload);
        self.count = self.count + 1;
        proof {
            if payload@.len() <= u16::MAX {
                lemma_udp_frames_push(before, peer_addr, payload@);
                self.packets@ = before.push((peer_addr, payload@));
                assert(self.packets@.drop_last() =~= before);
                assert(self.data@ =~= seq![0u8, 0, 0, 0] + udp_frames(self.packets@));
            }
        }
        r
    }

    /// Whether the batch takes one more packet.
    pub fn has_room(&self) -> (r: bool)
        requires
            self.wf(),
        ensures
            r == self.room(),
    {
        self.data.len() < UDP_WRITE_BATCH_BYTES && self.count < UDP_WRITE_BATCH_PACKETS
    }

    /// The batch as it goes on the wire. The batch is empty afterwards.
    pub fn finish(&mut self) -> (r: Vec<u8>)
        requires
            old(self).wf(),
        ensures
            r@ == udp_batch(old(self).packets()),
            final(self).wf(),
            final(self).packets() == Packets::empty(),
            final(self).count() == 0,
    {
        let ghost packets = self.packets@;
        let mut data: Vec<u8> = Vec::new();
        std::mem::swap(&mut data, &mut self.data);
        proof {
            lemma_batch_length(packets);
        }
        let _ = TunnelMessage::finish_udp_batch(data.as_mut_slice());
        assert(data@ =~= udp_batch(packets));
        self.start();
        data
    }
}

proof fn lemma_batch_length(packets: Packets)
    requires
        sendable(packets),
    ensures
        packets.len() > 0 ==> udp_frames(packets).len() == udp_frames(packets.drop_last()).len()
            + peer_header(packets.last().0).len() + 2 + packets.last().1.len(),
        udp_frames(packets).len() <= 131087,
{
    if packets.len() > 0 {
        let (peer, payload) = packets.last();
        lemma_udp_frames_push(packets.drop_last(), peer, payload);
        assert(packets.drop_last().push((peer, payload)) =~= packets);
        assert(packets[packets.len() - 1].1.len() <= u16::MAX);
        assert(udp_frame(peer, payload).len() == peer_header(peer).len() + 2 + payload.len());
        assert(peer_header(peer).len() <= 19);
    }
}

/// The longest payload that may end a batch without making it too long for the receiver.
pub open spec fn longest_last_payload(peer: Option<SocketAddr>) -> nat {
    match peer {
        None => 65535,
        Some(SocketAddr::V4(_)) => 65532,
        Some(SocketAddr::V6(_)) => 65520,
    }
}

/// What the sender puts in one batch is not too long for the receiver: never where the peer is
/// given by the tunnel, and otherwise unless the last payload is among the very longest.
pub proof fn receiver_accepts_batches(packets: Packets)
    requires
        sendable(packets),
        packets.len() > 0 ==> packets.last().1.len() <= longest_last_payload(packets.last().0),
    ensures
        udp_frames(packets).len() <= MAX_UDP_BATCH_BYTES,
{
    lemma_batch_length(packets);
    if packets.len() > 0 {
        assert(packets[packets.len() - 1].1.len() <= u16::MAX);
    }
}

/// A batch on the wire announces its length and reads back as the packets that were put in it, in
/// the same order.
pub proof fn batch_reads_back(packets: Packets)
    requires
        sendable(packets),
    ensures
        be32_value(udp_batch(packets).take(4)) == udp_batch(packets).skip(4).len(),
        decode_all(udp_batch(packets).skip(4), 0) == (wire_packets(packets), None::<MessageError>),
{
    lemma_batch_length(packets);
    let frames = udp_frames(packets);
    lemma_be32(frames.len());
    assert(udp_batch(packets).take(4) =~= be32(frames.len()));
    assert(udp_batch(packets).skip(4) =~= frames);
    assert(Seq::<u8>::empty() + frames =~= frames);
    udp_batch_round_trip(Seq::empty(), packets);
}

} // verus!
