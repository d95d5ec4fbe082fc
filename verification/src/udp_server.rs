//! A local UDP socket whose packets come and go through channels.

use crate::addr::SocketAddr;
use crate::handle::{HandleError, HandleState, ShutdownPlan};
use vstd::prelude::*;

verus! {

/// Capacity of each of the channels for packets.
pub const UDP_CHANNEL_CAPACITY: usize = 1024;

/// Size of the kernel's buffers to ask for (bytes).
pub const UDP_SOCKET_BUFFER_BYTES: u32 = 4 * 1024 * 1024;

/// A datagram with its addresses.
pub struct UdpPacket {
    pub payload: Vec<u8>,
    /// The local address from which the packet came, or to which it goes.
    pub local_addr: SocketAddr,
    /// The address of the peer, where it is not given by the tunnel.
    pub peer_addr: Option<SocketAddr>,
}

/// What goes through the channels for packets.
pub enum UdpMessage {
    /// A datagram.
    Packet(UdpPacket),
    /// The receiver is to end.
    Quit,
}

/// A UDP socket with the sender of outgoing and the receiver of incoming packets.
pub struct UdpServer<S, R> {
    addr: SocketAddr,
    in_udp_sender: S,
    udp_receiver: Option<R>,
    state: HandleState,
}

impl<S, R> UdpServer<S, R> {
    pub closed spec fn spec_addr(self) -> SocketAddr {
        self.addr
    }

    pub closed spec fn sender(self) -> S {
        self.in_udp_sender
    }

    pub closed spec fn receiver(self) -> Option<R> {
        self.udp_receiver
    }

    pub closed spec fn state(self) -> HandleState {
        self.state
    }

    /// The server is the same but for its state and its receiver.
    pub open spec fn same_server(self, other: UdpServer<S, R>) -> bool {
        self.spec_addr() == other.spec_addr() && self.sender() == other.sender()
    }

    /// A server bound to `addr`, with the ends of its channels.
    pub fn bind_and_start(addr: SocketAddr, in_udp_sender: S, udp_receiver: R) -> (r: UdpServer<S, R>)
        ensures
            r.spec_addr() == addr,
            r.sender() == in_udp_sender,
            r.receiver() == Some(udp_receiver),
            r.state() == HandleState::started(),
    {
        UdpServer { addr, in_udp_sender, udp_receiver: Some(udp_receiver), state: HandleState::new() }
    }

    /// The message for a datagram that has just come in, if packets are wanted.
    pub fn received(&self, data: Vec<u8>, local_addr: SocketAddr) -> (r: Option<UdpMessage>)
        ensures
            match r {
                Some(UdpMessage::Packet(packet)) => self.state().active && packet.payload@ == data@
                    && packet.local_addr == local_addr && packet.peer_addr is None,
                Some(UdpMessage::Quit) => false,
                None => !self.state().active,
            },
    {
        if self.state.active {
            Some(UdpMessage::Packet(UdpPacket { payload: data, local_addr, peer_addr: None }))
        } else {
            None
        }
    }

    /// The packet to send out next, given what came through the channel; the sending ends where
    /// there is none.
    pub fn next_to_send(message: Option<UdpMessage>) -> (r: Option<UdpPacket>)
        ensures
            r == (match message {
                Some(UdpMessage::Packet(packet)) => Some(packet),
                _ => None,
            }),
    {
        match message {
            Some(UdpMessage::Packet(packet)) => Some(packet),
            Some(UdpMessage::Quit) => None,
            None => None,
        }
    }

    /// Has incoming packets taken or dropped.
    pub fn set_active(&mut self, active: bool)
        ensures
            final(self).same_server(*old(self)),
            final(self).receiver() == old(self).receiver(),
            final(self).state() == (HandleState { active, ..old(self).state() }),
    {
        self.state.active = active;
    }

    /// Tells the server to end, and what to wait for.
    pub fn shutdown(&mut self) -> (r: ShutdownPlan)
        ensures
            final(self).same_server(*old(self)),
            final(self).receiver() == old(self).receiver(),
            (final(self).state(), r) == old(self).state().shut(),
    {
        self.state.shutdown()
    }

    /// Takes note that the server's tasks have ended.
    pub fn completed(&mut self)
        ensures
            final(self).same_server(*old(self)),
            final(self).receiver() == old(self).receiver(),
            final(self).state() == (HandleState { completed: true, ..old(self).state() }),
    {
        self.state.completed = true;
    }

    /// The address to which the server is bound.
    pub fn addr(&self) -> (r: SocketAddr)
        ensures
            r == self.spec_addr(),
    {
        self.addr
    }

    /// Takes the receiver of incoming packets, and has packets taken.
    pub fn take_receiver(&mut self) -> (r: Result<R, HandleError>)
        ensures
            final(self).same_server(*old(self)),
            r == (match old(self).receiver() {
                Some(receiver) => Ok::<R, HandleError>(receiver),
                None => Err::<R, HandleError>(HandleError::ReceiverTaken),
            }),
            final(self).receiver() is None,
            final(self).state() == (HandleState { active: true, ..old(self).state() }),
    {
        self.state.active = true;
        match self.udp_receiver.take() {
            Some(receiver) => Ok(receiver),
            None => Err(HandleError::ReceiverTaken),
        }
    }

    /// Puts the receiver back, and has packets dropped.
    pub fn put_receiver(&mut self, udp_receiver: R)
        ensures
            final(self).same_server(*old(self)),
            final(self).receiver() == Some(udp_receiver),
            final(self).state() == (HandleState { active: false, ..old(self).state() }),
    {
        self.state.active = false;
        self.udp_receiver = Some(udp_receiver);
    }

    /// Takes note that one of `owners` handles is dropped; tells whether the server is to end.
    pub fn drop_handle(&mut self, owners: usize) -> (signal: bool)
        ensures
            final(self).same_server(*old(self)),
            final(self).receiver() == old(self).receiver(),
            (final(self).state(), signal) == old(self).state().dropped(owners as nat),
    {
        self.state.drop_handle(owners)
    }
}

impl<S: Clone, R> UdpServer<S, R> {
    /// A copy of the sender for outgoing packets.
    pub fn clone_sender(&self) -> (r: S)
        ensures
            cloned(self.sender(), r),
    {
        self.in_udp_sender.clone()
    }
}

} // verus!
