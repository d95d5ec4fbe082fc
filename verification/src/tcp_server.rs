//! A local TCP listener that hands accepted connections to a channel.

use crate::addr::SocketAddr;
use crate::handle::{HandleError, HandleState, ShutdownPlan};
use vstd::prelude::*;

verus! {

/// Capacity of the channel for accepted connections.
pub const TCP_CHANNEL_CAPACITY: usize = 128;

/// How long an accepted connection waits for room in the channel (ms).
pub const SEND_TIMEOUT_MS: u64 = 300;

/// An accepted connection, and where it is to lead if that is known.
pub struct StreamRequest<S> {
    pub stream: S,
    pub dst_addr: Option<SocketAddr>,
}

/// What goes through the channel for accepted connections.
pub enum StreamMessage<S> {
    /// A connection has been accepted.
    Request(StreamRequest<S>),
    /// The receiver is to end.
    Quit,
}

/// What became of a message sent to the receiver.
#[derive(Clone, Copy, Debug, PartialEq, Eq, Structural)]
pub enum SendOutcome {
    Sent,
    /// There was no room in time; the message is dropped.
    TimedOut,
    /// The receiver is gone.
    Closed,
}

/// A TCP listener with the two ends of its channel.
pub struct TcpServer<S, R> {
    addr: SocketAddr,
    tcp_sender: S,
    tcp_receiver: Option<R>,
    state: HandleState,
}

impl<S, R> TcpServer<S, R> {
    pub closed spec fn spec_addr(self) -> SocketAddr {
        self.addr
    }

    pub closed spec fn sender(self) -> S {
        self.tcp_sender
    }

    pub closed spec fn receiver(self) -> Option<R> {
        self.tcp_receiver
    }

    pub closed spec fn state(self) -> HandleState {
        self.state
    }

    /// The server is the same but for its state and its receiver.
    pub open spec fn same_server(self, other: TcpServer<S, R>) -> bool {
        self.spec_addr() == other.spec_addr() && self.sender() == other.sender()
    }

    /// A server that listens on `addr`, with the ends of its channel.
    pub fn bind_and_start(addr: SocketAddr, tcp_sender: S, tcp_receiver: R) -> (r: TcpServer<S, R>)
        ensures
            r.spec_addr() == addr,
            r.sender() == tcp_sender,
            r.receiver() == Some(tcp_receiver),
            r.state() == HandleState::started(),
    {
        TcpServer { addr, tcp_sender, tcp_receiver: Some(tcp_receiver), state: HandleState::new() }
    }

    /// The message for a connection that has just been accepted: the connection itself while
    /// connections are wanted, and none while they are dropped. Once the server has been told to
    /// end, the receiver is told to quit, and the listener ends.
    pub fn accepted<T>(&self, stream: T) -> (r: Option<StreamMessage<T>>)
        ensures
            r == (if self.state().terminated {
                Some(StreamMessage::Quit)
            } else if self.state().active {
                Some(StreamMessage::Request(StreamRequest { stream, dst_addr: None }))
            } else {
                None
            }),
    {
        if self.state.terminated {
            Some(StreamMessage::Quit)
        } else if self.state.active {
            Some(StreamMessage::Request(StreamRequest { stream, dst_addr: None }))
        } else {
            None
        }
    }

    /// Whether the listener goes on after an attempt to hand a connection over.
    pub fn keeps_listening(outcome: SendOutcome) -> (r: bool)
        ensures
            r == (outcome != SendOutcome::Closed),
    {
        match outcome {
            SendOutcome::Sent => true,
            SendOutcome::TimedOut => true,
            SendOutcome::Closed => false,
        }
    }

    /// Tells the server to end, and what to wait for.
    pub fn shutdown(&mut self) -> (r: ShutdownPlan)
        ensures
            final(self).same_server(*old(self)),
            final(self).receiver() == old(self).receiver(),
            (final(self).state(), r) == old(self).state().shut(),
    {
        self.state.shutdown()
    }

    /// Takes note that the listener has ended.
    pub fn completed(&mut self)
        ensures
            final(self).same_server(*old(self)),
            final(self).receiver() == old(self).receiver(),
            final(self).state() == (HandleState { completed: true, ..old(self).state() }),
    {
        self.state.completed = true;
    }

    /// The address on which the server listens.
    pub fn addr(&self) -> (r: SocketAddr)
        ensures
            r == self.spec_addr(),
    {
        self.addr
    }

    /// Takes the receiver of accepted connections, and has connections accepted.
    pub fn take_receiver(&mut self) -> (r: Result<R, HandleError>)
        ensures
            final(self).same_server(*old(self)),
            r == (match old(self).receiver() {
                Some(receiver) => Ok::<R, HandleError>(receiver),
                None => Err::<R, HandleError>(HandleError::ReceiverTaken),
            }),
            final(self).receiver() is None,
            final(self).state() == (HandleState { active: true, ..old(self).state() }),
    {
        self.state.active = true;
        match self.tcp_receiver.take() {
            Some(receiver) => Ok(receiver),
            None => Err(HandleError::ReceiverTaken),
        }
    }

    /// Puts the receiver back, and has connections dropped.
    pub fn put_receiver(&mut self, tcp_receiver: R)
        ensures
            final(self).same_server(*old(self)),
            final(self).receiver() == Some(tcp_receiver),
            final(self).state() == (HandleState { active: false, ..old(self).state() }),
    {
        self.state.active = false;
        self.tcp_receiver = Some(tcp_receiver);
    }

    /// Takes note that one of `owners` handles is dropped; tells whether the server is to end.
    pub fn drop_handle(&mut self, owners: usize) -> (signal: bool)
        ensures
            final(self).same_server(*old(self)),
            final(self).receiver() == old(self).receiver(),
            (final(self).state(), signal) == old(self).state().dropped(owners as nat),
    {
        self.state.drop_handle(owners)
    }
}

impl<S: Clone, R> TcpServer<S, R> {
    /// A copy of the sender for accepted connections.
    pub fn clone_sender(&self) -> (r: S)
        ensures
            cloned(self.sender(), r),
    {
        self.tcp_sender.clone()
    }
}

} // verus!
