use rstun::handle::{HandleError, ShutdownPlan, Wait};
use rstun::tcp_server::{SendOutcome, StreamMessage, StreamRequest, TcpServer};
use rstun::tcp_tunnel::{Destination, ServeAction, ServeEvent, TcpTunnel};
use rstun::udp_server::{UdpMessage, UdpPacket, UdpServer};
use rstun::{IpAddr, Ipv4Addr, SocketAddr};

fn local(port: u16) -> SocketAddr {
    SocketAddr::new(IpAddr::V4(Ipv4Addr(127, 0, 0, 1)), port)
}

fn tcp_server() -> TcpServer<u8, &'static str> {
    TcpServer::bind_and_start(local(80), 7, "receiver")
}

fn udp_server() -> UdpServer<u8, &'static str> {
    UdpServer::bind_and_start(local(53), 8, "receiver")
}

#[test]
fn taking_tcp_receiver_twice_returns_error() {
    let mut server = tcp_server();
    let receiver = server.take_receiver().unwrap();
    assert!(server.take_receiver().is_err());
    server.put_receiver(receiver);
    assert_eq!(server.take_receiver(), Ok("receiver"));
}

#[test]
fn taking_udp_receiver_twice_returns_error() {
    let mut server = udp_server();
    let receiver = server.take_receiver().unwrap();
    assert_eq!(server.take_receiver(), Err(HandleError::ReceiverTaken));
    server.put_receiver(receiver);
    assert_eq!(server.take_receiver(), Ok("receiver"));
}

#[test]
fn one_caller_of_shutdown_waits_for_the_tasks() {
    let mut server = tcp_server();
    assert_eq!(
        server.shutdown(),
        ShutdownPlan {
            signal: true,
            wait: Wait::Tasks
        }
    );
    assert_eq!(
        server.shutdown(),
        ShutdownPlan {
            signal: false,
            wait: Wait::Completion
        }
    );
    server.completed();
    assert_eq!(server.shutdown().wait, Wait::Nothing);

    let mut server = udp_server();
    assert!(server.shutdown().signal);
    server.completed();
    assert_eq!(
        server.shutdown(),
        ShutdownPlan {
            signal: false,
            wait: Wait::Nothing
        }
    );
}

#[test]
fn the_last_handle_ends_the_server() {
    let mut server = tcp_server();
    assert!(!server.drop_handle(2));
    assert!(server.accepted(5).is_none());
    assert!(server.drop_handle(1));
    assert!(matches!(server.accepted(5), Some(StreamMessage::Quit)));
    assert!(!server.drop_handle(1));
    let mut server = udp_server();
    server.shutdown();
    assert!(!server.drop_handle(1));
}

#[test]
fn connections_are_taken_while_the_receiver_is() {
    let mut server = tcp_server();
    assert_eq!(server.addr(), local(80));
    assert_eq!(server.clone_sender(), 7);
    assert!(server.accepted(5).is_none());
    let receiver = server.take_receiver().unwrap();
    assert!(matches!(
        server.accepted(5),
        Some(StreamMessage::Request(StreamRequest {
            stream: 5,
            dst_addr: None
        }))
    ));
    server.put_receiver(receiver);
    assert!(server.accepted(5).is_none());
    assert!(TcpServer::<u8, u8>::keeps_listening(SendOutcome::Sent));
    assert!(TcpServer::<u8, u8>::keeps_listening(SendOutcome::TimedOut));
    assert!(!TcpServer::<u8, u8>::keeps_listening(SendOutcome::Closed));
}

#[test]
fn packets_are_taken_while_the_server_is_active() {
    let mut server = udp_server();
    assert_eq!((server.addr(), server.clone_sender()), (local(53), 8));
    assert!(server.received(vec![1], local(9)).is_none());
    server.set_active(true);
    match server.received(vec![1, 2], local(9)) {
        Some(UdpMessage::Packet(packet)) => {
            assert_eq!(packet.payload, [1, 2]);
            assert_eq!(packet.local_addr, local(9));
            assert_eq!(packet.peer_addr, None);
        }
        _ => panic!("the server is active"),
    }
    let packet = UdpPacket {
        payload: vec![3],
        local_addr: local(9),
        peer_addr: None,
    };
    let next = UdpServer::<u8, u8>::next_to_send(Some(UdpMessage::Packet(packet)));
    assert_eq!(next.unwrap().payload, [3]);
    assert!(UdpServer::<u8, u8>::next_to_send(Some(UdpMessage::Quit)).is_none());
    assert!(UdpServer::<u8, u8>::next_to_send(None).is_none());
}

fn request(stream: u32) -> StreamRequest<u32> {
    StreamRequest {
        stream,
        dst_addr: Some(local(5)),
    }
}

#[test]
fn connections_flow_through_streams() {
    let (mut serving, action) = TcpTunnel::start_serving::<u32>(None);
    assert!(matches!(action, ServeAction::Receive));
    let received = ServeEvent::Received(Some(StreamMessage::Request(request(1))));
    assert!(matches!(serving.step(received), ServeAction::Open));
    assert!(matches!(
        serving.step(ServeEvent::Opened(true)),
        ServeAction::Address(Some(addr)) if addr == local(5)
    ));
    assert!(matches!(
        serving.step(ServeEvent::Addressed(true)),
        ServeAction::Flow(StreamRequest { stream: 1, .. })
    ));
    assert!(matches!(
        serving.step(ServeEvent::Received(Some(StreamMessage::Quit))),
        ServeAction::Quit
    ));
    assert!(serving.pending_request().is_none());
}

#[test]
fn a_connection_without_a_stream_is_kept() {
    let (mut serving, _) = TcpTunnel::start_serving::<u32>(None);
    serving.step(ServeEvent::Received(Some(StreamMessage::Request(request(2)))));
    serving.step(ServeEvent::Opened(true));
    assert!(matches!(
        serving.step(ServeEvent::Addressed(false)),
        ServeAction::Open
    ));
    assert!(matches!(
        serving.step(ServeEvent::Opened(false)),
        ServeAction::Quit
    ));
    let pending = serving.pending_request();
    let (mut serving, action) = TcpTunnel::start_serving(pending);
    assert!(matches!(action, ServeAction::Open));
    serving.step(ServeEvent::Opened(true));
    assert!(matches!(
        serving.step(ServeEvent::Addressed(true)),
        ServeAction::Flow(StreamRequest { stream: 2, .. })
    ));
    assert!(matches!(
        serving.step(ServeEvent::Received(None)),
        ServeAction::Quit
    ));
}

#[test]
fn streams_lead_to_the_upstream() {
    assert_eq!(
        TcpTunnel::start_accepting(Some(local(1))),
        Destination::Connect(local(1))
    );
    assert_eq!(TcpTunnel::start_accepting(None), Destination::Read);
    assert_eq!(
        TcpTunnel::destination_read(Some(local(2))),
        Destination::Connect(local(2))
    );
    assert_eq!(TcpTunnel::destination_read(None), Destination::Nowhere);
}
