use rstun::tunnel_message::{MessageError, TunnelMessage};
use rstun::udp_accept::{
    ForwardAction, ForwardEvent, ProcessError, ReadOutcome, Route, SendStep, TrySend,
    UdpForwarding,
};
use rstun::udp_batch::UdpBatch;
use rstun::udp_server::{UdpMessage, UdpPacket};
use rstun::udp_tunnel::{
    Activity, StreamOpened, TryReceived, UdpAction, UdpEvent, UdpServing, UdpTunnel,
};
use rstun::{IpAddr, Ipv4Addr, SocketAddr};

fn local(port: u16) -> SocketAddr {
    SocketAddr::new(IpAddr::V4(Ipv4Addr(127, 0, 0, 1)), port)
}

fn packet(port: u16, payload: &[u8]) -> UdpPacket {
    UdpPacket {
        payload: payload.to_vec(),
        local_addr: local(port),
        peer_addr: None,
    }
}

fn receive(serving: &mut UdpServing, port: u16, payload: &[u8]) -> UdpAction {
    serving.step(UdpEvent::Received(Some(UdpMessage::Packet(packet(
        port, payload,
    )))))
}

fn try_receive(serving: &mut UdpServing, port: u16, payload: &[u8]) -> UdpAction {
    serving.step(UdpEvent::TryReceived(TryReceived::Message(
        UdpMessage::Packet(packet(port, payload)),
    )))
}

fn batch_of(payloads: &[&[u8]]) -> Vec<u8> {
    let mut batch = Vec::new();
    TunnelMessage::start_udp_batch(&mut batch);
    for payload in payloads {
        TunnelMessage::append_udp_packet(&mut batch, None, payload).unwrap();
    }
    TunnelMessage::finish_udp_batch(&mut batch).unwrap();
    batch
}

#[test]
fn packets_of_one_address_share_a_batch() {
    let (mut serving, action) = UdpTunnel::start_serving();
    assert!(matches!(action, UdpAction::Receive));
    assert!(matches!(
        receive(&mut serving, 1, b"a"),
        UdpAction::Open(addr) if addr == local(1)
    ));
    assert!(matches!(
        serving.step(UdpEvent::Opened(StreamOpened::Stream(10))),
        UdpAction::TryReceive
    ));
    assert_eq!(serving.stream_of(local(1)), Some(10));
    assert!(matches!(
        try_receive(&mut serving, 1, b"b"),
        UdpAction::TryReceive
    ));
    match try_receive(&mut serving, 2, b"c") {
        UdpAction::Write { stream, data } => {
            assert_eq!(stream, 10);
            assert_eq!(data, batch_of(&[b"a", b"b"]));
        }
        _ => panic!("the batch is complete"),
    }
    assert!(matches!(
        serving.step(UdpEvent::Written(true)),
        UdpAction::Open(addr) if addr == local(2)
    ));
    assert!(matches!(
        serving.step(UdpEvent::Opened(StreamOpened::Stream(20))),
        UdpAction::TryReceive
    ));
    match serving.step(UdpEvent::TryReceived(TryReceived::Message(UdpMessage::Quit))) {
        UdpAction::Write { stream, data } => {
            assert_eq!(stream, 20);
            assert_eq!(data, batch_of(&[b"c"]));
        }
        _ => panic!("the batch is complete"),
    }
    assert!(matches!(
        serving.step(UdpEvent::Written(true)),
        UdpAction::Quit
    ));
}

#[test]
fn streams_are_reused_and_forgotten() {
    let (mut serving, _) = UdpTunnel::start_serving();
    receive(&mut serving, 1, b"a");
    serving.step(UdpEvent::Opened(StreamOpened::Stream(10)));
    serving.step(UdpEvent::TryReceived(TryReceived::Empty));
    assert!(matches!(
        serving.step(UdpEvent::Written(true)),
        UdpAction::Receive
    ));
    assert!(matches!(
        receive(&mut serving, 1, b"b"),
        UdpAction::TryReceive
    ));
    serving.step(UdpEvent::TryReceived(TryReceived::Empty));
    serving.step(UdpEvent::Written(false));
    assert_eq!(serving.stream_of(local(1)), None);

    receive(&mut serving, 1, b"c");
    serving.step(UdpEvent::Opened(StreamOpened::Stream(11)));
    serving.stream_ended(local(1), 10);
    assert_eq!(serving.stream_of(local(1)), Some(11));
    serving.stream_ended(local(1), 11);
    assert_eq!(serving.stream_of(local(1)), None);
}

#[test]
fn packets_without_a_stream_are_dropped() {
    let (mut serving, _) = UdpTunnel::start_serving();
    receive(&mut serving, 1, b"a");
    assert!(matches!(
        serving.step(UdpEvent::Opened(StreamOpened::Failed)),
        UdpAction::Receive
    ));
    receive(&mut serving, 1, b"a");
    assert!(matches!(
        serving.step(UdpEvent::Opened(StreamOpened::ConnectionClosed)),
        UdpAction::Quit
    ));
    let (mut serving, _) = UdpTunnel::start_serving();
    receive(&mut serving, 1, &vec![0; 65536]);
    assert!(matches!(
        serving.step(UdpEvent::Opened(StreamOpened::Stream(1))),
        UdpAction::Receive
    ));
    receive(&mut serving, 1, b"a");
    match serving.step(UdpEvent::TryReceived(TryReceived::Disconnected)) {
        UdpAction::Write { stream, data } => {
            assert_eq!(stream, 1);
            assert_eq!(data, batch_of(&[b"a"]));
        }
        _ => panic!("the packet is still to be sent"),
    }
    assert!(matches!(
        serving.step(UdpEvent::Written(true)),
        UdpAction::Quit
    ));
    let (mut serving, _) = UdpTunnel::start_serving();
    assert!(matches!(
        serving.step(UdpEvent::Received(Some(UdpMessage::Quit))),
        UdpAction::Quit
    ));
}

#[test]
fn the_last_packet_of_a_closed_channel_is_sent() {
    let (mut serving, _) = UdpTunnel::start_serving();
    receive(&mut serving, 1001, b"x");
    serving.step(UdpEvent::Opened(StreamOpened::Stream(3)));
    match serving.step(UdpEvent::TryReceived(TryReceived::Disconnected)) {
        UdpAction::Write { stream, data } => {
            assert_eq!(stream, 3);
            assert_eq!(data, [0, 0, 0, 4, 0, 0, 1, b'x']);
        }
        _ => panic!("the packet is still to be sent"),
    }
    assert!(matches!(
        serving.step(UdpEvent::Written(false)),
        UdpAction::Quit
    ));
}

#[test]
fn batches_are_limited() {
    let mut batch = UdpBatch::new();
    for i in 0..64 {
        assert!(batch.has_room(), "{i}");
        batch.add(None, b"x").unwrap();
    }
    assert!(!batch.has_room());
    assert_eq!(batch.finish().len(), 4 + 64 * 4);
    assert!(batch.has_room());
    batch.add(None, &vec![0; 65528]).unwrap();
    assert!(batch.has_room());
    batch.add(None, &vec![0; 65535]).unwrap();
    assert!(!batch.has_room());
    let data = batch.finish();
    assert_eq!(data.len(), 4 + 65531 + 65538);
    let mut received = Vec::new();
    assert!(TunnelMessage::recv_udp_batch(data.len() as u32 - 4, &mut received).is_ok());
    assert_eq!(
        batch.add(None, &vec![0; 65536]),
        Err(MessageError::PayloadTooLarge)
    );
}

#[test]
fn the_longest_batches_to_a_named_peer_are_refused() {
    let mut batch = UdpBatch::new();
    batch.add(None, &vec![0; 65528]).unwrap();
    batch.add(Some(local(1)), &vec![0; 65535]).unwrap();
    let data = batch.finish();
    let mut received = Vec::new();
    assert_eq!(
        TunnelMessage::recv_udp_batch(data.len() as u32 - 4, &mut received),
        Err(MessageError::BatchRefused(131075))
    );
}

#[test]
fn responses_go_to_the_local_address() {
    let batch = batch_of(&[b"a", b"", b"ccc"]);
    let (packets, error) = UdpTunnel::responses(&batch[4..], local(9));
    assert_eq!(error, None);
    let payloads: Vec<&[u8]> = packets.iter().map(|p| p.payload.as_slice()).collect();
    assert_eq!(payloads, [b"a".as_slice(), b"", b"ccc"]);
    assert!(packets
        .iter()
        .all(|p| p.local_addr == local(9) && p.peer_addr.is_none()));
    let (packets, error) = UdpTunnel::responses(&batch[4..batch.len() - 1], local(9));
    assert_eq!(packets.len(), 2);
    assert_eq!(error, Some(MessageError::TruncatedFrame));
}

fn frames(packets: &[(Option<SocketAddr>, &[u8])]) -> Vec<u8> {
    let mut data = Vec::new();
    for (peer, payload) in packets {
        TunnelMessage::append_udp_packet(&mut data, *peer, payload).unwrap();
    }
    data
}

#[test]
fn packets_go_to_the_fixed_upstream() {
    let mut accepting = UdpTunnel::start_accepting(Some(local(1)));
    let (routed, error) = accepting.process(&frames(&[(None, b"a"), (Some(local(2)), b"b")]));
    assert_eq!(error, None);
    let routes: Vec<Route> = routed.iter().map(|p| p.route).collect();
    assert_eq!(routes, [Route::Send, Route::Send]);
    assert_eq!(routed[1].payload, b"b");
    assert_eq!(accepting.connected, Some(local(1)));
}

#[test]
fn packets_go_to_the_peers_they_name() {
    let mut accepting = UdpTunnel::start_accepting(None);
    let (routed, error) = accepting.process(&frames(&[
        (Some(local(1)), b"a"),
        (Some(local(1)), b"b"),
        (None, b"c"),
        (Some(local(2)), b"d"),
    ]));
    assert_eq!(error, None);
    let routes: Vec<Route> = routed.iter().map(|p| p.route).collect();
    assert_eq!(
        routes,
        [
            Route::Connect(local(1)),
            Route::Send,
            Route::Send,
            Route::Connect(local(2))
        ]
    );
    let mut accepting = UdpTunnel::start_accepting(None);
    let (routed, error) = accepting.process(&frames(&[(None, b"a")]));
    assert!(routed.is_empty());
    assert_eq!(error, Some(ProcessError::NoUpstream));
    let (routed, error) = accepting.process(&[4, 127, 0, 0, 1, 0, 1, 0, 0, 9]);
    assert_eq!(routed.len(), 1);
    assert_eq!(
        error,
        Some(ProcessError::Message(MessageError::InvalidAddressFamily(9)))
    );
}

#[test]
fn idle_streams_expire() {
    let mut activity = Activity::new(1_000_000);
    assert!(!activity.is_expired(3_999_999, 3));
    assert!(activity.is_expired(4_000_000, 3));
    assert!(!activity.is_expired(0, 1));
    assert!(UdpTunnel::keeps_reading(
        ReadOutcome::TimedOut,
        &mut activity,
        3_999_999,
        3
    ));
    assert!(!UdpTunnel::keeps_reading(
        ReadOutcome::TimedOut,
        &mut activity,
        4_000_000,
        3
    ));
    assert!(UdpTunnel::keeps_reading(
        ReadOutcome::Read,
        &mut activity,
        5_000_000,
        3
    ));
    assert_eq!(activity.last, 5_000_000);
    assert!(!UdpTunnel::keeps_reading(
        ReadOutcome::Failed,
        &mut activity,
        5_000_000,
        3
    ));
}

#[test]
fn datagrams_are_sent_whole() {
    assert_eq!(
        UdpTunnel::send_connected_udp(TrySend::Sent(5), 5),
        SendStep::Done
    );
    assert_eq!(
        UdpTunnel::send_connected_udp(TrySend::Sent(4), 5),
        SendStep::Partial(4)
    );
    assert_eq!(
        UdpTunnel::send_connected_udp(TrySend::WouldBlock, 5),
        SendStep::Wait
    );
    assert_eq!(
        UdpTunnel::send_connected_udp(TrySend::Failed, 5),
        SendStep::Failed
    );
}

#[test]
fn answers_come_back_in_batches() {
    let (mut forwarding, action) = UdpForwarding::udp_to_quic();
    assert!(matches!(action, ForwardAction::Receive));
    assert!(matches!(
        forwarding.step(ForwardEvent::TimedOut(false)),
        ForwardAction::Receive
    ));
    assert!(matches!(
        forwarding.step(ForwardEvent::Received(b"a".to_vec())),
        ForwardAction::TryReceive
    ));
    assert!(matches!(
        forwarding.step(ForwardEvent::TryReceived(Some(b"b".to_vec()))),
        ForwardAction::TryReceive
    ));
    match forwarding.step(ForwardEvent::TryReceived(None)) {
        ForwardAction::Write(data) => assert_eq!(data, batch_of(&[b"a", b"b"])),
        _ => panic!("the batch is complete"),
    }
    assert!(matches!(
        forwarding.step(ForwardEvent::Written(true)),
        ForwardAction::Receive
    ));
    match forwarding.step(ForwardEvent::Received(vec![7; 65535])) {
        ForwardAction::Write(data) => assert_eq!(data.len(), 4 + 3 + 65535),
        _ => panic!("the batch is full"),
    }
    assert!(matches!(
        forwarding.step(ForwardEvent::Written(false)),
        ForwardAction::Quit
    ));
}

#[test]
fn answers_end_with_the_socket() {
    for event in [
        ForwardEvent::Shutdown,
        ForwardEvent::ReceiveFailed,
        ForwardEvent::TimedOut(true),
    ] {
        let (mut forwarding, _) = UdpForwarding::udp_to_quic();
        assert!(matches!(forwarding.step(event), ForwardAction::Quit));
    }
}
