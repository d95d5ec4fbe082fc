use rstun::addr::{IpAddr, Ipv4Addr, Ipv6Addr, SocketAddr};
use rstun::config::{Tunnel, TunnelConfig, TunnelMode, Upstream, UpstreamType};
use rstun::tunnel_message::{
    validate_control_message_len, LoginRequest, LoginResponse, MessageError, TunnelMessage,
    MAX_CONTROL_MESSAGE_BYTES, MAX_UDP_BATCH_BYTES,
};

const IPV6_LOCALHOST: Ipv6Addr = Ipv6Addr(0, 0, 0, 0, 0, 0, 0, 1);

fn v4(a: u8, b: u8, c: u8, d: u8, port: u16) -> SocketAddr {
    SocketAddr::new(IpAddr::V4(Ipv4Addr(a, b, c, d)), port)
}

#[test]
fn compact_udp_frame_without_peer_address() {
    let mut frame = Vec::new();
    TunnelMessage::append_udp_packet(&mut frame, None, b"abc").unwrap();
    assert_eq!(frame, [0, 0, 3, b'a', b'b', b'c']);

    let mut cursor = 0;
    let (peer, payload) = TunnelMessage::decode_udp_packet(&frame, &mut cursor)
        .unwrap()
        .unwrap();
    assert_eq!(peer, None);
    assert_eq!(payload, b"abc");
    assert!(TunnelMessage::decode_udp_packet(&frame, &mut cursor)
        .unwrap()
        .is_none());
}

#[test]
fn compact_udp_frame_with_ipv4_peer_address() {
    let mut frame = Vec::new();
    let peer = v4(192, 0, 2, 1, 8080);
    TunnelMessage::append_udp_packet(&mut frame, Some(peer), b"x").unwrap();
    assert_eq!(frame, [4, 192, 0, 2, 1, 0x1f, 0x90, 0, 1, b'x']);

    let mut cursor = 0;
    let (decoded_peer, payload) = TunnelMessage::decode_udp_packet(&frame, &mut cursor)
        .unwrap()
        .unwrap();
    assert_eq!(decoded_peer, Some(peer));
    assert_eq!(payload, b"x");
}

#[test]
fn compact_udp_frame_with_ipv6_peer_address() {
    let mut frame = Vec::new();
    let peer = SocketAddr::new(IpAddr::V6(IPV6_LOCALHOST), 53);
    TunnelMessage::append_udp_packet(&mut frame, Some(peer), b"z").unwrap();
    assert_eq!(frame.len(), 22);
    assert_eq!(frame[0], 6);
    assert_eq!(
        &frame[1..17],
        &[0, 0, 0, 0, 0, 0, 0, 0, 0, 0, 0, 0, 0, 0, 0, 1]
    );
    assert_eq!(&frame[17..], &[0, 53, 0, 1, b'z']);

    let mut cursor = 0;
    let (decoded_peer, payload) = TunnelMessage::decode_udp_packet(&frame, &mut cursor)
        .unwrap()
        .unwrap();
    assert_eq!(decoded_peer, Some(peer));
    assert_eq!(payload, b"z");
    assert_eq!(cursor, 22);
}

#[test]
fn rejects_oversized_control_messages_before_allocation() {
    assert!(validate_control_message_len(MAX_CONTROL_MESSAGE_BYTES).is_ok());
    assert!(validate_control_message_len(MAX_CONTROL_MESSAGE_BYTES + 1).is_err());
}

#[test]
fn validates_client_identifiers() {
    assert!(LoginRequest::validate_client_id("home-gateway").is_ok());
    assert!(LoginRequest::validate_client_id("  ").is_err());
    assert!(LoginRequest::validate_client_id(&"x".repeat(129)).is_err());
}

#[test]
fn client_identifiers_are_measured_in_bytes() {
    assert_eq!(
        LoginRequest::validate_client_id(""),
        Err(MessageError::EmptyClientId)
    );
    assert_eq!(
        LoginRequest::validate_client_id("\t \u{2003}\n"),
        Err(MessageError::EmptyClientId)
    );
    assert!(LoginRequest::validate_client_id(&"x".repeat(128)).is_ok());
    assert!(LoginRequest::validate_client_id(&"\u{e9}".repeat(64)).is_ok());
    assert_eq!(
        LoginRequest::validate_client_id(&"\u{e9}".repeat(65)),
        Err(MessageError::ClientIdTooLong)
    );
}

#[test]
fn control_messages_are_framed() {
    assert_eq!(
        TunnelMessage::frame(&[7, 8, 9]).unwrap(),
        [0, 0, 0, 3, 7, 8, 9]
    );
    assert_eq!(TunnelMessage::recv(3), Ok(3));
    assert_eq!(
        TunnelMessage::recv(65537),
        Err(MessageError::ControlMessageTooLarge(65537))
    );
    assert_eq!(
        TunnelMessage::frame(&vec![0; 65537]),
        Err(MessageError::ControlMessageTooLarge(65537))
    );
    assert_eq!(TunnelMessage::frame(&vec![1; 65536]).unwrap().len(), 65540);
}

#[test]
fn udp_batches_carry_their_length() {
    let mut batch = vec![1, 2, 3];
    TunnelMessage::start_udp_batch(&mut batch);
    assert_eq!(batch, [0, 0, 0, 0]);
    TunnelMessage::append_udp_packet(&mut batch, None, &[5; 300]).unwrap();
    TunnelMessage::append_udp_packet(&mut batch, Some(v4(10, 0, 0, 1, 1)), b"").unwrap();
    TunnelMessage::finish_udp_batch(&mut batch).unwrap();
    assert_eq!(&batch[..7], &[0, 0, 1, 56, 0, 1, 44]);
    assert_eq!(batch.len(), 4 + 303 + 9);

    let body = &batch[4..];
    let mut cursor = 0;
    let (peer, payload) = TunnelMessage::decode_udp_packet(body, &mut cursor)
        .unwrap()
        .unwrap();
    assert_eq!((peer, payload.len()), (None, 300));
    let (peer, payload) = TunnelMessage::decode_udp_packet(body, &mut cursor)
        .unwrap()
        .unwrap();
    assert_eq!((peer, payload.len()), (Some(v4(10, 0, 0, 1, 1)), 0));
    assert_eq!(TunnelMessage::decode_udp_packet(body, &mut cursor), Ok(None));
    assert_eq!(
        TunnelMessage::finish_udp_batch(&mut [0, 0, 0]),
        Err(MessageError::MissingLengthPrefix)
    );
}

#[test]
fn long_payloads_are_not_framed() {
    let mut frame = vec![9];
    assert_eq!(
        TunnelMessage::append_udp_packet(&mut frame, None, &vec![0; 65536]),
        Err(MessageError::PayloadTooLarge)
    );
    assert_eq!(frame, [9]);
    assert!(TunnelMessage::append_udp_packet(&mut frame, None, &vec![0; 65535]).is_ok());
    assert_eq!(frame.len(), 1 + 3 + 65535);
}

#[test]
fn long_batches_are_refused() {
    let mut data = vec![7, 8];
    assert_eq!(
        TunnelMessage::recv_udp_batch(131073, &mut data),
        Err(MessageError::BatchRefused(131073))
    );
    assert_eq!(data, [7, 8]);
    assert!(TunnelMessage::recv_udp_batch(MAX_UDP_BATCH_BYTES as u32, &mut data).is_ok());
    assert_eq!(data.len(), 131072);
    assert!(TunnelMessage::recv_udp_batch(3, &mut data).is_ok());
    assert_eq!(data, [7, 8, 0]);
}

#[test]
fn broken_frames_are_refused() {
    let mut cursor = 0;
    assert_eq!(
        TunnelMessage::decode_udp_packet(&[5, 0, 0], &mut cursor),
        Err(MessageError::InvalidAddressFamily(5))
    );
    assert_eq!(cursor, 1);
    cursor = 0;
    assert_eq!(
        TunnelMessage::decode_udp_packet(&[4, 1, 2, 3], &mut cursor),
        Err(MessageError::TruncatedFrame)
    );
    cursor = 0;
    assert_eq!(
        TunnelMessage::decode_udp_packet(&[0, 0, 4, 1, 2, 3], &mut cursor),
        Err(MessageError::TruncatedFrame)
    );
    assert_eq!(cursor, 3);
    cursor = usize::MAX;
    assert_eq!(
        TunnelMessage::decode_udp_packet(&[0], &mut cursor),
        Err(MessageError::FrameLengthOverflow)
    );
}

fn tunnel(upstream_addr: Option<SocketAddr>) -> Tunnel {
    Tunnel::NetworkBased(TunnelConfig {
        mode: TunnelMode::In,
        local_server_addr: v4(127, 0, 0, 1, 3000),
        upstream: Upstream {
            upstream_addr,
            upstream_type: UpstreamType::Tcp,
        },
    })
}

fn request(tunnel: Tunnel) -> LoginRequest {
    LoginRequest {
        password: "secret".to_string(),
        client_id: "home-gateway".to_string(),
        tunnel,
    }
}

#[test]
fn login_requests_are_described() {
    let remote = v4(1, 2, 3, 4, 6060);
    assert_eq!(
        request(tunnel(Some(v4(127, 0, 0, 1, 8080)))).format_with_remote_addr(&remote),
        "TCP \u{2192}  127.0.0.1:3000 \u{2192}  1.2.3.4:6060 \u{2192}  1.2.3.4:8080"
    );
    assert_eq!(
        request(tunnel(Some(v4(0, 0, 0, 0, 8080)))).format_with_remote_addr(&remote),
        "TCP \u{2192}  127.0.0.1:3000 \u{2192}  1.2.3.4:6060 \u{2192}  0.0.0.0:8080"
    );
    assert_eq!(
        request(tunnel(None)).format_with_remote_addr(&remote),
        "TCP \u{2192}  127.0.0.1:3000 \u{2192}  1.2.3.4:6060 \u{2192}  PeerDefault"
    );
    assert_eq!(
        request(Tunnel::ChannelBased(UpstreamType::Udp)).format_with_remote_addr(&remote),
        "UDP_ChannelBased \u{2192}  1.2.3.4:6060"
    );
    assert_eq!(request(tunnel(None)).to_string(), "TCP");
    assert_eq!(
        request(Tunnel::ChannelBased(UpstreamType::Udp)).to_string(),
        "UDP_ChannelBased"
    );
}

#[test]
fn messages_are_described() {
    assert_eq!(TunnelMessage::Login(request(tunnel(None))).to_string(), "TCP");
    let accepted = |replaced_previous| {
        TunnelMessage::LoginResponse(LoginResponse::Accepted { replaced_previous })
    };
    assert_eq!(accepted(false).to_string(), "accepted");
    assert_eq!(
        accepted(true).to_string(),
        "accepted (replaced previous session)"
    );
    assert_eq!(
        TunnelMessage::send_rejection("no".to_string()).to_string(),
        "rejected: no"
    );
}

fn sent_and_received(message: &TunnelMessage) -> TunnelMessage {
    let bytes = TunnelMessage::send(message).unwrap();
    let prefix = u32::from_be_bytes([bytes[0], bytes[1], bytes[2], bytes[3]]);
    assert_eq!(TunnelMessage::recv(prefix), Ok(bytes.len() - 4));
    TunnelMessage::recv_body(&bytes[4..]).unwrap()
}

#[test]
fn login_protocol_round_trips() {
    let localhost = IpAddr::V4(Ipv4Addr(127, 0, 0, 1));
    let login_request = LoginRequest {
        password: "secret".to_string(),
        client_id: "home-gateway".to_string(),
        tunnel: Tunnel::NetworkBased(TunnelConfig {
            mode: TunnelMode::In,
            upstream: Upstream {
                upstream_addr: Some(SocketAddr::new(localhost, 8080)),
                upstream_type: UpstreamType::Tcp,
            },
            local_server_addr: SocketAddr::new(localhost, 3000),
        }),
    };
    match sent_and_received(&TunnelMessage::Login(login_request.clone())) {
        TunnelMessage::Login(request) => {
            assert_eq!(request.client_id, "home-gateway");
            assert_eq!(request.password, "secret");
            assert_eq!(request.tunnel, login_request.tunnel);
        }
        message => panic!("unexpected decoded message: {message:?}"),
    }

    let response = TunnelMessage::LoginResponse(LoginResponse::Accepted {
        replaced_previous: true,
    });
    match sent_and_received(&response) {
        TunnelMessage::LoginResponse(LoginResponse::Accepted { replaced_previous }) => {
            assert!(replaced_previous)
        }
        message => panic!("unexpected decoded message: {message:?}"),
    }
}

#[test]
fn messages_have_their_bytes() {
    let accepted = TunnelMessage::LoginResponse(LoginResponse::Accepted {
        replaced_previous: true,
    });
    assert_eq!(
        TunnelMessage::send(&accepted).unwrap(),
        [0, 0, 0, 3, 1, 0, 1]
    );
    let rejected = TunnelMessage::send_rejection("no".to_string());
    assert_eq!(
        TunnelMessage::send(&rejected).unwrap(),
        [0, 0, 0, 5, 1, 1, 2, b'n', b'o']
    );
    let login = TunnelMessage::Login(LoginRequest {
        password: "p".to_string(),
        client_id: "c".to_string(),
        tunnel: Tunnel::NetworkBased(TunnelConfig {
            mode: TunnelMode::Out,
            local_server_addr: SocketAddr::new(IpAddr::V4(Ipv4Addr(1, 2, 3, 4)), 5),
            upstream: Upstream {
                upstream_addr: None,
                upstream_type: UpstreamType::Udp,
            },
        }),
    });
    assert_eq!(
        TunnelMessage::send(&login).unwrap(),
        [0, 0, 0, 15, 0, 1, b'p', 1, b'c', 0, 1, 0, 1, 2, 3, 4, 5, 0, 1]
    );
}

#[test]
fn messages_keep_ip_and_port_of_addresses() {
    let ip = IpAddr::V6(Ipv6Addr(0x2001, 0xdb8, 3, 4, 5, 6, 7, 0x89ab));
    let mut scoped = SocketAddr::new(ip, 53);
    if let SocketAddr::V6(addr) = &mut scoped {
        addr.flowinfo = 1;
        addr.scope_id = 2;
    }
    let login = |local_server_addr| {
        TunnelMessage::Login(LoginRequest {
            password: String::new(),
            client_id: String::new(),
            tunnel: Tunnel::NetworkBased(TunnelConfig {
                mode: TunnelMode::In,
                local_server_addr,
                upstream: Upstream {
                    upstream_addr: Some(local_server_addr),
                    upstream_type: UpstreamType::Udp,
                },
            }),
        })
    };
    let plain = SocketAddr::new(ip, 53);
    for addr in [plain, scoped] {
        match sent_and_received(&login(addr)) {
            TunnelMessage::Login(LoginRequest {
                tunnel: Tunnel::NetworkBased(tunnel),
                ..
            }) => {
                assert_eq!(tunnel.local_server_addr, plain);
                assert_eq!(tunnel.upstream.upstream_addr, Some(plain));
            }
            message => panic!("unexpected decoded message: {message:?}"),
        }
    }
    let channel = TunnelMessage::Login(LoginRequest {
        password: "p".to_string(),
        client_id: "c".to_string(),
        tunnel: Tunnel::ChannelBased(UpstreamType::Udp),
    });
    assert!(matches!(
        sent_and_received(&channel),
        TunnelMessage::Login(LoginRequest {
            tunnel: Tunnel::ChannelBased(UpstreamType::Udp),
            ..
        })
    ));
}

#[test]
fn what_is_no_message_is_refused() {
    for body in [&[][..], &[2], &[1, 0, 2], &[1, 1, 3, b'n', b'o'], &[1, 1, 1, 0xff]] {
        assert_eq!(
            TunnelMessage::recv_body(body).err(),
            Some(MessageError::MalformedMessage)
        );
    }
    let long = TunnelMessage::send_rejection("x".repeat(65533));
    assert_eq!(
        TunnelMessage::send(&long),
        Err(MessageError::ControlMessageTooLarge(65538))
    );
}

#[test]
fn packets_that_were_read_are_written_as_they_were() {
    let mut data = vec![9, 9];
    data.extend_from_slice(&[4, 1, 2, 3, 4, 0, 53, 0, 2, 7, 8]);
    data.extend_from_slice(&[6, 0, 1, 2, 3, 4, 5, 6, 7, 8, 9, 10, 11, 12, 13, 14, 255]);
    data.extend_from_slice(&[255, 254, 0, 1, 5, 0, 0, 0]);
    let mut cursor = 2;
    while let Some((peer, payload)) =
        TunnelMessage::decode_udp_packet(&data, &mut cursor).unwrap()
    {
        let start = cursor - payload.len() - peer.map_or(3, |p| if p.is_ipv6() { 21 } else { 9 });
        let mut frame = Vec::new();
        TunnelMessage::append_udp_packet(&mut frame, peer, payload).unwrap();
        assert_eq!(frame, data[start..cursor]);
    }
    assert_eq!(cursor, data.len());
}
