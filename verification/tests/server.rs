use rstun::config::{
    CipherSuite, ServerConfig, Tunnel, TunnelConfig, TunnelMode, Upstream, UpstreamType,
};
use rstun::server::{
    CertSource, Login, LoginAction, LoginEvent, LoginPhase, Server, ServerError, Session,
    TcpTunnelInInfo, TunnelType, UdpTunnelInInfo,
};
use rstun::tunnel_message::{LoginRequest, LoginResponse, TunnelMessage};
use rstun::tunnel_task::check_login_response;
use rstun::{IpAddr, Ipv4Addr, SocketAddr};

fn v4(a: u8, port: u16) -> SocketAddr {
    SocketAddr::new(IpAddr::V4(Ipv4Addr(a, 0, 0, if a == 0 { 0 } else { 1 })), port)
}

fn new_server() -> Server {
    Server::new(ServerConfig {
        addr: "127.0.0.1:0".to_string(),
        password: "integration-secret".to_string(),
        quic_timeout_ms: 3_000,
        tcp_timeout_ms: 1_000,
        udp_timeout_ms: 2_000,
        ..ServerConfig::default()
    })
}

fn request(password: &str, upstream_addr: Option<SocketAddr>, udp: bool) -> LoginEvent {
    LoginEvent::Received(TunnelMessage::Login(LoginRequest {
        password: password.to_string(),
        client_id: "home".to_string(),
        tunnel: Tunnel::NetworkBased(TunnelConfig {
            mode: TunnelMode::In,
            local_server_addr: v4(127, 9),
            upstream: Upstream {
                upstream_addr,
                upstream_type: if udp {
                    UpstreamType::Udp
                } else {
                    UpstreamType::Tcp
                },
            },
        }),
    }))
}

fn log_in(server: &mut Server, conn: usize, addr: SocketAddr, udp: bool) {
    let mut login = Login::new(conn);
    let action = login.authenticate_connection(
        server,
        request("integration-secret", Some(addr), udp),
    );
    assert!(matches!(action, LoginAction::Bind { preempted: false, .. }));
    login.authenticate_connection(server, LoginEvent::Bound(true));
    login.authenticate_connection(server, LoginEvent::Responded(true));
    assert_eq!(login.phase(), LoginPhase::Serving);
}

#[test]
fn a_client_logs_in() {
    let mut server = new_server();
    let addr = v4(0, 8080);
    let mut login = Login::new(5);
    match login.authenticate_connection(
        &mut server,
        request("integration-secret", Some(addr), true),
    ) {
        LoginAction::Bind {
            addr: bound,
            upstream_type,
            closed,
            preempted,
        } => {
            assert_eq!((bound, upstream_type), (addr, UpstreamType::Udp));
            assert!(closed.is_empty() && !preempted);
        }
        _ => panic!("the address is free"),
    }
    assert!(matches!(
        login.authenticate_connection(&mut server, LoginEvent::Bound(true)),
        LoginAction::Respond(TunnelMessage::LoginResponse(LoginResponse::Accepted {
            replaced_previous: false
        }))
    ));
    assert!(server.connections().is_empty());
    assert!(matches!(
        login.authenticate_connection(&mut server, LoginEvent::Responded(true)),
        LoginAction::Serve {
            tunnel: TunnelType::UdpIn(UdpTunnelInInfo { bound_port, conn: 5 }),
            timeout_ms: 2000
        } if bound_port == addr
    ));
    assert_eq!(server.connections(), [5]);
}

#[test]
fn live_duplicate_is_rejected_without_disrupting_owner() {
    let mut server = new_server();
    let addr = v4(127, 8080);
    log_in(&mut server, 1, addr, false);

    let mut competitor = Login::new(2);
    assert!(matches!(
        competitor.authenticate_connection(
            &mut server,
            request("integration-secret", Some(addr), false)
        ),
        LoginAction::Probe(1)
    ));
    match competitor.authenticate_connection(&mut server, LoginEvent::Probed(true)) {
        LoginAction::Drop(e) => assert_eq!(e, ServerError::StillAlive(addr)),
        _ => panic!("the owner is alive"),
    }
    assert_eq!(competitor.phase(), LoginPhase::Refused);
    assert_eq!(server.connections(), [1]);
}

#[test]
fn dead_owners_are_replaced() {
    let mut server = new_server();
    let addr = v4(127, 8080);
    log_in(&mut server, 1, addr, false);
    log_in(&mut server, 3, v4(127, 9090), false);

    let mut login = Login::new(2);
    login.authenticate_connection(&mut server, request("integration-secret", Some(addr), false));
    match login.authenticate_connection(&mut server, LoginEvent::Probed(false)) {
        LoginAction::Bind {
            closed, preempted, ..
        } => assert_eq!((closed, preempted), (vec![1], true)),
        _ => panic!("the owner is dead"),
    }
    assert_eq!(server.connections(), [3]);
    assert!(matches!(
        login.authenticate_connection(&mut server, LoginEvent::Bound(true)),
        LoginAction::Respond(TunnelMessage::LoginResponse(LoginResponse::Accepted {
            replaced_previous: true
        }))
    ));
    assert!(matches!(
        login.authenticate_connection(&mut server, LoginEvent::Responded(true)),
        LoginAction::Serve {
            tunnel: TunnelType::TcpIn(TcpTunnelInInfo { conn: 2, .. }),
            timeout_ms: 1000
        }
    ));
    assert_eq!(server.connections(), [3, 2]);
}

#[test]
fn a_udp_owner_is_asked_before_a_tcp_owner() {
    let mut server = new_server();
    let addr = v4(127, 53);
    let mut udp = Login::new(1);
    udp.authenticate_connection(&mut server, request("integration-secret", Some(addr), true));
    log_in(&mut server, 2, addr, false);
    udp.authenticate_connection(&mut server, LoginEvent::Bound(true));
    udp.authenticate_connection(&mut server, LoginEvent::Responded(true));
    assert_eq!(server.connections(), [2, 1]);

    let mut login = Login::new(3);
    assert!(matches!(
        login.authenticate_connection(
            &mut server,
            request("integration-secret", Some(addr), true)
        ),
        LoginAction::Probe(1)
    ));
    assert!(matches!(
        login.authenticate_connection(&mut server, LoginEvent::Probed(false)),
        LoginAction::Probe(2)
    ));
    assert_eq!(server.connections(), [2, 1]);
    match login.authenticate_connection(&mut server, LoginEvent::Probed(false)) {
        LoginAction::Bind {
            closed, preempted, ..
        } => assert_eq!((closed, preempted), (vec![2, 1], true)),
        _ => panic!("both owners are dead"),
    }
    assert!(server.connections().is_empty());
}

#[test]
fn a_live_owner_keeps_its_port_when_another_is_dead() {
    let mut server = new_server();
    let addr = v4(127, 53);
    let mut udp = Login::new(1);
    udp.authenticate_connection(&mut server, request("integration-secret", Some(addr), true));
    log_in(&mut server, 2, addr, false);
    udp.authenticate_connection(&mut server, LoginEvent::Bound(true));
    udp.authenticate_connection(&mut server, LoginEvent::Responded(true));

    let mut login = Login::new(3);
    login.authenticate_connection(&mut server, request("integration-secret", Some(addr), false));
    login.authenticate_connection(&mut server, LoginEvent::Probed(false));
    match login.authenticate_connection(&mut server, LoginEvent::Probed(true)) {
        LoginAction::Drop(e) => assert_eq!(e, ServerError::StillAlive(addr)),
        _ => panic!("the TCP owner is alive"),
    }
    assert_eq!(server.connections(), [2, 1]);
}

#[test]
fn a_newcomer_is_asked_before_it_is_replaced() {
    let mut server = new_server();
    let addr = v4(127, 8080);
    log_in(&mut server, 1, addr, false);
    let mut first = Login::new(2);
    let mut second = Login::new(3);
    for login in [&mut first, &mut second] {
        assert!(matches!(
            login.authenticate_connection(
                &mut server,
                request("integration-secret", Some(addr), false)
            ),
            LoginAction::Probe(1)
        ));
    }
    first.authenticate_connection(&mut server, LoginEvent::Probed(false));
    first.authenticate_connection(&mut server, LoginEvent::Bound(true));
    first.authenticate_connection(&mut server, LoginEvent::Responded(true));
    assert_eq!(server.connections(), [2]);
    assert!(matches!(
        second.authenticate_connection(&mut server, LoginEvent::Probed(false)),
        LoginAction::Probe(2)
    ));
    second.authenticate_connection(&mut server, LoginEvent::Probed(true));
    assert_eq!(second.phase(), LoginPhase::Refused);
    assert_eq!(server.connections(), [2]);
}

fn refusal(event: LoginEvent) -> ServerError {
    let mut server = new_server();
    let mut login = Login::new(1);
    match login.authenticate_connection(&mut server, event) {
        LoginAction::Drop(e) => {
            assert_eq!(login.phase(), LoginPhase::Refused);
            assert!(server.connections().is_empty());
            e
        }
        _ => panic!("the request is to be refused"),
    }
}

#[test]
fn invalid_requests_are_refused() {
    assert_eq!(
        refusal(request("wrong", Some(v4(127, 1)), false)),
        ServerError::PasswordMismatch
    );
    assert_eq!(
        refusal(request("integration-secret", None, false)),
        ServerError::NoBindAddress
    );
    assert_eq!(
        refusal(request("integration-secret", Some(v4(10, 1)), false)),
        ServerError::AddressNotAllowed(v4(10, 1))
    );
    assert_eq!(
        refusal(LoginEvent::Received(TunnelMessage::send_rejection(
            "no".to_string()
        ))),
        ServerError::UnexpectedMessage
    );
    assert_eq!(
        refusal(LoginEvent::Received(TunnelMessage::Login(LoginRequest {
            password: "integration-secret".to_string(),
            client_id: "home".to_string(),
            tunnel: Tunnel::ChannelBased(UpstreamType::Tcp),
        }))),
        ServerError::ChannelBasedTunnel
    );
    assert_eq!(
        Server::check_password("a", "b"),
        Err(ServerError::PasswordMismatch)
    );
    assert_eq!(Server::check_password("a", "a"), Ok(()));
}

#[test]
fn failures_to_bind_are_reported() {
    let mut server = new_server();
    let mut login = Login::new(1);
    let addr = v4(127, 80);
    login.authenticate_connection(&mut server, request("integration-secret", Some(addr), false));
    match login.authenticate_connection(&mut server, LoginEvent::Bound(false)) {
        LoginAction::Reject { response, error } => {
            assert_eq!(error, ServerError::BindFailed(addr));
            assert_eq!(
                response.to_string(),
                "rejected: udp server failed to bind at: 127.0.0.1:80"
            );
        }
        _ => panic!("the address is taken"),
    }
    let mut login = Login::new(1);
    login.authenticate_connection(&mut server, request("integration-secret", Some(addr), false));
    login.authenticate_connection(&mut server, LoginEvent::Bound(true));
    assert!(matches!(
        login.authenticate_connection(&mut server, LoginEvent::Responded(false)),
        LoginAction::Drop(ServerError::ResponseNotSent)
    ));
    assert!(server.connections().is_empty());
}

#[test]
fn expired_sessions_are_cleared() {
    let mut server = new_server();
    log_in(&mut server, 1, v4(127, 1), false);
    log_in(&mut server, 2, v4(127, 2), true);
    log_in(&mut server, 3, v4(127, 3), false);
    let expired = server.clear_expired_sessions(&[2, 3, 9]);
    assert_eq!(
        expired.tcp,
        [Session {
            bound_port: v4(127, 3),
            conn: 3
        }]
    );
    assert_eq!(
        expired.udp,
        [Session {
            bound_port: v4(127, 2),
            conn: 2
        }]
    );
    assert_eq!(server.connections(), [1]);
}

#[test]
fn the_endpoint_is_bound_and_served_once() {
    let mut server = new_server();
    assert_eq!(server.bind_addr(), Ok(v4(127, 0)));
    assert_eq!(server.serve(), Err(ServerError::NothingToServe));
    assert_eq!(server.bind(None), Err(ServerError::EndpointNotBound));
    assert_eq!(server.bind(Some(v4(127, 7777))), Ok(v4(127, 7777)));
    assert_eq!(server.serve(), Ok(()));
    assert_eq!(server.serve(), Err(ServerError::NothingToServe));
    let mut config = server.get_config();
    config.addr = "nowhere".to_string();
    assert_eq!(
        Server::new(config).bind_addr(),
        Err(ServerError::InvalidAddress)
    );
}

#[test]
fn certificates_come_from_files_or_are_made_up() {
    let plan = new_server().load_quinn_server_config();
    assert!(matches!(plan.certificate, CertSource::SelfSigned(name) if name == "localhost"));
    assert_eq!(
        plan.cipher_suites,
        [
            CipherSuite::Aes128Gcm,
            CipherSuite::Chacha20Poly1305,
            CipherSuite::Aes256Gcm
        ]
    );
    assert_eq!(plan.transport.keep_alive_interval_ms, Some(2000));
    assert!(matches!(
        Server::read_certs_and_key("c.pem", "k.pem"),
        CertSource::Files { cert_path, key_path } if cert_path == "c.pem" && key_path == "k.pem"
    ));
}

#[test]
fn answers_reach_the_client() {
    let mut server = new_server();
    let addr = v4(127, 80);
    let remote = v4(127, 6060);
    let asked = match request("integration-secret", Some(addr), false) {
        LoginEvent::Received(TunnelMessage::Login(asked)) => asked,
        _ => unreachable!(),
    };
    for bound in [true, false] {
        let mut login = Login::new(1);
        login.authenticate_connection(
            &mut server,
            LoginEvent::Received(TunnelMessage::Login(asked.clone())),
        );
        let response = match login.authenticate_connection(&mut server, LoginEvent::Bound(bound)) {
            LoginAction::Respond(response) => response,
            LoginAction::Reject { response, .. } => response,
            _ => panic!("no answer"),
        };
        let result = check_login_response(2, &asked, &remote, &response);
        if bound {
            assert_eq!(result, Ok(()));
        } else {
            assert_eq!(
                result,
                Err(format!(
                    "2:{} failed to login: udp server failed to bind at: 127.0.0.1:80",
                    asked.format_with_remote_addr(&remote)
                ))
            );
        }
    }
}
