use rstun::client::{
    BindStep, Client, ClientState, StartedTunnel, TunnelTraffic, TunnelsError,
};
use rstun::config::{ClientConfig, Tunnel, TunnelConfig, TunnelMode, Upstream, UpstreamType};
use rstun::settings::{runtime_kind, RuntimeKind};
use rstun::tunnel_message::{LoginResponse, TunnelMessage};
use rstun::tunnel_task::{
    check_login_response, Serving, TaskAction, TaskEvent, TaskPhase, TaskStep, TunnelTask,
};
use rstun::{IpAddr, Ipv4Addr, SocketAddr};

fn local(port: u16) -> SocketAddr {
    SocketAddr::new(IpAddr::V4(Ipv4Addr(127, 0, 0, 1)), port)
}

fn tunnel(bind: SocketAddr, destination_port: u16) -> TunnelConfig {
    TunnelConfig {
        mode: TunnelMode::In,
        upstream: Upstream {
            upstream_addr: Some(bind),
            upstream_type: UpstreamType::Tcp,
        },
        local_server_addr: local(destination_port),
    }
}

fn client_with(tunnels: Vec<TunnelConfig>) -> Client {
    Client::new(ClientConfig {
        password: "integration-secret".to_string(),
        quic_timeout_ms: 3_000,
        tcp_timeout_ms: 3_000,
        udp_timeout_ms: 4_000,
        wait_before_retry_ms: 5_000,
        workers: 1,
        tunnels,
        ..ClientConfig::default()
    })
}

fn indices(started: &[StartedTunnel]) -> Vec<usize> {
    started.iter().map(|s| s.index).collect()
}

#[test]
fn reconciles_add_update_remove_and_rejects_invalid_updates() {
    let first_bind = local(4001);
    let second_bind = local(4002);
    let initial = tunnel(first_bind, 9);
    let updated = tunnel(first_bind, 10);
    let added = tunnel(second_bind, 11);

    let mut client = client_with(vec![initial]);
    let plan = client.connect_and_serve_async().unwrap();
    assert_eq!(indices(&plan.started), [0]);
    assert_eq!(plan.migrate_every_ms, None);
    assert_eq!(client.index_of(initial), Some(0));

    let mut update = client.update_tunnels(vec![updated]).unwrap();
    assert_eq!(update.waiting_for(), [0]);
    assert_eq!(client.index_of(initial), None);
    assert!(client.start_updated(&update).is_none());
    assert_eq!(client.index_of(updated), None);
    update.ended(0);
    let started = client.start_updated(&update).unwrap();
    assert_eq!(indices(&started), [1]);
    assert_eq!(client.get_config().tunnels, [updated]);
    assert_eq!(client.index_of(updated), Some(1));

    let update = client.update_tunnels(vec![updated, added]).unwrap();
    assert!(update.waiting_for().is_empty());
    let started = client.start_updated(&update).unwrap();
    assert_eq!(indices(&started), [2]);
    assert_eq!(client.index_of(updated), Some(1));
    assert_eq!(client.index_of(added), Some(2));

    let conflicting = tunnel(second_bind, 12);
    assert_eq!(
        client
            .update_tunnels(vec![updated, added, conflicting])
            .err(),
        Some(TunnelsError::PortClaimedTwice(UpstreamType::Tcp, 4002))
    );
    assert_eq!(client.index_of(updated), Some(1));
    assert_eq!(client.index_of(added), Some(2));
    assert_eq!(client.get_config().tunnels, [updated, added]);

    let mut update = client.update_tunnels(vec![added]).unwrap();
    assert_eq!(update.waiting_for(), [1]);
    update.ended(1);
    assert!(client.start_updated(&update).unwrap().is_empty());
    assert_eq!(client.index_of(updated), None);
    assert_eq!(client.index_of(added), Some(2));

    assert_eq!(client.stop_async(), [2]);
    assert_eq!(client.index_of(added), None);
    assert!(client.should_quit());
}

#[test]
fn an_update_waits_for_all_removed_tunnels() {
    let t = tunnel(local(1), 2);
    let u = tunnel(local(3), 4);
    let v = tunnel(local(1), 6);
    let mut client = client_with(vec![t, u]);
    client.connect_and_serve_async().unwrap();
    let mut update = client.update_tunnels(vec![v]).unwrap();
    let mut removed = update.waiting_for();
    removed.sort();
    assert_eq!(removed, [0, 1]);
    assert!(client.start_updated(&update).is_none());
    update.ended(1);
    assert_eq!(update.waiting_for(), [0]);
    assert!(client.start_updated(&update).is_none());
    update.ended(0);
    assert_eq!(indices(&client.start_updated(&update).unwrap()), [2]);
    assert_eq!(client.index_of(v), Some(2));
}

#[test]
fn invalid_tunnels_are_refused() {
    let t = tunnel(local(1), 2);
    let mut udp = t;
    udp.upstream.upstream_type = UpstreamType::Udp;
    let mut unbound = t;
    unbound.upstream.upstream_addr = None;
    assert_eq!(Client::validate_tunnels(&[t, udp]), Ok(()));
    assert_eq!(Client::validate_tunnels(&[]), Ok(()));
    assert_eq!(
        Client::validate_tunnels(&[t, udp, t]),
        Err(TunnelsError::DuplicateTunnel)
    );
    assert_eq!(
        Client::validate_tunnels(&[unbound]),
        Err(TunnelsError::NoBindAddress)
    );
    assert_eq!(
        Client::validate_tunnels(&[tunnel(local(0), 2)]),
        Err(TunnelsError::ZeroPort)
    );
    assert_eq!(
        Client::validate_tunnels(&[t, tunnel(local(1), 3)]),
        Err(TunnelsError::PortClaimedTwice(UpstreamType::Tcp, 1))
    );
    let mut client = client_with(vec![t, t]);
    assert!(client.connect_and_serve_async().is_err());
    assert_eq!(client.index_of(t), None);
}

#[test]
fn migration_is_started_where_it_is_asked_for() {
    let mut config = client_with(vec![]).get_config();
    config.hop_interval_ms = 30000;
    let plan = Client::new(config).connect_and_serve_async().unwrap();
    assert_eq!(plan.migrate_every_ms, Some(30000));
    assert!(plan.started.is_empty());
}

#[test]
fn stopping_names_all_that_is_open() {
    let t = tunnel(local(1), 2);
    let mut client = client_with(vec![t]);
    client.connect_and_serve_async().unwrap();
    client.start_tcp_server(local(7), 0, Some(70));
    client.start_udp_server(local(8), 0, Some(80));
    client.start_udp_server(local(8), 0, Some(81));
    client.endpoint_opened();
    client.connection_opened(t, 90);
    assert!(client.has_endpoint());
    let plan = client.stop();
    assert_eq!(plan.cancelled, [0]);
    assert_eq!(plan.closed.tcp_servers, [70]);
    assert_eq!(plan.closed.udp_servers, [81]);
    assert_eq!(plan.closed.connections, [90]);
    assert!(plan.closed.endpoint);
    assert_eq!(client.get_state(), ClientState::Stopping);
    let again = client.stop();
    assert!(again.cancelled.is_empty());
    assert!(again.closed.connections.is_empty());
    assert!(!again.closed.endpoint);
    client.stopped();
    assert_eq!(client.get_state(), ClientState::Terminated);
    assert!(client.should_quit());
}

#[test]
fn a_stopped_client_has_nothing_left_to_stop() {
    let t = tunnel(local(1), 2);
    let mut client = client_with(vec![t]);
    client.connect_and_serve_async().unwrap();
    client.start_tcp_server(local(7), 0, Some(70));
    client.endpoint_opened();
    assert_eq!(client.stop_async(), [0]);
    assert_eq!(client.get_state(), ClientState::Stopping);
    assert_eq!(client.close_all().tcp_servers, [70]);
    client.stopped();
    assert_eq!(client.get_state(), ClientState::Terminated);

    assert!(client.stop_async().is_empty());
    let closed = client.close_all();
    assert!(closed.tcp_servers.is_empty());
    assert!(closed.udp_servers.is_empty());
    assert!(closed.connections.is_empty());
    assert!(!closed.endpoint);
    client.stopped();
    assert_eq!(client.get_state(), ClientState::Terminated);
}

#[test]
fn tunnels_started_again_take_the_places_of_those_running() {
    let t = tunnel(local(1), 2);
    let u = tunnel(local(3), 4);
    let mut client = client_with(vec![t, u]);
    assert_eq!(client.spawn_network_tunnel(u), 0);
    let plan = client.connect_and_serve_async().unwrap();
    assert_eq!(indices(&plan.started), [1, 2]);
    assert_eq!(plan.replaced, [0]);
    assert_eq!(client.index_of(t), Some(1));
    assert_eq!(client.index_of(u), Some(2));
    assert_eq!(client.spawn_network_tunnel(t), 3);
    assert_eq!(client.index_of(t), Some(3));
}

#[test]
fn traffic_adds_up() {
    let stats = |n| TunnelTraffic {
        rx_bytes: n,
        tx_bytes: 2 * n,
        rx_dgrams: 3 * n,
        tx_dgrams: 4 * n,
    };
    let mut client = client_with(vec![]);
    assert_eq!(client.traffic(&[]), TunnelTraffic::default());
    client.add_traffic(stats(5));
    assert_eq!(client.traffic(&[stats(1), stats(10)]), stats(16));
}

#[test]
fn states_are_named() {
    let names = [
        (ClientState::Idle, "Idle"),
        (ClientState::Connecting, "Connecting"),
        (ClientState::Connected, "Connected"),
        (ClientState::LoggingIn, "LoggingIn"),
        (ClientState::Tunneling, "Tunneling"),
        (ClientState::Stopping, "Stopping"),
        (ClientState::Terminated, "Terminated"),
    ];
    for (state, name) in names {
        assert_eq!(state.to_string(), name);
    }
    let mut client = client_with(vec![]);
    assert_eq!(client.get_state(), ClientState::Idle);
    assert_eq!(client.start_tunneling(), RuntimeKind::CurrentThread);
    assert_eq!(runtime_kind(3), RuntimeKind::MultiThread(3));
}

#[test]
fn a_tunnel_connects_serves_and_connects_again() {
    let t = tunnel(local(1), 2);
    let mut client = client_with(vec![t]);
    let mut task = TunnelTask::new(Tunnel::NetworkBased(t));
    let step = |action| TaskStep {
        close_removed: false,
        action,
    };
    assert_eq!(
        task.connect_and_serve(&mut client, TaskEvent::Started, false),
        step(TaskAction::Connect { retry_after_ms: 5_000 })
    );
    assert_eq!(client.connection_of(t), None);
    assert_eq!(
        task.connect_and_serve(&mut client, TaskEvent::ConnectEnded(Some(44)), false),
        step(TaskAction::Serve {
            connection: 44,
            serving: Serving::AcceptTcp(local(2)),
            timeout_ms: 3000
        })
    );
    assert_eq!(client.connection_of(t), Some(44));
    assert_eq!(client.get_state(), ClientState::Tunneling);
    let stats = TunnelTraffic {
        rx_bytes: 9,
        ..TunnelTraffic::default()
    };
    assert_eq!(
        task.connect_and_serve(&mut client, TaskEvent::ServeEnded(stats), false),
        step(TaskAction::Connect { retry_after_ms: 5_000 })
    );
    assert_eq!(client.connection_of(t), None);
    assert_eq!(client.traffic(&[]), stats);
    assert_eq!(
        task.connect_and_serve(&mut client, TaskEvent::ConnectEnded(None), false),
        step(TaskAction::Quit)
    );
    assert_eq!(task.phase, TaskPhase::Finished);
}

#[test]
fn a_cancelled_tunnel_ends() {
    let t = tunnel(local(1), 2);
    let mut client = client_with(vec![t]);
    let mut task = TunnelTask::new(Tunnel::NetworkBased(t));
    task.connect_and_serve(&mut client, TaskEvent::Started, false);
    task.connect_and_serve(&mut client, TaskEvent::ConnectEnded(Some(1)), false);
    assert_eq!(
        task.connect_and_serve(&mut client, TaskEvent::Cancelled, true),
        TaskStep {
            close_removed: true,
            action: TaskAction::Quit
        }
    );
    assert_eq!(client.connection_of(t), None);
    assert_eq!(client.traffic(&[]), TunnelTraffic::default());

    let mut task = TunnelTask::new(Tunnel::NetworkBased(t));
    task.connect_and_serve(&mut client, TaskEvent::Started, false);
    let step = task.connect_and_serve(&mut client, TaskEvent::Cancelled, false);
    assert_eq!(step.action, TaskAction::Quit);

    client.set_and_post_tunnel_state(ClientState::Stopping);
    let mut task = TunnelTask::new(Tunnel::NetworkBased(t));
    let step = task.connect_and_serve(&mut client, TaskEvent::Started, false);
    assert_eq!(step.action, TaskAction::Quit);
}

#[test]
fn channel_based_tunnels_are_not_recorded() {
    let mut client = client_with(vec![]);
    let mut task = client.connect_and_serve_udp_async();
    task.connect_and_serve(&mut client, TaskEvent::Started, false);
    let step = task.connect_and_serve(&mut client, TaskEvent::ConnectEnded(Some(3)), false);
    assert_eq!(
        step.action,
        TaskAction::Serve {
            connection: 3,
            serving: Serving::ChannelUdp,
            timeout_ms: 4000
        }
    );
    assert!(client.close_all().connections.is_empty());
    assert_eq!(
        client.connect_and_serve_tcp_async().tunnel,
        Tunnel::ChannelBased(UpstreamType::Tcp)
    );
}

#[test]
fn login_responses_are_checked() {
    let client = client_with(vec![]);
    let request = client.login_request(
        "home-gateway".to_string(),
        Tunnel::NetworkBased(tunnel(local(8080), 3000)),
    );
    assert_eq!(request.password, "integration-secret");
    assert_eq!(request.client_id, "home-gateway");
    let remote = SocketAddr::new(IpAddr::V4(Ipv4Addr(1, 2, 3, 4)), 6060);
    let accepted = TunnelMessage::LoginResponse(LoginResponse::Accepted {
        replaced_previous: true,
    });
    assert_eq!(check_login_response(12, &request, &remote, &accepted), Ok(()));
    let rejected = TunnelMessage::send_rejection("busy".to_string());
    assert_eq!(
        check_login_response(12, &request, &remote, &rejected),
        Err(format!(
            "12:{} failed to login: busy",
            request.format_with_remote_addr(&remote)
        ))
    );
    assert_eq!(
        check_login_response(0, &request, &remote, &TunnelMessage::Login(request.clone())),
        Err("server sent a login request instead of a response".to_string())
    );
}

#[test]
fn info_goes_to_the_listener() {
    let mut client = client_with(vec![]);
    assert!(!client.has_tunnel_info_listener());
    assert_eq!(client.info_listener(), None);
    assert_eq!(client.report_listener(), None);
    client.set_on_info_listener(3);
    assert!(client.has_tunnel_info_listener());
    assert_eq!(client.info_listener(), Some(3));
    assert_eq!(client.report_listener(), Some(3));
    client.set_enable_on_info_report(false);
    assert!(client.has_tunnel_info_listener());
    assert_eq!(client.info_listener(), Some(3));
    assert_eq!(client.report_listener(), None);
    client.set_enable_on_info_report(true);
    client.set_on_info_listener(4);
    assert_eq!(client.report_listener(), Some(4));
}

#[test]
fn binding_is_tried_again_with_growing_delays() {
    let mut client = client_with(vec![]);
    let delays = [1, 2, 4, 8, 10, 10, 10, 10, 10, 10];
    for (attempt, delay) in delays.into_iter().enumerate() {
        assert_eq!(
            client.start_tcp_server(local(7), attempt, None),
            BindStep::RetryAfter(delay)
        );
    }
    assert_eq!(client.start_udp_server(local(7), 10, None), BindStep::GiveUp);
    assert_eq!(
        client.start_udp_server(local(7), 10, Some(70)),
        BindStep::Started
    );
    let closed = client.close_all();
    assert!(closed.tcp_servers.is_empty());
    assert_eq!(closed.udp_servers, [70]);
}
