use rstun::config::{
    parse_addr_mappings, supported_cipher_suite_strs, supported_cipher_suites, CipherSuite,
    ClientConfig, ConfigError, SelectedCipherSuite, ServerConfig, TunnelConfig, TunnelMode,
    Upstream, UpstreamType, TUNNEL_MODE_IN, TUNNEL_MODE_OUT,
};
use rstun::connect::{
    check_certificates, is_ip_addr, lookup_server_ip, transport_settings, ConnectError, Lookup,
    Resolution, ServerTarget, TransportSettings, Trust,
};
use rstun::{IpAddr, Ipv4Addr, SocketAddr};

fn v4(a: u8, b: u8, c: u8, d: u8, port: u16) -> SocketAddr {
    SocketAddr::new(IpAddr::V4(Ipv4Addr(a, b, c, d)), port)
}

fn mappings(text: &str) -> Result<Vec<TunnelConfig>, ConfigError> {
    let mut tunnels = Vec::new();
    parse_addr_mappings(text, UpstreamType::Tcp, &mut tunnels).map(|()| tunnels)
}

fn tunnel(
    mode: TunnelMode,
    local_server_addr: SocketAddr,
    upstream_addr: Option<SocketAddr>,
    upstream_type: UpstreamType,
) -> TunnelConfig {
    TunnelConfig {
        mode,
        local_server_addr,
        upstream: Upstream {
            upstream_addr,
            upstream_type,
        },
    }
}

fn create(server_addr: &str, tcp: &str, udp: &str) -> Result<ClientConfig, ConfigError> {
    ClientConfig::create(
        server_addr, "pw", "", "aes-128-gcm", tcp, udp, "", "", 0, 5000, 0, 0, 0, 0, 6,
    )
}

#[test]
fn mappings_are_bind_and_destination() {
    assert_eq!(
        mappings("127.0.0.1:8080^9000").unwrap(),
        [tunnel(
            TunnelMode::In,
            v4(127, 0, 0, 1, 9000),
            Some(v4(127, 0, 0, 1, 8080)),
            UpstreamType::Tcp
        )]
    );
    assert_eq!(
        mappings("0.0.0.0:1^2,3^4.5.6.7:8").unwrap(),
        [
            tunnel(
                TunnelMode::In,
                v4(127, 0, 0, 1, 2),
                Some(v4(0, 0, 0, 0, 1)),
                UpstreamType::Tcp
            ),
            tunnel(
                TunnelMode::In,
                v4(4, 5, 6, 7, 8),
                Some(v4(127, 0, 0, 1, 3)),
                UpstreamType::Tcp
            ),
        ]
    );
    assert_eq!(mappings("").unwrap(), []);
}

#[test]
fn mappings_may_name_their_direction() {
    assert_eq!(
        mappings("OUT^8000^ANY,IN^9000^1.2.3.4:80").unwrap(),
        [
            tunnel(TunnelMode::Out, v4(127, 0, 0, 1, 8000), None, UpstreamType::Tcp),
            tunnel(
                TunnelMode::In,
                v4(127, 0, 0, 1, 9000),
                Some(v4(1, 2, 3, 4, 80)),
                UpstreamType::Tcp
            ),
        ]
    );
    assert_eq!((TUNNEL_MODE_IN, TUNNEL_MODE_OUT), ("IN", "OUT"));
    assert_eq!(TunnelMode::In.to_string(), "IN");
    assert_eq!(TunnelMode::Out.to_string(), "OUT");
}

#[test]
fn invalid_mappings_are_refused() {
    assert_eq!(mappings("1"), Err(ConfigError::InvalidMappingFormat));
    assert_eq!(mappings("1^2^3^4"), Err(ConfigError::InvalidMappingFormat));
    assert_eq!(mappings("UP^1^2"), Err(ConfigError::InvalidTunnelType));
    assert_eq!(mappings("OUT^ANY^2"), Err(ConfigError::AnyAsLocalAddress));
    assert_eq!(mappings("IN^1^ANY"), Err(ConfigError::AnyForInboundTunnel));
    assert_eq!(mappings("1^any"), Err(ConfigError::InvalidAddress));
    assert_eq!(mappings("1^65536"), Err(ConfigError::InvalidAddress));
    let mut tunnels = Vec::new();
    assert_eq!(
        parse_addr_mappings("1^2,x", UpstreamType::Udp, &mut tunnels),
        Err(ConfigError::InvalidMappingFormat)
    );
    assert_eq!(tunnels.len(), 1);
}

#[test]
fn client_configurations_have_defaults() {
    let config = create("6060", "1^2", "3^4").unwrap();
    assert_eq!(config.server_addr, "127.0.0.1:6060");
    assert_eq!(config.quic_timeout_ms, 30000);
    assert_eq!(config.tcp_timeout_ms, 30000);
    assert_eq!(config.udp_timeout_ms, 5000);
    assert_eq!(config.hop_interval_ms, 0);
    assert_eq!(config.workers, 6);
    assert_eq!(config.wait_before_retry_ms, 5000);
    assert_eq!(config.tunnels.len(), 2);
    assert_eq!(config.tunnels[1].upstream.upstream_type, UpstreamType::Udp);
    assert!(config.dot_servers.is_empty());
    assert!(config.dns_servers.is_empty());
    assert_eq!(create("1.2.3.4:5", "1^2", "").unwrap().server_addr, "1.2.3.4:5");
    assert_eq!(create("example.org", "1^2", "").unwrap().server_addr, "example.org");
    assert_eq!(create("6060", "", "").unwrap_err(), ConfigError::NoMappings);
    assert_eq!(
        create("6060", "", "x").unwrap_err(),
        ConfigError::InvalidMappingFormat
    );
}

#[test]
fn servers_that_are_not_named_are_not_listed() {
    let config = ClientConfig::create(
        "127.0.0.1:6060",
        "pw",
        "",
        "aes-128-gcm",
        "OUT^8080^ANY",
        "",
        "",
        "1.1.1.1,8.8.8.8",
        1,
        5000,
        0,
        0,
        0,
        0,
        4,
    )
    .unwrap();
    assert!(config.dot_servers.is_empty());
    assert_eq!(config.dns_servers, ["1.1.1.1", "8.8.8.8"]);
}

#[test]
fn client_configurations_keep_what_is_given() {
    let config = ClientConfig::create(
        "host:1", "pw", "cert", "c", "1^2", "", "a,b", "1.1.1.1", 3, 7, 8, 9, 10, 4999, 6,
    )
    .unwrap();
    assert_eq!(config.cert_path, "cert");
    assert_eq!(config.cipher, "c");
    assert_eq!(config.password, "pw");
    assert_eq!(config.dot_servers, ["a", "b"]);
    assert_eq!(config.dns_servers, ["1.1.1.1"]);
    assert_eq!(
        (
            config.workers,
            config.wait_before_retry_ms,
            config.quic_timeout_ms,
            config.tcp_timeout_ms,
            config.udp_timeout_ms,
            config.hop_interval_ms
        ),
        (3, 7, 8, 9, 10, 5000)
    );
    let copy = config.clone();
    assert_eq!(copy.dns_servers, config.dns_servers);
    assert_eq!(copy.tunnels, config.tunnels);
    assert_eq!(ClientConfig::default().workers, 0);
    assert_eq!(ServerConfig::default().clone().addr, "");
}

#[test]
fn cipher_suites_are_selected_by_name() {
    for (name, suite) in supported_cipher_suite_strs()
        .into_iter()
        .zip(supported_cipher_suites())
    {
        assert_eq!(SelectedCipherSuite::from_str(name).unwrap().deref(), suite);
    }
    assert_eq!(
        supported_cipher_suite_strs(),
        ["aes-128-gcm", "chacha20-poly1305", "aes-256-gcm"]
    );
    assert_eq!(
        SelectedCipherSuite::from_str("rot13").unwrap().deref(),
        CipherSuite::Chacha20Poly1305
    );
}

#[test]
fn upstreams_are_described() {
    let upstream = |upstream_addr| Upstream {
        upstream_addr,
        upstream_type: UpstreamType::Udp,
    };
    assert_eq!(upstream(None).to_string(), "PeerDefault");
    assert_eq!(upstream(Some(v4(1, 2, 3, 4, 5))).to_string(), "1.2.3.4:5");
    assert_eq!(UpstreamType::Udp.to_string(), "UDP");
    assert_eq!(UpstreamType::Tcp.to_string(), "TCP");
}

#[test]
fn transports_are_kept_alive() {
    assert_eq!(
        transport_settings(30000),
        TransportSettings {
            stream_receive_window: 16777216,
            receive_window: 67108864,
            send_window: 67108864,
            max_concurrent_bidi_streams: 4096,
            max_idle_timeout_ms: Some(30000),
            keep_alive_interval_ms: Some(20000),
        }
    );
    let without = transport_settings(0);
    assert_eq!(without.max_idle_timeout_ms, None);
    assert_eq!(without.keep_alive_interval_ms, None);
    assert_eq!(
        transport_settings(4294967296 + 5).max_idle_timeout_ms,
        Some(5)
    );
}

fn config_for(server_addr: &str, cert: &str, cipher: &str) -> ClientConfig {
    ClientConfig {
        server_addr: server_addr.to_string(),
        cert_path: cert.to_string(),
        cipher: cipher.to_string(),
        ..ClientConfig::default()
    }
}

#[test]
fn servers_are_trusted_as_configured() {
    let plan = config_for("example.org:6060", "", "aes-256-gcm").parse_client_config_and_domain();
    assert!(matches!(plan.trust, Trust::Platform));
    assert_eq!(plan.domain, "example.org");
    assert_eq!(
        plan.cipher_suites,
        [CipherSuite::Aes256Gcm, CipherSuite::Aes128Gcm]
    );
    let plan = config_for("1.2.3.4:6060", "", "").parse_client_config_and_domain();
    assert!(matches!(plan.trust, Trust::Anyone));
    assert_eq!(plan.domain, "localhost");
    let plan = config_for("1.2.3.4:6060", "a.pem", "").parse_client_config_and_domain();
    assert!(matches!(plan.trust, Trust::File(path) if path == "a.pem"));
    assert_eq!(plan.domain, "1.2.3.4");
    assert_eq!(check_certificates(0), Err(ConnectError::NoCertificates));
    assert_eq!(check_certificates(1), Ok(()));
    assert!(is_ip_addr("[::1]:5"));
    assert!(!is_ip_addr("::1"));
}

#[test]
fn server_addresses_are_looked_up_in_order() {
    let mut config = config_for("example.org", "", "");
    config.dot_servers = vec!["".to_string(), "dns.example".to_string()];
    config.dns_servers = vec!["9.9.9.9".to_string()];
    match config.parse_server_addr().unwrap() {
        ServerTarget::Name {
            domain,
            port,
            lookups,
        } => {
            assert_eq!((domain.as_str(), port), ("example.org", 3515));
            assert_eq!(lookups.len(), 3);
            assert!(matches!(&lookups[0], Lookup::Dot(server) if server == "dns.example"));
            assert!(matches!(&lookups[1], Lookup::NameServers(s) if s == &["9.9.9.9"]));
            assert!(matches!(&lookups[2], Lookup::System));

            let ip = IpAddr::V4(Ipv4Addr(5, 6, 7, 8));
            assert_eq!(lookup_server_ip(port, &lookups, &[]), Resolution::Ask(0));
            assert_eq!(
                lookup_server_ip(port, &lookups, &[None]),
                Resolution::Ask(1)
            );
            assert_eq!(
                lookup_server_ip(port, &lookups, &[None, Some(ip)]),
                Resolution::Found(v4(5, 6, 7, 8, 3515))
            );
            assert_eq!(
                lookup_server_ip(port, &lookups, &[None, None, None]),
                Resolution::Failed
            );
        }
        ServerTarget::Address(_) => panic!("a name is no address"),
    }
}

#[test]
fn server_addresses_may_name_a_port() {
    match config_for("example.org:99", "", "").parse_server_addr().unwrap() {
        ServerTarget::Name {
            domain,
            port,
            lookups,
        } => {
            assert_eq!((domain.as_str(), port), ("example.org", 99));
            assert!(matches!(lookups.as_slice(), [Lookup::System, Lookup::System]));
        }
        ServerTarget::Address(_) => panic!("a name is no address"),
    }
    assert!(matches!(
        config_for("1.2.3.4:99", "", "").parse_server_addr(),
        Ok(ServerTarget::Address(addr)) if addr == v4(1, 2, 3, 4, 99)
    ));
    assert!(matches!(
        config_for("example.org:x", "", "").parse_server_addr(),
        Err(ConnectError::InvalidAddress)
    ));
}
