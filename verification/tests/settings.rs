use rstun::client::{Client, TunnelsError};
use rstun::config::{ClientConfig, ConfigError, UpstreamType};
use rstun::settings::{
    parse_toml_tunnels, parse_tunnel_addr, tunnel_mappings, ClientArgs, ClientFile,
    ClientSettings, LogLevel, ServerArgs, ServerFile, ServerSettings, TomlTunnel,
};
use rstun::tunnel_info_bridge::{TunnelInfo, TunnelInfoBridge, TunnelInfoType};
use rstun::watcher::{ConfigWatcher, UpdateAction, UpdateEvent, UpdateLoop, WatchStep};

fn config_with_tunnels(tunnels: &str) -> String {
    format!(
        r#"server_address = "127.0.0.1:6060"
password = "secret"
{tunnels}
"#
    )
}

fn read_tunnels(content: &str) -> Option<Option<Vec<TomlTunnel>>> {
    let table = content.parse::<toml::Table>().ok()?;
    let text = |value: &toml::Value, key: &str| value[key].as_str().unwrap().to_string();
    Some(table.get("tunnels").map(|tunnels| {
        tunnels
            .as_array()
            .unwrap()
            .iter()
            .map(|tunnel| TomlTunnel {
                name: None,
                protocol: text(tunnel, "protocol"),
                bind: text(tunnel, "bind"),
                destination: text(tunnel, "destination"),
            })
            .collect()
    }))
}

fn toml_tunnel(protocol: &str, bind: &str, destination: &str) -> TomlTunnel {
    TomlTunnel {
        name: Some("web".to_string()),
        protocol: protocol.to_string(),
        bind: bind.to_string(),
        destination: destination.to_string(),
    }
}

#[test]
fn parses_toml_tunnels_with_canonical_direction() {
    let content = config_with_tunnels(
        r#"[[tunnels]]
protocol = "tcp"
bind = "0.0.0.0:9000"
destination = "127.0.0.1:8080""#,
    );
    let tunnels = parse_toml_tunnels(&read_tunnels(&content).unwrap()).unwrap();
    assert_eq!(tunnels.len(), 1);
    assert_eq!(
        tunnels[0].upstream.upstream_addr.unwrap().to_string(),
        "0.0.0.0:9000"
    );
    assert_eq!(tunnels[0].local_server_addr.to_string(), "127.0.0.1:8080");
}

#[test]
fn watcher_ignores_invalid_content_and_emits_next_valid_update() {
    let initial = config_with_tunnels("");
    let mut watcher = ConfigWatcher::new(initial.clone());
    assert_eq!(watcher.poll(Ok(initial)), WatchStep::Wait);

    let invalid = "not valid toml = [".to_string();
    assert_eq!(watcher.poll(Ok(invalid.clone())), WatchStep::Parse);
    assert!(ConfigWatcher::update(&read_tunnels(&invalid)).is_none());
    assert_eq!(watcher.poll(Ok(invalid)), WatchStep::Wait);

    let valid = config_with_tunnels(
        r#"[[tunnels]]
protocol = "udp"
bind = "127.0.0.1:9100"
destination = "127.0.0.1:8100""#,
    );
    assert_eq!(watcher.poll(Ok(valid.clone())), WatchStep::Parse);
    let update = ConfigWatcher::update(&read_tunnels(&valid)).unwrap();
    assert_eq!(update.len(), 1);
    assert_eq!(update[0].upstream.upstream_type, UpstreamType::Udp);
}

#[test]
fn the_watcher_warns_once() {
    let mut watcher = ConfigWatcher::new("a".to_string());
    assert_eq!(watcher.poll(Err("gone".to_string())), WatchStep::Warn);
    assert_eq!(watcher.poll(Err("gone".to_string())), WatchStep::Wait);
    assert_eq!(watcher.poll(Err("locked".to_string())), WatchStep::Warn);
    assert_eq!(watcher.poll(Ok("a".to_string())), WatchStep::Wait);
    assert_eq!(watcher.poll(Err("locked".to_string())), WatchStep::Warn);
    assert_eq!(watcher.poll(Ok("b".to_string())), WatchStep::Parse);
}

#[test]
fn invalid_tunnels_are_not_taken_on() {
    let parse = |tunnels| parse_toml_tunnels(&Some(tunnels));
    assert_eq!(
        parse(vec![toml_tunnel("sctp", "1", "2")]),
        Err(ConfigError::InvalidProtocol)
    );
    assert_eq!(
        parse(vec![toml_tunnel("TCP", "x", "2")]),
        Err(ConfigError::InvalidAddress)
    );
    assert_eq!(
        parse(vec![
            toml_tunnel("Udp", "1", "2"),
            toml_tunnel("tcp", "1", "host:2"),
            toml_tunnel("none", "1", "2"),
        ]),
        Err(ConfigError::InvalidAddress)
    );
    assert_eq!(parse_toml_tunnels(&None), Ok(vec![]));
    assert_eq!(
        parse_tunnel_addr("80").unwrap().to_string(),
        "127.0.0.1:80"
    );
    assert!(ConfigWatcher::update(&Some(Some(vec![toml_tunnel("x", "1", "2")]))).is_none());
}

#[test]
fn file_tunnels_survive_being_written_as_mappings() {
    let tunnels = parse_toml_tunnels(&Some(vec![
        toml_tunnel("tcp", "127.0.0.1:8080", "9000"),
        toml_tunnel("udp", "[::]:53", "[fe80::1%2]:5353"),
        toml_tunnel("tcp", "81", "[::1]:82"),
    ]))
    .unwrap();
    let tcp = tunnel_mappings(&tunnels, UpstreamType::Tcp);
    let udp = tunnel_mappings(&tunnels, UpstreamType::Udp);
    assert_eq!(
        tcp,
        "127.0.0.1:8080^127.0.0.1:9000,127.0.0.1:81^[::1]:82"
    );
    assert_eq!(udp, "[::]:53^[fe80::1%2]:5353");
    let config = ClientConfig::create(
        "6060", "pw", "", "", &tcp, &udp, "", "", 1, 0, 0, 0, 0, 0, 1,
    )
    .unwrap();
    assert_eq!(config.tunnels, [tunnels[0], tunnels[2], tunnels[1]]);
}

fn client_args() -> ClientArgs {
    ClientArgs {
        server_addr: String::new(),
        password: String::new(),
        tcp_mappings: String::new(),
        udp_mappings: String::new(),
        cert: String::new(),
        cipher: None,
        workers: None,
        wait_before_retry_ms: None,
        quic_timeout_ms: None,
        tcp_timeout_ms: None,
        udp_timeout_ms: None,
        hop_interval_ms: None,
        dot: String::new(),
        dns: String::new(),
        loglevel: None,
    }
}

fn client_file() -> ClientFile {
    ClientFile {
        server_address: Some("1.2.3.4:6060".to_string()),
        password: Some("secret".to_string()),
        workers: None,
        log_level: None,
        retry_interval_ms: None,
        connection_migration_interval_ms: None,
        cert: None,
        cipher: None,
        dns_servers: None,
        dot_servers: None,
        quic_idle_ms: None,
        tcp_idle_ms: None,
        udp_idle_ms: None,
        tunnels: Some(vec![toml_tunnel("tcp", "1", "2")]),
    }
}

#[test]
fn client_settings_have_defaults() {
    let settings = ClientSettings::resolve(&client_args(), &client_file()).unwrap();
    assert_eq!(settings.server_addr, "1.2.3.4:6060");
    assert_eq!(settings.password, "secret");
    assert_eq!(settings.cipher, "chacha20-poly1305");
    assert_eq!(settings.tcp_mappings, "127.0.0.1:1^127.0.0.1:2");
    assert_eq!(settings.udp_mappings, "");
    assert_eq!(
        (
            settings.workers,
            settings.wait_before_retry_ms,
            settings.quic_timeout_ms,
            settings.tcp_timeout_ms,
            settings.udp_timeout_ms,
            settings.hop_interval_ms
        ),
        (0, 5000, 30000, 30000, 5000, 0)
    );
    assert_eq!(settings.loglevel, LogLevel::Info);
    assert!(settings.tunnels_from_file);
}

#[test]
fn the_command_line_overrides_the_file() {
    let mut file = client_file();
    file.workers = Some(4);
    file.log_level = Some("WARNING".to_string());
    file.quic_idle_ms = Some(1);
    file.udp_idle_ms = Some(2);
    file.cipher = Some("aes-256-gcm".to_string());
    let mut args = client_args();
    args.server_addr = "host".to_string();
    args.udp_mappings = "3^4".to_string();
    args.quic_timeout_ms = Some(30000);
    let settings = ClientSettings::resolve(&args, &file).unwrap();
    assert_eq!(settings.server_addr, "host");
    assert_eq!(settings.tcp_mappings, "");
    assert_eq!(settings.udp_mappings, "3^4");
    assert!(!settings.tunnels_from_file);
    assert_eq!(settings.workers, 4);
    assert_eq!(settings.quic_timeout_ms, 30000);
    assert_eq!(settings.udp_timeout_ms, 2);
    assert_eq!(settings.cipher, "aes-256-gcm");
    assert_eq!(settings.loglevel, LogLevel::Warn);
    args.loglevel = Some(LogLevel::Error);
    let settings = ClientSettings::resolve(&args, &file).unwrap();
    assert_eq!(
        settings.loglevel.log_filter(),
        "rstun=error,rs_utilities=error"
    );
}

#[test]
fn incomplete_client_settings_are_refused() {
    let mut file = client_file();
    file.password = None;
    assert_eq!(
        ClientSettings::resolve(&client_args(), &file).err(),
        Some(ConfigError::MissingSetting)
    );
    file.tunnels = Some(vec![toml_tunnel("x", "1", "2")]);
    assert_eq!(
        ClientSettings::resolve(&client_args(), &file).err(),
        Some(ConfigError::InvalidProtocol)
    );
}

#[test]
fn server_settings_are_put_together() {
    let mut args = ServerArgs {
        addr: String::new(),
        tcp_upstream: String::new(),
        udp_upstream: "53".to_string(),
        password: "pw".to_string(),
        cert: String::new(),
        key: String::new(),
        workers: None,
        quic_timeout_ms: None,
        tcp_timeout_ms: Some(7),
        udp_timeout_ms: None,
        loglevel: None,
    };
    let mut file = ServerFile {
        bind_address: Some("6060".to_string()),
        password: Some("other".to_string()),
        workers: None,
        log_level: Some("t".to_string()),
        cert: Some("c".to_string()),
        key: Some("k".to_string()),
        quic_idle_ms: None,
        tcp_idle_ms: Some(8),
        udp_idle_ms: Some(9),
    };
    let settings = ServerSettings::resolve(&args, &file, 12).unwrap();
    let config = &settings.config;
    assert_eq!(config.addr, "127.0.0.1:6060");
    assert_eq!(config.password, "pw");
    assert_eq!((config.cert_path.as_str(), config.key_path.as_str()), ("c", "k"));
    assert_eq!(
        (
            config.quic_timeout_ms,
            config.tcp_timeout_ms,
            config.udp_timeout_ms
        ),
        (40000, 7, 9)
    );
    assert_eq!(config.default_tcp_upstream, None);
    assert_eq!(
        config.default_udp_upstream.unwrap().to_string(),
        "127.0.0.1:53"
    );
    assert_eq!((settings.workers, settings.loglevel), (12, LogLevel::Trace));

    args.udp_upstream = "x".to_string();
    let settings = ServerSettings::resolve(&args, &file, 12).unwrap();
    assert_eq!(settings.config.default_udp_upstream, None);
    file.bind_address = None;
    assert_eq!(
        ServerSettings::resolve(&args, &file, 12).err(),
        Some(ConfigError::MissingSetting)
    );
}

#[test]
fn log_levels_are_named() {
    let names = [
        ("trace", LogLevel::Trace),
        ("D", LogLevel::Debug),
        ("Info", LogLevel::Info),
        ("warning", LogLevel::Warn),
        ("w", LogLevel::Warn),
        ("ERROR", LogLevel::Error),
        ("loud", LogLevel::Info),
    ];
    for (name, level) in names {
        assert_eq!(LogLevel::from_name(name), level, "{name}");
    }
    assert_eq!(LogLevel::Debug.to_string(), "debug");
}

#[test]
fn updates_are_followed_while_they_come() {
    let tunnels = parse_toml_tunnels(&Some(vec![toml_tunnel("tcp", "1", "2")])).unwrap();
    let mut client = Client::new(ClientConfig::default());
    let mut updates = UpdateLoop::new();
    match client.start_tunneling_with_updates(&mut updates, UpdateEvent::Update(tunnels.clone())) {
        UpdateAction::Start(started) => assert_eq!(started.len(), 1),
        _ => panic!("the tunnel is to be started"),
    }
    let twice = vec![tunnels[0], tunnels[0]];
    assert!(matches!(
        client.start_tunneling_with_updates(&mut updates, UpdateEvent::Update(twice)),
        UpdateAction::Refuse(TunnelsError::DuplicateTunnel)
    ));
    assert_eq!(client.index_of(tunnels[0]), Some(0));
    let others = parse_toml_tunnels(&Some(vec![toml_tunnel("udp", "3", "4")])).unwrap();
    match client.start_tunneling_with_updates(&mut updates, UpdateEvent::Update(others.clone())) {
        UpdateAction::Cancel(removed) => assert_eq!(removed, [0]),
        _ => panic!("the tunnel is to be cancelled first"),
    }
    assert_eq!(client.index_of(others[0]), None);
    match client.start_tunneling_with_updates(&mut updates, UpdateEvent::Ended(0)) {
        UpdateAction::Start(started) => assert_eq!(started[0].config, others[0]),
        _ => panic!("the tunnel is to be started"),
    }
    assert!(updates.updates_open());
    assert!(matches!(
        client.start_tunneling_with_updates(&mut updates, UpdateEvent::UpdatesClosed),
        UpdateAction::Wait
    ));
    assert!(!updates.updates_open());
    assert!(matches!(
        client.start_tunneling_with_updates(&mut updates, UpdateEvent::Shutdown),
        UpdateAction::Stop
    ));
    assert_eq!(client.index_of(others[0]), Some(1));
}

#[test]
fn reports_go_to_the_listener() {
    let info = TunnelInfo::new(TunnelInfoType::TunnelLog, Box::new(5));
    assert_eq!((info.info_type, *info.data), (TunnelInfoType::TunnelLog, 5));
    let mut bridge = TunnelInfoBridge::new();
    assert!(!bridge.has_listener());
    assert_eq!(bridge.post_tunnel_info(true), None);
    bridge.set_listener("listener");
    assert!(bridge.has_listener());
    assert_eq!(bridge.post_tunnel_info(true), Some(&"listener"));
    assert_eq!(bridge.post_tunnel_info(false), None);
}
