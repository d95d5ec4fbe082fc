//! Building blocks of a TCP/UDP tunnel over QUIC: configuration, the tunnel wire
//! format, and the decisions that the client and the server take.
//!
//! Nothing here performs I/O. A runtime opens the sockets and the QUIC connections,
//! hands what happened to this crate as plain values, and carries out the actions
//! that come back.

pub mod addr;
pub mod addr_parse;
pub mod addr_round_trip;
pub mod addr_text;
pub mod client;
pub mod client_laws;
pub mod compression;
pub mod config;
pub mod config_laws;
pub mod connect;
pub mod handle;
pub mod hash_tables;
pub mod local_laws;
pub mod login_laws;
pub mod mapping_round_trip;
pub mod message_laws;
pub mod number;
pub mod number_laws;
pub mod server;
pub mod settings;
pub mod settings_laws;
pub mod task_laws;
pub mod tcp_server;
pub mod tcp_tunnel;
pub mod text;
pub mod text_laws;
pub mod tunnel_info_bridge;
pub mod tunnel_message;
pub mod tunnel_task;
pub mod udp_accept;
pub mod udp_batch;
pub mod udp_laws;
pub mod udp_server;
pub mod udp_tunnel;
pub mod watcher;
pub mod wire;

pub use addr::{socket_addr_with_unspecified_ip_port, IpAddr, Ipv4Addr, Ipv6Addr, SocketAddr};
pub use client::{Client, ClientState};
pub use config::{
    ClientConfig, ServerConfig, Tunnel, TunnelConfig, TunnelMode, Upstream, UpstreamType,
    TUNNEL_MODE_IN, TUNNEL_MODE_OUT, UDP_PACKET_SIZE,
};
pub use server::Server;
pub use tcp_server::{StreamMessage, StreamRequest, TcpServer};
pub use udp_server::{UdpMessage, UdpPacket, UdpServer};
