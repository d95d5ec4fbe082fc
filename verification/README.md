# rstun

Building blocks of a TCP/UDP tunnel over QUIC, verified with Verus, and the two programs made of
them: `rstunc`, the client, and `rstund`, the server.

- `src/` is the library. It holds the configuration formats, the wire format of the tunnel, and the
  decisions that the client and the server take, each with a contract. Nothing in it performs I/O.
- `app/` opens sockets and QUIC connections, tells the library what happened, and carries out what
  it decides.
- `tests/` runs the library on concrete values.

A tunnel is inbound: the server listens on a *bind* address, and the client forwards what arrives
there to a *destination*. A client runs any number of tunnels at once. Its configuration file is
followed while it runs: tunnels that disappear from the file end, new ones start, and those that
stay are not disturbed. A file with an invalid set of tunnels is ignored.

Where the modules stand:

| module | what it is about |
| --- | --- |
| `text`, `number` | text and numbers in text |
| `addr`, `addr_parse`, `addr_text`, `addr_round_trip` | addresses, read and written |
| `config`, `settings`, `mapping_round_trip` | configuration, command lines and files |
| `tunnel_message`, `wire`, `compression` | what goes over the wire |
| `client`, `tunnel_task`, `connect`, `watcher` | the client |
| `server` | the server |
| `handle`, `tcp_server`, `udp_server` | local servers |
| `tcp_tunnel` | TCP connections through streams |
| `udp_batch`, `udp_tunnel`, `udp_accept` | UDP packets through streams |
| `tunnel_info_bridge` | reports to a listener |
| `hash_tables` | tables of the `ahash` crate |
