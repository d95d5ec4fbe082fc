//! The client: which tunnels run, and what is known of its servers and connections.

use crate::addr::SocketAddr;
use crate::config::{clone_tunnels, ClientConfig, ClientConfigView, TunnelConfig, UpstreamType};
use crate::hash_tables::{
    addr_key, addr_map, addr_map_drain, addr_map_insert, are_values, key_of_addr, key_of_tunnel,
    key_of_type, lemma_tunnel_key_injective, lookup, new_addr_map, new_port_set, new_tunnel_map,
    new_tunnel_set, port_set, port_set_insert, tunnel_key, tunnel_map, tunnel_map_drain,
    tunnel_map_get, tunnel_map_insert, tunnel_map_keys, tunnel_map_remove, tunnel_set,
    tunnel_set_contains, tunnel_set_insert, type_key, AddrKey, TunnelKey,
};
use crate::settings::{runtime_kind, RuntimeKind};
use crate::tunnel_info_bridge::TunnelInfoBridge;
use ahash::AHashMap;
use vstd::prelude::*;

verus! {

/// High-level client state reported during the lifecycle of a tunnel.
#[derive(Clone, Copy, Debug, PartialEq, Eq, Structural)]
pub enum ClientState {
    Idle,
    Connecting,
    Connected,
    LoggingIn,
    Tunneling,
    Stopping,
    Terminated,
}

impl ClientState {
    pub open spec fn text(self) -> Seq<char> {
        match self {
            ClientState::Idle => "Idle"@,
            ClientState::Connecting => "Connecting"@,
            ClientState::Connected => "Connected"@,
            ClientState::LoggingIn => "LoggingIn"@,
            ClientState::Tunneling => "Tunneling"@,
            ClientState::Stopping => "Stopping"@,
            ClientState::Terminated => "Terminated"@,
        }
    }

    /// The name of the state.
    pub fn to_string(&self) -> (r: String)
        ensures
            r@ == self.text(),
    {
        match *self {
            ClientState::Idle => "Idle".to_owned(),
            ClientState::Connecting => "Connecting".to_owned(),
            ClientState::Connected => "Connected".to_owned(),
            ClientState::LoggingIn => "LoggingIn".to_owned(),
            ClientState::Tunneling => "Tunneling".to_owned(),
            ClientState::Stopping => "Stopping".to_owned(),
            ClientState::Terminated => "Terminated".to_owned(),
        }
    }

    /// On the way out, or out.
    pub open spec fn ending(self) -> bool {
        self == ClientState::Stopping || self == ClientState::Terminated
    }
}

/// Traffic counters.
#[derive(Clone, Copy, Debug, PartialEq, Eq, Structural)]
pub struct TunnelTraffic {
    pub rx_bytes: u64,
    pub tx_bytes: u64,
    pub rx_dgrams: u64,
    pub tx_dgrams: u64,
}

impl Default for TunnelTraffic {
    /// No traffic.
    fn default() -> (r: TunnelTraffic)
        ensures
            r == (TunnelTraffic { rx_bytes: 0, tx_bytes: 0, rx_dgrams: 0, tx_dgrams: 0 }),
    {
        TunnelTraffic { rx_bytes: 0, tx_bytes: 0, rx_dgrams: 0, tx_dgrams: 0 }
    }
}

impl TunnelTraffic {
    /// Whether the two can be added without overflow.
    pub open spec fn addable(self, other: TunnelTraffic) -> bool {
        &&& self.rx_bytes + other.rx_bytes <= u64::MAX
        &&& self.tx_bytes + other.tx_bytes <= u64::MAX
        &&& self.rx_dgrams + other.rx_dgrams <= u64::MAX
        &&& self.tx_dgrams + other.tx_dgrams <= u64::MAX
    }

    /// The sum of both.
    pub open spec fn plus(self, other: TunnelTraffic) -> TunnelTraffic {
        TunnelTraffic {
            rx_bytes: (self.rx_bytes + other.rx_bytes) as u64,
            tx_bytes: (self.tx_bytes + other.tx_bytes) as u64,
            rx_dgrams: (self.rx_dgrams + other.rx_dgrams) as u64,
            tx_dgrams: (self.tx_dgrams + other.tx_dgrams) as u64,
        }
    }

    /// Whether all of `all` can be added without overflow, one after another.
    pub open spec fn all_addable(self, all: Seq<TunnelTraffic>) -> bool
        decreases all.len(),
    {
        all.len() > 0 ==> self.all_addable(all.drop_last()) && self.plus_all(
            all.drop_last(),
        ).addable(all.last())
    }

    /// The sum of this and all of `all`.
    pub open spec fn plus_all(self, all: Seq<TunnelTraffic>) -> TunnelTraffic
        decreases all.len(),
    {
        if all.len() == 0 {
            self
        } else {
            self.plus_all(all.drop_last()).plus(all.last())
        }
    }

    fn add(self, other: TunnelTraffic) -> (r: TunnelTraffic)
        requires
            self.addable(other),
        ensures
            r == self.plus(other),
    {
        TunnelTraffic {
            rx_bytes: self.rx_bytes + other.rx_bytes,
            tx_bytes: self.tx_bytes + other.tx_bytes,
            rx_dgrams: self.rx_dgrams + other.rx_dgrams,
            tx_dgrams: self.tx_dgrams + other.tx_dgrams,
        }
    }
}

/// Why a set of tunnels was refused.
#[derive(Clone, Copy, Debug, PartialEq, Eq, Structural)]
pub enum TunnelsError {
    /// The same tunnel occurs twice.
    DuplicateTunnel,
    /// A tunnel names no address for the server to bind.
    NoBindAddress,
    /// A tunnel asks the server to bind port zero.
    ZeroPort,
    /// Two tunnels of this transport claim this port of the server.
    PortClaimedTwice(UpstreamType, u16),
}

/// Whether a tunnel claims the given port of the server.
pub open spec fn claims(t: TunnelConfig, upstream_type: UpstreamType, port: u16) -> bool {
    t.upstream.upstream_type == upstream_type && t.upstream.upstream_addr is Some
        && t.upstream.upstream_addr->0.spec_port() == port
}

/// What speaks against tunnel `i`, given those before it.
pub open spec fn tunnel_error_at(ts: Seq<TunnelConfig>, i: int) -> Option<TunnelsError> {
    if exists|j: int| 0 <= j < i && #[trigger] ts[j] == ts[i] {
        Some(TunnelsError::DuplicateTunnel)
    } else {
        match ts[i].upstream.upstream_addr {
            None => Some(TunnelsError::NoBindAddress),
            Some(addr) => if addr.spec_port() == 0 {
                Some(TunnelsError::ZeroPort)
            } else if exists|j: int|
                0 <= j < i && claims(
                    #[trigger] ts[j],
                    ts[i].upstream.upstream_type,
                    addr.spec_port(),
                ) {
                Some(
                    TunnelsError::PortClaimedTwice(
                        ts[i].upstream.upstream_type,
                        addr.spec_port(),
                    ),
                )
            } else {
                None
            },
        }
    }
}

/// What speaks against the first of the tunnels against which anything does.
pub open spec fn tunnels_error(ts: Seq<TunnelConfig>) -> Option<TunnelsError>
    decreases ts.len(),
{
    if ts.len() == 0 {
        None
    } else {
        match tunnels_error(ts.drop_last()) {
            Some(e) => Some(e),
            None => tunnel_error_at(ts, ts.len() - 1),
        }
    }
}

/// Nothing speaks against any tunnel of a set against which nothing speaks.
pub proof fn lemma_no_tunnel_error(ts: Seq<TunnelConfig>, i: int)
    requires
        tunnels_error(ts) is None,
        0 <= i < ts.len(),
    ensures
        tunnel_error_at(ts, i) is None,
    decreases ts.len(),
{
    if i < ts.len() - 1 {
        let shorter = ts.drop_last();
        lemma_no_tunnel_error(shorter, i);
        assert(forall|j: int| 0 <= j <= i ==> shorter[j] == #[trigger] ts[j]);
        lemma_tunnel_error_prefix(ts, ts.len() - 1, i);
        assert(ts.take(ts.len() - 1) =~= shorter);
    }
}

proof fn lemma_tunnel_error_prefix(ts: Seq<TunnelConfig>, n: int, i: int)
    requires
        0 <= i < n <= ts.len(),
    ensures
        tunnel_error_at(ts.take(n), i) == tunnel_error_at(ts, i),
{
    let p = ts.take(n);
    assert forall|j: int| 0 <= j < n implies p[j] == #[trigger] ts[j] by {}
    if exists|j: int| 0 <= j < i && #[trigger] ts[j] == ts[i] {
        let j = choose|j: int| 0 <= j < i && #[trigger] ts[j] == ts[i];
        assert(p[j] == p[i]);
    }
    if exists|j: int| 0 <= j < i && #[trigger] p[j] == p[i] {
        let j = choose|j: int| 0 <= j < i && #[trigger] p[j] == p[i];
        assert(ts[j] == ts[i]);
    }
    if ts[i].upstream.upstream_addr is Some {
        let t = ts[i].upstream.upstream_type;
        let port = ts[i].upstream.upstream_addr->0.spec_port();
        if exists|j: int| 0 <= j < i && claims(#[trigger] ts[j], t, port) {
            let j = choose|j: int| 0 <= j < i && claims(#[trigger] ts[j], t, port);
            assert(claims(p[j], t, port));
        }
        if exists|j: int| 0 <= j < i && claims(#[trigger] p[j], t, port) {
            let j = choose|j: int| 0 <= j < i && claims(#[trigger] p[j], t, port);
            assert(claims(ts[j], t, port));
        }
    }
}

proof fn lemma_first_error_stays(ts: Seq<TunnelConfig>, n: int)
    requires
        0 <= n <= ts.len(),
        tunnels_error(ts.take(n)) is Some,
    ensures
        tunnels_error(ts) == tunnels_error(ts.take(n)),
    decreases ts.len() - n,
{
    if n < ts.len() {
        assert(ts.take(n + 1).drop_last() =~= ts.take(n));
        lemma_first_error_stays(ts, n + 1);
    } else {
        assert(ts.take(n) =~= ts);
    }
}

/// Tunnels that pass are pairwise different, name a bind address with a port, and no two of
/// one transport claim the same port.
pub proof fn accepted_tunnels_are_distinct(ts: Seq<TunnelConfig>)
    requires
        tunnels_error(ts) is None,
    ensures
        ts.no_duplicates(),
        forall|i: int|
            0 <= i < ts.len() ==> (#[trigger] ts[i]).upstream.upstream_addr is Some
                && ts[i].upstream.upstream_addr->0.spec_port() != 0,
        forall|i: int, j: int|
            0 <= i < ts.len() && 0 <= j < ts.len() && i != j && ts[i].upstream.upstream_type
                == ts[j].upstream.upstream_type
                ==> (#[trigger] ts[i]).upstream.upstream_addr->0.spec_port() != (
            #[trigger] ts[j]).upstream.upstream_addr->0.spec_port(),
{
    assert forall|i: int| 0 <= i < ts.len() implies tunnel_error_at(ts, i) is None by {
        lemma_no_tunnel_error(ts, i);
    }
    assert forall|i: int, j: int| 0 <= i < j < ts.len() implies ts[i] != ts[j] by {
        assert(tunnel_error_at(ts, j) is None);
    }
    assert forall|i: int| 0 <= i < ts.len() implies (
    #[trigger] ts[i]).upstream.upstream_addr is Some
        && ts[i].upstream.upstream_addr->0.spec_port() != 0 by {
        assert(tunnel_error_at(ts, i) is None);
    }
    assert forall|i: int, j: int|
        0 <= i < ts.len() && 0 <= j < ts.len() && i != j && ts[i].upstream.upstream_type
            == ts[j].upstream.upstream_type implies (
    #[trigger] ts[i]).upstream.upstream_addr->0.spec_port() != (
    #[trigger] ts[j]).upstream.upstream_addr->0.spec_port() by {
        let (a, b) = if i < j {
            (i, j)
        } else {
            (j, i)
        };
        assert(tunnel_error_at(ts, b) is None);
        assert(!claims(
            ts[a],
            ts[b].upstream.upstream_type,
            ts[b].upstream.upstream_addr->0.spec_port(),
        ));
    }
}

/// A tunnel to start: its index and its definition.
#[derive(Clone, Copy, Debug, PartialEq, Eq, Structural)]
pub struct StartedTunnel {
    pub index: usize,
    pub config: TunnelConfig,
}

/// What to do once the tunnels of a configuration have been accepted.
pub struct StartPlan {
    /// The tunnels to start, in this order.
    pub started: Vec<StartedTunnel>,
    /// Indices of the running tunnels whose places they take, in this order.
    pub replaced: Vec<usize>,
    /// How often to migrate the endpoint (ms), if at all.
    pub migrate_every_ms: Option<u64>,
}

/// An update of the tunnels under way: the new set of them, and the removed ones that have not
/// ended yet.
pub struct TunnelUpdate {
    tunnels: Vec<TunnelConfig>,
    waiting: Vec<usize>,
}

/// What `TunnelUpdate` says.
#[verifier::ext_equal]
pub struct TunnelUpdateView {
    pub tunnels: Seq<TunnelConfig>,
    /// Indices of the removed tunnels that have not ended yet.
    pub waiting: Seq<usize>,
}

impl View for TunnelUpdate {
    type V = TunnelUpdateView;

    closed spec fn view(&self) -> TunnelUpdateView {
        TunnelUpdateView { tunnels: self.tunnels@, waiting: self.waiting@ }
    }
}

/// The indices but for one.
pub open spec fn others(indices: Seq<usize>, index: usize) -> Seq<usize> {
    indices.filter(|i: usize| i != index)
}

impl TunnelUpdateView {
    /// Nothing speaks against the new set of tunnels.
    pub open spec fn accepted(self) -> bool {
        tunnels_error(self.tunnels) is None
    }

    /// Without waiting for the tunnel with the given index any more.
    pub open spec fn without(self, index: usize) -> TunnelUpdateView {
        TunnelUpdateView { waiting: others(self.waiting, index), ..self }
    }

    /// Without waiting for the tunnels with the given indices any more.
    pub open spec fn without_all(self, ended: Seq<usize>) -> TunnelUpdateView
        decreases ended.len(),
    {
        if ended.len() == 0 {
            self
        } else {
            self.without_all(ended.drop_last()).without(ended.last())
        }
    }
}

impl TunnelUpdate {
    /// Indices of the removed tunnels that have not ended yet.
    pub fn waiting_for(&self) -> (r: Vec<usize>)
        ensures
            r@ == self@.waiting,
    {
        vstd::slice::slice_to_vec(self.waiting.as_slice())
    }

    /// Takes note that the tunnel with the given index has ended.
    pub fn ended(&mut self, index: usize)
        ensures
            final(self)@ == old(self)@.without(index),
    {
        let ghost all = self.waiting@;
        let mut left: Vec<usize> = Vec::new();
        let mut i: usize = 0;
        proof {
            reveal(Seq::filter);
            assert(all.take(0) =~= Seq::empty());
        }
        while i < self.waiting.len()
            invariant
                i <= self.waiting@.len(),
                all == self.waiting@,
                left@ == others(all.take(i as int), index),
                *self == *old(self),
            decreases self.waiting@.len() - i,
        {
            proof {
                reveal(Seq::filter);
                assert(all.take(i + 1).drop_last() =~= all.take(i as int));
                assert(all.take(i + 1).last() == all[i as int]);
            }
            if self.waiting[i] != index {
                left.push(self.waiting[i]);
            }
            i += 1;
        }
        assert(all.take(all.len() as int) =~= all);
        self.waiting = left;
    }
}

/// A removed tunnel is waited for until it has ended itself, whichever others have.
pub proof fn update_waits_for_each(update: TunnelUpdateView, ended: Seq<usize>, index: usize)
    requires
        update.waiting.contains(index),
        !ended.contains(index),
    ensures
        update.without_all(ended).waiting.contains(index),
    decreases ended.len(),
{
    if ended.len() > 0 {
        let earlier = ended.drop_last();
        assert forall|i: int| 0 <= i < earlier.len() implies earlier[i] != index by {
            assert(ended[i] != index);
        }
        update_waits_for_each(update, earlier, index);
        assert(ended[ended.len() - 1] != index);
        lemma_filter_keeps(
            update.without_all(earlier).waiting,
            |i: usize| i != ended.last(),
            index,
        );
    }
}

proof fn lemma_filter_keeps<A>(s: Seq<A>, p: spec_fn(A) -> bool, a: A)
    requires
        s.contains(a),
        p(a),
    ensures
        s.filter(p).contains(a),
    decreases s.len(),
{
    reveal(Seq::filter);
    let shorter = s.drop_last();
    let part = shorter.filter(p);
    let j = choose|j: int| 0 <= j < s.len() && s[j] == a;
    if j < s.len() - 1 {
        assert(shorter[j] == a);
        lemma_filter_keeps(shorter, p, a);
        let k = choose|k: int| 0 <= k < part.len() && part[k] == a;
        assert(s.filter(p)[k] == a);
    } else {
        assert(s.filter(p)[part.len() as int] == a);
    }
}

/// The client's bookkeeping.
pub struct Client {
    config: ClientConfig,
    tcp_servers: AHashMap<AddrKey, usize>,
    udp_servers: AHashMap<AddrKey, usize>,
    endpoint: bool,
    connections: AHashMap<TunnelKey, usize>,
    client_state: ClientState,
    total_traffic_data: TunnelTraffic,
    tunnel_tasks: AHashMap<TunnelKey, usize>,
    next_tunnel_index: usize,
    info_bridge: TunnelInfoBridge<usize>,
    info_report: bool,
}

/// What the client knows.
pub struct ClientView {
    pub config: ClientConfigView,
    /// Local TCP servers by address.
    pub tcp_servers: Map<AddrKey, usize>,
    /// Local UDP servers by address.
    pub udp_servers: Map<AddrKey, usize>,
    /// Whether the QUIC endpoint is open.
    pub endpoint: bool,
    /// Connections by the tunnel they serve.
    pub connections: Map<TunnelKey, usize>,
    pub client_state: ClientState,
    /// Traffic of connections that have ended.
    pub total_traffic_data: TunnelTraffic,
    /// Indices of the running tunnels.
    pub tunnel_tasks: Map<TunnelKey, usize>,
    pub next_tunnel_index: usize,
    /// The listener that has been installed for tunnel info, if any.
    pub info_listener: Option<usize>,
    /// Whether tunnel info is posted periodically.
    pub info_report: bool,
}

impl View for Client {
    type V = ClientView;

    closed spec fn view(&self) -> ClientView {
        ClientView {
            config: self.config@,
            tcp_servers: addr_map(self.tcp_servers),
            udp_servers: addr_map(self.udp_servers),
            endpoint: self.endpoint,
            connections: tunnel_map(self.connections),
            client_state: self.client_state,
            total_traffic_data: self.total_traffic_data,
            tunnel_tasks: tunnel_map(self.tunnel_tasks),
            next_tunnel_index: self.next_tunnel_index,
            info_listener: self.info_bridge.listener(),
            info_report: self.info_report,
        }
    }
}

impl ClientView {
    /// Without the running tunnels that are not among `ts`.
    pub open spec fn reduced_to(self, ts: Seq<TunnelConfig>) -> ClientView {
        ClientView { tunnel_tasks: kept(self.tunnel_tasks, ts), ..self }
    }

    /// The tunnels of `ts` that are not running, with the indices under which they will run.
    pub open spec fn missing(self, ts: Seq<TunnelConfig>) -> Seq<StartedTunnel> {
        numbered(not_running(ts, self.tunnel_tasks), self.next_tunnel_index)
    }

    /// With the tunnels of `ts` configured, and those running that were not.
    pub open spec fn extended_to(self, ts: Seq<TunnelConfig>) -> ClientView {
        ClientView {
            config: ClientConfigView { tunnels: ts, ..self.config },
            tunnel_tasks: with_started(self.tunnel_tasks, self.missing(ts)),
            next_tunnel_index: index_after(self.next_tunnel_index, self.missing(ts).len()),
            ..self
        }
    }

    /// Stopping, with no tunnel running.
    pub open spec fn stopping(self) -> ClientView {
        ClientView {
            client_state: ClientState::Stopping,
            tunnel_tasks: Map::empty(),
            ..self
        }
    }

    /// With nothing open.
    pub open spec fn closed(self) -> ClientView {
        ClientView {
            tcp_servers: Map::empty(),
            udp_servers: Map::empty(),
            connections: Map::empty(),
            endpoint: false,
            ..self
        }
    }

    /// At the end.
    pub open spec fn terminated(self) -> ClientView {
        ClientView { client_state: ClientState::Terminated, ..self }
    }
}

/// The index after `k` more tunnels: one more for each, and zero after the largest.
pub open spec fn index_after(index: usize, k: nat) -> usize
    decreases k,
{
    if k == 0 {
        index
    } else {
        let before = index_after(index, (k - 1) as nat);
        if before == usize::MAX {
            0
        } else {
            (before + 1) as usize
        }
    }
}

/// Tunnels with consecutive indices from `index` on.
pub open spec fn numbered(ts: Seq<TunnelConfig>, index: usize) -> Seq<StartedTunnel> {
    Seq::new(
        ts.len(),
        |i: int| StartedTunnel { index: index_after(index, i as nat), config: ts[i] },
    )
}

/// The tunnels that are not among the running ones.
pub open spec fn not_running(ts: Seq<TunnelConfig>, tasks: Map<TunnelKey, usize>) -> Seq<
    TunnelConfig,
> {
    ts.filter(|t: TunnelConfig| !tasks.dom().contains(tunnel_key(t)))
}

/// The running tunnels with those of `started` added.
pub open spec fn with_started(
    tasks: Map<TunnelKey, usize>,
    started: Seq<StartedTunnel>,
) -> Map<TunnelKey, usize>
    decreases started.len(),
{
    if started.len() == 0 {
        tasks
    } else {
        with_started(tasks, started.drop_last()).insert(
            tunnel_key(started.last().config),
            started.last().index,
        )
    }
}

/// Indices of those running tunnels that are among `ts`, in the order of `ts`.
pub open spec fn replaced_by(ts: Seq<TunnelConfig>, tasks: Map<TunnelKey, usize>) -> Seq<usize>
    decreases ts.len(),
{
    if ts.len() == 0 {
        Seq::empty()
    } else {
        let before = replaced_by(ts.drop_last(), tasks);
        match lookup(tasks, tunnel_key(ts.last())) {
            Some(index) => before.push(index),
            None => before,
        }
    }
}

/// Whether a tunnel with the key is among `ts`.
pub open spec fn wanted(ts: Seq<TunnelConfig>, k: TunnelKey) -> bool {
    exists|j: int| 0 <= j < ts.len() && tunnel_key(#[trigger] ts[j]) == k
}

/// The running tunnels without those that are not among `ts`.
pub open spec fn kept(tasks: Map<TunnelKey, usize>, ts: Seq<TunnelConfig>) -> Map<
    TunnelKey,
    usize,
> {
    tasks.restrict(Set::new(|k: TunnelKey| wanted(ts, k)))
}

/// Indices of the running tunnels that are not among `ts`, each once.
pub open spec fn are_removed(
    removed: Seq<usize>,
    tasks: Map<TunnelKey, usize>,
    ts: Seq<TunnelConfig>,
) -> bool {
    exists|keys: Seq<TunnelKey>|
        #![trigger keys.no_duplicates()]
        {
            &&& keys.no_duplicates()
            &&& forall|k: TunnelKey|
                keys.contains(k) <==> tasks.dom().contains(k) && !wanted(ts, k)
            &&& removed == keys.map_values(|k: TunnelKey| tasks[k])
        }
}

impl Client {
    /// Creates a client with the given runtime configuration.
    pub fn new(config: ClientConfig) -> (r: Client)
        ensures
            r@ == (ClientView {
                config: config@,
                tcp_servers: Map::empty(),
                udp_servers: Map::empty(),
                endpoint: false,
                connections: Map::empty(),
                client_state: ClientState::Idle,
                total_traffic_data: TunnelTraffic {
                    rx_bytes: 0,
                    tx_bytes: 0,
                    rx_dgrams: 0,
                    tx_dgrams: 0,
                },
                tunnel_tasks: Map::empty(),
                next_tunnel_index: 0,
                info_listener: None,
                info_report: true,
            }),
    {
        Client {
            config,
            tcp_servers: new_addr_map(),
            udp_servers: new_addr_map(),
            endpoint: false,
            connections: new_tunnel_map(),
            client_state: ClientState::Idle,
            total_traffic_data: TunnelTraffic::default(),
            tunnel_tasks: new_tunnel_map(),
            next_tunnel_index: 0,
            info_bridge: TunnelInfoBridge::new(),
            info_report: true,
        }
    }

    /// A copy of the client's configuration.
    pub fn get_config(&self) -> (r: ClientConfig)
        ensures
            r@ == self@.config,
    {
        self.config.clone()
    }

    /// The client's state.
    pub fn get_state(&self) -> (r: ClientState)
        ensures
            r == self@.client_state,
    {
        self.client_state
    }

    /// Enters a state, of which `info_listener` is to be told.
    pub fn set_and_post_tunnel_state(&mut self, client_state: ClientState)
        ensures
            final(self)@ == (ClientView { client_state, ..old(self)@ }),
    {
        self.client_state = client_state;
    }

    /// Whether the client is stopping or has stopped.
    pub fn should_quit(&self) -> (r: bool)
        ensures
            r == self@.client_state.ending(),
    {
        self.client_state == ClientState::Stopping || self.client_state == ClientState::Terminated
    }

    /// Installs a listener for tunnel info, in place of any earlier one.
    pub fn set_on_info_listener(&mut self, listener: usize)
        ensures
            final(self)@ == (ClientView { info_listener: Some(listener), ..old(self)@ }),
    {
        self.info_bridge.set_listener(listener);
    }

    /// Whether an info listener has been installed.
    pub fn has_tunnel_info_listener(&self) -> (r: bool)
        ensures
            r == self@.info_listener is Some,
    {
        self.info_bridge.has_listener()
    }

    /// Enables or disables periodic posting of tunnel info via the listener.
    pub fn set_enable_on_info_report(&mut self, enable: bool)
        ensures
            final(self)@ == (ClientView { info_report: enable, ..old(self)@ }),
    {
        self.info_report = enable;
    }

    /// The listener to be told of a new state and of what is logged, if any.
    pub fn info_listener(&self) -> (r: Option<usize>)
        ensures
            r == self@.info_listener,
    {
        match self.info_bridge.post_tunnel_info(true) {
            Some(listener) => Some(*listener),
            None => None,
        }
    }

    /// The listener to which tunnel info is posted periodically, if any.
    pub fn report_listener(&self) -> (r: Option<usize>)
        ensures
            r == (if self@.info_report {
                self@.info_listener
            } else {
                None
            }),
    {
        match self.info_bridge.post_tunnel_info(self.info_report) {
            Some(listener) => Some(*listener),
            None => None,
        }
    }

    /// The runtime in which the client is to run.
    pub fn start_tunneling(&self) -> (r: RuntimeKind)
        ensures
            r == (if self@.config.workers == 1 {
                RuntimeKind::CurrentThread
            } else {
                RuntimeKind::MultiThread(self@.config.workers)
            }),
    {
        runtime_kind(self.config.workers)
    }

    /// Refuses a set of tunnels in which one is repeated, one has no address or port for the
    /// server to bind, or two claim the same port.
    pub fn validate_tunnels(tunnels: &[TunnelConfig]) -> (r: Result<(), TunnelsError>)
        ensures
            r == (match tunnels_error(tunnels@) {
                Some(e) => Err::<(), TunnelsError>(e),
                None => Ok::<(), TunnelsError>(()),
            }),
    {
        let ghost ts = tunnels@;
        let mut configs = new_tunnel_set();
        let mut ports = new_port_set();
        let mut i: usize = 0;
        assert(ts.take(0) =~= Seq::empty());
        while i < tunnels.len()
            invariant
                i <= tunnels@.len(),
                ts == tunnels@,
                tunnels_error(ts.take(i as int)) is None,
                forall|k: TunnelKey|
                    tunnel_set(configs).contains(k) <==> wanted(ts.take(i as int), k),
                forall|t: UpstreamType, port: u16|
                    #![trigger port_set(ports).contains((type_key(t), port))]
                    port_set(ports).contains((type_key(t), port)) <==> exists|j: int|
                        0 <= j < i && claims(#[trigger] ts[j], t, port),
            decreases tunnels@.len() - i,
        {
            let tunnel = tunnels[i];
            let ghost prefix = ts.take(i as int);
            let ghost longer = ts.take(i + 1);
            proof {
                assert(longer.drop_last() =~= prefix);
                assert(longer.last() == ts[i as int]);
                lemma_tunnel_error_prefix(ts, i + 1, i as int);
                assert(tunnels_error(longer) == tunnel_error_at(ts, i as int));
                assert forall|j: int| 0 <= j < i implies prefix[j] == #[trigger] ts[j] by {}
            }
            let ghost configs_before = tunnel_set(configs);
            if !tunnel_set_insert(&mut configs, key_of_tunnel(tunnel)) {
                proof {
                    let j = choose|j: int|
                        0 <= j < prefix.len() && tunnel_key(#[trigger] prefix[j]) == tunnel_key(
                            ts[i as int],
                        );
                    lemma_tunnel_key_injective(prefix[j], ts[i as int]);
                    assert(ts[j] == ts[i as int]);
                    lemma_first_error_stays(ts, i + 1);
                }
                return Err(TunnelsError::DuplicateTunnel);
            }
            proof {
                assert forall|j: int| 0 <= j < i implies #[trigger] ts[j] != ts[i as int] by {
                    if ts[j] == ts[i as int] {
                        assert(prefix[j] == ts[i as int]);
                        assert(wanted(prefix, tunnel_key(ts[i as int])));
                    }
                }
            }
            let addr = match tunnel.upstream.upstream_addr {
                Some(addr) => addr,
                None => {
                    proof {
                        lemma_first_error_stays(ts, i + 1);
                    }
                    return Err(TunnelsError::NoBindAddress);
                },
            };
            if addr.port() == 0 {
                proof {
                    lemma_first_error_stays(ts, i + 1);
                }
                return Err(TunnelsError::ZeroPort);
            }
            let upstream_type = tunnel.upstream.upstream_type;
            let ghost ports_before = port_set(ports);
            if !port_set_insert(&mut ports, (key_of_type(upstream_type), addr.port())) {
                proof {
                    lemma_first_error_stays(ts, i + 1);
                }
                return Err(TunnelsError::PortClaimedTwice(upstream_type, addr.port()));
            }
            proof {
                assert forall|k: TunnelKey|
                    tunnel_set(configs).contains(k) <==> wanted(longer, k) by {
                    if wanted(prefix, k) {
                        let j = choose|j: int|
                            0 <= j < prefix.len() && tunnel_key(#[trigger] prefix[j]) == k;
                        assert(longer[j] == prefix[j]);
                    }
                    if wanted(longer, k) {
                        let j = choose|j: int|
                            0 <= j < longer.len() && tunnel_key(#[trigger] longer[j]) == k;
                        if j < i {
                            assert(prefix[j] == longer[j]);
                        }
                    }
                    if k == tunnel_key(ts[i as int]) {
                        assert(longer[i as int] == ts[i as int]);
                    }
                }
                assert forall|t: UpstreamType, port: u16|
                    #![trigger port_set(ports).contains((type_key(t), port))]
                    port_set(ports).contains((type_key(t), port)) <==> exists|j: int|
                        0 <= j < i + 1 && claims(#[trigger] ts[j], t, port) by {
                    if exists|j: int| 0 <= j < i + 1 && claims(#[trigger] ts[j], t, port) {
                        let j = choose|j: int| 0 <= j < i + 1 && claims(#[trigger] ts[j], t, port);
                        if j < i {
                            assert(ports_before.contains((type_key(t), port)));
                        }
                    }
                    if port_set(ports).contains((type_key(t), port)) {
                        if ports_before.contains((type_key(t), port)) {
                            let j = choose|j: int| 0 <= j < i && claims(#[trigger] ts[j], t, port);
                            assert(claims(ts[j], t, port));
                        } else {
                            assert(claims(ts[i as int], t, port));
                        }
                    }
                }
            }
            i += 1;
        }
        assert(ts.take(tunnels@.len() as int) =~= ts);
        Ok(())
    }

    /// Enters a tunnel among the running ones, under the next index. Where the same tunnel is
    /// running already, the new one takes its place.
    pub fn spawn_network_tunnel(&mut self, tunnel_config: TunnelConfig) -> (index: usize)
        ensures
            index == old(self)@.next_tunnel_index,
            final(self)@ == (ClientView {
                tunnel_tasks: old(self)@.tunnel_tasks.insert(tunnel_key(tunnel_config), index),
                next_tunnel_index: index_after(index, 1),
                ..old(self)@
            }),
    {
        let index: usize = self.next_tunnel_index;
        self.next_tunnel_index = index.wrapping_add(1);
        proof {
            reveal_with_fuel(index_after, 2);
        }
        tunnel_map_insert(&mut self.tunnel_tasks, key_of_tunnel(tunnel_config), index);
        index
    }
}

proof fn lemma_with_started_dom(
    tasks: Map<TunnelKey, usize>,
    started: Seq<StartedTunnel>,
    k: TunnelKey,
)
    ensures
        with_started(tasks, started).dom().contains(k) <==> tasks.dom().contains(k) || exists|
            j: int,
        |
            0 <= j < started.len() && tunnel_key((#[trigger] started[j]).config) == k,
    decreases started.len(),
{
    if started.len() > 0 {
        let shorter = started.drop_last();
        lemma_with_started_dom(tasks, shorter, k);
        assert(forall|j: int| 0 <= j < shorter.len() ==> shorter[j] == #[trigger] started[j]);
        if exists|j: int| 0 <= j < shorter.len() && tunnel_key((#[trigger] shorter[j]).config) == k {
            let j = choose|j: int|
                0 <= j < shorter.len() && tunnel_key((#[trigger] shorter[j]).config) == k;
            assert(tunnel_key(started[j].config) == k);
        }
        if exists|j: int| 0 <= j < started.len() && tunnel_key((#[trigger] started[j]).config) == k {
            let j = choose|j: int|
                0 <= j < started.len() && tunnel_key((#[trigger] started[j]).config) == k;
            if j < started.len() - 1 {
                assert(tunnel_key(shorter[j].config) == k);
            }
        }
        assert(started[started.len() - 1] == started.last());
    }
}

proof fn lemma_not_running_members(ts: Seq<TunnelConfig>, tasks: Map<TunnelKey, usize>)
    ensures
        forall|t: TunnelConfig| #[trigger]
            not_running(ts, tasks).contains(t) <==> ts.contains(t) && !tasks.dom().contains(
                tunnel_key(t),
            ),
    decreases ts.len(),
{
    reveal(Seq::filter);
    if ts.len() > 0 {
        let shorter = ts.drop_last();
        let last = ts.last();
        lemma_not_running_members(shorter, tasks);
        assert(ts =~= shorter.push(last));
        let part = not_running(shorter, tasks);
        assert forall|t: TunnelConfig| #[trigger]
            not_running(ts, tasks).contains(t) <==> ts.contains(t) && !tasks.dom().contains(
                tunnel_key(t),
            ) by {
            assert(part.contains(t) <==> shorter.contains(t) && !tasks.dom().contains(
                tunnel_key(t),
            ));
            if ts.contains(t) {
                let i = choose|i: int| 0 <= i < ts.len() && ts[i] == t;
                if i < ts.len() - 1 {
                    assert(shorter[i] == t);
                }
            }
            if shorter.contains(t) {
                let i = choose|i: int| 0 <= i < shorter.len() && shorter[i] == t;
                assert(ts[i] == t);
            }
            assert(ts[ts.len() - 1] == last);
            if !tasks.dom().contains(tunnel_key(last)) {
                let all = part.push(last);
                assert(not_running(ts, tasks) == all);
                if all.contains(t) {
                    let i = choose|i: int| 0 <= i < all.len() && all[i] == t;
                    if i < part.len() {
                        assert(part[i] == t);
                    }
                }
                if part.contains(t) {
                    let i = choose|i: int| 0 <= i < part.len() && part[i] == t;
                    assert(all[i] == t);
                }
                assert(all[part.len() as int] == last);
            }
        }
    }
}

impl Client {
    /// Enters all those tunnels among the running ones that are not yet there.
    fn spawn_missing(&mut self, tunnels: &Vec<TunnelConfig>) -> (started: Vec<StartedTunnel>)
        requires
            tunnels@.no_duplicates(),
        ensures
            started@ == numbered(
                not_running(tunnels@, old(self)@.tunnel_tasks),
                old(self)@.next_tunnel_index,
            ),
            final(self)@ == (ClientView {
                tunnel_tasks: with_started(old(self)@.tunnel_tasks, started@),
                next_tunnel_index: index_after(
                    old(self)@.next_tunnel_index,
                    started@.len(),
                ),
                ..old(self)@
            }),
    {
        let ghost ts = tunnels@;
        let ghost before = self@;
        let ghost tasks = self@.tunnel_tasks;
        let ghost first = self@.next_tunnel_index;
        let mut started: Vec<StartedTunnel> = Vec::new();
        let mut i: usize = 0;
        proof {
            reveal(Seq::filter);
            assert(ts.take(0) =~= Seq::empty());
            assert(started@ =~= numbered(not_running(ts.take(0), tasks), first));
        }
        while i < tunnels.len()
            invariant
                i <= tunnels@.len(),
                ts == tunnels@,
                ts.no_duplicates(),
                started@ == numbered(not_running(ts.take(i as int), tasks), first),
                self@ == (ClientView {
                    tunnel_tasks: with_started(tasks, started@),
                    next_tunnel_index: index_after(first, started@.len()),
                    ..before
                }),
            decreases tunnels@.len() - i,
        {
            let tunnel = tunnels[i];
            let ghost part = not_running(ts.take(i as int), tasks);
            let ghost so_far = started@;
            proof {
                reveal(Seq::filter);
                assert(ts.take(i + 1).drop_last() =~= ts.take(i as int));
                assert(ts.take(i + 1).last() == tunnel);
                lemma_with_started_dom(tasks, started@, tunnel_key(tunnel));
                lemma_not_running_members(ts.take(i as int), tasks);
                assert forall|j: int| 0 <= j < started@.len() implies tunnel_key(
                    (#[trigger] started@[j]).config,
                ) != tunnel_key(tunnel) by {
                    assert(started@[j].config == part[j]);
                    assert(part.contains(part[j]));
                    let m = choose|m: int|
                        0 <= m < ts.take(i as int).len() && ts.take(i as int)[m] == part[j];
                    assert(ts[m] == part[j]);
                    assert(ts[m] != ts[i as int]);
                    if tunnel_key(part[j]) == tunnel_key(tunnel) {
                        lemma_tunnel_key_injective(part[j], tunnel);
                    }
                }
            }
            if tunnel_map_get(&self.tunnel_tasks, &key_of_tunnel(tunnel)).is_none() {
                let index = self.spawn_network_tunnel(tunnel);
                started.push(StartedTunnel { index, config: tunnel });
                proof {
                    reveal_with_fuel(index_after, 2);
                    assert(started@.drop_last() =~= so_far);
                    assert(started@ =~= numbered(part.push(tunnel), first));
                }
            }
            i += 1;
        }
        assert(ts.take(tunnels@.len() as int) =~= ts);
        started
    }

    /// Enters all tunnels among the running ones; those that are running already give way, and
    /// their indices come back, too.
    fn spawn_all(&mut self, tunnels: &Vec<TunnelConfig>) -> (r: (Vec<StartedTunnel>, Vec<usize>))
        requires
            tunnels@.no_duplicates(),
        ensures
            r.0@ == numbered(tunnels@, old(self)@.next_tunnel_index),
            r.1@ == replaced_by(tunnels@, old(self)@.tunnel_tasks),
            final(self)@ == (ClientView {
                tunnel_tasks: with_started(old(self)@.tunnel_tasks, r.0@),
                next_tunnel_index: index_after(old(self)@.next_tunnel_index, tunnels@.len()),
                ..old(self)@
            }),
    {
        let ghost ts = tunnels@;
        let ghost before = self@;
        let ghost tasks = self@.tunnel_tasks;
        let ghost first = self@.next_tunnel_index;
        let mut started: Vec<StartedTunnel> = Vec::new();
        let mut replaced: Vec<usize> = Vec::new();
        let mut i: usize = 0;
        assert(ts.take(0) =~= Seq::empty());
        assert(started@ =~= numbered(ts.take(0), first));
        while i < tunnels.len()
            invariant
                i <= tunnels@.len(),
                ts == tunnels@,
                ts.no_duplicates(),
                started@ == numbered(ts.take(i as int), first),
                replaced@ == replaced_by(ts.take(i as int), tasks),
                self@ == (ClientView {
                    tunnel_tasks: with_started(tasks, started@),
                    next_tunnel_index: index_after(first, i as nat),
                    ..before
                }),
            decreases tunnels@.len() - i,
        {
            let tunnel = tunnels[i];
            let ghost so_far = started@;
            proof {
                assert(ts.take(i + 1).drop_last() =~= ts.take(i as int));
                assert(ts.take(i + 1).last() == tunnel);
                assert forall|j: int| 0 <= j < started@.len() implies tunnel_key(
                    (#[trigger] started@[j]).config,
                ) != tunnel_key(tunnel) by {
                    assert(started@[j].config == ts[j]);
                    assert(ts[j] != ts[i as int]);
                    if tunnel_key(ts[j]) == tunnel_key(tunnel) {
                        lemma_tunnel_key_injective(ts[j], tunnel);
                    }
                }
                lemma_with_started_dom(tasks, started@, tunnel_key(tunnel));
                lemma_with_started_keeps(tasks, started@, tunnel_key(tunnel));
            }
            if let Some(index) = self.index_of(tunnel) {
                replaced.push(index);
            }
            let index = self.spawn_network_tunnel(tunnel);
            started.push(StartedTunnel { index, config: tunnel });
            proof {
                reveal_with_fuel(index_after, 2);
                assert(started@.drop_last() =~= so_far);
                assert(started@ =~= numbered(ts.take(i + 1), first));
            }
            i += 1;
        }
        assert(ts.take(tunnels@.len() as int) =~= ts);
        (started, replaced)
    }

    /// Accepts the configured tunnels and enters them among the running ones, or refuses them
    /// all. A tunnel takes the place of the same one that is running already.
    pub fn connect_and_serve_async(&mut self) -> (r: Result<StartPlan, TunnelsError>)
        ensures
            match tunnels_error(old(self)@.config.tunnels) {
                Some(e) => r is Err && r->Err_0 == e && final(self)@ == old(self)@,
                None => {
                    &&& r is Ok
                    &&& r->Ok_0.started@ == numbered(
                        old(self)@.config.tunnels,
                        old(self)@.next_tunnel_index,
                    )
                    &&& r->Ok_0.replaced@ == replaced_by(
                        old(self)@.config.tunnels,
                        old(self)@.tunnel_tasks,
                    )
                    &&& r->Ok_0.migrate_every_ms == (if old(self)@.config.hop_interval_ms > 0 {
                        Some(old(self)@.config.hop_interval_ms)
                    } else {
                        None
                    })
                    &&& final(self)@ == (ClientView {
                        tunnel_tasks: with_started(old(self)@.tunnel_tasks, r->Ok_0.started@),
                        next_tunnel_index: index_after(
                            old(self)@.next_tunnel_index,
                            old(self)@.config.tunnels.len(),
                        ),
                        ..old(self)@
                    })
                },
            },
    {
        let tunnels = clone_tunnels(&self.config.tunnels);
        match Client::validate_tunnels(tunnels.as_slice()) {
            Err(e) => return Err(e),
            Ok(()) => {},
        }
        proof {
            accepted_tunnels_are_distinct(tunnels@);
        }
        let (started, replaced) = self.spawn_all(&tunnels);
        let migrate_every_ms = if self.config.hop_interval_ms > 0 {
            Some(self.config.hop_interval_ms)
        } else {
            None
        };
        Ok(StartPlan { started, replaced, migrate_every_ms })
    }
}

/// Those of the first `n` keys that are not wanted.
spec fn unwanted(keys: Seq<TunnelKey>, n: int, ts: Seq<TunnelConfig>) -> Seq<TunnelKey> {
    keys.take(n).filter(|k: TunnelKey| !wanted(ts, k))
}

proof fn lemma_unwanted_members(keys: Seq<TunnelKey>, n: int, ts: Seq<TunnelConfig>)
    requires
        0 <= n <= keys.len(),
        keys.no_duplicates(),
    ensures
        unwanted(keys, n, ts).no_duplicates(),
        forall|k: TunnelKey| #[trigger]
            unwanted(keys, n, ts).contains(k) <==> keys.take(n).contains(k) && !wanted(ts, k),
    decreases n,
{
    reveal(Seq::filter);
    if n > 0 {
        lemma_unwanted_members(keys, n - 1, ts);
        let last = keys[n - 1];
        let before = keys.take(n - 1);
        let part = unwanted(keys, n - 1, ts);
        let now = keys.take(n);
        assert(now.drop_last() =~= before);
        assert(now.last() == last);
        assert forall|k: TunnelKey| now.contains(k) <==> before.contains(k) || k == last by {
            if now.contains(k) {
                let i = choose|i: int| 0 <= i < now.len() && now[i] == k;
                if i < n - 1 {
                    assert(before[i] == k);
                }
            }
            if before.contains(k) {
                let i = choose|i: int| 0 <= i < before.len() && before[i] == k;
                assert(now[i] == k);
            }
            assert(now[n - 1] == last);
        }
        assert(!before.contains(last)) by {
            if before.contains(last) {
                let i = choose|i: int| 0 <= i < before.len() && before[i] == last;
                assert(keys[i] == keys[n - 1]);
            }
        }
        if !wanted(ts, last) {
            let all = part.push(last);
            assert(unwanted(keys, n, ts) == all);
            assert(!part.contains(last));
            assert forall|i: int, j: int|
                0 <= i < all.len() && 0 <= j < all.len() && i != j implies all[i] != all[j] by {
                if i == part.len() {
                    assert(part.contains(part[j]));
                }
                if j == part.len() {
                    assert(part.contains(part[i]));
                }
            }
            assert forall|k: TunnelKey| #[trigger]
                all.contains(k) <==> part.contains(k) || k == last by {
                if all.contains(k) {
                    let i = choose|i: int| 0 <= i < all.len() && all[i] == k;
                    if i < part.len() {
                        assert(part[i] == k);
                    }
                }
                if part.contains(k) {
                    let i = choose|i: int| 0 <= i < part.len() && part[i] == k;
                    assert(all[i] == k);
                }
                assert(all[part.len() as int] == last);
            }
        }
    }
}

/// The keys of the given tunnels.
fn keys_of(tunnels: &Vec<TunnelConfig>) -> (r: ahash::AHashSet<TunnelKey>)
    ensures
        forall|k: TunnelKey| tunnel_set(r).contains(k) <==> wanted(tunnels@, k),
{
    let mut keys = new_tunnel_set();
    let mut i: usize = 0;
    let ghost ts = tunnels@;
    while i < tunnels.len()
        invariant
            i <= tunnels@.len(),
            ts == tunnels@,
            forall|k: TunnelKey| tunnel_set(keys).contains(k) <==> wanted(ts.take(i as int), k),
        decreases tunnels@.len() - i,
    {
        let ghost before = tunnel_set(keys);
        tunnel_set_insert(&mut keys, key_of_tunnel(tunnels[i]));
        proof {
            let prefix = ts.take(i as int);
            let longer = ts.take(i + 1);
            assert forall|k: TunnelKey| tunnel_set(keys).contains(k) <==> wanted(longer, k) by {
                if wanted(prefix, k) {
                    let j = choose|j: int|
                        0 <= j < prefix.len() && tunnel_key(#[trigger] prefix[j]) == k;
                    assert(longer[j] == prefix[j]);
                }
                if wanted(longer, k) {
                    let j = choose|j: int|
                        0 <= j < longer.len() && tunnel_key(#[trigger] longer[j]) == k;
                    if j < i {
                        assert(prefix[j] == longer[j]);
                    }
                }
                if k == tunnel_key(ts[i as int]) {
                    assert(longer[i as int] == ts[i as int]);
                }
            }
        }
        i += 1;
    }
    assert(ts.take(tunnels@.len() as int) =~= ts);
    keys
}

impl Client {
    /// Takes those running tunnels out that are not among `tunnels`, and returns their indices.
    fn remove_unwanted(&mut self, tunnels: &Vec<TunnelConfig>) -> (removed: Vec<usize>)
        ensures
            are_removed(removed@, old(self)@.tunnel_tasks, tunnels@),
            final(self)@ == (ClientView {
                tunnel_tasks: kept(old(self)@.tunnel_tasks, tunnels@),
                ..old(self)@
            }),
    {
        let ghost before = self@;
        let ghost tasks = self@.tunnel_tasks;
        let ghost ts = tunnels@;
        let desired = keys_of(tunnels);
        let running = tunnel_map_keys(&self.tunnel_tasks);
        let ghost keys = running@;
        let mut removed: Vec<usize> = Vec::new();
        let mut i: usize = 0;
        proof {
            reveal(Seq::filter);
            assert(keys.take(0) =~= Seq::empty());
            assert(removed@ =~= unwanted(keys, 0, ts).map_values(|k: TunnelKey| tasks[k]));
        }
        while i < running.len()
            invariant
                i <= running@.len(),
                keys == running@,
                keys.no_duplicates(),
                forall|k: TunnelKey| keys.contains(k) <==> tasks.dom().contains(k),
                forall|k: TunnelKey| tunnel_set(desired).contains(k) <==> wanted(ts, k),
                removed@ == unwanted(keys, i as int, ts).map_values(|k: TunnelKey| tasks[k]),
                self@ == (ClientView { tunnel_tasks: self@.tunnel_tasks, ..before }),
                forall|k: TunnelKey|
                    self@.tunnel_tasks.dom().contains(k) <==> tasks.dom().contains(k)
                        && !unwanted(keys, i as int, ts).contains(k),
                forall|k: TunnelKey|
                    self@.tunnel_tasks.dom().contains(k) ==> self@.tunnel_tasks[k] == tasks[k],
            decreases running@.len() - i,
        {
            let key = running[i];
            let ghost part = unwanted(keys, i as int, ts);
            let ghost tasks_before = self@.tunnel_tasks;
            proof {
                reveal(Seq::filter);
                assert(keys.take(i + 1).drop_last() =~= keys.take(i as int));
                assert(keys.take(i + 1).last() == key);
                assert(keys.contains(keys[i as int]));
                lemma_unwanted_members(keys, i as int, ts);
                lemma_unwanted_members(keys, i + 1, ts);
                assert(!keys.take(i as int).contains(key)) by {
                    if keys.take(i as int).contains(key) {
                        let j = choose|j: int|
                            0 <= j < keys.take(i as int).len() && keys.take(i as int)[j] == key;
                        assert(keys[j] == keys[i as int]);
                    }
                }
            }
            if !tunnel_set_contains(&desired, &key) {
                if let Some(index) = tunnel_map_remove(&mut self.tunnel_tasks, &key) {
                    removed.push(index);
                }
                proof {
                    let all = part.push(key);
                    assert(unwanted(keys, i + 1, ts) == all);
                    assert(removed@ =~= all.map_values(|k: TunnelKey| tasks[k]));
                    assert forall|k: TunnelKey| #[trigger]
                        all.contains(k) <==> part.contains(k) || k == key by {
                        if all.contains(k) {
                            let j = choose|j: int| 0 <= j < all.len() && all[j] == k;
                            if j < part.len() {
                                assert(part[j] == k);
                            }
                        }
                        if part.contains(k) {
                            let j = choose|j: int| 0 <= j < part.len() && part[j] == k;
                            assert(all[j] == k);
                        }
                        assert(all[part.len() as int] == key);
                    }
                }
            }
            proof {
                let now = unwanted(keys, i + 1, ts);
                assert(wanted(ts, key) ==> now == part);
                assert forall|k: TunnelKey|
                    self@.tunnel_tasks.dom().contains(k) <==> tasks.dom().contains(k)
                        && !now.contains(k) by {
                    if wanted(ts, key) {
                        assert(self@.tunnel_tasks == tasks_before);
                    } else {
                        assert(self@.tunnel_tasks == tasks_before.remove(key));
                    }
                    assert(tasks_before.dom().contains(k) <==> tasks.dom().contains(k)
                        && !part.contains(k));
                }
            }
            i += 1;
        }
        proof {
            assert(keys.take(keys.len() as int) =~= keys);
            lemma_unwanted_members(keys, keys.len() as int, ts);
            let gone = unwanted(keys, keys.len() as int, ts);
            assert(gone.no_duplicates());
            assert(forall|k: TunnelKey|
                gone.contains(k) <==> tasks.dom().contains(k) && !wanted(ts, k));
            assert(self@.tunnel_tasks =~= kept(tasks, ts));
        }
        removed
    }

    /// Starts to reconcile the running tunnels with a new set of them: those that are not among
    /// the set no longer run, and are to be cancelled. The update goes on with `start_updated`
    /// once they have ended. A set that is refused leaves everything as it is.
    pub fn update_tunnels(&mut self, tunnels: Vec<TunnelConfig>) -> (r: Result<
        TunnelUpdate,
        TunnelsError,
    >)
        ensures
            match tunnels_error(tunnels@) {
                Some(e) => r is Err && r->Err_0 == e && final(self)@ == old(self)@,
                None => {
                    &&& r is Ok
                    &&& r->Ok_0@.tunnels == tunnels@
                    &&& are_removed(r->Ok_0@.waiting, old(self)@.tunnel_tasks, tunnels@)
                    &&& final(self)@ == old(self)@.reduced_to(tunnels@)
                },
            },
    {
        match Client::validate_tunnels(tunnels.as_slice()) {
            Err(e) => return Err(e),
            Ok(()) => {},
        }
        let waiting = self.remove_unwanted(&tunnels);
        Ok(TunnelUpdate { tunnels, waiting })
    }

    /// Goes on with an update: while a removed tunnel has not ended, nothing happens. Afterwards
    /// the new set of tunnels is the configured one, and those of the set that were not running
    /// are entered among the running ones; they are to be started in this order.
    pub fn start_updated(&mut self, update: &TunnelUpdate) -> (r: Option<Vec<StartedTunnel>>)
        requires
            update@.accepted(),
        ensures
            if update@.waiting.len() > 0 {
                r is None && final(self)@ == old(self)@
            } else {
                &&& r is Some
                &&& r->0@ == old(self)@.missing(update@.tunnels)
                &&& final(self)@ == old(self)@.extended_to(update@.tunnels)
            },
    {
        if update.waiting.len() > 0 {
            return None;
        }
        proof {
            accepted_tunnels_are_distinct(update.tunnels@);
        }
        let started = self.spawn_missing(&update.tunnels);
        self.config.tunnels = clone_tunnels(&update.tunnels);
        Some(started)
    }
}

/// After an accepted update exactly the tunnels of the update run and are configured, and a tunnel
/// that ran before keeps its index.
pub proof fn update_reconciles(client: ClientView, ts: Seq<TunnelConfig>, t: TunnelConfig)
    requires
        tunnels_error(ts) is None,
    ensures
        ({
            let tasks = client.tunnel_tasks;
            let after = client.reduced_to(ts).extended_to(ts);
            &&& after.tunnel_tasks.dom().contains(tunnel_key(t)) <==> ts.contains(t)
            &&& tasks.dom().contains(tunnel_key(t)) && ts.contains(t)
                ==> after.tunnel_tasks[tunnel_key(t)] == tasks[tunnel_key(t)]
            &&& after.config == (ClientConfigView { tunnels: ts, ..client.config })
        }),
{
    let tasks = client.tunnel_tasks;
    let left = kept(tasks, ts);
    let fresh = not_running(ts, left);
    let started = numbered(fresh, client.next_tunnel_index);
    let k = tunnel_key(t);
    lemma_with_started_dom(left, started, k);
    lemma_not_running_members(ts, left);
    assert(wanted(ts, k) <==> ts.contains(t)) by {
        if wanted(ts, k) {
            let j = choose|j: int| 0 <= j < ts.len() && tunnel_key(#[trigger] ts[j]) == k;
            lemma_tunnel_key_injective(ts[j], t);
        }
        if ts.contains(t) {
            let j = choose|j: int| 0 <= j < ts.len() && ts[j] == t;
            assert(tunnel_key(ts[j]) == k);
        }
    }
    assert((exists|j: int| 0 <= j < started.len() && tunnel_key((#[trigger] started[j]).config) == k)
        <==> fresh.contains(t)) by {
        if exists|j: int| 0 <= j < started.len() && tunnel_key((#[trigger] started[j]).config) == k {
            let j = choose|j: int|
                0 <= j < started.len() && tunnel_key((#[trigger] started[j]).config) == k;
            assert(started[j].config == fresh[j]);
            lemma_tunnel_key_injective(fresh[j], t);
            assert(fresh.contains(fresh[j]));
        }
        if fresh.contains(t) {
            let j = choose|j: int| 0 <= j < fresh.len() && fresh[j] == t;
            assert(started[j].config == t);
        }
    }
    if tasks.dom().contains(k) && ts.contains(t) {
        lemma_with_started_keeps(left, started, k);
    }
}

proof fn lemma_with_started_keeps(
    tasks: Map<TunnelKey, usize>,
    started: Seq<StartedTunnel>,
    k: TunnelKey,
)
    requires
        forall|j: int| 0 <= j < started.len() ==> tunnel_key((#[trigger] started[j]).config) != k,
    ensures
        with_started(tasks, started)[k] == tasks[k],
    decreases started.len(),
{
    if started.len() > 0 {
        let shorter = started.drop_last();
        assert(forall|j: int| 0 <= j < shorter.len() ==> shorter[j] == #[trigger] started[j]);
        assert(tunnel_key(started[started.len() - 1].config) != k);
        lemma_with_started_keeps(tasks, shorter, k);
    }
}

/// What to cancel, shut down and close when the client stops.
pub struct StopPlan {
    /// Indices of the tunnels to cancel, in no particular order.
    pub cancelled: Vec<usize>,
    pub closed: ClosePlan,
}

/// What to shut down and close when the client stops, each list in no particular order.
pub struct ClosePlan {
    pub tcp_servers: Vec<usize>,
    pub udp_servers: Vec<usize>,
    pub connections: Vec<usize>,
    /// Whether there is an endpoint to close.
    pub endpoint: bool,
}

impl ClosePlan {
    /// Whether the plan names all that is open.
    pub open spec fn covers(self, client: ClientView) -> bool {
        &&& are_values(self.tcp_servers@, client.tcp_servers)
        &&& are_values(self.udp_servers@, client.udp_servers)
        &&& are_values(self.connections@, client.connections)
        &&& self.endpoint == client.endpoint
    }
}

/// Delay before the first further attempt to bind a local server (s).
pub const MIN_BIND_DELAY_SECS: u64 = 1;

/// Longest delay before a further attempt to bind a local server (s).
pub const MAX_BIND_DELAY_SECS: u64 = 10;

/// How often binding a local server is tried again.
pub const BIND_RETRIES: usize = 10;

/// What to do about a local server that was to be bound.
#[derive(Clone, Copy, Debug, PartialEq, Eq, Structural)]
pub enum BindStep {
    /// Nothing: it has been started.
    Started,
    /// Try again after this delay (s).
    RetryAfter(u64),
    /// Give up.
    GiveUp,
}

/// The delay after the attempt to bind with the given number, from 0 on: it doubles with each
/// attempt, up to the longest one.
pub open spec fn bind_delay(attempt: nat) -> nat
    decreases attempt,
{
    if attempt == 0 {
        MIN_BIND_DELAY_SECS as nat
    } else if 2 * bind_delay((attempt - 1) as nat) < MAX_BIND_DELAY_SECS {
        2 * bind_delay((attempt - 1) as nat)
    } else {
        MAX_BIND_DELAY_SECS as nat
    }
}

/// What to do after the attempt to bind with the given number has failed.
pub open spec fn bind_failed(attempt: nat) -> BindStep {
    if attempt < BIND_RETRIES {
        BindStep::RetryAfter(bind_delay(attempt) as u64)
    } else {
        BindStep::GiveUp
    }
}

fn after_failed_bind(attempt: usize) -> (r: BindStep)
    ensures
        r == bind_failed(attempt as nat),
{
    if attempt >= BIND_RETRIES {
        return BindStep::GiveUp;
    }
    let mut delay: u64 = MIN_BIND_DELAY_SECS;
    let mut i: usize = 0;
    while i < attempt
        invariant
            i <= attempt,
            delay == bind_delay(i as nat),
            delay <= MAX_BIND_DELAY_SECS,
        decreases attempt - i,
    {
        delay = if 2 * delay < MAX_BIND_DELAY_SECS {
            2 * delay
        } else {
            MAX_BIND_DELAY_SECS
        };
        i += 1;
    }
    BindStep::RetryAfter(delay)
}

/// An attempt to bind is followed by another one no sooner than after the shortest delay and no
/// later than after the longest, never sooner than the attempt before it was, and all attempts
/// end.
pub proof fn bind_delays_grow(attempt: nat)
    ensures
        MIN_BIND_DELAY_SECS <= bind_delay(attempt) <= MAX_BIND_DELAY_SECS,
        bind_delay(attempt) <= bind_delay(attempt + 1),
        bind_failed(attempt) == BindStep::GiveUp <==> attempt >= BIND_RETRIES,
    decreases attempt,
{
    reveal_with_fuel(bind_delay, 2);
    if attempt > 0 {
        bind_delays_grow((attempt - 1) as nat);
    }
}

impl Client {
    /// Takes note of the attempt with the given number, from 0 on, to start a local TCP server for
    /// an OUT tunnel: it led to the given server, or failed.
    pub fn start_tcp_server(
        &mut self,
        addr: SocketAddr,
        attempt: usize,
        bound: Option<usize>,
    ) -> (r: BindStep)
        ensures
            match bound {
                Some(server) => r == BindStep::Started && final(self)@ == (ClientView {
                    tcp_servers: old(self)@.tcp_servers.insert(addr_key(Some(addr)), server),
                    ..old(self)@
                }),
                None => r == bind_failed(attempt as nat) && final(self)@ == old(self)@,
            },
    {
        match bound {
            Some(server) => {
                addr_map_insert(&mut self.tcp_servers, key_of_addr(Some(addr)), server);
                BindStep::Started
            },
            None => after_failed_bind(attempt),
        }
    }

    /// Takes note of the attempt with the given number, from 0 on, to start a local UDP server for
    /// an OUT tunnel: it led to the given server, or failed.
    pub fn start_udp_server(
        &mut self,
        addr: SocketAddr,
        attempt: usize,
        bound: Option<usize>,
    ) -> (r: BindStep)
        ensures
            match bound {
                Some(server) => r == BindStep::Started && final(self)@ == (ClientView {
                    udp_servers: old(self)@.udp_servers.insert(addr_key(Some(addr)), server),
                    ..old(self)@
                }),
                None => r == bind_failed(attempt as nat) && final(self)@ == old(self)@,
            },
    {
        match bound {
            Some(server) => {
                addr_map_insert(&mut self.udp_servers, key_of_addr(Some(addr)), server);
                BindStep::Started
            },
            None => after_failed_bind(attempt),
        }
    }

    /// Whether the QUIC endpoint is open.
    pub fn has_endpoint(&self) -> (r: bool)
        ensures
            r == self@.endpoint,
    {
        self.endpoint
    }

    /// Notes that the QUIC endpoint has been opened.
    pub fn endpoint_opened(&mut self)
        ensures
            final(self)@ == (ClientView { endpoint: true, ..old(self)@ }),
    {
        self.endpoint = true;
    }

    /// Enters the connection that serves a tunnel.
    pub fn connection_opened(&mut self, tunnel_config: TunnelConfig, connection: usize)
        ensures
            final(self)@ == (ClientView {
                connections: old(self)@.connections.insert(tunnel_key(tunnel_config), connection),
                ..old(self)@
            }),
    {
        tunnel_map_insert(&mut self.connections, key_of_tunnel(tunnel_config), connection);
    }

    /// Takes the connection out that served a tunnel.
    pub fn connection_closed(&mut self, tunnel_config: TunnelConfig)
        ensures
            final(self)@ == (ClientView {
                connections: old(self)@.connections.remove(tunnel_key(tunnel_config)),
                ..old(self)@
            }),
    {
        tunnel_map_remove(&mut self.connections, &key_of_tunnel(tunnel_config));
    }

    /// The connection that serves a tunnel.
    pub fn connection_of(&self, tunnel_config: TunnelConfig) -> (r: Option<usize>)
        ensures
            r == lookup(self@.connections, tunnel_key(tunnel_config)),
    {
        tunnel_map_get(&self.connections, &key_of_tunnel(tunnel_config))
    }

    /// The index under which a tunnel runs.
    pub fn index_of(&self, tunnel_config: TunnelConfig) -> (r: Option<usize>)
        ensures
            r == lookup(self@.tunnel_tasks, tunnel_key(tunnel_config)),
    {
        tunnel_map_get(&self.tunnel_tasks, &key_of_tunnel(tunnel_config))
    }

    /// Adds the traffic of a connection that has ended to the total.
    pub fn add_traffic(&mut self, stats: TunnelTraffic)
        requires
            old(self)@.total_traffic_data.addable(stats),
        ensures
            final(self)@ == (ClientView {
                total_traffic_data: old(self)@.total_traffic_data.plus(stats),
                ..old(self)@
            }),
    {
        self.total_traffic_data = self.total_traffic_data.add(stats);
    }

    /// The traffic of all connections, given that of those still open.
    pub fn traffic(&self, open: &[TunnelTraffic]) -> (r: TunnelTraffic)
        requires
            no_traffic().all_addable(open@),
            no_traffic().plus_all(open@).addable(self@.total_traffic_data),
        ensures
            r == no_traffic().plus_all(open@).plus(self@.total_traffic_data),
    {
        let mut sum = TunnelTraffic::default();
        let mut i: usize = 0;
        assert(open@.take(0) =~= Seq::empty());
        assert(open@.take(open@.len() as int) =~= open@);
        while i < open.len()
            invariant
                i <= open@.len(),
                sum == no_traffic().plus_all(open@.take(i as int)),
                no_traffic().all_addable(open@),
            decreases open@.len() - i,
        {
            proof {
                lemma_all_addable_prefix(no_traffic(), open@, i + 1);
                assert(open@.take(i + 1).drop_last() =~= open@.take(i as int));
            }
            sum = sum.add(open[i]);
            i += 1;
        }
        assert(open@.take(open@.len() as int) =~= open@);
        sum.add(self.total_traffic_data)
    }

    /// First step of stopping: no tunnel runs any more; their indices come back, to be cancelled
    /// and waited for.
    pub fn stop_async(&mut self) -> (cancelled: Vec<usize>)
        ensures
            are_values(cancelled@, old(self)@.tunnel_tasks),
            final(self)@ == old(self)@.stopping(),
    {
        self.set_and_post_tunnel_state(ClientState::Stopping);
        tunnel_map_drain(&mut self.tunnel_tasks)
    }

    /// Second step of stopping: nothing is open any more; what was comes back, to be shut down
    /// and closed.
    pub fn close_all(&mut self) -> (closed: ClosePlan)
        ensures
            closed.covers(old(self)@),
            final(self)@ == old(self)@.closed(),
    {
        let endpoint = self.endpoint;
        self.endpoint = false;
        ClosePlan {
            tcp_servers: addr_map_drain(&mut self.tcp_servers),
            udp_servers: addr_map_drain(&mut self.udp_servers),
            connections: tunnel_map_drain(&mut self.connections),
            endpoint,
        }
    }

    /// Third step of stopping, once all of that has ended.
    pub fn stopped(&mut self)
        ensures
            final(self)@ == old(self)@.terminated(),
    {
        self.set_and_post_tunnel_state(ClientState::Terminated);
    }

    /// The first two steps of stopping at once, for a caller that does not wait for the end.
    pub fn stop(&mut self) -> (r: StopPlan)
        ensures
            are_values(r.cancelled@, old(self)@.tunnel_tasks),
            r.closed.covers(old(self)@),
            final(self)@ == old(self)@.stopping().closed(),
    {
        let cancelled = self.stop_async();
        let closed = self.close_all();
        StopPlan { cancelled, closed }
    }
}

/// A client that has taken all steps of stopping has terminated and holds nothing that runs or is
/// open: to stop it again changes nothing, and there is nothing to cancel or to close.
pub proof fn stopping_leaves_nothing(
    client: ClientView,
    cancelled: Seq<usize>,
    closed: ClosePlan,
)
    requires
        are_values(cancelled, client.stopping().closed().terminated().tunnel_tasks),
        closed.covers(client.stopping().closed().terminated().stopping()),
    ensures
        ({
            let ended = client.stopping().closed().terminated();
            &&& ended.client_state == ClientState::Terminated
            &&& ended.stopping().closed().terminated() == ended
        }),
        cancelled.len() == 0,
        closed.tcp_servers@.len() == 0,
        closed.udp_servers@.len() == 0,
        closed.connections@.len() == 0,
        !closed.endpoint,
{
    lemma_no_values(cancelled, Map::<TunnelKey, usize>::empty());
    lemma_no_values(closed.tcp_servers@, Map::<AddrKey, usize>::empty());
    lemma_no_values(closed.udp_servers@, Map::<AddrKey, usize>::empty());
    lemma_no_values(closed.connections@, Map::<TunnelKey, usize>::empty());
}

proof fn lemma_no_values<K>(values: Seq<usize>, m: Map<K, usize>)
    requires
        are_values(values, m),
        m == Map::<K, usize>::empty(),
    ensures
        values.len() == 0,
{
    let keys = choose|keys: Seq<K>|
        #![trigger keys.no_duplicates()]
        {
            &&& keys.no_duplicates()
            &&& forall|k: K| keys.contains(k) <==> m.dom().contains(k)
            &&& values == keys.map_values(|k: K| m[k])
        };
    if keys.len() > 0 {
        assert(keys.contains(keys[0]));
    }
}

/// No traffic at all.
pub open spec fn no_traffic() -> TunnelTraffic {
    TunnelTraffic { rx_bytes: 0, tx_bytes: 0, rx_dgrams: 0, tx_dgrams: 0 }
}

proof fn lemma_all_addable_prefix(start: TunnelTraffic, all: Seq<TunnelTraffic>, n: int)
    requires
        0 <= n <= all.len(),
        start.all_addable(all),
    ensures
        start.all_addable(all.take(n)),
    decreases all.len() - n,
{
    if n < all.len() {
        lemma_all_addable_prefix(start, all, n + 1);
        assert(all.take(n + 1).drop_last() =~= all.take(n));
    } else {
        assert(all.take(n) =~= all);
    }
}

} // verus!
