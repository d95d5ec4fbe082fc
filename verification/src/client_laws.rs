//! Which tunnels a client accepts, starts, keeps and cancels, and what it counts.

use crate::addr::SocketAddr;
use crate::client::{
    are_removed, bind_delay, bind_failed, claims, index_after, lemma_no_tunnel_error, not_running,
    numbered, others, replaced_by, tunnel_error_at, tunnels_error, wanted, with_started, BindStep,
    Client, ClientState, ClientView, ClosePlan, StartPlan, StartedTunnel, StopPlan, TunnelTraffic,
    TunnelUpdate, TunnelUpdateView, TunnelsError,
};
use crate::config::{ClientConfig, ConfigError, TunnelConfig, UpstreamType};
use crate::hash_tables::{
    addr_key, are_values, lemma_tunnel_key_injective, lookup, tunnel_key, TunnelKey,
};
use crate::settings::{listed, toml_tunnels, RuntimeKind, TomlTunnel};
use crate::watcher::{
    ConfigWatcher, ConfigWatcherView, UpdateAction, UpdateEvent, UpdateLoop, WatchStep,
};
use vstd::prelude::*;

verus! {

/// The port of the server that a tunnel claims: the port of its transport that the server is to
/// bind for it.
pub open spec fn claimed_port(t: TunnelConfig) -> Option<(UpstreamType, u16)> {
    match t.upstream.upstream_addr {
        Some(SocketAddr::V4(a)) => Some((t.upstream.upstream_type, a.port)),
        Some(SocketAddr::V6(a)) => Some((t.upstream.upstream_type, a.port)),
        None => None,
    }
}

/// Tunnels are accepted if each claims a port of the server that is not zero and no two claim the
/// same one of the same transport: neither their local addresses nor their directions matter, and
/// a port may be claimed once for TCP and once for UDP.
pub proof fn tunnels_with_ports_of_their_own_are_accepted(ts: Seq<TunnelConfig>)
    requires
        forall|i: int|
            0 <= i < ts.len() ==> claimed_port(#[trigger] ts[i]) is Some && (claimed_port(
                ts[i],
            )->0).1 != 0,
        forall|i: int, j: int|
            0 <= i < j < ts.len() ==> claimed_port(#[trigger] ts[i]) != claimed_port(
                #[trigger] ts[j],
            ),
    ensures
        tunnels_error(ts) is None,
    decreases ts.len(),
{
    if ts.len() > 0 {
        let shorter = ts.drop_last();
        assert forall|i: int| 0 <= i < shorter.len() implies claimed_port(
            #[trigger] shorter[i],
        ) is Some && (claimed_port(shorter[i])->0).1 != 0 by {
            assert(shorter[i] == ts[i]);
        }
        assert forall|i: int, j: int| 0 <= i < j < shorter.len() implies claimed_port(
            #[trigger] shorter[i],
        ) != claimed_port(#[trigger] shorter[j]) by {
            assert(shorter[i] == ts[i] && shorter[j] == ts[j]);
        }
        tunnels_with_ports_of_their_own_are_accepted(shorter);
        let n = ts.len() - 1;
        assert(claimed_port(ts[n]) is Some);
    }
}

/// Tunnels are refused only for what is true of one of them: it occurs twice, it names no address
/// to bind, it asks for port zero, or an earlier one of its transport claims its port. The error
/// says which.
pub proof fn refusal_of_tunnels_is_true(ts: Seq<TunnelConfig>)
    ensures
        match tunnels_error(ts) {
            None => true,
            Some(TunnelsError::DuplicateTunnel) => exists|i: int, j: int|
                0 <= i < j < ts.len() && #[trigger] ts[i] == #[trigger] ts[j],
            Some(TunnelsError::NoBindAddress) => exists|i: int|
                0 <= i < ts.len() && (#[trigger] ts[i]).upstream.upstream_addr is None,
            Some(TunnelsError::ZeroPort) => exists|i: int|
                0 <= i < ts.len() && claimed_port(#[trigger] ts[i]) is Some && (claimed_port(
                    ts[i],
                )->0).1 == 0,
            Some(TunnelsError::PortClaimedTwice(upstream_type, port)) => exists|i: int, j: int|
                0 <= i < j < ts.len() && claimed_port(#[trigger] ts[i]) == Some(
                    (upstream_type, port),
                ) && claimed_port(#[trigger] ts[j]) == Some((upstream_type, port)),
        },
    decreases ts.len(),
{
    if ts.len() > 0 {
        let shorter = ts.drop_last();
        let n = ts.len() - 1;
        refusal_of_tunnels_is_true(shorter);
        match tunnels_error(shorter) {
            Some(TunnelsError::DuplicateTunnel) => {
                let (i, j) = choose|i: int, j: int|
                    0 <= i < j < shorter.len() && #[trigger] shorter[i] == #[trigger] shorter[j];
                assert(ts[i] == ts[j]);
            },
            Some(TunnelsError::NoBindAddress) => {
                let i = choose|i: int|
                    0 <= i < shorter.len() && (
                    #[trigger] shorter[i]).upstream.upstream_addr is None;
                assert(ts[i] == shorter[i]);
            },
            Some(TunnelsError::ZeroPort) => {
                let i = choose|i: int|
                    0 <= i < shorter.len() && claimed_port(#[trigger] shorter[i]) is Some
                        && (claimed_port(shorter[i])->0).1 == 0;
                assert(ts[i] == shorter[i]);
            },
            Some(TunnelsError::PortClaimedTwice(upstream_type, port)) => {
                let (i, j) = choose|i: int, j: int|
                    0 <= i < j < shorter.len() && claimed_port(#[trigger] shorter[i]) == Some(
                        (upstream_type, port),
                    ) && claimed_port(#[trigger] shorter[j]) == Some((upstream_type, port));
                assert(ts[i] == shorter[i] && ts[j] == shorter[j]);
            },
            None => {
                lemma_error_at(ts, n);
            },
        }
    }
}

proof fn lemma_error_at(ts: Seq<TunnelConfig>, n: int)
    requires
        0 <= n < ts.len(),
    ensures
        match tunnel_error_at(ts, n) {
            None => true,
            Some(TunnelsError::DuplicateTunnel) => exists|i: int|
                0 <= i < n && #[trigger] ts[i] == ts[n],
            Some(TunnelsError::NoBindAddress) => ts[n].upstream.upstream_addr is None,
            Some(TunnelsError::ZeroPort) => claimed_port(ts[n]) is Some && (claimed_port(
                ts[n],
            )->0).1 == 0,
            Some(TunnelsError::PortClaimedTwice(upstream_type, port)) => claimed_port(ts[n])
                == Some((upstream_type, port)) && exists|i: int|
                0 <= i < n && claimed_port(#[trigger] ts[i]) == Some((upstream_type, port)),
        },
{
    if let Some(TunnelsError::PortClaimedTwice(upstream_type, port)) = tunnel_error_at(ts, n) {
        let i = choose|i: int|
            0 <= i < n && claims(#[trigger] ts[i], upstream_type, port);
        assert(claimed_port(ts[i]) == Some((upstream_type, port)));
    }
}

/// Whatever is true against one tunnel of a set speaks against the set.
pub proof fn every_fault_refuses_the_set(ts: Seq<TunnelConfig>, i: int, j: int)
    requires
        0 <= i < j < ts.len(),
    ensures
        claimed_port(ts[j]) is None ==> tunnels_error(ts) is Some,
        claimed_port(ts[j]) is Some && (claimed_port(ts[j])->0).1 == 0 ==> tunnels_error(
            ts,
        ) is Some,
        claimed_port(ts[i]) == claimed_port(ts[j]) ==> tunnels_error(ts) is Some,
{
    if tunnels_error(ts) is None {
        lemma_no_tunnel_error(ts, i);
        lemma_no_tunnel_error(ts, j);
        if claimed_port(ts[i]) == claimed_port(ts[j]) && claimed_port(ts[j]) is Some {
            let (upstream_type, port) = claimed_port(ts[j])->0;
            assert(claims(ts[i], upstream_type, port));
        }
    }
}

/// Tunnels that are started are started in the order in which they are configured, and only those
/// that do not run yet.
pub proof fn missing_tunnels_are_started_in_order(
    client: ClientView,
    ts: Seq<TunnelConfig>,
    t: TunnelConfig,
)
    ensures
        ({
            let started = client.missing(ts);
            let more = client.missing(ts.push(t));
            &&& lookup(client.tunnel_tasks, tunnel_key(t)) is Some ==> more == started
            &&& lookup(client.tunnel_tasks, tunnel_key(t)) is None ==> {
                &&& more.len() == started.len() + 1
                &&& more.take(started.len() as int) == started
                &&& more.last().config == t
                &&& client.next_tunnel_index + started.len() <= usize::MAX ==> more.last().index
                    == client.next_tunnel_index + started.len()
            }
            &&& client.missing(Seq::empty()).len() == 0
        }),
{
    reveal(Seq::filter);
    let all = ts.push(t);
    assert(all.drop_last() =~= ts);
    let fresh = not_running(ts, client.tunnel_tasks);
    let n = client.next_tunnel_index;
    if lookup(client.tunnel_tasks, tunnel_key(t)) is None {
        assert(not_running(all, client.tunnel_tasks) =~= fresh.push(t));
        let more = numbered(fresh.push(t), n);
        assert(more.take(fresh.len() as int) =~= numbered(fresh, n));
        if n + fresh.len() <= usize::MAX {
            lemma_index_counts(n, fresh.len());
        }
    }
    assert(not_running(Seq::empty(), client.tunnel_tasks) =~= Seq::empty());
}

proof fn lemma_index_counts(index: usize, k: nat)
    requires
        index + k <= usize::MAX,
    ensures
        index_after(index, k) == index + k,
    decreases k,
{
    if k > 0 {
        lemma_index_counts(index, (k - 1) as nat);
    }
}

/// Indices count up by one and start again at zero after the largest.
pub proof fn indices_count_up(index: usize, k: nat)
    ensures
        index_after(index, 0) == index,
        index_after(index, k) < usize::MAX ==> index_after(index, k + 1) == index_after(index, k)
            + 1,
        index_after(index, k) == usize::MAX ==> index_after(index, k + 1) == 0,
{
}

/// A tunnel that has been started runs under the index it was started with, and no other tunnel's
/// index changes.
pub proof fn started_tunnel_runs_under_its_index(
    tasks: Map<TunnelKey, usize>,
    started: Seq<StartedTunnel>,
    fresh: StartedTunnel,
    other: TunnelConfig,
)
    ensures
        lookup(with_started(tasks, started.push(fresh)), tunnel_key(fresh.config)) == Some(
            fresh.index,
        ),
        other != fresh.config ==> lookup(
            with_started(tasks, started.push(fresh)),
            tunnel_key(other),
        ) == lookup(with_started(tasks, started), tunnel_key(other)),
        with_started(tasks, Seq::empty()) == tasks,
{
    assert(started.push(fresh).drop_last() =~= started);
    if tunnel_key(other) == tunnel_key(fresh.config) {
        lemma_tunnel_key_injective(other, fresh.config);
    }
}

/// Starting all tunnels anew replaces exactly those that run already, in the order in which they
/// are configured.
pub proof fn running_tunnels_are_replaced_in_order(
    tasks: Map<TunnelKey, usize>,
    ts: Seq<TunnelConfig>,
    t: TunnelConfig,
)
    ensures
        lookup(tasks, tunnel_key(t)) is None ==> replaced_by(ts.push(t), tasks) == replaced_by(
            ts,
            tasks,
        ),
        lookup(tasks, tunnel_key(t)) is Some ==> replaced_by(ts.push(t), tasks) == replaced_by(
            ts,
            tasks,
        ).push(tasks[tunnel_key(t)]),
        replaced_by(Seq::empty(), tasks).len() == 0,
{
    assert(ts.push(t).drop_last() =~= ts);
}

/// An update cancels the tunnels that run and are not among the new ones, all of them and no
/// others.
pub proof fn update_cancels_what_is_no_longer_wanted(
    removed: Seq<usize>,
    tasks: Map<TunnelKey, usize>,
    ts: Seq<TunnelConfig>,
    t: TunnelConfig,
    index: usize,
)
    requires
        are_removed(removed, tasks, ts),
    ensures
        tasks.dom().contains(tunnel_key(t)) && !ts.contains(t) ==> removed.contains(
            tasks[tunnel_key(t)],
        ),
        removed.contains(index) ==> exists|k: TunnelKey| #[trigger]
            tasks.dom().contains(k) && tasks[k] == index && !wanted(ts, k),
        (forall|k: TunnelKey| #[trigger] tasks.dom().contains(k) ==> wanted(ts, k))
            ==> removed.len() == 0,
{
    let keys = choose|keys: Seq<TunnelKey>|
        #![trigger keys.no_duplicates()]
        {
            &&& keys.no_duplicates()
            &&& forall|k: TunnelKey|
                keys.contains(k) <==> tasks.dom().contains(k) && !wanted(ts, k)
            &&& removed == keys.map_values(|k: TunnelKey| tasks[k])
        };
    let key = tunnel_key(t);
    if tasks.dom().contains(key) && !ts.contains(t) {
        if wanted(ts, key) {
            let j = choose|j: int| 0 <= j < ts.len() && tunnel_key(#[trigger] ts[j]) == key;
            lemma_tunnel_key_injective(ts[j], t);
            assert(ts.contains(ts[j]));
        }
        let j = choose|j: int| 0 <= j < keys.len() && keys[j] == key;
        assert(removed[j] == tasks[key]);
    }
    if removed.contains(index) {
        let j = choose|j: int| 0 <= j < removed.len() && removed[j] == index;
        assert(keys.contains(keys[j]));
        assert(tasks.dom().contains(keys[j]));
    }
    if removed.len() > 0 {
        assert(keys.contains(keys[0]));
        assert(tasks.dom().contains(keys[0]));
    }
}

/// A removed tunnel that has ended is no longer waited for, and no other is forgotten.
pub proof fn ended_tunnel_is_no_longer_awaited(
    update: TunnelUpdateView,
    index: usize,
    other: usize,
)
    ensures
        !update.without(index).waiting.contains(index),
        other != index ==> (update.without(index).waiting.contains(other)
            <==> update.waiting.contains(other)),
        update.without(index).tunnels == update.tunnels,
{
    lemma_others(update.waiting, index, index);
    lemma_others(update.waiting, index, other);
}

proof fn lemma_others(indices: Seq<usize>, index: usize, other: usize)
    ensures
        others(indices, index).contains(other) <==> indices.contains(other) && other
            != index,
    decreases indices.len(),
{
    reveal(Seq::filter);
    if indices.len() > 0 {
        let shorter = indices.drop_last();
        let last = indices.last();
        lemma_others(shorter, index, other);
        assert(indices =~= shorter.push(last));
        lemma_push_contains(shorter, last, other);
        lemma_push_contains(others(shorter, index), last, other);
    }
}

proof fn lemma_push_contains(indices: Seq<usize>, last: usize, index: usize)
    ensures
        indices.push(last).contains(index) <==> indices.contains(index) || index == last,
{
    let more = indices.push(last);
    if indices.contains(index) {
        let j = choose|j: int| 0 <= j < indices.len() && indices[j] == index;
        assert(more[j] == index);
    }
    if more.contains(index) {
        let j = choose|j: int| 0 <= j < more.len() && more[j] == index;
        if j < indices.len() {
            assert(indices[j] == index);
        }
    }
    assert(more[indices.len() as int] == last);
}

/// Traffic is summed up counter by counter: what is received and what is sent, bytes and
/// datagrams, each on its own.
pub proof fn traffic_adds_up(
    start: TunnelTraffic,
    all: Seq<TunnelTraffic>,
    one: TunnelTraffic,
)
    requires
        start.all_addable(all.push(one)),
    ensures
        start.plus_all(all.push(one)).rx_bytes == start.plus_all(all).rx_bytes + one.rx_bytes,
        start.plus_all(all.push(one)).tx_bytes == start.plus_all(all).tx_bytes + one.tx_bytes,
        start.plus_all(all.push(one)).rx_dgrams == start.plus_all(all).rx_dgrams + one.rx_dgrams,
        start.plus_all(all.push(one)).tx_dgrams == start.plus_all(all).tx_dgrams + one.tx_dgrams,
        start.plus_all(Seq::empty()) == start,
{
    assert(all.push(one).drop_last() =~= all);
}

/// A local server that could not be bound is tried again ten times: after one second at first,
/// after twice as long each time, and after at most ten seconds.
pub proof fn binding_is_tried_again(attempt: nat)
    ensures
        bind_failed(0) == BindStep::RetryAfter(1),
        attempt < 10 <==> bind_failed(attempt) is RetryAfter,
        attempt >= 10 <==> bind_failed(attempt) is GiveUp,
        attempt < 10 ==> bind_failed(attempt) == BindStep::RetryAfter(bind_delay(attempt) as u64),
        2 * bind_delay(attempt) <= 10 ==> bind_delay(attempt + 1) == 2 * bind_delay(attempt),
        2 * bind_delay(attempt) > 10 ==> bind_delay(attempt + 1) == 10,
{
}

/// Stopping cancels all tunnels, closing closes all servers and connections and the endpoint, and
/// neither loses anything else: the configuration, the traffic counted so far, the next index and
/// the listener stay.
pub proof fn stopping_keeps_the_rest(client: ClientView)
    ensures
        ({
            let stopping = client.stopping();
            let closed = client.closed();
            let ended = client.terminated();
            &&& stopping.client_state == ClientState::Stopping
            &&& stopping.tunnel_tasks.dom() =~= Set::<TunnelKey>::empty()
            &&& stopping.connections == client.connections
            &&& stopping.tcp_servers == client.tcp_servers
            &&& stopping.udp_servers == client.udp_servers
            &&& stopping.endpoint == client.endpoint
            &&& !closed.endpoint
            &&& closed.connections.dom() =~= Set::<TunnelKey>::empty()
            &&& closed.tcp_servers.dom() =~= Set::empty()
            &&& closed.udp_servers.dom() =~= Set::empty()
            &&& closed.client_state == client.client_state
            &&& closed.tunnel_tasks == client.tunnel_tasks
            &&& ended == (ClientView { client_state: ClientState::Terminated, ..client })
            &&& stopping.config == client.config && closed.config == client.config
            &&& stopping.total_traffic_data == client.total_traffic_data
            &&& closed.total_traffic_data == client.total_traffic_data
            &&& stopping.next_tunnel_index == client.next_tunnel_index
            &&& closed.next_tunnel_index == client.next_tunnel_index
            &&& stopping.info_listener == client.info_listener
            &&& closed.info_listener == client.info_listener
            &&& stopping.info_report == client.info_report
            &&& closed.info_report == client.info_report
        }),
{
}

/// What is named when everything is to be cancelled or closed is all there is: each value that is
/// held, and no other.
pub proof fn all_values_are_named<K>(values: Seq<usize>, m: Map<K, usize>, k: K, value: usize)
    requires
        are_values(values, m),
    ensures
        m.dom().contains(k) ==> values.contains(m[k]),
        values.contains(value) ==> exists|k1: K| #[trigger] m.dom().contains(k1) && m[k1] == value,
{
    let keys = choose|keys: Seq<K>|
        #![trigger keys.no_duplicates()]
        {
            &&& keys.no_duplicates()
            &&& forall|k: K| keys.contains(k) <==> m.dom().contains(k)
            &&& values == keys.map_values(|k: K| m[k])
        };
    if m.dom().contains(k) {
        assert(keys.contains(k));
        let j = choose|j: int| 0 <= j < keys.len() && keys[j] == k;
        assert(values[j] == m[k]);
    }
    if values.contains(value) {
        let j = choose|j: int| 0 <= j < values.len() && values[j] == value;
        assert(keys.contains(keys[j]));
        assert(m.dom().contains(keys[j]));
    }
}

/// The file is taken on exactly when its content differs from what was read last, and it is warned
/// of exactly when it cannot be read for another reason than the last time. That it cannot be
/// read does not change what was read last.
pub proof fn file_is_followed(
    watcher: ConfigWatcherView,
    content: Seq<char>,
    message: Seq<char>,
)
    ensures
        ({
            let (read, step) = watcher.after(Ok(content));
            let (failed, warning) = watcher.after(Err(message));
            &&& step == WatchStep::Parse <==> content != watcher.last_content
            &&& step == WatchStep::Wait <==> content == watcher.last_content
            &&& read.last_content == content
            &&& read.last_read_error is None
            &&& warning == WatchStep::Warn <==> watcher.last_read_error != Some(message)
            &&& warning == WatchStep::Wait <==> watcher.last_read_error == Some(message)
            &&& failed.last_content == watcher.last_content
            &&& failed.last_read_error == Some(message)
        }),
{
}

/// Tunnels with ports of their own pass, and tunnels that share one do not.
pub proof fn tunnels_are_validated(
    tunnels: &[TunnelConfig],
    r: Result<(), TunnelsError>,
    i: int,
    j: int,
)
    requires
        call_ensures(Client::validate_tunnels, (tunnels,), r),
    ensures
        (forall|i: int|
            0 <= i < tunnels@.len() ==> claimed_port(#[trigger] tunnels@[i]) is Some && (
            claimed_port(tunnels@[i])->0).1 != 0) && (forall|i: int, j: int|
            0 <= i < j < tunnels@.len() ==> claimed_port(#[trigger] tunnels@[i]) != claimed_port(
                #[trigger] tunnels@[j],
            )) ==> r is Ok,
        0 <= i < j < tunnels@.len() && claimed_port(tunnels@[i]) == claimed_port(tunnels@[j])
            ==> r is Err,
        0 <= i < tunnels@.len() && claimed_port(tunnels@[i]) is None ==> r is Err,
        0 <= i < tunnels@.len() && claimed_port(tunnels@[i]) is Some && (claimed_port(
            tunnels@[i],
        )->0).1 == 0 ==> r is Err,
{
    let ts = tunnels@;
    if (forall|i: int|
        0 <= i < ts.len() ==> claimed_port(#[trigger] ts[i]) is Some && (claimed_port(ts[i])->0).1
            != 0) && (forall|i: int, j: int|
        0 <= i < j < ts.len() ==> claimed_port(#[trigger] ts[i]) != claimed_port(
            #[trigger] ts[j],
        )) {
        tunnels_with_ports_of_their_own_are_accepted(ts);
    }
    if 0 <= i < j < ts.len() {
        every_fault_refuses_the_set(ts, i, j);
    }
    if 0 <= i < ts.len() && tunnels_error(ts) is None {
        lemma_no_tunnel_error(ts, i);
    }
}

/// The configured tunnels are started all together or not at all: in the order of the
/// configuration, under consecutive indices, each then running under its own. Migration is due as
/// often as is configured.
pub proof fn configured_tunnels_are_started(
    client: &mut Client,
    r: Result<StartPlan, TunnelsError>,
    i: int,
)
    requires
        call_ensures(Client::connect_and_serve_async, (client,), r),
    ensures
        r is Err ==> final(client)@ == old(client)@,
        r is Ok <==> tunnels_error(old(client)@.config.tunnels) is None,
        r matches Ok(plan) ==> {
            &&& plan.started@.len() == old(client)@.config.tunnels.len()
            &&& 0 <= i < plan.started@.len() ==> plan.started@[i].config
                == old(client)@.config.tunnels[i]
            &&& 0 <= i < plan.started@.len() && old(client)@.next_tunnel_index + i <= usize::MAX
                ==> plan.started@[i].index == old(client)@.next_tunnel_index + i
            &&& plan.migrate_every_ms is None <==> old(client)@.config.hop_interval_ms == 0
            &&& plan.migrate_every_ms is Some ==> plan.migrate_every_ms->0
                == old(client)@.config.hop_interval_ms
            &&& final(client)@.config == old(client)@.config
            &&& final(client)@.connections == old(client)@.connections
        },
{
    if r is Ok && 0 <= i && old(client)@.next_tunnel_index + i <= usize::MAX {
        lemma_index_counts(old(client)@.next_tunnel_index, i as nat);
    }
}

/// A tunnel that is entered among the running ones gets the next index and is found under it; no
/// other tunnel's index changes, and the next tunnel gets another one.
pub proof fn entered_tunnel_is_found(
    client: &mut Client,
    t: TunnelConfig,
    other: TunnelConfig,
    index: usize,
)
    requires
        call_ensures(Client::spawn_network_tunnel, (client, t), index),
    ensures
        index == old(client)@.next_tunnel_index,
        lookup(final(client)@.tunnel_tasks, tunnel_key(t)) == Some(index),
        other != t ==> lookup(final(client)@.tunnel_tasks, tunnel_key(other)) == lookup(
            old(client)@.tunnel_tasks,
            tunnel_key(other),
        ),
        final(client)@.next_tunnel_index != index,
        index < usize::MAX ==> final(client)@.next_tunnel_index == index + 1,
        index == usize::MAX ==> final(client)@.next_tunnel_index == 0,
{
    reveal_with_fuel(index_after, 2);
    if tunnel_key(other) == tunnel_key(t) {
        lemma_tunnel_key_injective(other, t);
    }
}

/// An update that is refused changes nothing. One that is accepted takes out at once what is no
/// longer wanted, and leaves what is.
pub proof fn update_takes_out_what_is_not_wanted(
    client: &mut Client,
    tunnels: Vec<TunnelConfig>,
    r: Result<TunnelUpdate, TunnelsError>,
    t: TunnelConfig,
)
    requires
        call_ensures(Client::update_tunnels, (client, tunnels), r),
    ensures
        r is Err <==> tunnels_error(tunnels@) is Some,
        r is Err ==> final(client)@ == old(client)@,
        r is Ok ==> {
            &&& r->Ok_0@.tunnels == tunnels@
            &&& tunnels@.contains(t) ==> lookup(final(client)@.tunnel_tasks, tunnel_key(t))
                == lookup(old(client)@.tunnel_tasks, tunnel_key(t))
            &&& !tunnels@.contains(t) ==> lookup(final(client)@.tunnel_tasks, tunnel_key(t)) is None
            &&& old(client)@.tunnel_tasks.dom().contains(tunnel_key(t)) && !tunnels@.contains(t)
                ==> r->Ok_0@.waiting.contains(old(client)@.tunnel_tasks[tunnel_key(t)])
            &&& final(client)@.config == old(client)@.config
        },
{
    if r is Ok {
        lemma_wanted(tunnels@, t);
        update_cancels_what_is_no_longer_wanted(
            r->Ok_0@.waiting,
            old(client)@.tunnel_tasks,
            tunnels@,
            t,
            0,
        );
    }
}

proof fn lemma_wanted(ts: Seq<TunnelConfig>, t: TunnelConfig)
    ensures
        wanted(ts, tunnel_key(t)) <==> ts.contains(t),
{
    let k = tunnel_key(t);
    if wanted(ts, k) {
        let j = choose|j: int| 0 <= j < ts.len() && tunnel_key(#[trigger] ts[j]) == k;
        lemma_tunnel_key_injective(ts[j], t);
        assert(ts.contains(ts[j]));
    }
    if ts.contains(t) {
        let j = choose|j: int| 0 <= j < ts.len() && ts[j] == t;
        assert(tunnel_key(ts[j]) == k);
    }
}

/// An update goes on only when every tunnel that it removes has ended: until then nothing happens,
/// and then the tunnels that do not run yet are started, in order.
pub proof fn update_goes_on_after_the_removed(
    client: &mut Client,
    update: &TunnelUpdate,
    r: Option<Vec<StartedTunnel>>,
)
    requires
        call_ensures(Client::start_updated, (client, update), r),
    ensures
        r is None <==> update@.waiting.len() > 0,
        r is None ==> final(client)@ == old(client)@,
        r matches Some(started) ==> started@ == old(client)@.missing(update@.tunnels)
            && final(client)@.config.tunnels == update@.tunnels,
{
}

/// What a client that follows updates does: it stops when told to, refuses a bad set and goes on
/// as it is, cancels what is to go before it starts what is to come, and waits otherwise.
pub proof fn updates_are_followed(
    client: &mut Client,
    updates: &mut UpdateLoop,
    event: UpdateEvent,
    r: UpdateAction,
)
    requires
        call_ensures(Client::start_tunneling_with_updates, (client, updates, event), r),
        old(updates)@.wf(),
        old(updates)@.may_see(event),
    ensures
        r is Stop <==> event is Shutdown,
        event is UpdatesClosed ==> r is Wait && !final(updates)@.updates_open,
        !(event is UpdatesClosed) ==> final(updates)@.updates_open == old(updates)@.updates_open,
        r is Refuse <==> event is Update && tunnels_error(event->Update_0@) is Some,
        r matches UpdateAction::Refuse(e) ==> tunnels_error(event->Update_0@) == Some(e),
        r is Stop || r is Wait || r is Refuse ==> final(client)@ == old(client)@,
        r is Cancel ==> event is Update && r->Cancel_0@.len() > 0 && final(updates)@.update == Some(
            TunnelUpdateView { tunnels: event->Update_0@, waiting: r->Cancel_0@ },
        ),
        r is Start ==> final(updates)@.update is None,
        r is Start && event is Update ==> final(client)@.config.tunnels == event->Update_0@,
        r is Start && event is Ended ==> final(client)@.config.tunnels == old(
            updates
        )@.update->0.tunnels,
        event is Ended ==> (r is Wait <==> final(updates)@.update is Some),
{
}

/// Reports go to the listener that was installed last, and to none while they are disabled; other
/// news goes to it either way.
pub proof fn reports_go_to_the_listener(
    client: &Client,
    report: Option<usize>,
    news: Option<usize>,
    has: bool,
)
    requires
        call_ensures(Client::report_listener, (client,), report),
        call_ensures(Client::info_listener, (client,), news),
        call_ensures(Client::has_tunnel_info_listener, (client,), has),
    ensures
        news == client@.info_listener,
        has <==> news is Some,
        !client@.info_report ==> report is None,
        client@.info_report ==> report == news,
{
}

/// The runtime of a client has as many threads as it has workers; with one worker it is the current
/// thread.
pub proof fn client_runs_on_its_workers(client: &Client, r: RuntimeKind, quit: bool)
    requires
        call_ensures(Client::start_tunneling, (client,), r),
        call_ensures(Client::should_quit, (client,), quit),
    ensures
        client@.config.workers == 1 <==> r is CurrentThread,
        client@.config.workers != 1 ==> r == RuntimeKind::MultiThread(client@.config.workers),
        quit <==> client@.client_state == ClientState::Stopping || client@.client_state
            == ClientState::Terminated,
{
}

/// A local server that has been started is recorded under its address, TCP and UDP servers apart;
/// one that could not be started is not, and is tried again as long as there are attempts left.
pub proof fn started_server_is_recorded(
    client: &mut Client,
    other: &mut Client,
    addr: SocketAddr,
    attempt: usize,
    server: usize,
    tcp: BindStep,
    udp: BindStep,
)
    requires
        call_ensures(Client::start_tcp_server, (client, addr, attempt, Some(server)), tcp),
        call_ensures(Client::start_udp_server, (other, addr, attempt, Some(server)), udp),
    ensures
        tcp == BindStep::Started,
        udp == BindStep::Started,
        lookup(final(client)@.tcp_servers, addr_key(Some(addr))) == Some(server),
        final(client)@.udp_servers == old(client)@.udp_servers,
        lookup(final(other)@.udp_servers, addr_key(Some(addr))) == Some(server),
        final(other)@.tcp_servers == old(other)@.tcp_servers,
{
}

/// A failed attempt to start a local server changes nothing, and is followed by another one after
/// the delay that is due, ten times.
pub proof fn failed_server_is_tried_again(
    client: &mut Client,
    other: &mut Client,
    addr: SocketAddr,
    attempt: usize,
    tcp: BindStep,
    udp: BindStep,
)
    requires
        call_ensures(Client::start_tcp_server, (client, addr, attempt, None), tcp),
        call_ensures(Client::start_udp_server, (other, addr, attempt, None), udp),
    ensures
        tcp == udp,
        tcp is GiveUp <==> attempt >= 10,
        tcp is RetryAfter <==> attempt < 10,
        attempt == 0 ==> tcp == BindStep::RetryAfter(1),
        final(client)@ == old(client)@,
        final(other)@ == old(other)@,
{
    binding_is_tried_again(attempt as nat);
}

/// The traffic of a client is that of the connections that have ended and of those that are open,
/// counter by counter.
pub proof fn all_traffic_is_counted(
    client: &Client,
    open: &[TunnelTraffic],
    one: TunnelTraffic,
    r: TunnelTraffic,
)
    requires
        call_ensures(Client::traffic, (client, open), r),
        open@ == seq![one],
        client@.total_traffic_data.addable(one),
    ensures
        r.rx_bytes == client@.total_traffic_data.rx_bytes + one.rx_bytes,
        r.tx_bytes == client@.total_traffic_data.tx_bytes + one.tx_bytes,
        r.rx_dgrams == client@.total_traffic_data.rx_dgrams + one.rx_dgrams,
        r.tx_dgrams == client@.total_traffic_data.tx_dgrams + one.tx_dgrams,
{
    reveal_with_fuel(TunnelTraffic::plus_all, 2);
    assert(seq![one].drop_last() =~= Seq::empty());
}

/// The tunnels to run after a change of the file are those that it lists now; a file that cannot
/// be parsed, or of which one tunnel is invalid, changes nothing.
pub proof fn changed_file_is_taken_on_whole(
    parsed: &Option<Option<Vec<TomlTunnel>>>,
    r: Option<Vec<TunnelConfig>>,
)
    requires
        call_ensures(ConfigWatcher::update, (parsed,), r),
    ensures
        parsed is None ==> r is None,
        *parsed == Some(None::<Vec<TomlTunnel>>) ==> r is Some && r->0@.len() == 0,
        parsed is Some ==> (r is Some <==> toml_tunnels(listed(parsed->0)) is Ok),
        parsed is Some && r is Some ==> toml_tunnels(listed(parsed->0)) == Ok::<
            Seq<TunnelConfig>,
            ConfigError,
        >(r->0@),
{
}

/// A client that has just been made is idle and holds nothing; it reports what it counts as soon
/// as there is a listener.
pub proof fn new_client_is_idle(config: ClientConfig, r: Client, t: TunnelConfig)
    requires
        call_ensures(Client::new, (config,), r),
    ensures
        r@.config == config@,
        r@.client_state == ClientState::Idle,
        lookup(r@.tunnel_tasks, tunnel_key(t)) is None,
        lookup(r@.connections, tunnel_key(t)) is None,
        r@.next_tunnel_index == 0,
        !r@.endpoint,
        r@.info_listener is None,
        r@.info_report,
        r@.total_traffic_data.rx_bytes == 0 && r@.total_traffic_data.tx_bytes == 0,
        r@.total_traffic_data.rx_dgrams == 0 && r@.total_traffic_data.tx_dgrams == 0,
{
}

/// The connection that was entered for a tunnel is found for it, until it is taken out; those of
/// other tunnels are neither found for it nor lost.
pub proof fn connection_is_found_until_closed(
    first: &mut Client,
    second: &mut Client,
    between: &Client,
    after: &Client,
    t: TunnelConfig,
    other: TunnelConfig,
    connection: usize,
    found: Option<usize>,
    gone: Option<usize>,
)
    requires
        call_ensures(Client::connection_opened, (first, t, connection), ()),
        call_ensures(Client::connection_closed, (second, t), ()),
        call_ensures(Client::connection_of, (between, t), found),
        call_ensures(Client::connection_of, (after, t), gone),
        between@ == final(first)@,
        old(second)@ == final(first)@,
        after@ == final(second)@,
    ensures
        found == Some(connection),
        gone is None,
        other != t ==> lookup(after@.connections, tunnel_key(other)) == lookup(
            old(first)@.connections,
            tunnel_key(other),
        ),
        after@.tunnel_tasks == old(first)@.tunnel_tasks,
        after@.client_state == old(first)@.client_state,
{
    if tunnel_key(other) == tunnel_key(t) {
        lemma_tunnel_key_injective(other, t);
    }
}

/// Stopping hands over every tunnel that ran and everything that was open, and keeps none of it;
/// the steps one by one do the same as both at once, and the last one ends the client.
pub proof fn stopping_hands_everything_over(
    client: &mut Client,
    first: &mut Client,
    second: &mut Client,
    third: &mut Client,
    plan: StopPlan,
    cancelled: Vec<usize>,
    closed: ClosePlan,
    t: TunnelConfig,
)
    requires
        call_ensures(Client::stop, (client,), plan),
        call_ensures(Client::stop_async, (first,), cancelled),
        call_ensures(Client::close_all, (second,), closed),
        call_ensures(Client::stopped, (third,), ()),
        old(first)@ == old(client)@,
        old(second)@ == final(first)@,
        old(third)@ == final(second)@,
    ensures
        final(client)@ == final(second)@,
        final(first)@.client_state == ClientState::Stopping,
        final(second)@.client_state == ClientState::Stopping,
        final(third)@.client_state == ClientState::Terminated,
        old(client)@.tunnel_tasks.dom().contains(tunnel_key(t)) ==> cancelled@.contains(
            old(client)@.tunnel_tasks[tunnel_key(t)],
        ) && plan.cancelled@.contains(old(client)@.tunnel_tasks[tunnel_key(t)]),
        old(client)@.connections.dom().contains(tunnel_key(t)) ==> closed.connections@.contains(
            old(client)@.connections[tunnel_key(t)],
        ) && plan.closed.connections@.contains(old(client)@.connections[tunnel_key(t)]),
        closed.endpoint == old(client)@.endpoint,
        plan.closed.endpoint == old(client)@.endpoint,
        lookup(final(first)@.tunnel_tasks, tunnel_key(t)) is None,
        lookup(final(second)@.connections, tunnel_key(t)) is None,
        !final(second)@.endpoint,
        final(third)@.total_traffic_data == old(client)@.total_traffic_data,
        final(third)@.config == old(client)@.config,
{
    all_values_are_named(cancelled@, old(client)@.tunnel_tasks, tunnel_key(t), 0);
    all_values_are_named(plan.cancelled@, old(client)@.tunnel_tasks, tunnel_key(t), 0);
    all_values_are_named(closed.connections@, old(client)@.connections, tunnel_key(t), 0);
    all_values_are_named(plan.closed.connections@, old(client)@.connections, tunnel_key(t), 0);
}

/// What is set of a client is what is found of it, and nothing else changes: its state, its
/// listener, whether it reports, its endpoint and what it has counted.
pub proof fn client_keeps_what_is_set(
    a: &mut Client,
    b: &mut Client,
    c: &mut Client,
    d: &mut Client,
    e: &mut Client,
    state: ClientState,
    listener: usize,
    enable: bool,
    stats: TunnelTraffic,
)
    requires
        call_ensures(Client::set_and_post_tunnel_state, (a, state), ()),
        call_ensures(Client::set_on_info_listener, (b, listener), ()),
        call_ensures(Client::set_enable_on_info_report, (c, enable), ()),
        call_ensures(Client::endpoint_opened, (d,), ()),
        call_ensures(Client::add_traffic, (e, stats), ()),
        old(e)@.total_traffic_data.addable(stats),
    ensures
        final(a)@ == (ClientView { client_state: state, ..old(a)@ }),
        final(b)@ == (ClientView { info_listener: Some(listener), ..old(b)@ }),
        final(c)@ == (ClientView { info_report: enable, ..old(c)@ }),
        final(d)@ == (ClientView { endpoint: true, ..old(d)@ }),
        final(e)@.total_traffic_data.rx_bytes == old(e)@.total_traffic_data.rx_bytes
            + stats.rx_bytes,
        final(e)@.total_traffic_data.tx_bytes == old(e)@.total_traffic_data.tx_bytes
            + stats.tx_bytes,
        final(e)@.total_traffic_data.rx_dgrams == old(e)@.total_traffic_data.rx_dgrams
            + stats.rx_dgrams,
        final(e)@.total_traffic_data.tx_dgrams == old(e)@.total_traffic_data.tx_dgrams
            + stats.tx_dgrams,
        final(e)@.connections == old(e)@.connections,
{
}

/// A watcher takes a change of the file on once, starting from the content it was made with, and
/// warns of a file that cannot be read once for each reason.
pub proof fn watcher_follows_the_file(
    initial: String,
    fresh: ConfigWatcher,
    watcher: &mut ConfigWatcher,
    content: String,
    step: WatchStep,
    other: &mut ConfigWatcher,
    message: String,
    warning: WatchStep,
)
    requires
        call_ensures(ConfigWatcher::new, (initial,), fresh),
        call_ensures(ConfigWatcher::poll, (watcher, Ok(content)), step),
        call_ensures(ConfigWatcher::poll, (other, Err(message)), warning),
        *old(watcher) == fresh,
        *old(other) == fresh,
    ensures
        step == WatchStep::Parse <==> content@ != initial@,
        step == WatchStep::Wait <==> content@ == initial@,
        final(watcher)@.last_content == content@,
        warning == WatchStep::Warn,
        final(other)@.last_content == initial@,
        final(other)@.last_read_error == Some(message@),
{
}

} // verus!
