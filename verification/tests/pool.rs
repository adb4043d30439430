use opc_da_client::connector::mock::{MockConnectedServer, MockServerConnector, MockState};
use opc_da_client::types::{OpcServerEndpoint, ServerGroupHandle, ServerItemHandle};
use opc_da_client::worker::pool::{
    dispatch_with_retry, CachedGroup, ConnectionPool, PooledServer, RetryPolicy,
    MAX_ACTIVE_GROUPS, MAX_COOLDOWNS,
};
use opc_da_client::worker::read::ReadOp;
use opc_da_client::worker::write::WriteOp;
use opc_da_client::types::OpcValueOf;
use opc_da_client::error::OpcErrorOf;

fn tags(v: &[&str]) -> Vec<String> {
    v.iter().map(|s| s.to_string()).collect()
}

fn cached(server: &MockConnectedServer, t: &[&str], handle: u32) -> CachedGroup<opc_da_client::connector::mock::MockConnectedGroup> {
    CachedGroup {
        tags: tags(t),
        group: server.group.duplicate(),
        server_handle: ServerGroupHandle::new(handle),
        server_item_handles: (0..t.len() as u32).map(|i| ServerItemHandle::new(i + 1)).collect(),
        valid_indices: (0..t.len()).collect(),
        rejected_errors: Vec::new(),
    }
}

fn read_op(endpoint: &OpcServerEndpoint, t: &[&str]) -> ReadOp {
    ReadOp::new(endpoint.duplicate(), tags(t))
}

#[test]
fn test_dispatch_cache_hit_avoids_reconnect() {
    let mut connector = MockServerConnector::with_state(MockState::default());
    let mut pool = ConnectionPool::new(1);
    let endpoint = OpcServerEndpoint::local_prog_id("Matrikon.OPC.Simulation.1");

    let res1 = dispatch_with_retry(&mut pool, &mut connector, &endpoint, RetryPolicy::Idempotent, &mut read_op(&endpoint, &["Tag1"]), 0);
    assert_eq!(res1.unwrap().len(), 1);
    assert_eq!(connector.state.connect_count, 1);
    assert_eq!(pool.len(), 1);

    let res2 = dispatch_with_retry(&mut pool, &mut connector, &endpoint, RetryPolicy::Idempotent, &mut read_op(&endpoint, &["Tag1"]), 10);
    assert_eq!(res2.unwrap().len(), 1);
    assert_eq!(connector.state.connect_count, 1);
}

#[test]
fn test_dispatch_connection_error_evicts_and_reconnects() {
    let mut connector = MockServerConnector::with_state(MockState::default());
    let mut pool = ConnectionPool::new(1);
    let endpoint = OpcServerEndpoint::local_prog_id("Matrikon.OPC.Simulation.1");

    let _ = dispatch_with_retry(&mut pool, &mut connector, &endpoint, RetryPolicy::Idempotent, &mut read_op(&endpoint, &["Tag1"]), 0);
    assert_eq!(connector.state.connect_count, 1);

    // The pooled connection goes stale: its next group creation fails with
    // "RPC server unavailable"; a fresh connection works again.
    pool.entries[0].pooled.server.should_fail_connection = true;
    let mut op = read_op(&endpoint, &["Tag2"]);
    let res = dispatch_with_retry(&mut pool, &mut connector, &endpoint, RetryPolicy::Idempotent, &mut op, 20);

    assert_eq!(res.unwrap().len(), 1);
    assert_eq!(connector.state.connect_count, 2);
    assert_eq!(pool.len(), 1);
}

#[test]
fn test_dispatch_non_connection_error_does_not_evict() {
    let mut connector = MockServerConnector::with_state(MockState::default());
    let mut pool = ConnectionPool::new(1);
    let endpoint = OpcServerEndpoint::local_prog_id("Matrikon.OPC.Simulation.1");

    let _ = dispatch_with_retry(&mut pool, &mut connector, &endpoint, RetryPolicy::Idempotent, &mut read_op(&endpoint, &["Tag1"]), 0);
    assert_eq!(connector.state.connect_count, 1);

    // A batch over the limit is refused as an invalid state, not a connection error.
    let big: Vec<String> = (0..=10_000).map(|i| format!("Tag.{i}")).collect();
    let mut op = ReadOp::new(endpoint.duplicate(), big);
    let res = dispatch_with_retry(&mut pool, &mut connector, &endpoint, RetryPolicy::Idempotent, &mut op, 5);
    assert!(res.is_err());
    assert_eq!(connector.state.connect_count, 1);
    assert_eq!(pool.len(), 1);
}

#[test]
fn test_circuit_breaker_dual_phase_and_endpoint_isolation() {
    let mut connector = MockServerConnector::with_state(MockState::default());
    let mut pool = ConnectionPool::new(1);
    let dead_endpoint = OpcServerEndpoint::local_prog_id("Dead.Server.1");
    let live_endpoint = OpcServerEndpoint::local_prog_id("Live.Server.1");

    // Phase 1: initial connection failure enters the 5 s cooldown.
    connector.state.should_fail_connect = true;
    let res1 = dispatch_with_retry(&mut pool, &mut connector, &dead_endpoint, RetryPolicy::Idempotent, &mut read_op(&dead_endpoint, &["T"]), 1_000);
    assert!(res1.unwrap_err().is_connection_error());

    // Fast-fail: a call within 5 s fails without calling the connector.
    let connect_count_before = connector.state.connect_count;
    connector.state.should_fail_connect = false;
    let res2 = dispatch_with_retry(&mut pool, &mut connector, &dead_endpoint, RetryPolicy::Idempotent, &mut read_op(&dead_endpoint, &["T"]), 3_000);
    match res2 {
        Err(OpcErrorOf::Connection(msg)) => {
            assert_eq!(msg, "Endpoint 'Dead.Server.1' is in circuit breaker cooldown (retry in 3000ms)");
        }
        other => panic!("expected cooldown error, got {other:?}"),
    }
    assert_eq!(connector.state.connect_count, connect_count_before);

    // Phase 2: endpoint isolation, the live endpoint operates normally.
    let res_live = dispatch_with_retry(&mut pool, &mut connector, &live_endpoint, RetryPolicy::Idempotent, &mut read_op(&live_endpoint, &["T"]), 3_000);
    assert!(res_live.is_ok());
    assert_eq!(connector.state.connect_count, connect_count_before + 1);

    // Phase 3: after the cooldown the dead endpoint is tried again.
    let res3 = dispatch_with_retry(&mut pool, &mut connector, &dead_endpoint, RetryPolicy::Idempotent, &mut read_op(&dead_endpoint, &["T"]), 6_001);
    assert!(res3.is_ok());
    assert_eq!(connector.state.connect_count, connect_count_before + 2);
}

#[test]
fn test_pool_evict_synchronously_clears_active_group() {
    let mut connector = MockServerConnector::with_state(MockState::default());
    let mut pool = ConnectionPool::new(1);
    let endpoint = OpcServerEndpoint::local_prog_id("Matrikon.OPC.Simulation.1");

    let _ = dispatch_with_retry(&mut pool, &mut connector, &endpoint, RetryPolicy::Idempotent, &mut read_op(&endpoint, &["Tag1"]), 0);
    assert_eq!(pool.entries[0].pooled.server.state.add_group_count, 1);
    assert_eq!(pool.entries[0].pooled.server.state.remove_group_count, 0);
    assert_eq!(pool.len(), 1);
    assert!(pool.entries[0].pooled.has_active_groups());

    let evicted = pool.evict(&endpoint);
    assert!(evicted);
    assert_eq!(pool.len(), 0);

    assert!(!pool.evict(&endpoint));
}

#[test]
fn test_dispatch_non_idempotent_skips_retry_on_connection_error() {
    let mut connector = MockServerConnector::with_state(MockState::default());
    let mut pool = ConnectionPool::new(1);
    let endpoint = OpcServerEndpoint::local_prog_id("Matrikon.OPC.Simulation.1");

    let mut first = WriteOp::new(endpoint.duplicate(), "Tag1".to_string(), OpcValueOf::Int(1));
    let _ = dispatch_with_retry(&mut pool, &mut connector, &endpoint, RetryPolicy::NonIdempotent, &mut first, 0);
    assert_eq!(connector.state.connect_count, 1);
    assert_eq!(pool.len(), 1);

    pool.entries[0].pooled.server.should_fail_connection = true;
    let mut op = WriteOp::new(endpoint.duplicate(), "Tag1".to_string(), OpcValueOf::Int(2));
    let res = dispatch_with_retry(&mut pool, &mut connector, &endpoint, RetryPolicy::NonIdempotent, &mut op, 10);

    assert!(res.is_err(), "Non-idempotent operation should return error");
    assert_eq!(connector.state.connect_count, 1, "Should not have reconnected for non-idempotent operation");
    assert_eq!(pool.len(), 0, "Stale connection should be evicted");
}

#[test]
fn test_failure_cooldowns_pruning_and_capacity_cap() {
    let mut pool: ConnectionPool<MockConnectedServer> = ConnectionPool::new(1);
    for i in 0..=MAX_COOLDOWNS + 5 {
        let ep = OpcServerEndpoint::local_prog_id(&format!("Server.{i}"));
        pool.record_failure(&ep, 100);
    }
    assert!(pool.failures.len() <= MAX_COOLDOWNS);
    // Expired records are pruned when a new failure is recorded.
    pool.record_failure(&OpcServerEndpoint::local_prog_id("Late.Server"), 100_000);
    assert_eq!(pool.failures.len(), 1);
}

#[test]
fn test_active_groups_multi_slot_caching_hit_both() {
    let server = MockConnectedServer::default();
    let mut pooled = PooledServer::new(server, 0);
    let a = cached(&pooled.server, &["A1", "A2"], 1);
    let b = cached(&pooled.server, &["B1"], 2);
    pooled.insert_active_group(a);
    pooled.insert_active_group(b);
    assert_eq!(pooled.find_active_group_idx(&tags(&["B1"])), Some(0));
    assert_eq!(pooled.find_active_group_idx(&tags(&["A1", "A2"])), Some(1));
    pooled.promote_group(1);
    assert_eq!(pooled.find_active_group_idx(&tags(&["A1", "A2"])), Some(0));
    assert_eq!(pooled.find_active_group_idx(&tags(&["B1"])), Some(1));
    assert_eq!(pooled.server.state.remove_group_count, 0);
}

#[test]
fn test_active_groups_lru_eviction_at_capacity() {
    let server = MockConnectedServer::default();
    let mut pooled = PooledServer::new(server, 0);
    for i in 0..MAX_ACTIVE_GROUPS {
        let name = format!("T{i}");
        let g = cached(&pooled.server, &[name.as_str()], i as u32 + 1);
        pooled.insert_active_group(g);
    }
    assert_eq!(pooled.active_groups.len(), MAX_ACTIVE_GROUPS);
    assert_eq!(pooled.server.state.remove_group_count, 0);
    let g = cached(&pooled.server, &["T_new"], 99);
    pooled.insert_active_group(g);
    assert_eq!(pooled.active_groups.len(), MAX_ACTIVE_GROUPS);
    assert_eq!(pooled.server.state.remove_group_count, 1);
    assert_eq!(pooled.find_active_group_idx(&tags(&["T0"])), None, "least recently used group is evicted");
    assert_eq!(pooled.find_active_group_idx(&tags(&["T_new"])), Some(0));
}

#[test]
fn test_active_groups_single_group_invalidation() {
    let server = MockConnectedServer::default();
    let mut pooled = PooledServer::new(server, 0);
    let a = cached(&pooled.server, &["A"], 1);
    let b = cached(&pooled.server, &["B"], 2);
    pooled.insert_active_group(a);
    pooled.insert_active_group(b);
    let removed = pooled.remove_active_group(1);
    assert!(removed.is_some());
    assert_eq!(pooled.server.state.remove_group_count, 1);
    assert_eq!(pooled.find_active_group_idx(&tags(&["A"])), None);
    assert_eq!(pooled.find_active_group_idx(&tags(&["B"])), Some(0));
    assert!(pooled.remove_active_group(5).is_none());
}

#[test]
fn test_connection_pool_bounded_lru_eviction() {
    let mut connector = MockServerConnector::with_state(MockState::default());
    let mut pool = ConnectionPool::new(1);

    for i in 1..=32u64 {
        let ep = OpcServerEndpoint::local_prog_id(&format!("Server.{i}"));
        let _ = dispatch_with_retry(&mut pool, &mut connector, &ep, RetryPolicy::Idempotent, &mut read_op(&ep, &["T"]), i);
    }
    assert_eq!(pool.len(), 32);
    assert_eq!(connector.state.connect_count, 32);

    let ep1 = OpcServerEndpoint::local_prog_id("Server.1");
    let _ = dispatch_with_retry(&mut pool, &mut connector, &ep1, RetryPolicy::Idempotent, &mut read_op(&ep1, &["T"]), 40);
    assert_eq!(pool.len(), 32);
    assert_eq!(connector.state.connect_count, 32);

    let ep33 = OpcServerEndpoint::local_prog_id("Server.33");
    let _ = dispatch_with_retry(&mut pool, &mut connector, &ep33, RetryPolicy::Idempotent, &mut read_op(&ep33, &["T"]), 41);

    assert_eq!(pool.len(), 32);
    assert_eq!(connector.state.connect_count, 33);
    assert!(pool.contains(&ep1));
    assert!(pool.contains(&ep33));
    let ep2 = OpcServerEndpoint::local_prog_id("Server.2");
    assert!(!pool.contains(&ep2));
}

#[test]
fn test_active_group_cache_hit_case_insensitive() {
    let server = MockConnectedServer::default();
    let mut pooled = PooledServer::new(server, 0);
    let g = cached(&pooled.server, &["TEMP1", "DEVICE.SPEED"], 1);
    pooled.insert_active_group(g);
    assert_eq!(
        pooled.find_active_group_idx(&tags(&["temp1", "device.speed"])),
        Some(0),
        "find_active_group_idx must match cached group when tag names differ only in ASCII casing"
    );
}

#[test]
fn test_active_group_cache_order_sensitive() {
    let server = MockConnectedServer::default();
    let mut pooled = PooledServer::new(server, 0);
    let g = cached(&pooled.server, &["TAG_A", "TAG_B"], 1);
    pooled.insert_active_group(g);
    assert_eq!(
        pooled.find_active_group_idx(&tags(&["TAG_B", "TAG_A"])),
        None,
        "Permuted tag batch must not match cached active group (matching must be strictly positional)"
    );
}

#[test]
fn test_active_group_cache_length_mismatch() {
    let server = MockConnectedServer::default();
    let mut pooled = PooledServer::new(server, 0);
    let g = cached(&pooled.server, &["TAG_A", "TAG_B"], 1);
    pooled.insert_active_group(g);
    assert_eq!(pooled.find_active_group_idx(&tags(&["TAG_A"])), None, "Shorter batch must not match longer cached group");
    assert_eq!(
        pooled.find_active_group_idx(&tags(&["TAG_A", "TAG_B", "TAG_C"])),
        None,
        "Longer batch must not match shorter cached group"
    );
}

#[test]
fn test_active_group_cache_empty_batch() {
    let server = MockConnectedServer::default();
    let mut pooled = PooledServer::new(server, 0);
    let g = cached(&pooled.server, &["TAG_A"], 1);
    pooled.insert_active_group(g);
    assert_eq!(
        pooled.find_active_group_idx(&tags(&[])),
        None,
        "Empty batch must not match non-empty cached active group"
    );
}
