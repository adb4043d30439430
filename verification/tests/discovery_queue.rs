use opc_da_client::builder::OpcDaClientBuilder;
use opc_da_client::collector::TagCollector;
use opc_da_client::connector::mock::{MockServerConnector, MockState, StringIterator};
use opc_da_client::connector::traits::ItemIdSource;
use opc_da_client::discovery::{check_inspectable_host, sanitize_binary_path};
use opc_da_client::error::OpcErrorOf;
use opc_da_client::security::CLSID_OPC_SERVER_LIST;
use opc_da_client::types::{guid_bracketed, remote_activation_host, ClientGroupHandle, GroupConfig, OpcServerEndpoint, OpcValueOf, ServerIdentifierOf};
use opc_da_client::worker::pool::{dispatch_with_retry, ConnectionPool, RetryPolicy};
use opc_da_client::worker::read::ReadOp;
use opc_da_client::worker::request::{PriorityRequestQueue, WorkerRequest};
use opc_da_client::worker::write::WriteOp;
use opc_da_client::worker::GroupNameSequence;
use std::collections::HashSet;
use std::path::PathBuf;

fn push(q: &mut PriorityRequestQueue<()>, req: WorkerRequest) {
    q.push(req, ());
}

#[test]
fn test_inspect_local_registration_remote_rejected() {
    let err = check_inspectable_host(Some("192.168.1.100")).unwrap_err();
    match err {
        OpcErrorOf::NotImplemented(msg) => {
            assert!(msg.contains("Remote machine registry"));
        }
        other => panic!("Expected NotImplemented, got {other:?}"),
    }
}

#[test]
fn local_hosts_may_be_inspected() {
    assert!(check_inspectable_host(None).is_ok());
    assert!(check_inspectable_host(Some("  LocalHost ")).is_ok());
    assert!(check_inspectable_host(Some("127.0.0.1")).is_ok());
    assert!(check_inspectable_host(Some("")).is_ok());
}

#[test]
fn test_sanitize_binary_path_quoted() {
    let raw = r#""C:\Program Files\Matrikon\OPC\Simulation.exe" /automation"#;
    let path = sanitize_binary_path(raw);
    assert_eq!(
        PathBuf::from(path),
        PathBuf::from(r"C:\Program Files\Matrikon\OPC\Simulation.exe")
    );
}

#[test]
fn test_sanitize_binary_path_unquoted_with_flag() {
    let raw = r"C:\OPC\Server.exe -Embedding";
    let path = sanitize_binary_path(raw);
    assert_eq!(PathBuf::from(path), PathBuf::from(r"C:\OPC\Server.exe"));
}

#[test]
fn sanitize_binary_path_plain_and_unterminated_quote() {
    assert_eq!(sanitize_binary_path("  C:\\OPC\\Server.exe  "), "C:\\OPC\\Server.exe");
    assert_eq!(sanitize_binary_path("\"C:\\Open Path\\x.exe"), "C:\\Open Path\\x.exe");
    assert_eq!(sanitize_binary_path(""), "");
}

#[test]
fn server_test_clsid_opc_server_list_constant() {
    assert_eq!(CLSID_OPC_SERVER_LIST, 0x1348_6d51_4821_11d2_a494_3cb3_06c1_0000u128);
    let formatted = guid_bracketed(CLSID_OPC_SERVER_LIST);
    assert!(formatted
        .to_lowercase()
        .contains("13486d51-4821-11d2-a494-3cb306c10000"));
}

#[test]
fn security_test_clsid_opc_server_list_constant() {
    assert_eq!(CLSID_OPC_SERVER_LIST, 0x1348_6d51_4821_11d2_a494_3cb3_06c1_0000u128);
}

#[test]
fn test_string_iterator_from_vec() {
    let items = vec!["Tag.A".to_string(), "Tag.B".to_string(), "Tag.C".to_string()];
    let mut iter = StringIterator::from_vec(items.clone());
    let mut results: Vec<String> = Vec::new();
    while let Some(r) = iter.next_id() {
        results.push(r.unwrap());
    }
    assert_eq!(results, items);

    let mut empty_iter = StringIterator::from_vec(Vec::new());
    assert!(empty_iter.next_id().is_none());
}

#[test]
fn test_group_config_ephemeral_and_builders() {
    let config = GroupConfig::ephemeral("TestGroup")
        .with_update_rate(500)
        .with_client_handle(ClientGroupHandle::new(42))
        .with_active(false)
        .with_percent_deadband_bits(0.5f32.to_bits());

    assert_eq!(config.name, "TestGroup");
    assert!(!config.active);
    assert_eq!(config.update_rate_ms, 500);
    assert_eq!(config.client_handle, ClientGroupHandle::new(42));
    assert!((f32::from_bits(config.percent_deadband_bits) - 0.5).abs() < f32::EPSILON);
    assert_eq!(config.time_bias, 0);
    assert_eq!(config.locale_id, 0);
}

#[test]
fn test_worker_priority_queue_preempts_low_priority() {
    let mut q = PriorityRequestQueue::new();

    // Push low, then high, then another low
    push(&mut q, WorkerRequest::ListServers { host: "localhost".into() });
    push(
        &mut q,
        WorkerRequest::ReadTagValues {
            endpoint: OpcServerEndpoint::local_prog_id("Server1"),
            tags: vec!["Tag1".to_string()],
        },
    );
    push(
        &mut q,
        WorkerRequest::BrowseTags {
            endpoint: OpcServerEndpoint::local_prog_id("Server1"),
            collector: TagCollector::new(10),
        },
    );

    // Next must be high priority ReadTagValues!
    let (next, _) = q.pop_next().expect("should have item");
    assert!(matches!(next, WorkerRequest::ReadTagValues { .. }));

    // Subsequent items must be the low priority ones in FIFO order
    let (next2, _) = q.pop_next().expect("should have item");
    assert!(matches!(next2, WorkerRequest::ListServers { .. }));

    let (next3, _) = q.pop_next().expect("should have item");
    assert!(matches!(next3, WorkerRequest::BrowseTags { .. }));

    assert!(q.pop_next().is_none());
}

#[test]
fn test_worker_priority_queue_drains_fifo_within_tier() {
    let mut q = PriorityRequestQueue::new();

    push(
        &mut q,
        WorkerRequest::ReadTagValues {
            endpoint: OpcServerEndpoint::local_prog_id("Server1"),
            tags: vec!["Tag1".to_string()],
        },
    );
    push(
        &mut q,
        WorkerRequest::WriteTagValue {
            endpoint: OpcServerEndpoint::local_prog_id("Server1"),
            tag_id: "Tag2".into(),
            value: OpcValueOf::Int(10),
        },
    );

    let (first, _) = q.pop_next().unwrap();
    assert!(matches!(first, WorkerRequest::ReadTagValues { .. }));
    let (second, _) = q.pop_next().unwrap();
    assert!(matches!(second, WorkerRequest::WriteTagValue { .. }));
}

#[test]
fn test_worker_priority_queue_empty_pop_returns_none() {
    let mut q: PriorityRequestQueue<()> = PriorityRequestQueue::new();
    assert!(q.is_empty());
    assert!(q.pop_next().is_none());
}

#[test]
fn priority_queue_len_and_clear() {
    let mut q: PriorityRequestQueue<u32> = PriorityRequestQueue::new();
    q.push(WorkerRequest::ListServers { host: "a".into() }, 1);
    q.push(
        WorkerRequest::ReadTagValues { endpoint: OpcServerEndpoint::local_prog_id("S"), tags: vec!["T".to_string()] },
        2,
    );
    q.push(WorkerRequest::ListServerDetails { host: "b".into() }, 3);
    assert_eq!(q.len(), 3);
    assert_eq!(q.pop_next().map(|(_, n)| n), Some(2));
    assert_eq!(q.pop_next().map(|(_, n)| n), Some(1));
    q.clear();
    assert!(q.is_empty());
    assert_eq!(q.len(), 0);
}

#[test]
fn test_worker_active_group_caching_hit_miss_and_invalidation() {
    let mut connector = MockServerConnector::with_state(MockState::default());
    let mut pool = ConnectionPool::new(7);
    let endpoint = OpcServerEndpoint::local_prog_id("Matrikon.OPC.Simulation.1");

    let tags_a = vec!["Tag1".to_string(), "Tag2".to_string()];
    let tags_b = vec!["Tag3".to_string()];

    // 1. First read with tags_a: cache miss, creates group & adds items
    let mut op = ReadOp::new(endpoint.duplicate(), tags_a.clone());
    let res1 = dispatch_with_retry(&mut pool, &mut connector, &endpoint, RetryPolicy::Idempotent, &mut op, 0);
    assert_eq!(res1.unwrap().len(), 2);
    {
        let pooled = &pool.entries[0].pooled;
        assert_eq!(pooled.server.state.add_group_count, 1);
        assert_eq!(pooled.active_groups[0].group.state.add_items_count, 1);
        assert_eq!(pooled.server.state.remove_group_count, 0);
    }

    // 2. Second read with EXACT SAME tags_a: cache hit! No add_group or add_items
    let mut op = ReadOp::new(endpoint.duplicate(), tags_a.clone());
    let res2 = dispatch_with_retry(&mut pool, &mut connector, &endpoint, RetryPolicy::Idempotent, &mut op, 1);
    assert_eq!(res2.unwrap().len(), 2);
    {
        let pooled = &pool.entries[0].pooled;
        assert_eq!(pooled.server.state.add_group_count, 1);
        assert_eq!(pooled.active_groups.len(), 1);
        assert_eq!(pooled.active_groups[0].group.state.add_items_count, 1);
        assert_eq!(pooled.server.state.remove_group_count, 0);
    }

    // 3. Third read with DIFFERENT tags_b after the cached group is dropped:
    //    the old group is removed and a new one is created
    pool.entries[0].pooled.clear_active_groups();
    let mut op = ReadOp::new(endpoint.duplicate(), tags_b.clone());
    let res3 = dispatch_with_retry(&mut pool, &mut connector, &endpoint, RetryPolicy::Idempotent, &mut op, 2);
    assert_eq!(res3.unwrap().len(), 1);
    {
        let pooled = &pool.entries[0].pooled;
        assert_eq!(pooled.server.state.add_group_count, 2);
        assert_eq!(pooled.active_groups[0].group.state.add_items_count, 1);
        assert_eq!(pooled.server.state.remove_group_count, 1);
    }

    // 4. Invalidation on connection error: evicts connection and drops cached group
    pool.entries[0].pooled.server.should_fail_connection = true;
    let mut op = WriteOp::new(endpoint.duplicate(), "Tag3".to_string(), OpcValueOf::Int(1));
    let res4 = dispatch_with_retry(&mut pool, &mut connector, &endpoint, RetryPolicy::Idempotent, &mut op, 3);
    assert!(res4.is_ok());
    assert_eq!(connector.state.connect_count, 2);
    let i = pool.find_connection(&endpoint).unwrap();
    assert!(!pool.entries[i].pooled.has_active_groups());
}

#[test]
fn tests_test_client_builder_localhost_normalization() {
    let builder = OpcDaClientBuilder::new()
        .host("localhost")
        .server(ServerIdentifierOf::prog_id("Mock.Server.1"));
    let endpoint = builder
        .with_connector(MockServerConnector::new())
        .bound_endpoint()
        .unwrap();
    assert!(endpoint.host.is_none());
}

#[test]
fn test_client_builder_with_connector() {
    let connector = MockServerConnector::new();
    let builder = OpcDaClientBuilder::new().with_connector(connector);
    assert!(builder.endpoint().is_none());
    assert!(builder.connector.is_some());
}

#[test]
fn test_client_builder_build_bound_missing_server() {
    let builder = OpcDaClientBuilder::new().with_connector(MockServerConnector::new());
    let err = builder.bound_endpoint().unwrap_err();
    match err {
        OpcErrorOf::InvalidState(_) => {}
        other => panic!("expected InvalidState, got {other:?}"),
    }
}

#[test]
fn builder_keeps_remote_host_and_settings() {
    let builder = OpcDaClientBuilder::new()
        .host("plant-7")
        .server(ServerIdentifierOf::prog_id("Vendor.Server.2"))
        .timeout(std::time::Duration::from_millis(1500))
        .with_legacy_dcom(true);
    assert!(builder.legacy_dcom());
    assert_eq!(builder.timeout_duration(), Some(std::time::Duration::from_millis(1500)));
    let ep = builder.endpoint().unwrap();
    assert_eq!(ep.host.as_deref(), Some("plant-7"));
    assert!(ep.identifier.same_as(&ServerIdentifierOf::prog_id("Vendor.Server.2")));
    assert!(builder.connector.unwrap().legacy_dcom);
}

#[test]
fn test_collision_proof_group_name_concurrency() {
    let mut seq = GroupNameSequence::new(0x4d2);
    let mut names = HashSet::new();
    for _ in 0..8000 {
        let name = seq.generate_group_name("opc-test");
        assert!(name.starts_with("opc-test-"));
        assert!(names.insert(name), "Collision detected in group name");
    }
    assert_eq!(names.len(), 8000);
    assert_eq!(GroupNameSequence::new(255).generate_group_name("g"), "g-ff-1");
}

#[test]
fn client_test_client_builder_localhost_normalization() {
    let connector = MockServerConnector::new();
    let builder = OpcDaClientBuilder::new()
        .with_connector(connector)
        .host("localhost")
        .server(ServerIdentifierOf::prog_id("Matrikon.OPC.Simulation.1"));

    assert_eq!(builder.endpoint().and_then(|ep| ep.host), None);
}

#[test]
fn tests_test_client_bind_remote_localhost_normalization() {
    let endpoint = OpcServerEndpoint::remote("localhost", ServerIdentifierOf::prog_id("Mock.Server.1"));
    assert!(endpoint.host.is_none());
}

#[test]
fn client_test_client_bind_remote_localhost_normalization() {
    let bound_localhost = OpcServerEndpoint::remote("localhost", ServerIdentifierOf::prog_id("Matrikon.OPC.Simulation.1"));
    assert_eq!(bound_localhost.host, None);
    assert_eq!(bound_localhost.identifier.display(), "Matrikon.OPC.Simulation.1");

    let bound_loopback = OpcServerEndpoint::remote("127.0.0.1", ServerIdentifierOf::prog_id("Matrikon.OPC.Simulation.1"));
    assert_eq!(bound_loopback.host, None);

    let bound_ipv6 = OpcServerEndpoint::remote("::1", ServerIdentifierOf::prog_id("Matrikon.OPC.Simulation.1"));
    assert_eq!(bound_ipv6.host, None);

    let bound_remote = OpcServerEndpoint::remote("192.168.1.50", ServerIdentifierOf::prog_id("Matrikon.OPC.Simulation.1"));
    assert_eq!(bound_remote.host.as_deref(), Some("192.168.1.50"));
}

#[test]
fn test_builder_server_deferred_error_accumulation() {
    // 1. Invalid host with null byte
    let res = OpcDaClientBuilder::new()
        .host("bad\0host")
        .server(ServerIdentifierOf::prog_id("Valid.Server"))
        .validate();
    assert!(
        matches!(res, Err(OpcErrorOf::InvalidState(_))),
        "expected InvalidState for null host, got {res:?}"
    );

    // 2. Chaining after error does not clobber first error
    let res_clobber = OpcDaClientBuilder::new()
        .host("first\0bad")
        .server(ServerIdentifierOf::prog_id("Second\0Bad"))
        .validate();
    if let Err(OpcErrorOf::InvalidState(msg)) = res_clobber {
        assert!(msg.contains("Host"), "first error must be preserved, got {msg}");
    } else {
        panic!("expected InvalidState, got {res_clobber:?}");
    }

    // 3. build_bound with missing server
    let res_no_server = OpcDaClientBuilder::new().bound_endpoint();
    assert!(
        matches!(res_no_server, Err(OpcErrorOf::InvalidState(_))),
        "expected InvalidState for missing server, got {res_no_server:?}"
    );
}

#[test]
fn invalid_server_name_is_reported_when_bound() {
    let builder = OpcDaClientBuilder::new().server(ServerIdentifierOf::prog_id("Bad\0Server"));
    match builder.bound_endpoint() {
        Err(OpcErrorOf::InvalidState(msg)) => assert!(msg.contains("Server identifier")),
        other => panic!("expected InvalidState, got {other:?}"),
    }
    assert!(OpcDaClientBuilder::new().host("plant").validate().is_ok());
}

#[test]
fn remote_activation_only_for_remote_hosts() {
    assert_eq!(remote_activation_host(&None), None);
    assert_eq!(remote_activation_host(&Some("LocalHost".to_string())), None);
    assert_eq!(remote_activation_host(&Some("127.0.0.1".to_string())), None);
    assert_eq!(remote_activation_host(&Some(String::new())), None);
    assert_eq!(remote_activation_host(&Some("plant-7".to_string())), Some("plant-7".to_string()));
}
