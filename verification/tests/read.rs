use opc_da_client::connector::mock::{MockConnectedGroup, MockConnectedServer};
use opc_da_client::error::{OpcErrorOf, RPC_S_SERVER_UNAVAILABLE};
use opc_da_client::types::{
    ClientItemHandle, GroupItemResult, GroupItemState, OpcQuality, OpcServerEndpoint, OpcValueOf,
    ServerIdentifierOf, ServerItemHandle, QUALITY_BAD_COMM_FAILURE, QUALITY_BAD_CONFIG_ERROR,
    QUALITY_GOOD,
};
use opc_da_client::worker::pool::PooledServer;
use opc_da_client::worker::read::{assemble_tag_values, handle_read, partition_item_results};
use opc_da_client::worker::{GroupNameSequence, MAX_TAG_BATCH_SIZE};

fn tags(v: &[&str]) -> Vec<String> {
    v.iter().map(|s| s.to_string()).collect()
}

#[test]
fn test_handle_read_empty_tags_short_circuits() {
    let mut pooled = PooledServer::new(MockConnectedServer::default(), 0);
    let endpoint = OpcServerEndpoint::local_prog_id("Test.Server");
    let mut names = GroupNameSequence::new(1);
    let results = handle_read(&endpoint, &tags(&[]), &mut pooled, &mut names).expect("empty tags must succeed");
    assert!(results.is_empty());
}

#[test]
fn test_handle_read_with_mock_server() {
    let mut pooled = PooledServer::new(MockConnectedServer::default(), 0);
    let endpoint = OpcServerEndpoint::local_prog_id("Test.Server");
    let mut names = GroupNameSequence::new(1);
    let results = handle_read(&endpoint, &tags(&["Random.Int4", "Random.Real8"]), &mut pooled, &mut names)
        .expect("reading tags must succeed");
    assert_eq!(results.len(), 2);
    assert_eq!(results.get("Random.Int4").unwrap().tag_id, "Random.Int4");
    assert_eq!(results.get("Random.Real8").unwrap().tag_id, "Random.Real8");
    assert!(results.get("Random.Int4").unwrap().value().is_some());
}

#[test]
fn test_group_guard_disarm_on_read() {
    let mut pooled = PooledServer::new(MockConnectedServer::default(), 0);
    let endpoint = OpcServerEndpoint::local_prog_id("Test.Server");
    let mut names = GroupNameSequence::new(1);
    let batch = tags(&["Random.Int4"]);

    let res = handle_read(&endpoint, &batch, &mut pooled, &mut names);
    assert!(res.is_ok());
    assert_eq!(pooled.server.state.add_group_count, 1);
    assert_eq!(pooled.server.state.remove_group_count, 0);
    assert!(pooled.has_active_groups());

    let res2 = handle_read(&endpoint, &batch, &mut pooled, &mut names);
    assert!(res2.is_ok());
    assert_eq!(pooled.server.state.add_group_count, 1);
    assert_eq!(pooled.server.state.remove_group_count, 0);

    pooled.clear_active_groups();
    assert_eq!(pooled.server.state.remove_group_count, 1);
}

#[test]
fn test_handle_read_rejects_exceeding_max_batch_size() {
    let mut pooled = PooledServer::new(MockConnectedServer::default(), 0);
    let endpoint = OpcServerEndpoint::local_prog_id("Test.Server");
    let mut names = GroupNameSequence::new(1);
    let batch: Vec<String> = (0..=MAX_TAG_BATCH_SIZE).map(|i| format!("Tag.{i}")).collect();

    let err = handle_read(&endpoint, &batch, &mut pooled, &mut names).expect_err("batch exceeding limit must fail");
    assert!(matches!(err, OpcErrorOf::InvalidState(ref msg) if msg.contains("exceeds maximum allowed limit")));
    assert_eq!(err.message(), "Invalid state: Tag batch size 10001 exceeds maximum allowed limit of 10000");
}

#[test]
fn test_handle_read_cache_hit_zero_sentinel_errors() {
    let mut pooled = PooledServer::new(MockConnectedServer::default(), 0);
    let endpoint = OpcServerEndpoint::local_prog_id("Test.Server");
    let mut names = GroupNameSequence::new(1);
    let batch = tags(&["Random.Int4"]);

    let _ = handle_read(&endpoint, &batch, &mut pooled, &mut names).unwrap();
    let res = handle_read(&endpoint, &batch, &mut pooled, &mut names).unwrap();
    let tag_val = res.get("Random.Int4").unwrap();
    assert!(tag_val.value().is_some());
    assert!(tag_val.error().is_none());
}

#[test]
fn read_cache_hit_ignores_ascii_case_and_keeps_cached_names() {
    let mut pooled = PooledServer::new(MockConnectedServer::default(), 0);
    let endpoint = OpcServerEndpoint::local_prog_id("Test.Server");
    let mut names = GroupNameSequence::new(1);
    let _ = handle_read(&endpoint, &tags(&["Random.Int4"]), &mut pooled, &mut names).unwrap();
    let res = handle_read(&endpoint, &tags(&["RANDOM.INT4"]), &mut pooled, &mut names).unwrap();
    assert_eq!(pooled.server.state.add_group_count, 1, "the cached group is reused");
    assert_eq!(res.values[0].tag_id, "Random.Int4");
}

#[test]
fn read_cached_group_non_connection_error_reregisters() {
    let group = MockConnectedGroup::default();
    let mut pooled = PooledServer::new(MockConnectedServer { group, ..MockConnectedServer::default() }, 0);
    let endpoint = OpcServerEndpoint::local_prog_id("Test.Server");
    let mut names = GroupNameSequence::new(1);
    let batch = tags(&["Random.Int4"]);
    let _ = handle_read(&endpoint, &batch, &mut pooled, &mut names).unwrap();
    // The cached group starts failing reads with a non-connection error.
    let mut front = pooled.active_groups.pop_front().unwrap();
    front.group = front.group.with_read_fn(Err(OpcErrorOf::Internal("stale handles".into())));
    pooled.active_groups.push_front(front);

    let res = handle_read(&endpoint, &batch, &mut pooled, &mut names).unwrap();
    assert_eq!(res.len(), 1);
    assert_eq!(pooled.server.state.remove_group_count, 1, "the failing group is dropped");
    assert_eq!(pooled.server.state.add_group_count, 2, "the batch is registered again");
}

#[test]
fn read_cached_group_connection_error_is_returned() {
    let mut pooled = PooledServer::new(MockConnectedServer::default(), 0);
    let endpoint = OpcServerEndpoint::local_prog_id("Test.Server");
    let mut names = GroupNameSequence::new(1);
    let batch = tags(&["Random.Int4"]);
    let _ = handle_read(&endpoint, &batch, &mut pooled, &mut names).unwrap();
    let mut front = pooled.active_groups.pop_front().unwrap();
    front.group = front.group.with_read_fn(Err(OpcErrorOf::Com { hresult: RPC_S_SERVER_UNAVAILABLE }));
    pooled.active_groups.push_front(front);

    let err = handle_read(&endpoint, &batch, &mut pooled, &mut names).unwrap_err();
    assert!(err.is_connection_error());
}

#[test]
fn partition_item_results_splits_registered_and_refused() {
    let results = vec![
        GroupItemResult { server_handle: ServerItemHandle::new(5), canonical_type: 3, error: None },
        GroupItemResult { server_handle: ServerItemHandle::new(0), canonical_type: 0, error: Some(OpcErrorOf::InvalidState("unknown".into())) },
        GroupItemResult { server_handle: ServerItemHandle::new(7), canonical_type: 3, error: None },
    ];
    let id = ServerIdentifierOf::ProgId("S".to_string());
    let (handles, valid, rejected) = partition_item_results(&results, &tags(&["A", "B", "C"]), &id);
    assert_eq!(handles, vec![ServerItemHandle::new(5), ServerItemHandle::new(7)]);
    assert_eq!(valid, vec![0, 2]);
    assert_eq!(rejected.len(), 1);
    assert_eq!(rejected[0].0, 1);
}

#[test]
fn assemble_tag_values_merges_refusals_and_outcomes() {
    let id = ServerIdentifierOf::ProgId("S".to_string());
    let states = vec![
        Ok(GroupItemState { client_handle: ClientItemHandle::new(1), value: OpcValueOf::Int(7), quality: OpcQuality(QUALITY_GOOD), timestamp: 99 }),
        Err(OpcErrorOf::Internal("device offline".into())),
    ];
    let values = assemble_tag_values(
        &tags(&["A", "B", "C"]),
        &vec![0, 2],
        &vec![(1, OpcErrorOf::InvalidState("unknown".into()))],
        Some(states),
        &id,
    )
    .unwrap();
    assert_eq!(values.len(), 3);
    assert_eq!(values[0].tag_id, "A");
    assert_eq!(values[0].value(), Some(&OpcValueOf::Int(7)));
    assert_eq!(values[0].timestamp, Some(99));
    assert_eq!(values[1].tag_id, "B");
    assert_eq!(values[1].quality, OpcQuality(QUALITY_BAD_CONFIG_ERROR));
    assert!(values[1].error().is_some());
    assert_eq!(values[2].tag_id, "C");
    assert_eq!(values[2].quality, OpcQuality(QUALITY_BAD_COMM_FAILURE));
    assert_eq!(values[2].timestamp, None);
}

#[test]
fn assemble_tag_values_reports_size_mismatch() {
    let id = ServerIdentifierOf::ProgId("S".to_string());
    let err = assemble_tag_values(&tags(&["A", "B"]), &vec![0, 1], &vec![], Some(vec![]), &id).unwrap_err();
    assert_eq!(
        err.message(),
        "Internal error: Server S returned mismatched read result array size: expected 2 items, got 0"
    );
}

#[test]
fn assemble_tag_values_reports_exhaustion() {
    let id = ServerIdentifierOf::ProgId("S".to_string());
    // One registered item but two tags without a refusal for the second.
    let states = vec![Ok(GroupItemState { client_handle: ClientItemHandle::new(1), value: OpcValueOf::Int(1), quality: OpcQuality(QUALITY_GOOD), timestamp: 0 })];
    let err = assemble_tag_values(&tags(&["A", "B"]), &vec![0], &vec![], Some(states), &id).unwrap_err();
    assert_eq!(err.message(), "Internal error: Unexpected state exhaustion at index 1 on server S");
}
