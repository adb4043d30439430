use opc_da_client::connector::mock::{MockConnectedGroup, MockConnectedServer};
use opc_da_client::error::{OpcErrorOf, E_FAIL};
use opc_da_client::types::{GroupItemResult, OpcValueOf, ServerIdentifierOf, ServerItemHandle, WriteResult};
use opc_da_client::worker::write::{
    assemble_write_results, handle_write, handle_write_batch, partition_item_registration_results,
    partition_write_inputs,
};
use opc_da_client::worker::{GroupNameSequence, MAX_TAG_BATCH_SIZE};

fn server_id() -> opc_da_client::types::ServerIdentifier {
    ServerIdentifierOf::ProgId("Test.Server".to_string())
}

fn writes(v: &[(&str, i64)]) -> Vec<(String, opc_da_client::types::OpcValue)> {
    v.iter().map(|(t, x)| (t.to_string(), OpcValueOf::Int(*x))).collect()
}

#[test]
fn test_handle_write_success() {
    let mut server = MockConnectedServer::default();
    let mut names = GroupNameSequence::new(7);
    let value = OpcValueOf::Int(123);
    let result = handle_write(&server_id(), "Random.Int4", &value, &mut server, &mut names)
        .expect("write operation should succeed");
    assert!(result.is_success());
    assert_eq!(result.tag_id, "Random.Int4");
    assert!(result.error().is_none());
    assert_eq!(server.state.last_group_name.as_deref(), Some("opc-write-7-1"));
    assert_eq!(server.state.remove_group_count, 1, "the ephemeral write group is removed");
}

#[test]
fn test_worker_native_write_batch_partial_failures_and_ordering() {
    let group = MockConnectedGroup::default()
        .with_add_items_fn(Ok(vec![
            GroupItemResult { server_handle: ServerItemHandle::new(1), canonical_type: 0, error: None },
            GroupItemResult {
                server_handle: ServerItemHandle::new(0),
                canonical_type: 0,
                error: Some(OpcErrorOf::InvalidState("Tag2 rejected in add_items".into())),
            },
            GroupItemResult { server_handle: ServerItemHandle::new(3), canonical_type: 0, error: None },
        ]))
        .with_write_fn(Ok(vec![Ok(()), Err(OpcErrorOf::InvalidState("Tag3 rejected in write".into()))]));
    let mut server = MockConnectedServer { group, ..MockConnectedServer::default() };
    let mut names = GroupNameSequence::new(1);

    let results = handle_write_batch(&server_id(), &writes(&[("Tag1", 10), ("Tag2", 20), ("Tag3", 30)]), &mut server, &mut names)
        .expect("batch write must return results");
    assert_eq!(results.len(), 3);

    assert_eq!(results[0].tag_id, "Tag1");
    assert!(results[0].is_success());

    assert_eq!(results[1].tag_id, "Tag2");
    assert!(results[1].is_error());
    assert!(results[1].error().unwrap().message().contains("Tag2 rejected in add_items"));

    assert_eq!(results[2].tag_id, "Tag3");
    assert!(results[2].is_error());
    assert!(results[2].error().unwrap().message().contains("Tag3 rejected in write"));
}

#[test]
fn test_handle_write_batch_exceeds_max_limit() {
    let mut server = MockConnectedServer::default();
    let mut names = GroupNameSequence::new(1);
    let batch: Vec<(String, opc_da_client::types::OpcValue)> =
        (0..=MAX_TAG_BATCH_SIZE).map(|i| (format!("Tag.{i}"), OpcValueOf::Int(i as i64))).collect();

    let err = handle_write_batch(&server_id(), &batch, &mut server, &mut names)
        .expect_err("batch exceeding limit must be rejected");
    assert!(
        matches!(err, OpcErrorOf::InvalidState(ref msg) if msg.contains("exceeds maximum allowed limit")),
        "Expected InvalidState error, got: {err:?}"
    );
    assert_eq!(server.state.add_group_count, 0, "No COM group allocation should occur");
}

#[test]
fn test_handle_write_batch_empty() {
    let mut server = MockConnectedServer::default();
    let mut names = GroupNameSequence::new(1);
    let results = handle_write_batch(&server_id(), &Vec::new(), &mut server, &mut names)
        .expect("empty write batch must succeed");
    assert!(results.is_empty());
    assert_eq!(server.state.add_group_count, 0, "No COM groups must be allocated for empty batch");
}

#[test]
fn test_handle_write_batch_at_max_limit() {
    let mut server = MockConnectedServer::default();
    let mut names = GroupNameSequence::new(1);
    let batch: Vec<(String, opc_da_client::types::OpcValue)> =
        (0..MAX_TAG_BATCH_SIZE).map(|i| (format!("Tag.{i}"), OpcValueOf::Int(i as i64))).collect();
    let results = handle_write_batch(&server_id(), &batch, &mut server, &mut names)
        .expect("batch at maximum limit must proceed");
    assert_eq!(results.len(), MAX_TAG_BATCH_SIZE);
    assert_eq!(server.state.add_group_count, 1, "Exactly 1 COM group should be registered");
}

#[test]
fn test_partition_write_inputs_clean_tags() {
    let val1 = OpcValueOf::Int(10);
    let val2 = OpcValueOf::Int(20);
    let items = [("Tag1", &val1), ("Tag2", &val2)];

    let (valid_tags, valid_orig_indices, write_results) = partition_write_inputs(&items, &server_id());

    assert_eq!(valid_tags, vec!["Tag1", "Tag2"]);
    assert_eq!(valid_orig_indices, vec![0, 1]);
    assert_eq!(write_results.len(), 2);
    assert!(write_results[0].is_none());
    assert!(write_results[1].is_none());
}

#[test]
fn test_partition_write_inputs_contaminated_tags() {
    let val1 = OpcValueOf::Int(10);
    let val2 = OpcValueOf::Int(20);
    let val3 = OpcValueOf::Int(30);
    let items = [("Clean.Tag1", &val1), ("Dirty\0.Tag2", &val2), ("Clean.Tag3", &val3)];

    let (valid_tags, valid_orig_indices, write_results) = partition_write_inputs(&items, &server_id());

    assert_eq!(valid_tags, vec!["Clean.Tag1", "Clean.Tag3"]);
    assert_eq!(valid_orig_indices, vec![0, 2]);
    assert_eq!(write_results.len(), 3);
    assert!(write_results[0].is_none());
    assert!(write_results[2].is_none());

    let quarantined = write_results[1].as_ref().expect("quarantined result must be present");
    assert_eq!(quarantined.tag_id, "Dirty\0.Tag2");
    assert!(quarantined.is_error());
    assert!(quarantined.error().unwrap().message().contains("illegal interior null byte"));
}

#[test]
fn test_partition_write_inputs_all_null_tags() {
    let val1 = OpcValueOf::Int(10);
    let val2 = OpcValueOf::Int(20);
    let items = [("Bad\0One", &val1), ("Bad\0Two", &val2)];

    let (valid_tags, valid_orig_indices, write_results) = partition_write_inputs(&items, &server_id());

    assert!(valid_tags.is_empty());
    assert!(valid_orig_indices.is_empty());
    assert_eq!(write_results.len(), 2);
    assert_eq!(write_results[0].as_ref().unwrap().tag_id, "Bad\0One");
    assert!(write_results[0].as_ref().unwrap().is_error());
    assert!(write_results[0].as_ref().unwrap().error().unwrap().message().contains("illegal interior null byte"));
    assert_eq!(write_results[1].as_ref().unwrap().tag_id, "Bad\0Two");
    assert!(write_results[1].as_ref().unwrap().is_error());
    assert!(write_results[1].as_ref().unwrap().error().unwrap().message().contains("illegal interior null byte"));
}

#[test]
fn test_partition_item_registration_results_partial() {
    let val0 = OpcValueOf::Int(100);
    let val1 = OpcValueOf::Int(200);
    let items = [("Tag.A", &val0), ("Tag.B", &val1)];
    let valid_orig_indices = vec![0, 1];
    let mut write_results = vec![None, None];
    let registration_results = vec![
        GroupItemResult { server_handle: ServerItemHandle::new(42), canonical_type: 3, error: None },
        GroupItemResult {
            server_handle: ServerItemHandle::new(0),
            canonical_type: 0,
            error: Some(OpcErrorOf::InvalidState("Tag.B not found".into())),
        },
    ];

    let (valid_writes, valid_write_orig_indices) = partition_item_registration_results(
        registration_results,
        &valid_orig_indices,
        &items,
        &mut write_results,
        &server_id(),
    )
    .expect("partitioning must succeed");

    assert_eq!(valid_writes.len(), 1);
    assert_eq!(valid_writes[0].handle.as_raw(), 42);
    assert_eq!(valid_writes[0].value, OpcValueOf::Int(100));
    assert_eq!(valid_write_orig_indices, vec![0]);
    assert!(write_results[0].is_none());
    let failed = write_results[1].as_ref().expect("Tag.B must have failed result");
    assert_eq!(failed.tag_id, "Tag.B");
    assert!(failed.is_error());
    assert!(failed.error().unwrap().message().contains("Tag.B not found"));
}

#[test]
fn test_partition_item_registration_results_count_mismatch() {
    let val = OpcValueOf::Int(10);
    let items = [("Tag1", &val), ("Tag2", &val)];
    let valid_orig_indices = vec![0, 1];
    let mut write_results = vec![None, None];
    let registration_results =
        vec![GroupItemResult { server_handle: ServerItemHandle::new(1), canonical_type: 3, error: None }];
    let err = partition_item_registration_results(
        registration_results,
        &valid_orig_indices,
        &items,
        &mut write_results,
        &server_id(),
    )
    .expect_err("mismatched registration count must return Internal error");
    assert!(matches!(err, OpcErrorOf::Internal(ref msg) if msg.contains("mismatched")));
}

#[test]
fn test_assemble_write_results_outcomes() {
    let val1 = OpcValueOf::Int(10);
    let val2 = OpcValueOf::Int(20);
    let val3 = OpcValueOf::Int(30);
    let items = [("Tag1", &val1), ("Tag2", &val2), ("Tag3", &val3)];
    let write_results = vec![
        None,
        Some(WriteResult::failure("Tag2", OpcErrorOf::InvalidState("Failed in add_items".into()))),
        None,
    ];
    let valid_write_orig_indices = vec![0, 2];
    let server_write_results = Some(vec![Ok(()), Err(OpcErrorOf::Com { hresult: E_FAIL })]);

    let results = assemble_write_results(&items, write_results, &valid_write_orig_indices, server_write_results, &server_id())
        .expect("assembly must succeed");

    assert_eq!(results.len(), 3);
    assert_eq!(results[0].tag_id, "Tag1");
    assert!(results[0].is_success());
    assert_eq!(results[1].tag_id, "Tag2");
    assert!(results[1].is_error());
    assert!(results[1].error().unwrap().message().contains("Failed in add_items"));
    assert_eq!(results[2].tag_id, "Tag3");
    assert!(results[2].is_error());
    assert!(matches!(results[2].error(), Some(OpcErrorOf::Com { .. })));
}

#[test]
fn test_assemble_write_results_parity_mismatch() {
    let val = OpcValueOf::Int(10);
    let items = [("Tag1", &val)];
    let err = assemble_write_results(&items, vec![None], &[0], Some(vec![Ok(()), Ok(())]), &server_id())
        .expect_err("parity mismatch must error");
    assert!(matches!(err, OpcErrorOf::Internal(ref msg) if msg.contains("mismatched write result array size")));
}

#[test]
fn test_assemble_write_results_unassigned_slots_fallback() {
    let val = OpcValueOf::Int(10);
    let items = [("Tag1", &val)];
    let results = assemble_write_results(&items, vec![None], &[], None, &server_id())
        .expect("assembly should complete with fallback failure");
    assert_eq!(results.len(), 1);
    assert_eq!(results[0].tag_id, "Tag1");
    assert!(results[0].is_error());
    assert!(results[0].error().unwrap().message().contains("was not populated"));
}

#[test]
fn test_handle_write_batch_granular_null_byte_isolation() {
    let mut server = MockConnectedServer::default();
    let mut names = GroupNameSequence::new(1);
    let batch = writes(&[("Clean.Tag1", 1), ("Dirty\0.Tag2", 2), ("Clean.Tag3", 3)]);

    let results = handle_write_batch(&server_id(), &batch, &mut server, &mut names)
        .expect("batch write should succeed with granular isolation");

    assert_eq!(results.len(), 3);
    assert_eq!(results[0].tag_id, "Clean.Tag1");
    assert!(results[0].is_success());
    assert_eq!(results[1].tag_id, "Dirty\0.Tag2");
    assert!(results[1].is_error());
    assert!(results[1].error().unwrap().message().contains("illegal interior null byte"));
    assert_eq!(results[2].tag_id, "Clean.Tag3");
    assert!(results[2].is_success());
    assert_eq!(server.state.add_group_count, 1, "Exactly 1 COM group should be registered for valid tags");
}

#[test]
fn test_handle_write_batch_all_null_short_circuits() {
    let mut server = MockConnectedServer::default();
    let mut names = GroupNameSequence::new(1);
    let batch = writes(&[("Bad\0Tag1", 1), ("Bad\0Tag2", 2)]);

    let results = handle_write_batch(&server_id(), &batch, &mut server, &mut names)
        .expect("all-null batch should short-circuit and return results");

    assert_eq!(results.len(), 2);
    assert_eq!(results[0].tag_id, "Bad\0Tag1");
    assert!(results[0].is_error());
    assert!(results[0].error().unwrap().message().contains("illegal interior null byte"));
    assert_eq!(results[1].tag_id, "Bad\0Tag2");
    assert!(results[1].is_error());
    assert!(results[1].error().unwrap().message().contains("illegal interior null byte"));
    assert_eq!(server.state.add_group_count, 0, "No COM group should be created when every tag is quarantined");
    assert_eq!(names.next, 1, "no group name is used");
}

#[test]
fn test_handle_write_batch_all_rejected_registration_skips_write() {
    let group = MockConnectedGroup::default().with_add_items_fn(Ok(vec![
        GroupItemResult {
            server_handle: ServerItemHandle::new(0),
            canonical_type: 0,
            error: Some(OpcErrorOf::InvalidState("Tag1 unknown".into())),
        },
        GroupItemResult {
            server_handle: ServerItemHandle::new(0),
            canonical_type: 0,
            error: Some(OpcErrorOf::InvalidState("Tag2 unknown".into())),
        },
    ]))
    .with_write_fn(Err(OpcErrorOf::Internal("write must not be called".into())));
    let mut server = MockConnectedServer { group, ..MockConnectedServer::default() };
    let mut names = GroupNameSequence::new(1);

    let results = handle_write_batch(&server_id(), &writes(&[("Tag1", 1), ("Tag2", 2)]), &mut server, &mut names)
        .expect("rejected registration still yields per-tag results");
    assert_eq!(results.len(), 2);
    assert!(results[0].error().unwrap().message().contains("Tag1 unknown"));
    assert!(results[1].error().unwrap().message().contains("Tag2 unknown"));
}

#[test]
fn test_handle_write_scalar_null_byte_returns_failure_result() {
    let mut server = MockConnectedServer::default();
    let mut names = GroupNameSequence::new(1);
    let result = handle_write(&server_id(), "Bad\0Tag", &OpcValueOf::Int(5), &mut server, &mut names)
        .expect("scalar write of a NUL tag yields a failure result");
    assert_eq!(result.tag_id, "Bad\0Tag");
    assert!(result.is_error());
    assert!(result.error().unwrap().message().contains("illegal interior null byte"));
    assert_eq!(server.state.add_group_count, 0);
}
