use opc_da_client::error::OpcErrorOf;
use opc_da_client::worker::browse::{gather_resolved, BROWSE_CHUNK_SIZE};
use opc_da_client::collector::TagCollector;
use opc_da_client::connector::mock::MockConnectedServer;
use opc_da_client::types::{NamespaceType, ServerIdentifierOf};
use opc_da_client::worker::browse::handle_browse;

fn server_id() -> opc_da_client::types::ServerIdentifier {
    ServerIdentifierOf::ProgId("Test.Server".to_string())
}

fn generated(n: usize, prefix: &str) -> Vec<String> {
    (0..n).map(|i| format!("{prefix}{i:04}")).collect()
}

#[test]
fn test_handle_browse_harvests_tags() {
    let mut server = MockConnectedServer::default();
    let mut collector = TagCollector::new(100);

    let tags = handle_browse(&server_id(), &mut collector, &mut server).expect("browse operation should succeed");
    assert!(!tags.is_empty());
    assert_eq!(tags, vec!["Random.Int4", "Random.Real8", "Random.String"]);
    assert_eq!(collector.len(), 0);
    assert!(collector.is_empty());
}

#[test]
fn test_handle_browse_cancelled_returns_snapshot() {
    let mut server = MockConnectedServer::default();
    let mut collector = TagCollector::new(100);
    collector.cancel();

    let tags = handle_browse(&server_id(), &mut collector, &mut server).expect("cancelled browse should return empty ok");
    assert!(tags.is_empty());
}

#[test]
fn test_handle_browse_flat_chunked_batch_push() {
    let mut server = MockConnectedServer::default();
    let mut collector = TagCollector::new(1000);

    let tags = handle_browse(&server_id(), &mut collector, &mut server).expect("browse flat operation should succeed");
    assert_eq!(tags, vec!["Random.Int4", "Random.Real8", "Random.String"]);
    assert_eq!(collector.len(), 0);
    assert!(collector.is_empty());
}

#[test]
fn test_handle_browse_chunk_draining_preserves_all_tags_across_boundaries() {
    let generated_tags = generated(600, "Device.Channel1.Tag");
    let mut server = MockConnectedServer::default().with_tags(generated_tags.clone());
    let mut collector = TagCollector::new(1000);

    let tags = handle_browse(&server_id(), &mut collector, &mut server)
        .expect("browse operation across chunk boundaries should succeed");

    assert_eq!(tags.len(), 600);
    assert_eq!(tags, generated_tags);
    assert_eq!(collector.len(), 0);
    assert!(collector.is_empty());
}

#[test]
fn test_handle_browse_flat_namespace_chunk_draining_with_flat_organization() {
    let generated_tags = generated(600, "Device.Channel1.Tag");
    let mut server = MockConnectedServer::default()
        .with_tags(generated_tags.clone())
        .with_organization(NamespaceType::Flat);
    let mut collector = TagCollector::new(1000);

    let tags = handle_browse(&server_id(), &mut collector, &mut server)
        .expect("browse flat operation across chunk boundaries should succeed");

    assert_eq!(tags.len(), 600);
    assert_eq!(tags, generated_tags);
    assert_eq!(collector.len(), 0);
    assert!(collector.is_empty());
}

#[test]
fn test_handle_browse_chunk_draining_respects_capacity_limits() {
    let generated_tags = generated(600, "Device.Channel1.Tag");
    let mut server = MockConnectedServer::default().with_tags(generated_tags.clone());
    let mut collector = TagCollector::new(300);

    let tags = handle_browse(&server_id(), &mut collector, &mut server)
        .expect("browse operation with bounded capacity should succeed");

    assert_eq!(tags.len(), 300);
    assert_eq!(tags, &generated_tags[..300]);
    assert_eq!(collector.len(), 0);
    assert!(collector.is_empty());
}

#[test]
fn test_handle_browse_chunk_draining_cancellation_without_leaks() {
    let mut server = MockConnectedServer::default().with_tags(generated(600, "Device.Channel1.Tag"));
    let mut collector = TagCollector::new(1000);
    collector.cancel();

    let tags = handle_browse(&server_id(), &mut collector, &mut server)
        .expect("cancelled browse should return empty ok without leak");

    assert!(tags.is_empty());
    assert_eq!(collector.len(), 0);
    assert!(collector.is_cancelled());
}

#[test]
fn test_handle_browse_retry_cleans_slate() {
    let mut server = MockConnectedServer::default();
    let mut collector = TagCollector::new(100);
    assert!(collector.push("Dirty.Tag.1".into()));
    assert!(collector.push("Dirty.Tag.2".into()));
    assert_eq!(collector.len(), 2);

    let tags = handle_browse(&server_id(), &mut collector, &mut server).expect("browse retry should succeed");
    assert!(!tags.contains(&"Dirty.Tag.1".to_string()));
    assert!(!tags.contains(&"Dirty.Tag.2".to_string()));
    assert_eq!(tags, vec!["Random.Int4", "Random.Real8", "Random.String"]);
    assert_eq!(collector.len(), 0);
    assert!(collector.is_empty());
}

#[test]
fn test_handle_browse_recursive_chunked_batch_push() {
    let generated_tags = generated(300, "BranchTag.");
    let mut server = MockConnectedServer::default()
        .with_tags(generated_tags.clone())
        .with_branch_tags(Vec::new())
        .with_organization(NamespaceType::Hierarchy);
    server.supports_flat_browse = false;
    let mut collector = TagCollector::new(500);

    let tags = handle_browse(&server_id(), &mut collector, &mut server).expect("recursive chunked browse should succeed");
    assert_eq!(tags.len(), 300);
    assert_eq!(tags, generated_tags);
    assert_eq!(collector.len(), 0);
    assert!(collector.is_empty());
}

#[test]
fn browse_recursive_descends_into_branches_up_to_capacity() {
    // Every level offers the same leaves and one branch: the traversal gathers the
    // leaves at each level until the collector is full.
    let mut server = MockConnectedServer::default()
        .with_tags(vec!["Leaf".to_string()])
        .with_branch_tags(vec!["Child".to_string()]);
    server.supports_flat_browse = false;
    let mut collector = TagCollector::new(5);
    let tags = handle_browse(&server_id(), &mut collector, &mut server).unwrap();
    assert_eq!(tags, vec!["Leaf"; 5]);
}

#[test]
fn browse_with_zero_capacity_gathers_nothing() {
    let mut server = MockConnectedServer::default();
    let mut collector = TagCollector::new(0);
    let tags = handle_browse(&server_id(), &mut collector, &mut server).unwrap();
    assert!(tags.is_empty());
}

#[test]
fn test_browse_tags_collector_timeout_and_cancellation() {
    let mut collector = TagCollector::new(10);
    assert_eq!(collector.max_tags(), 10);
    assert_eq!(collector.len(), 0);
    assert!(!collector.is_cancelled());

    assert!(collector.push("Device.Tag1".into()));
    assert!(collector.push("Device.Tag2".into()));
    assert_eq!(collector.len(), 2);

    collector.cancel();
    assert!(collector.is_cancelled());

    let harvested = collector.harvest();
    assert_eq!(harvested, vec!["Device.Tag1", "Device.Tag2"]);
    assert!(collector.is_empty());
    assert_eq!(collector.len(), 0);
}

#[test]
fn collector_push_batch_stops_at_capacity() {
    let mut collector = TagCollector::new(3);
    let added = collector.push_batch(vec!["a".into(), "b".into(), "c".into(), "d".into()]);
    assert_eq!(added, 3);
    assert!(collector.is_full());
    assert!(!collector.push("e".into()));
    assert_eq!(collector.harvest(), vec!["a", "b", "c"]);
}

#[test]
fn a_failed_resolution_is_skipped_and_a_full_chunk_is_handed_over() {
    let mut collector = TagCollector::new(10);
    let mut chunk: Vec<String> = Vec::new();
    assert!(!gather_resolved(&mut chunk, &mut collector, Err(OpcErrorOf::Com { hresult: 0x8000_4005 })));
    assert!(chunk.is_empty());
    assert!(!gather_resolved(&mut chunk, &mut collector, Ok("Resolved.GoodTag1".to_string())));
    assert_eq!(chunk, vec!["Resolved.GoodTag1".to_string()]);
    let mut full: Vec<String> = (0..BROWSE_CHUNK_SIZE - 1).map(|i| format!("T{i}")).collect();
    let stop = gather_resolved(&mut full, &mut collector, Ok("Last".to_string()));
    assert!(stop);
    assert!(full.is_empty());
    assert_eq!(collector.tags.len(), 10);
    assert_eq!(collector.tags[0], "T0");
}
