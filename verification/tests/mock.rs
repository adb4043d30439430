use opc_da_client::connector::mock::{
    MockConnectedGroup, MockConnectedServer, MockServerConnector, MockState, StringIterator,
};
use opc_da_client::connector::traits::{ConnectedGroup, ConnectedServer, ItemIdSource, ServerConnector};
use opc_da_client::types::{
    BrowseType, ClientGroupHandle, ClientItemHandle, DataSource, GroupConfig, GroupItemDef,
    GroupItemResult, GroupItemState, GroupRemovalMode, ItemWrite, OpcQuality, OpcServerEndpoint,
    OpcServerInfo, OpcValueOf, ServerGroupHandle, ServerIdentifierOf, ServerItemHandle,
    QUALITY_GOOD, QUALITY_UNCERTAIN,
};

fn drain(mut it: StringIterator) -> Vec<String> {
    let mut out = Vec::new();
    while let Some(r) = it.next_id() {
        out.push(r.unwrap());
    }
    out
}

fn def(id: &str, h: u32) -> GroupItemDef {
    GroupItemDef { item_id: id.to_string(), client_handle: ClientItemHandle::new(h), active: true }
}

#[test]
fn test_mock_group_defaults() {
    let mut group = MockConnectedGroup::default();
    let defs = vec![def("Random.Int4", 0), def("Random.Real8", 1)];

    let results = group.add_items(&defs).unwrap();
    assert_eq!(results.len(), 2);
    assert_eq!(results[0].server_handle, ServerItemHandle::new(1));
    assert!(results[0].error.is_none());
    assert_eq!(results[1].server_handle, ServerItemHandle::new(2));
    assert!(results[1].error.is_none());

    let states = group.read(DataSource::Device, &[ServerItemHandle::new(1), ServerItemHandle::new(2)]).unwrap();
    assert_eq!(states.len(), 2);
    assert_eq!(states[0].as_ref().unwrap().client_handle, ClientItemHandle::new(1));
    assert_eq!(states[0].as_ref().unwrap().value, OpcValueOf::Int(42));
    assert_eq!(states[0].as_ref().unwrap().quality, OpcQuality(QUALITY_GOOD));

    let write_res = group.write(&[ItemWrite::new(ServerItemHandle::new(1), OpcValueOf::Int(100))]).unwrap();
    assert_eq!(write_res.len(), 1);
    assert!(write_res[0].is_ok());
}

#[test]
fn test_mock_group_custom_handlers() {
    let mut group = MockConnectedGroup::default().with_read_fn(Ok(vec![Ok(GroupItemState {
        client_handle: ClientItemHandle::new(99),
        value: OpcValueOf::Float(42.5f64.to_bits()),
        quality: OpcQuality(QUALITY_UNCERTAIN),
        timestamp: 0,
    })]));

    let states = group.read(DataSource::Cache, &[ServerItemHandle::new(99)]).unwrap();
    assert_eq!(states.len(), 1);
    let s = states[0].as_ref().unwrap();
    assert_eq!(s.client_handle, ClientItemHandle::new(99));
    assert_eq!(s.value, OpcValueOf::Float(42.5f64.to_bits()));
    assert_eq!(s.quality, OpcQuality(QUALITY_UNCERTAIN));
}

#[test]
fn test_mock_server_connector_type_aliases_and_dispatch() {
    let mut group = MockConnectedGroup::default().with_add_items_fn(Ok(vec![GroupItemResult {
        server_handle: ServerItemHandle::new(7),
        canonical_type: 8,
        error: None,
    }]));
    let res = group.add_items(&[def("test", 7)]).unwrap();
    assert_eq!(res[0].server_handle, ServerItemHandle::new(7));
}

#[test]
fn test_mock_server_add_group_and_eviction() {
    let mut server = MockConnectedServer::default();
    let config = GroupConfig::ephemeral("test_group").with_update_rate(500).with_client_handle(ClientGroupHandle(10));

    let created = server.add_group(&config).unwrap();
    assert_eq!(created.server_handle, ServerGroupHandle::new(1));
    assert_eq!(created.revised_update_rate_ms, 500);

    server.should_fail_connection = true;
    let again = server.add_group(&config);
    assert!(again.is_err());
    assert!(again.err().unwrap().is_connection_error());
}

#[test]
fn test_group_item_def_and_state_cloning() {
    let d = def("Tag1", 42);
    let cloned_def = d.clone();
    assert_eq!(d, cloned_def);

    let state = GroupItemState {
        client_handle: ClientItemHandle::new(42),
        value: OpcValueOf::Bool(true),
        quality: OpcQuality(QUALITY_GOOD),
        timestamp: 0,
    };
    let cloned_state = state.clone();
    assert_eq!(state, cloned_state);
}

#[test]
fn test_mock_connector_browse() {
    let mut server = MockConnectedServer::default();
    let iter = server.browse_opc_item_ids(BrowseType::Leaf, None, 0, 0).expect("MockConnectedServer should support browse");
    let tags = drain(iter);
    assert!(!tags.is_empty(), "Mock browse should return simulated tags");
}

#[test]
fn test_mock_server_connector_server_details() {
    let mut mock = MockServerConnector::new().with_server_details(vec![OpcServerInfo {
        prog_id: "Custom.Mock.1".into(),
        clsid: 0,
        user_type: Some("Custom Mock Title".into()),
        host: None,
    }]);
    let details = mock.enumerate_server_details("localhost").unwrap();
    assert_eq!(details.len(), 1);
    assert_eq!(details[0].display_name(), "Custom Mock Title");
    assert_eq!(mock.enumerate_servers("localhost").unwrap(), vec!["Custom.Mock.1".to_string()]);
}

#[test]
fn test_mock_browse_branch_vs_leaf() {
    let mut server = MockConnectedServer::default();
    let branches = drain(server.browse_opc_item_ids(BrowseType::Branch, None, 0, 0).unwrap());
    assert_eq!(branches, vec!["Random".to_string(), "Simulation".to_string()]);

    let leaves = drain(server.browse_opc_item_ids(BrowseType::Leaf, None, 0, 0).unwrap());
    assert_eq!(leaves, vec!["Random.Int4".to_string(), "Random.Real8".to_string(), "Random.String".to_string()]);
}

#[test]
fn test_mock_connector_with_tag_values() {
    let mut connector = MockServerConnector::new()
        .with_tag_values(vec![OpcValueOf::Int(123), OpcValueOf::Float(99.9f64.to_bits())]);
    let mut server = connector.connect_identifier(&ServerIdentifierOf::ProgId("Mock.Server".into())).unwrap();
    let mut group = server.add_group(&GroupConfig::ephemeral("g1")).unwrap().group;
    let states = group.read(DataSource::Device, &[ServerItemHandle::new(1), ServerItemHandle::new(2)]).unwrap();
    assert_eq!(states.len(), 2);
    assert_eq!(states[0].as_ref().unwrap().value, OpcValueOf::Int(123));
    assert_eq!(states[1].as_ref().unwrap().value, OpcValueOf::Float(99.9f64.to_bits()));
}

#[test]
fn test_mock_state_observability_counters() {
    let mut connector = MockServerConnector::with_state(MockState::default());

    let mut server = connector.connect_identifier(&ServerIdentifierOf::ProgId("Mock.Server.1".into())).unwrap();
    assert_eq!(connector.state.connect_count, 1);
    assert_eq!(
        connector.state.last_connected_endpoint.as_ref().map(|e| e.identifier.display()),
        Some("Mock.Server.1".to_string())
    );

    let mut created = server.add_group(&GroupConfig::ephemeral("test-group-42")).unwrap();
    assert_eq!(server.state.add_group_count, 1);
    assert_eq!(server.state.last_group_name.as_deref(), Some("test-group-42"));

    created.group.add_items(&[def("Tag1", 1)]).unwrap();
    assert_eq!(created.group.state.add_items_count, 1);

    created.group.read(DataSource::Device, &[ServerItemHandle::new(1)]).unwrap();
    assert_eq!(created.group.state.read_count, 1);

    server.remove_group(ServerGroupHandle::new(1), GroupRemovalMode::Force).unwrap();
    assert_eq!(server.state.remove_group_count, 1);
}

#[test]
fn test_connect_endpoint_preserves_host() {
    let mut connector = MockServerConnector::with_state(MockState::default());
    let endpoint = OpcServerEndpoint::remote("192.168.1.100", ServerIdentifierOf::ProgId("Matrikon.OPC.Simulation.1".into()));
    let _server = connector.connect_endpoint(&endpoint).expect("connect_endpoint should succeed");

    let recorded = connector.state.last_connected_endpoint.clone();
    assert_eq!(recorded, Some(endpoint));
    assert_eq!(recorded.unwrap().host.as_deref(), Some("192.168.1.100"));
}

#[test]
fn test_mock_server_connector_fluent_add_items_and_read_hooks() {
    let mut connector = MockServerConnector::new()
        .with_add_items_fn(Ok(vec![GroupItemResult { server_handle: ServerItemHandle::new(999), canonical_type: 8, error: None }]))
        .with_read_fn(Ok(vec![Ok(GroupItemState {
            client_handle: ClientItemHandle::new(1),
            value: OpcValueOf::String("mock-hook".into()),
            quality: OpcQuality(QUALITY_GOOD),
            timestamp: 0,
        })]));

    let mut server = connector.connect_identifier(&ServerIdentifierOf::ProgId("Mock.Server.1".into())).unwrap();
    let mut group = server.add_group(&GroupConfig::ephemeral("test")).unwrap().group;

    let added = group.add_items(&[def("CustomTag", 1)]).unwrap();
    assert_eq!(added[0].server_handle, ServerItemHandle::new(999));

    let read_res = group.read(DataSource::Device, &[ServerItemHandle::new(999)]).unwrap();
    assert_eq!(read_res[0].as_ref().unwrap().value, OpcValueOf::String("mock-hook".into()));
}

#[test]
fn test_mock_connector_failure_switches() {
    let mut connector = MockServerConnector::new();
    connector.state.should_fail_connect = true;
    assert!(matches!(connector.enumerate_servers("localhost"), Err(opc_da_client::error::OpcErrorOf::Internal(_))));
    let ep = OpcServerEndpoint::local_prog_id("Matrikon.OPC.Simulation.1");
    assert!(connector.connect_endpoint(&ep).err().unwrap().is_connection_error());
    assert_eq!(connector.state.connect_count, 0);
}
