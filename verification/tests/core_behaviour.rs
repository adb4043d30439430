use opc_da_client::error::{hex8, hex_digits};
use opc_da_client::text::{u32_to_lower_hex, u64_to_string, usize_to_string};
use opc_da_client::clock::elapsed_ms;
use opc_da_client::connector::mock::{MockConnectedGroup, MockConnectedServer};
use opc_da_client::connector::traits::ConnectedGroup;
use opc_da_client::discovery::OpcServerType;
use opc_da_client::error::OpcErrorOf;
use opc_da_client::security::{
    authn_level_for, DcomSecurityLevel, RPC_C_AUTHN_LEVEL_CONNECT, RPC_C_AUTHN_LEVEL_PKT_INTEGRITY,
};
use opc_da_client::types::{DataSource, OpcQuality, OpcValueOf, ServerGroupHandle, TagValue, QUALITY_GOOD};
use opc_da_client::worker::GroupGuard;
use std::time::{Duration, Instant};

#[test]
fn test_mock_group_preconditions() {
    let mut group = MockConnectedGroup::default();

    assert!(matches!(group.add_items(&[]), Err(OpcErrorOf::InvalidState(_))));

    assert!(matches!(
        group.read(DataSource::Device, &[]),
        Err(OpcErrorOf::InvalidState(_))
    ));

    assert!(matches!(group.write(&[]), Err(OpcErrorOf::InvalidState(_))));
}

#[test]
fn test_authn_level_selection() {
    assert_eq!(authn_level_for(false), RPC_C_AUTHN_LEVEL_PKT_INTEGRITY);
    assert_eq!(authn_level_for(true), RPC_C_AUTHN_LEVEL_CONNECT);
}

#[test]
fn test_opc_server_type_display() {
    assert_eq!(
        OpcServerType::LocalServer32.to_text(),
        "LocalServer32 (Executable)"
    );
    assert_eq!(OpcServerType::InprocServer32.to_text(), "InprocServer32 (DLL)");
}

#[test]
fn test_authn_level_defaults_and_legacy() {
    assert_eq!(
        DcomSecurityLevel::default(),
        DcomSecurityLevel::PacketIntegrity
    );
    assert_eq!(
        DcomSecurityLevel::PacketIntegrity.rpc_authn_level(),
        RPC_C_AUTHN_LEVEL_PKT_INTEGRITY
    );
    assert_eq!(
        DcomSecurityLevel::Connect.rpc_authn_level(),
        RPC_C_AUTHN_LEVEL_CONNECT
    );
    assert_eq!(authn_level_for(false), RPC_C_AUTHN_LEVEL_PKT_INTEGRITY);
    assert_eq!(authn_level_for(true), RPC_C_AUTHN_LEVEL_CONNECT);
}

#[test]
fn test_group_guard_cleanup_on_drop() {
    let mut server = MockConnectedServer::default();
    assert_eq!(server.state.remove_group_count, 0);
    {
        let guard = GroupGuard::new(ServerGroupHandle::new(42));
        assert_eq!(guard.handle(), ServerGroupHandle::new(42));
        guard.release(&mut server);
    }
    assert_eq!(server.state.remove_group_count, 1);
}

#[test]
fn test_group_guard_disarm_prevents_cleanup() {
    let mut server = MockConnectedServer::default();
    {
        let mut guard = GroupGuard::new(ServerGroupHandle::new(42));
        guard.disarm();
        guard.release(&mut server);
    }
    assert_eq!(server.state.remove_group_count, 0);
}

#[test]
fn test_elapsed_ms_calculation() {
    let start = Instant::now()
        .checked_sub(Duration::from_millis(25))
        .expect("valid instant subtraction");
    let elapsed = elapsed_ms(start);
    assert!(
        elapsed >= 25,
        "expected at least 25ms elapsed, got {elapsed}ms"
    );
}

#[test]
fn numbers_are_formatted_like_std() {
    assert_eq!(u64_to_string(0), "0");
    assert_eq!(u64_to_string(u64::MAX), u64::MAX.to_string());
    assert_eq!(usize_to_string(10_000), "10000");
    assert_eq!(u32_to_lower_hex(0x800706ba), "800706ba");
    assert_eq!(hex8(0x1F), "0000001F");
    assert_eq!(hex_digits(0xABCDE, 4), "BCDE");
}

#[test]
fn test_destructure_tag_value_ergonomics() {
    let tv = TagValue::new("Plant.Sensor1", Some(OpcValueOf::Int(100)), OpcQuality(QUALITY_GOOD), None);

    let TagValue { tag_id, quality, timestamp, .. } = &tv;

    let value = match tv.value() {
        Some(OpcValueOf::Int(v)) => v.to_string(),
        Some(_) => "other".to_string(),
        None => "N/A".to_string(),
    };
    let log_line = format!(
        "Tag: {} | Value: {} | Quality: {} | Timestamp: {}",
        tag_id,
        value,
        quality.label(),
        timestamp.map(|t| t.to_string()).unwrap_or_else(|| "N/A".to_string())
    );

    assert_eq!(log_line, "Tag: Plant.Sensor1 | Value: 100 | Quality: Good | Timestamp: N/A");
}
