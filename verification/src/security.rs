//! DCOM authentication levels used when activating and blanketing remote proxies.

use vstd::prelude::*;

verus! {

/// RPC authentication level for connect (`RPC_C_AUTHN_LEVEL_CONNECT`).
pub const RPC_C_AUTHN_LEVEL_CONNECT: u32 = 2;

/// RPC authentication level for packet integrity (`RPC_C_AUTHN_LEVEL_PKT_INTEGRITY`).
pub const RPC_C_AUTHN_LEVEL_PKT_INTEGRITY: u32 = 5;

/// NTLM / Kerberos Windows NT authentication service (`RPC_C_AUTHN_WINNT`).
pub const RPC_C_AUTHN_WINNT: u32 = 10;

/// Default authorization service (`RPC_C_AUTHZ_NONE`).
pub const RPC_C_AUTHZ_NONE: u32 = 0;

/// Impersonation level (`RPC_C_IMP_LEVEL_IMPERSONATE`).
pub const RPC_C_IMP_LEVEL_IMPERSONATE: u32 = 3;

/// Standard OPC Foundation OPCEnum CLSID `{13486D51-4821-11D2-A494-3CB306C10000}`,
/// written as the 128-bit big-endian value of the GUID.
pub const CLSID_OPC_SERVER_LIST: u128 = 0x1348_6d51_4821_11d2_a494_3cb3_06c1_0000u128;

/// DCOM authentication security level for remote RPC connections.
#[derive(Debug, Clone, Copy, PartialEq, Eq, Structural)]
pub enum DcomSecurityLevel {
    /// Modern Windows default: packet integrity authentication.
    PacketIntegrity,
    /// Legacy DCOM connect authentication.
    Connect,
}

impl Default for DcomSecurityLevel {
    fn default() -> (r: Self)
        ensures
            r == DcomSecurityLevel::PacketIntegrity,
    {
        DcomSecurityLevel::PacketIntegrity
    }
}

/// The security level selected by the legacy flag.
pub open spec fn spec_level_for(legacy_dcom: bool) -> DcomSecurityLevel {
    if legacy_dcom {
        DcomSecurityLevel::Connect
    } else {
        DcomSecurityLevel::PacketIntegrity
    }
}

/// The RPC authentication constant of a security level.
pub open spec fn spec_rpc_authn_level(level: DcomSecurityLevel) -> u32 {
    match level {
        DcomSecurityLevel::Connect => RPC_C_AUTHN_LEVEL_CONNECT,
        DcomSecurityLevel::PacketIntegrity => RPC_C_AUTHN_LEVEL_PKT_INTEGRITY,
    }
}

impl DcomSecurityLevel {
    /// Maps from a boolean flag where `true` indicates legacy DCOM connect mode.
    pub fn from_legacy_flag(legacy_dcom: bool) -> (r: Self)
        ensures
            r == spec_level_for(legacy_dcom),
    {
        if legacy_dcom {
            DcomSecurityLevel::Connect
        } else {
            DcomSecurityLevel::PacketIntegrity
        }
    }

    /// Returns the raw Win32 RPC authentication level constant.
    pub fn rpc_authn_level(self) -> (r: u32)
        ensures
            r == spec_rpc_authn_level(self),
    {
        match self {
            DcomSecurityLevel::Connect => RPC_C_AUTHN_LEVEL_CONNECT,
            DcomSecurityLevel::PacketIntegrity => RPC_C_AUTHN_LEVEL_PKT_INTEGRITY,
        }
    }
}

/// Returns the RPC authentication level depending on whether legacy DCOM is requested:
/// packet integrity unless `legacy_dcom`, in which case connect-level authentication.
pub fn authn_level_for(legacy_dcom: bool) -> (r: u32)
    ensures
        r == spec_rpc_authn_level(spec_level_for(legacy_dcom)),
        r == (if legacy_dcom { RPC_C_AUTHN_LEVEL_CONNECT } else { RPC_C_AUTHN_LEVEL_PKT_INTEGRITY }),
{
    DcomSecurityLevel::from_legacy_flag(legacy_dcom).rpc_authn_level()
}

} // verus!
