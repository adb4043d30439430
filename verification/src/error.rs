//! Library error type and its user-facing rendering.

use vstd::prelude::*;
use crate::text::{spec_decimal, u64_to_string, concat_str};

verus! {

/// `RPC_S_SERVER_UNAVAILABLE`: the RPC server is unavailable.
pub const RPC_S_SERVER_UNAVAILABLE: u32 = 0x8007_06BA;
/// `RPC_S_CALL_FAILED`: the remote procedure call failed.
pub const RPC_S_CALL_FAILED: u32 = 0x8007_06BE;
/// `RPC_S_CALL_FAILED_DNE`: the remote procedure call failed and did not execute.
pub const RPC_S_CALL_FAILED_DNE: u32 = 0x8007_06BF;
/// `RPC_E_DISCONNECTED`: the object invoked has disconnected from its clients.
pub const RPC_E_DISCONNECTED: u32 = 0x8001_0108;
/// `E_FAIL`: unspecified failure.
pub const E_FAIL: u32 = 0x8000_4005;
/// `REGDB_E_CLASSNOTREG`: class not registered.
pub const REGDB_E_CLASSNOTREG: u32 = 0x8004_0154;

/// Errors reported by the OPC DA client, over a text type `S` (`String` at run time,
/// `Seq<char>` in specifications).
#[derive(Debug, Clone, PartialEq, Eq)]
pub enum OpcErrorOf<S> {
    /// A COM call failed with the given HRESULT.
    Com { hresult: u32 },
    /// Connecting to, or talking with, the server failed.
    Connection(S),
    /// The request is not valid in the current state.
    InvalidState(S),
    /// An internal invariant was violated.
    Internal(S),
    /// The server does not implement an optional interface.
    NotImplemented(S),
    /// The server reported an error with a code.
    Server(S, u32),
    /// The operation did not complete within the given milliseconds.
    Timeout(u64),
    /// The background worker is gone.
    Worker(S),
}

/// Errors reported by the OPC DA client.
pub type OpcError = OpcErrorOf<String>;

/// The mathematical view of an error: its text as characters.
pub type OpcErrorView = OpcErrorOf<Seq<char>>;

/// Result alias used throughout the library.
pub type OpcResult<T> = Result<T, OpcError>;

impl View for OpcErrorOf<String> {
    type V = OpcErrorView;

    open spec fn view(&self) -> OpcErrorView {
        match self {
            OpcErrorOf::Com { hresult } => OpcErrorOf::<Seq<char>>::Com { hresult: *hresult },
            OpcErrorOf::Connection(m) => OpcErrorOf::Connection(m@),
            OpcErrorOf::InvalidState(m) => OpcErrorOf::InvalidState(m@),
            OpcErrorOf::Internal(m) => OpcErrorOf::Internal(m@),
            OpcErrorOf::NotImplemented(m) => OpcErrorOf::NotImplemented(m@),
            OpcErrorOf::Server(m, c) => OpcErrorOf::Server(m@, *c),
            OpcErrorOf::Timeout(ms) => OpcErrorOf::Timeout(*ms),
            OpcErrorOf::Worker(m) => OpcErrorOf::Worker(m@),
        }
    }
}

/// HRESULTs that denote a broken transport rather than a refused request.
pub open spec fn is_connection_hresult(h: u32) -> bool {
    h == RPC_S_SERVER_UNAVAILABLE || h == RPC_S_CALL_FAILED || h == RPC_S_CALL_FAILED_DNE
        || h == RPC_E_DISCONNECTED
}

/// Whether an error means the connection to the server is stale or lost.
pub open spec fn spec_is_connection_error(e: OpcErrorView) -> bool {
    match e {
        OpcErrorOf::Connection(_) => true,
        OpcErrorOf::Com { hresult } => is_connection_hresult(hresult),
        _ => false,
    }
}

/// Upper-case hexadecimal digit.
pub open spec fn spec_hex_digit(d: nat) -> char {
    if d < 10 {
        crate::text::spec_digit_char(d)
    } else if d == 10 { 'A' } else if d == 11 { 'B' } else if d == 12 { 'C' }
    else if d == 13 { 'D' } else if d == 14 { 'E' } else { 'F' }
}

/// The last `k` upper-case hexadecimal digits of `v`, zero padded.
pub open spec fn spec_hex_digits(v: nat, k: nat) -> Seq<char>
    decreases k,
{
    if k == 0 {
        Seq::empty()
    } else {
        spec_hex_digits(v / 16, (k - 1) as nat) + seq![spec_hex_digit(v % 16)]
    }
}

/// The upper-case hexadecimal digit for a value below sixteen.
pub fn hex_digit(d: u128) -> (c: char)
    requires
        d < 16,
    ensures
        c == spec_hex_digit(d as nat),
{
    if d < 10 {
        crate::text::digit_char(d as u64)
    } else if d == 10 { 'A' } else if d == 11 { 'B' } else if d == 12 { 'C' }
    else if d == 13 { 'D' } else if d == 14 { 'E' } else { 'F' }
}

/// The last `k` upper-case hexadecimal digits of `v`, zero padded.
pub fn hex_digits(v: u128, k: usize) -> (s: String)
    ensures
        s@ == spec_hex_digits(v as nat, k as nat),
    decreases k,
{
    if k == 0 {
        String::new()
    } else {
        let mut s = hex_digits(v / 16, k - 1);
        crate::text::string_push(&mut s, hex_digit(v % 16));
        s
    }
}

/// Eight upper-case hexadecimal digits of a 32-bit value.
pub fn hex8(v: u32) -> (s: String)
    ensures
        s@ == spec_hex_digits(v as nat, 8),
{
    hex_digits(v as u128, 8)
}

/// The text an error is shown as.
pub open spec fn spec_error_message(e: OpcErrorView) -> Seq<char> {
    match e {
        OpcErrorOf::Com { hresult } => "COM error 0x"@ + spec_hex_digits(hresult as nat, 8),
        OpcErrorOf::Connection(m) => "Connection failed: "@ + m,
        OpcErrorOf::InvalidState(m) => "Invalid state: "@ + m,
        OpcErrorOf::Internal(m) => "Internal error: "@ + m,
        OpcErrorOf::NotImplemented(m) => "Not implemented: "@ + m,
        OpcErrorOf::Server(m, code) => "Server error 0x"@ + spec_hex_digits(code as nat, 8) + ": "@ + m,
        OpcErrorOf::Timeout(ms) => "Operation timed out after "@ + spec_decimal(ms as nat) + "ms"@,
        OpcErrorOf::Worker(m) => "Worker error: "@ + m,
    }
}

impl OpcErrorOf<String> {
    /// Whether this error means the connection is stale and must be re-established.
    pub fn is_connection_error(&self) -> (r: bool)
        ensures
            r == spec_is_connection_error(self@),
    {
        match self {
            OpcErrorOf::Connection(_) => true,
            OpcErrorOf::Com { hresult } => {
                *hresult == RPC_S_SERVER_UNAVAILABLE || *hresult == RPC_S_CALL_FAILED
                    || *hresult == RPC_S_CALL_FAILED_DNE || *hresult == RPC_E_DISCONNECTED
            },
            _ => false,
        }
    }

    /// A copy of this error.
    pub fn duplicate(&self) -> (r: OpcError)
        ensures
            r@ == self@,
    {
        match self {
            OpcErrorOf::Com { hresult } => OpcErrorOf::<String>::Com { hresult: *hresult },
            OpcErrorOf::Connection(m) => OpcErrorOf::Connection(m.clone()),
            OpcErrorOf::InvalidState(m) => OpcErrorOf::InvalidState(m.clone()),
            OpcErrorOf::Internal(m) => OpcErrorOf::Internal(m.clone()),
            OpcErrorOf::NotImplemented(m) => OpcErrorOf::NotImplemented(m.clone()),
            OpcErrorOf::Server(m, c) => OpcErrorOf::Server(m.clone(), *c),
            OpcErrorOf::Timeout(ms) => OpcErrorOf::Timeout(*ms),
            OpcErrorOf::Worker(m) => OpcErrorOf::Worker(m.clone()),
        }
    }

    /// The text this error is shown as.
    pub fn message(&self) -> (r: String)
        ensures
            r@ == spec_error_message(self@),
    {
        match self {
            OpcErrorOf::Com { hresult } => {
                let h = hex8(*hresult);
                concat_str("COM error 0x", h.as_str())
            },
            OpcErrorOf::Connection(m) => concat_str("Connection failed: ", m.as_str()),
            OpcErrorOf::InvalidState(m) => concat_str("Invalid state: ", m.as_str()),
            OpcErrorOf::Internal(m) => concat_str("Internal error: ", m.as_str()),
            OpcErrorOf::NotImplemented(m) => concat_str("Not implemented: ", m.as_str()),
            OpcErrorOf::Server(m, code) => {
                let h = hex8(*code);
                let a = concat_str("Server error 0x", h.as_str());
                let b = a.concat(": ");
                b.concat(m.as_str())
            },
            OpcErrorOf::Timeout(ms) => {
                let d = u64_to_string(*ms);
                let a = concat_str("Operation timed out after ", d.as_str());
                a.concat("ms")
            },
            OpcErrorOf::Worker(m) => concat_str("Worker error: ", m.as_str()),
        }
    }
}

} // verus!
