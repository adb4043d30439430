//! Configuration of a client: target host and server, timeout, DCOM security, and the
//! connector used; and the endpoint a configured client is bound to.

use vstd::prelude::*;
use std::time::Duration;
use crate::error::{OpcError, OpcErrorOf, OpcResult};
use crate::security::{DcomSecurityLevel, spec_level_for};
use crate::text::str_has_char;
use crate::types::{
    EndpointView, OpcServerEndpoint, ServerIdentifier, ServerIdentifierOf, ServerIdentifierView, normalize_host,
    opt_view, spec_normalize_host,
};

verus! {

/// Marker of a client not bound to a server: it may address any server.
#[derive(Debug, Clone, Copy, PartialEq, Eq, Structural)]
pub struct Unbound;

/// Marker of a client bound to one server.
#[derive(Debug, Clone, Copy, PartialEq, Eq, Structural)]
pub struct Bound;

/// Settings of the COM connector: whether legacy DCOM authentication is used.
#[derive(Debug, Clone, Copy, PartialEq, Eq, Structural)]
pub struct ComConnector {
    /// Use the legacy (connect-level) DCOM authentication.
    pub legacy_dcom: bool,
}

impl Default for ComConnector {
    fn default() -> (r: Self)
        ensures
            !r.legacy_dcom,
    {
        ComConnector { legacy_dcom: false }
    }
}

impl ComConnector {
    /// A connector using legacy DCOM authentication or not.
    pub fn with_legacy_dcom(legacy_dcom: bool) -> (r: Self)
        ensures
            r.legacy_dcom == legacy_dcom,
    {
        ComConnector { legacy_dcom }
    }

    /// The DCOM security level the connector applies.
    pub fn security_level(&self) -> (r: DcomSecurityLevel)
        ensures
            r == spec_level_for(self.legacy_dcom),
    {
        DcomSecurityLevel::from_legacy_flag(self.legacy_dcom)
    }
}

/// Builder of a client configuration over a connector type `C`.
#[derive(Debug)]
pub struct OpcDaClientBuilder<C> {
    /// Target host, if set.
    pub host: Option<String>,
    /// Target server, if set.
    pub server: Option<ServerIdentifier>,
    /// Operation timeout, if set.
    pub timeout: Option<Duration>,
    /// Use legacy DCOM authentication.
    pub legacy_dcom: bool,
    /// Connector.
    pub connector: Option<C>,
    /// The first invalid setting met, reported when the configuration is used.
    pub error: Option<OpcError>,
}

impl OpcDaClientBuilder<ComConnector> {
    /// A builder with nothing set and the default COM connector.
    pub fn new() -> (r: Self)
        ensures
            r.host is None,
            r.server is None,
            r.timeout is None,
            !r.legacy_dcom,
            r.connector == Some(ComConnector { legacy_dcom: false }),
            r.error is None,
    {
        OpcDaClientBuilder {
            host: None,
            server: None,
            timeout: None,
            legacy_dcom: false,
            connector: Some(ComConnector::default()),
            error: None,
        }
    }

    /// Uses legacy DCOM authentication or not, in the builder and its connector.
    pub fn with_legacy_dcom(self, legacy_dcom: bool) -> (r: Self)
        ensures
            r.legacy_dcom == legacy_dcom,
            r.connector == Some(ComConnector { legacy_dcom }),
            r.host == self.host,
            r.server == self.server,
            r.timeout == self.timeout,
            r.error == self.error,
    {
        OpcDaClientBuilder { legacy_dcom, connector: Some(ComConnector::with_legacy_dcom(legacy_dcom)), ..self }
    }
}

/// Message of the error for a host name holding a NUL character.
pub open spec fn spec_invalid_host_message() -> Seq<char> {
    "Host name contains a null byte"@
}

/// Message of the error for a ProgID holding a NUL character.
pub open spec fn spec_invalid_server_message() -> Seq<char> {
    "Server identifier contains a null byte"@
}

/// A ProgID holding a NUL character.
pub open spec fn spec_identifier_has_nul(id: ServerIdentifierView) -> bool {
    match id {
        ServerIdentifierOf::ProgId(p) => p.contains('\0'),
        ServerIdentifierOf::Clsid(_) => false,
    }
}

/// Message of the error for binding a client without a server.
pub open spec fn spec_unbound_message() -> Seq<char> {
    "Cannot build bound client without configuring server identifier"@
}

impl<C> OpcDaClientBuilder<C> {
    /// A builder with nothing set and the given connector.
    pub fn new_with_connector(connector: C) -> (r: Self)
        ensures
            r.host is None,
            r.server is None,
            r.timeout is None,
            !r.legacy_dcom,
            r.connector == Some(connector),
            r.error is None,
    {
        OpcDaClientBuilder { host: None, server: None, timeout: None, legacy_dcom: false, connector: Some(connector), error: None }
    }

    /// Sets the target host.  A host name holding a NUL character is invalid: it is
    /// stored all the same and, unless an earlier setting was invalid, the error is
    /// kept to be reported when the configuration is used.
    pub fn host(self, host: &str) -> (r: Self)
        ensures
            opt_view(r.host) == Some(host@),
            !(self.error is None && host@.contains('\0')) ==> r.error == self.error,
            self.error is None && host@.contains('\0') ==> (r.error matches Some(e) && e@
                == OpcErrorOf::<Seq<char>>::InvalidState(spec_invalid_host_message())),
            r.server == self.server,
            r.timeout == self.timeout,
            r.legacy_dcom == self.legacy_dcom,
            r.connector == self.connector,
    {
        if str_has_char(host, '\0') {
            let error = match self.error {
                Some(e) => Some(e),
                None => Some(OpcErrorOf::InvalidState(String::from_str("Host name contains a null byte"))),
            };
            OpcDaClientBuilder { host: Some(String::from_str(host)), error, ..self }
        } else {
            OpcDaClientBuilder { host: Some(String::from_str(host)), ..self }
        }
    }

    /// Sets the target server.  A ProgID holding a NUL character is invalid: it is
    /// stored all the same and, unless an earlier setting was invalid, the error is
    /// kept to be reported when the configuration is used.
    pub fn server(self, server: ServerIdentifier) -> (r: Self)
        ensures
            r.server == Some(server),
            !(self.error is None && spec_identifier_has_nul(server@)) ==> r.error == self.error,
            self.error is None && spec_identifier_has_nul(server@) ==> (r.error matches Some(e) && e@
                == OpcErrorOf::<Seq<char>>::InvalidState(spec_invalid_server_message())),
            r.host == self.host,
            r.timeout == self.timeout,
            r.legacy_dcom == self.legacy_dcom,
            r.connector == self.connector,
    {
        let bad = match &server {
            ServerIdentifierOf::ProgId(p) => str_has_char(p.as_str(), '\0'),
            ServerIdentifierOf::Clsid(_) => false,
        };
        if bad {
            let error = match self.error {
                Some(e) => Some(e),
                None => Some(OpcErrorOf::InvalidState(String::from_str("Server identifier contains a null byte"))),
            };
            OpcDaClientBuilder { server: Some(server), error, ..self }
        } else {
            OpcDaClientBuilder { server: Some(server), ..self }
        }
    }

    /// Sets the operation timeout.
    pub fn timeout(self, timeout: Duration) -> (r: Self)
        ensures
            r.timeout == Some(timeout),
            r.host == self.host,
            r.server == self.server,
            r.legacy_dcom == self.legacy_dcom,
            r.connector == self.connector,
            r.error == self.error,
    {
        OpcDaClientBuilder { timeout: Some(timeout), ..self }
    }

    /// Switches to another connector, keeping the other settings.
    pub fn with_connector<C2>(self, connector: C2) -> (r: OpcDaClientBuilder<C2>)
        ensures
            r.connector == Some(connector),
            r.host == self.host,
            r.server == self.server,
            r.timeout == self.timeout,
            r.legacy_dcom == self.legacy_dcom,
            r.error == self.error,
    {
        OpcDaClientBuilder {
            host: self.host,
            server: self.server,
            timeout: self.timeout,
            legacy_dcom: self.legacy_dcom,
            connector: Some(connector),
            error: self.error,
        }
    }

    /// The configured timeout.
    pub fn timeout_duration(&self) -> (r: Option<Duration>)
        ensures
            r == self.timeout,
    {
        self.timeout
    }

    /// Whether legacy DCOM authentication is used.
    pub fn legacy_dcom(&self) -> (r: bool)
        ensures
            r == self.legacy_dcom,
    {
        self.legacy_dcom
    }

    /// The endpoint a built client targets: the configured server on the configured
    /// host (a local host name meaning the local machine), or none without a server.
    pub fn endpoint(&self) -> (r: Option<OpcServerEndpoint>)
        ensures
            self.server is None ==> r is None,
            self.server matches Some(id) ==> (r matches Some(e) && e@ == (EndpointView {
                host: spec_normalize_host(opt_view(self.host)),
                identifier: id@,
            })),
    {
        match &self.server {
            None => None,
            Some(id) => {
                let host = match &self.host {
                    Some(h) => normalize_host(Some(h.as_str())),
                    None => normalize_host(None),
                };
                Some(OpcServerEndpoint { host, identifier: id.duplicate() })
            },
        }
    }

    /// Reports the first invalid setting, if any.
    pub fn validate(&self) -> (r: OpcResult<()>)
        ensures
            self.error is None ==> r is Ok,
            self.error matches Some(e) ==> r matches Err(x) && x@ == e@,
    {
        match &self.error {
            Some(e) => Err(e.duplicate()),
            None => Ok(()),
        }
    }

    /// The endpoint a bound client is built for: the first invalid setting is reported,
    /// and without a server the build is refused.
    pub fn bound_endpoint(&self) -> (r: OpcResult<OpcServerEndpoint>)
        ensures
            self.error matches Some(e) ==> r matches Err(x) && x@ == e@,
            self.error is None && self.server is None ==> (r matches Err(e) && e@
                == OpcErrorOf::<Seq<char>>::InvalidState(spec_unbound_message())),
            self.error is None ==> (self.server matches Some(id) ==> (r matches Ok(e) && e@ == (EndpointView {
                host: spec_normalize_host(opt_view(self.host)),
                identifier: id@,
            }))),
    {
        match &self.error {
            Some(e) => return Err(e.duplicate()),
            None => {},
        }
        match self.endpoint() {
            Some(e) => Ok(e),
            None => {
                proof {
                    reveal_strlit("Cannot build bound client without configuring server identifier");
                }
                Err(OpcErrorOf::InvalidState(String::from_str("Cannot build bound client without configuring server identifier")))
            },
        }
    }
}

} // verus!
