//! Plain data types exchanged between the client, the worker and a server connection.

use vstd::prelude::*;
use crate::error::{OpcError, OpcErrorOf, OpcErrorView, OpcResult};
use crate::text::{concat_str, str_eq, str_eq_ignore_ascii_case, eq_ignore_ascii_case};

verus! {

/// Server-assigned handle of an item inside a group.
#[derive(Debug, Clone, Copy, PartialEq, Eq, Structural)]
pub struct ServerItemHandle(pub u32);

/// Client-assigned handle of an item inside a group.
#[derive(Debug, Clone, Copy, PartialEq, Eq, Structural)]
pub struct ClientItemHandle(pub u32);

/// Server-assigned handle of a group.
#[derive(Debug, Clone, Copy, PartialEq, Eq, Structural)]
pub struct ServerGroupHandle(pub u32);

/// Client-assigned handle of a group.
#[derive(Debug, Clone, Copy, PartialEq, Eq, Structural)]
pub struct ClientGroupHandle(pub u32);

impl ServerItemHandle {
    /// Wraps a raw handle.
    pub fn new(raw: u32) -> (r: Self)
        ensures
            r.0 == raw,
    {
        ServerItemHandle(raw)
    }

    /// The raw handle value.
    pub fn as_raw(&self) -> (r: u32)
        ensures
            r == self.0,
    {
        self.0
    }
}

impl ClientItemHandle {
    /// Wraps a raw handle.
    pub fn new(raw: u32) -> (r: Self)
        ensures
            r.0 == raw,
    {
        ClientItemHandle(raw)
    }

    /// The raw handle value.
    pub fn as_raw(&self) -> (r: u32)
        ensures
            r == self.0,
    {
        self.0
    }
}

impl ServerGroupHandle {
    /// Wraps a raw handle.
    pub fn new(raw: u32) -> (r: Self)
        ensures
            r.0 == raw,
    {
        ServerGroupHandle(raw)
    }

    /// The raw handle value.
    pub fn as_raw(&self) -> (r: u32)
        ensures
            r == self.0,
    {
        self.0
    }
}

impl ClientGroupHandle {
    /// Wraps a raw handle.
    pub fn new(raw: u32) -> (r: Self)
        ensures
            r.0 == raw,
    {
        ClientGroupHandle(raw)
    }
}

/// OPC quality word (16 bits: 2 major bits, 4 substatus bits, 2 limit bits, vendor byte).
#[derive(Debug, Clone, Copy, PartialEq, Eq, Structural)]
pub struct OpcQuality(pub u16);

/// Quality `Good`.
pub const QUALITY_GOOD: u16 = 0x00C0;
/// Quality `Uncertain`.
pub const QUALITY_UNCERTAIN: u16 = 0x0040;
/// Quality `Bad`.
pub const QUALITY_BAD: u16 = 0x0000;
/// Quality `Bad (Configuration Error)`.
pub const QUALITY_BAD_CONFIG_ERROR: u16 = 0x0004;
/// Quality `Bad (Comm Failure)`.
pub const QUALITY_BAD_COMM_FAILURE: u16 = 0x0018;

/// The two major bits of a quality word (0 bad, 1 uncertain, 3 good).
pub open spec fn spec_quality_major(q: u16) -> nat {
    ((q as nat) / 64) % 4
}

impl OpcQuality {
    /// Whether the major quality is `Bad`.
    pub fn is_bad(&self) -> (r: bool)
        ensures
            r == (spec_quality_major(self.0) == 0),
    {
        (self.0 / 64) % 4 == 0
    }

    /// Whether the major quality is `Good`.
    pub fn is_good(&self) -> (r: bool)
        ensures
            r == (spec_quality_major(self.0) == 3),
    {
        (self.0 / 64) % 4 == 3
    }

    /// The name of the major quality: `Good`, `Uncertain` or `Bad`, and `Unknown` for
    /// the unused major value.
    pub fn label(&self) -> (r: &'static str)
        ensures
            r@ == spec_quality_label(self.0),
    {
        let major = (self.0 / 64) % 4;
        if major == 3 {
            "Good"
        } else if major == 1 {
            "Uncertain"
        } else if major == 0 {
            "Bad"
        } else {
            "Unknown"
        }
    }
}

/// The name of the major quality of a quality word.
pub open spec fn spec_quality_label(q: u16) -> Seq<char> {
    let major = spec_quality_major(q);
    if major == 3 {
        "Good"@
    } else if major == 1 {
        "Uncertain"@
    } else if major == 0 {
        "Bad"@
    } else {
        "Unknown"@
    }
}

/// A value read from or written to a tag.  Floating-point values are carried as the
/// IEEE-754 bit pattern of an `f64`, so that the library never computes with floats.
#[derive(Debug, Clone, PartialEq, Eq)]
pub enum OpcValueOf<S> {
    /// Signed integer.
    Int(i64),
    /// Unsigned integer.
    UInt(u64),
    /// Bit pattern of a double-precision float.
    Float(u64),
    /// Boolean.
    Bool(bool),
    /// Text.
    String(S),
    /// No value.
    Empty,
    /// An explicit null.
    Null,
}

/// A value read from or written to a tag.
pub type OpcValue = OpcValueOf<String>;

/// The mathematical view of a value.
pub type OpcValueView = OpcValueOf<Seq<char>>;

impl View for OpcValueOf<String> {
    type V = OpcValueView;

    open spec fn view(&self) -> OpcValueView {
        match self {
            OpcValueOf::Int(v) => OpcValueOf::Int(*v),
            OpcValueOf::UInt(v) => OpcValueOf::UInt(*v),
            OpcValueOf::Float(b) => OpcValueOf::Float(*b),
            OpcValueOf::Bool(b) => OpcValueOf::Bool(*b),
            OpcValueOf::String(t) => OpcValueOf::String(t@),
            OpcValueOf::Empty => OpcValueOf::Empty,
            OpcValueOf::Null => OpcValueOf::Null,
        }
    }
}

impl OpcValueOf<String> {
    /// A copy of this value.
    pub fn duplicate(&self) -> (r: OpcValue)
        ensures
            r@ == self@,
    {
        match self {
            OpcValueOf::Int(v) => OpcValueOf::Int(*v),
            OpcValueOf::UInt(v) => OpcValueOf::UInt(*v),
            OpcValueOf::Float(b) => OpcValueOf::Float(*b),
            OpcValueOf::Bool(b) => OpcValueOf::Bool(*b),
            OpcValueOf::String(t) => OpcValueOf::String(t.clone()),
            OpcValueOf::Empty => OpcValueOf::Empty,
            OpcValueOf::Null => OpcValueOf::Null,
        }
    }

    /// Whether this is a boolean value.
    pub fn is_bool(&self) -> (r: bool)
        ensures
            r == (self@ is Bool),
    {
        match self {
            OpcValueOf::Bool(_) => true,
            _ => false,
        }
    }
}

/// Whether a character is an ASCII decimal digit.
pub open spec fn is_ascii_digit(c: char) -> bool {
    '0' <= c && c <= '9'
}

/// The value of a string of ASCII decimal digits.
pub open spec fn spec_digits_value(s: Seq<char>) -> int
    decreases s.len(),
{
    if s.len() == 0 {
        0
    } else {
        spec_digits_value(s.drop_last()) * 10 + ((s.last() as u32) - ('0' as u32))
    }
}

/// The integer `str::parse::<i64>` reads from a string: an optional `+` or `-` sign
/// followed by one or more ASCII digits, whose value fits in `i64`; `None` otherwise.
pub open spec fn spec_parse_i64(s: Seq<char>) -> Option<i64> {
    let signed = s.len() > 0 && (s[0] == '-' || s[0] == '+');
    let digits = if signed { s.drop_first() } else { s };
    let magnitude = spec_digits_value(digits);
    let v = if signed && s[0] == '-' { -magnitude } else { magnitude };
    if digits.len() > 0 && (forall|i: int| 0 <= i < digits.len() ==> is_ascii_digit(#[trigger] digits[i]))
        && i64::MIN <= v <= i64::MAX {
        Some(v as i64)
    } else {
        None
    }
}

/// Parses a decimal integer (`str::parse::<i64>`).
#[verifier::external_body]
pub(crate) fn parse_i64(s: &str) -> (r: Option<i64>)
    ensures
        r == spec_parse_i64(s@),
{
    s.parse::<i64>().ok()
}

/// How user text is read as a value: booleans (any ASCII case), then integers, then
/// floats (`float_bits` is what parsing the text as a float gave, as a bit pattern), and
/// anything else as text.
pub open spec fn spec_parse_value(s: Seq<char>, float_bits: Option<u64>) -> OpcValueView {
    if eq_ignore_ascii_case(s, "true"@) {
        OpcValueOf::Bool(true)
    } else if eq_ignore_ascii_case(s, "false"@) {
        OpcValueOf::Bool(false)
    } else if spec_parse_i64(s) is Some {
        OpcValueOf::Int(spec_parse_i64(s)->0)
    } else if float_bits is Some {
        OpcValueOf::Float(float_bits->0)
    } else {
        OpcValueOf::String(s)
    }
}

/// Parses user input into a value: `true`/`false` in any ASCII case, then an integer,
/// then a float (`float_bits` is the caller's float reading of the same text), otherwise
/// the text itself.
pub fn parse_value(s: &str, float_bits: Option<u64>) -> (r: OpcValue)
    ensures
        r@ == spec_parse_value(s@, float_bits),
{
    if str_eq_ignore_ascii_case(s, "true") {
        proof { reveal_strlit("true"); }
        return OpcValueOf::<String>::Bool(true);
    }
    if str_eq_ignore_ascii_case(s, "false") {
        proof { reveal_strlit("false"); reveal_strlit("true"); }
        return OpcValueOf::<String>::Bool(false);
    }
    proof { reveal_strlit("false"); reveal_strlit("true"); }
    match parse_i64(s) {
        Some(v) => OpcValueOf::Int(v),
        None => match float_bits {
            Some(b) => OpcValueOf::Float(b),
            None => OpcValueOf::String(String::from_str(s)),
        },
    }
}

/// Identifies an OPC server by ProgID or by CLSID (128-bit value of the GUID), over a
/// text type `S`.
#[derive(Debug, Clone, PartialEq, Eq)]
pub enum ServerIdentifierOf<S> {
    /// Programmatic identifier such as `Matrikon.OPC.Simulation.1`.
    ProgId(S),
    /// Class identifier.
    Clsid(u128),
}

/// Identifies an OPC server by ProgID or by CLSID.
pub type ServerIdentifier = ServerIdentifierOf<String>;

/// The mathematical view of a server identifier.
pub type ServerIdentifierView = ServerIdentifierOf<Seq<char>>;

impl View for ServerIdentifierOf<String> {
    type V = ServerIdentifierView;

    open spec fn view(&self) -> ServerIdentifierView {
        match self {
            ServerIdentifierOf::ProgId(p) => ServerIdentifierOf::ProgId(p@),
            ServerIdentifierOf::Clsid(g) => ServerIdentifierOf::Clsid(*g),
        }
    }
}

/// A CLSID in registry form, `{XXXXXXXX-XXXX-XXXX-XXXX-XXXXXXXXXXXX}`.
pub open spec fn spec_guid_bracketed(g: u128) -> Seq<char> {
    let v = g as nat;
    "{"@ + crate::error::spec_hex_digits(v / 0x1_0000_0000_0000_0000_0000_0000, 8) + "-"@
        + crate::error::spec_hex_digits((v / 0x1_0000_0000_0000_0000_0000) % 0x1_0000, 4) + "-"@
        + crate::error::spec_hex_digits((v / 0x1_0000_0000_0000_0000) % 0x1_0000, 4) + "-"@
        + crate::error::spec_hex_digits((v / 0x1_0000_0000_0000) % 0x1_0000, 4) + "-"@
        + crate::error::spec_hex_digits(v % 0x1_0000_0000_0000, 12) + "}"@
}

/// How a server identifier is shown: the ProgID itself, or the bracketed CLSID.
pub open spec fn spec_identifier_display(id: ServerIdentifierView) -> Seq<char> {
    match id {
        ServerIdentifierOf::ProgId(p) => p,
        ServerIdentifierOf::Clsid(g) => spec_guid_bracketed(g),
    }
}

/// Formats a CLSID in registry form.
pub fn guid_bracketed(g: u128) -> (s: String)
    ensures
        s@ == spec_guid_bracketed(g),
{
    let p1 = crate::error::hex_digits(g / 0x1_0000_0000_0000_0000_0000_0000, 8);
    let p2 = crate::error::hex_digits((g / 0x1_0000_0000_0000_0000_0000) % 0x1_0000, 4);
    let p3 = crate::error::hex_digits((g / 0x1_0000_0000_0000_0000) % 0x1_0000, 4);
    let p4 = crate::error::hex_digits((g / 0x1_0000_0000_0000) % 0x1_0000, 4);
    let p5 = crate::error::hex_digits(g % 0x1_0000_0000_0000, 12);
    let s = String::from_str("{");
    let s = s.concat(p1.as_str());
    let s = s.concat("-");
    let s = s.concat(p2.as_str());
    let s = s.concat("-");
    let s = s.concat(p3.as_str());
    let s = s.concat("-");
    let s = s.concat(p4.as_str());
    let s = s.concat("-");
    let s = s.concat(p5.as_str());
    s.concat("}")
}

impl ServerIdentifierOf<String> {
    /// How this identifier is shown: the ProgID itself, or the bracketed CLSID.
    pub fn display(&self) -> (r: String)
        ensures
            r@ == spec_identifier_display(self@),
    {
        match self {
            ServerIdentifierOf::ProgId(p) => p.clone(),
            ServerIdentifierOf::Clsid(g) => guid_bracketed(*g),
        }
    }

    /// A ProgID identifier.
    pub fn prog_id(p: &str) -> (r: ServerIdentifier)
        ensures
            r@ == ServerIdentifierOf::<Seq<char>>::ProgId(p@),
    {
        ServerIdentifierOf::ProgId(String::from_str(p))
    }

    /// A copy of this identifier.
    pub fn duplicate(&self) -> (r: ServerIdentifier)
        ensures
            r@ == self@,
    {
        match self {
            ServerIdentifierOf::ProgId(p) => ServerIdentifierOf::ProgId(p.clone()),
            ServerIdentifierOf::Clsid(g) => ServerIdentifierOf::Clsid(*g),
        }
    }

    /// Whether two identifiers name the same server.
    pub fn same_as(&self, other: &ServerIdentifier) -> (r: bool)
        ensures
            r == (self@ == other@),
    {
        match (self, other) {
            (ServerIdentifierOf::ProgId(a), ServerIdentifierOf::ProgId(b)) => str_eq(a.as_str(), b.as_str()),
            (ServerIdentifierOf::Clsid(a), ServerIdentifierOf::Clsid(b)) => *a == *b,
            _ => false,
        }
    }
}

/// Whether a host string denotes the local machine (empty, `localhost` in any ASCII
/// case, `127.0.0.1` or `::1`).
pub open spec fn spec_is_local_host(h: Seq<char>) -> bool {
    h.len() == 0 || eq_ignore_ascii_case(h, "localhost"@) || h == "127.0.0.1"@ || h == "::1"@
}

/// The host an endpoint stores: `None` for the local machine.
pub open spec fn spec_normalize_host(host: Option<Seq<char>>) -> Option<Seq<char>> {
    match host {
        None => None,
        Some(h) => if spec_is_local_host(h) { None } else { Some(h) },
    }
}

/// A normalized host is never a local name, so normalizing it again changes nothing.
pub proof fn lemma_normalize_host_idempotent(host: Option<Seq<char>>)
    ensures
        spec_normalize_host(spec_normalize_host(host)) == spec_normalize_host(host),
        spec_normalize_host(host) matches Some(h) ==> !spec_is_local_host(h),
{
}

/// Whether a host string denotes the local machine.
pub fn is_local_host(h: &str) -> (r: bool)
    ensures
        r == spec_is_local_host(h@),
{
    proof { reveal_strlit("localhost"); reveal_strlit("127.0.0.1"); reveal_strlit("::1"); }
    h.unicode_len() == 0 || str_eq_ignore_ascii_case(h, "localhost") || str_eq(h, "127.0.0.1") || str_eq(h, "::1")
}

/// The host recorded with a catalog entry found on `host`: none when `host` is empty,
/// `localhost` in any ASCII case, or `127.0.0.1`.
pub open spec fn spec_catalog_host(host: Seq<char>) -> Option<Seq<char>> {
    if host.len() == 0 || eq_ignore_ascii_case(host, "localhost"@) || host == "127.0.0.1"@ {
        None
    } else {
        Some(host)
    }
}

/// The host recorded with a catalog entry found on `host`.
pub fn catalog_host(host: &str) -> (r: Option<String>)
    ensures
        opt_view(r) == spec_catalog_host(host@),
{
    proof { reveal_strlit("localhost"); reveal_strlit("127.0.0.1"); }
    if host.unicode_len() == 0 || str_eq_ignore_ascii_case(host, "localhost") || str_eq(host, "127.0.0.1") {
        None
    } else {
        Some(String::from_str(host))
    }
}

/// Normalizes an optional host: local hosts become `None`.
pub fn normalize_host(host: Option<&str>) -> (r: Option<String>)
    ensures
        r matches Some(s) ==> host matches Some(h) && s@ == h@,
        (match r { Some(s) => Some(s@), None => None }) == spec_normalize_host(
            match host { Some(h) => Some(h@), None => None },
        ),
{
    match host {
        None => None,
        Some(h) => if is_local_host(h) {
            None
        } else {
            Some(String::from_str(h))
        },
    }
}

/// The host a server is activated on remotely: the endpoint's host unless it is empty,
/// `localhost` in any ASCII case, or `127.0.0.1`, in which case the server is
/// activated locally (`None`).
pub fn remote_activation_host(host: &Option<String>) -> (r: Option<String>)
    ensures
        opt_view(r) == (match opt_view(*host) {
            Some(h) => spec_catalog_host(h),
            None => None,
        }),
{
    match host {
        Some(h) => catalog_host(h.as_str()),
        None => None,
    }
}

/// A server on a host: `host` is `None` for the local machine.
#[derive(Debug, Clone, PartialEq, Eq)]
pub struct OpcServerEndpoint {
    /// Remote host, or `None` for the local machine.
    pub host: Option<String>,
    /// Server identifier.
    pub identifier: ServerIdentifier,
}

/// The mathematical view of an endpoint.
pub struct EndpointView {
    /// Remote host, or `None` for the local machine.
    pub host: Option<Seq<char>>,
    /// Server identifier.
    pub identifier: ServerIdentifierView,
}

/// The characters of an optional string.
pub open spec fn opt_view(s: Option<String>) -> Option<Seq<char>> {
    match s {
        Some(t) => Some(t@),
        None => None,
    }
}

impl View for OpcServerEndpoint {
    type V = EndpointView;

    open spec fn view(&self) -> EndpointView {
        EndpointView { host: opt_view(self.host), identifier: self.identifier@ }
    }
}

/// Copies an optional string.
pub fn duplicate_opt_string(s: &Option<String>) -> (r: Option<String>)
    ensures
        opt_view(r) == opt_view(*s),
{
    match s {
        Some(h) => Some(h.clone()),
        None => None,
    }
}

impl OpcServerEndpoint {
    /// A local endpoint for a ProgID.
    pub fn local_prog_id(prog_id: &str) -> (r: Self)
        ensures
            r@ == (EndpointView { host: None, identifier: ServerIdentifierOf::ProgId(prog_id@) }),
    {
        OpcServerEndpoint { host: None, identifier: ServerIdentifierOf::prog_id(prog_id) }
    }

    /// A local endpoint for an identifier.
    pub fn local(identifier: ServerIdentifier) -> (r: Self)
        ensures
            r@ == (EndpointView { host: None, identifier: identifier@ }),
    {
        OpcServerEndpoint { host: None, identifier }
    }

    /// An endpoint on `host` (local hosts are normalized to `None`).
    pub fn remote(host: &str, identifier: ServerIdentifier) -> (r: Self)
        ensures
            r@ == (EndpointView { host: spec_normalize_host(Some(host@)), identifier: identifier@ }),
    {
        OpcServerEndpoint { host: normalize_host(Some(host)), identifier }
    }

    /// A copy of this endpoint.
    pub fn duplicate(&self) -> (r: Self)
        ensures
            r@ == self@,
    {
        OpcServerEndpoint { host: duplicate_opt_string(&self.host), identifier: self.identifier.duplicate() }
    }

    /// Whether two endpoints are the same.
    pub fn same_as(&self, other: &OpcServerEndpoint) -> (r: bool)
        ensures
            r == (self@ == other@),
    {
        let hosts_equal = match (&self.host, &other.host) {
            (None, None) => true,
            (Some(a), Some(b)) => str_eq(a.as_str(), b.as_str()),
            _ => false,
        };
        hosts_equal && self.identifier.same_as(&other.identifier)
    }
}

/// The text an endpoint is shown as: the identifier, preceded by the host and a slash
/// for a remote endpoint.
pub open spec fn spec_endpoint_display(e: EndpointView) -> Seq<char> {
    match e.host {
        None => spec_identifier_display(e.identifier),
        Some(h) => h + "/"@ + spec_identifier_display(e.identifier),
    }
}

impl OpcServerEndpoint {
    /// The text this endpoint is shown as.
    pub fn display(&self) -> (r: String)
        ensures
            r@ == spec_endpoint_display(self@),
    {
        let id = self.identifier.display();
        match &self.host {
            None => id,
            Some(h) => {
                let a = concat_str(h.as_str(), "/");
                proof {
                    reveal_strlit("/");
                }
                a.concat(id.as_str())
            },
        }
    }
}

/// A server found in a host's catalog.
#[derive(Debug, Clone, PartialEq, Eq)]
pub struct OpcServerInfo {
    /// Programmatic identifier.
    pub prog_id: String,
    /// Class identifier.
    pub clsid: u128,
    /// Human-readable type name, if the catalog has one.
    pub user_type: Option<String>,
    /// Remote host, or `None` for the local machine.
    pub host: Option<String>,
}

impl OpcServerInfo {
    /// The name to show: the user type when present, else the ProgID.
    pub fn display_name(&self) -> (r: &str)
        ensures
            r@ == (match self.user_type { Some(u) => u@, None => self.prog_id@ }),
    {
        match &self.user_type {
            Some(u) => u.as_str(),
            None => self.prog_id.as_str(),
        }
    }
}

/// The view of a read or write outcome.
pub open spec fn outcome_view<T: View>(o: Result<T, OpcError>) -> Result<T::V, OpcErrorView> {
    match o {
        Ok(v) => Ok(v@),
        Err(e) => Err(e@),
    }
}

/// The view of a write status.
pub open spec fn status_view(o: Result<(), OpcError>) -> Result<(), OpcErrorView> {
    match o {
        Ok(_) => Ok(()),
        Err(e) => Err(e@),
    }
}

/// Outcome of reading one tag.
#[derive(Debug, PartialEq, Eq)]
pub struct TagValue {
    /// Tag identifier.
    pub tag_id: String,
    /// Value, or the error that prevented reading it.
    pub outcome: Result<OpcValue, OpcError>,
    /// Quality reported for the value.
    pub quality: OpcQuality,
    /// Source timestamp in milliseconds since the Unix epoch, when known.
    pub timestamp: Option<u64>,
}

/// The mathematical view of a tag value.
pub struct TagValueView {
    /// Tag identifier.
    pub tag_id: Seq<char>,
    /// Value, or the error that prevented reading it.
    pub outcome: Result<OpcValueView, OpcErrorView>,
    /// Quality reported for the value.
    pub quality: OpcQuality,
    /// Source timestamp in milliseconds since the Unix epoch, when known.
    pub timestamp: Option<u64>,
}

impl View for TagValue {
    type V = TagValueView;

    open spec fn view(&self) -> TagValueView {
        TagValueView {
            tag_id: self.tag_id@,
            outcome: outcome_view(self.outcome),
            quality: self.quality,
            timestamp: self.timestamp,
        }
    }
}

impl TagValue {
    /// Builds a tag value from an optional value (`None` means no value was delivered).
    pub fn new(tag_id: &str, value: Option<OpcValue>, quality: OpcQuality, timestamp: Option<u64>) -> (r: Self)
        ensures
            r.tag_id@ == tag_id@,
            r.quality == quality,
            r.timestamp == timestamp,
            value matches Some(v) ==> r@.outcome == Ok::<OpcValueView, OpcErrorView>(v@),
            value is None ==> r@.outcome == Err::<OpcValueView, OpcErrorView>(OpcErrorOf::InvalidState("no value"@)),
    {
        let outcome = match value {
            Some(v) => Ok(v),
            None => Err(OpcErrorOf::InvalidState(String::from_str("no value"))),
        };
        TagValue { tag_id: String::from_str(tag_id), outcome, quality, timestamp }
    }

    /// The value, if the read succeeded.
    pub fn value(&self) -> (r: Option<&OpcValue>)
        ensures
            match self.outcome {
                Ok(v) => r == Some(&v),
                Err(_) => r is None,
            },
    {
        match &self.outcome {
            Ok(v) => Some(v),
            Err(_) => None,
        }
    }

    /// The error, if the read failed.
    pub fn error(&self) -> (r: Option<&OpcError>)
        ensures
            match self.outcome {
                Ok(_) => r is None,
                Err(e) => r == Some(&e),
            },
    {
        match &self.outcome {
            Ok(_) => None,
            Err(e) => Some(e),
        }
    }

    /// A copy of this tag value.
    pub fn duplicate(&self) -> (r: Self)
        ensures
            r@ == self@,
    {
        let outcome = match &self.outcome {
            Ok(v) => Ok(v.duplicate()),
            Err(e) => Err(e.duplicate()),
        };
        TagValue { tag_id: self.tag_id.clone(), outcome, quality: self.quality, timestamp: self.timestamp }
    }

    /// Whether the read failed.
    pub fn is_error(&self) -> (r: bool)
        ensures
            r == (self.outcome is Err),
    {
        self.outcome.is_err()
    }

    /// Whether the quality is bad.
    pub fn is_bad(&self) -> (r: bool)
        ensures
            r == (spec_quality_major(self.quality.0) == 0),
    {
        self.quality.is_bad()
    }
}

/// Outcome of writing one tag.
#[derive(Debug, PartialEq, Eq)]
pub struct WriteResult {
    /// Tag identifier.
    pub tag_id: String,
    /// `Ok(())` when the server accepted the write.
    pub status: Result<(), OpcError>,
}

/// The mathematical view of a write result.
pub struct WriteResultView {
    /// Tag identifier.
    pub tag_id: Seq<char>,
    /// `Ok(())` when the server accepted the write.
    pub status: Result<(), OpcErrorView>,
}

impl View for WriteResult {
    type V = WriteResultView;

    open spec fn view(&self) -> WriteResultView {
        WriteResultView { tag_id: self.tag_id@, status: status_view(self.status) }
    }
}

impl WriteResult {
    /// A successful write of `tag_id`.
    pub fn success(tag_id: &str) -> (r: Self)
        ensures
            r@ == (WriteResultView { tag_id: tag_id@, status: Ok(()) }),
    {
        WriteResult { tag_id: String::from_str(tag_id), status: Ok(()) }
    }

    /// A failed write of `tag_id`.
    pub fn failure(tag_id: &str, error: OpcError) -> (r: Self)
        ensures
            r@ == (WriteResultView { tag_id: tag_id@, status: Err(error@) }),
    {
        WriteResult { tag_id: String::from_str(tag_id), status: Err(error) }
    }

    /// A copy of this write result.
    pub fn duplicate(&self) -> (r: Self)
        ensures
            r@ == self@,
    {
        let status = match &self.status {
            Ok(()) => Ok(()),
            Err(e) => Err(e.duplicate()),
        };
        WriteResult { tag_id: self.tag_id.clone(), status }
    }

    /// Whether the write succeeded.
    pub fn is_success(&self) -> (r: bool)
        ensures
            r == (self.status is Ok),
    {
        self.status.is_ok()
    }

    /// Whether the write failed.
    pub fn is_error(&self) -> (r: bool)
        ensures
            r == (self.status is Err),
    {
        self.status.is_err()
    }

    /// The error, if the write failed.
    pub fn error(&self) -> (r: Option<&OpcError>)
        ensures
            match self.status {
                Ok(_) => r is None,
                Err(e) => r == Some(&e),
            },
    {
        match &self.status {
            Ok(_) => None,
            Err(e) => Some(e),
        }
    }
}

/// Definition of an item to be added to an OPC group.
#[derive(Debug, Clone, PartialEq, Eq)]
pub struct GroupItemDef {
    /// Fully qualified tag identifier.
    pub item_id: String,
    /// Handle assigned by the client for this item.
    pub client_handle: ClientItemHandle,
    /// Whether the item should be activated immediately.
    pub active: bool,
}

/// Result of adding an item to an OPC group.
#[derive(Debug, Clone, PartialEq, Eq)]
pub struct GroupItemResult {
    /// Server-assigned handle for this item.
    pub server_handle: ServerItemHandle,
    /// Canonical data type reported by the server.
    pub canonical_type: u16,
    /// Error if adding this specific item failed.
    pub error: Option<OpcError>,
}

/// The view of an optional error.
pub open spec fn opt_error_view(e: Option<OpcError>) -> Option<OpcErrorView> {
    match e {
        Some(x) => Some(x@),
        None => None,
    }
}

/// The mathematical view of an item registration result.
pub struct GroupItemResultView {
    /// Server-assigned handle for this item.
    pub server_handle: ServerItemHandle,
    /// Canonical data type reported by the server.
    pub canonical_type: u16,
    /// Error if adding this specific item failed.
    pub error: Option<OpcErrorView>,
}

impl View for GroupItemResult {
    type V = GroupItemResultView;

    open spec fn view(&self) -> GroupItemResultView {
        GroupItemResultView {
            server_handle: self.server_handle,
            canonical_type: self.canonical_type,
            error: opt_error_view(self.error),
        }
    }
}

/// Synchronous read result for an item in an OPC group.
#[derive(Debug, Clone, PartialEq, Eq)]
pub struct GroupItemState {
    /// Client handle associated with this item.
    pub client_handle: ClientItemHandle,
    /// Decoded value.
    pub value: OpcValue,
    /// Decoded 16-bit OPC quality.
    pub quality: OpcQuality,
    /// Server timestamp in milliseconds since the Unix epoch.
    pub timestamp: u64,
}

/// The mathematical view of an item's read state.
pub struct GroupItemStateView {
    /// Client handle associated with this item.
    pub client_handle: ClientItemHandle,
    /// Decoded value.
    pub value: OpcValueView,
    /// Decoded 16-bit OPC quality.
    pub quality: OpcQuality,
    /// Server timestamp in milliseconds since the Unix epoch.
    pub timestamp: u64,
}

impl View for GroupItemState {
    type V = GroupItemStateView;

    open spec fn view(&self) -> GroupItemStateView {
        GroupItemStateView {
            client_handle: self.client_handle,
            value: self.value@,
            quality: self.quality,
            timestamp: self.timestamp,
        }
    }
}

/// Tag values read in one batch, in request order.
#[derive(Debug)]
pub struct TagValues {
    /// The values, in request order.
    pub values: Vec<TagValue>,
}

impl TagValues {
    /// Wraps values read in one batch.
    pub fn new(values: Vec<TagValue>) -> (r: Self)
        ensures
            r.values == values,
    {
        TagValues { values }
    }

    /// Number of values.
    pub fn len(&self) -> (r: usize)
        ensures
            r == self.values@.len(),
    {
        self.values.len()
    }

    /// Whether there are no values.
    pub fn is_empty(&self) -> (r: bool)
        ensures
            r == (self.values@.len() == 0),
    {
        self.values.len() == 0
    }

    /// The first value read for `tag_id`.
    pub fn get(&self, tag_id: &str) -> (r: Option<&TagValue>)
        ensures
            match r {
                Some(v) => exists|i: int|
                    0 <= i < self.values@.len() && self.values@[i] == *v && v.tag_id@ == tag_id@
                        && forall|j: int| 0 <= j < i ==> (#[trigger] self.values@[j]).tag_id@ != tag_id@,
                None => forall|j: int| 0 <= j < self.values@.len() ==> (#[trigger] self.values@[j]).tag_id@ != tag_id@,
            },
    {
        let mut i: usize = 0;
        while i < self.values.len()
            invariant
                i <= self.values@.len(),
                forall|j: int| 0 <= j < i ==> (#[trigger] self.values@[j]).tag_id@ != tag_id@,
            decreases self.values@.len() - i,
        {
            if str_eq(self.values[i].tag_id.as_str(), tag_id) {
                return Some(&self.values[i]);
            }
            i = i + 1;
        }
        None
    }
}

/// A value to write to a registered item.
#[derive(Debug, Clone, PartialEq, Eq)]
pub struct ItemWrite {
    /// Server handle of the item.
    pub handle: ServerItemHandle,
    /// Value to write.
    pub value: OpcValue,
}

/// The mathematical view of a pending item write.
pub struct ItemWriteView {
    /// Server handle of the item.
    pub handle: ServerItemHandle,
    /// Value to write.
    pub value: OpcValueView,
}

impl View for ItemWrite {
    type V = ItemWriteView;

    open spec fn view(&self) -> ItemWriteView {
        ItemWriteView { handle: self.handle, value: self.value@ }
    }
}

impl ItemWrite {
    /// Pairs a handle with a value.
    pub fn new(handle: ServerItemHandle, value: OpcValue) -> (r: Self)
        ensures
            r.handle == handle,
            r.value == value,
    {
        ItemWrite { handle, value }
    }
}

/// Data source target for synchronous reads.
#[derive(Debug, Clone, Copy, PartialEq, Eq, Structural)]
pub enum DataSource {
    /// Read from server cache.
    Cache,
    /// Read directly from the physical device.
    Device,
}

/// How a group is removed from a server.
#[derive(Debug, Clone, Copy, PartialEq, Eq, Structural)]
pub enum GroupRemovalMode {
    /// Remove even if clients still reference the group.
    Force,
    /// Remove only if unreferenced.
    Graceful,
}

/// Which names a browse call enumerates.
#[derive(Debug, Clone, Copy, PartialEq, Eq, Structural)]
pub enum BrowseType {
    /// Sub-branches of the current position.
    Branch,
    /// Leaves of the current position.
    Leaf,
    /// Every item ID of the whole address space.
    Flat,
}

/// Direction of a browse position change.
#[derive(Debug, Clone, Copy, PartialEq, Eq, Structural)]
pub enum BrowseDirection {
    /// To the parent branch.
    Up,
    /// Into a named child branch.
    Down,
    /// To an absolute position.
    To,
}

/// Organization of a server's address space.
#[derive(Debug, Clone, Copy, PartialEq, Eq, Structural)]
pub enum NamespaceType {
    /// Tree of branches and leaves.
    Hierarchy,
    /// Single flat list.
    Flat,
}

/// Configuration of a group to be added to a server.  The percent deadband is carried
/// as the bit pattern of an `f32`.
#[derive(Debug, Clone, PartialEq, Eq)]
pub struct GroupConfig {
    /// Requested name of the group.
    pub name: String,
    /// Whether the group is initially active.
    pub active: bool,
    /// Requested update rate in milliseconds.
    pub update_rate_ms: u32,
    /// Client-assigned group handle.
    pub client_handle: ClientGroupHandle,
    /// Time zone bias in minutes from UTC.
    pub time_bias: i32,
    /// Bit pattern of the percent deadband for analog items.
    pub percent_deadband_bits: u32,
    /// Locale identifier.
    pub locale_id: u32,
}

impl GroupConfig {
    /// An ephemeral, active group named `name` with a 1000 ms update rate, client
    /// handle 1, and zero bias, deadband and locale.
    pub fn ephemeral(name: &str) -> (r: Self)
        ensures
            r.name@ == name@,
            r.active,
            r.update_rate_ms == 1000,
            r.client_handle == ClientGroupHandle(1),
            r.time_bias == 0,
            r.percent_deadband_bits == 0,
            r.locale_id == 0,
    {
        GroupConfig {
            name: String::from_str(name),
            active: true,
            update_rate_ms: 1000,
            client_handle: ClientGroupHandle(1),
            time_bias: 0,
            percent_deadband_bits: 0,
            locale_id: 0,
        }
    }

    /// Sets the requested update rate in milliseconds.
    pub fn with_update_rate(self, update_rate_ms: u32) -> (r: Self)
        ensures
            r == (GroupConfig { update_rate_ms, ..self }),
    {
        GroupConfig { update_rate_ms, ..self }
    }

    /// Sets the client-assigned group handle.
    pub fn with_client_handle(self, client_handle: ClientGroupHandle) -> (r: Self)
        ensures
            r == (GroupConfig { client_handle, ..self }),
    {
        GroupConfig { client_handle, ..self }
    }

    /// Sets whether the group is active.
    pub fn with_active(self, active: bool) -> (r: Self)
        ensures
            r == (GroupConfig { active, ..self }),
    {
        GroupConfig { active, ..self }
    }

    /// Sets the percent deadband, given by the bit pattern of its `f32` value.
    pub fn with_percent_deadband_bits(self, percent_deadband_bits: u32) -> (r: Self)
        ensures
            r == (GroupConfig { percent_deadband_bits, ..self }),
    {
        GroupConfig { percent_deadband_bits, ..self }
    }
}

/// Output returned when a group is added.
pub struct CreatedGroup<G> {
    /// Connected group instance.
    pub group: G,
    /// Server-assigned handle for the group.
    pub server_handle: ServerGroupHandle,
    /// Revised update rate in milliseconds provided by the server.
    pub revised_update_rate_ms: u32,
}

} // verus!
