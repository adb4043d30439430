//! Server registrations on the local machine: the execution model of a server, the
//! binary path of its registration, and which hosts can be inspected.

use vstd::prelude::*;
use crate::error::{OpcError, OpcErrorOf, OpcResult, REGDB_E_CLASSNOTREG};
use crate::text::{chars_of, concat_str, eq_ignore_ascii_case, occurs_at, spec_trim, str_eq, str_eq_ignore_ascii_case, str_trim, string_from_chars};
use crate::types::{guid_bracketed, spec_guid_bracketed};

verus! {

/// How an installed server runs.
#[derive(Debug, Clone, Copy, PartialEq, Eq, Structural)]
pub enum OpcServerType {
    /// Out-of-process executable (`LocalServer32`).
    LocalServer32,
    /// In-process DLL (`InprocServer32`).
    InprocServer32,
}

/// The text a server type is shown as.
pub open spec fn spec_server_type_text(t: OpcServerType) -> Seq<char> {
    match t {
        OpcServerType::LocalServer32 => "LocalServer32 (Executable)"@,
        OpcServerType::InprocServer32 => "InprocServer32 (DLL)"@,
    }
}

impl OpcServerType {
    /// The text this server type is shown as.
    pub fn to_text(&self) -> (r: String)
        ensures
            r@ == spec_server_type_text(*self),
    {
        proof {
            reveal_strlit("LocalServer32 (Executable)");
            reveal_strlit("InprocServer32 (DLL)");
        }
        match self {
            OpcServerType::LocalServer32 => String::from_str("LocalServer32 (Executable)"),
            OpcServerType::InprocServer32 => String::from_str("InprocServer32 (DLL)"),
        }
    }
}

/// The registration used: an executable when one is registered, else a DLL.
pub fn classify_registration(local_server: Option<String>, inproc_server: Option<String>) -> (r: Option<(OpcServerType, String)>)
    ensures
        local_server matches Some(exe) ==> r == Some((OpcServerType::LocalServer32, exe)),
        local_server is None ==> (inproc_server matches Some(dll) ==> r == Some((OpcServerType::InprocServer32, dll))),
        local_server is None && inproc_server is None ==> r is None,
{
    match (local_server, inproc_server) {
        (Some(exe), _) => Some((OpcServerType::LocalServer32, exe)),
        (None, Some(dll)) => Some((OpcServerType::InprocServer32, dll)),
        (None, None) => None,
    }
}

/// Position of the first occurrence of `needle` in `hay`, or the length of `hay`.
#[verifier::opaque]
pub open spec fn first_index(hay: Seq<char>, needle: Seq<char>) -> int {
    if exists|i: int| #[trigger] occurs_at(hay, needle, i) {
        choose|i: int| occurs_at(hay, needle, i) && forall|j: int| 0 <= j < i ==> !#[trigger] occurs_at(hay, needle, j)
    } else {
        hay.len() as int
    }
}

/// The first occurrence found by a left-to-right scan is the one `first_index` names.
pub proof fn lemma_first_index_found(hay: Seq<char>, needle: Seq<char>, i: int)
    requires
        occurs_at(hay, needle, i),
        forall|j: int| 0 <= j < i ==> !#[trigger] occurs_at(hay, needle, j),
    ensures
        first_index(hay, needle) == i,
{
    reveal(first_index);
    assert(exists|k: int| #[trigger] occurs_at(hay, needle, k));
    let c = first_index(hay, needle);
    assert(occurs_at(hay, needle, c) && forall|j: int| 0 <= j < c ==> !#[trigger] occurs_at(hay, needle, j)) by {
        assert(occurs_at(hay, needle, i) && forall|j: int| 0 <= j < i ==> !#[trigger] occurs_at(hay, needle, j));
    }
    if c < i {
        assert(0 <= c);
    } else if c > i {
        assert(0 <= i < c);
    }
}

/// Without an occurrence, `first_index` is the length.
pub proof fn lemma_first_index_absent(hay: Seq<char>, needle: Seq<char>)
    requires
        forall|j: int| !#[trigger] occurs_at(hay, needle, j),
    ensures
        first_index(hay, needle) == hay.len(),
{
    reveal(first_index);
}

/// The characters of `s` before its first double quote.
pub open spec fn before_quote(s: Seq<char>) -> Seq<char> {
    s.take(first_index(s, seq!['"']))
}

/// The binary path in a registered command line: trimmed; when quoted, the text up to
/// the closing quote; otherwise the text before the first ` /` or ` -` flag; trimmed
/// again.
pub open spec fn spec_sanitize_binary_path(raw: Seq<char>) -> Seq<char> {
    let t = spec_trim(raw);
    if t.len() > 0 && t[0] == '"' {
        spec_trim(before_quote(t.drop_first()))
    } else {
        let a = first_index(t, seq![' ', '/']);
        let b = first_index(t, seq![' ', '-']);
        spec_trim(t.take(if a < b { a } else { b }))
    }
}

/// Position of the first occurrence of `needle` (two characters) in `hay`.
fn find_pair(hay: &Vec<char>, c0: char, c1: char) -> (r: usize)
    ensures
        r as int == first_index(hay@, seq![c0, c1]),
        r <= hay@.len(),
{
    let ghost needle = seq![c0, c1];
    let n = hay.len();
    let mut i: usize = 0;
    while i < n && i + 1 < n
        invariant
            n == hay@.len(),
            i <= n,
            needle == seq![c0, c1],
            forall|j: int| 0 <= j < i ==> !#[trigger] occurs_at(hay@, needle, j),
        decreases n - i,
    {
        if hay[i] == c0 && hay[i + 1] == c1 {
            assert(hay@.subrange(i as int, i + 2) =~= needle);
            assert(occurs_at(hay@, needle, i as int));
            proof {
                lemma_first_index_found(hay@, needle, i as int);
            }
            return i;
        }
        assert(!occurs_at(hay@, needle, i as int)) by {
            if occurs_at(hay@, needle, i as int) {
                assert(hay@.subrange(i as int, i + 2)[0] == hay@[i as int]);
                assert(hay@.subrange(i as int, i + 2)[1] == hay@[i + 1]);
            }
        }
        i = i + 1;
    }
    assert forall|j: int| !occurs_at(hay@, needle, j) by {
        if 0 <= j < i {
        }
    }
    proof {
        lemma_first_index_absent(hay@, needle);
    }
    n
}

/// Position of the first `c` in `hay`, or its length.
fn find_char(hay: &Vec<char>, c: char) -> (r: usize)
    ensures
        r as int == first_index(hay@, seq![c]),
        r <= hay@.len(),
{
    let ghost needle = seq![c];
    let n = hay.len();
    let mut i: usize = 0;
    while i < n
        invariant
            n == hay@.len(),
            i <= n,
            needle == seq![c],
            forall|j: int| 0 <= j < i ==> !#[trigger] occurs_at(hay@, needle, j),
        decreases n - i,
    {
        if hay[i] == c {
            assert(hay@.subrange(i as int, i + 1) =~= needle);
            assert(occurs_at(hay@, needle, i as int));
            proof {
                lemma_first_index_found(hay@, needle, i as int);
            }
            return i;
        }
        assert(!occurs_at(hay@, needle, i as int)) by {
            if occurs_at(hay@, needle, i as int) {
                assert(hay@.subrange(i as int, i + 1)[0] == hay@[i as int]);
            }
        }
        i = i + 1;
    }
    assert forall|j: int| !occurs_at(hay@, needle, j) by {
        if 0 <= j < i {
        }
    }
    proof {
        lemma_first_index_absent(hay@, needle);
    }
    n
}

/// The first `k` characters of a character vector, as a string.
fn prefix_string(cs: &Vec<char>, k: usize) -> (r: String)
    requires
        k <= cs@.len(),
    ensures
        r@ == cs@.take(k as int),
{
    let mut out: Vec<char> = Vec::new();
    let mut i: usize = 0;
    while i < k
        invariant
            k <= cs@.len(),
            i <= k,
            out@ == cs@.take(i as int),
        decreases k - i,
    {
        out.push(cs[i]);
        assert(cs@.take(i + 1) =~= cs@.take(i as int).push(cs@[i as int]));
        i = i + 1;
    }
    string_from_chars(&out)
}

/// The characters of `t` after the first.
fn drop_first_char(t: &Vec<char>) -> (r: Vec<char>)
    requires
        t@.len() > 0,
    ensures
        r@ == t@.drop_first(),
{
    let mut rest: Vec<char> = Vec::new();
    let mut i: usize = 1;
    while i < t.len()
        invariant
            1 <= i <= t@.len(),
            rest@ == t@.subrange(1, i as int),
        decreases t@.len() - i,
    {
        rest.push(t[i]);
        assert(t@.subrange(1, i + 1) =~= t@.subrange(1, i as int).push(t@[i as int]));
        i = i + 1;
    }
    assert(rest@ =~= t@.drop_first());
    rest
}

/// Extracts the binary path from a registered command line.
pub fn sanitize_binary_path(raw: &str) -> (r: String)
    ensures
        r@ == spec_sanitize_binary_path(raw@),
{
    let trimmed = str_trim(raw);
    let t = chars_of(trimmed.as_str());
    if t.len() > 0 && t[0] == '"' {
        let rest = drop_first_char(&t);
        let q = find_char(&rest, '"');
        let head = prefix_string(&rest, q);
        str_trim(head.as_str())
    } else {
        let a = find_pair(&t, ' ', '/');
        let b = find_pair(&t, ' ', '-');
        let end = if a < b { a } else { b };
        let head = prefix_string(&t, end);
        str_trim(head.as_str())
    }
}

/// A host whose registry can be inspected: none, or one naming the local machine.
pub open spec fn spec_inspectable_host(host: Option<Seq<char>>) -> bool {
    match host {
        None => true,
        Some(h) => {
            let t = spec_trim(h);
            t.len() == 0 || eq_ignore_ascii_case(t, "localhost"@) || t == "127.0.0.1"@
        },
    }
}

/// Message of the error for inspecting a remote registry.
pub open spec fn spec_remote_inspection_message() -> Seq<char> {
    "Remote machine registry inspection is not supported"@
}

/// Refuses to inspect the registry of a remote host.
pub fn check_inspectable_host(host: Option<&str>) -> (r: OpcResult<()>)
    ensures
        r is Ok <==> spec_inspectable_host(match host { Some(h) => Some(h@), None => None }),
        r matches Err(e) ==> e@ == OpcErrorOf::<Seq<char>>::NotImplemented(spec_remote_inspection_message()),
{
    match host {
        None => Ok(()),
        Some(h) => {
            let t = str_trim(h);
            proof {
                reveal_strlit("localhost");
                reveal_strlit("127.0.0.1");
                reveal_strlit("Remote machine registry inspection is not supported");
            }
            if t.unicode_len() == 0 || str_eq_ignore_ascii_case(t.as_str(), "localhost") || str_eq(t.as_str(), "127.0.0.1") {
                Ok(())
            } else {
                Err(OpcErrorOf::NotImplemented(String::from_str("Remote machine registry inspection is not supported")))
            }
        },
    }
}

/// Message of the error for a class without an executable or DLL registration.
pub open spec fn spec_unregistered_message(clsid: u128) -> Seq<char> {
    "No LocalServer32 or InprocServer32 registry key found for CLSID "@ + spec_guid_bracketed(clsid)
}

/// The error for a class without an executable or DLL registration.
pub fn unregistered_class_error(clsid: u128) -> (r: OpcError)
    ensures
        r@ == OpcErrorOf::<Seq<char>>::Server(spec_unregistered_message(clsid), REGDB_E_CLASSNOTREG),
{
    let g = guid_bracketed(clsid);
    proof {
        reveal_strlit("No LocalServer32 or InprocServer32 registry key found for CLSID ");
    }
    OpcErrorOf::Server(concat_str("No LocalServer32 or InprocServer32 registry key found for CLSID ", g.as_str()), REGDB_E_CLASSNOTREG)
}

} // verus!
