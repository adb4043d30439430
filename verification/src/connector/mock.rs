//! In-memory implementations of the connector, server and group abstractions: scripted
//! servers for tests and demonstrations, with counters of the calls they receive.

use vstd::prelude::*;
use crate::connector::traits::{
    ConnectedGroup, ConnectedServer, ItemIdSource, NameView, ServerConnector, ServerInfoView, add_items_answer_view,
    def_ids, item_writes_view, read_answer_view, read_outcome_view, same_group_answers, server_info_view,
    write_answer_view,
};
use crate::error::{E_FAIL, OpcError, OpcErrorOf, OpcResult, RPC_S_SERVER_UNAVAILABLE};
use crate::types::{
    BrowseDirection, BrowseType, ClientItemHandle, CreatedGroup, DataSource, GroupConfig,
    GroupItemDef, GroupItemResult, GroupItemState, GroupRemovalMode, ItemWrite, ItemWriteView, NamespaceType,
    OpcQuality, OpcServerEndpoint, OpcServerInfo, OpcValue, OpcValueOf, QUALITY_GOOD,
    ServerGroupHandle, ServerIdentifier, ServerItemHandle, duplicate_opt_string, opt_view,
    EndpointView, GroupItemResultView, GroupItemStateView, spec_identifier_display, status_view,
};
use crate::error::OpcErrorView;

verus! {

/// Variant type code of a string (`VT_BSTR`), reported as every mock item's canonical type.
pub const VT_BSTR: u16 = 8;

/// Organization code of a flat address space.
pub const ORGANIZATION_FLAT: u32 = 2;

/// Names yielded from memory, in order.
pub struct StringIterator {
    /// The names.
    pub items: Vec<String>,
    /// Position of the next name.
    pub pos: usize,
}

impl StringIterator {
    /// Yields `items` in order.
    pub fn from_vec(items: Vec<String>) -> (r: Self)
        ensures
            r.items == items,
            r.pos == 0,
    {
        StringIterator { items, pos: 0 }
    }
}

impl ItemIdSource for StringIterator {
    open spec fn pending(&self) -> Seq<NameView> {
        if self.pos <= self.items@.len() {
            self.items@.skip(self.pos as int).map_values(|s: String| Ok::<Seq<char>, OpcErrorView>(s@))
        } else {
            Seq::empty()
        }
    }

    fn next_id(&mut self) -> (r: Option<OpcResult<String>>)
        ensures
            old(self).pos < old(self).items@.len() ==> (r matches Some(Ok(s)) && s@ == old(self).items@[old(self).pos as int]@)
                && final(self).pos == old(self).pos + 1,
            old(self).pos >= old(self).items@.len() ==> r is None,
            final(self).items == old(self).items,
    {
        if self.pos < self.items.len() {
            let s = self.items[self.pos].clone();
            let ghost before = self.items@.skip(self.pos as int);
            let ghost p0 = self.pending();
            assert(p0[0] == Ok::<Seq<char>, OpcErrorView>(before[0]@));
            self.pos = self.pos + 1;
            assert(self.items@.skip(self.pos as int) =~= before.drop_first());
            assert(self.pending() =~= p0.drop_first());
            Some(Ok(s))
        } else {
            None
        }
    }
}

/// Counters of the calls a mock receives, and switches that make it fail.
#[derive(Debug)]
pub struct MockState {
    /// Successful connections made.
    pub connect_count: u64,
    /// Make connection and enumeration fail.
    pub should_fail_connect: bool,
    /// Make every item write fail.
    pub should_fail_write: bool,
    /// Make group creation and writes fail as a dropped connection.
    pub should_fail_connection: bool,
    /// Make group creation and writes fail with "RPC server unavailable".
    pub should_fail_with_connection_error: bool,
    /// Groups removed.
    pub remove_group_count: u64,
    /// Groups added.
    pub add_group_count: u64,
    /// Item registrations made.
    pub add_items_count: u64,
    /// Reads made.
    pub read_count: u64,
    /// Name of the last group added.
    pub last_group_name: Option<String>,
    /// Endpoint of the last connection.
    pub last_connected_endpoint: Option<OpcServerEndpoint>,
    /// Host of the last enumeration.
    pub last_enumerated_host: Option<String>,
}

/// Every counter is zero, every failure switch off, and nothing is recorded yet.
pub open spec fn is_default_state(s: MockState) -> bool {
    &&& s.connect_count == 0 && s.remove_group_count == 0 && s.add_group_count == 0 && s.add_items_count == 0
        && s.read_count == 0
    &&& !s.should_fail_connect && !s.should_fail_write && !s.should_fail_connection && !s.should_fail_with_connection_error
    &&& s.last_group_name is None && s.last_connected_endpoint is None && s.last_enumerated_host is None
}

/// A group with a default state, no values and no scripted answer.
pub open spec fn is_default_group(g: MockConnectedGroup) -> bool {
    &&& is_default_state(g.state)
    &&& g.tag_values@.len() == 0
    &&& g.add_items_fn is None && g.read_fn is None && g.write_fn is None
}

/// The characters of each string.
pub open spec fn texts(v: Seq<String>) -> Seq<Seq<char>> {
    v.map_values(|t: String| t@)
}

impl Default for MockState {
    fn default() -> (r: Self)
        ensures
            is_default_state(r),
    {
        MockState {
            connect_count: 0,
            should_fail_connect: false,
            should_fail_write: false,
            should_fail_connection: false,
            should_fail_with_connection_error: false,
            remove_group_count: 0,
            add_group_count: 0,
            add_items_count: 0,
            read_count: 0,
            last_group_name: None,
            last_connected_endpoint: None,
            last_enumerated_host: None,
        }
    }
}

/// `c + 1`, saturating at `u64::MAX`.
pub open spec fn spec_bump(c: u64) -> u64 {
    if c == u64::MAX { c } else { (c + 1) as u64 }
}

/// `c + 1`, saturating at `u64::MAX`.
pub fn bump(c: u64) -> (r: u64)
    ensures
        r == spec_bump(c),
{
    if c == u64::MAX { c } else { c + 1 }
}

/// Two states agree on every counter, switch and record.
pub open spec fn same_state(a: MockState, b: MockState) -> bool {
    &&& a.connect_count == b.connect_count
    &&& a.should_fail_connect == b.should_fail_connect
    &&& a.should_fail_write == b.should_fail_write
    &&& a.should_fail_connection == b.should_fail_connection
    &&& a.should_fail_with_connection_error == b.should_fail_with_connection_error
    &&& a.remove_group_count == b.remove_group_count
    &&& a.add_group_count == b.add_group_count
    &&& a.add_items_count == b.add_items_count
    &&& a.read_count == b.read_count
    &&& opt_view(a.last_group_name) == opt_view(b.last_group_name)
    &&& (match (a.last_connected_endpoint, b.last_connected_endpoint) {
        (Some(x), Some(y)) => x@ == y@,
        (None, None) => true,
        _ => false,
    })
    &&& opt_view(a.last_enumerated_host) == opt_view(b.last_enumerated_host)
}

impl MockState {
    /// A copy of this state.
    pub fn duplicate(&self) -> (r: Self)
        ensures
            same_state(r, *self),
    {
        MockState {
            connect_count: self.connect_count,
            should_fail_connect: self.should_fail_connect,
            should_fail_write: self.should_fail_write,
            should_fail_connection: self.should_fail_connection,
            should_fail_with_connection_error: self.should_fail_with_connection_error,
            remove_group_count: self.remove_group_count,
            add_group_count: self.add_group_count,
            add_items_count: self.add_items_count,
            read_count: self.read_count,
            last_group_name: duplicate_opt_string(&self.last_group_name),
            last_connected_endpoint: match &self.last_connected_endpoint {
                Some(e) => Some(e.duplicate()),
                None => None,
            },
            last_enumerated_host: duplicate_opt_string(&self.last_enumerated_host),
        }
    }
}

/// A copy of an optional error.
fn dup_opt_error(e: &Option<OpcError>) -> (r: Option<OpcError>)
    ensures
        crate::types::opt_error_view(r) == crate::types::opt_error_view(*e),
{
    match e {
        Some(x) => Some(x.duplicate()),
        None => None,
    }
}

/// A copy of a scripted registration answer.
fn dup_add_items(resp: &OpcResult<Vec<GroupItemResult>>) -> (r: OpcResult<Vec<GroupItemResult>>)
    ensures
        add_items_answer_view(r) == add_items_answer_view(*resp),
{
    match resp {
        Err(e) => Err(e.duplicate()),
        Ok(v) => {
            let mut out: Vec<GroupItemResult> = Vec::new();
            let mut i: usize = 0;
            while i < v.len()
                invariant
                    i <= v@.len(),
                    out@.len() == i,
                    forall|j: int| 0 <= j < i ==> (#[trigger] out@[j])@ == v@[j]@,
                decreases v@.len() - i,
            {
                out.push(GroupItemResult {
                    server_handle: v[i].server_handle,
                    canonical_type: v[i].canonical_type,
                    error: dup_opt_error(&v[i].error),
                });
                i = i + 1;
            }
            assert(out@.map_values(|x: GroupItemResult| x@) =~= v@.map_values(|x: GroupItemResult| x@));
            Ok(out)
        },
    }
}

/// A copy of a scripted read answer.
fn dup_read(resp: &OpcResult<Vec<OpcResult<GroupItemState>>>) -> (r: OpcResult<Vec<OpcResult<GroupItemState>>>)
    ensures
        read_answer_view(r) == read_answer_view(*resp),
{
    match resp {
        Err(e) => Err(e.duplicate()),
        Ok(v) => {
            let mut out: Vec<OpcResult<GroupItemState>> = Vec::new();
            let mut i: usize = 0;
            while i < v.len()
                invariant
                    i <= v@.len(),
                    out@.len() == i,
                    forall|j: int| 0 <= j < i ==> read_outcome_view(#[trigger] out@[j]) == read_outcome_view(v@[j]),
                decreases v@.len() - i,
            {
                let item = match &v[i] {
                    Ok(st) => Ok(GroupItemState {
                        client_handle: st.client_handle,
                        value: st.value.duplicate(),
                        quality: st.quality,
                        timestamp: st.timestamp,
                    }),
                    Err(e) => Err(e.duplicate()),
                };
                out.push(item);
                i = i + 1;
            }
            assert(out@.map_values(|o: OpcResult<GroupItemState>| read_outcome_view(o)) =~= v@.map_values(
                |o: OpcResult<GroupItemState>| read_outcome_view(o),
            ));
            Ok(out)
        },
    }
}

/// A copy of a scripted write answer.
fn dup_write(resp: &OpcResult<Vec<OpcResult<()>>>) -> (r: OpcResult<Vec<OpcResult<()>>>)
    ensures
        write_answer_view(r) == write_answer_view(*resp),
{
    match resp {
        Err(e) => Err(e.duplicate()),
        Ok(v) => {
            let mut out: Vec<OpcResult<()>> = Vec::new();
            let mut i: usize = 0;
            while i < v.len()
                invariant
                    i <= v@.len(),
                    out@.len() == i,
                    forall|j: int| 0 <= j < i ==> status_view(#[trigger] out@[j]) == status_view(v@[j]),
                decreases v@.len() - i,
            {
                let item = match &v[i] {
                    Ok(()) => Ok(()),
                    Err(e) => Err(e.duplicate()),
                };
                out.push(item);
                i = i + 1;
            }
            assert(out@.map_values(|o: OpcResult<()>| status_view(o)) =~= v@.map_values(|o: OpcResult<()>| status_view(o)));
            Ok(out)
        },
    }
}

/// Two lists of strings hold the same texts, in order.
pub open spec fn same_names(a: Seq<String>, b: Seq<String>) -> bool {
    &&& a.len() == b.len()
    &&& forall|i: int| 0 <= i < a.len() ==> (#[trigger] a[i])@ == b[i]@
}

/// Two catalog entries agree on every field.
pub open spec fn same_info(a: OpcServerInfo, b: OpcServerInfo) -> bool {
    &&& a.prog_id@ == b.prog_id@
    &&& a.clsid == b.clsid
    &&& opt_view(a.user_type) == opt_view(b.user_type)
    &&& opt_view(a.host) == opt_view(b.host)
}

/// Two lists of catalog entries agree entry by entry.
pub open spec fn same_details(a: Seq<OpcServerInfo>, b: Seq<OpcServerInfo>) -> bool {
    &&& a.len() == b.len()
    &&& forall|i: int| 0 <= i < a.len() ==> same_info(#[trigger] a[i], b[i])
}

/// A copy of a list of strings.
fn dup_strings(v: &Vec<String>) -> (r: Vec<String>)
    ensures
        same_names(r@, v@),
{
    let mut out: Vec<String> = Vec::new();
    let mut i: usize = 0;
    while i < v.len()
        invariant
            i <= v@.len(),
            out@.len() == i,
            forall|j: int| 0 <= j < i ==> (#[trigger] out@[j])@ == v@[j]@,
        decreases v@.len() - i,
    {
        out.push(v[i].clone());
        i = i + 1;
    }
    out
}

/// A copy of a list of values.
fn dup_values(v: &Vec<OpcValue>) -> (r: Vec<OpcValue>)
    ensures
        r@.len() == v@.len(),
        forall|i: int| 0 <= i < v@.len() ==> (#[trigger] r@[i])@ == v@[i]@,
{
    let mut out: Vec<OpcValue> = Vec::new();
    let mut i: usize = 0;
    while i < v.len()
        invariant
            i <= v@.len(),
            out@.len() == i,
            forall|j: int| 0 <= j < i ==> (#[trigger] out@[j])@ == v@[j]@,
        decreases v@.len() - i,
    {
        out.push(v[i].duplicate());
        i = i + 1;
    }
    out
}

/// A copy of a list of catalog entries.
fn dup_details(v: &Vec<OpcServerInfo>) -> (r: Vec<OpcServerInfo>)
    ensures
        same_details(r@, v@),
{
    let mut out: Vec<OpcServerInfo> = Vec::new();
    let mut i: usize = 0;
    while i < v.len()
        invariant
            i <= v@.len(),
            out@.len() == i,
            forall|j: int| 0 <= j < i ==> same_info(#[trigger] out@[j], v@[j]),
        decreases v@.len() - i,
    {
        out.push(OpcServerInfo {
            prog_id: v[i].prog_id.clone(),
            clsid: v[i].clsid,
            user_type: duplicate_opt_string(&v[i].user_type),
            host: duplicate_opt_string(&v[i].host),
        });
        i = i + 1;
    }
    out
}

/// Two groups agree on their counters, configured values and scripted answers.
pub open spec fn same_group(a: MockConnectedGroup, b: MockConnectedGroup) -> bool {
    &&& same_state(a.state, b.state)
    &&& a.tag_values@.len() == b.tag_values@.len()
    &&& forall|i: int| 0 <= i < a.tag_values@.len() ==> (#[trigger] a.tag_values@[i])@ == b.tag_values@[i]@
    &&& match (a.add_items_fn, b.add_items_fn) {
        (Some(x), Some(y)) => add_items_answer_view(x) == add_items_answer_view(y),
        (None, None) => true,
        _ => false,
    }
    &&& match (a.read_fn, b.read_fn) {
        (Some(x), Some(y)) => read_answer_view(x) == read_answer_view(y),
        (None, None) => true,
        _ => false,
    }
    &&& match (a.write_fn, b.write_fn) {
        (Some(x), Some(y)) => write_answer_view(x) == write_answer_view(y),
        (None, None) => true,
        _ => false,
    }
}

/// The `i`-th state a mock group reads: good, at time zero, for the `i`-th handle, with
/// the `i`-th configured value (42 where none is configured).
pub open spec fn mock_state_at(o: OpcResult<GroupItemState>, values: Seq<OpcValue>, handles: Seq<ServerItemHandle>, i: int) -> bool {
    &&& o matches Ok(st)
    &&& st.client_handle == ClientItemHandle(handles[i].0)
    &&& st.value@ == (if i < values.len() { values[i]@ } else { OpcValueOf::Int(42) })
    &&& st.quality == OpcQuality(QUALITY_GOOD)
    &&& st.timestamp == 0
}

/// Groups that agree on their counters, configured values and scripted answers give the
/// same answers.
pub proof fn lemma_same_group_answers(a: MockConnectedGroup, b: MockConnectedGroup)
    requires
        same_group(a, b),
    ensures
        same_group_answers(a, b),
{
    assert forall|h: Seq<ServerItemHandle>| #[trigger] a.read_answer(h) == b.read_answer(h) by {
        if h.len() > 0 && a.read_fn is None {
            assert(Seq::new(h.len(), |i: int| Ok::<GroupItemStateView, OpcErrorView>(mock_state_view_at(a.tag_values@, h, i)))
                =~= Seq::new(h.len(), |i: int| Ok::<GroupItemStateView, OpcErrorView>(mock_state_view_at(b.tag_values@, h, i))));
        }
    }
}

/// A group held in memory: registration gives handles 1, 2, …; reads give the configured
/// values (42 where none is configured) with good quality; writes succeed.  Each of the
/// three calls can be given a scripted answer instead.
pub struct MockConnectedGroup {
    /// Counters and failure switches.
    pub state: MockState,
    /// Values returned by reads, by position.
    pub tag_values: Vec<OpcValue>,
    /// Scripted answer to registrations.
    pub add_items_fn: Option<OpcResult<Vec<GroupItemResult>>>,
    /// Scripted answer to reads.
    pub read_fn: Option<OpcResult<Vec<OpcResult<GroupItemState>>>>,
    /// Scripted answer to writes.
    pub write_fn: Option<OpcResult<Vec<OpcResult<()>>>>,
}

impl Default for MockConnectedGroup {
    fn default() -> (r: Self)
        ensures
            is_default_group(r),
    {
        MockConnectedGroup {
            state: MockState::default(),
            tag_values: Vec::new(),
            add_items_fn: None,
            read_fn: None,
            write_fn: None,
        }
    }
}

impl MockConnectedGroup {
    /// Answers every registration with `response`.
    pub fn with_add_items_fn(self, response: OpcResult<Vec<GroupItemResult>>) -> (r: Self)
        ensures
            r.add_items_fn == Some(response),
            r == (MockConnectedGroup { add_items_fn: r.add_items_fn, ..self }),
            r.read_fn == self.read_fn,
            r.write_fn == self.write_fn,
    {
        MockConnectedGroup { add_items_fn: Some(response), ..self }
    }

    /// Answers every read with `response`.
    pub fn with_read_fn(self, response: OpcResult<Vec<OpcResult<GroupItemState>>>) -> (r: Self)
        ensures
            r.read_fn == Some(response),
            r == (MockConnectedGroup { read_fn: r.read_fn, ..self }),
            r.add_items_fn == self.add_items_fn,
            r.write_fn == self.write_fn,
    {
        MockConnectedGroup { read_fn: Some(response), ..self }
    }

    /// Answers every write with `response`.
    pub fn with_write_fn(self, response: OpcResult<Vec<OpcResult<()>>>) -> (r: Self)
        ensures
            r.write_fn == Some(response),
            r == (MockConnectedGroup { write_fn: r.write_fn, ..self }),
            r.add_items_fn == self.add_items_fn,
            r.read_fn == self.read_fn,
    {
        MockConnectedGroup { write_fn: Some(response), ..self }
    }

    /// A copy of this group.
    pub fn duplicate(&self) -> (r: Self)
        ensures
            same_group(r, *self),
    {
        MockConnectedGroup {
            state: self.state.duplicate(),
            tag_values: dup_values(&self.tag_values),
            add_items_fn: match &self.add_items_fn {
                Some(x) => Some(dup_add_items(x)),
                None => None,
            },
            read_fn: match &self.read_fn {
                Some(x) => Some(dup_read(x)),
                None => None,
            },
            write_fn: match &self.write_fn {
                Some(x) => Some(dup_write(x)),
                None => None,
            },
        }
    }
}

/// The result a mock group gives the `i`-th registered item: handle `i + 1`, string type.
pub open spec fn mock_registration_at(i: int) -> GroupItemResultView {
    GroupItemResultView {
        server_handle: ServerItemHandle(if i < 0xFFFF_FFFF { (i + 1) as u32 } else { 0xFFFF_FFFFu32 }),
        canonical_type: VT_BSTR,
        error: None,
    }
}

/// The state a mock group reads for the `i`-th handle.
pub open spec fn mock_state_view_at(values: Seq<OpcValue>, handles: Seq<ServerItemHandle>, i: int) -> GroupItemStateView {
    GroupItemStateView {
        client_handle: ClientItemHandle(handles[i].0),
        value: if i < values.len() { values[i]@ } else { OpcValueOf::Int(42) },
        quality: OpcQuality(QUALITY_GOOD),
        timestamp: 0,
    }
}

impl ConnectedGroup for MockConnectedGroup {
    open spec fn registration(&self, ids: Seq<Seq<char>>) -> Result<Seq<GroupItemResultView>, OpcErrorView> {
        if ids.len() == 0 {
            Err(OpcErrorOf::InvalidState("items cannot be empty"@))
        } else {
            match self.add_items_fn {
                Some(resp) => add_items_answer_view(resp),
                None => Ok(Seq::new(ids.len(), |i: int| mock_registration_at(i))),
            }
        }
    }

    open spec fn read_answer(&self, handles: Seq<ServerItemHandle>) -> Result<Seq<Result<GroupItemStateView, OpcErrorView>>, OpcErrorView> {
        if handles.len() == 0 {
            Err(OpcErrorOf::InvalidState("server_handles cannot be empty"@))
        } else {
            match self.read_fn {
                Some(resp) => read_answer_view(resp),
                None => Ok(Seq::new(handles.len(), |i: int| Ok(mock_state_view_at(self.tag_values@, handles, i)))),
            }
        }
    }

    open spec fn write_answer(&self, writes: Seq<ItemWriteView>) -> Result<Seq<Result<(), OpcErrorView>>, OpcErrorView> {
        if writes.len() == 0 {
            Err(OpcErrorOf::InvalidState("items cannot be empty"@))
        } else if self.state.should_fail_connection || self.state.should_fail_with_connection_error {
            Err(OpcErrorOf::Com { hresult: RPC_S_SERVER_UNAVAILABLE })
        } else if self.state.should_fail_write {
            Ok(Seq::new(writes.len(), |i: int| Err(OpcErrorOf::Com { hresult: E_FAIL })))
        } else {
            match self.write_fn {
                Some(resp) => write_answer_view(resp),
                None => Ok(Seq::new(writes.len(), |i: int| Ok(()))),
            }
        }
    }

    fn add_items(&mut self, items: &[GroupItemDef]) -> (r: OpcResult<Vec<GroupItemResult>>)
        ensures
            items@.len() == 0 ==> (r matches Err(e) && e is InvalidState),
            items@.len() > 0 && old(self).add_items_fn is None ==> (r matches Ok(v) && v@.len() == items@.len()),
    {
        if items.len() == 0 {
            return Err(OpcErrorOf::InvalidState(String::from_str("items cannot be empty")));
        }
        self.state.add_items_count = bump(self.state.add_items_count);
        match &self.add_items_fn {
            Some(resp) => return dup_add_items(resp),
            None => {},
        }
        let mut out: Vec<GroupItemResult> = Vec::new();
        let mut i: usize = 0;
        while i < items.len()
            invariant
                i <= items@.len(),
                out@.len() == i,
                forall|j: int| 0 <= j < i ==> (#[trigger] out@[j])@ == mock_registration_at(j),
            decreases items@.len() - i,
        {
            let handle: u32 = if i < 0xFFFF_FFFF { (i + 1) as u32 } else { 0xFFFF_FFFF };
            out.push(GroupItemResult { server_handle: ServerItemHandle::new(handle), canonical_type: VT_BSTR, error: None });
            i = i + 1;
        }
        assert(out@.map_values(|x: GroupItemResult| x@) =~= Seq::new(
            def_ids(items@).len(),
            |i: int| mock_registration_at(i),
        ));
        Ok(out)
    }

    fn read(&mut self, source: DataSource, server_handles: &[ServerItemHandle]) -> (r: OpcResult<
        Vec<OpcResult<GroupItemState>>,
    >)
        ensures
            server_handles@.len() == 0 ==> (r matches Err(e) && e is InvalidState),
            server_handles@.len() > 0 && old(self).read_fn is None ==> (r matches Ok(v) && v@.len() == server_handles@.len()
                && forall|i: int| 0 <= i < v@.len() ==> mock_state_at(#[trigger] v@[i], old(self).tag_values@, server_handles@, i)),
            server_handles@.len() > 0 ==> (old(self).read_fn matches Some(resp) ==> read_answer_view(r) == read_answer_view(
                resp,
            )),
    {
        if server_handles.len() == 0 {
            return Err(OpcErrorOf::InvalidState(String::from_str("server_handles cannot be empty")));
        }
        self.state.read_count = bump(self.state.read_count);
        match &self.read_fn {
            Some(resp) => return dup_read(resp),
            None => {},
        }
        let mut out: Vec<OpcResult<GroupItemState>> = Vec::new();
        let mut i: usize = 0;
        while i < server_handles.len()
            invariant
                i <= server_handles@.len(),
                out@.len() == i,
                forall|j: int| 0 <= j < i ==> mock_state_at(#[trigger] out@[j], self.tag_values@, server_handles@, j),
            decreases server_handles@.len() - i,
        {
            let value = if i < self.tag_values.len() { self.tag_values[i].duplicate() } else { OpcValueOf::Int(42) };
            out.push(Ok(GroupItemState {
                client_handle: ClientItemHandle::new(server_handles[i].as_raw()),
                value,
                quality: OpcQuality(QUALITY_GOOD),
                timestamp: 0,
            }));
            i = i + 1;
        }
        assert forall|j: int| 0 <= j < out@.len() implies read_outcome_view(#[trigger] out@[j]) == Ok::<
            GroupItemStateView,
            OpcErrorView,
        >(mock_state_view_at(self.tag_values@, server_handles@, j)) by {
            assert(mock_state_at(out@[j], self.tag_values@, server_handles@, j));
        }
        assert(out@.map_values(|o: OpcResult<GroupItemState>| read_outcome_view(o)) =~= Seq::new(
            server_handles@.len(),
            |i: int| Ok::<GroupItemStateView, OpcErrorView>(mock_state_view_at(self.tag_values@, server_handles@, i)),
        ));
        Ok(out)
    }

    fn write(&mut self, items: &[ItemWrite]) -> (r: OpcResult<Vec<OpcResult<()>>>)
        ensures
            items@.len() == 0 ==> (r matches Err(e) && e is InvalidState),
    {
        if items.len() == 0 {
            return Err(OpcErrorOf::InvalidState(String::from_str("items cannot be empty")));
        }
        if self.state.should_fail_connection || self.state.should_fail_with_connection_error {
            return Err(OpcErrorOf::Com { hresult: RPC_S_SERVER_UNAVAILABLE });
        }
        let mut out: Vec<OpcResult<()>> = Vec::new();
        if self.state.should_fail_write {
            let mut i: usize = 0;
            while i < items.len()
                invariant
                    i <= items@.len(),
                    out@.len() == i,
                    forall|j: int| 0 <= j < i ==> status_view(#[trigger] out@[j]) == Err::<(), OpcErrorView>(
                        OpcErrorOf::Com { hresult: E_FAIL },
                    ),
                decreases items@.len() - i,
            {
                out.push(Err(OpcErrorOf::Com { hresult: E_FAIL }));
                i = i + 1;
            }
            assert(out@.map_values(|o: OpcResult<()>| status_view(o)) =~= Seq::new(
                items@.len(),
                |i: int| Err::<(), OpcErrorView>(OpcErrorOf::Com { hresult: E_FAIL }),
            ));
            return Ok(out);
        }
        match &self.write_fn {
            Some(resp) => return dup_write(resp),
            None => {},
        }
        let mut i: usize = 0;
        while i < items.len()
            invariant
                i <= items@.len(),
                out@.len() == i,
                forall|j: int| 0 <= j < i ==> status_view(#[trigger] out@[j]) == Ok::<(), OpcErrorView>(()),
            decreases items@.len() - i,
        {
            out.push(Ok(()));
            i = i + 1;
        }
        assert(out@.map_values(|o: OpcResult<()>| status_view(o)) =~= Seq::new(items@.len(), |i: int| Ok::<(), OpcErrorView>(())));
        Ok(out)
    }
}

/// Whether a server fails group creation as a dropped connection.
pub open spec fn fails_disconnected(s: MockConnectedServer) -> bool {
    s.should_fail_connection || s.state.should_fail_connection || s.state.should_fail_with_connection_error
}

/// Two servers agree on their group, counters, switches and names.
pub open spec fn same_server(a: MockConnectedServer, b: MockConnectedServer) -> bool {
    &&& same_group(a.group, b.group)
    &&& same_state(a.state, b.state)
    &&& a.should_fail_connection == b.should_fail_connection
    &&& a.organization == b.organization
    &&& a.supports_flat_browse == b.supports_flat_browse
    &&& same_names(a.tags@, b.tags@)
    &&& same_names(a.branch_tags@, b.branch_tags@)
}

/// A server held in memory: it browses the configured tags (leaves and flat) and
/// branches, resolves a leaf to its own name, and hands out copies of its group.
pub struct MockConnectedServer {
    /// Group handed out when a group is added.
    pub group: MockConnectedGroup,
    /// Counters and failure switches.
    pub state: MockState,
    /// Make group creation fail as a dropped connection.
    pub should_fail_connection: bool,
    /// Tag IDs yielded by leaf and flat browses.
    pub tags: Vec<String>,
    /// Names yielded by branch browses.
    pub branch_tags: Vec<String>,
    /// Address space organization: 2 for flat, anything else hierarchical.
    pub organization: u32,
    /// Whether flat enumeration of a hierarchical space is offered.
    pub supports_flat_browse: bool,
    /// Groups added (`None`) and removed (`Some` of the handle), in order.
    pub group_calls: Ghost<Seq<Option<ServerGroupHandle>>>,
    /// The browse position: the branch names stepped into from the root.
    pub browse_path: Ghost<Seq<Seq<char>>>,
}

impl Default for MockConnectedServer {
    fn default() -> (r: Self)
        ensures
            texts(r.tags@) == seq!["Random.Int4"@, "Random.Real8"@, "Random.String"@],
            texts(r.branch_tags@) == seq!["Random"@, "Simulation"@],
            r.organization == 1,
            r.supports_flat_browse,
            !r.should_fail_connection,
            is_default_group(r.group),
            is_default_state(r.state),
            r.group_calls@.len() == 0,
            r.browse_path@.len() == 0,
    {
        let mut tags: Vec<String> = Vec::new();
        tags.push(String::from_str("Random.Int4"));
        tags.push(String::from_str("Random.Real8"));
        tags.push(String::from_str("Random.String"));
        let mut branch_tags: Vec<String> = Vec::new();
        branch_tags.push(String::from_str("Random"));
        branch_tags.push(String::from_str("Simulation"));
        assert(texts(tags@) =~= seq!["Random.Int4"@, "Random.Real8"@, "Random.String"@]);
        assert(texts(branch_tags@) =~= seq!["Random"@, "Simulation"@]);
        MockConnectedServer {
            group: MockConnectedGroup::default(),
            state: MockState::default(),
            should_fail_connection: false,
            tags,
            branch_tags,
            organization: 1,
            supports_flat_browse: true,
            group_calls: Ghost(Seq::empty()),
            browse_path: Ghost(Seq::empty()),
        }
    }
}

impl MockConnectedServer {
    /// Browses `tags` instead of the default tags.
    pub fn with_tags(self, tags: Vec<String>) -> (r: Self)
        ensures
            r.tags == tags,
            r.branch_tags == self.branch_tags,
            r.organization == self.organization,
            r == (MockConnectedServer { tags: r.tags, ..self }),
    {
        MockConnectedServer { tags, ..self }
    }

    /// Browses `branches` as the branch names.
    pub fn with_branch_tags(self, branches: Vec<String>) -> (r: Self)
        ensures
            r.branch_tags == branches,
            r.tags == self.tags,
            r.organization == self.organization,
            r == (MockConnectedServer { branch_tags: r.branch_tags, ..self }),
    {
        MockConnectedServer { branch_tags: branches, ..self }
    }

    /// Reports the given address space organization.
    pub fn with_organization(self, org: NamespaceType) -> (r: Self)
        ensures
            r.organization == (if org == NamespaceType::Flat { ORGANIZATION_FLAT } else { 1u32 }),
            r.tags == self.tags,
            r.branch_tags == self.branch_tags,
            r == (MockConnectedServer { organization: r.organization, ..self }),
    {
        let code: u32 = match org {
            NamespaceType::Flat => ORGANIZATION_FLAT,
            NamespaceType::Hierarchy => 1,
        };
        MockConnectedServer { organization: code, ..self }
    }

    /// A copy of this server.
    pub fn duplicate(&self) -> (r: Self)
        ensures
            same_server(r, *self),
    {
        MockConnectedServer {
            group_calls: self.group_calls,
            browse_path: self.browse_path,
            group: self.group.duplicate(),
            state: self.state.duplicate(),
            should_fail_connection: self.should_fail_connection,
            tags: dup_strings(&self.tags),
            branch_tags: dup_strings(&self.branch_tags),
            organization: self.organization,
            supports_flat_browse: self.supports_flat_browse,
        }
    }

    fn fails_as_disconnected(&self) -> (r: bool)
        ensures
            r == fails_disconnected(*self),
    {
        self.should_fail_connection || self.state.should_fail_connection || self.state.should_fail_with_connection_error
    }
}

impl ConnectedServer for MockConnectedServer {
    type Group = MockConnectedGroup;
    type ItemIterator = StringIterator;

    open spec fn group_log(&self) -> Seq<Option<ServerGroupHandle>> {
        self.group_calls@
    }

    open spec fn position(&self) -> Seq<Seq<char>> {
        self.browse_path@
    }

    open spec fn listing(&self, path: Seq<Seq<char>>, kind: BrowseType) -> Result<Seq<NameView>, OpcErrorView> {
        match kind {
            BrowseType::Branch => Ok(self.branch_tags@.map_values(|t: String| Ok::<Seq<char>, OpcErrorView>(t@))),
            BrowseType::Leaf => Ok(self.tags@.map_values(|t: String| Ok::<Seq<char>, OpcErrorView>(t@))),
            BrowseType::Flat => if self.supports_flat_browse {
                Ok(self.tags@.map_values(|t: String| Ok::<Seq<char>, OpcErrorView>(t@)))
            } else {
                Err(OpcErrorOf::Com { hresult: E_FAIL })
            },
        }
    }

    open spec fn resolution(&self, path: Seq<Seq<char>>, name: Seq<char>) -> NameView {
        Ok(name)
    }

    open spec fn enters(&self, path: Seq<Seq<char>>, name: Seq<char>) -> bool {
        true
    }

    open spec fn adds_groups(&self) -> bool {
        !fails_disconnected(*self)
    }

    open spec fn add_group_error(&self) -> OpcErrorView {
        OpcErrorOf::Com { hresult: RPC_S_SERVER_UNAVAILABLE }
    }

    open spec fn fresh_group(&self) -> MockConnectedGroup {
        self.group
    }

    open spec fn organization(&self) -> Result<NamespaceType, OpcErrorView> {
        Ok(if self.organization == ORGANIZATION_FLAT { NamespaceType::Flat } else { NamespaceType::Hierarchy })
    }

    fn ping(&mut self) -> (r: OpcResult<()>)
        ensures
            *final(self) == *old(self),
            fails_disconnected(*old(self)) ==> (r matches Err(OpcErrorOf::Com { hresult }) && hresult == RPC_S_SERVER_UNAVAILABLE),
            !fails_disconnected(*old(self)) ==> r is Ok,
    {
        if self.fails_as_disconnected() {
            Err(OpcErrorOf::Com { hresult: RPC_S_SERVER_UNAVAILABLE })
        } else {
            Ok(())
        }
    }

    fn query_organization(&mut self) -> (r: OpcResult<NamespaceType>)
        ensures
            r == Ok::<NamespaceType, OpcError>(
                if old(self).organization == ORGANIZATION_FLAT { NamespaceType::Flat } else { NamespaceType::Hierarchy },
            ),
    {
        if self.organization == ORGANIZATION_FLAT {
            Ok(NamespaceType::Flat)
        } else {
            Ok(NamespaceType::Hierarchy)
        }
    }

    fn browse_opc_item_ids(
        &mut self,
        browse_type: BrowseType,
        filter: Option<&str>,
        data_type: u16,
        access_rights: u32,
    ) -> (r: OpcResult<StringIterator>)
        ensures
            *final(self) == *old(self),
            browse_type == BrowseType::Branch ==> (r matches Ok(it) && it.pos == 0 && same_names(it.items@, old(self).branch_tags@)),
            browse_type == BrowseType::Leaf || (browse_type == BrowseType::Flat && old(self).supports_flat_browse) ==> (r matches Ok(it)
                && it.pos == 0 && same_names(it.items@, old(self).tags@)),
            browse_type == BrowseType::Flat && !old(self).supports_flat_browse ==> (r matches Err(OpcErrorOf::Com { hresult })
                && hresult == E_FAIL),
    {
        match browse_type {
            BrowseType::Branch => Ok(StringIterator::from_vec(dup_strings(&self.branch_tags))),
            BrowseType::Leaf => Ok(StringIterator::from_vec(dup_strings(&self.tags))),
            BrowseType::Flat => {
                if self.supports_flat_browse {
                    Ok(StringIterator::from_vec(dup_strings(&self.tags)))
                } else {
                    Err(OpcErrorOf::Com { hresult: E_FAIL })
                }
            },
        }
    }

    fn change_browse_position(&mut self, direction: BrowseDirection, name: &str) -> (r: OpcResult<()>)
        ensures
            *final(self) == (MockConnectedServer { browse_path: final(self).browse_path, ..*old(self) }),
            r is Ok,
    {
        match direction {
            BrowseDirection::Down => {
                self.browse_path = Ghost(self.browse_path@.push(name@));
            },
            BrowseDirection::Up => {
                self.browse_path = Ghost(
                    if self.browse_path@.len() > 0 {
                        self.browse_path@.drop_last()
                    } else {
                        self.browse_path@
                    },
                );
            },
            BrowseDirection::To => {},
        }
        Ok(())
    }

    fn get_item_id(&mut self, item_name: &str) -> (r: OpcResult<String>)
        ensures
            r matches Ok(s) && s@ == item_name@,
    {
        Ok(String::from_str(item_name))
    }

    fn add_group(&mut self, config: &GroupConfig) -> (r: OpcResult<CreatedGroup<MockConnectedGroup>>)
        ensures
            fails_disconnected(*old(self)) ==> {
                &&& r matches Err(OpcErrorOf::Com { hresult }) && hresult == RPC_S_SERVER_UNAVAILABLE
                &&& *final(self) == (MockConnectedServer { group_calls: final(self).group_calls, ..*old(self) })
            },
            !fails_disconnected(*old(self)) ==> {
                &&& r matches Ok(c) && same_group(c.group, old(self).group) && c.server_handle == ServerGroupHandle(1)
                    && c.revised_update_rate_ms == config.update_rate_ms
                &&& final(self).state.add_group_count == spec_bump(old(self).state.add_group_count)
                &&& opt_view(final(self).state.last_group_name) == Some(config.name@)
                &&& final(self).state == (MockState {
                    add_group_count: final(self).state.add_group_count,
                    last_group_name: final(self).state.last_group_name,
                    ..old(self).state
                })
                &&& final(self).group == old(self).group
                &&& final(self).should_fail_connection == old(self).should_fail_connection
                &&& final(self).tags == old(self).tags
                &&& final(self).branch_tags == old(self).branch_tags
                &&& final(self).organization == old(self).organization
                &&& final(self).supports_flat_browse == old(self).supports_flat_browse
            },
    {
        self.group_calls = Ghost(self.group_calls@.push(None));
        if self.fails_as_disconnected() {
            return Err(OpcErrorOf::Com { hresult: RPC_S_SERVER_UNAVAILABLE });
        }
        self.state.add_group_count = bump(self.state.add_group_count);
        self.state.last_group_name = Some(config.name.clone());
        let group = self.group.duplicate();
        proof {
            lemma_same_group_answers(group, self.group);
        }
        Ok(CreatedGroup {
            group,
            server_handle: ServerGroupHandle::new(1),
            revised_update_rate_ms: config.update_rate_ms,
        })
    }

    fn remove_group(&mut self, server_group: ServerGroupHandle, mode: GroupRemovalMode) -> (r: OpcResult<()>)
        ensures
            final(self).state.remove_group_count == if old(self).state.remove_group_count == u64::MAX {
                old(self).state.remove_group_count
            } else {
                (old(self).state.remove_group_count + 1) as u64
            },
    {
        self.group_calls = Ghost(self.group_calls@.push(Some(server_group)));
        self.state.remove_group_count = bump(self.state.remove_group_count);
        Ok(())
    }
}

/// A connector held in memory: enumeration lists the configured servers, and every
/// connection yields a copy of one configured server.
pub struct MockServerConnector {
    /// Server handed out on connection.
    pub server: MockConnectedServer,
    /// Counters and failure switches.
    pub state: MockState,
    /// ProgIDs returned by enumeration.
    pub servers: Vec<String>,
    /// Catalog entries returned by detailed enumeration.
    pub server_details: Vec<OpcServerInfo>,
    /// Connections asked for so far.
    pub connect_calls: Ghost<nat>,
}

impl Default for MockServerConnector {
    fn default() -> (r: Self)
        ensures
            texts(r.servers@) == seq!["Matrikon.OPC.Simulation.1"@],
            r.server_details@.len() == 1,
            r.server_details@[0].prog_id@ == "Matrikon.OPC.Simulation.1"@,
            r.server_details@[0].clsid == 0,
            opt_view(r.server_details@[0].user_type) == Some("Matrikon OPC Simulation Server"@),
            r.server_details@[0].host is None,
            is_default_state(r.state),
            texts(r.server.tags@) == seq!["Random.Int4"@, "Random.Real8"@, "Random.String"@],
            texts(r.server.branch_tags@) == seq!["Random"@, "Simulation"@],
            r.server.organization == 1,
            r.server.supports_flat_browse,
            !r.server.should_fail_connection,
            is_default_group(r.server.group),
            is_default_state(r.server.state),
            r.server.group_calls@.len() == 0,
            r.server.browse_path@.len() == 0,
    {
        let mut servers: Vec<String> = Vec::new();
        servers.push(String::from_str("Matrikon.OPC.Simulation.1"));
        let mut details: Vec<OpcServerInfo> = Vec::new();
        details.push(OpcServerInfo {
            prog_id: String::from_str("Matrikon.OPC.Simulation.1"),
            clsid: 0,
            user_type: Some(String::from_str("Matrikon OPC Simulation Server")),
            host: None,
        });
        assert(texts(servers@) =~= seq!["Matrikon.OPC.Simulation.1"@]);
        MockServerConnector {
            server: MockConnectedServer::default(),
            state: MockState::default(),
            servers,
            server_details: details,
            connect_calls: Ghost(0),
        }
    }
}

impl MockServerConnector {
    /// A connector with the default simulation server.
    pub fn new() -> (r: Self)
        ensures
            texts(r.servers@) == seq!["Matrikon.OPC.Simulation.1"@],
            r.servers@.len() == 1,
            is_default_state(r.state),
            is_default_group(r.server.group),
            is_default_state(r.server.state),
    {
        let r = MockServerConnector::default();
        assert(texts(r.servers@).len() == r.servers@.len());
        r
    }

    /// A connector with the given counters and switches, offering "Mock.Server.1".
    pub fn with_state(state: MockState) -> (r: Self)
        ensures
            r.state == state,
            r.servers@.len() == 1,
    {
        let mut servers: Vec<String> = Vec::new();
        servers.push(String::from_str("Mock.Server.1"));
        let mut details: Vec<OpcServerInfo> = Vec::new();
        details.push(OpcServerInfo {
            prog_id: String::from_str("Mock.Server.1"),
            clsid: 0,
            user_type: Some(String::from_str("Mock Server 1")),
            host: None,
        });
        MockServerConnector {
            server: MockConnectedServer::default(),
            state,
            servers,
            server_details: details,
            connect_calls: Ghost(0),
        }
    }

    /// Browses `tags` on the connected server.
    pub fn with_tags(self, tags: Vec<String>) -> (r: Self)
        ensures
            r.server.tags == tags,
            r.servers == self.servers,
            r.server == (MockConnectedServer { tags: r.server.tags, ..self.server }),
            r.state == self.state,
            r.server_details == self.server_details,
    {
        let server = self.server.with_tags(tags);
        MockServerConnector { server, ..self }
    }

    /// Enumerates `servers`, with catalog entries that carry only the ProgIDs.
    pub fn with_servers(self, servers: Vec<String>) -> (r: Self)
        ensures
            r.servers == servers,
            r.server_details@.len() == servers@.len(),
            forall|i: int| 0 <= i < servers@.len() ==> (#[trigger] r.server_details@[i]).prog_id@ == servers@[i]@
                && r.server_details@[i].user_type is None && r.server_details@[i].host is None,
            forall|i: int| 0 <= i < servers@.len() ==> (#[trigger] r.server_details@[i]).clsid == 0,
            r.server == self.server,
            r.state == self.state,
    {
        let mut details: Vec<OpcServerInfo> = Vec::new();
        let mut i: usize = 0;
        while i < servers.len()
            invariant
                i <= servers@.len(),
                details@.len() == i,
                forall|j: int| 0 <= j < i ==> (#[trigger] details@[j]).prog_id@ == servers@[j]@
                    && details@[j].user_type is None && details@[j].host is None && details@[j].clsid == 0,
            decreases servers@.len() - i,
        {
            details.push(OpcServerInfo { prog_id: servers[i].clone(), clsid: 0, user_type: None, host: None });
            i = i + 1;
        }
        MockServerConnector { servers, server_details: details, ..self }
    }

    /// Enumerates the given catalog entries, and their ProgIDs.
    pub fn with_server_details(self, details: Vec<OpcServerInfo>) -> (r: Self)
        ensures
            r.server_details == details,
            r.servers@.len() == details@.len(),
            forall|i: int| 0 <= i < details@.len() ==> (#[trigger] r.servers@[i])@ == details@[i].prog_id@,
            r.server == self.server,
            r.state == self.state,
    {
        let mut prog_ids: Vec<String> = Vec::new();
        let mut i: usize = 0;
        while i < details.len()
            invariant
                i <= details@.len(),
                prog_ids@.len() == i,
                forall|j: int| 0 <= j < i ==> (#[trigger] prog_ids@[j])@ == details@[j].prog_id@,
            decreases details@.len() - i,
        {
            prog_ids.push(details[i].prog_id.clone());
            i = i + 1;
        }
        MockServerConnector { servers: prog_ids, server_details: details, ..self }
    }

    /// Reads give `values`, by position.
    pub fn with_tag_values(self, values: Vec<OpcValue>) -> (r: Self)
        ensures
            r.server.group == (MockConnectedGroup { tag_values: values, ..self.server.group }),
            r.server == (MockConnectedServer { group: r.server.group, ..self.server }),
            r.state == self.state,
            r.servers == self.servers,
            r.server_details == self.server_details,
    {
        let MockServerConnector { server, state, servers, server_details, connect_calls } = self;
        let group = MockConnectedGroup { tag_values: values, ..server.group };
        MockServerConnector { server: MockConnectedServer { group, ..server }, state, servers, server_details, connect_calls }
    }

    /// Browses `branches` as the branch names.
    pub fn with_branch_tags(self, branches: Vec<String>) -> (r: Self)
        ensures
            r.server.branch_tags == branches,
            r.server == (MockConnectedServer { branch_tags: r.server.branch_tags, ..self.server }),
            r.state == self.state,
            r.servers == self.servers,
            r.server_details == self.server_details,
    {
        let server = self.server.with_branch_tags(branches);
        MockServerConnector { server, ..self }
    }

    /// Answers every registration with `response`.
    pub fn with_add_items_fn(self, response: OpcResult<Vec<GroupItemResult>>) -> (r: Self)
        ensures
            r.server.group.add_items_fn == Some(response),
            r.server.group == (MockConnectedGroup { add_items_fn: r.server.group.add_items_fn, ..self.server.group }),
            r.server == (MockConnectedServer { group: r.server.group, ..self.server }),
            r.state == self.state,
            r.servers == self.servers,
            r.server_details == self.server_details,
    {
        let MockServerConnector { server, state, servers, server_details, connect_calls } = self;
        let group = server.group.with_add_items_fn(response);
        MockServerConnector { server: MockConnectedServer { group, ..server }, state, servers, server_details, connect_calls }
    }

    /// Answers every read with `response`.
    pub fn with_read_fn(self, response: OpcResult<Vec<OpcResult<GroupItemState>>>) -> (r: Self)
        ensures
            r.server.group.read_fn == Some(response),
            r.server.group == (MockConnectedGroup { read_fn: r.server.group.read_fn, ..self.server.group }),
            r.server == (MockConnectedServer { group: r.server.group, ..self.server }),
            r.state == self.state,
            r.servers == self.servers,
            r.server_details == self.server_details,
    {
        let MockServerConnector { server, state, servers, server_details, connect_calls } = self;
        let group = server.group.with_read_fn(response);
        MockServerConnector { server: MockConnectedServer { group, ..server }, state, servers, server_details, connect_calls }
    }

    /// Answers every write with `response`.
    pub fn with_write_fn(self, response: OpcResult<Vec<OpcResult<()>>>) -> (r: Self)
        ensures
            r.server.group.write_fn == Some(response),
            r.server.group == (MockConnectedGroup { write_fn: r.server.group.write_fn, ..self.server.group }),
            r.server == (MockConnectedServer { group: r.server.group, ..self.server }),
            r.state == self.state,
            r.servers == self.servers,
            r.server_details == self.server_details,
    {
        let MockServerConnector { server, state, servers, server_details, connect_calls } = self;
        let group = server.group.with_write_fn(response);
        MockServerConnector { server: MockConnectedServer { group, ..server }, state, servers, server_details, connect_calls }
    }
}

/// The answer of a mock connector's failing enumeration.
pub open spec fn enumeration_failure() -> OpcErrorView {
    OpcErrorOf::Internal("Server enumeration failed"@)
}

impl ServerConnector for MockServerConnector {
    type Server = MockConnectedServer;

    open spec fn servers_on(&self, host: Seq<char>) -> Result<Seq<Seq<char>>, OpcErrorView> {
        if self.state.should_fail_connect {
            Err(enumeration_failure())
        } else {
            Ok(self.servers@.map_values(|x: String| x@))
        }
    }

    open spec fn details_on(&self, host: Seq<char>) -> Result<Seq<ServerInfoView>, OpcErrorView> {
        if self.state.should_fail_connect {
            Err(enumeration_failure())
        } else {
            Ok(self.server_details@.map_values(|x: OpcServerInfo| server_info_view(x)))
        }
    }

    open spec fn connects(&self, endpoint: EndpointView) -> bool {
        !self.state.should_fail_connect
    }

    open spec fn connect_calls(&self) -> nat {
        self.connect_calls@
    }

    fn enumerate_servers(&mut self, host: &str) -> (r: OpcResult<Vec<String>>)
        ensures
            old(self).state.should_fail_connect ==> {
                &&& r matches Err(OpcErrorOf::Internal(m)) && m@ == "Server enumeration failed"@
                &&& *final(self) == *old(self)
            },
            !old(self).state.should_fail_connect ==> {
                &&& r matches Ok(v) && same_names(v@, old(self).servers@)
                &&& opt_view(final(self).state.last_enumerated_host) == Some(host@)
                &&& final(self).state == (MockState { last_enumerated_host: final(self).state.last_enumerated_host, ..old(self).state })
                &&& final(self).server == old(self).server
                &&& final(self).servers == old(self).servers
                &&& final(self).server_details == old(self).server_details
            },
    {
        if self.state.should_fail_connect {
            return Err(OpcErrorOf::Internal(String::from_str("Server enumeration failed")));
        }
        self.state.last_enumerated_host = Some(String::from_str(host));
        let v = dup_strings(&self.servers);
        assert(v@.map_values(|x: String| x@) =~= self.servers@.map_values(|x: String| x@));
        Ok(v)
    }

    fn enumerate_server_details(&mut self, host: &str) -> (r: OpcResult<Vec<OpcServerInfo>>)
        ensures
            old(self).state.should_fail_connect ==> {
                &&& r matches Err(OpcErrorOf::Internal(m)) && m@ == "Server enumeration failed"@
                &&& *final(self) == *old(self)
            },
            !old(self).state.should_fail_connect ==> {
                &&& r matches Ok(v) && same_details(v@, old(self).server_details@)
                &&& opt_view(final(self).state.last_enumerated_host) == Some(host@)
                &&& final(self).state == (MockState { last_enumerated_host: final(self).state.last_enumerated_host, ..old(self).state })
                &&& final(self).server == old(self).server
                &&& final(self).servers == old(self).servers
                &&& final(self).server_details == old(self).server_details
            },
    {
        if self.state.should_fail_connect {
            return Err(OpcErrorOf::Internal(String::from_str("Server enumeration failed")));
        }
        self.state.last_enumerated_host = Some(String::from_str(host));
        let v = dup_details(&self.server_details);
        assert(v@.map_values(|x: OpcServerInfo| server_info_view(x)) =~= self.server_details@.map_values(
            |x: OpcServerInfo| server_info_view(x),
        ));
        Ok(v)
    }

    fn connect_identifier(&mut self, identifier: &ServerIdentifier) -> (r: OpcResult<MockConnectedServer>)
        ensures
            final(self).state.connect_count == spec_bump(old(self).state.connect_count),
            final(self).state.last_connected_endpoint matches Some(e) && e@ == (EndpointView { host: None, identifier: identifier@ }),
            final(self).state == (MockState {
                connect_count: final(self).state.connect_count,
                last_connected_endpoint: final(self).state.last_connected_endpoint,
                ..old(self).state
            }),
            final(self).server == old(self).server,
            final(self).servers == old(self).servers,
            final(self).server_details == old(self).server_details,
            old(self).state.should_fail_connect ==> (r matches Err(OpcErrorOf::Connection(m)) && m@ == spec_identifier_display(identifier@)),
            !old(self).state.should_fail_connect ==> (r matches Ok(s) && same_server(s, old(self).server)),
    {
        self.connect_calls = Ghost(self.connect_calls@ + 1);
        self.state.connect_count = bump(self.state.connect_count);
        self.state.last_connected_endpoint = Some(OpcServerEndpoint::local(identifier.duplicate()));
        if self.state.should_fail_connect {
            return Err(OpcErrorOf::Connection(identifier.display()));
        }
        Ok(self.server.duplicate())
    }

    fn connect_endpoint(&mut self, endpoint: &OpcServerEndpoint) -> (r: OpcResult<MockConnectedServer>)
        ensures
            old(self).state.should_fail_connect ==> (r matches Err(e) && e is Connection),
    {
        self.connect_calls = Ghost(self.connect_calls@ + 1);
        if self.state.should_fail_connect {
            return Err(OpcErrorOf::Connection(String::from_str("Mock connection failed")));
        }
        self.state.connect_count = bump(self.state.connect_count);
        self.state.last_connected_endpoint = Some(endpoint.duplicate());
        Ok(self.server.duplicate())
    }
}

} // verus!
