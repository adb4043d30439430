//! Connector, server and group abstractions that the worker is written against.

use vstd::prelude::*;
use crate::error::{OpcErrorView, OpcResult};
use crate::types::{
    BrowseDirection, BrowseType, CreatedGroup, DataSource, GroupConfig, GroupItemDef,
    GroupItemResult, GroupItemResultView, GroupItemState, GroupItemStateView, GroupRemovalMode, ItemWrite,
    ItemWriteView, NamespaceType, status_view,
    EndpointView, OpcServerEndpoint, OpcServerInfo, ServerGroupHandle, ServerIdentifier, ServerItemHandle, opt_view,
};

verus! {

/// A browsed name as plain values, or the error reading it.
pub type NameView = Result<Seq<char>, OpcErrorView>;

/// The plain values of a browsed name.
pub open spec fn name_view(r: OpcResult<String>) -> NameView {
    match r {
        Ok(s) => Ok(s@),
        Err(e) => Err(e@),
    }
}

/// A source of browsed item names, yielded one at a time, modelled by the entries it has
/// yet to yield.
pub trait ItemIdSource {
    /// The entries still to be yielded, in order.
    spec fn pending(&self) -> Seq<NameView>;

    /// The next name, an error for an entry that could not be decoded, or `None` at the end.
    fn next_id(&mut self) -> (r: Option<OpcResult<String>>)
        ensures
            old(self).pending().len() == 0 ==> r is None && final(self).pending().len() == 0,
            old(self).pending().len() > 0 ==> (r matches Some(x) && name_view(x) == old(self).pending()[0])
                && final(self).pending() == old(self).pending().drop_first(),
    ;
}

/// What a registration answer says: the result of each item, or the error.
pub open spec fn add_items_answer_view(a: OpcResult<Vec<GroupItemResult>>) -> Result<Seq<GroupItemResultView>, OpcErrorView> {
    match a {
        Ok(v) => Ok(v@.map_values(|x: GroupItemResult| x@)),
        Err(e) => Err(e@),
    }
}

/// What an item's read outcome says.
pub open spec fn read_outcome_view(o: OpcResult<GroupItemState>) -> Result<GroupItemStateView, OpcErrorView> {
    match o {
        Ok(st) => Ok(st@),
        Err(e) => Err(e@),
    }
}

/// What a read answer says: the outcome of each item, or the error.
pub open spec fn read_answer_view(a: OpcResult<Vec<OpcResult<GroupItemState>>>) -> Result<
    Seq<Result<GroupItemStateView, OpcErrorView>>,
    OpcErrorView,
> {
    match a {
        Ok(v) => Ok(v@.map_values(|o: OpcResult<GroupItemState>| read_outcome_view(o))),
        Err(e) => Err(e@),
    }
}

/// What a write answer says: the outcome of each write, or the error.
pub open spec fn write_answer_view(a: OpcResult<Vec<OpcResult<()>>>) -> Result<Seq<Result<(), OpcErrorView>>, OpcErrorView> {
    match a {
        Ok(v) => Ok(v@.map_values(|o: OpcResult<()>| status_view(o))),
        Err(e) => Err(e@),
    }
}

/// The item IDs of item definitions.
pub open spec fn def_ids(items: Seq<GroupItemDef>) -> Seq<Seq<char>> {
    items.map_values(|d: GroupItemDef| d.item_id@)
}

/// The views of item writes.
pub open spec fn item_writes_view(items: Seq<ItemWrite>) -> Seq<ItemWriteView> {
    items.map_values(|w: ItemWrite| w@)
}

/// A group on a connected server: item registration and synchronous I/O, modelled by
/// what it answers to each registration, read and write, which its calls do not change.
pub trait ConnectedGroup {
    /// The answer to registering the items `ids`.
    spec fn registration(&self, ids: Seq<Seq<char>>) -> Result<Seq<GroupItemResultView>, OpcErrorView>;

    /// The answer to reading the items `handles`.
    spec fn read_answer(&self, handles: Seq<ServerItemHandle>) -> Result<Seq<Result<GroupItemStateView, OpcErrorView>>, OpcErrorView>;

    /// The answer to the writes `writes`.
    spec fn write_answer(&self, writes: Seq<ItemWriteView>) -> Result<Seq<Result<(), OpcErrorView>>, OpcErrorView>;

    /// Registers items in this group; one result per definition, in order.
    fn add_items(&mut self, items: &[GroupItemDef]) -> (r: OpcResult<Vec<GroupItemResult>>)
        ensures
            add_items_answer_view(r) == old(self).registration(def_ids(items@)),
            forall|i: Seq<Seq<char>>| #[trigger] final(self).registration(i) == old(self).registration(i),
            forall|h: Seq<ServerItemHandle>| #[trigger] final(self).read_answer(h) == old(self).read_answer(h),
            forall|w: Seq<ItemWriteView>| #[trigger] final(self).write_answer(w) == old(self).write_answer(w),
    ;

    /// Reads the given items; one outcome per handle, in order.
    fn read(&mut self, source: DataSource, server_handles: &[ServerItemHandle]) -> (r: OpcResult<
        Vec<OpcResult<GroupItemState>>,
    >)
        ensures
            read_answer_view(r) == old(self).read_answer(server_handles@),
            forall|i: Seq<Seq<char>>| #[trigger] final(self).registration(i) == old(self).registration(i),
            forall|h: Seq<ServerItemHandle>| #[trigger] final(self).read_answer(h) == old(self).read_answer(h),
            forall|w: Seq<ItemWriteView>| #[trigger] final(self).write_answer(w) == old(self).write_answer(w),
    ;

    /// Writes the given values; one outcome per write, in order.
    fn write(&mut self, items: &[ItemWrite]) -> (r: OpcResult<Vec<OpcResult<()>>>)
        ensures
            write_answer_view(r) == old(self).write_answer(item_writes_view(items@)),
            forall|i: Seq<Seq<char>>| #[trigger] final(self).registration(i) == old(self).registration(i),
            forall|h: Seq<ServerItemHandle>| #[trigger] final(self).read_answer(h) == old(self).read_answer(h),
            forall|w: Seq<ItemWriteView>| #[trigger] final(self).write_answer(w) == old(self).write_answer(w),
    ;
}

/// Two groups give the same answers to every registration, read and write.
pub open spec fn same_group_answers<G: ConnectedGroup>(a: G, b: G) -> bool {
    &&& forall|i: Seq<Seq<char>>| #[trigger] a.registration(i) == b.registration(i)
    &&& forall|h: Seq<ServerItemHandle>| #[trigger] a.read_answer(h) == b.read_answer(h)
    &&& forall|w: Seq<ItemWriteView>| #[trigger] a.write_answer(w) == b.write_answer(w)
}

/// A connected OPC DA server.
pub trait ConnectedServer {
    /// The group type returned by [`ConnectedServer::add_group`].
    type Group: ConnectedGroup;
    /// The iterator type returned by [`ConnectedServer::browse_opc_item_ids`].
    type ItemIterator: ItemIdSource;

    /// The group calls made on the server, in order: `None` for a group added, `Some`
    /// of the handle for a group removed.
    spec fn group_log(&self) -> Seq<Option<ServerGroupHandle>>;

    /// The current browse position: the branch names from the root.
    spec fn position(&self) -> Seq<Seq<char>>;

    /// What an enumeration of names of `kind` at `path` yields, or why it fails.
    spec fn listing(&self, path: Seq<Seq<char>>, kind: BrowseType) -> Result<Seq<NameView>, OpcErrorView>;

    /// What resolving the browse name `name` at `path` gives.
    spec fn resolution(&self, path: Seq<Seq<char>>, name: Seq<char>) -> NameView;

    /// Whether stepping into the branch `name` at `path` succeeds.
    spec fn enters(&self, path: Seq<Seq<char>>, name: Seq<char>) -> bool;

    /// The organization of the address space, or why it cannot be told.
    spec fn organization(&self) -> Result<NamespaceType, OpcErrorView>;

    /// Whether adding a group succeeds.
    spec fn adds_groups(&self) -> bool;

    /// The error adding a group fails with.
    spec fn add_group_error(&self) -> OpcErrorView;

    /// The group handed out when a group is added.
    spec fn fresh_group(&self) -> Self::Group;

    /// Checks that the server still answers.
    fn ping(&mut self) -> (r: OpcResult<()>)
        ensures
            final(self).group_log() == old(self).group_log(),
            forall|p: Seq<Seq<char>>, k: BrowseType| #[trigger] final(self).listing(p, k) == old(self).listing(p, k),
            forall|p: Seq<Seq<char>>, n: Seq<char>| #[trigger] final(self).resolution(p, n) == old(self).resolution(p, n),
            forall|p: Seq<Seq<char>>, n: Seq<char>| #[trigger] final(self).enters(p, n) == old(self).enters(p, n),
            final(self).organization() == old(self).organization(),
            final(self).adds_groups() == old(self).adds_groups(),
            final(self).add_group_error() == old(self).add_group_error(),
            final(self).fresh_group() == old(self).fresh_group(),
            final(self).position() == old(self).position(),
    ;

    /// The organization of the server's address space.
    fn query_organization(&mut self) -> (r: OpcResult<NamespaceType>)
        ensures
            final(self).group_log() == old(self).group_log(),
            match r {
                Ok(o) => old(self).organization() == Ok::<NamespaceType, OpcErrorView>(o),
                Err(e) => old(self).organization() == Err::<NamespaceType, OpcErrorView>(e@),
            },
            forall|p: Seq<Seq<char>>, k: BrowseType| #[trigger] final(self).listing(p, k) == old(self).listing(p, k),
            forall|p: Seq<Seq<char>>, n: Seq<char>| #[trigger] final(self).resolution(p, n) == old(self).resolution(p, n),
            forall|p: Seq<Seq<char>>, n: Seq<char>| #[trigger] final(self).enters(p, n) == old(self).enters(p, n),
            final(self).organization() == old(self).organization(),
            final(self).adds_groups() == old(self).adds_groups(),
            final(self).add_group_error() == old(self).add_group_error(),
            final(self).fresh_group() == old(self).fresh_group(),
            final(self).position() == old(self).position(),
    ;

    /// Enumerates names of the given kind at the current browse position.
    fn browse_opc_item_ids(
        &mut self,
        browse_type: BrowseType,
        filter: Option<&str>,
        data_type: u16,
        access_rights: u32,
    ) -> (r: OpcResult<Self::ItemIterator>)
        ensures
            final(self).group_log() == old(self).group_log(),
            match old(self).listing(old(self).position(), browse_type) {
                Ok(names) => r matches Ok(it) && it.pending() == names,
                Err(e) => r matches Err(x) && x@ == e,
            },
            forall|p: Seq<Seq<char>>, k: BrowseType| #[trigger] final(self).listing(p, k) == old(self).listing(p, k),
            forall|p: Seq<Seq<char>>, n: Seq<char>| #[trigger] final(self).resolution(p, n) == old(self).resolution(p, n),
            forall|p: Seq<Seq<char>>, n: Seq<char>| #[trigger] final(self).enters(p, n) == old(self).enters(p, n),
            final(self).organization() == old(self).organization(),
            final(self).adds_groups() == old(self).adds_groups(),
            final(self).add_group_error() == old(self).add_group_error(),
            final(self).fresh_group() == old(self).fresh_group(),
            final(self).position() == old(self).position(),
    ;

    /// Moves the browse position.
    fn change_browse_position(&mut self, direction: BrowseDirection, name: &str) -> (r: OpcResult<()>)
        ensures
            final(self).group_log() == old(self).group_log(),
            direction == BrowseDirection::Down ==> if old(self).enters(old(self).position(), name@) {
                r is Ok && final(self).position() == old(self).position().push(name@)
            } else {
                r is Err && final(self).position() == old(self).position()
            },
            direction == BrowseDirection::Up ==> if old(self).position().len() > 0 {
                r is Ok && final(self).position() == old(self).position().drop_last()
            } else {
                final(self).position() == old(self).position()
            },
            forall|p: Seq<Seq<char>>, k: BrowseType| #[trigger] final(self).listing(p, k) == old(self).listing(p, k),
            forall|p: Seq<Seq<char>>, n: Seq<char>| #[trigger] final(self).resolution(p, n) == old(self).resolution(p, n),
            forall|p: Seq<Seq<char>>, n: Seq<char>| #[trigger] final(self).enters(p, n) == old(self).enters(p, n),
            final(self).organization() == old(self).organization(),
            final(self).adds_groups() == old(self).adds_groups(),
            final(self).add_group_error() == old(self).add_group_error(),
            final(self).fresh_group() == old(self).fresh_group(),
    ;

    /// Resolves a browse name to its fully qualified item ID.
    fn get_item_id(&mut self, item_name: &str) -> (r: OpcResult<String>)
        ensures
            final(self).group_log() == old(self).group_log(),
            name_view(r) == old(self).resolution(old(self).position(), item_name@),
            forall|p: Seq<Seq<char>>, k: BrowseType| #[trigger] final(self).listing(p, k) == old(self).listing(p, k),
            forall|p: Seq<Seq<char>>, n: Seq<char>| #[trigger] final(self).resolution(p, n) == old(self).resolution(p, n),
            forall|p: Seq<Seq<char>>, n: Seq<char>| #[trigger] final(self).enters(p, n) == old(self).enters(p, n),
            final(self).organization() == old(self).organization(),
            final(self).adds_groups() == old(self).adds_groups(),
            final(self).add_group_error() == old(self).add_group_error(),
            final(self).fresh_group() == old(self).fresh_group(),
            final(self).position() == old(self).position(),
    ;

    /// Adds a group.
    fn add_group(&mut self, config: &GroupConfig) -> (r: OpcResult<CreatedGroup<Self::Group>>)
        ensures
            final(self).group_log() == old(self).group_log().push(None),
            r is Ok <==> old(self).adds_groups(),
            r matches Err(e) ==> e@ == old(self).add_group_error(),
            r matches Ok(c) ==> same_group_answers(c.group, old(self).fresh_group()),
            forall|p: Seq<Seq<char>>, k: BrowseType| #[trigger] final(self).listing(p, k) == old(self).listing(p, k),
            forall|p: Seq<Seq<char>>, n: Seq<char>| #[trigger] final(self).resolution(p, n) == old(self).resolution(p, n),
            forall|p: Seq<Seq<char>>, n: Seq<char>| #[trigger] final(self).enters(p, n) == old(self).enters(p, n),
            final(self).organization() == old(self).organization(),
            final(self).adds_groups() == old(self).adds_groups(),
            final(self).add_group_error() == old(self).add_group_error(),
            final(self).fresh_group() == old(self).fresh_group(),
            final(self).position() == old(self).position(),
    ;

    /// Removes a group by its server handle.
    fn remove_group(&mut self, server_group: ServerGroupHandle, mode: GroupRemovalMode) -> (r: OpcResult<()>)
        ensures
            final(self).group_log() == old(self).group_log().push(Some(server_group)),
            forall|p: Seq<Seq<char>>, k: BrowseType| #[trigger] final(self).listing(p, k) == old(self).listing(p, k),
            forall|p: Seq<Seq<char>>, n: Seq<char>| #[trigger] final(self).resolution(p, n) == old(self).resolution(p, n),
            forall|p: Seq<Seq<char>>, n: Seq<char>| #[trigger] final(self).enters(p, n) == old(self).enters(p, n),
            final(self).organization() == old(self).organization(),
            final(self).adds_groups() == old(self).adds_groups(),
            final(self).add_group_error() == old(self).add_group_error(),
            final(self).fresh_group() == old(self).fresh_group(),
            final(self).position() == old(self).position(),
    ;
}

/// The plain values of a list of names, or the error.
pub open spec fn names_view(r: OpcResult<Vec<String>>) -> Result<Seq<Seq<char>>, OpcErrorView> {
    match r {
        Ok(v) => Ok(v@.map_values(|x: String| x@)),
        Err(e) => Err(e@),
    }
}

/// A catalog entry as plain values: ProgID, class ID, user type, host.
pub type ServerInfoView = (Seq<char>, u128, Option<Seq<char>>, Option<Seq<char>>);

/// The plain values of a catalog entry.
pub open spec fn server_info_view(x: OpcServerInfo) -> ServerInfoView {
    (x.prog_id@, x.clsid, opt_view(x.user_type), opt_view(x.host))
}

/// The plain values of a list of catalog entries, or the error.
pub open spec fn details_list_view(r: OpcResult<Vec<OpcServerInfo>>) -> Result<Seq<ServerInfoView>, OpcErrorView> {
    match r {
        Ok(v) => Ok(v@.map_values(|x: OpcServerInfo| server_info_view(x))),
        Err(e) => Err(e@),
    }
}

/// Factory for connections to OPC DA servers, modelled by what it answers: the servers
/// each host lists, and the endpoints it connects to.  Its calls do not change these
/// answers.
pub trait ServerConnector {
    /// The server type returned on connection.
    type Server: ConnectedServer;

    /// The ProgIDs `host` lists, or why they cannot be listed.
    spec fn servers_on(&self, host: Seq<char>) -> Result<Seq<Seq<char>>, OpcErrorView>;

    /// The catalog entries `host` lists, or why they cannot be listed.
    spec fn details_on(&self, host: Seq<char>) -> Result<Seq<ServerInfoView>, OpcErrorView>;

    /// Whether a connection to `endpoint` is made.
    spec fn connects(&self, endpoint: EndpointView) -> bool;

    /// How many connections have been asked for so far.
    spec fn connect_calls(&self) -> nat;

    /// Enumerates the ProgIDs of the servers on `host`.
    fn enumerate_servers(&mut self, host: &str) -> (r: OpcResult<Vec<String>>)
        ensures
            names_view(r) == old(self).servers_on(host@),
            final(self).connect_calls() == old(self).connect_calls(),
            forall|h: Seq<char>| #[trigger] final(self).servers_on(h) == old(self).servers_on(h),
            forall|h: Seq<char>| #[trigger] final(self).details_on(h) == old(self).details_on(h),
            forall|e: EndpointView| #[trigger] final(self).connects(e) == old(self).connects(e),
    ;

    /// Enumerates the servers on `host` with catalog details.
    fn enumerate_server_details(&mut self, host: &str) -> (r: OpcResult<Vec<OpcServerInfo>>)
        ensures
            details_list_view(r) == old(self).details_on(host@),
            final(self).connect_calls() == old(self).connect_calls(),
            forall|h: Seq<char>| #[trigger] final(self).servers_on(h) == old(self).servers_on(h),
            forall|h: Seq<char>| #[trigger] final(self).details_on(h) == old(self).details_on(h),
            forall|e: EndpointView| #[trigger] final(self).connects(e) == old(self).connects(e),
    ;

    /// Connects to the server named by `identifier` on the local machine.
    fn connect_identifier(&mut self, identifier: &ServerIdentifier) -> (r: OpcResult<Self::Server>)
        ensures
            r is Ok <==> old(self).connects(EndpointView { host: None, identifier: identifier@ }),
            final(self).connect_calls() == old(self).connect_calls() + 1,
            forall|h: Seq<char>| #[trigger] final(self).servers_on(h) == old(self).servers_on(h),
            forall|h: Seq<char>| #[trigger] final(self).details_on(h) == old(self).details_on(h),
            forall|e: EndpointView| #[trigger] final(self).connects(e) == old(self).connects(e),
    ;

    /// Connects to the server at `endpoint`.
    fn connect_endpoint(&mut self, endpoint: &OpcServerEndpoint) -> (r: OpcResult<Self::Server>)
        ensures
            r is Ok <==> old(self).connects(endpoint@),
            final(self).connect_calls() == old(self).connect_calls() + 1,
            forall|h: Seq<char>| #[trigger] final(self).servers_on(h) == old(self).servers_on(h),
            forall|h: Seq<char>| #[trigger] final(self).details_on(h) == old(self).details_on(h),
            forall|e: EndpointView| #[trigger] final(self).connects(e) == old(self).connects(e),
    ;
}

} // verus!
