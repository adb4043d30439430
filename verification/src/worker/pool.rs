//! Connection pool: pooled servers with their cached active groups, failure cooldowns
//! (circuit breaker), and the dispatch that reconnects on stale connections.

use vstd::prelude::*;
use crate::connector::traits::{ConnectedServer, ServerConnector};
use crate::error::{OpcError, OpcErrorOf, OpcErrorView, OpcResult, spec_is_connection_error};
use crate::text::{concat_str, eq_ignore_ascii_case, spec_decimal, str_eq_ignore_ascii_case, u64_to_string};
use crate::types::{
    EndpointView, GroupRemovalMode, OpcServerEndpoint, ServerGroupHandle, ServerItemHandle,
    spec_endpoint_display,
};
use crate::worker::GroupNameSequence;
use crate::clock::instant_now;
use std::time::Instant;

verus! {

/// Cooldown, in milliseconds, during which an unreachable endpoint is not retried.
pub const CIRCUIT_BREAKER_COOLDOWN_MS: u64 = 5000;

/// Largest number of cached active groups kept per pooled server.
pub const MAX_ACTIVE_GROUPS: usize = 4;

/// Largest number of server connections kept in the pool.
pub const MAX_ACTIVE_CONNECTIONS: usize = 32;

/// Largest number of endpoint failure records kept for the circuit breaker.
pub const MAX_COOLDOWNS: usize = 256;

/// A group kept registered on a server for reuse by later reads of the same tags.
pub struct CachedGroup<G> {
    /// Tag IDs of the group, in registration order.
    pub tags: Vec<String>,
    /// The group.
    pub group: G,
    /// Server handle of the group.
    pub server_handle: ServerGroupHandle,
    /// Server handles of the items that registered, in order.
    pub server_item_handles: Vec<ServerItemHandle>,
    /// Positions in `tags` of the items that registered.
    pub valid_indices: Vec<usize>,
    /// Positions in `tags` of the items that were refused, with the server's error.
    pub rejected_errors: Vec<(usize, OpcError)>,
}

/// The group calls that remove the cached groups `groups`, in order.
pub open spec fn removals<G>(groups: Seq<CachedGroup<G>>) -> Seq<Option<ServerGroupHandle>> {
    groups.map_values(|g: CachedGroup<G>| Some(g.server_handle))
}

/// The characters of each string.
pub open spec fn strings_view(tags: Seq<String>) -> Seq<Seq<char>> {
    tags.map_values(|t: String| t@)
}

/// A cached tag list matches a requested one: same length, and equal position by
/// position up to ASCII case.
pub open spec fn batch_matches(cached: Seq<Seq<char>>, batch: Seq<Seq<char>>) -> bool {
    &&& cached.len() == batch.len()
    &&& forall|k: int| 0 <= k < cached.len() ==> eq_ignore_ascii_case(#[trigger] cached[k], batch[k])
}

/// Compares two tag lists position by position, ignoring ASCII case.
pub fn tags_match(cached: &Vec<String>, batch: &Vec<String>) -> (r: bool)
    ensures
        r == batch_matches(strings_view(cached@), strings_view(batch@)),
{
    if cached.len() != batch.len() {
        return false;
    }
    let mut k: usize = 0;
    while k < cached.len()
        invariant
            cached@.len() == batch@.len(),
            k <= cached@.len(),
            forall|j: int| 0 <= j < k ==> eq_ignore_ascii_case(cached@[j]@, batch@[j]@),
        decreases cached@.len() - k,
    {
        if !str_eq_ignore_ascii_case(cached[k].as_str(), batch[k].as_str()) {
            assert(strings_view(cached@)[k as int] == cached@[k as int]@);
            return false;
        }
        k = k + 1;
    }
    assert forall|j: int| 0 <= j < cached@.len() implies eq_ignore_ascii_case(
        #[trigger] strings_view(cached@)[j],
        strings_view(batch@)[j],
    ) by {
        assert(strings_view(cached@)[j] == cached@[j]@);
        assert(strings_view(batch@)[j] == batch@[j]@);
    }
    true
}

/// A connected server in the pool, with its cached active groups (most recently used
/// first) and the time it was last used.
pub struct PooledServer<S: ConnectedServer> {
    /// The connected server.
    pub server: S,
    /// Cached active groups, most recently used first.
    pub active_groups: std::collections::VecDeque<CachedGroup<S::Group>>,
    /// Pool clock reading of the last use, in milliseconds.
    pub last_used: u64,
}

/// Tag lists of a sequence of cached groups.
pub open spec fn group_tags<G>(groups: Seq<CachedGroup<G>>) -> Seq<Seq<Seq<char>>> {
    groups.map_values(|g: CachedGroup<G>| strings_view(g.tags@))
}

/// Index of the first cached group whose tags match `batch`.
pub open spec fn first_match_index(tags: Seq<Seq<Seq<char>>>, batch: Seq<Seq<char>>, i: int) -> bool {
    &&& 0 <= i < tags.len()
    &&& batch_matches(tags[i], batch)
    &&& forall|j: int| 0 <= j < i ==> !batch_matches(#[trigger] tags[j], batch)
}

/// The cache after moving the group at `idx` to the front (no change for the front
/// group or an index out of range).
pub open spec fn promoted<T>(groups: Seq<T>, idx: int) -> Seq<T> {
    if 0 < idx < groups.len() {
        seq![groups[idx]] + groups.remove(idx)
    } else {
        groups
    }
}

/// The cache after inserting `g` at the front, the least recently used group having
/// been dropped when the cache was full.
pub open spec fn inserted<T>(groups: Seq<T>, g: T) -> Seq<T> {
    if groups.len() >= MAX_ACTIVE_GROUPS {
        seq![g] + groups.drop_last()
    } else {
        seq![g] + groups
    }
}

/// A group just cached is found first by a lookup of its own tags (or of the same tags
/// in another ASCII case), and a promoted group is found first by a lookup of its tags.
pub proof fn lemma_cached_group_found_first<G>(groups: Seq<CachedGroup<G>>, g: CachedGroup<G>, idx: int, batch: Seq<Seq<char>>)
    ensures
        batch_matches(strings_view(g.tags@), batch) ==> first_match_index(group_tags(inserted(groups, g)), batch, 0),
        0 <= idx < groups.len() && batch_matches(strings_view(groups[idx].tags@), batch) ==> first_match_index(
            group_tags(promoted(groups, idx)),
            batch,
            0,
        ),
{
    let ins = inserted(groups, g);
    assert(ins[0] == g);
    assert(group_tags(ins)[0] == strings_view(g.tags@));
    if 0 <= idx < groups.len() {
        let pro = promoted(groups, idx);
        assert(pro[0] == groups[idx]);
        assert(group_tags(pro)[0] == strings_view(groups[idx].tags@));
    }
}

impl<S: ConnectedServer> PooledServer<S> {
    /// The pool's bound on cached groups holds.
    pub open spec fn wf(&self) -> bool {
        self.active_groups@.len() <= MAX_ACTIVE_GROUPS
    }

    /// A pooled server without cached groups, last used at `now_ms`.
    pub fn new(server: S, now_ms: u64) -> (r: Self)
        ensures
            r.server == server,
            r.active_groups@.len() == 0,
            r.last_used == now_ms,
            r.wf(),
    {
        PooledServer { server, active_groups: std::collections::VecDeque::new(), last_used: now_ms }
    }

    /// Position of the first cached group whose tags match `tags` (same length, equal
    /// position by position up to ASCII case).
    pub fn find_active_group_idx(&self, tags: &Vec<String>) -> (r: Option<usize>)
        ensures
            match r {
                Some(i) => first_match_index(group_tags(self.active_groups@), strings_view(tags@), i as int),
                None => forall|j: int|
                    0 <= j < self.active_groups@.len() ==> !batch_matches(
                        #[trigger] group_tags(self.active_groups@)[j],
                        strings_view(tags@),
                    ),
            },
    {
        let n = self.active_groups.len();
        let mut i: usize = 0;
        while i < n
            invariant
                n == self.active_groups@.len(),
                i <= n,
                forall|j: int|
                    0 <= j < i ==> !batch_matches(
                        #[trigger] group_tags(self.active_groups@)[j],
                        strings_view(tags@),
                    ),
            decreases n - i,
        {
            let m = tags_match(&self.active_groups[i].tags, tags);
            assert(group_tags(self.active_groups@)[i as int] == strings_view(self.active_groups@[i as int].tags@));
            if m {
                return Some(i);
            }
            i = i + 1;
        }
        None
    }

    /// Moves the cached group at `idx` to the most recently used position.
    pub fn promote_group(&mut self, idx: usize)
        ensures
            final(self).server == old(self).server,
            final(self).last_used == old(self).last_used,
            final(self).active_groups@ == promoted(old(self).active_groups@, idx as int),
    {
        if idx > 0 && idx < self.active_groups.len() {
            let g = self.active_groups.remove(idx);
            match g {
                Some(group) => {
                    self.active_groups.push_front(group);
                },
                None => {},
            }
        }
    }

    /// Caches `group` as the most recently used; when the cache is full, the least
    /// recently used group is dropped and removed from the server first.
    pub fn insert_active_group(&mut self, group: CachedGroup<S::Group>)
        requires
            old(self).wf(),
        ensures
            final(self).wf(),
            final(self).last_used == old(self).last_used,
            final(self).active_groups@ == inserted(old(self).active_groups@, group),
            old(self).active_groups@.len() < MAX_ACTIVE_GROUPS ==> final(self).server == old(self).server,
            old(self).active_groups@.len() >= MAX_ACTIVE_GROUPS ==> final(self).server.group_log() == old(
                self,
            ).server.group_log().push(Some(old(self).active_groups@.last().server_handle)),
    {
        if self.active_groups.len() >= MAX_ACTIVE_GROUPS {
            let lru = self.active_groups.pop_back();
            match lru {
                Some(g) => {
                    let _ = self.server.remove_group(g.server_handle, GroupRemovalMode::Force);
                },
                None => {},
            }
        }
        self.active_groups.push_front(group);
    }

    /// Drops the cached group at `idx`, removing it from the server; returns it, or
    /// `None` for an index out of range.
    pub fn remove_active_group(&mut self, idx: usize) -> (r: Option<CachedGroup<S::Group>>)
        ensures
            final(self).last_used == old(self).last_used,
            idx < old(self).active_groups@.len() ==> {
                &&& r == Some(old(self).active_groups@[idx as int])
                &&& final(self).active_groups@ == old(self).active_groups@.remove(idx as int)
                &&& final(self).server.group_log() == old(self).server.group_log().push(
                    Some(old(self).active_groups@[idx as int].server_handle),
                )
            },
            idx >= old(self).active_groups@.len() ==> r is None && *final(self) == *old(self),
    {
        if idx < self.active_groups.len() {
            let g = self.active_groups.remove(idx);
            match g {
                Some(group) => {
                    let _ = self.server.remove_group(group.server_handle, GroupRemovalMode::Force);
                    Some(group)
                },
                None => None,
            }
        } else {
            None
        }
    }

    /// Drops every cached group, removing each from the server.
    pub fn clear_active_groups(&mut self)
        ensures
            final(self).active_groups@.len() == 0,
            final(self).last_used == old(self).last_used,
            final(self).server.group_log() == old(self).server.group_log() + removals(old(self).active_groups@),
    {
        let ghost ag0 = self.active_groups@;
        let ghost l0 = self.server.group_log();
        while self.active_groups.len() > 0
            invariant
                self.last_used == old(self).last_used,
                ag0 == old(self).active_groups@,
                l0 == old(self).server.group_log(),
                self.active_groups@.len() <= ag0.len(),
                self.active_groups@ == ag0.subrange(ag0.len() - self.active_groups@.len(), ag0.len() as int),
                self.server.group_log() == l0 + removals(ag0.subrange(0, ag0.len() - self.active_groups@.len())),
            decreases self.active_groups@.len(),
        {
            let ghost k = ag0.len() - self.active_groups@.len();
            let g = self.active_groups.pop_front();
            match g {
                Some(group) => {
                    assert(group == ag0[k]);
                    let _ = self.server.remove_group(group.server_handle, GroupRemovalMode::Force);
                    assert(removals(ag0.subrange(0, k + 1)) =~= removals(ag0.subrange(0, k)).push(
                        Some(group.server_handle),
                    ));
                },
                None => {},
            }
        }
        assert(ag0.subrange(0, ag0.len() as int) =~= ag0);
    }

    /// Whether at least one group is cached.
    pub fn has_active_groups(&self) -> (r: bool)
        ensures
            r == (self.active_groups@.len() > 0),
    {
        self.active_groups.len() > 0
    }
}

/// A pooled connection and the endpoint it serves.
pub struct PoolEntry<S: ConnectedServer> {
    /// Endpoint of the connection.
    pub endpoint: OpcServerEndpoint,
    /// The pooled server.
    pub pooled: PooledServer<S>,
}

/// The time an endpoint last failed to connect, for the circuit breaker.
pub struct FailureRecord {
    /// Endpoint that failed.
    pub endpoint: OpcServerEndpoint,
    /// Pool clock reading of the failure, in milliseconds.
    pub failed_at_ms: u64,
}

/// Milliseconds from `then` to `now`, zero when `now` is earlier.
pub open spec fn spec_elapsed(now: u64, then: u64) -> u64 {
    if now >= then {
        (now - then) as u64
    } else {
        0
    }
}

/// No endpoint occurs twice.
pub open spec fn unique_endpoints(s: Seq<EndpointView>) -> bool {
    forall|i: int, j: int| 0 <= i < j < s.len() ==> #[trigger] s[i] != #[trigger] s[j]
}

/// Message of the error returned while an endpoint is in its cooldown.
pub open spec fn spec_cooldown_message(endpoint: EndpointView, remaining_ms: u64) -> Seq<char> {
    "Endpoint '"@ + spec_endpoint_display(endpoint) + "' is in circuit breaker cooldown (retry in "@
        + spec_decimal(remaining_ms as nat) + "ms)"@
}

/// Whether an operation may be run again on a fresh connection after a connection error.
#[derive(Debug, Clone, Copy, PartialEq, Eq, Structural)]
pub enum RetryPolicy {
    /// Safe to run twice (reads, browses).
    Idempotent,
    /// Changes server state; never run twice (writes).
    NonIdempotent,
}

/// What a run of pooled work came to: `None` for success, else its error.
pub open spec fn run_outcome<T>(r: OpcResult<T>) -> Option<OpcErrorView> {
    match r {
        Ok(_) => None,
        Err(e) => Some(e@),
    }
}

/// `r` is the error `e`.
pub open spec fn fails_with<T>(r: OpcResult<T>, e: OpcErrorView) -> bool {
    r matches Err(x) && x@ == e
}

/// `r` is a connection error.
pub open spec fn fails_disconnected<T>(r: OpcResult<T>) -> bool {
    r matches Err(x) && spec_is_connection_error(x@)
}

/// Work run against a pooled connection.
pub trait PooledOperation<S: ConnectedServer> {
    /// What the work produces.
    type Output;

    /// What each run of the work so far came to, in order.
    spec fn outcomes(&self) -> Seq<Option<OpcErrorView>>;

    /// What a successful run of the work delivers.
    spec fn delivers(&self, out: Self::Output) -> bool;

    /// Whether `out` is what running the work on `pooled` gives.
    spec fn gives(&self, pooled: PooledServer<S>, out: OpcResult<Self::Output>) -> bool;

    /// Runs the work on `pooled`, naming any groups it creates from `names`.
    fn run(&mut self, pooled: &mut PooledServer<S>, names: &mut GroupNameSequence) -> (r: OpcResult<Self::Output>)
        requires
            old(pooled).wf(),
        ensures
            final(pooled).wf(),
            final(names).pid == old(names).pid,
            final(self).outcomes() == old(self).outcomes().push(run_outcome(r)),
            r matches Ok(v) ==> old(self).delivers(v),
            old(self).gives(*old(pooled), r),
            forall|v: Self::Output| #[trigger] final(self).delivers(v) == old(self).delivers(v),
            forall|p: PooledServer<S>, o: OpcResult<Self::Output>| #[trigger] final(self).gives(p, o) == old(self).gives(
                p,
                o,
            ),
    ;
}

/// The pooled server `p` as last used at `now`.
pub open spec fn touched<S: ConnectedServer>(p: PooledServer<S>, now: u64) -> PooledServer<S> {
    PooledServer { server: p.server, active_groups: p.active_groups, last_used: now }
}

/// Running `op` on `p` came to the outcome `o`.
pub open spec fn ran_to<S: ConnectedServer, O: PooledOperation<S>>(op: O, p: PooledServer<S>, o: Option<OpcErrorView>) -> bool {
    exists|x: OpcResult<O::Output>| #[trigger] op.gives(p, x) && run_outcome(x) == o
}

/// `r` is what running `op` on some newly connected server, with no cached group, gives.
pub open spec fn ran_fresh<S: ConnectedServer, O: PooledOperation<S>>(op: O, r: OpcResult<O::Output>) -> bool {
    exists|p: PooledServer<S>| p.active_groups@.len() == 0 && #[trigger] op.gives(p, r)
}

/// `s` holds a record of the same endpoint and time as `f`.
pub open spec fn holds_record(s: Seq<FailureRecord>, f: FailureRecord) -> bool {
    exists|k: int| 0 <= k < s.len() && #[trigger] s[k].endpoint@ == f.endpoint@ && s[k].failed_at_ms == f.failed_at_ms
}

/// Endpoints of a sequence of pool entries.
pub open spec fn entry_endpoints<S: ConnectedServer>(s: Seq<PoolEntry<S>>) -> Seq<EndpointView> {
    s.map_values(|e: PoolEntry<S>| e.endpoint@)
}

/// Endpoints of a sequence of failure records.
pub open spec fn record_endpoints(s: Seq<FailureRecord>) -> Seq<EndpointView> {
    s.map_values(|f: FailureRecord| f.endpoint@)
}

/// `f` copies the record at `j` (below `upto`) of `olds`, which was unexpired at `now`
/// and of an endpoint other than `ep`.
pub open spec fn kept_at(olds: Seq<FailureRecord>, f: FailureRecord, ep: EndpointView, now: u64, upto: int, j: int) -> bool {
    &&& 0 <= j < upto
    &&& j < olds.len()
    &&& olds[j].endpoint@ == f.endpoint@
    &&& olds[j].failed_at_ms == f.failed_at_ms
    &&& olds[j].endpoint@ != ep
    &&& spec_elapsed(now, olds[j].failed_at_ms) < CIRCUIT_BREAKER_COOLDOWN_MS
}

/// `f` copies one of the first `upto` records of `olds` that was unexpired at `now` and
/// of an endpoint other than `ep`.
pub open spec fn kept_record(olds: Seq<FailureRecord>, f: FailureRecord, ep: EndpointView, now: u64, upto: int) -> bool {
    exists|j: int| kept_at(olds, f, ep, now, upto, j)
}

/// Removing an element keeps the endpoints distinct.
pub proof fn lemma_unique_remove(s: Seq<EndpointView>, i: int)
    requires
        unique_endpoints(s),
        0 <= i < s.len(),
    ensures
        unique_endpoints(s.remove(i)),
        forall|x: EndpointView| s.remove(i).contains(x) ==> s.contains(x),
{
    let t = s.remove(i);
    assert forall|a: int, b: int| 0 <= a < b < t.len() implies #[trigger] t[a] != #[trigger] t[b] by {
        let a2 = if a < i { a } else { a + 1 };
        let b2 = if b < i { b } else { b + 1 };
        assert(t[a] == s[a2]);
        assert(t[b] == s[b2]);
    }
    assert forall|x: EndpointView| t.contains(x) implies s.contains(x) by {
        let k = choose|k: int| 0 <= k < t.len() && t[k] == x;
        let k2 = if k < i { k } else { k + 1 };
        assert(s[k2] == x);
    }
}

/// Appending an endpoint that does not occur keeps the endpoints distinct.
pub proof fn lemma_unique_push(s: Seq<EndpointView>, x: EndpointView)
    requires
        unique_endpoints(s),
        !s.contains(x),
    ensures
        unique_endpoints(s.push(x)),
{
    let t = s.push(x);
    assert forall|a: int, b: int| 0 <= a < b < t.len() implies #[trigger] t[a] != #[trigger] t[b] by {
        if b == s.len() {
            assert(t[a] == s[a]);
        } else {
            assert(t[a] == s[a]);
            assert(t[b] == s[b]);
        }
    }
}

/// Server connections keyed by endpoint, failure records for the circuit breaker, the
/// source of group names, and the clock the pool's times are read from.
pub struct ConnectionPool<S: ConnectedServer> {
    /// Pooled connections, least recently used first.
    pub entries: Vec<PoolEntry<S>>,
    /// Recent connection failures.
    pub failures: Vec<FailureRecord>,
    /// Source of ephemeral group names.
    pub names: GroupNameSequence,
    /// Origin of the pool clock.
    pub clock: Instant,
}

impl<S: ConnectedServer> ConnectionPool<S> {
    /// Endpoints of the pooled connections, in order.
    pub open spec fn endpoint_views(&self) -> Seq<EndpointView> {
        entry_endpoints(self.entries@)
    }

    /// Endpoints of the failure records, in order.
    pub open spec fn failure_endpoints(&self) -> Seq<EndpointView> {
        record_endpoints(self.failures@)
    }

    /// Whether a connection to `ep` is pooled.
    pub open spec fn has_connection(&self, ep: EndpointView) -> bool {
        self.endpoint_views().contains(ep)
    }

    /// Whether a failure of `ep` is recorded.
    pub open spec fn has_failure(&self, ep: EndpointView) -> bool {
        self.failure_endpoints().contains(ep)
    }

    /// Whether `ep` failed less than the cooldown before `now`.
    pub open spec fn cooldown_active(&self, ep: EndpointView, now: u64) -> bool {
        exists|i: int|
            0 <= i < self.failures@.len() && #[trigger] self.failures@[i].endpoint@ == ep
                && spec_elapsed(now, self.failures@[i].failed_at_ms) < CIRCUIT_BREAKER_COOLDOWN_MS
    }

    /// Whether a failure of `ep` is recorded as having happened at `t`.
    pub open spec fn failed_at(&self, ep: EndpointView, t: u64) -> bool {
        exists|i: int|
            0 <= i < self.failures@.len() && #[trigger] self.failures@[i].endpoint@ == ep
                && self.failures@[i].failed_at_ms == t
    }

    /// The pool's invariant: bounded sizes, one entry and one failure record per
    /// endpoint at most, and every pooled server within its group bound.
    pub open spec fn wf(&self) -> bool {
        &&& self.entries@.len() <= MAX_ACTIVE_CONNECTIONS
        &&& self.failures@.len() <= MAX_COOLDOWNS
        &&& unique_endpoints(self.endpoint_views())
        &&& unique_endpoints(self.failure_endpoints())
        &&& forall|i: int| 0 <= i < self.entries@.len() ==> (#[trigger] self.entries@[i]).pooled.wf()
    }

    /// An empty pool for process `pid`, its clock starting now.
    pub fn new(pid: u32) -> (r: Self)
        ensures
            r.wf(),
            r.entries@.len() == 0,
            r.failures@.len() == 0,
            r.names.pid == pid,
    {
        let r = ConnectionPool {
            entries: Vec::new(),
            failures: Vec::new(),
            names: GroupNameSequence::new(pid),
            clock: instant_now(),
        };
        assert(r.endpoint_views() =~= Seq::<EndpointView>::empty());
        assert(r.failure_endpoints() =~= Seq::<EndpointView>::empty());
        r
    }

    /// Number of pooled connections.
    pub fn len(&self) -> (r: usize)
        ensures
            r == self.entries@.len(),
    {
        self.entries.len()
    }

    /// Whether no connection is pooled.
    pub fn is_empty(&self) -> (r: bool)
        ensures
            r == (self.entries@.len() == 0),
    {
        self.entries.len() == 0
    }

    /// Position of the connection to `endpoint`.
    pub fn find_connection(&self, endpoint: &OpcServerEndpoint) -> (r: Option<usize>)
        ensures
            match r {
                Some(i) => i < self.entries@.len() && self.entries@[i as int].endpoint@ == endpoint@,
                None => !self.has_connection(endpoint@),
            },
    {
        let mut i: usize = 0;
        while i < self.entries.len()
            invariant
                i <= self.entries@.len(),
                forall|j: int| 0 <= j < i ==> self.entries@[j].endpoint@ != endpoint@,
            decreases self.entries@.len() - i,
        {
            if self.entries[i].endpoint.same_as(endpoint) {
                return Some(i);
            }
            i = i + 1;
        }
        assert(!self.endpoint_views().contains(endpoint@)) by {
            if self.endpoint_views().contains(endpoint@) {
                let k = choose|k: int| 0 <= k < self.endpoint_views().len() && self.endpoint_views()[k] == endpoint@;
                assert(self.entries@[k].endpoint@ == endpoint@);
            }
        }
        None
    }

    /// Position of the failure record of `endpoint`.
    pub fn find_failure(&self, endpoint: &OpcServerEndpoint) -> (r: Option<usize>)
        ensures
            match r {
                Some(i) => i < self.failures@.len() && self.failures@[i as int].endpoint@ == endpoint@,
                None => !self.has_failure(endpoint@),
            },
    {
        let mut i: usize = 0;
        while i < self.failures.len()
            invariant
                i <= self.failures@.len(),
                forall|j: int| 0 <= j < i ==> self.failures@[j].endpoint@ != endpoint@,
            decreases self.failures@.len() - i,
        {
            if self.failures[i].endpoint.same_as(endpoint) {
                return Some(i);
            }
            i = i + 1;
        }
        assert(!self.failure_endpoints().contains(endpoint@)) by {
            if self.failure_endpoints().contains(endpoint@) {
                let k = choose|k: int| 0 <= k < self.failure_endpoints().len() && self.failure_endpoints()[k] == endpoint@;
                assert(self.failures@[k].endpoint@ == endpoint@);
            }
        }
        None
    }

    /// Whether a connection to `endpoint` is pooled.
    pub fn contains(&self, endpoint: &OpcServerEndpoint) -> (r: bool)
        ensures
            r == self.has_connection(endpoint@),
    {
        match self.find_connection(endpoint) {
            Some(i) => {
                assert(self.endpoint_views()[i as int] == endpoint@);
                true
            },
            None => false,
        }
    }

    /// Takes the entry at `i` out of the pool.
    pub fn take_entry(&mut self, i: usize) -> (e: PoolEntry<S>)
        requires
            old(self).wf(),
            i < old(self).entries@.len(),
        ensures
            final(self).wf(),
            e == old(self).entries@[i as int],
            e.pooled.wf(),
            final(self).entries@ == old(self).entries@.remove(i as int),
            final(self).failures == old(self).failures,
            final(self).names == old(self).names,
            final(self).clock == old(self).clock,
            !final(self).has_connection(e.endpoint@),
            forall|x: EndpointView| final(self).has_connection(x) ==> old(self).has_connection(x),
    {
        let ghost old_views = self.endpoint_views();
        let e = self.entries.remove(i);
        proof {
            assert(entry_endpoints(self.entries@) =~= old_views.remove(i as int));
            lemma_unique_remove(old_views, i as int);
            assert(old_views[i as int] == e.endpoint@);
            if self.endpoint_views().contains(e.endpoint@) {
                let k = choose|k: int| 0 <= k < self.endpoint_views().len() && self.endpoint_views()[k] == e.endpoint@;
                let k2 = if k < i { k } else { k + 1 };
                assert(old_views[k2] == e.endpoint@);
            }
            assert forall|j: int| 0 <= j < self.entries@.len() implies (#[trigger] self.entries@[j]).pooled.wf() by {
                let j2 = if j < i { j } else { j + 1 };
                assert(self.entries@[j] == old(self).entries@[j2]);
            }
        }
        e
    }

    /// Adds an entry for an endpoint that is not pooled yet.
    pub fn insert_entry(&mut self, e: PoolEntry<S>)
        requires
            old(self).wf(),
            !old(self).has_connection(e.endpoint@),
            old(self).entries@.len() < MAX_ACTIVE_CONNECTIONS,
            e.pooled.wf(),
        ensures
            final(self).wf(),
            final(self).entries@ == old(self).entries@.push(e),
            final(self).failures == old(self).failures,
            final(self).names == old(self).names,
            final(self).clock == old(self).clock,
    {
        let ghost old_views = self.endpoint_views();
        let ghost ep = e.endpoint@;
        self.entries.push(e);
        proof {
            assert(entry_endpoints(self.entries@) =~= old_views.push(ep));
            lemma_unique_push(old_views, ep);
        }
    }

    /// Removes the connection to `endpoint` from the pool and returns it.
    pub fn remove(&mut self, endpoint: &OpcServerEndpoint) -> (r: Option<PooledServer<S>>)
        requires
            old(self).wf(),
        ensures
            final(self).wf(),
            r is Some <==> old(self).has_connection(endpoint@),
            r is None ==> *final(self) == *old(self),
            !final(self).has_connection(endpoint@),
            forall|x: EndpointView| final(self).has_connection(x) <==> (old(self).has_connection(x) && x != endpoint@),
            final(self).failures == old(self).failures,
    {
        match self.find_connection(endpoint) {
            Some(i) => {
                let ghost old_views = self.endpoint_views();
                let e = self.take_entry(i);
                proof {
                    assert(old_views[i as int] == endpoint@);
                    assert forall|x: EndpointView| old_views.contains(x) && x != endpoint@ implies self.has_connection(x) by {
                        let k = choose|k: int| 0 <= k < old_views.len() && old_views[k] == x;
                        assert(k != i);
                        let k2 = if k < i { k } else { k - 1 };
                        assert(self.endpoint_views()[k2] == x);
                    }
                }
                Some(e.pooled)
            },
            None => None,
        }
    }

    /// Removes the connection to `endpoint`, first dropping its cached groups from the
    /// server.  Returns whether a connection was pooled.
    pub fn evict(&mut self, endpoint: &OpcServerEndpoint) -> (r: bool)
        requires
            old(self).wf(),
        ensures
            final(self).wf(),
            r == old(self).has_connection(endpoint@),
            !r ==> *final(self) == *old(self),
            !final(self).has_connection(endpoint@),
            forall|x: EndpointView| final(self).has_connection(x) <==> (old(self).has_connection(x) && x != endpoint@),
            final(self).failures == old(self).failures,
    {
        match self.remove(endpoint) {
            Some(mut pooled) => {
                pooled.clear_active_groups();
                true
            },
            None => false,
        }
    }

    /// When the pool is full, evicts the least recently used connection other than
    /// `exclude` (the first one among equally old ones).
    pub fn evict_lru_connection(&mut self, exclude: &OpcServerEndpoint)
        requires
            old(self).wf(),
        ensures
            final(self).wf(),
            old(self).entries@.len() < MAX_ACTIVE_CONNECTIONS ==> *final(self) == *old(self),
            final(self).entries@.len() < MAX_ACTIVE_CONNECTIONS,
            old(self).entries@.len() >= MAX_ACTIVE_CONNECTIONS ==> exists|i: int|
                0 <= i < old(self).entries@.len() && old(self).entries@[i].endpoint@ != exclude@
                    && final(self).entries@ == old(self).entries@.remove(i)
                    && forall|j: int|
                        0 <= j < old(self).entries@.len() && old(self).entries@[j].endpoint@ != exclude@
                            ==> (#[trigger] old(self).entries@[j]).pooled.last_used
                            >= old(self).entries@[i].pooled.last_used,
            forall|x: EndpointView| final(self).has_connection(x) ==> old(self).has_connection(x),
            old(self).has_connection(exclude@) ==> final(self).has_connection(exclude@),
            final(self).failures == old(self).failures,
            final(self).names == old(self).names,
            final(self).clock == old(self).clock,
    {
        if self.entries.len() < MAX_ACTIVE_CONNECTIONS {
            return;
        }
        let mut best: Option<usize> = None;
        let mut i: usize = 0;
        while i < self.entries.len()
            invariant
                i <= self.entries@.len(),
                match best {
                    Some(b) => b < i && self.entries@[b as int].endpoint@ != exclude@
                        && forall|j: int|
                            0 <= j < i && self.entries@[j].endpoint@ != exclude@
                                ==> (#[trigger] self.entries@[j]).pooled.last_used
                                >= self.entries@[b as int].pooled.last_used,
                    None => forall|j: int| 0 <= j < i ==> (#[trigger] self.entries@[j]).endpoint@ == exclude@,
                },
            decreases self.entries@.len() - i,
        {
            if !self.entries[i].endpoint.same_as(exclude) {
                match best {
                    Some(b) => {
                        if self.entries[i].pooled.last_used < self.entries[b].pooled.last_used {
                            best = Some(i);
                        }
                    },
                    None => {
                        best = Some(i);
                    },
                }
            }
            i = i + 1;
        }
        match best {
            Some(b) => {
                let ghost old_views = self.endpoint_views();
                let mut e = self.take_entry(b);
                e.pooled.clear_active_groups();
                proof {
                    if old_views.contains(exclude@) {
                        let k = choose|k: int| 0 <= k < old_views.len() && old_views[k] == exclude@;
                        assert(k != b);
                        let k2 = if k < b { k } else { k - 1 };
                        assert(self.endpoint_views()[k2] == exclude@);
                    }
                }
            },
            None => {
                proof {
                    assert(self.entries@[0].endpoint@ == exclude@);
                    assert(self.entries@[1].endpoint@ == exclude@);
                    assert(self.endpoint_views()[0] == self.endpoint_views()[1]);
                }
            },
        }
    }

    /// Drops every connection (clearing their cached groups) and every failure record.
    pub fn clear(&mut self)
        ensures
            final(self).wf(),
            final(self).entries@.len() == 0,
            final(self).failures@.len() == 0,
            final(self).names == old(self).names,
            final(self).clock == old(self).clock,
    {
        while self.entries.len() > 0
            invariant
                self.names == old(self).names,
                self.clock == old(self).clock,
            decreases self.entries@.len(),
        {
            let mut e = self.entries.remove(0);
            e.pooled.clear_active_groups();
        }
        self.failures = Vec::new();
        proof {
            assert(self.endpoint_views() =~= Seq::<EndpointView>::empty());
            assert(self.failure_endpoints() =~= Seq::<EndpointView>::empty());
        }
    }

    /// Records that `endpoint` failed at `now_ms`: expired records and an earlier record
    /// of the same endpoint are dropped, and when the records are still at capacity the
    /// oldest one is dropped too; the new record comes last.
    pub fn record_failure(&mut self, endpoint: &OpcServerEndpoint, now_ms: u64)
        requires
            old(self).wf(),
        ensures
            final(self).wf(),
            final(self).entries == old(self).entries,
            final(self).names == old(self).names,
            final(self).clock == old(self).clock,
            final(self).failures@.len() >= 1,
            final(self).failures@.last().endpoint@ == endpoint@,
            final(self).failures@.last().failed_at_ms == now_ms,
            forall|k: int|
                0 <= k < final(self).failures@.len() - 1 ==> kept_record(
                    old(self).failures@,
                    #[trigger] final(self).failures@[k],
                    endpoint@,
                    now_ms,
                    old(self).failures@.len() as int,
                ),
            forall|j: int|
                0 <= j < old(self).failures@.len() && old(self).failures@.len() < MAX_COOLDOWNS
                    && (#[trigger] old(self).failures@[j]).endpoint@ != endpoint@ && spec_elapsed(
                    now_ms,
                    old(self).failures@[j].failed_at_ms,
                ) < CIRCUIT_BREAKER_COOLDOWN_MS ==> holds_record(final(self).failures@, old(self).failures@[j]),
            old(self).failures@.len() < MAX_COOLDOWNS ==> forall|x: EndpointView|
                x != endpoint@ && #[trigger] old(self).cooldown_active(x, now_ms) ==> final(self).cooldown_active(x, now_ms),
            forall|j: int|
                0 <= j < old(self).failures@.len() && (#[trigger] old(self).failures@[j]).endpoint@ != endpoint@ && spec_elapsed(
                    now_ms,
                    old(self).failures@[j].failed_at_ms,
                ) < CIRCUIT_BREAKER_COOLDOWN_MS && !holds_record(final(self).failures@, old(self).failures@[j]) ==> forall|k: int|
                    0 <= k < final(self).failures@.len() - 1 ==> old(self).failures@[j].failed_at_ms
                        <= #[trigger] final(self).failures@[k].failed_at_ms,
    {
        let mut kept: Vec<FailureRecord> = Vec::new();
        let mut i: usize = 0;
        while i < self.failures.len()
            invariant
                self.wf(),
                self == old(self),
                i <= self.failures@.len(),
                kept@.len() <= i,
                unique_endpoints(record_endpoints(kept@)),
                forall|k: int|
                    0 <= k < kept@.len() ==> kept_record(self.failures@, #[trigger] kept@[k], endpoint@, now_ms, i as int),
                !record_endpoints(kept@).contains(endpoint@),
                forall|j: int|
                    0 <= j < i && (#[trigger] self.failures@[j]).endpoint@ != endpoint@ && spec_elapsed(
                        now_ms,
                        self.failures@[j].failed_at_ms,
                    ) < CIRCUIT_BREAKER_COOLDOWN_MS ==> holds_record(kept@, self.failures@[j]),
            decreases self.failures@.len() - i,
        {
            let f = &self.failures[i];
            let elapsed: u64 = if now_ms >= f.failed_at_ms { now_ms - f.failed_at_ms } else { 0 };
            if elapsed < CIRCUIT_BREAKER_COOLDOWN_MS && !f.endpoint.same_as(endpoint) {
                let ghost before = record_endpoints(kept@);
                let ghost x = f.endpoint@;
                proof {
                    if before.contains(x) {
                        let k = choose|k: int| 0 <= k < before.len() && before[k] == x;
                        assert(kept@[k].endpoint@ == x);
                        assert(kept_record(self.failures@, kept@[k], endpoint@, now_ms, i as int));
                        let j = choose|j: int| kept_at(self.failures@, kept@[k], endpoint@, now_ms, i as int, j);
                        assert(self.failure_endpoints()[j] == self.failure_endpoints()[i as int]);
                    }
                }
                let ghost kept0 = kept@;
                kept.push(FailureRecord { endpoint: f.endpoint.duplicate(), failed_at_ms: f.failed_at_ms });
                proof {
                    assert forall|j: int|
                        0 <= j < i + 1 && (#[trigger] self.failures@[j]).endpoint@ != endpoint@ && spec_elapsed(
                            now_ms,
                            self.failures@[j].failed_at_ms,
                        ) < CIRCUIT_BREAKER_COOLDOWN_MS implies holds_record(kept@, self.failures@[j]) by {
                        if j < i {
                            let k = choose|k: int|
                                0 <= k < kept0.len() && #[trigger] kept0[k].endpoint@ == self.failures@[j].endpoint@
                                    && kept0[k].failed_at_ms == self.failures@[j].failed_at_ms;
                            assert(kept@[k] == kept0[k]);
                        } else {
                            assert(kept@[kept0.len() as int].endpoint@ == self.failures@[j].endpoint@);
                        }
                    }
                    assert(record_endpoints(kept@) =~= before.push(x));
                    lemma_unique_push(before, x);
                    assert forall|k: int| 0 <= k < kept@.len() implies kept_record(
                        self.failures@,
                        #[trigger] kept@[k],
                        endpoint@,
                        now_ms,
                        i + 1,
                    ) by {
                        if k == kept@.len() - 1 {
                            assert(kept_at(self.failures@, kept@[k], endpoint@, now_ms, i + 1, i as int));
                        } else {
                            assert(kept_record(self.failures@, kept@[k], endpoint@, now_ms, i as int));
                            let j = choose|j: int| kept_at(self.failures@, kept@[k], endpoint@, now_ms, i as int, j);
                            assert(kept_at(self.failures@, kept@[k], endpoint@, now_ms, i + 1, j));
                        }
                    }
                    if record_endpoints(kept@).contains(endpoint@) {
                        let k = choose|k: int| 0 <= k < kept@.len() && record_endpoints(kept@)[k] == endpoint@;
                        if k < kept@.len() - 1 {
                            assert(before[k] == endpoint@);
                        }
                    }
                }
            } else {
                proof {
                    assert forall|k: int| 0 <= k < kept@.len() implies kept_record(
                        self.failures@,
                        #[trigger] kept@[k],
                        endpoint@,
                        now_ms,
                        i + 1,
                    ) by {
                        assert(kept_record(self.failures@, kept@[k], endpoint@, now_ms, i as int));
                        let j = choose|j: int| kept_at(self.failures@, kept@[k], endpoint@, now_ms, i as int, j);
                        assert(kept_at(self.failures@, kept@[k], endpoint@, now_ms, i + 1, j));
                    }
                }
            }
            i = i + 1;
        }
        if kept.len() >= MAX_COOLDOWNS {
            let mut oldest: usize = 0;
            let mut k: usize = 1;
            while k < kept.len()
                invariant
                    oldest < kept@.len(),
                    1 <= k <= kept@.len(),
                    forall|m: int| 0 <= m < k ==> kept@[oldest as int].failed_at_ms <= #[trigger] kept@[m].failed_at_ms,
                decreases kept@.len() - k,
            {
                if kept[k].failed_at_ms < kept[oldest].failed_at_ms {
                    oldest = k;
                }
                k = k + 1;
            }
            let ghost before = kept@;
            let _ = kept.remove(oldest);
            proof {
                assert forall|j: int|
                    0 <= j < old(self).failures@.len() && (#[trigger] old(self).failures@[j]).endpoint@ != endpoint@
                        && spec_elapsed(now_ms, old(self).failures@[j].failed_at_ms) < CIRCUIT_BREAKER_COOLDOWN_MS
                        && !holds_record(kept@, old(self).failures@[j]) implies forall|k2: int|
                    0 <= k2 < kept@.len() ==> old(self).failures@[j].failed_at_ms <= #[trigger] kept@[k2].failed_at_ms by {
                    let m = choose|m: int|
                        0 <= m < before.len() && #[trigger] before[m].endpoint@ == old(self).failures@[j].endpoint@
                            && before[m].failed_at_ms == old(self).failures@[j].failed_at_ms;
                    if m != oldest {
                        let m2 = if m < oldest { m } else { m - 1 };
                        assert(kept@[m2] == before[m]);
                    }
                    assert forall|k2: int| 0 <= k2 < kept@.len() implies old(self).failures@[j].failed_at_ms
                        <= #[trigger] kept@[k2].failed_at_ms by {
                        let k3 = if k2 < oldest { k2 } else { k2 + 1 };
                        assert(kept@[k2] == before[k3]);
                    }
                }
                assert(record_endpoints(kept@) =~= record_endpoints(before).remove(oldest as int));
                lemma_unique_remove(record_endpoints(before), oldest as int);
                assert forall|k2: int| 0 <= k2 < kept@.len() implies kept_record(
                    old(self).failures@,
                    #[trigger] kept@[k2],
                    endpoint@,
                    now_ms,
                    old(self).failures@.len() as int,
                ) by {
                    let k3 = if k2 < oldest { k2 } else { k2 + 1 };
                    assert(kept@[k2] == before[k3]);
                }
                if record_endpoints(kept@).contains(endpoint@) {
                    let k4 = choose|k4: int| 0 <= k4 < kept@.len() && record_endpoints(kept@)[k4] == endpoint@;
                    let k5 = if k4 < oldest { k4 } else { k4 + 1 };
                    assert(record_endpoints(before)[k5] == endpoint@);
                }
            }
        }
        let ghost before = kept@;
        kept.push(FailureRecord { endpoint: endpoint.duplicate(), failed_at_ms: now_ms });
        proof {
            assert forall|j: int|
                0 <= j < old(self).failures@.len() && (#[trigger] old(self).failures@[j]).endpoint@ != endpoint@
                    && spec_elapsed(now_ms, old(self).failures@[j].failed_at_ms) < CIRCUIT_BREAKER_COOLDOWN_MS
                    && !holds_record(kept@, old(self).failures@[j]) implies forall|k: int|
                0 <= k < kept@.len() - 1 ==> old(self).failures@[j].failed_at_ms <= #[trigger] kept@[k].failed_at_ms by {
                if holds_record(before, old(self).failures@[j]) {
                    let m = choose|m: int|
                        0 <= m < before.len() && #[trigger] before[m].endpoint@ == old(self).failures@[j].endpoint@
                            && before[m].failed_at_ms == old(self).failures@[j].failed_at_ms;
                    assert(kept@[m] == before[m]);
                }
                assert forall|k: int| 0 <= k < kept@.len() - 1 implies old(self).failures@[j].failed_at_ms
                    <= #[trigger] kept@[k].failed_at_ms by {
                    assert(kept@[k] == before[k]);
                }
            }
            if old(self).failures@.len() < MAX_COOLDOWNS {
                assert forall|j: int|
                    0 <= j < old(self).failures@.len() && (#[trigger] old(self).failures@[j]).endpoint@ != endpoint@
                        && spec_elapsed(now_ms, old(self).failures@[j].failed_at_ms) < CIRCUIT_BREAKER_COOLDOWN_MS implies holds_record(
                    kept@,
                    old(self).failures@[j],
                ) by {
                    let k = choose|k: int|
                        0 <= k < before.len() && #[trigger] before[k].endpoint@ == old(self).failures@[j].endpoint@
                            && before[k].failed_at_ms == old(self).failures@[j].failed_at_ms;
                    assert(kept@[k] == before[k]);
                }
                assert forall|x: EndpointView| x != endpoint@ && #[trigger] old(self).cooldown_active(x, now_ms) implies exists|i: int|
                    0 <= i < kept@.len() && #[trigger] kept@[i].endpoint@ == x && spec_elapsed(now_ms, kept@[i].failed_at_ms)
                        < CIRCUIT_BREAKER_COOLDOWN_MS by {
                    let j = choose|j: int|
                        0 <= j < old(self).failures@.len() && #[trigger] old(self).failures@[j].endpoint@ == x && spec_elapsed(
                            now_ms,
                            old(self).failures@[j].failed_at_ms,
                        ) < CIRCUIT_BREAKER_COOLDOWN_MS;
                    assert(holds_record(kept@, old(self).failures@[j]));
                    let k = choose|k: int|
                        0 <= k < kept@.len() && #[trigger] kept@[k].endpoint@ == old(self).failures@[j].endpoint@
                            && kept@[k].failed_at_ms == old(self).failures@[j].failed_at_ms;
                    assert(kept@[k].endpoint@ == x);
                }
            }
            assert(record_endpoints(kept@) =~= record_endpoints(before).push(endpoint@));
            lemma_unique_push(record_endpoints(before), endpoint@);
            assert forall|k2: int| 0 <= k2 < kept@.len() - 1 implies kept_record(
                old(self).failures@,
                #[trigger] kept@[k2],
                endpoint@,
                now_ms,
                old(self).failures@.len() as int,
            ) by {
                assert(kept@[k2] == before[k2]);
            }
        }
        self.failures = kept;
    }

    /// Consults the circuit breaker for `endpoint` at `now_ms`: within the cooldown of a
    /// recorded failure the error to return is given and nothing changes; otherwise an
    /// expired record of the endpoint is dropped and `None` is returned.
    pub fn check_cooldown(&mut self, endpoint: &OpcServerEndpoint, now_ms: u64) -> (r: Option<OpcError>)
        requires
            old(self).wf(),
        ensures
            final(self).wf(),
            final(self).entries == old(self).entries,
            final(self).names == old(self).names,
            final(self).clock == old(self).clock,
            old(self).cooldown_active(endpoint@, now_ms) ==> {
                &&& *final(self) == *old(self)
                &&& exists|i: int|
                    0 <= i < old(self).failures@.len() && #[trigger] old(self).failures@[i].endpoint@ == endpoint@
                        && (r matches Some(e) && e@ == OpcErrorOf::<Seq<char>>::Connection(spec_cooldown_message(
                            endpoint@,
                            (CIRCUIT_BREAKER_COOLDOWN_MS - spec_elapsed(now_ms, old(self).failures@[i].failed_at_ms)) as u64,
                        )))
            },
            !old(self).cooldown_active(endpoint@, now_ms) ==> {
                &&& r is None
                &&& !final(self).has_failure(endpoint@)
                &&& forall|x: EndpointView| final(self).has_failure(x) <==> (old(self).has_failure(x) && x != endpoint@)
            },
            final(self).failures@.len() <= old(self).failures@.len(),
            forall|x: EndpointView|
                x != endpoint@ && #[trigger] old(self).cooldown_active(x, now_ms) ==> final(self).cooldown_active(x, now_ms),
    {
        match self.find_failure(endpoint) {
            Some(i) => {
                let t = self.failures[i].failed_at_ms;
                let elapsed: u64 = if now_ms >= t { now_ms - t } else { 0 };
                if elapsed < CIRCUIT_BREAKER_COOLDOWN_MS {
                    let msg = cooldown_message(endpoint, CIRCUIT_BREAKER_COOLDOWN_MS - elapsed);
                    proof {
                        assert(self.failures@[i as int].endpoint@ == endpoint@);
                    }
                    Some(OpcErrorOf::Connection(msg))
                } else {
                    let ghost olds = self.failure_endpoints();
                    proof {
                        assert forall|j: int| 0 <= j < self.failures@.len() && #[trigger] self.failures@[j].endpoint@ == endpoint@
                            implies spec_elapsed(now_ms, self.failures@[j].failed_at_ms) >= CIRCUIT_BREAKER_COOLDOWN_MS by {
                            if j != i {
                                assert(olds[j] == olds[i as int]);
                            }
                        }
                    }
                    let _ = self.failures.remove(i);
                    proof {
                        assert(self.failure_endpoints() =~= olds.remove(i as int));
                        lemma_unique_remove(olds, i as int);
                        assert(olds[i as int] == endpoint@);
                        if self.failure_endpoints().contains(endpoint@) {
                            let k = choose|k: int| 0 <= k < self.failure_endpoints().len() && self.failure_endpoints()[k] == endpoint@;
                            let k2 = if k < i { k } else { k + 1 };
                            assert(olds[k2] == endpoint@);
                        }
                        assert forall|x: EndpointView| x != endpoint@ && #[trigger] old(self).cooldown_active(x, now_ms) implies self.cooldown_active(
                            x,
                            now_ms,
                        ) by {
                            let j = choose|j: int|
                                0 <= j < old(self).failures@.len() && #[trigger] old(self).failures@[j].endpoint@ == x
                                    && spec_elapsed(now_ms, old(self).failures@[j].failed_at_ms) < CIRCUIT_BREAKER_COOLDOWN_MS;
                            assert(j != i);
                            let j2 = if j < i { j } else { j - 1 };
                            assert(self.failures@[j2] == old(self).failures@[j]);
                        }
                        assert forall|x: EndpointView| olds.contains(x) && x != endpoint@ implies self.has_failure(x) by {
                            let k = choose|k: int| 0 <= k < olds.len() && olds[k] == x;
                            let k2 = if k < i { k } else { k - 1 };
                            assert(self.failure_endpoints()[k2] == x);
                        }
                    }
                    None
                }
            },
            None => {
                proof {
                    assert forall|j: int| 0 <= j < self.failures@.len() implies #[trigger] self.failures@[j].endpoint@ != endpoint@ by {
                        assert(self.failure_endpoints()[j] == self.failures@[j].endpoint@);
                    }
                }
                None
            },
        }
    }
}

/// The circuit breaker's two phases: after a failure of `ep` recorded at `t`, the
/// breaker is open for `ep` from `t` until the cooldown has passed (so a dispatch to `ep`
/// then fails at once, without running its operation and leaving the pool unchanged),
/// and closed again from then on.
pub proof fn lemma_breaker_phases<S: ConnectedServer>(pool: ConnectionPool<S>, ep: EndpointView, t: u64, now: u64)
    requires
        pool.wf(),
        pool.failed_at(ep, t),
        t <= now,
    ensures
        now - t < CIRCUIT_BREAKER_COOLDOWN_MS ==> pool.cooldown_active(ep, now),
        now - t >= CIRCUIT_BREAKER_COOLDOWN_MS ==> !pool.cooldown_active(ep, now),
{
    let i = choose|i: int|
        0 <= i < pool.failures@.len() && #[trigger] pool.failures@[i].endpoint@ == ep && pool.failures@[i].failed_at_ms == t;
    if now - t >= CIRCUIT_BREAKER_COOLDOWN_MS {
        if pool.cooldown_active(ep, now) {
            let j = choose|j: int|
                0 <= j < pool.failures@.len() && #[trigger] pool.failures@[j].endpoint@ == ep
                    && spec_elapsed(now, pool.failures@[j].failed_at_ms) < CIRCUIT_BREAKER_COOLDOWN_MS;
            if i != j {
                let (a, b) = if i < j { (i, j) } else { (j, i) };
                assert(pool.failure_endpoints()[a] == pool.failure_endpoints()[b]);
            }
        }
    } else {
        assert(pool.failures@[i].endpoint@ == ep);
    }
}

/// Builds the message of the cooldown error.
pub fn cooldown_message(endpoint: &OpcServerEndpoint, remaining_ms: u64) -> (r: String)
    ensures
        r@ == spec_cooldown_message(endpoint@, remaining_ms),
{
    let ep = endpoint.display();
    let rem = u64_to_string(remaining_ms);
    let a = concat_str("Endpoint '", ep.as_str());
    let b = a.concat("' is in circuit breaker cooldown (retry in ");
    let c = b.concat(rem.as_str());
    let d = c.concat("ms)");
    proof {
        reveal_strlit("Endpoint '");
        reveal_strlit("' is in circuit breaker cooldown (retry in ");
        reveal_strlit("ms)");
    }
    d
}

/// What follows the first run (at position `n` of `outcomes`) of pooled work: success
/// keeps the connection and is returned; an error other than a connection error keeps
/// the connection and is returned; a connection error drops the connection and, for
/// non-idempotent work, is returned as is.  Idempotent work is then run once more on a
/// fresh connection, whose outcome is returned (the connection kept unless it failed with
/// a connection error, which is recorded); when no fresh connection can be made, its
/// error is returned (recorded when a connection error).  `reconnects` is whether the
/// connector makes that fresh connection.
pub open spec fn dispatch_after_first<T>(
    policy: RetryPolicy,
    outcomes: Seq<Option<OpcErrorView>>,
    n: int,
    r: OpcResult<T>,
    pooled: bool,
    failed: bool,
    reconnects: bool,
) -> bool {
    match outcomes[n] {
        None => r is Ok && outcomes.len() == n + 1 && pooled && !failed,
        Some(e) => if !spec_is_connection_error(e) {
            fails_with(r, e) && outcomes.len() == n + 1 && pooled && !failed
        } else if policy == RetryPolicy::NonIdempotent {
            fails_with(r, e) && outcomes.len() == n + 1 && !pooled && !failed
        } else if !reconnects {
            outcomes.len() == n + 1 && r is Err && !pooled && failed == fails_disconnected(r)
        } else {
            &&& outcomes.len() == n + 2
            &&& match outcomes[n + 1] {
                None => r is Ok && pooled && !failed,
                Some(e2) => fails_with(r, e2) && failed == spec_is_connection_error(e2) && pooled
                    == !spec_is_connection_error(e2),
            }
        },
    }
}

/// Whether work whose first run is at position `n` of `outcomes` is run again: it is
/// idempotent and that run failed with a connection error.
pub open spec fn retried(policy: RetryPolicy, outcomes: Seq<Option<OpcErrorView>>, n: int) -> bool {
    policy == RetryPolicy::Idempotent && (outcomes[n] matches Some(e) && spec_is_connection_error(e))
}

/// Runs `operation` on the pooled connection to `endpoint` at pool time `now_ms`.
///
/// Within the cooldown of a recorded connection failure the call fails at once.  Else
/// the pooled connection is used, or a new one is made (evicting the least recently
/// used connection when the pool is full).  When the operation fails with a connection
/// error the stale connection is evicted; an idempotent operation is then run once more
/// on a fresh connection.  Connection errors while connecting, or of the retried
/// operation, are recorded for the circuit breaker.
pub fn dispatch_with_retry<C: ServerConnector, O: PooledOperation<C::Server>>(
    pool: &mut ConnectionPool<C::Server>,
    connector: &mut C,
    endpoint: &OpcServerEndpoint,
    retry_policy: RetryPolicy,
    operation: &mut O,
    now_ms: u64,
) -> (r: OpcResult<O::Output>)
    requires
        old(pool).wf(),
    ensures
        final(pool).wf(),
        final(pool).clock == old(pool).clock,
        final(pool).names.pid == old(pool).names.pid,
        old(pool).cooldown_active(endpoint@, now_ms) ==> {
            &&& *final(pool) == *old(pool)
            &&& exists|i: int|
                0 <= i < old(pool).failures@.len() && #[trigger] old(pool).failures@[i].endpoint@ == endpoint@
                    && (r matches Err(e) && e@ == OpcErrorOf::<Seq<char>>::Connection(spec_cooldown_message(
                    endpoint@,
                    (CIRCUIT_BREAKER_COOLDOWN_MS - spec_elapsed(now_ms, old(pool).failures@[i].failed_at_ms)) as u64,
                )))
        },
        r is Ok ==> final(pool).has_connection(endpoint@),
        r matches Ok(v) ==> old(operation).delivers(v),
        final(operation).outcomes().len() <= old(operation).outcomes().len() + 2,
        final(operation).outcomes().subrange(0, old(operation).outcomes().len() as int) == old(operation).outcomes(),
        retry_policy == RetryPolicy::NonIdempotent ==> final(operation).outcomes().len() <= old(operation).outcomes().len() + 1,
        old(pool).cooldown_active(endpoint@, now_ms) ==> {
            &&& final(operation).outcomes() == old(operation).outcomes()
            &&& *final(connector) == *old(connector)
        },
        !old(pool).cooldown_active(endpoint@, now_ms) && old(pool).has_connection(endpoint@) ==> final(operation).outcomes().len()
            > old(operation).outcomes().len(),
        !old(pool).cooldown_active(endpoint@, now_ms) && final(operation).outcomes().len()
            == old(operation).outcomes().len() ==> {
            &&& r is Err
            &&& !old(pool).has_connection(endpoint@)
            &&& !final(pool).has_connection(endpoint@)
            &&& final(pool).has_failure(endpoint@) == fails_disconnected(r)
        },
        !old(pool).cooldown_active(endpoint@, now_ms) && final(operation).outcomes().len() > old(operation).outcomes().len()
            ==> dispatch_after_first(
            retry_policy,
            final(operation).outcomes(),
            old(operation).outcomes().len() as int,
            r,
            final(pool).has_connection(endpoint@),
            final(pool).has_failure(endpoint@),
            old(connector).connects(endpoint@),
        ),
        !old(pool).cooldown_active(endpoint@, now_ms) && !old(pool).has_connection(endpoint@) && old(connector).connects(
            endpoint@,
        ) ==> final(operation).outcomes().len() > old(operation).outcomes().len(),
        !old(pool).cooldown_active(endpoint@, now_ms) && old(pool).has_connection(endpoint@) && !retried(
            retry_policy,
            final(operation).outcomes(),
            old(operation).outcomes().len() as int,
        ) ==> *final(connector) == *old(connector),
        !old(pool).cooldown_active(endpoint@, now_ms) && old(pool).has_connection(endpoint@) && final(pool).has_connection(
            endpoint@,
        ) ==> final(pool).entries@.len() == old(pool).entries@.len(),
        !old(pool).cooldown_active(endpoint@, now_ms) && old(pool).has_connection(endpoint@) && !final(pool).has_connection(
            endpoint@,
        ) ==> final(pool).entries@.len() + 1 == old(pool).entries@.len(),
        old(pool).failures@.len() < MAX_COOLDOWNS ==> forall|x: EndpointView|
            x != endpoint@ && #[trigger] old(pool).cooldown_active(x, now_ms) ==> final(pool).cooldown_active(x, now_ms),
        !old(pool).cooldown_active(endpoint@, now_ms) && final(pool).has_failure(endpoint@) ==> (r matches Err(e)
            && spec_is_connection_error(e@)),
        !old(pool).cooldown_active(endpoint@, now_ms) && final(pool).has_failure(endpoint@) ==> final(pool).failed_at(
            endpoint@,
            now_ms,
        ),
        forall|x: EndpointView| x != endpoint@ && final(pool).has_connection(x) ==> old(pool).has_connection(x),
        !old(pool).cooldown_active(endpoint@, now_ms) && old(pool).has_connection(endpoint@)
            ==> final(connector).connect_calls() == old(connector).connect_calls() + if retried(
            retry_policy,
            final(operation).outcomes(),
            old(operation).outcomes().len() as int,
        ) {
            1int
        } else {
            0int
        },
        !old(pool).cooldown_active(endpoint@, now_ms) && !old(pool).has_connection(endpoint@)
            ==> final(connector).connect_calls() == old(connector).connect_calls() + if final(operation).outcomes().len()
            > old(operation).outcomes().len() && retried(
            retry_policy,
            final(operation).outcomes(),
            old(operation).outcomes().len() as int,
        ) {
            2int
        } else {
            1int
        },
        forall|i: int|
            !old(pool).cooldown_active(endpoint@, now_ms) && 0 <= i < old(pool).entries@.len()
                && #[trigger] old(pool).entries@[i].endpoint@ == endpoint@ ==> {
                &&& ran_to(
                    *old(operation),
                    touched(old(pool).entries@[i].pooled, now_ms),
                    final(operation).outcomes()[old(operation).outcomes().len() as int],
                )
                &&& !retried(retry_policy, final(operation).outcomes(), old(operation).outcomes().len() as int)
                    ==> old(operation).gives(touched(old(pool).entries@[i].pooled, now_ms), r)
            },
        !old(pool).cooldown_active(endpoint@, now_ms) && final(operation).outcomes().len() == old(operation).outcomes().len()
            + 2 ==> ran_fresh::<C::Server, O>(*old(operation), r),
        !old(pool).cooldown_active(endpoint@, now_ms) && !old(pool).has_connection(endpoint@) && old(connector).connects(
            endpoint@,
        ) ==> ran_fresh::<C::Server, O>(*old(operation), r),
        !old(pool).cooldown_active(endpoint@, now_ms) && !old(pool).has_connection(endpoint@) 
            && final(operation).outcomes().len() == old(operation).outcomes().len() + 1 && !retried(
            retry_policy,
            final(operation).outcomes(),
            old(operation).outcomes().len() as int,
        ) ==> ran_fresh::<C::Server, O>(*old(operation), r),
{
    let ghost op0 = *operation;
    match pool.check_cooldown(endpoint, now_ms) {
        Some(e) => return Err(e),
        None => {},
    }
    let ghost p0 = *pool;
    assert(!p0.has_failure(endpoint@));
    let ghost mut found: Option<int> = None;
    let mut entry = match pool.find_connection(endpoint) {
        Some(i) => {
            let mut e = pool.take_entry(i);
            e.pooled.last_used = now_ms;
            proof {
                found = Some(i as int);
                assert(p0.endpoint_views()[i as int] == endpoint@);
                assert(p0.has_connection(endpoint@));
                assert(e.pooled == touched(p0.entries@[i as int].pooled, now_ms));
                assert forall|j: int| 0 <= j < p0.entries@.len() && #[trigger] p0.entries@[j].endpoint@ == endpoint@ implies j
                    == i by {
                    assert(p0.endpoint_views()[j] == p0.entries@[j].endpoint@);
                    assert(p0.endpoint_views()[i as int] == p0.entries@[i as int].endpoint@);
                }
            }
            e
        },
        None => {
            proof {
                assert forall|j: int| 0 <= j < p0.entries@.len() implies #[trigger] p0.entries@[j].endpoint@ != endpoint@ by {
                    assert(p0.endpoint_views()[j] == p0.entries@[j].endpoint@);
                }
            }
            pool.evict_lru_connection(endpoint);
            match connector.connect_endpoint(endpoint) {
                Ok(server) => PoolEntry { endpoint: endpoint.duplicate(), pooled: PooledServer::new(server, now_ms) },
                Err(e) => {
                    let ghost p1 = *pool;
                    if e.is_connection_error() {
                        pool.record_failure(endpoint, now_ms);
                        assert(pool.failures@[pool.failures@.len() - 1].endpoint@ == endpoint@);
                    }
                    proof {
                        if spec_is_connection_error(e@) {
                            assert(pool.failure_endpoints()[pool.failure_endpoints().len() - 1] == endpoint@);
                        } else {
                            assert(pool.failures == p0.failures);
                        }
                        assert(pool.entries == p1.entries);
                        assert forall|x: EndpointView| x != endpoint@ && pool.has_connection(x) implies old(pool).has_connection(x) by {
                            assert(p1.has_connection(x));
                            assert(p0.has_connection(x));
                        }
                    }
                    return Err(e);
                },
            }
        },
    };
    let ghost p2 = *pool;
    assert(forall|x: EndpointView| p2.has_connection(x) ==> p0.has_connection(x));
    assert(entry.endpoint@ == endpoint@);
    let ghost run_on = entry.pooled;
    assert(found is None ==> run_on.active_groups@.len() == 0);
    let first = operation.run(&mut entry.pooled, &mut pool.names);
    assert(op0.gives(run_on, first));
    assert(run_outcome(first) == operation.outcomes()[op0.outcomes().len() as int]);
    let ghost outcomes1 = operation.outcomes();
    assert(ran_to(op0, run_on, outcomes1[op0.outcomes().len() as int]));
    match first {
        Ok(v) => {
            assert(op0.gives(run_on, Ok::<O::Output, OpcError>(v)));
            assert(found is None ==> ran_fresh::<C::Server, O>(op0, Ok::<O::Output, OpcError>(v)));
            pool.insert_entry(entry);
            proof {
                assert(pool.endpoint_views() =~= p2.endpoint_views().push(endpoint@));
                assert(pool.endpoint_views()[pool.endpoint_views().len() - 1] == endpoint@);
                assert forall|x: EndpointView| x != endpoint@ && pool.has_connection(x) implies old(pool).has_connection(x) by {
                    let k = choose|k: int| 0 <= k < pool.endpoint_views().len() && pool.endpoint_views()[k] == x;
                    assert(k < pool.endpoint_views().len() - 1);
                    assert(p2.endpoint_views()[k] == x);
                    assert(p2.has_connection(x));
                }
            }
            Ok(v)
        },
        Err(e) => {
            assert(op0.gives(run_on, Err::<O::Output, OpcError>(e)));
            assert(found is None ==> ran_fresh::<C::Server, O>(op0, Err::<O::Output, OpcError>(e)));
            if !e.is_connection_error() {
                pool.insert_entry(entry);
                proof {
                    assert(pool.failures == p0.failures);
                    assert(pool.endpoint_views()[pool.endpoint_views().len() - 1] == endpoint@);
                    assert(pool.endpoint_views() =~= p2.endpoint_views().push(endpoint@));
                    assert forall|x: EndpointView| x != endpoint@ && pool.has_connection(x) implies old(pool).has_connection(x) by {
                        let k = choose|k: int| 0 <= k < pool.endpoint_views().len() && pool.endpoint_views()[k] == x;
                        assert(k < pool.endpoint_views().len() - 1);
                        assert(p2.endpoint_views()[k] == x);
                        assert(p2.has_connection(x));
                    }
                }
                return Err(e);
            }
            entry.pooled.clear_active_groups();
            if retry_policy == RetryPolicy::NonIdempotent {
                proof {
                    assert forall|x: EndpointView| x != endpoint@ && pool.has_connection(x) implies old(pool).has_connection(x) by {
                        assert(p2.has_connection(x));
                    }
                }
                return Err(e);
            }
            let fresh = match connector.connect_endpoint(endpoint) {
                Ok(server) => server,
                Err(connect_e) => {
                    if connect_e.is_connection_error() {
                        pool.record_failure(endpoint, now_ms);
                        assert(pool.failures@[pool.failures@.len() - 1].endpoint@ == endpoint@);
                    }
                    proof {
                        if spec_is_connection_error(connect_e@) {
                            assert(pool.failure_endpoints()[pool.failure_endpoints().len() - 1] == endpoint@);
                        } else {
                            assert(pool.failures == p0.failures);
                        }
                        assert forall|x: EndpointView| x != endpoint@ && pool.has_connection(x) implies old(pool).has_connection(x) by {
                            assert(p2.has_connection(x));
                        }
                    }
                    return Err(connect_e);
                },
            };
            let mut fresh_entry = PoolEntry { endpoint: endpoint.duplicate(), pooled: PooledServer::new(fresh, now_ms) };
            let ghost fresh_pooled = fresh_entry.pooled;
            let result = operation.run(&mut fresh_entry.pooled, &mut pool.names);
            assert(op0.gives(fresh_pooled, result));
            let failed_again = match &result {
                Err(op_e) => op_e.is_connection_error(),
                Ok(_) => false,
            };
            if failed_again {
                fresh_entry.pooled.clear_active_groups();
                pool.record_failure(endpoint, now_ms);
                assert(pool.failures@[pool.failures@.len() - 1].endpoint@ == endpoint@);
                proof {
                    assert(pool.failure_endpoints()[pool.failure_endpoints().len() - 1] == endpoint@);
                    assert forall|x: EndpointView| x != endpoint@ && pool.has_connection(x) implies old(pool).has_connection(x) by {
                        assert(p2.has_connection(x));
                    }
                }
                return result;
            }
            pool.evict_lru_connection(endpoint);
            let ghost p3 = *pool;
            pool.insert_entry(fresh_entry);
            proof {
                assert(pool.endpoint_views() =~= p3.endpoint_views().push(endpoint@));
                assert(pool.endpoint_views()[pool.endpoint_views().len() - 1] == endpoint@);
                assert forall|x: EndpointView| x != endpoint@ && pool.has_connection(x) implies old(pool).has_connection(x) by {
                    let k = choose|k: int| 0 <= k < pool.endpoint_views().len() && pool.endpoint_views()[k] == x;
                    assert(k < pool.endpoint_views().len() - 1);
                    assert(p3.endpoint_views()[k] == x);
                    assert(p3.has_connection(x));
                    assert(p2.has_connection(x));
                }
            }
            result
        },
    }
}

} // verus!
