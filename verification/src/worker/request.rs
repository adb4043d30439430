//! Requests served by the worker, their two-tier priority queue, and the dispatch of one
//! request to the connector or the connection pool.

use vstd::prelude::*;
use crate::collector::TagCollector;
use crate::connector::traits::{ConnectedServer, ServerConnector, details_list_view, names_view};
use crate::error::OpcResult;
use crate::types::{
    EndpointView, OpcServerEndpoint, OpcServerInfo, OpcValue, TagValues, WriteResult, opt_view,
    spec_catalog_host, catalog_host,
};
use crate::error::spec_is_connection_error;
use crate::types::spec_identifier_display;
use crate::worker::browse::{BrowseOp, browse_gives, short_listings, spec_browse};
use crate::worker::pool::{
    ConnectionPool, PooledOperation, PooledServer, RetryPolicy, dispatch_with_retry, fails_disconnected, ran_to, run_outcome, touched,
};
use crate::worker::read::{ReadOp, read_outcome, values_answer_tags, values_result_view};
use crate::worker::write::{
    WriteBatchOp, WriteOp, has_nul, nul_failure, results_answer_writes, write_batch_result, write_batch_view,
    write_one_result, write_one_view, writes_requests,
};

verus! {

/// A request to the worker.
pub enum WorkerRequest {
    /// Enumerate the ProgIDs of the servers on a host.
    ListServers {
        /// Host to enumerate.
        host: String,
    },
    /// Enumerate the servers on a host with catalog details.
    ListServerDetails {
        /// Host to enumerate.
        host: String,
    },
    /// Read the values of a batch of tags.
    ReadTagValues {
        /// Server read.
        endpoint: OpcServerEndpoint,
        /// Tags, in order.
        tags: Vec<String>,
    },
    /// Write one value to one tag.
    WriteTagValue {
        /// Server written to.
        endpoint: OpcServerEndpoint,
        /// Tag written.
        tag_id: String,
        /// Value written.
        value: OpcValue,
    },
    /// Write a batch of values.
    WriteTagValues {
        /// Server written to.
        endpoint: OpcServerEndpoint,
        /// Tags and values, in order.
        writes: Vec<(String, OpcValue)>,
    },
    /// Browse the item IDs of a server.
    BrowseTags {
        /// Server browsed.
        endpoint: OpcServerEndpoint,
        /// Collector the IDs are gathered into.
        collector: TagCollector,
    },
}

/// The worker's answer to a request, of the kind the request asked for.
pub enum WorkerReply {
    /// Answer to [`WorkerRequest::ListServers`].
    Servers(OpcResult<Vec<String>>),
    /// Answer to [`WorkerRequest::ListServerDetails`].
    ServerDetails(OpcResult<Vec<OpcServerInfo>>),
    /// Answer to [`WorkerRequest::ReadTagValues`].
    TagValues(OpcResult<TagValues>),
    /// Answer to [`WorkerRequest::WriteTagValue`].
    Write(OpcResult<WriteResult>),
    /// Answer to [`WorkerRequest::WriteTagValues`].
    Writes(OpcResult<Vec<WriteResult>>),
    /// Answer to [`WorkerRequest::BrowseTags`].
    Tags(OpcResult<Vec<String>>),
}

/// Reads and writes are served before discovery and browsing.
pub open spec fn spec_is_high_priority(req: WorkerRequest) -> bool {
    req is ReadTagValues || req is WriteTagValue || req is WriteTagValues
}

/// Whether a request is served before discovery and browsing.
pub fn is_high_priority(req: &WorkerRequest) -> (r: bool)
    ensures
        r == spec_is_high_priority(*req),
{
    match req {
        WorkerRequest::ReadTagValues { .. } => true,
        WorkerRequest::WriteTagValue { .. } => true,
        WorkerRequest::WriteTagValues { .. } => true,
        _ => false,
    }
}

/// The reply answers the request's kind.
pub open spec fn reply_answers(req: WorkerRequest, reply: WorkerReply) -> bool {
    match req {
        WorkerRequest::ListServers { .. } => reply is Servers,
        WorkerRequest::ListServerDetails { .. } => reply is ServerDetails,
        WorkerRequest::ReadTagValues { .. } => reply is TagValues,
        WorkerRequest::WriteTagValue { .. } => reply is Write,
        WorkerRequest::WriteTagValues { .. } => reply is Writes,
        WorkerRequest::BrowseTags { .. } => reply is Tags,
    }
}

/// The requests among `h` of the given tier (reads and writes when `high`), in order.
pub open spec fn tier<T>(h: Seq<(WorkerRequest, T)>, high: bool) -> Seq<(WorkerRequest, T)>
    decreases h.len(),
{
    if h.len() == 0 {
        Seq::empty()
    } else if spec_is_high_priority(h.last().0) == high {
        tier(h.drop_last(), high).push(h.last())
    } else {
        tier(h.drop_last(), high)
    }
}

/// The queue holds exactly the requests `h`, pushed in that order: the reads and writes
/// among them in one tier, the others in the other, each in push order.
pub open spec fn holds_pushes<T>(q: PriorityRequestQueue<T>, h: Seq<(WorkerRequest, T)>) -> bool {
    q.high@ == tier(h, true) && q.low@ == tier(h, false)
}

/// What [`PriorityRequestQueue::push`] makes of `q` with `x`.
pub open spec fn pushed<T>(q: PriorityRequestQueue<T>, after: PriorityRequestQueue<T>, x: (WorkerRequest, T)) -> bool {
    &&& spec_is_high_priority(x.0) ==> after.high@ == q.high@.push(x) && after.low@ == q.low@
    &&& !spec_is_high_priority(x.0) ==> after.low@ == q.low@.push(x) && after.high@ == q.high@
}

/// The request [`PriorityRequestQueue::pop_next`] takes from `q`.
pub open spec fn next_request<T>(q: PriorityRequestQueue<T>) -> Option<(WorkerRequest, T)> {
    if q.high@.len() > 0 {
        Some(q.high@[0])
    } else if q.low@.len() > 0 {
        Some(q.low@[0])
    } else {
        None
    }
}

/// Pushing onto a queue that holds the pushes `h` gives one that holds `h` followed by
/// the new request.
pub proof fn law_push_extends_history<T>(
    q: PriorityRequestQueue<T>,
    after: PriorityRequestQueue<T>,
    h: Seq<(WorkerRequest, T)>,
    x: (WorkerRequest, T),
)
    requires
        holds_pushes(q, h),
        pushed(q, after, x),
    ensures
        holds_pushes(after, h.push(x)),
{
    assert(h.push(x).drop_last() =~= h);
}

/// From a queue that holds the pushes `h`, the request taken next is the earliest-pushed
/// read or write, else the earliest-pushed other request, else none.
pub proof fn law_next_is_earliest<T>(q: PriorityRequestQueue<T>, h: Seq<(WorkerRequest, T)>)
    requires
        holds_pushes(q, h),
    ensures
        next_request(q) == if tier(h, true).len() > 0 {
            Some(tier(h, true)[0])
        } else if tier(h, false).len() > 0 {
            Some(tier(h, false)[0])
        } else {
            None
        },
{
}

/// Whether a request reads or writes tag values.
pub open spec fn touches_tag_values(req: WorkerRequest) -> bool {
    match req {
        WorkerRequest::WriteTagValues { .. } => true,
        WorkerRequest::WriteTagValue { .. } => true,
        WorkerRequest::ReadTagValues { .. } => true,
        WorkerRequest::ListServers { .. } => false,
        WorkerRequest::ListServerDetails { .. } => false,
        WorkerRequest::BrowseTags { .. } => false,
    }
}

/// Every request of the tier `high` among the pushes `h` is of that tier, and every
/// pushed request of that tier is among them.
proof fn lemma_tier_members<T>(h: Seq<(WorkerRequest, T)>, high: bool)
    ensures
        forall|k: int| 0 <= k < tier(h, high).len() ==> spec_is_high_priority(#[trigger] tier(h, high)[k].0) == high,
        forall|j: int| 0 <= j < h.len() && spec_is_high_priority(#[trigger] h[j].0) == high ==> tier(h, high).len() > 0,
    decreases h.len(),
{
    if h.len() > 0 {
        lemma_tier_members(h.drop_last(), high);
        let prev = tier(h.drop_last(), high);
        let cur = tier(h, high);
        assert forall|k: int| 0 <= k < cur.len() implies spec_is_high_priority(#[trigger] cur[k].0) == high by {
            if k < prev.len() {
                assert(cur[k] == prev[k]);
            }
        }
        assert forall|j: int| 0 <= j < h.len() && spec_is_high_priority(#[trigger] h[j].0) == high implies cur.len() > 0 by {
            if j < h.len() - 1 {
                assert(h.drop_last()[j] == h[j]);
            }
        }
    }
}

/// Reads and writes of every kind are served before discovery and browsing: from a
/// queue filled by pushes, while any read or write waits, the next request taken reads
/// or writes tag values; and a discovery or browse request is taken only when none waits.
pub proof fn law_reads_and_writes_served_first<T>(q: PriorityRequestQueue<T>, h: Seq<(WorkerRequest, T)>)
    requires
        holds_pushes(q, h),
    ensures
        (exists|j: int| 0 <= j < h.len() && touches_tag_values(#[trigger] h[j].0)) ==> (next_request(q) matches Some(x)
            && touches_tag_values(x.0)),
        (next_request(q) matches Some(x) && !touches_tag_values(x.0)) ==> forall|j: int|
            0 <= j < h.len() ==> !touches_tag_values(#[trigger] h[j].0),
{
    lemma_tier_members(h, true);
    lemma_tier_members(h, false);
    assert forall|r: WorkerRequest| #[trigger] touches_tag_values(r) == spec_is_high_priority(r) by {
        match r {
            WorkerRequest::ReadTagValues { .. } => {},
            WorkerRequest::WriteTagValue { .. } => {},
            WorkerRequest::WriteTagValues { .. } => {},
            _ => {},
        }
    }
    if exists|j: int| 0 <= j < h.len() && touches_tag_values(#[trigger] h[j].0) {
        let j = choose|j: int| 0 <= j < h.len() && touches_tag_values(#[trigger] h[j].0);
        assert(spec_is_high_priority(h[j].0));
        assert(tier(h, true)[0] == q.high@[0]);
    }
    if next_request(q) matches Some(x) && !touches_tag_values(x.0) {
        assert forall|j: int| 0 <= j < h.len() implies !touches_tag_values(#[trigger] h[j].0) by {
            if touches_tag_values(h[j].0) {
                assert(spec_is_high_priority(h[j].0));
                assert(tier(h, true)[0] == q.high@[0]);
            }
        }
    }
}

/// Two FIFO queues of requests, each with what travels along with it (such as where its
/// reply goes): reads and writes are always taken before discovery and browsing.
pub struct PriorityRequestQueue<T> {
    /// Reads and writes, oldest first.
    pub high: std::collections::VecDeque<(WorkerRequest, T)>,
    /// Discovery and browse requests, oldest first.
    pub low: std::collections::VecDeque<(WorkerRequest, T)>,
}

impl<T> PriorityRequestQueue<T> {
    /// An empty queue.
    pub fn new() -> (r: Self)
        ensures
            r.high@.len() == 0,
            r.low@.len() == 0,
    {
        PriorityRequestQueue { high: std::collections::VecDeque::new(), low: std::collections::VecDeque::new() }
    }

    /// Appends a request, with what travels along with it, to the tier its kind belongs
    /// to.
    pub fn push(&mut self, req: WorkerRequest, along: T)
        ensures
            pushed(*old(self), *final(self), (req, along)),
            spec_is_high_priority(req) ==> final(self).high@ == old(self).high@.push((req, along))
                && final(self).low@ == old(self).low@,
            !spec_is_high_priority(req) ==> final(self).low@ == old(self).low@.push((req, along))
                && final(self).high@ == old(self).high@,
    {
        if is_high_priority(&req) {
            self.high.push_back((req, along));
        } else {
            self.low.push_back((req, along));
        }
    }

    /// Takes the oldest high-priority request, or else the oldest low-priority one.
    pub fn pop_next(&mut self) -> (r: Option<(WorkerRequest, T)>)
        ensures
            r == next_request(*old(self)),
            old(self).high@.len() > 0 ==> r == Some(old(self).high@[0]) && final(self).high@ == old(self).high@.drop_first()
                && final(self).low@ == old(self).low@,
            old(self).high@.len() == 0 && old(self).low@.len() > 0 ==> r == Some(old(self).low@[0])
                && final(self).low@ == old(self).low@.drop_first() && final(self).high@ == old(self).high@,
            old(self).high@.len() == 0 && old(self).low@.len() == 0 ==> r is None && final(self).high@ == old(self).high@
                && final(self).low@ == old(self).low@,
    {
        match self.high.pop_front() {
            Some(x) => Some(x),
            None => self.low.pop_front(),
        }
    }

    /// Whether both tiers are empty.
    pub fn is_empty(&self) -> (r: bool)
        ensures
            r == (self.high@.len() == 0 && self.low@.len() == 0),
    {
        self.high.len() == 0 && self.low.len() == 0
    }

    /// Number of queued requests.
    pub fn len(&self) -> (r: usize)
        requires
            self.high@.len() + self.low@.len() <= usize::MAX,
        ensures
            r == self.high@.len() + self.low@.len(),
    {
        self.high.len() + self.low.len()
    }

    /// Drops every queued request.
    pub fn clear(&mut self)
        ensures
            final(self).high@.len() == 0,
            final(self).low@.len() == 0,
    {
        self.high.clear();
        self.low.clear();
    }
}

/// The items in the order repeated [`PriorityRequestQueue::pop_next`] calls take them
/// from a queue whose tiers hold `high` and `low`: each step takes the front of the high
/// tier when it is not empty, else the front of the low tier.
pub open spec fn drain_order<T>(high: Seq<T>, low: Seq<T>) -> Seq<T>
    decreases high.len() + low.len(),
{
    if high.len() > 0 {
        seq![high[0]] + drain_order(high.drop_first(), low)
    } else if low.len() > 0 {
        seq![low[0]] + drain_order(high, low.drop_first())
    } else {
        Seq::empty()
    }
}

/// Draining the queue yields every high-priority item, in push order, before every
/// low-priority item, in push order.
pub proof fn lemma_drain_order<T>(high: Seq<T>, low: Seq<T>)
    ensures
        drain_order(high, low) == high + low,
    decreases high.len() + low.len(),
{
    if high.len() > 0 {
        lemma_drain_order(high.drop_first(), low);
        assert(seq![high[0]] + (high.drop_first() + low) =~= high + low);
    } else if low.len() > 0 {
        lemma_drain_order(high, low.drop_first());
        assert(seq![low[0]] + (high + low.drop_first()) =~= high + low);
    } else {
        assert(high + low =~= Seq::<T>::empty());
    }
}

/// Catalog entries for ProgIDs enumerated on `host`: no class ID or type name is known,
/// and the host is recorded unless it names the local machine (see [`spec_catalog_host`]).
pub fn details_from_prog_ids(prog_ids: Vec<String>, host: &str) -> (r: Vec<OpcServerInfo>)
    ensures
        r@.len() == prog_ids@.len(),
        forall|i: int|
            0 <= i < prog_ids@.len() ==> {
                &&& (#[trigger] r@[i]).prog_id@ == prog_ids@[i]@
                &&& r@[i].clsid == 0
                &&& r@[i].user_type is None
                &&& opt_view(r@[i].host) == spec_catalog_host(host@)
            },
{
    let mut out: Vec<OpcServerInfo> = Vec::new();
    let mut i: usize = 0;
    while i < prog_ids.len()
        invariant
            i <= prog_ids@.len(),
            out@.len() == i,
            forall|j: int|
                0 <= j < i ==> {
                    &&& (#[trigger] out@[j]).prog_id@ == prog_ids@[j]@
                    &&& out@[j].clsid == 0
                    &&& out@[j].user_type is None
                    &&& opt_view(out@[j].host) == spec_catalog_host(host@)
                },
        decreases prog_ids@.len() - i,
    {
        let h = catalog_host(host);
        out.push(OpcServerInfo { prog_id: prog_ids[i].clone(), clsid: 0, user_type: None, host: h });
        i = i + 1;
    }
    out
}

/// Work retried on a fresh connection: outside a cooldown, a connection error that ends
/// it (the retry's own, or the reconnection's) is always recorded for the circuit breaker.
pub open spec fn retried_after_disconnect<S: ConnectedServer, T>(
    before: ConnectionPool<S>,
    after: ConnectionPool<S>,
    endpoint: EndpointView,
    now_ms: u64,
    res: OpcResult<T>,
) -> bool {
    !before.cooldown_active(endpoint, now_ms) && fails_disconnected(res) ==> after.has_failure(endpoint)
}

/// Work never run twice: outside a cooldown, on a pooled connection, a connection error
/// of the work drops the connection and is returned unrecorded, with no reconnection.
pub open spec fn never_retried<S: ConnectedServer, T>(
    before: ConnectionPool<S>,
    after: ConnectionPool<S>,
    endpoint: EndpointView,
    now_ms: u64,
    res: OpcResult<T>,
) -> bool {
    !before.cooldown_active(endpoint, now_ms) && before.has_connection(endpoint) && fails_disconnected(res) ==> {
        &&& !after.has_failure(endpoint)
        &&& !after.has_connection(endpoint)
    }
}

/// Whether an answer is a connection error.
pub open spec fn disconnected<T>(a: Result<T, crate::error::OpcErrorView>) -> bool {
    a matches Err(e) && spec_is_connection_error(e)
}

/// Whether a browse with a collector that is `cancelled` or holds at most `max_tags` IDs
/// is known to answer on `s` without a connection error.
pub open spec fn browse_answers<S: ConnectedServer>(cancelled: bool, max_tags: usize, s: S) -> bool {
    &&& !cancelled
    &&& max_tags == 0 || (short_listings(s) && !disconnected(spec_browse(s, max_tags as nat)))
}

/// The endpoint a request works on; discovery works on none, and for it the value is
/// left open.
pub open spec fn req_endpoint(req: WorkerRequest) -> EndpointView {
    match req {
        WorkerRequest::ReadTagValues { endpoint, .. } => endpoint@,
        WorkerRequest::WriteTagValue { endpoint, .. } => endpoint@,
        WorkerRequest::WriteTagValues { endpoint, .. } => endpoint@,
        WorkerRequest::BrowseTags { endpoint, .. } => endpoint@,
        _ => arbitrary(),
    }
}

/// What a request served on the pooled server `p` is answered: a
/// read with what reading on `p` gives, unless that is a connection error (the read is
/// then retried on a fresh connection); a write with what writing through its server gives; a
/// browse with what browsing its server gives, when that is known to be no connection error.
pub open spec fn answered_on<S: ConnectedServer>(req: WorkerRequest, p: PooledServer<S>, r: WorkerReply) -> bool {
    let s = p.server;
    match req {
        WorkerRequest::ReadTagValues { endpoint, tags } => {
            let a = read_outcome(p, spec_identifier_display(endpoint@.identifier), tags@);
            !disconnected(a) ==> (r matches WorkerReply::TagValues(res) && values_result_view(res) == a)
        },
        WorkerRequest::WriteTagValue { endpoint, tag_id, value } => r matches WorkerReply::Write(res) && write_one_view(res)
            == write_one_result(s, spec_identifier_display(endpoint@.identifier), tag_id@, value@),
        WorkerRequest::WriteTagValues { endpoint, writes } => r matches WorkerReply::Writes(res) && write_batch_view(res)
            == write_batch_result(s, spec_identifier_display(endpoint@.identifier), writes_requests(writes@)),
        WorkerRequest::BrowseTags { collector, .. } => browse_answers(collector.cancelled, collector.max_tags, s) ==> (
        r matches WorkerReply::Tags(res) && browse_gives(collector.cancelled, collector.max_tags, s, res)),
        _ => true,
    }
}

/// What a request served on a newly connected server, with no cached group, is answered:
/// what the work gives on some such server.
pub open spec fn answered_fresh<S: ConnectedServer>(req: WorkerRequest, r: WorkerReply) -> bool {
    match req {
        WorkerRequest::ReadTagValues { endpoint, tags } => r matches WorkerReply::TagValues(res) && exists|p: PooledServer<S>|
            p.active_groups@.len() == 0 && values_result_view(res) == #[trigger] read_outcome(
                p,
                spec_identifier_display(endpoint@.identifier),
                tags@,
            ),
        WorkerRequest::WriteTagValue { endpoint, tag_id, value } => r matches WorkerReply::Write(res) && exists|s: S|
            write_one_view(res) == #[trigger] write_one_result(s, spec_identifier_display(endpoint@.identifier), tag_id@, value@),
        WorkerRequest::WriteTagValues { endpoint, writes } => r matches WorkerReply::Writes(res) && exists|s: S|
            write_batch_view(res) == #[trigger] write_batch_result(
                s,
                spec_identifier_display(endpoint@.identifier),
                writes_requests(writes@),
            ),
        WorkerRequest::BrowseTags { collector, .. } => r matches WorkerReply::Tags(res) && exists|s: S|
            #[trigger] browse_gives(collector.cancelled, collector.max_tags, s, res),
        _ => true,
    }
}

/// Serves one request at pool time `now_ms`: discovery goes to the connector; reads,
/// browses and writes run on the pooled connection to their endpoint, reads and browses
/// being retried once on a fresh connection after a connection error and writes never.
/// The reply is of the kind the request asked for.
pub fn handle_request<C: ServerConnector>(
    req: WorkerRequest,
    connector: &mut C,
    pool: &mut ConnectionPool<C::Server>,
    now_ms: u64,
) -> (r: WorkerReply)
    requires
        old(pool).wf(),
    ensures
        final(pool).wf(),
        reply_answers(req, r),
        (req is ListServers || req is ListServerDetails) ==> *final(pool) == *old(pool),
        req matches WorkerRequest::ListServers { host } ==> (r matches WorkerReply::Servers(res) && names_view(res)
            == old(connector).servers_on(host@)),
        req matches WorkerRequest::ListServerDetails { host } ==> (r matches WorkerReply::ServerDetails(res)
            && details_list_view(res) == old(connector).details_on(host@)),
        req matches WorkerRequest::ReadTagValues { tags, .. } ==> (r matches WorkerReply::TagValues(Ok(v))
            ==> values_answer_tags(v, tags@)),
        req matches WorkerRequest::WriteTagValue { tag_id, .. } ==> (r matches WorkerReply::Write(Ok(w)) ==> {
            &&& w.tag_id@ == tag_id@
            &&& has_nul(tag_id@) ==> w@ == nul_failure(tag_id@)
        }),
        req matches WorkerRequest::WriteTagValues { writes, .. } ==> (r matches WorkerReply::Writes(Ok(v))
            ==> results_answer_writes(v@, writes@)),
        req matches WorkerRequest::BrowseTags { collector, .. } ==> (r matches WorkerReply::Tags(Ok(v)) ==> (
        !collector.cancelled ==> v@.len() <= collector.max_tags)),
        req matches WorkerRequest::ReadTagValues { endpoint, .. } ==> (r matches WorkerReply::TagValues(res)
            && retried_after_disconnect(*old(pool), *final(pool), endpoint@, now_ms, res)),
        req matches WorkerRequest::BrowseTags { endpoint, .. } ==> (r matches WorkerReply::Tags(res)
            && retried_after_disconnect(*old(pool), *final(pool), endpoint@, now_ms, res)),
        req matches WorkerRequest::WriteTagValue { endpoint, .. } ==> (r matches WorkerReply::Write(res)
            && never_retried(*old(pool), *final(pool), endpoint@, now_ms, res)),
        req matches WorkerRequest::WriteTagValues { endpoint, .. } ==> (r matches WorkerReply::Writes(res)
            && never_retried(*old(pool), *final(pool), endpoint@, now_ms, res)),
        !(req is ListServers || req is ListServerDetails) && !old(pool).cooldown_active(req_endpoint(req), now_ms)
            && !old(pool).has_connection(req_endpoint(req)) && old(connector).connects(req_endpoint(req))
            ==> answered_fresh::<C::Server>(req, r),
        forall|i: int|
            !old(pool).cooldown_active(req_endpoint(req), now_ms) && 0 <= i < old(pool).entries@.len()
                && #[trigger] old(pool).entries@[i].endpoint@ == req_endpoint(req) ==> answered_on(req, old(pool).entries@[i].pooled, r),
{
    match req {
        WorkerRequest::ListServers { host } => WorkerReply::Servers(connector.enumerate_servers(host.as_str())),
        WorkerRequest::ListServerDetails { host } => WorkerReply::ServerDetails(
            connector.enumerate_server_details(host.as_str()),
        ),
        WorkerRequest::ReadTagValues { endpoint, tags } => {
            let ghost p0 = *pool;
            let mut op = ReadOp::new(endpoint.duplicate(), tags);
            let ghost op0 = op;
            let res = dispatch_with_retry(pool, connector, &endpoint, RetryPolicy::Idempotent, &mut op, now_ms);
            proof {
                let server = spec_identifier_display(endpoint@.identifier);
                assert forall|i: int|
                    !p0.cooldown_active(endpoint@, now_ms) && 0 <= i < p0.entries@.len()
                        && #[trigger] p0.entries@[i].endpoint@ == endpoint@ implies !disconnected(
                    read_outcome(p0.entries@[i].pooled, server, op0.tags@),
                ) ==> values_result_view(res) == read_outcome(p0.entries@[i].pooled, server, op0.tags@) by {
                    let tp = touched(p0.entries@[i].pooled, now_ms);
                    assert(read_outcome(tp, server, op0.tags@) == read_outcome(p0.entries@[i].pooled, server, op0.tags@));
                    let x = choose|x: OpcResult<TagValues>|
                        values_result_view(x) == read_outcome(tp, server, op0.tags@) && run_outcome(x) == op.runs@[0];
                }
            }
            WorkerReply::TagValues(res)
        },
        WorkerRequest::WriteTagValue { endpoint, tag_id, value } => {
            let mut op = WriteOp::new(endpoint.duplicate(), tag_id, value);
            WorkerReply::Write(dispatch_with_retry(pool, connector, &endpoint, RetryPolicy::NonIdempotent, &mut op, now_ms))
        },
        WorkerRequest::WriteTagValues { endpoint, writes } => {
            let mut op = WriteBatchOp::new(endpoint.duplicate(), writes);
            WorkerReply::Writes(dispatch_with_retry(pool, connector, &endpoint, RetryPolicy::NonIdempotent, &mut op, now_ms))
        },
        WorkerRequest::BrowseTags { endpoint, collector } => {
            let ghost p0 = *pool;
            let mut op = BrowseOp::new(endpoint.duplicate(), collector);
            let ghost op0 = op;
            let res = dispatch_with_retry(pool, connector, &endpoint, RetryPolicy::Idempotent, &mut op, now_ms);
            proof {
                assert forall|i: int|
                    !p0.cooldown_active(endpoint@, now_ms) && 0 <= i < p0.entries@.len()
                        && #[trigger] p0.entries@[i].endpoint@ == endpoint@ implies browse_answers(
                    op0.collector.cancelled,
                    op0.collector.max_tags,
                    p0.entries@[i].pooled.server,
                ) ==> browse_gives(op0.collector.cancelled, op0.collector.max_tags, p0.entries@[i].pooled.server, res) by {
                    let tp = touched(p0.entries@[i].pooled, now_ms);
                    let x = choose|x: OpcResult<Vec<String>>|
                        browse_gives(op0.collector.cancelled, op0.collector.max_tags, tp.server, x) && run_outcome(x)
                            == op.runs@[0];
                }
            }
            WorkerReply::Tags(res)
        },
    }
}

} // verus!
