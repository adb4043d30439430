//! Address-space browsing: flat enumeration where the server offers it, depth-first
//! traversal of branches otherwise.

use vstd::prelude::*;
use crate::collector::{TagCollector, tags_view};
use crate::connector::traits::{ConnectedServer, ItemIdSource, NameView};
use crate::error::{OpcErrorView, OpcResult};
use crate::types::{BrowseDirection, BrowseType, NamespaceType, OpcServerEndpoint, ServerIdentifier};
use crate::worker::GroupNameSequence;
use crate::worker::pool::{PooledOperation, PooledServer, run_outcome};

verus! {

/// Deepest branch level visited by the depth-first traversal.
pub const DEFAULT_MAX_BROWSE_DEPTH: usize = 50;

/// Number of item IDs gathered before they are handed to the collector.
pub const BROWSE_CHUNK_SIZE: usize = 256;

/// Largest number of entries read from one enumeration.
pub const MAX_ENUMERATION_STEPS: u64 = 0xFFFF_FFFF_FFFF_FFFF;

/// Data type filter that accepts every type.
pub const VT_EMPTY: u16 = 0;

/// What a collector keeps across a browse step: its capacity, its cancellation flag,
/// and the tags it already held.
pub open spec fn collector_grows(before: TagCollector, after: TagCollector) -> bool {
    &&& after.wf()
    &&& after.max_tags == before.max_tags
    &&& after.cancelled == before.cancelled
    &&& after.tags@.len() >= before.tags@.len()
    &&& after.tags@.subrange(0, before.tags@.len() as int) == before.tags@
}

/// `tags` followed by as many of `added` as fit within `max` tags.
pub open spec fn capped_append<T>(tags: Seq<T>, added: Seq<T>, max: nat) -> Seq<T> {
    if tags.len() + added.len() <= max {
        tags + added
    } else {
        tags + added.subrange(0, max - tags.len())
    }
}

/// Appending nothing keeps the tags; appending in two steps is appending the whole; once
/// the capacity is reached, what follows is dropped.
pub proof fn lemma_capped_append<T>(t: Seq<T>, a: Seq<T>, b: Seq<T>, m: nat)
    requires
        t.len() <= m,
    ensures
        capped_append(t, Seq::<T>::empty(), m) == t,
        capped_append(t, a, m).len() <= m,
        capped_append(capped_append(t, a, m), b, m) == capped_append(t, a + b, m),
        capped_append(t, a, m).len() == m ==> capped_append(t, a + b, m) == capped_append(t, a, m),
{
    assert(t + Seq::<T>::empty() =~= t);
    let ab = a + b;
    if t.len() + a.len() <= m {
        let x = t + a;
        if x.len() + b.len() <= m {
            assert(x + b =~= t + ab);
        } else {
            assert(x + b.subrange(0, m - x.len()) =~= t + ab.subrange(0, m - t.len()));
        }
        if x.len() == m {
            if b.len() > 0 {
                assert(x + b.subrange(0, 0) =~= x);
                assert(t + ab.subrange(0, m - t.len()) =~= x);
            } else {
                assert(ab =~= a);
            }
        }
    } else {
        let x = t + a.subrange(0, m - t.len());
        assert(x.len() == m);
        if b.len() == 0 {
            assert(ab =~= a);
        } else {
            assert(x + b.subrange(0, 0) =~= x);
        }
        assert(t + ab.subrange(0, m - t.len()) =~= x);
    }
}

/// The characters of capped tags are the capped characters.
pub proof fn lemma_capped_view(t: Seq<String>, a: Seq<String>, m: nat)
    requires
        t.len() <= m,
    ensures
        tags_view(capped_append(t, a, m)) == capped_append(tags_view(t), tags_view(a), m),
{
    if t.len() + a.len() <= m {
        assert(tags_view(t + a) =~= tags_view(t) + tags_view(a));
    } else {
        assert(tags_view(t + a.subrange(0, m - t.len())) =~= tags_view(t) + tags_view(a).subrange(0, m - t.len()));
    }
}

/// Two states of a server have the same address space (what it lists, resolves and
/// steps into), the same browse position and the same group calls.
pub open spec fn same_namespace<S: ConnectedServer>(a: S, b: S) -> bool {
    &&& a.position() == b.position()
    &&& same_space(a, b)
}

/// Two states of a server have the same address space and the same group calls.
pub open spec fn same_space<S: ConnectedServer>(a: S, b: S) -> bool {
    &&& a.group_log() == b.group_log()
    &&& forall|p: Seq<Seq<char>>, k: BrowseType| #[trigger] a.listing(p, k) == b.listing(p, k)
    &&& forall|p: Seq<Seq<char>>, n: Seq<char>| #[trigger] a.resolution(p, n) == b.resolution(p, n)
    &&& forall|p: Seq<Seq<char>>, n: Seq<char>| #[trigger] a.enters(p, n) == b.enters(p, n)
    &&& a.organization() == b.organization()
}

/// Keeping the address space is transitive.
pub proof fn lemma_same_space_trans<S: ConnectedServer>(a: S, b: S, c: S)
    requires
        same_space(a, b),
        same_space(b, c),
    ensures
        same_space(a, c),
{
    assert forall|p: Seq<Seq<char>>, k: BrowseType| #[trigger] a.listing(p, k) == c.listing(p, k) by {
        assert(a.listing(p, k) == b.listing(p, k));
    }
    assert forall|p: Seq<Seq<char>>, n: Seq<char>| #[trigger] a.resolution(p, n) == c.resolution(p, n) by {
        assert(a.resolution(p, n) == b.resolution(p, n));
    }
    assert forall|p: Seq<Seq<char>>, n: Seq<char>| #[trigger] a.enters(p, n) == c.enters(p, n) by {
        assert(a.enters(p, n) == b.enters(p, n));
    }
}

/// How a server resolves browse names at its current position.
pub open spec fn resolver<S: ConnectedServer>(s: S) -> spec_fn(Seq<char>) -> NameView {
    |n: Seq<char>| s.resolution(s.position(), n)
}

/// The item IDs that the entries `names` resolve to under `res`, in order: entries that
/// could not be read, and names that do not resolve, give none.
pub open spec fn resolved_ids(res: spec_fn(Seq<char>) -> NameView, names: Seq<NameView>) -> Seq<Seq<char>>
    decreases names.len(),
{
    if names.len() == 0 {
        Seq::empty()
    } else {
        let before = resolved_ids(res, names.drop_last());
        match names.last() {
            Ok(n) => match res(n) {
                Ok(id) => before.push(id),
                Err(_) => before,
            },
            Err(_) => before,
        }
    }
}

/// Resolving two runs of entries is resolving each in turn.
pub proof fn lemma_resolved_ids_append(res: spec_fn(Seq<char>) -> NameView, a: Seq<NameView>, b: Seq<NameView>)
    ensures
        resolved_ids(res, a + b) == resolved_ids(res, a) + resolved_ids(res, b),
    decreases b.len(),
{
    if b.len() == 0 {
        assert(a + b =~= a);
        assert(resolved_ids(res, a) + resolved_ids(res, b) =~= resolved_ids(res, a));
    } else {
        lemma_resolved_ids_append(res, a, b.drop_last());
        assert((a + b).drop_last() =~= a + b.drop_last());
        assert((a + b).last() == b.last());
        let ra = resolved_ids(res, a);
        let rb = resolved_ids(res, b.drop_last());
        match b.last() {
            Ok(n) => match res(n) {
                Ok(id) => {
                    assert(ra + rb.push(id) =~= (ra + rb).push(id));
                },
                Err(_) => {},
            },
            Err(_) => {},
        }
    }
}

/// Hands a chunk to the collector and empties the chunk.
pub fn flush_chunk(chunk: &mut Vec<String>, collector: &mut TagCollector)
    requires
        old(collector).wf(),
    ensures
        collector_grows(*old(collector), *final(collector)),
        final(collector).tags@ == capped_append(old(collector).tags@, old(chunk)@, old(collector).max_tags as nat),
        final(chunk)@.len() == 0,
{
    let mut batch: Vec<String> = Vec::new();
    std::mem::swap(&mut batch, chunk);
    let ghost before = collector.tags@;
    let ghost b = batch@;
    let n = collector.push_batch(batch);
    assert(collector.tags@.subrange(0, before.len() as int) =~= before);
    assert(b.subrange(0, b.len() as int) =~= b);
}

/// Takes in one leaf's resolved item ID: a failed resolution is skipped; a resolved ID
/// joins the chunk, and a chunk grown to [`BROWSE_CHUNK_SIZE`] is handed to the
/// collector.  Returns whether gathering is to stop (the collector cancelled or full
/// after a hand-over).
pub fn gather_resolved(chunk: &mut Vec<String>, collector: &mut TagCollector, resolved: OpcResult<String>) -> (stop: bool)
    requires
        old(collector).wf(),
        old(chunk)@.len() < BROWSE_CHUNK_SIZE,
    ensures
        collector_grows(*old(collector), *final(collector)),
        final(chunk)@.len() < BROWSE_CHUNK_SIZE,
        resolved is Err ==> !stop && *final(chunk) == *old(chunk) && *final(collector) == *old(collector),
        resolved matches Ok(id) ==> (old(chunk)@.len() + 1 < BROWSE_CHUNK_SIZE ==> !stop && final(chunk)@ == old(
            chunk,
        )@.push(id) && *final(collector) == *old(collector)),
        resolved matches Ok(id) ==> (old(chunk)@.len() + 1 >= BROWSE_CHUNK_SIZE ==> final(chunk)@.len() == 0
            && final(collector).tags@ == capped_append(old(collector).tags@, old(chunk)@.push(id), old(collector).max_tags as nat)
            && stop == (final(collector).cancelled || final(collector).tags@.len() >= final(collector).max_tags)),
{
    match resolved {
        Err(_) => {
            assert(collector.tags@.subrange(0, collector.tags@.len() as int) =~= collector.tags@);
            false
        },
        Ok(item_id) => {
            chunk.push(item_id);
            if chunk.len() >= BROWSE_CHUNK_SIZE {
                flush_chunk(chunk, collector);
                collector.is_cancelled() || collector.is_full()
            } else {
                assert(collector.tags@.subrange(0, collector.tags@.len() as int) =~= collector.tags@);
                false
            }
        },
    }
}

/// Reads an enumeration of item IDs into the collector, in chunks, until it ends, the
/// collector is full, or the browse is cancelled; entries that could not be read are
/// skipped.  `first` is an ID already read from the enumeration.
fn collect_ids<I: ItemIdSource>(iter: &mut I, first: Option<String>, collector: &mut TagCollector)
    requires
        old(collector).wf(),
    ensures
        collector_grows(*old(collector), *final(collector)),
        !old(collector).cancelled && old(iter).pending().len() < MAX_ENUMERATION_STEPS ==> tags_view(final(collector).tags@)
            == capped_append(
            tags_view(old(collector).tags@),
            first_view(first) + resolved_ids(plain_names(), old(iter).pending()),
            old(collector).max_tags as nat,
        ),
{
    let mut chunk: Vec<String> = Vec::new();
    let ghost fv = first_view(first);
    match first {
        Some(t) => chunk.push(t),
        None => {},
    }
    let ghost c0 = *collector;
    let ghost e = iter.pending();
    let ghost res = plain_names();
    let ghost m = c0.max_tags as nat;
    let ghost mut k: int = 0;
    assert(collector.tags@.subrange(0, c0.tags@.len() as int) =~= c0.tags@);
    assert(e.take(0) =~= Seq::<NameView>::empty());
    assert(tags_view(chunk@) =~= fv);
    assert(fv + resolved_ids(res, e.take(0)) =~= fv);
    let mut budget: u64 = MAX_ENUMERATION_STEPS;
    while budget > 0
        invariant
            collector_grows(c0, *collector),
            chunk@.len() < BROWSE_CHUNK_SIZE,
            res == plain_names(),
            m == c0.max_tags as nat,
            0 <= k <= e.len(),
            iter.pending() == e.skip(k),
            k + budget == MAX_ENUMERATION_STEPS,
            capped_append(tags_view(collector.tags@), tags_view(chunk@), m) == capped_append(
                tags_view(c0.tags@),
                fv + resolved_ids(res, e.take(k)),
                m,
            ),
        ensures
            k == e.len() || collector.cancelled || collector.tags@.len() >= m || budget == 0,
        decreases budget,
    {
        if collector.is_cancelled() || collector.is_full() {
            break;
        }
        let ghost c1 = *collector;
        let ghost ch1 = chunk@;
        let ghost t1 = tags_view(c1.tags@);
        match iter.next_id() {
            None => break,
            Some(read) => {
                budget = budget - 1;
                let ghost rv = read;
                let stop = gather_resolved(&mut chunk, collector, read);
                assert(collector.tags@.subrange(0, c0.tags@.len() as int) =~= c1.tags@.subrange(0, c0.tags@.len() as int));
                proof {
                    assert(e.take(k + 1).drop_last() =~= e.take(k));
                    assert(e.skip(k)[0] == e[k]);
                    assert(e.skip(k).drop_first() =~= e.skip(k + 1));
                    let rk = resolved_ids(res, e.take(k));
                    match rv {
                        Ok(id) => {
                            assert(e[k] == Ok::<Seq<char>, OpcErrorView>(id@));
                            assert(resolved_ids(res, e.take(k + 1)) == rk.push(id@));
                            lemma_capped_append(t1, tags_view(ch1), seq![id@], m);
                            lemma_capped_append(tags_view(c0.tags@), fv + rk, seq![id@], m);
                            assert(tags_view(ch1.push(id)) =~= tags_view(ch1) + seq![id@]);
                            assert(fv + rk.push(id@) =~= (fv + rk) + seq![id@]);
                            if ch1.len() + 1 >= BROWSE_CHUNK_SIZE {
                                lemma_capped_view(c1.tags@, ch1.push(id), m);
                                lemma_capped_append(tags_view(collector.tags@), Seq::empty(), Seq::empty(), m);
                                assert(tags_view(chunk@) =~= Seq::<Seq<char>>::empty());
                            }
                        },
                        Err(_) => {
                            assert(resolved_ids(res, e.take(k + 1)) == rk);
                        },
                    }
                    k = k + 1;
                }
                if stop {
                    break;
                }
            },
        }
    }
    let ghost c2 = *collector;
    let ghost ch2 = chunk@;
    if chunk.len() > 0 {
        flush_chunk(&mut chunk, collector);
        assert(collector.tags@.subrange(0, c0.tags@.len() as int) =~= c2.tags@.subrange(0, c0.tags@.len() as int));
    }
    proof {
        if !c0.cancelled && e.len() < MAX_ENUMERATION_STEPS {
            let x = capped_append(tags_view(c0.tags@), fv + resolved_ids(res, e.take(k)), m);
            if ch2.len() > 0 {
                lemma_capped_view(c2.tags@, ch2, m);
            } else {
                assert(tags_view(ch2) =~= Seq::<Seq<char>>::empty());
                lemma_capped_append(tags_view(c2.tags@), Seq::empty(), Seq::empty(), m);
            }
            assert(tags_view(collector.tags@) == x);
            if k < e.len() {
                assert(c2.tags@.len() >= m);
                lemma_capped_append(tags_view(c2.tags@), tags_view(ch2), Seq::empty(), m);
                assert(x.len() == m);
                assert(e =~= e.take(k) + e.skip(k));
                lemma_resolved_ids_append(res, e.take(k), e.skip(k));
                lemma_capped_append(tags_view(c0.tags@), fv + resolved_ids(res, e.take(k)), resolved_ids(res, e.skip(k)), m);
                assert((fv + resolved_ids(res, e.take(k))) + resolved_ids(res, e.skip(k)) =~= fv + resolved_ids(res, e));
            } else {
                assert(e.take(k) =~= e);
            }
        }
    }
}

/// The name an enumeration already handed out, as a sequence of at most one name.
pub open spec fn first_view(first: Option<String>) -> Seq<Seq<char>> {
    match first {
        Some(t) => seq![t@],
        None => Seq::empty(),
    }
}

/// Names taken as they are, as item IDs.
pub open spec fn plain_names() -> spec_fn(Seq<char>) -> NameView {
    |n: Seq<char>| Ok::<Seq<char>, OpcErrorView>(n)
}

/// Gathers the leaves of a flat address space.
pub fn browse_flat_namespace<S: ConnectedServer>(
    server_id: &ServerIdentifier,
    collector: &mut TagCollector,
    opc_server: &mut S,
) -> (r: OpcResult<()>)
    requires
        old(collector).wf(),
    ensures
        collector_grows(*old(collector), *final(collector)),
        same_namespace(*old(opc_server), *final(opc_server)),
        match old(opc_server).listing(old(opc_server).position(), BrowseType::Leaf) {
            Err(e) => (r matches Err(x) && x@ == e) && *final(collector) == *old(collector),
            Ok(es) => r is Ok && (!old(collector).cancelled && es.len() < MAX_ENUMERATION_STEPS ==> tags_view(
                final(collector).tags@,
            ) == capped_append(tags_view(old(collector).tags@), resolved_ids(plain_names(), es), old(collector).max_tags as nat)),
        },
{
    let ghost s0 = *opc_server;
    assert(collector.tags@.subrange(0, collector.tags@.len() as int) =~= collector.tags@);
    let mut iter = match opc_server.browse_opc_item_ids(BrowseType::Leaf, Some(""), VT_EMPTY, 0) {
        Ok(it) => it,
        Err(e) => return Err(e),
    };
    let ghost es = iter.pending();
    collect_ids(&mut iter, None, collector);
    assert(first_view(None) + resolved_ids(plain_names(), es) =~= resolved_ids(plain_names(), es));
    Ok(())
}

/// The outcome of a run: `None` for success, else its error.
pub open spec fn run_error<T>(r: OpcResult<T>) -> Option<OpcErrorView> {
    match r {
        Ok(_) => None,
        Err(e) => Some(e@),
    }
}

/// Whether the flat enumeration of a hierarchical address space is used: it is offered
/// and its first entry can be read.
pub open spec fn fast_flat_usable(listing: Result<Seq<NameView>, OpcErrorView>) -> bool {
    listing matches Ok(es) && es.len() > 0 && es[0] is Ok
}

/// Tries the flat enumeration of a hierarchical address space.  Returns whether it was
/// used: when the server refuses it, or its first entry is missing or unreadable,
/// nothing is gathered and the caller falls back to traversal.
pub fn try_fast_flat_browse<S: ConnectedServer>(
    server_id: &ServerIdentifier,
    collector: &mut TagCollector,
    opc_server: &mut S,
) -> (r: bool)
    requires
        old(collector).wf(),
    ensures
        collector_grows(*old(collector), *final(collector)),
        same_namespace(*old(opc_server), *final(opc_server)),
        !r ==> *final(collector) == *old(collector),
        r == fast_flat_usable(old(opc_server).listing(old(opc_server).position(), BrowseType::Flat)),
        old(opc_server).listing(old(opc_server).position(), BrowseType::Flat) matches Ok(es) ==> (r
            && !old(collector).cancelled && es.len() < MAX_ENUMERATION_STEPS ==> tags_view(final(collector).tags@)
            == capped_append(tags_view(old(collector).tags@), resolved_ids(plain_names(), es), old(collector).max_tags as nat)),
{
    let ghost s0 = *opc_server;
    match opc_server.browse_opc_item_ids(BrowseType::Flat, Some(""), VT_EMPTY, 0) {
        Ok(mut iter) => match iter.next_id() {
            Some(Ok(first)) => {
                let ghost es = s0.listing(s0.position(), BrowseType::Flat)->Ok_0;
                let ghost rest = iter.pending();
                collect_ids(&mut iter, Some(first), collector);
                proof {
                    assert(es =~= seq![es[0]] + rest);
                    lemma_resolved_ids_append(plain_names(), seq![es[0]], rest);
                    assert(seq![es[0]].drop_last() =~= Seq::<NameView>::empty());
                    assert(es[0] == Ok::<Seq<char>, OpcErrorView>(first@));
                    assert(resolved_ids(plain_names(), Seq::<NameView>::empty()) == Seq::<Seq<char>>::empty());
                    assert(seq![es[0]].last() == es[0]);
                    assert((plain_names())(first@) == Ok::<Seq<char>, OpcErrorView>(first@));
                    assert(resolved_ids(plain_names(), seq![es[0]]) == Seq::<Seq<char>>::empty().push(first@));
                    assert(resolved_ids(plain_names(), seq![es[0]]) =~= first_view(Some(first)));
                }
                true
            },
            Some(Err(_)) => {
                assert(collector.tags@.subrange(0, collector.tags@.len() as int) =~= collector.tags@);
                false
            },
            None => {
                assert(collector.tags@.subrange(0, collector.tags@.len() as int) =~= collector.tags@);
                false
            },
        },
        Err(_) => {
            assert(collector.tags@.subrange(0, collector.tags@.len() as int) =~= collector.tags@);
            false
        },
    }
}

/// Gathers the item IDs of the leaves at the current browse position, resolving each
/// leaf name; leaves that cannot be read or resolved are skipped.
fn collect_leaves<S: ConnectedServer>(
    server: &mut S,
    iter: &mut S::ItemIterator,
    collector: &mut TagCollector,
)
    requires
        old(collector).wf(),
    ensures
        collector_grows(*old(collector), *final(collector)),
        same_namespace(*old(server), *final(server)),
        old(collector).cancelled ==> *final(collector) == *old(collector),
        !old(collector).cancelled && old(iter).pending().len() < MAX_ENUMERATION_STEPS ==> tags_view(final(collector).tags@)
            == capped_append(
            tags_view(old(collector).tags@),
            resolved_ids(resolver(*old(server)), old(iter).pending()),
            old(collector).max_tags as nat,
        ),
{
    let mut chunk: Vec<String> = Vec::new();
    let ghost c0 = *collector;
    let ghost s0 = *server;
    let ghost e = iter.pending();
    let ghost res = resolver(s0);
    let ghost m = c0.max_tags as nat;
    let ghost mut k: int = 0;
    assert(collector.tags@.subrange(0, c0.tags@.len() as int) =~= c0.tags@);
    assert(e.take(0) =~= Seq::<NameView>::empty());
    proof {
        lemma_capped_append(tags_view(c0.tags@), Seq::empty(), Seq::empty(), m);
        assert(tags_view(chunk@) =~= Seq::<Seq<char>>::empty());
    }
    let mut budget: u64 = MAX_ENUMERATION_STEPS;
    while budget > 0
        invariant
            collector_grows(c0, *collector),
            chunk@.len() < BROWSE_CHUNK_SIZE,
            same_namespace(s0, *server),
            res == resolver(s0),
            m == c0.max_tags as nat,
            0 <= k <= e.len(),
            iter.pending() == e.skip(k),
            k + budget == MAX_ENUMERATION_STEPS,
            c0.cancelled ==> *collector == c0 && chunk@.len() == 0,
            capped_append(tags_view(collector.tags@), tags_view(chunk@), m) == capped_append(
                tags_view(c0.tags@),
                resolved_ids(res, e.take(k)),
                m,
            ),
        ensures
            k == e.len() || collector.cancelled || collector.tags@.len() >= m || budget == 0,
        decreases budget,
    {
        if collector.is_cancelled() || collector.is_full() {
            break;
        }
        let ghost c1 = *collector;
        let ghost ch1 = chunk@;
        let ghost t1 = tags_view(c1.tags@);
        match iter.next_id() {
            None => break,
            Some(Err(_)) => {
                budget = budget - 1;
                proof {
                    assert(e.take(k + 1).drop_last() =~= e.take(k));
                    assert(e.skip(k)[0] == e[k]);
                    assert(e.skip(k).drop_first() =~= e.skip(k + 1));
                    k = k + 1;
                }
            },
            Some(Ok(leaf_name)) => {
                budget = budget - 1;
                let resolved = server.get_item_id(leaf_name.as_str());
                let ghost rv = resolved;
                let stop = gather_resolved(&mut chunk, collector, resolved);
                assert(collector.tags@.subrange(0, c0.tags@.len() as int) =~= c1.tags@.subrange(0, c0.tags@.len() as int));
                proof {
                    assert(e.take(k + 1).drop_last() =~= e.take(k));
                    assert(e.skip(k)[0] == e[k]);
                    assert(e.skip(k).drop_first() =~= e.skip(k + 1));
                    assert(res(leaf_name@) == s0.resolution(s0.position(), leaf_name@));
                    let x = capped_append(tags_view(c0.tags@), resolved_ids(res, e.take(k)), m);
                    match rv {
                        Ok(id) => {
                            assert(resolved_ids(res, e.take(k + 1)) == resolved_ids(res, e.take(k)).push(id@));
                            lemma_capped_append(t1, tags_view(ch1), seq![id@], m);
                            lemma_capped_append(tags_view(c0.tags@), resolved_ids(res, e.take(k)), seq![id@], m);
                            assert(tags_view(ch1.push(id)) =~= tags_view(ch1) + seq![id@]);
                            assert(resolved_ids(res, e.take(k)).push(id@) =~= resolved_ids(res, e.take(k)) + seq![id@]);
                            if ch1.len() + 1 >= BROWSE_CHUNK_SIZE {
                                lemma_capped_view(c1.tags@, ch1.push(id), m);
                                lemma_capped_append(tags_view(collector.tags@), Seq::empty(), Seq::empty(), m);
                                assert(tags_view(chunk@) =~= Seq::<Seq<char>>::empty());
                            }
                        },
                        Err(_) => {
                            assert(resolved_ids(res, e.take(k + 1)) == resolved_ids(res, e.take(k)));
                        },
                    }
                    k = k + 1;
                }
                if stop {
                    break;
                }
            },
        }
    }
    let ghost c2 = *collector;
    let ghost ch2 = chunk@;
    if chunk.len() > 0 {
        flush_chunk(&mut chunk, collector);
        assert(collector.tags@.subrange(0, c0.tags@.len() as int) =~= c2.tags@.subrange(0, c0.tags@.len() as int));
    }
    proof {
        if !c0.cancelled && e.len() < MAX_ENUMERATION_STEPS {
            let x = capped_append(tags_view(c0.tags@), resolved_ids(res, e.take(k)), m);
            if ch2.len() > 0 {
                lemma_capped_view(c2.tags@, ch2, m);
            } else {
                assert(tags_view(ch2) =~= Seq::<Seq<char>>::empty());
                lemma_capped_append(tags_view(c2.tags@), Seq::empty(), Seq::empty(), m);
            }
            assert(tags_view(collector.tags@) == x);
            if k < e.len() {
                assert(c2.tags@.len() >= m);
                lemma_capped_append(tags_view(c2.tags@), tags_view(ch2), Seq::empty(), m);
                assert(x.len() == m);
                assert(e =~= e.take(k) + e.skip(k));
                lemma_resolved_ids_append(res, e.take(k), e.skip(k));
                lemma_capped_append(tags_view(c0.tags@), resolved_ids(res, e.take(k)), resolved_ids(res, e.skip(k)), m);
            } else {
                assert(e.take(k) =~= e);
            }
        }
    }
}

/// What a server lists, as a function of position and kind.
pub open spec fn listing_of<S: ConnectedServer>(s: S) -> spec_fn(Seq<Seq<char>>, BrowseType) -> Result<Seq<NameView>, OpcErrorView> {
    |p: Seq<Seq<char>>, k: BrowseType| s.listing(p, k)
}

/// How a server resolves names, as a function of position and name.
pub open spec fn resolution_of<S: ConnectedServer>(s: S) -> spec_fn(Seq<Seq<char>>, Seq<char>) -> NameView {
    |p: Seq<Seq<char>>, n: Seq<char>| s.resolution(p, n)
}

/// Whether a server steps into a branch, as a function of position and name.
pub open spec fn enters_of<S: ConnectedServer>(s: S) -> spec_fn(Seq<Seq<char>>, Seq<char>) -> bool {
    |p: Seq<Seq<char>>, n: Seq<char>| s.enters(p, n)
}

/// Every enumeration of the server is shorter than the enumeration step bound.
pub open spec fn short_listings<S: ConnectedServer>(s: S) -> bool {
    forall|p: Seq<Seq<char>>, k: BrowseType| #[trigger] s.listing(p, k) matches Ok(v) ==> v.len() < MAX_ENUMERATION_STEPS
}

/// The names among browsed entries that could be read, in order.
pub open spec fn ok_names(e: Seq<NameView>) -> Seq<Seq<char>>
    decreases e.len(),
{
    if e.len() == 0 {
        Seq::empty()
    } else {
        match e.last() {
            Ok(n) => ok_names(e.drop_last()).push(n),
            Err(_) => ok_names(e.drop_last()),
        }
    }
}

/// The tags gathered by the depth-first traversal of `path` at `depth`, starting from
/// `t`, within `max` tags: nothing below the depth bound or once full; else the resolved
/// leaves of `path` (none when they cannot be listed), then, while not full and when the
/// branches can be listed, each branch that can be stepped into, traversed in turn.
pub open spec fn tree_ids(
    ls: spec_fn(Seq<Seq<char>>, BrowseType) -> Result<Seq<NameView>, OpcErrorView>,
    rs: spec_fn(Seq<Seq<char>>, Seq<char>) -> NameView,
    en: spec_fn(Seq<Seq<char>>, Seq<char>) -> bool,
    path: Seq<Seq<char>>,
    depth: int,
    t: Seq<Seq<char>>,
    max: nat,
) -> Seq<Seq<char>>
    decreases DEFAULT_MAX_BROWSE_DEPTH - depth, 0int,
{
    if depth >= DEFAULT_MAX_BROWSE_DEPTH || t.len() >= max {
        t
    } else {
        match ls(path, BrowseType::Leaf) {
            Err(_) => t,
            Ok(leaves) => {
                let t1 = capped_append(t, resolved_ids(|n: Seq<char>| rs(path, n), leaves), max);
                if t1.len() >= max {
                    t1
                } else {
                    match ls(path, BrowseType::Branch) {
                        Err(_) => t1,
                        Ok(bs) => branches_ids(ls, rs, en, path, depth + 1, ok_names(bs), t1, max, ok_names(bs).len() as int),
                    }
                }
            },
        }
    }
}

/// The tags gathered by traversing, at `child_depth`, the first `k` of the branches
/// `names` of `path`, starting from `t`.
pub open spec fn branches_ids(
    ls: spec_fn(Seq<Seq<char>>, BrowseType) -> Result<Seq<NameView>, OpcErrorView>,
    rs: spec_fn(Seq<Seq<char>>, Seq<char>) -> NameView,
    en: spec_fn(Seq<Seq<char>>, Seq<char>) -> bool,
    path: Seq<Seq<char>>,
    child_depth: int,
    names: Seq<Seq<char>>,
    t: Seq<Seq<char>>,
    max: nat,
    k: int,
) -> Seq<Seq<char>>
    decreases DEFAULT_MAX_BROWSE_DEPTH - child_depth, k,
{
    if k <= 0 || child_depth > DEFAULT_MAX_BROWSE_DEPTH {
        t
    } else {
        let t0 = branches_ids(ls, rs, en, path, child_depth, names, t, max, k - 1);
        if t0.len() >= max {
            t0
        } else if en(path, names[k - 1]) {
            tree_ids(ls, rs, en, path.push(names[k - 1]), child_depth, t0, max)
        } else {
            t0
        }
    }
}

/// The error the traversal of `path` at `depth` from `t` returns: none below the depth
/// bound or once full; else the failure to list the leaves, or, when not full after
/// them, the failure to list the branches.
pub open spec fn tree_error(
    ls: spec_fn(Seq<Seq<char>>, BrowseType) -> Result<Seq<NameView>, OpcErrorView>,
    rs: spec_fn(Seq<Seq<char>>, Seq<char>) -> NameView,
    path: Seq<Seq<char>>,
    depth: int,
    t: Seq<Seq<char>>,
    max: nat,
) -> Option<OpcErrorView> {
    if depth >= DEFAULT_MAX_BROWSE_DEPTH || t.len() >= max {
        None
    } else {
        match ls(path, BrowseType::Leaf) {
            Err(e) => Some(e),
            Ok(leaves) => {
                let t1 = capped_append(t, resolved_ids(|n: Seq<char>| rs(path, n), leaves), max);
                if t1.len() >= max {
                    None
                } else {
                    match ls(path, BrowseType::Branch) {
                        Err(e) => Some(e),
                        Ok(_) => None,
                    }
                }
            },
        }
    }
}

/// Once full, traversing further branches gathers nothing more.
pub proof fn lemma_branches_stay_full(
    ls: spec_fn(Seq<Seq<char>>, BrowseType) -> Result<Seq<NameView>, OpcErrorView>,
    rs: spec_fn(Seq<Seq<char>>, Seq<char>) -> NameView,
    en: spec_fn(Seq<Seq<char>>, Seq<char>) -> bool,
    path: Seq<Seq<char>>,
    child_depth: int,
    names: Seq<Seq<char>>,
    t: Seq<Seq<char>>,
    max: nat,
    k: int,
    j: int,
)
    requires
        0 <= k <= j,
        branches_ids(ls, rs, en, path, child_depth, names, t, max, k).len() >= max,
    ensures
        branches_ids(ls, rs, en, path, child_depth, names, t, max, j) == branches_ids(
            ls,
            rs,
            en,
            path,
            child_depth,
            names,
            t,
            max,
            k,
        ),
    decreases j - k,
{
    if j > k {
        lemma_branches_stay_full(ls, rs, en, path, child_depth, names, t, max, k, j - 1);
    }
}

/// Depth-first traversal from the current browse position: gathers the leaves here,
/// then descends into each branch (returning to this position afterwards), down to
/// [`DEFAULT_MAX_BROWSE_DEPTH`] levels.  Failures inside a branch are skipped; failing
/// to enumerate this level's leaves or branches is returned.  The tags gathered are
/// those of [`tree_ids`] over the server's address space.
pub fn browse_recursive<S: ConnectedServer>(server: &mut S, collector: &mut TagCollector, depth: usize) -> (r: OpcResult<()>)
    requires
        old(collector).wf(),
    ensures
        collector_grows(*old(collector), *final(collector)),
        same_namespace(*old(server), *final(server)),
        (depth >= DEFAULT_MAX_BROWSE_DEPTH || old(collector).cancelled || old(collector).tags@.len()
            >= old(collector).max_tags) ==> r is Ok && *final(collector) == *old(collector),
        !old(collector).cancelled && short_listings(*old(server)) ==> tags_view(final(collector).tags@) == tree_ids(
            listing_of(*old(server)),
            resolution_of(*old(server)),
            enters_of(*old(server)),
            old(server).position(),
            depth as int,
            tags_view(old(collector).tags@),
            old(collector).max_tags as nat,
        ),
        !old(collector).cancelled && short_listings(*old(server)) ==> run_error(r) == tree_error(
            listing_of(*old(server)),
            resolution_of(*old(server)),
            old(server).position(),
            depth as int,
            tags_view(old(collector).tags@),
            old(collector).max_tags as nat,
        ),
    decreases DEFAULT_MAX_BROWSE_DEPTH - depth,
{
    let ghost c0 = *collector;
    let ghost s0 = *server;
    let ghost p0 = s0.position();
    let ghost ls = listing_of(s0);
    let ghost rs = resolution_of(s0);
    let ghost en = enters_of(s0);
    let ghost m = c0.max_tags as nat;
    assert(collector.tags@.subrange(0, c0.tags@.len() as int) =~= c0.tags@);
    if depth >= DEFAULT_MAX_BROWSE_DEPTH || collector.is_cancelled() || collector.is_full() {
        return Ok(());
    }
    let mut leaves = match server.browse_opc_item_ids(BrowseType::Leaf, Some(""), VT_EMPTY, 0) {
        Ok(it) => it,
        Err(e) => return Err(e),
    };
    let ghost s1 = *server;
    assert(same_space(s0, s1));
    let ghost leaf_entries = leaves.pending();
    collect_leaves(server, &mut leaves, collector);
    let ghost t1 = tags_view(collector.tags@);
    proof {
        lemma_same_space_trans(s0, s1, *server);
        assert(resolver(s1) =~= (|n: Seq<char>| rs(p0, n)));
        assert(ls(p0, BrowseType::Leaf) == Ok::<Seq<NameView>, OpcErrorView>(leaf_entries));
        if !c0.cancelled && short_listings(s0) {
            assert(s0.listing(p0, BrowseType::Leaf) matches Ok(v) ==> v.len() < MAX_ENUMERATION_STEPS);
            assert(t1 == capped_append(tags_view(c0.tags@), resolved_ids(|n: Seq<char>| rs(p0, n), leaf_entries), m));
        }
    }
    if collector.is_cancelled() || collector.is_full() {
        return Ok(());
    }
    let mut branch_iter = match server.browse_opc_item_ids(BrowseType::Branch, Some(""), VT_EMPTY, 0) {
        Ok(it) => it,
        Err(e) => return Err(e),
    };
    let ghost be = branch_iter.pending();
    assert(ls(p0, BrowseType::Branch) == Ok::<Seq<NameView>, OpcErrorView>(be));
    proof {
        lemma_same_space_trans(s0, s1, *server);
    }
    let mut branches: Vec<String> = Vec::new();
    let mut budget: u64 = MAX_ENUMERATION_STEPS;
    let ghost mut bk: int = 0;
    assert(be.take(0) =~= Seq::<NameView>::empty());
    assert(tags_view(branches@) =~= Seq::<Seq<char>>::empty());
    while budget > 0
        invariant
            0 <= bk <= be.len(),
            branch_iter.pending() == be.skip(bk),
            bk + budget == MAX_ENUMERATION_STEPS,
            tags_view(branches@) == ok_names(be.take(bk)),
        ensures
            bk == be.len() || budget == 0,
        decreases budget,
    {
        match branch_iter.next_id() {
            None => break,
            Some(Err(_)) => {
                budget = budget - 1;
                proof {
                    assert(be.take(bk + 1).drop_last() =~= be.take(bk));
                    assert(be.skip(bk)[0] == be[bk]);
                    assert(be.skip(bk).drop_first() =~= be.skip(bk + 1));
                    bk = bk + 1;
                }
            },
            Some(Ok(b)) => {
                budget = budget - 1;
                let ghost before = branches@;
                branches.push(b);
                proof {
                    assert(be.take(bk + 1).drop_last() =~= be.take(bk));
                    assert(be.skip(bk)[0] == be[bk]);
                    assert(be.skip(bk).drop_first() =~= be.skip(bk + 1));
                    assert(tags_view(branches@) =~= tags_view(before).push(b@));
                    bk = bk + 1;
                }
            },
        }
    }
    let ghost names = tags_view(branches@);
    proof {
        if !c0.cancelled && short_listings(s0) {
            assert(s0.listing(p0, BrowseType::Branch) matches Ok(v) ==> v.len() < MAX_ENUMERATION_STEPS);
            assert(be.take(bk) =~= be);
            assert(ok_names(be) == names);
            assert(tree_ids(ls, rs, en, p0, depth as int, tags_view(c0.tags@), m) == branches_ids(
                ls,
                rs,
                en,
                p0,
                depth + 1,
                names,
                t1,
                m,
                names.len() as int,
            ));
        }
    }
    let mut k: usize = 0;
    assert(branches_ids(ls, rs, en, p0, depth + 1, names, t1, m, 0) == t1);
    assert(t1 == tags_view(collector.tags@));
    while k < branches.len()
        invariant
            c0 == *old(collector),
            s0 == *old(server),
            collector_grows(c0, *collector),
            same_namespace(s0, *server),
            k <= branches@.len(),
            depth < DEFAULT_MAX_BROWSE_DEPTH,
            !c0.cancelled && c0.tags@.len() < c0.max_tags,
            names == tags_view(branches@),
            p0 == s0.position(),
            ls == listing_of(s0),
            rs == resolution_of(s0),
            en == enters_of(s0),
            m == c0.max_tags as nat,
            short_listings(s0) ==> tags_view(collector.tags@) == branches_ids(ls, rs, en, p0, depth + 1, names, t1, m, k as int),
            !c0.cancelled && short_listings(s0) ==> tree_ids(ls, rs, en, p0, depth as int, tags_view(c0.tags@), m)
                == branches_ids(ls, rs, en, p0, depth + 1, names, t1, m, names.len() as int),
            names.len() == branches@.len(),
        decreases branches@.len() - k,
    {
        if collector.is_cancelled() || collector.is_full() {
            proof {
                if short_listings(s0) {
                    lemma_branches_stay_full(ls, rs, en, p0, depth + 1, names, t1, m, k as int, names.len() as int);
                }
            }
            return Ok(());
        }
        let ghost tk = tags_view(collector.tags@);
        let ghost bname = branches@[k as int]@;
        assert(names[k as int] == bname);
        match server.change_browse_position(BrowseDirection::Down, branches[k].as_str()) {
            Err(_) => {
                assert(!en(p0, bname));
                assert(same_space(s0, *server)) by {
                    lemma_same_space_trans(s0, s0, *server);
                }
            },
            Ok(()) => {
                let ghost c1 = *collector;
                let ghost s2 = *server;
                assert(en(p0, bname));
                proof {
                    lemma_same_space_trans(s0, s0, s2);
                }
                let _ = browse_recursive(server, collector, depth + 1);
                assert(collector.tags@.subrange(0, c0.tags@.len() as int) =~= c1.tags@.subrange(0, c0.tags@.len() as int));
                proof {
                    assert(listing_of(s2) =~= ls);
                    assert(resolution_of(s2) =~= rs);
                    assert(enters_of(s2) =~= en);
                    assert(s2.position() == p0.push(bname));
                    if short_listings(s0) {
                        assert forall|p: Seq<Seq<char>>, kd: BrowseType| (#[trigger] s2.listing(p, kd) matches Ok(v) ==> v.len()
                            < MAX_ENUMERATION_STEPS) by {
                            assert(s0.listing(p, kd) == s2.listing(p, kd));
                        }
                        assert(short_listings(s2));
                    }
                }
                let ghost s3 = *server;
                let _ = server.change_browse_position(BrowseDirection::Up, "");
                assert(p0.push(bname).drop_last() =~= p0);
                proof {
                    assert(same_space(s2, s3));
                    lemma_same_space_trans(s0, s2, s3);
                    lemma_same_space_trans(s0, s3, *server);
                    if short_listings(s0) {
                        assert(tags_view(collector.tags@) == tree_ids(ls, rs, en, p0.push(bname), depth + 1, tk, m));
                        assert(branches_ids(ls, rs, en, p0, depth + 1, names, t1, m, k + 1) == tree_ids(
                            ls,
                            rs,
                            en,
                            p0.push(bname),
                            depth + 1,
                            tk,
                            m,
                        ));
                    }
                }
            },
        }
        k = k + 1;
    }
    proof {
        if short_listings(s0) {
            assert(ok_names(be) == names);
        }
    }
    Ok(())
}

/// Browses the item IDs of a server into `collector` and returns them.
///
/// A cancelled browse returns what the collector held, untouched by the server.
/// Otherwise the collector is emptied first; a collector of capacity zero gives no
/// tags.  A flat address space is enumerated directly; a hierarchical one through the
/// flat enumeration when the server offers it, by traversal otherwise.  On success the
/// gathered tags are taken out of the collector, at most its capacity of them.
pub fn handle_browse<S: ConnectedServer>(
    server_id: &ServerIdentifier,
    collector: &mut TagCollector,
    opc_server: &mut S,
) -> (r: OpcResult<Vec<String>>)
    ensures
        final(collector).wf(),
        final(collector).max_tags == old(collector).max_tags,
        final(collector).cancelled == old(collector).cancelled,
        old(collector).cancelled ==> r == Ok::<Vec<String>, crate::error::OpcError>(old(collector).tags)
            && final(collector).tags@.len() == 0,
        !old(collector).cancelled && old(collector).max_tags == 0 ==> (r matches Ok(v) && v@.len() == 0),
        r matches Ok(v) ==> final(collector).tags@.len() == 0,
        !old(collector).cancelled ==> (r matches Ok(v) ==> v@.len() <= old(collector).max_tags),
        !old(collector).cancelled && old(collector).max_tags > 0 && short_listings(*old(opc_server)) ==> browse_answer(r)
            == spec_browse(*old(opc_server), old(collector).max_tags as nat),
{
    let ghost s0 = *opc_server;
    if collector.is_cancelled() {
        return Ok(collector.harvest());
    }
    if !collector.is_empty() {
        collector.clear();
    }
    if collector.is_full() {
        return Ok(Vec::new());
    }
    assert(tags_view(collector.tags@) =~= Seq::<Seq<char>>::empty());
    let org = match opc_server.query_organization() {
        Ok(o) => o,
        Err(e) => return Err(e),
    };
    let ghost s1 = *opc_server;
    assert(same_space(s0, s1));
    if org == NamespaceType::Flat {
        match browse_flat_namespace(server_id, collector, opc_server) {
            Ok(()) => {},
            Err(e) => return Err(e),
        }
    } else {
        let use_flat = try_fast_flat_browse(server_id, collector, opc_server);
        if !use_flat {
            let ghost s2 = *opc_server;
            proof {
                assert(listing_of(s2) =~= listing_of(s0));
                assert(resolution_of(s2) =~= resolution_of(s0));
                assert(enters_of(s2) =~= enters_of(s0));
                if short_listings(s0) {
                    assert forall|p: Seq<Seq<char>>, kd: BrowseType| (#[trigger] s2.listing(p, kd) matches Ok(v) ==> v.len()
                        < MAX_ENUMERATION_STEPS) by {
                        assert(s0.listing(p, kd) == s2.listing(p, kd));
                    }
                    assert(short_listings(s2));
                }
            }
            match browse_recursive(opc_server, collector, 0) {
                Ok(()) => {},
                Err(e) => return Err(e),
            }
        }
    }
    Ok(collector.harvest())
}

/// What a browse answers, as plain values.
pub open spec fn browse_answer(r: OpcResult<Vec<String>>) -> Result<Seq<Seq<char>>, OpcErrorView> {
    match r {
        Ok(v) => Ok(tags_view(v@)),
        Err(e) => Err(e@),
    }
}

/// What browsing a server within `max` tags answers: a flat address space gives its
/// leaves; a hierarchical one gives its flat enumeration when usable, else the
/// depth-first traversal from the current position; the failure to tell the
/// organization, or to list, is returned.
pub open spec fn spec_browse<S: ConnectedServer>(s: S, max: nat) -> Result<Seq<Seq<char>>, OpcErrorView> {
    let pos = s.position();
    match s.organization() {
        Err(e) => Err(e),
        Ok(NamespaceType::Flat) => match s.listing(pos, BrowseType::Leaf) {
            Err(e) => Err(e),
            Ok(es) => Ok(capped_append(Seq::empty(), resolved_ids(plain_names(), es), max)),
        },
        Ok(NamespaceType::Hierarchy) => if fast_flat_usable(s.listing(pos, BrowseType::Flat)) {
            Ok(capped_append(Seq::empty(), resolved_ids(plain_names(), s.listing(pos, BrowseType::Flat)->Ok_0), max))
        } else {
            match tree_error(listing_of(s), resolution_of(s), pos, 0, Seq::empty(), max) {
                Some(e) => Err(e),
                None => Ok(tree_ids(listing_of(s), resolution_of(s), enters_of(s), pos, 0, Seq::empty(), max)),
            }
        },
    }
}

/// What a browse with a collector that is `cancelled` or holds at most `max_tags` IDs
/// gives on `s`: nothing when it may hold none, and the IDs the server's answers lead to
/// when its enumerations are short.
pub open spec fn browse_gives<S: ConnectedServer>(cancelled: bool, max_tags: usize, s: S, out: OpcResult<Vec<String>>) -> bool {
    &&& !cancelled && max_tags == 0 ==> (out matches Ok(v) && v@.len() == 0)
    &&& !cancelled && max_tags > 0 && short_listings(s) ==> browse_answer(out) == spec_browse(s, max_tags as nat)
}

/// A browse of a server's item IDs, run against a pooled connection.
pub struct BrowseOp {
    /// What each run of the work so far came to.
    pub runs: Ghost<Seq<Option<OpcErrorView>>>,
    /// Endpoint browsed.
    pub endpoint: OpcServerEndpoint,
    /// Collector the IDs are gathered into.
    pub collector: TagCollector,
}

impl BrowseOp {
    /// The work, not run yet.
    pub fn new(endpoint: OpcServerEndpoint, collector: TagCollector) -> (r: Self)
        ensures
            r.runs@.len() == 0,
            r.endpoint == endpoint,
            r.collector == collector,
    {
        BrowseOp { endpoint, collector, runs: Ghost(Seq::empty()) }
    }
}

impl<S: ConnectedServer> PooledOperation<S> for BrowseOp {
    type Output = Vec<String>;

    open spec fn outcomes(&self) -> Seq<Option<OpcErrorView>> {
        self.runs@
    }

    open spec fn delivers(&self, out: Vec<String>) -> bool {
        !self.collector.cancelled ==> out@.len() <= self.collector.max_tags
    }

    open spec fn gives(&self, pooled: PooledServer<S>, out: OpcResult<Vec<String>>) -> bool {
        browse_gives(self.collector.cancelled, self.collector.max_tags, pooled.server, out)
    }

    fn run(&mut self, pooled: &mut PooledServer<S>, names: &mut GroupNameSequence) -> (r: OpcResult<Vec<String>>) {
        let r = handle_browse(&self.endpoint.identifier, &mut self.collector, &mut pooled.server);
        self.runs = Ghost(self.runs@.push(run_outcome(r)));
        r
    }
}

} // verus!
