//! Tag reading: registration-result partitioning, value assembly, and reads through a
//! pooled server's cache of active groups.

use vstd::prelude::*;
use crate::connector::traits::{ConnectedGroup, ConnectedServer, read_outcome_view, same_group_answers};
use crate::error::{OpcError, OpcErrorOf, OpcErrorView, OpcResult, spec_is_connection_error};
use crate::text::{concat_str, eq_ignore_ascii_case, spec_decimal, usize_to_string};
use crate::types::{
    DataSource, GroupItemResult, GroupItemResultView, GroupItemState, GroupItemStateView,
    OpcQuality, OpcServerEndpoint, QUALITY_BAD_COMM_FAILURE, QUALITY_BAD_CONFIG_ERROR,
    ServerGroupHandle, ServerIdentifier, ServerItemHandle, TagValue, TagValueView, TagValues, spec_identifier_display,
};
use crate::worker::write::results_view;
use crate::worker::{
    GroupNameSequence, MAX_TAG_BATCH_SIZE, RegisteredItemGroup, group_model_kept, register_item_group, registration_outcome,
};
use crate::worker::pool::{
    CachedGroup, MAX_ACTIVE_GROUPS, PooledOperation, PooledServer, batch_matches, promoted, fails_disconnected, first_match_index,
    group_tags, run_outcome, strings_view,
};

verus! {

/// Server handles of the registered items among the first `n` results.
pub open spec fn registered_handles(rs: Seq<GroupItemResultView>, n: int) -> Seq<ServerItemHandle>
    decreases n,
{
    if n <= 0 {
        Seq::empty()
    } else if rs[n - 1].error is Some {
        registered_handles(rs, n - 1)
    } else {
        registered_handles(rs, n - 1).push(rs[n - 1].server_handle)
    }
}

/// Positions of the registered items among the first `n` results.
pub open spec fn registered_indices(rs: Seq<GroupItemResultView>, n: int) -> Seq<usize>
    decreases n,
{
    if n <= 0 {
        Seq::empty()
    } else if rs[n - 1].error is Some {
        registered_indices(rs, n - 1)
    } else {
        registered_indices(rs, n - 1).push((n - 1) as usize)
    }
}

/// Positions and errors of the refused items among the first `n` results.
pub open spec fn refused_items(rs: Seq<GroupItemResultView>, n: int) -> Seq<(usize, OpcErrorView)>
    decreases n,
{
    if n <= 0 {
        Seq::empty()
    } else {
        match rs[n - 1].error {
            Some(e) => refused_items(rs, n - 1).push(((n - 1) as usize, e)),
            None => refused_items(rs, n - 1),
        }
    }
}

/// The views of position-and-error pairs.
pub open spec fn refusals_view(s: Seq<(usize, OpcError)>) -> Seq<(usize, OpcErrorView)> {
    s.map_values(|p: (usize, OpcError)| (p.0, p.1@))
}

/// Splits item registration results into the server handles and positions of the
/// items that registered, and the positions and errors of those that were refused.
pub fn partition_item_results(
    results: &Vec<GroupItemResult>,
    tag_ids: &Vec<String>,
    server_id: &ServerIdentifier,
) -> (r: (Vec<ServerItemHandle>, Vec<usize>, Vec<(usize, OpcError)>))
    ensures
        r.0@ == registered_handles(results_view(results@), results@.len() as int),
        r.1@ == registered_indices(results_view(results@), results@.len() as int),
        refusals_view(r.2@) == refused_items(results_view(results@), results@.len() as int),
{
    let mut handles: Vec<ServerItemHandle> = Vec::new();
    let mut valid: Vec<usize> = Vec::new();
    let mut rejected: Vec<(usize, OpcError)> = Vec::new();
    let mut i: usize = 0;
    while i < results.len()
        invariant
            i <= results@.len(),
            handles@ == registered_handles(results_view(results@), i as int),
            valid@ == registered_indices(results_view(results@), i as int),
            refusals_view(rejected@) == refused_items(results_view(results@), i as int),
        decreases results@.len() - i,
    {
        let ghost rv = results_view(results@);
        assert(rv[i as int] == results@[i as int]@);
        match &results[i].error {
            Some(err) => {
                let ghost before = rejected@;
                rejected.push((i, err.duplicate()));
                assert(refusals_view(rejected@) =~= refusals_view(before).push((i, err@)));
            },
            None => {
                handles.push(results[i].server_handle);
                valid.push(i);
            },
        }
        i = i + 1;
    }
    (handles, valid, rejected)
}

/// Every position listed as registered or refused among the first `n` results lies
/// below `n`.
proof fn lemma_partition_below(rs: Seq<GroupItemResultView>, n: int)
    requires
        0 <= n <= rs.len(),
        n <= usize::MAX,
    ensures
        forall|j: int|
            0 <= j < registered_indices(rs, n).len() ==> (#[trigger] registered_indices(rs, n)[j] as int) < n,
        forall|j: int| 0 <= j < refused_items(rs, n).len() ==> ((#[trigger] refused_items(rs, n)[j]).0 as int) < n,
    decreases n,
{
    if n > 0 {
        lemma_partition_below(rs, n - 1);
        let pi = registered_indices(rs, n - 1);
        let pr = refused_items(rs, n - 1);
        assert forall|j: int| 0 <= j < registered_indices(rs, n).len() implies (#[trigger] registered_indices(
            rs,
            n,
        )[j] as int) < n by {
            if j < pi.len() {
                assert(registered_indices(rs, n)[j] == pi[j]);
            }
        }
        assert forall|j: int| 0 <= j < refused_items(rs, n).len() implies ((#[trigger] refused_items(rs, n)[j]).0
            as int) < n by {
            if j < pr.len() {
                assert(refused_items(rs, n)[j] == pr[j]);
            }
        }
    }
}

/// Registration results split exactly: among the first `n`, the item at position `i` is
/// listed as registered if and only if its result carries no error, and is listed as
/// refused with an error if and only if its result carries that error.
pub proof fn law_registration_partition(rs: Seq<GroupItemResultView>, n: int, i: int)
    requires
        0 <= i < n <= rs.len(),
        n <= usize::MAX,
    ensures
        (rs[i].error is None) <==> registered_indices(rs, n).contains(i as usize),
        forall|e: OpcErrorView| rs[i].error == Some(e) <==> #[trigger] refused_items(rs, n).contains((i as usize, e)),
    decreases n,
{
    lemma_partition_below(rs, n - 1);
    let pi = registered_indices(rs, n - 1);
    let pr = refused_items(rs, n - 1);
    let ci = registered_indices(rs, n);
    let cr = refused_items(rs, n);
    if i < n - 1 {
        law_registration_partition(rs, n - 1, i);
    }
    if ci.contains(i as usize) {
        let k = choose|k: int| 0 <= k < ci.len() && ci[k] == i as usize;
        if k < pi.len() {
            assert(ci[k] == pi[k]);
            assert(pi.contains(i as usize));
        }
    }
    if rs[i].error is None {
        if i == n - 1 {
            assert(ci[pi.len() as int] == i as usize);
        } else {
            let k = choose|k: int| 0 <= k < pi.len() && pi[k] == i as usize;
            assert(ci[k] == pi[k]);
        }
    } else if ci.contains(i as usize) {
        let k = choose|k: int| 0 <= k < ci.len() && ci[k] == i as usize;
        if i == n - 1 {
            assert(ci == pi);
            assert((pi[k] as int) < n - 1);
        }
    }
    assert forall|e: OpcErrorView| rs[i].error == Some(e) <==> #[trigger] cr.contains((i as usize, e)) by {
        if cr.contains((i as usize, e)) {
            let k = choose|k: int| 0 <= k < cr.len() && cr[k] == (i as usize, e);
            if k < pr.len() {
                assert(cr[k] == pr[k]);
                assert(pr.contains((i as usize, e)));
                if i == n - 1 {
                    assert((pr[k].0 as int) < n - 1);
                }
            }
        }
        if rs[i].error == Some(e) {
            if i == n - 1 {
                assert(cr[pr.len() as int] == (i as usize, e));
            } else {
                assert(pr.contains((i as usize, e)));
                let k = choose|k: int| 0 <= k < pr.len() && pr[k] == (i as usize, e);
                assert(cr[k] == pr[k]);
            }
        }
    }
}

/// The handles and positions of the registered items line up: there is one handle per
/// registered position, the `j`-th handle is the server handle of the result at the
/// `j`-th position, and every result is either registered or refused.
pub proof fn law_handles_align(rs: Seq<GroupItemResultView>, n: int)
    requires
        0 <= n <= rs.len(),
        n <= usize::MAX,
    ensures
        registered_handles(rs, n).len() == registered_indices(rs, n).len(),
        registered_indices(rs, n).len() + refused_items(rs, n).len() == n,
        forall|j: int|
            0 <= j < registered_indices(rs, n).len() ==> #[trigger] registered_handles(rs, n)[j]
                == rs[registered_indices(rs, n)[j] as int].server_handle,
    decreases n,
{
    if n > 0 {
        law_handles_align(rs, n - 1);
        let ph = registered_handles(rs, n - 1);
        let pi = registered_indices(rs, n - 1);
        assert forall|j: int| 0 <= j < registered_indices(rs, n).len() implies #[trigger] registered_handles(rs, n)[j]
            == rs[registered_indices(rs, n)[j] as int].server_handle by {
            if j < pi.len() {
                assert(registered_handles(rs, n)[j] == ph[j]);
                assert(registered_indices(rs, n)[j] == pi[j]);
            }
        }
    }
}

/// The views of per-item read outcomes.
pub open spec fn states_view(s: Seq<OpcResult<GroupItemState>>) -> Seq<Result<GroupItemStateView, OpcErrorView>> {
    s.map_values(|o: OpcResult<GroupItemState>| match o {
        Ok(st) => Ok(st@),
        Err(e) => Err(e@),
    })
}

/// The value of a tag whose registration was refused with `e`.
pub open spec fn refused_value(tag: Seq<char>, e: OpcErrorView) -> TagValueView {
    TagValueView { tag_id: tag, outcome: Err(e), quality: OpcQuality(QUALITY_BAD_CONFIG_ERROR), timestamp: None }
}

/// The value of a tag read with outcome `o`.
pub open spec fn read_value(tag: Seq<char>, o: Result<GroupItemStateView, OpcErrorView>) -> TagValueView {
    match o {
        Ok(st) => TagValueView { tag_id: tag, outcome: Ok(st.value), quality: st.quality, timestamp: Some(st.timestamp) },
        Err(e) => TagValueView { tag_id: tag, outcome: Err(e), quality: OpcQuality(QUALITY_BAD_COMM_FAILURE), timestamp: None },
    }
}

/// Walks the first `k` tags: a tag whose position is the next refusal takes that
/// refusal, any other tag takes the next read outcome.  Gives the values with the
/// numbers of refusals and outcomes used, or the position at which the outcomes ran out.
pub open spec fn assemble_walk(
    tags: Seq<Seq<char>>,
    rej: Seq<(usize, OpcErrorView)>,
    states: Seq<Result<GroupItemStateView, OpcErrorView>>,
    k: int,
) -> Result<(Seq<TagValueView>, int, int), int>
    decreases k,
{
    if k <= 0 {
        Ok((Seq::empty(), 0, 0))
    } else {
        match assemble_walk(tags, rej, states, k - 1) {
            Err(i) => Err(i),
            Ok((vs, r, s)) => {
                let idx = k - 1;
                if 0 <= r < rej.len() && rej[r].0 == idx {
                    Ok((vs.push(refused_value(tags[idx], rej[r].1)), r + 1, s))
                } else if 0 <= s < states.len() {
                    Ok((vs.push(read_value(tags[idx], states[s])), r, s + 1))
                } else {
                    Err(idx)
                }
            },
        }
    }
}

/// Once the outcomes have run out, the walk stays at that position.
pub proof fn lemma_walk_stays_failed(
    tags: Seq<Seq<char>>,
    rej: Seq<(usize, OpcErrorView)>,
    states: Seq<Result<GroupItemStateView, OpcErrorView>>,
    k: int,
    m: int,
    i: int,
)
    requires
        k <= m,
        assemble_walk(tags, rej, states, k) == Err::<(Seq<TagValueView>, int, int), int>(i),
    ensures
        assemble_walk(tags, rej, states, m) == Err::<(Seq<TagValueView>, int, int), int>(i),
    decreases m - k,
{
    if k < m {
        lemma_walk_stays_failed(tags, rej, states, k, m - 1, i);
    }
}

/// Message of the error raised when a read answers with the wrong number of outcomes.
pub open spec fn spec_read_mismatch_message(server: Seq<char>, expected: nat, got: nat) -> Seq<char> {
    "Server "@ + server + " returned mismatched read result array size: expected "@ + spec_decimal(expected)
        + " items, got "@ + spec_decimal(got)
}

/// Message of the error raised when the read outcomes run out before the tags.
pub open spec fn spec_exhaustion_message(idx: nat, server: Seq<char>) -> Seq<char> {
    "Unexpected state exhaustion at index "@ + spec_decimal(idx) + " on server "@ + server
}

/// The views of tag values.
pub open spec fn tag_values_view(s: Seq<TagValue>) -> Seq<TagValueView> {
    s.map_values(|v: TagValue| v@)
}

/// The characters of each tag.
pub open spec fn tag_ids_view(s: Seq<String>) -> Seq<Seq<char>> {
    s.map_values(|t: String| t@)
}

fn read_mismatch_message(server: &str, expected: usize, got: usize) -> (r: String)
    ensures
        r@ == spec_read_mismatch_message(server@, expected as nat, got as nat),
{
    let e = usize_to_string(expected);
    let g = usize_to_string(got);
    let a = concat_str("Server ", server);
    let b = a.concat(" returned mismatched read result array size: expected ");
    let c = b.concat(e.as_str());
    let d = c.concat(" items, got ");
    proof {
        reveal_strlit("Server ");
        reveal_strlit(" returned mismatched read result array size: expected ");
        reveal_strlit(" items, got ");
    }
    d.concat(g.as_str())
}

fn exhaustion_message(idx: usize, server: &str) -> (r: String)
    ensures
        r@ == spec_exhaustion_message(idx as nat, server@),
{
    let d = usize_to_string(idx);
    let a = concat_str("Unexpected state exhaustion at index ", d.as_str());
    let b = a.concat(" on server ");
    proof {
        reveal_strlit("Unexpected state exhaustion at index ");
        reveal_strlit(" on server ");
    }
    b.concat(server)
}

/// Builds one value per tag from the refused registrations (position and error, in
/// position order) and the read outcomes of the registered items (in order): a refused
/// tag gets its error with configuration-error quality, a read failure gets
/// communication-failure quality, and a read value keeps the server's quality and
/// timestamp.  Fails when the number of outcomes differs from the number of registered
/// items, or when the outcomes run out.
#[verifier::loop_isolation(false)]
pub fn assemble_tag_values(
    tags: &Vec<String>,
    valid_indices: &Vec<usize>,
    rejected_errors: &Vec<(usize, OpcError)>,
    item_states: Option<Vec<OpcResult<GroupItemState>>>,
    server_id: &ServerIdentifier,
) -> (r: OpcResult<Vec<TagValue>>)
    ensures
        ({
            let states = match item_states { Some(v) => states_view(v@), None => Seq::empty() };
            let server = spec_identifier_display(server_id@);
            if states.len() != valid_indices@.len() {
                r matches Err(e) && e@ == OpcErrorOf::<Seq<char>>::Internal(
                    spec_read_mismatch_message(server, valid_indices@.len(), states.len()),
                )
            } else {
                match assemble_walk(tag_ids_view(tags@), refusals_view(rejected_errors@), states, tags@.len() as int) {
                    Ok((vs, _, _)) => r matches Ok(v) && tag_values_view(v@) == vs,
                    Err(idx) => r matches Err(e) && e@ == OpcErrorOf::<Seq<char>>::Internal(
                        spec_exhaustion_message(idx as nat, server),
                    ),
                }
            }
        }),
{
    let ghost isv = match item_states { Some(ref v) => states_view(v@), None => Seq::empty() };
    let states: Vec<OpcResult<GroupItemState>> = match item_states {
        Some(v) => v,
        None => Vec::new(),
    };
    let ghost sv = states_view(states@);
    assert(sv =~= isv);
    let server = server_id.display();
    if states.len() != valid_indices.len() {
        return Err(OpcErrorOf::Internal(read_mismatch_message(server.as_str(), valid_indices.len(), states.len())));
    }
    let ghost tv = tag_ids_view(tags@);
    let ghost rv = refusals_view(rejected_errors@);
    let mut values: Vec<TagValue> = Vec::new();
    let mut r: usize = 0;
    let mut s: usize = 0;
    let mut idx: usize = 0;
    assert(tag_values_view(values@) =~= Seq::<TagValueView>::empty());
    while idx < tags.len()
        invariant
            idx <= tags@.len(),
            sv == states_view(states@),
            sv == isv,
            sv.len() == valid_indices@.len(),
            tv == tag_ids_view(tags@),
            rv == refusals_view(rejected_errors@),
            server@ == spec_identifier_display(server_id@),
            assemble_walk(tv, rv, sv, idx as int) == Ok::<(Seq<TagValueView>, int, int), int>(
                (tag_values_view(values@), r as int, s as int),
            ),
            r <= rejected_errors@.len(),
            s <= states@.len(),
        decreases tags@.len() - idx,
    {
        let ghost before = values@;
        assert(tv[idx as int] == tags@[idx as int]@);
        if r < rejected_errors.len() && rejected_errors[r].0 == idx {
            assert(rv[r as int] == (rejected_errors@[r as int].0, rejected_errors@[r as int].1@));
            let err = rejected_errors[r].1.duplicate();
            values.push(TagValue {
                tag_id: tags[idx].clone(),
                outcome: Err(err),
                quality: OpcQuality(QUALITY_BAD_CONFIG_ERROR),
                timestamp: None,
            });
            r = r + 1;
        } else if s < states.len() {
            assert(sv[s as int] == match states@[s as int] { Ok(st) => Ok(st@), Err(e) => Err(e@) });
            let tv_new = match &states[s] {
                Ok(st) => TagValue {
                    tag_id: tags[idx].clone(),
                    outcome: Ok(st.value.duplicate()),
                    quality: st.quality,
                    timestamp: Some(st.timestamp),
                },
                Err(e) => TagValue {
                    tag_id: tags[idx].clone(),
                    outcome: Err(e.duplicate()),
                    quality: OpcQuality(QUALITY_BAD_COMM_FAILURE),
                    timestamp: None,
                },
            };
            values.push(tv_new);
            s = s + 1;
        } else {
            proof {
                assert(assemble_walk(tv, rv, sv, idx + 1) == Err::<(Seq<TagValueView>, int, int), int>(idx as int));
                lemma_walk_stays_failed(tv, rv, sv, idx + 1, tags@.len() as int, idx as int);
            }
            return Err(OpcErrorOf::Internal(exhaustion_message(idx, server.as_str())));
        }
        assert(tag_values_view(values@) =~= tag_values_view(before).push(values@.last()@));
        idx = idx + 1;
    }
    Ok(values)
}

/// A successful walk over `k` tags gives one value per tag, carrying that tag.
pub proof fn lemma_walk_tags(
    tags: Seq<Seq<char>>,
    rej: Seq<(usize, OpcErrorView)>,
    states: Seq<Result<GroupItemStateView, OpcErrorView>>,
    k: int,
)
    requires
        0 <= k <= tags.len(),
        assemble_walk(tags, rej, states, k) is Ok,
    ensures
        ({
            let vs = assemble_walk(tags, rej, states, k)->Ok_0.0;
            &&& vs.len() == k
            &&& forall|i: int| 0 <= i < k ==> (#[trigger] vs[i]).tag_id == tags[i]
        }),
    decreases k,
{
    if k > 0 {
        lemma_walk_tags(tags, rej, states, k - 1);
    }
}

/// A successful assembly gives one value per tag, in tag order, each carrying its tag.
pub proof fn law_values_follow_tags(
    tags: Seq<Seq<char>>,
    valid: nat,
    rej: Seq<(usize, OpcErrorView)>,
    states: Seq<Result<GroupItemStateView, OpcErrorView>>,
    server: Seq<char>,
)
    requires
        assembled_values(tags, valid, rej, states, server) is Ok,
    ensures
        ({
            let vs = assembled_values(tags, valid, rej, states, server)->Ok_0;
            &&& vs.len() == tags.len()
            &&& forall|i: int| 0 <= i < tags.len() ==> (#[trigger] vs[i]).tag_id == tags[i]
        }),
{
    lemma_walk_tags(tags, rej, states, tags.len() as int);
}

/// The refusals and registered positions among the first `k` results begin those among
/// the first `n`, and the later ones lie at positions `k` and above.
proof fn lemma_partition_prefix(rs: Seq<GroupItemResultView>, k: int, n: int)
    requires
        0 <= k <= n <= rs.len(),
        n <= usize::MAX,
    ensures
        refused_items(rs, k).len() <= refused_items(rs, n).len(),
        registered_indices(rs, k).len() <= registered_indices(rs, n).len(),
        refused_items(rs, n).subrange(0, refused_items(rs, k).len() as int) == refused_items(rs, k),
        registered_indices(rs, n).subrange(0, registered_indices(rs, k).len() as int) == registered_indices(rs, k),
        forall|j: int|
            refused_items(rs, k).len() <= j < refused_items(rs, n).len() ==> (#[trigger] refused_items(rs, n)[j]).0 >= k,
    decreases n - k,
{
    if k < n {
        lemma_partition_prefix(rs, k, n - 1);
        let rp = refused_items(rs, n - 1);
        let rn = refused_items(rs, n);
        let ip = registered_indices(rs, n - 1);
        let inn = registered_indices(rs, n);
        assert(rn.subrange(0, refused_items(rs, k).len() as int) =~= rp.subrange(0, refused_items(rs, k).len() as int));
        assert(inn.subrange(0, registered_indices(rs, k).len() as int) =~= ip.subrange(
            0,
            registered_indices(rs, k).len() as int,
        ));
        assert forall|j: int| refused_items(rs, k).len() <= j < rn.len() implies (#[trigger] rn[j]).0 >= k by {
            if j < rp.len() {
                assert(rn[j] == rp[j]);
            }
        }
    } else {
        assert(refused_items(rs, n).subrange(0, refused_items(rs, n).len() as int) =~= refused_items(rs, n));
        assert(registered_indices(rs, n).subrange(0, registered_indices(rs, n).len() as int) =~= registered_indices(rs, n));
    }
}

/// The walk over the first `k` tags, with the refusals and registered positions of all
/// `n` results: it has used the refusals and outcomes of the first `k` results, and
/// answers each tag at its own position.
proof fn lemma_walk_positions(
    tags: Seq<Seq<char>>,
    rs: Seq<GroupItemResultView>,
    states: Seq<Result<GroupItemStateView, OpcErrorView>>,
    n: int,
    k: int,
)
    requires
        0 <= k <= n,
        n == rs.len(),
        n == tags.len(),
        n <= usize::MAX,
        states.len() == registered_indices(rs, n).len(),
    ensures
        ({
            let w = assemble_walk(tags, refused_items(rs, n), states, k);
            &&& w is Ok
            &&& w->Ok_0.0.len() == k
            &&& w->Ok_0.1 == refused_items(rs, k).len()
            &&& w->Ok_0.2 == registered_indices(rs, k).len()
            &&& forall|i: int|
                0 <= i < k ==> (#[trigger] rs[i].error matches Some(e) ==> w->Ok_0.0[i] == refused_value(tags[i], e))
            &&& forall|j: int|
                0 <= j < registered_indices(rs, k).len() ==> w->Ok_0.0[#[trigger] registered_indices(rs, k)[j] as int]
                    == read_value(tags[registered_indices(rs, k)[j] as int], states[j])
        }),
    decreases k,
{
    if k > 0 {
        lemma_walk_positions(tags, rs, states, n, k - 1);
        lemma_partition_prefix(rs, k - 1, n);
        lemma_partition_prefix(rs, k, n);
        lemma_partition_below(rs, k - 1);
        let rej = refused_items(rs, n);
        let prev = assemble_walk(tags, rej, states, k - 1)->Ok_0;
        let (vs, r, s) = prev;
        let cur = assemble_walk(tags, rej, states, k)->Ok_0;
        let ip = registered_indices(rs, k - 1);
        let ik = registered_indices(rs, k);
        match rs[k - 1].error {
            Some(e) => {
                assert(refused_items(rs, k)[r] == ((k - 1) as usize, e));
                assert(rej[r] == refused_items(rs, k)[r]);
                assert(cur.0 == vs.push(refused_value(tags[k - 1], e)));
                assert(ik == ip);
            },
            None => {
                assert(refused_items(rs, k) == refused_items(rs, k - 1));
                if r < rej.len() {
                    assert(rej[r].0 >= k);
                }
                assert(ik == ip.push((k - 1) as usize));
                assert(s < states.len());
                assert(cur.0 == vs.push(read_value(tags[k - 1], states[s])));
                assert forall|j: int| 0 <= j < ik.len() implies cur.0[#[trigger] ik[j] as int] == read_value(
                    tags[ik[j] as int],
                    states[j],
                ) by {
                    if j < ip.len() {
                        assert(ik[j] == ip[j]);
                    }
                }
            },
        }
        assert forall|i: int| 0 <= i < k implies (#[trigger] rs[i].error matches Some(e) ==> cur.0[i] == refused_value(
            tags[i],
            e,
        )) by {
            if i < k - 1 {
                assert(cur.0[i] == vs[i]);
            }
        }
        assert forall|j: int| 0 <= j < ik.len() implies cur.0[#[trigger] ik[j] as int] == read_value(
            tags[ik[j] as int],
            states[j],
        ) by {
            if j < ip.len() {
                assert(ik[j] == ip[j]);
                assert((ip[j] as int) < k - 1);
                assert(cur.0[ip[j] as int] == vs[ip[j] as int]);
            }
        }
    }
}

/// Reading a batch answers every tag at its own position: a tag whose registration was
/// refused carries the refusal, and the `j`-th registered tag carries the `j`-th read
/// outcome, so refusals do not shift the tags after them.
pub proof fn law_read_values_by_position(
    tags: Seq<Seq<char>>,
    rs: Seq<GroupItemResultView>,
    states: Seq<Result<GroupItemStateView, OpcErrorView>>,
    server: Seq<char>,
)
    requires
        tags.len() == rs.len(),
        rs.len() <= usize::MAX,
        states.len() == registered_indices(rs, rs.len() as int).len(),
    ensures
        ({
            let n = rs.len() as int;
            let a = assembled_values(tags, registered_indices(rs, n).len(), refused_items(rs, n), states, server);
            &&& a is Ok
            &&& a->Ok_0.len() == tags.len()
            &&& forall|i: int| 0 <= i < n ==> (#[trigger] rs[i].error matches Some(e) ==> a->Ok_0[i] == refused_value(tags[i], e))
            &&& forall|j: int|
                0 <= j < registered_indices(rs, n).len() ==> a->Ok_0[#[trigger] registered_indices(rs, n)[j] as int]
                    == read_value(tags[registered_indices(rs, n)[j] as int], states[j])
        }),
{
    lemma_walk_positions(tags, rs, states, rs.len() as int, rs.len() as int);
}

/// Every string equals itself up to ASCII case.
pub proof fn lemma_batch_matches_itself(b: Seq<Seq<char>>)
    ensures
        batch_matches(b, b),
{
}

/// Message of the error returned for a batch larger than [`MAX_TAG_BATCH_SIZE`].
pub open spec fn spec_batch_limit_message(kind: Seq<char>, n: nat) -> Seq<char> {
    kind + " batch size "@ + spec_decimal(n) + " exceeds maximum allowed limit of 10000"@
}

/// Builds the message of the batch size error.
pub fn batch_limit_message(kind: &str, n: usize) -> (r: String)
    ensures
        r@ == spec_batch_limit_message(kind@, n as nat),
{
    let d = usize_to_string(n);
    let a = concat_str(kind, " batch size ");
    let b = a.concat(d.as_str());
    proof {
        reveal_strlit(" batch size ");
        reveal_strlit(" exceeds maximum allowed limit of 10000");
    }
    b.concat(" exceeds maximum allowed limit of 10000")
}

/// Copies a list of strings.
pub fn copy_strings(v: &Vec<String>) -> (r: Vec<String>)
    ensures
        strings_view(r@) == strings_view(v@),
        tag_ids_view(r@) == tag_ids_view(v@),
{
    let mut out: Vec<String> = Vec::new();
    let mut i: usize = 0;
    while i < v.len()
        invariant
            i <= v@.len(),
            out@.len() == i,
            forall|j: int| 0 <= j < i ==> (#[trigger] out@[j])@ == v@[j]@,
        decreases v@.len() - i,
    {
        out.push(v[i].clone());
        i = i + 1;
    }
    assert(strings_view(out@) =~= strings_view(v@));
    assert(tag_ids_view(out@) =~= tag_ids_view(v@));
    out
}

/// What assembling the values of `tags` gives from the refusals `rej` and the read
/// outcomes `states` of the `valid` registered items, on the server named `server`.
pub open spec fn assembled_values(
    tags: Seq<Seq<char>>,
    valid: nat,
    rej: Seq<(usize, OpcErrorView)>,
    states: Seq<Result<GroupItemStateView, OpcErrorView>>,
    server: Seq<char>,
) -> Result<Seq<TagValueView>, OpcErrorView> {
    if states.len() != valid {
        Err(OpcErrorOf::Internal(spec_read_mismatch_message(server, valid, states.len())))
    } else {
        match assemble_walk(tags, rej, states, tags.len() as int) {
            Ok((vs, _, _)) => Ok(vs),
            Err(idx) => Err(OpcErrorOf::Internal(spec_exhaustion_message(idx as nat, server))),
        }
    }
}

/// What reading the registered items `handles` of group `g` answers; with no registered
/// item nothing is read.
pub open spec fn group_read<G: ConnectedGroup>(g: G, handles: Seq<ServerItemHandle>) -> Result<
    Seq<Result<GroupItemStateView, OpcErrorView>>,
    OpcErrorView,
> {
    if handles.len() > 0 {
        g.read_answer(handles)
    } else {
        Ok(Seq::empty())
    }
}

/// What reading `tags` through a group newly registered on `s` gives: the registration's
/// failure, the read's failure, or the values assembled from the refusals and outcomes.
pub open spec fn fresh_read_outcome<S: ConnectedServer>(s: S, server: Seq<char>, tags: Seq<Seq<char>>) -> Result<
    Seq<TagValueView>,
    OpcErrorView,
> {
    match registration_outcome(s, tags) {
        Err(e) => Err(e),
        Ok(rs) => match group_read(s.fresh_group(), registered_handles(rs, rs.len() as int)) {
            Err(e) => Err(e),
            Ok(states) => assembled_values(
                tags,
                registered_indices(rs, rs.len() as int).len(),
                refused_items(rs, rs.len() as int),
                states,
                server,
            ),
        },
    }
}

/// What reading through the cached group `g` gives: the values assembled from its read,
/// a connection error of that read, or `fresh` after any other read failure.
pub open spec fn cached_read_outcome<G: ConnectedGroup>(
    g: CachedGroup<G>,
    server: Seq<char>,
    fresh: Result<Seq<TagValueView>, OpcErrorView>,
) -> Result<Seq<TagValueView>, OpcErrorView> {
    match group_read(g.group, g.server_item_handles@) {
        Err(e) => if spec_is_connection_error(e) {
            Err(e)
        } else {
            fresh
        },
        Ok(states) => assembled_values(
            tag_ids_view(g.tags@),
            g.valid_indices@.len(),
            refusals_view(g.rejected_errors@),
            states,
            server,
        ),
    }
}

/// The plain values of a read's result.
pub open spec fn values_result_view(r: OpcResult<TagValues>) -> Result<Seq<TagValueView>, OpcErrorView> {
    match r {
        Ok(v) => Ok(tag_values_view(v.values@)),
        Err(e) => Err(e@),
    }
}

/// What reading `tags` through the pooled server `p` gives, on the server named `server`:
/// nothing for an empty batch, the limit error for an oversized one, the first cached
/// group matching the batch when there is one, else a fresh registration.
pub open spec fn read_outcome<S: ConnectedServer>(p: PooledServer<S>, server: Seq<char>, tags: Seq<String>) -> Result<
    Seq<TagValueView>,
    OpcErrorView,
> {
    if tags.len() == 0 {
        Ok(Seq::empty())
    } else if tags.len() > MAX_TAG_BATCH_SIZE {
        Err(OpcErrorOf::InvalidState(spec_batch_limit_message("Tag"@, tags.len())))
    } else {
        let fresh = fresh_read_outcome(p.server, server, tag_ids_view(tags));
        if exists|k: int| #[trigger] first_match_index(group_tags(p.active_groups@), strings_view(tags), k) {
            let k = choose|k: int| #[trigger] first_match_index(group_tags(p.active_groups@), strings_view(tags), k);
            cached_read_outcome(p.active_groups@[k], server, fresh)
        } else {
            fresh
        }
    }
}

/// The cases of [`read_outcome`]: a batch with no matching cached group is read afresh,
/// and one whose first match is `k` is read through that group.
pub proof fn lemma_read_outcome_cases<S: ConnectedServer>(p: PooledServer<S>, server: Seq<char>, tags: Seq<String>)
    ensures
        0 < tags.len() <= MAX_TAG_BATCH_SIZE && (forall|j: int|
            0 <= j < p.active_groups@.len() ==> !batch_matches(#[trigger] group_tags(p.active_groups@)[j], strings_view(tags)))
            ==> read_outcome(p, server, tags) == fresh_read_outcome(p.server, server, tag_ids_view(tags)),
        forall|k: int|
            0 < tags.len() <= MAX_TAG_BATCH_SIZE && #[trigger] first_match_index(
                group_tags(p.active_groups@),
                strings_view(tags),
                k,
            ) ==> read_outcome(p, server, tags) == cached_read_outcome(
                p.active_groups@[k],
                server,
                fresh_read_outcome(p.server, server, tag_ids_view(tags)),
            ),
{
    let gt = group_tags(p.active_groups@);
    let b = strings_view(tags);
    assert forall|k: int| 0 < tags.len() <= MAX_TAG_BATCH_SIZE && #[trigger] first_match_index(gt, b, k) implies read_outcome(
        p,
        server,
        tags,
    ) == cached_read_outcome(p.active_groups@[k], server, fresh_read_outcome(p.server, server, tag_ids_view(tags))) by {
        let c = choose|c: int| #[trigger] first_match_index(gt, b, c);
        if c < k {
            assert(!batch_matches(gt[c], b));
        } else if c > k {
            assert(!batch_matches(gt[k], b));
        }
    }
}

/// A fresh read gives the same on two servers that add groups alike.
pub proof fn lemma_fresh_read_outcome_kept<S: ConnectedServer>(a: S, b: S, server: Seq<char>, tags: Seq<Seq<char>>)
    requires
        group_model_kept(a, b),
    ensures
        fresh_read_outcome(a, server, tags) == fresh_read_outcome(b, server, tags),
{
}

/// Reads the values of `tags` through `pooled`.
///
/// An empty batch reads nothing; a batch over [`MAX_TAG_BATCH_SIZE`] is refused.  When a
/// cached group matches the batch it is promoted and read; a connection error of that
/// read is returned (the connection is stale), any other read error drops the group and
/// the batch is registered afresh.  On a cache miss a group is registered, read, and on
/// success cached as the most recently used group.  A successful read gives one value per
/// tag, in order, and leaves a group matching the batch at the front of the cache.
#[verifier::rlimit(50)]
pub fn handle_read<S: ConnectedServer>(
    endpoint: &OpcServerEndpoint,
    tags: &Vec<String>,
    pooled: &mut PooledServer<S>,
    names: &mut GroupNameSequence,
) -> (r: OpcResult<TagValues>)
    requires
        old(pooled).wf(),
    ensures
        final(pooled).wf(),
        final(names).pid == old(names).pid,
        values_result_view(r) == read_outcome(*old(pooled), spec_identifier_display(endpoint.identifier@), tags@),
        tags@.len() == 0 ==> (r matches Ok(v) && v.values@.len() == 0) && *final(pooled) == *old(pooled),
        tags@.len() > MAX_TAG_BATCH_SIZE ==> (r matches Err(e) && e@ == OpcErrorOf::<Seq<char>>::InvalidState(
            spec_batch_limit_message("Tag"@, tags@.len()),
        )) && *final(pooled) == *old(pooled),
        r matches Ok(v) ==> v.values@.len() == tags@.len() && forall|i: int|
            0 <= i < tags@.len() ==> eq_ignore_ascii_case(#[trigger] v.values@[i].tag_id@, tags@[i]@),
        (r is Ok && tags@.len() > 0) ==> final(pooled).active_groups@.len() > 0 && batch_matches(
            group_tags(final(pooled).active_groups@)[0],
            strings_view(tags@),
        ),
        0 < tags@.len() <= MAX_TAG_BATCH_SIZE && (forall|j: int|
            0 <= j < old(pooled).active_groups@.len() ==> !batch_matches(
                #[trigger] group_tags(old(pooled).active_groups@)[j],
                strings_view(tags@),
            )) ==> fresh_read_calls(
            old(pooled).server.group_log(),
            final(pooled).server.group_log(),
            old(pooled).active_groups@,
            r,
        ) && values_result_view(r) == fresh_read_outcome(
            old(pooled).server,
            spec_identifier_display(endpoint.identifier@),
            tag_ids_view(tags@),
        ),
        forall|k: int|
            0 < tags@.len() <= MAX_TAG_BATCH_SIZE && #[trigger] first_match_index(
                group_tags(old(pooled).active_groups@),
                strings_view(tags@),
                k,
            ) ==> cached_read_calls(
                old(pooled).server.group_log(),
                final(pooled).server.group_log(),
                old(pooled).active_groups@[k],
                spec_identifier_display(endpoint.identifier@),
                r,
            ) && (cached_read_answers(old(pooled).active_groups@[k], spec_identifier_display(endpoint.identifier@))
                ==> kept_promoted(old(pooled).active_groups@, final(pooled).active_groups@, k))
                && values_result_view(r) == cached_read_outcome(
                old(pooled).active_groups@[k],
                spec_identifier_display(endpoint.identifier@),
                fresh_read_outcome(
                    old(pooled).server,
                    spec_identifier_display(endpoint.identifier@),
                    tag_ids_view(tags@),
                ),
            ),
{
    proof {
        lemma_read_outcome_cases(*old(pooled), spec_identifier_display(endpoint.identifier@), tags@);
    }
    if tags.len() == 0 {
        let empty: Vec<TagValue> = Vec::new();
        assert(tag_values_view(empty@) =~= Seq::<TagValueView>::empty());
        return Ok(TagValues::new(empty));
    }
    if tags.len() > MAX_TAG_BATCH_SIZE {
        proof {
            reveal_strlit("Tag");
        }
        return Err(OpcErrorOf::InvalidState(batch_limit_message("Tag", tags.len())));
    }
    let ghost l0 = pooled.server.group_log();
    let ghost ag0 = pooled.active_groups@;
    let ghost mut hit: Option<ServerGroupHandle> = None;
    match pooled.find_active_group_idx(tags) {
        Some(idx) => {
            proof {
                assert forall|k: int| #[trigger] first_match_index(group_tags(ag0), strings_view(tags@), k) implies k
                    == idx by {
                    if k < idx {
                        assert(!batch_matches(group_tags(ag0)[k], strings_view(tags@)));
                    } else if k > idx {
                        assert(!batch_matches(group_tags(ag0)[idx as int], strings_view(tags@)));
                    }
                }
            }
            pooled.promote_group(idx);
            let ghost promoted_groups = pooled.active_groups@;
            assert(promoted_groups[0] == ag0[idx as int]);
            assert(batch_matches(group_tags(promoted_groups)[0], strings_view(tags@))) by {
                assert(group_tags(promoted_groups)[0] == group_tags(old(pooled).active_groups@)[idx as int]);
            }
            let front = pooled.active_groups.pop_front();
            let ghost rest = pooled.active_groups@;
            match front {
                Some(mut cached) => {
                    let ghost cached0 = cached;
                    assert(rest =~= promoted_groups.subrange(1, promoted_groups.len() as int));
                    assert(cached == promoted_groups[0]);
                    let read_res: Option<OpcResult<Vec<OpcResult<GroupItemState>>>> = if cached.server_item_handles.len() > 0 {
                        let a = cached.group.read(DataSource::Device, cached.server_item_handles.as_slice());
                        proof {
                            match a {
                                Ok(ref st) => {
                                    assert(states_view(st@) =~= st@.map_values(
                                        |o: OpcResult<GroupItemState>| read_outcome_view(o),
                                    ));
                                },
                                Err(_) => {},
                            }
                        }
                        Some(a)
                    } else {
                        None
                    };
                    let states: Option<Option<Vec<OpcResult<GroupItemState>>>> = match read_res {
                        Some(Ok(st)) => Some(Some(st)),
                        None => Some(None),
                        Some(Err(e)) => {
                            if e.is_connection_error() {
                                pooled.active_groups.push_front(cached);
                                proof {
                                    let after = pooled.active_groups@;
                                    assert(after.subrange(1, after.len() as int) =~= rest);
                                    assert(same_group_answers(cached.group, cached0.group));
                                    assert(kept_promoted(ag0, after, idx as int));
                                }
                                return Err(e);
                            }
                            let _ = pooled.server.remove_group(cached.server_handle, crate::types::GroupRemovalMode::Force);
                            proof {
                                hit = Some(cached.server_handle);
                            }
                            assert(pooled.server.group_log() == l0.push(Some(ag0[idx as int].server_handle)));
                            None
                        },
                    };
                    match states {
                        Some(st) => {
                            let ghost stv = match st { Some(ref v) => states_view(v@), None => Seq::empty() };
                            let assembled = assemble_tag_values(
                                &cached.tags,
                                &cached.valid_indices,
                                &cached.rejected_errors,
                                st,
                                &endpoint.identifier,
                            );
                            match assembled {
                                Ok(values) => {
                                    proof {
                                        let tv = tag_ids_view(cached.tags@);
                                        assert(strings_view(cached.tags@) == group_tags(promoted_groups)[0]);
                                        assert(tv =~= strings_view(cached.tags@));
                                        lemma_walk_tags(
                                            tv,
                                            refusals_view(cached.rejected_errors@),
                                            stv,
                                            cached.tags@.len() as int,
                                        );
                                        assert forall|i: int| 0 <= i < tags@.len() implies eq_ignore_ascii_case(
                                            #[trigger] values@[i].tag_id@,
                                            tags@[i]@,
                                        ) by {
                                            assert(tag_values_view(values@)[i] == values@[i]@);
                                            assert(strings_view(tags@)[i] == tags@[i]@);
                                        }
                                    }
                                    pooled.active_groups.push_front(cached);
                                    proof {
                                        let after = pooled.active_groups@;
                                        assert(after.subrange(1, after.len() as int) =~= rest);
                                        assert(same_group_answers(cached.group, cached0.group));
                                        assert(kept_promoted(ag0, after, idx as int));
                                        assert(pooled.active_groups@[0] == cached);
                                        assert(cached.tags == cached0.tags);
                                        assert(group_tags(pooled.active_groups@)[0] == strings_view(cached.tags@));
                                        assert(group_tags(promoted_groups)[0] == strings_view(cached0.tags@));
                                    }
                                    return Ok(TagValues::new(values));
                                },
                                Err(e) => {
                                    let _ = pooled.server.remove_group(cached.server_handle, crate::types::GroupRemovalMode::Force);
                                    return Err(e);
                                },
                            }
                        },
                        None => {},
                    }
                },
                None => {
                    assert(false);
                },
            }
        },
        None => {},
    }
    let ghost lb = pooled.server.group_log();
    let ghost ag1 = pooled.active_groups@;
    assert(hit is None ==> lb == l0 && ag1 == ag0);
    let ghost s1 = pooled.server;
    assert(group_model_kept(old(pooled).server, s1));
    let r = read_fresh(endpoint, tags, pooled, names);
    proof {
        lemma_fresh_read_outcome_kept(
            old(pooled).server,
            s1,
            spec_identifier_display(endpoint.identifier@),
            tag_ids_view(tags@),
        );
        let after = pooled.server.group_log();
        if hit is Some {
            assert(after.subrange(0, lb.len() + 1int)[l0.len() as int] == after[l0.len() as int]);
            assert(lb.push(None)[l0.len() as int] == lb[l0.len() as int]);
            assert(after.subrange(0, lb.len() + 1int)[lb.len() as int] == after[lb.len() as int]);
            assert(lb.push(None)[lb.len() as int] == None::<ServerGroupHandle>);
        }
    }
    r
}

/// The group calls of a read that registers its batch afresh, made after the calls `before`
/// on a server caching `cached`: a group is added first; on success that group is kept
/// (only the least recently used cached group is removed, when the cache was full).
pub open spec fn fresh_read_calls<G, T>(
    before: Seq<Option<ServerGroupHandle>>,
    after: Seq<Option<ServerGroupHandle>>,
    cached: Seq<CachedGroup<G>>,
    r: OpcResult<T>,
) -> bool {
    &&& before.len() < after.len() <= before.len() + 2
    &&& after.subrange(0, before.len() + 1int) == before.push(None)
    &&& r is Ok ==> (after.len() == before.len() + 1 || (cached.len() >= MAX_ACTIVE_GROUPS && after == before.push(
        None,
    ).push(Some(cached.last().server_handle))))
}

/// The group calls of a read of a batch found cached as `g` on the server named
/// `server`, made after the calls `before`: none when the group's read answers (with
/// outcomes that assemble, or with a connection error that is returned); the removal of
/// `g` alone when its outcomes do not assemble; and after any other read failure, the
/// removal of `g` followed by the addition of a new group for the batch, each once (a
/// failed fresh read then removes its own group again).
pub open spec fn cached_read_calls<G: ConnectedGroup, T>(
    before: Seq<Option<ServerGroupHandle>>,
    after: Seq<Option<ServerGroupHandle>>,
    g: CachedGroup<G>,
    server: Seq<char>,
    r: OpcResult<T>,
) -> bool {
    match group_read(g.group, g.server_item_handles@) {
        Ok(states) => if assembled_values(
            tag_ids_view(g.tags@),
            g.valid_indices@.len(),
            refusals_view(g.rejected_errors@),
            states,
            server,
        ) is Ok {
            after == before
        } else {
            after == before.push(Some(g.server_handle))
        },
        Err(e) => if spec_is_connection_error(e) {
            after == before
        } else {
            &&& before.len() + 1 < after.len() <= before.len() + 3
            &&& after[before.len() as int] == Some(g.server_handle)
            &&& after[before.len() + 1int] == None::<ServerGroupHandle>
            &&& r is Ok ==> after.len() == before.len() + 2
        },
    }
}

/// Whether reading through the cached group `g` answers without dropping it: its
/// outcomes assemble, or it fails with a connection error.
pub open spec fn cached_read_answers<G: ConnectedGroup>(g: CachedGroup<G>, server: Seq<char>) -> bool {
    match group_read(g.group, g.server_item_handles@) {
        Ok(states) => assembled_values(
            tag_ids_view(g.tags@),
            g.valid_indices@.len(),
            refusals_view(g.rejected_errors@),
            states,
            server,
        ) is Ok,
        Err(e) => spec_is_connection_error(e),
    }
}

/// The cache `after` is `before` with the group at `k` moved to the front, the others
/// kept in order, and the moved group the same entry answering alike.
pub open spec fn kept_promoted<G: ConnectedGroup>(before: Seq<CachedGroup<G>>, after: Seq<CachedGroup<G>>, k: int) -> bool {
    let p = promoted(before, k);
    &&& after.len() == p.len()
    &&& after.len() > 0
    &&& same_cached_group(after[0], before[k])
    &&& after.subrange(1, after.len() as int) == p.subrange(1, p.len() as int)
}

/// Two cache entries for the same tags, handles and refusals, whose groups answer alike.
pub open spec fn same_cached_group<G: ConnectedGroup>(a: CachedGroup<G>, b: CachedGroup<G>) -> bool {
    &&& a.tags == b.tags
    &&& a.server_handle == b.server_handle
    &&& a.server_item_handles == b.server_item_handles
    &&& a.valid_indices == b.valid_indices
    &&& a.rejected_errors == b.rejected_errors
    &&& same_group_answers(a.group, b.group)
}

/// The cache-miss read of [`handle_read`]: registers the batch in a new group, reads it,
/// and on success caches the group as the most recently used.
#[verifier::spinoff_prover]
fn read_fresh<S: ConnectedServer>(
    endpoint: &OpcServerEndpoint,
    tags: &Vec<String>,
    pooled: &mut PooledServer<S>,
    names: &mut GroupNameSequence,
) -> (r: OpcResult<TagValues>)
    requires
        old(pooled).wf(),
    ensures
        final(pooled).wf(),
        final(names).pid == old(names).pid,
        r matches Ok(v) ==> v.values@.len() == tags@.len() && forall|i: int|
            0 <= i < tags@.len() ==> eq_ignore_ascii_case(#[trigger] v.values@[i].tag_id@, tags@[i]@),
        r is Ok ==> final(pooled).active_groups@.len() > 0 && batch_matches(
            group_tags(final(pooled).active_groups@)[0],
            strings_view(tags@),
        ),
        fresh_read_calls(old(pooled).server.group_log(), final(pooled).server.group_log(), old(pooled).active_groups@, r),
        values_result_view(r) == fresh_read_outcome(
            old(pooled).server,
            spec_identifier_display(endpoint.identifier@),
            tag_ids_view(tags@),
        ),
{
    let tag_ids = copy_strings(tags);
    let ghost l0 = pooled.server.group_log();
    let ghost s0 = pooled.server;
    let ghost ids = tag_ids_view(tags@);
    assert(tag_ids@.map_values(|t: String| t@) =~= ids);
    let reg = match register_item_group(&mut pooled.server, &endpoint.identifier, names, "opc-read", &tag_ids) {
        Ok(reg) => reg,
        Err(e) => return Err(e),
    };
    let ghost l1 = pooled.server.group_log();
    assert(l1 == l0.push(None));
    let RegisteredItemGroup { mut group, mut group_guard, item_results } = reg;
    let ghost rs = results_view(item_results@);
    assert(registration_outcome(s0, ids) == Ok::<Seq<GroupItemResultView>, OpcErrorView>(rs));
    let (handles, valid, rejected) = partition_item_results(&item_results, &tag_ids, &endpoint.identifier);
    assert(group.read_answer(handles@) == s0.fresh_group().read_answer(handles@));
    let item_states: Option<Vec<OpcResult<GroupItemState>>> = if handles.len() > 0 {
        match group.read(DataSource::Device, handles.as_slice()) {
            Ok(st) => {
                assert(states_view(st@) =~= st@.map_values(|o: OpcResult<GroupItemState>| read_outcome_view(o)));
                Some(st)
            },
            Err(e) => {
                let _ = group_guard.release(&mut pooled.server);
                assert(pooled.server.group_log().subrange(0, l0.len() + 1int) =~= l0.push(None));
                return Err(e);
            },
        }
    } else {
        None
    };
    let ghost sv = match item_states { Some(ref v) => states_view(v@), None => Seq::empty() };
    let values = match assemble_tag_values(&tag_ids, &valid, &rejected, item_states, &endpoint.identifier) {
        Ok(v) => v,
        Err(e) => {
            let _ = group_guard.release(&mut pooled.server);
            assert(pooled.server.group_log().subrange(0, l0.len() + 1int) =~= l0.push(None));
            return Err(e);
        },
    };
    proof {
        let tv = tag_ids_view(tag_ids@);
        lemma_walk_tags(tv, refusals_view(rejected@), sv, tag_ids@.len() as int);
        assert forall|i: int| 0 <= i < tags@.len() implies eq_ignore_ascii_case(
            #[trigger] values@[i].tag_id@,
            tags@[i]@,
        ) by {
            assert(tag_values_view(values@)[i] == values@[i]@);
            assert(tag_ids_view(tags@)[i] == tags@[i]@);
            assert(tv[i] == tag_ids@[i]@);
        }
    }
    let server_handle = group_guard.disarm();
    let cached = CachedGroup {
        tags: tag_ids,
        group,
        server_handle,
        server_item_handles: handles,
        valid_indices: valid,
        rejected_errors: rejected,
    };
    let ghost l2 = pooled.server.group_log();
    assert(l2 == l0.push(None));
    pooled.insert_active_group(cached);
    proof {
        assert(pooled.server.group_log().subrange(0, l0.len() + 1int) =~= l0.push(None));
        let front = pooled.active_groups@[0];
        assert(group_tags(pooled.active_groups@)[0] == strings_view(front.tags@));
        lemma_batch_matches_itself(strings_view(tags@));
    }
    Ok(TagValues::new(values))
}

/// A read of a batch of tags, run against a pooled connection.
pub struct ReadOp {
    /// What each run of the work so far came to.
    pub runs: Ghost<Seq<Option<OpcErrorView>>>,
    /// Endpoint being read.
    pub endpoint: OpcServerEndpoint,
    /// Tags to read, in order.
    pub tags: Vec<String>,
}

impl ReadOp {
    /// The work, not run yet.
    pub fn new(endpoint: OpcServerEndpoint, tags: Vec<String>) -> (r: Self)
        ensures
            r.runs@.len() == 0,
            r.endpoint == endpoint,
            r.tags == tags,
    {
        ReadOp { endpoint, tags, runs: Ghost(Seq::empty()) }
    }
}

/// One value per requested tag, in request order.
pub open spec fn values_answer_tags(values: TagValues, tags: Seq<String>) -> bool {
    &&& values.values@.len() == tags.len()
    &&& forall|i: int| 0 <= i < tags.len() ==> eq_ignore_ascii_case(#[trigger] values.values@[i].tag_id@, tags[i]@)
}

impl<S: ConnectedServer> PooledOperation<S> for ReadOp {
    type Output = TagValues;

    open spec fn outcomes(&self) -> Seq<Option<OpcErrorView>> {
        self.runs@
    }

    open spec fn delivers(&self, out: TagValues) -> bool {
        values_answer_tags(out, self.tags@)
    }

    open spec fn gives(&self, pooled: PooledServer<S>, out: OpcResult<TagValues>) -> bool {
        values_result_view(out) == read_outcome(pooled, spec_identifier_display(self.endpoint.identifier@), self.tags@)
    }

    fn run(&mut self, pooled: &mut PooledServer<S>, names: &mut GroupNameSequence) -> (r: OpcResult<TagValues>) {
        let r = handle_read(&self.endpoint, &self.tags, pooled, names);
        self.runs = Ghost(self.runs@.push(run_outcome(r)));
        r
    }
}

} // verus!
