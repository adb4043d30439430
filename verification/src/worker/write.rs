//! Tag writing: input validation, registration-result partitioning and result assembly.

use vstd::prelude::*;
use crate::error::{OpcError, OpcErrorOf, OpcErrorView, OpcResult};
use crate::text::{spec_decimal, usize_to_string, str_has_char};
use crate::connector::traits::{ConnectedGroup, ConnectedServer, item_writes_view};
use crate::types::OpcServerEndpoint;
use crate::worker::{GroupNameSequence, MAX_TAG_BATCH_SIZE, RegisteredItemGroup, register_item_group, registration_outcome};
use crate::worker::pool::{PooledOperation, PooledServer, run_outcome};
use crate::worker::read::{batch_limit_message, spec_batch_limit_message};
use crate::types::{
    GroupItemResult, GroupItemResultView, ItemWrite, ItemWriteView, OpcValue, OpcValueView, ServerIdentifier,
    WriteResult, WriteResultView, spec_identifier_display, status_view,
};

verus! {

/// Message of the error given to a tag that holds a NUL character.
pub open spec fn spec_nul_message() -> Seq<char> {
    "Tag identifier contains illegal interior null byte"@
}

/// Whether a tag identifier holds an interior NUL character.
pub open spec fn has_nul(tag: Seq<char>) -> bool {
    tag.contains('\0')
}

/// The view of an optional write result.
pub open spec fn slot_view(o: Option<WriteResult>) -> Option<WriteResultView> {
    match o {
        Some(w) => Some(w@),
        None => None,
    }
}

/// The views of a sequence of optional write results.
pub open spec fn slots_view(s: Seq<Option<WriteResult>>) -> Seq<Option<WriteResultView>> {
    s.map_values(|o: Option<WriteResult>| slot_view(o))
}

/// A write request as plain values: the tag and the value.
pub type RequestView = (Seq<char>, OpcValueView);

/// The plain values of write requests.
pub open spec fn requests_view(items: Seq<(&str, &OpcValue)>) -> Seq<RequestView> {
    items.map_values(|p: (&str, &OpcValue)| (p.0@, p.1@))
}

/// The tag text of the `i`-th write request.
pub open spec fn item_tag(items: Seq<RequestView>, i: int) -> Seq<char> {
    items[i].0
}

/// Indices, in order, of the first `n` requests whose tag holds no NUL character.
pub open spec fn clean_indices(items: Seq<RequestView>, n: int) -> Seq<usize>
    decreases n,
{
    if n <= 0 {
        Seq::empty()
    } else if has_nul(item_tag(items, n - 1)) {
        clean_indices(items, n - 1)
    } else {
        clean_indices(items, n - 1).push((n - 1) as usize)
    }
}

/// The failure recorded for a tag quarantined because it holds a NUL character.
pub open spec fn nul_failure(tag: Seq<char>) -> WriteResultView {
    WriteResultView { tag_id: tag, status: Err(OpcErrorOf::InvalidState(spec_nul_message())) }
}

/// Splits write requests into those whose tag can be registered and those quarantined
/// because the tag holds a NUL character.  Returns the clean tags, their indices in
/// `items`, and one slot per request: quarantined requests get their failure, the others
/// stay empty.
pub fn partition_write_inputs<'a>(items: &[(&'a str, &OpcValue)], server_id: &ServerIdentifier) -> (r: (
    Vec<&'a str>,
    Vec<usize>,
    Vec<Option<WriteResult>>,
))
    ensures
        r.1@ == clean_indices(requests_view(items@), items@.len() as int),
        r.0@.len() == r.1@.len(),
        forall|k: int| 0 <= k < r.0@.len() ==> #[trigger] r.0@[k]@ == item_tag(requests_view(items@), r.1@[k] as int),
        r.2@.len() == items@.len(),
        forall|i: int|
            0 <= i < items@.len() ==> #[trigger] slot_view(r.2@[i]) == (if has_nul(item_tag(requests_view(items@), i)) {
                Some(nul_failure(item_tag(requests_view(items@), i)))
            } else {
                None::<WriteResultView>
            }),
{
    let mut valid_tags: Vec<&'a str> = Vec::new();
    let mut valid_orig_indices: Vec<usize> = Vec::new();
    let mut write_results: Vec<Option<WriteResult>> = Vec::new();
    let n = items.len();
    let mut i: usize = 0;
    while i < n
        invariant
            n == items@.len(),
            i <= n,
            valid_orig_indices@ == clean_indices(requests_view(items@), i as int),
            valid_tags@.len() == valid_orig_indices@.len(),
            forall|k: int|
                0 <= k < valid_tags@.len() ==> #[trigger] valid_tags@[k]@ == item_tag(
                    requests_view(items@),
                    valid_orig_indices@[k] as int,
                ),
            write_results@.len() == i,
            forall|j: int|
                0 <= j < i ==> #[trigger] slot_view(write_results@[j]) == (if has_nul(item_tag(requests_view(items@), j)) {
                    Some(nul_failure(item_tag(requests_view(items@), j)))
                } else {
                    None::<WriteResultView>
                }),
        decreases n - i,
    {
        let tag_id: &'a str = items[i].0;
        if str_has_char(tag_id, '\0') {
            let err = OpcErrorOf::InvalidState(String::from_str("Tag identifier contains illegal interior null byte"));
            proof { reveal_strlit("Tag identifier contains illegal interior null byte"); }
            write_results.push(Some(WriteResult::failure(tag_id, err)));
        } else {
            valid_tags.push(tag_id);
            valid_orig_indices.push(i);
            write_results.push(None);
        }
        i = i + 1;
    }
    (valid_tags, valid_orig_indices, write_results)
}

} // verus!

verus! {

/// Message of the error raised when the slot buffer and the requests differ in length.
pub open spec fn spec_buffer_mismatch_message(func: Seq<char>, slots: nat, items: nat) -> Seq<char> {
    "Buffer size mismatch in "@ + func + ": write_results="@ + spec_decimal(slots) + ", items="@
        + spec_decimal(items)
}

/// Message of the error raised when a request position lies outside the requests.
pub open spec fn spec_index_out_of_bounds_message(what: Seq<char>, idx: nat, len: nat) -> Seq<char> {
    "Original "@ + what + " index "@ + spec_decimal(idx) + " out of bounds for items array (len "@
        + spec_decimal(len) + ")"@
}

/// Message of the error raised when the server answers registration with the wrong
/// number of results.
pub open spec fn spec_registration_count_message(server: Seq<char>, expected: nat, got: nat) -> Seq<char> {
    "Server "@ + server + " returned mismatched item registration count: expected "@
        + spec_decimal(expected) + ", got "@ + spec_decimal(got)
}

/// Message of the error raised when the server answers a write with the wrong number of
/// results.
pub open spec fn spec_write_count_message(server: Seq<char>, expected: nat, got: nat) -> Seq<char> {
    "Server "@ + server + " returned mismatched write result array size: expected "@
        + spec_decimal(expected) + ", got "@ + spec_decimal(got)
}

/// Message of the failure given to a request whose slot no stage filled.
pub open spec fn spec_unpopulated_message(tag: Seq<char>, server: Seq<char>) -> Seq<char> {
    "Write result slot for tag '"@ + tag + "' was not populated by server "@ + server
}

/// Builds the buffer-mismatch message.
fn buffer_mismatch_message(func: &str, slots: usize, items: usize) -> (r: String)
    ensures
        r@ == spec_buffer_mismatch_message(func@, slots as nat, items as nat),
{
    let a = usize_to_string(slots);
    let b = usize_to_string(items);
    let s = String::from_str("Buffer size mismatch in ");
    let s = s.concat(func);
    let s = s.concat(": write_results=");
    let s = s.concat(a.as_str());
    let s = s.concat(", items=");
    s.concat(b.as_str())
}

/// Builds the index-out-of-bounds message.
fn index_out_of_bounds_message(what: &str, idx: usize, len: usize) -> (r: String)
    ensures
        r@ == spec_index_out_of_bounds_message(what@, idx as nat, len as nat),
{
    let a = usize_to_string(idx);
    let b = usize_to_string(len);
    let s = String::from_str("Original ");
    let s = s.concat(what);
    let s = s.concat(" index ");
    let s = s.concat(a.as_str());
    let s = s.concat(" out of bounds for items array (len ");
    let s = s.concat(b.as_str());
    s.concat(")")
}

/// Builds a "Server .. returned mismatched .." message with the given middle text.
fn server_count_message(server: &str, middle: &str, expected: usize, got: usize) -> (r: String)
    ensures
        r@ == "Server "@ + server@ + middle@ + spec_decimal(expected as nat) + ", got "@
            + spec_decimal(got as nat),
{
    let a = usize_to_string(expected);
    let b = usize_to_string(got);
    let s = String::from_str("Server ");
    let s = s.concat(server);
    let s = s.concat(middle);
    let s = s.concat(a.as_str());
    let s = s.concat(", got ");
    s.concat(b.as_str())
}

/// All of the first `k` request positions lie below `n`.
pub open spec fn indices_below(idx: Seq<usize>, n: nat, k: int) -> bool {
    forall|j: int| 0 <= j < k ==> (#[trigger] idx[j] as nat) < n
}

/// Slots after recording the registration failures among the first `k` results.
pub open spec fn reg_slots(
    ws: Seq<Option<WriteResultView>>,
    results: Seq<GroupItemResultView>,
    idx: Seq<usize>,
    items: Seq<RequestView>,
    k: int,
) -> Seq<Option<WriteResultView>>
    decreases k,
{
    if k <= 0 {
        ws
    } else {
        let prev = reg_slots(ws, results, idx, items, k - 1);
        match results[k - 1].error {
            Some(e) => prev.update(
                idx[k - 1] as int,
                Some(WriteResultView { tag_id: item_tag(items, idx[k - 1] as int), status: Err(e) }),
            ),
            None => prev,
        }
    }
}

/// Request positions, in order, of the first `k` results that registered successfully.
pub open spec fn reg_valid_indices(results: Seq<GroupItemResultView>, idx: Seq<usize>, k: int) -> Seq<usize>
    decreases k,
{
    if k <= 0 {
        Seq::empty()
    } else if results[k - 1].error is Some {
        reg_valid_indices(results, idx, k - 1)
    } else {
        reg_valid_indices(results, idx, k - 1).push(idx[k - 1])
    }
}

/// Pending writes, in order, for the first `k` results that registered successfully.
pub open spec fn reg_writes(
    results: Seq<GroupItemResultView>,
    idx: Seq<usize>,
    items: Seq<RequestView>,
    k: int,
) -> Seq<ItemWriteView>
    decreases k,
{
    if k <= 0 {
        Seq::empty()
    } else if results[k - 1].error is Some {
        reg_writes(results, idx, items, k - 1)
    } else {
        reg_writes(results, idx, items, k - 1).push(
            ItemWriteView { handle: results[k - 1].server_handle, value: items[idx[k - 1] as int].1 },
        )
    }
}

/// The views of registration results.
pub open spec fn results_view(s: Seq<GroupItemResult>) -> Seq<GroupItemResultView> {
    s.map_values(|r: GroupItemResult| r@)
}

/// The views of pending writes.
pub open spec fn writes_view(s: Seq<ItemWrite>) -> Seq<ItemWriteView> {
    s.map_values(|w: ItemWrite| w@)
}

/// Records registration failures into the slot buffer and gathers the pending writes of
/// the items that registered.  `results[k]` answers the request at
/// `valid_orig_indices[k]`.
pub fn partition_item_registration_results(
    results: Vec<GroupItemResult>,
    valid_orig_indices: &[usize],
    items: &[(&str, &OpcValue)],
    write_results: &mut Vec<Option<WriteResult>>,
    server_id: &ServerIdentifier,
) -> (r: OpcResult<(Vec<ItemWrite>, Vec<usize>)>)
    ensures
        old(write_results)@.len() != items@.len() ==> {
            &&& r matches Err(e) && e@ == OpcErrorOf::<Seq<char>>::Internal(
                spec_buffer_mismatch_message(
                    "partition_item_registration_results"@,
                    old(write_results)@.len(),
                    items@.len(),
                ),
            )
            &&& final(write_results)@ == old(write_results)@
        },
        old(write_results)@.len() == items@.len() && results@.len() != valid_orig_indices@.len() ==> {
            &&& r matches Err(e) && e@ == OpcErrorOf::<Seq<char>>::Internal(
                spec_registration_count_message(
                    spec_identifier_display(server_id@),
                    valid_orig_indices@.len(),
                    results@.len(),
                ),
            )
            &&& final(write_results)@ == old(write_results)@
        },
        old(write_results)@.len() == items@.len() && results@.len() == valid_orig_indices@.len() ==> {
            let res = results_view(results@);
            let idx = valid_orig_indices@;
            let n = items@.len();
            &&& forall|b: int|
                0 <= b < idx.len() && indices_below(idx, n, b) && idx[b] >= n ==> {
                    &&& r matches Err(e) && e@ == OpcErrorOf::<Seq<char>>::Internal(
                        spec_index_out_of_bounds_message("item"@, idx[b] as nat, n),
                    )
                    &&& slots_view(final(write_results)@) == reg_slots(
                        slots_view(old(write_results)@),
                        res,
                        idx,
                        requests_view(items@),
                        b,
                    )
                }
            &&& indices_below(idx, n, idx.len() as int) ==> {
                &&& r matches Ok(p) && writes_view(p.0@) == reg_writes(res, idx, requests_view(items@), idx.len() as int)
                    && p.1@ == reg_valid_indices(res, idx, idx.len() as int)
                &&& slots_view(final(write_results)@) == reg_slots(
                    slots_view(old(write_results)@),
                    res,
                    idx,
                    requests_view(items@),
                    idx.len() as int,
                )
            }
        },
{
    if write_results.len() != items.len() {
        return Err(OpcErrorOf::Internal(buffer_mismatch_message(
            "partition_item_registration_results",
            write_results.len(),
            items.len(),
        )));
    }
    if results.len() != valid_orig_indices.len() {
        let server = server_id.display();
        return Err(OpcErrorOf::Internal(server_count_message(
            server.as_str(),
            " returned mismatched item registration count: expected ",
            valid_orig_indices.len(),
            results.len(),
        )));
    }
    let ghost res = results_view(results@);
    let ghost idx = valid_orig_indices@;
    let ghost ws0 = slots_view(write_results@);
    let n = items.len();
    let m = results.len();
    let mut valid_writes: Vec<ItemWrite> = Vec::new();
    let mut valid_write_orig_indices: Vec<usize> = Vec::new();
    let mut k: usize = 0;
    while k < m
        invariant
            m == results@.len(),
            m == idx.len(),
            idx == valid_orig_indices@,
            res == results_view(results@),
            n == items@.len(),
            write_results@.len() == n,
            old(write_results)@.len() == n,
            ws0 == slots_view(old(write_results)@),
            k <= m,
            indices_below(idx, n as nat, k as int),
            slots_view(write_results@) == reg_slots(ws0, res, idx, requests_view(items@), k as int),
            writes_view(valid_writes@) == reg_writes(res, idx, requests_view(items@), k as int),
            valid_write_orig_indices@ == reg_valid_indices(res, idx, k as int),
        decreases m - k,
    {
        let orig_idx = valid_orig_indices[k];
        if orig_idx >= n {
            proof {
                assert forall|b: int| 0 <= b < idx.len() && indices_below(idx, n as nat, b) && idx[b] >= n
                    implies b == k by {
                    if b < k {
                        assert(idx[b] < n);
                    }
                    if b > k {
                        assert(idx[k as int] < n);
                    }
                }
            }
            return Err(OpcErrorOf::Internal(index_out_of_bounds_message("item", orig_idx, n)));
        }
        let tag_id: &str = items[orig_idx].0;
        let val: &OpcValue = items[orig_idx].1;
        let item_res = &results[k];
        assert(res[k as int] == item_res@);
        match &item_res.error {
            Some(e) => {
                let failed = WriteResult::failure(tag_id, e.duplicate());
                write_results[orig_idx] = Some(failed);
                assert(slots_view(write_results@) =~= reg_slots(ws0, res, idx, requests_view(items@), k + 1));
            },
            None => {
                valid_writes.push(ItemWrite { handle: item_res.server_handle, value: val.duplicate() });
                valid_write_orig_indices.push(orig_idx);
                assert(writes_view(valid_writes@) =~= reg_writes(res, idx, requests_view(items@), k + 1));
            },
        }
        k = k + 1;
    }
    Ok((valid_writes, valid_write_orig_indices))
}

} // verus!

verus! {

/// Slots after recording the first `k` server write outcomes.
pub open spec fn write_slots(
    ws: Seq<Option<WriteResultView>>,
    server: Seq<Result<(), OpcErrorView>>,
    idx: Seq<usize>,
    items: Seq<RequestView>,
    k: int,
) -> Seq<Option<WriteResultView>>
    decreases k,
{
    if k <= 0 {
        ws
    } else {
        write_slots(ws, server, idx, items, k - 1).update(
            idx[k - 1] as int,
            Some(WriteResultView { tag_id: item_tag(items, idx[k - 1] as int), status: server[k - 1] }),
        )
    }
}

/// The outcome reported for each request once every stage has run: its slot when filled,
/// otherwise a failure saying that no stage filled it.
pub open spec fn final_write_results(
    slots: Seq<Option<WriteResultView>>,
    items: Seq<RequestView>,
    server: Seq<char>,
) -> Seq<WriteResultView> {
    Seq::new(
        slots.len(),
        |i: int|
            match slots[i] {
                Some(w) => w,
                None => WriteResultView {
                    tag_id: item_tag(items, i),
                    status: Err(OpcErrorOf::Internal(spec_unpopulated_message(item_tag(items, i), server))),
                },
            },
    )
}

/// The views of server write outcomes.
pub open spec fn statuses_view(s: Seq<OpcResult<()>>) -> Seq<Result<(), OpcErrorView>> {
    s.map_values(|o: OpcResult<()>| status_view(o))
}

/// The views of write results.
pub open spec fn write_results_view(s: Seq<WriteResult>) -> Seq<WriteResultView> {
    s.map_values(|w: WriteResult| w@)
}

/// Builds the message for a slot left empty.
fn unpopulated_message(tag: &str, server: &str) -> (r: String)
    ensures
        r@ == spec_unpopulated_message(tag@, server@),
{
    let s = String::from_str("Write result slot for tag '");
    let s = s.concat(tag);
    let s = s.concat("' was not populated by server ");
    s.concat(server)
}

/// Fills the slots of the registered requests with the server's write outcomes
/// (`server_write_results[k]` answers the request at `valid_write_orig_indices[k]`), then
/// returns one result per request in request order; a slot that no stage filled becomes a
/// failure saying so.
pub fn assemble_write_results(
    items: &[(&str, &OpcValue)],
    write_results: Vec<Option<WriteResult>>,
    valid_write_orig_indices: &[usize],
    server_write_results: Option<Vec<OpcResult<()>>>,
    server_id: &ServerIdentifier,
) -> (r: OpcResult<Vec<WriteResult>>)
    ensures
        ({
            let n = items@.len();
            let idx = valid_write_orig_indices@;
            let ws = slots_view(write_results@);
            let server = spec_identifier_display(server_id@);
            if write_results@.len() != n {
                r matches Err(e) && e@ == OpcErrorOf::<Seq<char>>::Internal(
                    spec_buffer_mismatch_message("assemble_write_results"@, write_results@.len(), n),
                )
            } else {
                match server_write_results {
                    None => r matches Ok(v) && write_results_view(v@) == final_write_results(ws, requests_view(items@), server),
                    Some(sr) => {
                        if sr@.len() != idx.len() {
                            r matches Err(e) && e@ == OpcErrorOf::<Seq<char>>::Internal(
                                spec_write_count_message(server, idx.len(), sr@.len()),
                            )
                        } else if indices_below(idx, n, idx.len() as int) {
                            r matches Ok(v) && write_results_view(v@) == final_write_results(
                                write_slots(ws, statuses_view(sr@), idx, requests_view(items@), idx.len() as int),
                                requests_view(items@),
                                server,
                            )
                        } else {
                            forall|b: int|
                                0 <= b < idx.len() && indices_below(idx, n, b) && idx[b] >= n
                                    ==> (r matches Err(e) && e@ == OpcErrorOf::<Seq<char>>::Internal(
                                    spec_index_out_of_bounds_message("write"@, idx[b] as nat, n),
                                ))
                        }
                    },
                }
            }
        }),
{
    let mut write_results = write_results;
    let n = items.len();
    if write_results.len() != n {
        return Err(OpcErrorOf::Internal(buffer_mismatch_message(
            "assemble_write_results",
            write_results.len(),
            n,
        )));
    }
    let server = server_id.display();
    let ghost ws0 = slots_view(write_results@);
    let ghost idx = valid_write_orig_indices@;
    let ghost filled: Seq<Option<WriteResultView>>;
    proof {
        filled = ws0;
    }
    match server_write_results {
        None => {},
        Some(server_res) => {
            let m = server_res.len();
            if m != valid_write_orig_indices.len() {
                return Err(OpcErrorOf::Internal(server_count_message(
                    server.as_str(),
                    " returned mismatched write result array size: expected ",
                    valid_write_orig_indices.len(),
                    m,
                )));
            }
            let ghost sv = statuses_view(server_res@);
            let mut k: usize = 0;
            #[verifier::loop_isolation(false)]
            while k < m
                invariant
                    m == server_res@.len(),
                    m == idx.len(),
                    idx == valid_write_orig_indices@,
                    sv == statuses_view(server_res@),
                    n == items@.len(),
                    write_results@.len() == n,
                    k <= m,
                    indices_below(idx, n as nat, k as int),
                    slots_view(write_results@) == write_slots(ws0, sv, idx, requests_view(items@), k as int),
                decreases m - k,
            {
                let orig_idx = valid_write_orig_indices[k];
                if orig_idx >= n {
                    proof {
                        assert forall|b: int|
                            0 <= b < idx.len() && indices_below(idx, n as nat, b) && idx[b] >= n implies b
                            == k by {
                            if b < k {
                                assert(idx[b] < n);
                            }
                            if b > k {
                                assert(idx[k as int] < n);
                            }
                        }
                        assert(!indices_below(idx, n as nat, idx.len() as int));
                    }
                    return Err(OpcErrorOf::Internal(index_out_of_bounds_message("write", orig_idx, n)));
                }
                let tag_id: &str = items[orig_idx].0;
                let res = &server_res[k];
                let outcome = match res {
                    Ok(()) => WriteResult::success(tag_id),
                    Err(e) => WriteResult::failure(tag_id, e.duplicate()),
                };
                assert(outcome@.status == sv[k as int]);
                write_results[orig_idx] = Some(outcome);
                assert(slots_view(write_results@) =~= write_slots(ws0, sv, idx, requests_view(items@), k + 1));
                k = k + 1;
            }
            proof {
                filled = write_slots(ws0, sv, idx, requests_view(items@), m as int);
            }
        },
    }
    let mut final_results: Vec<WriteResult> = Vec::new();
    let mut i: usize = 0;
    while i < n
        invariant
            n == items@.len(),
            write_results@.len() == n,
            slots_view(write_results@) == filled,
            i <= n,
            final_results@.len() == i,
            forall|j: int|
                0 <= j < i ==> #[trigger] final_results@[j]@ == final_write_results(filled, requests_view(items@), server@)[j],
        decreases n - i,
    {
        let r = match &write_results[i] {
            Some(w) => w.duplicate(),
            None => {
                let tag_id: &str = items[i].0;
                WriteResult::failure(tag_id, OpcErrorOf::Internal(unpopulated_message(tag_id, server.as_str())))
            },
        };
        final_results.push(r);
        i = i + 1;
    }
    assert(write_results_view(final_results@) =~= final_write_results(filled, requests_view(items@), server@));
    Ok(final_results)
}

/// Every filled slot carries the tag of the request at its position.
pub open spec fn slots_tagged(slots: Seq<Option<WriteResultView>>, items: Seq<RequestView>) -> bool {
    forall|i: int| 0 <= i < slots.len() ==> (#[trigger] slots[i] matches Some(w) ==> w.tag_id == item_tag(items, i))
}

/// When the NUL screening keeps no request, every tag holds a NUL character.
pub proof fn lemma_no_clean_index(items: Seq<RequestView>, n: int)
    requires
        0 <= n <= items.len(),
        clean_indices(items, n).len() == 0,
    ensures
        forall|j: int| 0 <= j < n ==> has_nul(#[trigger] item_tag(items, j)),
    decreases n,
{
    if n > 0 {
        if !has_nul(item_tag(items, n - 1)) {
            assert(clean_indices(items, n).len() == clean_indices(items, n - 1).len() + 1);
        }
        lemma_no_clean_index(items, n - 1);
    }
}

/// Indices produced by the NUL screening lie below the number of requests, and are
/// exactly the positions of NUL-free tags.
pub proof fn lemma_clean_indices(items: Seq<RequestView>, n: int)
    requires
        0 <= n <= items.len(),
        n <= usize::MAX,
    ensures
        indices_below(clean_indices(items, n), n as nat, clean_indices(items, n).len() as int),
        forall|j: int|
            0 <= j < clean_indices(items, n).len() ==> !has_nul(item_tag(items, #[trigger] clean_indices(items, n)[j] as int)),
    decreases n,
{
    if n > 0 {
        lemma_clean_indices(items, n - 1);
        let prev = clean_indices(items, n - 1);
        let cur = clean_indices(items, n);
        if !has_nul(item_tag(items, n - 1)) {
            assert(cur == prev.push((n - 1) as usize));
            assert forall|j: int| 0 <= j < cur.len() implies !has_nul(item_tag(items, #[trigger] cur[j] as int)) by {
                if j < prev.len() {
                    assert(cur[j] == prev[j]);
                }
            }
            assert forall|j: int| 0 <= j < cur.len() implies (#[trigger] cur[j] as nat) < n as nat by {
                if j < prev.len() {
                    assert(cur[j] == prev[j]);
                }
            }
        }
    }
}

/// Registration outcomes only fill slots at the registered positions, with their tags.
pub proof fn lemma_reg_slots(
    ws: Seq<Option<WriteResultView>>,
    res: Seq<GroupItemResultView>,
    idx: Seq<usize>,
    items: Seq<RequestView>,
    k: int,
)
    requires
        0 <= k <= idx.len(),
        ws.len() == items.len(),
        indices_below(idx, ws.len(), k),
        slots_tagged(ws, items),
    ensures
        reg_slots(ws, res, idx, items, k).len() == ws.len(),
        slots_tagged(reg_slots(ws, res, idx, items, k), items),
        forall|i: int|
            0 <= i < ws.len() && (forall|j: int| 0 <= j < k ==> idx[j] != i) ==> #[trigger] reg_slots(ws, res, idx, items, k)[i]
                == ws[i],
    decreases k,
{
    if k > 0 {
        lemma_reg_slots(ws, res, idx, items, k - 1);
        assert(idx[k - 1] < ws.len());
        let prev = reg_slots(ws, res, idx, items, k - 1);
        assert forall|i: int|
            0 <= i < ws.len() && (forall|j: int| 0 <= j < k ==> idx[j] != i) implies #[trigger] reg_slots(ws, res, idx, items, k)[i]
            == ws[i] by {
            assert(forall|j: int| 0 <= j < k - 1 ==> idx[j] != i);
            assert(idx[k - 1] != i);
            assert(prev[i] == ws[i]);
        }
    }
}

/// Registered positions are drawn from the candidate positions.
pub proof fn lemma_reg_valid_indices(res: Seq<GroupItemResultView>, idx: Seq<usize>, k: int, n: nat)
    requires
        0 <= k <= idx.len(),
        indices_below(idx, n, k),
    ensures
        indices_below(reg_valid_indices(res, idx, k), n, reg_valid_indices(res, idx, k).len() as int),
        forall|j: int|
            0 <= j < reg_valid_indices(res, idx, k).len() ==> exists|b: int|
                0 <= b < k && idx[b] == #[trigger] reg_valid_indices(res, idx, k)[j],
    decreases k,
{
    if k > 0 {
        lemma_reg_valid_indices(res, idx, k - 1, n);
        let prev = reg_valid_indices(res, idx, k - 1);
        let cur = reg_valid_indices(res, idx, k);
        assert forall|j: int| 0 <= j < cur.len() implies exists|b: int| 0 <= b < k && idx[b] == #[trigger] cur[j] by {
            if j < prev.len() {
                assert(cur[j] == prev[j]);
                let b = choose|b: int| 0 <= b < k - 1 && idx[b] == prev[j];
                assert(0 <= b < k && idx[b] == cur[j]);
            } else {
                assert(cur[j] == idx[k - 1]);
            }
        }
    }
}

/// Server outcomes only fill slots at the written positions, with their tags.
pub proof fn lemma_write_slots(
    ws: Seq<Option<WriteResultView>>,
    server: Seq<Result<(), OpcErrorView>>,
    idx: Seq<usize>,
    items: Seq<RequestView>,
    k: int,
)
    requires
        0 <= k <= idx.len(),
        ws.len() == items.len(),
        indices_below(idx, ws.len(), k),
        slots_tagged(ws, items),
    ensures
        write_slots(ws, server, idx, items, k).len() == ws.len(),
        slots_tagged(write_slots(ws, server, idx, items, k), items),
        forall|i: int|
            0 <= i < ws.len() && (forall|j: int| 0 <= j < k ==> idx[j] != i) ==> #[trigger] write_slots(ws, server, idx, items, k)[i]
                == ws[i],
    decreases k,
{
    if k > 0 {
        lemma_write_slots(ws, server, idx, items, k - 1);
        assert(idx[k - 1] < ws.len());
        let prev = write_slots(ws, server, idx, items, k - 1);
        assert forall|i: int|
            0 <= i < ws.len() && (forall|j: int| 0 <= j < k ==> idx[j] != i) implies #[trigger] write_slots(ws, server, idx, items, k)[i]
            == ws[i] by {
            assert(forall|j: int| 0 <= j < k - 1 ==> idx[j] != i);
            assert(idx[k - 1] != i);
            assert(prev[i] == ws[i]);
        }
    }
}

/// The final results of tagged slots carry the tags of the requests, in order.
pub proof fn lemma_final_write_results_tagged(
    slots: Seq<Option<WriteResultView>>,
    items: Seq<RequestView>,
    server: Seq<char>,
)
    requires
        slots.len() == items.len(),
        slots_tagged(slots, items),
    ensures
        final_write_results(slots, items, server).len() == items.len(),
        forall|i: int|
            0 <= i < items.len() ==> (#[trigger] final_write_results(slots, items, server)[i]).tag_id == item_tag(items, i),
{
    assert forall|i: int| 0 <= i < items.len() implies (#[trigger] final_write_results(
        slots,
        items,
        server,
    )[i]).tag_id == item_tag(items, i) by {
        assert(slots[i] matches Some(w) ==> w.tag_id == item_tag(items, i));
    }
}

/// The slots of `reqs` after the NUL screening: a request whose tag holds a NUL
/// character holds its failure, the others are still open.
pub open spec fn screened_slots(reqs: Seq<RequestView>) -> Seq<Option<WriteResultView>> {
    Seq::new(
        reqs.len(),
        |i: int|
            if has_nul(reqs[i].0) {
                Some(nul_failure(reqs[i].0))
            } else {
                None
            },
    )
}

/// The tags of the requests at the positions `idx`, in order.
pub open spec fn tags_at(reqs: Seq<RequestView>, idx: Seq<usize>) -> Seq<Seq<char>> {
    idx.map_values(|i: usize| reqs[i as int].0)
}

/// The plain values of write requests given as owned tags.
pub open spec fn writes_requests(writes: Seq<(String, OpcValue)>) -> Seq<RequestView> {
    writes.map_values(|w: (String, OpcValue)| (w.0@, w.1@))
}

/// The plain values of a batch write's result.
pub open spec fn write_batch_view(r: OpcResult<Vec<WriteResult>>) -> Result<Seq<WriteResultView>, OpcErrorView> {
    match r {
        Ok(v) => Ok(write_results_view(v@)),
        Err(e) => Err(e@),
    }
}

/// What writing the requests `reqs` through a group newly registered on `s` gives:
/// requests whose tag holds a NUL character fail without reaching the server; the others
/// are registered, those the server refuses fail with its error, and the rest are written
/// and answered with the server's outcome, position by position.  A failure of the
/// registration or of the write as a whole is the batch's failure.
pub open spec fn write_batch_outcome<S: ConnectedServer>(s: S, server: Seq<char>, reqs: Seq<RequestView>) -> Result<
    Seq<WriteResultView>,
    OpcErrorView,
> {
    let idx = clean_indices(reqs, reqs.len() as int);
    let ws0 = screened_slots(reqs);
    if idx.len() == 0 {
        Ok(final_write_results(ws0, reqs, server))
    } else {
        match registration_outcome(s, tags_at(reqs, idx)) {
            Err(e) => Err(e),
            Ok(res) => {
                let ws1 = reg_slots(ws0, res, idx, reqs, idx.len() as int);
                let vidx = reg_valid_indices(res, idx, idx.len() as int);
                let pending = reg_writes(res, idx, reqs, idx.len() as int);
                if pending.len() > 0 {
                    match s.fresh_group().write_answer(pending) {
                        Err(e) => Err(e),
                        Ok(sr) => if sr.len() != vidx.len() {
                            Err(OpcErrorOf::Internal(spec_write_count_message(server, vidx.len(), sr.len())))
                        } else {
                            Ok(final_write_results(write_slots(ws1, sr, vidx, reqs, vidx.len() as int), reqs, server))
                        },
                    }
                } else {
                    Ok(final_write_results(ws1, reqs, server))
                }
            },
        }
    }
}

/// Positions that occur at most once among the first `k` of `idx`.
pub open spec fn distinct_indices(idx: Seq<usize>, k: int) -> bool {
    forall|a: int, b: int| 0 <= a < b < k ==> #[trigger] idx[a] != #[trigger] idx[b]
}

/// Each written position holds its own server outcome, with its request's tag.
proof fn lemma_write_slots_hit(
    ws: Seq<Option<WriteResultView>>,
    server: Seq<Result<(), OpcErrorView>>,
    idx: Seq<usize>,
    items: Seq<RequestView>,
    k: int,
)
    requires
        0 <= k <= idx.len(),
        indices_below(idx, ws.len(), k),
        distinct_indices(idx, k),
    ensures
        write_slots(ws, server, idx, items, k).len() == ws.len(),
        forall|b: int|
            0 <= b < k ==> write_slots(ws, server, idx, items, k)[#[trigger] idx[b] as int] == Some(
                WriteResultView { tag_id: item_tag(items, idx[b] as int), status: server[b] },
            ),
        forall|i: int|
            0 <= i < ws.len() && (forall|b: int| 0 <= b < k ==> idx[b] != i) ==> #[trigger] write_slots(
                ws,
                server,
                idx,
                items,
                k,
            )[i] == ws[i],
    decreases k,
{
    if k > 0 {
        lemma_write_slots_hit(ws, server, idx, items, k - 1);
        assert(idx[k - 1] < ws.len());
        let prev = write_slots(ws, server, idx, items, k - 1);
        let cur = write_slots(ws, server, idx, items, k);
        assert forall|b: int| 0 <= b < k implies cur[#[trigger] idx[b] as int] == Some(
            WriteResultView { tag_id: item_tag(items, idx[b] as int), status: server[b] },
        ) by {
            if b < k - 1 {
                assert(idx[b] != idx[k - 1]);
            }
        }
        assert forall|i: int| 0 <= i < ws.len() && (forall|b: int| 0 <= b < k ==> idx[b] != i) implies #[trigger] cur[i]
            == ws[i] by {
            assert(forall|b: int| 0 <= b < k - 1 ==> idx[b] != i);
            assert(idx[k - 1] != i);
        }
    }
}

/// Assembling a batch write's results answers each request at its own position: a
/// written request with the server's outcome for it, any other with the result already
/// recorded for it, and a request nothing answered with the failure saying so.
pub proof fn law_write_results_by_index(
    ws: Seq<Option<WriteResultView>>,
    server_outcomes: Seq<Result<(), OpcErrorView>>,
    idx: Seq<usize>,
    items: Seq<RequestView>,
    server: Seq<char>,
)
    requires
        ws.len() == items.len(),
        indices_below(idx, items.len(), idx.len() as int),
        distinct_indices(idx, idx.len() as int),
    ensures
        ({
            let v = final_write_results(write_slots(ws, server_outcomes, idx, items, idx.len() as int), items, server);
            &&& v.len() == items.len()
            &&& forall|b: int|
                0 <= b < idx.len() ==> v[#[trigger] idx[b] as int] == (WriteResultView {
                    tag_id: item_tag(items, idx[b] as int),
                    status: server_outcomes[b],
                })
            &&& forall|i: int|
                0 <= i < items.len() && (forall|b: int| 0 <= b < idx.len() ==> idx[b] != i) ==> #[trigger] v[i] == match ws[i] {
                    Some(w) => w,
                    None => WriteResultView {
                        tag_id: item_tag(items, i),
                        status: Err(OpcErrorOf::Internal(spec_unpopulated_message(item_tag(items, i), server))),
                    },
                }
        }),
{
    lemma_write_slots_hit(ws, server_outcomes, idx, items, idx.len() as int);
}

/// What writing the requests `reqs` through `s` gives, batch limits included: nothing for
/// an empty batch, the limit error for an oversized one, else [`write_batch_outcome`].
pub open spec fn write_batch_result<S: ConnectedServer>(s: S, server: Seq<char>, reqs: Seq<RequestView>) -> Result<
    Seq<WriteResultView>,
    OpcErrorView,
> {
    if reqs.len() == 0 {
        Ok(Seq::empty())
    } else if reqs.len() > MAX_TAG_BATCH_SIZE {
        Err(OpcErrorOf::InvalidState(spec_batch_limit_message("Write"@, reqs.len())))
    } else {
        write_batch_outcome(s, server, reqs)
    }
}

/// The plain values of a single write's result.
pub open spec fn write_one_view(r: OpcResult<WriteResult>) -> Result<WriteResultView, OpcErrorView> {
    match r {
        Ok(w) => Ok(w@),
        Err(e) => Err(e@),
    }
}

/// What writing `value` to `tag` through `s` gives: the only result of the one-request batch.
pub open spec fn write_one_result<S: ConnectedServer>(s: S, server: Seq<char>, tag: Seq<char>, value: OpcValueView) -> Result<
    WriteResultView,
    OpcErrorView,
> {
    match write_batch_result(s, server, seq![(tag, value)]) {
        Ok(vs) => Ok(vs[0]),
        Err(e) => Err(e),
    }
}

/// A batch write answers each request at its position: one result per request, each
/// carrying its request's tag, and a request whose tag holds a NUL character fails with
/// the NUL error.
pub proof fn law_write_results_by_position<S: ConnectedServer>(s: S, server: Seq<char>, reqs: Seq<RequestView>)
    requires
        write_batch_outcome(s, server, reqs) is Ok,
        reqs.len() <= usize::MAX,
    ensures
        ({
            let vs = write_batch_outcome(s, server, reqs)->Ok_0;
            &&& vs.len() == reqs.len()
            &&& forall|i: int| 0 <= i < reqs.len() ==> (#[trigger] vs[i]).tag_id == reqs[i].0
            &&& forall|i: int| 0 <= i < reqs.len() && has_nul(reqs[i].0) ==> #[trigger] vs[i] == nul_failure(reqs[i].0)
        }),
{
    let n = reqs.len() as int;
    let idx = clean_indices(reqs, n);
    let ws0 = screened_slots(reqs);
    lemma_clean_indices(reqs, n);
    assert(slots_tagged(ws0, reqs));
    let vs = write_batch_outcome(s, server, reqs)->Ok_0;
    let mut last = ws0;
    if idx.len() > 0 {
        let res = registration_outcome(s, tags_at(reqs, idx))->Ok_0;
        lemma_reg_slots(ws0, res, idx, reqs, idx.len() as int);
        lemma_reg_valid_indices(res, idx, idx.len() as int, n as nat);
        let ws1 = reg_slots(ws0, res, idx, reqs, idx.len() as int);
        assert forall|j: int| 0 <= j < n && has_nul(reqs[j].0) implies ws1[j] == ws0[j] by {
            assert forall|b: int| 0 <= b < idx.len() implies idx[b] != j by {
                assert(!has_nul(item_tag(reqs, idx[b] as int)));
            }
        }
        last = ws1;
        let vidx = reg_valid_indices(res, idx, idx.len() as int);
        let pending = reg_writes(res, idx, reqs, idx.len() as int);
        if pending.len() > 0 {
            let sr = s.fresh_group().write_answer(pending)->Ok_0;
            lemma_write_slots(ws1, sr, vidx, reqs, vidx.len() as int);
            let ws2 = write_slots(ws1, sr, vidx, reqs, vidx.len() as int);
            assert forall|j: int| 0 <= j < n && has_nul(reqs[j].0) implies ws2[j] == ws1[j] by {
                assert forall|b: int| 0 <= b < vidx.len() implies vidx[b] != j by {
                    let b2 = choose|b2: int| 0 <= b2 < idx.len() && idx[b2] == vidx[b];
                    assert(!has_nul(item_tag(reqs, idx[b2] as int)));
                }
            }
            last = ws2;
        }
    }
    assert(vs == final_write_results(last, reqs, server));
    lemma_final_write_results_tagged(last, reqs, server);
    assert forall|i: int| 0 <= i < reqs.len() && has_nul(reqs[i].0) implies #[trigger] vs[i] == nul_failure(reqs[i].0) by {
        assert(ws0[i] == Some(nul_failure(reqs[i].0)));
    }
}

/// Writes a batch of values through `opc_server` in one ephemeral group, returning one
/// result per request in request order.
///
/// An empty batch writes nothing; a batch over [`MAX_TAG_BATCH_SIZE`] is refused.  Tags
/// holding a NUL character are answered with a failure without reaching the server;
/// when every tag does, no group is created.  Tags the server refuses to register are
/// answered with the server's error and are not written.
#[verifier::rlimit(40)]
pub fn handle_write_batch<S: ConnectedServer>(
    server_id: &ServerIdentifier,
    writes: &Vec<(String, OpcValue)>,
    opc_server: &mut S,
    names: &mut GroupNameSequence,
) -> (r: OpcResult<Vec<WriteResult>>)
    ensures
        final(names).pid == old(names).pid,
        writes@.len() == 0 ==> (r matches Ok(v) && v@.len() == 0),
        writes@.len() > MAX_TAG_BATCH_SIZE ==> (r matches Err(e) && e@ == OpcErrorOf::<Seq<char>>::InvalidState(
            spec_batch_limit_message("Write"@, writes@.len()),
        )),
        r matches Ok(v) ==> {
            &&& v@.len() == writes@.len()
            &&& forall|i: int| 0 <= i < writes@.len() ==> (#[trigger] v@[i]).tag_id@ == writes@[i].0@
            &&& forall|i: int|
                0 <= i < writes@.len() && has_nul(writes@[i].0@) ==> (#[trigger] v@[i])@ == nul_failure(writes@[i].0@)
        },
        (0 < writes@.len() <= MAX_TAG_BATCH_SIZE && forall|i: int| 0 <= i < writes@.len() ==> has_nul(#[trigger] writes@[i].0@))
            ==> r is Ok && *final(names) == *old(names),
        (writes@.len() == 0 || writes@.len() > MAX_TAG_BATCH_SIZE || forall|i: int|
            0 <= i < writes@.len() ==> has_nul(#[trigger] writes@[i].0@)) ==> *final(opc_server) == *old(opc_server)
            && *final(names) == *old(names),
        (0 < writes@.len() <= MAX_TAG_BATCH_SIZE && exists|i: int|
            0 <= i < writes@.len() && !has_nul(#[trigger] writes@[i].0@)) ==> {
            &&& final(opc_server).group_log().len() > old(opc_server).group_log().len()
            &&& final(opc_server).group_log().subrange(0, old(opc_server).group_log().len() + 1int) == old(
                opc_server,
            ).group_log().push(None)
            &&& r is Ok ==> final(opc_server).group_log().len() == old(opc_server).group_log().len() + 2
                && final(opc_server).group_log().last() is Some
        },
        write_batch_view(r) == write_batch_result(
            *old(opc_server),
            spec_identifier_display(server_id@),
            writes_requests(writes@),
        ),
        0 < writes@.len() <= MAX_TAG_BATCH_SIZE ==> write_batch_view(r) == write_batch_outcome(
            *old(opc_server),
            spec_identifier_display(server_id@),
            writes_requests(writes@),
        ),
{
    if writes.len() == 0 {
        let empty: Vec<WriteResult> = Vec::new();
        assert(write_results_view(empty@) =~= Seq::<WriteResultView>::empty());
        return Ok(empty);
    }
    if writes.len() > MAX_TAG_BATCH_SIZE {
        proof {
            reveal_strlit("Write");
        }
        return Err(OpcErrorOf::InvalidState(batch_limit_message("Write", writes.len())));
    }
    let mut items: Vec<(&str, &OpcValue)> = Vec::new();
    let mut i: usize = 0;
    while i < writes.len()
        invariant
            i <= writes@.len(),
            items@.len() == i,
            forall|j: int| 0 <= j < i ==> (#[trigger] items@[j]).0@ == writes@[j].0@ && *items@[j].1 == writes@[j].1,
        decreases writes@.len() - i,
    {
        items.push((writes[i].0.as_str(), &writes[i].1));
        i = i + 1;
    }
    let n = items.len();
    let ghost reqs = requests_view(items@);
    proof {
        assert forall|j: int| 0 <= j < n implies #[trigger] reqs[j] == writes_requests(writes@)[j] by {
            assert(items@[j].0@ == writes@[j].0@);
            assert(*items@[j].1 == writes@[j].1);
        }
        assert(reqs =~= writes_requests(writes@));
    }
    let (valid_tags, valid_orig_indices, mut write_results) = partition_write_inputs(items.as_slice(), server_id);
    let ghost ws0 = slots_view(write_results@);
    proof {
        assert forall|j: int| 0 <= j < n implies #[trigger] ws0[j] == screened_slots(reqs)[j] by {
            assert(ws0[j] == slot_view(write_results@[j]));
        }
        assert(ws0 =~= screened_slots(reqs));
    }
    proof {
        lemma_clean_indices(requests_view(items@), n as int);
        assert(slots_tagged(ws0, requests_view(items@))) by {
            assert forall|j: int| 0 <= j < ws0.len() implies (#[trigger] ws0[j] matches Some(w) ==> w.tag_id == item_tag(requests_view(items@), j)) by {
                assert(ws0[j] == slot_view(write_results@[j]));
            }
        }
        assert forall|j: int| 0 <= j < n && has_nul(item_tag(requests_view(items@), j)) implies ws0[j] == Some(nul_failure(item_tag(requests_view(items@), j))) by {
            assert(ws0[j] == slot_view(write_results@[j]));
        }
    }
    if valid_tags.len() == 0 {
        let res = assemble_write_results(items.as_slice(), write_results, valid_orig_indices.as_slice(), None, server_id);
        proof {
            lemma_no_clean_index(requests_view(items@), n as int);
            assert forall|j: int| 0 <= j < writes@.len() implies has_nul(#[trigger] writes@[j].0@) by {
                assert(items@[j].0@ == writes@[j].0@);
                assert(has_nul(item_tag(requests_view(items@), j)));
            }
            let server = spec_identifier_display(server_id@);
            lemma_final_write_results_tagged(ws0, requests_view(items@), server);
            assert forall|j: int| 0 <= j < writes@.len() implies (#[trigger] writes@[j]).0@ == item_tag(requests_view(items@), j) by {
                assert(items@[j].0@ == writes@[j].0@);
            }
            match &res {
                Ok(v) => {
                    let fw = final_write_results(ws0, requests_view(items@), server);
                    assert forall|j: int| 0 <= j < writes@.len() implies (#[trigger] v@[j]).tag_id@ == writes@[j].0@ by {
                        assert(write_results_view(v@)[j] == v@[j]@);
                        assert(fw[j].tag_id == item_tag(requests_view(items@), j));
                    }
                    assert forall|j: int| 0 <= j < writes@.len() && has_nul(writes@[j].0@) implies (#[trigger] v@[j])@
                        == nul_failure(writes@[j].0@) by {
                        assert(write_results_view(v@)[j] == v@[j]@);
                        assert(writes@[j].0@ == item_tag(requests_view(items@), j));
                        assert(ws0[j] == Some(nul_failure(item_tag(requests_view(items@), j))));
                    }
                },
                Err(_) => {},
            }
        }
        return res;
    }
    proof {
        let c = clean_indices(requests_view(items@), n as int);
        assert(c.len() > 0);
        assert(!has_nul(item_tag(requests_view(items@), c[0] as int)));
        assert(writes@[c[0] as int].0@ == item_tag(requests_view(items@), c[0] as int));
    }
    let mut tag_strings: Vec<String> = Vec::new();
    let mut t: usize = 0;
    while t < valid_tags.len()
        invariant
            t <= valid_tags@.len(),
            tag_strings@.len() == t,
            forall|k: int| 0 <= k < t ==> (#[trigger] tag_strings@[k])@ == valid_tags@[k]@,
        decreases valid_tags@.len() - t,
    {
        tag_strings.push(String::from_str(valid_tags[t]));
        t = t + 1;
    }
    let ghost l0 = opc_server.group_log();
    proof {
        let idx = valid_orig_indices@;
        let ids = tag_strings@.map_values(|x: String| x@);
        assert forall|k: int| 0 <= k < idx.len() implies #[trigger] ids[k] == tags_at(reqs, idx)[k] by {
            assert(tag_strings@[k]@ == valid_tags@[k]@);
        }
        assert(ids =~= tags_at(reqs, idx));
    }
    let reg = match register_item_group(opc_server, server_id, names, "opc-write", &tag_strings) {
        Ok(reg) => reg,
        Err(e) => return Err(e),
    };
    assert(opc_server.group_log() == l0.push(None));
    let RegisteredItemGroup { mut group, group_guard, item_results } = reg;
    let ghost res_view = results_view(item_results@);
    assert(res_view =~= item_results@.map_values(|x: GroupItemResult| x@));
    assert(group.write_answer(reg_writes(res_view, valid_orig_indices@, reqs, valid_orig_indices@.len() as int))
        == old(opc_server).fresh_group().write_answer(
        reg_writes(res_view, valid_orig_indices@, reqs, valid_orig_indices@.len() as int),
    ));
    let partitioned = partition_item_registration_results(
        item_results,
        valid_orig_indices.as_slice(),
        items.as_slice(),
        &mut write_results,
        server_id,
    );
    let (valid_writes, valid_write_orig_indices) = match partitioned {
        Ok(p) => p,
        Err(e) => {
            let _ = group_guard.release(opc_server);
            assert(opc_server.group_log().subrange(0, l0.len() + 1int) =~= l0.push(None));
            return Err(e);
        },
    };
    let ghost ws1 = slots_view(write_results@);
    proof {
        let idx = valid_orig_indices@;
        lemma_reg_slots(ws0, res_view, idx, requests_view(items@), idx.len() as int);
        lemma_reg_valid_indices(res_view, idx, idx.len() as int, n as nat);
        assert forall|j: int| 0 <= j < n && has_nul(item_tag(requests_view(items@), j)) implies ws1[j] == Some(nul_failure(item_tag(requests_view(items@), j))) by {
            assert forall|b: int| 0 <= b < idx.len() implies idx[b] != j by {
                assert(!has_nul(item_tag(requests_view(items@), idx[b] as int)));
            }
        }
    }
    let server_write_results = if valid_writes.len() > 0 {
        match group.write(valid_writes.as_slice()) {
            Ok(rs) => {
                assert(item_writes_view(valid_writes@) =~= writes_view(valid_writes@));
                assert(statuses_view(rs@) =~= rs@.map_values(|o: OpcResult<()>| status_view(o)));
                Some(rs)
            },
            Err(e) => {
                let _ = group_guard.release(opc_server);
                assert(opc_server.group_log().subrange(0, l0.len() + 1int) =~= l0.push(None));
                return Err(e);
            },
        }
    } else {
        None
    };
    let ghost swr = server_write_results;
    let res = assemble_write_results(
        items.as_slice(),
        write_results,
        valid_write_orig_indices.as_slice(),
        server_write_results,
        server_id,
    );
    let _ = group_guard.release(opc_server);
    assert(opc_server.group_log().subrange(0, l0.len() + 1int) =~= l0.push(None));
    proof {
        let server = spec_identifier_display(server_id@);
        let vidx = valid_write_orig_indices@;
        assert forall|j: int| 0 <= j < writes@.len() implies (#[trigger] writes@[j]).0@ == item_tag(requests_view(items@), j) by {
            assert(items@[j].0@ == writes@[j].0@);
        }
        match swr {
            None => {
                lemma_final_write_results_tagged(ws1, requests_view(items@), server);
                match &res {
                    Ok(v) => {
                        assert forall|j: int| 0 <= j < writes@.len() implies (#[trigger] v@[j]).tag_id@ == writes@[j].0@ by {
                            assert(write_results_view(v@)[j] == v@[j]@);
                        }
                        assert forall|j: int| 0 <= j < writes@.len() && has_nul(writes@[j].0@) implies (#[trigger] v@[j])@
                            == nul_failure(writes@[j].0@) by {
                            assert(write_results_view(v@)[j] == v@[j]@);
                            assert(writes@[j].0@ == item_tag(requests_view(items@), j));
                        }
                    },
                    Err(_) => {},
                }
            },
            Some(sr) => {
                if sr@.len() == vidx.len() {
                    lemma_write_slots(ws1, statuses_view(sr@), vidx, requests_view(items@), vidx.len() as int);
                    let ws2 = write_slots(ws1, statuses_view(sr@), vidx, requests_view(items@), vidx.len() as int);
                    lemma_final_write_results_tagged(ws2, requests_view(items@), server);
                    assert forall|j: int| 0 <= j < n && has_nul(item_tag(requests_view(items@), j)) implies ws2[j] == ws1[j] by {
                        assert forall|b: int| 0 <= b < vidx.len() implies vidx[b] != j by {
                            let b2 = choose|b2: int| 0 <= b2 < valid_orig_indices@.len() && valid_orig_indices@[b2] == #[trigger] vidx[b];
                            assert(!has_nul(item_tag(requests_view(items@), valid_orig_indices@[b2] as int)));
                        }
                    }
                    match &res {
                        Ok(v) => {
                            assert forall|j: int| 0 <= j < writes@.len() implies (#[trigger] v@[j]).tag_id@ == writes@[j].0@ by {
                                assert(write_results_view(v@)[j] == v@[j]@);
                            }
                            assert forall|j: int| 0 <= j < writes@.len() && has_nul(writes@[j].0@) implies (#[trigger] v@[j])@
                                == nul_failure(writes@[j].0@) by {
                                assert(write_results_view(v@)[j] == v@[j]@);
                                assert(writes@[j].0@ == item_tag(requests_view(items@), j));
                            }
                        },
                        Err(_) => {},
                    }
                }
            },
        }
    }
    res
}

/// Writes one value to one tag, as a batch of one.
pub fn handle_write<S: ConnectedServer>(
    server_id: &ServerIdentifier,
    tag_id: &str,
    value: &OpcValue,
    opc_server: &mut S,
    names: &mut GroupNameSequence,
) -> (r: OpcResult<WriteResult>)
    ensures
        final(names).pid == old(names).pid,
        r matches Ok(w) ==> w.tag_id@ == tag_id@,
        has_nul(tag_id@) ==> (r matches Ok(w) && w@ == nul_failure(tag_id@)),
        has_nul(tag_id@) ==> r is Ok && *final(names) == *old(names),
        write_one_view(r) == write_one_result(*old(opc_server), spec_identifier_display(server_id@), tag_id@, value@),
{
    let mut batch: Vec<(String, OpcValue)> = Vec::new();
    batch.push((String::from_str(tag_id), value.duplicate()));
    assert(batch@[0].0@ == tag_id@);
    assert(writes_requests(batch@) =~= seq![(tag_id@, value@)]);
    let mut results = match handle_write_batch(server_id, &batch, opc_server, names) {
        Ok(v) => v,
        Err(e) => return Err(e),
    };
    assert(batch@[0].0@ == tag_id@);
    assert(writes_requests(batch@) =~= seq![(tag_id@, value@)]);
    assert(results@.len() == 1);
    assert(write_results_view(results@)[0] == results@[0]@);
    Ok(results.pop().unwrap())
}

/// A write of one value to one tag, run against a pooled connection.
pub struct WriteOp {
    /// What each run of the work so far came to.
    pub runs: Ghost<Seq<Option<OpcErrorView>>>,
    /// Endpoint written to.
    pub endpoint: OpcServerEndpoint,
    /// Tag written.
    pub tag_id: String,
    /// Value written.
    pub value: OpcValue,
}

impl WriteOp {
    /// The work, not run yet.
    pub fn new(endpoint: OpcServerEndpoint, tag_id: String, value: OpcValue) -> (r: Self)
        ensures
            r.runs@.len() == 0,
            r.endpoint == endpoint,
            r.tag_id == tag_id,
            r.value == value,
    {
        WriteOp { endpoint, tag_id, value, runs: Ghost(Seq::empty()) }
    }
}

impl<S: ConnectedServer> PooledOperation<S> for WriteOp {
    type Output = WriteResult;

    open spec fn outcomes(&self) -> Seq<Option<OpcErrorView>> {
        self.runs@
    }

    open spec fn delivers(&self, out: WriteResult) -> bool {
        &&& out.tag_id@ == self.tag_id@
        &&& has_nul(self.tag_id@) ==> out@ == nul_failure(self.tag_id@)
    }

    open spec fn gives(&self, pooled: PooledServer<S>, out: OpcResult<WriteResult>) -> bool {
        write_one_view(out) == write_one_result(
            pooled.server,
            spec_identifier_display(self.endpoint.identifier@),
            self.tag_id@,
            self.value@,
        )
    }

    fn run(&mut self, pooled: &mut PooledServer<S>, names: &mut GroupNameSequence) -> (r: OpcResult<WriteResult>) {
        let r = handle_write(&self.endpoint.identifier, self.tag_id.as_str(), &self.value, &mut pooled.server, names);
        self.runs = Ghost(self.runs@.push(run_outcome(r)));
        r
    }
}

/// A write of a batch of values, run against a pooled connection.
pub struct WriteBatchOp {
    /// What each run of the work so far came to.
    pub runs: Ghost<Seq<Option<OpcErrorView>>>,
    /// Endpoint written to.
    pub endpoint: OpcServerEndpoint,
    /// Tags and values, in order.
    pub writes: Vec<(String, OpcValue)>,
}

impl WriteBatchOp {
    /// The work, not run yet.
    pub fn new(endpoint: OpcServerEndpoint, writes: Vec<(String, OpcValue)>) -> (r: Self)
        ensures
            r.runs@.len() == 0,
            r.endpoint == endpoint,
            r.writes == writes,
    {
        WriteBatchOp { endpoint, writes, runs: Ghost(Seq::empty()) }
    }
}

/// One result per write, in request order, each for the tag written; a tag holding a
/// NUL character is answered with its failure.
pub open spec fn results_answer_writes(results: Seq<WriteResult>, writes: Seq<(String, OpcValue)>) -> bool {
    &&& results.len() == writes.len()
    &&& forall|i: int| 0 <= i < writes.len() ==> (#[trigger] results[i]).tag_id@ == writes[i].0@
    &&& forall|i: int| 0 <= i < writes.len() && has_nul(writes[i].0@) ==> (#[trigger] results[i])@ == nul_failure(writes[i].0@)
}

impl<S: ConnectedServer> PooledOperation<S> for WriteBatchOp {
    type Output = Vec<WriteResult>;

    open spec fn outcomes(&self) -> Seq<Option<OpcErrorView>> {
        self.runs@
    }

    open spec fn delivers(&self, out: Vec<WriteResult>) -> bool {
        results_answer_writes(out@, self.writes@)
    }

    open spec fn gives(&self, pooled: PooledServer<S>, out: OpcResult<Vec<WriteResult>>) -> bool {
        write_batch_view(out) == write_batch_result(
            pooled.server,
            spec_identifier_display(self.endpoint.identifier@),
            writes_requests(self.writes@),
        )
    }

    fn run(&mut self, pooled: &mut PooledServer<S>, names: &mut GroupNameSequence) -> (r: OpcResult<Vec<WriteResult>>) {
        let r = handle_write_batch(&self.endpoint.identifier, &self.writes, &mut pooled.server, names);
        self.runs = Ghost(self.runs@.push(run_outcome(r)));
        r
    }
}

} // verus!
