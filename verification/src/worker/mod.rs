//! Work done on behalf of a client against a connected server: reading, writing,
//! browsing, connection pooling and request scheduling.

pub mod browse;
pub mod pool;
pub mod read;
pub mod request;
pub mod write;

use vstd::prelude::*;
use crate::connector::traits::{ConnectedGroup, ConnectedServer, add_items_answer_view, def_ids, same_group_answers};
use crate::error::{OpcError, OpcErrorOf, OpcErrorView, OpcResult};
use crate::text::{concat_str, spec_lower_hex, u32_to_lower_hex, u64_to_lower_hex, lemma_lower_hex_injective};
use crate::types::{
    ClientItemHandle, GroupConfig, GroupItemDef, GroupItemResult, GroupItemResultView, GroupRemovalMode,
    ItemWriteView, ServerGroupHandle, ServerIdentifier, ServerItemHandle,
};

verus! {

/// Largest number of tags a single read or write batch may hold.
pub const MAX_TAG_BATCH_SIZE: usize = 10000;

/// Name of an ephemeral group: the prefix, the process ID and a sequence number, the two
/// numbers in lower-case hexadecimal, joined by hyphens.
pub open spec fn spec_group_name(prefix: Seq<char>, pid: u32, seq: u64) -> Seq<char> {
    prefix + "-"@ + spec_lower_hex(pid as nat) + "-"@ + spec_lower_hex(seq as nat)
}

/// The sequence number that follows `seq` (wrapping at `u64::MAX`).
pub open spec fn spec_next_seq(seq: u64) -> u64 {
    if seq == u64::MAX {
        0
    } else {
        (seq + 1) as u64
    }
}

/// Source of ephemeral group names for one process: the process ID and the next
/// sequence number.
#[derive(Debug)]
pub struct GroupNameSequence {
    /// Identifier of the running process.
    pub pid: u32,
    /// Sequence number of the next name.
    pub next: u64,
}

impl GroupNameSequence {
    /// A sequence for process `pid`, starting at 1.
    pub fn new(pid: u32) -> (r: Self)
        ensures
            r.pid == pid,
            r.next == 1,
    {
        GroupNameSequence { pid, next: 1 }
    }

    /// Hands out the next name for `prefix` and advances the sequence.
    pub fn generate_group_name(&mut self, prefix: &str) -> (r: String)
        ensures
            r@ == spec_group_name(prefix@, old(self).pid, old(self).next),
            final(self).pid == old(self).pid,
            final(self).next == spec_next_seq(old(self).next),
    {
        let pid_hex = u32_to_lower_hex(self.pid);
        let seq_hex = u64_to_lower_hex(self.next);
        let a = concat_str(prefix, "-");
        let b = a.concat(pid_hex.as_str());
        let c = b.concat("-");
        let name = c.concat(seq_hex.as_str());
        proof {
            reveal_strlit("-");
        }
        self.next = if self.next == u64::MAX { 0 } else { self.next + 1 };
        name
    }
}

/// Two names handed out by one sequence for the same prefix differ whenever their
/// sequence numbers differ.
pub proof fn lemma_group_names_distinct(prefix: Seq<char>, pid: u32, a: u64, b: u64)
    requires
        a != b,
    ensures
        spec_group_name(prefix, pid, a) != spec_group_name(prefix, pid, b),
{
    let head = prefix + "-"@ + spec_lower_hex(pid as nat) + "-"@;
    let na = spec_group_name(prefix, pid, a);
    let nb = spec_group_name(prefix, pid, b);
    assert(na =~= head + spec_lower_hex(a as nat));
    assert(nb =~= head + spec_lower_hex(b as nat));
    if na == nb {
        assert(na.subrange(head.len() as int, na.len() as int) =~= spec_lower_hex(a as nat));
        assert(nb.subrange(head.len() as int, nb.len() as int) =~= spec_lower_hex(b as nat));
        lemma_lower_hex_injective(a as nat, b as nat);
    }
}

/// Ownership of a group created on a server: while armed, [`GroupGuard::release`]
/// removes the group; once disarmed, the group is kept.
#[derive(Debug)]
pub struct GroupGuard {
    /// Server handle of the guarded group.
    pub handle: ServerGroupHandle,
    /// Whether releasing the guard removes the group.
    pub armed: bool,
}

impl GroupGuard {
    /// An armed guard for the group `handle`.
    pub fn new(handle: ServerGroupHandle) -> (r: Self)
        ensures
            r.handle == handle,
            r.armed,
    {
        GroupGuard { handle, armed: true }
    }

    /// The guarded group's handle.
    pub fn handle(&self) -> (r: ServerGroupHandle)
        ensures
            r == self.handle,
    {
        self.handle
    }

    /// Keeps the group: releasing the guard no longer removes it.  Returns its handle.
    pub fn disarm(&mut self) -> (r: ServerGroupHandle)
        ensures
            r == old(self).handle,
            final(self).handle == old(self).handle,
            !final(self).armed,
    {
        self.armed = false;
        self.handle
    }

    /// Ends the guard: when armed, the group is removed from `server` (forcefully, its
    /// outcome ignored).  Returns whether a removal was requested.
    pub fn release<S: ConnectedServer>(self, server: &mut S) -> (r: bool)
        ensures
            r == self.armed,
            self.armed ==> final(server).group_log() == old(server).group_log().push(Some(self.handle)),
            !self.armed ==> *final(server) == *old(server),
            group_model_kept(*old(server), *final(server)),
    {
        if self.armed {
            let _ = server.remove_group(self.handle, GroupRemovalMode::Force);
            true
        } else {
            false
        }
    }
}

/// An ephemeral group with its items registered.
pub struct RegisteredItemGroup<G> {
    /// The group.
    pub group: G,
    /// Guard that removes the group when released armed.
    pub group_guard: GroupGuard,
    /// Registration outcome of each tag, in tag order.
    pub item_results: Vec<GroupItemResult>,
}

/// Item definitions for `tags`: the `i`-th is active and has client handle `i`.
pub fn build_item_defs(tags: &Vec<String>) -> (r: Vec<GroupItemDef>)
    ensures
        r@.len() == tags@.len(),
        forall|i: int|
            0 <= i < tags@.len() ==> {
                &&& (#[trigger] r@[i]).item_id@ == tags@[i]@
                &&& r@[i].client_handle == ClientItemHandle(i as u32)
                &&& r@[i].active
            },
{
    let mut defs: Vec<GroupItemDef> = Vec::new();
    let mut i: usize = 0;
    while i < tags.len()
        invariant
            i <= tags@.len(),
            defs@.len() == i,
            forall|j: int|
                0 <= j < i ==> {
                    &&& (#[trigger] defs@[j]).item_id@ == tags@[j]@
                    &&& defs@[j].client_handle == ClientItemHandle(j as u32)
                    &&& defs@[j].active
                },
        decreases tags@.len() - i,
    {
        #[verifier::truncate]
        let handle: u32 = i as u32;
        defs.push(GroupItemDef { item_id: tags[i].clone(), client_handle: ClientItemHandle::new(handle), active: true });
        i = i + 1;
    }
    defs
}

/// Message of the error raised when a server answers a registration with the wrong
/// number of results.
pub open spec fn spec_mismatched_results_message() -> Seq<char> {
    "OPC server returned mismatched result array sizes"@
}

/// Checks a server's answer to an item registration: an error passes through, a result
/// list of the wrong length becomes an internal error, and a list of `expected` results
/// is returned as it is.
pub fn check_item_result_count(
    results: OpcResult<Vec<GroupItemResult>>,
    expected: usize,
) -> (r: OpcResult<Vec<GroupItemResult>>)
    ensures
        match results {
            Err(e) => r == Err::<Vec<GroupItemResult>, OpcError>(e),
            Ok(v) => if v@.len() == expected {
                r == Ok::<Vec<GroupItemResult>, OpcError>(v)
            } else {
                r matches Err(e) && e@ == OpcErrorOf::<Seq<char>>::Internal(spec_mismatched_results_message())
            },
        },
{
    match results {
        Err(e) => Err(e),
        Ok(v) => {
            if v.len() == expected {
                Ok(v)
            } else {
                proof {
                    reveal_strlit("OPC server returned mismatched result array sizes");
                }
                Err(OpcErrorOf::Internal(String::from_str("OPC server returned mismatched result array sizes")))
            }
        },
    }
}

/// What creating a group on `s` and registering the items `ids` in it gives: the failure
/// to add the group, the registration's own failure, a registration answering with the
/// wrong number of results, or one result per item.
pub open spec fn registration_outcome<S: ConnectedServer>(s: S, ids: Seq<Seq<char>>) -> Result<Seq<GroupItemResultView>, OpcErrorView> {
    if !s.adds_groups() {
        Err(s.add_group_error())
    } else {
        match s.fresh_group().registration(ids) {
            Err(e) => Err(e),
            Ok(rs) => if rs.len() == ids.len() {
                Ok(rs)
            } else {
                Err(OpcErrorOf::Internal(spec_mismatched_results_message()))
            },
        }
    }
}

/// The server's model of adding groups is kept.
pub open spec fn group_model_kept<S: ConnectedServer>(a: S, b: S) -> bool {
    &&& a.adds_groups() == b.adds_groups()
    &&& a.add_group_error() == b.add_group_error()
    &&& a.fresh_group() == b.fresh_group()
}

/// Creates an ephemeral group named from `prefix` and registers `tags` in it.  On
/// success the group comes back with an armed guard and one registration result per
/// tag; on failure a group that was created has been removed again.
pub fn register_item_group<S: ConnectedServer>(
    server: &mut S,
    server_id: &ServerIdentifier,
    names: &mut GroupNameSequence,
    prefix: &str,
    tags: &Vec<String>,
) -> (r: OpcResult<RegisteredItemGroup<S::Group>>)
    ensures
        final(names).pid == old(names).pid,
        final(names).next == spec_next_seq(old(names).next),
        r matches Ok(reg) ==> reg.item_results@.len() == tags@.len() && reg.group_guard.armed,
        r is Ok ==> final(server).group_log() == old(server).group_log().push(None),
        final(server).group_log().len() > old(server).group_log().len(),
        final(server).group_log().subrange(0, old(server).group_log().len() + 1int) == old(server).group_log().push(None::<ServerGroupHandle>),
        final(server).group_log().len() <= old(server).group_log().len() + 2,
        group_model_kept(*old(server), *final(server)),
        match registration_outcome(*old(server), tags@.map_values(|t: String| t@)) {
            Ok(rs) => r matches Ok(reg) && reg.item_results@.map_values(|x: GroupItemResult| x@) == rs && same_group_answers(
                reg.group,
                old(server).fresh_group(),
            ),
            Err(e) => r matches Err(x) && x@ == e,
        },
{
    let ghost s0 = *server;
    let ghost ids = tags@.map_values(|t: String| t@);
    let group_name = names.generate_group_name(prefix);
    let config = GroupConfig::ephemeral(group_name.as_str());
    let created = match server.add_group(&config) {
        Ok(c) => c,
        Err(e) => return Err(e),
    };
    let mut group = created.group;
    let group_guard = GroupGuard::new(created.server_handle);
    let item_defs = build_item_defs(tags);
    assert(def_ids(item_defs@) =~= ids);
    let ghost g0 = group;
    let answered = group.add_items(item_defs.as_slice());
    proof {
        assert(g0.registration(ids) == s0.fresh_group().registration(ids));
        assert forall|i: Seq<Seq<char>>| #[trigger] group.registration(i) == s0.fresh_group().registration(i) by {
            assert(g0.registration(i) == s0.fresh_group().registration(i));
        }
        assert forall|h: Seq<ServerItemHandle>| #[trigger] group.read_answer(h) == s0.fresh_group().read_answer(h) by {
            assert(g0.read_answer(h) == s0.fresh_group().read_answer(h));
        }
        assert forall|w: Seq<ItemWriteView>| #[trigger] group.write_answer(w) == s0.fresh_group().write_answer(w) by {
            assert(g0.write_answer(w) == s0.fresh_group().write_answer(w));
        }
        match answered {
            Ok(ref v) => {
                assert(add_items_answer_view(answered) == Ok::<Seq<GroupItemResultView>, OpcErrorView>(v@.map_values(
                    |x: GroupItemResult| x@,
                )));
            },
            Err(_) => {},
        }
    }
    let checked = check_item_result_count(answered, tags.len());
    match checked {
        Ok(item_results) => Ok(RegisteredItemGroup { group, group_guard, item_results }),
        Err(e) => {
            let _ = group_guard.release(server);
            Err(e)
        },
    }
}

} // verus!
