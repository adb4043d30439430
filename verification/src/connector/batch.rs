//! Item names read from a server enumeration that hands them out in batches.

use vstd::prelude::*;
use crate::error::{OpcError, OpcResult};

verus! {

/// Entries asked for in one fetch.
pub const STRING_CACHE_SIZE: usize = 256;

/// Fetches a server enumeration may make for one name before it is taken as ended.
pub const MAX_NAME_FETCHES: u64 = 0xFFFF_FFFF_FFFF_FFFF;

/// An enumeration of item names that hands them out in batches.
pub trait NameBatchSource {
    /// Fetches up to `capacity` entries.  An entry is `None` when the server left it
    /// empty, or the name or the error decoding it; an empty batch ends the enumeration.
    fn fetch(&mut self, capacity: usize) -> OpcResult<Vec<Option<OpcResult<String>>>>;
}

/// Position of the first entry that is present, or the length when none is.
pub open spec fn first_present<T>(c: Seq<Option<T>>) -> int
    decreases c.len(),
{
    if c.len() == 0 {
        0
    } else if c[0] is Some {
        0
    } else {
        1 + first_present(c.drop_first())
    }
}

/// Facts about [`first_present`].
pub proof fn lemma_first_present<T>(c: Seq<Option<T>>)
    ensures
        0 <= first_present(c) <= c.len(),
        forall|k: int| 0 <= k < first_present(c) ==> (#[trigger] c[k]) is None,
        first_present(c) < c.len() ==> c[first_present(c)] is Some,
    decreases c.len(),
{
    if c.len() > 0 && c[0] is None {
        lemma_first_present(c.drop_first());
        assert forall|k: int| 0 <= k < first_present(c) implies (#[trigger] c[k]) is None by {
            if k > 0 {
                assert(c[k] == c.drop_first()[k - 1]);
            }
        }
    }
}

/// Names read from a batched enumeration, with the batch being handed out.
pub struct BatchedNames<S> {
    /// The enumeration.
    pub source: S,
    /// Entries of the current batch not handed out yet, in order.
    pub cache: Vec<Option<OpcResult<String>>>,
    /// Whether the enumeration ended.
    pub done: bool,
}

impl<S> BatchedNames<S> {
    /// Names read from `source`, nothing fetched yet.
    pub fn new(source: S) -> (r: Self)
        ensures
            r.source == source,
            r.cache@.len() == 0,
            !r.done,
    {
        BatchedNames { source, cache: Vec::new(), done: false }
    }
}

impl<S> BatchedNames<S> {
    /// Takes in what a fetch gave, when nothing is cached.  A failed fetch is handed out
    /// and ends the enumeration; an empty batch ends it; otherwise the batch's first
    /// present entry is handed out and the entries after it are kept.  `None` means the
    /// batch held no present entry, so another fetch is due.
    pub fn absorb_fetch(&mut self, fetched: OpcResult<Vec<Option<OpcResult<String>>>>) -> (r: Option<
        Option<OpcResult<String>>,
    >)
        requires
            old(self).cache@.len() == 0,
            !old(self).done,
        ensures
            final(self).source == old(self).source,
            r == Some(None::<OpcResult<String>>) ==> final(self).done,
            r is None ==> !final(self).done && final(self).cache@.len() == 0,
            fetched matches Err(e) ==> r == Some(Some(Err::<String, OpcError>(e))) && final(self).done,
            fetched matches Ok(b) && b@.len() == 0 ==> r == Some(None::<OpcResult<String>>) && final(self).done,
            fetched matches Ok(b) ==> (b@.len() > 0 && first_present(b@) < b@.len() ==> r == Some(b@[first_present(b@)])
                && final(self).cache@ == b@.skip(first_present(b@) + 1) && !final(self).done),
            fetched matches Ok(b) ==> (b@.len() > 0 && first_present(b@) == b@.len() ==> r is None
                && final(self).cache@.len() == 0 && !final(self).done),
    {
        match fetched {
            Err(e) => {
                self.done = true;
                Some(Some(Err(e)))
            },
            Ok(batch) => {
                if batch.len() == 0 {
                    self.done = true;
                    return Some(None);
                }
                self.cache = batch;
                proof {
                    lemma_first_present(self.cache@);
                }
                let first = take_first_present(&mut self.cache);
                match first {
                    Some(x) => Some(Some(x)),
                    None => None,
                }
            },
        }
    }
}

/// Takes the first present entry of `cache`, dropping it and the empty entries before
/// it; with none present, empties the cache and gives `None`.
pub fn take_first_present(cache: &mut Vec<Option<OpcResult<String>>>) -> (r: Option<OpcResult<String>>)
    ensures
        first_present(old(cache)@) < old(cache)@.len() ==> {
            &&& r == old(cache)@[first_present(old(cache)@)]
            &&& r is Some
            &&& final(cache)@ == old(cache)@.skip(first_present(old(cache)@) + 1)
        },
        first_present(old(cache)@) == old(cache)@.len() ==> r is None && final(cache)@.len() == 0,
{
    proof {
        lemma_first_present(cache@);
    }
    let ghost c0 = cache@;
    let ghost mut skipped: int = 0;
    while cache.len() > 0
        invariant
            0 <= first_present(c0) <= c0.len(),
            first_present(c0) < c0.len() ==> c0[first_present(c0)] is Some,
            forall|k: int| 0 <= k < first_present(c0) ==> (#[trigger] c0[k]) is None,
            0 <= skipped <= first_present(c0),
            cache@ == c0.skip(skipped),
            c0 == old(cache)@,
        decreases cache@.len(),
    {
        let entry = cache.remove(0);
        proof {
            assert(entry == c0[skipped]);
            assert(cache@ =~= c0.skip(skipped + 1));
            if entry is Some {
                assert(skipped == first_present(c0));
            }
            skipped = skipped + 1;
        }
        match entry {
            Some(x) => return Some(x),
            None => {},
        }
    }
    None
}

impl<S: NameBatchSource> BatchedNames<S> {
    /// The next entry that is present, fetching batches as needed: empty entries are
    /// skipped, an empty batch ends the enumeration, and a failed fetch is handed out
    /// once and ends it.
    pub fn next_id(&mut self) -> (r: Option<OpcResult<String>>)
        ensures
            old(self).done ==> r is None && *final(self) == *old(self),
            r is None ==> final(self).done,
            !old(self).done && first_present(old(self).cache@) < old(self).cache@.len() ==> {
                let k = first_present(old(self).cache@);
                &&& r == old(self).cache@[k]
                &&& final(self).cache@ == old(self).cache@.skip(k + 1)
                &&& final(self).source == old(self).source
                &&& !final(self).done
            },
    {
        if self.done {
            return None;
        }
        proof {
            lemma_first_present(self.cache@);
        }
        let first = take_first_present(&mut self.cache);
        match first {
            Some(x) => return Some(x),
            None => {},
        }
        let mut fetches: u64 = MAX_NAME_FETCHES;
        loop
            invariant
                !self.done,
                !old(self).done,
                self.cache@.len() == 0,
                first_present(old(self).cache@) == old(self).cache@.len(),
            decreases fetches,
        {
            if fetches == 0 {
                self.done = true;
                return None;
            }
            fetches = fetches - 1;
            let fetched = self.source.fetch(STRING_CACHE_SIZE);
            match self.absorb_fetch(fetched) {
                Some(answer) => return answer,
                None => {},
            }
        }
    }
}

} // verus!
