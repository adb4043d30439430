//! A bounded, cancellable collection of tag IDs gathered during a browse.

use vstd::prelude::*;

verus! {

/// Tag IDs gathered up to a capacity, with a cancellation flag.
#[derive(Debug)]
pub struct TagCollector {
    /// Capacity.
    pub max_tags: usize,
    /// Gathered tag IDs, in order.
    pub tags: Vec<String>,
    /// Whether the browse was cancelled.
    pub cancelled: bool,
}

/// The characters of each tag.
pub open spec fn tags_view(s: Seq<String>) -> Seq<Seq<char>> {
    s.map_values(|t: String| t@)
}

impl TagCollector {
    /// The collector never holds more than its capacity.
    pub open spec fn wf(&self) -> bool {
        self.tags@.len() <= self.max_tags
    }

    /// An empty, uncancelled collector of capacity `max_tags`.
    pub fn new(max_tags: usize) -> (r: Self)
        ensures
            r.wf(),
            r.max_tags == max_tags,
            r.tags@.len() == 0,
            !r.cancelled,
    {
        TagCollector { max_tags, tags: Vec::new(), cancelled: false }
    }

    /// The capacity.
    pub fn max_tags(&self) -> (r: usize)
        ensures
            r == self.max_tags,
    {
        self.max_tags
    }

    /// Number of gathered tags.
    pub fn len(&self) -> (r: usize)
        ensures
            r == self.tags@.len(),
    {
        self.tags.len()
    }

    /// Whether no tag is gathered.
    pub fn is_empty(&self) -> (r: bool)
        ensures
            r == (self.tags@.len() == 0),
    {
        self.tags.len() == 0
    }

    /// Whether the capacity is reached.
    pub fn is_full(&self) -> (r: bool)
        ensures
            r == (self.tags@.len() >= self.max_tags),
    {
        self.tags.len() >= self.max_tags
    }

    /// Whether the browse was cancelled.
    pub fn is_cancelled(&self) -> (r: bool)
        ensures
            r == self.cancelled,
    {
        self.cancelled
    }

    /// Cancels the browse; gathered tags are kept.
    pub fn cancel(&mut self)
        ensures
            final(self).cancelled,
            final(self).tags == old(self).tags,
            final(self).max_tags == old(self).max_tags,
    {
        self.cancelled = true;
    }

    /// Drops every gathered tag.
    pub fn clear(&mut self)
        ensures
            final(self).tags@.len() == 0,
            final(self).cancelled == old(self).cancelled,
            final(self).max_tags == old(self).max_tags,
    {
        self.tags = Vec::new();
    }

    /// Adds `tag` unless the capacity is reached; returns whether it was added.
    pub fn push(&mut self, tag: String) -> (r: bool)
        ensures
            r == (old(self).tags@.len() < old(self).max_tags),
            r ==> final(self).tags@ == old(self).tags@.push(tag),
            !r ==> final(self).tags == old(self).tags,
            final(self).cancelled == old(self).cancelled,
            final(self).max_tags == old(self).max_tags,
            old(self).wf() ==> final(self).wf(),
    {
        if self.tags.len() < self.max_tags {
            self.tags.push(tag);
            true
        } else {
            false
        }
    }

    /// Adds the tags of `batch` in order until the capacity is reached; returns how many
    /// were added.
    pub fn push_batch(&mut self, batch: Vec<String>) -> (r: usize)
        requires
            old(self).wf(),
        ensures
            final(self).wf(),
            r <= batch@.len(),
            final(self).tags@ == old(self).tags@ + batch@.subrange(0, r as int),
            r < batch@.len() ==> final(self).tags@.len() == final(self).max_tags,
            final(self).cancelled == old(self).cancelled,
            final(self).max_tags == old(self).max_tags,
    {
        let mut added: usize = 0;
        let mut i: usize = 0;
        while i < batch.len()
            invariant
                self.wf(),
                added == i,
                i <= batch@.len(),
                self.tags@ == old(self).tags@ + batch@.subrange(0, i as int),
                self.cancelled == old(self).cancelled,
                self.max_tags == old(self).max_tags,
            decreases batch@.len() - i,
        {
            if self.tags.len() >= self.max_tags {
                return added;
            }
            self.tags.push(batch[i].clone());
            assert(batch@.subrange(0, i + 1) == batch@.subrange(0, i as int).push(batch@[i as int]));
            added = added + 1;
            i = i + 1;
        }
        added
    }

    /// Takes every gathered tag, leaving the collector empty.
    pub fn harvest(&mut self) -> (r: Vec<String>)
        ensures
            r == old(self).tags,
            final(self).tags@.len() == 0,
            final(self).cancelled == old(self).cancelled,
            final(self).max_tags == old(self).max_tags,
    {
        let mut out: Vec<String> = Vec::new();
        std::mem::swap(&mut out, &mut self.tags);
        out
    }
}

} // verus!
