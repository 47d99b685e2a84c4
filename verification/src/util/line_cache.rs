//! A cache that keeps the most recent lines, up to a fixed count.

use crate::util::newest;
use std::collections::VecDeque;
use vstd::prelude::*;

verus! {

/// The most recent lines of some stream, oldest first.
#[derive(Debug)]
pub struct LineCache {
    pub data: VecDeque<String>,
    size: usize,
}

impl LineCache {
    /// The lines currently held, oldest first.
    pub closed spec fn lines(&self) -> Seq<Seq<char>> {
        self.data@.map_values(|s: String| s@)
    }

    /// The largest number of lines that `insert` leaves in the cache.
    pub closed spec fn limit(&self) -> nat {
        self.size as nat
    }

    /// An empty cache that retains at most `size` lines.
    pub fn new(size: usize) -> (cache: Self)
        ensures
            cache.lines() == Seq::<Seq<char>>::empty(),
            cache.limit() == size,
    {
        let cache = Self { data: VecDeque::new(), size: size };
        cache
    }

    /// The number of lines currently held.
    pub fn size(&self) -> (count: usize)
        ensures
            count == self.lines().len(),
    {
        self.data.len()
    }

    /// Appends `string` as the newest line, then drops the oldest lines
    /// until no more than the limit remain.
    pub fn insert(&mut self, string: String)
        ensures
            final(self).limit() == old(self).limit(),
            final(self).lines() == newest(old(self).lines().push(string@), old(self).limit()),
    {
        self.data.push_back(string);
        self.trim();
    }

    /// Drops the oldest lines until no more than the limit remain.
    pub fn trim(&mut self)
        ensures
            final(self).limit() == old(self).limit(),
            final(self).lines() == newest(old(self).lines(), old(self).limit()),
    {
        while self.data.len() > self.size
            invariant
                self.size == old(self).size,
                self.data@.len() <= old(self).data@.len(),
                self.lines() == old(self).lines().subrange(
                    old(self).data@.len() - self.data@.len(),
                    old(self).data@.len() as int,
                ),
                self.data@.len() >= newest(old(self).lines(), old(self).limit()).len(),
            decreases self.data@.len(),
        {
            let ghost before = self.lines();
            self.data.pop_front();
            assert(self.lines() =~= before.subrange(1, before.len() as int));
        }
    }
}

} // verus!
