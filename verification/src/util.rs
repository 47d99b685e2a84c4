//! Bounded buffers used to keep recent output.

pub mod line_cache;
pub mod log_cache;

use vstd::prelude::*;

verus! {

/// The last `limit` elements of `items`, or all of them if there are fewer.
pub open spec fn newest<T>(items: Seq<T>, limit: nat) -> Seq<T> {
    if items.len() <= limit {
        items
    } else {
        items.subrange(items.len() - limit, items.len() as int)
    }
}

/// True when `tail` is what `whole` ends with.
pub open spec fn ends_with<T>(whole: Seq<T>, tail: Seq<T>) -> bool {
    tail.len() <= whole.len() && whole.subrange(whole.len() - tail.len(), whole.len() as int)
        == tail
}

/// Taking the newest items after each of two appends is the same as taking
/// them once at the end: a bounded buffer always holds the newest of
/// everything appended so far.
pub proof fn lemma_newest_of_appends<T>(first: Seq<T>, second: Seq<T>, limit: nat)
    ensures
        newest(newest(first, limit) + second, limit) == newest(first + second, limit),
{
}

/// Appending to a buffer whose contents then come to `limit` items or more
/// leaves exactly the last `limit` items of the old contents followed by the
/// new.
pub proof fn lemma_overflow_keeps_suffix<T>(retained: Seq<T>, added: Seq<T>, limit: nat)
    requires
        retained.len() + added.len() >= limit,
    ensures
        newest(retained + added, limit).len() == limit,
        ends_with(retained + added, newest(retained + added, limit)),
{
    let all = retained + added;
    assert(all.subrange(all.len() - limit, all.len() as int) =~= newest(all, limit));
}

/// Appending what fits into the remaining room evicts nothing.
pub proof fn lemma_fitting_append_keeps_all<T>(retained: Seq<T>, added: Seq<T>, limit: nat)
    requires
        retained.len() + added.len() <= limit,
    ensures
        newest(retained + added, limit) == retained + added,
{
}

} // verus!
