//! A fixed-capacity cache of the most recent output text.
//!
//! The cache keeps the newest bytes of everything appended to it and evicts
//! the oldest bytes first. The byte budget is the only reason for eviction.
//! Storage is a ring buffer of the `log_buffer` crate.

use crate::util::newest;
use log_buffer::LogBuffer;
use std::fmt::Write;
use vstd::prelude::*;
use vstd::utf8::*;

verus! {

/// A ring buffer of the `log_buffer` crate over a byte vector. Opaque here:
/// its contents are spoken of through [`ring_contents`].
#[verifier::external_body]
pub struct Ring {
    inner: LogBuffer<Vec<u8>>,
}

/// The bytes of a ring's storage in logical order: read from the write
/// position round to just before it. The newest byte is last.
pub uninterp spec fn ring_contents(ring: Ring) -> Seq<u8>;

/// The byte that fills the part of a ring not yet written to. It occurs in
/// no UTF-8 text.
pub const FILLER: u8 = 0xff;

/// True when `byte` can start the encoding of a character.
pub open spec fn is_leader(byte: u8) -> bool {
    ||| is_leading_byte_width_1(byte)
    ||| is_leading_byte_width_2(byte)
    ||| is_leading_byte_width_3(byte)
    ||| is_leading_byte_width_4(byte)
}

/// `bytes` without the bytes in front of its first leading byte.
pub open spec fn from_first_leader(bytes: Seq<u8>) -> Seq<u8>
    decreases bytes.len(),
{
    if bytes.len() == 0 || is_leader(bytes[0]) {
        bytes
    } else {
        from_first_leader(bytes.drop_first())
    }
}

/// The text that a reader sees in `bytes`: a character cut in two by
/// eviction is left out.
pub open spec fn readable_text(bytes: Seq<u8>) -> Seq<char> {
    decode_utf8(from_first_leader(bytes))
}

/// `LogBuffer::new`: takes over `storage` and fills it with the filler byte,
/// so the ring is as long as the storage and holds no text.
#[verifier::external_body]
fn ring_new(storage: Vec<u8>) -> (ring: Ring)
    ensures
        ring_contents(ring) == Seq::new(storage@.len(), |i: int| FILLER),
{
    Ring { inner: LogBuffer::new(storage) }
}

/// `LogBuffer::write_str`: writes the bytes of `text` one by one at the write
/// position, which wraps round. Each byte written displaces the oldest one,
/// so the ring then holds the newest bytes of its old contents followed by
/// `text`. It panics on a ring without storage, which `requires` leaves out.
#[verifier::external_body]
fn ring_write(ring: &mut Ring, text: &str)
    requires
        ring_contents(*old(ring)).len() > 0,
    ensures
        ring_contents(*final(ring)) == newest(
            ring_contents(*old(ring)) + encode_utf8(text@),
            ring_contents(*old(ring)).len(),
        ),
    no_unwind
{
    let _ = ring.inner.write_str(text);
}

/// `LogBuffer::extract`: rotates the storage, which leaves the logical
/// contents as they were, and returns the bytes from the first leading byte
/// on as text. It panics when those bytes are not UTF-8, which `requires`
/// leaves out.
#[verifier::external_body]
fn ring_extract(ring: &mut Ring) -> (text: String)
    requires
        valid_utf8(from_first_leader(ring_contents(*old(ring)))),
    ensures
        ring_contents(*final(ring)) == ring_contents(*old(ring)),
        encode_utf8(text@) == from_first_leader(ring_contents(*old(ring))),
    no_unwind
{
    ring.inner.extract().to_owned()
}

/// Bytes in front that cannot start a character do not change what is read.
proof fn lemma_skip_filler(bytes: Seq<u8>, count: int)
    requires
        0 <= count <= bytes.len(),
        forall|i: int| 0 <= i < count ==> !is_leader(#[trigger] bytes[i]),
    ensures
        from_first_leader(bytes) == from_first_leader(bytes.subrange(count, bytes.len() as int)),
    decreases count,
{
    if count == 0 {
        assert(bytes.subrange(0, bytes.len() as int) =~= bytes);
    } else {
        let rest = bytes.drop_first();
        lemma_skip_filler(rest, count - 1);
        assert(rest.subrange(count - 1, rest.len() as int) =~= bytes.subrange(
            count,
            bytes.len() as int,
        ));
    }
}

/// Reading the end of well-formed text from any byte on gives well-formed
/// text: the reader skips to the next character boundary.
proof fn lemma_tail_reads_as_text(whole: Seq<u8>, start: int)
    requires
        valid_utf8(whole),
        0 <= start <= whole.len(),
    ensures
        valid_utf8(from_first_leader(whole.subrange(start, whole.len() as int))),
    decreases whole.len() - start,
{
    let tail = whole.subrange(start, whole.len() as int);
    if start == whole.len() {
    } else if is_leader(whole[start]) {
        is_char_boundary_iff_is_leading_byte(whole, start);
        valid_utf8_split(whole, start);
    } else {
        assert(tail.drop_first() =~= whole.subrange(start + 1, whole.len() as int));
        lemma_tail_reads_as_text(whole, start + 1);
    }
}

/// The bytes in front of the first leading byte hold no leading byte, and
/// what follows them is what a reader sees.
proof fn lemma_first_leader_splits(bytes: Seq<u8>)
    ensures
        from_first_leader(bytes).len() <= bytes.len(),
        from_first_leader(bytes) == bytes.subrange(
            bytes.len() - from_first_leader(bytes).len(),
            bytes.len() as int,
        ),
        forall|i: int|
            0 <= i < bytes.len() - from_first_leader(bytes).len() ==> !is_leader(
                #[trigger] bytes[i],
            ),
    decreases bytes.len(),
{
    if bytes.len() == 0 || is_leader(bytes[0]) {
    } else {
        let rest = bytes.drop_first();
        lemma_first_leader_splits(rest);
        let skipped = rest.len() - from_first_leader(rest).len();
        assert forall|i: int| 0 <= i < skipped + 1 implies !is_leader(#[trigger] bytes[i]) by {
            if i > 0 {
                assert(bytes[i] == rest[i - 1]);
            }
        }
    }
}

/// If a reader sees well-formed text in `bytes`, it still does after more
/// text is appended and the oldest bytes are evicted.
proof fn lemma_readable_after_append(bytes: Seq<u8>, added: Seq<u8>, limit: nat)
    requires
        valid_utf8(from_first_leader(bytes)),
        valid_utf8(added),
    ensures
        valid_utf8(from_first_leader(newest(bytes + added, limit))),
{
    lemma_first_leader_splits(bytes);
    let seen = from_first_leader(bytes);
    let skipped = bytes.len() - seen.len();
    let text = seen + added;
    valid_utf8_concat(seen, added);
    let all = bytes + added;
    let kept = newest(all, limit);
    let dropped = all.len() - kept.len();
    if dropped <= skipped {
        lemma_skip_filler(kept, skipped - dropped);
        assert(kept.subrange(skipped - dropped, kept.len() as int) =~= text);
        lemma_tail_reads_as_text(text, 0);
    } else {
        assert(kept =~= text.subrange(dropped - skipped, text.len() as int));
        lemma_tail_reads_as_text(text, dropped - skipped);
    }
}

/// The most recent bytes of output, at most `capacity` of them.
pub struct LogCache {
    ring: Ring,
    capacity: usize,
    filled: usize,
}

impl View for LogCache {
    type V = Seq<u8>;

    /// The bytes retained, oldest first.
    closed spec fn view(&self) -> Seq<u8> {
        let all = ring_contents(self.ring);
        all.subrange(all.len() - self.filled, all.len() as int)
    }
}

impl LogCache {
    /// The byte budget that the cache was made with.
    pub closed spec fn capacity(&self) -> nat {
        self.capacity as nat
    }

    /// The ring is as long as the capacity, the part in front of the
    /// retained bytes is filler, and a reader sees well-formed text.
    #[verifier::type_invariant]
    spec fn well_formed(&self) -> bool {
        let all = ring_contents(self.ring);
        &&& all.len() == self.capacity
        &&& self.filled <= self.capacity
        &&& forall|i: int| 0 <= i < all.len() - self.filled ==> #[trigger] all[i] == FILLER
        &&& valid_utf8(from_first_leader(self@))
    }

    /// An empty cache bounded at `capacity` bytes.
    pub fn new(capacity: usize) -> (cache: Self)
        ensures
            cache.capacity() == capacity,
            cache@ == Seq::<u8>::empty(),
    {
        let mut storage: Vec<u8> = Vec::new();
        let mut count: usize = 0;
        while count < capacity
            invariant
                count <= capacity,
                storage@.len() == count,
            decreases capacity - count,
        {
            storage.push(0u8);
            count = count + 1;
        }
        LogCache { ring: ring_new(storage), capacity: capacity, filled: 0 }
    }

    /// The number of bytes retained, which never exceeds the capacity.
    pub fn len(&self) -> (count: usize)
        ensures
            count == self@.len(),
            count <= self.capacity(),
    {
        proof {
            use_type_invariant(self);
        }
        self.filled
    }

    /// Appends `text`, then evicts the oldest bytes until the cache is within
    /// its capacity again. Never fails: truncation is a normal outcome.
    pub fn append(&mut self, text: &str)
        ensures
            final(self).capacity() == old(self).capacity(),
            final(self)@ == newest(old(self)@ + encode_utf8(text@), old(self).capacity()),
    {
        let ghost added = encode_utf8(text@);
        let ghost before = ring_contents(self.ring);
        let ghost retained = self@;
        proof {
            use_type_invariant(&*self);
            encode_utf8_valid_utf8(text@);
            lemma_readable_after_append(retained, added, self.capacity as nat);
        }
        if self.capacity == 0 {
            return ;
        }
        let room = self.capacity - self.filled;
        let size = text.as_bytes().len();
        let grown = if size >= room {
            self.capacity
        } else {
            self.filled + size
        };
        proof {
            // Counting filler as retained does not change what a reader sees.
            let wider = before.subrange(before.len() - grown, before.len() as int);
            lemma_skip_filler(wider, grown - self.filled);
            assert(wider.subrange(grown - self.filled, wider.len() as int) =~= retained);
        }
        self.filled = grown;
        proof {
            // What the ring holds after the write, and what is retained of it.
            let after = newest(before + added, before.len());
            let kept = after.subrange(after.len() - grown, after.len() as int);
            assert(kept =~= newest(retained + added, self.capacity as nat));
        }
        ring_write(&mut self.ring, text);
    }

    /// The retained text as a copy. A character that eviction has cut in two
    /// is left out; nothing retained changes.
    pub fn snapshot(&mut self) -> (text: String)
        ensures
            final(self).capacity() == old(self).capacity(),
            final(self)@ == old(self)@,
            text@ == readable_text(old(self)@),
    {
        proof {
            use_type_invariant(&*self);
            let all = ring_contents(self.ring);
            lemma_skip_filler(all, all.len() - self.filled);
        }
        let text = ring_extract(&mut self.ring);
        proof {
            encode_utf8_decode_utf8(text@);
        }
        text
    }
}

} // verus!
