//! The completion ring: a descriptor over the shared region and the
//! consumer view that drains it.
//!
//! The shared region is a byte buffer laid out by the producer. A
//! [`CqOffsets`] value says where each control field lives inside it: the
//! head counter (consumer-written), the tail counter (producer-written),
//! the ring mask and capacity (fixed at setup), an overflow counter, a
//! ring-level flag word, and the completion-record array. [`Inner`] resolves
//! those offsets once; [`CompletionQueue`] is a short-lived cursor borrowed
//! from it that snapshots head and tail, pops records oldest-first, and on
//! release publishes its head so the producer may reuse the consumed slots.
//!
//! Every operation is specified against [`RingView`], the mathematical
//! state of the ring: the two 32-bit cursors (monotonically increasing
//! modulo 2^32), the fixed geometry, and the decoded record in each slot.

use vstd::prelude::*;

verus! {

use core::marker::PhantomData;
use vstd::wrapping::u32_specs;
use vstd::arithmetic::mul::{lemma_mul_basics, lemma_mul_inequality, lemma_mul_is_distributive_add_other_way, lemma_mul_nonnegative};
use crate::le::{u32_le, read_u32_le, write_u32_le};

pub use crate::entry::{Entry, Entry32, EntryMarker};

/// Entry flag bit: a provided buffer was selected for this completion.
pub const IORING_CQE_F_BUFFER: u32 = 1;

/// Entry flag bit: more completions are coming for the same request.
pub const IORING_CQE_F_MORE: u32 = 2;

/// Entry flag bit: the socket has more data, immediately readable.
pub const IORING_CQE_F_SOCK_NONEMPTY: u32 = 4;

/// Entry flag bit: this record is a zero-copy-send notification, not a
/// primary result.
pub const IORING_CQE_F_NOTIF: u32 = 8;

/// Bit position of the selected-buffer id within an entry's flag word.
pub const IORING_CQE_BUFFER_SHIFT: u32 = 16;

/// Ring flag bit: event notifications are disabled.
pub const IORING_CQ_EVENTFD_DISABLED: u32 = 1;

/// Byte offsets of the ring's control fields and record array within the
/// shared region, supplied by the producer when the ring is established.
#[derive(Clone, Copy, PartialEq, Eq, Structural, Debug)]
pub struct CqOffsets {
    /// Offset of the head counter.
    pub head: u32,
    /// Offset of the tail counter.
    pub tail: u32,
    /// Offset of the ring mask word.
    pub ring_mask: u32,
    /// Offset of the ring capacity word.
    pub ring_entries: u32,
    /// Offset of the overflow counter.
    pub overflow: u32,
    /// Offset of the completion-record array.
    pub cqes: u32,
    /// Offset of the ring-level flag word.
    pub flags: u32,
}

/// The mathematical state of a completion ring: cursor positions, fixed
/// geometry, out-of-band words, and the record each slot currently holds.
///
/// Position `p` of the unbounded cursor space maps to slot `p & mask`; the
/// records pending consumption sit at positions `head..tail`.
#[verifier::ext_equal]
pub ghost struct RingView<E> {
    /// Consumer cursor: the next position to consume.
    pub head: u32,
    /// Producer cursor: the next position to be filled.
    pub tail: u32,
    /// Slot mask, always `capacity - 1`.
    pub mask: u32,
    /// Number of slots, a power of two.
    pub capacity: u32,
    /// Completions dropped because the ring was full when the producer
    /// tried to insert them.
    pub overflow: u32,
    /// Ring-level flag bitmap.
    pub flags: u32,
    /// The record currently stored in each slot; length `capacity`.
    pub slots: Seq<E>,
}

impl<E> RingView<E> {
    /// Ring geometry is consistent and the unconsumed span fits the ring.
    pub open spec fn wf(self) -> bool {
        &&& self.capacity > 0
        &&& self.mask == self.capacity - 1
        &&& (self.capacity & (self.capacity - 1) as u32) == 0
        &&& self.slots.len() == self.capacity
        &&& u32_specs::wrapping_sub(self.tail, self.head) <= self.capacity
    }

    /// Number of records pending consumption: the cursor difference taken
    /// modulo 2^32, which is correct across counter wraparound.
    pub open spec fn len(self) -> u32 {
        u32_specs::wrapping_sub(self.tail, self.head)
    }

    /// The records pending consumption, oldest first.
    pub open spec fn pending(self) -> Seq<E> {
        Seq::new(
            self.len() as nat,
            |i: int| self.slots[(u32_specs::wrapping_add(self.head, i as u32) & self.mask) as int],
        )
    }

    /// The same ring after the consumer cursor moved past `k` records.
    pub open spec fn advanced(self, k: nat) -> Self {
        RingView { head: u32_specs::wrapping_add(self.head, k as u32), ..self }
    }
}

/// Advancing one cursor by `k` shortens the wrapped difference by `k`.
proof fn lemma_wsub_advance(h: u32, t: u32, k: u32)
    requires
        k <= u32_specs::wrapping_sub(t, h),
    ensures
        u32_specs::wrapping_sub(t, u32_specs::wrapping_add(h, k)) == u32_specs::wrapping_sub(t, h)
            - k,
{
}

/// Cursor advancement composes: `k` positions and then `m` more is `k + m`.
proof fn lemma_wadd_assoc(h: u32, k: u32, m: u32)
    requires
        k + m <= u32::MAX,
    ensures
        u32_specs::wrapping_add(u32_specs::wrapping_add(h, k), m) == u32_specs::wrapping_add(
            h,
            (k + m) as u32,
        ),
{
}

/// Law: draining preserves FIFO order. After consuming `k` records of a
/// well-formed ring, the ring is still well formed, exactly `k` fewer
/// records are pending, and the pending records are the original pending
/// records with the first `k` removed — so consuming one record at a time
/// yields `pending()` front to back, and a ring drained of `len()` records
/// has nothing pending.
pub proof fn lemma_drain_fifo<E>(v: RingView<E>, k: nat)
    requires
        v.wf(),
        k <= v.len(),
    ensures
        v.advanced(k).wf(),
        v.advanced(k).len() == v.len() - k,
        v.advanced(k).pending() == v.pending().skip(k as int),
{
    lemma_wsub_advance(v.head, v.tail, k as u32);
    let a = v.advanced(k).pending();
    let b = v.pending().skip(k as int);
    assert forall|i: int| 0 <= i < a.len() implies a[i] == b[i] by {
        lemma_wadd_assoc(v.head, k as u32, i as u32);
    }
    assert(a =~= b);
}

/// The descriptor of a completion ring: the shared region together with the
/// resolved locations of its control fields, and the geometry words cached
/// at construction. Immutable between borrows; a [`CompletionQueue`]
/// borrowed from it is the only way to consume.
pub struct Inner<E: EntryMarker> {
    region: Vec<u8>,
    head_off: usize,
    tail_off: usize,
    overflow_off: usize,
    flags_off: usize,
    cqes_off: usize,
    ring_mask: u32,
    ring_entries: u32,
    marker: PhantomData<E>,
}

/// The record each slot of the array at `cqes_off` holds, decoded from its
/// stride of bytes.
pub open spec fn slots_of<E: EntryMarker>(b: Seq<u8>, cqes_off: int, capacity: u32) -> Seq<E> {
    Seq::new(
        capacity as nat,
        |i: int|
            E::decoded(
                b.subrange(cqes_off + i * E::stride(), cqes_off + i * E::stride() + E::stride()),
            ),
    )
}

/// The offsets describe a well-formed ring within the region `b`: every
/// control field and the whole record array lie inside the region, the
/// geometry words hold a power-of-two capacity and its mask, the head field
/// overlaps neither the other fields nor the array, and no more records are
/// unconsumed than the ring has slots. This is the trust boundary towards
/// the producer that laid the region out: none of it is re-checked at run
/// time.
pub open spec fn offsets_valid<E: EntryMarker>(b: Seq<u8>, off: CqOffsets) -> bool {
    let cap = u32_le(b, off.ring_entries as int);
    &&& off.head + 4 <= b.len()
    &&& off.tail + 4 <= b.len()
    &&& off.ring_mask + 4 <= b.len()
    &&& off.ring_entries + 4 <= b.len()
    &&& off.overflow + 4 <= b.len()
    &&& off.flags + 4 <= b.len()
    &&& cap > 0
    &&& (cap & (cap - 1) as u32) == 0
    &&& u32_le(b, off.ring_mask as int) == cap - 1
    &&& off.cqes + cap * E::stride() <= b.len()
    &&& (off.head + 4 <= off.tail || off.tail + 4 <= off.head)
    &&& (off.head + 4 <= off.overflow || off.overflow + 4 <= off.head)
    &&& (off.head + 4 <= off.flags || off.flags + 4 <= off.head)
    &&& (off.head + 4 <= off.cqes || off.cqes + cap * E::stride() <= off.head)
    &&& u32_specs::wrapping_sub(u32_le(b, off.tail as int), u32_le(b, off.head as int)) <= cap
}

impl<E: EntryMarker> View for Inner<E> {
    type V = RingView<E>;

    closed spec fn view(&self) -> RingView<E> {
        RingView {
            head: u32_le(self.region@, self.head_off as int),
            tail: u32_le(self.region@, self.tail_off as int),
            mask: self.ring_mask,
            capacity: self.ring_entries,
            overflow: u32_le(self.region@, self.overflow_off as int),
            flags: u32_le(self.region@, self.flags_off as int),
            slots: slots_of::<E>(self.region@, self.cqes_off as int, self.ring_entries),
        }
    }
}

impl<E: EntryMarker> Inner<E> {
    /// The resolved offsets still describe a well-formed ring: the bounds,
    /// disjointness and geometry facts of [`offsets_valid`], carried over
    /// the cached fields.
    pub closed spec fn inv(self) -> bool {
        let n = self.region@.len() as int;
        &&& self.head_off + 4 <= n
        &&& self.tail_off + 4 <= n
        &&& self.overflow_off + 4 <= n
        &&& self.flags_off + 4 <= n
        &&& self.ring_entries > 0
        &&& self.ring_mask == self.ring_entries - 1
        &&& (self.ring_entries & (self.ring_entries - 1) as u32) == 0
        &&& self.cqes_off + self.ring_entries * E::stride() <= n
        &&& (self.head_off + 4 <= self.tail_off || self.tail_off + 4 <= self.head_off)
        &&& (self.head_off + 4 <= self.overflow_off || self.overflow_off + 4 <= self.head_off)
        &&& (self.head_off + 4 <= self.flags_off || self.flags_off + 4 <= self.head_off)
        &&& (self.head_off + 4 <= self.cqes_off || self.cqes_off + self.ring_entries * E::stride()
            <= self.head_off)
        &&& self@.wf()
    }

    /// Resolve a ring descriptor from the shared region and the offsets the
    /// producer supplied for it, caching the two geometry words.
    ///
    /// Reading the same control values back through the view reproduces
    /// exactly the words stored in the region.
    pub fn new(region: Vec<u8>, off: &CqOffsets) -> (r: Inner<E>)
        requires
            offsets_valid::<E>(region@, *off),
        ensures
            r.inv(),
            r@ == (RingView::<E> {
                head: u32_le(region@, off.head as int),
                tail: u32_le(region@, off.tail as int),
                mask: u32_le(region@, off.ring_mask as int),
                capacity: u32_le(region@, off.ring_entries as int),
                overflow: u32_le(region@, off.overflow as int),
                flags: u32_le(region@, off.flags as int),
                slots: slots_of::<E>(
                    region@,
                    off.cqes as int,
                    u32_le(region@, off.ring_entries as int),
                ),
            }),
    {
        let _n: usize = region.len();
        let ring_mask = read_u32_le(&region, off.ring_mask as usize);
        let ring_entries = read_u32_le(&region, off.ring_entries as usize);
        Inner {
            region,
            head_off: off.head as usize,
            tail_off: off.tail as usize,
            overflow_off: off.overflow as usize,
            flags_off: off.flags as usize,
            cqes_off: off.cqes as usize,
            ring_mask,
            ring_entries,
            marker: PhantomData,
        }
    }

    /// Borrow the ring for consuming: snapshot the shared head and tail
    /// into a view. The descriptor is surrendered to the view and is handed
    /// back — with the consumed slots published — by
    /// [`CompletionQueue::release`].
    pub fn borrow(self) -> (q: CompletionQueue<E>)
        requires
            self.inv(),
        ensures
            q.inv(),
            q@ == self@,
            q.published() == q@.head,
    {
        let head = read_u32_le(&self.region, self.head_off);
        let tail = read_u32_le(&self.region, self.tail_off);
        CompletionQueue { head, tail, queue: self }
    }
}

/// A consumer's view of the ring: a local head that advances as records
/// are consumed and a local tail frozen when the view was borrowed (or
/// last synchronized). Dropped slots are given back to the producer only
/// when the local head is published, by [`CompletionQueue::sync`] or
/// [`CompletionQueue::release`].
pub struct CompletionQueue<E: EntryMarker> {
    head: u32,
    tail: u32,
    queue: Inner<E>,
}

impl<E: EntryMarker> View for CompletionQueue<E> {
    type V = RingView<E>;

    closed spec fn view(&self) -> RingView<E> {
        RingView { head: self.head, tail: self.tail, ..self.queue@ }
    }
}

impl<E: EntryMarker> CompletionQueue<E> {
    /// The underlying descriptor is well formed, the local tail agrees with
    /// the shared one, and no more records lie between the cursors than the
    /// ring has slots.
    pub closed spec fn inv(self) -> bool {
        &&& self.queue.inv()
        &&& self.tail == self.queue@.tail
        &&& u32_specs::wrapping_sub(self.tail, self.head) <= self.queue.ring_entries
    }

    /// The consumer position currently published in the shared region.
    pub closed spec fn published(self) -> u32 {
        self.queue@.head
    }

    /// A well-formed view is a well-formed ring state.
    pub proof fn lemma_inv_wf(self)
        requires
            self.inv(),
        ensures
            self@.wf(),
    {
    }

    /// Publish the local head to the shared region, then reload the shared
    /// tail. Idempotent and safe to call mid-drain; since the view owns the
    /// region, the reloaded tail is the one it already holds, so the view's
    /// state is unchanged and only the published head moves.
    pub fn sync(&mut self)
        requires
            old(self).inv(),
        ensures
            final(self).inv(),
            final(self)@ == old(self)@,
            final(self).published() == old(self)@.head,
    {
        let head = self.head;
        store_head(&mut self.queue, head);
        self.tail = read_u32_le(&self.queue.region, self.queue.tail_off);
    }

    /// The number of completions the producer dropped because the ring was
    /// full when it tried to insert them. Monotonically non-decreasing over
    /// the ring's lifetime.
    pub fn overflow(&self) -> (n: u32)
        requires
            self.inv(),
        ensures
            n == self@.overflow,
    {
        read_u32_le(&self.queue.region, self.queue.overflow_off)
    }

    /// Whether event notifications are disabled for this ring. This side
    /// only reads the bit; it has no way to change it.
    pub fn eventfd_disabled(&self) -> (r: bool)
        requires
            self.inv(),
        ensures
            r == ((self@.flags & IORING_CQ_EVENTFD_DISABLED) != 0),
    {
        read_u32_le(&self.queue.region, self.queue.flags_off) & IORING_CQ_EVENTFD_DISABLED != 0
    }

    /// The total number of record slots in the ring.
    pub fn capacity(&self) -> (n: usize)
        requires
            self.inv(),
        ensures
            n == self@.capacity,
    {
        self.queue.ring_entries as usize
    }

    /// The number of records pending consumption: the wrapped difference
    /// `tail.wrapping_sub(head)`, correct even when the 32-bit counters
    /// have wrapped around, since both advance modulo 2^32 and the
    /// capacity is far smaller.
    pub fn len(&self) -> (n: usize)
        requires
            self.inv(),
        ensures
            n == self@.len(),
            n == u32_specs::wrapping_sub(self@.tail, self@.head),
    {
        self.tail.wrapping_sub(self.head) as usize
    }

    /// Whether no records are pending.
    pub fn is_empty(&self) -> (r: bool)
        requires
            self.inv(),
        ensures
            r == (self@.len() == 0),
    {
        self.len() == 0
    }

    /// Whether the ring is at capacity; while it stays full, the producer
    /// drops new completions and counts them in `overflow`.
    pub fn is_full(&self) -> (r: bool)
        requires
            self.inv(),
        ensures
            r == (self@.len() == self@.capacity),
    {
        self.len() == self.capacity()
    }

    /// Consume the oldest pending record and advance the local head past
    /// it. The caller must know the view is non-empty; this is the
    /// unchecked primitive beneath [`Self::next`] and [`Self::fill`].
    pub fn pop(&mut self) -> (e: E)
        requires
            old(self).inv(),
            old(self)@.len() > 0,
        ensures
            final(self).inv(),
            e == old(self)@.pending()[0],
            final(self)@ == old(self)@.advanced(1),
            final(self).published() == old(self).published(),
    {
        let _n: usize = self.queue.region.len();
        let idx = self.head & self.queue.ring_mask;
        proof {
            let h = self.head;
            let m = self.queue.ring_mask;
            assert(h & m <= m) by (bit_vector);
            lemma_mul_nonnegative(idx as int, E::stride() as int);
            lemma_mul_inequality(idx as int + 1, self.queue.ring_entries as int, E::stride() as int);
            lemma_mul_is_distributive_add_other_way(E::stride() as int, idx as int, 1);
            lemma_mul_basics(E::stride() as int);
        }
        let off = self.queue.cqes_off + (idx as usize) * E::stride_bytes();
        let e = E::read_at(&self.queue.region, off);
        self.head = self.head.wrapping_add(1);
        proof {
            lemma_wsub_advance(old(self).head, old(self).tail, 1);
            assert(u32_specs::wrapping_add(old(self).head, 0u32) == old(self).head);
            assert(e == old(self)@.pending()[0]);
        }
        e
    }

    /// Pop `min(len, entries.len())` records into the front of `entries`,
    /// oldest first, overwriting what was there; the rest of the buffer and
    /// the records beyond the returned count are untouched. Never blocks
    /// and never consumes more than is pending.
    pub fn fill(&mut self, entries: &mut Vec<E>) -> (n: usize)
        requires
            old(self).inv(),
        ensures
            final(self).inv(),
            n == vstd::math::min(old(self)@.len() as int, old(entries)@.len() as int),
            final(entries)@.len() == old(entries)@.len(),
            forall|i: int| 0 <= i < n ==> final(entries)@[i] == old(self)@.pending()[i],
            forall|i: int|
                n <= i < old(entries)@.len() ==> final(entries)@[i] == old(entries)@[i],
            final(self)@ == old(self)@.advanced(n as nat),
            final(self)@.len() == old(self)@.len() - n,
            final(self).published() == old(self).published(),
    {
        let qlen = self.len();
        let elen = entries.len();
        let n = if qlen < elen {
            qlen
        } else {
            elen
        };
        let mut i: usize = 0;
        while i < n
            invariant
                old(self).inv(),
                self.inv(),
                n <= old(self)@.len(),
                n <= old(entries)@.len(),
                i <= n,
                entries@.len() == old(entries)@.len(),
                self@ == old(self)@.advanced(i as nat),
                self.published() == old(self).published(),
                forall|j: int| 0 <= j < i ==> entries@[j] == old(self)@.pending()[j],
                forall|j: int| i <= j < entries@.len() ==> entries@[j] == old(entries)@[j],
            decreases n - i,
        {
            proof {
                old(self).lemma_inv_wf();
                lemma_drain_fifo(old(self)@, i as nat);
            }
            let e = self.pop();
            entries[i] = e;
            proof {
                lemma_wadd_assoc(old(self)@.head, i as u32, 1);
            }
            i = i + 1;
        }
        n
    }

    /// Consume and return the oldest pending record, or nothing if the
    /// view is exhausted; a fresh borrow (or `sync`) is needed to see
    /// records produced later.
    pub fn next(&mut self) -> (r: Option<E>)
        requires
            old(self).inv(),
        ensures
            final(self).inv(),
            final(self).published() == old(self).published(),
            old(self)@.len() == 0 ==> r is None && final(self)@ == old(self)@,
            old(self)@.len() > 0 ==> r == Some(old(self)@.pending()[0]) && final(self)@ == old(
                self,
            )@.advanced(1),
    {
        if self.head != self.tail {
            Some(self.pop())
        } else {
            None
        }
    }

    /// Exactly `len()` records remain to be consumed from this view.
    pub fn size_hint(&self) -> (r: (usize, Option<usize>))
        requires
            self.inv(),
        ensures
            r.0 == self@.len(),
            r.1 == Some(self@.len() as usize),
    {
        let l = self.len();
        (l, Some(l))
    }

    /// End the borrow: publish the local head to the shared region —
    /// whether or not `sync` was ever called — and hand the descriptor
    /// back. A view borrowed afterwards starts from exactly this view's
    /// final state.
    pub fn release(self) -> (r: Inner<E>)
        requires
            self.inv(),
        ensures
            r.inv(),
            r@ == self@,
    {
        let CompletionQueue { head, tail: _, mut queue } = self;
        store_head(&mut queue, head);
        queue
    }
}

/// Which provided buffer was used by this operation, if any.
///
/// When the buffer-selected bit of an entry's flag word is set, the id of
/// the provided buffer that holds the result sits in the upper bits of the
/// word; without the bit, no provided buffer was selected.
pub fn buffer_select(flags: u32) -> (r: Option<u16>)
    ensures
        flags & IORING_CQE_F_BUFFER != 0 ==> r == Some(
            (flags >> IORING_CQE_BUFFER_SHIFT) as u16,
        ),
        flags & IORING_CQE_F_BUFFER == 0 ==> r is None,
{
    if flags & IORING_CQE_F_BUFFER != 0 {
        let id = flags >> IORING_CQE_BUFFER_SHIFT;
        proof {
            assert(flags >> 16u32 < 0x10000) by (bit_vector);
        }
        Some(id as u16)
    } else {
        None
    }
}

/// Whether further completions will be produced for the same originating
/// request (multishot semantics): if so, this record is not its final
/// completion and the request remains armed.
pub fn more(flags: u32) -> (r: bool)
    ensures
        r == (flags & IORING_CQE_F_MORE != 0),
{
    flags & IORING_CQE_F_MORE != 0
}

/// Whether a receive-family operation's socket has additional data ready
/// to be read immediately.
pub fn sock_nonempty(flags: u32) -> (r: bool)
    ensures
        r == (flags & IORING_CQE_F_SOCK_NONEMPTY != 0),
{
    flags & IORING_CQE_F_SOCK_NONEMPTY != 0
}

/// Whether this record is a zero-copy-send notification rather than a
/// primary result.
pub fn notif(flags: u32) -> (r: bool)
    ensures
        r == (flags & IORING_CQE_F_NOTIF != 0),
{
    flags & IORING_CQE_F_NOTIF != 0
}

/// Store `head` into the shared head field, leaving every other modeled
/// part of the ring as it was.
fn store_head<E: EntryMarker>(inner: &mut Inner<E>, head: u32)
    requires
        old(inner).inv(),
        u32_specs::wrapping_sub(old(inner)@.tail, head) <= old(inner)@.capacity,
    ensures
        final(inner).inv(),
        final(inner)@ == (RingView { head, ..old(inner)@ }),
{
    let off = inner.head_off;
    write_u32_le(&mut inner.region, off, head);
    proof {
        let b0 = old(inner).region@;
        let b1 = inner.region@;
        let cqes = inner.cqes_off as int;
        let cap = inner.ring_entries;
        assert forall|i: int| 0 <= i < cap as int implies #[trigger] slots_of::<E>(
            b1,
            cqes,
            cap,
        )[i] == slots_of::<E>(b0, cqes, cap)[i] by {
            let stride = E::stride() as int;
            let lo = cqes + i * stride;
            let hi = lo + stride;
            lemma_mul_nonnegative(i, stride);
            lemma_mul_inequality(i + 1, cap as int, stride);
            lemma_mul_is_distributive_add_other_way(stride, i, 1);
            lemma_mul_basics(stride);
            assert(hi <= cqes + cap as int * stride);
            assert forall|j: int| lo <= j < hi implies b1[j] == b0[j] by {
                assert(!(off <= j < off + 4));
            }
            assert(b1.subrange(lo, hi) =~= b0.subrange(lo, hi));
        }
        assert(slots_of::<E>(b1, cqes, cap) =~= slots_of::<E>(b0, cqes, cap));
        assert(final(inner)@ =~= (RingView { head, ..old(inner)@ }));
    }
}

} // verus!
