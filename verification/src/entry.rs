//! The two completion-record layouts and the capability contract they share.
//!
//! A ring is created with one layout and keeps it for its whole lifetime:
//! either the compact 16-byte record or the extended 32-byte record that
//! carries 16 further bytes of operation-specific payload. Both expose the
//! same three fields: an opaque correlation token chosen at submission time,
//! a signed result code, and a flag bitmap.

use vstd::prelude::*;

verus! {

use crate::le::{u32_le, u64_le, i32_of_bits, read_u32_le, read_u64_le, i32_from_bits};

/// Ring-setup flag bit asking for 32-byte completion records.
pub const IORING_SETUP_CQE32: u32 = 1 << 11;

/// A completion record, representing one finished I/O operation.
///
/// Implemented by [`Entry`] and [`Entry32`]; the stride a ring uses to index
/// its record array is fixed by the implementation chosen at ring creation.
pub trait EntryMarker: Sized + Clone {
    /// Ring-setup flag bits that select this record layout at creation.
    const BUILD_FLAGS: u32;

    /// Number of bytes one record of this layout occupies in the ring.
    spec fn stride() -> nat;

    /// The record encoded by one stride's worth of ring bytes.
    spec fn decoded(b: Seq<u8>) -> Self;

    /// The correlation token the record carries.
    spec fn spec_user_data(self) -> u64;

    /// The result code the record carries.
    spec fn spec_result(self) -> i32;

    /// The flag bitmap the record carries.
    spec fn spec_flags(self) -> u32;

    /// The stride, as a runtime value.
    fn stride_bytes() -> (n: usize)
        ensures
            n == Self::stride(),
    ;

    /// Copy the record stored at byte offset `off` of the shared region.
    fn read_at(region: &Vec<u8>, off: usize) -> (e: Self)
        requires
            off + Self::stride() <= region@.len(),
        ensures
            e == Self::decoded(region@.subrange(off as int, off + Self::stride())),
    ;

    /// The correlation token attached to the originating request, echoed
    /// back by the producer so the completion can be routed to it.
    fn user_data(&self) -> (r: u64)
        ensures
            r == self.spec_user_data(),
    ;

    /// The operation-specific result code.
    fn result(&self) -> (r: i32)
        ensures
            r == self.spec_result(),
    ;

    /// Metadata bits of the completion; see the flag decoders.
    fn flags(&self) -> (r: u32)
        ensures
            r == self.spec_flags(),
    ;
}

/// A 16-byte completion record: correlation token, result code, flag bitmap.
#[derive(Clone, Copy, PartialEq, Eq, Structural, Debug)]
pub struct Entry {
    /// Correlation token, bytes 0–7 of the record.
    pub user_data: u64,
    /// Signed result code, bytes 8–11.
    pub res: i32,
    /// Flag bitmap, bytes 12–15.
    pub flags: u32,
}

/// A 32-byte completion record: an [`Entry`] followed by 16 bytes of
/// operation-specific auxiliary payload, read as two 64-bit words.
#[derive(Clone, Copy, Debug)]
pub struct Entry32 {
    /// The common 16-byte prefix.
    pub base: Entry,
    /// The auxiliary payload, bytes 16–31.
    pub big: [u64; 2],
}

impl EntryMarker for Entry {
    const BUILD_FLAGS: u32 = 0;

    open spec fn stride() -> nat {
        16
    }

    open spec fn decoded(b: Seq<u8>) -> Self {
        Entry { user_data: u64_le(b, 0), res: i32_of_bits(u32_le(b, 8)), flags: u32_le(b, 12) }
    }

    open spec fn spec_user_data(self) -> u64 {
        self.user_data
    }

    open spec fn spec_result(self) -> i32 {
        self.res
    }

    open spec fn spec_flags(self) -> u32 {
        self.flags
    }

    fn stride_bytes() -> (n: usize) {
        16
    }

    fn read_at(region: &Vec<u8>, off: usize) -> (e: Self) {
        let _n: usize = region.len();
        let user_data = read_u64_le(region, off);
        let res = i32_from_bits(read_u32_le(region, off + 8));
        let flags = read_u32_le(region, off + 12);
        Entry { user_data, res, flags }
    }

    fn user_data(&self) -> (r: u64) {
        self.user_data
    }

    fn result(&self) -> (r: i32) {
        self.res
    }

    fn flags(&self) -> (r: u32) {
        self.flags
    }
}

impl Entry32 {
    /// The auxiliary payload available in 32-byte completion records.
    pub fn big_cqe(&self) -> (r: &[u64; 2])
        ensures
            r == self.big,
    {
        &self.big
    }
}

impl EntryMarker for Entry32 {
    const BUILD_FLAGS: u32 = IORING_SETUP_CQE32;

    open spec fn stride() -> nat {
        32
    }

    open spec fn decoded(b: Seq<u8>) -> Self {
        Entry32 {
            base: Entry {
                user_data: u64_le(b, 0),
                res: i32_of_bits(u32_le(b, 8)),
                flags: u32_le(b, 12),
            },
            big: [u64_le(b, 16), u64_le(b, 24)],
        }
    }

    open spec fn spec_user_data(self) -> u64 {
        self.base.user_data
    }

    open spec fn spec_result(self) -> i32 {
        self.base.res
    }

    open spec fn spec_flags(self) -> u32 {
        self.base.flags
    }

    fn stride_bytes() -> (n: usize) {
        32
    }

    fn read_at(region: &Vec<u8>, off: usize) -> (e: Self) {
        let _n: usize = region.len();
        let user_data = read_u64_le(region, off);
        let res = i32_from_bits(read_u32_le(region, off + 8));
        let flags = read_u32_le(region, off + 12);
        let big0 = read_u64_le(region, off + 16);
        let big1 = read_u64_le(region, off + 24);
        Entry32 { base: Entry { user_data, res, flags }, big: [big0, big1] }
    }

    fn user_data(&self) -> (r: u64) {
        self.base.user_data
    }

    fn result(&self) -> (r: i32) {
        self.base.res
    }

    fn flags(&self) -> (r: u32) {
        self.base.flags
    }
}

impl PartialEq for Entry32 {
    fn eq(&self, other: &Entry32) -> (r: bool) {
        self.base == other.base && self.big[0] == other.big[0] && self.big[1] == other.big[1]
    }
}

impl vstd::std_specs::cmp::PartialEqSpecImpl for Entry32 {
    open spec fn obeys_eq_spec() -> bool {
        true
    }

    open spec fn eq_spec(&self, other: &Entry32) -> bool {
        self.base == other.base && self.big@[0] == other.big@[0] && self.big@[1] == other.big@[1]
    }
}

impl From<Entry32> for Entry {
    /// Drop the auxiliary payload, keeping the common 16-byte prefix.
    fn from(entry32: Entry32) -> (r: Entry) {
        entry32.base
    }
}

impl vstd::std_specs::convert::FromSpecImpl<Entry32> for Entry {
    open spec fn obeys_from_spec() -> bool {
        true
    }

    open spec fn from_spec(entry32: Entry32) -> Entry {
        entry32.base
    }
}

} // verus!
