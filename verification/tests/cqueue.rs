use std::mem;

use io_uring::cqueue::{
    buffer_select, more, notif, sock_nonempty, CqOffsets, Entry, Entry32, EntryMarker, Inner,
    IORING_CQE_F_BUFFER, IORING_CQE_F_MORE, IORING_CQE_F_NOTIF, IORING_CQE_F_SOCK_NONEMPTY,
};
use io_uring::entry::IORING_SETUP_CQE32;

const HEAD: usize = 0;
const TAIL: usize = 4;
const RING_MASK: usize = 8;
const RING_ENTRIES: usize = 12;
const OVERFLOW: usize = 16;
const FLAGS: usize = 20;
const CQES: usize = 24;

fn offsets() -> CqOffsets {
    CqOffsets {
        head: HEAD as u32,
        tail: TAIL as u32,
        ring_mask: RING_MASK as u32,
        ring_entries: RING_ENTRIES as u32,
        overflow: OVERFLOW as u32,
        cqes: CQES as u32,
        flags: FLAGS as u32,
    }
}

fn put32(b: &mut [u8], off: usize, v: u32) {
    b[off..off + 4].copy_from_slice(&v.to_le_bytes());
}

fn put64(b: &mut [u8], off: usize, v: u64) {
    b[off..off + 8].copy_from_slice(&v.to_le_bytes());
}

/// A region for a ring of `cap` slots (a power of two) of 16-byte entries.
fn region16(cap: u32, head: u32, tail: u32, overflow: u32, flags: u32) -> Vec<u8> {
    let mut b = vec![0u8; CQES + cap as usize * 16];
    put32(&mut b, HEAD, head);
    put32(&mut b, TAIL, tail);
    put32(&mut b, RING_MASK, cap - 1);
    put32(&mut b, RING_ENTRIES, cap);
    put32(&mut b, OVERFLOW, overflow);
    put32(&mut b, FLAGS, flags);
    b
}

/// Write the 16-byte entry for ring position `pos` (wrapping counter value).
fn put_entry16(b: &mut [u8], cap: u32, pos: u32, user_data: u64, res: i32, flags: u32) {
    let off = CQES + (pos & (cap - 1)) as usize * 16;
    put64(b, off, user_data);
    put32(b, off + 8, res as u32);
    put32(b, off + 12, flags);
}

fn region32(cap: u32, head: u32, tail: u32) -> Vec<u8> {
    let mut b = vec![0u8; CQES + cap as usize * 32];
    put32(&mut b, HEAD, head);
    put32(&mut b, TAIL, tail);
    put32(&mut b, RING_MASK, cap - 1);
    put32(&mut b, RING_ENTRIES, cap);
    b
}

fn put_entry32(
    b: &mut [u8],
    cap: u32,
    pos: u32,
    user_data: u64,
    res: i32,
    flags: u32,
    big: [u64; 2],
) {
    let off = CQES + (pos & (cap - 1)) as usize * 32;
    put64(b, off, user_data);
    put32(b, off + 8, res as u32);
    put32(b, off + 12, flags);
    put64(b, off + 16, big[0]);
    put64(b, off + 24, big[1]);
}

#[test]
fn test_entry_sizes() {
    assert_eq!(mem::size_of::<Entry>(), 16);
    assert_eq!(mem::size_of::<Entry32>(), 32);
}

#[test]
fn fifo_iteration_drains_in_order() {
    let mut b = region16(8, 0, 3, 0, 0);
    for pos in 0..3u32 {
        put_entry16(&mut b, 8, pos, 100 + pos as u64, pos as i32, 0);
    }
    let ring = Inner::<Entry>::new(b, &offsets());
    let mut cq = ring.borrow();
    let mut seen = Vec::new();
    while let Some(e) = cq.next() {
        seen.push(e.user_data());
    }
    assert_eq!(seen, vec![100, 101, 102]);
    assert!(cq.is_empty());
    assert_eq!(cq.len(), 0);
}

#[test]
fn length_counts_across_wraparound() {
    let head = u32::MAX - 1;
    let tail = head.wrapping_add(4);
    let mut b = region16(8, head, tail, 0, 0);
    for i in 0..4u32 {
        put_entry16(&mut b, 8, head.wrapping_add(i), 10 + i as u64, 0, 0);
    }
    let ring = Inner::<Entry>::new(b, &offsets());
    let mut cq = ring.borrow();
    assert_eq!(cq.len(), tail.wrapping_sub(head) as usize);
    assert_eq!(cq.len(), 4);
    let mut seen = Vec::new();
    while let Some(e) = cq.next() {
        seen.push(e.user_data());
    }
    assert_eq!(seen, vec![10, 11, 12, 13]);
    assert_eq!(cq.len(), 0);
}

#[test]
fn full_and_empty_track_length() {
    let b = region16(4, 32, 36, 0, 0);
    let ring = Inner::<Entry>::new(b, &offsets());
    let mut cq = ring.borrow();
    assert!(cq.is_full());
    assert!(!cq.is_empty());
    assert_eq!(cq.len(), cq.capacity());
    cq.pop();
    assert!(!cq.is_full());
    while !cq.is_empty() {
        cq.pop();
    }
    assert!(cq.is_empty());
    assert!(!cq.is_full());
    assert_eq!(cq.len(), 0);
}

#[test]
fn fill_consumes_buffer_len_when_smaller() {
    let mut b = region16(8, 0, 5, 0, 0);
    for pos in 0..5u32 {
        put_entry16(&mut b, 8, pos, 200 + pos as u64, 0, 0);
    }
    let ring = Inner::<Entry>::new(b, &offsets());
    let mut cq = ring.borrow();
    let blank = Entry { user_data: 0, res: 0, flags: 0 };
    let mut buf = vec![blank; 3];
    let n = cq.fill(&mut buf);
    assert_eq!(n, 3);
    assert_eq!(buf[0].user_data(), 200);
    assert_eq!(buf[1].user_data(), 201);
    assert_eq!(buf[2].user_data(), 202);
    assert_eq!(cq.len(), 2);
}

#[test]
fn fill_consumes_all_when_buffer_larger() {
    let mut b = region16(8, 0, 2, 0, 0);
    put_entry16(&mut b, 8, 0, 7, 0, 0);
    put_entry16(&mut b, 8, 1, 8, 0, 0);
    let ring = Inner::<Entry>::new(b, &offsets());
    let mut cq = ring.borrow();
    let blank = Entry { user_data: 0, res: 0, flags: 0 };
    let mut buf = vec![blank; 5];
    let n = cq.fill(&mut buf);
    assert_eq!(n, 2);
    assert_eq!(buf[0].user_data(), 7);
    assert_eq!(buf[1].user_data(), 8);
    assert_eq!(buf[2].user_data(), 0);
    assert!(cq.is_empty());
}

#[test]
fn release_publishes_head() {
    let mut b = region16(8, 0, 5, 0, 0);
    for pos in 0..5u32 {
        put_entry16(&mut b, 8, pos, 300 + pos as u64, 0, 0);
    }
    let ring = Inner::<Entry>::new(b, &offsets());
    let mut cq = ring.borrow();
    cq.pop();
    cq.pop();
    // No explicit sync: releasing the view must still publish the head.
    let ring = cq.release();
    let mut cq = ring.borrow();
    assert_eq!(cq.len(), 3);
    assert_eq!(cq.pop().user_data(), 302);
}

#[test]
fn sync_publishes_mid_drain() {
    let mut b = region16(8, 0, 4, 0, 0);
    for pos in 0..4u32 {
        put_entry16(&mut b, 8, pos, 400 + pos as u64, 0, 0);
    }
    let ring = Inner::<Entry>::new(b, &offsets());
    let mut cq = ring.borrow();
    cq.pop();
    cq.sync();
    assert_eq!(cq.len(), 3);
    cq.pop();
    let ring = cq.release();
    let mut cq = ring.borrow();
    assert_eq!(cq.len(), 2);
    assert_eq!(cq.pop().user_data(), 402);
}

#[test]
fn size_hint_matches_len() {
    let b = region16(4, 0, 3, 0, 0);
    let ring = Inner::<Entry>::new(b, &offsets());
    let cq = ring.borrow();
    assert_eq!(cq.size_hint(), (3, Some(3)));
}

#[test]
fn descriptor_round_trip() {
    let b = region16(8, 3, 7, 9, 1);
    let ring = Inner::<Entry>::new(b, &offsets());
    let cq = ring.borrow();
    assert_eq!(cq.capacity(), 8);
    assert_eq!(cq.len(), 4);
    assert_eq!(cq.overflow(), 9);
    assert!(cq.eventfd_disabled());
}

#[test]
fn eventfd_bit_clear_reads_false() {
    let b = region16(4, 0, 0, 0, 0);
    let ring = Inner::<Entry>::new(b, &offsets());
    let cq = ring.borrow();
    assert!(!cq.eventfd_disabled());
    assert_eq!(cq.overflow(), 0);
}

#[test]
fn entry_fields_decode_exactly() {
    let mut b = region16(4, 0, 1, 0, 0);
    put_entry16(&mut b, 4, 0, 0x1122_3344_5566_7788, -5, 0xA0B0_C0D0);
    let ring = Inner::<Entry>::new(b, &offsets());
    let mut cq = ring.borrow();
    let e = cq.pop();
    assert_eq!(e.user_data(), 0x1122_3344_5566_7788);
    assert_eq!(e.result(), -5);
    assert_eq!(e.flags(), 0xA0B0_C0D0);
}

#[test]
fn entry32_carries_big_cqe() {
    let mut b = region32(4, 0, 2);
    put_entry32(&mut b, 4, 0, 21, -1, 0, [0xDEAD_BEEF, 0xFEED_FACE]);
    put_entry32(&mut b, 4, 1, 22, 3, 0, [1, 2]);
    let ring = Inner::<Entry32>::new(b, &offsets());
    let mut cq = ring.borrow();
    let e = cq.pop();
    assert_eq!(e.user_data(), 21);
    assert_eq!(e.result(), -1);
    assert_eq!(*e.big_cqe(), [0xDEAD_BEEF, 0xFEED_FACE]);
    let e2 = cq.pop();
    assert_eq!(*e2.big_cqe(), [1, 2]);
    assert!(cq.is_empty());
    let plain: Entry = e2.into();
    assert_eq!(plain.user_data(), 22);
    assert_eq!(plain.result(), 3);
}

#[test]
fn buffer_select_decodes_id() {
    let flags = IORING_CQE_F_BUFFER | (42 << 16);
    assert_eq!(buffer_select(flags), Some(42));
    assert_eq!(buffer_select(0xFFFF_0000 | IORING_CQE_F_BUFFER), Some(0xFFFF));
}

#[test]
fn buffer_select_without_bit_is_none() {
    assert_eq!(buffer_select(0), None);
    assert_eq!(buffer_select(42 << 16), None);
    assert_eq!(buffer_select(IORING_CQE_F_MORE), None);
}

#[test]
fn more_decodes_bit() {
    assert!(more(IORING_CQE_F_MORE));
    assert!(more(IORING_CQE_F_MORE | IORING_CQE_F_BUFFER));
    assert!(!more(0));
    assert!(!more(IORING_CQE_F_BUFFER));
}

#[test]
fn sock_nonempty_decodes_bit() {
    assert!(sock_nonempty(IORING_CQE_F_SOCK_NONEMPTY));
    assert!(!sock_nonempty(0));
    assert!(!sock_nonempty(IORING_CQE_F_MORE));
}

#[test]
fn notif_decodes_bit() {
    assert!(notif(IORING_CQE_F_NOTIF));
    assert!(!notif(0));
    assert!(!notif(IORING_CQE_F_SOCK_NONEMPTY));
}

#[test]
fn build_flags_select_layout() {
    assert_eq!(Entry::BUILD_FLAGS, 0);
    assert_eq!(Entry32::BUILD_FLAGS, IORING_SETUP_CQE32);
    assert_eq!(IORING_SETUP_CQE32, 1 << 11);
}

#[test]
fn entries_equal_by_fields() {
    let a = Entry { user_data: 1, res: 2, flags: 3 };
    let b = Entry { user_data: 1, res: 2, flags: 3 };
    assert_eq!(a, b);
    let c = Entry { user_data: 9, res: 2, flags: 3 };
    assert_ne!(a, c);
    let w = Entry32 { base: a, big: [4, 5] };
    let x = Entry32 { base: b, big: [4, 5] };
    assert_eq!(w, x);
    let y = Entry32 { base: b, big: [4, 6] };
    assert_ne!(w, y);
}
