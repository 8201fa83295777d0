//! Buffer Descriptor List (BDL) construction.
//!
//! Each entry is 16 bytes: `{ addr_lo, addr_hi, size, ioc }`, little-endian.
//! The hardware reads the list in order and wraps at the entry that SD_LVI
//! names. The data of one descriptor may not cross a 4 KiB boundary, so there
//! is one entry per page.
use super::pagemap::{DmaBuffer, PAGE_SIZE};
use super::regs;
use crate::bytes::{le32_at, lemma_u32_round_trip, u32_le};
use vstd::prelude::*;

verus! {

/// Entries that one list page holds.
pub const MAX_BDL_ENTRIES: usize = regs::MAX_BDL_ENTRIES;

pub const ENTRY_SIZE: usize = 16;

/// The bytes of one entry.
pub open spec fn entry_bytes(addr: u64, size: u32, ioc: u32) -> Seq<u8> {
    u32_le((addr % 0x1_0000_0000) as u32) + u32_le((addr / 0x1_0000_0000) as u32) + u32_le(size)
        + u32_le(ioc)
}

/// How many entries a list gets: as many as asked for, as fit, and as the ring
/// has pages.
pub open spec fn entry_count(count: int, bdl_len: int, ring_len: int) -> int {
    let a = if count < bdl_len / 16 {
        count
    } else {
        bdl_len / 16
    };
    if a < ring_len / 4096 {
        a
    } else {
        ring_len / 4096
    }
}

/// The list memory once its first `done` of `n` entries are written: entry
/// `i` covers page `i` of the ring, and the last one may ask for an interrupt.
pub open spec fn filled(
    mem: Seq<u8>,
    pages: Seq<u64>,
    done: int,
    n: int,
    ioc_last: bool,
) -> Seq<u8> {
    Seq::new(
        mem.len(),
        |b: int|
            if b < 16 * done {
                entry_bytes(
                    pages[b / 16],
                    PAGE_SIZE as u32,
                    if ioc_last && b / 16 + 1 == n {
                        1
                    } else {
                        0
                    },
                )[b % 16]
            } else {
                mem[b]
            },
    )
}

/// Fill a list with the first `count` pages of `ring`, one entry per page.
/// Returns the number of entries written. With `ioc_last` the last entry asks
/// for an interrupt.
pub fn fill(
    bdl: &DmaBuffer,
    bdl_mem: &mut [u8],
    ring: &DmaBuffer,
    count: usize,
    ioc_last: bool,
) -> (entries: usize)
    requires
        bdl.wf(),
        ring.wf(),
        old(bdl_mem)@.len() == bdl.len_spec(),
    ensures
        entries == entry_count(count as int, bdl.len_spec() as int, ring.len_spec() as int),
        final(bdl_mem)@ == filled(
            old(bdl_mem)@,
            ring.pages(),
            entries as int,
            entries as int,
            ioc_last,
        ),
{
    let mut entries: usize = count;
    if bdl.size() / ENTRY_SIZE < entries {
        entries = bdl.size() / ENTRY_SIZE;
    }
    if ring.size() / PAGE_SIZE < entries {
        entries = ring.size() / PAGE_SIZE;
    }
    let ghost start = bdl_mem@;
    assert(start =~= filled(start, ring.pages(), 0, entries as int, ioc_last));
    let mut i: usize = 0;
    while i < entries
        invariant
            i <= entries,
            bdl.wf(),
            ring.wf(),
            start.len() == bdl.len_spec(),
            entries * 16 <= bdl.len_spec(),
            entries * 4096 <= ring.len_spec(),
            bdl_mem@ == filled(start, ring.pages(), i as int, entries as int, ioc_last),
        decreases entries - i,
    {
        let pa: u64 = ring.toaddr(i * PAGE_SIZE);
        assert(pa == ring.pages()[i as int]);
        let ioc: u32 = if ioc_last && i + 1 == entries {
            1
        } else {
            0
        };
        let entry = make_entry(pa, PAGE_SIZE as u32, ioc);
        bdl.write(bdl_mem, i * ENTRY_SIZE, entry.as_slice());
        i = i + 1;
        assert(bdl_mem@ =~= filled(start, ring.pages(), i as int, entries as int, ioc_last));
    }
    entries
}

/// Serialize one entry.
pub fn make_entry(addr: u64, size: u32, ioc: u32) -> (e: [u8; 16])
    ensures
        e@ == entry_bytes(addr, size, ioc),
{
    let lo: u32 = (addr % 0x1_0000_0000) as u32;
    let hi: u32 = (addr / 0x1_0000_0000) as u32;
    let e: [u8; 16] = [
        (lo % 0x100) as u8,
        (lo / 0x100 % 0x100) as u8,
        (lo / 0x1_0000 % 0x100) as u8,
        (lo / 0x100_0000) as u8,
        (hi % 0x100) as u8,
        (hi / 0x100 % 0x100) as u8,
        (hi / 0x1_0000 % 0x100) as u8,
        (hi / 0x100_0000) as u8,
        (size % 0x100) as u8,
        (size / 0x100 % 0x100) as u8,
        (size / 0x1_0000 % 0x100) as u8,
        (size / 0x100_0000) as u8,
        (ioc % 0x100) as u8,
        (ioc / 0x100 % 0x100) as u8,
        (ioc / 0x1_0000 % 0x100) as u8,
        (ioc / 0x100_0000) as u8,
    ];
    assert(e@ =~= entry_bytes(addr, size, ioc));
    e
}

/// The four fields of an entry, read back.
proof fn lemma_entry_fields(s: Seq<u8>, o: int, addr: u64, size: u32, ioc: u32)
    requires
        0 <= o,
        o + 16 <= s.len(),
        s.subrange(o, o + 16) == entry_bytes(addr, size, ioc),
    ensures
        le32_at(s, o) + 0x1_0000_0000 * le32_at(s, o + 4) == addr,
        le32_at(s, o + 8) == size,
        le32_at(s, o + 12) == ioc,
{
    let e = s.subrange(o, o + 16);
    assert(s.subrange(o, o + 4) =~= e.subrange(0, 4));
    assert(s.subrange(o + 4, o + 8) =~= e.subrange(4, 8));
    assert(s.subrange(o + 8, o + 12) =~= e.subrange(8, 12));
    assert(s.subrange(o + 12, o + 16) =~= e.subrange(12, 16));
    assert(e.subrange(0, 4) =~= u32_le((addr % 0x1_0000_0000) as u32));
    assert(e.subrange(4, 8) =~= u32_le((addr / 0x1_0000_0000) as u32));
    assert(e.subrange(8, 12) =~= u32_le(size));
    assert(e.subrange(12, 16) =~= u32_le(ioc));
    lemma_u32_round_trip((addr % 0x1_0000_0000) as u32, s, o);
    lemma_u32_round_trip((addr / 0x1_0000_0000) as u32, s, o + 4);
    lemma_u32_round_trip(size, s, o + 8);
    lemma_u32_round_trip(ioc, s, o + 12);
}

/// What the hardware reads at entry `i` of a filled list: the whole of page
/// `i` of the ring, which does not cross a page boundary, and an interrupt
/// request on the last entry alone.
pub proof fn law_entry_is_one_page(
    mem: Seq<u8>,
    ring: &DmaBuffer,
    n: int,
    ioc_last: bool,
    i: int,
)
    requires
        ring.wf(),
        0 <= i < n,
        n <= ring.pages().len(),
        16 * n <= mem.len(),
    ensures
        ({
            let list = filled(mem, ring.pages(), n, n, ioc_last);
            let addr = le32_at(list, 16 * i) + 0x1_0000_0000 * le32_at(list, 16 * i + 4);
            &&& addr == ring.addr(i * 4096)
            &&& addr % 4096 == 0
            &&& le32_at(list, 16 * i + 8) == 4096
            &&& (le32_at(list, 16 * i + 12) == 1 <==> ioc_last && i + 1 == n)
        }),
{
    let list = filled(mem, ring.pages(), n, n, ioc_last);
    let ioc: u32 = if ioc_last && i + 1 == n {
        1
    } else {
        0
    };
    let addr = ring.pages()[i];
    let e = entry_bytes(addr, PAGE_SIZE as u32, ioc);
    let part = list.subrange(16 * i, 16 * i + 16);
    assert(part =~= e) by {
        assert forall|b: int| 0 <= b < 16 implies part[b] == e[b] by {
            assert((16 * i + b) / 16 == i);
            assert((16 * i + b) % 16 == b);
        }
    }
    lemma_entry_fields(list, 16 * i, addr, PAGE_SIZE as u32, ioc);
}

/// A list gets as many entries as asked for, unless the list or the ring is too
/// small for that, and then as many as they allow.
pub proof fn law_entry_count(count: int, bdl_len: int, ring_len: int)
    requires
        0 <= count,
        0 <= bdl_len,
        0 <= ring_len,
    ensures
        ({
            let n = entry_count(count, bdl_len, ring_len);
            &&& n <= count && 16 * n <= bdl_len && 4096 * n <= ring_len
            &&& n == count || 16 * (n + 1) > bdl_len || 4096 * (n + 1) > ring_len
        }),
{
}

/// Filling a list touches its entries and nothing behind them.
pub proof fn law_fill_stays_inside(
    mem: Seq<u8>,
    pages: Seq<u64>,
    n: int,
    ioc_last: bool,
    b: int,
)
    requires
        0 <= n,
        16 * n <= b < mem.len(),
    ensures
        filled(mem, pages, n, n, ioc_last)[b] == mem[b],
        filled(mem, pages, n, n, ioc_last).len() == mem.len(),
{
}

} // verus!
