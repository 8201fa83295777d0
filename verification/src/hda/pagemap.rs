//! Physical-address resolution for userspace DMA buffers.
//!
//! The controller needs physical addresses. A buffer is pinned and each of
//! its pages is looked up in `/proc/self/pagemap`; the entries read there are
//! decoded and checked here.
use crate::bytes::{copy_range, fill_zero, overwrite, put_bytes};
use vstd::prelude::*;

verus! {

pub const PAGE_SIZE: usize = super::regs::PAGE_SIZE;

/// Physical addresses at or above this (128 TiB) cannot be RAM.
pub const MAX_PHYS: u64 = 0x8000_0000_0000;

/// Why a buffer cannot be used for DMA.
#[derive(Clone, Copy, Debug, PartialEq, Eq, Structural)]
pub enum DmaError {
    /// A page has no physical frame.
    NotResident,
    /// A page decodes to this address, which is beyond addressable RAM.
    BeyondRam(u64),
}

/// `v` rounded up to a multiple of `a`.
pub open spec fn aligned_up(v: int, a: int) -> int {
    (v + a - 1) / a * a
}

fn align_up(v: usize, a: usize) -> (r: usize)
    requires
        a > 0,
        v + a - 1 <= usize::MAX,
    ensures
        r == aligned_up(v as int, a as int),
{
    let q: usize = (v + (a - 1)) / a;
    proof {
        vstd::arithmetic::div_mod::lemma_fundamental_div_mod(v + a - 1, a as int);
        vstd::arithmetic::mul::lemma_mul_is_commutative(q as int, a as int);
        assert(q * a <= v + a - 1);
    }
    q * a
}

/// Byte offset of the pagemap entry for the page that holds `vaddr`.
pub fn entry_offset(vaddr: u64) -> (off: u64)
    ensures
        off == vaddr / 4096 * 8,
{
    vaddr / 4096 * 8
}

/// Whether a pagemap entry has a physical frame.
pub open spec fn entry_present(entry: u64) -> bool {
    entry >= 0x8000_0000_0000_0000
}

/// The physical address that a pagemap entry names: its low 55 bits are the
/// page frame number. Bits past the 64th are lost.
pub open spec fn entry_phys(entry: u64) -> u64 {
    ((entry % 0x80_0000_0000_0000) * 4096 % 0x1_0000_0000_0000_0000) as u64
}

/// The physical address of a virtual page, from its pagemap entry.
pub fn vaddr_to_phys(entry: u64) -> (r: Result<u64, DmaError>)
    ensures
        r == if entry_present(entry) {
            Ok::<u64, DmaError>(entry_phys(entry))
        } else {
            Err(DmaError::NotResident)
        },
{
    if entry < 0x8000_0000_0000_0000 {
        return Err(DmaError::NotResident);
    }
    let pfn: u64 = entry % 0x80_0000_0000_0000;
    // Frame numbers of 52 bits and more shift their top bits out.
    let kept: u64 = pfn % 0x10_0000_0000_0000;
    assert(pfn * 4096 % 0x1_0000_0000_0000_0000 == kept * 4096);
    Ok(kept * 4096)
}

/// A page-aligned buffer that software reaches through a mapping and the
/// controller through physical addresses.
pub struct DmaBuffer {
    len: usize,
    phys: Vec<u64>,
}

/// What a list of pagemap entries makes of a buffer: the first page without a
/// frame spoils it, and next the first page beyond RAM.
pub open spec fn resolve_error(entries: Seq<u64>) -> Option<DmaError> {
    if exists|i: int| 0 <= i < entries.len() && !entry_present(#[trigger] entries[i]) {
        Some(DmaError::NotResident)
    } else if exists|i: int| 0 <= i < entries.len() && entry_phys(#[trigger] entries[i]) >= MAX_PHYS {
        let i = choose|i: int|
            0 <= i < entries.len() && entry_phys(#[trigger] entries[i]) >= MAX_PHYS && forall|k: int|
                0 <= k < i ==> entry_phys(#[trigger] entries[k]) < MAX_PHYS;
        Some(DmaError::BeyondRam(entry_phys(entries[i])))
    } else {
        None
    }
}

impl DmaBuffer {
    /// Length in bytes.
    pub closed spec fn len_spec(&self) -> nat {
        self.len as nat
    }

    /// Physical address of each page.
    pub closed spec fn pages(&self) -> Seq<u64> {
        self.phys@
    }

    /// Whole pages, each at a page-aligned physical address inside RAM.
    pub open spec fn wf(&self) -> bool {
        &&& self.len_spec() > 0
        &&& self.len_spec() <= usize::MAX
        &&& self.len_spec() == self.pages().len() * PAGE_SIZE
        &&& forall|i: int|
            0 <= i < self.pages().len() ==> (#[trigger] self.pages()[i]) % 4096 == 0
                && self.pages()[i] < MAX_PHYS
    }

    /// Physical address of the byte at `off`.
    pub open spec fn addr(&self, off: int) -> int {
        self.pages()[off / 4096] + off % 4096
    }

    /// Describe a pinned buffer of `size` bytes, rounded up to whole pages,
    /// given the pagemap entry of each of its pages.
    pub fn new(size: usize, entries: &[u64]) -> (r: Result<Self, DmaError>)
        requires
            0 < size,
            size + PAGE_SIZE - 1 <= usize::MAX,
            entries@.len() * PAGE_SIZE == aligned_up(size as int, PAGE_SIZE as int),
        ensures
            match resolve_error(entries@) {
                Some(e) => r == Err::<Self, DmaError>(e),
                None => r matches Ok(b) && b.wf() && b.len_spec() == aligned_up(
                    size as int,
                    PAGE_SIZE as int,
                ) && b.pages() == entries@.map_values(|e: u64| entry_phys(e)),
            },
    {
        let len: usize = align_up(size, PAGE_SIZE);
        let mut phys: Vec<u64> = Vec::new();
        let mut i: usize = 0;
        while i < entries.len()
            invariant
                i <= entries@.len(),
                phys@.len() == i,
                forall|k: int| 0 <= k < i ==> entry_present(#[trigger] entries@[k]),
                forall|k: int| 0 <= k < i ==> #[trigger] phys@[k] == entry_phys(entries@[k]),
            decreases entries@.len() - i,
        {
            match vaddr_to_phys(entries[i]) {
                Ok(p) => phys.push(p),
                Err(e) => {
                    assert(!entry_present(entries@[i as int]));
                    return Err(e);
                },
            }
            i = i + 1;
        }
        let mut j: usize = 0;
        while j < phys.len()
            invariant
                j <= phys@.len(),
                phys@.len() == entries@.len(),
                forall|k: int| 0 <= k < entries@.len() ==> entry_present(#[trigger] entries@[k]),
                forall|k: int|
                    0 <= k < entries@.len() ==> #[trigger] phys@[k] == entry_phys(entries@[k]),
                forall|k: int| 0 <= k < j ==> entry_phys(#[trigger] entries@[k]) < MAX_PHYS,
            decreases phys@.len() - j,
        {
            let p: u64 = phys[j];
            if p >= MAX_PHYS {
                assert(entry_phys(entries@[j as int]) >= MAX_PHYS);
                return Err(DmaError::BeyondRam(p));
            }
            j = j + 1;
        }
        let b = DmaBuffer { len, phys };
        proof {
            assert(b.pages() =~= entries@.map_values(|e: u64| entry_phys(e)));
            assert(len > 0) by (nonlinear_arith)
                requires
                    len == (size + 4096 - 1) / 4096 * 4096,
                    size > 0,
            ;
            assert forall|k: int| 0 <= k < b.pages().len() implies (#[trigger] b.pages()[k]) % 4096
                == 0 && b.pages()[k] < MAX_PHYS by {
                assert(entry_phys(entries@[k]) < MAX_PHYS);
                assert(entry_phys(entries@[k]) % 4096 == 0);
            }
        }
        Ok(b)
    }

    /// Length in bytes, a whole number of pages.
    pub fn size(&self) -> (n: usize)
        ensures
            n == self.len_spec(),
    {
        self.len
    }

    /// Physical address of the byte at offset `off`.
    pub fn toaddr(&self, off: usize) -> (a: u64)
        requires
            self.wf(),
            off < self.len_spec(),
        ensures
            a == self.addr(off as int),
            a < MAX_PHYS,
    {
        let page: usize = off / PAGE_SIZE;
        assert(page < self.phys@.len());
        assert(self.pages()[page as int] % 4096 == 0 && self.pages()[page as int] < MAX_PHYS);
        self.phys[page] + (off % PAGE_SIZE) as u64
    }

    /// Write `data` at byte offset `off` of the buffer's memory.
    pub fn write(&self, mem: &mut [u8], off: usize, data: &[u8])
        requires
            old(mem)@.len() == self.len_spec(),
            off + data@.len() <= self.len_spec(),
        ensures
            final(mem)@ == overwrite(old(mem)@, off as int, data@),
    {
        put_bytes(mem, off, data)
    }

    /// Read `n` bytes at byte offset `off` of the buffer's memory.
    pub fn read(&self, mem: &[u8], off: usize, n: usize) -> (out: Vec<u8>)
        requires
            mem@.len() == self.len_spec(),
            off + n <= self.len_spec(),
        ensures
            out@ == mem@.subrange(off as int, off + n),
    {
        assert(off + n <= mem.len());
        copy_range(mem, off, off + n)
    }

    /// Zero the entire buffer.
    pub fn zero(&self, mem: &mut [u8])
        requires
            old(mem)@.len() == self.len_spec(),
        ensures
            final(mem)@ == Seq::new(old(mem)@.len(), |i: int| 0u8),
    {
        fill_zero(mem)
    }

    /// Reading the bytes just written gives them back.
    pub proof fn law_read_back(&self, mem: Seq<u8>, off: int, data: Seq<u8>)
        requires
            0 <= off,
            off + data.len() <= mem.len(),
        ensures
            overwrite(mem, off, data).subrange(off, off + data.len()) == data,
    {
        assert(overwrite(mem, off, data).subrange(off, off + data.len()) =~= data);
    }
}

/// Rounding up gives the least multiple that is not below.
pub proof fn law_aligned_up(v: int, a: int)
    requires
        a > 0,
    ensures
        v <= aligned_up(v, a) < v + a,
        aligned_up(v, a) % a == 0,
{
    let q = (v + a - 1) / a;
    vstd::arithmetic::div_mod::lemma_fundamental_div_mod(v + a - 1, a);
    vstd::arithmetic::mul::lemma_mul_is_commutative(q, a);
    vstd::arithmetic::div_mod::lemma_mod_multiples_basic(q, a);
}

/// A pagemap entry with its top bit set names the frame in its low 55 bits; the
/// page stands at that many times the size of a page.
pub proof fn law_frame_number(pfn: u64, flags: u64)
    requires
        pfn < 0x80_0000_0000_0000,
        flags < 512,
    ensures
        ({
            let entry = (flags * 0x80_0000_0000_0000 + pfn) as u64;
            &&& entry_present(entry) <==> flags >= 256
            &&& pfn < 0x10_0000_0000_0000 ==> entry_phys(entry) == 4096 * pfn
            &&& entry_phys(entry) == 4096 * (pfn % 0x10_0000_0000_0000)
            &&& entry_phys(entry) % 4096 == 0
        }),
{
    let entry = (flags * 0x80_0000_0000_0000 + pfn) as u64;
    assert(flags * 0x80_0000_0000_0000 + pfn <= u64::MAX);
    assert(entry % 0x80_0000_0000_0000 == pfn);
}

proof fn lemma_first_beyond(entries: Seq<u64>, j: int)
    requires
        0 <= j < entries.len(),
        entry_phys(entries[j]) >= MAX_PHYS,
    ensures
        exists|i: int|
            0 <= i < entries.len() && entry_phys(#[trigger] entries[i]) >= MAX_PHYS && forall|k: int|
                0 <= k < i ==> entry_phys(#[trigger] entries[k]) < MAX_PHYS,
    decreases j,
{
    if exists|k: int| 0 <= k < j && entry_phys(#[trigger] entries[k]) >= MAX_PHYS {
        let k = choose|k: int| 0 <= k < j && entry_phys(#[trigger] entries[k]) >= MAX_PHYS;
        lemma_first_beyond(entries, k);
    }
}

/// A buffer can be used exactly when each of its pages has a frame below the
/// limit of 47 bits; a missing frame is what is reported first.
pub proof fn law_usable_buffers(entries: Seq<u64>)
    ensures
        resolve_error(entries) is None <==> forall|i: int|
            0 <= i < entries.len() ==> entry_present(#[trigger] entries[i]) && entry_phys(
                entries[i],
            ) < 0x8000_0000_0000,
        resolve_error(entries) == Some(DmaError::NotResident) <==> exists|i: int|
            0 <= i < entries.len() && !entry_present(#[trigger] entries[i]),
        resolve_error(entries) matches Some(DmaError::BeyondRam(p)) ==> exists|i: int|
            {
                &&& 0 <= i < entries.len()
                &&& entry_phys(#[trigger] entries[i]) == p
                &&& p >= 0x8000_0000_0000
                &&& forall|k: int| 0 <= k < i ==> entry_phys(#[trigger] entries[k]) < 0x8000_0000_0000
            },
{
    if resolve_error(entries) is Some && !(resolve_error(entries) == Some(DmaError::NotResident)) {
        let j = choose|i: int| 0 <= i < entries.len() && entry_phys(#[trigger] entries[i]) >= MAX_PHYS;
        lemma_first_beyond(entries, j);
    }
    if resolve_error(entries) is None {
        assert forall|i: int| 0 <= i < entries.len() implies entry_present(#[trigger] entries[i])
            && entry_phys(entries[i]) < 0x8000_0000_0000 by {}
    }
}

/// Inside a page physical addresses follow each other, and each page begins
/// where its frame does.
pub proof fn law_addresses(b: &DmaBuffer, page: int, k: int)
    requires
        b.wf(),
        0 <= page < b.pages().len(),
        0 <= k < 4096,
    ensures
        b.addr(page * 4096 + k) == b.pages()[page] + k,
        b.addr(page * 4096) == b.pages()[page],
{
    assert((page * 4096 + k) / 4096 == page && (page * 4096 + k) % 4096 == k);
}

} // verus!
