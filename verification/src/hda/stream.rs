//! Playback stream descriptor: format encoding, the programs that set it up,
//! start and stop it, and the DMA ring that the server feeds.
//!
//! There is a single playback stream with a pinned, page-scattered ring
//! buffer that a descriptor list refers to.
use super::bdl;
use super::controller::Controller;
use super::pagemap::{DmaBuffer, PAGE_SIZE};
use super::program::{program_ok, reg_ok, Await, Limit, Op, Reg};
use super::regs::{
    DMA_START, INTCTL, INT_MASK, SD_BDLPL, SD_BDLPU, SD_CBL, SD_CTL, SD_FORMAT, SD_LPIB, SD_LVI,
    SD_STS, STREAM_RESET,
};
use vstd::prelude::*;

verus! {

/// Bytes of one S16_LE stereo frame.
pub const FRAME_BYTES: usize = 4;

/// Number of pages in the DMA ring buffer.
pub const RING_PAGES: usize = 64;

pub const RING_SIZE: usize = 262144;

// ── Rates and formats ──
/// The clock of each family: 48 kHz and 44.1 kHz.
pub open spec fn family_rate(base: u32) -> int {
    if base == 0 {
        48000
    } else {
        44100
    }
}

/// Whether `base * mult / div` runs at exactly `rate`.
pub open spec fn runs_at(rate: u32, base: u32, mult: u32, div: u32) -> bool {
    &&& base <= 1
    &&& 1 <= mult <= 8
    &&& 1 <= div <= 8
    &&& family_rate(base) * mult == rate * div
}

/// Whether one encoding comes before another: by family, then multiplier, then
/// divisor.
pub open spec fn comes_before(b: u32, m: u32, d: u32, base: u32, mult: u32, div: u32) -> bool {
    b < base || (b == base && (m < mult || (m == mult && d < div)))
}

/// Whether an encoding of `rate` is the first of all.
pub open spec fn is_first_encoding(rate: u32, e: (u32, u32, u32)) -> bool {
    &&& runs_at(rate, e.0, e.1, e.2)
    &&& forall|b: u32, m: u32, d: u32|
        comes_before(b, m, d, e.0, e.1, e.2) ==> !#[trigger] runs_at(rate, b, m, d)
}

/// The first encoding of `rate`, if it has one.
pub open spec fn first_encoding(rate: u32) -> Option<(u32, u32, u32)> {
    if exists|e: (u32, u32, u32)| is_first_encoding(rate, e) {
        Some(choose|e: (u32, u32, u32)| is_first_encoding(rate, e))
    } else {
        None
    }
}

proof fn lemma_first_is_unique(rate: u32, e: (u32, u32, u32))
    requires
        is_first_encoding(rate, e),
    ensures
        first_encoding(rate) == Some(e),
{
    let f = choose|f: (u32, u32, u32)| is_first_encoding(rate, f);
    assert(runs_at(rate, e.0, e.1, e.2) && runs_at(rate, f.0, f.1, f.2));
    assert(!comes_before(e.0, e.1, e.2, f.0, f.1, f.2));
    assert(!comes_before(f.0, f.1, f.2, e.0, e.1, e.2));
}

/// Map `rate` to `(base, mult, div)` with `rate == base * mult / div`: the
/// first such encoding, or `None` when there is none. `base` is the SD_FORMAT
/// base bit (0 for the 48 kHz family, 1 for the 44.1 kHz family).
pub fn encode_rate(rate: u32) -> (r: Option<(u32, u32, u32)>)
    ensures
        r == first_encoding(rate),
        match r {
            Some(e) => is_first_encoding(rate, e),
            None => forall|b: u32, m: u32, d: u32| !#[trigger] runs_at(rate, b, m, d),
        },
{
    let mut base: u32 = 0;
    while base <= 1
        invariant
            base <= 2,
            forall|b: u32, m: u32, d: u32| b < base ==> !#[trigger] runs_at(rate, b, m, d),
        decreases 2 - base,
    {
        let freq: u64 = if base == 0 {
            48000
        } else {
            44100
        };
        let mut mult: u32 = 1;
        while mult <= 8
            invariant
                base <= 1,
                freq == family_rate(base),
                1 <= mult <= 9,
                forall|b: u32, m: u32, d: u32|
                    b < base || (b == base && m < mult) ==> !#[trigger] runs_at(rate, b, m, d),
            decreases 9 - mult,
        {
            let mut div: u32 = 1;
            while div <= 8
                invariant
                    base <= 1,
                    freq == family_rate(base),
                    1 <= mult <= 8,
                    1 <= div <= 9,
                    forall|b: u32, m: u32, d: u32|
                        comes_before(b, m, d, base, mult, div) ==> !#[trigger] runs_at(
                            rate,
                            b,
                            m,
                            d,
                        ),
                decreases 9 - div,
            {
                assert(freq * mult <= 8 * 48000) by (nonlinear_arith)
                    requires
                        freq <= 48000,
                        mult <= 8,
                ;
                assert(rate * div <= 8 * 0xffff_ffff) by (nonlinear_arith)
                    requires
                        rate <= 0xffff_ffff,
                        div <= 8,
                ;
                if freq * (mult as u64) == (rate as u64) * (div as u64) {
                    proof {
                        lemma_first_is_unique(rate, (base, mult, div));
                    }
                    return Some((base, mult, div));
                }
                div = div + 1;
            }
            mult = mult + 1;
        }
        base = base + 1;
    }
    None
}

/// Whether the link can run at exactly `rate`.
pub fn rate_supported(rate: u32) -> (r: bool)
    ensures
        r == exists|b: u32, m: u32, d: u32| #[trigger] runs_at(rate, b, m, d),
{
    match encode_rate(rate) {
        Some((b, m, d)) => {
            assert(runs_at(rate, b, m, d));
            true
        },
        None => false,
    }
}

/// The SD_FORMAT value for 16-bit stereo PCM: bits 3 to 0 hold the channel
/// count less one, 6 to 4 the sample size, 10 to 8 the divisor less one, 13 to
/// 11 the multiplier less one, 14 the family.
pub open spec fn format_bits(base: u32, mult: u32, div: u32) -> int {
    0x11 + (div - 1) * 0x100 + (mult - 1) * 0x800 + base * 0x4000
}

/// The SD_FORMAT value for `rate`, or for 48000 Hz where the link cannot run
/// at `rate`.
pub open spec fn format_spec(rate: u32) -> u16 {
    match first_encoding(rate) {
        Some((base, mult, div)) => format_bits(base, mult, div) as u16,
        None => 0x11,
    }
}

/// The SD_FORMAT value for 16-bit stereo PCM at `rate`, or at 48000 Hz where
/// the link cannot run at `rate`.
pub fn format_val(rate: u32) -> (fmt: u16)
    ensures
        fmt == format_spec(rate),
{
    let (base, mult, div): (u32, u32, u32) = match encode_rate(rate) {
        Some(x) => x,
        None => (0, 1, 1),
    };
    let f: u32 = 0x11 + (div - 1) * 0x100 + (mult - 1) * 0x800 + base * 0x4000;
    f as u16
}

/// The rate that an SD_FORMAT value asks for, as a fraction.
pub open spec fn format_rate(fmt: int) -> (int, int) {
    (
        (if fmt / 0x4000 % 2 == 0 {
            48000int
        } else {
            44100int
        }) * (fmt / 0x800 % 8 + 1),
        fmt / 0x100 % 8 + 1,
    )
}

/// An encoded format asks for exactly the rate that was encoded, in 16-bit
/// stereo PCM.
pub proof fn law_format_decodes(rate: u32, base: u32, mult: u32, div: u32)
    requires
        runs_at(rate, base, mult, div),
    ensures
        ({
            let f = format_bits(base, mult, div);
            let (num, den) = format_rate(f);
            &&& num == rate * den
            &&& f % 0x100 == 0x11
            &&& 0 <= f < 0x8000
        }),
{
    let f = format_bits(base, mult, div);
    assert(f / 0x100 % 8 == div - 1);
    assert(f / 0x800 % 8 == mult - 1);
    assert(f / 0x4000 % 2 == base);
}

// ── The ring ──
/// Bytes outstanding: written but not yet consumed by DMA. Where DMA is at the
/// write position, the ring is empty or, after a write that filled it, full.
pub open spec fn delay_of(write_pos: int, full: bool, rd: int) -> int {
    if write_pos == rd && full {
        RING_SIZE as int
    } else if write_pos >= rd {
        write_pos - rd
    } else {
        RING_SIZE - rd + write_pos
    }
}

/// How many of `len` bytes fit behind `delay` outstanding ones.
pub open spec fn fitting(len: int, delay: int) -> int {
    if len < RING_SIZE - delay {
        len
    } else {
        RING_SIZE - delay
    }
}

/// `n` bytes of the ring from `at` on, wrapping at its end.
pub open spec fn ring_get(mem: Seq<u8>, at: int, n: int) -> Seq<u8> {
    Seq::new(n as nat, |k: int| mem[(at + k) % RING_SIZE as int])
}

/// The ring with `data` written from `at` on, wrapping at its end.
pub open spec fn ring_put(mem: Seq<u8>, at: int, data: Seq<u8>) -> Seq<u8> {
    Seq::new(
        mem.len(),
        |i: int|
            {
                let k = if i >= at {
                    i - at
                } else {
                    i - at + RING_SIZE
                };
                if k < data.len() {
                    data[k]
                } else {
                    mem[i]
                }
            },
    )
}

/// The playback ring and its descriptor list.
pub struct Stream {
    ring: DmaBuffer,
    bdl: DmaBuffer,
    entries: usize,
    /// Byte offset in the ring where the next data goes.
    write_pos: usize,
    /// End of the last write, before wrapping (diagnostics).
    written: usize,
    /// Whether the last write filled the ring and DMA has not been seen to move
    /// since.
    full: bool,
}

/// The control value that selects a stream tag.
pub open spec fn tag_bits(c: Controller) -> int {
    (c.capture_streams_spec() + 1) % 16 * 0x10_0000
}

/// The registers of playback stream 0.
pub open spec fn sd(c: Controller, off: u32, width: u32) -> Reg {
    Reg { off: (c.sd0_base_spec() + off) as u32, width }
}

/// The program that sets a stream up: tag, ring length, format, last entry
/// and address of the descriptor list, then its interrupts.
pub open spec fn setup_ops(c: Controller, fmt: u16, list: int) -> Seq<Op> {
    seq![
        Op::Write { at: sd(c, SD_CTL, 4), value: tag_bits(c) as u32 },
        Op::Write { at: sd(c, SD_CBL, 4), value: RING_SIZE as u32 },
        Op::Write { at: sd(c, SD_FORMAT, 2), value: fmt as u32 },
        Op::Write { at: sd(c, SD_LVI, 2), value: (RING_PAGES - 1) as u32 },
        Op::Write { at: sd(c, SD_BDLPL, 4), value: (list % 0x1_0000_0000) as u32 },
        Op::Write { at: sd(c, SD_BDLPU, 4), value: (list / 0x1_0000_0000) as u32 },
        Op::Write { at: sd(c, SD_CTL, 4), value: (tag_bits(c) + INT_MASK) as u32 },
    ]
}

/// The interrupt-enable bit of playback stream 0.
pub open spec fn sie_bit(c: Controller) -> u32 {
    1u32 << (c.capture_streams_spec() as u32)
}

/// The program that starts DMA. RUN goes through a byte access.
pub open spec fn start_ops(c: Controller) -> Seq<Op> {
    seq![
        Op::Update { at: Reg { off: INTCTL, width: 4 }, clear: 0, set: sie_bit(c) },
        Op::Update { at: sd(c, SD_CTL, 4), clear: 0, set: INT_MASK },
        Op::Update { at: sd(c, SD_CTL, 1), clear: 0, set: DMA_START },
        Op::Pause { us: 100 },
    ]
}

/// The program that stops DMA, acknowledges the status bits and disables the
/// stream's interrupts.
pub open spec fn stop_ops(c: Controller) -> Seq<Op> {
    seq![
        Op::Update { at: sd(c, SD_CTL, 4), clear: 0x1e, set: 0 },
        Op::Write { at: sd(c, SD_STS, 1), value: INT_MASK },
        Op::Update { at: Reg { off: INTCTL, width: 4 }, clear: sie_bit(c), set: 0 },
    ]
}

/// A poll of the stream reset bit, which does not fail.
pub open spec fn reset_poll(c: Controller, set: bool) -> Op {
    Op::Await(
        Await {
            at: sd(c, SD_CTL, 4),
            mask: STREAM_RESET,
            set,
            limit: Limit::Reads(100),
            pause_us: 3,
            kick: None,
            fault: None,
        },
    )
}

/// The stream reset strobe.
pub open spec fn srst_ops(c: Controller) -> Seq<Op> {
    seq![
        Op::Write { at: sd(c, SD_CTL, 4), value: STREAM_RESET },
        reset_poll(c, true),
        Op::Write { at: sd(c, SD_CTL, 4), value: 0 },
        reset_poll(c, false),
    ]
}

fn sd_reg(c: &Controller, off: u32, width: u32) -> (r: Reg)
    requires
        off <= 0x1c,
        width == 1 || width == 2 || width == 4,
        off % width == 0,
    ensures
        r == sd(*c, off, width),
        reg_ok(r),
{
    let r = Reg { off: c.sd0_base() + off, width };
    assert(r.off % width == 0) by {
        assert(c.sd0_base_spec() % 32 == 0);
    }
    r
}

fn sie(c: &Controller) -> (bit: u32)
    ensures
        bit == sie_bit(*c),
{
    let i: u32 = c.sd_index() as u32;
    1u32 << i
}

impl Stream {
    /// The ring's buffer.
    pub closed spec fn ring(&self) -> DmaBuffer {
        self.ring
    }

    /// The descriptor list's buffer.
    pub closed spec fn list(&self) -> DmaBuffer {
        self.bdl
    }

    /// Entries in the descriptor list.
    pub closed spec fn entries_spec(&self) -> int {
        self.entries as int
    }

    /// Where the next data goes.
    pub closed spec fn pos(&self) -> int {
        self.write_pos as int
    }

    /// End of the last write.
    pub closed spec fn written_spec(&self) -> int {
        self.written as int
    }

    /// Whether the last write filled the ring, and nothing of it is known to be
    /// consumed.
    pub closed spec fn full_spec(&self) -> bool {
        self.full
    }

    /// Bytes outstanding when SD_LPIB holds `raw`.
    pub open spec fn outstanding(&self, raw: u32) -> int {
        delay_of(self.pos(), self.full_spec(), (raw % 262144) as int)
    }

    /// The stream once it is known that SD_LPIB holds `raw`: a full ring is no
    /// longer full when DMA has moved.
    pub open spec fn noted(self, raw: u32, after: Stream) -> bool {
        &&& after.ring() == self.ring()
        &&& after.list() == self.list()
        &&& after.entries_spec() == self.entries_spec()
        &&& after.pos() == self.pos()
        &&& after.written_spec() == self.written_spec()
        &&& after.full_spec() == (self.full_spec() && self.pos() == raw % 262144)
    }

    /// The ring is complete, the list fills a page, and the position lies in
    /// the ring.
    pub open spec fn wf(&self) -> bool {
        &&& self.ring().wf()
        &&& self.list().wf()
        &&& self.ring().len_spec() == RING_SIZE
        &&& self.list().len_spec() == PAGE_SIZE
        &&& 0 <= self.pos() < RING_SIZE
    }

    /// A stream over a ring buffer of `RING_SIZE` bytes and a list buffer of
    /// one page.
    pub fn new(ring: DmaBuffer, bdl: DmaBuffer) -> (s: Self)
        requires
            ring.wf(),
            bdl.wf(),
            ring.len_spec() == RING_SIZE,
            bdl.len_spec() == PAGE_SIZE,
        ensures
            s.wf(),
            s.ring() == ring,
            s.list() == bdl,
            s.entries_spec() == 0,
            s.pos() == 0,
            s.written_spec() == 0,
            !s.full_spec(),
    {
        Stream { ring, bdl, entries: 0, write_pos: 0, written: 0, full: false }
    }

    /// Bytes in the ring.
    pub fn ring_size(&self) -> (n: usize)
        ensures
            n == RING_SIZE,
    {
        RING_SIZE
    }

    /// Fill the descriptor list, one entry per ring page, and give the program
    /// that sets the stream up for `rate`. The stream must not be running.
    pub fn setup(&mut self, bdl_mem: &mut [u8], c: &Controller, rate: u32) -> (ops: Vec<Op>)
        requires
            old(self).wf(),
            old(bdl_mem)@.len() == PAGE_SIZE,
        ensures
            final(self).wf(),
            final(self).ring() == old(self).ring(),
            final(self).list() == old(self).list(),
            final(self).pos() == old(self).pos(),
            final(self).full_spec() == old(self).full_spec(),
            final(self).written_spec() == old(self).written_spec(),
            final(self).entries_spec() == RING_PAGES,
            final(bdl_mem)@ == bdl::filled(
                old(bdl_mem)@,
                old(self).ring().pages(),
                RING_PAGES as int,
                RING_PAGES as int,
                true,
            ),
            ops@ == setup_ops(*c, format_spec(rate), old(self).list().addr(0)),
            program_ok(ops@),
    {
        let entries: usize = bdl::fill(&self.bdl, bdl_mem, &self.ring, RING_PAGES, true);
        self.entries = entries;
        let fmt: u16 = format_val(rate);
        let tag: u32 = c.sd0_tag();
        let ctl: u32 = tag % 16 * 0x10_0000;
        let pa: u64 = self.bdl.toaddr(0);
        let ops = vec![
            Op::Write { at: sd_reg(c, SD_CTL, 4), value: ctl },
            Op::Write { at: sd_reg(c, SD_CBL, 4), value: RING_SIZE as u32 },
            Op::Write { at: sd_reg(c, SD_FORMAT, 2), value: fmt as u32 },
            Op::Write { at: sd_reg(c, SD_LVI, 2), value: (entries - 1) as u32 },
            Op::Write { at: sd_reg(c, SD_BDLPL, 4), value: (pa % 0x1_0000_0000) as u32 },
            Op::Write { at: sd_reg(c, SD_BDLPU, 4), value: (pa / 0x1_0000_0000) as u32 },
            Op::Write { at: sd_reg(c, SD_CTL, 4), value: ctl + INT_MASK },
        ];
        assert(ops@ =~= setup_ops(*c, fmt, self.list().addr(0)));
        ops
    }

    /// The stream tag, to which the codec's DACs bind.
    pub fn tag(&self, c: &Controller) -> (tag: u32)
        ensures
            tag == c.capture_streams_spec() + 1,
    {
        c.sd0_tag()
    }

    /// The program that starts DMA.
    pub fn start(&self, c: &Controller) -> (ops: Vec<Op>)
        ensures
            ops@ == start_ops(*c),
            program_ok(ops@),
    {
        let ops = vec![
            Op::Update { at: Reg::dword(INTCTL), clear: 0, set: sie(c) },
            Op::Update { at: sd_reg(c, SD_CTL, 4), clear: 0, set: INT_MASK },
            Op::Update { at: sd_reg(c, SD_CTL, 1), clear: 0, set: DMA_START },
            Op::Pause { us: 100 },
        ];
        assert(ops@ =~= start_ops(*c));
        ops
    }

    /// The program that stops DMA.
    pub fn stop(&self, c: &Controller) -> (ops: Vec<Op>)
        ensures
            ops@ == stop_ops(*c),
            program_ok(ops@),
    {
        let ops = vec![
            Op::Update { at: sd_reg(c, SD_CTL, 4), clear: 0x1e, set: 0 },
            Op::Write { at: sd_reg(c, SD_STS, 1), value: INT_MASK },
            Op::Update { at: Reg::dword(INTCTL), clear: sie(c), set: 0 },
        ];
        assert(ops@ =~= stop_ops(*c));
        ops
    }

    /// The stream reset strobe, to be run before setup and after stop.
    pub fn srst(&self, c: &Controller) -> (ops: Vec<Op>)
        ensures
            ops@ == srst_ops(*c),
            program_ok(ops@),
    {
        let ctl = sd_reg(c, SD_CTL, 4);
        let up = Await {
            at: ctl,
            mask: STREAM_RESET,
            set: true,
            limit: Limit::Reads(100),
            pause_us: 3,
            kick: None,
            fault: None,
        };
        let down = Await {
            at: ctl,
            mask: STREAM_RESET,
            set: false,
            limit: Limit::Reads(100),
            pause_us: 3,
            kick: None,
            fault: None,
        };
        let ops = vec![
            Op::Write { at: ctl, value: STREAM_RESET },
            Op::Await(up),
            Op::Write { at: ctl, value: 0 },
            Op::Await(down),
        ];
        assert(ops@ =~= srst_ops(*c));
        ops
    }

    /// The register that holds the DMA position.
    pub fn lpib_reg(&self, c: &Controller) -> (r: Reg)
        ensures
            r == sd(*c, SD_LPIB, 4),
            reg_ok(r),
    {
        sd_reg(c, SD_LPIB, 4)
    }

    /// The register that holds the stream status.
    pub fn status_reg(&self, c: &Controller) -> (r: Reg)
        ensures
            r == sd(*c, SD_STS, 1),
            reg_ok(r),
    {
        sd_reg(c, SD_STS, 1)
    }

    /// DMA byte position in the ring, given what SD_LPIB holds.
    pub fn lpib(&self, raw: u32) -> (rd: usize)
        ensures
            rd == raw % 262144,
            rd < RING_SIZE,
    {
        raw as usize % RING_SIZE
    }

    /// Bytes outstanding, given what SD_LPIB holds.
    pub fn delay_bytes(&self, raw: u32) -> (n: usize)
        requires
            self.wf(),
        ensures
            n == self.outstanding(raw),
    {
        let rd: usize = self.lpib(raw);
        if self.write_pos == rd && self.full {
            RING_SIZE
        } else if self.write_pos >= rd {
            self.write_pos - rd
        } else {
            RING_SIZE - rd + self.write_pos
        }
    }

    /// Take note of what SD_LPIB holds.
    pub fn note(&mut self, raw: u32)
        requires
            old(self).wf(),
        ensures
            final(self).wf(),
            old(self).noted(raw, *final(self)),
            final(self).outstanding(raw) == old(self).outstanding(raw),
    {
        if self.lpib(raw) != self.write_pos {
            self.full = false;
        }
    }

    /// Bytes that can be written, given what SD_LPIB holds.
    pub fn free_bytes(&self, raw: u32) -> (n: usize)
        requires
            self.wf(),
        ensures
            n == RING_SIZE - self.outstanding(raw),
    {
        RING_SIZE - self.delay_bytes(raw)
    }

    /// Ring byte offset where the next write lands.
    pub fn write_pos(&self) -> (n: usize)
        ensures
            n == self.pos(),
    {
        self.write_pos
    }

    /// The status register, widened.
    pub fn status(&self, raw: u8) -> (s: u32)
        ensures
            s == raw,
    {
        raw as u32
    }

    /// Copy as much of `data` as fits into the ring's memory and advance the
    /// write position. Returns the bytes copied.
    pub fn write(&mut self, mem: &mut [u8], raw: u32, data: &[u8]) -> (n: usize)
        requires
            old(self).wf(),
            old(mem)@.len() == RING_SIZE,
        ensures
            final(self).wf(),
            final(self).ring() == old(self).ring(),
            final(self).list() == old(self).list(),
            final(self).entries_spec() == old(self).entries_spec(),
            n == fitting(data@.len() as int, old(self).outstanding(raw)),
            final(mem)@ == ring_put(old(mem)@, old(self).pos(), data@.take(n as int)),
            final(self).pos() == (old(self).pos() + n) % 262144,
            final(self).full_spec() == (old(self).outstanding(raw) + n == RING_SIZE),
            final(self).written_spec() == if n == 0 {
                old(self).written_spec()
            } else {
                old(self).pos() + n
            },
    {
        let free: usize = self.free_bytes(raw);
        let n: usize = if data.len() < free {
            data.len()
        } else {
            free
        };
        let ghost before = mem@;
        let wp: usize = self.write_pos;
        self.full = n == free;
        if n == 0 {
            assert(mem@ =~= ring_put(before, wp as int, data@.take(0)));
            return 0;
        }
        let room: usize = RING_SIZE - wp;
        let first: usize = if n < room {
            n
        } else {
            room
        };
        self.ring.write(mem, wp, &data[0..first]);
        if first < n {
            self.ring.write(mem, 0, &data[first..n]);
        }
        assert(mem@ =~= ring_put(before, wp as int, data@.take(n as int)));
        self.write_pos = (wp + n) % RING_SIZE;
        self.written = wp + n;
        n
    }

    /// Reset ring accounting, as after a drop or seek.
    pub fn clear(&mut self)
        requires
            old(self).wf(),
        ensures
            final(self).wf(),
            final(self).ring() == old(self).ring(),
            final(self).list() == old(self).list(),
            final(self).entries_spec() == old(self).entries_spec(),
            final(self).written_spec() == old(self).written_spec(),
            final(self).pos() == 0,
            !final(self).full_spec(),
    {
        self.write_pos = 0;
        self.full = false;
    }

    /// Zero the ring's memory, so that a restart never plays stale audio.
    pub fn zero_ring(&self, mem: &mut [u8])
        requires
            self.wf(),
            old(mem)@.len() == RING_SIZE,
        ensures
            final(mem)@ == Seq::new(old(mem)@.len(), |i: int| 0u8),
    {
        self.ring.zero(mem);
    }
}

/// What is outstanding lies between nothing and the whole ring, ends where the
/// next data goes, and leaves the rest of the ring free; a ring that was filled
/// is told from an empty one.
pub proof fn law_delay_and_free(write_pos: int, full: bool, rd: int)
    requires
        0 <= write_pos < RING_SIZE,
        0 <= rd < RING_SIZE,
    ensures
        0 <= delay_of(write_pos, full, rd) <= RING_SIZE,
        (rd + delay_of(write_pos, full, rd)) % RING_SIZE as int == write_pos,
        delay_of(write_pos, full, rd) == 0 <==> write_pos == rd && !full,
        delay_of(write_pos, full, rd) == RING_SIZE <==> write_pos == rd && full,
{
}

// ── What DMA plays ──
/// The ring with its memory, where the next data goes, whether it was filled,
/// and the DMA position.
pub ghost struct RingState {
    pub mem: Seq<u8>,
    pub pos: int,
    pub full: bool,
    pub rd: int,
}

impl RingState {
    /// The positions lie in the ring, and a full ring ends where DMA reads.
    pub open spec fn ok(self) -> bool {
        &&& self.mem.len() == RING_SIZE
        &&& 0 <= self.pos < RING_SIZE
        &&& 0 <= self.rd < RING_SIZE
        &&& self.full ==> self.pos == self.rd
    }

    /// Bytes outstanding.
    pub open spec fn delay(self) -> int {
        delay_of(self.pos, self.full, self.rd)
    }

    /// What DMA has yet to play.
    pub open spec fn waiting(self) -> Seq<u8> {
        ring_get(self.mem, self.rd, self.delay())
    }

    /// DMA has played `k` bytes.
    pub open spec fn played(self, k: int) -> RingState {
        let rd = (self.rd + k) % RING_SIZE as int;
        RingState { rd, full: self.full && self.pos == rd, ..self }
    }

    /// The part of `data` that fits.
    pub open spec fn accepted(self, data: Seq<u8>) -> Seq<u8> {
        data.take(fitting(data.len() as int, self.delay()))
    }

    /// `data` was written, as far as it fits.
    pub open spec fn fed(self, data: Seq<u8>) -> RingState {
        let part = self.accepted(data);
        RingState {
            mem: ring_put(self.mem, self.pos, part),
            pos: (self.pos + part.len()) % RING_SIZE as int,
            full: self.delay() + part.len() == RING_SIZE,
            ..self
        }
    }
}

/// DMA plays `read` bytes; then `data` is written.
pub ghost struct Turn {
    pub read: int,
    pub data: Seq<u8>,
}

/// The ring after a turn.
pub open spec fn turned(s: RingState, t: Turn) -> RingState {
    s.played(t.read).fed(t.data)
}

/// The ring after all turns.
pub open spec fn after_turns(s: RingState, turns: Seq<Turn>) -> RingState
    decreases turns.len(),
{
    if turns.len() == 0 {
        s
    } else {
        after_turns(turned(s, turns[0]), turns.drop_first())
    }
}

/// Whether DMA stays behind the writer in every turn, and does not go round
/// the whole ring unseen.
pub open spec fn in_time(s: RingState, turns: Seq<Turn>) -> bool
    decreases turns.len(),
{
    turns.len() == 0 || {
        &&& 0 <= turns[0].read <= s.delay()
        &&& turns[0].read < RING_SIZE
        &&& in_time(turned(s, turns[0]), turns.drop_first())
    }
}

/// What DMA plays over all turns.
pub open spec fn output_of(s: RingState, turns: Seq<Turn>) -> Seq<u8>
    decreases turns.len(),
{
    if turns.len() == 0 {
        Seq::empty()
    } else {
        s.waiting().take(turns[0].read) + output_of(turned(s, turns[0]), turns.drop_first())
    }
}

/// What is accepted over all turns.
pub open spec fn input_of(s: RingState, turns: Seq<Turn>) -> Seq<u8>
    decreases turns.len(),
{
    if turns.len() == 0 {
        Seq::empty()
    } else {
        s.played(turns[0].read).accepted(turns[0].data) + input_of(
            turned(s, turns[0]),
            turns.drop_first(),
        )
    }
}

proof fn lemma_fed(s: RingState, data: Seq<u8>)
    requires
        s.ok(),
    ensures
        s.fed(data).ok(),
        s.fed(data).waiting() == s.waiting() + s.accepted(data),
{
    let part = s.accepted(data);
    let got = s.fed(data).waiting();
    let want = s.waiting() + part;
    assert(s.fed(data).delay() == s.delay() + part.len());
    assert forall|k: int| 0 <= k < want.len() implies got[k] == want[k] by {
        let i = (s.rd + k) % RING_SIZE as int;
        assert(i == if s.rd + k < RING_SIZE {
            s.rd + k
        } else {
            s.rd + k - RING_SIZE
        });
    }
    assert(got =~= want);
}

proof fn lemma_played(s: RingState, k: int)
    requires
        s.ok(),
        0 <= k <= s.delay(),
        k < RING_SIZE,
    ensures
        s.played(k).ok(),
        s.played(k).waiting() == s.waiting().skip(k),
{
    let t = s.played(k);
    assert(t.delay() == s.delay() - k);
    assert forall|j: int| 0 <= j < s.delay() - k implies t.waiting()[j] == #[trigger] s.waiting().skip(
        k,
    )[j] by {
        assert((t.rd + j) % RING_SIZE as int == (s.rd + k + j) % RING_SIZE as int);
    }
    assert(t.waiting() =~= s.waiting().skip(k));
}

/// However writes and DMA take turns, the ring loses, repeats and reorders
/// nothing, also when a write fills it: what DMA has played, followed by what
/// still waits, is what waited at first followed by all that was accepted.
pub proof fn law_ring_order(s: RingState, turns: Seq<Turn>)
    requires
        s.ok(),
        in_time(s, turns),
    ensures
        after_turns(s, turns).ok(),
        output_of(s, turns) + after_turns(s, turns).waiting() == s.waiting() + input_of(s, turns),
    decreases turns.len(),
{
    if turns.len() > 0 {
        let t = turns[0];
        let p = s.played(t.read);
        lemma_played(s, t.read);
        lemma_fed(p, t.data);
        law_ring_order(turned(s, t), turns.drop_first());
        let rest_out = output_of(turned(s, t), turns.drop_first());
        let rest_in = input_of(turned(s, t), turns.drop_first());
        let end = after_turns(s, turns).waiting();
        let head = s.waiting().take(t.read);
        assert((head + rest_out) + end =~= head + (rest_out + end));
        assert(head + ((s.waiting().skip(t.read) + p.accepted(t.data)) + rest_in) =~= s.waiting() + (
        p.accepted(t.data) + rest_in));
    } else {
        assert(output_of(s, turns) + s.waiting() =~= s.waiting() + input_of(s, turns));
    }
}

/// A write that finds DMA at `rd` does to the ring what a turn does, given that
/// DMA did not go round the whole ring since the last look.
pub proof fn law_write_is_a_turn(s: RingState, read: int, data: Seq<u8>)
    requires
        s.ok(),
        0 <= read <= s.delay(),
        read < RING_SIZE,
    ensures
        ({
            let rd = (s.rd + read) % RING_SIZE as int;
            let d = delay_of(s.pos, s.full, rd);
            let n = fitting(data.len() as int, d);
            turned(s, Turn { read, data }) == (RingState {
                mem: ring_put(s.mem, s.pos, data.take(n)),
                pos: (s.pos + n) % RING_SIZE as int,
                full: d + n == RING_SIZE,
                rd,
            })
        }),
{
}

/// Whatever rate the link can run at exactly, as a multiple of one of its two
/// clocks over a divisor, each from one to eight, its format asks for exactly
/// that rate in 16-bit stereo, with the 48000 Hz clock where it can, the least
/// multiple, and the least divisor; for any other rate it asks for 48000 Hz.
pub proof fn law_format_of_rate(rate: u32, m: u32, d: u32)
    requires
        1 <= m <= 8,
        1 <= d <= 8,
    ensures
        ({
            let f = format_spec(rate) as int;
            let clock = if f / 0x4000 % 2 == 0 {
                48000int
            } else {
                44100
            };
            let exact = clock * (f / 0x800 % 8 + 1) == rate * (f / 0x100 % 8 + 1);
            &&& f % 0x100 == 0x11
            &&& 48000 * m == rate * d || 44100 * m == rate * d ==> exact
            &&& exact || f == 0x11
            &&& 48000 * m == rate * d ==> f / 0x4000 % 2 == 0 && (f / 0x800 % 8 + 1 < m || (f / 0x800
                % 8 + 1 == m && f / 0x100 % 8 + 1 <= d))
            &&& 44100 * m == rate * d ==> f / 0x4000 % 2 == 0 || f / 0x800 % 8 + 1 < m || (f / 0x800
                % 8 + 1 == m && f / 0x100 % 8 + 1 <= d)
        }),
{
    let b: u32 = if 48000 * m == rate * d {
        0
    } else {
        1
    };
    if 48000 * m == rate * d || 44100 * m == rate * d {
        assert(runs_at(rate, b, m, d));
        lemma_some_first(rate, b, m, d);
        let e = first_encoding(rate)->0;
        assert(is_first_encoding(rate, e));
        assert(!comes_before(b, m, d, e.0, e.1, e.2));
        if 44100 * m == rate * d {
            assert(runs_at(rate, 1, m, d));
            assert(!comes_before(1, m, d, e.0, e.1, e.2));
        }
        let f = format_bits(e.0, e.1, e.2);
        assert(f / 0x100 % 8 == e.2 - 1 && f / 0x800 % 8 == e.1 - 1 && f / 0x4000 % 2 == e.0);
    }
    if let Some(e) = first_encoding(rate) {
        assert(is_first_encoding(rate, e));
        law_format_decodes(rate, e.0, e.1, e.2);
        vstd::arithmetic::mul::lemma_mul_is_commutative(
            rate as int,
            format_rate(format_bits(e.0, e.1, e.2)).1,
        );
    }
}

/// Where there is an encoding there is a first one.
proof fn lemma_some_first(rate: u32, b: u32, m: u32, d: u32)
    requires
        runs_at(rate, b, m, d),
    ensures
        first_encoding(rate) is Some,
    decreases b, m, d,
{
    if is_first_encoding(rate, (b, m, d)) {
    } else {
        let (x, y, z) = choose|x: u32, y: u32, z: u32|
            comes_before(x, y, z, b, m, d) && #[trigger] runs_at(rate, x, y, z);
        lemma_some_first(rate, x, y, z);
    }
}

/// A write stores all that it is given, or as much as fills the ring.
pub proof fn law_writes_fill(s: RingState, data: Seq<u8>)
    requires
        s.ok(),
    ensures
        s.accepted(data) == data.take(s.accepted(data).len() as int),
        s.accepted(data).len() == data.len() || s.delay() + s.accepted(data).len() == 262144,
        s.accepted(data).len() <= data.len(),
        s.delay() + s.accepted(data).len() <= 262144,
{
}

/// The ring is a circle of 262144 bytes: bytes are put at and read from
/// successive places, the first place follows the last, and nothing else
/// changes.
pub proof fn law_ring_is_a_circle(mem: Seq<u8>, at: int, data: Seq<u8>, k: int, i: int)
    requires
        mem.len() == 262144,
        0 <= at < 262144,
        data.len() <= 262144,
        0 <= k < data.len(),
        0 <= i < 262144,
    ensures
        ring_put(mem, at, data)[(at + k) % 262144] == data[k],
        ring_put(mem, at, data).len() == mem.len(),
        ring_get(mem, at, k + 1).len() == k + 1,
        ring_get(mem, at, k + 1)[k] == mem[(at + k) % 262144],
        (i - at) % 262144 >= data.len() ==> ring_put(mem, at, data)[i] == mem[i],
{
}

/// What the descriptor of a stream holds once it is set up: its tag, the size of
/// the ring, the format, the last of 64 entries, and where the list is; its
/// interrupts are on and it is not running.
pub proof fn law_stream_setup(c: Controller, fmt: u16, list: int)
    requires
        0 <= list < 0x1_0000_0000_0000_0000,
    ensures
        ({
            let ops = setup_ops(c, fmt, list);
            let base = c.sd0_base_spec();
            let at = |off: int, width: int| Reg { off: (base + off) as u32, width: width as u32 };
            &&& ops.len() == 7
            &&& ops[1] == (Op::Write { at: at(8, 4), value: 262144 })
            &&& ops[2] == (Op::Write { at: at(0x12, 2), value: fmt as u32 })
            &&& ops[3] == (Op::Write { at: at(0xc, 2), value: 63 })
            &&& ops[4] matches Op::Write { at: r, value: low } && ops[5] matches Op::Write {
                at: s,
                value: high,
            } && r == at(0x18, 4) && s == at(0x1c, 4) && low + 0x1_0000_0000 * high == list
            &&& ops[0] matches Op::Write { at: r, value: v } && r == at(0, 4) && v % 0x10_0000 == 0
                && v / 0x10_0000 == (c.capture_streams_spec() + 1) % 16
            &&& ops[6] matches Op::Write { at: r, value: v } && r == at(0, 4) && v / 0x10_0000 == (
            c.capture_streams_spec() + 1) % 16 && v % 0x10_0000 == 0x1c
        }),
{
}

/// Starting turns on the stream's interrupt, then its RUN bit; stopping turns
/// off RUN and the interrupts, acknowledges what is pending, and turns off the
/// stream's interrupt; a reset raises the reset bit, sees it, and lowers it.
pub proof fn law_start_and_stop(c: Controller)
    ensures
        ({
            let (a, z, r) = (start_ops(c), stop_ops(c), srst_ops(c));
            let base = c.sd0_base_spec();
            let ctl = Reg { off: base as u32, width: 4 };
            let intctl = Reg { off: 0x20, width: 4 };
            let bit = vstd::arithmetic::power2::pow2(c.capture_streams_spec() as nat);
            &&& a.len() == 4 && z.len() == 3 && r.len() == 4
            &&& a[0] matches Op::Update { at, clear, set } && at == intctl && clear == 0 && set
                == bit
            &&& a[1] == (Op::Update { at: ctl, clear: 0, set: 0x1c })
            &&& a[2] == (Op::Update { at: Reg { off: base as u32, width: 1 }, clear: 0, set: 2 })
            &&& z[0] == (Op::Update { at: ctl, clear: 0x1e, set: 0 })
            &&& z[1] == (Op::Write { at: Reg { off: (base + 3) as u32, width: 1 }, value: 0x1c })
            &&& z[2] matches Op::Update { at, clear, set } && at == intctl && clear == bit && set
                == 0
            &&& r[0] == (Op::Write { at: ctl, value: 1 })
            &&& r[1] matches Op::Await(p) && p.at == ctl && p.mask == 1 && p.set && p.limit
                == Limit::Reads(100) && p.pause_us == 3 && p.fault is None && p.kick is None
            &&& r[2] == (Op::Write { at: ctl, value: 0 })
            &&& r[3] matches Op::Await(p) && p.at == ctl && p.mask == 1 && !p.set && p.limit
                == Limit::Reads(100) && p.pause_us == 3 && p.fault is None && p.kick is None
            &&& a[3] == (Op::Pause { us: 100 })
        }),
{
    let n = c.capture_streams_spec() as u32;
    vstd::arithmetic::power2::lemma2_to64();
    vstd::arithmetic::power2::lemma_pow2_strictly_increases(n as nat, 16);
    vstd::bits::lemma_u32_shl_is_mul(1, n);
}

/// Taking note of the DMA position changes nothing that is outstanding there;
/// once DMA was seen to have moved, its coming round to the write position means
/// that all was played.
pub proof fn law_noting(s: Stream, t: Stream, seen: u32, later: u32)
    requires
        s.wf(),
        s.noted(seen, t),
    ensures
        t.outstanding(seen) == s.outstanding(seen),
        t.pos() == s.pos() && t.ring() == s.ring() && t.list() == s.list(),
        t.entries_spec() == s.entries_spec() && t.written_spec() == s.written_spec(),
        seen % 262144 != s.pos() && later % 262144 == s.pos() ==> t.outstanding(later) == 0,
        seen % 262144 == s.pos() ==> t.outstanding(later) == s.outstanding(later),
{
}

} // verus!
