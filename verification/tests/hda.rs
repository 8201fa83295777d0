use audiod::hda::bdl;
use audiod::hda::codec::{
    Codec, Expected, ProbeAction, SetupAction, Verb, NID_DAC_HP, NID_PIN_HP,
};
use audiod::hda::controller::{make_verb, Controller, OpenAction, OpenError};
use audiod::hda::corb::{
    collect_entries, route_entry, CmdEngine, CorbError, CorbRing, InitAction, RingOutcome, Route,
    Verdict, Wait,
};
use audiod::hda::dbg::{configure, opts, CmdEngineKind, DebugOpts, OptCell};
use audiod::hda::mmio::Mmio;
use audiod::hda::pagemap::{entry_offset, vaddr_to_phys, DmaBuffer, DmaError};
use audiod::hda::pcicfg::{set_master, set_snoop, vendor_device};
use audiod::hda::playback::{HdaPlayback, OpenTask};
use audiod::hda::program::{Action, Await, Fault, Limit, Op, Reg, Runner};
use audiod::hda::regs::{RIRB_EX_UNSOL, SD_LPIB, SD_STS};
use audiod::hda::stream::{encode_rate, format_val, rate_supported, Stream, RING_SIZE};
use audiod::hda::topology::WalkAction;

/// Serialize (resp, ex) pairs into a little-endian RIRB image.
fn image(entries: &[(u32, u32)]) -> Vec<u8> {
    let mut v = Vec::new();
    for (r, ex) in entries {
        v.extend_from_slice(&r.to_le_bytes());
        v.extend_from_slice(&ex.to_le_bytes());
    }
    v
}

fn reader(img: &[u8]) -> impl Fn(usize) -> (u32, u32) + '_ {
    move |idx| {
        let o = idx * 8;
        (
            u32::from_le_bytes(img[o..o + 4].try_into().unwrap()),
            u32::from_le_bytes(img[o + 4..o + 8].try_into().unwrap()),
        )
    }
}

#[test]
fn drain_in_order_no_wrap() {
    let img = image(&[(0, 0), (0x111, 0), (0x222, 0), (0x333, 0)]);
    let got = collect_entries(reader(&img), 0, 3, 256);
    assert_eq!(
        got,
        vec![(0x111, 0), (0x222, 0), (0x333, 0)],
        "entries 1..=wp in arrival order"
    );
}

#[test]
fn drain_wraps_255_to_0() {
    let mut ents = vec![(0, 0); 256];
    ents[0] = (0xaaaa, 0);
    ents[1] = (0xbbbb, 0);
    let img = image(&ents);
    let got = collect_entries(reader(&img), 255, 1, 256);
    assert_eq!(got.len(), 2);
    assert_eq!(got[0], (0xaaaa, 0));
    assert_eq!(got[1], (0xbbbb, 0));
}

#[test]
fn drain_small_ring_wraps() {
    // count=16 negotiation: indices stay below 16 and wrap there.
    let mut ents = vec![(0, 0); 16];
    ents[15] = (0x0f0f, 0);
    ents[0] = (0x0101, 0);
    let img = image(&ents);
    let got = collect_entries(reader(&img), 15, 0, 16);
    assert_eq!(got, vec![(0x0101, 0)]);
}

#[test]
fn drain_empty_when_caught_up() {
    let img = image(&[(0, 0)]);
    assert!(collect_entries(reader(&img), 0, 0, 256).is_empty());
}

#[test]
fn routing_unsolicited_wins_over_cad() {
    let ex = RIRB_EX_UNSOL | 3; // unsolicited from cad 3
    assert_eq!(route_entry(0x42, ex, 0), Route::Unsolicited(0x42, ex));
}

#[test]
fn routing_foreign_cad_dropped() {
    assert_eq!(route_entry(0x42, 3, 0), Route::Foreign(3, 0x42));
}

#[test]
fn routing_solicited_match() {
    assert_eq!(route_entry(0x42, 0, 0), Route::Solicited(0x42));
}

#[test]
fn encodes_common_rates_exactly() {
    for (rate, base, mult, div) in [
        (48000, 0, 1, 1),
        (44100, 1, 1, 1),
        (32000, 0, 2, 3),
        (24000, 0, 1, 2),
        (22050, 1, 1, 2),
        (16000, 0, 1, 3),
        (12000, 0, 1, 4),
        (11025, 1, 1, 4),
        (8000, 0, 1, 6),
        (96000, 0, 2, 1),
        (88200, 1, 2, 1),
        (192000, 0, 4, 1),
    ] {
        assert_eq!(encode_rate(rate), Some((base, mult, div)), "rate {rate}");
        assert!(rate_supported(rate), "rate {rate}");
    }
}

#[test]
fn rejects_unrepresentable_rates() {
    for rate in [12_345, 44_500, 47_123, 33_333] {
        assert!(encode_rate(rate).is_none(), "rate {rate}");
        assert!(!rate_supported(rate), "rate {rate}");
    }
    // Format still degenerates to a safe 48k encoding.
    assert_eq!(format_val(12_345), format_val(48_000));
}

#[test]
fn extreme_rates_are_refused() {
    assert_eq!(encode_rate(0), None);
    assert_eq!(encode_rate(u32::MAX), None);
    // 8 * 0x60000000 would come out as zero in 32 bits.
    assert_eq!(encode_rate(0x6000_0000), None);
}

#[test]
fn format_bits_decode_to_rate() {
    assert_eq!(format_val(48000), 0x0011);
    assert_eq!(format_val(44100), 0x4011);
    assert_eq!(format_val(32000), 0x0a11);
    for rate in [8000u32, 11025, 16000, 22050, 32000, 44100, 48000, 88200, 96000, 176400, 192000] {
        let f = format_val(rate) as u32;
        let base = if f >> 14 & 1 == 0 { 48000 } else { 44100 };
        let mult = (f >> 11 & 7) + 1;
        let div = (f >> 8 & 7) + 1;
        assert_eq!(base * mult, rate * div, "rate {rate}");
        assert_eq!(f & 0xff, 0x11);
    }
}

// ── DMA buffers ──

fn entries(n: usize) -> Vec<u64> {
    (0..n).map(|i| (1 << 63) | (0x12345 + 7 * i as u64)).collect()
}

fn buffer(bytes: usize) -> DmaBuffer {
    match DmaBuffer::new(bytes, &entries(bytes.div_ceil(4096))) {
        Ok(b) => b,
        Err(e) => panic!("{e:?}"),
    }
}

#[test]
fn pagemap_entries_decode() {
    assert_eq!(vaddr_to_phys((1 << 63) | 0x12345), Ok(0x1234_5000));
    assert_eq!(vaddr_to_phys(0x12345), Err(DmaError::NotResident));
    // Flag bits above the frame number do not count.
    assert_eq!(vaddr_to_phys((1 << 63) | (1 << 55) | 1), Ok(0x1000));
    assert_eq!(entry_offset(0x7fff_1234_5678), (0x7fff_1234_5678 >> 12) * 8);
}

#[test]
fn dma_buffer_resolves_pages() {
    let b = buffer(5000);
    assert_eq!(b.size(), 8192);
    assert_eq!(b.toaddr(0), 0x1234_5000);
    assert_eq!(b.toaddr(4095), 0x1234_5fff);
    assert_eq!(b.toaddr(4096), 0x1234_c000);
}

#[test]
fn dma_buffer_rejects_bad_pages() {
    let mut e = entries(3);
    e[1] = 0x55;
    e[0] = (1 << 63) | (1 << 40);
    // A missing page is reported before an address beyond RAM.
    assert!(matches!(DmaBuffer::new(3 * 4096, &e), Err(DmaError::NotResident)));
    let mut e = entries(3);
    e[1] = (1 << 63) | (1 << 36);
    e[2] = (1 << 63) | (1 << 35);
    match DmaBuffer::new(3 * 4096, &e) {
        Err(DmaError::BeyondRam(a)) => assert_eq!(a, 1 << 48),
        _ => panic!("accepted"),
    }
}

#[test]
fn dma_buffer_reads_back_writes() {
    let b = buffer(4096);
    let mut mem = vec![0xffu8; 4096];
    b.zero(&mut mem);
    assert!(mem.iter().all(|&x| x == 0));
    b.write(&mut mem, 4090, &[1, 2, 3]);
    assert_eq!(b.read(&mem, 4089, 5), vec![0, 1, 2, 3, 0]);
}

#[test]
fn bdl_has_one_entry_per_page() {
    let ring = buffer(3 * 4096);
    let list = buffer(4096);
    let mut mem = vec![0xeeu8; 4096];
    assert_eq!(bdl::fill(&list, &mut mem, &ring, 64, true), 3);
    for i in 0..3 {
        let e = &mem[16 * i..16 * i + 16];
        assert_eq!(u64::from_le_bytes(e[0..8].try_into().unwrap()), ring.toaddr(4096 * i));
        assert_eq!(u32::from_le_bytes(e[8..12].try_into().unwrap()), 4096);
        assert_eq!(u32::from_le_bytes(e[12..16].try_into().unwrap()), (i == 2) as u32);
    }
    assert!(mem[48..].iter().all(|&x| x == 0xee));
    assert_eq!(bdl::fill(&list, &mut mem, &ring, 2, false), 2);
    assert_eq!(mem[28], 0);
}

#[test]
fn bdl_entry_bytes() {
    assert_eq!(
        bdl::make_entry(0x1_2345_6000, 4096, 1),
        [0x00, 0x60, 0x45, 0x23, 1, 0, 0, 0, 0, 0x10, 0, 0, 1, 0, 0, 0]
    );
}

#[test]
fn mmio_accesses_are_checked() {
    let m = Mmio::window();
    assert!(m.check(0x3ffc, 4, 4));
    assert!(!m.check(0x3ffe, 4, 4));
    assert!(!m.check(0x4000, 1, 1));
    assert!(!m.check(usize::MAX - 3, 4, 4));
    assert!(m.check(0x3fff, 1, 1));
}

#[test]
fn pci_registers() {
    assert_eq!(vendor_device(&[0x86, 0x80, 0x20, 0x1e]), (0x8086, 0x1e20));
    assert_eq!(set_snoop(0xff, 0x0fff), (0xf8, Some(0x07ff)));
    assert_eq!(set_snoop(0x08, 0xf7ff), (0x08, None));
    assert_eq!(set_master(0x0006), None);
    assert_eq!(set_master(0x0400), Some(0x0406));
    assert_eq!(set_master(0x0003), Some(0x0007));
}

// ── Programs ──

/// Registers that keep what is written to them.
struct Chip {
    bytes: Vec<u8>,
    now: u64,
    writes: Vec<(Reg, u32)>,
    reads: usize,
}

impl Chip {
    fn new() -> Chip {
        Chip { bytes: vec![0; 0x4000], now: 0, writes: Vec::new(), reads: 0 }
    }

    fn get(&self, r: Reg) -> u32 {
        let mut v = 0;
        for i in 0..r.width {
            v |= (self.bytes[(r.off + i) as usize] as u32) << (8 * i);
        }
        v
    }

    fn put(&mut self, r: Reg, v: u32) {
        for i in 0..r.width {
            self.bytes[(r.off + i) as usize] = (v >> (8 * i)) as u8;
        }
    }

    fn run(&mut self, ops: Vec<Op>) -> Result<u32, Fault> {
        let mut r = Runner::new(ops);
        let mut value = 0;
        loop {
            match r.step(value, self.now) {
                Action::Read(reg) => {
                    self.reads += 1;
                    value = self.get(reg);
                }
                Action::Write(reg, v) => {
                    self.writes.push((reg, v));
                    self.put(reg, v);
                }
                Action::Sleep(us) => self.now += us as u64 * 1000,
                Action::Done(v) => return Ok(v),
                Action::Failed(f) => return Err(f),
            }
        }
    }
}

fn reg(off: u32, width: u32) -> Reg {
    Reg { off, width }
}

#[test]
fn program_runs_in_order() {
    let mut c = Chip::new();
    c.put(reg(0x20, 4), 0xf0);
    let ops = vec![
        Op::Write { at: reg(0x10, 2), value: 7 },
        Op::Update { at: reg(0x20, 4), clear: 0x30, set: 0x01 },
        Op::WriteIfSet { test: reg(0x20, 4), mask: 0x40, at: reg(0x30, 1), value: 9 },
        Op::WriteIfSet { test: reg(0x20, 4), mask: 0x20, at: reg(0x31, 1), value: 9 },
        Op::Pause { us: 5 },
        Op::Read { at: reg(0x20, 4) },
    ];
    assert_eq!(c.run(ops), Ok(0xc1));
    assert_eq!(c.writes, vec![(reg(0x10, 2), 7), (reg(0x20, 4), 0xc1), (reg(0x30, 1), 9)]);
    assert_eq!(c.now, 5000);
}

fn poll(limit: Limit, fault: Option<Fault>) -> Op {
    Op::Await(Await {
        at: reg(0x68, 2),
        mask: 1,
        set: true,
        limit,
        pause_us: 3,
        kick: None,
        fault,
    })
}

#[test]
fn polls_give_up() {
    let mut c = Chip::new();
    assert_eq!(c.run(vec![poll(Limit::Spins(50), Some(Fault::IcBusy))]), Err(Fault::IcBusy));
    assert_eq!(c.reads, 51);
    let mut c = Chip::new();
    assert_eq!(c.run(vec![poll(Limit::Reads(100), None)]), Ok(0));
    assert_eq!(c.reads, 100);
    assert_eq!(c.now, 300_000);
    let mut c = Chip::new();
    let timed = poll(Limit::Elapsed(10_000), Some(Fault::ResetAssert));
    assert_eq!(c.run(vec![timed]), Err(Fault::ResetAssert));
    assert_eq!(c.now, 12_000);
    let mut c = Chip::new();
    c.put(reg(0x68, 2), 1);
    assert_eq!(c.run(vec![poll(Limit::Spins(0), Some(Fault::IcBusy))]), Ok(0));
    assert_eq!(c.reads, 1);
}

#[test]
fn pio_command_sequence() {
    let c = Controller { codec_mask: 1, gcap: 0x4401, cad: 0 };
    let mut chip = Chip::new();
    // The response is there as soon as it is asked for.
    chip.put(reg(0x64, 4), 0x10ec_0269);
    assert_eq!(chip.run(c.cmd(0, 0, 0xf00, 0)), Ok(0x10ec_0269));
    assert_eq!(
        chip.writes,
        vec![(reg(0x68, 2), 2), (reg(0x60, 4), 0x000f_0000), (reg(0x68, 2), 3)]
    );
    // Stuck busy.
    let mut chip = Chip::new();
    chip.put(reg(0x68, 2), 1);
    assert_eq!(chip.run(c.cmd_quiet(0, 0, 0xf00, 0)), Err(Fault::IcBusy));
    assert!(chip.writes.is_empty());
}

#[test]
fn verbs_are_encoded() {
    assert_eq!(make_verb(0, 0x14, 0x707, 0x40), 0x0147_0740);
    // Amp verbs carry a 16-bit payload.
    assert_eq!(make_verb(2, 0x02, 0x300, 0xb044), 0x2023_b044);
    assert_eq!(make_verb(0x1f, 0x1ff, 0x1f00, 0x1_0001), 0xffff_0001);
}

#[test]
fn stream_registers_follow_captures() {
    let c = Controller { codec_mask: 1, gcap: 0x4401, cad: 0 };
    assert_eq!(c.capture_streams(), 4);
    assert_eq!(c.sd_index(), 4);
    assert_eq!(c.sd0_base(), 0x100);
    assert_eq!(c.sd0_tag(), 5);
    let none = Controller { codec_mask: 1, gcap: 0x1000, cad: 0 };
    assert_eq!(none.sd0_base(), 0x80);
    assert_eq!(none.sd0_tag(), 1);
}

/// A controller behind PCI configuration space.
fn bring_up(skip_reset: bool, config: &mut Vec<u8>, chip: &mut Chip) -> Result<Controller, OpenError> {
    let mut o = Controller::open(skip_reset);
    let mut reply = Some(0);
    loop {
        match o.step(reply, chip.now) {
            OpenAction::PciRead { off, width } => {
                let mut v = 0;
                for i in 0..width as usize {
                    v |= (config[off as usize + i] as u32) << (8 * i);
                }
                reply = Some(v);
            }
            OpenAction::PciWrite { off, width, value } => {
                for i in 0..width as usize {
                    config[off as usize + i] = (value >> (8 * i)) as u8;
                }
                reply = Some(0);
            }
            OpenAction::Bar(Action::Read(r)) => reply = Some(chip.get(r)),
            OpenAction::Bar(Action::Write(r, v)) => {
                chip.writes.push((r, v));
                chip.put(r, v);
                reply = Some(0);
            }
            OpenAction::Bar(Action::Sleep(us)) => {
                chip.now += us as u64 * 1000;
                reply = Some(0);
            }
            OpenAction::Bar(a) => panic!("{a:?}"),
            OpenAction::Ready(c) => return Ok(c),
            OpenAction::Failed(e) => return Err(e),
        }
    }
}

#[test]
fn bring_up_resets_link() {
    let mut config = vec![0u8; 256];
    config[0] = 0x86;
    config[1] = 0x80;
    config[0x44] = 0x07;
    config[0x79] = 0x08;
    let mut chip = Chip::new();
    chip.put(reg(0, 2), 0x4401);
    chip.put(reg(8, 4), 1);
    chip.put(reg(0x0e, 2), 0x5);
    let c = bring_up(false, &mut config, &mut chip).unwrap();
    // The chip keeps the acknowledged bits, so they read back as present.
    assert_eq!(c, Controller { codec_mask: 0xf, gcap: 0x4401, cad: 0 });
    assert_eq!(config[0x44], 0);
    assert_eq!(config[0x79], 0);
    assert_eq!(config[4], 6);
    assert_eq!(
        chip.writes,
        vec![
            (reg(0x0e, 2), 0xf),
            (reg(8, 4), 0),
            (reg(8, 4), 1),
            (reg(0x24, 4), 0x7fff_ffff),
        ]
    );
}

#[test]
fn bring_up_without_reset() {
    let mut config = vec![0u8; 256];
    config[0] = 0x86;
    config[4] = 6;
    let mut chip = Chip::new();
    chip.put(reg(0, 2), 0x0100);
    let c = bring_up(true, &mut config, &mut chip).unwrap();
    assert_eq!(c.codec_mask, 1);
    assert_eq!(chip.writes, vec![(reg(0x24, 4), 0x7fff_ffff)]);
    // A stuck interface is kicked, then given up.
    let mut chip = Chip::new();
    chip.put(reg(0, 2), 0x0100);
    chip.put(reg(0x68, 2), 3);
    let mut o = Controller::open(true);
    let mut reply = Some(0);
    let mut kicks = 0;
    let end = loop {
        match o.step(reply, 0) {
            OpenAction::PciRead { .. } => reply = Some(0x8086),
            OpenAction::PciWrite { .. } => reply = Some(0),
            OpenAction::Bar(Action::Read(r)) => reply = Some(if r.off == 0 { 0x100 } else { 1 }),
            OpenAction::Bar(Action::Write(_, _)) => kicks += 1,
            OpenAction::Bar(_) => {}
            a => break a,
        }
    };
    assert_eq!(end, OpenAction::Failed(OpenError::Link(Fault::IcStuckBusy)));
    assert_eq!(kicks, 50);
}

#[test]
fn bring_up_fences_foreign_devices() {
    let mut chip = Chip::new();
    assert_eq!(bring_up(false, &mut vec![0u8; 256], &mut chip), Err(OpenError::NoVendor));
    let mut config = vec![0u8; 256];
    config[0] = 0x86;
    // No streams; and what reads of a missing device give.
    for gcap in [0x0000, 0x00ff, 0xffff] {
        let mut chip = Chip::new();
        chip.put(reg(0, 2), gcap);
        let end = bring_up(false, &mut config, &mut chip);
        assert_eq!(end, Err(OpenError::NotHda(gcap as u16)));
        assert!(chip.writes.is_empty());
    }
}

#[test]
fn bring_up_reports_pci_failures() {
    for (fail_at, want) in [
        (0, OpenError::NoVendor),
        (1, OpenError::NoVendor),
        (2, OpenError::PciSnoop),
        (3, OpenError::PciSnoop),
        (4, OpenError::PciSnoop),
        (5, OpenError::PciSnoop),
        (6, OpenError::PciMaster),
        (7, OpenError::PciMaster),
    ] {
        let mut o = Controller::open(false);
        let mut reply = Some(0);
        let mut n = 0;
        let end = loop {
            match o.step(reply, 0) {
                OpenAction::PciRead { off, .. } => {
                    reply = if n == fail_at { None } else { Some(if off == 4 { 0 } else { 0x0fff }) };
                    n += 1;
                }
                OpenAction::PciWrite { .. } => {
                    reply = if n == fail_at { None } else { Some(0) };
                    n += 1;
                }
                OpenAction::Bar(_) => panic!("got past PCI"),
                a => break a,
            }
        };
        assert_eq!(end, OpenAction::Failed(want), "step {fail_at}");
    }
}

#[test]
fn reset_that_hangs_is_reported() {
    let mut chip = Chip::new();
    let mut config = vec![0u8; 256];
    config[0] = 0x86;
    chip.put(reg(0, 2), 0x100);
    let mut o = Controller::open(false);
    let mut reply = Some(0);
    let end = loop {
        match o.step(reply, chip.now) {
            OpenAction::PciRead { off, .. } => reply = Some(config[off as usize] as u32),
            OpenAction::Bar(Action::Read(r)) => reply = Some(if r.off == 8 { 1 } else { 0x100 }),
            OpenAction::Bar(Action::Sleep(us)) => chip.now += us as u64 * 1000,
            OpenAction::Bar(_) | OpenAction::PciWrite { .. } => {}
            a => break a,
        }
    };
    assert_eq!(end, OpenAction::Failed(OpenError::Link(Fault::ResetAssert)));
    assert!(chip.now > 100_000_000);
}

// ── CORB/RIRB ──

fn init_rings(chip: &mut Chip, answer: fn(&Chip, Reg) -> u32) -> Result<usize, CorbError> {
    let rb = buffer(4096);
    let mut i = CorbRing::init(&rb);
    let mut value = 0;
    loop {
        match i.step(value, chip.now) {
            InitAction::Bar(Action::Read(r)) => value = answer(chip, r),
            InitAction::Bar(Action::Write(r, v)) => {
                chip.writes.push((r, v));
                chip.put(r, v);
            }
            InitAction::Bar(Action::Sleep(us)) => chip.now += us as u64 * 1000,
            InitAction::Bar(a) => panic!("{a:?}"),
            InitAction::Ready(n) => return Ok(n),
            InitAction::Failed(e) => return Err(e),
        }
    }
}

#[test]
fn rings_settle_on_largest_size() {
    let mut chip = Chip::new();
    // All sizes are advertised; what is written reads back.
    let n = init_rings(&mut chip, |c, r| {
        if r.width == 1 { c.get(r) | 0x70 } else { c.get(r) }
    });
    assert_eq!(n, Ok(256));
    assert_eq!(
        chip.writes,
        vec![
            // Stop both engines and program the bases.
            (reg(0x4c, 1), 0),
            (reg(0x5c, 1), 0),
            (reg(0x40, 4), 0x1234_5000),
            (reg(0x44, 4), 0),
            (reg(0x50, 4), 0x1234_5400),
            (reg(0x54, 4), 0),
            // 256 entries each.
            (reg(0x4e, 1), 2),
            (reg(0x5e, 1), 2),
            // Reset the pointers and start, responses first.
            (reg(0x48, 2), 0),
            (reg(0x4a, 2), 0x8000),
            (reg(0x4a, 2), 0),
            (reg(0x58, 2), 0x8000),
            (reg(0x5a, 2), 1),
            (reg(0x5c, 1), 3),
            (reg(0x4c, 1), 2),
        ]
    );
}

#[test]
fn rings_fall_back_in_size() {
    // The 256-entry code does not stick.
    let n = init_rings(&mut Chip::new(), |c, r| {
        if r.width == 1 {
            let v = c.get(r);
            if v == 2 { 0x70 } else { v | 0x70 }
        } else {
            c.get(r)
        }
    });
    assert_eq!(n, Ok(16));
    let n = init_rings(&mut Chip::new(), |c, r| if r.width == 1 { c.get(r) | 0x10 } else { 0 });
    assert_eq!(n, Ok(2));
}

#[test]
fn rings_report_bad_sizes() {
    let n = init_rings(&mut Chip::new(), |_, _| 0);
    assert_eq!(n, Err(CorbError::Unsupported));
    let n = init_rings(&mut Chip::new(), |c, r| {
        if r.off == 0x4e { c.get(r) | 0x40 } else { c.get(r) | 0x20 }
    });
    assert_eq!(n, Err(CorbError::SizesDiffer { corb: 256, rirb: 16 }));
}

#[test]
fn corb_send_publishes_next_entry() {
    let ring = CorbRing::live(buffer(4096), 16);
    let mut mem = vec![0u8; 4096];
    assert_eq!(ring.send(&mut mem, 0x0f, 5, 0xaabb_ccdd), Ok(0));
    assert_eq!(&mem[0..4], &[0xdd, 0xcc, 0xbb, 0xaa]);
    assert_eq!(ring.send(&mut mem, 2, 9, 1), Ok(3));
    assert_eq!(mem[12], 1);
    assert_eq!(ring.send(&mut mem, 4, 5, 1), Err(CorbError::Full));
}

fn put_response(mem: &mut [u8], idx: usize, resp: u32, ex: u32) {
    mem[1024 + idx * 8..1028 + idx * 8].copy_from_slice(&resp.to_le_bytes());
    mem[1028 + idx * 8..1032 + idx * 8].copy_from_slice(&ex.to_le_bytes());
}

#[test]
fn rirb_responses_arrive_in_order() {
    let mut ring = CorbRing::live(buffer(4096), 256);
    let mut mem = vec![0u8; 4096];
    assert_eq!(ring.wait_response(&mem, 0, 2, 0, 10), Wait::Again);
    put_response(&mut mem, 1, 0x11, 0x12); // unsolicited
    put_response(&mut mem, 2, 0x22, 2);
    put_response(&mut mem, 3, 0x33, 1); // another codec
    put_response(&mut mem, 4, 0x44, 2);
    assert_eq!(ring.wait_response(&mem, 4, 2, 0, 10), Wait::Response(0x22));
    // A queued response comes first, whatever the pointer and the time.
    assert_eq!(ring.wait_response(&mem, 4, 2, 10, 10), Wait::Response(0x44));
    assert_eq!(ring.wait_response(&mem, 4, 2, 9, 10), Wait::Again);
    assert_eq!(ring.wait_response(&mem, 4, 2, 10, 10), Wait::Failed(CorbError::Timeout));
}

#[test]
fn rirb_pointer_outside_ring_is_an_error() {
    let mut ring = CorbRing::live(buffer(4096), 16);
    let mem = vec![0u8; 4096];
    assert_eq!(
        ring.wait_response(&mem, 0x1f0, 0, 0, 10),
        Wait::Failed(CorbError::BadPointer(0xf0))
    );
}

#[test]
fn every_look_hands_out_the_next_response() {
    let mut ring = CorbRing::live(buffer(4096), 16);
    let mut mem = vec![0u8; 4096];
    let mut got = Vec::new();
    for n in 1..=40u32 {
        // Two responses arrive between any two looks that find the queue empty.
        if n % 2 == 1 {
            put_response(&mut mem, n as usize % 16, n, 0);
            put_response(&mut mem, (n as usize + 1) % 16, n + 1, 0);
        }
        let wp = if n % 2 == 1 { (n + 1) % 16 } else { 0xff };
        match ring.wait_response(&mem, wp as u16, 0, 10, 10) {
            Wait::Response(r) => got.push(r),
            w => panic!("{w:?}"),
        }
    }
    assert_eq!(got, (1..=40).collect::<Vec<u32>>());
    assert_eq!(ring.wait_response(&mem, 8, 0, 10, 10), Wait::Failed(CorbError::Timeout));
}

#[test]
fn shutdown_stops_both_engines() {
    let ring = CorbRing::live(buffer(4096), 2);
    let mut chip = Chip::new();
    assert_eq!(chip.run(ring.shutdown()), Ok(0));
    assert_eq!(chip.writes, vec![(reg(0x4c, 1), 0), (reg(0x5c, 1), 0)]);
}

#[test]
fn engine_degrades_after_three_timeouts() {
    let mut e = CmdEngine::new(None);
    assert_eq!(e.kind, CmdEngineKind::Corb);
    assert_eq!(e.note(RingOutcome::TimedOut), Verdict::Report);
    assert_eq!(e.note(RingOutcome::TimedOut), Verdict::Report);
    assert_eq!(e.note(RingOutcome::Answered), Verdict::Deliver);
    assert_eq!(e.note(RingOutcome::TimedOut), Verdict::Report);
    assert_eq!(e.note(RingOutcome::TimedOut), Verdict::Report);
    assert_eq!(e.note(RingOutcome::TimedOut), Verdict::Reissue);
    assert_eq!(e.kind, CmdEngineKind::Pio);
    let mut e = CmdEngine::new(None);
    assert_eq!(e.note(RingOutcome::Broken), Verdict::Reissue);
    let mut e = CmdEngine::new(Some(CmdEngineKind::Corb));
    for _ in 0..9 {
        assert_eq!(e.note(RingOutcome::TimedOut), Verdict::Report);
    }
    assert_eq!(e.note(RingOutcome::Broken), Verdict::Report);
    assert_eq!(e.kind, CmdEngineKind::Corb);
}

// ── Codec ──

fn probe(mask: u16, ask: impl Fn(u32, Verb) -> Option<u32>) -> (ProbeAction, usize) {
    let mut p = Codec::probe(mask);
    let mut reply = None;
    let mut n = 0;
    loop {
        match p.step(reply) {
            ProbeAction::Send(q) => {
                n += 1;
                reply = ask(q.cad, q.verb);
            }
            a => return (a, n),
        }
    }
}

#[test]
fn probe_prefers_realtek() {
    let (a, n) = probe(0b1101, |cad, v| match (v.verb, v.payload, cad) {
        (0xf00, 0, 0) => Some(0x8086_2806),
        (0xf00, 0, 2) => Some(0x10ec_0269),
        (0xf00, 0, _) => Some(0x10ec_0999),
        (0xf00, 1, 2) => Some(0),
        (0xf00, 1, _) => Some(5),
        (0xf20, _, 2) => Some(0x17aa_0001),
        _ => None,
    });
    match a {
        ProbeAction::Found(f) => {
            assert_eq!(f.cad, 2);
            assert_eq!(f.codec, Codec { vendor_id: 0x10ec_0269, subsystem_id: 0x17aa_0001 });
        }
        a => panic!("{a:?}"),
    }
    assert_eq!(n, 3 + 4 + 3);
}

#[test]
fn probe_falls_back_or_fails() {
    let (a, _) = probe(0b0110, |cad, v| match (v.verb, v.payload, cad) {
        (0xf00, 0, 1) => Some(0xffff_ffff),
        (0xf00, 0, 2) => Some(0x1106_0397),
        _ => None,
    });
    match a {
        ProbeAction::Found(f) => {
            assert_eq!((f.cad, f.codec.vendor_id, f.codec.subsystem_id), (2, 0x1106_0397, 0));
        }
        a => panic!("{a:?}"),
    }
    assert_eq!(probe(0b1111, |_, _| None), (ProbeAction::NoCodec, 4));
    assert_eq!(probe(0, |_, _| Some(1)), (ProbeAction::NoCodec, 0));
}

#[test]
fn playback_setup_checks_first() {
    let mut s = Codec::init_playback(0x0011, 5);
    let mut sent = Vec::new();
    let mut a = s.begin();
    while let SetupAction::Send(v) = a {
        sent.push(v);
        let caps = match v.nid {
            0x02 | 0x03 => 0,
            0x0c => 0x0020_0000,
            0x0d => 0x0030_0000,
            _ => 0x0040_0000,
        };
        a = s.step(Some(caps));
    }
    assert_eq!(a, SetupAction::Done);
    let want: Vec<(u32, u32, u32)> = vec![
        (0x01, 0x705, 0),
        (0x02, 0xf00, 9),
        (0x03, 0xf00, 9),
        (0x0c, 0xf00, 9),
        (0x0d, 0xf00, 9),
        (0x14, 0xf00, 9),
        (0x15, 0xf00, 9),
        (0x02, 0x705, 0),
        (0x02, 0x706, 0x50),
        (0x02, 0x200, 0x11),
        (0x02, 0x300, 0xb044),
        (0x0c, 0x705, 0),
        (0x0c, 0x701, 0),
        (0x0c, 0x300, 0x3000),
        (0x14, 0x705, 0),
        (0x14, 0x707, 0x40),
        (0x14, 0x70c, 2),
        (0x14, 0x300, 0xb000),
        (0x03, 0x705, 0),
        (0x03, 0x706, 0x50),
        (0x03, 0x200, 0x11),
        (0x03, 0x300, 0xb044),
        (0x0d, 0x705, 0),
        (0x0d, 0x701, 1),
        (0x0d, 0x300, 0x3100),
        (0x15, 0x705, 0),
        (0x15, 0x707, 0xc0),
        (0x15, 0x70c, 2),
        (0x15, 0x300, 0xb000),
    ];
    let got: Vec<(u32, u32, u32)> = sent.iter().map(|v| (v.nid, v.verb, v.payload)).collect();
    assert_eq!(got, want);
}

#[test]
fn playback_setup_stops_at_wrong_widget() {
    let mut s = Codec::init_playback(0x0011, 1);
    assert_eq!(s.step(Some(0)), s.begin());
    assert_eq!(s.step(Some(0)), s.begin());
    assert_eq!(
        s.step(Some(0x0010_0000)),
        SetupAction::WrongWidget { nid: NID_DAC_HP, found: 1, expected: Expected::Dac }
    );
    let mut s = Codec::init_playback(0x0011, 1);
    let first = match s.begin() {
        SetupAction::Send(v) => v,
        a => panic!("{a:?}"),
    };
    assert_eq!(s.step(None), SetupAction::NoAnswer(first));
}

#[test]
fn mute_and_state_verbs() {
    let v = Codec::set_mute(true);
    assert_eq!(v[0], Verb { nid: 2, verb: 0x300, payload: 0xb0c4 });
    assert_eq!(v[1], Verb { nid: 3, verb: 0x300, payload: 0xb0c4 });
    assert_eq!(Codec::set_mute(false)[0].payload, 0xb044);
    let v = Codec::dump_state();
    assert_eq!(v.len(), 42);
    assert_eq!(v[6], Verb { nid: 2, verb: 0xb00, payload: 0xa000 });
    assert_eq!(v[41].nid, NID_PIN_HP);
}

#[test]
fn topology_of_a_pin() {
    let caps = 0x0040_0041;
    let replies = [Some(0), Some(7), None, Some(1 << 31), Some(0x83), None, Some(0x0000_0ba9)];
    let w = Codec::decode_widget(0x15, caps, &replies);
    assert_eq!((w.kind, w.stereo, w.in_amp, w.out_amp, w.stream), (4, true, false, false, false));
    assert_eq!(w.kind_name(), "PIN");
    let pin = w.pin.unwrap();
    assert_eq!((pin.cap, pin.control, pin.presence), (7, 0, true));
    let conn = w.conn.unwrap();
    assert_eq!((conn.len, conn.sel), (3, 0xffff));
    assert_eq!(conn.first, vec![9, 0xa, 0xb]);
}

#[test]
fn topology_walk_visits_every_node() {
    let mut walk = Codec::dump_topology();
    let mut reply = None;
    let (mut asked, mut others, mut shown) = (Vec::new(), Vec::new(), Vec::new());
    loop {
        match walk.step(reply) {
            WalkAction::Send(v) => {
                reply = match (v.verb, v.payload) {
                    (0xf00, 9) => {
                        asked.push(v.nid);
                        match v.nid {
                            0x02 => Some(0x0000_0006),
                            0x14 => Some(0x0040_0001),
                            0x15 => Some(0x0040_0041),
                            0x20 => Some(0x00f0_0040),
                            0x03 => Some(0xffff_ffff),
                            0x04 => Some(0),
                            _ => None,
                        }
                    }
                    (verb, payload) => {
                        others.push((v.nid, verb, payload));
                        Some(3)
                    }
                };
            }
            WalkAction::Show(w) => {
                shown.push((w.nid, w.kind_name(), w.pin.is_some(), w.conn.map(|c| c.first)));
                reply = None;
            }
            WalkAction::Done => break,
        }
    }
    assert_eq!(asked, (0x01..=0x20).collect::<Vec<u32>>());
    let conn = Some(vec![3, 0, 0]);
    assert_eq!(
        shown,
        vec![
            (0x02, "OUT", false, None),
            (0x14, "PIN", true, None),
            (0x15, "PIN", true, conn.clone()),
            (0x20, "??", false, conn),
        ]
    );
    let pin = [(0xf00, 0x0b), (0xf00, 0x0c), (0xf07, 0), (0x709, 0)];
    let list = [(0xf00, 0x0e), (0xf01, 0), (0xf02, 0)];
    let mut want = vec![(0x02, 0xf00, 0x0b)];
    want.extend(pin.iter().map(|&(v, p)| (0x14, v, p)));
    want.extend(pin.iter().chain(&list).map(|&(v, p)| (0x15, v, p)));
    want.extend(pin[..1].iter().chain(&list).map(|&(v, p)| (0x20, v, p)));
    assert_eq!(others, want);
    assert!(matches!(walk.step(None), WalkAction::Done));
}

#[test]
fn output_route_follows_jack() {
    assert!(Codec::headphone_present(0x8000_0000));
    assert!(!Codec::headphone_present(0x7fff_ffff));
    assert_eq!(Codec::output_path(&Ok(0x8000_0000)), "headphone");
    assert_eq!(Codec::output_path(&Ok(0)), "speakers");
    assert_eq!(Codec::output_path(&Err("IC busy".into())), "unknown (IC busy)");
    assert_eq!(Codec::sense_verb(), Verb { nid: 0x15, verb: 0x709, payload: 0 });
}

// ── Stream and session ──

fn stream() -> Stream {
    Stream::new(buffer(RING_SIZE), buffer(4096))
}

#[test]
fn full_ring_is_not_empty() {
    let mut s = stream();
    let mut mem = vec![0u8; RING_SIZE];
    let first = vec![1u8; RING_SIZE];
    assert_eq!(s.write(&mut mem, 0, &first), RING_SIZE);
    assert_eq!(s.write_pos(), 0);
    assert_eq!((s.delay_bytes(0), s.free_bytes(0)), (RING_SIZE, 0));
    // Nothing is played yet, so nothing may be overwritten.
    assert_eq!(s.write(&mut mem, 0, &[2; 8]), 0);
    assert_eq!(mem, first);
    assert_eq!((s.delay_bytes(0), s.free_bytes(0)), (RING_SIZE, 0));
    // DMA has played four bytes; they can be replaced, which fills the ring.
    assert_eq!((s.delay_bytes(4), s.free_bytes(4)), (RING_SIZE - 4, 4));
    assert_eq!(s.write(&mut mem, 4, &[2; 8]), 4);
    assert_eq!(&mem[..5], &[2, 2, 2, 2, 1]);
    assert_eq!(s.delay_bytes(4), RING_SIZE);
    // Once DMA was seen elsewhere, its coming round means that all is played.
    s.note(100);
    assert_eq!(s.delay_bytes(4), 0);
    assert_eq!(s.write(&mut mem, 4, &first), RING_SIZE);
    s.note(4);
    assert_eq!(s.free_bytes(4), 0);
    s.clear();
    assert_eq!((s.delay_bytes(0), s.free_bytes(0)), (0, RING_SIZE));
}

#[test]
fn ring_wraps_and_keeps_order() {
    let mut s = stream();
    let mut mem = vec![0u8; RING_SIZE];
    let big: Vec<u8> = (0..RING_SIZE - 2).map(|i| i as u8).collect();
    assert_eq!(s.write(&mut mem, 0, &big), RING_SIZE - 2);
    assert_eq!(s.free_bytes(0), 2);
    assert_eq!(s.delay_bytes(0), RING_SIZE - 2);
    // DMA has read all but four bytes.
    let rd = (RING_SIZE - 6) as u32;
    assert_eq!(s.write(&mut mem, rd, &[1, 2, 3, 4, 5]), 5);
    assert_eq!(s.write_pos(), 3);
    assert_eq!(&mem[RING_SIZE - 2..], &[1, 2]);
    assert_eq!(&mem[..4], &[3, 4, 5, 3]);
    assert_eq!(s.delay_bytes(rd) + s.free_bytes(rd), RING_SIZE);
    assert_eq!(s.delay_bytes(rd), 9);
    // LPIB is taken modulo the ring.
    assert_eq!(s.lpib(RING_SIZE as u32 + 5), 5);
    assert_eq!(s.write(&mut mem, 4, &[9, 9, 9]), 1);
    s.clear();
    assert_eq!(s.write_pos(), 0);
    s.zero_ring(&mut mem);
    assert!(mem.iter().all(|&b| b == 0));
    assert_eq!(s.write(&mut mem, 0, &[]), 0);
    assert_eq!(s.ring_size(), RING_SIZE);
}

#[test]
fn stream_setup_program() {
    let c = Controller { codec_mask: 1, gcap: 0x4401, cad: 0 };
    let mut s = stream();
    let mut list = vec![0u8; 4096];
    let mut chip = Chip::new();
    let _ = chip.run(s.setup(&mut list, &c, 44100));
    assert_eq!(
        chip.writes,
        vec![
            (reg(0x100, 4), 5 << 20),
            (reg(0x108, 4), RING_SIZE as u32),
            (reg(0x112, 2), 0x4011),
            (reg(0x10c, 2), 63),
            (reg(0x118, 4), 0x1234_5000),
            (reg(0x11c, 4), 0),
            (reg(0x100, 4), 5 << 20 | 0x1c),
        ]
    );
    assert_eq!(list[63 * 16 + 12], 1);
    assert_eq!(s.tag(&c), 5);
    assert_eq!(s.lpib_reg(&c), reg(0x100 + SD_LPIB, 4));
    assert_eq!(s.status_reg(&c), reg(0x100 + SD_STS, 1));
    assert_eq!(s.status(0x24), 0x24);
}

#[test]
fn stream_start_stop_reset() {
    let c = Controller { codec_mask: 1, gcap: 0x4401, cad: 0 };
    let s = stream();
    let mut chip = Chip::new();
    let _ = chip.run(s.start(&c));
    assert_eq!(chip.get(reg(0x20, 4)), 1 << 4);
    assert_eq!(chip.get(reg(0x100, 4)), 0x1e);
    assert_eq!(chip.now, 100_000);
    let _ = chip.run(s.stop(&c));
    assert_eq!(chip.get(reg(0x20, 4)), 0);
    assert_eq!(chip.get(reg(0x100, 1)), 0);
    assert_eq!(chip.get(reg(0x103, 1)), 0x1c);
    let mut chip = Chip::new();
    assert!(chip.run(s.srst(&c)).is_ok());
    assert_eq!(chip.writes, vec![(reg(0x100, 4), 1), (reg(0x100, 4), 0)]);
}

#[test]
fn session_restarts_from_silence() {
    let c = Controller { codec_mask: 1, gcap: 0x4401, cad: 0 };
    let codec = Codec { vendor_id: 0x10ec_0269, subsystem_id: 0 };
    let mut p = HdaPlayback::opened(c, codec, stream(), 48000);
    let mut ring = vec![7u8; RING_SIZE];
    let mut list = vec![0u8; 4096];
    assert_eq!((p.tag(), p.fmt, p.running), (5, 0x11, false));
    assert_eq!(p.start(&mut list).len(), 15);
    assert!(p.start(&mut list).is_empty());
    assert_eq!(p.play(&mut ring, 0, &[1; 10]), 10);
    assert_eq!(p.bytes_written, 10);
    assert_eq!(p.delay_frames(0), 2);
    assert_eq!(p.halt().len(), 7);
    p.drop_all(&mut ring);
    assert!(!p.running && ring.iter().all(|&b| b == 0));
    assert_eq!(p.delay_frames(0), 0);
    assert_eq!(p.start(&mut list).len(), 15);
    assert_eq!(p.stop().len(), 3);
    assert!(!p.running);
}

#[test]
fn session_tasks_follow_options() {
    let mut o = DebugOpts::default();
    assert!(HdaPlayback::open(0, &o).is_err());
    let t = HdaPlayback::open(1, &o).ok().unwrap();
    assert_eq!(t, vec![OpenTask::Probe, OpenTask::Reset, OpenTask::Setup, OpenTask::InitCodec]);
    o.dump_state = true;
    o.dump_topology = true;
    let t = HdaPlayback::open(1, &o).ok().unwrap();
    assert_eq!(t.len(), 6);
    assert_eq!((t[1], t[5]), (OpenTask::DumpTopology, OpenTask::DumpState));
    o.skip_codec_init = true;
    assert_eq!(HdaPlayback::open(1, &o).ok().unwrap().len(), 4);
}

#[test]
fn options_are_kept() {
    let mut cell = OptCell { set: None };
    assert_eq!(opts(&cell), DebugOpts::default());
    let mut o = DebugOpts::default();
    o.skip_reset = true;
    configure(&mut cell, o);
    assert!(opts(&cell).skip_reset);
}
