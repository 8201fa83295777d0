//! Controller bring-up: link reset, codec detection, and the immediate-command
//! path (IC/IR/IRS).
use super::pcicfg::{
    master_enabled, set_master, set_snoop, DEVC_OFF, PCI_CMD_OFF, PCI_DEVICE_OFF, PCI_VENDOR_OFF,
    TCSEL_OFF,
};
use super::program::{
    cursor_start, law_forward, next, op_ok, program_ok, Action, Await, Cursor, Fault, Limit, Op, Reg,
    Runner,
};
use super::regs::{
    GCAP, GCTL, GCTL_RESET, IC, INTSTS, IR, IRS, IRS_BUSY, IRS_VALID, SD_STREAM_BASE,
    SD_STREAM_STRIDE, STATESTS, STATESTS_INT_MASK,
};
use vstd::prelude::*;

verus! {

/// What bring-up has learnt of the controller.
#[derive(Clone, Copy, Debug, PartialEq, Eq, Structural)]
pub struct Controller {
    /// One bit per codec that is present on the link.
    pub codec_mask: u16,
    pub gcap: u16,
    /// Codec address (CAD) selected during probe.
    pub cad: u32,
}

impl Controller {
    /// Number of capture streams: bits 8 to 11 of GCAP.
    pub open spec fn capture_streams_spec(&self) -> int {
        self.gcap as int / 0x100 % 16
    }

    /// Number of capture (input) streams. They own the first stream
    /// descriptors.
    pub fn capture_streams(&self) -> (n: usize)
        ensures
            n == self.capture_streams_spec(),
    {
        let g: u16 = self.gcap;
        assert((g >> 8) & 0x0f == g / 0x100 % 16) by (bit_vector);
        ((g >> 8) & 0x0f) as usize
    }

    /// Descriptor index of playback stream 0, which stands behind all capture
    /// streams.
    pub fn sd_index(&self) -> (n: usize)
        ensures
            n == self.capture_streams_spec(),
    {
        self.capture_streams()
    }

    /// Register offset of playback stream 0's descriptor.
    pub open spec fn sd0_base_spec(&self) -> int {
        0x80 + 0x20 * self.capture_streams_spec()
    }

    /// Register offset of playback stream 0's descriptor.
    pub fn sd0_base(&self) -> (off: u32)
        ensures
            off == self.sd0_base_spec(),
    {
        SD_STREAM_BASE + SD_STREAM_STRIDE * self.sd_index() as u32
    }

    /// Stream tag of playback stream 0: one more than its index. Codec DACs
    /// bind to the same tag.
    pub fn sd0_tag(&self) -> (tag: u32)
        ensures
            tag == self.capture_streams_spec() + 1,
    {
        self.sd_index() as u32 + 1
    }
}

/// A command verb: codec address in bits 31 to 28, node in 27 to 20, verb in
/// 19 to 8, payload in 15 to 0. Verbs with a 16-bit payload have their own
/// low eight bits zero.
pub open spec fn verb_word(cad: u32, nid: u32, verb: u32, payload: u32) -> u32 {
    ((cad & 0xf) << 28) | ((nid & 0xff) << 20) | ((verb & 0xfff) << 8) | (payload & 0xffff)
}

/// Encode a command verb.
pub fn make_verb(cad: u32, nid: u32, verb: u32, payload: u32) -> (w: u32)
    ensures
        w == verb_word(cad, nid, verb, payload),
{
    ((cad & 0xf) << 28) | ((nid & 0xff) << 20) | ((verb & 0xfff) << 8) | (payload & 0xffff)
}

/// A verb word holds what it was made of: codec and node always; a 12-bit verb
/// beside an 8-bit payload, or a 4-bit verb beside a 16-bit payload.
pub proof fn law_verb_fields(cad: u32, nid: u32, verb: u32, payload: u32)
    requires
        cad < 16,
        nid < 256,
        verb < 0x1000,
        payload < 0x1_0000,
    ensures
        ({
            let w = verb_word(cad, nid, verb, payload);
            &&& w / 0x1000_0000 == cad
            &&& w / 0x10_0000 % 256 == nid
            &&& payload < 256 ==> w / 256 % 0x1000 == verb && w % 256 == payload
            &&& verb % 256 == 0 ==> w / 0x1_0000 % 16 == verb / 256 && w % 0x1_0000 == payload
        }),
{
    let w = ((cad & 0xf) << 28) | ((nid & 0xff) << 20) | ((verb & 0xfff) << 8) | (payload & 0xffff);
    assert(w / 0x1000_0000 == cad && w / 0x10_0000 % 256 == nid && (payload < 256 ==> w / 256
        % 0x1000 == verb && w % 256 == payload) && (verb % 256 == 0 ==> w / 0x1_0000 % 16 == verb
        / 256 && w % 0x1_0000 == payload)) by (bit_vector)
        requires
            w == ((cad & 0xf) << 28) | ((nid & 0xff) << 20) | ((verb & 0xfff) << 8) | (payload
                & 0xffff),
            cad < 16,
            nid < 256,
            verb < 0x1000,
            payload < 0x1_0000,
    ;
}

// ── Programs ──
/// More than so many nanoseconds means a response did not come.
pub const PIO_TIMEOUT_NS: u64 = 1_000_001;

/// More than so many nanoseconds means the link did not follow.
pub const RESET_TIMEOUT_NS: u64 = 100_000_001;

/// One immediate command: wait until the interface is free, acknowledge the
/// previous response, write the verb, mark it busy, wait for the response and
/// read it.
pub open spec fn cmd_ops(word: u32) -> Seq<Op> {
    let irs = Reg { off: IRS, width: 2 };
    seq![
        Op::Await(
            Await {
                at: irs,
                mask: IRS_BUSY as u32,
                set: false,
                limit: Limit::Spins(50),
                pause_us: 1,
                kick: None,
                fault: Some(Fault::IcBusy),
            },
        ),
        Op::Write { at: irs, value: IRS_VALID as u32 },
        Op::Write { at: Reg { off: IC, width: 4 }, value: word },
        Op::Update { at: irs, clear: 0, set: IRS_BUSY as u32 },
        Op::Await(
            Await {
                at: irs,
                mask: IRS_VALID as u32,
                set: true,
                limit: Limit::Elapsed(PIO_TIMEOUT_NS),
                pause_us: 1,
                kick: None,
                fault: Some(Fault::PioTimeout(word)),
            },
        ),
        Op::Read { at: Reg { off: IR, width: 4 } },
    ]
}

/// The link reset: forget stale codec-present bits if the link is running,
/// assert reset, wait, release it, wait for the codecs, and read which are
/// there.
pub open spec fn reset_ops() -> Seq<Op> {
    let gctl = Reg { off: GCTL, width: 4 };
    let statests = Reg { off: STATESTS, width: 2 };
    seq![
        Op::WriteIfSet {
            test: gctl,
            mask: GCTL_RESET,
            at: statests,
            value: STATESTS_INT_MASK as u32,
        },
        Op::Update { at: gctl, clear: GCTL_RESET, set: 0 },
        Op::Await(
            Await {
                at: gctl,
                mask: GCTL_RESET,
                set: false,
                limit: Limit::Elapsed(RESET_TIMEOUT_NS),
                pause_us: 500,
                kick: None,
                fault: Some(Fault::ResetAssert),
            },
        ),
        Op::Pause { us: 500 },
        Op::Update { at: gctl, clear: 0, set: GCTL_RESET },
        Op::Await(
            Await {
                at: gctl,
                mask: GCTL_RESET,
                set: true,
                limit: Limit::Elapsed(RESET_TIMEOUT_NS),
                pause_us: 500,
                kick: None,
                fault: Some(Fault::ResetRelease),
            },
        ),
        Op::Pause { us: 1000 },
        Op::Read { at: statests },
    ]
}

/// Free an immediate-command interface that a previous run left busy, without
/// a reset.
pub open spec fn rearm_ops() -> Seq<Op> {
    let irs = Reg { off: IRS, width: 2 };
    seq![
        Op::Await(
            Await {
                at: irs,
                mask: IRS_BUSY as u32,
                set: false,
                limit: Limit::Spins(50),
                pause_us: 1,
                kick: Some((irs, IRS_VALID as u32)),
                fault: Some(Fault::IcStuckBusy),
            },
        ),
    ]
}

/// Clear all pending interrupts.
pub open spec fn int_clear_ops() -> Seq<Op> {
    seq![Op::Write { at: Reg { off: INTSTS, width: 4 }, value: 0x7fff_ffff }]
}

/// Everything that bring-up does to the controller's registers once it is
/// known to be one. Which codecs are there is read once more after a reset.
pub open spec fn link_ops(skip_reset: bool) -> Seq<Op> {
    if skip_reset {
        rearm_ops() + int_clear_ops()
    } else {
        reset_ops() + seq![Op::Read { at: Reg { off: STATESTS, width: 2 } }] + int_clear_ops()
    }
}

impl Controller {
    /// Begin bring-up. With `skip_reset` the link is left as it is, and codec
    /// 0 is assumed.
    pub fn open(skip_reset: bool) -> (o: Opening)
        ensures
            o.wf(),
            o.state() == open_start(skip_reset),
    {
        Opening::new(skip_reset)
    }

    /// The program that sends one verb through the immediate-command interface
    /// and reads the response.
    pub fn cmd(&self, cad: u32, nid: u32, verb: u32, payload: u32) -> (ops: Vec<Op>)
        ensures
            ops@ == cmd_ops(verb_word(cad, nid, verb, payload)),
            program_ok(ops@),
    {
        cmd_program(make_verb(cad, nid, verb, payload))
    }

    /// The same program as [`cmd`](Self::cmd), for reads that are polled too
    /// often to be logged.
    pub fn cmd_quiet(&self, cad: u32, nid: u32, verb: u32, payload: u32) -> (ops: Vec<Op>)
        ensures
            ops@ == cmd_ops(verb_word(cad, nid, verb, payload)),
            program_ok(ops@),
    {
        cmd_program(make_verb(cad, nid, verb, payload))
    }
}

/// The program that sends an encoded verb and reads the response.
pub fn cmd_program(word: u32) -> (ops: Vec<Op>)
    ensures
        ops@ == cmd_ops(word),
        program_ok(ops@),
{
    let irs = Reg::word(IRS);
    let ops = vec![
        Op::Await(Await {
            at: irs,
            mask: IRS_BUSY as u32,
            set: false,
            limit: Limit::Spins(50),
            pause_us: 1,
            kick: None,
            fault: Some(Fault::IcBusy),
        }),
        Op::Write { at: irs, value: IRS_VALID as u32 },
        Op::Write { at: Reg::dword(IC), value: word },
        Op::Update { at: irs, clear: 0, set: IRS_BUSY as u32 },
        Op::Await(Await {
            at: irs,
            mask: IRS_VALID as u32,
            set: true,
            limit: Limit::Elapsed(PIO_TIMEOUT_NS),
            pause_us: 1,
            kick: None,
            fault: Some(Fault::PioTimeout(word)),
        }),
        Op::Read { at: Reg::dword(IR) },
    ];
    assert(ops@ =~= cmd_ops(word));
    ops
}

/// The program that resets the link and reads which codecs are present.
pub fn reset_link() -> (ops: Vec<Op>)
    ensures
        ops@ == reset_ops(),
        program_ok(ops@),
{
    let gctl = Reg::dword(GCTL);
    let statests = Reg::word(STATESTS);
    let ops = vec![
        Op::WriteIfSet {
            test: gctl,
            mask: GCTL_RESET,
            at: statests,
            value: STATESTS_INT_MASK as u32,
        },
        Op::Update { at: gctl, clear: GCTL_RESET, set: 0 },
        Op::Await(Await {
            at: gctl,
            mask: GCTL_RESET,
            set: false,
            limit: Limit::Elapsed(RESET_TIMEOUT_NS),
            pause_us: 500,
            kick: None,
            fault: Some(Fault::ResetAssert),
        }),
        Op::Pause { us: 500 },
        Op::Update { at: gctl, clear: 0, set: GCTL_RESET },
        Op::Await(Await {
            at: gctl,
            mask: GCTL_RESET,
            set: true,
            limit: Limit::Elapsed(RESET_TIMEOUT_NS),
            pause_us: 500,
            kick: None,
            fault: Some(Fault::ResetRelease),
        }),
        Op::Pause { us: 1000 },
        Op::Read { at: statests },
    ];
    assert(ops@ =~= reset_ops());
    ops
}

/// The operation that clears all pending interrupts.
fn int_clear() -> (op: Op)
    ensures
        seq![op] == int_clear_ops(),
        op_ok(op),
{
    Op::Write { at: Reg::dword(INTSTS), value: 0x7fff_ffff }
}

/// The program of the link stage.
fn link_program(skip_reset: bool) -> (ops: Vec<Op>)
    ensures
        ops@ == link_ops(skip_reset),
        ops@.len() <= 10,
        program_ok(ops@),
{
    let mut ops: Vec<Op> = if skip_reset {
        let irs = Reg::word(IRS);
        let ops = vec![
            Op::Await(Await {
                at: irs,
                mask: IRS_BUSY as u32,
                set: false,
                limit: Limit::Spins(50),
                pause_us: 1,
                kick: Some((irs, IRS_VALID as u32)),
                fault: Some(Fault::IcStuckBusy),
            }),
        ];
        assert(ops@ =~= rearm_ops());
        ops
    } else {
        let mut ops = reset_link();
        ops.push(Op::Read { at: Reg::word(STATESTS) });
        ops
    };
    ops.push(int_clear());
    assert(ops@ =~= link_ops(skip_reset));
    ops
}

// ── Bring-up ──
/// Why bring-up failed.
#[derive(Clone, Copy, Debug, PartialEq, Eq, Structural)]
pub enum OpenError {
    /// The slot has no readable vendor ID.
    NoVendor,
    /// Snooping could not be configured.
    PciSnoop,
    /// Bus mastering could not be enabled.
    PciMaster,
    /// The device advertises no stream in this GCAP value.
    NotHda(u16),
    Link(Fault),
}

/// What bring-up does next.
#[derive(Clone, Copy, Debug, PartialEq, Eq, Structural)]
pub enum OpenAction {
    /// Read so many bytes of PCI configuration space.
    PciRead { off: u64, width: u32 },
    /// Write so many bytes of PCI configuration space.
    PciWrite { off: u64, width: u32, value: u16 },
    /// Access a controller register, or sleep.
    Bar(Action),
    Ready(Controller),
    Failed(OpenError),
}

/// How far bring-up has come: what was last asked for.
#[derive(Clone, Copy, Debug, PartialEq, Eq, Structural)]
pub enum Stage {
    Begin,
    Vendor,
    Device,
    Tcsel,
    TcselWritten,
    Devc,
    DevcWritten,
    Command,
    CommandWritten,
    Gcap,
    Link,
}

/// The state of bring-up.
#[derive(Clone, Copy, Debug, PartialEq, Eq, Structural)]
pub struct OpenState {
    pub stage: Stage,
    pub skip_reset: bool,
    pub vendor: u16,
    pub gcap: u16,
    /// Position in the program of the link stage.
    pub cur: Cursor,
}

/// Whether a GCAP value advertises a capture or a playback stream. All ones is
/// what reads of a missing device give.
pub open spec fn advertises_streams(gcap: u16) -> bool {
    gcap >= 0x100 && gcap != 0xffff
}

/// The low 16 bits.
pub open spec fn low16(v: u32) -> u16 {
    (v % 0x1_0000) as u16
}

/// A step of the link stage.
pub open spec fn link_next(s: OpenState, value: u32, now: u64) -> (OpenState, OpenAction) {
    let (cur, a) = next(link_ops(s.skip_reset), s.cur, value, now);
    let t = OpenState { cur, ..s };
    match a {
        Action::Done(v) => (
            t,
            OpenAction::Ready(
                Controller {
                    codec_mask: if s.skip_reset {
                        1
                    } else {
                        low16(v)
                    },
                    gcap: s.gcap,
                    cad: 0,
                },
            ),
        ),
        Action::Failed(f) => (t, OpenAction::Failed(OpenError::Link(f))),
        _ => (t, OpenAction::Bar(a)),
    }
}

/// One step of bring-up. `reply` is what the last action gave: `None` if it
/// failed, else the value read (any value if it was no read).
pub open spec fn open_next(s: OpenState, reply: Option<u32>, now: u64) -> (OpenState, OpenAction) {
    match s.stage {
        Stage::Begin => (
            OpenState { stage: Stage::Vendor, ..s },
            OpenAction::PciRead { off: PCI_VENDOR_OFF, width: 2 },
        ),
        Stage::Vendor => match reply {
            None => (s, OpenAction::Failed(OpenError::NoVendor)),
            Some(v) => (
                OpenState { stage: Stage::Device, vendor: low16(v), ..s },
                OpenAction::PciRead { off: PCI_DEVICE_OFF, width: 2 },
            ),
        },
        Stage::Device => if reply is None || s.vendor == 0 {
            (s, OpenAction::Failed(OpenError::NoVendor))
        } else {
            (
                OpenState { stage: Stage::Tcsel, ..s },
                OpenAction::PciRead { off: TCSEL_OFF, width: 1 },
            )
        },
        Stage::Tcsel => match reply {
            None => (s, OpenAction::Failed(OpenError::PciSnoop)),
            Some(v) => (
                OpenState { stage: Stage::TcselWritten, ..s },
                OpenAction::PciWrite {
                    off: TCSEL_OFF,
                    width: 1,
                    value: (v % 0x100 - v % 8) as u16,
                },
            ),
        },
        Stage::TcselWritten => if reply is None {
            (s, OpenAction::Failed(OpenError::PciSnoop))
        } else {
            (
                OpenState { stage: Stage::Devc, ..s },
                OpenAction::PciRead { off: DEVC_OFF, width: 2 },
            )
        },
        Stage::Devc => match reply {
            None => (s, OpenAction::Failed(OpenError::PciSnoop)),
            Some(v) => if low16(v) / 0x800 % 2 == 1 {
                (
                    OpenState { stage: Stage::DevcWritten, ..s },
                    OpenAction::PciWrite {
                        off: DEVC_OFF,
                        width: 2,
                        value: (low16(v) - 0x800) as u16,
                    },
                )
            } else {
                (
                    OpenState { stage: Stage::Command, ..s },
                    OpenAction::PciRead { off: PCI_CMD_OFF, width: 2 },
                )
            },
        },
        Stage::DevcWritten => if reply is None {
            (s, OpenAction::Failed(OpenError::PciSnoop))
        } else {
            (
                OpenState { stage: Stage::Command, ..s },
                OpenAction::PciRead { off: PCI_CMD_OFF, width: 2 },
            )
        },
        Stage::Command => match reply {
            None => (s, OpenAction::Failed(OpenError::PciMaster)),
            Some(v) => if master_enabled(low16(v)) {
                (
                    OpenState { stage: Stage::Gcap, ..s },
                    OpenAction::Bar(Action::Read(Reg { off: GCAP, width: 2 })),
                )
            } else {
                (
                    OpenState { stage: Stage::CommandWritten, ..s },
                    OpenAction::PciWrite {
                        off: PCI_CMD_OFF,
                        width: 2,
                        value: (low16(v) - low16(v) / 2 % 4 * 2 + 6) as u16,
                    },
                )
            },
        },
        Stage::CommandWritten => if reply is None {
            (s, OpenAction::Failed(OpenError::PciMaster))
        } else {
            (
                OpenState { stage: Stage::Gcap, ..s },
                OpenAction::Bar(Action::Read(Reg { off: GCAP, width: 2 })),
            )
        },
        Stage::Gcap => {
            let gcap = low16(reply.unwrap_or(0));
            if !advertises_streams(gcap) {
                (
                    OpenState { gcap, ..s },
                    OpenAction::Failed(OpenError::NotHda(gcap)),
                )
            } else {
                link_next(OpenState { stage: Stage::Link, gcap, ..s }, 0, now)
            }
        },
        Stage::Link => link_next(s, reply.unwrap_or(0), now),
    }
}

/// The state that bring-up begins in.
pub open spec fn open_start(skip_reset: bool) -> OpenState {
    OpenState { stage: Stage::Begin, skip_reset, vendor: 0, gcap: 0, cur: cursor_start() }
}

/// A state that bring-up can be in: the link stage is reached only by a
/// device with a vendor ID that advertises streams, and its program has not
/// begun before.
pub open spec fn open_ok(s: OpenState) -> bool {
    &&& super::program::cursor_ok(link_ops(s.skip_reset), s.cur)
    &&& s.stage == Stage::Link ==> advertises_streams(s.gcap) && s.vendor != 0
    &&& s.stage != Stage::Link ==> s.cur == cursor_start()
    &&& s.stage == Stage::Begin || s.stage == Stage::Vendor || s.stage == Stage::Device || s.vendor
        != 0
}

/// Bring-up never leaves the states it can be in, and fences off foreign
/// devices: it writes to a controller register only once the slot has shown a
/// vendor ID and GCAP has shown a stream, and it writes to PCI configuration
/// space only once the slot has shown a vendor ID.
pub proof fn law_fence(s: OpenState, reply: Option<u32>, now: u64)
    requires
        open_ok(s),
    ensures
        ({
            let (t, a) = open_next(s, reply, now);
            &&& open_ok(t)
            &&& a matches OpenAction::Bar(Action::Write(_, _)) ==> advertises_streams(t.gcap)
                && t.vendor != 0
            &&& a is PciWrite ==> t.vendor != 0
            &&& a matches OpenAction::Ready(c) ==> c.gcap == t.gcap && advertises_streams(c.gcap)
        }),
{
    let ops = link_ops(s.skip_reset);
    law_forward(ops, s.cur, reply.unwrap_or(0), now);
    law_forward(ops, s.cur, 0, now);
}

/// Bring-up in progress.
pub struct Opening {
    stage: Stage,
    skip_reset: bool,
    vendor: u16,
    gcap: u16,
    run: Runner,
}

impl Opening {
    /// The state.
    pub closed spec fn state(&self) -> OpenState {
        OpenState {
            stage: self.stage,
            skip_reset: self.skip_reset,
            vendor: self.vendor,
            gcap: self.gcap,
            cur: self.run.cursor(),
        }
    }

    /// The link program belongs to the state.
    pub closed spec fn wf(&self) -> bool {
        self.run.wf() && self.run.ops() == link_ops(self.skip_reset)
    }

    fn new(skip_reset: bool) -> (o: Self)
        ensures
            o.wf(),
            o.state() == open_start(skip_reset),
    {
        let ops = link_program(skip_reset);
        Opening { stage: Stage::Begin, skip_reset, vendor: 0, gcap: 0, run: Runner::new(ops) }
    }

    fn fetch(&mut self, stage: Stage, off: u64, width: u32) -> (a: OpenAction)
        requires
            old(self).wf(),
        ensures
            final(self).wf(),
            final(self).state() == (OpenState { stage, ..old(self).state() }),
            a == (OpenAction::PciRead { off, width }),
    {
        self.stage = stage;
        OpenAction::PciRead { off, width }
    }

    fn link(&mut self, value: u32, now: u64) -> (a: OpenAction)
        requires
            old(self).wf(),
        ensures
            final(self).wf(),
            (final(self).state(), a) == link_next(old(self).state(), value, now),
    {
        match self.run.step(value, now) {
            Action::Done(v) => OpenAction::Ready(
                Controller {
                    codec_mask: if self.skip_reset {
                        1
                    } else {
                        (v % 0x1_0000) as u16
                    },
                    gcap: self.gcap,
                    cad: 0,
                },
            ),
            Action::Failed(f) => OpenAction::Failed(OpenError::Link(f)),
            a => OpenAction::Bar(a),
        }
    }

    /// The next action, given what the last one gave: `None` if it failed,
    /// else the value read.
    pub fn step(&mut self, reply: Option<u32>, now: u64) -> (a: OpenAction)
        requires
            old(self).wf(),
        ensures
            final(self).wf(),
            (final(self).state(), a) == open_next(old(self).state(), reply, now),
    {
        let value: u32 = match reply {
            Some(v) => v,
            None => 0,
        };
        let half: u16 = (value % 0x1_0000) as u16;
        let failed = reply.is_none();
        match self.stage {
            Stage::Begin => self.fetch(Stage::Vendor, PCI_VENDOR_OFF, 2),
            Stage::Vendor => {
                if failed {
                    return OpenAction::Failed(OpenError::NoVendor);
                }
                self.vendor = half;
                self.fetch(Stage::Device, PCI_DEVICE_OFF, 2)
            },
            Stage::Device => {
                if failed || self.vendor == 0 {
                    return OpenAction::Failed(OpenError::NoVendor);
                }
                self.fetch(Stage::Tcsel, TCSEL_OFF, 1)
            },
            Stage::Tcsel => {
                if failed {
                    return OpenAction::Failed(OpenError::PciSnoop);
                }
                self.stage = Stage::TcselWritten;
                let (t, _): (u8, Option<u16>) = set_snoop((value % 0x100) as u8, 0);
                OpenAction::PciWrite { off: TCSEL_OFF, width: 1, value: t as u16 }
            },
            Stage::TcselWritten => {
                if failed {
                    return OpenAction::Failed(OpenError::PciSnoop);
                }
                self.fetch(Stage::Devc, DEVC_OFF, 2)
            },
            Stage::Devc => {
                if failed {
                    return OpenAction::Failed(OpenError::PciSnoop);
                }
                let (_, w): (u8, Option<u16>) = set_snoop(0, half);
                match w {
                    Some(v) => {
                        self.stage = Stage::DevcWritten;
                        OpenAction::PciWrite { off: DEVC_OFF, width: 2, value: v }
                    },
                    None => self.fetch(Stage::Command, PCI_CMD_OFF, 2),
                }
            },
            Stage::DevcWritten => {
                if failed {
                    return OpenAction::Failed(OpenError::PciSnoop);
                }
                self.fetch(Stage::Command, PCI_CMD_OFF, 2)
            },
            Stage::Command => {
                if failed {
                    return OpenAction::Failed(OpenError::PciMaster);
                }
                match set_master(half) {
                    Some(v) => {
                        self.stage = Stage::CommandWritten;
                        OpenAction::PciWrite { off: PCI_CMD_OFF, width: 2, value: v }
                    },
                    None => {
                        self.stage = Stage::Gcap;
                        OpenAction::Bar(Action::Read(Reg::word(GCAP)))
                    },
                }
            },
            Stage::CommandWritten => {
                if failed {
                    return OpenAction::Failed(OpenError::PciMaster);
                }
                self.stage = Stage::Gcap;
                OpenAction::Bar(Action::Read(Reg::word(GCAP)))
            },
            Stage::Gcap => {
                self.gcap = half;
                if half < 0x100 || half == 0xffff {
                    return OpenAction::Failed(OpenError::NotHda(half));
                }
                self.stage = Stage::Link;
                self.link(0, now)
            },
            Stage::Link => self.link(value, now),
        }
    }
}

/// The playback descriptor stands behind those of all capture streams, 32 bytes
/// each, from 0x80 on.
pub proof fn law_descriptor_place(c: Controller, low: int, captures: int, rest: int)
    requires
        0 <= low < 256,
        0 <= captures < 16,
        0 <= rest < 16,
        c.gcap == low + 256 * captures + 4096 * rest,
    ensures
        c.capture_streams_spec() == captures,
        c.sd0_base_spec() == 0x80 + 32 * captures,
{
}

/// An immediate command writes its verb to IC once, after the interface was
/// seen idle and before it is marked busy, and its result is what IR holds once
/// a response was seen; a verb that is not answered is reported.
pub proof fn law_immediate_command(word: u32)
    ensures
        ({
            let ops = cmd_ops(word);
            &&& ops.len() == 6
            &&& ops[0] matches Op::Await(p) && p.at == (Reg { off: 0x68, width: 2 }) && p.mask == 1
                && !p.set && p.fault == Some(Fault::IcBusy) && p.limit == Limit::Spins(50)
                && p.pause_us == 1 && p.kick is None
            &&& ops[1] == (Op::Write { at: Reg { off: 0x68, width: 2 }, value: 2 })
            &&& ops[2] == (Op::Write { at: Reg { off: 0x60, width: 4 }, value: word })
            &&& ops[3] == (Op::Update { at: Reg { off: 0x68, width: 2 }, clear: 0, set: 1 })
            &&& ops[4] matches Op::Await(p) && p.at == (Reg { off: 0x68, width: 2 }) && p.mask == 2
                && p.set && p.fault == Some(Fault::PioTimeout(word)) && p.limit
                == Limit::Elapsed(1_000_001) && p.pause_us == 1 && p.kick is None
            &&& ops[5] == (Op::Read { at: Reg { off: 0x64, width: 4 } })
        }),
{
}

/// A reset takes the link down and sees it down before it brings it up and sees
/// it up, changing only the reset bit of GCTL; only then the codecs are read. A
/// link that does not follow is an error. Bring-up ends by clearing all pending
/// interrupts.
pub proof fn law_link_reset(skip_reset: bool)
    ensures
        ({
            let ops = reset_ops();
            let gctl = Reg { off: 8, width: 4 };
            &&& ops.len() == 8
            &&& ops[0] == (Op::WriteIfSet {
                test: gctl,
                mask: 1,
                at: Reg { off: 0xe, width: 2 },
                value: 0xf,
            })
            &&& ops[3] == (Op::Pause { us: 500 })
            &&& ops[1] == (Op::Update { at: gctl, clear: 1, set: 0 })
            &&& ops[2] matches Op::Await(p) && p.at == gctl && p.mask == 1 && !p.set && p.fault
                == Some(Fault::ResetAssert) && p.limit == Limit::Elapsed(100_000_001) && p.pause_us
                == 500 && p.kick is None
            &&& ops[4] == (Op::Update { at: gctl, clear: 0, set: 1 })
            &&& ops[5] matches Op::Await(p) && p.at == gctl && p.mask == 1 && p.set && p.fault
                == Some(Fault::ResetRelease) && p.limit == Limit::Elapsed(100_000_001) && p.pause_us
                == 500 && p.kick is None
            &&& ops[6] == (Op::Pause { us: 1000 })
            &&& ops[7] == (Op::Read { at: Reg { off: 0xe, width: 2 } })
        }),
        ({
            let ops = link_ops(skip_reset);
            &&& ops.last() == (Op::Write { at: Reg { off: 0x24, width: 4 }, value: 0x7fff_ffff })
            &&& !skip_reset ==> ops.take(8) == reset_ops() && ops[8] == (Op::Read {
                at: Reg { off: 0xe, width: 2 },
            })
            &&& skip_reset ==> ops.len() == 2 && (ops[0] matches Op::Await(p) && p.at == (Reg {
                off: 0x68,
                width: 2,
            }) && p.mask == 1 && !p.set && p.limit == Limit::Spins(50) && p.pause_us == 1 && p.kick
                == Some((Reg { off: 0x68, width: 2 }, 2u32)) && p.fault == Some(Fault::IcStuckBusy))
            &&& !skip_reset ==> ops.len() == 10
        }),
{
    assert(link_ops(false).take(8) =~= reset_ops());
}

/// Bring-up clears the low three bits of TCSEL and leaves the others.
pub proof fn law_tcsel_change(s: OpenState, v: u32, now: u64)
    requires
        v < 0x1_0000,
        s.stage == Stage::Tcsel,
    ensures
        open_next(s, Some(v), now).1 matches OpenAction::PciWrite { off, width, value } && off
            == 0x44 && width == 1 && value % 8 == 0 && value / 8 == v % 256 / 8,
{
}

/// Bring-up clears NOSNOOP where it is set, and leaves the other bits and a
/// register without it as they are.
pub proof fn law_nosnoop_change(s: OpenState, v: u32, now: u64)
    requires
        v < 0x1_0000,
        s.stage == Stage::Devc,
    ensures
        v / 0x800 % 2 == 1 ==> (open_next(s, Some(v), now).1 matches OpenAction::PciWrite {
            off,
            width,
            value,
        } && off == 0x78 && width == 2 && value + 0x800 == v),
        v / 0x800 % 2 == 0 ==> !(open_next(s, Some(v), now).1 is PciWrite) && open_next(
            s,
            Some(v),
            now,
        ).0.stage == Stage::Command,
{
}

/// Bring-up turns on memory space and bus mastering where one is off, and
/// leaves the other bits as they are.
pub proof fn law_master_change(s: OpenState, v: u32, now: u64)
    requires
        v < 0x1_0000,
        s.stage == Stage::Command,
    ensures
        v / 2 % 4 == 3 ==> !(open_next(s, Some(v), now).1 is PciWrite) && open_next(
            s,
            Some(v),
            now,
        ).0.stage == Stage::Gcap,
        v / 2 % 4 != 3 ==> (open_next(s, Some(v), now).1 matches OpenAction::PciWrite {
            off,
            width,
            value,
        } && off == 4 && width == 2 && value / 2 % 4 == 3 && value % 2 == v % 2 && value / 8 == v
            / 8),
{
}

/// The vendor is what the slot says.
pub proof fn law_vendor_is_kept(s: OpenState, v: u32, now: u64)
    requires
        v < 0x1_0000,
        s.stage == Stage::Vendor,
    ensures
        open_next(s, Some(v), now).0.vendor == v,
{
}

/// A step of bring-up that gets no answer ends it, with what it was about.
pub proof fn law_pci_failures(s: OpenState, now: u64)
    ensures
        ({
            let (t, a) = open_next(s, None, now);
            &&& s.stage == Stage::Vendor || s.stage == Stage::Device ==> a == OpenAction::Failed(
                OpenError::NoVendor,
            )
            &&& s.stage == Stage::Tcsel || s.stage == Stage::TcselWritten || s.stage == Stage::Devc
                || s.stage == Stage::DevcWritten ==> a == OpenAction::Failed(OpenError::PciSnoop)
            &&& s.stage == Stage::Command || s.stage == Stage::CommandWritten ==> a
                == OpenAction::Failed(OpenError::PciMaster)
        }),
{
}

/// A controller is taken for one exactly when its GCAP shows a stream and is
/// not all ones, and it is ready with the codecs that were read last; without a
/// reset codec 0 is assumed.
pub proof fn law_bring_up_result(s: OpenState, v: u32, now: u64)
    requires
        open_ok(s),
        v < 0x1_0000,
    ensures
        ({
            let (t, a) = open_next(s, Some(v), now);
            &&& s.stage == Stage::Gcap ==> t.gcap == v && (a is Failed <==> v / 256 == 0 || v
                == 0xffff)
            &&& s.stage == Stage::Gcap && (a is Failed) ==> a == OpenAction::Failed(
                OpenError::NotHda(v as u16),
            )
            &&& a matches OpenAction::Ready(c) ==> s.stage == Stage::Link && c.gcap == s.gcap
                && c.cad == 0 && c.codec_mask == (if s.skip_reset { 1int } else { t.cur.last as int
                % 0x1_0000 })
        }),
{
}

/// Bring-up begins with the identity of the slot, before anything is written,
/// and goes on in order: coherent DMA, bus mastering, GCAP.
pub proof fn law_bring_up_order(skip_reset: bool, v: u32, now: u64)
    ensures
        ({
            let s = open_start(skip_reset);
            let (t, a) = open_next(s, None, now);
            &&& s.skip_reset == skip_reset && t.skip_reset == skip_reset
            &&& a == (OpenAction::PciRead { off: 0, width: 2 }) && t.stage == Stage::Vendor
            &&& open_ok(s) && s.vendor == 0 && s.gcap == 0
        }),
        forall|s: OpenState|
            #![trigger open_next(s, Some(v), now)]
            {
                let (t, a) = open_next(s, Some(v), now);
                &&& t.skip_reset == s.skip_reset
                &&& s.stage == Stage::Vendor ==> a == (OpenAction::PciRead { off: 2, width: 2 })
                    && t.stage == Stage::Device
                &&& s.stage == Stage::Device && s.vendor != 0 ==> a == (OpenAction::PciRead {
                    off: 0x44,
                    width: 1,
                }) && t.stage == Stage::Tcsel
                &&& s.stage == Stage::TcselWritten ==> a == (OpenAction::PciRead {
                    off: 0x78,
                    width: 2,
                }) && t.stage == Stage::Devc
                &&& s.stage == Stage::DevcWritten ==> a == (OpenAction::PciRead {
                    off: 4,
                    width: 2,
                }) && t.stage == Stage::Command
                &&& s.stage == Stage::CommandWritten ==> a == OpenAction::Bar(
                    Action::Read(Reg { off: 0, width: 2 }),
                ) && t.stage == Stage::Gcap
            },
{
}

} // verus!
