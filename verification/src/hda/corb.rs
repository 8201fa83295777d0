//! DMA codec command/response engines: CORB (verbs out) and RIRB (responses
//! in), the default transport for codec verbs.
//!
//! Both rings share one pinned page: CORB at byte 0 (up to 256 entries of 4
//! bytes), RIRB at byte 1024 (up to 256 entries of 8 bytes).
//!
//! Bring-up stops the engines, programs the bases, negotiates the ring sizes,
//! resets the pointers, and enables the RIRB before the CORB, so that no
//! response can land before its buffer is live. Responses are polled from
//! RIRBWP: after reset the controller writes responses starting at entry 1,
//! and WP holds the index of the last written entry.
use super::dbg::CmdEngineKind;
use super::pagemap::{DmaBuffer, PAGE_SIZE};
use super::program::{
    cursor_ok, cursor_start, law_forward, next, program_ok, Action, Await, Cursor, Limit, Op,
    Phase, Reg, Runner,
};
use super::regs::{
    CORBCTL, CORBCTL_RUN, CORBLBASE, CORBRP, CORBRP_RST, CORBSIZE, CORBUBASE, CORBWP, RINTCNT,
    RIRBCTL, RIRBLBASE, RIRBSIZE, RIRBUBASE, RIRBWP, RIRBWP_RST, RIRB_EX_CAD_MASK, RIRB_EX_UNSOL,
    SIZE_16, SIZE_2, SIZE_256, SIZE_CAP_16, SIZE_CAP_2, SIZE_CAP_256,
};
use crate::bytes::{get_u32, le32_at, overwrite, push_u32, u32_le};
use std::collections::VecDeque;
use vstd::prelude::*;

verus! {

/// Nanoseconds after which a response is given up.
pub const TIMEOUT_NS: u64 = 10_000_000;

/// Microseconds between two looks at RIRBWP.
pub const POLL_US: u32 = 10;

/// Byte offset of the RIRB inside the shared DMA page.
pub const RIRB_OFF: usize = 1024;

/// What can go wrong with the rings.
#[derive(Clone, Copy, Debug, PartialEq, Eq, Structural)]
pub enum CorbError {
    /// No advertised ring size reads back.
    Unsupported,
    /// The two rings settled on different sizes.
    SizesDiffer { corb: usize, rirb: usize },
    /// The controller has not consumed up to the write position.
    Full,
    /// RIRBWP names an entry outside the ring.
    BadPointer(usize),
    /// No response came in time.
    Timeout,
}

// ── Size negotiation ──
/// The capability bit, size code and entry count of each ring size, largest
/// first.
pub open spec fn size_choice(k: int) -> (u8, u8, usize) {
    if k == 0 {
        (SIZE_CAP_256, SIZE_256, 256)
    } else if k == 1 {
        (SIZE_CAP_16, SIZE_16, 16)
    } else {
        (SIZE_CAP_2, SIZE_2, 2)
    }
}

/// The first size from the `k`-th on that the controller advertises; 3 if
/// there is none.
pub open spec fn first_size(caps: u8, k: int) -> int
    decreases 3 - k,
{
    if k >= 3 {
        3
    } else if caps & size_choice(k).0 != 0 {
        k
    } else {
        first_size(caps, k + 1)
    }
}

#[derive(Clone, Copy, Debug, PartialEq, Eq, Structural)]
pub enum SizePhase {
    Begin,
    /// The capabilities were asked for.
    Caps,
    /// A size was written.
    Written,
    /// The size was asked back.
    Readback,
}

/// Negotiation of one ring's size.
#[derive(Clone, Copy, Debug, PartialEq, Eq, Structural)]
pub struct SizeState {
    pub phase: SizePhase,
    pub caps: u8,
    pub choice: u32,
}

#[derive(Clone, Copy, Debug, PartialEq, Eq, Structural)]
pub enum SizeAction {
    Bar(Action),
    /// The ring has so many entries.
    Got(usize),
    Unsupported,
}

/// The state that negotiation begins in.
pub open spec fn size_start() -> SizeState {
    SizeState { phase: SizePhase::Begin, caps: 0, choice: 0 }
}

/// Try the sizes from the `k`-th on.
pub open spec fn size_try(reg: Reg, caps: u8, k: int) -> (SizeState, SizeAction) {
    let c = first_size(caps, k);
    let s = SizeState { phase: SizePhase::Written, caps, choice: c as u32 };
    if c >= 3 {
        (s, SizeAction::Unsupported)
    } else {
        (s, SizeAction::Bar(Action::Write(reg, size_choice(c).1 as u32)))
    }
}

/// One step: read the capabilities, write the largest advertised size, read
/// it back, and go on to the next size if that differs.
pub open spec fn size_next(reg: Reg, s: SizeState, value: u32) -> (SizeState, SizeAction) {
    match s.phase {
        SizePhase::Begin => (
            SizeState { phase: SizePhase::Caps, ..s },
            SizeAction::Bar(Action::Read(reg)),
        ),
        SizePhase::Caps => size_try(reg, (value % 0x100) as u8, 0),
        SizePhase::Written => (
            SizeState { phase: SizePhase::Readback, ..s },
            SizeAction::Bar(Action::Read(reg)),
        ),
        SizePhase::Readback => if value % 4 == size_choice(s.choice as int).1 {
            (s, SizeAction::Got(size_choice(s.choice as int).2))
        } else {
            size_try(reg, s.caps, s.choice + 1)
        },
    }
}

/// A size that is being tried is one that the controller advertises.
pub open spec fn size_ok(s: SizeState) -> bool {
    s.phase == SizePhase::Written || s.phase == SizePhase::Readback ==> s.choice < 3 && s.caps
        & size_choice(s.choice as int).0 != 0
}

proof fn lemma_first_size(caps: u8, k: int)
    requires
        0 <= k <= 3,
    ensures
        k <= first_size(caps, k) <= 3,
        first_size(caps, k) < 3 ==> caps & size_choice(first_size(caps, k)).0 != 0,
        forall|j: int| k <= j < first_size(caps, k) ==> caps & size_choice(j).0 == 0,
    decreases 3 - k,
{
    if k < 3 && caps & size_choice(k).0 == 0 {
        lemma_first_size(caps, k + 1);
    }
}

/// A negotiated size was advertised by the controller and read back as
/// written.
pub proof fn law_size_is_advertised(reg: Reg, s: SizeState, value: u32)
    requires
        size_ok(s),
    ensures
        ({
            let (t, a) = size_next(reg, s, value);
            &&& a is Bar ==> size_ok(t)
            &&& a matches SizeAction::Got(n) ==> {
                &&& n == size_choice(s.choice as int).2
                &&& s.caps & size_choice(s.choice as int).0 != 0
                &&& value % 4 == size_choice(s.choice as int).1
            }
        }),
{
    lemma_first_size((value % 0x100) as u8, 0);
    if s.phase == SizePhase::Readback {
        lemma_first_size(s.caps, s.choice + 1);
    }
}

/// On a controller that keeps what is written to it, the first size tried is
/// kept: the largest that it advertises.
pub proof fn law_largest_size_first(reg: Reg, caps: u8)
    ensures
        ({
            let (t, a) = size_next(
                reg,
                SizeState { phase: SizePhase::Caps, ..size_start() },
                caps as u32,
            );
            match a {
                SizeAction::Bar(Action::Write(_, code)) => {
                    &&& code == size_choice(t.choice as int).1
                    &&& caps & size_choice(t.choice as int).0 != 0
                    &&& forall|j: int| 0 <= j < t.choice ==> caps & size_choice(j).0 == 0
                    &&& size_next(reg, SizeState { phase: SizePhase::Readback, ..t }, code).1
                        == SizeAction::Got(size_choice(t.choice as int).2)
                },
                _ => forall|j: int| 0 <= j < 3 ==> caps & #[trigger] size_choice(j).0 == 0,
            }
        }),
{
    lemma_first_size(caps, 0);
}

fn size_entry(k: u32) -> (e: (u8, u8, usize))
    ensures
        e == size_choice(k as int),
{
    if k == 0 {
        (SIZE_CAP_256, SIZE_256, 256)
    } else if k == 1 {
        (SIZE_CAP_16, SIZE_16, 16)
    } else {
        (SIZE_CAP_2, SIZE_2, 2)
    }
}

impl SizeState {
    fn try_from(&mut self, reg: Reg, k: u32) -> (a: SizeAction)
        requires
            k <= 3,
        ensures
            (*final(self), a) == size_try(reg, old(self).caps, k as int),
    {
        let mut c: u32 = k;
        while c < 3 && self.caps & size_entry(c).0 == 0
            invariant
                k <= c <= 3,
                *self == *old(self),
                first_size(self.caps, k as int) == first_size(self.caps, c as int),
            decreases 3 - c,
        {
            c = c + 1;
        }
        self.phase = SizePhase::Written;
        self.choice = c;
        if c >= 3 {
            SizeAction::Unsupported
        } else {
            SizeAction::Bar(Action::Write(reg, size_entry(c).1 as u32))
        }
    }

    /// Program the largest supported ring size and verify that it reads back:
    /// the next step, given what the last read gave.
    fn program_size(&mut self, reg: Reg, value: u32) -> (a: SizeAction)
        requires
            size_ok(*old(self)),
        ensures
            (*final(self), a) == size_next(reg, *old(self), value),
            a is Bar ==> size_ok(*final(self)),
    {
        proof {
            law_size_is_advertised(reg, *self, value);
        }
        match self.phase {
            SizePhase::Begin => {
                self.phase = SizePhase::Caps;
                SizeAction::Bar(Action::Read(reg))
            },
            SizePhase::Caps => {
                self.caps = (value % 0x100) as u8;
                self.try_from(reg, 0)
            },
            SizePhase::Written => {
                self.phase = SizePhase::Readback;
                SizeAction::Bar(Action::Read(reg))
            },
            SizePhase::Readback => {
                let (_, code, n): (u8, u8, usize) = size_entry(self.choice);
                if value % 4 == code as u32 {
                    SizeAction::Got(n)
                } else {
                    self.try_from(reg, self.choice + 1)
                }
            },
        }
    }
}

// ── Bring-up ──
/// The registers of the two size negotiations.
pub open spec fn size_reg(rirb: bool) -> Reg {
    Reg {
        off: if rirb {
            RIRBSIZE
        } else {
            CORBSIZE
        },
        width: 1,
    }
}

/// Stop both engines and give them their rings, which lie at physical address
/// `pa`.
pub open spec fn head_ops(pa: int) -> Seq<Op> {
    seq![
        Op::Write { at: Reg { off: CORBCTL, width: 1 }, value: 0 },
        Op::Write { at: Reg { off: RIRBCTL, width: 1 }, value: 0 },
        Op::Write { at: Reg { off: CORBLBASE, width: 4 }, value: (pa % 0x1_0000_0000) as u32 },
        Op::Write { at: Reg { off: CORBUBASE, width: 4 }, value: (pa / 0x1_0000_0000) as u32 },
        Op::Write {
            at: Reg { off: RIRBLBASE, width: 4 },
            value: ((pa + RIRB_OFF) % 0x1_0000_0000) as u32,
        },
        Op::Write {
            at: Reg { off: RIRBUBASE, width: 4 },
            value: ((pa + RIRB_OFF) / 0x1_0000_0000) as u32,
        },
    ]
}

/// Reset the pointers and start both engines, RIRB first. A CORBRP reset bit
/// that does not latch is passed over.
pub open spec fn tail_ops() -> Seq<Op> {
    seq![
        Op::Write { at: Reg { off: CORBWP, width: 2 }, value: 0 },
        Op::Write { at: Reg { off: CORBRP, width: 2 }, value: CORBRP_RST as u32 },
        Op::Await(
            Await {
                at: Reg { off: CORBRP, width: 2 },
                mask: CORBRP_RST as u32,
                set: true,
                limit: Limit::Elapsed(5_000_000),
                pause_us: 1,
                kick: None,
                fault: None,
            },
        ),
        Op::Write { at: Reg { off: CORBRP, width: 2 }, value: 0 },
        Op::Write { at: Reg { off: RIRBWP, width: 2 }, value: RIRBWP_RST as u32 },
        Op::Write { at: Reg { off: RINTCNT, width: 2 }, value: 1 },
        Op::Write { at: Reg { off: RIRBCTL, width: 1 }, value: 3 },
        Op::Write { at: Reg { off: CORBCTL, width: 1 }, value: CORBCTL_RUN as u32 },
    ]
}

/// Stop both engines.
pub open spec fn shutdown_ops() -> Seq<Op> {
    seq![
        Op::Write { at: Reg { off: CORBCTL, width: 1 }, value: 0 },
        Op::Write { at: Reg { off: RIRBCTL, width: 1 }, value: 0 },
    ]
}

#[derive(Clone, Copy, Debug, PartialEq, Eq, Structural)]
pub enum InitStage {
    Head,
    CorbSize,
    RirbSize,
    Tail,
}

/// The state of ring bring-up.
#[derive(Clone, Copy, Debug, PartialEq, Eq, Structural)]
pub struct InitState {
    pub stage: InitStage,
    /// Position in the program of the first or last stage.
    pub cur: Cursor,
    pub size: SizeState,
    /// Entries of the CORB, once known.
    pub count: usize,
}

#[derive(Clone, Copy, Debug, PartialEq, Eq, Structural)]
pub enum InitAction {
    Bar(Action),
    /// Both rings are running, with so many entries each.
    Ready(usize),
    Failed(CorbError),
}

/// The state that ring bring-up begins in.
pub open spec fn init_start() -> InitState {
    InitState {
        stage: InitStage::Head,
        cur: cursor_start(),
        size: size_start(),
        count: 0,
    }
}

/// A step of the last stage.
pub open spec fn tail_next(s: InitState, value: u32, now: u64) -> (InitState, InitAction) {
    let (cur, a) = next(tail_ops(), s.cur, value, now);
    let t = InitState { cur, ..s };
    match a {
        Action::Done(_) => (t, InitAction::Ready(s.count)),
        _ => (t, InitAction::Bar(a)),
    }
}

/// A step of the RIRB's size negotiation.
pub open spec fn rirb_next(s: InitState, value: u32, now: u64) -> (InitState, InitAction) {
    let (size, a) = size_next(size_reg(true), s.size, value);
    let t = InitState { size, ..s };
    match a {
        SizeAction::Bar(x) => (t, InitAction::Bar(x)),
        SizeAction::Unsupported => (t, InitAction::Failed(CorbError::Unsupported)),
        SizeAction::Got(n) => if n != s.count {
            (t, InitAction::Failed(CorbError::SizesDiffer { corb: s.count, rirb: n }))
        } else {
            tail_next(
                InitState { stage: InitStage::Tail, cur: cursor_start(), ..t },
                value,
                now,
            )
        },
    }
}

/// A step of the CORB's size negotiation.
pub open spec fn corb_next(s: InitState, value: u32, now: u64) -> (InitState, InitAction) {
    let (size, a) = size_next(size_reg(false), s.size, value);
    let t = InitState { size, ..s };
    match a {
        SizeAction::Bar(x) => (t, InitAction::Bar(x)),
        SizeAction::Unsupported => (t, InitAction::Failed(CorbError::Unsupported)),
        SizeAction::Got(n) => rirb_next(
            InitState { stage: InitStage::RirbSize, size: size_start(), count: n, ..t },
            value,
            now,
        ),
    }
}

/// One step of ring bring-up.
pub open spec fn init_next(pa: int, s: InitState, value: u32, now: u64) -> (InitState, InitAction) {
    match s.stage {
        InitStage::Head => {
            let (cur, a) = next(head_ops(pa), s.cur, value, now);
            let t = InitState { cur, ..s };
            match a {
                Action::Done(_) => corb_next(
                    InitState { stage: InitStage::CorbSize, ..t },
                    value,
                    now,
                ),
                _ => (t, InitAction::Bar(a)),
            }
        },
        InitStage::CorbSize => corb_next(s, value, now),
        InitStage::RirbSize => rirb_next(s, value, now),
        InitStage::Tail => tail_next(s, value, now),
    }
}

/// Whether a ring can have so many entries.
pub open spec fn ring_count(n: int) -> bool {
    n == 2 || n == 16 || n == 256
}

/// A state that ring bring-up can be in.
pub open spec fn init_ok(pa: int, s: InitState) -> bool {
    &&& s.stage == InitStage::Head ==> cursor_ok(head_ops(pa), s.cur) && s.size == size_start()
    &&& s.stage == InitStage::Tail ==> cursor_ok(tail_ops(), s.cur)
    &&& s.stage == InitStage::CorbSize || s.stage == InitStage::RirbSize ==> size_ok(s.size)
    &&& s.stage == InitStage::RirbSize || s.stage == InitStage::Tail ==> ring_count(s.count as int)
}

/// Ring bring-up stays in states it can be in while it goes on, ends only with
/// a size that a ring can have, and never fails on a register poll.
pub proof fn law_init(pa: int, s: InitState, value: u32, now: u64)
    requires
        init_ok(pa, s),
    ensures
        ({
            let (t, a) = init_next(pa, s, value, now);
            &&& a is Bar ==> init_ok(pa, t)
            &&& a matches InitAction::Bar(x) ==> !(x is Failed) && !(x is Done)
            &&& a matches InitAction::Ready(n) ==> ring_count(n as int) && t.stage
                == InitStage::Tail
        }),
{
    law_forward(tail_ops(), cursor_start(), value, now);
    law_size_is_advertised(size_reg(false), size_start(), value);
    law_size_is_advertised(size_reg(true), size_start(), value);
    match s.stage {
        InitStage::Head => law_forward(head_ops(pa), s.cur, value, now),
        InitStage::CorbSize => law_size_is_advertised(size_reg(false), s.size, value),
        InitStage::RirbSize => law_size_is_advertised(size_reg(true), s.size, value),
        InitStage::Tail => law_forward(tail_ops(), s.cur, value, now),
    }
}

/// Ring bring-up in progress.
pub struct CorbInit {
    pa: u64,
    stage: InitStage,
    head: Runner,
    tail: Runner,
    size: SizeState,
    count: usize,
}

impl CorbInit {
    /// Physical address of the rings.
    pub closed spec fn pa(&self) -> int {
        self.pa as int
    }

    /// The state.
    pub closed spec fn state(&self) -> InitState {
        InitState {
            stage: self.stage,
            cur: if self.stage == InitStage::Tail {
                self.tail.cursor()
            } else {
                self.head.cursor()
            },
            size: self.size,
            count: self.count,
        }
    }

    /// The programs belong to the state.
    pub closed spec fn wf(&self) -> bool {
        &&& self.head.wf()
        &&& self.tail.wf()
        &&& self.head.ops() == head_ops(self.pa as int)
        &&& self.tail.ops() == tail_ops()
        &&& self.stage != InitStage::Tail ==> self.tail.cursor() == cursor_start()
        &&& init_ok(self.pa(), self.state())
    }

    fn tail_step(&mut self, value: u32, now: u64) -> (a: InitAction)
        requires
            old(self).tail.wf(),
            old(self).tail.ops() == tail_ops(),
            old(self).stage == InitStage::Tail,
        ensures
            final(self).pa == old(self).pa,
            final(self).head == old(self).head,
            final(self).stage == old(self).stage,
            final(self).tail.wf(),
            final(self).tail.ops() == tail_ops(),
            (final(self).state(), a) == tail_next(old(self).state(), value, now),
    {
        match self.tail.step(value, now) {
            Action::Done(_) => InitAction::Ready(self.count),
            a => InitAction::Bar(a),
        }
    }

    fn rirb_step(&mut self, value: u32, now: u64) -> (a: InitAction)
        requires
            old(self).tail.wf(),
            old(self).tail.ops() == tail_ops(),
            old(self).stage == InitStage::RirbSize,
            old(self).tail.cursor() == cursor_start(),
            size_ok(old(self).size),
        ensures
            final(self).pa == old(self).pa,
            final(self).head == old(self).head,
            final(self).stage != InitStage::Tail ==> final(self).tail.cursor() == cursor_start(),
            final(self).tail.wf(),
            final(self).tail.ops() == tail_ops(),
            (final(self).state(), a) == rirb_next(old(self).state(), value, now),
    {
        match self.size.program_size(Reg::byte(RIRBSIZE), value) {
            SizeAction::Bar(x) => InitAction::Bar(x),
            SizeAction::Unsupported => InitAction::Failed(CorbError::Unsupported),
            SizeAction::Got(n) => {
                if n != self.count {
                    InitAction::Failed(CorbError::SizesDiffer { corb: self.count, rirb: n })
                } else {
                    self.stage = InitStage::Tail;
                    self.tail_step(value, now)
                }
            },
        }
    }

    fn corb_step(&mut self, value: u32, now: u64) -> (a: InitAction)
        requires
            old(self).tail.wf(),
            old(self).tail.ops() == tail_ops(),
            old(self).stage == InitStage::CorbSize,
            old(self).tail.cursor() == cursor_start(),
            size_ok(old(self).size),
        ensures
            final(self).pa == old(self).pa,
            final(self).head == old(self).head,
            final(self).stage != InitStage::Tail ==> final(self).tail.cursor() == cursor_start(),
            final(self).tail.wf(),
            final(self).tail.ops() == tail_ops(),
            (final(self).state(), a) == corb_next(old(self).state(), value, now),
    {
        match self.size.program_size(Reg::byte(CORBSIZE), value) {
            SizeAction::Bar(x) => InitAction::Bar(x),
            SizeAction::Unsupported => InitAction::Failed(CorbError::Unsupported),
            SizeAction::Got(n) => {
                self.stage = InitStage::RirbSize;
                self.size = SizeState { phase: SizePhase::Begin, caps: 0, choice: 0 };
                self.count = n;
                self.rirb_step(value, now)
            },
        }
    }

    /// The next action, given what the last read gave and the time in
    /// nanoseconds.
    pub fn step(&mut self, value: u32, now: u64) -> (a: InitAction)
        requires
            old(self).wf(),
        ensures
            a is Bar ==> final(self).wf(),
            final(self).pa() == old(self).pa(),
            (final(self).state(), a) == init_next(old(self).pa(), old(self).state(), value, now),
            a matches InitAction::Ready(n) ==> ring_count(n as int),
    {
        proof {
            law_init(self.pa(), self.state(), value, now);
        }
        match self.stage {
            InitStage::Head => match self.head.step(value, now) {
                Action::Done(_) => {
                    self.stage = InitStage::CorbSize;
                    self.corb_step(value, now)
                },
                a => InitAction::Bar(a),
            },
            InitStage::CorbSize => self.corb_step(value, now),
            InitStage::RirbSize => self.rirb_step(value, now),
            InitStage::Tail => self.tail_step(value, now),
        }
    }
}

// ── Responses ──
/// Routing verdict for one drained RIRB entry.
#[derive(Clone, Copy, Debug, PartialEq, Eq, Structural)]
pub enum Route {
    /// Response to our own command.
    Solicited(u32),
    /// Codec-initiated event (unsolicited bit set).
    Unsolicited(u32, u32),
    /// Solicited, but from another codec address.
    Foreign(u32, u32),
}

/// The verdict on an entry: the unsolicited flag is bit 4 of the second word,
/// the codec address its low four bits.
pub open spec fn route(resp: u32, ex: u32, cad: u32) -> Route {
    if ex / 16 % 2 == 1 {
        Route::Unsolicited(resp, ex)
    } else if ex % 16 != cad {
        Route::Foreign((ex % 16) as u32, resp)
    } else {
        Route::Solicited(resp)
    }
}

/// Decide what an entry is to whoever waits for codec `cad`.
pub fn route_entry(resp: u32, ex: u32, cad: u32) -> (r: Route)
    ensures
        r == route(resp, ex, cad),
{
    assert(ex & 0xf == ex % 16) by (bit_vector);
    assert((ex & 0x10 != 0) <==> ex / 16 % 2 == 1) by (bit_vector);
    let seen: u32 = ex & RIRB_EX_CAD_MASK;
    if ex & RIRB_EX_UNSOL != 0 {
        Route::Unsolicited(resp, ex)
    } else if seen != cad {
        Route::Foreign(seen, resp)
    } else {
        Route::Solicited(resp)
    }
}

/// How many entries lie between the software read pointer (exclusive) and the
/// hardware write pointer (inclusive).
pub open spec fn drain_len(sw_rp: int, hw_wp: int, count: int) -> int {
    if sw_rp == hw_wp {
        0
    } else {
        (hw_wp - sw_rp - 1) % count + 1
    }
}

/// The ring index of the `i`-th of those entries.
pub open spec fn drain_index(sw_rp: int, count: int, i: int) -> int {
    (sw_rp + 1 + i) % count
}

proof fn lemma_drain_step(rp: int, hw_wp: int, count: int)
    requires
        0 <= rp,
        0 <= hw_wp < count,
        rp != hw_wp,
    ensures
        drain_len(rp, hw_wp, count) == 1 + drain_len((rp + 1) % count, hw_wp, count),
        0 <= (rp + 1) % count < count,
        forall|i: int|
            0 <= i ==> #[trigger] drain_index(rp, count, i + 1) == drain_index(
                (rp + 1) % count,
                count,
                i,
            ),
{
    let q = (rp + 1) % count;
    vstd::arithmetic::div_mod::lemma_fundamental_div_mod(rp + 1, count);
    let k = (rp + 1) / count;
    // hw_wp - rp - 1 and hw_wp - q differ by a multiple of the ring.
    vstd::arithmetic::mul::lemma_mul_is_commutative(count, k);
    vstd::arithmetic::div_mod::lemma_mod_multiples_vanish(-k, hw_wp - q, count);
    assert(count * (-k) == -(count * k)) by (nonlinear_arith);
    assert((hw_wp - rp - 1) % count == (hw_wp - q) % count);
    if q == hw_wp {
        vstd::arithmetic::div_mod::lemma_small_mod(0, count as nat);
    } else if q < hw_wp {
        vstd::arithmetic::div_mod::lemma_small_mod((hw_wp - q) as nat, count as nat);
        vstd::arithmetic::div_mod::lemma_small_mod((hw_wp - q - 1) as nat, count as nat);
    } else {
        vstd::arithmetic::div_mod::lemma_mod_add_multiples_vanish(hw_wp - q, count);
        vstd::arithmetic::div_mod::lemma_mod_add_multiples_vanish(hw_wp - q - 1, count);
        vstd::arithmetic::div_mod::lemma_small_mod((hw_wp - q + count) as nat, count as nat);
        vstd::arithmetic::div_mod::lemma_small_mod((hw_wp - q - 1 + count) as nat, count as nat);
    }
    assert forall|i: int| 0 <= i implies #[trigger] drain_index(rp, count, i + 1) == drain_index(
        q,
        count,
        i,
    ) by {
        vstd::arithmetic::div_mod::lemma_add_mod_noop(rp + 1, i + 1, count);
        vstd::arithmetic::div_mod::lemma_add_mod_noop(q, i + 1, count);
        vstd::arithmetic::div_mod::lemma_mod_twice(rp + 1, count);
    }
}

/// Collect the entries between the software read pointer (exclusive) and the
/// hardware write pointer (inclusive) from a ring accessed through `read`,
/// wrapping at `count`. The first response after a reset lands in entry 1.
pub fn collect_entries(
    read: impl Fn(usize) -> (u32, u32),
    sw_rp: usize,
    hw_wp: usize,
    count: usize,
) -> (out: Vec<(u32, u32)>)
    requires
        hw_wp < count,
        sw_rp < usize::MAX,
        forall|i: int|
            0 <= i < drain_len(sw_rp as int, hw_wp as int, count as int) ==> call_requires(
                read,
                (#[trigger] drain_index(sw_rp as int, count as int, i) as usize,),
            ),
    ensures
        out@.len() == drain_len(sw_rp as int, hw_wp as int, count as int),
        forall|i: int|
            0 <= i < out@.len() ==> call_ensures(
                read,
                (drain_index(sw_rp as int, count as int, i) as usize,),
                #[trigger] out@[i],
            ),
{
    let mut out: Vec<(u32, u32)> = Vec::new();
    let mut rp: usize = sw_rp;
    while rp != hw_wp
        invariant
            hw_wp < count,
            rp < usize::MAX,
            forall|i: int|
                0 <= i < drain_len(sw_rp as int, hw_wp as int, count as int) ==> call_requires(
                    read,
                    (#[trigger] drain_index(sw_rp as int, count as int, i) as usize,),
                ),
            out@.len() + drain_len(rp as int, hw_wp as int, count as int) == drain_len(
                sw_rp as int,
                hw_wp as int,
                count as int,
            ),
            forall|i: int|
                0 <= i < out@.len() ==> call_ensures(
                    read,
                    (drain_index(sw_rp as int, count as int, i) as usize,),
                    #[trigger] out@[i],
                ),
            forall|i: int|
                0 <= i ==> #[trigger] drain_index(rp as int, count as int, i) == drain_index(
                    sw_rp as int,
                    count as int,
                    out@.len() + i,
                ),
        decreases drain_len(rp as int, hw_wp as int, count as int),
    {
        proof {
            lemma_drain_step(rp as int, hw_wp as int, count as int);
            assert(drain_index(rp as int, count as int, 0) == drain_index(
                sw_rp as int,
                count as int,
                out@.len() + 0int,
            ));
        }
        let ghost before = rp as int;
        let ghost seen = out@.len();
        rp = (rp + 1) % count;
        out.push(read(rp));
        proof {
            assert forall|i: int| 0 <= i implies #[trigger] drain_index(
                rp as int,
                count as int,
                i,
            ) == drain_index(sw_rp as int, count as int, out@.len() + i) by {
                assert(drain_index(before, count as int, i + 1) == drain_index(
                    sw_rp as int,
                    count as int,
                    seen + (i + 1),
                ));
            }
        }
    }
    out
}

/// The RIRB entry `idx` in the shared page.
pub open spec fn entry_at(mem: Seq<u8>, idx: int) -> (u32, u32) {
    (
        le32_at(mem, RIRB_OFF + idx * 8) as u32,
        le32_at(mem, RIRB_OFF + idx * 8 + 4) as u32,
    )
}

/// The entries that arrived since the ring was last read, in arrival order.
pub open spec fn arrived(mem: Seq<u8>, sw_rp: int, hw_wp: int, count: int) -> Seq<(u32, u32)> {
    Seq::new(
        drain_len(sw_rp, hw_wp, count) as nat,
        |i: int| entry_at(mem, drain_index(sw_rp, count, i)),
    )
}

/// The responses among `entries` that answer commands to codec `cad`.
pub open spec fn solicited(entries: Seq<(u32, u32)>, cad: u32) -> Seq<u32>
    decreases entries.len(),
{
    if entries.len() == 0 {
        Seq::empty()
    } else {
        let before = solicited(entries.drop_last(), cad);
        match route(entries.last().0, entries.last().1, cad) {
            Route::Solicited(r) => before.push(r),
            _ => before,
        }
    }
}

/// Outcome of one look at the RIRB.
#[derive(Clone, Copy, Debug, PartialEq, Eq, Structural)]
pub enum Wait {
    Response(u32),
    /// Nothing for us yet: look again after a pause.
    Again,
    Failed(CorbError),
}

/// What software knows of the RIRB: the last entry that was read, and the
/// responses waiting to be handed out, oldest first.
pub ghost struct RirbView {
    pub read_ptr: int,
    pub queue: Seq<u32>,
}

/// A look at the RIRB while its write pointer is `wp`: the oldest response, if
/// there is one. The ring is read only when nothing is queued, and only where
/// the pointer lies in it.
pub open spec fn looked(v: RirbView, mem: Seq<u8>, wp: int, count: int, cad: u32) -> (
    RirbView,
    Option<u32>,
) {
    if v.queue.len() > 0 {
        (RirbView { queue: v.queue.skip(1), ..v }, Some(v.queue[0]))
    } else if wp >= count {
        (v, None)
    } else {
        let fresh = solicited(arrived(mem, v.read_ptr, wp, count), cad);
        if fresh.len() > 0 {
            (RirbView { read_ptr: wp, queue: fresh.skip(1) }, Some(fresh[0]))
        } else {
            (RirbView { read_ptr: wp, queue: Seq::empty() }, None)
        }
    }
}

/// A live CORB/RIRB pair sharing one pinned DMA page.
pub struct CorbRing {
    rb: DmaBuffer,
    /// Entries of either ring.
    count: usize,
    /// Software read pointer into the RIRB (hardware exposes only WP).
    sw_rp: usize,
    /// Solicited responses drained from the RIRB but not yet consumed.
    pending: VecDeque<u32>,
}

impl View for CorbRing {
    type V = RirbView;

    open spec fn view(&self) -> RirbView {
        RirbView { read_ptr: self.read_ptr(), queue: self.queue() }
    }
}

impl CorbRing {
    /// The shared page.
    pub closed spec fn buffer(&self) -> DmaBuffer {
        self.rb
    }

    /// Entries of either ring.
    pub closed spec fn count_spec(&self) -> int {
        self.count as int
    }

    /// The last RIRB entry that was read.
    pub closed spec fn read_ptr(&self) -> int {
        self.sw_rp as int
    }

    /// Responses waiting to be consumed, oldest first.
    pub closed spec fn queue(&self) -> Seq<u32> {
        self.pending@
    }

    /// The page is one page, the size is one a ring can have, and the read
    /// pointer lies in the ring.
    pub open spec fn wf(&self) -> bool {
        &&& self.buffer().wf()
        &&& self.buffer().len_spec() == PAGE_SIZE
        &&& ring_count(self.count_spec())
        &&& 0 <= self.read_ptr() < self.count_spec()
    }

    /// Begin ring bring-up on a page of zeroed DMA memory: stop, reprogram
    /// and restart both rings, whatever state they were left in.
    pub fn init(rb: &DmaBuffer) -> (i: CorbInit)
        requires
            rb.wf(),
            rb.len_spec() == PAGE_SIZE,
        ensures
            i.wf(),
            i.pa() == rb.addr(0),
            i.state() == init_start(),
    {
        let pa: u64 = rb.toaddr(0);
        let rirb: u64 = rb.toaddr(RIRB_OFF);
        let head = vec![
            Op::Write { at: Reg::byte(CORBCTL), value: 0 },
            Op::Write { at: Reg::byte(RIRBCTL), value: 0 },
            Op::Write { at: Reg::dword(CORBLBASE), value: (pa % 0x1_0000_0000) as u32 },
            Op::Write { at: Reg::dword(CORBUBASE), value: (pa / 0x1_0000_0000) as u32 },
            Op::Write { at: Reg::dword(RIRBLBASE), value: (rirb % 0x1_0000_0000) as u32 },
            Op::Write { at: Reg::dword(RIRBUBASE), value: (rirb / 0x1_0000_0000) as u32 },
        ];
        let tail = vec![
            Op::Write { at: Reg::word(CORBWP), value: 0 },
            Op::Write { at: Reg::word(CORBRP), value: CORBRP_RST as u32 },
            Op::Await(Await {
                at: Reg::word(CORBRP),
                mask: CORBRP_RST as u32,
                set: true,
                limit: Limit::Elapsed(5_000_000),
                pause_us: 1,
                kick: None,
                fault: None,
            }),
            Op::Write { at: Reg::word(CORBRP), value: 0 },
            Op::Write { at: Reg::word(RIRBWP), value: RIRBWP_RST as u32 },
            Op::Write { at: Reg::word(RINTCNT), value: 1 },
            Op::Write { at: Reg::byte(RIRBCTL), value: 3 },
            Op::Write { at: Reg::byte(CORBCTL), value: CORBCTL_RUN as u32 },
        ];
        assert(head@ =~= head_ops(pa as int));
        assert(tail@ =~= tail_ops());
        CorbInit {
            pa,
            stage: InitStage::Head,
            head: Runner::new(head),
            tail: Runner::new(tail),
            size: SizeState { phase: SizePhase::Begin, caps: 0, choice: 0 },
            count: 0,
        }
    }

    /// The rings that bring-up has started, with `count` entries each.
    pub fn live(rb: DmaBuffer, count: usize) -> (r: Self)
        requires
            rb.wf(),
            rb.len_spec() == PAGE_SIZE,
            ring_count(count as int),
        ensures
            r.wf(),
            r.buffer() == rb,
            r.count_spec() == count,
            r.read_ptr() == 0,
            r.queue() == Seq::<u32>::empty(),
    {
        CorbRing { rb, count, sw_rp: 0, pending: VecDeque::new() }
    }

    /// Put one verb into the CORB, given what CORBWP and CORBRP hold. Gives
    /// the value to write to CORBWP, which publishes the verb.
    pub fn send(&self, mem: &mut [u8], wp_raw: u16, rp_raw: u16, cmdword: u32) -> (r: Result<
        u16,
        CorbError,
    >)
        requires
            self.wf(),
            old(mem)@.len() == PAGE_SIZE,
        ensures
            ({
                let wp = wp_raw as int % 256 % self.count_spec();
                let rp = rp_raw as int % 256 % self.count_spec();
                let slot = (wp + 1) % self.count_spec();
                if slot == rp {
                    &&& r == Err::<u16, CorbError>(CorbError::Full)
                    &&& final(mem)@ == old(mem)@
                } else {
                    &&& r == Ok::<u16, CorbError>(slot as u16)
                    &&& final(mem)@ == overwrite(old(mem)@, slot * 4, u32_le(cmdword))
                }
            }),
    {
        let wp: usize = (wp_raw % 256) as usize % self.count;
        let rp: usize = (rp_raw % 256) as usize % self.count;
        let slot: usize = (wp + 1) % self.count;
        if slot == rp {
            return Err(CorbError::Full);
        }
        let mut word: Vec<u8> = Vec::new();
        push_u32(&mut word, cmdword);
        assert(word@ =~= u32_le(cmdword));
        self.rb.write(mem, slot * 4, word.as_slice());
        Ok(slot as u16)
    }

    /// One look at the RIRB for the response to the verb last sent to codec
    /// `cad`, given what RIRBWP holds, the time, and when to give up. Extra
    /// solicited responses are queued in arrival order, and handed out before
    /// the ring is read again; unsolicited entries and those of other codecs
    /// are skipped.
    pub fn wait_response(
        &mut self,
        mem: &[u8],
        wp_raw: u16,
        cad: u32,
        now: u64,
        deadline: u64,
    ) -> (w: Wait)
        requires
            old(self).wf(),
            mem@.len() == PAGE_SIZE,
        ensures
            final(self).wf(),
            final(self).buffer() == old(self).buffer(),
            final(self).count_spec() == old(self).count_spec(),
            ({
                let wp = wp_raw as int % 256;
                let (v, r) = looked(old(self)@, mem@, wp, old(self).count_spec(), cad);
                &&& final(self)@ == v
                &&& w == match r {
                    Some(resp) => Wait::Response(resp),
                    None => if wp >= old(self).count_spec() {
                        Wait::Failed(CorbError::BadPointer(wp as usize))
                    } else if now >= deadline {
                        Wait::Failed(CorbError::Timeout)
                    } else {
                        Wait::Again
                    },
                }
            }),
    {
        let ghost before = self.pending@;
        match self.pending.pop_front() {
            Some(r) => {
                assert(self.pending@ =~= before.skip(1));
                return Wait::Response(r);
            },
            None => {},
        }
        assert(before =~= Seq::empty());
        let hw_wp: usize = (wp_raw % 256) as usize;
        if hw_wp >= self.count {
            return Wait::Failed(CorbError::BadPointer(hw_wp));
        }
        let ghost rp = self.sw_rp as int;
        let ghost count = self.count as int;
        assert(arrived(mem@, rp, rp, count) =~= Seq::empty());
        if hw_wp != self.sw_rp {
            let read = |idx: usize| -> (e: (u32, u32))
                requires
                    idx < 256,
                    mem@.len() == PAGE_SIZE,
                ensures
                    e == entry_at(mem@, idx as int),
                {
                    assert(RIRB_OFF + idx * 8 + 8 <= mem.len());
                    (get_u32(mem, RIRB_OFF + idx * 8), get_u32(mem, RIRB_OFF + idx * 8 + 4))
                };
            let entries = collect_entries(read, self.sw_rp, hw_wp, self.count);
            let ghost all = arrived(mem@, rp, hw_wp as int, count);
            proof {
                assert forall|i: int| 0 <= i < entries@.len() implies entries@[i] == all[i] by {
                    assert(call_ensures(
                        read,
                        (drain_index(rp, count, i) as usize,),
                        entries@[i],
                    ));
                }
                assert(entries@ =~= all);
            }
            self.sw_rp = hw_wp;
            let mut i: usize = 0;
            assert(entries@.take(0) =~= Seq::empty());
            while i < entries.len()
                invariant
                    i <= entries@.len(),
                    self.rb == old(self).rb,
                    self.count == old(self).count,
                    self.sw_rp == hw_wp,
                    self.pending@ == solicited(entries@.take(i as int), cad),
                decreases entries@.len() - i,
            {
                let (resp, ex): (u32, u32) = entries[i];
                assert(entries@.take(i + 1).drop_last() =~= entries@.take(i as int));
                match route_entry(resp, ex, cad) {
                    Route::Solicited(r) => {
                        self.pending.push_back(r);
                    },
                    _ => {},
                }
                i = i + 1;
                assert(self.pending@ =~= solicited(entries@.take(i as int), cad));
            }
            assert(entries@.take(i as int) =~= all);
            let ghost queued = self.pending@;
            match self.pending.pop_front() {
                Some(r) => {
                    assert(self.pending@ =~= queued.skip(1));
                    return Wait::Response(r);
                },
                None => {},
            }
        }
        assert(self@.queue =~= Seq::empty());
        if now >= deadline {
            Wait::Failed(CorbError::Timeout)
        } else {
            Wait::Again
        }
    }

    /// The program that stops both engines.
    pub fn shutdown(&self) -> (ops: Vec<Op>)
        ensures
            ops@ == shutdown_ops(),
            program_ok(ops@),
    {
        let ops = vec![
            Op::Write { at: Reg::byte(CORBCTL), value: 0 },
            Op::Write { at: Reg::byte(RIRBCTL), value: 0 },
        ];
        assert(ops@ =~= shutdown_ops());
        ops
    }
}

/// Reading the RIRB in two steps, first up to entry `mid`, finds the same
/// responses as reading it in one: none is lost, none is seen twice.
pub proof fn law_no_response_lost(
    mem: Seq<u8>,
    sw_rp: int,
    mid: int,
    hw_wp: int,
    count: int,
    cad: u32,
)
    requires
        0 < count,
        0 <= sw_rp < count,
        0 <= mid < count,
        0 <= hw_wp < count,
        drain_len(sw_rp, mid, count) <= drain_len(sw_rp, hw_wp, count),
    ensures
        arrived(mem, sw_rp, hw_wp, count) == arrived(mem, sw_rp, mid, count) + arrived(
            mem,
            mid,
            hw_wp,
            count,
        ),
        solicited(arrived(mem, sw_rp, hw_wp, count), cad) == solicited(
            arrived(mem, sw_rp, mid, count),
            cad,
        ) + solicited(arrived(mem, mid, hw_wp, count), cad),
{
    lemma_drain_len_between(sw_rp, mid, count);
    lemma_drain_len_between(sw_rp, hw_wp, count);
    lemma_drain_len_between(mid, hw_wp, count);
    let a = arrived(mem, sw_rp, mid, count);
    let b = arrived(mem, mid, hw_wp, count);
    assert forall|i: int| 0 <= i < b.len() implies drain_index(mid, count, i) == drain_index(
        sw_rp,
        count,
        a.len() + i,
    ) by {
        let n = sw_rp + a.len();
        // mid is n, or n less one turn of the ring.
        if mid != n {
            vstd::arithmetic::div_mod::lemma_mod_add_multiples_vanish(mid + 1 + i, count);
        }
    }
    assert(arrived(mem, sw_rp, hw_wp, count) =~= a + b);
    lemma_solicited_concat(a, b, cad);
}

proof fn lemma_drain_len_between(rp: int, wp: int, count: int)
    requires
        0 < count,
        0 <= rp < count,
        0 <= wp < count,
    ensures
        drain_len(rp, wp, count) == if rp <= wp {
            wp - rp
        } else {
            wp - rp + count
        },
{
    if rp < wp {
        vstd::arithmetic::div_mod::lemma_small_mod((wp - rp - 1) as nat, count as nat);
    } else if wp < rp {
        vstd::arithmetic::div_mod::lemma_mod_add_multiples_vanish(wp - rp - 1, count);
        vstd::arithmetic::div_mod::lemma_small_mod((wp - rp - 1 + count) as nat, count as nat);
    }
}

proof fn lemma_solicited_concat(a: Seq<(u32, u32)>, b: Seq<(u32, u32)>, cad: u32)
    ensures
        solicited(a + b, cad) == solicited(a, cad) + solicited(b, cad),
    decreases b.len(),
{
    if b.len() == 0 {
        assert(a + b =~= a);
        assert(solicited(a, cad) =~= solicited(a, cad) + solicited(b, cad));
    } else {
        assert((a + b).drop_last() =~= a + b.drop_last());
        lemma_solicited_concat(a, b.drop_last(), cad);
        assert(solicited(a + b, cad) =~= solicited(a, cad) + solicited(b, cad));
    }
}

// ── Successive looks ──
/// A look at the RIRB: the memory at that time, and how many entries the
/// hardware has written since the rings were started.
pub ghost struct Look {
    pub mem: Seq<u8>,
    pub written: int,
}

/// Whether a look shows what arrived: of all the entries in `log`, those behind
/// the first `read` stand in the ring, which they have not filled.
pub open spec fn shows(l: Look, log: Seq<(u32, u32)>, read: int, count: int) -> bool {
    &&& read <= l.written <= log.len()
    &&& l.written - read < count
    &&& forall|k: int|
        read <= k < l.written ==> entry_at(l.mem, (k + 1) % count) == #[trigger] log[k]
}

/// One of several looks.
pub open spec fn look_step(v: RirbView, l: Look, count: int, cad: u32) -> (
    RirbView,
    Option<u32>,
) {
    looked(v, l.mem, l.written % count, count, cad)
}

/// How many entries have been read after a look.
pub open spec fn read_by(v: RirbView, read: int, l: Look) -> int {
    if v.queue.len() > 0 {
        read
    } else {
        l.written
    }
}

/// Whether all looks show what arrived.
pub open spec fn all_show(
    v: RirbView,
    read: int,
    log: Seq<(u32, u32)>,
    looks: Seq<Look>,
    count: int,
    cad: u32,
) -> bool
    decreases looks.len(),
{
    looks.len() == 0 || {
        &&& shows(looks[0], log, read, count)
        &&& all_show(
            look_step(v, looks[0], count, cad).0,
            read_by(v, read, looks[0]),
            log,
            looks.drop_first(),
            count,
            cad,
        )
    }
}

/// What all looks hand out, what is queued after them, and how many entries
/// have been read.
pub open spec fn look_all(v: RirbView, read: int, looks: Seq<Look>, count: int, cad: u32) -> (
    Seq<u32>,
    RirbView,
    int,
)
    decreases looks.len(),
{
    if looks.len() == 0 {
        (Seq::empty(), v, read)
    } else {
        let (w, r) = look_step(v, looks[0], count, cad);
        let (rest, end, last) = look_all(
            w,
            read_by(v, read, looks[0]),
            looks.drop_first(),
            count,
            cad,
        );
        (
            match r {
                Some(resp) => seq![resp] + rest,
                None => rest,
            },
            end,
            last,
        )
    }
}

proof fn lemma_shown_arrive(l: Look, log: Seq<(u32, u32)>, read: int, count: int)
    requires
        0 < count,
        0 <= read,
        shows(l, log, read, count),
    ensures
        arrived(l.mem, read % count, l.written % count, count) == log.subrange(read, l.written),
{
    let n = l.written - read;
    let r = read % count;
    vstd::arithmetic::div_mod::lemma_add_mod_noop(read, n, count);
    vstd::arithmetic::div_mod::lemma_small_mod(n as nat, count as nat);
    assert(l.written % count == (r + n) % count);
    if r + n < count {
        vstd::arithmetic::div_mod::lemma_small_mod((r + n) as nat, count as nat);
    } else {
        vstd::arithmetic::div_mod::lemma_mod_add_multiples_vanish(r + n - count, count);
        vstd::arithmetic::div_mod::lemma_small_mod((r + n - count) as nat, count as nat);
    }
    lemma_drain_len_between(r, l.written % count, count);
    let got = arrived(l.mem, r, l.written % count, count);
    let want = log.subrange(read, l.written);
    assert(got.len() == n);
    assert forall|i: int| 0 <= i < n implies got[i] == want[i] by {
        vstd::arithmetic::div_mod::lemma_add_mod_noop(read, 1 + i, count);
        vstd::arithmetic::div_mod::lemma_add_mod_noop(r, 1 + i, count);
        vstd::arithmetic::div_mod::lemma_mod_twice(read, count);
        assert(drain_index(r, count, i) == (read + i + 1) % count);
        assert(want[i] == log[read + i]);
    }
    assert(got =~= want);
}

/// Over any number of looks, whatever arrives between them, each response to
/// codec `cad` is handed out once and in the order of arrival: those handed
/// out, followed by those still queued, are those queued at first followed by
/// those among the entries read.
pub proof fn law_responses_in_order(
    v: RirbView,
    read: int,
    log: Seq<(u32, u32)>,
    looks: Seq<Look>,
    count: int,
    cad: u32,
)
    requires
        0 < count,
        0 <= read <= log.len(),
        v.read_ptr == read % count,
        all_show(v, read, log, looks, count, cad),
    ensures
        ({
            let (out, end, last) = look_all(v, read, looks, count, cad);
            &&& read <= last <= log.len()
            &&& end.read_ptr == last % count
            &&& out + end.queue == v.queue + solicited(log.subrange(read, last), cad)
        }),
    decreases looks.len(),
{
    if looks.len() == 0 {
        assert(log.subrange(read, read) =~= Seq::empty());
        assert(Seq::empty() + v.queue =~= v.queue + solicited(log.subrange(read, read), cad));
    } else {
        let l = looks[0];
        let (w, r) = look_step(v, l, count, cad);
        let mid = read_by(v, read, l);
        lemma_shown_arrive(l, log, read, count);
        assert(0 <= l.written % count < count);
        law_responses_in_order(w, mid, log, looks.drop_first(), count, cad);
        let (rest, end, last) = look_all(w, mid, looks.drop_first(), count, cad);
        let (out, _, _) = look_all(v, read, looks, count, cad);
        let a = log.subrange(read, mid);
        let b = log.subrange(mid, last);
        assert(log.subrange(read, last) =~= a + b);
        lemma_solicited_concat(a, b, cad);
        if v.queue.len() > 0 {
            assert(a =~= Seq::empty());
            assert(seq![v.queue[0]] + (rest + end.queue) =~= out + end.queue);
            assert(seq![v.queue[0]] + (v.queue.skip(1) + solicited(b, cad)) =~= v.queue
                + solicited(a + b, cad));
        } else {
            let fresh = solicited(a, cad);
            if fresh.len() > 0 {
                assert(seq![fresh[0]] + (rest + end.queue) =~= out + end.queue);
                assert(seq![fresh[0]] + (fresh.skip(1) + solicited(b, cad)) =~= v.queue + (fresh
                    + solicited(b, cad)));
            } else {
                assert(w.queue + solicited(b, cad) =~= v.queue + (fresh + solicited(b, cad)));
            }
        }
    }
}

/// A look finds nothing only when no response is left: none is queued, and
/// none is among the entries written since the ring was read.
pub proof fn law_nothing_found_nothing_left(
    v: RirbView,
    read: int,
    log: Seq<(u32, u32)>,
    l: Look,
    count: int,
    cad: u32,
)
    requires
        0 < count,
        0 <= read,
        v.read_ptr == read % count,
        shows(l, log, read, count),
    ensures
        look_step(v, l, count, cad).1 is None <==> v.queue.len() == 0 && solicited(
            log.subrange(read, l.written),
            cad,
        ).len() == 0,
{
    lemma_shown_arrive(l, log, read, count);
    assert(0 <= l.written % count < count);
}

// ── Choice of engine ──
/// How an attempt through the rings ended.
#[derive(Clone, Copy, Debug, PartialEq, Eq, Structural)]
pub enum RingOutcome {
    Answered,
    TimedOut,
    /// The rings cannot be used.
    Broken,
}

/// What to do about it.
#[derive(Clone, Copy, Debug, PartialEq, Eq, Structural)]
pub enum Verdict {
    /// Hand the response on.
    Deliver,
    /// Report the failure.
    Report,
    /// Send the same verb again through the immediate-command interface.
    Reissue,
}

/// Consecutive timeouts after which the rings are given up.
pub const MAX_TIMEOUTS: u32 = 3;

/// The engine that carries codec verbs: the rings, unless they were ruled out
/// or have failed.
#[derive(Clone, Copy, Debug, PartialEq, Eq, Structural)]
pub struct CmdEngine {
    pub kind: CmdEngineKind,
    /// Whether the engine was chosen by hand.
    pub forced: bool,
    /// Consecutive timeouts.
    pub timeouts: u32,
}

/// What an outcome makes of the engine.
pub open spec fn engine_next(e: CmdEngine, o: RingOutcome) -> (CmdEngine, Verdict) {
    match o {
        RingOutcome::Answered => (CmdEngine { timeouts: 0, ..e }, Verdict::Deliver),
        RingOutcome::TimedOut => if !e.forced && e.timeouts + 1 >= MAX_TIMEOUTS {
            (CmdEngine { kind: CmdEngineKind::Pio, timeouts: 0, ..e }, Verdict::Reissue)
        } else {
            (
                CmdEngine {
                    timeouts: if e.timeouts < MAX_TIMEOUTS {
                        (e.timeouts + 1) as u32
                    } else {
                        e.timeouts
                    },
                    ..e
                },
                Verdict::Report,
            )
        },
        RingOutcome::Broken => if !e.forced {
            (CmdEngine { kind: CmdEngineKind::Pio, timeouts: 0, ..e }, Verdict::Reissue)
        } else {
            (e, Verdict::Report)
        },
    }
}

impl CmdEngine {
    /// The engine that was asked for, or the rings with fallback.
    pub fn new(choice: Option<CmdEngineKind>) -> (e: Self)
        ensures
            e == match choice {
                Some(kind) => CmdEngine { kind, forced: true, timeouts: 0 },
                None => CmdEngine { kind: CmdEngineKind::Corb, forced: false, timeouts: 0 },
            },
    {
        match choice {
            Some(kind) => CmdEngine { kind, forced: true, timeouts: 0 },
            None => CmdEngine { kind: CmdEngineKind::Corb, forced: false, timeouts: 0 },
        }
    }

    /// Take note of how an attempt through the rings ended, and decide what
    /// to do about it.
    pub fn note(&mut self, o: RingOutcome) -> (v: Verdict)
        ensures
            (*final(self), v) == engine_next(*old(self), o),
    {
        match o {
            RingOutcome::Answered => {
                self.timeouts = 0;
                Verdict::Deliver
            },
            RingOutcome::TimedOut => {
                if !self.forced && self.timeouts >= MAX_TIMEOUTS - 1 {
                    self.kind = CmdEngineKind::Pio;
                    self.timeouts = 0;
                    Verdict::Reissue
                } else {
                    if self.timeouts < MAX_TIMEOUTS {
                        self.timeouts = self.timeouts + 1;
                    }
                    Verdict::Report
                }
            },
            RingOutcome::Broken => {
                if !self.forced {
                    self.kind = CmdEngineKind::Pio;
                    self.timeouts = 0;
                    Verdict::Reissue
                } else {
                    Verdict::Report
                }
            },
        }
    }
}

/// The engine degrades only once and for good: no outcome brings the rings
/// back, an engine chosen by hand never changes, and a verb is sent again
/// exactly when the rings have just been given up.
pub proof fn law_fallback_is_final(e: CmdEngine, o: RingOutcome)
    ensures
        ({
            let (f, v) = engine_next(e, o);
            &&& e.kind == CmdEngineKind::Pio ==> f.kind == CmdEngineKind::Pio
            &&& e.forced ==> f.kind == e.kind && v != Verdict::Reissue
            &&& f.forced == e.forced
            &&& e.timeouts <= 3 ==> f.timeouts <= 3
            &&& e.kind == CmdEngineKind::Corb ==> (v == Verdict::Reissue <==> f.kind
                == CmdEngineKind::Pio)
        }),
{
}

/// Three timeouts in a row, or one failure of the rings themselves, end in the
/// immediate-command interface; fewer timeouts do not.
pub proof fn law_three_timeouts(e: CmdEngine)
    requires
        e.kind == CmdEngineKind::Corb,
        !e.forced,
        e.timeouts == 0,
    ensures
        ({
            let (one, v1) = engine_next(e, RingOutcome::TimedOut);
            let (two, v2) = engine_next(one, RingOutcome::TimedOut);
            let (three, v3) = engine_next(two, RingOutcome::TimedOut);
            &&& one.kind == CmdEngineKind::Corb && v1 == Verdict::Report
            &&& two.kind == CmdEngineKind::Corb && v2 == Verdict::Report
            &&& three.kind == CmdEngineKind::Pio && v3 == Verdict::Reissue
            &&& engine_next(e, RingOutcome::Broken).0.kind == CmdEngineKind::Pio
            &&& engine_next(two, RingOutcome::Answered).0 == e
        }),
{
}

/// A ring of 256 entries is told by bit 6 and code 2, one of 16 by bit 5 and
/// code 1, one of two by bit 4 and code 0; the larger is tried first.
pub proof fn law_ring_sizes(k: int)
    requires
        0 <= k < 3,
    ensures
        size_choice(k).2 == 1usize << (if size_choice(k).1 == 2 {
            8usize
        } else if size_choice(k).1 == 1 {
            4
        } else {
            1
        }),
        size_choice(k).0 == 16u8 << size_choice(k).1,
        size_choice(k).1 + k == 2,
{
    assert(1usize << 8usize == 256 && 1usize << 4usize == 16 && 1usize << 1usize == 2)
        by (bit_vector);
    assert(16u8 << 2u8 == 64 && 16u8 << 1u8 == 32 && 16u8 << 0u8 == 16) by (bit_vector);
}

/// A size that does not read back is given up for the next smaller one that is
/// advertised, and only when there is none the ring is not supported.
pub proof fn law_smaller_size_next(reg: Reg, s: SizeState, value: u32)
    requires
        s.phase == SizePhase::Readback,
        s.choice < 3,
        value & 3 != size_choice(s.choice as int).1,
    ensures
        ({
            let (t, a) = size_next(reg, s, value);
            &&& a is Unsupported <==> forall|j: int|
                s.choice < j < 3 ==> s.caps & (#[trigger] size_choice(j)).0 == 0
            &&& a matches SizeAction::Bar(x) ==> {
                &&& x == Action::Write(reg, size_choice(t.choice as int).1 as u32)
                &&& s.choice < t.choice < 3
                &&& s.caps & size_choice(t.choice as int).0 != 0
            }
        }),
{
    assert(value & 3 == value % 4) by (bit_vector);
    lemma_first_size(s.caps, s.choice + 1);
}

/// How the rings are brought up: both engines are stopped; each ring gets its
/// half of the page; the pointers are reset; the RIRB runs, with its interrupt,
/// before the CORB does. Shutting down stops both.
pub proof fn law_ring_programs(pa: int)
    requires
        0 <= pa < 0x8000_0000_0000,
    ensures
        ({
            let (h, t) = (head_ops(pa), tail_ops());
            let w = |ops: Seq<Op>, i: int, off: u32, width: u32, v: int|
                ops[i] == (Op::Write { at: Reg { off, width }, value: v as u32 });
            &&& h.len() == 6 && t.len() == 8
            &&& w(h, 0, 0x4c, 1, 0) && w(h, 1, 0x5c, 1, 0)
            &&& h[2] matches Op::Write { at: a, value: low } && h[3] matches Op::Write {
                at: b,
                value: high,
            } && a == (Reg { off: 0x40, width: 4 }) && b == (Reg { off: 0x44, width: 4 }) && low
                + 0x1_0000_0000 * high == pa
            &&& h[4] matches Op::Write { at: a, value: low } && h[5] matches Op::Write {
                at: b,
                value: high,
            } && a == (Reg { off: 0x50, width: 4 }) && b == (Reg { off: 0x54, width: 4 }) && low
                + 0x1_0000_0000 * high == pa + 1024
            &&& w(t, 0, 0x48, 2, 0) && w(t, 1, 0x4a, 2, 0x8000) && w(t, 3, 0x4a, 2, 0)
            &&& t[2] matches Op::Await(p) && p.at == (Reg { off: 0x4a, width: 2 }) && p.mask
                == 0x8000 && p.set && p.fault is None
            &&& w(t, 4, 0x58, 2, 0x8000) && w(t, 5, 0x5a, 2, 1)
            &&& w(t, 6, 0x5c, 1, 3) && w(t, 7, 0x4c, 1, 2)
            &&& shutdown_ops().len() == 2
            &&& w(shutdown_ops(), 0, 0x4c, 1, 0) && w(shutdown_ops(), 1, 0x5c, 1, 0)
        }),
        size_reg(false) == (Reg { off: 0x4e, width: 1 }),
        size_reg(true) == (Reg { off: 0x5e, width: 1 }),
{
}

/// The rings are brought up in order: the addresses, the size of the CORB at its
/// register, the size of the RIRB at its own, which has to be the same, and then
/// the start. A ring that is not supported is an error.
pub proof fn law_bring_up_flow(pa: int, s: InitState, value: u32, now: u64)
    requires
        init_ok(pa, s),
    ensures
        ({
            let (t, a) = init_next(pa, s, value, now);
            let corb = Reg { off: 0x4e, width: 1 };
            let rirb = Reg { off: 0x5e, width: 1 };
            let (c, r) = (size_next(corb, s.size, value), size_next(rirb, s.size, value));
            &&& s.stage == InitStage::Head && s.cur.pc == 6 ==> a == InitAction::Bar(
                Action::Read(corb),
            ) && t.stage == InitStage::CorbSize
            &&& s.stage == InitStage::CorbSize ==> match c.1 {
                SizeAction::Bar(x) => a == InitAction::Bar(x) && t.stage == s.stage && t.size == c.0,
                SizeAction::Unsupported => a == InitAction::Failed(CorbError::Unsupported),
                SizeAction::Got(n) => a == InitAction::Bar(Action::Read(rirb)) && t.stage
                    == InitStage::RirbSize && t.count == n,
            }
            &&& s.stage == InitStage::RirbSize ==> match r.1 {
                SizeAction::Bar(x) => a == InitAction::Bar(x) && t.stage == s.stage && t.size == r.0
                    && t.count == s.count,
                SizeAction::Unsupported => a == InitAction::Failed(CorbError::Unsupported),
                SizeAction::Got(n) => if n == s.count {
                    a == InitAction::Bar(Action::Write(Reg { off: 0x48, width: 2 }, 0)) && t.stage
                        == InitStage::Tail && t.count == n
                } else {
                    a == InitAction::Failed(CorbError::SizesDiffer { corb: s.count, rirb: n })
                },
            }
            &&& s.stage == InitStage::Tail && s.cur.pc == 8 && s.cur.phase == Phase::Start ==> a
                == InitAction::Ready(s.count)
        }),
        init_start().stage == InitStage::Head && init_start().count == 0 && init_start().size
            == size_start(),
        size_start() == (SizeState { phase: SizePhase::Begin, caps: 0, choice: 0 }),
{
}

/// An entry answers a command to codec `cad` exactly when it comes from there
/// and was asked for; whatever else arrives behind others, they stay.
pub proof fn law_what_is_solicited(entries: Seq<(u32, u32)>, resp: u32, ex: u32, cad: u32)
    ensures
        solicited(entries.push((resp, ex)), cad) == if ex & 0x10 == 0 && ex & 0xf == cad {
            solicited(entries, cad).push(resp)
        } else {
            solicited(entries, cad)
        },
        route(resp, ex, cad) is Unsolicited <==> ex & 0x10 != 0,
        route(resp, ex, cad) is Foreign <==> ex & 0x10 == 0 && ex & 0xf != cad,
        match route(resp, ex, cad) {
            Route::Solicited(r) => r == resp,
            Route::Unsolicited(r, x) => r == resp && x == ex,
            Route::Foreign(c, r) => c == ex & 0xf && r == resp,
        },
        solicited(Seq::empty(), cad) == Seq::<u32>::empty(),
{
    assert(ex & 0xf == ex % 16) by (bit_vector);
    assert((ex & 0x10 != 0) <==> ex / 16 % 2 == 1) by (bit_vector);
    assert(entries.push((resp, ex)).drop_last() =~= entries);
}

/// An entry of the RIRB takes eight bytes of the upper part of the page: the
/// response and what it is about, least significant byte first.
pub proof fn law_entry_place(mem: Seq<u8>, idx: int)
    requires
        mem.len() == 4096,
        0 <= idx < 256,
    ensures
        ({
            let o = 1024 + 8 * idx;
            let (r, x) = entry_at(mem, idx);
            &&& r == mem[o] + 256 * (mem[o + 1] + 256 * (mem[o + 2] + 256 * mem[o + 3]))
            &&& x == mem[o + 4] + 256 * (mem[o + 5] + 256 * (mem[o + 6] + 256 * mem[o + 7]))
        }),
{
}

} // verus!
