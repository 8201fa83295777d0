//! Register programs.
//!
//! A program is a list of operations on controller registers. `Runner` walks
//! through it one hardware access at a time: each step takes the value of the
//! read just performed and the current time, and gives the next access.
use super::mmio::{access_ok, BAR_LEN};
use vstd::prelude::*;

verus! {

/// A controller register: its offset in BAR0 and its width in bytes.
#[derive(Clone, Copy, Debug, PartialEq, Eq, Structural)]
pub struct Reg {
    pub off: u32,
    pub width: u32,
}

/// Whether an access to `r` lies inside the mapped window and is aligned.
pub open spec fn reg_ok(r: Reg) -> bool {
    &&& r.width == 1 || r.width == 2 || r.width == 4
    &&& access_ok(BAR_LEN as int, r.off as int, r.width as int, r.width as int)
}

/// Whether `v` fits in a register of `width` bytes.
pub open spec fn fits(v: u32, width: u32) -> bool {
    (width == 1 ==> v < 0x100) && (width == 2 ==> v < 0x1_0000)
}

impl Reg {
    /// The 8-bit register at `off`.
    pub fn byte(off: u32) -> (r: Reg)
        ensures
            r == (Reg { off, width: 1 }),
    {
        Reg { off, width: 1 }
    }

    /// The 16-bit register at `off`.
    pub fn word(off: u32) -> (r: Reg)
        ensures
            r == (Reg { off, width: 2 }),
    {
        Reg { off, width: 2 }
    }

    /// The 32-bit register at `off`.
    pub fn dword(off: u32) -> (r: Reg)
        ensures
            r == (Reg { off, width: 4 }),
    {
        Reg { off, width: 4 }
    }
}

/// Why a program could not be completed.
#[derive(Clone, Copy, Debug, PartialEq, Eq, Structural)]
pub enum Fault {
    /// The link did not enter reset.
    ResetAssert,
    /// The link did not leave reset.
    ResetRelease,
    /// The immediate-command interface stayed busy and no reset was allowed.
    IcStuckBusy,
    /// The immediate-command interface stayed busy.
    IcBusy,
    /// The codec did not answer this verb.
    PioTimeout(u32),
}

/// When to give up polling.
#[derive(Clone, Copy, Debug, PartialEq, Eq, Structural)]
pub enum Limit {
    /// After this many pauses, each between two reads.
    Spins(u32),
    /// After this many reads, each with a pause behind it.
    Reads(u32),
    /// Once this many nanoseconds have passed.
    Elapsed(u64),
}

/// Poll a register until all bits under `mask` read as zero, or, with `set`,
/// until one of them reads as one.
#[derive(Clone, Copy, Debug, PartialEq, Eq)]
pub struct Await {
    pub at: Reg,
    pub mask: u32,
    pub set: bool,
    pub limit: Limit,
    /// Pause between two reads, in microseconds.
    pub pause_us: u32,
    /// Written before each pause.
    pub kick: Option<(Reg, u32)>,
    /// How the program fails when polling gives up; without it the program
    /// goes on.
    pub fault: Option<Fault>,
}

/// One operation of a program.
#[derive(Clone, Copy, Debug, PartialEq, Eq)]
pub enum Op {
    Write { at: Reg, value: u32 },
    /// Read, clear some bits, set some bits, write back.
    Update { at: Reg, clear: u32, set: u32 },
    /// Read; the value of the last such read is the program's result.
    Read { at: Reg },
    /// Write only if a bit under `mask` of `test` is set.
    WriteIfSet { test: Reg, mask: u32, at: Reg, value: u32 },
    Await(Await),
    Pause { us: u32 },
}

/// What to do next.
#[derive(Clone, Copy, Debug, PartialEq, Eq, Structural)]
pub enum Action {
    Read(Reg),
    Write(Reg, u32),
    /// Sleep for so many microseconds.
    Sleep(u32),
    /// The program is complete; its result is the last value read.
    Done(u32),
    Failed(Fault),
}

/// Where inside an operation a run stands.
#[derive(Clone, Copy, Debug, PartialEq, Eq, Structural)]
pub enum Phase {
    /// Before the operation.
    Start,
    /// A read was asked for.
    Reading,
    /// The write before a polling pause was asked for.
    Kicked,
    /// A polling pause was asked for.
    Paused,
}

/// The position of a run in its program.
#[derive(Clone, Copy, Debug, PartialEq, Eq, Structural)]
pub struct Cursor {
    pub pc: usize,
    pub phase: Phase,
    /// Pauses or reads left in the current poll.
    pub left: u32,
    /// When the current poll began.
    pub start: u64,
    /// The last value read.
    pub last: u32,
}

/// The position before the first operation.
pub open spec fn cursor_start() -> Cursor {
    Cursor { pc: 0, phase: Phase::Start, left: 0, start: 0, last: 0 }
}

/// The counter that a poll begins with.
pub open spec fn initial_left(limit: Limit) -> u32 {
    match limit {
        Limit::Spins(n) => n,
        Limit::Reads(n) => n,
        Limit::Elapsed(_) => 0,
    }
}

/// Whether a value ends a poll.
pub open spec fn satisfied(p: Await, value: u32) -> bool {
    if p.set {
        value & p.mask != 0
    } else {
        value & p.mask == 0
    }
}

/// Begin the operation at `pc`.
pub open spec fn enter(ops: Seq<Op>, pc: int, last: u32, now: u64) -> (Cursor, Action) {
    let here = Cursor { pc: pc as usize, phase: Phase::Start, left: 0, start: 0, last };
    let past = Cursor { pc: (pc + 1) as usize, ..here };
    let reading = Cursor { phase: Phase::Reading, ..here };
    if pc >= ops.len() {
        (here, Action::Done(last))
    } else {
        match ops[pc] {
            Op::Write { at, value } => (past, Action::Write(at, value)),
            Op::Pause { us } => (past, Action::Sleep(us)),
            Op::Update { at, .. } => (reading, Action::Read(at)),
            Op::Read { at } => (reading, Action::Read(at)),
            Op::WriteIfSet { test, .. } => (reading, Action::Read(test)),
            Op::Await(p) => (
                Cursor { left: initial_left(p.limit), start: now, ..reading },
                Action::Read(p.at),
            ),
        }
    }
}

/// Whether the time limit of a poll that began at `start` has run out.
pub open spec fn expired(start: u64, now: u64, limit: u64) -> bool {
    now >= start && now - start >= limit
}

/// A polled value was not the awaited one.
pub open spec fn miss(ops: Seq<Op>, c: Cursor, p: Await, now: u64) -> (Cursor, Action) {
    let paused = Cursor { phase: Phase::Paused, ..c };
    match p.limit {
        Limit::Spins(_) => if c.left == 0 {
            match p.fault {
                Some(f) => (c, Action::Failed(f)),
                None => enter(ops, c.pc + 1, c.last, now),
            }
        } else {
            let fewer = Cursor { left: (c.left - 1) as u32, ..paused };
            match p.kick {
                Some((reg, v)) => (
                    Cursor { phase: Phase::Kicked, ..fewer },
                    Action::Write(reg, v),
                ),
                None => (fewer, Action::Sleep(p.pause_us)),
            }
        },
        Limit::Reads(_) => if c.left == 0 {
            enter(ops, c.pc + 1, c.last, now)
        } else {
            (Cursor { left: (c.left - 1) as u32, ..paused }, Action::Sleep(p.pause_us))
        },
        Limit::Elapsed(ns) => if expired(c.start, now, ns) {
            match p.fault {
                Some(f) => (c, Action::Failed(f)),
                None => enter(ops, c.pc + 1, c.last, now),
            }
        } else {
            (paused, Action::Sleep(p.pause_us))
        },
    }
}

/// One step of a run: `value` is what the read just performed gave, `now` the
/// time in nanoseconds.
pub open spec fn next(ops: Seq<Op>, c: Cursor, value: u32, now: u64) -> (Cursor, Action) {
    if c.phase == Phase::Start || c.pc >= ops.len() {
        enter(ops, c.pc as int, c.last, now)
    } else {
        let past = Cursor {
            pc: (c.pc + 1) as usize,
            phase: Phase::Start,
            left: 0,
            start: 0,
            last: c.last,
        };
        match ops[c.pc as int] {
            Op::Write { .. } => enter(ops, c.pc + 1, c.last, now),
            Op::Pause { .. } => enter(ops, c.pc + 1, c.last, now),
            Op::Update { at, clear, set } => (past, Action::Write(at, (value & !clear) | set)),
            Op::Read { .. } => enter(ops, c.pc + 1, value, now),
            Op::WriteIfSet { mask, at, value: v, .. } => if value & mask != 0 {
                (past, Action::Write(at, v))
            } else {
                enter(ops, c.pc + 1, c.last, now)
            },
            Op::Await(p) => match c.phase {
                Phase::Kicked => (
                    Cursor { phase: Phase::Paused, ..c },
                    Action::Sleep(p.pause_us),
                ),
                Phase::Paused => if p.limit is Reads && c.left == 0 {
                    enter(ops, c.pc + 1, c.last, now)
                } else {
                    (Cursor { phase: Phase::Reading, ..c }, Action::Read(p.at))
                },
                _ => if satisfied(p, value) {
                    enter(ops, c.pc + 1, c.last, now)
                } else {
                    miss(ops, c, p, now)
                },
            },
        }
    }
}

/// Whether an operation begins with a read.
pub open spec fn reads(op: Op) -> bool {
    !(op is Write || op is Pause)
}

/// A position that a run can be in: inside the program or just behind it, and
/// in the middle of an operation only where that operation has a middle.
pub open spec fn cursor_ok(ops: Seq<Op>, c: Cursor) -> bool {
    &&& c.pc <= ops.len()
    &&& c.phase != Phase::Start ==> c.pc < ops.len() && reads(ops[c.pc as int])
    &&& c.phase == Phase::Kicked || c.phase == Phase::Paused ==> ops[c.pc as int] is Await
}

/// Every register of an operation is accessible, and every value fits.
pub open spec fn op_ok(op: Op) -> bool {
    match op {
        Op::Write { at, value } => reg_ok(at) && fits(value, at.width),
        Op::Update { at, set, .. } => reg_ok(at) && fits(set, at.width),
        Op::Read { at } => reg_ok(at),
        Op::WriteIfSet { test, at, value, .. } => reg_ok(test) && reg_ok(at) && fits(
            value,
            at.width,
        ),
        Op::Await(p) => {
            &&& reg_ok(p.at)
            &&& p.limit != Limit::Reads(0)
            &&& match p.kick {
                Some((reg, v)) => reg_ok(reg) && fits(v, reg.width),
                None => true,
            }
        },
        Op::Pause { .. } => true,
    }
}

/// Every operation of a program is in order.
pub open spec fn program_ok(ops: Seq<Op>) -> bool {
    forall|i: int| 0 <= i < ops.len() ==> op_ok(#[trigger] ops[i])
}

/// Whether an action stays inside the mapped window, aligned, with a value
/// that fits its register.
pub open spec fn action_ok(a: Action) -> bool {
    match a {
        Action::Read(r) => reg_ok(r),
        Action::Write(r, v) => reg_ok(r) && fits(v, r.width),
        _ => true,
    }
}

/// The register that the read just performed went to, if one was.
pub open spec fn awaited_reg(ops: Seq<Op>, c: Cursor) -> Option<Reg> {
    if c.phase == Phase::Reading && c.pc < ops.len() {
        match ops[c.pc as int] {
            Op::Update { at, .. } => Some(at),
            Op::Read { at } => Some(at),
            Op::WriteIfSet { test, .. } => Some(test),
            Op::Await(p) => Some(p.at),
            _ => None,
        }
    } else {
        None
    }
}

/// A program whose operations are in order never reaches outside the mapped
/// window, never makes an unaligned access, and never writes a value that is
/// wider than its register.
pub proof fn law_actions_in_bounds(ops: Seq<Op>, c: Cursor, value: u32, now: u64)
    requires
        program_ok(ops),
        ops.len() < usize::MAX,
        cursor_ok(ops, c),
        awaited_reg(ops, c) matches Some(r) ==> fits(value, r.width),
    ensures
        action_ok(next(ops, c, value, now).1),
{
    if c.pc < ops.len() {
        assert(op_ok(ops[c.pc as int]));
        if c.pc + 1 < ops.len() {
            assert(op_ok(ops[c.pc + 1]));
        }
        match ops[c.pc as int] {
            Op::Update { at, clear, set } => {
                assert(value < 0x100 && set < 0x100 ==> (value & !clear) | set < 0x100)
                    by (bit_vector);
                assert(value < 0x1_0000 && set < 0x1_0000 ==> (value & !clear) | set < 0x1_0000)
                    by (bit_vector);
            },
            _ => {},
        }
    }
}

/// A run only moves forward: it never returns to an earlier operation, it is
/// done only behind the last one, and it fails only at a poll that is allowed
/// to fail, with that poll's fault.
pub proof fn law_forward(ops: Seq<Op>, c: Cursor, value: u32, now: u64)
    requires
        ops.len() < usize::MAX,
        cursor_ok(ops, c),
    ensures
        ({
            let (d, a) = next(ops, c, value, now);
            &&& cursor_ok(ops, d)
            &&& c.pc <= d.pc
            &&& a is Done ==> d.pc == ops.len()
            &&& a matches Action::Failed(f) ==> c.pc < ops.len() && (ops[c.pc as int] matches Op::Await(p)
                && p.fault == Some(f))
        }),
{
}

/// A poll that is limited by a count cannot go on for ever: each missed read
/// uses up one of the count, or ends the poll.
pub proof fn law_counted_polls_end(ops: Seq<Op>, c: Cursor, value: u32, now: u64)
    requires
        ops.len() < usize::MAX,
        c.pc < ops.len(),
        c.phase == Phase::Reading,
        ops[c.pc as int] matches Op::Await(p) && !(p.limit is Elapsed),
    ensures
        ({
            let (d, a) = next(ops, c, value, now);
            d.pc > c.pc || d.left < c.left || a is Failed
        }),
{
}

/// A poll that is limited by time ends at the first read that misses after
/// its time has run out.
pub proof fn law_timed_polls_end(ops: Seq<Op>, c: Cursor, value: u32, now: u64)
    requires
        ops.len() < usize::MAX,
        c.pc < ops.len(),
        c.phase == Phase::Reading,
        ops[c.pc as int] matches Op::Await(p) && (p.limit matches Limit::Elapsed(ns) && expired(
            c.start,
            now,
            ns,
        )),
    ensures
        ({
            let (d, a) = next(ops, c, value, now);
            d.pc > c.pc || a is Failed
        }),
{
}

/// A program being run.
pub struct Runner {
    ops: Vec<Op>,
    cur: Cursor,
}

impl Runner {
    /// The operations.
    pub closed spec fn ops(&self) -> Seq<Op> {
        self.ops@
    }

    /// The position.
    pub closed spec fn cursor(&self) -> Cursor {
        self.cur
    }

    /// The position is one that a run can be in.
    pub open spec fn wf(&self) -> bool {
        self.ops().len() < usize::MAX && cursor_ok(self.ops(), self.cursor())
    }

    /// A run that stands before the first operation.
    pub fn new(ops: Vec<Op>) -> (r: Self)
        requires
            ops@.len() < usize::MAX,
        ensures
            r.wf(),
            r.ops() == ops@,
            r.cursor() == cursor_start(),
    {
        Runner { ops, cur: Cursor { pc: 0, phase: Phase::Start, left: 0, start: 0, last: 0 } }
    }

    fn enter(&mut self, pc: usize, last: u32, now: u64) -> (a: Action)
        requires
            pc <= old(self).ops().len() < usize::MAX,
        ensures
            final(self).ops() == old(self).ops(),
            (final(self).cursor(), a) == enter(old(self).ops(), pc as int, last, now),
            final(self).wf(),
    {
        let here = Cursor { pc, phase: Phase::Start, left: 0, start: 0, last };
        if pc >= self.ops.len() {
            self.cur = here;
            return Action::Done(last);
        }
        let past = Cursor { pc: pc + 1, phase: Phase::Start, left: 0, start: 0, last };
        let reading = Cursor { pc, phase: Phase::Reading, left: 0, start: 0, last };
        match self.ops[pc] {
            Op::Write { at, value } => {
                self.cur = past;
                Action::Write(at, value)
            },
            Op::Pause { us } => {
                self.cur = past;
                Action::Sleep(us)
            },
            Op::Update { at, clear: _, set: _ } => {
                self.cur = reading;
                Action::Read(at)
            },
            Op::Read { at } => {
                self.cur = reading;
                Action::Read(at)
            },
            Op::WriteIfSet { test, mask: _, at: _, value: _ } => {
                self.cur = reading;
                Action::Read(test)
            },
            Op::Await(p) => {
                let left: u32 = match p.limit {
                    Limit::Spins(n) => n,
                    Limit::Reads(n) => n,
                    Limit::Elapsed(_) => 0,
                };
                self.cur = Cursor { pc, phase: Phase::Reading, left, start: now, last };
                Action::Read(p.at)
            },
        }
    }

    fn miss(&mut self, p: Await, now: u64) -> (a: Action)
        requires
            old(self).wf(),
            old(self).cursor().pc < old(self).ops().len(),
            old(self).ops()[old(self).cursor().pc as int] is Await,
        ensures
            final(self).ops() == old(self).ops(),
            (final(self).cursor(), a) == miss(old(self).ops(), old(self).cursor(), p, now),
            final(self).wf(),
    {
        let c = self.cur;
        match p.limit {
            Limit::Spins(_) => {
                if c.left == 0 {
                    match p.fault {
                        Some(f) => Action::Failed(f),
                        None => self.enter(c.pc + 1, c.last, now),
                    }
                } else {
                    self.cur.left = c.left - 1;
                    match p.kick {
                        Some((reg, v)) => {
                            self.cur.phase = Phase::Kicked;
                            Action::Write(reg, v)
                        },
                        None => {
                            self.cur.phase = Phase::Paused;
                            Action::Sleep(p.pause_us)
                        },
                    }
                }
            },
            Limit::Reads(_) => {
                if c.left == 0 {
                    self.enter(c.pc + 1, c.last, now)
                } else {
                    self.cur.left = c.left - 1;
                    self.cur.phase = Phase::Paused;
                    Action::Sleep(p.pause_us)
                }
            },
            Limit::Elapsed(ns) => {
                if now >= c.start && now - c.start >= ns {
                    match p.fault {
                        Some(f) => Action::Failed(f),
                        None => self.enter(c.pc + 1, c.last, now),
                    }
                } else {
                    self.cur.phase = Phase::Paused;
                    Action::Sleep(p.pause_us)
                }
            },
        }
    }

    /// The next access. `value` is what the read just performed gave (any
    /// value if the last action was no read), `now` the time in nanoseconds.
    pub fn step(&mut self, value: u32, now: u64) -> (a: Action)
        requires
            old(self).wf(),
        ensures
            final(self).ops() == old(self).ops(),
            (final(self).cursor(), a) == next(old(self).ops(), old(self).cursor(), value, now),
            final(self).wf(),
    {
        let c = self.cur;
        if c.phase == Phase::Start || c.pc >= self.ops.len() {
            return self.enter(c.pc, c.last, now);
        }
        let past = Cursor { pc: c.pc + 1, phase: Phase::Start, left: 0, start: 0, last: c.last };
        match self.ops[c.pc] {
            Op::Write { at: _, value: _ } => self.enter(c.pc + 1, c.last, now),
            Op::Pause { us: _ } => self.enter(c.pc + 1, c.last, now),
            Op::Update { at, clear, set } => {
                self.cur = past;
                Action::Write(at, (value & !clear) | set)
            },
            Op::Read { at: _ } => self.enter(c.pc + 1, value, now),
            Op::WriteIfSet { test: _, mask, at, value: v } => {
                if value & mask != 0 {
                    self.cur = past;
                    Action::Write(at, v)
                } else {
                    self.enter(c.pc + 1, c.last, now)
                }
            },
            Op::Await(p) => {
                if c.phase == Phase::Kicked {
                    self.cur.phase = Phase::Paused;
                    return Action::Sleep(p.pause_us);
                }
                if c.phase == Phase::Paused {
                    let used_up = match p.limit {
                        Limit::Reads(_) => c.left == 0,
                        _ => false,
                    };
                    if used_up {
                        return self.enter(c.pc + 1, c.last, now);
                    }
                    self.cur.phase = Phase::Reading;
                    return Action::Read(p.at);
                }
                let ok = if p.set {
                    value & p.mask != 0
                } else {
                    value & p.mask == 0
                };
                if ok {
                    self.enter(c.pc + 1, c.last, now)
                } else {
                    self.miss(p, now)
                }
            },
        }
    }
}

/// What the operations do. A write is made as it stands and a pause is kept; an
/// update reads its register and then sets and clears its own bits there and no
/// others; a conditional write is made exactly when one of the tested bits is
/// set. All of them lead on to the next operation.
pub proof fn law_operations(ops: Seq<Op>, c: Cursor, value: u32, now: u64)
    requires
        ops.len() < usize::MAX,
        c.pc < ops.len(),
    ensures
        ({
            let (d, a) = next(ops, c, value, now);
            let op = ops[c.pc as int];
            if c.phase == Phase::Start {
                match op {
                    Op::Write { at, value: v } => a == Action::Write(at, v) && d.pc == c.pc + 1,
                    Op::Pause { us } => a == Action::Sleep(us) && d.pc == c.pc + 1,
                    Op::Update { at, .. } => a == Action::Read(at) && d.pc == c.pc,
                    Op::Read { at } => a == Action::Read(at) && d.pc == c.pc,
                    Op::WriteIfSet { test, .. } => a == Action::Read(test) && d.pc == c.pc,
                    Op::Await(p) => a == Action::Read(p.at) && d.pc == c.pc && d.start == now,
                }
            } else {
                match op {
                    Op::Update { at, clear, set } => d.pc == c.pc + 1 && (a matches Action::Write(
                        reg,
                        w,
                    ) && {
                        &&& reg == at
                        &&& w & set == set
                        &&& w & (clear & !set) == 0
                        &&& w & !(clear | set) == value & !(clear | set)
                    }),
                    Op::WriteIfSet { mask, at, value: v, .. } => {
                        &&& value & mask != 0 ==> a == Action::Write(at, v) && d.pc == c.pc + 1
                        &&& value & mask == 0 ==> d.pc > c.pc && (d.pc == c.pc + 1 || c.pc + 1
                            < ops.len())
                    },
                    _ => true,
                }
            }
        }),
{
    if c.phase != Phase::Start {
        if let Op::Update { at, clear, set } = ops[c.pc as int] {
            assert(((value & !clear) | set) & set == set && ((value & !clear) | set) & (clear
                & !set) == 0 && ((value & !clear) | set) & !(clear | set) == value & !(clear | set))
                by (bit_vector);
        }
    }
}

/// A program's result is what its last read gave: each read replaces it, and
/// nothing else does.
pub proof fn law_result_is_last_read(ops: Seq<Op>, c: Cursor, value: u32, now: u64)
    requires
        ops.len() < usize::MAX,
        cursor_ok(ops, c),
    ensures
        ({
            let (d, a) = next(ops, c, value, now);
            &&& d.last == if c.phase == Phase::Reading && ops[c.pc as int] is Read {
                value
            } else {
                c.last
            }
            &&& a matches Action::Done(v) ==> v == d.last
            &&& c.pc == ops.len() ==> a == Action::Done(c.last)
        }),
{
}

/// A poll ends as soon as it reads what it waits for, and not before it has to:
/// while its count or its time lasts it pauses and reads again; then it fails
/// with its fault, or goes on where it has none.
pub proof fn law_polls(ops: Seq<Op>, c: Cursor, p: Await, value: u32, now: u64)
    requires
        ops.len() < usize::MAX,
        cursor_ok(ops, c),
        c.pc < ops.len(),
        ops[c.pc as int] == Op::Await(p),
        c.phase == Phase::Reading,
    ensures
        ({
            let (d, a) = next(ops, c, value, now);
            let found = (value & p.mask != 0) == p.set;
            let over = match p.limit {
                Limit::Elapsed(ns) => now >= c.start + ns,
                _ => c.left == 0,
            };
            if found {
                d.pc > c.pc && !(a is Failed)
            } else if !over {
                &&& d.pc == c.pc && d.start == c.start
                &&& !(p.limit is Elapsed) ==> d.left == c.left - 1
                &&& if p.limit is Spins && p.kick is Some {
                    &&& p.kick matches Some((reg, v)) && a == Action::Write(reg, v)
                    &&& d.phase == Phase::Kicked
                } else {
                    a == Action::Sleep(p.pause_us) && d.phase == Phase::Paused
                }
            } else if p.fault is Some && !(p.limit is Reads) {
                a == Action::Failed(p.fault->0)
            } else {
                d.pc > c.pc
            }
        }),
{
}

/// After a pause a poll reads its register again, and after the write before
/// it, it pauses.
pub proof fn law_polls_again(ops: Seq<Op>, c: Cursor, p: Await, value: u32, now: u64)
    requires
        ops.len() < usize::MAX,
        cursor_ok(ops, c),
        c.pc < ops.len(),
        ops[c.pc as int] == Op::Await(p),
    ensures
        c.phase == Phase::Kicked ==> next(ops, c, value, now) == (
            Cursor { phase: Phase::Paused, ..c },
            Action::Sleep(p.pause_us),
        ),
        c.phase == Phase::Paused && (c.left > 0 || !(p.limit is Reads)) ==> next(ops, c, value, now)
            == (Cursor { phase: Phase::Reading, ..c }, Action::Read(p.at)),
        c.phase == Phase::Start ==> next(ops, c, value, now).0.left == match p.limit {
            Limit::Spins(n) => n,
            Limit::Reads(n) => n,
            Limit::Elapsed(_) => 0,
        },
{
}

/// What is inside the window: the access ends within its 16 KiB and begins at a
/// multiple of its width, and a value has no more bits than its register.
pub proof fn law_inside_the_window(r: Reg, v: u32)
    requires
        action_ok(Action::Write(r, v)),
    ensures
        r.off + r.width <= 0x4000,
        r.off % r.width == 0,
        r.width == 1 ==> v <= 0xff,
        r.width == 2 ==> v <= 0xffff,
        r.width == 1 || r.width == 2 || r.width == 4,
        action_ok(Action::Read(r)),
{
}

} // verus!
