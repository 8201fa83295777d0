//! The thread that carries a handle's ring to the server: what it sends next,
//! and how it reconnects.
use super::pcm::{snd_pcm_t, wrapped_sum, Shape, Signals};
use crate::bytes::{push_u32, u32_le};
use crate::common::{DRAIN_CHUNK, MSG_FLUSH, MSG_MUTE, MSG_UNMUTE};
use crate::ring::{after_pop, taken, PopOutcome};
use crate::server::protocol::{
    cmd_bytes, encode_pcm, frame_bytes, header_bytes, law_frames_round_trip, parse, stream_bytes,
    Cmd, FrameView, Parsed,
};
use vstd::prelude::*;

verus! {

/// What the thread waits for.
#[derive(Clone, Copy, Debug, PartialEq, Eq, Structural)]
pub enum DrainStage {
    /// Nothing: the next step begins a round.
    Top,
    MuteSent,
    MuteReconnect,
    FlushSent,
    FlushReconnect,
    /// Bytes in the ring.
    Popping,
    /// So many bytes of PCM to be sent.
    PcmSent(usize),
    PcmReconnect,
    End,
}

/// What the thread does next.
pub enum DrainAction {
    /// Send these bytes.
    Send(Vec<u8>),
    /// Reconnect to the server.
    Reconnect,
    /// Wait until the ring has bytes or is interrupted.
    Wait,
    /// Go on.
    Continue,
    Finish,
}

/// What the thread does next.
pub ghost enum DrainAsk {
    Send(Seq<u8>),
    Reconnect,
    Wait,
    Continue,
    Finish,
}

impl View for DrainAction {
    type V = DrainAsk;

    open spec fn view(&self) -> DrainAsk {
        match *self {
            DrainAction::Send(b) => DrainAsk::Send(b@),
            DrainAction::Reconnect => DrainAsk::Reconnect,
            DrainAction::Wait => DrainAsk::Wait,
            DrainAction::Continue => DrainAsk::Continue,
            DrainAction::Finish => DrainAsk::Finish,
        }
    }
}

/// Everything that the thread acts on.
pub ghost struct DrainView {
    pub stage: DrainStage,
    pub sig: Signals,
    pub queue: Seq<u8>,
    pub interrupted: bool,
    pub written: usize,
}

/// The frame of a control opcode: an empty frame and the opcode behind it.
pub open spec fn opcode_frame(op: u8) -> Seq<u8> {
    u32_le(0).push(op)
}

/// Take the next chunk off the ring and send it.
pub open spec fn drain_pop(v: DrainView, connected: bool) -> (DrainView, DrainAsk) {
    if v.interrupted {
        (DrainView { stage: DrainStage::Top, interrupted: false, ..v }, DrainAsk::Continue)
    } else if v.queue.len() == 0 {
        (DrainView { stage: DrainStage::Popping, ..v }, DrainAsk::Wait)
    } else {
        let data = taken(v.queue, DRAIN_CHUNK as nat);
        let w = DrainView { queue: after_pop(v.queue, DRAIN_CHUNK as nat), ..v };
        if connected {
            (
                DrainView { stage: DrainStage::PcmSent(data.len() as usize), ..w },
                DrainAsk::Send(frame_bytes(FrameView::Pcm(data))),
            )
        } else {
            (DrainView { stage: DrainStage::Top, ..w }, DrainAsk::Continue)
        }
    }
}

/// Forward a pending flush.
pub open spec fn drain_flush(v: DrainView, connected: bool) -> (DrainView, DrainAsk) {
    let w = DrainView { sig: Signals { flush: false, ..v.sig }, ..v };
    if v.sig.flush && connected {
        (
            DrainView { stage: DrainStage::FlushSent, ..w },
            DrainAsk::Send(opcode_frame(MSG_FLUSH)),
        )
    } else {
        drain_pop(w, connected)
    }
}

/// Begin a round: forward a pending mute or unmute.
pub open spec fn drain_top(v: DrainView, stop: bool, connected: bool) -> (DrainView, DrainAsk) {
    let w = DrainView { sig: Signals { mute_cmd: 0, ..v.sig }, ..v };
    if stop {
        (DrainView { stage: DrainStage::End, ..v }, DrainAsk::Finish)
    } else if v.sig.mute_cmd != 0 && connected {
        (
            DrainView { stage: DrainStage::MuteSent, ..w },
            DrainAsk::Send(opcode_frame(v.sig.mute_cmd)),
        )
    } else {
        drain_flush(w, connected)
    }
}

/// One step: `stop` is whether the handle is being closed, `connected` whether
/// there is a connection, `ok` whether the last action succeeded. Bytes that
/// could not be sent are dropped; the new connection starts with the next
/// chunk.
pub open spec fn drain_next(v: DrainView, stop: bool, connected: bool, ok: bool) -> (
    DrainView,
    DrainAsk,
) {
    let end = (DrainView { stage: DrainStage::End, ..v }, DrainAsk::Finish);
    let top = DrainView { stage: DrainStage::Top, ..v };
    match v.stage {
        DrainStage::Top => drain_top(v, stop, connected),
        DrainStage::MuteSent => if ok {
            drain_flush(v, connected)
        } else {
            (DrainView { stage: DrainStage::MuteReconnect, ..v }, DrainAsk::Reconnect)
        },
        DrainStage::MuteReconnect => if ok {
            drain_flush(v, connected)
        } else {
            end
        },
        DrainStage::FlushSent => if ok {
            drain_pop(v, connected)
        } else {
            (DrainView { stage: DrainStage::FlushReconnect, ..v }, DrainAsk::Reconnect)
        },
        DrainStage::FlushReconnect => if ok {
            drain_pop(v, connected)
        } else {
            end
        },
        DrainStage::Popping => drain_pop(v, connected),
        DrainStage::PcmSent(n) => if ok {
            (
                DrainView { written: wrapped_sum(v.written, n as nat), ..top },
                DrainAsk::Continue,
            )
        } else {
            (DrainView { stage: DrainStage::PcmReconnect, ..v }, DrainAsk::Reconnect)
        },
        DrainStage::PcmReconnect => if ok {
            (top, DrainAsk::Continue)
        } else {
            end
        },
        DrainStage::End => (v, DrainAsk::Finish),
    }
}

/// The server can read whatever the thread sends: every piece is exactly one
/// frame, and audio frames are never longer than a drain chunk.
pub proof fn law_speaks_protocol(v: DrainView, stop: bool, connected: bool, ok: bool)
    requires
        v.sig.mute_cmd == 0 || v.sig.mute_cmd == MSG_MUTE || v.sig.mute_cmd == MSG_UNMUTE,
    ensures
        drain_next(v, stop, connected, ok).1 matches DrainAsk::Send(b) ==> exists|f: FrameView|
            {
                &&& b == #[trigger] frame_bytes(f)
                &&& parse(b, true) == (Parsed {
                    frames: seq![f],
                    bad: false,
                    rest: Seq::empty(),
                })
                &&& f matches FrameView::Pcm(data) ==> 0 < data.len() <= DRAIN_CHUNK
            },
{
    if let DrainAsk::Send(b) = drain_next(v, stop, connected, ok).1 {
        let data = taken(v.queue, DRAIN_CHUNK as nat);
        let f = if b == opcode_frame(MSG_MUTE) {
            FrameView::Command(Cmd::Mute)
        } else if b == opcode_frame(MSG_UNMUTE) {
            FrameView::Command(Cmd::Unmute)
        } else if b == opcode_frame(MSG_FLUSH) {
            FrameView::Command(Cmd::Flush)
        } else {
            FrameView::Pcm(data)
        };
        assert(opcode_frame(MSG_MUTE) =~= cmd_bytes(Cmd::Mute));
        assert(opcode_frame(MSG_UNMUTE) =~= cmd_bytes(Cmd::Unmute));
        assert(opcode_frame(MSG_FLUSH) =~= cmd_bytes(Cmd::Flush));
        assert(b == frame_bytes(f));
        let one = seq![f];
        assert(one.skip(1) =~= Seq::empty());
        assert(stream_bytes(one.skip(1)) =~= Seq::empty());
        assert(stream_bytes(one) =~= frame_bytes(f));
        law_frames_round_trip(one);
    }
}

/// While there is a connection, no byte of the ring is lost on the way to the
/// socket: what is sent, followed by what stays, is what was queued.
pub proof fn law_ring_is_forwarded(v: DrainView, stop: bool, ok: bool)
    ensures
        ({
            let (w, a) = drain_next(v, stop, true, ok);
            &&& w.stage is PcmSent && a is Send ==> exists|data: Seq<u8>|
                {
                    &&& a == DrainAsk::Send(#[trigger] frame_bytes(FrameView::Pcm(data)))
                    &&& data + w.queue == v.queue
                }
            &&& !(w.stage is PcmSent && a is Send) ==> w.queue == v.queue
        }),
{
    let (w, a) = drain_next(v, stop, true, ok);
    if w.stage is PcmSent && a is Send {
        let data = taken(v.queue, DRAIN_CHUNK as nat);
        assert(data + after_pop(v.queue, DRAIN_CHUNK as nat) =~= v.queue);
        assert(a == DrainAsk::Send(frame_bytes(FrameView::Pcm(data))));
    }
}

/// The thread's own state.
pub struct Drain {
    stage: DrainStage,
}

impl Drain {
    /// What the thread waits for.
    pub closed spec fn stage_spec(&self) -> DrainStage {
        self.stage
    }

    /// Everything that the thread acts on.
    pub open spec fn with(&self, h: &snd_pcm_t, sig: &Signals) -> DrainView {
        DrainView {
            stage: self.stage_spec(),
            sig: *sig,
            queue: h.ring@,
            interrupted: h.ring.is_interrupted(),
            written: h.shape.total_written,
        }
    }

    pub fn new() -> (d: Self)
        ensures
            d.stage_spec() == DrainStage::Top,
    {
        Drain { stage: DrainStage::Top }
    }

    fn pop(&mut self, h: &mut snd_pcm_t, sig: &Signals, connected: bool) -> (a: DrainAction)
        requires
            old(h).wf(),
        ensures
            final(h).wf(),
            final(h).shape == old(h).shape,
            final(h).ring.cap_spec() == old(h).ring.cap_spec(),
            (final(self).with(final(h), sig), a@) == drain_pop(
                old(self).with(old(h), sig),
                connected,
            ),
    {
        let ghost v = self.with(h, sig);
        let mut buf: Vec<u8> = vec![0u8; DRAIN_CHUNK];
        match h.ring.pop(buf.as_mut_slice()) {
            PopOutcome::Interrupted => {
                self.stage = DrainStage::Top;
                DrainAction::Continue
            },
            PopOutcome::Empty => {
                self.stage = DrainStage::Popping;
                DrainAction::Wait
            },
            PopOutcome::Bytes(n) => {
                if connected {
                    buf.truncate(n);
                    assert(buf@ =~= taken(v.queue, DRAIN_CHUNK as nat));
                    self.stage = DrainStage::PcmSent(n);
                    DrainAction::Send(encode_pcm(buf.as_slice()))
                } else {
                    self.stage = DrainStage::Top;
                    DrainAction::Continue
                }
            },
        }
    }

    fn flush(&mut self, h: &mut snd_pcm_t, sig: &mut Signals, connected: bool) -> (a: DrainAction)
        requires
            old(h).wf(),
        ensures
            final(h).wf(),
            final(h).shape == old(h).shape,
            final(h).ring.cap_spec() == old(h).ring.cap_spec(),
            (final(self).with(final(h), final(sig)), a@) == drain_flush(
                old(self).with(old(h), old(sig)),
                connected,
            ),
    {
        let pending = sig.flush;
        sig.flush = false;
        if pending && connected {
            self.stage = DrainStage::FlushSent;
            return DrainAction::Send(opcode_bytes(MSG_FLUSH));
        }
        self.pop(h, sig, connected)
    }

    /// The next action.
    pub fn step(
        &mut self,
        h: &mut snd_pcm_t,
        sig: &mut Signals,
        stop: bool,
        connected: bool,
        ok: bool,
    ) -> (a: DrainAction)
        requires
            old(h).wf(),
        ensures
            final(h).wf(),
            final(h).ring.cap_spec() == old(h).ring.cap_spec(),
            final(h).shape == (Shape {
                total_written: final(h).shape.total_written,
                ..old(h).shape
            }),
            (final(self).with(final(h), final(sig)), a@) == drain_next(
                old(self).with(old(h), old(sig)),
                stop,
                connected,
                ok,
            ),
    {
        match self.stage {
            DrainStage::Top => {
                if stop {
                    self.stage = DrainStage::End;
                    return DrainAction::Finish;
                }
                let cmd: u8 = sig.mute_cmd;
                sig.mute_cmd = 0;
                if cmd != 0 && connected {
                    self.stage = DrainStage::MuteSent;
                    return DrainAction::Send(opcode_bytes(cmd));
                }
                self.flush(h, sig, connected)
            },
            DrainStage::MuteSent => {
                if ok {
                    self.flush(h, sig, connected)
                } else {
                    self.stage = DrainStage::MuteReconnect;
                    DrainAction::Reconnect
                }
            },
            DrainStage::MuteReconnect => {
                if ok {
                    self.flush(h, sig, connected)
                } else {
                    self.stage = DrainStage::End;
                    DrainAction::Finish
                }
            },
            DrainStage::FlushSent => {
                if ok {
                    self.pop(h, sig, connected)
                } else {
                    self.stage = DrainStage::FlushReconnect;
                    DrainAction::Reconnect
                }
            },
            DrainStage::FlushReconnect => {
                if ok {
                    self.pop(h, sig, connected)
                } else {
                    self.stage = DrainStage::End;
                    DrainAction::Finish
                }
            },
            DrainStage::Popping => self.pop(h, sig, connected),
            DrainStage::PcmSent(n) => {
                if ok {
                    h.shape.total_written = h.shape.total_written.wrapping_add(n);
                    self.stage = DrainStage::Top;
                    DrainAction::Continue
                } else {
                    self.stage = DrainStage::PcmReconnect;
                    DrainAction::Reconnect
                }
            },
            DrainStage::PcmReconnect => {
                if ok {
                    self.stage = DrainStage::Top;
                    DrainAction::Continue
                } else {
                    self.stage = DrainStage::End;
                    DrainAction::Finish
                }
            },
            DrainStage::End => DrainAction::Finish,
        }
    }
}

/// The frame of a control opcode.
fn opcode_bytes(op: u8) -> (b: Vec<u8>)
    ensures
        b@ == opcode_frame(op),
{
    let mut b: Vec<u8> = Vec::new();
    push_u32(&mut b, 0);
    b.push(op);
    assert(b@ =~= opcode_frame(op));
    b
}

// ── Sending ──
/// What came of an attempt to send.
#[derive(Clone, Copy, Debug, PartialEq, Eq, Structural)]
pub enum SendEvent {
    /// So many bytes were taken.
    Sent(usize),
    /// The call was interrupted.
    Interrupted,
    /// The socket is full.
    Busy,
    Failed,
}

/// What to do next to get all bytes out.
#[derive(Clone, Copy, Debug, PartialEq, Eq, Structural)]
pub enum SendAction {
    /// Send the bytes from this position on.
    From(usize),
    /// Give way, and send the bytes from this position on.
    YieldThenFrom(usize),
    Done,
    Failed,
}

/// Bytes on their way out.
#[derive(Clone, Copy, Debug, PartialEq, Eq, Structural)]
pub struct WriteAll {
    pub pos: usize,
    pub len: usize,
}

/// Go on from a position.
pub open spec fn send_from(w: WriteAll) -> SendAction {
    if w.pos < w.len {
        SendAction::From(w.pos)
    } else {
        SendAction::Done
    }
}

impl WriteAll {
    /// `len` bytes to send.
    pub fn new(len: usize) -> (w: Self)
        ensures
            w == (WriteAll { pos: 0, len }),
    {
        WriteAll { pos: 0, len }
    }

    /// The first action.
    pub fn begin(&self) -> (a: SendAction)
        ensures
            a == send_from(*self),
    {
        if self.pos < self.len {
            SendAction::From(self.pos)
        } else {
            SendAction::Done
        }
    }

    /// The next action: an interrupted call is repeated, a full socket is
    /// tried again, any other failure ends the attempt.
    pub fn write_all(&mut self, ev: SendEvent) -> (a: SendAction)
        requires
            old(self).pos <= old(self).len,
            ev matches SendEvent::Sent(n) ==> old(self).pos + n <= old(self).len,
        ensures
            final(self).len == old(self).len,
            final(self).pos <= final(self).len,
            match ev {
                SendEvent::Sent(n) => final(self).pos == old(self).pos + n && a == send_from(
                    *final(self),
                ),
                SendEvent::Interrupted => *final(self) == *old(self) && a == send_from(
                    *final(self),
                ),
                SendEvent::Busy => *final(self) == *old(self) && a == SendAction::YieldThenFrom(
                    old(self).pos,
                ),
                SendEvent::Failed => *final(self) == *old(self) && a == SendAction::Failed,
            },
    {
        match ev {
            SendEvent::Sent(n) => {
                self.pos = self.pos + n;
                self.begin()
            },
            SendEvent::Interrupted => self.begin(),
            SendEvent::Busy => SendAction::YieldThenFrom(self.pos),
            SendEvent::Failed => SendAction::Failed,
        }
    }
}

// ── Reconnecting ──
/// Milliseconds to wait before the next attempt to reconnect.
#[derive(Clone, Copy, Debug, PartialEq, Eq, Structural)]
pub struct Backoff {
    pub ms: u64,
}

/// The wait after a failed attempt that waited `ms`: twice as long, two
/// seconds at most.
pub open spec fn longer(ms: u64) -> u64 {
    if ms * 2 < 2000 {
        (ms * 2) as u64
    } else {
        2000
    }
}

impl Backoff {
    /// Waits from 50 milliseconds up.
    pub fn new() -> (b: Self)
        ensures
            b.ms == 50,
    {
        Backoff { ms: 50 }
    }

    /// An attempt failed: how long to wait, in milliseconds.
    pub fn failed(&mut self) -> (wait: u64)
        ensures
            wait == old(self).ms,
            final(self).ms == longer(old(self).ms),
    {
        let wait: u64 = self.ms;
        self.ms = if wait < 1000 {
            wait * 2
        } else {
            2000
        };
        wait
    }
}

/// Waits never fall below 50 milliseconds nor rise above two seconds, and
/// never get shorter.
pub proof fn law_backoff(ms: u64)
    requires
        50 <= ms <= 2000,
    ensures
        50 <= longer(ms) <= 2000,
        ms <= longer(ms),
{
}

/// What a reconnect waits for.
#[derive(Clone, Copy, Debug, PartialEq, Eq, Structural)]
pub enum ReconnectStage {
    Begin,
    /// The old connection to be closed, or a wait to end.
    Pausing,
    Connecting,
    /// The header to be sent.
    Announcing,
    Connected,
    GivenUp,
}

/// What a reconnect does next.
pub enum ReconnectAction {
    /// Close the old connection, if there is one.
    Close,
    Connect,
    /// Sleep so many milliseconds.
    Sleep(u64),
    /// Send this header over the new connection.
    Announce(Vec<u8>),
    /// There is a connection.
    Connected,
    /// The handle is being closed.
    GiveUp,
}

/// What a reconnect does next.
pub ghost enum ReconnectAsk {
    Close,
    Connect,
    Sleep(int),
    Announce(Seq<u8>),
    Connected,
    GiveUp,
}

impl View for ReconnectAction {
    type V = ReconnectAsk;

    open spec fn view(&self) -> ReconnectAsk {
        match *self {
            ReconnectAction::Close => ReconnectAsk::Close,
            ReconnectAction::Connect => ReconnectAsk::Connect,
            ReconnectAction::Sleep(ms) => ReconnectAsk::Sleep(ms as int),
            ReconnectAction::Announce(b) => ReconnectAsk::Announce(b@),
            ReconnectAction::Connected => ReconnectAsk::Connected,
            ReconnectAction::GiveUp => ReconnectAsk::GiveUp,
        }
    }
}

/// A reconnect: what it waits for, how long the next wait is, and the handle.
pub ghost struct ReconnectView {
    pub stage: ReconnectStage,
    pub ms: u64,
    pub shape: Shape,
}

/// A handle that starts anew on a new connection.
pub open spec fn restarted(s: Shape) -> Shape {
    Shape { total_pushed: 0, total_written: 0, play_start: None, ..s }
}

/// Try again, unless the handle is being closed.
pub open spec fn reconnect_try(v: ReconnectView, stop: bool) -> (ReconnectView, ReconnectAsk) {
    if stop {
        (ReconnectView { stage: ReconnectStage::GivenUp, ..v }, ReconnectAsk::GiveUp)
    } else {
        (ReconnectView { stage: ReconnectStage::Connecting, ..v }, ReconnectAsk::Connect)
    }
}

/// One step: `stop` is whether the handle is being closed, `ok` whether the
/// last action succeeded. A header that cannot be sent is no reason to try
/// again: the next write finds out.
pub open spec fn reconnect_next(v: ReconnectView, stop: bool, ok: bool) -> (
    ReconnectView,
    ReconnectAsk,
) {
    let connected = ReconnectView { stage: ReconnectStage::Connected, ..v };
    match v.stage {
        ReconnectStage::Begin => (
            ReconnectView { stage: ReconnectStage::Pausing, ..v },
            ReconnectAsk::Close,
        ),
        ReconnectStage::Pausing => reconnect_try(v, stop),
        ReconnectStage::Connecting => if ok {
            match v.shape.header {
                Some(a) => (
                    ReconnectView {
                        stage: ReconnectStage::Announcing,
                        shape: restarted(v.shape),
                        ..v
                    },
                    ReconnectAsk::Announce(header_bytes(a.rate, a.channels, a.format)),
                ),
                None => (
                    ReconnectView { shape: restarted(v.shape), ..connected },
                    ReconnectAsk::Connected,
                ),
            }
        } else {
            (
                ReconnectView { stage: ReconnectStage::Pausing, ms: longer(v.ms), ..v },
                ReconnectAsk::Sleep(v.ms as int),
            )
        },
        ReconnectStage::Announcing => (connected, ReconnectAsk::Connected),
        ReconnectStage::Connected => (v, ReconnectAsk::Connected),
        ReconnectStage::GivenUp => (v, ReconnectAsk::GiveUp),
    }
}

/// A reconnect ends in a connection or because the handle is closed, never
/// otherwise, and does not wait once it has either; the counters start anew
/// exactly when a connection stands.
pub proof fn law_reconnect(v: ReconnectView, stop: bool, ok: bool)
    requires
        50 <= v.ms <= 2000,
    ensures
        ({
            let (w, a) = reconnect_next(v, stop, ok);
            &&& 50 <= w.ms <= 2000
            &&& v.ms <= w.ms
            &&& a is GiveUp ==> stop || v.stage == ReconnectStage::GivenUp
            &&& v.stage == ReconnectStage::Pausing && !stop ==> a is Connect
            &&& v.stage == ReconnectStage::Connecting && ok ==> w.shape == restarted(v.shape)
            &&& !(v.stage == ReconnectStage::Connecting && ok) ==> w.shape == v.shape
            &&& a matches ReconnectAsk::Sleep(ms) ==> 50 <= ms <= 2000
        }),
{
}

/// A reconnect in progress.
pub struct Reconnect {
    stage: ReconnectStage,
    backoff: Backoff,
}

impl Reconnect {
    /// The reconnect and the handle it is for.
    pub closed spec fn with(&self, h: &snd_pcm_t) -> ReconnectView {
        ReconnectView { stage: self.stage, ms: self.backoff.ms, shape: h.shape }
    }

    /// A reconnect for a handle whose connection has failed.
    pub fn new() -> (r: Self)
        ensures
            forall|h: &snd_pcm_t|
                #[trigger] r.with(h) == (ReconnectView {
                    stage: ReconnectStage::Begin,
                    ms: 50,
                    shape: h.shape,
                }),
    {
        Reconnect { stage: ReconnectStage::Begin, backoff: Backoff::new() }
    }

    /// The next action.
    pub fn step(&mut self, h: &mut snd_pcm_t, stop: bool, ok: bool) -> (a: ReconnectAction)
        ensures
            final(h).ring == old(h).ring,
            (final(self).with(final(h)), a@) == reconnect_next(
                old(self).with(old(h)),
                stop,
                ok,
            ),
    {
        match self.stage {
            ReconnectStage::Begin => {
                self.stage = ReconnectStage::Pausing;
                ReconnectAction::Close
            },
            ReconnectStage::Pausing => {
                if stop {
                    self.stage = ReconnectStage::GivenUp;
                    ReconnectAction::GiveUp
                } else {
                    self.stage = ReconnectStage::Connecting;
                    ReconnectAction::Connect
                }
            },
            ReconnectStage::Connecting => {
                if !ok {
                    self.stage = ReconnectStage::Pausing;
                    return ReconnectAction::Sleep(self.backoff.failed());
                }
                match h.reconnected() {
                    Some(header) => {
                        self.stage = ReconnectStage::Announcing;
                        ReconnectAction::Announce(header)
                    },
                    None => {
                        self.stage = ReconnectStage::Connected;
                        ReconnectAction::Connected
                    },
                }
            },
            ReconnectStage::Announcing => {
                self.stage = ReconnectStage::Connected;
                ReconnectAction::Connected
            },
            ReconnectStage::Connected => ReconnectAction::Connected,
            ReconnectStage::GivenUp => ReconnectAction::GiveUp,
        }
    }
}

/// What a round of the thread does, in this order: it ends when the handle is
/// closed; a pending mute or unmute goes out first, as its opcode behind four
/// zero bytes, then a pending flush; each goes out once. Then, unless the ring
/// is interrupted, the oldest 1024 bytes of audio go out, or all where there
/// are fewer; an empty ring is waited for.
pub proof fn law_drain_round(v: DrainView, stop: bool, ok: bool)
    requires
        v.stage == DrainStage::Top,
    ensures
        ({
            let (w, a) = drain_next(v, stop, true, ok);
            if stop {
                a is Finish && w.stage == DrainStage::End
            } else if v.sig.mute_cmd != 0 {
                &&& a == DrainAsk::Send(seq![0u8, 0, 0, 0, v.sig.mute_cmd])
                &&& w.sig == Signals { mute_cmd: 0, ..v.sig }
                &&& w.queue == v.queue && w.stage == DrainStage::MuteSent
            } else if v.sig.flush {
                &&& a == DrainAsk::Send(seq![0u8, 0, 0, 0, 0x46])
                &&& w.sig == Signals { flush: false, ..v.sig }
                &&& w.queue == v.queue && w.stage == DrainStage::FlushSent
            } else if v.interrupted {
                a is Continue && !w.interrupted && w.queue == v.queue && w.stage == DrainStage::Top
            } else if v.queue.len() == 0 {
                a is Wait && w.queue == v.queue && w.stage == DrainStage::Popping
            } else {
                a matches DrainAsk::Send(b) && {
                    &&& b.len() == 4 + (v.queue.len() - w.queue.len())
                    &&& b.skip(4) + w.queue == v.queue
                    &&& b.skip(4).len() == 1024 || (b.skip(4).len() < 1024 && w.queue.len() == 0)
                    &&& w.stage == DrainStage::PcmSent(b.skip(4).len() as usize)
                }
            }
        }),
{
    let (w, a) = drain_next(v, stop, true, ok);
    if !stop {
        if v.sig.mute_cmd != 0 {
            assert(opcode_frame(v.sig.mute_cmd) =~= seq![0u8, 0, 0, 0, v.sig.mute_cmd]);
        } else if v.sig.flush {
            assert(opcode_frame(MSG_FLUSH) =~= seq![0u8, 0, 0, 0, 0x46]);
            assert(w.sig == Signals { flush: false, ..v.sig });
        } else if !v.interrupted && v.queue.len() > 0 {
            let data = taken(v.queue, DRAIN_CHUNK as nat);
            let b = a->Send_0;
            assert(b.skip(4) =~= data);
            assert(b.skip(4) + w.queue =~= v.queue);
        }
    }
}

/// After a mute went out the flush is next, and after a flush the audio; what
/// was sent is counted once it was; and a failed send leads to a reconnect,
/// which ends the thread when it is given up.
pub proof fn law_drain_goes_on(v: DrainView, stop: bool, ok: bool)
    ensures
        ({
            let (w, a) = drain_next(v, stop, true, ok);
            &&& v.stage is MuteSent || v.stage is FlushSent || v.stage is PcmSent ==> (a
                is Reconnect <==> !ok)
            &&& v.stage is MuteReconnect || v.stage is FlushReconnect || v.stage is PcmReconnect
                ==> (a is Finish <==> !ok)
            &&& (v.stage is MuteSent || v.stage is MuteReconnect) && ok && v.sig.flush ==> a
                == DrainAsk::Send(seq![0u8, 0, 0, 0, 0x46])
            &&& v.stage matches DrainStage::PcmSent(n) ==> if ok {
                a is Continue && w.stage == DrainStage::Top && (v.written + n <= usize::MAX
                    ==> w.written == v.written + n)
            } else {
                w.written == v.written
            }
            &&& !(v.stage is PcmSent) ==> w.written == v.written
            &&& v.stage == DrainStage::End ==> a is Finish && w == v
        }),
{
    assert(opcode_frame(MSG_FLUSH) =~= seq![0u8, 0, 0, 0, 0x46]);
}

/// On a new connection the counters and the playhead start anew, and nothing
/// else about the handle changes; a configured stream is announced with its own
/// rate, channels and format.
pub proof fn law_new_connection(v: ReconnectView, stop: bool)
    requires
        v.stage == ReconnectStage::Connecting,
    ensures
        ({
            let (w, a) = reconnect_next(v, stop, true);
            &&& w.shape.total_pushed == 0 && w.shape.total_written == 0 && w.shape.play_start is None
            &&& w.shape.rate == v.shape.rate && w.shape.channels == v.shape.channels
            &&& w.shape.format == v.shape.format && w.shape.configured == v.shape.configured
            &&& w.shape.state == v.shape.state && w.shape.header == v.shape.header
            &&& match v.shape.header {
                Some(h) => a matches ReconnectAsk::Announce(b) && b == header_bytes(
                    h.rate,
                    h.channels,
                    h.format,
                ) && w.stage == ReconnectStage::Announcing,
                None => a is Connected && w.stage == ReconnectStage::Connected,
            }
        }),
        ({
            let (w, a) = reconnect_next(v, stop, false);
            &&& w.shape == v.shape
            &&& a == ReconnectAsk::Sleep(v.ms as int)
            &&& w.ms == v.ms + v.ms || (v.ms + v.ms >= 2000 && w.ms == 2000)
            &&& w.stage == ReconnectStage::Pausing
        }),
{
}

/// Bytes go out from where the last call left off until all are out.
pub proof fn law_send_all(w: WriteAll)
    ensures
        send_from(w) is Done <==> w.pos >= w.len,
        w.pos < w.len ==> send_from(w) == SendAction::From(w.pos),
{
}

/// Without a connection nothing is sent, and what is pending is let go of: the
/// commands, and the oldest 1024 bytes of audio at a time.
pub proof fn law_drain_without_connection(v: DrainView, ok: bool)
    requires
        v.stage == DrainStage::Top || v.stage == DrainStage::Popping,
    ensures
        ({
            let (w, a) = drain_next(v, false, false, ok);
            &&& !(a is Send) && !(a is Finish) && !(a is Reconnect)
            &&& v.stage == DrainStage::Top ==> w.sig.mute_cmd == 0 && !w.sig.flush
            &&& w.sig.last_silent == v.sig.last_silent
            &&& w.written == v.written
            &&& if v.interrupted {
                a is Continue && !w.interrupted && w.queue == v.queue
            } else if v.queue.len() == 0 {
                a is Wait && w.queue == v.queue
            } else {
                &&& a is Continue && w.stage == DrainStage::Top
                &&& w.queue == v.queue.skip(v.queue.len() - w.queue.len())
                &&& v.queue.len() - w.queue.len() == 1024 || (v.queue.len() < 1024
                    && w.queue.len() == 0)
            }
        }),
{
    let (w, a) = drain_next(v, false, false, ok);
    if !v.interrupted && v.queue.len() > 0 {
        assert(w.queue =~= v.queue.skip(v.queue.len() - w.queue.len()));
    }
}

/// What is said of an action is said of what it carries.
pub proof fn law_actions_are_what_they_carry(d: DrainAction, r: ReconnectAction)
    ensures
        d matches DrainAction::Send(b) ==> d@ == DrainAsk::Send(b@),
        d is Reconnect <==> d@ is Reconnect,
        d is Wait <==> d@ is Wait,
        d is Continue <==> d@ is Continue,
        d is Finish <==> d@ is Finish,
        r matches ReconnectAction::Announce(b) ==> r@ == ReconnectAsk::Announce(b@),
        r matches ReconnectAction::Sleep(ms) ==> r@ == ReconnectAsk::Sleep(ms as int),
        r is Close <==> r@ is Close,
        r is Connect <==> r@ is Connect,
        r is Connected <==> r@ is Connected,
        r is GiveUp <==> r@ is GiveUp,
{
}

/// What the thread acts on is the handle's own ring and count and the pending
/// commands.
pub proof fn law_drain_sees_the_handle(d: &Drain, h: &snd_pcm_t, sig: &Signals)
    ensures
        d.with(h, sig).queue == h.ring@,
        d.with(h, sig).interrupted == h.ring.is_interrupted(),
        d.with(h, sig).written == h.shape.total_written,
        d.with(h, sig).sig == *sig,
        d.with(h, sig).stage == d.stage_spec(),
{
}

} // verus!
