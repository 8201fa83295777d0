//! Multi-client mixer.
//!
//! Pulls from the rings of all streams at hardware pace: at most
//! `SHIM_SERVER_FRAMES` frames wait in the playback ring, so the shim's
//! playhead model holds. Streams without data contribute silence; once every
//! stream has been dry for `IDLE_NS` the hardware is stopped, and stays
//! stopped until data flows again. A stream leaves once its client is gone and
//! its ring has drained.
//!
//! A flush drops the queued audio of one stream and halts the hardware right
//! away when no other stream has audio pending.
use crate::bytes::{as_signed16, get_i16, le16_at};
use crate::common::{SHIM_BUFFER_FRAMES, SHIM_SERVER_FRAMES};
use crate::ring::{accepts, is_next_power_of_two, AudioRingBuffer};
use vstd::prelude::*;

verus! {

/// Frames mixed per write (about 21 ms at 48 kHz).
pub const CHUNK_FRAMES: usize = 1024;

/// Nanoseconds of all-dry streams before the hardware is stopped.
pub const IDLE_NS: u64 = 250_000_000;

/// Nanoseconds between two looks at the output route.
pub const ROUTE_NS: u64 = 1_000_000_000;

/// As many streams as the accumulator can sum: one more could bring it below
/// the lowest 32-bit number.
pub const MAX_STREAMS: usize = 65536;

/// One client's place in the mix.
pub struct MixerStream {
    ring: AudioRingBuffer,
    flush: bool,
    done: bool,
}

impl MixerStream {
    /// The stream's ring.
    pub closed spec fn ring_spec(&self) -> AudioRingBuffer {
        self.ring
    }

    /// Whether a flush is waiting to be applied.
    pub closed spec fn flush_pending(&self) -> bool {
        self.flush
    }

    /// Whether the client is gone.
    pub closed spec fn finished(&self) -> bool {
        self.done
    }

    /// A stream with an empty ring of at least `ring_bytes` bytes.
    pub fn new(ring_bytes: usize) -> (s: Self)
        requires
            ring_bytes <= usize::MAX / 4 + 1,
        ensures
            s.ring_spec().wf(),
            s.ring_spec()@ == Seq::<u8>::empty(),
            !s.ring_spec().is_interrupted(),
            is_next_power_of_two(s.ring_spec().cap_spec() as int, ring_bytes as int),
            !s.flush_pending(),
            !s.finished(),
    {
        MixerStream { ring: AudioRingBuffer::new(ring_bytes), flush: false, done: false }
    }

    /// Ask for the queued audio to be dropped at the next tick.
    pub fn request_flush(&mut self)
        ensures
            final(self).flush_pending(),
            final(self).finished() == old(self).finished(),
            final(self).ring_spec() == old(self).ring_spec(),
    {
        self.flush = true;
    }

    /// Mark the client gone; the stream leaves once its ring has drained.
    pub fn finish(&mut self)
        ensures
            final(self).finished(),
            final(self).flush_pending() == old(self).flush_pending(),
            final(self).ring_spec() == old(self).ring_spec(),
    {
        self.done = true;
    }
}

/// What the mixer knows of a stream.
pub ghost struct SlotView {
    pub id: u64,
    /// Bytes that can be queued.
    pub cap: nat,
    pub queued: Seq<u8>,
    pub flush: bool,
    pub done: bool,
}

/// A registered stream.
pub struct Slot {
    id: u64,
    stream: MixerStream,
}

impl View for Slot {
    type V = SlotView;

    closed spec fn view(&self) -> SlotView {
        SlotView {
            id: self.id,
            cap: self.stream.ring.cap_spec(),
            queued: self.stream.ring@,
            flush: self.stream.flush,
            done: self.stream.done,
        }
    }
}

/// A stream that has just been registered.
pub open spec fn fresh_slot(id: u64, cap: nat) -> SlotView {
    SlotView { id, cap, queued: Seq::empty(), flush: false, done: false }
}

/// The views of a list of slots.
pub open spec fn slot_views(s: Seq<Slot>) -> Seq<SlotView> {
    s.map_values(|x: Slot| x@)
}

/// Whether the identities of streams increase, so that no two are the same.
pub open spec fn ids_sorted(slots: Seq<SlotView>) -> bool {
    forall|i: int, j: int|
        0 <= i < j < slots.len() ==> (#[trigger] slots[i]).id < (#[trigger] slots[j]).id
}

/// Whether a stream has asked for a flush.
pub open spec fn any_flush(slots: Seq<SlotView>) -> bool {
    exists|i: int| 0 <= i < slots.len() && (#[trigger] slots[i]).flush
}

/// A stream whose flush, if it asked for one, has been applied.
pub open spec fn flushed(s: SlotView) -> SlotView {
    if s.flush {
        SlotView { queued: Seq::empty(), flush: false, ..s }
    } else {
        s
    }
}

/// All streams, with their flushes applied.
pub open spec fn flush_all(slots: Seq<SlotView>) -> Seq<SlotView> {
    slots.map_values(|s: SlotView| flushed(s))
}

/// Whether no stream has audio.
pub open spec fn all_dry(slots: Seq<SlotView>) -> bool {
    forall|i: int| 0 <= i < slots.len() ==> (#[trigger] slots[i]).queued.len() == 0
}

/// The streams that stay: those whose client is there, or that have audio
/// left.
pub open spec fn retained(slots: Seq<SlotView>) -> Seq<SlotView>
    decreases slots.len(),
{
    if slots.len() == 0 {
        Seq::empty()
    } else {
        let before = retained(slots.drop_last());
        let s = slots.last();
        if s.done && s.queued.len() == 0 {
            before
        } else {
            before.push(s)
        }
    }
}

/// Bytes that a stream contributes to `writable` frames: whole frames only.
pub open spec fn share(s: SlotView, writable: int) -> int {
    let whole = s.queued.len() as int / 4 * 4;
    if writable * 4 < whole {
        writable * 4
    } else {
        whole
    }
}

/// Sample `i` of a stream's contribution; silence behind its end.
pub open spec fn sample(s: SlotView, writable: int, i: int) -> int {
    if 2 * i + 2 <= share(s, writable) {
        as_signed16(le16_at(s.queued, 2 * i))
    } else {
        0
    }
}

/// The sum of all streams at sample `i`.
pub open spec fn sum_at(slots: Seq<SlotView>, writable: int, i: int) -> int
    decreases slots.len(),
{
    if slots.len() == 0 {
        0
    } else {
        sum_at(slots.drop_last(), writable, i) + sample(slots.last(), writable, i)
    }
}

/// The mix of `writable` stereo frames.
pub open spec fn mixed(slots: Seq<SlotView>, writable: int) -> Seq<int> {
    Seq::new((2 * writable) as nat, |i: int| sum_at(slots, writable, i))
}

/// The streams after their contributions were taken.
pub open spec fn drained(slots: Seq<SlotView>, writable: int) -> Seq<SlotView> {
    slots.map_values(
        |s: SlotView| SlotView { queued: s.queued.skip(share(s, writable)), ..s },
    )
}

/// Whether no stream has a whole frame.
pub open spec fn nothing_to_mix(slots: Seq<SlotView>, writable: int) -> bool {
    forall|i: int| 0 <= i < slots.len() ==> share(#[trigger] slots[i], writable) == 0
}

/// Frames that may be written when `delay` frames wait in the playback ring.
pub open spec fn writable_frames(delay: int) -> int {
    let room = SHIM_SERVER_FRAMES - delay;
    if room < 0 {
        0
    } else if room > CHUNK_FRAMES {
        CHUNK_FRAMES as int
    } else {
        room
    }
}

/// Whether the pacing for `delay` waiting frames can be computed in 64 bits.
pub open spec fn delay_ok(delay: i64) -> bool {
    SHIM_SERVER_FRAMES - delay <= i64::MAX && delay <= i64::MAX / 1000
}

/// Milliseconds to sleep while the playback ring is full: until a chunk should
/// have been played, less one, and ten at most.
pub open spec fn full_sleep(delay: int, mix_rate: int) -> int {
    let behind = delay - (SHIM_SERVER_FRAMES - CHUNK_FRAMES);
    let ms = behind * 1000 / mix_rate;
    let capped = if ms < 0 {
        0
    } else if ms > 10 {
        10
    } else {
        ms
    };
    if capped > 0 {
        capped - 1
    } else {
        0
    }
}

/// What the mixer waits for.
#[derive(Clone, Copy, Debug, PartialEq, Eq, Structural)]
pub enum MixStage {
    /// Nothing: the next step begins a tick.
    Tick,
    /// A stop because of a flush.
    FlushStop,
    /// A look at the output route.
    Route,
    /// A stop because of idleness, with a sleep of so many milliseconds to
    /// follow.
    IdleStop(u64),
    /// The delay of the playback ring.
    Delay,
}

/// What the mixer asks for.
pub enum MixAction {
    /// Stop the hardware and drop what it has.
    Stop,
    /// Look up the output route.
    RefreshRoute,
    /// Sleep so many milliseconds.
    Sleep(u64),
    /// Look up the delay of the playback ring.
    ReadDelay,
    /// Apply gain to these sums, limit them to 16 bits and play them.
    Play(Vec<i32>),
}

/// What the mixer asks for.
pub ghost enum MixAsk {
    Stop,
    RefreshRoute,
    Sleep(int),
    ReadDelay,
    Play(Seq<int>),
}

impl View for MixAction {
    type V = MixAsk;

    open spec fn view(&self) -> MixAsk {
        match *self {
            MixAction::Stop => MixAsk::Stop,
            MixAction::RefreshRoute => MixAsk::RefreshRoute,
            MixAction::Sleep(ms) => MixAsk::Sleep(ms as int),
            MixAction::ReadDelay => MixAsk::ReadDelay,
            MixAction::Play(v) => MixAsk::Play(v@.map_values(|x: i32| x as int)),
        }
    }
}

/// What came back.
#[derive(Clone, Copy, Debug, PartialEq, Eq, Structural)]
pub enum MixEvent {
    /// The last action is done.
    Done,
    /// The stop failed.
    StopFailed,
    /// The delay of the playback ring in frames.
    Delay(i64),
}

/// The state of the mixer.
pub ghost struct MixView {
    pub slots: Seq<SlotView>,
    pub live: int,
    pub stopped: bool,
    pub dry_since: Option<u64>,
    pub route_at: u64,
    pub last_delay: i64,
    pub stage: MixStage,
    pub mix_rate: int,
}

/// Nanoseconds from `t` to `now`.
pub open spec fn elapsed(t: u64, now: u64) -> int {
    if now > t {
        now - t
    } else {
        0
    }
}

/// Nothing is playing: stop the hardware once that has lasted, unless it is
/// stopped, and sleep `ms`.
pub open spec fn idle(v: MixView, ms: u64, now: u64) -> (MixView, MixAsk) {
    let since = match v.dry_since {
        Some(t) => t,
        None => now,
    };
    if v.stopped {
        (MixView { stage: MixStage::Tick, ..v }, MixAsk::Sleep(ms as int))
    } else if elapsed(since, now) < IDLE_NS {
        (
            MixView { dry_since: Some(since), stage: MixStage::Tick, ..v },
            MixAsk::Sleep(ms as int),
        )
    } else {
        (
            MixView { dry_since: Some(since), stage: MixStage::IdleStop(ms), ..v },
            MixAsk::Stop,
        )
    }
}

/// Go on once the output route is known.
pub open spec fn after_route(v: MixView, now: u64) -> (MixView, MixAsk) {
    if v.slots.len() == 0 {
        idle(v, 5, now)
    } else if all_dry(v.slots) {
        idle(v, 1, now)
    } else {
        (MixView { dry_since: None, stage: MixStage::Delay, ..v }, MixAsk::ReadDelay)
    }
}

/// Go on once flushes have been dealt with.
pub open spec fn after_flush(v: MixView, now: u64) -> (MixView, MixAsk) {
    let slots = retained(v.slots);
    let w = MixView { slots, live: slots.len() as int, ..v };
    if elapsed(v.route_at, now) >= ROUTE_NS {
        (MixView { route_at: now, stage: MixStage::Route, ..w }, MixAsk::RefreshRoute)
    } else {
        after_route(w, now)
    }
}

/// Begin a tick.
pub open spec fn begin(v: MixView, now: u64) -> (MixView, MixAsk) {
    if any_flush(v.slots) {
        let w = MixView { slots: flush_all(v.slots), dry_since: None, ..v };
        if all_dry(w.slots) && !v.stopped {
            (MixView { stage: MixStage::FlushStop, ..w }, MixAsk::Stop)
        } else {
            after_flush(w, now)
        }
    } else {
        after_flush(v, now)
    }
}

/// The hardware was stopped: nothing is delayed any more.
pub open spec fn halted(v: MixView) -> MixView {
    MixView { stopped: true, last_delay: 0, ..v }
}

/// What is played of a mix: all of it, or as many zeros when muted.
pub open spec fn audible(mix: Seq<int>, muted: bool) -> Seq<int> {
    if muted {
        Seq::new(mix.len(), |i: int| 0)
    } else {
        mix
    }
}

/// Mix what fits behind `delay` waiting frames.
pub open spec fn mix(v: MixView, delay: int, muted: bool) -> (MixView, MixAsk) {
    let n = writable_frames(delay);
    let w = MixView { stage: MixStage::Tick, ..v };
    if n == 0 {
        (w, MixAsk::Sleep(full_sleep(delay, v.mix_rate)))
    } else if nothing_to_mix(v.slots, n) {
        (w, MixAsk::Sleep(1))
    } else {
        (
            MixView { slots: drained(v.slots, n), stopped: false, ..w },
            MixAsk::Play(audible(mixed(v.slots, n), muted)),
        )
    }
}

/// One step of the mixer.
pub open spec fn mix_next(v: MixView, ev: MixEvent, now: u64, muted: bool) -> (MixView, MixAsk) {
    match v.stage {
        MixStage::Tick => begin(v, now),
        MixStage::FlushStop => if ev is StopFailed {
            after_flush(v, now)
        } else {
            after_flush(halted(v), now)
        },
        MixStage::Route => after_route(v, now),
        MixStage::IdleStop(ms) => (
            if ev is StopFailed {
                MixView { dry_since: Some(now), stage: MixStage::Tick, ..v }
            } else {
                MixView { dry_since: None, stage: MixStage::Tick, ..halted(v) }
            },
            MixAsk::Sleep(ms as int),
        ),
        MixStage::Delay => mix(
            v,
            match ev {
                MixEvent::Delay(d) => d as int,
                _ => 0,
            },
            muted,
        ),
    }
}

// ── Laws ──
/// The mixer never lets more than the agreed number of frames wait in the
/// playback ring, and never writes more than a chunk at once.
pub proof fn law_pacing(v: MixView, d: i64, now: u64, muted: bool)
    requires
        v.stage == MixStage::Delay,
    ensures
        mix_next(v, MixEvent::Delay(d), now, muted).1 matches MixAsk::Play(p) ==> {
            &&& p.len() % 2 == 0
            &&& p.len() / 2 <= CHUNK_FRAMES
            &&& d + p.len() / 2 <= SHIM_SERVER_FRAMES
        },
        SHIM_SERVER_FRAMES <= SHIM_BUFFER_FRAMES,
{
}

/// Muting silences, and does nothing else: a muted mixer goes through the same
/// states, takes the same audio from its streams and asks for the same actions,
/// but for what it plays, which is as long and all zeros.
pub proof fn law_mute_only_silences(v: MixView, ev: MixEvent, now: u64)
    ensures
        ({
            let (w, a) = mix_next(v, ev, now, false);
            let (mw, ma) = mix_next(v, ev, now, true);
            &&& mw == w
            &&& ma == match a {
                MixAsk::Play(p) => MixAsk::Play(Seq::new(p.len(), |i: int| 0)),
                _ => a,
            }
        }),
{
}

/// The sum of 16-bit sample `j` over the bytes of several streams; those that
/// end before it add nothing.
pub open spec fn heard(parts: Seq<Seq<u8>>, j: int) -> int
    decreases parts.len(),
{
    if parts.len() == 0 {
        0
    } else {
        heard(parts.drop_last(), j) + if 2 * j + 2 <= parts.last().len() {
            as_signed16(le16_at(parts.last(), 2 * j))
        } else {
            0
        }
    }
}

/// The bytes that left the streams between two states.
pub open spec fn gone(before: Seq<SlotView>, after: Seq<SlotView>) -> Seq<Seq<u8>> {
    Seq::new(
        before.len(),
        |i: int| before[i].queued.take(before[i].queued.len() - after[i].queued.len()),
    )
}

proof fn lemma_heard(slots: Seq<SlotView>, n: int, j: int)
    requires
        0 <= n,
        0 <= j,
    ensures
        heard(gone(slots, drained(slots, n)), j) == sum_at(slots, n, j),
    decreases slots.len(),
{
    let parts = gone(slots, drained(slots, n));
    if slots.len() > 0 {
        let short = slots.drop_last();
        lemma_heard(short, n, j);
        assert(parts.drop_last() =~= gone(short, drained(short, n)));
        let s = slots.last();
        assert(parts.last() =~= s.queued.take(share(s, n)));
    }
}

/// What leaves a stream is heard, and what is heard has left a stream: sample
/// `j` of what is played is the sum of sample `j` of the bytes that the step
/// takes off the streams, from the front and in whole frames. A stream gives
/// all its whole frames or as many as are played, and nothing else about it
/// changes. The playback ring is filled up to its 4096 frames, by 1024 at a
/// time.
pub proof fn law_what_leaves_is_heard(v: MixView, d: i64, now: u64, j: int)
    requires
        v.stage == MixStage::Delay,
        0 <= j,
    ensures
        ({
            let (w, a) = mix_next(v, MixEvent::Delay(d), now, false);
            &&& a is Play <==> d < 4096 && exists|i: int|
                0 <= i < v.slots.len() && (#[trigger] v.slots[i]).queued.len() >= 4
            &&& a matches MixAsk::Play(p) ==> {
                let parts = gone(v.slots, w.slots);
                &&& p.len() == 2 * vstd::math::min(1024, 4096 - d)
                &&& j < p.len() ==> p[j] == heard(parts, j)
                &&& j < p.len() && v.slots.len() == 1 ==> p[j] == if 2 * j + 2 <= parts[0].len() {
                    as_signed16(le16_at(v.slots[0].queued, 2 * j))
                } else {
                    0
                }
                &&& w.slots.len() == v.slots.len()
                &&& forall|i: int|
                    0 <= i < v.slots.len() ==> {
                        let (s, t) = (v.slots[i], #[trigger] w.slots[i]);
                        &&& parts[i] + t.queued == s.queued
                        &&& parts[i].len() % 4 == 0
                        &&& parts[i].len() == 2 * p.len() || (parts[i].len() < 2 * p.len()
                            && t.queued.len() < 4)
                        &&& t == SlotView { queued: t.queued, ..s }
                    }
            }
            &&& !(a is Play) ==> w.slots == v.slots
            &&& !(a is Play) && d < 4096 ==> a == MixAsk::Sleep(1)
        }),
{
    let n = writable_frames(d as int);
    let (w, a) = mix_next(v, MixEvent::Delay(d), now, false);
    if n > 0 {
        if exists|i: int| 0 <= i < v.slots.len() && (#[trigger] v.slots[i]).queued.len() >= 4 {
            let i = choose|i: int|
                0 <= i < v.slots.len() && (#[trigger] v.slots[i]).queued.len() >= 4;
            assert(share(v.slots[i], n) > 0);
        }
        lemma_heard(v.slots, n, j);
        let parts = gone(v.slots, drained(v.slots, n));
        if a is Play {
            assert forall|i: int| 0 <= i < v.slots.len() implies parts[i] + (
            #[trigger] w.slots[i]).queued == v.slots[i].queued by {
                let s = v.slots[i];
                assert(parts[i] =~= s.queued.take(share(s, n)));
                assert(parts[i] + w.slots[i].queued =~= s.queued);
            }
            if v.slots.len() == 1 {
                assert(v.slots.drop_last().len() == 0);
                assert(sum_at(v.slots.drop_last(), n, j) == 0);
                assert(parts[0] =~= v.slots[0].queued.take(share(v.slots[0], n)));
            }
        }
    }
}

/// While the playback ring is full the mixer sleeps less than ten milliseconds,
/// never longer than playing takes to make room for a chunk, and shorter than
/// that by less than two.
pub proof fn law_full_sleep(v: MixView, d: i64, now: u64, muted: bool)
    requires
        v.stage == MixStage::Delay,
        v.mix_rate > 0,
        d >= 4096,
    ensures
        ({
            let (w, a) = mix_next(v, MixEvent::Delay(d), now, muted);
            &&& w == MixView { stage: MixStage::Tick, ..v }
            &&& a matches MixAsk::Sleep(ms) && {
                &&& 0 <= ms <= 9
                &&& ms * v.mix_rate <= (d - 3072) * 1000
                &&& ms == 9 || (ms + 2) * v.mix_rate > (d - 3072) * 1000
            }
        }),
{
    let b = (d - 3072) * 1000;
    let r = v.mix_rate;
    vstd::arithmetic::div_mod::lemma_fundamental_div_mod(b, r);
    let q = b / r;
    let ms = full_sleep(d as int, r);
    assert(ms * r <= b && (ms == 9 || (ms + 2) * r > b)) by (nonlinear_arith)
        requires
            r > 0,
            b >= 0,
            b == r * q + b % r,
            0 <= b % r < r,
            ms == if q > 10 {
                9
            } else if q > 0 {
                q - 1
            } else {
                0
            },
            q >= 0,
    ;
}

/// Whether a stream has audio that no flush is about to drop.
pub open spec fn sounds(s: SlotView) -> bool {
    s.queued.len() > 0 && !s.flush
}

/// What a tick decides. A flush that leaves nothing to play stops the hardware;
/// else the output route is looked up once a second; else the mixer goes on to
/// mix as long as any stream has audio; else it sleeps, and stops the hardware
/// once 250 milliseconds have gone by without audio.
pub proof fn law_tick_decides(v: MixView, ev: MixEvent, now: u64, muted: bool)
    requires
        v.stage == MixStage::Tick,
    ensures
        ({
            let (w, a) = mix_next(v, ev, now, muted);
            let flush = exists|i: int| 0 <= i < v.slots.len() && (#[trigger] v.slots[i]).flush;
            let audio = exists|i: int| 0 <= i < v.slots.len() && sounds(#[trigger] v.slots[i]);
            let quiet = if flush {
                None
            } else {
                v.dry_since
            };
            if flush && !audio && !v.stopped {
                a is Stop && w.stage == MixStage::FlushStop
            } else if now >= v.route_at + 1_000_000_000 {
                a is RefreshRoute && w.route_at == now && w.stage == MixStage::Route
            } else if audio {
                a is ReadDelay && w.dry_since is None && w.stage == MixStage::Delay
            } else if v.stopped {
                a is Sleep && w.stage == MixStage::Tick && w.stopped
            } else if quiet matches Some(t) && now >= t + 250_000_000 {
                a is Stop && w.stage is IdleStop
            } else {
                &&& a is Sleep && w.stage == MixStage::Tick
                &&& w.dry_since == match quiet {
                    Some(t) => Some(t),
                    None => Some(now),
                }
            }
        }),
{
    let f = flush_all(v.slots);
    let r = retained(f);
    if exists|i: int| 0 <= i < v.slots.len() && sounds(#[trigger] v.slots[i]) {
        let i = choose|i: int| 0 <= i < v.slots.len() && sounds(#[trigger] v.slots[i]);
        assert(f[i] == v.slots[i]);
        assert(f[i].queued.len() > 0);
        law_retained(f, i);
        assert(r.contains(f[i]));
        let k = choose|k: int| 0 <= k < r.len() && r[k] == f[i];
        assert(r[k].queued.len() > 0);
        assert(!any_flush(v.slots) ==> f =~= v.slots);
    } else {
        assert forall|i: int| 0 <= i < f.len() implies (#[trigger] f[i]).queued.len() == 0 by {
            assert(!sounds(v.slots[i]));
        }
        lemma_retained(f);
        assert forall|k: int| 0 <= k < r.len() implies (#[trigger] r[k]).queued.len() == 0 by {
            let i = choose|i: int| 0 <= i < f.len() && f[i] == r[k];
            assert(f[i].queued.len() == 0);
        }
        assert(!any_flush(v.slots) ==> f =~= v.slots);
    }
    assert(any_flush(v.slots) == exists|i: int|
        0 <= i < v.slots.len() && (#[trigger] v.slots[i]).flush);
}

/// A tick that goes on drops the audio of the streams that asked for a flush and
/// no other, and lets go of the streams that are done and empty and of no
/// other.
pub proof fn law_tick_keeps_streams(v: MixView, ev: MixEvent, now: u64, muted: bool, s: SlotView)
    requires
        v.stage == MixStage::Tick,
        v.slots.contains(s),
    ensures
        ({
            let (w, a) = mix_next(v, ev, now, muted);
            let kept = if s.flush {
                SlotView { queued: Seq::empty(), flush: false, ..s }
            } else {
                s
            };
            &&& w.slots.contains(kept) || (kept.done && kept.queued.len() == 0 && w.stage
                != MixStage::FlushStop)
            &&& w.slots.len() <= v.slots.len()
            &&& w.stage != MixStage::FlushStop ==> w.live == w.slots.len()
            &&& w.stage != MixStage::FlushStop ==> forall|k: int|
                0 <= k < w.slots.len() ==> !((#[trigger] w.slots[k]).done
                    && w.slots[k].queued.len() == 0)
        }),
{
    let f = flush_all(v.slots);
    let i = choose|i: int| 0 <= i < v.slots.len() && v.slots[i] == s;
    assert(f[i] == flushed(s));
    law_retained(f, i);
    lemma_retained(f);
    lemma_none_done(f);
    if !any_flush(v.slots) {
        assert(f =~= v.slots);
    }
}

proof fn lemma_none_done(slots: Seq<SlotView>)
    ensures
        forall|k: int|
            0 <= k < retained(slots).len() ==> !((#[trigger] retained(slots)[k]).done
                && retained(slots)[k].queued.len() == 0),
    decreases slots.len(),
{
    if slots.len() > 0 {
        let short = slots.drop_last();
        lemma_none_done(short);
        assert forall|k: int| 0 <= k < retained(slots).len() implies !((
        #[trigger] retained(slots)[k]).done && retained(slots)[k].queued.len() == 0) by {
            if k < retained(short).len() {
                assert(retained(slots)[k] == retained(short)[k]);
            }
        }
    }
}

/// Once the hardware has stopped nothing is delayed, and it stays stopped until
/// something is played; a stop that failed is not taken for one, and after
/// idleness it is tried again only after the same time.
pub proof fn law_stop_takes_effect(v: MixView, ev: MixEvent, now: u64, muted: bool)
    requires
        v.stage == MixStage::FlushStop || v.stage is IdleStop,
    ensures
        ({
            let (w, a) = mix_next(v, ev, now, muted);
            if ev is StopFailed {
                &&& w.stopped == v.stopped
                &&& w.last_delay == v.last_delay
                &&& v.stage is IdleStop ==> w.dry_since == Some(now)
            } else {
                w.stopped && w.last_delay == 0
            }
        }),
        v.stage matches MixStage::IdleStop(ms) ==> mix_next(v, ev, now, muted).1
            == MixAsk::Sleep(ms as int) && mix_next(v, ev, now, muted).0.stage == MixStage::Tick
            && mix_next(v, ev, now, muted).0.slots == v.slots,
{
}

/// Mixing changes nothing but the streams' audio and whether the hardware runs,
/// and a tick leaves the delay and the hardware as they are.
pub proof fn law_rest_is_kept(v: MixView, ev: MixEvent, now: u64, muted: bool)
    requires
        v.stage == MixStage::Delay || v.stage == MixStage::Tick || v.stage == MixStage::Route,
    ensures
        ({
            let (w, a) = mix_next(v, ev, now, muted);
            &&& w.last_delay == v.last_delay && w.mix_rate == v.mix_rate
            &&& w.stopped == (v.stopped && !(a is Play))
            &&& v.stage == MixStage::Delay ==> w.live == v.live && w.dry_since == v.dry_since
                && w.route_at == v.route_at && w.stage == MixStage::Tick
            &&& v.stage == MixStage::Tick && !(a is RefreshRoute) ==> w.route_at == v.route_at
        }),
{
}

/// After the stop of a flush the tick goes on as one in which nothing was to be
/// flushed.
pub proof fn law_flush_stop_goes_on(v: MixView, ev: MixEvent, now: u64, muted: bool)
    requires
        v.stage == MixStage::FlushStop,
        forall|i: int| 0 <= i < v.slots.len() ==> !(#[trigger] v.slots[i]).flush,
    ensures
        mix_next(v, ev, now, muted) == mix_next(
            if ev is StopFailed {
                MixView { stage: MixStage::Tick, ..v }
            } else {
                MixView { stage: MixStage::Tick, stopped: true, last_delay: 0, ..v }
            },
            MixEvent::Done,
            now,
            muted,
        ),
{
}

/// As many streams are taken as can always be summed in 32 bits, and not one
/// fewer.
pub proof fn law_streams_fit_the_sum(slots: Seq<SlotView>, n: int, i: int)
    requires
        slots.len() <= MAX_STREAMS,
        0 <= i < 2 * n,
    ensures
        i32::MIN <= sum_at(slots, n, i) <= i32::MAX,
        -32768 * (MAX_STREAMS + 1) < i32::MIN,
{
    lemma_sum_bound(slots, n, i);
}

/// A new stream has no audio, no flush pending and a client, so the next tick
/// keeps it as it is.
pub proof fn law_new_stream(id: u64, cap: nat)
    ensures
        ({
            let s = fresh_slot(id, cap);
            &&& s.id == id && s.cap == cap && s.queued.len() == 0 && !s.flush && !s.done
            &&& retained(flush_all(seq![s])) == seq![s]
        }),
{
    let s = fresh_slot(id, cap);
    assert(flush_all(seq![s]) =~= seq![s]);
    assert(seq![s].drop_last() =~= Seq::empty());
    assert(retained(seq![s].drop_last()) =~= Seq::empty());
    assert(retained(seq![s]) =~= seq![s]);
}

/// Once the route is known the tick goes on: to mixing where there is audio, and
/// else to sleep, longer where there is no stream at all.
pub proof fn law_route_goes_on(v: MixView, ev: MixEvent, now: u64, muted: bool)
    requires
        v.stage == MixStage::Route,
    ensures
        ({
            let (w, a) = mix_next(v, ev, now, muted);
            &&& w.slots == v.slots && w.route_at == v.route_at
            &&& a is ReadDelay <==> exists|i: int|
                0 <= i < v.slots.len() && (#[trigger] v.slots[i]).queued.len() > 0
            &&& a is ReadDelay || a is Stop || (a matches MixAsk::Sleep(ms) && (ms == if v.slots.len()
                == 0 {
                5int
            } else {
                1
            }))
        }),
{
}

/// A stop is sticky: a stopped mixer asks for no further stop, and only
/// playing ends that.
pub proof fn law_stop_is_sticky(v: MixView, ev: MixEvent, now: u64, muted: bool)
    requires
        v.stopped,
        v.stage != MixStage::FlushStop,
        !(v.stage is IdleStop),
    ensures
        ({
            let (w, a) = mix_next(v, ev, now, muted);
            &&& !(a is Stop)
            &&& w.stopped || a is Play
        }),
{
}

/// Between two ticks, a mixer that has not stopped asks for a stop only after
/// its streams have been dry for the whole idle time, or because of a flush
/// that leaves nothing to play.
pub proof fn law_stop_needs_reason(v: MixView, now: u64, muted: bool)
    requires
        v.stage == MixStage::Tick,
        mix_next(v, MixEvent::Done, now, muted).1 is Stop,
    ensures
        !v.stopped,
        (any_flush(v.slots) && all_dry(flush_all(v.slots))) || (!any_flush(v.slots)
            && (v.dry_since matches Some(t) && elapsed(t, now) >= IDLE_NS)),
{
}

/// A flush is scoped to its stream: every other stream keeps its audio.
pub proof fn law_flush_is_scoped(slots: Seq<SlotView>, i: int)
    requires
        0 <= i < slots.len(),
    ensures
        flush_all(slots).len() == slots.len(),
        !slots[i].flush ==> flush_all(slots)[i] == slots[i],
        slots[i].flush ==> flush_all(slots)[i].queued.len() == 0,
        flush_all(slots)[i].id == slots[i].id,
{
}

/// A stream without a whole frame contributes silence.
pub proof fn law_dry_is_silent(s: SlotView, writable: int, i: int)
    requires
        s.queued.len() < 4,
        writable >= 0,
        i >= 0,
    ensures
        sample(s, writable, i) == 0,
{
}

/// Nothing is lost in the mix: what a stream contributes, followed by what it
/// keeps, is what it had.
pub proof fn law_mix_partitions(slots: Seq<SlotView>, writable: int, i: int)
    requires
        0 <= i < slots.len(),
        writable >= 0,
    ensures
        ({
            let n = share(slots[i], writable);
            &&& 0 <= n <= slots[i].queued.len()
            &&& slots[i].queued.take(n) + drained(slots, writable)[i].queued == slots[i].queued
        }),
{
    let s = slots[i];
    let n = share(s, writable);
    assert(s.queued.take(n) + s.queued.skip(n) =~= s.queued);
}

/// A stream stays until its client is gone and its audio is played.
pub proof fn law_retained(slots: Seq<SlotView>, i: int)
    requires
        0 <= i < slots.len(),
    ensures
        retained(slots).contains(slots[i]) || (slots[i].done && slots[i].queued.len() == 0),
    decreases slots.len(),
{
    let short = slots.drop_last();
    if i < short.len() {
        law_retained(short, i);
        assert(short[i] == slots[i]);
        if retained(short).contains(slots[i]) {
            let k = choose|k: int| 0 <= k < retained(short).len() && retained(short)[k] == slots[i];
            assert(retained(slots)[k] == slots[i]);
        }
    } else if !(slots[i].done && slots[i].queued.len() == 0) {
        assert(retained(slots).last() == slots[i]);
    }
}

proof fn lemma_retained(slots: Seq<SlotView>)
    ensures
        retained(slots).len() <= slots.len(),
        forall|k: int|
            0 <= k < retained(slots).len() ==> exists|i: int|
                0 <= i < slots.len() && slots[i] == #[trigger] retained(slots)[k],
        ids_sorted(slots) ==> ids_sorted(retained(slots)),
    decreases slots.len(),
{
    if slots.len() > 0 {
        let short = slots.drop_last();
        let r = retained(short);
        lemma_retained(short);
        assert forall|k: int| 0 <= k < retained(slots).len() implies exists|i: int|
            0 <= i < slots.len() && slots[i] == #[trigger] retained(slots)[k] by {
            if k < r.len() {
                let i = choose|i: int| 0 <= i < short.len() && short[i] == r[k];
                assert(slots[i] == retained(slots)[k]);
            } else {
                assert(slots[slots.len() - 1] == retained(slots)[k]);
            }
        }
        if ids_sorted(slots) {
            assert(ids_sorted(short));
            assert forall|i: int, j: int| 0 <= i < j < retained(slots).len() implies (
            #[trigger] retained(slots)[i]).id < (#[trigger] retained(slots)[j]).id by {
                assert(r[i] == retained(slots)[i]);
                if j == r.len() {
                    let k = choose|k: int| 0 <= k < short.len() && short[k] == r[i];
                    assert(slots[k].id < slots[slots.len() - 1].id);
                }
            }
        }
    }
}

proof fn lemma_update_keeps_order(slots: Seq<SlotView>, i: int, x: SlotView)
    requires
        ids_sorted(slots),
        0 <= i < slots.len(),
        x.id == slots[i].id,
    ensures
        ids_sorted(slots.update(i, x)),
{
    let t = slots.update(i, x);
    assert forall|a: int, b: int| 0 <= a < b < t.len() implies (#[trigger] t[a]).id < (
    #[trigger] t[b]).id by {
        assert(slots[a].id < slots[b].id);
    }
}

proof fn lemma_sum_bound(slots: Seq<SlotView>, writable: int, i: int)
    requires
        0 <= i < 2 * writable,
    ensures
        -32768 * slots.len() <= sum_at(slots, writable, i) <= 32767 * slots.len(),
    decreases slots.len(),
{
    if slots.len() > 0 {
        lemma_sum_bound(slots.drop_last(), writable, i);
        let s = slots.last();
        assert(-32768 <= sample(s, writable, i) <= 32767);
    }
}

/// The mixer.
pub struct Mixer {
    slots: Vec<Slot>,
    next_id: u64,
    live: usize,
    stopped: bool,
    dry_since: Option<u64>,
    route_at: u64,
    last_delay: i64,
    stage: MixStage,
    mix_rate: u32,
}

impl View for Mixer {
    type V = MixView;

    closed spec fn view(&self) -> MixView {
        MixView {
            slots: slot_views(self.slots@),
            live: self.live as int,
            stopped: self.stopped,
            dry_since: self.dry_since,
            route_at: self.route_at,
            last_delay: self.last_delay,
            stage: self.stage,
            mix_rate: self.mix_rate as int,
        }
    }
}

impl Mixer {
    /// Every ring is in order, and the accumulator cannot overflow.
    pub closed spec fn wf(&self) -> bool {
        &&& self.mix_rate > 0
        &&& self.slots@.len() <= MAX_STREAMS
        &&& ids_sorted(slot_views(self.slots@))
        &&& forall|i: int| 0 <= i < self.slots@.len() ==> (#[trigger] self.slots@[i]).id < self.next_id
        &&& forall|i: int|
            0 <= i < self.slots@.len() ==> {
                &&& (#[trigger] self.slots@[i]).stream.ring.wf()
                &&& !self.slots@[i].stream.ring.is_interrupted()
            }
    }

    /// The identity that the next stream gets.
    pub closed spec fn next_id_spec(&self) -> u64 {
        self.next_id
    }

    /// A mixer without streams.
    pub fn new(mix_rate: u32, now: u64) -> (m: Self)
        ensures
            m.wf(),
            m.next_id_spec() == 0,
            m@ == (MixView {
                slots: Seq::empty(),
                live: 0,
                stopped: false,
                dry_since: None,
                route_at: now,
                last_delay: (-1) as i64,
                stage: MixStage::Tick,
                mix_rate: if mix_rate == 0 {
                    1
                } else {
                    mix_rate as int
                },
            }),
    {
        let mix_rate: u32 = if mix_rate == 0 {
            1
        } else {
            mix_rate
        };
        let m = Mixer {
            slots: Vec::new(),
            next_id: 0,
            live: 0,
            stopped: false,
            dry_since: None,
            route_at: now,
            last_delay: -1,
            stage: MixStage::Tick,
            mix_rate,
        };
        assert(m@.slots =~= Seq::empty());
        m
    }

    /// Register a new stream with its own bounded ring. Gives its identity,
    /// or `None` when the mixer can take no more streams.
    pub fn register(&mut self, ring_bytes: usize) -> (id: Option<u64>)
        requires
            old(self).wf(),
            ring_bytes <= usize::MAX / 4 + 1,
        ensures
            final(self).wf(),
            match id {
                Some(id) => {
                    &&& id == old(self).next_id_spec()
                    &&& final(self).next_id_spec() == id + 1
                    &&& exists|cap: nat|
                        {
                            &&& #[trigger] is_next_power_of_two(cap as int, ring_bytes as int)
                            &&& final(self)@ == (MixView {
                                slots: old(self)@.slots.push(fresh_slot(id, cap)),
                                ..old(self)@
                            })
                        }
                },
                None => {
                    &&& final(self)@ == old(self)@
                    &&& final(self).next_id_spec() == old(self).next_id_spec()
                },
            },
            id is Some <==> old(self)@.slots.len() < MAX_STREAMS && old(self).next_id_spec()
                < u64::MAX,
    {
        if self.slots.len() >= MAX_STREAMS || self.next_id == u64::MAX {
            return None;
        }
        let id: u64 = self.next_id;
        self.next_id = id + 1;
        let slot = Slot {
            id,
            stream: MixerStream::new(ring_bytes),
        };
        assert(slot@.queued =~= Seq::empty());
        let ghost before = self.slots@;
        self.slots.push(slot);
        assert(slot_views(self.slots@) =~= slot_views(before).push(slot@));
        assert(slot@ == fresh_slot(id, slot@.cap));
        assert(is_next_power_of_two(slot@.cap as int, ring_bytes as int));
        Some(id)
    }

    /// Streams in the mix, as of the last tick.
    pub fn live_clients(&self) -> (n: usize)
        ensures
            n == self@.live,
    {
        self.live
    }

    /// The last known delay of the playback ring.
    pub fn last_delay(&self) -> (d: i64)
        ensures
            d == self@.last_delay,
    {
        self.last_delay
    }

    /// Take note of the delay of the playback ring after playing.
    pub fn observe_delay(&mut self, d: i64)
        requires
            old(self).wf(),
        ensures
            final(self).wf(),
            final(self).next_id_spec() == old(self).next_id_spec(),
            final(self)@ == (MixView { last_delay: d, ..old(self)@ }),
    {
        self.last_delay = d;
    }
}

impl Mixer {
    /// Queue a stream's audio behind what it has queued before. `None` when
    /// there is no such stream; `Some(false)` when the audio does not fit yet
    /// and nothing was stored.
    pub fn push(&mut self, id: u64, data: &[u8]) -> (r: Option<bool>)
        requires
            old(self).wf(),
        ensures
            final(self).wf(),
            final(self).next_id_spec() == old(self).next_id_spec(),
            match r {
                None => {
                    &&& final(self)@ == old(self)@
                    &&& forall|i: int|
                        0 <= i < old(self)@.slots.len() ==> (#[trigger] old(self)@.slots[i]).id
                            != id
                },
                Some(stored) => exists|i: int|
                    {
                        &&& 0 <= i < old(self)@.slots.len()
                        &&& (#[trigger] old(self)@.slots[i]).id == id
                        &&& stored == accepts(
                            old(self)@.slots[i].queued,
                            old(self)@.slots[i].cap,
                            data@,
                        )
                        &&& final(self)@ == if stored {
                            MixView {
                                slots: old(self)@.slots.update(
                                    i,
                                    SlotView {
                                        queued: old(self)@.slots[i].queued + data@,
                                        ..old(self)@.slots[i]
                                    },
                                ),
                                ..old(self)@
                            }
                        } else {
                            old(self)@
                        }
                    },
            },
    {
        match self.find(id) {
            None => None,
            Some(i) => {
                let ghost before = self.slots@;
                let stored = self.slots[i].stream.ring.push(data);
                let ghost want = if stored {
                    SlotView { queued: before[i as int]@.queued + data@, ..before[i as int]@ }
                } else {
                    before[i as int]@
                };
                assert(self.slots@[i as int]@ == want);
                assert(slot_views(self.slots@) =~= slot_views(before).update(i as int, want));
                assert(!stored ==> slot_views(self.slots@) =~= slot_views(before));
                assert(old(self)@.slots[i as int].id == id);
                Some(stored)
            },
        }
    }

    fn find(&self, id: u64) -> (r: Option<usize>)
        ensures
            match r {
                Some(i) => i < self.slots@.len() && self@.slots[i as int].id == id,
                None => forall|i: int|
                    0 <= i < self@.slots.len() ==> (#[trigger] self@.slots[i]).id != id,
            },
    {
        let mut i: usize = 0;
        while i < self.slots.len()
            invariant
                i <= self.slots@.len(),
                forall|k: int| 0 <= k < i ==> (#[trigger] self@.slots[k]).id != id,
            decreases self.slots@.len() - i,
        {
            assert(self@.slots[i as int] == self.slots@[i as int]@);
            if self.slots[i].id == id {
                return Some(i);
            }
            i = i + 1;
        }
        None
    }
}

impl Mixer {
    /// Streams have distinct identities.
    pub proof fn law_ids_distinct(&self)
        requires
            self.wf(),
        ensures
            ids_sorted(self@.slots),
            forall|i: int|
                0 <= i < self@.slots.len() ==> (#[trigger] self@.slots[i]).id
                    < self.next_id_spec(),
    {
        assert forall|i: int| 0 <= i < self@.slots.len() implies (#[trigger] self@.slots[i]).id
            < self.next_id_spec() by {
            assert(self@.slots[i] == self.slots@[i]@);
        }
    }

    /// No stream ever has more queued than it was given room for.
    pub proof fn law_queues_bounded(&self, i: int)
        requires
            self.wf(),
            0 <= i < self@.slots.len(),
        ensures
            self@.slots[i].queued.len() <= self@.slots[i].cap,
    {
        assert(self@.slots[i] == self.slots@[i]@);
        self.slots@[i].stream.ring.law_bounded();
    }

    /// Ask for a stream's queued audio to be dropped at the next tick. `false`
    /// when there is no such stream.
    pub fn request_flush(&mut self, id: u64) -> (found: bool)
        requires
            old(self).wf(),
        ensures
            final(self).wf(),
            final(self).next_id_spec() == old(self).next_id_spec(),
            if found {
                exists|i: int|
                    {
                        &&& 0 <= i < old(self)@.slots.len()
                        &&& (#[trigger] old(self)@.slots[i]).id == id
                        &&& final(self)@ == (MixView {
                            slots: old(self)@.slots.update(
                                i,
                                SlotView { flush: true, ..old(self)@.slots[i] },
                            ),
                            ..old(self)@
                        })
                    }
            } else {
                &&& final(self)@ == old(self)@
                &&& forall|i: int|
                    0 <= i < old(self)@.slots.len() ==> (#[trigger] old(self)@.slots[i]).id != id
            },
    {
        match self.find(id) {
            None => false,
            Some(i) => {
                let ghost before = self.slots@;
                self.slots[i].stream.request_flush();
                let ghost want = SlotView { flush: true, ..before[i as int]@ };
                assert(self.slots@[i as int]@ == want);
                assert(slot_views(self.slots@) =~= slot_views(before).update(i as int, want));
                assert(old(self)@.slots[i as int].id == id);
                true
            },
        }
    }

    /// Mark a stream's client gone. `false` when there is no such stream.
    pub fn finish(&mut self, id: u64) -> (found: bool)
        requires
            old(self).wf(),
        ensures
            final(self).wf(),
            final(self).next_id_spec() == old(self).next_id_spec(),
            if found {
                exists|i: int|
                    {
                        &&& 0 <= i < old(self)@.slots.len()
                        &&& (#[trigger] old(self)@.slots[i]).id == id
                        &&& final(self)@ == (MixView {
                            slots: old(self)@.slots.update(
                                i,
                                SlotView { done: true, ..old(self)@.slots[i] },
                            ),
                            ..old(self)@
                        })
                    }
            } else {
                &&& final(self)@ == old(self)@
                &&& forall|i: int|
                    0 <= i < old(self)@.slots.len() ==> (#[trigger] old(self)@.slots[i]).id != id
            },
    {
        match self.find(id) {
            None => false,
            Some(i) => {
                let ghost before = self.slots@;
                self.slots[i].stream.finish();
                let ghost want = SlotView { done: true, ..before[i as int]@ };
                assert(self.slots@[i as int]@ == want);
                assert(slot_views(self.slots@) =~= slot_views(before).update(i as int, want));
                assert(old(self)@.slots[i as int].id == id);
                true
            },
        }
    }

    /// Drop the audio of every stream that asked for it.
    fn apply_flushes(&mut self) -> (any: bool)
        requires
            old(self).wf(),
        ensures
            final(self).wf(),
            final(self).next_id_spec() == old(self).next_id_spec(),
            any == any_flush(old(self)@.slots),
            final(self)@ == (MixView { slots: flush_all(old(self)@.slots), ..old(self)@ }),
    {
        let ghost orig = self@.slots;
        let mut any = false;
        let mut i: usize = 0;
        while i < self.slots.len()
            invariant
                self.wf(),
                orig == old(self)@.slots,
                orig.len() == self.slots@.len(),
                i <= self.slots@.len(),
                self@ == (MixView { slots: self@.slots, ..old(self)@ }),
                self.next_id == old(self).next_id,
                any == exists|k: int| 0 <= k < i && (#[trigger] orig[k]).flush,
                forall|k: int| 0 <= k < i ==> #[trigger] self@.slots[k] == flushed(orig[k]),
                forall|k: int| i <= k < orig.len() ==> #[trigger] self@.slots[k] == orig[k],
            decreases self.slots@.len() - i,
        {
            let ghost before = self.slots@;
            assert(self@.slots[i as int] == orig[i as int]);
            assert(self@.slots[i as int] == before[i as int]@);
            if self.slots[i].stream.flush {
                self.slots[i].stream.flush = false;
                self.slots[i].stream.ring.clear();
                any = true;
            }
            assert(slot_views(self.slots@) =~= slot_views(before).update(
                i as int,
                flushed(orig[i as int]),
            ));
            proof {
                lemma_update_keeps_order(slot_views(before), i as int, flushed(orig[i as int]));
            }
            i = i + 1;
        }
        assert(self@.slots =~= flush_all(orig));
        any
    }

    /// Whether no stream has audio.
    fn dry(&self) -> (b: bool)
        requires
            self.wf(),
        ensures
            b == all_dry(self@.slots),
    {
        let mut i: usize = 0;
        while i < self.slots.len()
            invariant
                i <= self.slots@.len(),
                forall|k: int| 0 <= k < i ==> (#[trigger] self@.slots[k]).queued.len() == 0,
            decreases self.slots@.len() - i,
        {
            assert(self@.slots[i as int] == self.slots@[i as int]@);
            if self.slots[i].stream.ring.filled() > 0 {
                return false;
            }
            i = i + 1;
        }
        true
    }

    /// Let the streams go that are finished and have drained.
    fn retain(&mut self)
        requires
            old(self).wf(),
        ensures
            final(self).wf(),
            final(self).next_id_spec() == old(self).next_id_spec(),
            final(self)@ == (MixView { slots: retained(old(self)@.slots), ..old(self)@ }),
    {
        let ghost orig = self@.slots;
        let ghost mut seen: int = 0;
        let mut i: usize = 0;
        proof {
            assert(orig.take(0) =~= Seq::empty());
            assert(self@.slots.take(0) =~= Seq::empty());
            assert(self@.slots.skip(0) =~= orig.skip(0));
        }
        while i < self.slots.len()
            invariant
                self.wf(),
                orig == old(self)@.slots,
                0 <= seen <= orig.len(),
                i <= self.slots@.len(),
                self.slots@.len() - i == orig.len() - seen,
                self@ == (MixView { slots: self@.slots, ..old(self)@ }),
                self.next_id == old(self).next_id,
                self@.slots.take(i as int) == retained(orig.take(seen)),
                self@.slots.skip(i as int) == orig.skip(seen),
            decreases self.slots@.len() - i,
        {
            let ghost before = self.slots@;
            let ghost views = self@.slots;
            proof {
                assert(views[i as int] == views.skip(i as int)[0]);
                assert(views[i as int] == orig[seen]);
                assert(views[i as int] == before[i as int]@);
                assert(orig.take(seen + 1).drop_last() =~= orig.take(seen));
                assert(orig.take(seen + 1).last() == orig[seen]);
            }
            let gone = self.slots[i].stream.done && self.slots[i].stream.ring.filled() == 0;
            if gone {
                let _ = self.slots.remove(i);
                assert(slot_views(self.slots@) =~= views.remove(i as int));
                assert(self@.slots.take(i as int) =~= views.take(i as int));
                assert(self@.slots.skip(i as int) =~= orig.skip(seen + 1)) by {
                    assert(self@.slots.skip(i as int) =~= views.skip(i as int).skip(1));
                }
            } else {
                assert(views.take(i + 1) =~= views.take(i as int).push(orig[seen]));
                assert(views.skip(i + 1) =~= views.skip(i as int).skip(1));
                assert(orig.skip(seen).skip(1) =~= orig.skip(seen + 1));
                i = i + 1;
            }
            proof {
                seen = seen + 1;
            }
        }
        assert(self@.slots.take(i as int) =~= self@.slots);
        assert(orig.take(seen) =~= orig);
    }

    /// Take `n` frames off every stream and add them up. `None` when no stream
    /// has a whole frame.
    fn mix_streams(&mut self, n: usize) -> (r: Option<Vec<i32>>)
        requires
            old(self).wf(),
            0 < n <= CHUNK_FRAMES,
        ensures
            final(self).wf(),
            final(self).next_id_spec() == old(self).next_id_spec(),
            r is None <==> nothing_to_mix(old(self)@.slots, n as int),
            final(self)@ == (MixView { slots: drained(old(self)@.slots, n as int), ..old(self)@ }),
            r matches Some(acc) ==> acc@.map_values(|x: i32| x as int) == mixed(
                old(self)@.slots,
                n as int,
            ),
    {
        let ghost orig = self@.slots;
        let mut acc: Vec<i32> = vec![0i32; n * 2];
        let mut had_data = false;
        let mut k: usize = 0;
        assert(orig.take(0) =~= Seq::empty());
        while k < self.slots.len()
            invariant
                self.wf(),
                0 < n <= CHUNK_FRAMES,
                orig == old(self)@.slots,
                orig.len() == self.slots@.len(),
                k <= self.slots@.len(),
                self@ == (MixView { slots: self@.slots, ..old(self)@ }),
                self.next_id == old(self).next_id,
                acc@.len() == 2 * n,
                had_data == exists|j: int| 0 <= j < k && share(#[trigger] orig[j], n as int) != 0,
                forall|j: int|
                    0 <= j < k ==> #[trigger] self@.slots[j] == drained(orig, n as int)[j],
                forall|j: int| k <= j < orig.len() ==> #[trigger] self@.slots[j] == orig[j],
                forall|i: int|
                    0 <= i < 2 * n ==> #[trigger] acc@[i] == sum_at(
                        orig.take(k as int),
                        n as int,
                        i,
                    ),
            decreases self.slots@.len() - k,
        {
            let ghost before = self.slots@;
            let ghost slot = orig[k as int];
            assert(self@.slots[k as int] == slot);
            assert(self@.slots[k as int] == before[k as int]@);
            let filled: usize = self.slots[k].stream.ring.filled();
            let whole: usize = filled / 4 * 4;
            let want: usize = if n * 4 < whole {
                n * 4
            } else {
                whole
            };
            assert(want == share(slot, n as int));
            proof {
                assert(orig.take(k + 1).drop_last() =~= orig.take(k as int));
                assert(orig.take(k + 1).last() == slot);
            }
            if want != 0 {
                let mut pop: Vec<u8> = vec![0u8; want];
                let got: usize = self.slots[k].stream.ring.try_pop(pop.as_mut_slice());
                assert(got == want);
                assert(pop@ =~= slot.queued.take(want as int));
                had_data = true;
                accumulate(&mut acc, pop.as_slice(), Ghost(orig), Ghost(k as int), n);
            } else {
                assert forall|i: int| 0 <= i < 2 * n implies #[trigger] acc@[i] == sum_at(
                    orig.take(k + 1),
                    n as int,
                    i,
                ) by {
                    assert(sample(slot, n as int, i) == 0);
                }
                assert(slot.queued.skip(0) =~= slot.queued);
            }
            assert(self.slots@[k as int]@.queued =~= slot.queued.skip(want as int));
            assert(slot_views(self.slots@) =~= slot_views(before).update(
                k as int,
                drained(orig, n as int)[k as int],
            ));
            proof {
                lemma_update_keeps_order(
                    slot_views(before),
                    k as int,
                    drained(orig, n as int)[k as int],
                );
            }
            k = k + 1;
        }
        proof {
            assert(self@.slots =~= drained(orig, n as int));
            assert(orig.take(k as int) =~= orig);
        }
        if had_data {
            assert(acc@.map_values(|x: i32| x as int) =~= mixed(orig, n as int));
            Some(acc)
        } else {
            None
        }
    }
}

impl Mixer {
    /// Arm the idle timer and see whether it has run out, unless the hardware
    /// is stopped.
    fn try_idle_stop(&mut self, ms: u64, now: u64) -> (a: MixAction)
        requires
            old(self).wf(),
        ensures
            final(self).wf(),
            final(self).next_id_spec() == old(self).next_id_spec(),
            (final(self)@, a@) == idle(old(self)@, ms, now),
    {
        if self.stopped {
            self.stage = MixStage::Tick;
            return MixAction::Sleep(ms);
        }
        let since: u64 = match self.dry_since {
            Some(t) => t,
            None => now,
        };
        self.dry_since = Some(since);
        let quiet: u64 = if now > since {
            now - since
        } else {
            0
        };
        if quiet < IDLE_NS {
            self.stage = MixStage::Tick;
            MixAction::Sleep(ms)
        } else {
            self.stage = MixStage::IdleStop(ms);
            MixAction::Stop
        }
    }

    fn after_route(&mut self, now: u64) -> (a: MixAction)
        requires
            old(self).wf(),
        ensures
            final(self).wf(),
            final(self).next_id_spec() == old(self).next_id_spec(),
            (final(self)@, a@) == after_route(old(self)@, now),
    {
        if self.slots.len() == 0 {
            return self.try_idle_stop(5, now);
        }
        if self.dry() {
            return self.try_idle_stop(1, now);
        }
        self.dry_since = None;
        self.stage = MixStage::Delay;
        MixAction::ReadDelay
    }

    fn after_flush(&mut self, now: u64) -> (a: MixAction)
        requires
            old(self).wf(),
        ensures
            final(self).wf(),
            final(self).next_id_spec() == old(self).next_id_spec(),
            (final(self)@, a@) == after_flush(old(self)@, now),
    {
        self.retain();
        self.live = self.slots.len();
        let old_route: u64 = if now > self.route_at {
            now - self.route_at
        } else {
            0
        };
        if old_route >= ROUTE_NS {
            self.route_at = now;
            self.stage = MixStage::Route;
            return MixAction::RefreshRoute;
        }
        self.after_route(now)
    }

    fn mix(&mut self, delay: i64, muted: bool) -> (a: MixAction)
        requires
            old(self).wf(),
            delay_ok(delay),
        ensures
            final(self).wf(),
            final(self).next_id_spec() == old(self).next_id_spec(),
            (final(self)@, a@) == mix(old(self)@, delay as int, muted),
    {
        self.stage = MixStage::Tick;
        let target: i64 = SHIM_SERVER_FRAMES as i64;
        let chunk: i64 = CHUNK_FRAMES as i64;
        let room: i64 = target - delay;
        if room <= 0 {
            let behind: u64 = (delay - (target - chunk)) as u64;
            let ms: u64 = behind * 1000 / self.mix_rate as u64;
            let capped: u64 = if ms > 10 {
                10
            } else {
                ms
            };
            let sleep: u64 = if capped > 0 {
                capped - 1
            } else {
                0
            };
            return MixAction::Sleep(sleep);
        }
        let n: usize = if room > chunk {
            CHUNK_FRAMES
        } else {
            room as usize
        };
        let ghost before = self@;
        match self.mix_streams(n) {
            None => {
                proof {
                    assert forall|i: int| 0 <= i < before.slots.len() implies drained(
                        before.slots,
                        n as int,
                    )[i] == before.slots[i] by {
                        assert(share(before.slots[i], n as int) == 0);
                        assert(before.slots[i].queued.skip(0) =~= before.slots[i].queued);
                    }
                    assert(drained(before.slots, n as int) =~= before.slots);
                }
                MixAction::Sleep(1)
            },
            Some(acc) => {
                self.stopped = false;
                MixAction::Play(silenced(acc, muted))
            },
        }
    }

    /// The next action, given what came of the last one, the time in
    /// nanoseconds, and whether the output is muted.
    pub fn step(&mut self, ev: MixEvent, now: u64, muted: bool) -> (a: MixAction)
        requires
            old(self).wf(),
            ev matches MixEvent::Delay(d) ==> delay_ok(d),
        ensures
            final(self).wf(),
            final(self).next_id_spec() == old(self).next_id_spec(),
            (final(self)@, a@) == mix_next(old(self)@, ev, now, muted),
    {
        let failed = match ev {
            MixEvent::StopFailed => true,
            _ => false,
        };
        match self.stage {
            MixStage::Tick => {
                let any = self.apply_flushes();
                if any {
                    self.dry_since = None;
                    if !self.stopped && self.dry() {
                        self.stage = MixStage::FlushStop;
                        return MixAction::Stop;
                    }
                } else {
                    assert(flush_all(old(self)@.slots) =~= old(self)@.slots) by {
                        assert forall|i: int| 0 <= i < old(self)@.slots.len() implies !(
                        #[trigger] old(self)@.slots[i]).flush by {}
                    }
                }
                self.after_flush(now)
            },
            MixStage::FlushStop => {
                if !failed {
                    self.stopped = true;
                    self.last_delay = 0;
                }
                self.after_flush(now)
            },
            MixStage::Route => self.after_route(now),
            MixStage::IdleStop(ms) => {
                if failed {
                    self.dry_since = Some(now);
                } else {
                    self.dry_since = None;
                    self.stopped = true;
                    self.last_delay = 0;
                }
                self.stage = MixStage::Tick;
                MixAction::Sleep(ms)
            },
            MixStage::Delay => {
                let delay: i64 = match ev {
                    MixEvent::Delay(d) => d,
                    _ => 0,
                };
                self.mix(delay, muted)
            },
        }
    }
}

/// A mix as it is played: zeros when muted.
fn silenced(mix: Vec<i32>, muted: bool) -> (out: Vec<i32>)
    ensures
        out@.map_values(|x: i32| x as int) == audible(
            mix@.map_values(|x: i32| x as int),
            muted,
        ),
{
    let out = if muted {
        vec![0i32; mix.len()]
    } else {
        mix
    };
    assert(out@.map_values(|x: i32| x as int) =~= audible(
        mix@.map_values(|x: i32| x as int),
        muted,
    ));
    out
}

/// Add the samples that stream `k` contributes.
fn accumulate(acc: &mut Vec<i32>, pop: &[u8], Ghost(slots): Ghost<Seq<SlotView>>, Ghost(k): Ghost<int>, n: usize)
    requires
        0 < n <= CHUNK_FRAMES,
        0 <= k < slots.len() <= MAX_STREAMS,
        old(acc)@.len() == 2 * n,
        pop@ == slots[k].queued.take(share(slots[k], n as int)),
        forall|i: int|
            0 <= i < 2 * n ==> #[trigger] old(acc)@[i] == sum_at(slots.take(k), n as int, i),
    ensures
        final(acc)@.len() == 2 * n,
        forall|i: int|
            0 <= i < 2 * n ==> #[trigger] final(acc)@[i] == sum_at(slots.take(k + 1), n as int, i),
{
    let ghost s = slots[k];
    proof {
        assert(slots.take(k + 1).drop_last() =~= slots.take(k));
        assert(slots.take(k + 1).last() == s);
    }
    let mut i: usize = 0;
    while i < pop.len() / 2
        invariant
            i <= pop@.len() / 2,
            0 < n <= CHUNK_FRAMES,
            0 <= k < slots.len() <= MAX_STREAMS,
            s == slots[k],
            acc@.len() == 2 * n,
            pop@ == s.queued.take(share(s, n as int)),
            pop@.len() == share(s, n as int),
            slots.take(k + 1).drop_last() == slots.take(k),
            slots.take(k + 1).last() == s,
            forall|j: int|
                0 <= j < i ==> #[trigger] acc@[j] == sum_at(slots.take(k + 1), n as int, j),
            forall|j: int|
                i <= j < 2 * n ==> #[trigger] acc@[j] == sum_at(slots.take(k), n as int, j),
        decreases pop@.len() / 2 - i,
    {
        proof {
            lemma_sum_bound(slots.take(k), n as int, i as int);
            lemma_sum_bound(slots.take(k + 1), n as int, i as int);
        }
        assert(2 * i + 2 <= pop.len());
        let v: i16 = get_i16(pop, 2 * i);
        assert(v == sample(s, n as int, i as int));
        let a: i32 = acc[i];
        acc.set(i, a + v as i32);
        i = i + 1;
    }
    assert forall|j: int| 0 <= j < 2 * n implies #[trigger] acc@[j] == sum_at(
        slots.take(k + 1),
        n as int,
        j,
    ) by {
        if j >= i {
            assert(sample(s, n as int, j) == 0);
        }
    }
}

/// What is said of an action is said of what it asks for.
pub proof fn law_actions_are_what_they_ask(a: MixAction, i: int)
    ensures
        a is Stop <==> a@ is Stop,
        a is RefreshRoute <==> a@ is RefreshRoute,
        a is ReadDelay <==> a@ is ReadDelay,
        a matches MixAction::Sleep(ms) ==> a@ == MixAsk::Sleep(ms as int),
        a matches MixAction::Play(v) ==> (a@ matches MixAsk::Play(p) && p.len() == v@.len() && (0
            <= i < p.len() ==> p[i] == v@[i])),
{
}

} // verus!
