//! Playback backend: the HDA session as the server sees it.
use crate::common::SHIM_SERVER_FRAMES;
use crate::hda::codec::{output_amp_verb, Codec, Verb, DEFAULT_GAIN, NID_DAC_HP, NID_DAC_SPK};
use crate::hda::playback::HdaPlayback;
use crate::hda::program::{program_ok, Op};
use crate::hda::stream::{
    rate_supported, runs_at, srst_ops, stop_ops, FRAME_BYTES, RING_SIZE,
};
use crate::text::{occurs_at, str_eq, strip_prefix};
use vstd::prelude::*;

verus! {

pub const HDA_DEFAULT_SLOT: &'static str = "0000:00:1b.0";

/// Parse a device name into a PCI slot. Accepts `hda` (the default slot) or
/// `hda:<pci-slot>`.
pub fn parse_slot(dev: &str) -> (r: Result<String, String>)
    ensures
        match r {
            Ok(slot) => {
                ||| occurs_at(dev@, "hda:"@, 0) && slot@ == dev@.skip("hda:"@.len() as int)
                ||| !occurs_at(dev@, "hda:"@, 0) && dev@ == "hda"@ && slot@ == HDA_DEFAULT_SLOT@
            },
            Err(e) => {
                &&& !occurs_at(dev@, "hda:"@, 0)
                &&& dev@ != "hda"@
                &&& e@ == "HDA-only backend: use `hda` or `hda:<pci-slot>` (got `"@ + dev@ + "`)"@
            },
        },
{
    match strip_prefix(dev, "hda:") {
        Some(slot) => Ok(slot),
        None => {
            if str_eq(dev, "hda") {
                Ok(HDA_DEFAULT_SLOT.to_owned())
            } else {
                let mut e = "HDA-only backend: use `hda` or `hda:<pci-slot>` (got `".to_owned();
                e.append(dev);
                e.append("`)");
                Err(e)
            }
        },
    }
}

/// The rates that the HDA link is run at when it cannot run at a client's.
pub open spec fn rates() -> Seq<u32> {
    seq![
        192000u32,
        176400,
        96000,
        88200,
        48000,
        44100,
        32000,
        24000,
        22050,
        16000,
        12000,
        11025,
        8000,
    ]
}

/// The rates that the HDA link is run at when it cannot run at a client's.
pub fn hda_rates() -> (r: [u32; 13])
    ensures
        r@ == rates(),
{
    let r: [u32; 13] = [
        192000,
        176400,
        96000,
        88200,
        48000,
        44100,
        32000,
        24000,
        22050,
        16000,
        12000,
        11025,
        8000,
    ];
    assert(r@ =~= rates());
    r
}

/// The link can run at every rate of the list exactly.
pub proof fn law_rates_supported(i: int)
    requires
        0 <= i < rates().len(),
    ensures
        exists|b: u32, m: u32, d: u32| #[trigger] runs_at(rates()[i], b, m, d),
{
    assert(runs_at(192000, 0, 4, 1));
    assert(runs_at(176400, 1, 4, 1));
    assert(runs_at(96000, 0, 2, 1));
    assert(runs_at(88200, 1, 2, 1));
    assert(runs_at(48000, 0, 1, 1));
    assert(runs_at(44100, 1, 1, 1));
    assert(runs_at(32000, 0, 2, 3));
    assert(runs_at(24000, 0, 1, 2));
    assert(runs_at(22050, 1, 1, 2));
    assert(runs_at(16000, 0, 1, 3));
    assert(runs_at(12000, 0, 1, 4));
    assert(runs_at(11025, 1, 1, 4));
    assert(runs_at(8000, 0, 1, 6));
}

/// How far apart two rates are.
pub open spec fn distance(a: u32, b: u32) -> int {
    if a > b {
        a - b
    } else {
        b - a
    }
}

/// Whether `a` suits `rate` better than `b`, or as well: it is closer, or as
/// close and not higher.
pub open spec fn suits(rate: u32, a: u32, b: u32) -> bool {
    distance(a, rate) < distance(b, rate) || (distance(a, rate) == distance(b, rate) && a <= b)
}

/// The rate of the list that is nearest to `rate`; the lower one of two that
/// are equally near.
pub fn nearest_hda_rate(rate: u32) -> (r: u32)
    ensures
        rates().contains(r),
        forall|i: int| 0 <= i < rates().len() ==> suits(rate, r, #[trigger] rates()[i]),
{
    let list = hda_rates();
    let mut best: u32 = list[0];
    let mut i: usize = 1;
    assert(rates()[0] == best);
    while i < 13
        invariant
            1 <= i <= 13,
            list@ == rates(),
            rates().contains(best),
            forall|k: int| 0 <= k < i ==> suits(rate, best, #[trigger] rates()[k]),
        decreases 13 - i,
    {
        let r: u32 = list[i];
        let d: u32 = if r > rate {
            r - rate
        } else {
            rate - r
        };
        let b: u32 = if best > rate {
            best - rate
        } else {
            rate - best
        };
        assert(rates()[i as int] == r);
        if d < b || (d == b && r < best) {
            best = r;
        }
        i = i + 1;
    }
    best
}

/// Why the backend cannot be opened.
#[derive(Clone, Copy, Debug, PartialEq, Eq, Structural)]
pub struct NeedsRoot;

/// What a transfer to the playback ring does next.
#[derive(Clone, Copy, Debug, PartialEq, Eq, Structural)]
pub enum FeedAction {
    /// Look up the delay of the playback ring.
    ReadDelay,
    /// Offer the bytes from `from` up to `to`.
    Offer { from: usize, to: usize },
    /// Sleep so many microseconds.
    Sleep(u64),
    Done,
}

/// What came of it.
#[derive(Clone, Copy, Debug, PartialEq, Eq, Structural)]
pub enum FeedEvent {
    /// Begin, or the sleep is over.
    Go,
    /// The delay of the playback ring in frames.
    Delay(i64),
    /// So many of the offered bytes were stored.
    Stored(usize),
}

/// A transfer of `len` bytes, of which `off` are stored. A paced transfer
/// keeps the playback ring at its target occupancy.
#[derive(Clone, Copy, Debug, PartialEq, Eq, Structural)]
pub struct Feed {
    pub len: usize,
    pub off: usize,
    pub paced: bool,
}

/// Go on with a transfer.
pub open spec fn feed_go(f: Feed) -> FeedAction {
    if f.off >= f.len {
        FeedAction::Done
    } else if f.paced {
        FeedAction::ReadDelay
    } else {
        FeedAction::Offer { from: f.off, to: f.len }
    }
}

/// One step of a transfer. Nothing stored means that the ring is full: a
/// paced transfer looks again after a millisecond, another after half of one.
pub open spec fn feed_next(f: Feed, ev: FeedEvent) -> (Feed, FeedAction) {
    match ev {
        FeedEvent::Go => (f, feed_go(f)),
        FeedEvent::Delay(d) => if f.off >= f.len {
            (f, FeedAction::Done)
        } else if d >= SHIM_SERVER_FRAMES {
            (f, FeedAction::Sleep(1000))
        } else {
            let headroom = (SHIM_SERVER_FRAMES - d) * 4;
            let left = f.len - f.off;
            (
                f,
                FeedAction::Offer {
                    from: f.off,
                    to: (f.off + if left < headroom {
                        left
                    } else {
                        headroom
                    }) as usize,
                },
            )
        },
        FeedEvent::Stored(n) => if n == 0 {
            (
                f,
                FeedAction::Sleep(
                    if f.paced {
                        1000
                    } else {
                        500
                    },
                ),
            )
        } else {
            let g = Feed { off: (f.off + n) as usize, ..f };
            (g, feed_go(g))
        },
    }
}

/// A paced transfer never offers more than brings the playback ring up to its
/// target, and offers something whenever there is room; all bytes are offered
/// in order, none twice.
pub proof fn law_feed(f: Feed, d: i64)
    requires
        f.off < f.len,
        0 <= d,
    ensures
        ({
            let (g, a) = feed_next(f, FeedEvent::Delay(d));
            &&& g == f
            &&& a is Offer <==> d < SHIM_SERVER_FRAMES
            &&& a matches FeedAction::Offer { from, to } ==> {
                &&& from == f.off
                &&& from < to <= f.len
                &&& d * 4 + (to - from) <= SHIM_SERVER_FRAMES * 4
            }
        }),
        forall|n: usize|
            0 < n && f.off + n <= f.len ==> (#[trigger] feed_next(f, FeedEvent::Stored(n))).0.off
                == f.off + n,
{
}

impl Feed {
    /// Begin a transfer of `len` bytes.
    pub fn new(len: usize, paced: bool) -> (f: Self)
        ensures
            f == (Feed { len, off: 0, paced }),
    {
        Feed { len, off: 0, paced }
    }

    fn go(&self) -> (a: FeedAction)
        ensures
            a == feed_go(*self),
    {
        if self.off >= self.len {
            FeedAction::Done
        } else if self.paced {
            FeedAction::ReadDelay
        } else {
            FeedAction::Offer { from: self.off, to: self.len }
        }
    }

    /// The next action.
    pub fn step(&mut self, ev: FeedEvent) -> (a: FeedAction)
        requires
            old(self).off <= old(self).len,
            ev matches FeedEvent::Delay(d) ==> 0 <= d,
            ev matches FeedEvent::Stored(n) ==> old(self).off + n <= old(self).len,
        ensures
            (*final(self), a) == feed_next(*old(self), ev),
            final(self).off <= final(self).len,
    {
        match ev {
            FeedEvent::Go => self.go(),
            FeedEvent::Delay(d) => {
                if self.off >= self.len {
                    return FeedAction::Done;
                }
                let target: i64 = SHIM_SERVER_FRAMES as i64;
                if d >= target {
                    return FeedAction::Sleep(1000);
                }
                let headroom: usize = (target - d) as usize * FRAME_BYTES;
                let left: usize = self.len - self.off;
                let want: usize = if left < headroom {
                    left
                } else {
                    headroom
                };
                FeedAction::Offer { from: self.off, to: self.off + want }
            },
            FeedEvent::Stored(n) => {
                if n == 0 {
                    FeedAction::Sleep(
                        if self.paced {
                            1000
                        } else {
                            500
                        },
                    )
                } else {
                    self.off = self.off + n;
                    self.go()
                }
            },
        }
    }
}

/// The HDA playback session behind the server.
pub struct Backend {
    pub session: HdaPlayback,
}

impl Backend {
    /// The rate to open the session at, for a process with this user ID: the
    /// rate itself where the link can run at it, else the nearest.
    pub fn open(euid: u32, rate: u32) -> (r: Result<u32, NeedsRoot>)
        ensures
            r is Ok <==> euid == 0,
            r matches Ok(hw) ==> if exists|b: u32, m: u32, d: u32| #[trigger]
                runs_at(rate, b, m, d) {
                hw == rate
            } else {
                rates().contains(hw) && forall|i: int|
                    0 <= i < rates().len() ==> suits(rate, hw, #[trigger] rates()[i])
            },
            r matches Ok(hw) ==> exists|b: u32, m: u32, d: u32| #[trigger] runs_at(hw, b, m, d),
    {
        if euid != 0 {
            return Err(NeedsRoot);
        }
        if rate_supported(rate) {
            Ok(rate)
        } else {
            let hw: u32 = nearest_hda_rate(rate);
            proof {
                let i = rates().index_of(hw);
                assert(rates()[i] == hw);
                law_rates_supported(i);
            }
            Ok(hw)
        }
    }

    /// A paced transfer of `len` bytes.
    pub fn play(&self, len: usize) -> (f: Feed)
        ensures
            f == (Feed { len, off: 0, paced: true }),
    {
        Feed::new(len, true)
    }

    /// A transfer of `len` bytes without regard to occupancy, for the mixer,
    /// which paces itself.
    pub fn push(&self, len: usize) -> (f: Feed)
        ensures
            f == (Feed { len, off: 0, paced: false }),
    {
        Feed::new(len, false)
    }

    /// Frames waiting in the playback ring, given what SD_LPIB holds.
    pub fn delay_frames(&mut self, lpib: u32) -> (n: i64)
        requires
            old(self).session.wf(),
        ensures
            final(self).session.wf(),
            n == old(self).session.stream.outstanding(lpib) / 4,
            0 <= n <= RING_SIZE / 4,
            old(self).session.stream.noted(lpib, final(self).session.stream),
            final(self).session.controller == old(self).session.controller,
            final(self).session.codec == old(self).session.codec,
            final(self).session.fmt == old(self).session.fmt,
            final(self).session.rate == old(self).session.rate,
            final(self).session.running == old(self).session.running,
            final(self).session.bytes_written == old(self).session.bytes_written,
    {
        self.session.note(lpib);
        self.session.delay_frames(lpib)
    }

    /// The verbs that mute or unmute at the codec's amps.
    pub fn set_mute(&self, mute: bool) -> (v: Vec<Verb>)
        ensures
            v@ == seq![
                output_amp_verb(NID_DAC_SPK, DEFAULT_GAIN, mute),
                output_amp_verb(NID_DAC_HP, DEFAULT_GAIN, mute),
            ],
    {
        Codec::set_mute(mute)
    }

    /// The program to run before `stop_immediate`.
    pub fn halt(&self) -> (ops: Vec<Op>)
        ensures
            ops@ == stop_ops(self.session.controller) + srst_ops(self.session.controller),
            program_ok(ops@),
    {
        self.session.halt()
    }

    /// Drop everything that is queued, so that the stream restarts cleanly.
    pub fn stop_immediate(&mut self, ring_mem: &mut [u8])
        requires
            old(self).session.wf(),
            old(ring_mem)@.len() == RING_SIZE,
        ensures
            final(self).session.wf(),
            !final(self).session.running,
            final(self).session.stream.pos() == 0,
            !final(self).session.stream.full_spec(),
            final(self).session.stream.ring() == old(self).session.stream.ring(),
            final(self).session.stream.list() == old(self).session.stream.list(),
            final(self).session.stream.entries_spec() == old(self).session.stream.entries_spec(),
            final(self).session.stream.written_spec() == old(self).session.stream.written_spec(),
            final(self).session.controller == old(self).session.controller,
            final(self).session.codec == old(self).session.codec,
            final(self).session.fmt == old(self).session.fmt,
            final(self).session.rate == old(self).session.rate,
            final(self).session.bytes_written == old(self).session.bytes_written,
            final(ring_mem)@ == Seq::new(old(ring_mem)@.len(), |i: int| 0u8),
    {
        self.session.drop_all(ring_mem);
    }

    /// Where audio is routed, given the headphone pin's sense or why it could
    /// not be read: "headphone", "speakers" or "unknown".
    pub fn output_path(&self, sense: &Result<u32, String>) -> (s: String)
        ensures
            s@ == match *sense {
                Ok(v) => if v >= 0x8000_0000 {
                    "headphone"@
                } else {
                    "speakers"@
                },
                Err(_) => "unknown"@,
            },
    {
        match sense {
            Ok(_) => Codec::output_path(sense),
            Err(_) => "unknown".to_owned(),
        }
    }

    /// Whether the playback ring has run empty, so that the session can be
    /// stopped; else look again after a millisecond.
    pub fn drain(&mut self, lpib: u32) -> (empty: bool)
        requires
            old(self).session.wf(),
        ensures
            final(self).session.wf(),
            empty == (old(self).session.stream.outstanding(lpib) < 4),
            old(self).session.stream.noted(lpib, final(self).session.stream),
            final(self).session.controller == old(self).session.controller,
            final(self).session.codec == old(self).session.codec,
            final(self).session.fmt == old(self).session.fmt,
            final(self).session.rate == old(self).session.rate,
            final(self).session.running == old(self).session.running,
            final(self).session.bytes_written == old(self).session.bytes_written,
    {
        self.delay_frames(lpib) <= 0
    }
}

/// A transfer gets everything across: it asks for more until nothing is left,
/// offers exactly what is left or what fills the ring up to its target, and
/// tries again where nothing was stored.
pub proof fn law_feed_goes_on(f: Feed, d: i64, n: usize)
    requires
        f.off <= f.len,
        0 <= d,
        f.off + n <= f.len,
    ensures
        feed_next(f, FeedEvent::Go).1 is Done <==> f.off == f.len,
        f.off < f.len ==> feed_next(f, FeedEvent::Go) == (
            f,
            if f.paced {
                FeedAction::ReadDelay
            } else {
                FeedAction::Offer { from: f.off, to: f.len }
            },
        ),
        f.off < f.len && d >= 4096 ==> feed_next(f, FeedEvent::Delay(d)) == (
            f,
            FeedAction::Sleep(1000),
        ),
        f.off < f.len && d < 4096 ==> (feed_next(f, FeedEvent::Delay(d)).1 matches FeedAction::Offer {
            from,
            to,
        } && from == f.off && to <= f.len && d * 4 + (to - from) <= 16384 && (to == f.len || d * 4 + (
        to - from) == 16384)),
        n == 0 ==> feed_next(f, FeedEvent::Stored(n)) == (
            f,
            FeedAction::Sleep(
                if f.paced {
                    1000
                } else {
                    500
                },
            ),
        ),
        n > 0 ==> feed_next(f, FeedEvent::Stored(n)).0 == (Feed { off: (f.off + n) as usize, ..f }),
        n > 0 ==> (feed_next(f, FeedEvent::Stored(n)).1 is Done <==> f.off + n == f.len),
{
}

/// A rate that suits another best is as close to it as any, and the lower one
/// of two that are equally close.
pub proof fn law_nearest_is_near(rate: u32, a: u32, b: u32)
    requires
        suits(rate, a, b),
    ensures
        a <= rate && b <= rate ==> b <= a,
        a >= rate && b >= rate ==> a <= b,
        a <= rate <= b ==> rate - a <= b - rate,
        b < rate < a ==> a - rate < rate - b,
        suits(rate, b, a) ==> a == b,
{
}

/// Of any two rates one suits, and a rate suits itself best.
pub proof fn law_some_rate_suits(rate: u32, a: u32, b: u32)
    ensures
        suits(rate, a, b) || suits(rate, b, a),
        suits(rate, rate, b),
        distance(a, b) == distance(b, a),
        distance(a, b) == 0 <==> a == b,
{
}

} // verus!
