//! Playback of one local source (a WAV file or standard input): mute, format
//! conversion and volume in front of the backend.
use super::state::ServerState;
use crate::bytes::{as_signed16, get_i16, get_u32, le16_at, le32_at};
use crate::common::{
    AudioCfg, FORMAT_FLOAT_LE, FORMAT_S16_LE, HW_CHANNELS, HW_FORMAT,
};
use vstd::prelude::*;

verus! {

/// How client samples become 16-bit stereo.
#[derive(Clone, Copy, Debug, PartialEq, Eq, Structural)]
pub enum Conversion {
    /// 16-bit mono: scale, and use each sample twice.
    S16Mono,
    /// 16-bit samples with as many channels as wanted: scale.
    S16Same,
    /// Floating-point mono: scale, and use each sample twice.
    FloatMono,
    /// Floating-point samples with as many channels as wanted: scale.
    FloatSame,
    /// Anything else comes out silent.
    Silence,
}

/// The conversion between two shapes. `unity` is whether the gain is exactly
/// one: 16-bit samples that need no change are not converted.
pub open spec fn conversion(fmt_in: u32, ch_in: u32, ch_out: u32, unity: bool) -> Conversion {
    if fmt_in == FORMAT_S16_LE && ch_in == 1 && ch_out == 2 {
        Conversion::S16Mono
    } else if fmt_in == FORMAT_FLOAT_LE && ch_in == ch_out {
        Conversion::FloatSame
    } else if fmt_in == FORMAT_FLOAT_LE && ch_in == 1 && ch_out == 2 {
        Conversion::FloatMono
    } else if fmt_in == FORMAT_S16_LE && ch_in == ch_out && !unity {
        Conversion::S16Same
    } else {
        Conversion::Silence
    }
}

/// The input sample that each output sample is made of: 16-bit samples as
/// numbers, floating-point samples as bit patterns.
pub enum Samples {
    S16(Vec<i16>),
    F32(Vec<u32>),
    /// So many samples of silence.
    Silence(usize),
}

/// The input sample that each output sample is made of.
pub ghost enum SamplesView {
    S16(Seq<int>),
    F32(Seq<int>),
    Silence(int),
}

impl View for Samples {
    type V = SamplesView;

    open spec fn view(&self) -> SamplesView {
        match *self {
            Samples::S16(v) => SamplesView::S16(v@.map_values(|x: i16| x as int)),
            Samples::F32(v) => SamplesView::F32(v@.map_values(|x: u32| x as int)),
            Samples::Silence(n) => SamplesView::Silence(n as int),
        }
    }
}

/// The output of a conversion, before scaling.
pub open spec fn converted(src: Seq<u8>, frames: int, ch_out: int, c: Conversion) -> SamplesView {
    let n = frames * ch_out;
    match c {
        Conversion::S16Mono => SamplesView::S16(
            Seq::new((2 * frames) as nat, |i: int| as_signed16(le16_at(src, i / 2 * 2))),
        ),
        Conversion::S16Same => SamplesView::S16(
            Seq::new(n as nat, |i: int| as_signed16(le16_at(src, i * 2))),
        ),
        Conversion::FloatMono => SamplesView::F32(
            Seq::new((2 * frames) as nat, |i: int| le32_at(src, i / 2 * 4)),
        ),
        Conversion::FloatSame => SamplesView::F32(
            Seq::new(n as nat, |i: int| le32_at(src, i * 4)),
        ),
        Conversion::Silence => SamplesView::Silence(n),
    }
}

/// Bytes of input that a conversion reads.
pub open spec fn input_bytes(frames: int, ch_out: int, c: Conversion) -> int {
    match c {
        Conversion::S16Mono => frames * 2,
        Conversion::S16Same => frames * ch_out * 2,
        Conversion::FloatMono => frames * 4,
        Conversion::FloatSame => frames * ch_out * 4,
        Conversion::Silence => 0,
    }
}

fn gather_s16(src: &[u8], n: usize, twice: bool) -> (v: Vec<i16>)
    requires
        if twice {
            (n + 1) / 2 * 2 <= src@.len()
        } else {
            n * 2 <= src@.len()
        },
    ensures
        v@.map_values(|x: i16| x as int) == Seq::new(
            n as nat,
            |i: int|
                as_signed16(
                    le16_at(
                        src@,
                        if twice {
                            i / 2 * 2
                        } else {
                            i * 2
                        },
                    ),
                ),
        ),
{
    let mut v: Vec<i16> = Vec::new();
    let mut i: usize = 0;
    while i < n
        invariant
            i <= n,
            v@.len() == i,
            if twice {
                (n + 1) / 2 * 2 <= src@.len()
            } else {
                n * 2 <= src@.len()
            },
            forall|k: int|
                0 <= k < i ==> #[trigger] v@[k] == as_signed16(
                    le16_at(
                        src@,
                        if twice {
                            k / 2 * 2
                        } else {
                            k * 2
                        },
                    ),
                ),
        decreases n - i,
    {
        assert(i + 1 <= src.len());
        let at: usize = if twice {
            i / 2 * 2
        } else {
            i * 2
        };
        v.push(get_i16(src, at));
        i = i + 1;
    }
    assert(v@.map_values(|x: i16| x as int) =~= Seq::new(
        n as nat,
        |i: int|
            as_signed16(
                le16_at(
                    src@,
                    if twice {
                        i / 2 * 2
                    } else {
                        i * 2
                    },
                ),
            ),
    ));
    v
}

fn gather_f32(src: &[u8], n: usize, twice: bool) -> (v: Vec<u32>)
    requires
        if twice {
            (n + 1) / 2 * 4 <= src@.len()
        } else {
            n * 4 <= src@.len()
        },
    ensures
        v@.map_values(|x: u32| x as int) == Seq::new(
            n as nat,
            |i: int|
                le32_at(
                    src@,
                    if twice {
                        i / 2 * 4
                    } else {
                        i * 4
                    },
                ),
        ),
{
    let mut v: Vec<u32> = Vec::new();
    let mut i: usize = 0;
    while i < n
        invariant
            i <= n,
            v@.len() == i,
            if twice {
                (n + 1) / 2 * 4 <= src@.len()
            } else {
                n * 4 <= src@.len()
            },
            forall|k: int|
                0 <= k < i ==> #[trigger] v@[k] == le32_at(
                    src@,
                    if twice {
                        k / 2 * 4
                    } else {
                        k * 4
                    },
                ),
        decreases n - i,
    {
        assert(i + 1 <= src.len());
        let at: usize = if twice {
            i / 2 * 4
        } else {
            i * 4
        };
        v.push(get_u32(src, at));
        i = i + 1;
    }
    assert(v@.map_values(|x: u32| x as int) =~= Seq::new(
        n as nat,
        |i: int|
            le32_at(
                src@,
                if twice {
                    i / 2 * 4
                } else {
                    i * 4
                },
            ),
    ));
    v
}

/// Pick the input sample for every output sample of a conversion to `ch_out`
/// channels. What remains is to scale each and limit it to 16 bits.
pub fn convert_to_s16(
    src: &[u8],
    frames: usize,
    ch_in: u32,
    ch_out: u32,
    fmt_in: u32,
    unity: bool,
) -> (s: Samples)
    requires
        frames * ch_out <= usize::MAX,
        2 * frames <= usize::MAX,
        input_bytes(frames as int, ch_out as int, conversion(fmt_in, ch_in, ch_out, unity))
            <= src@.len(),
    ensures
        s@ == converted(
            src@,
            frames as int,
            ch_out as int,
            conversion(fmt_in, ch_in, ch_out, unity),
        ),
{
    let ghost want = converted(
        src@,
        frames as int,
        ch_out as int,
        conversion(fmt_in, ch_in, ch_out, unity),
    );
    let n: usize = frames * ch_out as usize;
    let s = if fmt_in == FORMAT_S16_LE && ch_in == 1 && ch_out == 2 {
        Samples::S16(gather_s16(src, 2 * frames, true))
    } else if fmt_in == FORMAT_FLOAT_LE && ch_in == ch_out {
        Samples::F32(gather_f32(src, n, false))
    } else if fmt_in == FORMAT_FLOAT_LE && ch_in == 1 && ch_out == 2 {
        Samples::F32(gather_f32(src, 2 * frames, true))
    } else if fmt_in == FORMAT_S16_LE && ch_in == ch_out && !unity {
        Samples::S16(gather_s16(src, n, false))
    } else {
        Samples::Silence(n)
    };
    proof {
        match want {
            SamplesView::S16(w) => {
                assert(s@->S16_0 =~= w);
            },
            SamplesView::F32(w) => {
                assert(s@->F32_0 =~= w);
            },
            SamplesView::Silence(_) => {},
        }
    }
    s
}

/// A change of volume never changes which samples are played: 16-bit and
/// floating-point input that is mono, or that has as many channels as are
/// wanted, comes out sample by sample, channel by channel, and a mono sample on
/// both sides. At a gain of exactly one, 16-bit samples that need no change
/// are the caller's to hand on; nothing else is affected by the gain.
pub proof fn law_gain_picks_no_samples(
    src: Seq<u8>,
    frames: int,
    ch_in: u32,
    ch_out: u32,
    fmt_in: u32,
    unity: bool,
    f: int,
    k: int,
)
    requires
        fmt_in == 2 || fmt_in == 14,
        (ch_in == 1 && ch_out == 2) || ch_in == ch_out,
        unity ==> fmt_in == 14 || ch_in != ch_out,
        0 <= f < frames,
        0 <= k < ch_out,
    ensures
        ({
            let from = f * ch_in + (if ch_in == 1 { 0 } else { k });
            let to = f * ch_out + k;
            match converted(
                src,
                frames,
                ch_out as int,
                conversion(fmt_in, ch_in, ch_out, unity),
            ) {
                SamplesView::S16(v) => {
                    &&& fmt_in == 2
                    &&& v.len() == frames * ch_out
                    &&& to < v.len()
                    &&& v[to] == as_signed16(le16_at(src, 2 * from))
                },
                SamplesView::F32(v) => {
                    &&& fmt_in == 14
                    &&& v.len() == frames * ch_out
                    &&& to < v.len()
                    &&& v[to] == le32_at(src, 4 * from)
                },
                SamplesView::Silence(_) => false,
            }
        }),
{
    assert(0 <= f * ch_out + k < frames * ch_out) by (nonlinear_arith)
        requires
            0 <= f < frames,
            0 <= k < ch_out,
    ;
    assert(frames * 2 == 2 * frames);
    if ch_in == 1 && ch_out == 2 {
        assert((f * 2 + k) / 2 == f);
    }
}

/// Any other input, and 16-bit input that needs no change, comes out as silence
/// of the wanted length.
pub proof fn law_otherwise_silent(
    src: Seq<u8>,
    frames: int,
    ch_in: u32,
    ch_out: u32,
    fmt_in: u32,
    unity: bool,
)
    requires
        (fmt_in != 2 && fmt_in != 14) || (ch_in != ch_out && !(ch_in == 1 && ch_out == 2)) || (unity
            && fmt_in == 2 && ch_in == ch_out),
    ensures
        converted(src, frames, ch_out as int, conversion(fmt_in, ch_in, ch_out, unity))
            == SamplesView::Silence(frames * ch_out),
{
}

/// What to play.
#[derive(Clone, Copy, Debug, PartialEq, Eq, Structural)]
pub enum PlayPlan {
    Nothing,
    /// Hand the first so many bytes on as they are.
    Passthrough(usize),
    /// Convert the first so many bytes.
    Convert(usize),
}

/// One playback session.
pub struct Player {
    hw_format: u32,
    hw_channels: u32,
    client_fs: usize,
    client_channels: u32,
    client_format: u32,
    hw_mute: bool,
    muted_applied: bool,
}

impl Player {
    /// Bytes of one client frame.
    pub closed spec fn client_frame(&self) -> int {
        self.client_fs as int
    }

    /// Whether the client speaks the hardware's format.
    pub closed spec fn native(&self) -> bool {
        self.client_format == self.hw_format && self.client_channels == self.hw_channels
    }

    /// Whether the backend mutes in hardware.
    pub closed spec fn mutes_in_hardware(&self) -> bool {
        self.hw_mute
    }

    /// The mute state that was last applied.
    pub closed spec fn applied(&self) -> bool {
        self.muted_applied
    }

    /// A session for `cfg`, unmuted. `hw_mute` is whether unmuting the
    /// backend's amp succeeded.
    pub fn open(cfg: &AudioCfg, hw_mute: bool) -> (p: Self)
        ensures
            p.client_frame() == cfg.frame_size,
            p.native() == (cfg.format == HW_FORMAT && cfg.channels == HW_CHANNELS),
            p.native() == (cfg.format == 2 && cfg.channels == 2),
            p.mutes_in_hardware() == hw_mute,
            !p.applied(),
    {
        Player {
            hw_format: HW_FORMAT,
            hw_channels: HW_CHANNELS,
            client_fs: cfg.frame_size as usize,
            client_channels: cfg.channels,
            client_format: cfg.format,
            hw_mute,
            muted_applied: false,
        }
    }

    /// Whether the backend mutes in hardware. Such a backend goes on consuming
    /// while muted.
    pub fn hardware_mute(&self) -> (b: bool)
        ensures
            b == self.mutes_in_hardware(),
    {
        self.hw_mute
    }

    /// The mute state that control clients have set.
    pub fn is_muted(&self, st: &ServerState) -> (b: bool)
        ensures
            b == st.muted,
    {
        st.muted
    }

    /// Whether frames are to be thrown away instead of played.
    pub fn drops(&self, st: &ServerState) -> (b: bool)
        ensures
            b == (!self.mutes_in_hardware() && st.muted),
    {
        !self.hw_mute && st.muted
    }

    /// A mute state that is still to be applied: whether the backend's amp has
    /// to follow (before the LED). `None` when nothing has changed.
    pub fn sync_muted(&self, muted: bool) -> (r: Option<bool>)
        ensures
            r == if muted != self.applied() {
                Some(self.mutes_in_hardware())
            } else {
                None
            },
    {
        if muted != self.muted_applied {
            Some(self.hw_mute)
        } else {
            None
        }
    }

    /// The mute state has been applied.
    pub fn mute_applied(&mut self, muted: bool)
        ensures
            final(self).applied() == muted,
            final(self).mutes_in_hardware() == old(self).mutes_in_hardware(),
            final(self).client_frame() == old(self).client_frame(),
            final(self).native() == old(self).native(),
    {
        self.muted_applied = muted;
    }

    /// How to play `frames` frames. `unity` is whether the gain is one: then
    /// frames that are in the hardware's format already go through unchanged.
    pub fn play(&self, frames: usize, unity: bool) -> (p: PlayPlan)
        requires
            frames * self.client_frame() <= usize::MAX,
        ensures
            p == if frames == 0 {
                PlayPlan::Nothing
            } else if self.native() && unity {
                PlayPlan::Passthrough((frames * self.client_frame()) as usize)
            } else {
                PlayPlan::Convert((frames * self.client_frame()) as usize)
            },
    {
        if frames == 0 {
            return PlayPlan::Nothing;
        }
        let bytes: usize = frames * self.client_fs;
        if self.client_format == self.hw_format && self.client_channels == self.hw_channels
            && unity {
            PlayPlan::Passthrough(bytes)
        } else {
            PlayPlan::Convert(bytes)
        }
    }
}

/// The whole frames among `n` bytes, and how many bytes they take.
pub fn whole_frames(n: usize, frame_size: usize) -> (r: (usize, usize))
    requires
        frame_size > 0,
    ensures
        r.0 == n / frame_size,
        r.1 == n - n % frame_size,
        r.1 == r.0 * frame_size,
{
    let frames: usize = n / frame_size;
    proof {
        vstd::arithmetic::div_mod::lemma_fundamental_div_mod(n as int, frame_size as int);
        vstd::arithmetic::mul::lemma_mul_is_commutative(frames as int, frame_size as int);
    }
    (frames, frames * frame_size)
}

// ── Sources ──
/// Milliseconds between two looks at the mute state while a file is held back.
pub const HOLD_MS: u64 = 10;

/// What a source waits for.
#[derive(Clone, Copy, Debug, PartialEq, Eq, Structural)]
pub enum SourceStage {
    /// Nothing: the next step begins a round.
    Top,
    /// This mute state to be applied.
    Muting(bool),
    /// Bytes from standard input.
    Reading,
    End,
}

/// What came of the last action.
#[derive(Clone, Copy, Debug, PartialEq, Eq, Structural)]
pub enum SourceEvent {
    /// Begin, or it is done.
    Done,
    /// The mute state could not be applied.
    MuteFailed,
    /// So many bytes were read.
    Got(usize),
    /// There is no more to read.
    Eof,
}

/// What a source does next.
#[derive(Clone, Copy, Debug, PartialEq, Eq, Structural)]
pub enum SourceAction {
    /// Apply a mute state: first to the backend's amp, where that is to
    /// follow, and then to the LED.
    SetMute { muted: bool, amp: bool },
    /// Read from standard input.
    Read,
    /// Sleep so many milliseconds.
    Sleep(u64),
    /// Play so many frames, the bytes from `from` up to `to`.
    Play { from: usize, to: usize, frames: usize },
    /// Wait until everything is played, and stop.
    Drain,
}

/// What a source acts on: the bytes of one frame, the size of its file (none
/// for standard input) and how far that is played, whether the backend mutes
/// in hardware, and the mute state that was last applied.
pub ghost struct SourceView {
    pub frame: int,
    pub file: Option<int>,
    pub off: int,
    pub stage: SourceStage,
    pub hw_mute: bool,
    pub applied: bool,
}

/// End a source.
pub open spec fn source_end(v: SourceView) -> (SourceView, SourceAction) {
    (SourceView { stage: SourceStage::End, ..v }, SourceAction::Drain)
}

/// Go on once the mute state is in force: standard input is read on, a file is
/// held back where frames would have to be dropped, and else played to its
/// last whole frame.
pub open spec fn source_after_mute(v: SourceView, muted: bool) -> (SourceView, SourceAction) {
    match v.file {
        None => (SourceView { stage: SourceStage::Reading, ..v }, SourceAction::Read),
        Some(len) => if !v.hw_mute && muted {
            (SourceView { stage: SourceStage::Top, ..v }, SourceAction::Sleep(HOLD_MS))
        } else {
            let frames = (len - v.off) / v.frame;
            if frames == 0 {
                source_end(v)
            } else {
                let to = v.off + frames * v.frame;
                (
                    SourceView { stage: SourceStage::Top, off: to, ..v },
                    SourceAction::Play {
                        from: v.off as usize,
                        to: to as usize,
                        frames: frames as usize,
                    },
                )
            }
        },
    }
}

/// Begin a round: apply a mute state that has changed.
pub open spec fn source_top(v: SourceView, muted: bool) -> (SourceView, SourceAction) {
    if v.file matches Some(len) && v.off >= len {
        source_end(v)
    } else if muted != v.applied {
        (
            SourceView { stage: SourceStage::Muting(muted), ..v },
            SourceAction::SetMute { muted, amp: v.hw_mute },
        )
    } else {
        source_after_mute(v, muted)
    }
}

/// One step of a source; `muted` is the mute state that control clients have
/// set. What standard input gives while frames are dropped is lost, and so are
/// bytes behind the last whole frame of a read.
pub open spec fn source_next(v: SourceView, ev: SourceEvent, muted: bool) -> (
    SourceView,
    SourceAction,
) {
    match v.stage {
        SourceStage::Top => source_top(v, muted),
        SourceStage::Muting(m) => source_after_mute(
            if ev is MuteFailed {
                v
            } else {
                SourceView { applied: m, ..v }
            },
            muted,
        ),
        SourceStage::Reading => match ev {
            SourceEvent::Got(n) => {
                let frames = n as int / v.frame;
                if (!v.hw_mute && muted) || frames == 0 {
                    source_top(v, muted)
                } else {
                    (
                        SourceView { stage: SourceStage::Top, ..v },
                        SourceAction::Play {
                            from: 0,
                            to: (frames * v.frame) as usize,
                            frames: frames as usize,
                        },
                    )
                }
            },
            SourceEvent::Eof => source_end(v),
            _ => (v, SourceAction::Read),
        },
        SourceStage::End => source_end(v),
    }
}

/// Whether a source is in order.
pub open spec fn source_ok(v: SourceView) -> bool {
    &&& v.frame > 0
    &&& 0 <= v.off <= usize::MAX
    &&& v.file matches Some(len) ==> v.off <= len <= usize::MAX
}

/// A file is played from its beginning in one direction, only whole frames of
/// it, and nothing twice; muted in software nothing is played at all.
pub proof fn law_file_plays_forward(v: SourceView, ev: SourceEvent, muted: bool)
    requires
        source_ok(v),
        v.file is Some,
        v.stage != SourceStage::Reading,
    ensures
        ({
            let (w, a) = source_next(v, ev, muted);
            &&& source_ok(w)
            &&& w.stage != SourceStage::Reading
            &&& match a {
                SourceAction::Play { from, to, frames } => {
                    &&& from == v.off
                    &&& to == w.off
                    &&& to - from == frames * v.frame
                    &&& frames > 0
                    &&& v.file->0 - to < v.frame
                    &&& v.hw_mute || !muted
                },
                _ => w.off == v.off,
            }
        }),
{
    lemma_source_frames(v.file->0 - v.off, v.frame);
}

proof fn lemma_source_frames(n: int, frame: int)
    requires
        0 <= n,
        frame > 0,
    ensures
        0 <= n / frame,
        0 <= n / frame * frame <= n,
        n - n / frame * frame < frame,
        n / frame <= n,
{
    vstd::arithmetic::div_mod::lemma_fundamental_div_mod(n, frame);
    vstd::arithmetic::mul::lemma_mul_is_commutative(n / frame, frame);
    vstd::arithmetic::div_mod::lemma_div_pos_is_pos(n, frame);
    vstd::arithmetic::div_mod::lemma_mod_bound(n, frame);
    assert(0 <= n / frame * frame) by (nonlinear_arith)
        requires
            0 <= n / frame,
            frame > 0,
    ;
    vstd::arithmetic::div_mod::lemma_div_is_ordered_by_denominator(n, 1, frame);
}

/// A local source: standard input or a file.
pub struct Source {
    frame: usize,
    file: Option<usize>,
    off: usize,
    stage: SourceStage,
}

impl Source {
    /// The source and the player it plays through.
    pub closed spec fn with(&self, p: &Player) -> SourceView {
        SourceView {
            frame: self.frame as int,
            file: match self.file {
                Some(len) => Some(len as int),
                None => None,
            },
            off: self.off as int,
            stage: self.stage,
            hw_mute: p.mutes_in_hardware(),
            applied: p.applied(),
        }
    }

    /// A source of frames of so many bytes: a file of that length, or standard
    /// input.
    pub fn new(frame: usize, file: Option<usize>) -> (s: Self)
        requires
            frame > 0,
        ensures
            forall|p: &Player|
                {
                    &&& source_ok(#[trigger] s.with(p))
                    &&& s.with(p) == (SourceView {
                        frame: frame as int,
                        file: match file {
                            Some(len) => Some(len as int),
                            None => None,
                        },
                        off: 0,
                        stage: SourceStage::Top,
                        hw_mute: p.mutes_in_hardware(),
                        applied: p.applied(),
                    })
                },
    {
        Source { frame, file, off: 0, stage: SourceStage::Top }
    }

    fn after_mute(&mut self, p: &Player, muted: bool) -> (a: SourceAction)
        requires
            source_ok(old(self).with(p)),
        ensures
            source_ok(final(self).with(p)),
            (final(self).with(p), a) == source_after_mute(old(self).with(p), muted),
    {
        match self.file {
            None => {
                self.stage = SourceStage::Reading;
                SourceAction::Read
            },
            Some(len) => {
                if !p.hardware_mute() && muted {
                    self.stage = SourceStage::Top;
                    return SourceAction::Sleep(HOLD_MS);
                }
                let (frames, bytes): (usize, usize) = whole_frames(len - self.off, self.frame);
                if frames == 0 {
                    self.stage = SourceStage::End;
                    return SourceAction::Drain;
                }
                proof {
                    lemma_source_frames(len - self.off, self.frame as int);
                }
                let from: usize = self.off;
                self.off = from + bytes;
                self.stage = SourceStage::Top;
                SourceAction::Play { from, to: self.off, frames }
            },
        }
    }

    fn top(&mut self, p: &Player, muted: bool) -> (a: SourceAction)
        requires
            source_ok(old(self).with(p)),
        ensures
            source_ok(final(self).with(p)),
            (final(self).with(p), a) == source_top(old(self).with(p), muted),
    {
        if let Some(len) = self.file {
            if self.off >= len {
                self.stage = SourceStage::End;
                return SourceAction::Drain;
            }
        }
        match p.sync_muted(muted) {
            Some(amp) => {
                self.stage = SourceStage::Muting(muted);
                SourceAction::SetMute { muted, amp }
            },
            None => self.after_mute(p, muted),
        }
    }

    /// The next action, given what came of the last one.
    pub fn step(&mut self, p: &mut Player, st: &ServerState, ev: SourceEvent) -> (a: SourceAction)
        requires
            source_ok(old(self).with(old(p))),
        ensures
            source_ok(final(self).with(final(p))),
            final(p).client_frame() == old(p).client_frame(),
            final(p).native() == old(p).native(),
            (final(self).with(final(p)), a) == source_next(
                old(self).with(old(p)),
                ev,
                st.muted,
            ),
    {
        let muted = p.is_muted(st);
        match self.stage {
            SourceStage::Top => self.top(p, muted),
            SourceStage::Muting(m) => {
                match ev {
                    SourceEvent::MuteFailed => {},
                    _ => {
                        p.mute_applied(m);
                    },
                }
                self.after_mute(p, muted)
            },
            SourceStage::Reading => match ev {
                SourceEvent::Got(n) => {
                    let (frames, bytes): (usize, usize) = whole_frames(n, self.frame);
                    if p.drops(st) || frames == 0 {
                        return self.top(p, muted);
                    }
                    self.stage = SourceStage::Top;
                    SourceAction::Play { from: 0, to: bytes, frames }
                },
                SourceEvent::Eof => {
                    self.stage = SourceStage::End;
                    SourceAction::Drain
                },
                _ => SourceAction::Read,
            },
            SourceStage::End => SourceAction::Drain,
        }
    }
}

/// A file that is not held back is played: with its mute state in force, a whole
/// frame left, and no need to drop frames, it is played to its last whole frame.
/// Muted in software it waits, and at its end the source drains.
pub proof fn law_file_is_played(v: SourceView, ev: SourceEvent, muted: bool)
    requires
        source_ok(v),
        v.file is Some,
        v.stage == SourceStage::Top,
        muted == v.applied,
    ensures
        ({
            let (w, a) = source_next(v, ev, muted);
            let left = v.file->0 - v.off;
            if left == 0 {
                a is Drain
            } else if muted && !v.hw_mute {
                a == SourceAction::Sleep(10) && w == v
            } else if left < v.frame {
                a is Drain
            } else {
                a matches SourceAction::Play { from, to, frames } && {
                    &&& from == v.off
                    &&& to - from <= left
                    &&& left - (to - from) < v.frame
                    &&& to - from == frames * v.frame
                }
            }
        }),
{
    lemma_source_frames(v.file->0 - v.off, v.frame);
    if v.file->0 - v.off < v.frame {
        vstd::arithmetic::div_mod::lemma_basic_div(v.file->0 - v.off, v.frame);
    } else {
        vstd::arithmetic::div_mod::lemma_div_is_ordered(v.frame, v.file->0 - v.off, v.frame);
        vstd::arithmetic::div_mod::lemma_div_by_self(v.frame);
    }
}

/// What is read from standard input is played from its first byte to its last
/// whole frame, unless it has to be dropped; its end drains.
pub proof fn law_stdin_is_played(v: SourceView, n: usize, muted: bool)
    requires
        source_ok(v),
        v.file is None,
        v.stage == SourceStage::Reading,
    ensures
        ({
            let (w, a) = source_next(v, SourceEvent::Got(n), muted);
            a is Play <==> n >= v.frame && (v.hw_mute || !muted)
        }),
        source_next(v, SourceEvent::Got(n), muted).1 matches SourceAction::Play {
            from,
            to,
            frames,
        } ==> from == 0 && to <= n && n - to < v.frame && to == frames * v.frame,
        source_next(v, SourceEvent::Eof, muted).1 is Drain,
{
    lemma_source_frames(n as int, v.frame);
    if n < v.frame {
        vstd::arithmetic::div_mod::lemma_basic_div(n as int, v.frame);
    } else {
        vstd::arithmetic::div_mod::lemma_div_is_ordered(v.frame, n as int, v.frame);
        vstd::arithmetic::div_mod::lemma_div_by_self(v.frame);
    }
}

/// A mute state that control clients have changed is applied before anything
/// else is played, at the amp where the hardware mutes; it counts as applied
/// only when that did not fail.
pub proof fn law_mute_is_applied_first(v: SourceView, ev: SourceEvent, muted: bool)
    requires
        source_ok(v),
    ensures
        v.stage == SourceStage::Top && muted != v.applied && (v.file matches Some(len) ==> v.off
            < len) ==> source_next(v, ev, muted).1 == (SourceAction::SetMute {
            muted,
            amp: v.hw_mute,
        }) && source_next(v, ev, muted).0.applied == v.applied,
        v.stage matches SourceStage::Muting(m) ==> source_next(v, ev, muted).0.applied == if ev
            is MuteFailed {
            v.applied
        } else {
            m
        },
        v.stage == SourceStage::Reading ==> source_next(v, ev, muted).0.applied == v.applied,
{
}

/// A conversion reads as many bytes as the frames it is given have, and no more.
pub proof fn law_conversion_reads_its_frames(
    frames: int,
    ch_in: u32,
    ch_out: u32,
    fmt_in: u32,
    unity: bool,
)
    requires
        0 <= frames,
    ensures
        input_bytes(frames, ch_out as int, conversion(fmt_in, ch_in, ch_out, unity)) == if (fmt_in
            == 2 || fmt_in == 14) && ((ch_in == 1 && ch_out == 2) || ch_in == ch_out) && !(unity
            && fmt_in == 2 && ch_in == ch_out) {
            frames * ch_in * (if fmt_in == 2 { 2int } else { 4 })
        } else {
            0
        },
{
}

/// What is said of converted samples is said of the samples.
pub proof fn law_samples_are_what_they_hold(s: Samples, i: int)
    ensures
        match s {
            Samples::S16(v) => s@ matches SamplesView::S16(w) && w.len() == v@.len() && (0 <= i
                < v@.len() ==> w[i] == v@[i]),
            Samples::F32(v) => s@ matches SamplesView::F32(w) && w.len() == v@.len() && (0 <= i
                < v@.len() ==> w[i] == v@[i]),
            Samples::Silence(n) => s@ == SamplesView::Silence(n as int),
        },
{
}

} // verus!
