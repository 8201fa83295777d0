//! Wire protocol: the configuration header that opens a connection, and the
//! length-prefixed frames that follow it.
//!
//! A frame is a 32-bit length and that many bytes of PCM. A zero length is
//! followed by one opcode byte instead, and `Volume` by four bytes more.
use crate::bytes::{
    copy_range, get_u16, get_u32, le16_at, le32_at, lemma_u16_round_trip, lemma_u32_round_trip,
    push_u16, push_u32, u16_le, u32_le,
};
use crate::common::{
    audio_cfg, AudioCfg, FORMAT_FLOAT_LE, FORMAT_S16_LE, HDR_SZ, MSG_FLUSH,
    MSG_MUTE, MSG_STATUS, MSG_UNMUTE, MSG_VOLUME,
};
use vstd::prelude::*;

verus! {

// ── Configuration header ──
/// Whether a stream of this shape can be accepted.
pub open spec fn stream_ok(rate: int, channels: int, format: int) -> bool {
    &&& rate > 0
    &&& 1 <= channels <= 8
    &&& format == FORMAT_S16_LE || format == FORMAT_FLOAT_LE
}

/// The configuration in a header: rate, channels and format, if they make an
/// acceptable stream.
pub open spec fn header_cfg(h: Seq<u8>) -> Option<AudioCfg> {
    let rate = le32_at(h, 0);
    let channels = le16_at(h, 4);
    let format = le16_at(h, 6);
    if stream_ok(rate, channels, format) {
        Some(audio_cfg(rate as u32, channels as u32, format as u32))
    } else {
        None
    }
}

/// Parse a header. The rate must not be zero, there must be one to eight
/// channels, and the format must be S16_LE or FLOAT_LE.
pub fn parse_header(buf: &[u8; 12]) -> (r: Option<AudioCfg>)
    ensures
        r == header_cfg(buf@),
{
    let b = buf.as_slice();
    let rate: u32 = get_u32(b, 0);
    let ch: u32 = get_u16(b, 4) as u32;
    let fmt: u32 = get_u16(b, 6) as u32;
    if rate == 0 || ch == 0 || ch > 8 {
        return None;
    }
    if fmt != FORMAT_S16_LE && fmt != FORMAT_FLOAT_LE {
        return None;
    }
    Some(AudioCfg::new(rate, ch, fmt))
}

/// The bytes of a header; the last four are reserved and zero.
pub open spec fn header_bytes(rate: u32, channels: u16, format: u16) -> Seq<u8> {
    u32_le(rate) + u16_le(channels) + u16_le(format) + u32_le(0)
}

/// Write a header.
pub fn encode_header(rate: u32, channels: u16, format: u16) -> (h: Vec<u8>)
    ensures
        h@ == header_bytes(rate, channels, format),
        h@.len() == HDR_SZ,
{
    let mut h: Vec<u8> = Vec::new();
    push_u32(&mut h, rate);
    push_u16(&mut h, channels);
    push_u16(&mut h, format);
    push_u32(&mut h, 0);
    assert(h@ =~= header_bytes(rate, channels, format));
    h
}

proof fn lemma_header_fields(rate: u32, channels: u16, format: u16)
    ensures
        ({
            let h = header_bytes(rate, channels, format);
            &&& h.len() == 12
            &&& le32_at(h, 0) == rate
            &&& le16_at(h, 4) == channels
            &&& le16_at(h, 6) == format
            &&& le32_at(h, 8) == 0
        }),
{
    let h = header_bytes(rate, channels, format);
    assert(h.subrange(0, 4) =~= u32_le(rate));
    assert(h.subrange(4, 6) =~= u16_le(channels));
    assert(h.subrange(6, 8) =~= u16_le(format));
    assert(h.subrange(8, 12) =~= u32_le(0));
    lemma_u32_round_trip(rate, h, 0);
    lemma_u16_round_trip(channels, h, 4);
    lemma_u16_round_trip(format, h, 6);
    lemma_u32_round_trip(0, h, 8);
}

/// A header that was written is read back as the stream it describes, and is
/// refused exactly when that stream is not acceptable.
pub proof fn law_header_round_trip(rate: u32, channels: u16, format: u16)
    ensures
        header_cfg(header_bytes(rate, channels, format)) == if stream_ok(
            rate as int,
            channels as int,
            format as int,
        ) {
            Some(audio_cfg(rate, channels as u32, format as u32))
        } else {
            None
        },
{
    lemma_header_fields(rate, channels, format);
}

/// What a new connection turns out to be.
#[derive(Clone, Copy, Debug, PartialEq, Eq, Structural)]
pub enum Intro {
    /// A rate of zero marks a control connection.
    Control,
    Stream(AudioCfg),
    /// An unacceptable stream: the connection is dropped.
    Bad,
}

/// What a header makes of its connection.
pub open spec fn intro(h: Seq<u8>) -> Intro {
    if le32_at(h, 0) == 0 {
        Intro::Control
    } else {
        match header_cfg(h) {
            Some(cfg) => Intro::Stream(cfg),
            None => Intro::Bad,
        }
    }
}

/// Tell control connections, streams and bad headers apart.
pub fn classify(buf: &[u8; 12]) -> (i: Intro)
    ensures
        i == intro(buf@),
{
    if get_u32(buf.as_slice(), 0) == 0 {
        return Intro::Control;
    }
    match parse_header(buf) {
        Some(cfg) => Intro::Stream(cfg),
        None => Intro::Bad,
    }
}

/// The header of all zeros that a control client sends opens a control
/// connection.
pub proof fn law_control_header()
    ensures
        intro(header_bytes(0, 0, 0)) == Intro::Control,
        header_bytes(0, 0, 0) == Seq::new(12, |i: int| 0u8),
{
    lemma_header_fields(0, 0, 0);
    assert(header_bytes(0, 0, 0) =~= Seq::new(12, |i: int| 0u8));
}

// ── Frames ──
/// A control command.
#[derive(Clone, Copy, Debug, PartialEq, Eq, Structural)]
pub enum Cmd {
    Mute,
    Unmute,
    /// Drop the sending stream's queued audio.
    Flush,
    /// Set the volume in percent, as the bit pattern of an `f32`.
    Volume(u32),
    Status,
}

/// A frame.
pub enum Frame {
    Pcm(Vec<u8>),
    Command(Cmd),
}

/// A frame's contents.
pub ghost enum FrameView {
    Pcm(Seq<u8>),
    Command(Cmd),
}

impl View for Frame {
    type V = FrameView;

    open spec fn view(&self) -> FrameView {
        match *self {
            Frame::Pcm(data) => FrameView::Pcm(data@),
            Frame::Command(c) => FrameView::Command(c),
        }
    }
}

/// The views of a list of frames.
pub open spec fn frame_views(s: Seq<Frame>) -> Seq<FrameView> {
    s.map_values(|f: Frame| f@)
}

/// The command that an opcode without payload stands for.
pub open spec fn plain_cmd(op: u8) -> Option<Cmd> {
    if op == MSG_MUTE {
        Some(Cmd::Mute)
    } else if op == MSG_UNMUTE {
        Some(Cmd::Unmute)
    } else if op == MSG_FLUSH {
        Some(Cmd::Flush)
    } else if op == MSG_STATUS {
        Some(Cmd::Status)
    } else {
        None
    }
}

/// What the beginning of a byte stream holds.
pub ghost enum Head {
    /// Not yet a whole frame.
    More,
    /// Something that ends the connection.
    Bad,
    /// A frame of so many bytes.
    Frame(FrameView, int),
}

/// Read one frame at the beginning of `s`. On a control connection (`pcm`
/// false) a PCM frame ends the connection, as an unknown opcode does on any.
pub open spec fn head(s: Seq<u8>, pcm: bool) -> Head {
    if s.len() < 4 {
        Head::More
    } else {
        let len = le32_at(s, 0);
        if len != 0 {
            if !pcm {
                Head::Bad
            } else if s.len() < 4 + len {
                Head::More
            } else {
                Head::Frame(FrameView::Pcm(s.subrange(4, 4 + len)), 4 + len)
            }
        } else if s.len() < 5 {
            Head::More
        } else if s[4] == MSG_VOLUME {
            if s.len() < 9 {
                Head::More
            } else {
                Head::Frame(FrameView::Command(Cmd::Volume(le32_at(s, 5) as u32)), 9)
            }
        } else {
            match plain_cmd(s[4]) {
                Some(c) => Head::Frame(FrameView::Command(c), 5),
                None => Head::Bad,
            }
        }
    }
}

/// Whether the bytes behind the last frame reach into the audio of the next.
pub open spec fn within_audio(rest: Seq<u8>) -> bool {
    rest.len() >= 4 && le32_at(rest, 0) != 0
}

/// What a whole byte stream holds: its frames, whether it ends in something
/// bad, and the bytes behind the last frame.
pub ghost struct Parsed {
    pub frames: Seq<FrameView>,
    pub bad: bool,
    pub rest: Seq<u8>,
}

/// Read all frames of a byte stream.
pub open spec fn parse(s: Seq<u8>, pcm: bool) -> Parsed
    decreases s.len(),
{
    match head(s, pcm) {
        Head::More => Parsed { frames: Seq::empty(), bad: false, rest: s },
        Head::Bad => Parsed { frames: Seq::empty(), bad: true, rest: s },
        Head::Frame(f, n) => if 0 < n <= s.len() {
            let p = parse(s.skip(n), pcm);
            Parsed { frames: seq![f] + p.frames, ..p }
        } else {
            Parsed { frames: Seq::empty(), bad: true, rest: s }
        },
    }
}

/// More bytes behind a frame do not change it.
proof fn lemma_head_prefix(s: Seq<u8>, more: Seq<u8>, pcm: bool)
    requires
        !(head(s, pcm) is More),
    ensures
        head(s + more, pcm) == head(s, pcm),
        head(s, pcm) matches Head::Frame(_, n) ==> 0 < n <= s.len(),
{
    let t = s + more;
    assert(le32_at(t, 0) == le32_at(s, 0));
    let len = le32_at(s, 0);
    if len != 0 && s.len() >= 4 + len {
        assert(t.subrange(4, 4 + len) =~= s.subrange(4, 4 + len));
    }
}

/// How the frames of a stream are read does not depend on how its bytes were
/// split on the way: reading a piece and then the rest gives the same frames,
/// the same verdict and the same remainder as reading all at once.
pub proof fn law_split_invariance(a: Seq<u8>, b: Seq<u8>, pcm: bool)
    requires
        !parse(a, pcm).bad,
    ensures
        ({
            let first = parse(a, pcm);
            let second = parse(first.rest + b, pcm);
            let whole = parse(a + b, pcm);
            &&& whole.frames == first.frames + second.frames
            &&& whole.bad == second.bad
            &&& whole.rest == second.rest
        }),
    decreases a.len(),
{
    let first = parse(a, pcm);
    match head(a, pcm) {
        Head::More => {
            assert(first.frames + parse(a + b, pcm).frames =~= parse(a + b, pcm).frames);
        },
        Head::Bad => {},
        Head::Frame(f, n) => {
            lemma_head_prefix(a, b, pcm);
            let p = parse(a.skip(n), pcm);
            law_split_invariance(a.skip(n), b, pcm);
            assert((a + b).skip(n) =~= a.skip(n) + b);
            let q = parse((a + b).skip(n), pcm);
            assert(parse(a + b, pcm).frames == seq![f] + q.frames);
            assert(seq![f] + q.frames =~= (seq![f] + p.frames) + parse(p.rest + b, pcm).frames);
        },
    }
}

/// The bytes of a frame.
pub open spec fn frame_bytes(f: FrameView) -> Seq<u8> {
    match f {
        FrameView::Pcm(data) => u32_le(data.len() as u32) + data,
        FrameView::Command(c) => cmd_bytes(c),
    }
}

/// The opcode of a command.
pub open spec fn opcode(c: Cmd) -> u8 {
    match c {
        Cmd::Mute => MSG_MUTE,
        Cmd::Unmute => MSG_UNMUTE,
        Cmd::Flush => MSG_FLUSH,
        Cmd::Volume(_) => MSG_VOLUME,
        Cmd::Status => MSG_STATUS,
    }
}

/// The bytes of a command: a zero length, the opcode, and the payload.
pub open spec fn cmd_bytes(c: Cmd) -> Seq<u8> {
    let plain = u32_le(0).push(opcode(c));
    match c {
        Cmd::Volume(bits) => plain + u32_le(bits),
        _ => plain,
    }
}

/// Whether a frame can be written: PCM is neither empty nor longer than a
/// length can say.
pub open spec fn frame_ok(f: FrameView) -> bool {
    f matches FrameView::Pcm(data) ==> 0 < data.len() <= u32::MAX
}

/// Write a command.
pub fn encode_cmd(c: Cmd) -> (out: Vec<u8>)
    ensures
        out@ == cmd_bytes(c),
{
    let mut out: Vec<u8> = Vec::new();
    push_u32(&mut out, 0);
    let op: u8 = match c {
        Cmd::Mute => MSG_MUTE,
        Cmd::Unmute => MSG_UNMUTE,
        Cmd::Flush => MSG_FLUSH,
        Cmd::Volume(_) => MSG_VOLUME,
        Cmd::Status => MSG_STATUS,
    };
    out.push(op);
    if let Cmd::Volume(bits) = c {
        push_u32(&mut out, bits);
    }
    assert(out@ =~= cmd_bytes(c));
    out
}

/// Write a PCM frame.
pub fn encode_pcm(data: &[u8]) -> (out: Vec<u8>)
    requires
        data@.len() <= u32::MAX,
    ensures
        out@ == frame_bytes(FrameView::Pcm(data@)),
{
    let mut out: Vec<u8> = Vec::new();
    push_u32(&mut out, data.len() as u32);
    out.extend_from_slice(data);
    assert(out@ =~= frame_bytes(FrameView::Pcm(data@)));
    out
}

proof fn lemma_head_of_frame(f: FrameView, more: Seq<u8>)
    requires
        frame_ok(f),
    ensures
        head(frame_bytes(f) + more, true) == Head::Frame(f, frame_bytes(f).len() as int),
        frame_bytes(f).len() > 0,
        f is Command ==> head(frame_bytes(f) + more, false) == Head::Frame(
            f,
            frame_bytes(f).len() as int,
        ),
{
    let s = frame_bytes(f) + more;
    match f {
        FrameView::Pcm(data) => {
            assert(s.subrange(0, 4) =~= u32_le(data.len() as u32));
            lemma_u32_round_trip(data.len() as u32, s, 0);
            assert(s.subrange(4, 4 + data.len() as int) =~= data);
        },
        FrameView::Command(c) => {
            assert(s.subrange(0, 4) =~= u32_le(0));
            lemma_u32_round_trip(0, s, 0);
            assert(s[4] == opcode(c));
            if let Cmd::Volume(bits) = c {
                assert(s.subrange(5, 9) =~= u32_le(bits));
                lemma_u32_round_trip(bits, s, 5);
            }
        },
    }
}

/// The bytes of several frames, one behind the other.
pub open spec fn stream_bytes(frames: Seq<FrameView>) -> Seq<u8>
    decreases frames.len(),
{
    if frames.len() == 0 {
        Seq::empty()
    } else {
        frame_bytes(frames[0]) + stream_bytes(frames.skip(1))
    }
}

/// What a client writes, the server reads: any sequence of frames that can be
/// written is read back from its bytes, frame by frame, with nothing left.
pub proof fn law_frames_round_trip(frames: Seq<FrameView>)
    requires
        forall|i: int| 0 <= i < frames.len() ==> frame_ok(#[trigger] frames[i]),
    ensures
        parse(stream_bytes(frames), true) == (Parsed { frames, bad: false, rest: Seq::empty() }),
    decreases frames.len(),
{
    let s = stream_bytes(frames);
    if frames.len() == 0 {
        assert(frames =~= Seq::empty());
    } else {
        let tail = frames.skip(1);
        assert(frame_ok(frames[0]));
        assert forall|i: int| 0 <= i < tail.len() implies frame_ok(#[trigger] tail[i]) by {
            assert(tail[i] == frames[i + 1]);
        }
        law_frames_round_trip(tail);
        lemma_head_of_frame(frames[0], stream_bytes(tail));
        assert(s.skip(frame_bytes(frames[0]).len() as int) =~= stream_bytes(tail));
        assert(seq![frames[0]] + tail =~= frames);
    }
}

/// A control connection reads back every command that is written to it, and
/// ends at the first PCM frame.
pub proof fn law_control_commands(c: Cmd, data: Seq<u8>)
    requires
        0 < data.len() <= u32::MAX,
    ensures
        parse(cmd_bytes(c), false) == (Parsed {
            frames: seq![FrameView::Command(c)],
            bad: false,
            rest: Seq::empty(),
        }),
        parse(frame_bytes(FrameView::Pcm(data)), false).bad,
{
    let f = FrameView::Command(c);
    lemma_head_of_frame(f, Seq::empty());
    assert(cmd_bytes(c) + Seq::empty() =~= cmd_bytes(c));
    let s = cmd_bytes(c);
    assert(s.skip(s.len() as int) =~= Seq::empty());
    assert(parse(Seq::<u8>::empty(), false).frames =~= Seq::empty());
    assert(seq![f] + Seq::empty() =~= seq![f]);
    let t = frame_bytes(FrameView::Pcm(data));
    assert(t.subrange(0, 4) =~= u32_le(data.len() as u32));
    lemma_u32_round_trip(data.len() as u32, t, 0);
}

/// What comes next in a byte stream.
enum NextFrame {
    More,
    Bad,
    /// A frame of so many bytes.
    Whole(Frame, usize),
}

/// Read one frame of `b` at `at`.
fn next_frame(b: &[u8], at: usize, pcm: bool) -> (r: NextFrame)
    requires
        at <= b@.len(),
    ensures
        match r {
            NextFrame::More => head(b@.skip(at as int), pcm) is More,
            NextFrame::Bad => head(b@.skip(at as int), pcm) is Bad,
            NextFrame::Whole(f, n) => head(b@.skip(at as int), pcm) == Head::Frame(f@, n as int)
                && 0 < n && at + n <= b@.len(),
        },
{
    let ghost s = b@.skip(at as int);
    let left: usize = b.len() - at;
    if left < 4 {
        return NextFrame::More;
    }
    let len: u32 = get_u32(b, at);
    assert(len == le32_at(s, 0));
    if len != 0 {
        if !pcm {
            return NextFrame::Bad;
        }
        if (left - 4) < len as usize {
            return NextFrame::More;
        }
        let end: usize = at + 4 + len as usize;
        let data = copy_range(b, at + 4, end);
        assert(data@ =~= s.subrange(4, 4 + len));
        return NextFrame::Whole(Frame::Pcm(data), 4 + len as usize);
    }
    if left < 5 {
        return NextFrame::More;
    }
    let op: u8 = b[at + 4];
    assert(op == s[4]);
    if op == MSG_VOLUME {
        if left < 9 {
            return NextFrame::More;
        }
        let bits: u32 = get_u32(b, at + 5);
        assert(bits == le32_at(s, 5));
        return NextFrame::Whole(Frame::Command(Cmd::Volume(bits)), 9);
    }
    match Cmd::read(op) {
        Some(c) => NextFrame::Whole(Frame::Command(c), 5),
        None => NextFrame::Bad,
    }
}

/// Reads the frames of one connection out of its byte stream.
pub struct FrameReader {
    pcm: bool,
    bad: bool,
    pending: Vec<u8>,
}

impl FrameReader {
    /// Whether PCM frames are allowed.
    pub closed spec fn takes_pcm(&self) -> bool {
        self.pcm
    }

    /// Whether the connection has to end.
    pub closed spec fn failed(&self) -> bool {
        self.bad
    }

    /// Bytes behind the last frame.
    pub closed spec fn rest(&self) -> Seq<u8> {
        self.pending@
    }

    /// A reader for a stream (`pcm`) or for a control connection.
    pub fn new(pcm: bool) -> (r: Self)
        ensures
            r.takes_pcm() == pcm,
            !r.failed(),
            r.rest() == Seq::<u8>::empty(),
    {
        FrameReader { pcm, bad: false, pending: Vec::new() }
    }

    /// Whether something came that ends the connection.
    pub fn is_bad(&self) -> (b: bool)
        ensures
            b == self.failed(),
    {
        self.bad
    }

    /// Whether the last frame is complete and nothing came behind it.
    pub fn at_boundary(&self) -> (b: bool)
        ensures
            b == (self.rest().len() == 0),
    {
        self.pending.len() == 0
    }

    /// Whether part of the audio of a frame is expected next.
    pub fn in_audio(&self) -> (b: bool)
        ensures
            b == within_audio(self.rest()),
    {
        self.pending.len() >= 4 && get_u32(self.pending.as_slice(), 0) != 0
    }

    /// Take in `bytes` and append the frames they complete to `out`. After
    /// something bad, nothing more is read.
    pub fn feed(&mut self, bytes: &[u8], out: &mut Vec<Frame>)
        ensures
            final(self).takes_pcm() == old(self).takes_pcm(),
            old(self).failed() ==> final(self).failed() && final(self).rest() == old(self).rest()
                && final(out)@ == old(out)@,
            !old(self).failed() ==> {
                let p = parse(old(self).rest() + bytes@, old(self).takes_pcm());
                &&& frame_views(final(out)@) == frame_views(old(out)@) + p.frames
                &&& final(self).failed() == p.bad
                &&& final(self).rest() == p.rest
            },
    {
        if self.bad {
            return;
        }
        let ghost before = frame_views(out@);
        self.pending.extend_from_slice(bytes);
        let ghost all = self.pending@;
        assert(all =~= old(self).rest() + bytes@);
        let ghost mut done: Seq<FrameView> = Seq::empty();
        let mut at: usize = 0;
        let mut more = true;
        proof {
            assert(all.skip(0) =~= all);
            assert(frame_views(out@) =~= before + done);
            assert(done + parse(all, self.pcm).frames =~= parse(all, self.pcm).frames);
        }
        while more
            invariant
                self.pending@ == all,
                self.pcm == old(self).pcm,
                at <= all.len(),
                frame_views(out@) == before + done,
                parse(all, self.pcm).frames == done + parse(all.skip(at as int), self.pcm).frames,
                parse(all, self.pcm).bad == parse(all.skip(at as int), self.pcm).bad,
                parse(all, self.pcm).rest == parse(all.skip(at as int), self.pcm).rest,
                !more ==> !(head(all.skip(at as int), self.pcm) is Frame),
                !more ==> self.bad == (head(all.skip(at as int), self.pcm) is Bad),
                more ==> !self.bad,
            decreases all.len() - at + (if more {
                1int
            } else {
                0int
            }),
        {
            let ghost s = all.skip(at as int);
            match next_frame(self.pending.as_slice(), at, self.pcm) {
                NextFrame::More => {
                    more = false;
                },
                NextFrame::Bad => {
                    self.bad = true;
                    more = false;
                },
                NextFrame::Whole(frame, n) => {
                    let ghost f = frame@;
                    let ghost prev = out@;
                    out.push(frame);
                    proof {
                        assert(s.skip(n as int) =~= all.skip(at + n));
                        assert(frame_views(out@) =~= frame_views(prev).push(f));
                        let tail = parse(all.skip(at + n), self.pcm).frames;
                        assert(parse(s, self.pcm).frames == seq![f] + tail);
                        assert(done + (seq![f] + tail) =~= done.push(f) + tail);
                        done = done.push(f);
                        assert(frame_views(out@) =~= before + done);
                    }
                    assert(at + n <= self.pending.len());
                    at = at + n;
                },
            }
        }
        proof {
            let s = all.skip(at as int);
            assert(done + parse(s, self.pcm).frames =~= done);
        }
        let rest = self.pending.split_off(at);
        self.pending = rest;
        assert(self.pending@ =~= all.skip(at as int));
    }
}

impl Cmd {
    /// The command of an opcode that has no payload.
    fn read(op: u8) -> (c: Option<Cmd>)
        ensures
            c == plain_cmd(op),
    {
        if op == MSG_MUTE {
            Some(Cmd::Mute)
        } else if op == MSG_UNMUTE {
            Some(Cmd::Unmute)
        } else if op == MSG_FLUSH {
            Some(Cmd::Flush)
        } else if op == MSG_STATUS {
            Some(Cmd::Status)
        } else {
            None
        }
    }
}

/// Where the fields of a header stand: the rate in the first four bytes, then
/// two bytes of channels and two of format, and four zeros.
pub proof fn law_header_layout(rate: u32, channels: u16, format: u16)
    ensures
        ({
            let h = header_bytes(rate, channels, format);
            &&& h.len() == 12
            &&& h[0] + 256 * (h[1] + 256 * (h[2] + 256 * h[3])) == rate
            &&& h[4] + 256 * h[5] == channels
            &&& h[6] + 256 * h[7] == format
            &&& h[8] == 0 && h[9] == 0 && h[10] == 0 && h[11] == 0
        }),
{
    lemma_header_fields(rate, channels, format);
}

/// A header is accepted exactly for a rate, one to eight channels and one of
/// two formats, and keeps them.
pub proof fn law_header_is_kept(h: Seq<u8>)
    requires
        h.len() == 12,
    ensures
        ({
            let rate = h[0] + 256 * (h[1] + 256 * (h[2] + 256 * h[3]));
            let channels = h[4] + 256 * h[5];
            let format = h[6] + 256 * h[7];
            match header_cfg(h) {
                Some(c) => {
                    &&& rate != 0 && 0 < channels < 9 && (format == 2 || format == 14)
                    &&& c.rate == rate && c.channels == channels && c.format == format
                },
                None => rate == 0 || channels == 0 || channels > 8 || (format != 2 && format != 14),
            }
        }),
{
}

/// Audio travels byte for byte behind its length; a command behind a length of
/// zero, as the letter that stands for it, and a volume with its four bytes.
pub proof fn law_frame_layout(data: Seq<u8>, c: Cmd)
    requires
        data.len() <= u32::MAX,
    ensures
        ({
            let p = frame_bytes(FrameView::Pcm(data));
            &&& p.len() == 4 + data.len()
            &&& p[0] + 256 * (p[1] + 256 * (p[2] + 256 * p[3])) == data.len()
            &&& p.skip(4) == data
        }),
        ({
            let b = frame_bytes(FrameView::Command(c));
            &&& b.len() == if c is Volume {
                9int
            } else {
                5
            }
            &&& b[0] == 0 && b[1] == 0 && b[2] == 0 && b[3] == 0
            &&& b[4] as int == match c {
                Cmd::Mute => 'M' as int,
                Cmd::Unmute => 'U' as int,
                Cmd::Flush => 'F' as int,
                Cmd::Volume(_) => 'V' as int,
                Cmd::Status => 'S' as int,
            }
            &&& c matches Cmd::Volume(v) ==> b[5] + 256 * (b[6] + 256 * (b[7] + 256 * b[8])) == v
        }),
{
    let p = frame_bytes(FrameView::Pcm(data));
    assert(p.skip(4) =~= data);
    let b = frame_bytes(FrameView::Command(c));
    assert('M' as int == 0x4d && 'U' as int == 0x55 && 'F' as int == 0x46 && 'V' as int == 0x56
        && 'S' as int == 0x53);
}

/// A reader waits as long as a frame is not whole, takes it when it is, and
/// ends the connection at an opcode that stands for nothing.
pub proof fn law_reader_waits_for_whole_frames(s: Seq<u8>)
    ensures
        parse(s, true).frames.len() == 0 && !parse(s, true).bad <==> s.len() < 4 || ({
            let n = s[0] + 256 * (s[1] + 256 * (s[2] + 256 * s[3]));
            if n != 0 {
                s.len() < 4 + n
            } else {
                s.len() < 5 || (s[4] == 0x56 && s.len() < 9)
            }
        }),
        parse(s, true).frames.len() == 0 && parse(s, true).bad <==> s.len() >= 5 && s[0] == 0
            && s[1] == 0 && s[2] == 0 && s[3] == 0 && s[4] != 0x4d && s[4] != 0x55 && s[4] != 0x46
            && s[4] != 0x56 && s[4] != 0x53,
{
}

/// Frames are read one by one: a whole frame in front is the first one read, and
/// what stands behind it is read as if it stood alone.
pub proof fn law_frames_peel_off(f: FrameView, more: Seq<u8>)
    requires
        frame_ok(f),
    ensures
        parse(frame_bytes(f) + more, true).frames == seq![f] + parse(more, true).frames,
        parse(frame_bytes(f) + more, true).bad == parse(more, true).bad,
        parse(frame_bytes(f) + more, true).rest == parse(more, true).rest,
{
    lemma_head_of_frame(f, more);
    assert((frame_bytes(f) + more).skip(frame_bytes(f).len() as int) =~= more);
}

/// A control connection ends at the first length that is not zero and at the
/// first opcode that stands for nothing, and waits for nothing but the rest of a
/// command.
pub proof fn law_control_reader(s: Seq<u8>)
    ensures
        parse(s, false).frames.len() == 0 && parse(s, false).bad <==> s.len() >= 4 && (s[0] != 0
            || s[1] != 0 || s[2] != 0 || s[3] != 0 || (s.len() >= 5 && s[4] != 0x4d && s[4] != 0x55
            && s[4] != 0x46 && s[4] != 0x56 && s[4] != 0x53)),
        parse(s, false).frames.len() == 0 && !parse(s, false).bad ==> s.len() < 9,
{
}

/// What is said of frames is said of what they carry.
pub proof fn law_frames_are_what_they_carry(frames: Seq<Frame>, i: int)
    ensures
        frame_views(frames).len() == frames.len(),
        0 <= i < frames.len() ==> match frames[i] {
            Frame::Pcm(data) => frame_views(frames)[i] == FrameView::Pcm(data@),
            Frame::Command(c) => frame_views(frames)[i] == FrameView::Command(c),
        },
{
}

} // verus!
