//! The virtual PCM device.
//!
//! The device has a buffer of `SHIM_BUFFER_FRAMES` frames. Its delay comes
//! from a time-based playhead (frames pushed less frames that the clock has
//! consumed) on top of `SHIM_SERVER_FRAMES` frames that are always buffered on
//! the server side, and `delay + avail` is always the whole buffer: an
//! application can never write more than one buffer ahead.
use crate::common::{
    pcm_format_bytes, pcm_format_bytes_spec, MSG_MUTE, MSG_UNMUTE, SHIM_BUFFER_FRAMES,
    SHIM_SERVER_FRAMES,
};
use crate::ring::{accepts, after_push, is_next_power_of_two, AudioRingBuffer};
use crate::server::protocol::{encode_header, header_bytes};
use vstd::prelude::*;

verus! {

pub const SND_PCM_STATE_OPEN: i32 = 0;

pub const SND_PCM_STATE_SETUP: i32 = 1;

pub const SND_PCM_STATE_PREPARED: i32 = 2;

pub const SND_PCM_STATE_RUNNING: i32 = 3;

pub const SND_PCM_STATE_PAUSED: i32 = 6;

/// Period that is advertised, in frames.
pub const PERIOD_FRAMES: isize = 1024;

/// Rate, channels and format of a stream that was announced to the server.
#[derive(Clone, Copy, Debug, PartialEq, Eq, Structural)]
pub struct Announced {
    pub rate: u32,
    pub channels: u16,
    pub format: u16,
}

/// Commands on their way to the server, shared by all handles of a process.
#[derive(Clone, Copy, Debug, PartialEq, Eq, Structural)]
pub struct Signals {
    /// Opcode of a pending mute or unmute; zero when there is none.
    pub mute_cmd: u8,
    /// Whether the last write was all zeros.
    pub last_silent: bool,
    /// Whether a flush is pending.
    pub flush: bool,
}

/// The state of a handle.
#[derive(Clone, Copy, Debug, PartialEq, Eq, Structural)]
pub struct Shape {
    pub rate: u32,
    pub channels: u32,
    pub format: i32,
    pub configured: bool,
    pub state: i32,
    /// Bytes written by the application since the last reset.
    pub total_pushed: usize,
    /// Bytes sent to the server since the last reset.
    pub total_written: usize,
    /// When the playhead started, in nanoseconds.
    pub play_start: Option<u64>,
    /// What the server was told, to be told again after a reconnect.
    pub header: Option<Announced>,
}

/// A handle.
#[allow(non_camel_case_types)]
pub struct snd_pcm_t {
    pub shape: Shape,
    pub ring: AudioRingBuffer,
}

/// A handle as it is opened.
pub open spec fn opened() -> Shape {
    Shape {
        rate: 0,
        channels: 0,
        format: 2,
        configured: false,
        state: SND_PCM_STATE_SETUP,
        total_pushed: 0,
        total_written: 0,
        play_start: None,
        header: None,
    }
}

/// The format code as it travels: the low 16 bits.
pub open spec fn format_code(format: i32) -> u16 {
    (format as int % 0x1_0000) as u16
}

fn code_of(format: i32) -> (c: u16)
    ensures
        c == format_code(format),
{
    let wide: i64 = format as i64 + 0x8000_0000;
    let c: u64 = wide as u64 % 0x1_0000;
    assert(c == format as int % 0x1_0000);
    c as u16
}

/// Bytes of one frame.
pub open spec fn frame_bytes(s: Shape) -> int {
    pcm_format_bytes_spec(format_code(s.format)) * s.channels
}

/// The delay when the clock has consumed `consumed` frames.
pub open spec fn delay_spec(s: Shape, consumed: int) -> int {
    let fb = frame_bytes(s);
    if fb == 0 {
        SHIM_SERVER_FRAMES as int
    } else {
        let pushed = if s.total_pushed <= isize::MAX {
            s.total_pushed as int / fb
        } else {
            0
        };
        let unplayed = (if pushed > consumed {
            pushed - consumed
        } else {
            0
        }) + SHIM_SERVER_FRAMES;
        if unplayed > SHIM_BUFFER_FRAMES {
            SHIM_BUFFER_FRAMES as int
        } else {
            unplayed
        }
    }
}

/// Delay and available frames, given how many frames the clock has consumed
/// since the playhead started.
pub fn pcm_delay_avail(h: &snd_pcm_t, consumed: isize) -> (r: (isize, isize))
    requires
        0 <= consumed,
        frame_bytes(h.shape) <= isize::MAX,
    ensures
        r.0 == delay_spec(h.shape, consumed as int),
        r.1 == SHIM_BUFFER_FRAMES - r.0,
{
    let bps: usize = pcm_format_bytes(code_of(h.shape.format));
    assert(bps * h.shape.channels == frame_bytes(h.shape));
    let fb: usize = bps * h.shape.channels as usize;
    if fb == 0 {
        return (SHIM_SERVER_FRAMES, SHIM_BUFFER_FRAMES - SHIM_SERVER_FRAMES);
    }
    let pushed: usize = if h.shape.total_pushed <= isize::MAX as usize {
        h.shape.total_pushed / fb
    } else {
        0
    };
    proof {
        vstd::arithmetic::div_mod::lemma_div_is_ordered_by_denominator(
            h.shape.total_pushed as int,
            1,
            fb as int,
        );
    }
    let unplayed: usize = if pushed > consumed as usize {
        pushed - consumed as usize
    } else {
        0
    };
    let room: usize = (SHIM_BUFFER_FRAMES - SHIM_SERVER_FRAMES) as usize;
    let delay: isize = if unplayed > room {
        SHIM_BUFFER_FRAMES
    } else {
        unplayed as isize + SHIM_SERVER_FRAMES
    };
    (delay, SHIM_BUFFER_FRAMES - delay)
}

/// The virtual device never reports less than the server side holds nor more
/// than its whole buffer; as the clock goes on the delay never grows, and it
/// shrinks by at most one frame for each frame consumed.
pub proof fn law_delay_moves_smoothly(s: Shape, consumed: int)
    requires
        0 <= consumed,
        0 <= frame_bytes(s),
    ensures
        SHIM_SERVER_FRAMES <= delay_spec(s, consumed) <= SHIM_BUFFER_FRAMES,
        delay_spec(s, consumed + 1) <= delay_spec(s, consumed) <= delay_spec(s, consumed + 1) + 1,
{
}

/// However much later it is, the delay is not larger.
pub proof fn law_delay_monotone(s: Shape, earlier: int, later: int)
    requires
        0 <= earlier <= later,
        0 <= frame_bytes(s),
    ensures
        delay_spec(s, later) <= delay_spec(s, earlier),
{
}

/// Once everything pushed has been consumed, only what the server holds is
/// left.
pub proof fn law_delay_runs_out(s: Shape, consumed: int)
    requires
        frame_bytes(s) > 0,
        consumed >= s.total_pushed as int / frame_bytes(s),
        0 <= consumed,
    ensures
        delay_spec(s, consumed) == SHIM_SERVER_FRAMES,
{
}

/// A frame takes as many bytes as the handle has channels, times the size of a
/// sample of its format: two for S16_LE, four for FLOAT_LE.
pub proof fn law_frame_is_its_samples(s: Shape)
    ensures
        s.format == 2 ==> frame_bytes(s) == s.channels + s.channels,
        s.format == 14 ==> frame_bytes(s) == s.channels + s.channels + s.channels + s.channels,
{
    if s.format == 2 {
        assert(pcm_format_bytes_spec(format_code(s.format)) == 2);
    }
    if s.format == 14 {
        assert(pcm_format_bytes_spec(format_code(s.format)) == 4);
    }
}

/// Writing raises the delay by the frames that were written, and the clock
/// lowers it by the frames that it consumed: of `pushed` whole frames in the
/// handle's format, `pushed - consumed` wait on top of what the server holds,
/// up to the whole buffer.
pub proof fn law_delay_counts_frames(s: Shape, pushed: int, consumed: int)
    requires
        s.channels > 0,
        0 <= pushed,
        0 <= consumed,
        s.format == 2 && s.total_pushed == pushed * (2 * s.channels) || s.format == 14
            && s.total_pushed == pushed * (4 * s.channels),
        s.total_pushed <= isize::MAX,
    ensures
        consumed <= pushed ==> delay_spec(s, consumed) == vstd::math::min(
            8192,
            4096 + pushed - consumed,
        ),
        consumed >= pushed ==> delay_spec(s, consumed) == 4096,
{
    law_frame_is_its_samples(s);
    let fb = frame_bytes(s);
    vstd::arithmetic::div_mod::lemma_div_multiples_vanish(pushed, fb);
    vstd::arithmetic::mul::lemma_mul_is_commutative(pushed, fb);
}

/// A fresh handle has counted nothing, is not configured, and has the delay of
/// what the server holds and no more.
pub proof fn law_fresh_handle(consumed: int)
    requires
        0 <= consumed,
    ensures
        ({
            let s = opened();
            &&& s.total_pushed == 0 && s.total_written == 0 && s.play_start is None
            &&& !s.configured && s.header is None && s.rate == 0 && s.channels == 0
            &&& s.format == 2 && s.state == 1
            &&& delay_spec(s, consumed) == 4096
        }),
{
}

/// A format travels as its own number.
pub proof fn law_format_travels(format: i32)
    ensures
        0 <= format < 0x1_0000 ==> format_code(format) == format,
        (format_code(format) - format) % 0x1_0000 == 0,
{
}

/// What committing a configuration comes to.
pub enum Commit {
    /// The server has been told already.
    Done,
    /// Rate or channels are missing.
    Invalid,
    /// There is no connection.
    NotConnected,
    /// Send this header.
    Send(Vec<u8>),
}

/// Why a write is refused.
#[derive(Clone, Copy, Debug, PartialEq, Eq, Structural)]
pub enum WriteError {
    /// The handle is not configured.
    NotConfigured,
    /// The handle has no channels.
    NoChannels,
}

/// A byte counter after `n` more bytes; it wraps.
pub open spec fn wrapped_sum(count: usize, n: nat) -> usize {
    if count + n > usize::MAX {
        (count + n - usize::MAX - 1) as usize
    } else {
        (count + n) as usize
    }
}

/// Whether all bytes are zero.
pub open spec fn is_silent(data: Seq<u8>) -> bool {
    forall|i: int| 0 <= i < data.len() ==> #[trigger] data[i] == 0
}

/// The signals after a write: silence after sound asks for a mute, sound after
/// silence for an unmute.
pub open spec fn noticed(sig: Signals, silent: bool) -> Signals {
    Signals {
        mute_cmd: if silent && !sig.last_silent {
            MSG_MUTE
        } else if !silent && sig.last_silent {
            MSG_UNMUTE
        } else {
            sig.mute_cmd
        },
        last_silent: silent,
        ..sig
    }
}

/// Going silent asks for a mute and coming back for an unmute; a write like the
/// last one asks for nothing, and no write touches a pending flush.
pub proof fn law_silence_is_noticed(sig: Signals, data: Seq<u8>)
    ensures
        ({
            let sound = exists|i: int| 0 <= i < data.len() && #[trigger] data[i] != 0;
            let t = noticed(sig, is_silent(data));
            &&& t.last_silent == !sound
            &&& t.flush == sig.flush
            &&& t.mute_cmd == if sound && sig.last_silent {
                0x55u8
            } else if !sound && !sig.last_silent {
                0x4d
            } else {
                sig.mute_cmd
            }
            &&& noticed(t, is_silent(data)) == t
        }),
{
}

/// Byte counters count, and go round where they overflow.
pub proof fn law_counter(count: usize, n: nat)
    requires
        n <= usize::MAX,
    ensures
        count + n <= usize::MAX ==> wrapped_sum(count, n) == count + n,
        count + n > usize::MAX ==> wrapped_sum(count, n) == count + n - usize::MAX - 1,
{
}

fn all_zero(data: &[u8]) -> (b: bool)
    ensures
        b == is_silent(data@),
{
    let mut i: usize = 0;
    while i < data.len()
        invariant
            i <= data@.len(),
            forall|k: int| 0 <= k < i ==> #[trigger] data@[k] == 0,
        decreases data@.len() - i,
    {
        if data[i] != 0 {
            assert(data@[i as int] != 0);
            return false;
        }
        i = i + 1;
    }
    true
}

impl snd_pcm_t {
    /// The ring is in order.
    pub open spec fn wf(&self) -> bool {
        self.ring.wf()
    }

    /// Open a handle with a ring of at least `ring_bytes` bytes.
    pub fn snd_pcm_open(ring_bytes: usize) -> (h: Self)
        requires
            ring_bytes <= usize::MAX / 4 + 1,
        ensures
            h.wf(),
            h.shape == opened(),
            h.ring@ == Seq::<u8>::empty(),
            !h.ring.is_interrupted(),
            is_next_power_of_two(h.ring.cap_spec() as int, ring_bytes as int),
    {
        snd_pcm_t {
            shape: Shape {
                rate: 0,
                channels: 0,
                format: 2,
                configured: false,
                state: SND_PCM_STATE_SETUP,
                total_pushed: 0,
                total_written: 0,
                play_start: None,
                header: None,
            },
            ring: AudioRingBuffer::new(ring_bytes),
        }
    }

    /// Prepare for playback: the playhead starts anew at the next write.
    pub fn snd_pcm_prepare(&mut self)
        ensures
            final(self).ring == old(self).ring,
            final(self).shape == (Shape {
                state: SND_PCM_STATE_PREPARED,
                play_start: None,
                ..old(self).shape
            }),
    {
        self.shape.state = SND_PCM_STATE_PREPARED;
        self.shape.play_start = None;
    }

    /// Let what is buffered play out.
    pub fn snd_pcm_drain(&mut self)
        ensures
            final(self).ring == old(self).ring,
            final(self).shape == (Shape { state: SND_PCM_STATE_PREPARED, ..old(self).shape }),
    {
        self.shape.state = SND_PCM_STATE_PREPARED;
    }

    /// Drop what is buffered, and have the server drop it too unless the
    /// handle was never used.
    pub fn snd_pcm_drop(&mut self, sig: &mut Signals)
        requires
            old(self).wf(),
        ensures
            final(self).wf(),
            final(self).ring@ == Seq::<u8>::empty(),
            final(self).ring.cap_spec() == old(self).ring.cap_spec(),
            final(self).ring.is_interrupted() == old(self).ring.is_interrupted(),
            final(self).shape == (Shape {
                state: SND_PCM_STATE_PREPARED,
                total_pushed: 0,
                total_written: 0,
                play_start: None,
                ..old(self).shape
            }),
            *final(sig) == (Signals {
                flush: old(sig).flush || old(self).shape.state == SND_PCM_STATE_RUNNING || old(
                    self,
                ).shape.configured,
                ..*old(sig)
            }),
    {
        self.ring.clear();
        let was_running = self.shape.state == SND_PCM_STATE_RUNNING;
        self.shape.total_pushed = 0;
        self.shape.total_written = 0;
        self.shape.play_start = None;
        self.shape.state = SND_PCM_STATE_PREPARED;
        if was_running || self.shape.configured {
            sig.flush = true;
        }
    }

    /// Start the stream.
    pub fn snd_pcm_start(&mut self)
        ensures
            final(self).ring == old(self).ring,
            final(self).shape == (Shape { state: SND_PCM_STATE_RUNNING, ..old(self).shape }),
    {
        self.shape.state = SND_PCM_STATE_RUNNING;
    }

    /// Pause (`enable` not zero), which flushes the server, or go on.
    pub fn snd_pcm_pause(&mut self, enable: i32, sig: &mut Signals)
        ensures
            final(self).ring == old(self).ring,
            final(self).shape == (Shape {
                state: if enable != 0 {
                    SND_PCM_STATE_PAUSED
                } else {
                    SND_PCM_STATE_RUNNING
                },
                ..old(self).shape
            }),
            *final(sig) == (Signals { flush: old(sig).flush || enable != 0, ..*old(sig) }),
    {
        if enable != 0 {
            self.shape.state = SND_PCM_STATE_PAUSED;
            sig.flush = true;
        } else {
            self.shape.state = SND_PCM_STATE_RUNNING;
        }
    }

    /// The state; a missing handle counts as open.
    pub fn snd_pcm_state(h: Option<&snd_pcm_t>) -> (s: i32)
        ensures
            s == match h {
                Some(x) => x.shape.state,
                None => SND_PCM_STATE_OPEN,
            },
    {
        match h {
            Some(x) => x.shape.state,
            None => SND_PCM_STATE_OPEN,
        }
    }

    /// Propose a sample format.
    pub fn set_format(&mut self, format: i32)
        ensures
            final(self).ring == old(self).ring,
            final(self).shape == (Shape { format, ..old(self).shape }),
    {
        self.shape.format = format;
    }

    /// Propose a channel count.
    pub fn set_channels(&mut self, channels: u32)
        ensures
            final(self).ring == old(self).ring,
            final(self).shape == (Shape { channels, ..old(self).shape }),
    {
        self.shape.channels = channels;
    }

    /// Propose a sample rate.
    pub fn set_rate(&mut self, rate: u32)
        ensures
            final(self).ring == old(self).ring,
            final(self).shape == (Shape { rate, ..old(self).shape }),
    {
        self.shape.rate = rate;
    }

    /// Propose format, channels and rate in one call.
    pub fn snd_pcm_set_params(&mut self, format: i32, channels: u32, rate: u32)
        ensures
            final(self).ring == old(self).ring,
            final(self).shape == (Shape { format, channels, rate, ..old(self).shape }),
    {
        self.shape.format = format;
        self.shape.channels = channels;
        self.shape.rate = rate;
    }

    /// Commit the proposed configuration: the server is told once, and what
    /// it was told is kept for a reconnect.
    pub fn commit_configured(&mut self, connected: bool) -> (c: Commit)
        ensures
            final(self).ring == old(self).ring,
            ({
                let s = old(self).shape;
                let told = Announced {
                    rate: s.rate,
                    channels: (s.channels % 0x1_0000) as u16,
                    format: format_code(s.format),
                };
                if s.rate == 0 || s.channels == 0 {
                    c is Invalid && final(self).shape == s
                } else if s.configured {
                    c is Done && final(self).shape == s
                } else if !connected {
                    c is NotConnected && final(self).shape == s
                } else {
                    &&& c matches Commit::Send(h) && h@ == header_bytes(
                        told.rate,
                        told.channels,
                        told.format,
                    )
                    &&& final(self).shape == (Shape { header: Some(told), ..s })
                }
            }),
    {
        if self.shape.rate == 0 || self.shape.channels == 0 {
            return Commit::Invalid;
        }
        if self.shape.configured {
            return Commit::Done;
        }
        if !connected {
            return Commit::NotConnected;
        }
        let told = Announced {
            rate: self.shape.rate,
            channels: (self.shape.channels % 0x1_0000) as u16,
            format: code_of(self.shape.format),
        };
        self.shape.header = Some(told);
        Commit::Send(encode_header(told.rate, told.channels, told.format))
    }

    /// The header was sent.
    pub fn configured(&mut self)
        ensures
            final(self).ring == old(self).ring,
            final(self).shape == (Shape {
                configured: true,
                state: SND_PCM_STATE_PREPARED,
                ..old(self).shape
            }),
    {
        self.shape.configured = true;
        self.shape.state = SND_PCM_STATE_PREPARED;
    }

    /// Bytes of `frames` frames; a handle without channels counts as mono.
    pub fn snd_pcm_frames_to_bytes(&self, frames: isize) -> (n: usize)
        requires
            frames * pcm_format_bytes_spec(format_code(self.shape.format)) * (if self.shape.channels
                == 0 {
                1
            } else {
                self.shape.channels as int
            }) <= usize::MAX,
            pcm_format_bytes_spec(format_code(self.shape.format)) * self.shape.channels
                <= usize::MAX,
        ensures
            n == if frames <= 0 {
                0
            } else {
                frames * (pcm_format_bytes_spec(format_code(self.shape.format)) * (if self.shape.channels
                    == 0 {
                    1
                } else {
                    self.shape.channels as int
                }))
            },
            frames >= 0 && self.shape.channels > 0 ==> n == frames * frame_bytes(self.shape),
    {
        if frames <= 0 {
            return 0;
        }
        let bps: usize = pcm_format_bytes(code_of(self.shape.format));
        let ch: usize = if self.shape.channels == 0 {
            1
        } else {
            self.shape.channels as usize
        };
        let fb: usize = bps * ch;
        assert(frames * (bps * ch) == frames * bps * ch) by (nonlinear_arith);
        frames as usize * fb
    }

    /// Bytes of a write of `size` frames, or why it is refused.
    pub fn writei_bytes(&self, size: usize) -> (r: Result<usize, WriteError>)
        requires
            self.shape.configured ==> frame_bytes(self.shape) <= usize::MAX && size * frame_bytes(
                self.shape,
            ) <= usize::MAX,
        ensures
            r == if !self.shape.configured {
                Err::<usize, WriteError>(WriteError::NotConfigured)
            } else if self.shape.channels == 0 {
                Err(WriteError::NoChannels)
            } else {
                Ok((size * frame_bytes(self.shape)) as usize)
            },
            self.shape.configured && self.shape.format == 2 && self.shape.channels > 0 ==> r
                == Ok::<usize, WriteError>((size * (2 * self.shape.channels)) as usize),
            self.shape.configured && self.shape.format == 14 && self.shape.channels > 0 ==> r
                == Ok::<usize, WriteError>((size * (4 * self.shape.channels)) as usize),
    {
        proof {
            law_frame_is_its_samples(self.shape);
        }
        if !self.shape.configured {
            return Err(WriteError::NotConfigured);
        }
        if self.shape.channels == 0 {
            return Err(WriteError::NoChannels);
        }
        let bps: usize = pcm_format_bytes(code_of(self.shape.format));
        let fb: usize = bps * self.shape.channels as usize;
        Ok(size * fb)
    }

    /// The first part of a write at time `now`: the playhead starts if it has
    /// not, and going silent or loud is noticed.
    pub fn writei_begin(&mut self, data: &[u8], sig: &mut Signals, now: u64)
        ensures
            final(self).ring == old(self).ring,
            final(self).shape == (Shape {
                play_start: match old(self).shape.play_start {
                    Some(t) => Some(t),
                    None => Some(now),
                },
                ..old(self).shape
            }),
            *final(sig) == noticed(*old(sig), is_silent(data@)),
    {
        if self.shape.play_start.is_none() {
            self.shape.play_start = Some(now);
        }
        let silent = all_zero(data);
        let prev = sig.last_silent;
        sig.last_silent = silent;
        if silent && !prev {
            sig.mute_cmd = MSG_MUTE;
        } else if !silent && prev {
            sig.mute_cmd = MSG_UNMUTE;
        }
    }

    /// The second part of a write: queue the bytes. `false` means that they do
    /// not fit yet and nothing has changed.
    pub fn writei_push(&mut self, data: &[u8]) -> (stored: bool)
        requires
            old(self).wf(),
        ensures
            final(self).wf(),
            stored == accepts(old(self).ring@, old(self).ring.cap_spec(), data@),
            final(self).ring@ == after_push(old(self).ring@, old(self).ring.cap_spec(), data@),
            final(self).ring.cap_spec() == old(self).ring.cap_spec(),
            final(self).ring.is_interrupted() == old(self).ring.is_interrupted(),
            final(self).shape == if stored {
                Shape {
                    total_pushed: wrapped_sum(old(self).shape.total_pushed, data@.len()),
                    ..old(self).shape
                }
            } else {
                old(self).shape
            },
    {
        let stored = self.ring.push(data);
        if stored {
            self.shape.total_pushed = self.shape.total_pushed.wrapping_add(data.len());
        }
        stored
    }

    /// A new connection stands: counters and playhead start anew, and the
    /// server is told the configuration again, if there is one.
    pub fn reconnected(&mut self) -> (header: Option<Vec<u8>>)
        ensures
            final(self).ring == old(self).ring,
            final(self).shape == (Shape {
                total_pushed: 0,
                total_written: 0,
                play_start: None,
                ..old(self).shape
            }),
            match old(self).shape.header {
                Some(a) => header matches Some(h) && h@ == header_bytes(
                    a.rate,
                    a.channels,
                    a.format,
                ),
                None => header is None,
            },
    {
        self.shape.total_written = 0;
        self.shape.total_pushed = 0;
        self.shape.play_start = None;
        match self.shape.header {
            Some(a) => Some(encode_header(a.rate, a.channels, a.format)),
            None => None,
        }
    }
}

} // verus!
