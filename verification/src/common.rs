//! Shared constants and format helpers.
//!
//! The A/V-sync constants are a coupled invariant between the shim's virtual
//! buffer model and the server's ring occupancy cap: the shim presents a
//! device of exactly `SHIM_BUFFER_FRAMES` frames of which `SHIM_SERVER_FRAMES`
//! are always buffered, and the server never queues more than that.
use vstd::prelude::*;

verus! {

pub const SOCKET_PATH_STR: &'static str = "/tmp/audiod.sock";

/// Size of the configuration header that opens every connection.
pub const HDR_SZ: usize = 12;

pub const MSG_MUTE: u8 = 0x4d;

pub const MSG_UNMUTE: u8 = 0x55;

pub const MSG_STATUS: u8 = 0x53;

pub const MSG_VOLUME: u8 = 0x56;

pub const MSG_FLUSH: u8 = 0x46;

pub const FORMAT_S16_LE: u32 = 2;

pub const FORMAT_FLOAT_LE: u32 = 14;

pub const HW_FORMAT: u32 = 2;

pub const HW_CHANNELS: u32 = 2;

/// Virtual device buffer that the shim advertises, in frames.
pub const SHIM_BUFFER_FRAMES: isize = 8192;

/// Frames that the shim assumes are always buffered on the server side.
pub const SHIM_SERVER_FRAMES: isize = 4096;

/// The drain side moves this many bytes at a time.
pub const DRAIN_CHUNK: usize = 1024;

/// Bytes per sample of a client format.
pub open spec fn format_bytes_spec(fmt: u32) -> u32 {
    if fmt == FORMAT_FLOAT_LE {
        4
    } else {
        2
    }
}

/// Bytes per sample of a client format; formats the server does not stream
/// count as 16-bit.
pub fn format_bytes(fmt: u32) -> (n: u32)
    ensures
        n == format_bytes_spec(fmt),
{
    if fmt == FORMAT_S16_LE {
        2
    } else if fmt == FORMAT_FLOAT_LE {
        4
    } else {
        2
    }
}

/// Bytes per sample of a PCM format code.
pub open spec fn pcm_format_bytes_spec(fmt: u16) -> usize {
    if fmt == 6 || fmt == 14 {
        4
    } else {
        2
    }
}

/// Bytes per sample of a PCM format code: 32-bit containers take four, all
/// else counts as 16-bit.
pub fn pcm_format_bytes(fmt: u16) -> (n: usize)
    ensures
        n == pcm_format_bytes_spec(fmt),
{
    match fmt {
        2 => 2,
        6 => 4,
        14 => 4,
        _ => 2,
    }
}

/// Server and shim agree on the size of a sample in the formats that travel
/// between them: half as many bytes as for floating point.
pub proof fn law_sample_sizes_agree(fmt: u16)
    requires
        fmt == 2 || fmt == 14,
    ensures
        format_bytes_spec(fmt as u32) == pcm_format_bytes_spec(fmt),
        8 * pcm_format_bytes_spec(fmt) == if fmt == 2 {
            16int
        } else {
            32
        },
{
}

/// A stream's frame holds one sample for each channel, and the stream keeps
/// the shape it was described by.
pub proof fn law_cfg_frame(rate: u32, channels: u32, format: u32)
    requires
        1 <= channels <= 8,
        format == 2 || format == 14,
    ensures
        ({
            let c = audio_cfg(rate, channels, format);
            &&& c.rate == rate && c.channels == channels && c.format == format
            &&& c.frame_size == if format == 2 {
                channels + channels
            } else {
                channels + channels + channels + channels
            }
        }),
{
    if format == 2 {
        assert(format_bytes_spec(format) * channels == 2 * channels);
    } else {
        assert(format_bytes_spec(format) * channels == 4 * channels);
    }
}

/// Rate, channel count and sample format of a PCM stream.
#[derive(Clone, Copy, Debug, PartialEq, Eq, Structural)]
pub struct AudioCfg {
    pub rate: u32,
    pub channels: u32,
    /// Bytes of one frame, modulo 2^16.
    pub frame_size: u16,
    pub format: u32,
}

/// The configuration for a stream of the given shape.
pub open spec fn audio_cfg(rate: u32, channels: u32, format: u32) -> AudioCfg {
    AudioCfg {
        rate,
        channels,
        frame_size: ((format_bytes_spec(format) * channels) % 0x1_0000) as u16,
        format,
    }
}

impl AudioCfg {
    /// The configuration for a stream of the given shape.
    pub fn new(rate: u32, channels: u32, format: u32) -> (c: Self)
        requires
            format_bytes_spec(format) * channels <= u32::MAX,
        ensures
            c == audio_cfg(rate, channels, format),
    {
        let bps: u32 = format_bytes(format);
        assert(bps * channels == format_bytes_spec(format) * channels);
        AudioCfg { rate, channels, frame_size: (bps * channels % 0x1_0000) as u16, format }
    }
}

} // verus!
