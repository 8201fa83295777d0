//! WAV files: the canonical 44-byte header of 16-bit PCM.
use crate::bytes::{get_u16, get_u32, le16_at, le32_at};
use crate::common::{audio_cfg, format_bytes_spec, AudioCfg, FORMAT_S16_LE};
use vstd::prelude::*;

verus! {

/// Why a file cannot be played.
#[derive(Clone, Copy, Debug, PartialEq, Eq, Structural)]
pub enum WavError {
    NotWav,
    /// Only PCM can be played.
    NotPcm,
    /// Only 16-bit samples can be played.
    Not16Bit,
}

/// What a header says: the stream's shape and the size of its data.
#[derive(Clone, Copy, Debug, PartialEq, Eq, Structural)]
pub struct WavFile {
    pub cfg: AudioCfg,
    pub data_len: u32,
}

/// Whether the RIFF and WAVE marks are in place.
pub open spec fn is_wave(h: Seq<u8>) -> bool {
    &&& h.subrange(0, 4) == seq![0x52u8, 0x49, 0x46, 0x46]
    &&& h.subrange(8, 12) == seq![0x57u8, 0x41, 0x56, 0x45]
}

/// What a header says, or why it is refused.
pub open spec fn wav_header(h: Seq<u8>) -> Result<WavFile, WavError> {
    if !is_wave(h) {
        Err(WavError::NotWav)
    } else if le16_at(h, 20) != 1 {
        Err(WavError::NotPcm)
    } else if le16_at(h, 34) != 16 {
        Err(WavError::Not16Bit)
    } else {
        Ok(
            WavFile {
                cfg: audio_cfg(le32_at(h, 24) as u32, le16_at(h, 22) as u32, FORMAT_S16_LE),
                data_len: le32_at(h, 40) as u32,
            },
        )
    }
}

/// Read a header.
pub fn load_wav(header: &[u8; 44]) -> (r: Result<WavFile, WavError>)
    ensures
        r == wav_header(header@),
{
    let h = header.as_slice();
    let riff = h[0] == 0x52 && h[1] == 0x49 && h[2] == 0x46 && h[3] == 0x46;
    let wave = h[8] == 0x57 && h[9] == 0x41 && h[10] == 0x56 && h[11] == 0x45;
    proof {
        let a = h@.subrange(0, 4);
        let b = h@.subrange(8, 12);
        assert(a[0] == h@[0] && a[1] == h@[1] && a[2] == h@[2] && a[3] == h@[3]);
        assert(b[0] == h@[8] && b[1] == h@[9] && b[2] == h@[10] && b[3] == h@[11]);
        if riff && wave {
            assert(a =~= seq![0x52u8, 0x49, 0x46, 0x46]);
            assert(b =~= seq![0x57u8, 0x41, 0x56, 0x45]);
        }
    }
    if !(riff && wave) {
        return Err(WavError::NotWav);
    }
    if get_u16(h, 20) != 1 {
        return Err(WavError::NotPcm);
    }
    if get_u16(h, 34) != 16 {
        return Err(WavError::Not16Bit);
    }
    Ok(
        WavFile {
            cfg: AudioCfg::new(get_u32(h, 24), get_u16(h, 22) as u32, FORMAT_S16_LE),
            data_len: get_u32(h, 40),
        },
    )
}

/// A file is played exactly when it carries the marks "RIFF" and "WAVE", the
/// format tag of PCM and 16 bits per sample; it is played with the channels,
/// the rate and the amount of data that its header gives.
pub proof fn law_wav_fields(h: Seq<u8>)
    requires
        h.len() == 44,
    ensures
        ({
            let marked = h[0] == 0x52 && h[1] == 0x49 && h[2] == 0x46 && h[3] == 0x46 && h[8]
                == 0x57 && h[9] == 0x41 && h[10] == 0x56 && h[11] == 0x45;
            let pcm = h[20] == 1 && h[21] == 0;
            let wide = h[34] == 16 && h[35] == 0;
            match wav_header(h) {
                Ok(w) => {
                    &&& marked && pcm && wide
                    &&& w.cfg.format == 2
                    &&& w.cfg.channels == h[22] + 256 * h[23]
                    &&& w.cfg.rate == h[24] + 256 * (h[25] + 256 * (h[26] + 256 * h[27]))
                    &&& w.data_len == h[40] + 256 * (h[41] + 256 * (h[42] + 256 * h[43]))
                    &&& w.cfg.channels < 0x8000 ==> w.cfg.frame_size == 2 * w.cfg.channels
                },
                Err(WavError::NotWav) => !marked,
                Err(WavError::NotPcm) => marked && !pcm,
                Err(WavError::Not16Bit) => marked && pcm && !wide,
            }
        }),
{
    let a = h.subrange(0, 4);
    let b = h.subrange(8, 12);
    let riff = seq![0x52u8, 0x49, 0x46, 0x46];
    let wave = seq![0x57u8, 0x41, 0x56, 0x45];
    assert(a[0] == h[0] && a[1] == h[1] && a[2] == h[2] && a[3] == h[3]);
    assert(b[0] == h[8] && b[1] == h[9] && b[2] == h[10] && b[3] == h[11]);
    if h[0] == 0x52 && h[1] == 0x49 && h[2] == 0x46 && h[3] == 0x46 {
        assert(a =~= riff);
    }
    if h[8] == 0x57 && h[9] == 0x41 && h[10] == 0x56 && h[11] == 0x45 {
        assert(b =~= wave);
    }
    assert(riff[0] == 0x52 && riff[1] == 0x49 && riff[2] == 0x46 && riff[3] == 0x46);
    assert(wave[0] == 0x57 && wave[1] == 0x41 && wave[2] == 0x56 && wave[3] == 0x45);
    let ch = le16_at(h, 22) as u32;
    assert(format_bytes_spec(FORMAT_S16_LE) * ch == 2 * ch);
}

} // verus!
