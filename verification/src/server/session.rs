//! One client's way into the mix: PCM bytes, folded to stereo, resampled to
//! the mix rate, and packed as 16-bit samples for the client's ring.
//!
//! Averaging, interpolation and rounding work on floating-point numbers and
//! happen between the stages, outside.
use super::dsp::{
    channel_views, client_frame_bytes, fold_to_stereo, folded, is_gcd, kind_named, pack_s16,
    packed_s16, point_views, Channel, Point, Position, Resampler,
};
use crate::common::{pcm_format_bytes_spec, AudioCfg, FORMAT_FLOAT_LE, FORMAT_S16_LE};
use vstd::prelude::*;

verus! {

/// Audio for a client's ring.
pub struct Delivery {
    pub bytes: Vec<u8>,
    pub frames: u64,
}

/// A client's stream.
pub struct Session {
    cfg: AudioCfg,
    resampler: Option<Resampler>,
}

impl Session {
    /// The stream's shape.
    pub closed spec fn shape(&self) -> AudioCfg {
        self.cfg
    }

    /// Where the resampler stands; `None` when the client runs at the mix
    /// rate.
    pub closed spec fn position(&self) -> Option<Position> {
        match self.resampler {
            Some(r) => Some(r@),
            None => None,
        }
    }

    /// The shape is one that the server accepts, and the resampler is in
    /// order.
    pub open spec fn wf(&self) -> bool {
        &&& 1 <= self.shape().channels <= 8
        &&& self.shape().format == FORMAT_S16_LE || self.shape().format == FORMAT_FLOAT_LE
        &&& self.position() matches Some(p) ==> p.wf()
    }

    /// A session for an accepted stream, resampled to `mix_rate` with the
    /// resampler of that name.
    pub fn new(cfg: AudioCfg, mix_rate: u32, resampler: &str) -> (s: Self)
        requires
            1 <= cfg.channels <= 8,
            cfg.format == FORMAT_S16_LE || cfg.format == FORMAT_FLOAT_LE,
        ensures
            s.wf(),
            s.shape() == cfg,
            s.position() is None <==> cfg.rate == mix_rate || cfg.rate == 0 || mix_rate == 0,
            s.position() matches Some(p) ==> {
                &&& p.kind == kind_named(resampler@)
                &&& p.pos == 0
                &&& p.hist == Seq::<u32>::empty()
                &&& exists|g: int|
                    #[trigger] is_gcd(g, cfg.rate as int, mix_rate as int) && p.num
                        == cfg.rate as int / g && p.den == mix_rate as int / g
                &&& p.num * mix_rate == p.den * cfg.rate
            },
    {
        let resampler = Resampler::new(cfg.rate, mix_rate, resampler);
        Session { cfg, resampler }
    }

    /// Whether the stream is resampled.
    pub fn resampled(&self) -> (b: bool)
        ensures
            b == (self.position() is Some),
    {
        self.resampler.is_some()
    }

    /// The resampler, for what its points ask for.
    pub fn resampler(&self) -> (r: Option<&Resampler>)
        ensures
            r is Some <==> self.position() is Some,
            r matches Some(x) ==> self.position() == Some(x@),
    {
        match &self.resampler {
            Some(r) => Some(r),
            None => None,
        }
    }

    /// Fold a chunk of client PCM to stereo.
    pub fn fold(&self, pcm: &[u8]) -> (out: Vec<Channel>)
        requires
            self.wf(),
        ensures
            channel_views(out@) == folded(
                pcm@,
                self.shape().format,
                self.shape().channels,
                pcm@.len() / client_frame_bytes(self.shape().format, self.shape().channels) as nat,
            ),
    {
        let mut out: Vec<Channel> = Vec::new();
        assert(client_frame_bytes(self.cfg.format, self.cfg.channels) <= 4 * 8) by (nonlinear_arith)
            requires
                self.cfg.channels <= 8,
                client_frame_bytes(self.cfg.format, self.cfg.channels) == pcm_format_bytes_spec(
                    (self.cfg.format % 0x1_0000) as u16,
                ) * self.cfg.channels,
                pcm_format_bytes_spec((self.cfg.format % 0x1_0000) as u16) <= 4,
        ;
        fold_to_stereo(pcm, self.cfg.format, self.cfg.channels, &mut out);
        proof {
            let want = folded(
                pcm@,
                self.shape().format,
                self.shape().channels,
                pcm@.len() / client_frame_bytes(self.shape().format, self.shape().channels) as nat,
            );
            assert(channel_views(Seq::<Channel>::empty()) =~= Seq::empty());
            assert(channel_views(out@) =~= want);
        }
        out
    }

    /// Take folded samples (bit patterns, interleaved stereo) into the
    /// resampler and get the points that they make possible. `None` when the
    /// samples go through as they are.
    pub fn resample(&mut self, folded: &[u32]) -> (r: Option<Vec<Point>>)
        requires
            old(self).wf(),
            folded@.len() % 2 == 0,
            old(self).position() matches Some(p) ==> p.fits(folded@),
        ensures
            final(self).wf(),
            final(self).shape() == old(self).shape(),
            r is Some <==> old(self).position() is Some,
            match old(self).position() {
                Some(p) => {
                    &&& final(self).position() == Some(p.after(folded@))
                    &&& r matches Some(points) && point_views(points@) == p.output(folded@)
                },
                None => final(self).position() is None,
            },
    {
        match self.resampler.take() {
            None => None,
            Some(mut r) => {
                let ghost before = r@;
                let mut out: Vec<Point> = Vec::new();
                r.resample(folded, &mut out);
                proof {
                    assert(point_views(Seq::<Point>::empty()) =~= Seq::empty());
                    assert(point_views(out@) =~= before.output(folded@));
                }
                self.resampler = Some(r);
                Some(out)
            },
        }
    }

    /// Pack finished samples for the ring. `None` when they make no frame.
    pub fn deliver(&self, samples: &[i16]) -> (d: Option<Delivery>)
        ensures
            d is None <==> samples@.len() < 2,
            d matches Some(x) ==> x.bytes@ == packed_s16(samples@) && x.frames == samples@.len()
                / 2,
    {
        let frames: usize = samples.len() / 2;
        if frames == 0 {
            return None;
        }
        let mut bytes: Vec<u8> = Vec::new();
        pack_s16(samples, &mut bytes);
        assert(bytes@ =~= packed_s16(samples@));
        Some(Delivery { bytes, frames: frames as u64 })
    }
}

} // verus!
