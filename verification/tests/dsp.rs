use std::f64::consts::PI;

use audiod::common::{FORMAT_FLOAT_LE, FORMAT_S16_LE};
use audiod::server::dsp::{
    fold_to_stereo, pack_s16, Channel, Kind, Point, Resampler, PHASES, TAPS,
};

// ── Floating-point interpolation over the points that a resampler asks for ──
//
// The library picks the points; the arithmetic on them is floating point and
// belongs to the program, which no test links. `Table`, `straight` and the
// clamp in `float_pack_clamps` repeat the program's formulas, so these tests
// show that the right points come out, not that the program's own arithmetic
// is right.

struct Table {
    coeffs: Vec<f32>,
}

impl Table {
    fn new(src: u32, dst: u32) -> Table {
        let fc = 0.475 * (dst as f64 / src as f64).min(1.0);
        let center = (TAPS as f64 - 1.0) / 2.0;
        let mut coeffs = vec![0f32; PHASES * TAPS];
        for p in 0..PHASES {
            let off = p as f64 / PHASES as f64;
            let row = &mut coeffs[p * TAPS..(p + 1) * TAPS];
            let mut sum = 0f64;
            for (i, c) in row.iter_mut().enumerate() {
                let x = 2.0 * PI * fc * (i as f64 - center - off);
                let s = if x.abs() < 1e-12 { 2.0 * fc } else { x.sin() / x };
                let ph = 2.0 * PI * (i as f64 - off) / (TAPS as f64 - 1.0);
                let v = s * (0.42 - 0.5 * ph.cos() + 0.08 * (2.0 * ph).cos());
                sum += v;
                *c = v as f32;
            }
            for c in row.iter_mut() {
                *c = (*c as f64 / sum) as f32;
            }
        }
        Table { coeffs }
    }

    fn interpolate(&self, p: &Point, den: u64) -> (f32, f32) {
        let w: Vec<f32> = p.window.iter().map(|&b| f32::from_bits(b)).collect();
        let pf = (p.phase as f32 / den as f32) * PHASES as f32;
        let p0 = (pf as usize).min(PHASES - 1);
        let p1 = (p0 + 1) % PHASES;
        let t = pf - p0 as f32;
        let (mut l, mut r) = (0f32, 0f32);
        for k in 0..TAPS {
            let (c0, c1) = (self.coeffs[p0 * TAPS + k], self.coeffs[p1 * TAPS + k]);
            let c = c0 + (c1 - c0) * t;
            l += c * w[2 * k];
            r += c * w[2 * k + 1];
        }
        (l, r)
    }
}

fn straight(p: &Point, den: u64) -> (f32, f32) {
    let w: Vec<f32> = p.window.iter().map(|&b| f32::from_bits(b)).collect();
    let frac = p.phase as f32 / den as f32;
    (w[0] + (w[2] - w[0]) * frac, w[1] + (w[3] - w[1]) * frac)
}

struct Stream {
    core: Resampler,
    table: Table,
}

impl Stream {
    fn new(src: u32, dst: u32, kind: &str) -> Option<Stream> {
        let core = Resampler::new(src, dst, kind)?;
        Some(Stream { core, table: Table::new(src, dst) })
    }

    fn resample(&mut self, input: &[f32], out: &mut Vec<f32>) -> usize {
        let bits: Vec<u32> = input.iter().map(|v| v.to_bits()).collect();
        let mut points = Vec::new();
        let n = self.core.resample(&bits, &mut points);
        assert_eq!(n, points.len());
        for p in &points {
            let (l, r) = match self.core.kind() {
                Kind::Sinc => self.table.interpolate(p, self.core.step().1),
                Kind::Linear => straight(p, self.core.step().1),
            };
            out.push(l);
            out.push(r);
        }
        n
    }
}

fn value(c: &Channel) -> f32 {
    match c {
        Channel::Int { sum, count } => *sum as f32 / 32768.0 / *count as f32,
        Channel::Float { bits } => {
            bits.iter().map(|&b| f32::from_bits(b)).sum::<f32>() / bits.len() as f32
        }
    }
}

fn folded(src: &[u8], fmt: u32, ch: u32) -> Vec<f32> {
    let mut out = Vec::new();
    fold_to_stereo(src, fmt, ch, &mut out);
    out.iter().map(value).collect()
}

/// Interleaved stereo sine (L=R).
fn sine(rate: f64, freq: f64, amp: f64, secs: f64) -> Vec<f32> {
    let n = (rate * secs) as usize;
    (0..n)
        .flat_map(|i| {
            let v = (amp * (2.0 * PI * freq * i as f64 / rate).sin()) as f32;
            [v, v]
        })
        .collect()
}

/// Goertzel amplitude estimate of `freq` in x (single channel).
fn goertzel(x: &[f32], rate: f64, freq: f64) -> f64 {
    let k = 2.0 * PI * freq / rate;
    let coeff = 2.0 * k.cos();
    let (mut s1, mut s2) = (0.0f64, 0.0f64);
    for &v in x {
        let s0 = v as f64 + coeff * s1 - s2;
        s2 = s1;
        s1 = s0;
    }
    let power = s1 * s1 + s2 * s2 - coeff * s1 * s2;
    2.0 * power.sqrt() / x.len() as f64
}

fn trim(x: &[f32]) -> &[f32] {
    let m = x.len() / 10;
    &x[m..x.len() - m]
}

fn rs(src: u32, dst: u32) -> Stream {
    Stream::new(src, dst, "sinc").expect("resampler")
}

/// Left channel of interleaved stereo, for single-channel analysis.
fn left(x: &[f32]) -> Vec<f32> {
    x.chunks(2).map(|c| c[0]).collect()
}

#[test]
fn passband_flat_to_18khz() {
    for &freq in &[500.0, 4000.0, 8000.0, 12000.0, 15000.0, 18000.0] {
        let mut r = rs(44100, 48000);
        let mut out = Vec::new();
        r.resample(&sine(44100.0, freq, 0.8, 0.25), &mut out);
        let a = goertzel(trim(&left(&out)), 48000.0, freq);
        assert!(
            (0.755..=0.845).contains(&a),
            "{freq} Hz amplitude {a:.4} (expected 0.8 ±0.5 dB)"
        );
    }
}

#[test]
fn nyquist_edge_rolloff() {
    for &(freq, max_db) in &[(21000.0, -5.0), (22000.0, -17.0)] {
        let mut r = rs(44100, 48000);
        let mut out = Vec::new();
        r.resample(&sine(44100.0, freq, 0.8, 0.25), &mut out);
        let a = goertzel(trim(&left(&out)), 48000.0, freq);
        let db = 20.0 * (a / 0.8).log10();
        assert!(db < max_db, "{freq} Hz too strong: {db:.1} dB");
    }
}

#[test]
fn impulse_response_sane() {
    // Unit impulse (both channels) at frame 24 through 44100->48000.
    let mut r = rs(44100, 48000);
    let mut inp = vec![0f32; 400];
    inp[48] = 1.0;
    inp[49] = 1.0;
    let mut out = Vec::new();
    r.resample(&inp, &mut out);
    let l = left(&out);
    let peak = l.iter().enumerate().fold((0usize, 0f32), |(bi, bv), (i, &v)| {
        if v.abs() > bv.abs() {
            (i, v)
        } else {
            (bi, bv)
        }
    });
    assert!(
        (0.6..=0.96).contains(&peak.1.abs()),
        "impulse response peak {} at {}",
        peak.1,
        peak.0
    );
    assert!(l.iter().all(|&v| v.abs() <= 1.0), "impulse response overshoot");
}

#[test]
fn dc_gain_is_unity() {
    let mut r = rs(44100, 48000);
    let mut out = Vec::new();
    let inp = vec![0.5f32, 0.5];
    for _ in 0..2000 {
        r.resample(&inp, &mut out);
    }
    let mean: f32 = trim(&out).iter().sum::<f32>() / trim(&out).len() as f32;
    assert!((mean - 0.5).abs() < 1e-3, "dc gain {mean}");
}

#[test]
fn passband_tone_preserved() {
    let mut r = rs(44100, 48000);
    let mut out = Vec::new();
    r.resample(&sine(44100.0, 1000.0, 0.8, 0.25), &mut out);
    let a = goertzel(trim(&left(&out)), 48000.0, 1000.0);
    assert!(
        (0.755..=0.845).contains(&a),
        "1 kHz amplitude {a:.4} (expected 0.8 ±0.5 dB)"
    );
}

#[test]
fn downsample_alias_rejected() {
    let mut r = rs(96000, 48000);
    let mut out = Vec::new();
    r.resample(&sine(96000.0, 30000.0, 0.8, 0.25), &mut out);
    let alias = goertzel(trim(&left(&out)), 48000.0, 18000.0);
    let db = 20.0 * (alias / 0.8).log10();
    assert!(db < -50.0, "alias at 18 kHz: {alias:.5} ({db:.1} dB)");
}

#[test]
fn upsample_image_rejected() {
    let mut r = rs(44100, 48000);
    let mut out = Vec::new();
    r.resample(&sine(44100.0, 11000.0, 0.8, 0.25), &mut out);
    let lch = left(&out);
    let o = trim(&lch);
    let img = goertzel(o, 48000.0, 33100.0);
    let db = 20.0 * (img / 0.8).log10();
    assert!(db < -50.0, "image at 33.1 kHz: {img:.5} ({db:.1} dB)");
    let tone = goertzel(o, 48000.0, 11000.0);
    assert!((0.755..=0.845).contains(&tone), "tone amplitude {tone:.4}");
}

#[test]
fn chunk_split_invariance() {
    // Sum of tones: arbitrary chunking must give bit-identical output.
    let rate = 44100.0f64;
    let n = 10000; // frames
    let inp: Vec<f32> = (0..n)
        .flat_map(|i| {
            let t = i as f64 / rate;
            let v = (0.6 * (2.0 * PI * 137.0 * t).sin() + 0.4 * (2.0 * PI * 3333.0 * t).sin())
                as f32;
            [v, v]
        })
        .collect();
    let mut whole = rs(44100, 48000);
    let mut a = Vec::new();
    whole.resample(&inp, &mut a);

    let mut chunked = rs(44100, 48000);
    let mut b = Vec::new();
    for c in inp.chunks(26) {
        chunked.resample(c, &mut b);
    }
    assert_eq!(a, b, "chunked output differs");
    assert!(a.len() / 2 > n, "produced too little: {} frames", a.len() / 2);
}

#[test]
fn linear_kind_works() {
    let mut r = Stream::new(8000, 48000, "linear").unwrap();
    let mut out = Vec::new();
    r.resample(&sine(8000.0, 500.0, 0.8, 0.25), &mut out);
    let a = goertzel(trim(&left(&out)), 48000.0, 500.0);
    assert!((0.7..=0.85).contains(&a), "linear 500 Hz amplitude {a:.4}");
}

#[test]
fn same_rate_bypasses() {
    assert!(Resampler::new(48000, 48000, "sinc").is_none());
}

#[test]
fn fold_mono_duplicates() {
    let src: Vec<u8> = [100i16, -200i16].iter().flat_map(|v| v.to_le_bytes()).collect();
    let out = folded(&src, FORMAT_S16_LE, 1);
    let s = 32768.0f32;
    assert_eq!(out, vec![100.0 / s, 100.0 / s, -200.0 / s, -200.0 / s]);
}

#[test]
fn fold_five_channels_averages() {
    // Frame [a,b,c,d,e]: L = (a+c+e)/3, R = (b+d)/2.
    let frame = [1000i16, -2000i16, 3000i16, -4000i16, 5000i16];
    let src: Vec<u8> = frame.iter().flat_map(|v| v.to_le_bytes()).collect();
    let out = folded(&src, FORMAT_S16_LE, 5);
    let s = 32768.0f32;
    assert_eq!(out, vec![(1000.0 + 3000.0 + 5000.0) / 3.0 / s, (-2000.0 - 4000.0) / 2.0 / s]);
}

// The clamp stands for the program's, see above; the packing is the library's.
#[test]
fn float_pack_clamps() {
    let samples: Vec<i16> =
        [2.0f32, -2.0, 0.5].iter().map(|v| (v.clamp(-1.0, 1.0) * 32767.0) as i16).collect();
    let mut out = Vec::new();
    pack_s16(&samples, &mut out);
    let v: Vec<i16> = out.chunks(2).map(|c| i16::from_le_bytes([c[0], c[1]])).collect();
    assert_eq!(v, vec![32767, -32767, 16383]);
}

#[test]
fn zero_rates_have_no_resampler() {
    assert!(Resampler::new(0, 48000, "sinc").is_none());
    assert!(Resampler::new(48000, 0, "linear").is_none());
}

#[test]
fn steps_are_in_lowest_terms() {
    let r = Resampler::new(44100, 48000, "sinc").unwrap();
    assert_eq!(r.step(), (147, 160));
    assert_eq!(r.kind(), Kind::Sinc);
    assert_eq!(Resampler::new(96000, 48000, "linear").unwrap().step(), (2, 1));
    // Unknown names select the sinc kernel.
    assert_eq!(Resampler::new(8000, 48000, "cubic").unwrap().kind(), Kind::Sinc);
}

#[test]
fn points_lie_at_exact_positions() {
    let mut r = Resampler::new(44100, 48000, "linear").unwrap();
    let input: Vec<u32> = (0..400).collect();
    let mut out = Vec::new();
    r.resample(&input, &mut out);
    // The last point starts 48 frames before the end.
    assert_eq!(out.len(), (152 * 160 + 159) / 147 + 1);
    for (i, p) in out.iter().enumerate() {
        let pos = i as u64 * 147;
        assert_eq!(p.phase, pos % 160);
        let first = 2 * (pos / 160) as u32;
        assert_eq!(p.window, vec![first, first + 1, first + 2, first + 3]);
    }
}

#[test]
fn short_input_produces_nothing() {
    let mut r = Resampler::new(8000, 48000, "sinc").unwrap();
    let mut out = Vec::new();
    assert_eq!(r.resample(&[7; 94], &mut out), 0);
    assert_eq!(r.resample(&[7; 2], &mut out), 6);
    assert_eq!(out[5].window.len(), 2 * TAPS);
    assert_eq!(r.resample(&[], &mut out), 0);
}

#[test]
fn fold_keeps_float_patterns() {
    let src: Vec<u8> = [0.25f32, -0.5, 0.75].iter().flat_map(|v| v.to_le_bytes()).collect();
    let mut out = Vec::new();
    fold_to_stereo(&src, FORMAT_FLOAT_LE, 3, &mut out);
    assert_eq!(out.len(), 2);
    match &out[0] {
        Channel::Float { bits } => assert_eq!(bits, &vec![0.25f32.to_bits(), 0.75f32.to_bits()]),
        Channel::Int { .. } => panic!("integer side"),
    }
    assert_eq!(value(&out[1]), -0.5);
}

#[test]
fn fold_ignores_channels_past_the_eighth() {
    let frame: Vec<u8> = (1..=10i16).flat_map(|v| (v * 100).to_le_bytes()).collect();
    let mut out = Vec::new();
    fold_to_stereo(&frame, FORMAT_S16_LE, 10, &mut out);
    assert!(matches!(out[0], Channel::Int { sum: 1600, count: 4 }));
    assert!(matches!(out[1], Channel::Int { sum: 2000, count: 4 }));
    // A partial frame is dropped.
    let mut out = Vec::new();
    fold_to_stereo(&frame[..7], FORMAT_S16_LE, 2, &mut out);
    assert_eq!(out.len(), 2);
}
