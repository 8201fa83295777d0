use audiod::common::{AudioCfg, FORMAT_FLOAT_LE, FORMAT_S16_LE, SHIM_SERVER_FRAMES};
use audiod::hda::codec::Codec;
use audiod::hda::controller::Controller;
use audiod::hda::pagemap::DmaBuffer;
use audiod::hda::playback::HdaPlayback;
use audiod::hda::stream::{rate_supported, Stream, RING_SIZE};
use audiod::server::backend::{
    hda_rates, nearest_hda_rate, parse_slot, Backend, Feed, FeedAction, FeedEvent, NeedsRoot,
    HDA_DEFAULT_SLOT,
};
use audiod::server::client::{Client, ClientAction, ClientEvent, READ_BYTES, WAIT_MS};
use audiod::server::door::{
    peer_allowed, trusted_uid, Capacity, Door, DoorAction, Refusal, HEADER_TIMEOUT_NS,
};
use audiod::server::dsp::Channel;
use audiod::server::mixer::{
    MixAction, MixEvent, Mixer, MixerStream, CHUNK_FRAMES, IDLE_NS, MAX_STREAMS, ROUTE_NS,
};
use audiod::server::player::{
    convert_to_s16, whole_frames, PlayPlan, Player, Samples, Source, SourceAction, SourceEvent,
};
use audiod::server::protocol::{
    classify, encode_cmd, encode_header, encode_pcm, parse_header, Cmd, Frame, FrameReader, Intro,
};
use audiod::server::session::Session;
use audiod::server::state::{
    is_mute_led, output_path_str, set_mute_led, write_status, ServerState, OUT_HEADPHONE,
    OUT_SPEAKERS, OUT_UNKNOWN, PERCENT_100,
};
use audiod::server::wav::{load_wav, WavError};

fn header(rate: u32, channels: u16, format: u16) -> [u8; 12] {
    encode_header(rate, channels, format).try_into().unwrap()
}

// ── Protocol ──

#[test]
fn header_layout() {
    assert_eq!(
        encode_header(48000, 2, 2),
        vec![0x80, 0xbb, 0, 0, 2, 0, 2, 0, 0, 0, 0, 0]
    );
}

#[test]
fn headers_read_back() {
    let cfg = parse_header(&header(44100, 6, FORMAT_FLOAT_LE as u16)).unwrap();
    assert_eq!(cfg, AudioCfg::new(44100, 6, FORMAT_FLOAT_LE));
    assert_eq!(cfg.frame_size, 24);
    assert!(parse_header(&header(0, 2, 2)).is_none());
    assert!(parse_header(&header(48000, 0, 2)).is_none());
    assert!(parse_header(&header(48000, 9, 2)).is_none());
    assert!(parse_header(&header(48000, 2, 3)).is_none());
    // The reserved bytes do not matter.
    let mut h = header(48000, 2, 2);
    h[11] = 7;
    assert!(parse_header(&h).is_some());
}

#[test]
fn connections_are_told_apart() {
    assert_eq!(classify(&[0; 12]), Intro::Control);
    assert_eq!(classify(&header(0, 99, 99)), Intro::Control);
    assert_eq!(classify(&header(48000, 2, 2)), Intro::Stream(AudioCfg::new(48000, 2, 2)));
    assert_eq!(classify(&header(48000, 2, 1)), Intro::Bad);
}

#[test]
fn command_layout() {
    assert_eq!(encode_cmd(Cmd::Mute), vec![0, 0, 0, 0, b'M']);
    assert_eq!(encode_cmd(Cmd::Unmute), vec![0, 0, 0, 0, b'U']);
    assert_eq!(encode_cmd(Cmd::Flush), vec![0, 0, 0, 0, b'F']);
    assert_eq!(
        encode_cmd(Cmd::Volume(50.0f32.to_bits())),
        vec![0, 0, 0, 0, b'V', 0, 0, 0x48, 0x42]
    );
    assert_eq!(encode_cmd(Cmd::Status), vec![0, 0, 0, 0, b'S']);
    assert_eq!(encode_pcm(&[9, 8]), vec![2, 0, 0, 0, 9, 8]);
}

fn show(frames: &[Frame]) -> Vec<String> {
    frames
        .iter()
        .map(|f| match f {
            Frame::Pcm(d) => format!("{d:?}"),
            Frame::Command(c) => format!("{c:?}"),
        })
        .collect()
}

#[test]
fn frames_survive_any_split() {
    let mut bytes = Vec::new();
    bytes.extend(encode_pcm(&[1, 2, 3, 4]));
    bytes.extend(encode_cmd(Cmd::Volume(0x4242_0000)));
    bytes.extend(encode_cmd(Cmd::Flush));
    bytes.extend(encode_pcm(&[5]));
    bytes.extend([3, 0, 0, 0, 1]); // incomplete
    let mut whole = FrameReader::new(true);
    let mut a = Vec::new();
    whole.feed(&bytes, &mut a);
    assert_eq!(show(&a), vec!["[1, 2, 3, 4]", "Volume(1111621632)", "Flush", "[5]"]);
    for size in 1..9 {
        let mut r = FrameReader::new(true);
        let mut b = Vec::new();
        for c in bytes.chunks(size) {
            r.feed(c, &mut b);
        }
        assert_eq!(show(&b), show(&a), "chunks of {size}");
        assert!(!r.is_bad());
    }
}

#[test]
fn bad_frames_end_the_connection() {
    let mut r = FrameReader::new(true);
    let mut out = Vec::new();
    r.feed(&encode_cmd(Cmd::Mute), &mut out);
    r.feed(&[0, 0, 0, 0, 0x77], &mut out);
    assert!(r.is_bad());
    r.feed(&encode_cmd(Cmd::Mute), &mut out);
    assert_eq!(show(&out), vec!["Mute"]);
    // A control connection carries no PCM.
    let mut r = FrameReader::new(false);
    let mut out = Vec::new();
    r.feed(&encode_cmd(Cmd::Status), &mut out);
    r.feed(&encode_pcm(&[1]), &mut out);
    assert!(r.is_bad());
    assert_eq!(show(&out), vec!["Status"]);
}

// ── State ──

#[test]
fn status_document() {
    let mut st = ServerState::new();
    assert_eq!(
        st.status("100.000"),
        "{\"muted\":false,\"volume\":100.000,\"active\":false,\"clients\":0,\
         \"total_frames\":0,\"delay_frames\":-1,\"output\":\"unknown\"}"
    );
    st.muted = true;
    st.live_clients = 2;
    st.add_frames(96000);
    st.last_delay_frames = 4096;
    st.store_output_path("speakers");
    assert_eq!(
        st.status("75.500"),
        "{\"muted\":true,\"volume\":75.500,\"active\":true,\"clients\":2,\
         \"total_frames\":96000,\"delay_frames\":4096,\"output\":\"speaker\"}"
    );
}

#[test]
fn output_routes() {
    let mut st = ServerState::new();
    st.store_output_path("headphone");
    assert_eq!(st.output_path, OUT_HEADPHONE);
    st.store_output_path("speakers");
    assert_eq!(st.output_path, OUT_SPEAKERS);
    st.store_output_path("unknown (IC busy)");
    assert_eq!(st.output_path, OUT_UNKNOWN);
    assert_eq!(output_path_str(OUT_HEADPHONE), "headphone");
    assert_eq!(output_path_str(77), "unknown");
}

#[test]
fn volume_is_clamped() {
    let mut st = ServerState::new();
    assert_eq!(f32::from_bits(PERCENT_100), 100.0);
    for v in [
        0.0f32,
        -0.0,
        1e-42,
        33.3,
        99.999,
        100.0,
        100.001,
        -1e-42,
        -5.0,
        1e30,
        f32::INFINITY,
        f32::NEG_INFINITY,
        f32::NAN,
    ] {
        st.set_volume(v.to_bits());
        let want = if v.is_nan() { 0.0 } else { v.clamp(0.0, 100.0) };
        assert_eq!(st.volume, want.to_bits(), "{v}");
    }
}

#[test]
fn frame_count_wraps() {
    let mut st = ServerState::new();
    st.add_frames(u64::MAX);
    st.add_frames(3);
    assert_eq!(st.total_frames, 2);
}

#[test]
fn commands_change_the_state() {
    let mut st = ServerState::new();
    let a = Cmd::Mute.apply(&mut st, "");
    assert!(st.muted && a.led == Some(true) && a.reply.is_none());
    let a = Cmd::Flush.apply(&mut st, "");
    assert!(st.muted && a.led.is_none() && a.reply.is_none());
    let a = Cmd::Volume(250.0f32.to_bits()).apply(&mut st, "");
    assert!(st.volume == PERCENT_100 && a.led.is_none());
    let a = Cmd::Unmute.apply(&mut st, "");
    assert!(!st.muted && a.led == Some(false));
    let a = Cmd::Status.apply(&mut st, "100.000");
    assert_eq!(a.reply, Some(st.status("100.000")));
    assert!(a.led.is_none());
}

#[test]
fn replies_are_length_prefixed() {
    assert_eq!(write_status("{}"), vec![2, 0, 0, 0, b'{', b'}']);
    assert_eq!(write_status(""), vec![0, 0, 0, 0]);
}

#[test]
fn mute_leds() {
    assert!(is_mute_led("platform::mute"));
    assert!(is_mute_led("hda::mute_led"));
    assert!(!is_mute_led("platform::micmute"));
    assert_eq!(set_mute_led(true), "1");
    assert_eq!(set_mute_led(false), "0");
}

// ── Admission ──

#[test]
fn only_root_and_the_trusted_user_connect() {
    assert_eq!(trusted_uid(Some("1000"), 0), 1000);
    assert_eq!(trusted_uid(Some("abc"), 7), 7);
    assert_eq!(trusted_uid(None, 7), 7);
    assert!(peer_allowed(Some(0), 1000));
    assert!(peer_allowed(Some(1000), 1000));
    assert!(!peer_allowed(Some(1001), 1000));
    assert!(!peer_allowed(None, 1000));
    assert!(matches!(Door::arrive(Some(1001), 1000, 0), Err(Refusal::Untrusted)));
}

fn door() -> Door {
    Door::arrive(Some(0), 0, 1000).ok().unwrap()
}

#[test]
fn header_arrives_in_pieces() {
    let room = Some(Capacity { live: 0, max: 1 });
    let mut d = door();
    assert_eq!(d.begin(), DoorAction::Read(12));
    let h = header(48000, 2, 2);
    assert_eq!(d.on_data(&h[..5], room), DoorAction::Read(7));
    assert_eq!(d.on_busy(1000), DoorAction::Retry(5));
    assert_eq!(d.on_data(&h[5..], room), DoorAction::ServeStream(AudioCfg::new(48000, 2, 2)));
}

#[test]
fn refusals() {
    let room = Some(Capacity { live: 3, max: 4 });
    let full = Some(Capacity { live: 4, max: 4 });
    let good = header(48000, 2, 2);
    let bad = header(48000, 2, 9);
    assert_eq!(door().on_data(&good, full), DoorAction::Drop(Refusal::Full));
    assert_eq!(door().on_data(&good, None), DoorAction::Drop(Refusal::ControlOnly));
    assert_eq!(door().on_data(&bad, room), DoorAction::Drop(Refusal::BadHeader));
    assert_eq!(door().on_data(&bad, None), DoorAction::Drop(Refusal::ControlOnly));
    assert_eq!(door().on_data(&[], room), DoorAction::Drop(Refusal::Eof));
    assert_eq!(door().on_error(), DoorAction::Drop(Refusal::Io));
    assert_eq!(door().on_busy(1000 + HEADER_TIMEOUT_NS), DoorAction::Retry(5));
    assert_eq!(door().on_busy(1001 + HEADER_TIMEOUT_NS), DoorAction::Drop(Refusal::Timeout));
    // Control clients are served whatever the load.
    assert_eq!(door().on_data(&[0; 12], full), DoorAction::ServeControl);
    assert_eq!(door().on_data(&[0; 12], None), DoorAction::ServeControl);
}

// ── Mixer ──

fn pcm(samples: &[i16]) -> Vec<u8> {
    samples.iter().flat_map(|s| s.to_le_bytes()).collect()
}

fn played(a: MixAction) -> Vec<i32> {
    match a {
        MixAction::Play(v) => v,
        a => panic!("{}", name(&a)),
    }
}

fn name(a: &MixAction) -> String {
    match a {
        MixAction::Stop => "stop".into(),
        MixAction::RefreshRoute => "route".into(),
        MixAction::Sleep(ms) => format!("sleep {ms}"),
        MixAction::ReadDelay => "delay".into(),
        MixAction::Play(v) => format!("play {}", v.len()),
    }
}

#[test]
fn streams_are_summed() {
    let mut m = Mixer::new(48000, 0);
    let a = m.register(4096).unwrap();
    let b = m.register(4096).unwrap();
    assert_ne!(a, b);
    assert_eq!(m.push(a, &pcm(&[30000, -5, 7, 8])), Some(true));
    assert_eq!(m.push(b, &pcm(&[10000, -6])), Some(true));
    assert_eq!(name(&m.step(MixEvent::Done, 1, false)), "delay");
    assert_eq!(m.live_clients(), 2);
    let v = played(m.step(MixEvent::Delay(0), 1, false));
    assert_eq!(v.len(), 2 * CHUNK_FRAMES);
    assert_eq!(&v[..6], &[40000, -11, 7, 8, 0, 0]);
    // Everything was taken.
    assert_eq!(name(&m.step(MixEvent::Done, 2, false)), "sleep 1");
}

#[test]
fn mixer_takes_as_many_streams_as_it_can_sum() {
    let mut m = Mixer::new(48000, 0);
    for id in 0..MAX_STREAMS as u64 {
        assert_eq!(m.register(4), Some(id));
    }
    assert_eq!(m.register(4), None);
    // A stream that is gone makes room; identities are not used again.
    m.finish(7);
    assert_eq!(name(&m.step(MixEvent::Done, 1, false)), "sleep 1");
    assert_eq!(m.live_clients(), MAX_STREAMS - 1);
    assert_eq!(m.register(4), Some(MAX_STREAMS as u64));
}

#[test]
fn muted_mix_is_silent() {
    let mut m = Mixer::new(48000, 0);
    let a = m.register(65536).unwrap();
    let mut samples = vec![1000i16; 2 * CHUNK_FRAMES];
    samples.extend([7, 8]);
    assert_eq!(m.push(a, &pcm(&samples)), Some(true));
    assert_eq!(name(&m.step(MixEvent::Done, 1, true)), "delay");
    let v = played(m.step(MixEvent::Delay(0), 1, true));
    assert_eq!(v, vec![0; 2 * CHUNK_FRAMES]);
    // What was played in silence is gone; what follows is heard again.
    assert_eq!(name(&m.step(MixEvent::Done, 2, false)), "delay");
    assert_eq!(&played(m.step(MixEvent::Delay(0), 2, false))[..4], &[7, 8, 0, 0]);
}

#[test]
fn mixing_keeps_to_the_target() {
    let mut m = Mixer::new(48000, 0);
    let a = m.register(65536).unwrap();
    assert_eq!(m.push(a, &vec![1; 20000]), Some(true));
    let _ = m.step(MixEvent::Done, 1, false);
    let v = played(m.step(MixEvent::Delay(SHIM_SERVER_FRAMES as i64 - 3), 1, false));
    assert_eq!(v, vec![257; 6]);
    let _ = m.step(MixEvent::Done, 2, false);
    // Full: wait until a chunk should have been played, ten at most.
    assert_eq!(name(&m.step(MixEvent::Delay(4096), 2, false)), "sleep 9");
    let mut fast = Mixer::new(200_000, 0);
    let b = fast.register(4096).unwrap();
    assert_eq!(fast.push(b, &[0; 8]), Some(true));
    let _ = fast.step(MixEvent::Done, 1, false);
    assert_eq!(name(&fast.step(MixEvent::Delay(4096), 1, false)), "sleep 4");
}

#[test]
fn partial_frames_wait() {
    let mut m = Mixer::new(48000, 0);
    let a = m.register(4096).unwrap();
    assert_eq!(m.push(a, &[1, 0, 2]), Some(true));
    assert_eq!(name(&m.step(MixEvent::Done, 1, false)), "delay");
    assert_eq!(name(&m.step(MixEvent::Delay(0), 1, false)), "sleep 1");
    assert_eq!(m.push(a, &[0]), Some(true));
    assert_eq!(name(&m.step(MixEvent::Done, 1, false)), "delay");
    assert_eq!(&played(m.step(MixEvent::Delay(0), 1, false))[..2], &[1, 2]);
}

#[test]
fn idle_mixer_stops_once() {
    let mut m = Mixer::new(48000, 0);
    assert_eq!(name(&m.step(MixEvent::Done, 10, false)), "sleep 5");
    assert_eq!(name(&m.step(MixEvent::Done, 9 + IDLE_NS, false)), "sleep 5");
    assert_eq!(name(&m.step(MixEvent::Done, 10 + IDLE_NS, false)), "stop");
    // A failed stop is tried again after another idle time.
    assert_eq!(name(&m.step(MixEvent::StopFailed, 20 + IDLE_NS, false)), "sleep 5");
    assert_eq!(name(&m.step(MixEvent::Done, 19 + 2 * IDLE_NS, false)), "sleep 5");
    assert_eq!(name(&m.step(MixEvent::Done, 20 + 2 * IDLE_NS, false)), "stop");
    m.observe_delay(55);
    assert_eq!(m.last_delay(), 55);
    assert_eq!(name(&m.step(MixEvent::Done, 20 + 2 * IDLE_NS, false)), "sleep 5");
    assert_eq!(m.last_delay(), 0);
    assert_eq!(name(&m.step(MixEvent::Done, 20 + 3 * IDLE_NS, false)), "sleep 5");
}

#[test]
fn route_is_refreshed() {
    let mut m = Mixer::new(48000, 5);
    assert_eq!(name(&m.step(MixEvent::Done, 4 + ROUTE_NS, false)), "sleep 5");
    assert_eq!(name(&m.step(MixEvent::Done, 5 + ROUTE_NS, false)), "route");
    assert_eq!(name(&m.step(MixEvent::Done, 5 + ROUTE_NS, false)), "sleep 5");
    assert_eq!(name(&m.step(MixEvent::Done, 6 + ROUTE_NS, false)), "sleep 5");
}

#[test]
fn flush_halts_when_nothing_is_left() {
    let mut m = Mixer::new(48000, 0);
    let a = m.register(4096).unwrap();
    assert_eq!(m.push(a, &[0; 400]), Some(true));
    assert!(m.request_flush(a));
    assert_eq!(name(&m.step(MixEvent::Done, 1, false)), "stop");
    assert_eq!(name(&m.step(MixEvent::Done, 1, false)), "sleep 1");
    // The stop is sticky.
    assert!(m.request_flush(a));
    assert_eq!(name(&m.step(MixEvent::Done, 2, false)), "sleep 1");
    assert_eq!(name(&m.step(MixEvent::Done, 2 + 2 * IDLE_NS, false)), "sleep 1");
}

#[test]
fn flush_spares_other_streams() {
    let mut m = Mixer::new(48000, 0);
    let a = m.register(4096).unwrap();
    let b = m.register(4096).unwrap();
    assert_eq!(m.push(a, &pcm(&[100, 100])), Some(true));
    assert_eq!(m.push(b, &pcm(&[7, 9])), Some(true));
    assert!(m.request_flush(a));
    assert_eq!(name(&m.step(MixEvent::Done, 1, false)), "delay");
    assert_eq!(&played(m.step(MixEvent::Delay(0), 1, false))[..2], &[7, 9]);
    assert!(!m.request_flush(99));
}

#[test]
fn finished_streams_leave_after_draining() {
    let mut m = Mixer::new(48000, 0);
    let a = m.register(4096).unwrap();
    assert_eq!(m.push(a, &pcm(&[1, 2])), Some(true));
    assert!(m.finish(a));
    assert_eq!(name(&m.step(MixEvent::Done, 1, false)), "delay");
    assert_eq!(m.live_clients(), 1);
    assert_eq!(&played(m.step(MixEvent::Delay(0), 1, false))[..2], &[1, 2]);
    assert_eq!(name(&m.step(MixEvent::Done, 1, false)), "sleep 5");
    assert_eq!(m.live_clients(), 0);
    assert_eq!(m.push(a, &[0; 4]), None);
    assert!(!m.finish(a));
}

#[test]
fn full_rings_refuse() {
    let mut m = Mixer::new(48000, 0);
    let a = m.register(1000).unwrap(); // rounded up to 1024
    assert_eq!(m.push(a, &[0; 1020]), Some(true));
    assert_eq!(m.push(a, &[0; 8]), Some(false));
    assert_eq!(m.push(a, &[0; 4]), Some(true));
    let mut s = MixerStream::new(16);
    s.request_flush();
    s.finish();
}

// ── Backend ──

#[test]
fn device_names() {
    assert_eq!(parse_slot("hda"), Ok(HDA_DEFAULT_SLOT.to_string()));
    assert_eq!(parse_slot("hda:0000:00:1f.3"), Ok("0000:00:1f.3".to_string()));
    assert_eq!(parse_slot("hda:"), Ok(String::new()));
    assert_eq!(
        parse_slot("alsa"),
        Err("HDA-only backend: use `hda` or `hda:<pci-slot>` (got `alsa`)".to_string())
    );
}

#[test]
fn nearest_rates() {
    for r in hda_rates() {
        assert!(rate_supported(r));
        assert_eq!(nearest_hda_rate(r), r);
    }
    assert_eq!(nearest_hda_rate(47999), 48000);
    assert_eq!(nearest_hda_rate(0), 8000);
    assert_eq!(nearest_hda_rate(u32::MAX), 192000);
    // Halfway between 12000 and 16000: the lower one.
    assert_eq!(nearest_hda_rate(14000), 12000);
}

#[test]
fn backend_needs_root() {
    assert!(matches!(Backend::open(1000, 48000), Err(NeedsRoot)));
    assert!(matches!(Backend::open(0, 48000), Ok(48000)));
    assert!(matches!(Backend::open(0, 64000), Ok(64000)));
    assert!(matches!(Backend::open(0, 50000), Ok(48000)));
}

#[test]
fn paced_transfers() {
    let mut f = Feed::new(20000, true);
    assert_eq!(f.step(FeedEvent::Go), FeedAction::ReadDelay);
    assert_eq!(f.step(FeedEvent::Delay(4096)), FeedAction::Sleep(1000));
    assert_eq!(f.step(FeedEvent::Go), FeedAction::ReadDelay);
    assert_eq!(f.step(FeedEvent::Delay(4090)), FeedAction::Offer { from: 0, to: 24 });
    assert_eq!(f.step(FeedEvent::Stored(0)), FeedAction::Sleep(1000));
    assert_eq!(f.step(FeedEvent::Stored(20)), FeedAction::ReadDelay);
    assert_eq!(f.step(FeedEvent::Delay(0)), FeedAction::Offer { from: 20, to: 16404 });
    assert_eq!(f.step(FeedEvent::Stored(16384)), FeedAction::ReadDelay);
    assert_eq!(f.step(FeedEvent::Delay(0)), FeedAction::Offer { from: 16404, to: 20000 });
    assert_eq!(f.step(FeedEvent::Stored(3596)), FeedAction::Done);
}

#[test]
fn unpaced_transfers() {
    let mut f = Feed::new(10, false);
    assert_eq!(f.step(FeedEvent::Go), FeedAction::Offer { from: 0, to: 10 });
    assert_eq!(f.step(FeedEvent::Stored(0)), FeedAction::Sleep(500));
    assert_eq!(f.step(FeedEvent::Stored(4)), FeedAction::Offer { from: 4, to: 10 });
    assert_eq!(f.step(FeedEvent::Stored(6)), FeedAction::Done);
    assert_eq!(Feed::new(0, true).step(FeedEvent::Go), FeedAction::Done);
}

fn dma(bytes: usize) -> DmaBuffer {
    let entries: Vec<u64> = (0..bytes / 4096).map(|i| 1 << 63 | (100 + i as u64)).collect();
    DmaBuffer::new(bytes, &entries).ok().unwrap()
}

#[test]
fn backend_session() {
    let c = Controller { codec_mask: 1, gcap: 0x4401, cad: 0 };
    let codec = Codec { vendor_id: 0x10ec_0269, subsystem_id: 0 };
    let stream = Stream::new(dma(RING_SIZE), dma(4096));
    let mut b = Backend { session: HdaPlayback::opened(c, codec, stream, 48000) };
    assert_eq!(b.play(100), Feed::new(100, true));
    assert_eq!(b.push(100), Feed::new(100, false));
    let mut list = vec![0u8; 4096];
    let mut ring = vec![0u8; RING_SIZE];
    b.session.start(&mut list);
    assert_eq!(b.session.play(&mut ring, 0, &[5; 80]), 80);
    assert_eq!(b.delay_frames(0), 20);
    assert!(!b.drain(76));
    assert!(b.drain(80));
    assert_eq!(b.set_mute(true)[0].payload, 0xb0c4);
    assert_eq!(b.halt().len(), 7);
    b.stop_immediate(&mut ring);
    assert_eq!(b.delay_frames(0), 0);
    assert!(ring.iter().all(|&x| x == 0));
    assert_eq!(b.output_path(&Ok(1 << 31)), "headphone");
    assert_eq!(b.output_path(&Ok(0)), "speakers");
    assert_eq!(b.output_path(&Err("IC busy".into())), "unknown");
    // A full ring drains once DMA has gone round.
    b.session.start(&mut list);
    assert_eq!(b.session.play(&mut ring, 0, &vec![5; RING_SIZE]), RING_SIZE);
    assert_eq!(b.delay_frames(0), RING_SIZE as i64 / 4);
    assert!(!b.drain(0));
    assert!(!b.drain(1000));
    assert!(b.drain(0));
    // A running session is left alone.
    assert!(b.session.start(&mut list).is_empty());
}

// ── Player, session, files ──

#[test]
fn conversions_pick_samples() {
    let s16 = pcm(&[1, -2]);
    match convert_to_s16(&s16, 2, 1, 2, FORMAT_S16_LE, true) {
        Samples::S16(v) => assert_eq!(v, vec![1, 1, -2, -2]),
        _ => panic!("wrong samples"),
    }
    match convert_to_s16(&s16, 1, 2, 2, FORMAT_S16_LE, false) {
        Samples::S16(v) => assert_eq!(v, vec![1, -2]),
        _ => panic!("wrong samples"),
    }
    let float: Vec<u8> = [0.5f32, -1.0].iter().flat_map(|v| v.to_le_bytes()).collect();
    let bits = (0.5f32.to_bits(), (-1.0f32).to_bits());
    match convert_to_s16(&float, 1, 2, 2, FORMAT_FLOAT_LE, true) {
        Samples::F32(v) => assert_eq!(v, vec![bits.0, bits.1]),
        _ => panic!("wrong samples"),
    }
    match convert_to_s16(&float, 2, 1, 2, FORMAT_FLOAT_LE, false) {
        Samples::F32(v) => assert_eq!(v, vec![bits.0, bits.0, bits.1, bits.1]),
        _ => panic!("wrong samples"),
    }
    assert!(matches!(
        convert_to_s16(&[0; 60], 5, 6, 2, FORMAT_S16_LE, true),
        Samples::Silence(10)
    ));
}

#[test]
fn player_plans() {
    let native = Player::open(&AudioCfg::new(48000, 2, FORMAT_S16_LE), true);
    assert_eq!(native.play(0, true), PlayPlan::Nothing);
    assert_eq!(native.play(10, true), PlayPlan::Passthrough(40));
    assert_eq!(native.play(10, false), PlayPlan::Convert(40));
    let mono = Player::open(&AudioCfg::new(48000, 1, FORMAT_S16_LE), true);
    assert_eq!(mono.play(10, true), PlayPlan::Convert(20));
    assert_eq!(whole_frames(11, 4), (2, 8));
}

#[test]
fn player_mute() {
    let cfg = AudioCfg::new(48000, 2, FORMAT_S16_LE);
    let mut st = ServerState::new();
    st.muted = true;
    let mut p = Player::open(&cfg, true);
    assert!(p.hardware_mute() && p.is_muted(&st) && !p.drops(&st));
    assert_eq!(p.sync_muted(true), Some(true));
    p.mute_applied(true);
    assert_eq!(p.sync_muted(true), None);
    let soft = Player::open(&cfg, false);
    assert!(soft.drops(&st));
    assert_eq!(soft.sync_muted(true), Some(false));
    assert_eq!(soft.sync_muted(false), None);
}

#[test]
fn session_pipeline() {
    let mut s = Session::new(AudioCfg::new(48000, 1, FORMAT_S16_LE), 48000, "sinc");
    assert!(!s.resampled() && s.resampler().is_none());
    let f = s.fold(&pcm(&[5, 6]));
    assert_eq!(f.len(), 4);
    assert!(matches!(f[3], Channel::Int { sum: 6, count: 1 }));
    assert!(s.resample(&[1, 2]).is_none());
    let d = s.deliver(&[1, -1, 3, 4]).unwrap();
    assert_eq!((d.bytes, d.frames), (vec![1, 0, 255, 255, 3, 0, 4, 0], 2));
    assert!(s.deliver(&[1]).is_none());
    let mut s = Session::new(AudioCfg::new(44100, 2, FORMAT_S16_LE), 48000, "linear");
    assert!(s.resampled());
    assert_eq!(s.resampler().unwrap().step(), (147, 160));
    assert_eq!(s.resample(&[0; 96]).unwrap().len(), 2);
}

fn wav(format: u16, bits: u16) -> [u8; 44] {
    let mut h = [0u8; 44];
    h[0..4].copy_from_slice(b"RIFF");
    h[8..12].copy_from_slice(b"WAVE");
    h[20..22].copy_from_slice(&format.to_le_bytes());
    h[22] = 2;
    h[24..28].copy_from_slice(&44100u32.to_le_bytes());
    h[34..36].copy_from_slice(&bits.to_le_bytes());
    h[40..44].copy_from_slice(&1234u32.to_le_bytes());
    h
}

#[test]
fn wav_headers() {
    let w = load_wav(&wav(1, 16)).ok().unwrap();
    assert_eq!(w.cfg, AudioCfg::new(44100, 2, FORMAT_S16_LE));
    assert_eq!(w.data_len, 1234);
    assert_eq!(load_wav(&wav(3, 16)), Err(WavError::NotPcm));
    assert_eq!(load_wav(&wav(1, 24)), Err(WavError::Not16Bit));
    assert_eq!(load_wav(&[0; 44]), Err(WavError::NotWav));
    let mut h = wav(1, 16);
    h[8] = b'x';
    assert_eq!(load_wav(&h), Err(WavError::NotWav));
}

// ── Connections ──

fn acted(a: ClientAction) -> String {
    match a {
        ClientAction::Wait(ms) => {
            assert_eq!(ms, WAIT_MS);
            "wait".into()
        }
        ClientAction::Read(n) => {
            assert_eq!(n, READ_BYTES);
            "read".into()
        }
        ClientAction::Play(b) => format!("play {b:?}"),
        ClientAction::Flush => "flush".into(),
        ClientAction::Obey(c) => format!("{c:?}"),
        ClientAction::Finish => "finish".into(),
    }
}

#[test]
fn stream_connection_acts_in_order() {
    let mut bytes = encode_pcm(&[1, 2]);
    bytes.extend(encode_cmd(Cmd::Flush));
    bytes.extend(encode_cmd(Cmd::Mute));
    bytes.extend([9, 0]);
    let mut c = Client::new(true);
    assert_eq!(acted(c.step(ClientEvent::Done, false)), "wait");
    assert_eq!(acted(c.step(ClientEvent::Idle, false)), "wait");
    assert_eq!(acted(c.step(ClientEvent::Ready, false)), "read");
    assert_eq!(acted(c.step(ClientEvent::Interrupted, false)), "read");
    assert_eq!(acted(c.step(ClientEvent::Data(bytes), false)), "play [1, 2]");
    assert_eq!(acted(c.step(ClientEvent::Done, false)), "flush");
    assert_eq!(acted(c.step(ClientEvent::Done, false)), "Mute");
    // The next frame has begun, and is read to its end.
    assert_eq!(acted(c.step(ClientEvent::Done, false)), "read");
    assert_eq!(acted(c.step(ClientEvent::Interrupted, false)), "read");
    assert_eq!(acted(c.step(ClientEvent::Data(vec![]), false)), "finish");
    assert_eq!(acted(c.step(ClientEvent::Done, false)), "finish");
}

#[test]
fn shutdown_is_seen_before_each_frame() {
    let mut bytes = encode_pcm(&[1, 2]);
    bytes.extend(encode_cmd(Cmd::Flush));
    let reading = |stream| {
        let mut c = Client::new(stream);
        let _ = c.step(ClientEvent::Done, false);
        if stream {
            let _ = c.step(ClientEvent::Ready, false);
        }
        c
    };
    let mut c = reading(true);
    assert_eq!(acted(c.step(ClientEvent::Data(bytes), false)), "play [1, 2]");
    assert_eq!(acted(c.step(ClientEvent::Done, true)), "finish");
    // A frame that is being read is still acted on.
    let mut c = reading(true);
    let pcm = encode_pcm(&[1, 2]);
    assert_eq!(acted(c.step(ClientEvent::Data(pcm[..5].to_vec()), true)), "read");
    assert_eq!(acted(c.step(ClientEvent::Data(pcm[5..].to_vec()), true)), "play [1, 2]");
    assert_eq!(acted(c.step(ClientEvent::Done, true)), "finish");
    // Control connections do not look for it.
    let mut c = reading(false);
    let mut two = encode_cmd(Cmd::Mute);
    two.extend(encode_cmd(Cmd::Unmute));
    assert_eq!(acted(c.step(ClientEvent::Data(two), true)), "Mute");
    assert_eq!(acted(c.step(ClientEvent::Done, true)), "Unmute");
    assert_eq!(acted(c.step(ClientEvent::Done, true)), "read");
}

#[test]
fn interrupted_reads_go_on_outside_audio() {
    let mut c = Client::new(true);
    let _ = c.step(ClientEvent::Done, false);
    let _ = c.step(ClientEvent::Ready, false);
    let pcm = encode_pcm(&[1, 2]);
    assert_eq!(acted(c.step(ClientEvent::Data(pcm[..3].to_vec()), false)), "read");
    assert_eq!(acted(c.step(ClientEvent::Interrupted, false)), "read");
    assert_eq!(acted(c.step(ClientEvent::Data(pcm[3..5].to_vec()), false)), "read");
    assert_eq!(acted(c.step(ClientEvent::Interrupted, false)), "finish");
}

#[test]
fn connections_end_for_a_reason() {
    let mut c = Client::new(true);
    let _ = c.step(ClientEvent::Done, false);
    assert_eq!(acted(c.step(ClientEvent::Ready, true)), "finish");
    let mut c = Client::new(true);
    let _ = c.step(ClientEvent::Done, false);
    assert_eq!(acted(c.step(ClientEvent::Failed, false)), "finish");
    let mut c = Client::new(false);
    assert_eq!(acted(c.step(ClientEvent::Done, false)), "read");
    assert_eq!(acted(c.step(ClientEvent::Failed, false)), "finish");
    // What came before something bad is still acted on.
    let mut bytes = encode_cmd(Cmd::Status);
    bytes.extend(encode_pcm(&[1]));
    let mut c = Client::new(false);
    let _ = c.step(ClientEvent::Done, false);
    assert_eq!(acted(c.step(ClientEvent::Data(bytes), false)), "Status");
    assert_eq!(acted(c.step(ClientEvent::Done, false)), "finish");
}

#[test]
fn control_connection_takes_flush_as_a_command() {
    let mut c = Client::new(false);
    let _ = c.step(ClientEvent::Done, false);
    let b = encode_cmd(Cmd::Flush);
    assert_eq!(acted(c.step(ClientEvent::Data(b[..3].to_vec()), false)), "read");
    assert_eq!(acted(c.step(ClientEvent::Data(b[3..].to_vec()), false)), "Flush");
    assert_eq!(acted(c.step(ClientEvent::Done, false)), "read");
}

// ── Sources ──

#[test]
fn file_source_plays_whole_frames() {
    let cfg = AudioCfg::new(48000, 2, FORMAT_S16_LE);
    let mut st = ServerState::new();
    let mut p = Player::open(&cfg, false);
    let mut s = Source::new(4, Some(11));
    st.muted = true;
    let mute = SourceAction::SetMute { muted: true, amp: false };
    assert_eq!(s.step(&mut p, &st, SourceEvent::Done), mute);
    assert_eq!(s.step(&mut p, &st, SourceEvent::Done), SourceAction::Sleep(10));
    assert_eq!(s.step(&mut p, &st, SourceEvent::Done), SourceAction::Sleep(10));
    st.muted = false;
    let unmute = SourceAction::SetMute { muted: false, amp: false };
    assert_eq!(s.step(&mut p, &st, SourceEvent::Done), unmute);
    let play = SourceAction::Play { from: 0, to: 8, frames: 2 };
    assert_eq!(s.step(&mut p, &st, SourceEvent::MuteFailed), play);
    // The mute state that was not applied is tried again.
    assert_eq!(s.step(&mut p, &st, SourceEvent::Done), unmute);
    assert_eq!(s.step(&mut p, &st, SourceEvent::Done), SourceAction::Drain);
    let mut whole = Source::new(4, Some(8));
    let mut p = Player::open(&cfg, true);
    assert_eq!(whole.step(&mut p, &st, SourceEvent::Done), play);
    assert_eq!(whole.step(&mut p, &st, SourceEvent::Done), SourceAction::Drain);
}

#[test]
fn stdin_source_reads_until_eof() {
    let cfg = AudioCfg::new(48000, 2, FORMAT_S16_LE);
    let mut st = ServerState::new();
    let mut p = Player::open(&cfg, false);
    let mut s = Source::new(4, None);
    assert_eq!(s.step(&mut p, &st, SourceEvent::Done), SourceAction::Read);
    let play = SourceAction::Play { from: 0, to: 12, frames: 3 };
    assert_eq!(s.step(&mut p, &st, SourceEvent::Got(14)), play);
    assert_eq!(s.step(&mut p, &st, SourceEvent::Done), SourceAction::Read);
    assert_eq!(s.step(&mut p, &st, SourceEvent::Got(3)), SourceAction::Read);
    // Muted in software: what is read is dropped.
    st.muted = true;
    let mute = SourceAction::SetMute { muted: true, amp: false };
    assert_eq!(s.step(&mut p, &st, SourceEvent::Got(16)), mute);
    assert_eq!(s.step(&mut p, &st, SourceEvent::Done), SourceAction::Read);
    assert_eq!(s.step(&mut p, &st, SourceEvent::Got(16)), SourceAction::Read);
    assert_eq!(s.step(&mut p, &st, SourceEvent::Eof), SourceAction::Drain);
    assert_eq!(s.step(&mut p, &st, SourceEvent::Done), SourceAction::Drain);
}
