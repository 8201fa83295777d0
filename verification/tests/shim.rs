use audiod::common::{DRAIN_CHUNK, MSG_MUTE, MSG_UNMUTE, SHIM_BUFFER_FRAMES, SHIM_SERVER_FRAMES};
use audiod::server::protocol::encode_header;
use audiod::shim::abi::{
    format_widths, params_set_rate, snd_pcm_format_size, snd_pcm_get_chmap, snd_pcm_hw_params_any,
    snd_pcm_hw_params_copy, snd_pcm_hw_params_get_rate, snd_pcm_poll_descriptors,
    snd_pcm_poll_descriptors_revents, snd_pcm_state_name, snd_pcm_status,
    snd_pcm_status_get_avail, snd_pcm_status_get_delay, snd_pcm_status_get_state, snd_strerror,
    SndOutput, HW_PARAMS_SIZE, STATUS_SIZE,
};
use audiod::shim::drain::{
    Backoff, Drain, DrainAction, Reconnect, ReconnectAction, SendAction, SendEvent, WriteAll,
};
use audiod::shim::pcm::{
    pcm_delay_avail, snd_pcm_t, Announced, Commit, Signals, WriteError, SND_PCM_STATE_OPEN,
    SND_PCM_STATE_PAUSED, SND_PCM_STATE_PREPARED, SND_PCM_STATE_RUNNING, SND_PCM_STATE_SETUP,
};
use audiod::shim::symbols::{catches_library, lookup, resolve, symbols, Resolution, SYMBOLS};

fn quiet() -> Signals {
    Signals { mute_cmd: 0, last_silent: false, flush: false }
}

fn stereo() -> snd_pcm_t {
    let mut h = snd_pcm_t::snd_pcm_open(65536);
    h.snd_pcm_set_params(2, 2, 48000);
    match h.commit_configured(true) {
        Commit::Send(b) => assert_eq!(b, encode_header(48000, 2, 2)),
        _ => panic!("no header"),
    }
    h.configured();
    h
}

// ── Handles ──

#[test]
fn handle_life_cycle() {
    let mut h = snd_pcm_t::snd_pcm_open(65536);
    assert_eq!(snd_pcm_t::snd_pcm_state(None), SND_PCM_STATE_OPEN);
    assert_eq!(snd_pcm_t::snd_pcm_state(Some(&h)), SND_PCM_STATE_SETUP);
    h.snd_pcm_prepare();
    assert_eq!(h.shape.state, SND_PCM_STATE_PREPARED);
    h.snd_pcm_start();
    assert_eq!(h.shape.state, SND_PCM_STATE_RUNNING);
    let mut sig = quiet();
    h.snd_pcm_pause(1, &mut sig);
    assert_eq!(h.shape.state, SND_PCM_STATE_PAUSED);
    assert!(sig.flush);
    h.snd_pcm_pause(0, &mut sig);
    assert_eq!(h.shape.state, SND_PCM_STATE_RUNNING);
    h.snd_pcm_drain();
    assert_eq!(h.shape.state, SND_PCM_STATE_PREPARED);
}

#[test]
fn commit_needs_rate_channels_and_connection() {
    let mut h = snd_pcm_t::snd_pcm_open(65536);
    assert!(matches!(h.commit_configured(true), Commit::Invalid));
    h.set_rate(44100);
    assert!(matches!(h.commit_configured(true), Commit::Invalid));
    h.set_channels(1);
    h.set_format(14);
    assert!(matches!(h.commit_configured(false), Commit::NotConnected));
    assert_eq!(h.shape.header, None);
    match h.commit_configured(true) {
        Commit::Send(b) => assert_eq!(b, encode_header(44100, 1, 14)),
        _ => panic!("no header"),
    }
    assert_eq!(h.shape.header, Some(Announced { rate: 44100, channels: 1, format: 14 }));
    h.configured();
    assert!(matches!(h.commit_configured(true), Commit::Done));
}

#[test]
fn drop_discards_and_flushes() {
    let mut fresh = snd_pcm_t::snd_pcm_open(1024);
    let mut sig = quiet();
    fresh.snd_pcm_drop(&mut sig);
    assert!(!sig.flush);
    let mut h = stereo();
    h.writei_begin(&[1; 8], &mut sig, 77);
    assert!(h.writei_push(&[1; 8]));
    assert_eq!((h.shape.total_pushed, h.shape.play_start), (8, Some(77)));
    h.snd_pcm_drop(&mut sig);
    assert!(sig.flush);
    assert_eq!((h.shape.total_pushed, h.shape.play_start, h.ring.filled()), (0, None, 0));
}

#[test]
fn writes_are_checked() {
    let mut h = snd_pcm_t::snd_pcm_open(1024);
    assert_eq!(h.writei_bytes(10), Err(WriteError::NotConfigured));
    h.configured();
    assert_eq!(h.writei_bytes(10), Err(WriteError::NoChannels));
    assert_eq!(stereo().writei_bytes(10), Ok(40));
    assert_eq!(h.snd_pcm_frames_to_bytes(10), 20);
    assert_eq!(stereo().snd_pcm_frames_to_bytes(10), 40);
    assert_eq!(stereo().snd_pcm_frames_to_bytes(-3), 0);
}

#[test]
fn silence_is_noticed() {
    let mut h = stereo();
    let mut sig = quiet();
    h.writei_begin(&[0; 8], &mut sig, 1);
    assert_eq!((sig.mute_cmd, sig.last_silent), (MSG_MUTE, true));
    sig.mute_cmd = 0;
    h.writei_begin(&[0; 8], &mut sig, 2);
    assert_eq!(sig.mute_cmd, 0);
    h.writei_begin(&[0, 1], &mut sig, 3);
    assert_eq!((sig.mute_cmd, sig.last_silent), (MSG_UNMUTE, false));
    assert_eq!(h.shape.play_start, Some(1));
}

#[test]
fn full_ring_holds_writes_back() {
    let mut h = snd_pcm_t::snd_pcm_open(1024);
    assert!(h.writei_push(&[1; 1000]));
    assert!(!h.writei_push(&[1; 25]));
    assert_eq!(h.shape.total_pushed, 1000);
    assert!(h.writei_push(&[1; 24]));
}

#[test]
fn delay_model() {
    let mut h = snd_pcm_t::snd_pcm_open(65536);
    // Without channels, the server's share.
    assert_eq!(pcm_delay_avail(&h, 0), (SHIM_SERVER_FRAMES, SHIM_BUFFER_FRAMES - SHIM_SERVER_FRAMES));
    h.snd_pcm_set_params(2, 2, 48000);
    h.shape.total_pushed = 4 * 1000;
    assert_eq!(pcm_delay_avail(&h, 0), (5096, 3096));
    assert_eq!(pcm_delay_avail(&h, 400), (4696, 3496));
    assert_eq!(pcm_delay_avail(&h, 1000), (4096, 4096));
    assert_eq!(pcm_delay_avail(&h, 100_000), (4096, 4096));
    h.shape.total_pushed = 4 * 10_000;
    assert_eq!(pcm_delay_avail(&h, 0), (8192, 0));
    let mut last = isize::MAX;
    for consumed in 0..12_000 {
        let (delay, avail) = pcm_delay_avail(&h, consumed);
        assert!(delay <= last && (last == isize::MAX || last - delay <= 1));
        assert_eq!(delay + avail, SHIM_BUFFER_FRAMES);
        last = delay;
    }
}

#[test]
fn reconnect_announces_again() {
    let mut h = snd_pcm_t::snd_pcm_open(1024);
    assert!(h.reconnected().is_none());
    let mut h = stereo();
    h.shape.total_pushed = 5;
    h.shape.total_written = 6;
    h.shape.play_start = Some(1);
    assert_eq!(h.reconnected(), Some(encode_header(48000, 2, 2)));
    assert_eq!((h.shape.total_pushed, h.shape.total_written, h.shape.play_start), (0, 0, None));
}

// ── The drain thread ──

fn sent(a: DrainAction) -> Vec<u8> {
    match a {
        DrainAction::Send(b) => b,
        _ => panic!("nothing sent"),
    }
}

#[test]
fn drain_sends_commands_first() {
    let mut h = stereo();
    let mut sig = Signals { mute_cmd: MSG_MUTE, last_silent: true, flush: true };
    let mut d = Drain::new();
    assert!(h.writei_push(&[7; 1500]));
    assert_eq!(sent(d.step(&mut h, &mut sig, false, true, true)), vec![0, 0, 0, 0, b'M']);
    assert_eq!(sent(d.step(&mut h, &mut sig, false, true, true)), vec![0, 0, 0, 0, b'F']);
    let b = sent(d.step(&mut h, &mut sig, false, true, true));
    assert_eq!(b.len(), 4 + DRAIN_CHUNK);
    assert_eq!(&b[..5], &[0, 4, 0, 0, 7]);
    assert!(matches!(d.step(&mut h, &mut sig, false, true, true), DrainAction::Continue));
    assert_eq!(h.shape.total_written, 1024);
    assert_eq!(sent(d.step(&mut h, &mut sig, false, true, true)).len(), 4 + 476);
    assert!(matches!(d.step(&mut h, &mut sig, false, true, true), DrainAction::Continue));
    assert_eq!(h.shape.total_written, 1500);
    assert!(matches!(d.step(&mut h, &mut sig, false, true, true), DrainAction::Wait));
    h.ring.interrupt();
    assert!(matches!(d.step(&mut h, &mut sig, false, true, true), DrainAction::Continue));
    assert!(matches!(d.step(&mut h, &mut sig, true, true, true), DrainAction::Finish));
    assert!(matches!(d.step(&mut h, &mut sig, false, true, true), DrainAction::Finish));
}

#[test]
fn drain_reconnects_once() {
    let mut h = stereo();
    let mut sig = quiet();
    let mut d = Drain::new();
    assert!(h.writei_push(&[7; 10]));
    let _ = sent(d.step(&mut h, &mut sig, false, true, true));
    assert!(matches!(d.step(&mut h, &mut sig, false, true, false), DrainAction::Reconnect));
    assert!(matches!(d.step(&mut h, &mut sig, false, true, true), DrainAction::Continue));
    assert_eq!(h.shape.total_written, 0);
    sig.flush = true;
    let _ = sent(d.step(&mut h, &mut sig, false, true, true));
    assert!(matches!(d.step(&mut h, &mut sig, false, true, false), DrainAction::Reconnect));
    assert!(matches!(d.step(&mut h, &mut sig, false, true, false), DrainAction::Finish));
}

#[test]
fn drain_without_connection_discards() {
    let mut h = stereo();
    let mut sig = Signals { mute_cmd: MSG_MUTE, last_silent: true, flush: true };
    let mut d = Drain::new();
    assert!(h.writei_push(&[7; 10]));
    assert!(matches!(d.step(&mut h, &mut sig, false, false, true), DrainAction::Continue));
    assert_eq!((h.ring.filled(), sig.mute_cmd, sig.flush), (0, 0, false));
}

#[test]
fn sending_goes_on_until_done() {
    let mut w = WriteAll::new(10);
    assert_eq!(w.begin(), SendAction::From(0));
    assert_eq!(w.write_all(SendEvent::Sent(4)), SendAction::From(4));
    assert_eq!(w.write_all(SendEvent::Interrupted), SendAction::From(4));
    assert_eq!(w.write_all(SendEvent::Busy), SendAction::YieldThenFrom(4));
    assert_eq!(w.write_all(SendEvent::Sent(6)), SendAction::Done);
    assert_eq!(WriteAll::new(3).write_all(SendEvent::Failed), SendAction::Failed);
    assert_eq!(WriteAll::new(0).begin(), SendAction::Done);
}

#[test]
fn backoff_doubles_up_to_two_seconds() {
    let mut b = Backoff::new();
    let waits: Vec<u64> = (0..8).map(|_| b.failed()).collect();
    assert_eq!(waits, vec![50, 100, 200, 400, 800, 1600, 2000, 2000]);
}

#[test]
fn reconnect_runs_until_connected() {
    let mut h = stereo();
    h.shape.total_pushed = 9;
    let mut r = Reconnect::new();
    assert!(matches!(r.step(&mut h, false, true), ReconnectAction::Close));
    assert!(matches!(r.step(&mut h, false, true), ReconnectAction::Connect));
    assert!(matches!(r.step(&mut h, false, false), ReconnectAction::Sleep(50)));
    assert!(matches!(r.step(&mut h, false, true), ReconnectAction::Connect));
    assert!(matches!(r.step(&mut h, false, false), ReconnectAction::Sleep(100)));
    assert_eq!(h.shape.total_pushed, 9);
    assert!(matches!(r.step(&mut h, false, true), ReconnectAction::Connect));
    match r.step(&mut h, false, true) {
        ReconnectAction::Announce(b) => assert_eq!(b, encode_header(48000, 2, 2)),
        _ => panic!("no header"),
    }
    assert_eq!(h.shape.total_pushed, 0);
    assert!(matches!(r.step(&mut h, false, false), ReconnectAction::Connected));
    assert!(matches!(r.step(&mut h, true, true), ReconnectAction::Connected));
}

#[test]
fn reconnect_gives_up_when_closed() {
    let mut h = snd_pcm_t::snd_pcm_open(1024);
    let mut r = Reconnect::new();
    let _ = r.step(&mut h, false, true);
    let _ = r.step(&mut h, false, true);
    assert!(matches!(r.step(&mut h, true, false), ReconnectAction::Sleep(50)));
    assert!(matches!(r.step(&mut h, true, true), ReconnectAction::GiveUp));
    assert!(matches!(r.step(&mut h, false, true), ReconnectAction::GiveUp));
    let mut r = Reconnect::new();
    let _ = r.step(&mut h, false, true);
    let _ = r.step(&mut h, false, true);
    assert!(matches!(r.step(&mut h, false, true), ReconnectAction::Connected));
}

// ── Callers' view ──

#[test]
fn widths_and_sizes() {
    assert_eq!(format_widths(2), (16, 16));
    assert_eq!(format_widths(6), (24, 32));
    assert_eq!(format_widths(10), (32, 32));
    assert_eq!(format_widths(14), (32, 32));
    assert_eq!(format_widths(16), (64, 64));
    assert_eq!(format_widths(-1), (16, 16));
    assert_eq!(snd_pcm_format_size(6, 3), 12);
    assert_eq!(snd_pcm_format_size(16, 3), 24);
    assert_eq!(snd_pcm_format_size(2, -3), -6);
}

#[test]
fn error_texts() {
    assert_eq!(snd_strerror(0), "Success");
    assert_eq!(snd_strerror(-32), "Broken pipe");
    assert_eq!(snd_strerror(22), "Invalid argument");
    assert_eq!(snd_strerror(-99), "errno=-99");
    assert_eq!(snd_strerror(i32::MIN), "errno=-2147483648");
}

#[test]
fn state_names() {
    assert_eq!(snd_pcm_state_name(0), "SND_PCM_STATE_OPEN");
    assert_eq!(snd_pcm_state_name(3), "RUNNING");
    assert_eq!(snd_pcm_state_name(8), "DISCONNECTED");
    assert_eq!(snd_pcm_state_name(9), "UNKNOWN");
}

#[test]
fn hardware_parameters() {
    let mut m = vec![9u8; HW_PARAMS_SIZE];
    snd_pcm_hw_params_any(&mut m);
    assert_eq!(&m[..10], &[0x80, 0xbb, 0, 0, 0, 0, 2, 0, 0, 0]);
    assert_eq!(snd_pcm_hw_params_get_rate(Some(&m)), 48000);
    params_set_rate(&mut m, 44100);
    assert_eq!(snd_pcm_hw_params_get_rate(Some(&m)), 44100);
    let mut n = vec![0u8; HW_PARAMS_SIZE];
    snd_pcm_hw_params_copy(&mut n, &m);
    assert_eq!(n, m);
    params_set_rate(&mut m, 0);
    assert_eq!(snd_pcm_hw_params_get_rate(Some(&m)), 48000);
    assert_eq!(snd_pcm_hw_params_get_rate(None), 48000);
}

#[test]
fn status_blobs() {
    let mut m = vec![9u8; STATUS_SIZE];
    snd_pcm_status(&mut m, 3, -5, 4096);
    assert_eq!(snd_pcm_status_get_state(Some(&m)), 3);
    assert_eq!(snd_pcm_status_get_delay(Some(&m)), -5);
    assert_eq!(snd_pcm_status_get_avail(Some(&m)), 4096);
    assert_eq!((m[0], m[4], m[56], m[63], m[65], m[127]), (3, 0, 0xfb, 0xff, 0x10, 0));
    assert_eq!(snd_pcm_status_get_state(None), SND_PCM_STATE_OPEN);
    assert_eq!(snd_pcm_status_get_delay(None), 0);
    assert_eq!(snd_pcm_status_get_avail(None), 4096);
}

#[test]
fn channel_map_and_polling() {
    assert_eq!(snd_pcm_get_chmap(), [2, 3, 4]);
    assert_eq!(snd_pcm_poll_descriptors(1, 7), 1);
    assert_eq!(snd_pcm_poll_descriptors(0, 7), 0);
    assert_eq!(snd_pcm_poll_descriptors(1, -1), 0);
    assert!(snd_pcm_poll_descriptors_revents(7, 1));
    assert!(!snd_pcm_poll_descriptors_revents(7, 4));
    assert!(!snd_pcm_poll_descriptors_revents(-1, 1));
    let mut o = SndOutput::new();
    o.pos = 9;
    o.clear();
    assert_eq!((o.buf.len(), o.pos), (4096, 0));
}

#[test]
fn symbols_resolve() {
    let all = symbols();
    assert_eq!(all.len(), SYMBOLS);
    for (i, s) in all.iter().enumerate() {
        assert_eq!(lookup(s), Some(i), "{s}");
        assert_eq!(lookup(&format!("{s}@ALSA_0.9")), Some(i), "{s}");
    }
    assert_eq!(lookup("snd_pcm_open@ALSA_1.0"), None);
    assert_eq!(resolve("snd_config"), Resolution::ConfigTree);
    assert_eq!(resolve("snd_pcm_open"), Resolution::Function(lookup("snd_pcm_open").unwrap()));
    assert_eq!(resolve("snd_seq_open"), Resolution::Missing);
    assert!(catches_library("/usr/lib/libasound.so.2"));
    assert!(!catches_library("libpulse.so.0"));
}
