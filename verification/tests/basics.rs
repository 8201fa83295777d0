use audiod::cli::{ctl_command, ctl_request, mode, parse_args, parse_ctl, Cli, CtlParse, Mode};
use audiod::common::{format_bytes, pcm_format_bytes, AudioCfg, SOCKET_PATH_STR};
use audiod::config::{
    config_path, load_config, Config, ConfigFile, ServerSection, ShimSection, UNITY_VOLUME,
};
use audiod::hda::dbg::CmdEngineKind;
use audiod::ring::{AudioRingBuffer, PopOutcome};
use audiod::server::protocol::{classify, Cmd, Frame, FrameReader, Intro};
use audiod::text::{contains, decimal_i64, decimal_u64, parse_u32, starts_with, str_eq, strip_prefix};

// ── Ring ──

#[test]
fn ring_capacity_is_a_power_of_two() {
    for (asked, got) in [(0, 1), (1, 1), (2, 2), (3, 4), (1000, 1024), (65536, 65536)] {
        assert_eq!(AudioRingBuffer::new(asked).capacity(), got);
    }
}

#[test]
fn ring_is_first_in_first_out() {
    let mut r = AudioRingBuffer::new(8);
    let mut next = 0u8;
    let mut want = 0u8;
    for round in 0..50 {
        let n = 1 + round % 5;
        let data: Vec<u8> = (0..n).map(|i| next.wrapping_add(i)).collect();
        if r.push(&data) {
            next = next.wrapping_add(n);
        }
        assert_eq!(r.filled() + r.available(), 8);
        let mut buf = [0u8; 3];
        let got = r.try_pop(&mut buf);
        for b in &buf[..got] {
            assert_eq!(*b, want);
            want = want.wrapping_add(1);
        }
    }
    assert!(want > 50);
}

#[test]
fn ring_takes_all_or_nothing() {
    let mut r = AudioRingBuffer::new(4);
    assert!(r.push(&[1, 2, 3]));
    assert!(!r.push(&[4, 5]));
    assert_eq!(r.filled(), 3);
    assert!(r.push(&[4]));
    assert_eq!(r.available(), 0);
    assert!(r.push(&[]));
}

#[test]
fn ring_interrupts() {
    let mut r = AudioRingBuffer::new(4);
    let mut buf = [9u8; 4];
    assert_eq!(r.pop(&mut buf), PopOutcome::Empty);
    assert!(r.push(&[1, 2]));
    r.interrupt();
    assert_eq!(r.pop(&mut buf), PopOutcome::Interrupted);
    assert_eq!(r.pop(&mut buf), PopOutcome::Bytes(2));
    assert_eq!(buf, [1, 2, 9, 9]);
    assert!(r.push(&[1, 2]));
    r.clear();
    assert_eq!(r.filled(), 0);
    assert_eq!(r.try_pop(&mut buf), 0);
}

// ── Formats and text ──

#[test]
fn sample_sizes() {
    assert_eq!((format_bytes(2), format_bytes(14), format_bytes(6)), (2, 4, 2));
    assert_eq!(
        (pcm_format_bytes(2), pcm_format_bytes(6), pcm_format_bytes(14), pcm_format_bytes(10)),
        (2, 4, 4, 2)
    );
    let c = AudioCfg::new(48000, 6, 14);
    assert_eq!((c.rate, c.channels, c.format, c.frame_size), (48000, 6, 14, 24));
}

#[test]
fn decimal_text() {
    assert_eq!(decimal_u64(0), "0");
    assert_eq!(decimal_u64(u64::MAX), u64::MAX.to_string());
    assert_eq!(decimal_i64(i64::MIN), i64::MIN.to_string());
    assert_eq!(decimal_i64(-1), "-1");
    for n in [0u32, 7, 1000, u32::MAX] {
        assert_eq!(parse_u32(&decimal_u64(n as u64)), Some(n));
    }
    for s in ["", "+", "+5", "-1", "4294967296", "12a", " 1", "007"] {
        assert_eq!(parse_u32(s), s.parse().ok(), "{s:?}");
    }
}

#[test]
fn text_search() {
    assert!(str_eq("ab", "ab") && !str_eq("ab", "abc"));
    assert!(starts_with("hda:x", "hda:") && !starts_with("hd", "hda"));
    assert_eq!(strip_prefix("--rate=8", "--rate="), Some("8".to_string()));
    assert_eq!(strip_prefix("-rate=8", "--rate="), None);
    assert!(contains("a::mute", "::mute") && contains("x", "") && !contains("mut", "mute"));
}

// ── Command lines ──

fn args(line: &str) -> Vec<String> {
    line.split(' ').map(|s| s.to_string()).collect()
}

fn cli(line: &str) -> Cli {
    parse_args(&args(line))
}

#[test]
fn server_options() {
    let c = cli("audiod");
    assert_eq!(c.dev_name, "hda");
    assert!(!c.list_only && c.positional.is_empty() && c.dbg.cmd_engine.is_none());
    let c = cli("audiod -d hda:0000:00:1f.3 -l --skip-reset --cmd-engine=pio song.wav");
    assert_eq!(c.dev_name, "hda:0000:00:1f.3");
    assert!(c.list_only && c.dbg.skip_reset && !c.dbg.dump_ring);
    assert_eq!(c.dbg.cmd_engine, Some(CmdEngineKind::Pio));
    assert_eq!(c.positional, vec!["song.wav"]);
    let c = cli("audiod --cmd-engine=corb --dump-state --dump-ring --dump-topology --skip-codec-init -d");
    assert_eq!(c.dbg.cmd_engine, Some(CmdEngineKind::Corb));
    assert!(c.dbg.dump_state && c.dbg.dump_ring && c.dbg.dump_topology && c.dbg.skip_codec_init);
    assert_eq!(c.dev_name, "hda");
}

fn mode_of(line: &str) -> String {
    match mode(&cli(line).positional) {
        Mode::Serve => "serve".into(),
        Mode::Help => "help".into(),
        Mode::Stdin { rate, channels } => format!("stdin {rate} {channels}"),
        Mode::SelfTest { secs, rate } => format!("selftest {secs:?} {rate}"),
        Mode::Wav(p) => format!("wav {p}"),
    }
}

#[test]
fn server_modes() {
    assert_eq!(mode_of("audiod"), "serve");
    assert_eq!(mode_of("audiod -h"), "help");
    assert_eq!(mode_of("audiod --help"), "help");
    assert_eq!(mode_of("audiod -"), "stdin 44100 2");
    assert_eq!(mode_of("audiod --stdin --rate=8000 --channels=1"), "stdin 8000 1");
    assert_eq!(mode_of("audiod --stdin --rate=x --channels="), "stdin 44100 2");
    assert_eq!(mode_of("audiod --selftest"), "selftest None 48000");
    assert_eq!(mode_of("audiod --selftest --secs=1.5 --rate=44100"), "selftest Some(\"1.5\") 44100");
    assert_eq!(mode_of("audiod a.wav b.wav"), "wav a.wav");
}

fn ctl(line: &str) -> String {
    match parse_ctl(&args(line)) {
        CtlParse::Help => "help".into(),
        CtlParse::TooMany => "too many".into(),
        CtlParse::Run(a) => format!("{} {} {:?}", a.socket, a.command, a.volume),
    }
}

#[test]
fn control_arguments() {
    assert_eq!(ctl("audioctl"), format!("{SOCKET_PATH_STR} status None"));
    assert_eq!(ctl("audioctl -s /run/a mute"), "/run/a mute None");
    assert_eq!(ctl("audioctl volume 30"), format!("{SOCKET_PATH_STR} volume Some(\"30\")"));
    assert_eq!(ctl("audioctl mute -s"), format!("{SOCKET_PATH_STR} mute None"));
    assert_eq!(ctl("audioctl mute -h"), "help");
    assert_eq!(ctl("audioctl a b c"), "too many");
}

#[test]
fn control_commands() {
    assert_eq!(ctl_command("mute", 0), Some(Cmd::Mute));
    assert_eq!(ctl_command("unmute", 0), Some(Cmd::Unmute));
    assert_eq!(ctl_command("status", 0), Some(Cmd::Status));
    assert_eq!(ctl_command("flush", 0), None);
    assert_eq!(
        ctl_command("volume", 250.0f32.to_bits()),
        Some(Cmd::Volume(100.0f32.to_bits()))
    );
}

#[test]
fn control_requests_reach_the_server() {
    for c in [Cmd::Mute, Cmd::Unmute, Cmd::Flush, Cmd::Volume(7), Cmd::Status] {
        let sent = ctl_request(c);
        let h: [u8; 12] = sent[..12].try_into().unwrap();
        assert_eq!(classify(&h), Intro::Control);
        let mut r = FrameReader::new(false);
        let mut out = Vec::new();
        r.feed(&sent[12..], &mut out);
        assert!(!r.is_bad() && out.len() == 1);
        assert!(matches!(out[0], Frame::Command(got) if got == c));
    }
}

// ── Configuration ──

#[test]
fn configuration_defaults() {
    for c in [Config::default(), load_config(None), load_config(Some(ConfigFile { server: None, shim: None }))] {
        assert_eq!(c.server.socket_path, "/tmp/audiod.sock");
        assert_eq!(f64::from_bits(c.server.volume), 1.0);
        assert_eq!((c.server.mix_rate, c.server.max_clients), (48000, 8));
        assert_eq!(c.server.client_ring_bytes, 65536);
        assert_eq!(c.server.resampler, "sinc");
        assert_eq!(c.shim.ring_buffer_size, 1048576);
    }
}

#[test]
fn configuration_files_override() {
    let c = load_config(Some(ConfigFile {
        server: Some(ServerSection {
            socket_path: None,
            volume: Some(0.5f64.to_bits()),
            mix_rate: Some(44100),
            max_clients: None,
            client_ring_bytes: Some(4096),
            resampler: Some("linear".into()),
        }),
        shim: Some(ShimSection { ring_buffer_size: Some(10) }),
    }));
    assert_eq!(c.server.socket_path, "/tmp/audiod.sock");
    assert_eq!(f64::from_bits(c.server.volume), 0.5);
    assert_eq!((c.server.mix_rate, c.server.max_clients), (44100, 8));
    assert_eq!((c.server.client_ring_bytes, c.shim.ring_buffer_size), (4096, 10));
    assert_eq!(c.server.resampler, "linear");
    assert_ne!(c.server.volume, UNITY_VOLUME);
}

#[test]
fn configuration_path() {
    assert_eq!(config_path(Some("/x/y.toml"), Some("/home/u")), "/x/y.toml");
    assert_eq!(config_path(None, Some("/home/u")), "/home/u/.config/audiod/config.toml");
    assert_eq!(config_path(None, Some("/")), "/.config/audiod/config.toml");
    assert_eq!(config_path(None, Some("")), ".config/audiod/config.toml");
    assert_eq!(config_path(None, None), "/tmp/.config/audiod/config.toml");
}
